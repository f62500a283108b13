//! What contracts speak of is the contents of values: here is that a value's
//! contents are just what its fields hold, each under its own name.

use crate::action::{ImageStep, ImageStepView, Visuals};
use crate::apps::{app_views, found_views, AppEntry, FoundEntry};
use crate::backend::gnome::{call_result, window_views, GnomeWindow, ShellCall};
use crate::backend::{
    active_result, list_result, unit_result, BackendError, ErrorView, Invocation, WindowId,
};
use crate::decision::{Decision, DecisionView};
use crate::outside::DesktopFields;
use crate::report::{LogLine, Report};
use crate::run::{
    failure_views, launch_result, OutcomeView, Reply, ReplyView, Request, RequestView, RunOutcome,
};
use crate::settings::{FocusOrLaunchSettings, IconSource, IconSourceView};
use crate::text::{opt_str_view, opt_view, views};
use vstd::prelude::*;

verus! {

/// The contents of optional strings and of lists are those of what they hold,
/// in order.
pub proof fn law_contents_of_lists(
    list: Seq<String>,
    some: String,
    apps: Seq<AppEntry>,
    found: Seq<FoundEntry>,
    windows: Seq<GnomeWindow>,
    failures: Seq<(WindowId, String)>,
)
    ensures
        opt_view(None) is None,
        opt_view(Some(some)) == Some(some@),
        opt_str_view(None) is None,
        views(list).len() == list.len(),
        forall|i: int| 0 <= i < list.len() ==> #[trigger] views(list)[i] == list[i]@,
        app_views(apps).len() == apps.len(),
        forall|i: int| 0 <= i < apps.len() ==> #[trigger] app_views(apps)[i] == apps[i]@,
        found_views(found).len() == found.len(),
        forall|i: int| 0 <= i < found.len() ==> #[trigger] found_views(found)[i] == found[i]@,
        window_views(windows).len() == windows.len(),
        forall|i: int| 0 <= i < windows.len() ==> #[trigger] window_views(windows)[i] == windows[i]@,
        failure_views(failures).len() == failures.len(),
        forall|i: int|
            0 <= i < failures.len() ==> #[trigger] failure_views(failures)[i] == (
                failures[i].0@,
                failures[i].1@,
            ),
{
}

/// The contents of settings are those of each setting.
pub proof fn law_contents_of_settings(s: FocusOrLaunchSettings)
    ensures
        s@.app == opt_view(s.app),
        s@.class_override == opt_view(s.class_override),
        s@.cycle_windows == s.cycle_windows,
        s@.minimize_when_focused == s.minimize_when_focused,
        s@.name_override == opt_view(s.name_override),
        s@.icon_override == opt_view(s.icon_override),
        s@.exec_override == opt_view(s.exec_override),
        s@.custom_args == opt_view(s.custom_args),
        s@.close_all_windows_on_hold == s.close_all_windows_on_hold,
{
}

/// The contents of an application and of a desktop entry are those of their
/// fields.
pub proof fn law_contents_of_applications(app: AppEntry, entry: FoundEntry, fields: DesktopFields)
    ensures
        app@.id == app.id@,
        app@.name == app.name@,
        app@.window_class == app.window_class@,
        app@.exec_line == app.exec_line@,
        app@.path == app.path@,
        entry@.path == entry.path@,
        entry@.fields == entry.fields@,
        fields@.id == fields.id@,
        fields@.name == opt_view(fields.name),
        fields@.no_display == fields.no_display,
        fields@.hidden == fields.hidden,
        fields@.entry_type == opt_view(fields.entry_type),
        fields@.startup_wm_class == opt_view(fields.startup_wm_class),
        fields@.exec_line == opt_view(fields.exec_line),
{
}

/// The contents of commands, calls and windows are those of their fields.
pub proof fn law_contents_of_commands(run: Invocation, call: ShellCall, w: GnomeWindow)
    ensures
        run@.program == run.program@,
        run@.args == views(run.args@),
        call@.destination == call.destination@,
        call@.path == call.path@,
        call@.interface == call.interface@,
        call@.method == call.method@,
        call@.argument == call.argument,
        w@.id == w.id,
        w@.wm_class == w.wm_class@,
        w@.focus == w.focus,
{
}

/// The contents of a result are those of its value or of its error.
pub proof fn law_contents_of_results(
    msg: String,
    error: BackendError,
    ids: Vec<WindowId>,
    active: Option<WindowId>,
    call: ShellCall,
)
    ensures
        BackendError::Unavailable(msg)@ == ErrorView::Unavailable(msg@),
        BackendError::CommandFailed(msg)@ == ErrorView::CommandFailed(msg@),
        unit_result(Ok(())) is Ok,
        unit_result(Err(error)) == Err::<(), ErrorView>(error@),
        list_result(Ok(ids)) == Ok::<Seq<Seq<char>>, ErrorView>(views(ids@)),
        list_result(Err(error)) == Err::<Seq<Seq<char>>, ErrorView>(error@),
        active_result(Ok(active)) == Ok::<Option<Seq<char>>, ErrorView>(opt_view(active)),
        active_result(Err(error)) == Err::<Option<Seq<char>>, ErrorView>(error@),
        call_result(Ok(call)) is Ok,
        call_result(Ok(call))->Ok_0 == call@,
        call_result(Err(error)) is Err,
        call_result(Err(error))->Err_0 == error@,
        launch_result(Ok(())) is Ok,
        launch_result(Err(msg)) == Err::<(), Seq<char>>(msg@),
{
}

/// The contents of what a press decides are the same decision on the same
/// window.
pub proof fn law_contents_of_decisions(id: WindowId)
    ensures
        Decision::Launch@ == DecisionView::Launch,
        Decision::Activate(id)@ == DecisionView::Activate(id@),
        Decision::Minimize(id)@ == DecisionView::Minimize(id@),
        Decision::NoOp@ == DecisionView::NoOp,
{
}

/// The contents of a request and of a reply are those of what is asked and
/// answered.
pub proof fn law_contents_of_requests(
    text: String,
    args: Option<String>,
    listed: Result<Vec<WindowId>, BackendError>,
    active: Result<Option<WindowId>, BackendError>,
    done: Result<(), BackendError>,
    launched: Result<(), String>,
)
    ensures
        Request::ListWindows(text)@ == RequestView::ListWindows(text@),
        Request::ActiveWindow@ == RequestView::ActiveWindow,
        Request::Activate(text)@ == RequestView::Activate(text@),
        Request::Minimize(text)@ == RequestView::Minimize(text@),
        Request::Close(text)@ == RequestView::Close(text@),
        (Request::Launch { exec_line: text, args })@ == (RequestView::Launch {
            exec_line: text@,
            args: opt_view(args),
        }),
        Reply::Windows(listed)@ == ReplyView::Windows(list_result(listed)),
        Reply::Active(active)@ == ReplyView::Active(active_result(active)),
        Reply::Done(done)@ == ReplyView::Done(unit_result(done)),
        Reply::Launched(launched)@ == ReplyView::Launched(launch_result(launched)),
{
}

/// The contents of an outcome are the same outcome, of the same windows, with
/// the same messages.
pub proof fn law_contents_of_outcomes(
    id: WindowId,
    msg: String,
    ids: Vec<WindowId>,
    failures: Vec<(WindowId, String)>,
)
    ensures
        RunOutcome::NoAppSelected@ == OutcomeView::NoAppSelected,
        RunOutcome::BackendUnavailable(msg)@ == OutcomeView::BackendUnavailable(msg@),
        RunOutcome::ListWindowsFailed(msg)@ == OutcomeView::ListWindowsFailed(msg@),
        RunOutcome::Launched@ == OutcomeView::Launched,
        RunOutcome::LaunchFailed(msg)@ == OutcomeView::LaunchFailed(msg@),
        RunOutcome::Activated(id)@ == OutcomeView::Activated(id@),
        RunOutcome::ActivateFailed(id, msg)@ == OutcomeView::ActivateFailed(id@, msg@),
        RunOutcome::Minimized(id)@ == OutcomeView::Minimized(id@),
        RunOutcome::MinimizeFailed(id, msg)@ == OutcomeView::MinimizeFailed(id@, msg@),
        RunOutcome::NoOp@ == OutcomeView::NoOp,
        RunOutcome::ClosedAll(ids)@ == OutcomeView::ClosedAll(views(ids@)),
        RunOutcome::CloseFailed(failures)@ == OutcomeView::CloseFailed(failure_views(failures@)),
{
}

/// The contents of what is told are its lines, each with its level and its
/// text, and whether there is an alert.
pub proof fn law_contents_of_reports(report: Report, line: LogLine)
    ensures
        report@.alert == report.alert,
        report@.lines.len() == report.lines@.len(),
        forall|i: int|
            0 <= i < report.lines@.len() ==> #[trigger] report@.lines[i] == report.lines@[i]@,
        line@.level == line.level,
        line@.text == line.text@,
{
}

/// The contents of how a key looks are its title, its icon and its application.
pub proof fn law_contents_of_looks(visuals: Visuals, text: String)
    ensures
        visuals@.title == visuals.title@,
        visuals@.icon == visuals.icon@,
        visuals@.app_id == visuals.app_id@,
        IconSource::Named(text)@ == IconSourceView::Named(text@),
        IconSource::FromDesktopFile(text)@ == IconSourceView::FromDesktopFile(text@),
        ImageStep::Read(text)@ == ImageStepView::Read(text@),
        ImageStep::SetImage(text)@ == ImageStepView::SetImage(text@),
        ImageStep::Warn(text)@ == ImageStepView::Warn(text@),
{
}

} // verus!

//! One run of a key, from the press to its outcome. The run says what to ask
//! of the desktop next; the caller asks, and hands the answer back.

use crate::apps::{app_views, AppEntry, AppView};
use crate::backend::{
    active_result, list_result, unit_result, BackendError, ErrorView, WindowId,
};
use crate::decision::{decide, decided, Decision, DecisionView};
use crate::settings::{
    overridden, resolve_exec, resolve_second_class, resolve_target, second_class, target_of,
    FocusOrLaunchSettings, SettingsView,
};
use crate::text::{opt_view, views};
use vstd::prelude::*;

verus! {

/// What a run is for.
#[derive(Debug, Clone, Copy, PartialEq, Eq, Structural)]
pub enum Goal {
    /// Focus the application, or launch it.
    FocusOrLaunch,
    /// Close all of the application's windows.
    CloseAll,
}

/// What a run asks of the desktop.
#[derive(Debug, PartialEq, Eq)]
pub enum Request {
    /// List the windows of this class.
    ListWindows(String),
    /// Name the window that has the focus.
    ActiveWindow,
    /// Bring this window to the front.
    Activate(WindowId),
    /// Minimize this window.
    Minimize(WindowId),
    /// Close this window.
    Close(WindowId),
    /// Launch an application with this command and these arguments.
    Launch { exec_line: String, args: Option<String> },
}

/// The contents of a [`Request`].
#[verifier::ext_equal]
pub enum RequestView {
    ListWindows(Seq<char>),
    ActiveWindow,
    Activate(Seq<char>),
    Minimize(Seq<char>),
    Close(Seq<char>),
    Launch { exec_line: Seq<char>, args: Option<Seq<char>> },
}

impl View for Request {
    type V = RequestView;

    open spec fn view(&self) -> RequestView {
        match *self {
            Request::ListWindows(class) => RequestView::ListWindows(class@),
            Request::ActiveWindow => RequestView::ActiveWindow,
            Request::Activate(id) => RequestView::Activate(id@),
            Request::Minimize(id) => RequestView::Minimize(id@),
            Request::Close(id) => RequestView::Close(id@),
            Request::Launch { exec_line, args } => RequestView::Launch {
                exec_line: exec_line@,
                args: opt_view(args),
            },
        }
    }
}

/// The desktop's answer to a request.
#[derive(Debug)]
pub enum Reply {
    /// To [`Request::ListWindows`].
    Windows(Result<Vec<WindowId>, BackendError>),
    /// To [`Request::ActiveWindow`].
    Active(Result<Option<WindowId>, BackendError>),
    /// To [`Request::Activate`], [`Request::Minimize`] and [`Request::Close`].
    Done(Result<(), BackendError>),
    /// To [`Request::Launch`]; the error is the operating system's message.
    Launched(Result<(), String>),
}

/// The contents of a [`Reply`].
#[verifier::ext_equal]
pub enum ReplyView {
    Windows(Result<Seq<Seq<char>>, ErrorView>),
    Active(Result<Option<Seq<char>>, ErrorView>),
    Done(Result<(), ErrorView>),
    Launched(Result<(), Seq<char>>),
}

/// The contents of a result whose error is a message.
pub open spec fn launch_result(r: Result<(), String>) -> Result<(), Seq<char>> {
    match r {
        Ok(_) => Ok(()),
        Err(msg) => Err(msg@),
    }
}

impl View for Reply {
    type V = ReplyView;

    open spec fn view(&self) -> ReplyView {
        match *self {
            Reply::Windows(r) => ReplyView::Windows(list_result(r)),
            Reply::Active(r) => ReplyView::Active(active_result(r)),
            Reply::Done(r) => ReplyView::Done(unit_result(r)),
            Reply::Launched(r) => ReplyView::Launched(launch_result(r)),
        }
    }
}

/// How a run ended.
#[derive(Debug, PartialEq, Eq)]
pub enum RunOutcome {
    NoAppSelected,
    BackendUnavailable(String),
    ListWindowsFailed(String),
    Launched,
    LaunchFailed(String),
    Activated(WindowId),
    ActivateFailed(WindowId, String),
    Minimized(WindowId),
    MinimizeFailed(WindowId, String),
    NoOp,
    ClosedAll(Vec<WindowId>),
    CloseFailed(Vec<(WindowId, String)>),
}

/// The contents of a [`RunOutcome`].
#[verifier::ext_equal]
pub enum OutcomeView {
    NoAppSelected,
    BackendUnavailable(Seq<char>),
    ListWindowsFailed(Seq<char>),
    Launched,
    LaunchFailed(Seq<char>),
    Activated(Seq<char>),
    ActivateFailed(Seq<char>, Seq<char>),
    Minimized(Seq<char>),
    MinimizeFailed(Seq<char>, Seq<char>),
    NoOp,
    ClosedAll(Seq<Seq<char>>),
    CloseFailed(Seq<(Seq<char>, Seq<char>)>),
}

/// The contents of a list of windows with a message each.
pub open spec fn failure_views(list: Seq<(WindowId, String)>) -> Seq<(Seq<char>, Seq<char>)> {
    list.map_values(|f: (WindowId, String)| (f.0@, f.1@))
}

impl View for RunOutcome {
    type V = OutcomeView;

    open spec fn view(&self) -> OutcomeView {
        match *self {
            RunOutcome::NoAppSelected => OutcomeView::NoAppSelected,
            RunOutcome::BackendUnavailable(msg) => OutcomeView::BackendUnavailable(msg@),
            RunOutcome::ListWindowsFailed(msg) => OutcomeView::ListWindowsFailed(msg@),
            RunOutcome::Launched => OutcomeView::Launched,
            RunOutcome::LaunchFailed(msg) => OutcomeView::LaunchFailed(msg@),
            RunOutcome::Activated(id) => OutcomeView::Activated(id@),
            RunOutcome::ActivateFailed(id, msg) => OutcomeView::ActivateFailed(id@, msg@),
            RunOutcome::Minimized(id) => OutcomeView::Minimized(id@),
            RunOutcome::MinimizeFailed(id, msg) => OutcomeView::MinimizeFailed(id@, msg@),
            RunOutcome::NoOp => OutcomeView::NoOp,
            RunOutcome::ClosedAll(ids) => OutcomeView::ClosedAll(views(ids@)),
            RunOutcome::CloseFailed(list) => OutcomeView::CloseFailed(failure_views(list@)),
        }
    }
}

/// What a run waits for.
#[derive(Debug)]
enum Stage {
    /// The windows of the target's class; the class to search by once more.
    Listing { fallback: Option<String> },
    /// The windows of the class that is searched by once more.
    ListingFallback,
    /// The window that has the focus.
    AskingActive { windows: Vec<WindowId> },
    Launching,
    Activating(WindowId),
    Minimizing(WindowId),
    /// The window at `next` to close; those before it that did not.
    Closing { windows: Vec<WindowId>, next: usize, failures: Vec<(WindowId, String)> },
}

/// What a run waits for, in contents.
#[verifier::ext_equal]
pub enum StageView {
    Listing { fallback: Option<Seq<char>> },
    ListingFallback,
    AskingActive { windows: Seq<Seq<char>> },
    Launching,
    Activating(Seq<char>),
    Minimizing(Seq<char>),
    Closing {
        windows: Seq<Seq<char>>,
        next: int,
        failures: Seq<(Seq<char>, Seq<char>)>,
    },
}

impl View for Stage {
    type V = StageView;

    closed spec fn view(&self) -> StageView {
        match *self {
            Stage::Listing { fallback } => StageView::Listing { fallback: opt_view(fallback) },
            Stage::ListingFallback => StageView::ListingFallback,
            Stage::AskingActive { windows } => StageView::AskingActive { windows: views(windows@) },
            Stage::Launching => StageView::Launching,
            Stage::Activating(id) => StageView::Activating(id@),
            Stage::Minimizing(id) => StageView::Minimizing(id@),
            Stage::Closing { windows, next, failures } => StageView::Closing {
                windows: views(windows@),
                next: next as int,
                failures: failure_views(failures@),
            },
        }
    }
}

/// What a run keeps of the key's settings and its application.
#[derive(Debug)]
struct Plan {
    goal: Goal,
    cycle_windows: bool,
    minimize_when_focused: bool,
    exec_line: String,
    args: Option<String>,
}

/// The contents of a run's plan.
#[verifier::ext_equal]
pub struct PlanView {
    pub goal: Goal,
    pub cycle_windows: bool,
    pub minimize_when_focused: bool,
    pub exec_line: Seq<char>,
    pub args: Option<Seq<char>>,
}

impl View for Plan {
    type V = PlanView;

    closed spec fn view(&self) -> PlanView {
        PlanView {
            goal: self.goal,
            cycle_windows: self.cycle_windows,
            minimize_when_focused: self.minimize_when_focused,
            exec_line: self.exec_line@,
            args: opt_view(self.args),
        }
    }
}

/// A run that waits for an answer.
#[derive(Debug)]
pub struct Run {
    plan: Plan,
    stage: Stage,
}

/// The contents of a [`Run`].
#[verifier::ext_equal]
pub struct RunView {
    pub plan: PlanView,
    pub stage: StageView,
}

impl View for Run {
    type V = RunView;

    closed spec fn view(&self) -> RunView {
        RunView { plan: self.plan@, stage: self.stage@ }
    }
}

/// Where a run stands.
#[derive(Debug)]
pub enum Progress {
    /// It asks something and waits for the answer.
    Ask(Run, Request),
    /// It is over.
    Finished(RunOutcome),
}

/// The contents of a [`Progress`].
#[verifier::ext_equal]
pub enum ProgressView {
    Ask(RunView, RequestView),
    Finished(OutcomeView),
}

impl View for Progress {
    type V = ProgressView;

    open spec fn view(&self) -> ProgressView {
        match *self {
            Progress::Ask(run, request) => ProgressView::Ask(run@, request@),
            Progress::Finished(outcome) => ProgressView::Finished(outcome@),
        }
    }
}

// ---------------------------------------------------------------------------
// The steps of a run
// ---------------------------------------------------------------------------
/// The request that launches the plan's application.
pub open spec fn launch_request(plan: PlanView) -> RequestView {
    RequestView::Launch { exec_line: plan.exec_line, args: plan.args }
}

/// How a run starts: it lists the windows of the target's class, where the key
/// is bound to an application that is installed.
pub open spec fn started(goal: Goal, settings: SettingsView, apps: Seq<AppView>) -> ProgressView {
    match target_of(settings, apps) {
        None => ProgressView::Finished(OutcomeView::NoAppSelected),
        Some((class, entry)) => ProgressView::Ask(
            RunView {
                plan: PlanView {
                    goal,
                    cycle_windows: settings.cycle_windows,
                    minimize_when_focused: settings.minimize_when_focused,
                    exec_line: overridden(settings.exec_override, entry.exec_line),
                    args: settings.custom_args,
                },
                stage: StageView::Listing { fallback: second_class(settings, class, entry) },
            },
            RequestView::ListWindows(class),
        ),
    }
}

/// Whether a run at `stage` waits for an answer of this kind.
pub open spec fn expects(stage: StageView, reply: ReplyView) -> bool {
    match stage {
        StageView::Listing { .. } => reply is Windows,
        StageView::ListingFallback => reply is Windows,
        StageView::AskingActive { .. } => reply is Active,
        StageView::Launching => reply is Launched,
        StageView::Activating(_) => reply is Done,
        StageView::Minimizing(_) => reply is Done,
        StageView::Closing { .. } => reply is Done,
    }
}

/// How a run goes on with a decision.
pub open spec fn acted(plan: PlanView, decision: DecisionView) -> ProgressView {
    match decision {
        DecisionView::Launch => ProgressView::Ask(
            RunView { plan, stage: StageView::Launching },
            launch_request(plan),
        ),
        DecisionView::Activate(id) => ProgressView::Ask(
            RunView { plan, stage: StageView::Activating(id) },
            RequestView::Activate(id),
        ),
        DecisionView::Minimize(id) => ProgressView::Ask(
            RunView { plan, stage: StageView::Minimizing(id) },
            RequestView::Minimize(id),
        ),
        DecisionView::NoOp => ProgressView::Finished(OutcomeView::NoOp),
    }
}

/// How a run goes on once it has the application's windows.
pub open spec fn listed(plan: PlanView, windows: Seq<Seq<char>>) -> ProgressView {
    match plan.goal {
        Goal::FocusOrLaunch => if windows.len() == 0 {
            acted(
                plan,
                decided(windows, None, plan.cycle_windows, plan.minimize_when_focused),
            )
        } else {
            ProgressView::Ask(
                RunView { plan, stage: StageView::AskingActive { windows } },
                RequestView::ActiveWindow,
            )
        },
        Goal::CloseAll => if windows.len() == 0 {
            ProgressView::Finished(OutcomeView::NoOp)
        } else {
            ProgressView::Ask(
                RunView {
                    plan,
                    stage: StageView::Closing { windows, next: 0, failures: Seq::empty() },
                },
                RequestView::Close(windows[0]),
            )
        },
    }
}

/// What is left of closing windows: all closed, or those that did not.
pub open spec fn close_outcome(
    windows: Seq<Seq<char>>,
    failures: Seq<(Seq<char>, Seq<char>)>,
) -> OutcomeView {
    if failures.len() == 0 {
        OutcomeView::ClosedAll(windows)
    } else {
        OutcomeView::CloseFailed(failures)
    }
}

/// The failures with the answer to closing one more window.
pub open spec fn with_close(
    failures: Seq<(Seq<char>, Seq<char>)>,
    id: Seq<char>,
    r: Result<(), ErrorView>,
) -> Seq<(Seq<char>, Seq<char>)> {
    match r {
        Ok(_) => failures,
        Err(e) => failures.push((id, e.message())),
    }
}

/// The windows in an answer to a second search, which has none where it
/// failed.
pub open spec fn windows_or_none(r: Result<Seq<Seq<char>>, ErrorView>) -> Seq<Seq<char>> {
    match r {
        Ok(windows) => windows,
        Err(_) => Seq::empty(),
    }
}

/// The window in an answer about the focus, which names none where it failed.
pub open spec fn active_or_none(r: Result<Option<Seq<char>>, ErrorView>) -> Option<Seq<char>> {
    match r {
        Ok(active) => active,
        Err(_) => None,
    }
}

/// How a run ends whose search for windows failed.
pub open spec fn listing_failed(e: ErrorView) -> OutcomeView {
    match e {
        ErrorView::Unavailable(msg) => OutcomeView::BackendUnavailable(msg),
        ErrorView::CommandFailed(msg) => OutcomeView::ListWindowsFailed(msg),
    }
}

/// How a run ends that launched.
pub open spec fn launch_outcome(r: Result<(), Seq<char>>) -> OutcomeView {
    match r {
        Ok(_) => OutcomeView::Launched,
        Err(msg) => OutcomeView::LaunchFailed(msg),
    }
}

/// How a run ends that brought a window to the front.
pub open spec fn activate_outcome(id: Seq<char>, r: Result<(), ErrorView>) -> OutcomeView {
    match r {
        Ok(_) => OutcomeView::Activated(id),
        Err(e) => OutcomeView::ActivateFailed(id, e.message()),
    }
}

/// How a run ends that minimized a window.
pub open spec fn minimize_outcome(id: Seq<char>, r: Result<(), ErrorView>) -> OutcomeView {
    match r {
        Ok(_) => OutcomeView::Minimized(id),
        Err(e) => OutcomeView::MinimizeFailed(id, e.message()),
    }
}

/// How a run goes on with an answer of the kind that it waits for.
pub open spec fn stepped(run: RunView, reply: ReplyView) -> ProgressView {
    let plan = run.plan;
    match (run.stage, reply) {
        (StageView::Listing { fallback }, ReplyView::Windows(r)) => match r {
            Err(e) => ProgressView::Finished(listing_failed(e)),
            Ok(windows) => if windows.len() == 0 && fallback is Some {
                ProgressView::Ask(
                    RunView { plan, stage: StageView::ListingFallback },
                    RequestView::ListWindows(fallback->0),
                )
            } else {
                listed(plan, windows)
            },
        },
        (StageView::ListingFallback, ReplyView::Windows(r)) => listed(plan, windows_or_none(r)),
        (StageView::AskingActive { windows }, ReplyView::Active(r)) => acted(
            plan,
            decided(windows, active_or_none(r), plan.cycle_windows, plan.minimize_when_focused),
        ),
        (StageView::Launching, ReplyView::Launched(r)) => ProgressView::Finished(
            launch_outcome(r),
        ),
        (StageView::Activating(id), ReplyView::Done(r)) => ProgressView::Finished(
            activate_outcome(id, r),
        ),
        (StageView::Minimizing(id), ReplyView::Done(r)) => ProgressView::Finished(
            minimize_outcome(id, r),
        ),
        (StageView::Closing { windows, next, failures }, ReplyView::Done(r)) => {
            let all = with_close(failures, windows[next], r);
            if next + 1 < windows.len() {
                ProgressView::Ask(
                    RunView {
                        plan,
                        stage: StageView::Closing { windows, next: next + 1, failures: all },
                    },
                    RequestView::Close(windows[next + 1]),
                )
            } else {
                ProgressView::Finished(close_outcome(windows, all))
            }
        },
        _ => ProgressView::Finished(OutcomeView::NoOp),
    }
}

/// Starts a run of a key with these settings, for the installed applications.
pub fn start(goal: Goal, settings: &FocusOrLaunchSettings, apps: &[AppEntry]) -> (r: Progress)
    ensures
        r@ == started(goal, settings@, app_views(apps@)),
{
    match resolve_target(settings, apps) {
        None => Progress::Finished(RunOutcome::NoAppSelected),
        Some((class, entry)) => {
            let fallback = match resolve_second_class(settings, class.as_str(), &entry) {
                Some(id) => Some(id.to_owned()),
                None => None,
            };
            let args = match &settings.custom_args {
                Some(a) => Some(a.clone()),
                None => None,
            };
            let plan = Plan {
                goal,
                cycle_windows: settings.cycle_windows,
                minimize_when_focused: settings.minimize_when_focused,
                exec_line: resolve_exec(settings, &entry),
                args,
            };
            Progress::Ask(
                Run { plan, stage: Stage::Listing { fallback } },
                Request::ListWindows(class),
            )
        },
    }
}

fn act(plan: Plan, decision: Decision) -> (r: Progress)
    ensures
        r@ == acted(plan@, decision@),
{
    match decision {
        Decision::Launch => {
            let args = match &plan.args {
                Some(a) => Some(a.clone()),
                None => None,
            };
            let request = Request::Launch { exec_line: plan.exec_line.clone(), args };
            Progress::Ask(Run { plan, stage: Stage::Launching }, request)
        },
        Decision::Activate(id) => {
            let request = Request::Activate(id.clone());
            Progress::Ask(Run { plan, stage: Stage::Activating(id) }, request)
        },
        Decision::Minimize(id) => {
            let request = Request::Minimize(id.clone());
            Progress::Ask(Run { plan, stage: Stage::Minimizing(id) }, request)
        },
        Decision::NoOp => Progress::Finished(RunOutcome::NoOp),
    }
}

fn go_on(plan: Plan, windows: Vec<WindowId>) -> (r: Progress)
    ensures
        r@ == listed(plan@, views(windows@)),
{
    assert(views(windows@).len() == windows@.len());
    match plan.goal {
        Goal::FocusOrLaunch => {
            if windows.len() == 0 {
                let decision = decide(
                    windows.as_slice(),
                    None,
                    plan.cycle_windows,
                    plan.minimize_when_focused,
                );
                act(plan, decision)
            } else {
                Progress::Ask(
                    Run { plan, stage: Stage::AskingActive { windows } },
                    Request::ActiveWindow,
                )
            }
        },
        Goal::CloseAll => {
            if windows.len() == 0 {
                Progress::Finished(RunOutcome::NoOp)
            } else {
                let request = Request::Close(windows[0].clone());
                let failures: Vec<(WindowId, String)> = Vec::new();
                assert(failure_views(failures@) =~= Seq::<(Seq<char>, Seq<char>)>::empty());
                let next: usize = 0;
                Progress::Ask(
                    Run { plan, stage: Stage::Closing { windows, next, failures } },
                    request,
                )
            }
        },
    }
}

impl Run {
    /// A run that closes windows has one to close.
    #[verifier::type_invariant]
    spec fn has_window_to_close(self) -> bool {
        match self.stage {
            Stage::Closing { windows, next, .. } => next < windows@.len(),
            _ => true,
        }
    }

    /// Whether the run waits for an answer of this kind.
    pub fn accepts(&self, reply: &Reply) -> (r: bool)
        ensures
            r == expects(self@.stage, reply@),
    {
        match &self.stage {
            Stage::Listing { .. } => matches!(reply, Reply::Windows(_)),
            Stage::ListingFallback => matches!(reply, Reply::Windows(_)),
            Stage::AskingActive { .. } => matches!(reply, Reply::Active(_)),
            Stage::Launching => matches!(reply, Reply::Launched(_)),
            Stage::Activating(_) => matches!(reply, Reply::Done(_)),
            Stage::Minimizing(_) => matches!(reply, Reply::Done(_)),
            Stage::Closing { .. } => matches!(reply, Reply::Done(_)),
        }
    }

    /// Takes the run on with the answer to what it asked.
    pub fn step(self, reply: Reply) -> (r: Progress)
        requires
            expects(self@.stage, reply@),
        ensures
            r@ == stepped(self@, reply@),
    {
        proof {
            use_type_invariant(&self);
        }
        let plan = self.plan;
        match (self.stage, reply) {
            (Stage::Listing { fallback }, Reply::Windows(r)) => match r {
                Err(BackendError::Unavailable(msg)) => Progress::Finished(
                    RunOutcome::BackendUnavailable(msg),
                ),
                Err(BackendError::CommandFailed(msg)) => Progress::Finished(
                    RunOutcome::ListWindowsFailed(msg),
                ),
                Ok(windows) => {
                    assert(views(windows@).len() == windows@.len());
                    match fallback {
                        Some(class) => {
                            if windows.len() == 0 {
                                Progress::Ask(
                                    Run { plan, stage: Stage::ListingFallback },
                                    Request::ListWindows(class),
                                )
                            } else {
                                go_on(plan, windows)
                            }
                        },
                        None => go_on(plan, windows),
                    }
                },
            },
            (Stage::ListingFallback, Reply::Windows(r)) => match r {
                Ok(windows) => go_on(plan, windows),
                Err(_) => {
                    let none: Vec<WindowId> = Vec::new();
                    assert(views(none@) =~= Seq::<Seq<char>>::empty());
                    go_on(plan, none)
                },
            },
            (Stage::AskingActive { windows }, Reply::Active(r)) => {
                let active = match r {
                    Ok(id) => id,
                    Err(_) => None,
                };
                let decision = decide(
                    windows.as_slice(),
                    active.as_ref(),
                    plan.cycle_windows,
                    plan.minimize_when_focused,
                );
                act(plan, decision)
            },
            (Stage::Launching, Reply::Launched(r)) => match r {
                Ok(_) => Progress::Finished(RunOutcome::Launched),
                Err(msg) => Progress::Finished(RunOutcome::LaunchFailed(msg)),
            },
            (Stage::Activating(id), Reply::Done(r)) => match r {
                Ok(_) => Progress::Finished(RunOutcome::Activated(id)),
                Err(e) => {
                    let msg = e.message();
                    Progress::Finished(RunOutcome::ActivateFailed(id, msg))
                },
            },
            (Stage::Minimizing(id), Reply::Done(r)) => match r {
                Ok(_) => Progress::Finished(RunOutcome::Minimized(id)),
                Err(e) => {
                    let msg = e.message();
                    Progress::Finished(RunOutcome::MinimizeFailed(id, msg))
                },
            },
            (Stage::Closing { windows, next, failures }, Reply::Done(r)) => {
                let mut failures = failures;
                let ghost before = failure_views(failures@);
                if let Err(e) = r {
                    let failure = (windows[next].clone(), e.message());
                    failures.push(failure);
                    assert(failure_views(failures@) =~= before.push((failure.0@, failure.1@)));
                }
                let last: usize = windows.len() - 1;
                if next < last {
                    let request = Request::Close(windows[next + 1].clone());
                    Progress::Ask(
                        Run { plan, stage: Stage::Closing { windows, next: next + 1, failures } },
                        request,
                    )
                } else if failures.len() == 0 {
                    Progress::Finished(RunOutcome::ClosedAll(windows))
                } else {
                    Progress::Finished(RunOutcome::CloseFailed(failures))
                }
            },
            _ => Progress::Finished(RunOutcome::NoOp),
        }
    }
}

} // verus!

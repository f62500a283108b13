//! What to tell about the outcome of a run: lines for the log, and whether the
//! key shows an alert.

use crate::number::{digits, to_decimal};
use crate::run::{failure_views, OutcomeView, RunOutcome};
use vstd::prelude::*;

verus! {

/// How much a line in the log matters.
#[derive(Debug, Clone, Copy, PartialEq, Eq, Structural)]
pub enum LogLevel {
    Info,
    Warn,
    Error,
}

/// A line for the log.
#[derive(Debug, PartialEq, Eq)]
pub struct LogLine {
    pub level: LogLevel,
    pub text: String,
}

/// The contents of a [`LogLine`].
#[verifier::ext_equal]
pub struct LogLineView {
    pub level: LogLevel,
    pub text: Seq<char>,
}

impl View for LogLine {
    type V = LogLineView;

    open spec fn view(&self) -> LogLineView {
        LogLineView { level: self.level, text: self.text@ }
    }
}

/// What to tell.
#[derive(Debug, PartialEq, Eq)]
pub struct Report {
    /// The lines for the log, in order.
    pub lines: Vec<LogLine>,
    /// Whether the key shows an alert.
    pub alert: bool,
}

/// The contents of a [`Report`].
#[verifier::ext_equal]
pub struct ReportView {
    pub lines: Seq<LogLineView>,
    pub alert: bool,
}

/// The contents of a list of lines.
pub open spec fn line_views(lines: Seq<LogLine>) -> Seq<LogLineView> {
    lines.map_values(|l: LogLine| l@)
}

impl View for Report {
    type V = ReportView;

    open spec fn view(&self) -> ReportView {
        ReportView { lines: line_views(self.lines@), alert: self.alert }
    }
}

/// A report of one line.
pub open spec fn one_line(level: LogLevel, text: Seq<char>, alert: bool) -> ReportView {
    ReportView { lines: seq![LogLineView { level, text }], alert }
}

/// A report of nothing.
pub open spec fn silence() -> ReportView {
    ReportView { lines: Seq::empty(), alert: false }
}

/// The line about a window that did not close.
pub open spec fn close_line(failure: (Seq<char>, Seq<char>)) -> LogLineView {
    LogLineView {
        level: LogLevel::Error,
        text: "failed to close window "@ + failure.0 + ": "@ + failure.1,
    }
}

/// What to tell about an outcome. What worked is not told, but for closing
/// windows; what failed is, and the key shows an alert for it, except where
/// the windows could not be listed; and so is a key that is bound to nothing.
pub open spec fn report_of(outcome: OutcomeView) -> ReportView {
    match outcome {
        OutcomeView::NoAppSelected => one_line(
            LogLevel::Warn,
            "no app selected for this key"@,
            false,
        ),
        OutcomeView::BackendUnavailable(msg) => one_line(
            LogLevel::Error,
            "window backend unavailable: "@ + msg,
            true,
        ),
        OutcomeView::ListWindowsFailed(msg) => one_line(
            LogLevel::Error,
            "window backend command failed: "@ + msg,
            false,
        ),
        OutcomeView::Launched => silence(),
        OutcomeView::LaunchFailed(msg) => one_line(
            LogLevel::Error,
            "failed to launch app: "@ + msg,
            true,
        ),
        OutcomeView::Activated(_) => silence(),
        OutcomeView::ActivateFailed(id, msg) => one_line(
            LogLevel::Error,
            "failed to activate window "@ + id + ": "@ + msg,
            true,
        ),
        OutcomeView::Minimized(_) => silence(),
        OutcomeView::MinimizeFailed(id, msg) => one_line(
            LogLevel::Error,
            "failed to minimize window "@ + id + ": "@ + msg,
            true,
        ),
        OutcomeView::NoOp => silence(),
        OutcomeView::ClosedAll(ids) => one_line(
            LogLevel::Info,
            "closed "@ + digits(ids.len(), 10) + " window(s)"@,
            false,
        ),
        OutcomeView::CloseFailed(failures) => ReportView {
            lines: failures.map_values(|f: (Seq<char>, Seq<char>)| close_line(f)),
            alert: true,
        },
    }
}

/// A report of one line.
pub fn report_line(level: LogLevel, text: String, alert: bool) -> (r: Report)
    ensures
        r@ == one_line(level, text@, alert),
{
    let ghost content = text@;
    let r = Report { lines: vec![LogLine { level, text }], alert };
    assert(r@.lines =~= seq![LogLineView { level, text: content }]);
    r
}

/// A report of nothing.
pub fn nothing() -> (r: Report)
    ensures
        r@ == silence(),
{
    let lines: Vec<LogLine> = Vec::new();
    assert(line_views(lines@) =~= Seq::<LogLineView>::empty());
    Report { lines, alert: false }
}

fn about_window(what: &str, id: &str, msg: &str) -> (r: String)
    ensures
        r@ == what@ + id@ + ": "@ + msg@,
{
    what.to_owned().concat(id).concat(": ").concat(msg)
}

/// What to tell about the outcome of a run.
pub fn report_outcome(outcome: &RunOutcome) -> (r: Report)
    ensures
        r@ == report_of(outcome@),
{
    match outcome {
        RunOutcome::NoAppSelected => report_line(
            LogLevel::Warn,
            "no app selected for this key".to_owned(),
            false,
        ),
        RunOutcome::BackendUnavailable(msg) => report_line(
            LogLevel::Error,
            "window backend unavailable: ".to_owned().concat(msg.as_str()),
            true,
        ),
        RunOutcome::ListWindowsFailed(msg) => report_line(
            LogLevel::Error,
            "window backend command failed: ".to_owned().concat(msg.as_str()),
            false,
        ),
        RunOutcome::Launched => nothing(),
        RunOutcome::LaunchFailed(msg) => report_line(
            LogLevel::Error,
            "failed to launch app: ".to_owned().concat(msg.as_str()),
            true,
        ),
        RunOutcome::Activated(_) => nothing(),
        RunOutcome::ActivateFailed(id, msg) => report_line(
            LogLevel::Error,
            about_window("failed to activate window ", id.as_str(), msg.as_str()),
            true,
        ),
        RunOutcome::Minimized(_) => nothing(),
        RunOutcome::MinimizeFailed(id, msg) => report_line(
            LogLevel::Error,
            about_window("failed to minimize window ", id.as_str(), msg.as_str()),
            true,
        ),
        RunOutcome::NoOp => nothing(),
        RunOutcome::ClosedAll(ids) => {
            let count = to_decimal(ids.len() as u64);
            report_line(
                LogLevel::Info,
                "closed ".to_owned().concat(count.as_str()).concat(" window(s)"),
                false,
            )
        },
        RunOutcome::CloseFailed(failures) => {
            let mut lines: Vec<LogLine> = Vec::new();
            let mut i: usize = 0;
            let ghost told = failure_views(failures@).map_values(
                |f: (Seq<char>, Seq<char>)| close_line(f),
            );
            while i < failures.len()
                invariant
                    i <= failures.len(),
                    told == failure_views(failures@).map_values(
                        |f: (Seq<char>, Seq<char>)| close_line(f),
                    ),
                    line_views(lines@) == told.take(i as int),
                decreases failures.len() - i,
            {
                let line = LogLine {
                    level: LogLevel::Error,
                    text: about_window(
                        "failed to close window ",
                        failures[i].0.as_str(),
                        failures[i].1.as_str(),
                    ),
                };
                let ghost before = line_views(lines@);
                lines.push(line);
                proof {
                    assert(line_views(lines@) =~= before.push(line@));
                    assert(told.take(i + 1) =~= told.take(i as int).push(line@));
                }
                i += 1;
            }
            assert(told.take(failures.len() as int) =~= told);
            Report { lines, alert: true }
        },
    }
}

/// Whether a run failed at what it was to do.
pub open spec fn is_failure(outcome: OutcomeView) -> bool {
    ||| outcome is BackendUnavailable
    ||| outcome is ListWindowsFailed
    ||| outcome is LaunchFailed
    ||| outcome is ActivateFailed
    ||| outcome is MinimizeFailed
    ||| outcome is CloseFailed
}

/// No failure goes untold, and the key shows an alert only for one: an outcome
/// has a line of an error in the log exactly where it is a failure, and the
/// alert comes with every failure but that of listing the windows. Where
/// windows did not close, there is at least one.
pub proof fn law_failures_are_told(outcome: OutcomeView)
    requires
        outcome matches OutcomeView::CloseFailed(failures) ==> failures.len() > 0,
    ensures
        is_failure(outcome) <==> exists|i: int|
            0 <= i < report_of(outcome).lines.len() && (#[trigger] report_of(
                outcome,
            ).lines[i]).level == LogLevel::Error,
        report_of(outcome).alert <==> is_failure(outcome) && !(outcome is ListWindowsFailed),
{
    if is_failure(outcome) {
        assert(report_of(outcome).lines[0].level == LogLevel::Error);
    }
}

/// What worked is not told, but for closed windows, which are counted; a key
/// that is bound to nothing is warned about.
pub proof fn law_what_worked_is_hardly_told(ids: Seq<Seq<char>>)
    ensures
        forall|outcome: OutcomeView|
            outcome is Launched || outcome is Activated || outcome is Minimized || outcome is NoOp
                ==> (#[trigger] report_of(outcome)).lines.len() == 0 && !report_of(outcome).alert,
        report_of(OutcomeView::ClosedAll(ids)).lines.len() == 1,
        report_of(OutcomeView::ClosedAll(ids)).lines[0].level == LogLevel::Info,
        report_of(OutcomeView::ClosedAll(ids)).lines[0].text == "closed "@ + (digits(
            ids.len(),
            10,
        ) + " window(s)"@),
        !report_of(OutcomeView::ClosedAll(ids)).alert,
        report_of(OutcomeView::NoAppSelected).lines.len() == 1,
        report_of(OutcomeView::NoAppSelected).lines[0].level == LogLevel::Warn,
        report_of(OutcomeView::NoAppSelected).lines[0].text == "no app selected for this key"@,
        !report_of(OutcomeView::NoAppSelected).alert,
{
    assert("closed "@ + digits(ids.len(), 10) + " window(s)"@ =~= "closed "@ + (digits(
        ids.len(),
        10,
    ) + " window(s)"@));
}

/// A failure is told in one line that says what was tried, on which window, and
/// the message about it, with an alert unless it was the listing that failed.
pub proof fn law_a_failure_names_its_window_and_its_message(id: Seq<char>, msg: Seq<char>)
    ensures
        told(OutcomeView::BackendUnavailable(msg), "window backend unavailable: "@ + msg, true),
        told(OutcomeView::ListWindowsFailed(msg), "window backend command failed: "@ + msg, false),
        told(OutcomeView::LaunchFailed(msg), "failed to launch app: "@ + msg, true),
        told(
            OutcomeView::ActivateFailed(id, msg),
            "failed to activate window "@ + (id + (": "@ + msg)),
            true,
        ),
        told(
            OutcomeView::MinimizeFailed(id, msg),
            "failed to minimize window "@ + (id + (": "@ + msg)),
            true,
        ),
{
    assert("failed to activate window "@ + id + ": "@ + msg =~= "failed to activate window "@ + (id
        + (": "@ + msg)));
    assert("failed to minimize window "@ + id + ": "@ + msg =~= "failed to minimize window "@ + (id
        + (": "@ + msg)));
}

/// Whether an outcome is told as an error, in one line of this text, with an
/// alert or without one.
pub open spec fn told(outcome: OutcomeView, text: Seq<char>, alert: bool) -> bool {
    &&& report_of(outcome).alert == alert
    &&& report_of(outcome).lines.len() == 1
    &&& report_of(outcome).lines[0].level == LogLevel::Error
    &&& report_of(outcome).lines[0].text == text
}

/// Each window that did not close is told as an error, in order, with its
/// identifier and the message about it, and the key shows an alert.
pub proof fn law_each_window_that_did_not_close_is_told(failures: Seq<(Seq<char>, Seq<char>)>)
    ensures
        report_of(OutcomeView::CloseFailed(failures)).alert,
        report_of(OutcomeView::CloseFailed(failures)).lines.len() == failures.len(),
        forall|i: int|
            0 <= i < failures.len() ==> {
                let (id, msg) = failures[i];
                let line = #[trigger] report_of(OutcomeView::CloseFailed(failures)).lines[i];
                &&& line.level == LogLevel::Error
                &&& line.text == "failed to close window "@ + (id + (": "@ + msg))
            },
{
    assert forall|i: int| 0 <= i < failures.len() implies {
        let (id, msg) = failures[i];
        let line = #[trigger] report_of(OutcomeView::CloseFailed(failures)).lines[i];
        &&& line.level == LogLevel::Error
        &&& line.text == "failed to close window "@ + (id + (": "@ + msg))
    } by {
        let (id, msg) = failures[i];
        assert(report_of(OutcomeView::CloseFailed(failures)).lines[i] == close_line(failures[i]));
        assert("failed to close window "@ + id + ": "@ + msg =~= "failed to close window "@ + (id
            + (": "@ + msg)));
    }
}

} // verus!

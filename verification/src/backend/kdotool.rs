//! KDE Plasma's windows, through `kdotool`.

use crate::backend::{
    active_result, list_result, spawn_error, spawn_error_of, unit_result, BackendError, ErrorView,
    Invocation, InvocationView, SpawnFailure, ToolOutput, WindowId,
};
use crate::outside::{from_utf8_lossy, printed_text};
use crate::text::{
    is_blank, is_space, is_trim, law_trimming_takes_the_ends_away, lemma_views_push, lines,
    opt_view, split_lines, trim, trimmed, views,
};
use vstd::prelude::*;

verus! {

/// The `kdotool` command-line tool.
pub struct KdotoolBackend;

/// The window identifiers in what a search printed: each line without the
/// white space around it, in order, the blank lines left out.
pub open spec fn search_ids(listed: Seq<Seq<char>>) -> Seq<Seq<char>>
    decreases listed.len(),
{
    if listed.len() == 0 {
        Seq::empty()
    } else {
        let before = search_ids(listed.drop_last());
        let id = trimmed(listed.last());
        if id.len() == 0 {
            before
        } else {
            before.push(id)
        }
    }
}

/// The window identifiers that `kdotool search` printed, one on each line. A
/// search that matches nothing prints none.
pub fn parse_search_output(stdout: &str) -> (r: Vec<WindowId>)
    ensures
        views(r@) == search_ids(lines(stdout@)),
{
    let listed = split_lines(stdout);
    let mut ids: Vec<WindowId> = Vec::new();
    let mut i: usize = 0;
    assert(views(listed@).take(0) =~= Seq::<Seq<char>>::empty());
    while i < listed.len()
        invariant
            i <= listed.len(),
            views(ids@) == search_ids(views(listed@).take(i as int)),
        decreases listed.len() - i,
    {
        let id = trim(listed[i].as_str());
        let ghost upto = views(listed@).take(i + 1);
        let ghost before = ids@;
        proof {
            assert(upto.drop_last() =~= views(listed@).take(i as int));
            assert(upto.last() == listed@[i as int]@);
            lemma_views_push(before, id);
        }
        if !id.as_str().is_empty() {
            ids.push(id);
        }
        i += 1;
    }
    assert(views(listed@).take(listed.len() as int) =~= views(listed@));
    ids
}

/// The one window identifier in what was printed, if any: all of it without
/// the white space around it, unless that leaves nothing.
pub open spec fn single_id(stdout: Seq<char>) -> Option<Seq<char>> {
    if trimmed(stdout).len() == 0 {
        None
    } else {
        Some(trimmed(stdout))
    }
}

/// The one window identifier that was printed, if any.
pub fn parse_single_id(stdout: &str) -> (r: Option<WindowId>)
    ensures
        opt_view(r) == single_id(stdout@),
{
    let id = trim(stdout);
    if id.as_str().is_empty() {
        None
    } else {
        Some(id)
    }
}

/// What an exit status means where a failure is told by it alone: the command
/// failed, and the error says what was printed about it, if anything was.
pub open spec fn status_result(
    success: bool,
    status: Seq<char>,
    stderr: Seq<char>,
    cmd: Seq<char>,
) -> Result<(), ErrorView> {
    if success {
        Ok(())
    } else if trimmed(stderr).len() == 0 {
        Err(ErrorView::CommandFailed(cmd + " exited with "@ + status))
    } else {
        Err(ErrorView::CommandFailed(cmd + " exited with "@ + status + ": "@ + trimmed(stderr)))
    }
}

/// Turns an exit status that is not a success into an error that names `cmd`
/// and holds what was printed about it. Only for commands that have no other
/// way to fail and none of saying that nothing matched.
pub fn check_status(success: bool, status: &str, stderr: &str, cmd: &str) -> (r: Result<
    (),
    BackendError,
>)
    ensures
        unit_result(r) == status_result(success, status@, stderr@, cmd@),
{
    if success {
        return Ok(());
    }
    let stderr = trim(stderr);
    let mut msg = cmd.to_owned().concat(" exited with ").concat(status);
    if !stderr.as_str().is_empty() {
        msg = msg.concat(": ").concat(stderr.as_str());
    }
    Err(BackendError::CommandFailed(msg))
}

/// What a search that ran to its end means. `kdotool search` ends without
/// success both where nothing matches and where it could not search, so only a
/// failure with a message and without a window is an error.
pub open spec fn search_result(
    stdout: Seq<char>,
    success: bool,
    stderr: Seq<char>,
) -> Result<Seq<Seq<char>>, ErrorView> {
    let ids = search_ids(lines(stdout));
    if ids.len() == 0 && !success && trimmed(stderr).len() > 0 {
        Err(ErrorView::CommandFailed("kdotool search failed: "@ + trimmed(stderr)))
    } else {
        Ok(ids)
    }
}

/// The windows that a search found, or the error that kept it from searching.
pub fn interpret_search_output(stdout: &str, status_success: bool, stderr: &str) -> (r: Result<
    Vec<WindowId>,
    BackendError,
>)
    ensures
        list_result(r) == search_result(stdout@, status_success, stderr@),
{
    let windows = parse_search_output(stdout);
    let stderr = trim(stderr);
    assert(views(windows@).len() == windows@.len());
    if windows.len() == 0 && !status_success && !stderr.as_str().is_empty() {
        return Err(
            BackendError::CommandFailed(
                "kdotool search failed: ".to_owned().concat(stderr.as_str()),
            ),
        );
    }
    Ok(windows)
}

/// Windows that a search printed are never given up for an exit status or a
/// message beside them.
pub proof fn law_found_windows_are_kept(stdout: Seq<char>, success: bool, stderr: Seq<char>)
    requires
        search_ids(lines(stdout)).len() > 0,
    ensures
        search_result(stdout, success, stderr) == Ok::<Seq<Seq<char>>, ErrorView>(
            search_ids(lines(stdout)),
        ),
{
}

/// A search that prints no window and no message found nothing, however it
/// ended: that is no error.
pub proof fn law_a_silent_search_is_no_error(stdout: Seq<char>, success: bool, stderr: Seq<char>)
    requires
        search_ids(lines(stdout)).len() == 0,
        trimmed(stderr).len() == 0,
    ensures
        search_result(stdout, success, stderr) == Ok::<Seq<Seq<char>>, ErrorView>(Seq::empty()),
{
    assert(search_ids(lines(stdout)) =~= Seq::<Seq<char>>::empty());
}

/// No window identifier is blank, however the output is laid out.
pub proof fn law_no_id_is_blank(listed: Seq<Seq<char>>)
    ensures
        forall|i: int|
            0 <= i < search_ids(listed).len() ==> (#[trigger] search_ids(listed)[i]).len() > 0,
    decreases listed.len(),
{
    if listed.len() > 0 {
        law_no_id_is_blank(listed.drop_last());
        let before = search_ids(listed.drop_last());
        assert forall|i: int| 0 <= i < search_ids(listed).len() implies (#[trigger] search_ids(
            listed,
        )[i]).len() > 0 by {
            if i < before.len() {
                assert(search_ids(listed)[i] == before[i]);
            }
        }
    }
}

/// The focused window can be found among the windows of a search: a line that
/// a search printed for a window gives the identifier that the same line gives
/// where it is all that was printed.
pub proof fn law_commands_agree_on_windows(line: Seq<char>)
    ensures
        search_ids(seq![line]) == match single_id(line.push('\n')) {
            Some(id) => seq![id],
            None => Seq::empty(),
        },
{
    lemma_trim_drops_line_end(line);
    let listed = seq![line];
    assert(listed.drop_last() =~= Seq::<Seq<char>>::empty());
    assert(search_ids(listed.drop_last()) =~= Seq::<Seq<char>>::empty());
}

proof fn lemma_trim_drops_line_end(s: Seq<char>)
    ensures
        trimmed(s.push('\n')) == trimmed(s),
    decreases s.len(),
{
    let ended = s.push('\n');
    if s.len() == 0 {
        assert(ended.drop_first() =~= s);
    } else if is_space(s[0]) {
        assert(ended.drop_first() =~= s.drop_first().push('\n'));
        lemma_trim_drops_line_end(s.drop_first());
    } else {
        assert(ended.drop_last() =~= s);
    }
}

/// `kdotool` with a subcommand and one argument more.
pub open spec fn kdotool_with(subcommand: Seq<char>, arg: Seq<char>) -> InvocationView {
    InvocationView { program: "kdotool"@, args: seq![subcommand, arg] }
}

/// What can be done to a window.
pub enum WindowAction {
    Activate,
    Minimize,
    Close,
}

/// What to run to do something to a window.
pub open spec fn window_invocation(action: WindowAction, id: Seq<char>) -> InvocationView {
    match action {
        WindowAction::Activate => kdotool_with("windowactivate"@, id),
        WindowAction::Minimize => kdotool_with("windowminimize"@, id),
        WindowAction::Close => kdotool_with("windowclose"@, id),
    }
}

/// What to run to search for the windows of a class.
pub open spec fn search_invocation(class: Seq<char>) -> InvocationView {
    InvocationView { program: "kdotool"@, args: seq!["search"@, "--class"@, class] }
}

/// The windows that a run of a search found.
pub open spec fn search_answer(ran: Result<ToolOutput, SpawnFailure>) -> Result<
    Seq<Seq<char>>,
    ErrorView,
> {
    match ran {
        Ok(out) => search_result(printed_text(out.stdout@), out.success, printed_text(out.stderr@)),
        Err(failure) => Err(spawn_error_of("kdotool"@, failure)),
    }
}

/// The window that a run about the focus named.
pub open spec fn focus_answer(ran: Result<ToolOutput, SpawnFailure>) -> Result<
    Option<Seq<char>>,
    ErrorView,
> {
    match ran {
        Ok(out) => Ok(single_id(printed_text(out.stdout@))),
        Err(failure) => Err(spawn_error_of("kdotool"@, failure)),
    }
}

fn kdotool(subcommand: &str, arg: &str) -> (r: Invocation)
    ensures
        r@ == kdotool_with(subcommand@, arg@),
{
    let r = Invocation {
        program: "kdotool".to_owned(),
        args: vec![subcommand.to_owned(), arg.to_owned()],
    };
    assert(r@.args =~= seq![subcommand@, arg@]);
    r
}

impl KdotoolBackend {
    /// What to run to search for the windows of `class`.
    pub fn list_windows_command(&self, class: &str) -> (r: Invocation)
        ensures
            r@ == search_invocation(class@),
    {
        let r = Invocation {
            program: "kdotool".to_owned(),
            args: vec!["search".to_owned(), "--class".to_owned(), class.to_owned()],
        };
        assert(r@.args =~= seq!["search"@, "--class"@, class@]);
        r
    }

    /// What to run to bring a window to the front.
    pub fn activate_command(&self, id: &WindowId) -> (r: Invocation)
        ensures
            r@ == window_invocation(WindowAction::Activate, id@),
    {
        kdotool("windowactivate", id.as_str())
    }

    /// What to run to minimize a window.
    pub fn minimize_command(&self, id: &WindowId) -> (r: Invocation)
        ensures
            r@ == window_invocation(WindowAction::Minimize, id@),
    {
        kdotool("windowminimize", id.as_str())
    }

    /// What to run to close a window.
    pub fn close_command(&self, id: &WindowId) -> (r: Invocation)
        ensures
            r@ == window_invocation(WindowAction::Close, id@),
    {
        kdotool("windowclose", id.as_str())
    }

    /// What to run to learn which window has the focus.
    pub fn active_window_command(&self) -> (r: Invocation)
        ensures
            r@ == (InvocationView { program: "kdotool"@, args: seq!["getactivewindow"@] }),
    {
        let r = Invocation {
            program: "kdotool".to_owned(),
            args: vec!["getactivewindow".to_owned()],
        };
        assert(r@.args =~= seq!["getactivewindow"@]);
        r
    }

    /// The windows that a run of [`Self::list_windows_command`] found.
    pub fn list_windows(&self, ran: Result<ToolOutput, SpawnFailure>) -> (r: Result<
        Vec<WindowId>,
        BackendError,
    >)
        ensures
            list_result(r) == search_answer(ran),
    {
        match ran {
            Ok(out) => interpret_search_output(
                from_utf8_lossy(out.stdout.as_slice()).as_str(),
                out.success,
                from_utf8_lossy(out.stderr.as_slice()).as_str(),
            ),
            Err(failure) => Err(spawn_error("kdotool", failure)),
        }
    }

    /// How a run of [`Self::activate_command`] went.
    pub fn activate(&self, ran: Result<ToolOutput, SpawnFailure>) -> (r: Result<(), BackendError>)
        ensures
            unit_result(r) == ran_result(ran, "kdotool windowactivate"@),
    {
        finish(ran, "kdotool windowactivate")
    }

    /// How a run of [`Self::minimize_command`] went.
    pub fn minimize(&self, ran: Result<ToolOutput, SpawnFailure>) -> (r: Result<(), BackendError>)
        ensures
            unit_result(r) == ran_result(ran, "kdotool windowminimize"@),
    {
        finish(ran, "kdotool windowminimize")
    }

    /// How a run of [`Self::close_command`] went.
    pub fn close(&self, ran: Result<ToolOutput, SpawnFailure>) -> (r: Result<(), BackendError>)
        ensures
            unit_result(r) == ran_result(ran, "kdotool windowclose"@),
    {
        finish(ran, "kdotool windowclose")
    }

    /// The window that a run of [`Self::active_window_command`] named, if any.
    pub fn active_window(&self, ran: Result<ToolOutput, SpawnFailure>) -> (r: Result<
        Option<WindowId>,
        BackendError,
    >)
        ensures
            active_result(r) == focus_answer(ran),
    {
        match ran {
            Ok(out) => Ok(parse_single_id(from_utf8_lossy(out.stdout.as_slice()).as_str())),
            Err(failure) => Err(spawn_error("kdotool", failure)),
        }
    }
}

/// How a run of a `kdotool` command went that says so by its exit status.
pub open spec fn ran_result(ran: Result<ToolOutput, SpawnFailure>, cmd: Seq<char>) -> Result<
    (),
    ErrorView,
> {
    match ran {
        Ok(out) => status_result(out.success, out.status@, printed_text(out.stderr@), cmd),
        Err(failure) => Err(spawn_error_of("kdotool"@, failure)),
    }
}

fn finish(ran: Result<ToolOutput, SpawnFailure>, cmd: &str) -> (r: Result<(), BackendError>)
    ensures
        unit_result(r) == ran_result(ran, cmd@),
{
    match ran {
        Ok(out) => check_status(
            out.success,
            out.status.as_str(),
            from_utf8_lossy(out.stderr.as_slice()).as_str(),
            cmd,
        ),
        Err(failure) => Err(spawn_error("kdotool", failure)),
    }
}

/// The windows that a search printed are read line by line: one more line adds
/// what it holds between the white space at its ends, behind the others, or
/// nothing where it is blank.
pub proof fn law_windows_are_read_line_by_line(
    listed: Seq<Seq<char>>,
    before: Seq<char>,
    id: Seq<char>,
    after: Seq<char>,
)
    requires
        is_blank(before),
        is_trim(id),
        is_blank(after),
    ensures
        search_ids(Seq::empty()) == Seq::<Seq<char>>::empty(),
        id.len() > 0 ==> search_ids(listed.push(before + id + after)) == search_ids(listed).push(
            id,
        ),
        id.len() == 0 ==> search_ids(listed.push(before + id + after)) == search_ids(listed),
        id.len() > 0 ==> single_id(before + id + after) == Some(id),
        id.len() == 0 ==> single_id(before + id + after) is None,
{
    law_trimming_takes_the_ends_away(before, id, after);
    assert(listed.push(before + id + after).drop_last() =~= listed);
}

/// A command that succeeds is no error, whatever it prints; one that does not is
/// an error that gives the command, its status and what it printed about it, if
/// it printed anything but white space.
pub proof fn law_a_failed_command_is_told(
    status: Seq<char>,
    before: Seq<char>,
    msg: Seq<char>,
    after: Seq<char>,
    cmd: Seq<char>,
)
    requires
        is_blank(before),
        is_trim(msg),
        is_blank(after),
    ensures
        status_result(true, status, before + msg + after, cmd) is Ok,
        msg.len() > 0 ==> status_result(false, status, before + msg + after, cmd) == Err::<
            (),
            ErrorView,
        >(ErrorView::CommandFailed(cmd + " exited with "@ + status + ": "@ + msg)),
        msg.len() == 0 ==> status_result(false, status, before + msg + after, cmd) == Err::<
            (),
            ErrorView,
        >(ErrorView::CommandFailed(cmd + " exited with "@ + status)),
{
    law_trimming_takes_the_ends_away(before, msg, after);
}

/// A search is an error only where it failed, printed no window and said why,
/// and then the error says so; a search that succeeded never is.
pub proof fn law_a_failed_search_is_told(
    stdout: Seq<char>,
    before: Seq<char>,
    msg: Seq<char>,
    after: Seq<char>,
)
    requires
        is_blank(before),
        is_trim(msg),
        is_blank(after),
    ensures
        search_result(stdout, true, before + msg + after) == Ok::<Seq<Seq<char>>, ErrorView>(
            search_ids(lines(stdout)),
        ),
        msg.len() > 0 && search_ids(lines(stdout)).len() == 0 ==> search_result(
            stdout,
            false,
            before + msg + after,
        ) == Err::<Seq<Seq<char>>, ErrorView>(
            ErrorView::CommandFailed("kdotool search failed: "@ + msg),
        ),
{
    law_trimming_takes_the_ends_away(before, msg, after);
}

/// Every command is one of `kdotool` that names the window, or the class, as it
/// is, last; each action has its own.
pub proof fn law_commands_name_what_they_are_for(id: Seq<char>)
    ensures
        window_invocation(WindowAction::Activate, id).args == seq!["windowactivate"@, id],
        window_invocation(WindowAction::Minimize, id).args == seq!["windowminimize"@, id],
        window_invocation(WindowAction::Close, id).args == seq!["windowclose"@, id],
        search_invocation(id).args == seq!["search"@, "--class"@, id],
        search_invocation(id).program == "kdotool"@,
        forall|action: WindowAction| #[trigger]
            window_invocation(action, id).program == "kdotool"@,
{
}

/// What a run means: a program that could not be run is the error about that,
/// and one that ran is read from what it printed.
pub proof fn law_what_a_run_means(out: ToolOutput, failure: SpawnFailure, cmd: Seq<char>)
    ensures
        search_answer(Err(failure)) == Err::<Seq<Seq<char>>, ErrorView>(
            spawn_error_of("kdotool"@, failure),
        ),
        focus_answer(Err(failure)) == Err::<Option<Seq<char>>, ErrorView>(
            spawn_error_of("kdotool"@, failure),
        ),
        ran_result(Err(failure), cmd) == Err::<(), ErrorView>(
            spawn_error_of("kdotool"@, failure),
        ),
        focus_answer(Ok(out)) == Ok::<Option<Seq<char>>, ErrorView>(
            single_id(printed_text(out.stdout@)),
        ),
        out.success ==> ran_result(Ok(out), cmd) is Ok,
        out.success ==> search_answer(Ok(out)) == Ok::<Seq<Seq<char>>, ErrorView>(
            search_ids(lines(printed_text(out.stdout@))),
        ),
        !out.success ==> ran_result(Ok(out), cmd) is Err,
{
}

} // verus!

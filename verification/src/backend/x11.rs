//! The windows of an X11 window manager, through `wmctrl` and `xdotool`.

use crate::backend::{
    active_result, list_result, spawn_error, spawn_error_of, unit_result, BackendError, ErrorView,
    Invocation, InvocationView, SpawnFailure, ToolOutput, WindowId,
};
use crate::number::{
    digits, hex_id, law_decimal_round_trip, lemma_value_of_digits, parse_number, parsed_number,
    to_hex_id,
};
use crate::outside::{from_utf8_lossy, lowered, printed_text, to_lowercase};
use crate::text::{
    chars_of, contains, is_blank, is_space, is_trim, law_line_feeds_end_lines,
    law_trimming_takes_the_ends_away, lemma_views_push, lines, occurs, occurs_at, opt_view, same,
    slice_of, split_lines, split_whitespace, trim, trim_end, trim_start, trimmed, views, words,
};
use vstd::prelude::*;
use vstd::utf8::is_ascii_chars;

verus! {

/// The `wmctrl` and `xdotool` command-line tools.
pub struct X11Backend;

/// Whether a window's class, `<instance>.<class>`, matches: one of its halves
/// holds `class`. Either half may have dots of its own, so that any dot may be
/// the one between them; what has no dot is all one. Both are in lower case.
pub open spec fn class_part_matches(wm_class: Seq<char>, class: Seq<char>) -> bool {
    ||| exists|i: int|
        0 <= i < wm_class.len() && #[trigger] wm_class[i] == '.' && (occurs(
            class,
            wm_class.take(i),
        ) || occurs(class, wm_class.skip(i + 1)))
    ||| !wm_class.contains('.') && occurs(class, wm_class)
}

/// Whether one of the halves of `wm_class` holds `class`; both are in lower
/// case.
pub fn matches_class_part(wm_class: &str, class: &str) -> (r: bool)
    ensures
        r == class_part_matches(wm_class@, class@),
{
    let v = chars_of(wm_class);
    let n: usize = v.len();
    let mut dotted: bool = false;
    let mut i: usize = 0;
    while i < n
        invariant
            i <= n == v.len(),
            v@ == wm_class@,
            dotted <==> wm_class@.take(i as int).contains('.'),
            forall|k: int|
                0 <= k < i && #[trigger] wm_class@[k] == '.' ==> !occurs(
                    class@,
                    wm_class@.take(k),
                ) && !occurs(class@, wm_class@.skip(k + 1)),
        decreases n - i,
    {
        let ghost upto = wm_class@.take(i as int);
        assert(wm_class@.take(i + 1) =~= upto.push(v@[i as int]));
        if v[i] == '.' {
            let before = slice_of(&v, 0, i);
            let after = slice_of(&v, i + 1, n);
            assert(before@ =~= wm_class@.take(i as int));
            assert(after@ =~= wm_class@.skip(i + 1));
            if contains(before.as_str(), class) || contains(after.as_str(), class) {
                return true;
            }
            assert(upto.push('.')[i as int] == '.');
            dotted = true;
        } else {
            proof {
                if dotted {
                    let k = choose|k: int| 0 <= k < upto.len() && upto[k] == '.';
                    assert(upto.push(v@[i as int])[k] == '.');
                }
            }
        }
        i += 1;
    }
    assert(wm_class@.take(n as int) =~= wm_class@);
    !dotted && contains(wm_class, class)
}

/// The identifier and the class of the window on a line of `wmctrl -l -x`: its
/// first and third words. A line of fewer words shows no window.
pub open spec fn line_window(line: Seq<char>) -> Option<(Seq<char>, Seq<char>)> {
    if words(line).len() < 3 {
        None
    } else {
        Some((words(line)[0], words(line)[2]))
    }
}

/// The identifier and the class of the window on a line of `wmctrl -l -x`.
pub fn parse_wmctrl_line(line: &str) -> (r: Option<(WindowId, String)>)
    ensures
        match r {
            Some((id, wm_class)) => line_window(line@) == Some((id@, wm_class@)),
            None => line_window(line@) is None,
        },
{
    let fields = split_whitespace(line);
    assert(views(fields@).len() == fields@.len());
    if fields.len() < 3 {
        return None;
    }
    assert(views(fields@)[0] == fields@[0]@ && views(fields@)[2] == fields@[2]@);
    Some((fields[0].clone(), fields[2].clone()))
}

/// The windows on the `listed` lines whose class matches `class` once it is in
/// lower case, as `class` is, in order.
pub open spec fn matching_ids(listed: Seq<Seq<char>>, class: Seq<char>) -> Seq<Seq<char>>
    decreases listed.len(),
{
    if listed.len() == 0 {
        Seq::empty()
    } else {
        let before = matching_ids(listed.drop_last(), class);
        match line_window(listed.last()) {
            Some((id, wm_class)) => if class_part_matches(lowered(wm_class), class) {
                before.push(id)
            } else {
                before
            },
            None => before,
        }
    }
}

/// What `wmctrl -l -x` printed, searched for the windows of `class` in upper
/// or lower case.
pub open spec fn wmctrl_ids(stdout: Seq<char>, class: Seq<char>) -> Seq<Seq<char>> {
    matching_ids(lines(stdout), lowered(class))
}

/// The windows of `class` in what `wmctrl -l -x` printed. Each line is
/// `<id> <desktop> <instance>.<class> <host> <title>`; the class matches where
/// either half holds it, in upper or lower case.
pub fn parse_wmctrl_list(stdout: &str, class: &str) -> (r: Vec<WindowId>)
    ensures
        views(r@) == wmctrl_ids(stdout@, class@),
{
    let class_lower = to_lowercase(class);
    let listed = split_lines(stdout);
    let mut ids: Vec<WindowId> = Vec::new();
    let mut i: usize = 0;
    assert(views(listed@).take(0) =~= Seq::<Seq<char>>::empty());
    while i < listed.len()
        invariant
            i <= listed.len(),
            views(ids@) == matching_ids(views(listed@).take(i as int), class_lower@),
        decreases listed.len() - i,
    {
        let ghost upto = views(listed@).take(i + 1);
        let ghost before = ids@;
        proof {
            assert(upto.drop_last() =~= views(listed@).take(i as int));
            assert(upto.last() == listed@[i as int]@);
        }
        if let Some((id, wm_class)) = parse_wmctrl_line(listed[i].as_str()) {
            let wm_class_lower = to_lowercase(wm_class.as_str());
            proof {
                lemma_views_push(before, id);
            }
            if matches_class_part(wm_class_lower.as_str(), class_lower.as_str()) {
                ids.push(id);
            }
        }
        i += 1;
    }
    assert(views(listed@).take(listed.len() as int) =~= views(listed@));
    ids
}

/// The active window in what `xdotool getactivewindow` printed, as it stands
/// there: all of it without the white space around it, unless that leaves
/// nothing or `0x0`, the identifier of no window.
pub open spec fn printed_active(stdout: Seq<char>) -> Option<Seq<char>> {
    if trimmed(stdout).len() == 0 || trimmed(stdout) == "0x0"@ {
        None
    } else {
        Some(trimmed(stdout))
    }
}

/// The active window that `xdotool getactivewindow` printed, as it stands
/// there.
pub fn parse_active_window(stdout: &str) -> (r: Option<WindowId>)
    ensures
        opt_view(r) == printed_active(stdout@),
{
    let id = trim(stdout);
    if id.as_str().is_empty() || same(id.as_str(), "0x0") {
        None
    } else {
        Some(id)
    }
}

/// The active window in what `xdotool getactivewindow` printed, written as
/// `wmctrl` writes windows: a decimal number becomes a hexadecimal one.
pub open spec fn active_id(stdout: Seq<char>) -> Option<Seq<char>> {
    match printed_active(stdout) {
        Some(id) => match parsed_number(id, u64::MAX as nat) {
            Some(n) => Some(hex_id(n)),
            None => Some(id),
        },
        None => None,
    }
}

/// The active window that `xdotool getactivewindow` printed, written as
/// `wmctrl` writes windows, so that the two tools' identifiers can be
/// compared.
pub fn normalize_active_window(stdout: &str) -> (r: Option<WindowId>)
    ensures
        opt_view(r) == active_id(stdout@),
{
    match parse_active_window(stdout) {
        Some(id) => match parse_number(id.as_str(), u64::MAX) {
            Some(n) => Some(to_hex_id(n)),
            None => Some(id),
        },
        None => None,
    }
}

/// A program with its arguments.
pub open spec fn command_with(program: Seq<char>, args: Seq<Seq<char>>) -> InvocationView {
    InvocationView { program, args }
}

/// How a run of a command went of which only that it could run counts.
pub open spec fn started_result(
    program: Seq<char>,
    ran: Result<ToolOutput, SpawnFailure>,
) -> Result<(), ErrorView> {
    match ran {
        Ok(_) => Ok(()),
        Err(failure) => Err(spawn_error_of(program, failure)),
    }
}

/// What to run to bring a window to the front.
pub open spec fn activate_invocation(id: Seq<char>) -> InvocationView {
    command_with("wmctrl"@, seq!["-i"@, "-a"@, id])
}

/// What to run to minimize a window.
pub open spec fn minimize_invocation(id: Seq<char>) -> InvocationView {
    command_with("xdotool"@, seq!["windowminimize"@, id])
}

/// The windows of `class` that a run of `wmctrl` showed.
pub open spec fn wmctrl_answer(class: Seq<char>, ran: Result<ToolOutput, SpawnFailure>) -> Result<
    Seq<Seq<char>>,
    ErrorView,
> {
    match ran {
        Ok(out) => Ok(wmctrl_ids(printed_text(out.stdout@), class)),
        Err(failure) => Err(spawn_error_of("wmctrl"@, failure)),
    }
}

/// The window that a run of `xdotool` named.
pub open spec fn xdotool_answer(ran: Result<ToolOutput, SpawnFailure>) -> Result<
    Option<Seq<char>>,
    ErrorView,
> {
    match ran {
        Ok(out) => Ok(active_id(printed_text(out.stdout@))),
        Err(failure) => Err(spawn_error_of("xdotool"@, failure)),
    }
}

impl X11Backend {
    /// What to run to list all windows.
    pub fn list_windows_command(&self) -> (r: Invocation)
        ensures
            r@ == command_with("wmctrl"@, seq!["-l"@, "-x"@]),
    {
        let r = Invocation {
            program: "wmctrl".to_owned(),
            args: vec!["-l".to_owned(), "-x".to_owned()],
        };
        assert(r@.args =~= seq!["-l"@, "-x"@]);
        r
    }

    /// What to run to bring a window to the front.
    pub fn activate_command(&self, id: &WindowId) -> (r: Invocation)
        ensures
            r@ == activate_invocation(id@),
    {
        let r = Invocation {
            program: "wmctrl".to_owned(),
            args: vec!["-i".to_owned(), "-a".to_owned(), id.clone()],
        };
        assert(r@.args =~= seq!["-i"@, "-a"@, id@]);
        r
    }

    /// What to run to minimize a window.
    pub fn minimize_command(&self, id: &WindowId) -> (r: Invocation)
        ensures
            r@ == minimize_invocation(id@),
    {
        let r = Invocation {
            program: "xdotool".to_owned(),
            args: vec!["windowminimize".to_owned(), id.clone()],
        };
        assert(r@.args =~= seq!["windowminimize"@, id@]);
        r
    }

    /// What to run to learn which window has the focus.
    pub fn active_window_command(&self) -> (r: Invocation)
        ensures
            r@ == command_with("xdotool"@, seq!["getactivewindow"@]),
    {
        let r = Invocation {
            program: "xdotool".to_owned(),
            args: vec!["getactivewindow".to_owned()],
        };
        assert(r@.args =~= seq!["getactivewindow"@]);
        r
    }

    /// The windows of `class` that a run of [`Self::list_windows_command`]
    /// showed.
    pub fn list_windows(&self, class: &str, ran: Result<ToolOutput, SpawnFailure>) -> (r: Result<
        Vec<WindowId>,
        BackendError,
    >)
        ensures
            list_result(r) == wmctrl_answer(class@, ran),
    {
        match ran {
            Ok(out) => Ok(
                parse_wmctrl_list(from_utf8_lossy(out.stdout.as_slice()).as_str(), class),
            ),
            Err(failure) => Err(spawn_error("wmctrl", failure)),
        }
    }

    /// How a run of [`Self::activate_command`] went.
    pub fn activate(&self, ran: Result<ToolOutput, SpawnFailure>) -> (r: Result<(), BackendError>)
        ensures
            unit_result(r) == started_result("wmctrl"@, ran),
    {
        match ran {
            Ok(_) => Ok(()),
            Err(failure) => Err(spawn_error("wmctrl", failure)),
        }
    }

    /// How a run of [`Self::minimize_command`] went.
    pub fn minimize(&self, ran: Result<ToolOutput, SpawnFailure>) -> (r: Result<(), BackendError>)
        ensures
            unit_result(r) == started_result("xdotool"@, ran),
    {
        match ran {
            Ok(_) => Ok(()),
            Err(failure) => Err(spawn_error("xdotool", failure)),
        }
    }

    /// The window that a run of [`Self::active_window_command`] named, if any.
    pub fn active_window(&self, ran: Result<ToolOutput, SpawnFailure>) -> (r: Result<
        Option<WindowId>,
        BackendError,
    >)
        ensures
            active_result(r) == xdotool_answer(ran),
    {
        match ran {
            Ok(out) => Ok(
                normalize_active_window(from_utf8_lossy(out.stdout.as_slice()).as_str()),
            ),
            Err(failure) => Err(spawn_error("xdotool", failure)),
        }
    }
}

proof fn lemma_trim_number_line(s: Seq<char>)
    requires
        s.len() > 0,
        crate::number::all_decimal(s),
    ensures
        trimmed(s.push('\n')) == s,
{
    let t = s.push('\n');
    assert(!is_space(t[0])) by {
        assert('0' <= s[0] <= '9');
    }
    assert(trim_start(t) == t);
    assert(is_space(t.last()));
    assert(t.drop_last() =~= s);
    assert('0' <= s[s.len() - 1] <= '9');
    assert(trim_end(s) == s);
}

/// The two tools agree: the number that `xdotool` prints in decimal, with a
/// line feed after it, becomes the identifier that `wmctrl` prints for the
/// same window, so the active window is found among the listed ones.
pub proof fn law_tools_agree_on_windows(n: nat)
    requires
        n <= u64::MAX,
    ensures
        active_id(digits(n, 10).push('\n')) == Some(hex_id(n)),
{
    let s = digits(n, 10);
    lemma_value_of_digits(n, 10);
    lemma_trim_number_line(s);
    law_decimal_round_trip(n, u64::MAX as nat);
    reveal_strlit("0x0");
    assert("0x0"@[1] == 'x');
    if s == "0x0"@ {
        assert('0' <= s[1] <= '9');
    }
}

/// A window is found by either half of its class, and by whatever one of them
/// holds, with dots or without.
pub proof fn law_either_half_matches(instance: Seq<char>, class: Seq<char>)
    ensures
        class_part_matches(instance.push('.') + class, instance),
        class_part_matches(instance.push('.') + class, class),
        forall|searched: Seq<char>|
            occurs(searched, instance) || occurs(searched, class) ==> #[trigger]
            class_part_matches(instance.push('.') + class, searched),
{
    let wm_class = instance.push('.') + class;
    let at = instance.len() as int;
    assert(wm_class[at] == '.');
    assert(wm_class.take(at) =~= instance);
    assert(wm_class.skip(at + 1) =~= class);
    assert(occurs_at(instance, instance, 0)) by {
        assert(instance.subrange(0, instance.len() as int) =~= instance);
    }
    assert(occurs_at(class, class, 0)) by {
        assert(class.subrange(0, class.len() as int) =~= class);
    }
}

/// A class without a dot in it matches wherever it stands in a window's class:
/// no dot can part it.
pub proof fn law_a_class_without_a_dot_matches_anywhere(wm_class: Seq<char>, class: Seq<char>)
    requires
        !class.contains('.'),
    ensures
        class_part_matches(wm_class, class) <==> occurs(class, wm_class),
{
    let n = class.len() as int;
    if class_part_matches(wm_class, class) && wm_class.contains('.') {
        let i = choose|i: int|
            0 <= i < wm_class.len() && #[trigger] wm_class[i] == '.' && (occurs(
                class,
                wm_class.take(i),
            ) || occurs(class, wm_class.skip(i + 1)));
        if occurs(class, wm_class.take(i)) {
            let at = choose|at: int| occurs_at(class, wm_class.take(i), at);
            assert(wm_class.subrange(at, at + n) =~= wm_class.take(i).subrange(at, at + n));
            assert(occurs_at(class, wm_class, at));
        } else {
            let after = wm_class.skip(i + 1);
            let at = choose|at: int| occurs_at(class, after, at);
            assert(wm_class.subrange(at + i + 1, at + i + 1 + n) =~= after.subrange(at, at + n));
            assert(occurs_at(class, wm_class, at + i + 1));
        }
    }
    if occurs(class, wm_class) && wm_class.contains('.') {
        let at = choose|at: int| occurs_at(class, wm_class, at);
        let i = choose|i: int| 0 <= i < wm_class.len() && wm_class[i] == '.';
        if at <= i < at + n {
            assert(wm_class.subrange(at, at + n)[i - at] == '.');
            assert(class[i - at] == '.');
        }
        if at + n <= i {
            assert(wm_class.take(i).subrange(at, at + n) =~= wm_class.subrange(at, at + n));
            assert(occurs_at(class, wm_class.take(i), at));
        } else {
            assert(wm_class.skip(i + 1).subrange(at - i - 1, at - i - 1 + n) =~= wm_class.subrange(
                at,
                at + n,
            ));
            assert(occurs_at(class, wm_class.skip(i + 1), at - i - 1));
        }
    }
}

/// A class of ASCII characters without a dot is found wherever it stands in a
/// window's class, in upper or lower case.
pub proof fn law_a_plain_class_is_found_anywhere(wm_class: Seq<char>, class: Seq<char>)
    requires
        is_ascii_chars(class),
        !class.contains('.'),
    ensures
        class_part_matches(lowered(wm_class), lowered(class)) <==> occurs(
            lowered(class),
            lowered(wm_class),
        ),
{
    if lowered(class).contains('.') {
        let i = choose|i: int| 0 <= i < class.len() && lowered(class)[i] == '.';
        assert(class[i] == '.');
    }
    law_a_class_without_a_dot_matches_anywhere(lowered(wm_class), lowered(class));
}

/// A window's class matches exactly where one of its halves holds the class
/// that is searched for, whichever of its dots is the one between them; what
/// has no dot has no halves and is taken whole.
pub proof fn law_a_class_matches_by_a_half_only(wm_class: Seq<char>, searched: Seq<char>)
    ensures
        wm_class.contains('.') ==> (class_part_matches(wm_class, searched) <==> exists|
            instance: Seq<char>,
            class: Seq<char>,
        |
            wm_class == #[trigger] (instance.push('.') + class) && (occurs(searched, instance)
                || occurs(searched, class))),
        !wm_class.contains('.') ==> (class_part_matches(wm_class, searched) <==> occurs(
            searched,
            wm_class,
        )),
{
    if class_part_matches(wm_class, searched) && wm_class.contains('.') {
        let i = choose|i: int|
            0 <= i < wm_class.len() && #[trigger] wm_class[i] == '.' && (occurs(
                searched,
                wm_class.take(i),
            ) || occurs(searched, wm_class.skip(i + 1)));
        let instance = wm_class.take(i);
        let class = wm_class.skip(i + 1);
        assert(wm_class =~= instance.push('.') + class);
    }
    if exists|instance: Seq<char>, class: Seq<char>|
        wm_class == #[trigger] (instance.push('.') + class) && (occurs(searched, instance)
            || occurs(searched, class)) {
        let (instance, class) = choose|instance: Seq<char>, class: Seq<char>|
            wm_class == #[trigger] (instance.push('.') + class) && (occurs(searched, instance)
                || occurs(searched, class));
        law_either_half_matches(instance, class);
    }
}

/// The windows on the lines are read one by one: one more line adds its first
/// word behind the others, where the third matches, and else nothing.
pub proof fn law_windows_are_read_one_by_one(
    listed: Seq<Seq<char>>,
    line: Seq<char>,
    class: Seq<char>,
)
    ensures
        matching_ids(Seq::empty(), class) == Seq::<Seq<char>>::empty(),
        words(line).len() >= 3 && class_part_matches(lowered(words(line)[2]), class)
            ==> matching_ids(listed.push(line), class) == matching_ids(listed, class).push(
            words(line)[0],
        ),
        words(line).len() < 3 || !class_part_matches(lowered(words(line)[2]), class)
            ==> matching_ids(listed.push(line), class) == matching_ids(listed, class),
{
    assert(listed.push(line).drop_last() =~= listed);
}

/// A search goes through all lines that were printed, by the class in lower
/// case.
pub proof fn law_a_search_goes_through_all_lines(
    line: Seq<char>,
    class: Seq<char>,
    rest: Seq<char>,
)
    requires
        !line.contains('\n'),
        line.len() > 0 ==> line[line.len() - 1] != '\r',
    ensures
        wmctrl_ids(line.push('\n') + rest, class) == matching_ids(seq![line], lowered(class))
            + wmctrl_ids(rest, class),
        wmctrl_ids(Seq::empty(), class) == Seq::<Seq<char>>::empty(),
{
    law_line_feeds_end_lines(line, rest);
    lemma_matching_ids_of_sum(seq![line], lines(rest), lowered(class));
}

proof fn lemma_matching_ids_of_sum(a: Seq<Seq<char>>, b: Seq<Seq<char>>, class: Seq<char>)
    ensures
        matching_ids(a + b, class) == matching_ids(a, class) + matching_ids(b, class),
    decreases b.len(),
{
    if b.len() == 0 {
        assert(a + b =~= a);
        assert(matching_ids(a, class) + matching_ids(b, class) =~= matching_ids(a, class));
    } else {
        assert((a + b).drop_last() =~= a + b.drop_last());
        lemma_matching_ids_of_sum(a, b.drop_last(), class);
        assert(matching_ids(a + b, class) =~= matching_ids(a, class) + matching_ids(b, class));
    }
}

/// The window that has the focus is what was printed, between the white space
/// at the ends: none where that is nothing or `0x0`; a decimal number becomes
/// its identifier, and anything else stays.
pub proof fn law_the_printed_window_has_the_focus(
    before: Seq<char>,
    id: Seq<char>,
    after: Seq<char>,
)
    requires
        is_blank(before),
        is_trim(id),
        is_blank(after),
    ensures
        id.len() == 0 || id == "0x0"@ ==> {
            &&& printed_active(before + id + after) is None
            &&& active_id(before + id + after) is None
        },
        id.len() > 0 && id != "0x0"@ ==> {
            &&& printed_active(before + id + after) == Some(id)
            &&& parsed_number(id, u64::MAX as nat) is None ==> active_id(before + id + after)
                == Some(id)
            &&& parsed_number(id, u64::MAX as nat) is Some ==> active_id(before + id + after)
                == Some(hex_id(parsed_number(id, u64::MAX as nat)->0))
        },
{
    law_trimming_takes_the_ends_away(before, id, after);
}

/// Commands name the window as it is, last, each to its own tool.
pub proof fn law_commands_name_their_window(id: Seq<char>)
    ensures
        activate_invocation(id).program == "wmctrl"@,
        activate_invocation(id).args == seq!["-i"@, "-a"@, id],
        minimize_invocation(id).program == "xdotool"@,
        minimize_invocation(id).args == seq!["windowminimize"@, id],
{
}

/// What a run means: a tool that could not be run is the error about that, by
/// the tool's name, and one that ran is read from what it printed, however it
/// ended.
pub proof fn law_what_a_run_of_a_tool_means(
    class: Seq<char>,
    program: Seq<char>,
    out: ToolOutput,
    failure: SpawnFailure,
)
    ensures
        wmctrl_answer(class, Err(failure)) == Err::<Seq<Seq<char>>, ErrorView>(
            spawn_error_of("wmctrl"@, failure),
        ),
        xdotool_answer(Err(failure)) == Err::<Option<Seq<char>>, ErrorView>(
            spawn_error_of("xdotool"@, failure),
        ),
        started_result(program, Err(failure)) == Err::<(), ErrorView>(
            spawn_error_of(program, failure),
        ),
        started_result(program, Ok(out)) is Ok,
        wmctrl_answer(class, Ok(out)) == Ok::<Seq<Seq<char>>, ErrorView>(
            wmctrl_ids(printed_text(out.stdout@), class),
        ),
        xdotool_answer(Ok(out)) == Ok::<Option<Seq<char>>, ErrorView>(
            active_id(printed_text(out.stdout@)),
        ),
{
}

} // verus!

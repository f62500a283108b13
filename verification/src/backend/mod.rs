//! The desktops' own window tools: which of them to use, what to run for each
//! operation, and what the answer means. Running the tools is the caller's
//! part.

pub mod gnome;
pub mod kdotool;
pub mod x11;

use crate::text::{
    ascii_lower, law_separators_part_a_text, opt_str_view, opt_view, parts, same, split_on,
    to_ascii_lowercase, views,
};
use vstd::prelude::*;

verus! {

/// A window's identifier, as the desktop's own tool writes it.
pub type WindowId = String;

/// Why an operation on windows failed.
#[derive(Debug)]
pub enum BackendError {
    /// The tool that the desktop needs is not there.
    Unavailable(String),
    /// The tool is there and did not do what it was asked for.
    CommandFailed(String),
}

/// The contents of a [`BackendError`].
#[verifier::ext_equal]
pub enum ErrorView {
    Unavailable(Seq<char>),
    CommandFailed(Seq<char>),
}

impl View for BackendError {
    type V = ErrorView;

    open spec fn view(&self) -> ErrorView {
        match *self {
            BackendError::Unavailable(msg) => ErrorView::Unavailable(msg@),
            BackendError::CommandFailed(msg) => ErrorView::CommandFailed(msg@),
        }
    }
}

impl ErrorView {
    /// The error as a sentence.
    pub open spec fn message(self) -> Seq<char> {
        match self {
            ErrorView::Unavailable(msg) =>
                "the window backend for this desktop is not available: "@ + msg,
            ErrorView::CommandFailed(msg) => "backend command failed: "@ + msg,
        }
    }
}

impl BackendError {
    /// The error as a sentence.
    pub fn message(&self) -> (r: String)
        ensures
            r@ == self@.message(),
    {
        match self {
            BackendError::Unavailable(msg) => {
                "the window backend for this desktop is not available: ".to_owned().concat(
                    msg.as_str(),
                )
            },
            BackendError::CommandFailed(msg) => {
                "backend command failed: ".to_owned().concat(msg.as_str())
            },
        }
    }
}

/// The contents of a result without a value.
pub open spec fn unit_result(r: Result<(), BackendError>) -> Result<(), ErrorView> {
    match r {
        Ok(_) => Ok(()),
        Err(e) => Err(e@),
    }
}

/// The contents of a result that lists windows.
pub open spec fn list_result(r: Result<Vec<WindowId>, BackendError>) -> Result<
    Seq<Seq<char>>,
    ErrorView,
> {
    match r {
        Ok(ids) => Ok(views(ids@)),
        Err(e) => Err(e@),
    }
}

/// The contents of a result that holds the active window, if any.
pub open spec fn active_result(r: Result<Option<WindowId>, BackendError>) -> Result<
    Option<Seq<char>>,
    ErrorView,
> {
    match r {
        Ok(id) => Ok(opt_view(id)),
        Err(e) => Err(e@),
    }
}

/// A program to run and its arguments.
#[derive(Debug, PartialEq, Eq)]
pub struct Invocation {
    pub program: String,
    pub args: Vec<String>,
}

/// The contents of an [`Invocation`].
#[verifier::ext_equal]
pub struct InvocationView {
    pub program: Seq<char>,
    pub args: Seq<Seq<char>>,
}

impl View for Invocation {
    type V = InvocationView;

    open spec fn view(&self) -> InvocationView {
        InvocationView { program: self.program@, args: views(self.args@) }
    }
}

/// What a program that ran to its end left behind.
#[derive(Debug)]
pub struct ToolOutput {
    /// Whether it reported success.
    pub success: bool,
    /// Its exit status in words.
    pub status: String,
    pub stdout: Vec<u8>,
    pub stderr: Vec<u8>,
}

/// Why a program could not be run.
#[derive(Debug)]
pub struct SpawnFailure {
    /// Whether there is no such program.
    pub not_found: bool,
    /// The operating system's message.
    pub message: String,
}

/// The error for a program that could not be run: the tool is not available
/// where there is no such program, else the command failed.
pub open spec fn spawn_error_of(program: Seq<char>, failure: SpawnFailure) -> ErrorView {
    if failure.not_found {
        ErrorView::Unavailable(program + " is not installed"@)
    } else {
        ErrorView::CommandFailed(failure.message@)
    }
}

/// The error for a program that could not be run.
pub fn spawn_error(program: &str, failure: SpawnFailure) -> (r: BackendError)
    ensures
        r@ == spawn_error_of(program@, failure),
{
    if failure.not_found {
        BackendError::Unavailable(program.to_owned().concat(" is not installed"))
    } else {
        BackendError::CommandFailed(failure.message)
    }
}

/// The desktops' window tools.
#[derive(Debug, Clone, Copy, PartialEq, Eq, Structural)]
pub enum BackendKind {
    /// `kdotool`, on KDE Plasma.
    Kdotool,
    /// The Window Calls extension of GNOME Shell.
    GnomeWindowCalls,
    /// `wmctrl` and `xdotool`, on other X11 window managers.
    X11,
}

/// Whether `desktop`, a list of names with colons between them, holds `name`
/// in upper or lower case; `name` is in lower case.
pub open spec fn desktop_is(desktop: Option<Seq<char>>, name: Seq<char>) -> bool {
    desktop is Some && exists|i: int|
        0 <= i < parts(desktop->0, ':').len() && ascii_lower(#[trigger] parts(desktop->0, ':')[i])
            == name
}

/// Which tool serves a session: `kdotool` on KDE Plasma, the Window Calls
/// extension on GNOME, and elsewhere the X11 tools, where the session is an
/// X11 one or has an X11 display without being a Wayland one. A Wayland session
/// of another desktop has none, though it may have an X11 display: that shows
/// only some of its windows.
pub open spec fn selected(
    desktop: Option<Seq<char>>,
    session_type: Option<Seq<char>>,
    display: Option<Seq<char>>,
) -> Option<BackendKind> {
    if desktop_is(desktop, "kde"@) {
        Some(BackendKind::Kdotool)
    } else if desktop_is(desktop, "gnome"@) {
        Some(BackendKind::GnomeWindowCalls)
    } else if session_type == Some("x11"@) {
        Some(BackendKind::X11)
    } else if session_type != Some("wayland"@) && display is Some && display->0.len() > 0 {
        Some(BackendKind::X11)
    } else {
        None
    }
}

fn names_desktop(desktop: Option<&str>, name: &str) -> (r: bool)
    ensures
        r == desktop_is(opt_str_view(desktop), name@),
{
    match desktop {
        Some(list) => {
            let names = split_on(list, ':');
            let mut i: usize = 0;
            while i < names.len()
                invariant
                    i <= names.len(),
                    opt_str_view(desktop) == Some(list@),
                    views(names@) == parts(list@, ':'),
                    forall|k: int|
                        0 <= k < i ==> ascii_lower(#[trigger] parts(list@, ':')[k]) != name@,
                decreases names.len() - i,
            {
                assert(views(names@).len() == names@.len());
                assert(parts(list@, ':')[i as int] == names@[i as int]@);
                let lower = to_ascii_lowercase(names[i].as_str());
                if same(lower.as_str(), name) {
                    assert(lower@ == ascii_lower(parts(list@, ':')[i as int]));
                    assert(opt_str_view(desktop)->0 == list@);
                    return true;
                }
                i += 1;
            }
            false
        },
        None => false,
    }
}

/// Selects the tool for a session from `XDG_CURRENT_DESKTOP`,
/// `XDG_SESSION_TYPE` and `DISPLAY`.
pub fn select_backend(
    desktop: Option<&str>,
    session_type: Option<&str>,
    display: Option<&str>,
) -> (r: Option<BackendKind>)
    ensures
        r == selected(opt_str_view(desktop), opt_str_view(session_type), opt_str_view(display)),
{
    if names_desktop(desktop, "kde") {
        return Some(BackendKind::Kdotool);
    }
    if names_desktop(desktop, "gnome") {
        return Some(BackendKind::GnomeWindowCalls);
    }
    if let Some(session) = session_type {
        if same(session, "x11") {
            return Some(BackendKind::X11);
        }
        if same(session, "wayland") {
            return None;
        }
    }
    match display {
        Some(d) => {
            if d.is_empty() {
                None
            } else {
                Some(BackendKind::X11)
            }
        },
        None => None,
    }
}

/// An error's sentence ends in its message, and what comes before that tells
/// the two kinds apart.
pub proof fn law_an_error_tells_its_message(msg: Seq<char>)
    ensures
        ErrorView::Unavailable(msg).message()
            == "the window backend for this desktop is not available: "@ + msg,
        ErrorView::CommandFailed(msg).message() == "backend command failed: "@ + msg,
{
}

/// A program that is not there makes its tool unavailable, by its name; one that
/// cannot be run for another reason is a command that failed, with the reason.
pub proof fn law_a_missing_program_is_named(program: Seq<char>, failure: SpawnFailure)
    ensures
        failure.not_found ==> spawn_error_of(program, failure) == ErrorView::Unavailable(
            program + " is not installed"@,
        ),
        !failure.not_found ==> spawn_error_of(program, failure) == ErrorView::CommandFailed(
            failure.message@,
        ),
{
}

/// KDE Plasma has `kdotool`, in whatever session, where it stands between the
/// colons of the desktop's names in upper or lower case, whatever else does.
pub proof fn law_kde_has_its_tool(
    before: Seq<char>,
    name: Seq<char>,
    after: Seq<char>,
    session_type: Option<Seq<char>>,
    display: Option<Seq<char>>,
)
    requires
        !name.contains(':'),
        ascii_lower(name) == "kde"@,
    ensures
        selected(Some(name), session_type, display) == Some(BackendKind::Kdotool),
        selected(Some(before.push(':') + name), session_type, display) == Some(
            BackendKind::Kdotool,
        ),
        selected(Some(name.push(':') + after), session_type, display) == Some(
            BackendKind::Kdotool,
        ),
        selected(Some(before.push(':') + (name.push(':') + after)), session_type, display) == Some(
            BackendKind::Kdotool,
        ),
{
    lemma_named_among(before, name, after);
    let d = Some(name);
    assert(desktop_is(d, ascii_lower(name)));
}

proof fn lemma_named_among(before: Seq<char>, name: Seq<char>, after: Seq<char>)
    requires
        !name.contains(':'),
    ensures
        desktop_is(Some(name), ascii_lower(name)),
        desktop_is(Some(before.push(':') + name), ascii_lower(name)),
        desktop_is(Some(name.push(':') + after), ascii_lower(name)),
        desktop_is(Some(before.push(':') + (name.push(':') + after)), ascii_lower(name)),
{
    let none = Seq::<char>::empty();
    law_separators_part_a_text(name, ':', none);
    law_separators_part_a_text(name, ':', after);
    law_separators_part_a_text(before, ':', name);
    law_separators_part_a_text(before, ':', name.push(':') + after);
    let n = parts(before, ':').len() as int;
    let lower = ascii_lower(name);
    let only = Some(name);
    assert(ascii_lower(parts(only->0, ':')[0]) == lower);
    let first = Some(name.push(':') + after);
    assert(parts(first->0, ':')[0] == name);
    assert(ascii_lower(parts(first->0, ':')[0]) == lower);
    let last = Some(before.push(':') + name);
    assert(parts(last->0, ':')[n] == name);
    assert(ascii_lower(parts(last->0, ':')[n]) == lower);
    let mid = Some(before.push(':') + (name.push(':') + after));
    assert(parts(mid->0, ':')[n] == name);
    assert(ascii_lower(parts(mid->0, ':')[n]) == lower);
}

/// GNOME has the Window Calls extension, in whatever session, where it stands
/// between the colons of the desktop's names in upper or lower case and KDE
/// does not.
pub proof fn law_gnome_has_its_tool(
    before: Seq<char>,
    name: Seq<char>,
    after: Seq<char>,
    session_type: Option<Seq<char>>,
    display: Option<Seq<char>>,
)
    requires
        !name.contains(':'),
        ascii_lower(name) == "gnome"@,
        forall|i: int|
            0 <= i < parts(before, ':').len() ==> ascii_lower(#[trigger] parts(before, ':')[i])
                != "kde"@,
        forall|i: int|
            0 <= i < parts(after, ':').len() ==> ascii_lower(#[trigger] parts(after, ':')[i])
                != "kde"@,
    ensures
        selected(Some(name), session_type, display) == Some(BackendKind::GnomeWindowCalls),
        selected(Some(before.push(':') + (name.push(':') + after)), session_type, display) == Some(
            BackendKind::GnomeWindowCalls,
        ),
{
    lemma_named_among(before, name, after);
    law_separators_part_a_text(name, ':', after);
    law_separators_part_a_text(before, ':', name.push(':') + after);
    reveal_strlit("kde");
    reveal_strlit("gnome");
    assert("kde"@.len() != "gnome"@.len());
    let n = parts(before, ':').len() as int;
    let whole = before.push(':') + (name.push(':') + after);
    assert(!desktop_is(Some(name), "kde"@));
    assert forall|i: int| 0 <= i < parts(whole, ':').len() implies ascii_lower(
        #[trigger] parts(whole, ':')[i],
    ) != "kde"@ by {
        if i < n {
            assert(parts(whole, ':')[i] == parts(before, ':')[i]);
        } else if i == n {
            assert(parts(whole, ':')[i] == name);
        } else {
            assert(parts(whole, ':')[i] == parts(after, ':')[i - n - 1]);
        }
    }
    assert(!desktop_is(Some(whole), "kde"@));
}

/// Any other desktop has the X11 tools where its session is an X11 one, none
/// where it is a Wayland one, and else the X11 tools where there is an X11
/// display.
pub proof fn law_other_desktops_have_the_x11_tools_or_none(
    desktop: Option<Seq<char>>,
    session_type: Option<Seq<char>>,
    display: Option<Seq<char>>,
)
    requires
        desktop is Some ==> forall|i: int|
            0 <= i < parts(desktop->0, ':').len() ==> ascii_lower(
                #[trigger] parts(desktop->0, ':')[i],
            ) != "kde"@ && ascii_lower(parts(desktop->0, ':')[i]) != "gnome"@,
    ensures
        session_type == Some("x11"@) ==> selected(desktop, session_type, display) == Some(
            BackendKind::X11,
        ),
        session_type == Some("wayland"@) ==> selected(desktop, session_type, display) is None,
        session_type != Some("x11"@) && session_type != Some("wayland"@) ==> {
            &&& display is Some && display->0.len() > 0 ==> selected(
                desktop,
                session_type,
                display,
            ) == Some(BackendKind::X11)
            &&& display is None || display->0.len() == 0 ==> selected(
                desktop,
                session_type,
                display,
            ) is None
        },
{
    reveal_strlit("x11");
    reveal_strlit("wayland");
    assert("x11"@.len() != "wayland"@.len());
}

} // verus!

//! GNOME Shell's windows, through the Window Calls extension's D-Bus
//! interface.

use crate::backend::{
    active_result, list_result, unit_result, BackendError, ErrorView, WindowId,
};
use crate::number::{digits, law_decimal_round_trip, parse_number, parsed_number, to_decimal};
use crate::outside::{lowered, to_lowercase};
use crate::text::{
    contains, law_holding_is_standing_in_between, lemma_views_push, occurs, opt_view, views,
};
use vstd::prelude::*;

verus! {

/// The Window Calls extension of GNOME Shell.
pub struct GnomeWindowCallsBackend;

/// A window, as the extension describes it.
#[derive(Debug)]
pub struct GnomeWindow {
    pub id: u32,
    pub wm_class: String,
    /// Whether the window has the focus.
    pub focus: bool,
}

/// The contents of a [`GnomeWindow`].
#[verifier::ext_equal]
pub struct GnomeWindowView {
    pub id: u32,
    pub wm_class: Seq<char>,
    pub focus: bool,
}

impl View for GnomeWindow {
    type V = GnomeWindowView;

    open spec fn view(&self) -> GnomeWindowView {
        GnomeWindowView { id: self.id, wm_class: self.wm_class@, focus: self.focus }
    }
}

/// The contents of a list of windows.
pub open spec fn window_views(list: Seq<GnomeWindow>) -> Seq<GnomeWindowView> {
    list.map_values(|w: GnomeWindow| w@)
}

/// What a list that could not be read as one means.
pub open spec fn bad_json(message: Seq<char>) -> ErrorView {
    ErrorView::CommandFailed("bad Window Calls JSON: "@ + message)
}

/// The windows of `class`, in order: those whose class holds it, in upper or
/// lower case.
pub open spec fn windows_of_class(all: Seq<GnomeWindowView>, class: Seq<char>) -> Seq<
    GnomeWindowView,
> {
    all.filter(|w: GnomeWindowView| occurs(lowered(class), lowered(w.wm_class)))
}

/// Whether a window's class holds the class that is searched for; both are in
/// lower case.
pub fn matches_class(wm_class: &str, class: &str) -> (r: bool)
    ensures
        r == occurs(class@, wm_class@),
{
    contains(wm_class, class)
}

/// The windows of `class` among those that the extension listed, in upper or
/// lower case; `parsed` is its list, or why that could not be read.
pub fn parse_window_list(parsed: Result<Vec<GnomeWindow>, String>, class: &str) -> (r: Result<
    Vec<GnomeWindow>,
    BackendError,
>)
    ensures
        match (parsed, r) {
            (Ok(all), Ok(kept)) => window_views(kept@) == windows_of_class(
                window_views(all@),
                class@,
            ),
            (Err(message), Err(error)) => error@ == bad_json(message@),
            _ => false,
        },
{
    match parsed {
        Err(message) => Err(
            BackendError::CommandFailed(
                "bad Window Calls JSON: ".to_owned().concat(message.as_str()),
            ),
        ),
        Ok(all) => {
            let class_lower = to_lowercase(class);
            let mut kept: Vec<GnomeWindow> = Vec::new();
            let mut i: usize = 0;
            let ghost views_all = window_views(all@);
            let ghost fits = |w: GnomeWindowView|
                occurs(lowered(class@), lowered(w.wm_class));
            proof {
                reveal(Seq::filter);
                assert(views_all.take(0) =~= Seq::<GnomeWindowView>::empty());
                assert(views_all.take(0).filter(fits) =~= window_views(kept@));
            }
            while i < all.len()
                invariant
                    i <= all.len(),
                    views_all == window_views(all@),
                    class_lower@ == lowered(class@),
                    fits == (|w: GnomeWindowView| occurs(lowered(class@), lowered(w.wm_class))),
                    window_views(kept@) == views_all.take(i as int).filter(fits),
                decreases all.len() - i,
            {
                let wm_class_lower = to_lowercase(all[i].wm_class.as_str());
                let ghost before = kept@;
                proof {
                    assert(views_all.take(i + 1) =~= views_all.take(i as int).push(
                        all@[i as int]@,
                    ));
                    views_all.take(i as int).lemma_filter_push(all@[i as int]@, fits);
                }
                if matches_class(wm_class_lower.as_str(), class_lower.as_str()) {
                    let w = GnomeWindow {
                        id: all[i].id,
                        wm_class: all[i].wm_class.clone(),
                        focus: all[i].focus,
                    };
                    kept.push(w);
                    assert(window_views(kept@) =~= window_views(before).push(all@[i as int]@));
                }
                i += 1;
            }
            assert(views_all.take(all.len() as int) =~= views_all);
            Ok(kept)
        },
    }
}

/// The identifiers of the windows, in decimal.
pub open spec fn decimal_ids(list: Seq<GnomeWindowView>) -> Seq<Seq<char>> {
    list.map_values(|w: GnomeWindowView| digits(w.id as nat, 10))
}

/// The identifier of the first window that has the focus, in decimal.
pub open spec fn focused_id(list: Seq<GnomeWindowView>) -> Option<Seq<char>>
    decreases list.len(),
{
    if list.len() == 0 {
        None
    } else if list[0].focus {
        Some(digits(list[0].id as nat, 10))
    } else {
        focused_id(list.drop_first())
    }
}

/// A D-Bus method call with one number as its argument, or none.
#[derive(Debug, PartialEq, Eq)]
pub struct ShellCall {
    pub destination: String,
    pub path: String,
    pub interface: String,
    pub method: String,
    pub argument: Option<u32>,
}

/// The contents of a [`ShellCall`].
#[verifier::ext_equal]
pub struct ShellCallView {
    pub destination: Seq<char>,
    pub path: Seq<char>,
    pub interface: Seq<char>,
    pub method: Seq<char>,
    pub argument: Option<u32>,
}

impl View for ShellCall {
    type V = ShellCallView;

    open spec fn view(&self) -> ShellCallView {
        ShellCallView {
            destination: self.destination@,
            path: self.path@,
            interface: self.interface@,
            method: self.method@,
            argument: self.argument,
        }
    }
}

/// A call of a method of the extension.
pub open spec fn extension_call(method: Seq<char>, argument: Option<u32>) -> ShellCallView {
    ShellCallView {
        destination: "org.gnome.Shell"@,
        path: "/org/gnome/Shell/Extensions/Windows"@,
        interface: "org.gnome.Shell.Extensions.Windows"@,
        method,
        argument,
    }
}

fn shell_call(method: &str, argument: Option<u32>) -> (r: ShellCall)
    ensures
        r@ == extension_call(method@, argument),
{
    ShellCall {
        destination: "org.gnome.Shell".to_owned(),
        path: "/org/gnome/Shell/Extensions/Windows".to_owned(),
        interface: "org.gnome.Shell.Extensions.Windows".to_owned(),
        method: method.to_owned(),
        argument,
    }
}

/// Why a call got no answer that can be used, with the message about it.
#[derive(Debug)]
pub enum ShellFailure {
    /// There is no session bus.
    NoSession(String),
    /// The call was refused.
    Refused(String),
    /// The call was not made to its end.
    Interrupted(String),
    /// The answer is not of the kind that the method gives.
    BadReply(String),
}

/// The error for a call that failed: the extension is not available where the
/// bus or the extension is missing, else the command failed.
pub open spec fn shell_error_of(failure: ShellFailure) -> ErrorView {
    match failure {
        ShellFailure::NoSession(msg) => ErrorView::Unavailable("no session D-Bus: "@ + msg@),
        ShellFailure::Refused(msg) => ErrorView::Unavailable(
            "Window Calls GNOME Shell extension not available: "@ + msg@,
        ),
        ShellFailure::Interrupted(msg) => ErrorView::CommandFailed(msg@),
        ShellFailure::BadReply(msg) => ErrorView::CommandFailed(msg@),
    }
}

/// The error for a call that failed.
pub fn shell_error(failure: ShellFailure) -> (r: BackendError)
    ensures
        r@ == shell_error_of(failure),
{
    match failure {
        ShellFailure::NoSession(msg) => BackendError::Unavailable(
            "no session D-Bus: ".to_owned().concat(msg.as_str()),
        ),
        ShellFailure::Refused(msg) => BackendError::Unavailable(
            "Window Calls GNOME Shell extension not available: ".to_owned().concat(msg.as_str()),
        ),
        ShellFailure::Interrupted(msg) => BackendError::CommandFailed(msg),
        ShellFailure::BadReply(msg) => BackendError::CommandFailed(msg),
    }
}

/// The call of `method` on the window `id`: the identifier is the window's
/// number in decimal, and what is none is an error.
pub open spec fn window_call_of(method: Seq<char>, id: Seq<char>) -> Result<
    ShellCallView,
    ErrorView,
> {
    match parsed_number(id, u32::MAX as nat) {
        Some(n) => Ok(extension_call(method, Some(n as u32))),
        None => Err(ErrorView::CommandFailed("not a Window Calls id: "@ + id)),
    }
}

/// The contents of a call to make, or of the error in its place.
pub open spec fn call_result(r: Result<ShellCall, BackendError>) -> Result<
    ShellCallView,
    ErrorView,
> {
    match r {
        Ok(call) => Ok(call@),
        Err(e) => Err(e@),
    }
}

fn window_call(method: &str, id: &WindowId) -> (r: Result<ShellCall, BackendError>)
    ensures
        call_result(r) == window_call_of(method@, id@),
{
    match parse_number(id.as_str(), u32::MAX as u64) {
        Some(n) => Ok(shell_call(method, Some(n as u32))),
        None => Err(
            BackendError::CommandFailed("not a Window Calls id: ".to_owned().concat(id.as_str())),
        ),
    }
}

/// The call that lists all windows.
pub open spec fn call_to_list() -> ShellCallView {
    extension_call("List"@, None)
}

/// The call that brings a window to the front.
pub open spec fn call_to_activate(id: Seq<char>) -> Result<ShellCallView, ErrorView> {
    window_call_of("Activate"@, id)
}

/// The call that minimizes a window.
pub open spec fn call_to_minimize(id: Seq<char>) -> Result<ShellCallView, ErrorView> {
    window_call_of("Minimize"@, id)
}

/// The windows of `class` in an answer of the extension.
pub open spec fn windows_in_answer(
    class: Seq<char>,
    reply: Result<Result<Vec<GnomeWindow>, String>, ShellFailure>,
) -> Result<Seq<Seq<char>>, ErrorView> {
    match reply {
        Ok(Ok(all)) => Ok(decimal_ids(windows_of_class(window_views(all@), class))),
        Ok(Err(message)) => Err(bad_json(message@)),
        Err(failure) => Err(shell_error_of(failure)),
    }
}

/// The window with the focus in an answer of the extension.
pub open spec fn focus_in_answer(
    reply: Result<Result<Vec<GnomeWindow>, String>, ShellFailure>,
) -> Result<Option<Seq<char>>, ErrorView> {
    match reply {
        Ok(Ok(all)) => Ok(focused_id(window_views(all@))),
        Ok(Err(message)) => Err(bad_json(message@)),
        Err(failure) => Err(shell_error_of(failure)),
    }
}

/// Whether the extension did what it was asked for.
pub open spec fn done_in_answer(reply: Result<(), ShellFailure>) -> Result<(), ErrorView> {
    match reply {
        Ok(_) => Ok(()),
        Err(failure) => Err(shell_error_of(failure)),
    }
}

impl GnomeWindowCallsBackend {
    /// The call that lists all windows; its answer shows which one has the
    /// focus, too.
    pub fn list_call(&self) -> (r: ShellCall)
        ensures
            r@ == call_to_list(),
    {
        shell_call("List", None)
    }

    /// The call that brings a window to the front.
    pub fn activate_call(&self, id: &WindowId) -> (r: Result<ShellCall, BackendError>)
        ensures
            call_result(r) == call_to_activate(id@),
    {
        window_call("Activate", id)
    }

    /// The call that minimizes a window.
    pub fn minimize_call(&self, id: &WindowId) -> (r: Result<ShellCall, BackendError>)
        ensures
            call_result(r) == call_to_minimize(id@),
    {
        window_call("Minimize", id)
    }

    /// The windows of `class` in the answer to [`Self::list_call`]; the inner
    /// result is the list in the answer, or why it could not be read.
    pub fn list_windows(
        &self,
        class: &str,
        reply: Result<Result<Vec<GnomeWindow>, String>, ShellFailure>,
    ) -> (r: Result<Vec<WindowId>, BackendError>)
        ensures
            list_result(r) == windows_in_answer(class@, reply),
    {
        match reply {
            Err(failure) => Err(shell_error(failure)),
            Ok(parsed) => match parse_window_list(parsed, class) {
                Err(e) => Err(e),
                Ok(kept) => Ok(ids_of(&kept)),
            },
        }
    }

    /// How a call of [`Self::activate_call`] or [`Self::minimize_call`] went.
    pub fn finish(&self, reply: Result<(), ShellFailure>) -> (r: Result<(), BackendError>)
        ensures
            unit_result(r) == done_in_answer(reply),
    {
        match reply {
            Ok(_) => Ok(()),
            Err(failure) => Err(shell_error(failure)),
        }
    }

    /// The window that has the focus in the answer to [`Self::list_call`], if
    /// any; the inner result is the list in the answer, or why it could not be
    /// read.
    pub fn active_window(
        &self,
        reply: Result<Result<Vec<GnomeWindow>, String>, ShellFailure>,
    ) -> (r: Result<Option<WindowId>, BackendError>)
        ensures
            active_result(r) == focus_in_answer(reply),
    {
        match reply {
            Err(failure) => Err(shell_error(failure)),
            Ok(Err(message)) => Err(
                BackendError::CommandFailed(
                    "bad Window Calls JSON: ".to_owned().concat(message.as_str()),
                ),
            ),
            Ok(Ok(all)) => Ok(find_focused(&all)),
        }
    }
}

fn ids_of(list: &Vec<GnomeWindow>) -> (r: Vec<WindowId>)
    ensures
        views(r@) == decimal_ids(window_views(list@)),
{
    let mut ids: Vec<WindowId> = Vec::new();
    let mut i: usize = 0;
    while i < list.len()
        invariant
            i <= list.len(),
            views(ids@) == decimal_ids(window_views(list@)).take(i as int),
        decreases list.len() - i,
    {
        let id = to_decimal(list[i].id as u64);
        let ghost before = ids@;
        ids.push(id);
        proof {
            lemma_views_push(before, id);
            assert(decimal_ids(window_views(list@)).take(i + 1) =~= decimal_ids(
                window_views(list@),
            ).take(i as int).push(id@));
        }
        i += 1;
    }
    assert(decimal_ids(window_views(list@)).take(list.len() as int) =~= decimal_ids(
        window_views(list@),
    ));
    ids
}

fn find_focused(list: &Vec<GnomeWindow>) -> (r: Option<WindowId>)
    ensures
        opt_view(r) == focused_id(window_views(list@)),
{
    let ghost all = window_views(list@);
    let mut i: usize = 0;
    assert(all.skip(0) =~= all);
    while i < list.len()
        invariant
            i <= list.len(),
            all == window_views(list@),
            focused_id(all) == focused_id(all.skip(i as int)),
        decreases list.len() - i,
    {
        assert(all.skip(i as int)[0] == list@[i as int]@);
        if list[i].focus {
            return Some(to_decimal(list[i].id as u64));
        }
        assert(all.skip(i as int).drop_first() =~= all.skip(i + 1));
        i += 1;
    }
    None
}

/// A window that was listed can be addressed: the identifier in the list
/// stands for the window's own number in the calls that act on it.
pub proof fn law_listed_windows_can_be_addressed(method: Seq<char>, id: u32)
    ensures
        window_call_of(method, digits(id as nat, 10)) == Ok::<ShellCallView, ErrorView>(
            extension_call(method, Some(id)),
        ),
{
    law_decimal_round_trip(id as nat, u32::MAX as nat);
}

/// The window with the focus is among those listed for a class that its own
/// class holds, under the same identifier.
pub proof fn law_the_focused_window_is_listed(
    all: Seq<GnomeWindowView>,
    class: Seq<char>,
    i: int,
)
    requires
        0 <= i < all.len(),
        all[i].focus,
        forall|k: int| 0 <= k < i ==> !(#[trigger] all[k]).focus,
        occurs(lowered(class), lowered(all[i].wm_class)),
    ensures
        focused_id(all) == Some(digits(all[i].id as nat, 10)),
        decimal_ids(windows_of_class(all, class)).contains(digits(all[i].id as nat, 10)),
{
    lemma_first_focused(all, i);
    let pred = |w: GnomeWindowView| occurs(lowered(class), lowered(w.wm_class));
    assert(pred(all[i]));
    all.lemma_filter_contains(pred, i);
    let kept = all.filter(pred);
    let k = choose|k: int| 0 <= k < kept.len() && kept[k] == all[i];
    assert(decimal_ids(kept)[k] == digits(all[i].id as nat, 10));
}

proof fn lemma_first_focused(all: Seq<GnomeWindowView>, i: int)
    requires
        0 <= i < all.len(),
        all[i].focus,
        forall|k: int| 0 <= k < i ==> !(#[trigger] all[k]).focus,
    ensures
        focused_id(all) == Some(digits(all[i].id as nat, 10)),
    decreases i,
{
    if i > 0 {
        let rest = all.drop_first();
        assert(!all[0].focus);
        assert forall|k: int| 0 <= k < i - 1 implies !(#[trigger] rest[k]).focus by {
            assert(rest[k] == all[k + 1]);
        }
        lemma_first_focused(rest, i - 1);
    }
}

/// Whether a window is of `class`: its own class is something, then `class`,
/// then something, all in lower case.
pub open spec fn is_of_class(w: GnomeWindowView, class: Seq<char>) -> bool {
    exists|before: Seq<char>, after: Seq<char>|
        lowered(w.wm_class) == #[trigger] (before + lowered(class) + after)
}

/// The windows of a class are found one by one: one more window comes behind
/// the others where its class holds the one that is searched for, and is left
/// out where it does not. So each window of the class is listed, in order, and
/// no other is.
pub proof fn law_windows_are_found_one_by_one(
    all: Seq<GnomeWindowView>,
    w: GnomeWindowView,
    class: Seq<char>,
)
    ensures
        windows_of_class(Seq::empty(), class) == Seq::<GnomeWindowView>::empty(),
        is_of_class(w, class) ==> windows_of_class(all.push(w), class) == windows_of_class(
            all,
            class,
        ).push(w),
        !is_of_class(w, class) ==> windows_of_class(all.push(w), class) == windows_of_class(
            all,
            class,
        ),
{
    reveal(Seq::filter);
    law_holding_is_standing_in_between(lowered(class), lowered(w.wm_class));
    let fits = |w: GnomeWindowView| occurs(lowered(class), lowered(w.wm_class));
    all.lemma_filter_push(w, fits);
    assert(windows_of_class(Seq::empty(), class) =~= Seq::<GnomeWindowView>::empty());
}

/// No window is listed for a class that its own does not hold, and none that
/// holds it is left out.
pub proof fn law_just_the_windows_of_the_class_are_listed(
    all: Seq<GnomeWindowView>,
    class: Seq<char>,
    w: GnomeWindowView,
)
    ensures
        windows_of_class(all, class).contains(w) <==> all.contains(w) && is_of_class(w, class),
    decreases all.len(),
{
    let kept = windows_of_class(all, class);
    if all.len() == 0 {
        assert(all =~= Seq::empty());
        law_windows_are_found_one_by_one(all, w, class);
    } else {
        let rest = all.drop_last();
        let last = all.last();
        law_just_the_windows_of_the_class_are_listed(rest, class, w);
        law_windows_are_found_one_by_one(rest, last, class);
        assert(all =~= rest.push(last));
        assert(all[all.len() - 1] == last);
        let before = windows_of_class(rest, class);
        if rest.contains(w) {
            let k = choose|k: int| 0 <= k < rest.len() && rest[k] == w;
            assert(all[k] == w);
        }
        if all.contains(w) && w != last {
            let k = choose|k: int| 0 <= k < all.len() && all[k] == w;
            assert(rest[k] == w);
        }
        if before.contains(w) {
            let k = choose|k: int| 0 <= k < before.len() && before[k] == w;
            assert(kept[k] == w);
        }
        if is_of_class(last, class) {
            assert(kept[before.len() as int] == last);
        }
        if kept.contains(w) && w != last {
            let k = choose|k: int| 0 <= k < kept.len() && kept[k] == w;
            assert(before[k] == w);
        }
    }
}

/// Each window is listed by its own number in decimal, in order.
pub proof fn law_windows_are_listed_by_their_numbers(list: Seq<GnomeWindowView>)
    ensures
        decimal_ids(list).len() == list.len(),
        forall|k: int|
            0 <= k < list.len() ==> #[trigger] decimal_ids(list)[k] == digits(
                list[k].id as nat,
                10,
            ),
{
}

/// No window has the focus exactly where none says so.
pub proof fn law_no_focus_without_a_focused_window(list: Seq<GnomeWindowView>)
    ensures
        focused_id(list) is None <==> forall|k: int|
            0 <= k < list.len() ==> !(#[trigger] list[k]).focus,
    decreases list.len(),
{
    if list.len() > 0 {
        let rest = list.drop_first();
        law_no_focus_without_a_focused_window(rest);
        if forall|k: int| 0 <= k < list.len() ==> !(#[trigger] list[k]).focus {
            assert(!list[0].focus);
            assert forall|k: int| 0 <= k < rest.len() implies !(#[trigger] rest[k]).focus by {
                assert(rest[k] == list[k + 1]);
            }
        }
        if focused_id(list) is None {
            assert forall|k: int| 0 <= k < list.len() implies !(#[trigger] list[k]).focus by {
                if k > 0 {
                    assert(rest[k - 1] == list[k]);
                }
            }
        }
    }
}

/// Calls go to the Window Calls extension of GNOME Shell, under the method's own
/// name, and carry the number that they are given; an identifier that is no
/// number is an error that names it, and no call.
pub proof fn law_calls_go_to_the_extension(
    method: Seq<char>,
    argument: Option<u32>,
    id: Seq<char>,
)
    ensures
        extension_call(method, argument).destination == "org.gnome.Shell"@,
        extension_call(method, argument).path == "/org/gnome/Shell/Extensions/Windows"@,
        extension_call(method, argument).interface == "org.gnome.Shell.Extensions.Windows"@,
        extension_call(method, argument).method == method,
        extension_call(method, argument).argument == argument,
        parsed_number(id, u32::MAX as nat) is None ==> window_call_of(method, id) == Err::<
            ShellCallView,
            ErrorView,
        >(ErrorView::CommandFailed("not a Window Calls id: "@ + id)),
        parsed_number(id, u32::MAX as nat) is Some ==> window_call_of(method, id) is Ok
            && window_call_of(method, id)->Ok_0.argument == Some(
            parsed_number(id, u32::MAX as nat)->0 as u32,
        ),
{
}

/// A missing bus or extension means that the tool is not available, anything
/// else that the command failed, each with the message about it; an answer that
/// cannot be read is such a failure, too. What is answered well is no error.
pub proof fn law_what_an_answer_means(
    class: Seq<char>,
    failure: ShellFailure,
    message: String,
    all: Vec<GnomeWindow>,
)
    ensures
        match failure {
            ShellFailure::NoSession(why) => shell_error_of(failure) == ErrorView::Unavailable(
                "no session D-Bus: "@ + why@,
            ),
            ShellFailure::Refused(why) => shell_error_of(failure) == ErrorView::Unavailable(
                "Window Calls GNOME Shell extension not available: "@ + why@,
            ),
            ShellFailure::Interrupted(why) => shell_error_of(failure)
                == ErrorView::CommandFailed(why@),
            ShellFailure::BadReply(why) => shell_error_of(failure) == ErrorView::CommandFailed(
                why@,
            ),
        },
        windows_in_answer(class, Err(failure)) == Err::<Seq<Seq<char>>, ErrorView>(
            shell_error_of(failure),
        ),
        focus_in_answer(Err(failure)) == Err::<Option<Seq<char>>, ErrorView>(
            shell_error_of(failure),
        ),
        done_in_answer(Err(failure)) == Err::<(), ErrorView>(shell_error_of(failure)),
        done_in_answer(Ok(())) is Ok,
        windows_in_answer(class, Ok(Err(message))) == Err::<Seq<Seq<char>>, ErrorView>(
            ErrorView::CommandFailed("bad Window Calls JSON: "@ + message@),
        ),
        focus_in_answer(Ok(Err(message))) == Err::<Option<Seq<char>>, ErrorView>(
            ErrorView::CommandFailed("bad Window Calls JSON: "@ + message@),
        ),
        windows_in_answer(class, Ok(Ok(all))) == Ok::<Seq<Seq<char>>, ErrorView>(
            decimal_ids(windows_of_class(window_views(all@), class)),
        ),
        focus_in_answer(Ok(Ok(all))) == Ok::<Option<Seq<char>>, ErrorView>(
            focused_id(window_views(all@)),
        ),
{
}

/// A window that was listed is brought to the front and minimized by its own
/// number, each by its own method; listing takes no number.
pub proof fn law_a_window_is_acted_on_by_its_number(id: u32)
    ensures
        call_to_activate(digits(id as nat, 10)) is Ok,
        call_to_activate(digits(id as nat, 10))->Ok_0.method == "Activate"@,
        call_to_activate(digits(id as nat, 10))->Ok_0.argument == Some(id),
        call_to_minimize(digits(id as nat, 10)) is Ok,
        call_to_minimize(digits(id as nat, 10))->Ok_0.method == "Minimize"@,
        call_to_minimize(digits(id as nat, 10))->Ok_0.argument == Some(id),
        call_to_list().method == "List"@,
        call_to_list().argument is None,
{
    law_decimal_round_trip(id as nat, u32::MAX as nat);
}

} // verus!

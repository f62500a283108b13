//! The installed applications: which of them a key can be bound to, and how
//! one is started.

use crate::backend::{Invocation, InvocationView};
use crate::order::{
    alphabetical, key_views, law_one_way_to_sort, law_sorting_is_stable, lemma_alphabetical_total,
    positions, precedes, sorted_positions, sorts,
};
use crate::outside::{
    decode_desktop_entry, desktop_fields, id_fits_path, lowered, to_lowercase, DesktopFields,
    FieldsView,
};
use crate::text::{
    chars_of, holds_pair, is_space, join_words, joined, law_a_word_stays_whole,
    law_white_space_parts_words, lemma_joining_keeps_pairs, lemma_joining_makes_no_pair,
    lemma_words_are_words, lemma_words_of_joined, opt_str_view, pair_at, same, slice_of,
    split_whitespace, views, words,
};
use vstd::prelude::*;

verus! {

/// An installed application.
#[derive(Debug)]
pub struct AppEntry {
    /// The id of its `.desktop` file.
    pub id: String,
    pub name: String,
    /// The class by which its windows are found.
    pub window_class: String,
    /// The command that starts it, field codes included.
    pub exec_line: String,
    /// The path of its `.desktop` file.
    pub path: String,
}

/// The contents of an [`AppEntry`].
#[verifier::ext_equal]
pub struct AppView {
    pub id: Seq<char>,
    pub name: Seq<char>,
    pub window_class: Seq<char>,
    pub exec_line: Seq<char>,
    pub path: Seq<char>,
}

impl View for AppEntry {
    type V = AppView;

    open spec fn view(&self) -> AppView {
        AppView {
            id: self.id@,
            name: self.name@,
            window_class: self.window_class@,
            exec_line: self.exec_line@,
            path: self.path@,
        }
    }
}

impl Clone for AppEntry {
    fn clone(&self) -> (r: Self)
        ensures
            r == *self,
    {
        AppEntry {
            id: self.id.clone(),
            name: self.name.clone(),
            window_class: self.window_class.clone(),
            exec_line: self.exec_line.clone(),
            path: self.path.clone(),
        }
    }
}

/// The contents of a list of applications.
pub open spec fn app_views(list: Seq<AppEntry>) -> Seq<AppView> {
    list.map_values(|a: AppEntry| a@)
}

// ---------------------------------------------------------------------------
// The command that starts an application
// ---------------------------------------------------------------------------
/// The letters of the field codes that may stand after a percent sign in
/// `Exec=`, in the order in which the codes are taken out.
pub open spec fn field_codes() -> Seq<char> {
    seq!['f', 'F', 'u', 'U', 'd', 'D', 'n', 'N', 'i', 'c', 'k', 'v', 'm']
}

/// `s` without the field code `%code`, taken out wherever it stands, from the
/// left on, each time going on behind it.
pub open spec fn without_code(s: Seq<char>, code: char) -> Seq<char>
    decreases s.len(),
{
    if s.len() < 2 {
        s
    } else if s[0] == '%' && s[1] == code {
        without_code(s.skip(2), code)
    } else {
        seq![s[0]] + without_code(s.drop_first(), code)
    }
}

/// `s` without the field codes, one after the other.
pub open spec fn without_codes(s: Seq<char>, codes: Seq<char>) -> Seq<char>
    decreases codes.len(),
{
    if codes.len() == 0 {
        s
    } else {
        without_code(without_codes(s, codes.drop_last()), codes.last())
    }
}

/// A command without its field codes and with single spaces between its
/// words.
pub open spec fn stripped(exec_line: Seq<char>) -> Seq<char> {
    joined(words(without_codes(exec_line, field_codes())))
}

fn remove_code(v: &Vec<char>, code: char) -> (r: Vec<char>)
    ensures
        r@ == without_code(v@, code),
{
    let mut out: Vec<char> = Vec::new();
    let mut i: usize = 0;
    assert(v@.skip(0) =~= v@);
    assert(out@ + without_code(v@, code) =~= without_code(v@, code));
    while i < v.len()
        invariant
            i <= v.len(),
            out@ + without_code(v@.skip(i as int), code) == without_code(v@, code),
        decreases v.len() - i,
    {
        let ghost rest = v@.skip(i as int);
        let ghost before = out@;
        assert(rest[0] == v@[i as int]);
        if v.len() - i >= 2 && v[i] == '%' && v[i + 1] == code {
            assert(rest[1] == v@[i + 1]);
            assert(rest.skip(2) =~= v@.skip(i + 2));
            i += 2;
        } else {
            out.push(v[i]);
            proof {
                assert(rest.drop_first() =~= v@.skip(i + 1));
                if rest.len() >= 2 {
                    assert(rest[1] == v@[i + 1]);
                } else {
                    assert(rest =~= seq![rest[0]] + v@.skip(i + 1));
                    assert(without_code(v@.skip(i + 1), code) == v@.skip(i + 1));
                }
                assert(out@ + without_code(v@.skip(i + 1), code) =~= before + (seq![rest[0]]
                    + without_code(v@.skip(i + 1), code)));
            }
            i += 1;
        }
    }
    assert(out@ + without_code(v@.skip(v.len() as int), code) =~= out@);
    out
}

/// Takes the field codes out of a command (`%f`, `%F`, `%u`, `%U`, `%d`, `%D`,
/// `%n`, `%N`, `%i`, `%c`, `%k`, `%v`, `%m`), for which there are never values
/// to put in their place, and leaves single spaces between the words.
pub fn strip_exec_placeholders(exec_line: &str) -> (r: String)
    ensures
        r@ == stripped(exec_line@),
{
    let codes: Vec<char> = vec![
        'f',
        'F',
        'u',
        'U',
        'd',
        'D',
        'n',
        'N',
        'i',
        'c',
        'k',
        'v',
        'm',
    ];
    assert(codes@ =~= field_codes());
    let mut v = chars_of(exec_line);
    let mut i: usize = 0;
    assert(codes@.take(0) =~= Seq::<char>::empty());
    while i < codes.len()
        invariant
            i <= codes.len(),
            v@ == without_codes(exec_line@, codes@.take(i as int)),
        decreases codes.len() - i,
    {
        assert(codes@.take(i + 1).drop_last() =~= codes@.take(i as int));
        v = remove_code(&v, codes[i]);
        i += 1;
    }
    assert(codes@.take(codes.len() as int) =~= codes@);
    let n: usize = v.len();
    let text = slice_of(&v, 0, n);
    assert(text@ =~= v@);
    join_words(&split_whitespace(text.as_str()))
}

/// Whether a field code stands in `s`.
pub open spec fn holds_code(s: Seq<char>) -> bool {
    exists|code: char| #[trigger] field_codes().contains(code) && holds_pair(s, '%', code)
}

/// `s` without the codes `%code` that it starts with.
pub open spec fn behind_codes(s: Seq<char>, code: char) -> Seq<char>
    decreases s.len(),
{
    if s.len() >= 2 && s[0] == '%' && s[1] == code {
        behind_codes(s.skip(2), code)
    } else {
        s
    }
}

/// Whether a percent sign stands at `i` of `s`, then `%code` once or more, and
/// then `letter`.
pub open spec fn closes_up_at(s: Seq<char>, i: int, code: char, letter: char) -> bool {
    &&& 0 <= i && i + 2 < s.len()
    &&& s[i] == '%' && s[i + 1] == '%' && s[i + 2] == code
    &&& behind_codes(s.skip(i + 1), code).len() > 0
    &&& behind_codes(s.skip(i + 1), code)[0] == letter
}

/// Whether taking `%code` out of `s` makes a `%letter` of what stood around
/// it.
pub open spec fn closes_up(s: Seq<char>, code: char, letter: char) -> bool {
    exists|i: int| closes_up_at(s, i, code, letter)
}

/// Whether taking the code at `p` out, when its turn comes, makes one of the
/// code at `q`.
pub open spec fn makes_code_at(s: Seq<char>, p: int, q: int) -> bool {
    closes_up(without_codes(s, field_codes().take(p)), field_codes()[p], field_codes()[q])
}

/// Whether taking the codes out of `s` in turn makes a code whose own turn has
/// come already.
pub open spec fn makes_late_code(s: Seq<char>) -> bool {
    exists|p: int, q: int| 0 <= q <= p < field_codes().len() && #[trigger] makes_code_at(s, p, q)
}

proof fn lemma_first_left(s: Seq<char>, code: char)
    ensures
        behind_codes(s, code).len() > 0 <==> without_code(s, code).len() > 0,
        behind_codes(s, code).len() > 0 ==> without_code(s, code)[0] == behind_codes(s, code)[0],
    decreases s.len(),
{
    if s.len() >= 2 && s[0] == '%' && s[1] == code {
        lemma_first_left(s.skip(2), code);
    }
}

/// What codes stand in a text once one code is taken out of it: the others
/// that stood in it, and those that were made of what stood around it.
proof fn lemma_one_code_out(s: Seq<char>, code: char, letter: char)
    requires
        code != '%',
        letter != '%',
    ensures
        holds_pair(without_code(s, code), '%', letter) <==> (letter != code && holds_pair(
            s,
            '%',
            letter,
        )) || closes_up(s, code, letter),
    decreases s.len(),
{
    let t = without_code(s, code);
    if s.len() < 2 {
        assert(!holds_pair(t, '%', letter));
    } else if s[0] == '%' && s[1] == code {
        let rest = s.skip(2);
        lemma_one_code_out(rest, code, letter);
        assert forall|i: int| letter != code && pair_at(s, i, '%', letter) implies pair_at(
            rest,
            i - 2,
            '%',
            letter,
        ) by {
        }
        assert forall|i: int| pair_at(rest, i, '%', letter) implies pair_at(
            s,
            i + 2,
            '%',
            letter,
        ) by {
        }
        assert forall|i: int| closes_up_at(s, i, code, letter) implies closes_up_at(
            rest,
            i - 2,
            code,
            letter,
        ) by {
            assert(rest.skip(i - 1) =~= s.skip(i + 1));
        }
        assert forall|i: int| closes_up_at(rest, i, code, letter) implies closes_up_at(
            s,
            i + 2,
            code,
            letter,
        ) by {
            assert(rest.skip(i + 1) =~= s.skip(i + 3));
        }
    } else {
        let rest = s.drop_first();
        let u = without_code(rest, code);
        lemma_one_code_out(rest, code, letter);
        lemma_first_left(rest, code);
        assert(t =~= seq![s[0]] + u);
        assert(s.skip(1) =~= rest);
        if holds_pair(t, '%', letter) {
            let i = choose|i: int| pair_at(t, i, '%', letter);
            if i > 0 {
                assert(pair_at(u, i - 1, '%', letter));
                if letter != code && holds_pair(rest, '%', letter) {
                    let k = choose|k: int| pair_at(rest, k, '%', letter);
                    assert(pair_at(s, k + 1, '%', letter));
                } else {
                    let k = choose|k: int| closes_up_at(rest, k, code, letter);
                    assert(rest.skip(k + 1) =~= s.skip(k + 2));
                    assert(closes_up_at(s, k + 1, code, letter));
                }
            } else if rest.len() >= 2 && rest[0] == '%' && rest[1] == code {
                assert(closes_up_at(s, 0, code, letter));
            } else {
                assert(rest[0] == letter);
                assert(pair_at(s, 0, '%', letter));
            }
        }
        if letter != code && holds_pair(s, '%', letter) {
            let k = choose|k: int| pair_at(s, k, '%', letter);
            if k > 0 {
                assert(pair_at(rest, k - 1, '%', letter));
                let i = choose|i: int| pair_at(u, i, '%', letter);
                assert(pair_at(t, i + 1, '%', letter));
            } else {
                assert(pair_at(t, 0, '%', letter));
            }
        }
        if closes_up(s, code, letter) {
            let k = choose|k: int| closes_up_at(s, k, code, letter);
            if k > 0 {
                assert(rest.skip(k) =~= s.skip(k + 1));
                assert(closes_up_at(rest, k - 1, code, letter));
                let i = choose|i: int| pair_at(u, i, '%', letter);
                assert(pair_at(t, i + 1, '%', letter));
            } else {
                assert(pair_at(t, 0, '%', letter));
            }
        }
    }
}

/// What codes stand in a text once the first `n` codes are taken out of it, of
/// those: the ones that were made too late.
proof fn lemma_codes_out(s: Seq<char>, n: int, q: int)
    requires
        0 <= q < n <= field_codes().len(),
    ensures
        holds_pair(without_codes(s, field_codes().take(n)), '%', field_codes()[q]) <==> exists|
            p: int,
        |
            q <= p < n && #[trigger] makes_code_at(s, p, q),
    decreases n,
{
    let codes = field_codes();
    let before = without_codes(s, codes.take(n - 1));
    assert(codes.take(n).drop_last() =~= codes.take(n - 1));
    assert(codes.take(n).last() == codes[n - 1]);
    lemma_field_codes_differ();
    lemma_one_code_out(before, codes[n - 1], codes[q]);
    if q < n - 1 {
        lemma_codes_out(s, n - 1, q);
    }
    assert(makes_code_at(s, n - 1, q) == closes_up(before, codes[n - 1], codes[q]));
}

proof fn lemma_field_codes_differ()
    ensures
        forall|i: int| 0 <= i < field_codes().len() ==> #[trigger] field_codes()[i] != '%',
        forall|i: int, j: int|
            0 <= i < j < field_codes().len() ==> #[trigger] field_codes()[i]
                != #[trigger] field_codes()[j],
{
}

/// A field code is left in a stripped command exactly where taking one out made
/// another whose own turn had come already, as in `%%ff`: every code that
/// stands in the command itself goes.
pub proof fn law_which_field_codes_survive(exec_line: Seq<char>)
    ensures
        holds_code(stripped(exec_line)) <==> makes_late_code(exec_line),
{
    let codes = field_codes();
    let bare = without_codes(exec_line, codes);
    assert(codes.take(codes.len() as int) =~= codes);
    lemma_field_codes_differ();
    if holds_code(stripped(exec_line)) {
        let code = choose|code: char| #[trigger]
            codes.contains(code) && holds_pair(stripped(exec_line), '%', code);
        let q = choose|q: int| 0 <= q < codes.len() && codes[q] == code;
        lemma_joining_makes_no_pair(bare, '%', code);
        lemma_codes_out(exec_line, codes.len() as int, q);
    }
    if makes_late_code(exec_line) {
        let (p, q) = choose|p: int, q: int|
            0 <= q <= p < codes.len() && #[trigger] makes_code_at(exec_line, p, q);
        lemma_codes_out(exec_line, codes.len() as int, q);
        lemma_joining_keeps_pairs(bare, '%', codes[q]);
        assert(codes.contains(codes[q]));
    }
}

proof fn lemma_nothing_to_take_out(s: Seq<char>, code: char)
    requires
        !holds_pair(s, '%', code),
    ensures
        without_code(s, code) == s,
    decreases s.len(),
{
    if s.len() >= 2 {
        if s[0] == '%' && s[1] == code {
            assert(pair_at(s, 0, '%', code));
        }
        let rest = s.drop_first();
        assert forall|i: int| !pair_at(rest, i, '%', code) by {
            if pair_at(rest, i, '%', code) {
                assert(pair_at(s, i + 1, '%', code));
            }
        }
        lemma_nothing_to_take_out(rest, code);
        assert(s =~= seq![s[0]] + rest);
    }
}

proof fn lemma_no_codes_to_take_out(s: Seq<char>, codes: Seq<char>)
    requires
        forall|i: int| 0 <= i < codes.len() ==> !holds_pair(s, '%', #[trigger] codes[i]),
    ensures
        without_codes(s, codes) == s,
    decreases codes.len(),
{
    if codes.len() > 0 {
        assert(codes[codes.len() - 1] == codes.last());
        assert forall|i: int| 0 <= i < codes.drop_last().len() implies !holds_pair(
            s,
            '%',
            #[trigger] codes.drop_last()[i],
        ) by {
            assert(codes.drop_last()[i] == codes[i]);
        }
        lemma_no_codes_to_take_out(s, codes.drop_last());
        lemma_nothing_to_take_out(s, codes.last());
    }
}

/// A command without field codes whose words have single spaces between them
/// stays as it is.
pub proof fn law_a_plain_command_stays(list: Seq<Seq<char>>)
    requires
        crate::text::are_words(list),
        !holds_code(joined(list)),
    ensures
        stripped(joined(list)) == joined(list),
{
    let s = joined(list);
    assert forall|i: int| 0 <= i < field_codes().len() implies !holds_pair(
        s,
        '%',
        #[trigger] field_codes()[i],
    ) by {
        assert(field_codes().contains(field_codes()[i]));
    }
    lemma_no_codes_to_take_out(s, field_codes());
    lemma_words_of_joined(list);
}

/// Stripping a stripped command changes nothing, unless taking a code out made
/// another whose own turn had come already.
pub proof fn law_stripping_twice_is_stripping_once(exec_line: Seq<char>)
    requires
        !makes_late_code(exec_line),
    ensures
        stripped(stripped(exec_line)) == stripped(exec_line),
{
    law_which_field_codes_survive(exec_line);
    let list = words(without_codes(exec_line, field_codes()));
    lemma_words_are_words(without_codes(exec_line, field_codes()));
    law_a_plain_command_stays(list);
}

/// The command line that starts an application: its command, stripped, and
/// behind a space the arguments that are to be added.
pub open spec fn command_line(exec_line: Seq<char>, args: Option<Seq<char>>) -> Seq<char> {
    match args {
        Some(extra) => stripped(exec_line).push(' ') + extra,
        None => stripped(exec_line),
    }
}

/// What to run to start an application: a shell with the command line, on the
/// host where this process lives in a Flatpak sandbox.
pub open spec fn launch_invocation(
    exec_line: Seq<char>,
    args: Option<Seq<char>>,
    sandboxed: bool,
) -> InvocationView {
    let line = command_line(exec_line, args);
    if sandboxed {
        InvocationView { program: "flatpak-spawn"@, args: seq!["--host"@, "sh"@, "-c"@, line] }
    } else {
        InvocationView { program: "sh"@, args: seq!["-c"@, line] }
    }
}

/// What to run to start an application with the command `exec_line` and the
/// arguments `args`; `sandboxed` tells whether this process lives in a Flatpak
/// sandbox.
pub fn launch_app(exec_line: &str, args: Option<&str>, sandboxed: bool) -> (r: Invocation)
    ensures
        r@ == launch_invocation(exec_line@, opt_str_view(args), sandboxed),
{
    let mut line = strip_exec_placeholders(exec_line);
    if let Some(extra) = args {
        line.push(' ');
        line.append(extra);
    }
    let ghost text = line@;
    if sandboxed {
        let r = Invocation {
            program: "flatpak-spawn".to_owned(),
            args: vec!["--host".to_owned(), "sh".to_owned(), "-c".to_owned(), line],
        };
        assert(r@.args =~= seq!["--host"@, "sh"@, "-c"@, text]);
        r
    } else {
        let r = Invocation { program: "sh".to_owned(), args: vec!["-c".to_owned(), line] };
        assert(r@.args =~= seq!["-c"@, text]);
        r
    }
}

// ---------------------------------------------------------------------------
// The list of installed applications
// ---------------------------------------------------------------------------
/// The class by which an application's windows are found: the one that it
/// declares, else its id.
pub open spec fn window_class_of(
    entry_id: Seq<char>,
    startup_wm_class: Option<Seq<char>>,
) -> Seq<char> {
    match startup_wm_class {
        Some(class) => if class.len() > 0 {
            class
        } else {
            entry_id
        },
        None => entry_id,
    }
}

/// The class by which an application's windows are found: its
/// `StartupWMClass=`, or its id where it declares none or an empty one.
pub fn resolve_window_class(entry_id: &str, startup_wm_class: Option<&str>) -> (r: String)
    ensures
        r@ == window_class_of(entry_id@, opt_str_view(startup_wm_class)),
{
    match startup_wm_class {
        Some(class) => {
            if class.is_empty() {
                entry_id.to_owned()
            } else {
                class.to_owned()
            }
        },
        None => entry_id.to_owned(),
    }
}

/// A `.desktop` file.
#[derive(Debug)]
pub struct DesktopFile {
    pub path: String,
    pub text: String,
}

/// A desktop entry and the path of its file.
#[derive(Debug)]
pub struct FoundEntry {
    pub path: String,
    pub fields: DesktopFields,
}

/// The contents of a [`FoundEntry`].
#[verifier::ext_equal]
pub struct FoundView {
    pub path: Seq<char>,
    pub fields: FieldsView,
}

impl View for FoundEntry {
    type V = FoundView;

    open spec fn view(&self) -> FoundView {
        FoundView { path: self.path@, fields: self.fields@ }
    }
}

/// The contents of a list of entries.
pub open spec fn found_views(list: Seq<FoundEntry>) -> Seq<FoundView> {
    list.map_values(|e: FoundEntry| e@)
}

/// Whether an entry is an application that is to be shown.
pub open spec fn is_shown(entry: FoundView) -> bool {
    &&& !entry.fields.no_display
    &&& !entry.fields.hidden
    &&& entry.fields.entry_type == Some("Application"@)
}

/// The application that an entry declares. It goes by its id where it has no
/// name, and has an empty command where it has none.
pub open spec fn app_of(entry: FoundView) -> AppView {
    let fields = entry.fields;
    AppView {
        id: fields.id,
        name: match fields.name {
            Some(name) => name,
            None => fields.id,
        },
        window_class: window_class_of(fields.id, fields.startup_wm_class),
        exec_line: match fields.exec_line {
            Some(exec_line) => exec_line,
            None => Seq::empty(),
        },
        path: entry.path,
    }
}

/// Whether one of the applications has this id.
pub open spec fn has_id(list: Seq<AppView>, id: Seq<char>) -> bool {
    exists|i: int| 0 <= i < list.len() && (#[trigger] list[i]).id == id
}

/// The applications that the entries declare, each id once: of entries with
/// one id the first that is shown counts.
pub open spec fn distinct_apps(entries: Seq<FoundView>) -> Seq<AppView>
    decreases entries.len(),
{
    if entries.len() == 0 {
        Seq::empty()
    } else {
        let before = distinct_apps(entries.drop_last());
        let entry = entries.last();
        if is_shown(entry) && !has_id(before, entry.fields.id) {
            before.push(app_of(entry))
        } else {
            before
        }
    }
}

/// The names of the applications in lower case.
pub open spec fn sort_keys(list: Seq<AppView>) -> Seq<Seq<char>> {
    list.map_values(|a: AppView| lowered(a.name))
}

/// Whether `listing` is `list` in the alphabetical order of the names, in
/// lower case.
pub open spec fn is_listing(listing: Seq<AppView>, list: Seq<AppView>) -> bool {
    is_sorted_by(listing, list, sort_keys(list))
}

/// Whether `listing` is `list` sorted by `keys`.
pub open spec fn is_sorted_by(
    listing: Seq<AppView>,
    list: Seq<AppView>,
    keys: Seq<Seq<char>>,
) -> bool {
    exists|order: Seq<int>| #[trigger]
        sorts(keys, order) && listing == order.map_values(|i: int| list[i])
}

/// Whether `entry` is an application that is to be shown.
pub fn shows(entry: &FoundEntry) -> (r: bool)
    ensures
        r == is_shown(entry@),
{
    if entry.fields.no_display || entry.fields.hidden {
        return false;
    }
    match &entry.fields.entry_type {
        Some(t) => same(t.as_str(), "Application"),
        None => false,
    }
}

fn app_from(entry: &FoundEntry) -> (r: AppEntry)
    ensures
        r@ == app_of(entry@),
{
    let fields = &entry.fields;
    AppEntry {
        id: fields.id.clone(),
        name: match &fields.name {
            Some(name) => name.clone(),
            None => fields.id.clone(),
        },
        window_class: match &fields.startup_wm_class {
            Some(class) => resolve_window_class(fields.id.as_str(), Some(class.as_str())),
            None => resolve_window_class(fields.id.as_str(), None),
        },
        exec_line: match &fields.exec_line {
            Some(exec_line) => exec_line.clone(),
            None => String::new(),
        },
        path: entry.path.clone(),
    }
}

/// The applications that the entries declare, each id once, in the order of
/// the entries.
pub fn collect_apps(entries: &Vec<FoundEntry>) -> (r: Vec<AppEntry>)
    ensures
        app_views(r@) == distinct_apps(found_views(entries@)),
{
    let mut seen = vstd::hash_set::StringHashSet::new();
    let mut apps: Vec<AppEntry> = Vec::new();
    let mut i: usize = 0;
    let ghost all = found_views(entries@);
    assert(all.take(0) =~= Seq::<FoundView>::empty());
    while i < entries.len()
        invariant
            i <= entries.len(),
            all == found_views(entries@),
            app_views(apps@) == distinct_apps(all.take(i as int)),
            forall|id: Seq<char>|
                seen@.contains(id) <==> #[trigger] has_id(app_views(apps@), id),
        decreases entries.len() - i,
    {
        let entry = &entries[i];
        let ghost before = app_views(apps@);
        proof {
            assert(all.take(i + 1).drop_last() =~= all.take(i as int));
            assert(all.take(i + 1).last() == entry@);
            assert(seen@.contains(entry@.fields.id) <==> has_id(before, entry@.fields.id));
        }
        if shows(entry) && !seen.contains(entry.fields.id.as_str()) {
            let ghost old_seen = seen@;
            seen.insert(entry.fields.id.clone());
            let app = app_from(entry);
            apps.push(app);
            proof {
                let after = app_views(apps@);
                assert(after =~= before.push(app@));
                assert forall|id: Seq<char>| seen@.contains(id) <==> #[trigger] has_id(
                    after,
                    id,
                ) by {
                    assert(old_seen.contains(id) <==> has_id(before, id));
                    if has_id(before, id) {
                        let k = choose|k: int|
                            0 <= k < before.len() && (#[trigger] before[k]).id == id;
                        assert(after[k].id == id);
                    }
                    if id == entry@.fields.id {
                        assert(after[before.len() as int].id == id);
                    }
                    if has_id(after, id) && id != entry@.fields.id {
                        let k = choose|k: int|
                            0 <= k < after.len() && (#[trigger] after[k]).id == id;
                        assert(before[k].id == id);
                    }
                }
            }
        }
        i += 1;
    }
    assert(all.take(entries.len() as int) =~= all);
    apps
}

/// `list` sorted by `keys`, one for each application; applications with one
/// key stay in the order they came in.
pub fn sort_apps(list: &Vec<AppEntry>, keys: &Vec<Vec<char>>) -> (r: Vec<AppEntry>)
    requires
        keys@.len() == list@.len(),
    ensures
        is_sorted_by(app_views(r@), app_views(list@), key_views(keys@)),
{
    let order = sorted_positions(keys);
    let ghost p = positions(order@);
    let ghost all = app_views(list@);
    let ghost target = p.map_values(|i: int| all[i]);
    let mut sorted: Vec<AppEntry> = Vec::new();
    let mut i: usize = 0;
    while i < order.len()
        invariant
            i <= order.len(),
            all == app_views(list@),
            p == positions(order@),
            target == p.map_values(|i: int| all[i]),
            keys@.len() == list@.len(),
            sorts(key_views(keys@), p),
            app_views(sorted@) == target.take(i as int),
        decreases order.len() - i,
    {
        assert(p[i as int] == order@[i as int]);
        let app = list[order[i]].clone();
        let ghost before = app_views(sorted@);
        sorted.push(app);
        proof {
            assert(app_views(sorted@) =~= before.push(app@));
            assert(target.take(i + 1) =~= target.take(i as int).push(app@));
        }
        i += 1;
    }
    assert(target.take(order.len() as int) =~= target);
    sorted
}

/// The applications that the entries declare, each id once, in the
/// alphabetical order of their names in lower case.
pub fn list_apps(entries: &Vec<FoundEntry>) -> (r: Vec<AppEntry>)
    ensures
        is_listing(app_views(r@), distinct_apps(found_views(entries@))),
{
    let apps = collect_apps(entries);
    let mut keys: Vec<Vec<char>> = Vec::new();
    let mut i: usize = 0;
    let ghost all = sort_keys(app_views(apps@));
    while i < apps.len()
        invariant
            i <= apps.len(),
            all == sort_keys(app_views(apps@)),
            key_views(keys@) == all.take(i as int),
        decreases apps.len() - i,
    {
        let lower = to_lowercase(apps[i].name.as_str());
        let key = chars_of(lower.as_str());
        let ghost before = key_views(keys@);
        keys.push(key);
        proof {
            assert(key_views(keys@) =~= before.push(key@));
            assert(all.take(i + 1) =~= all.take(i as int).push(key@));
        }
        i += 1;
    }
    assert(all.take(apps.len() as int) =~= all);
    assert(key_views(keys@).len() == keys@.len());
    assert(all.len() == apps@.len());
    sort_apps(&apps, &keys)
}

/// The entries that the files declare; a file that is no desktop entry has
/// none.
pub open spec fn entries_of(files: Seq<DesktopFile>, locales: Seq<Seq<char>>) -> Seq<FoundView>
    decreases files.len(),
{
    if files.len() == 0 {
        Seq::empty()
    } else {
        let before = entries_of(files.drop_last(), locales);
        let file = files.last();
        match desktop_fields(file.path@, file.text@, locales) {
            Some(fields) => before.push(FoundView { path: file.path@, fields }),
            None => before,
        }
    }
}

/// The entries that the files declare, in the languages in `locales`.
pub fn read_entries(files: &Vec<DesktopFile>, locales: &Vec<String>) -> (r: Vec<FoundEntry>)
    ensures
        found_views(r@) == entries_of(files@, views(locales@)),
        forall|i: int| 0 <= i < r@.len() ==> id_fits_path((#[trigger] r@[i]).fields.id@, r@[i].path@),
{
    let mut found: Vec<FoundEntry> = Vec::new();
    let mut i: usize = 0;
    assert(files@.take(0) =~= Seq::<DesktopFile>::empty());
    while i < files.len()
        invariant
            i <= files.len(),
            found_views(found@) == entries_of(files@.take(i as int), views(locales@)),
            forall|k: int|
                0 <= k < found@.len() ==> id_fits_path(
                    (#[trigger] found@[k]).fields.id@,
                    found@[k].path@,
                ),
        decreases files.len() - i,
    {
        let file = &files[i];
        let ghost before = found_views(found@);
        proof {
            assert(files@.take(i + 1).drop_last() =~= files@.take(i as int));
            assert(files@.take(i + 1).last() == files@[i as int]);
        }
        match decode_desktop_entry(file.path.as_str(), file.text.as_str(), locales) {
            Some(fields) => {
                let entry = FoundEntry { path: file.path.clone(), fields };
                found.push(entry);
                assert(found_views(found@) =~= before.push(entry@));
            },
            None => {},
        }
        i += 1;
    }
    assert(files@.take(files.len() as int) =~= files@);
    found
}

/// The installed applications, from their `.desktop` files in the order in
/// which they take precedence: those that are to be shown, each id once, in
/// the alphabetical order of their names in lower case. An application goes by
/// the name of its file.
pub fn list_installed_apps(files: &Vec<DesktopFile>, locales: &Vec<String>) -> (r: Vec<AppEntry>)
    ensures
        is_listing(app_views(r@), distinct_apps(entries_of(files@, views(locales@)))),
        forall|k: int| 0 <= k < r@.len() ==> id_fits_path((#[trigger] r@[k]).id@, r@[k].path@),
{
    let entries = read_entries(files, locales);
    let r = list_apps(&entries);
    proof {
        let found = found_views(entries@);
        law_each_shown_id_is_listed_once(found, app_views(r@));
        assert forall|k: int| 0 <= k < r@.len() implies id_fits_path(
            (#[trigger] r@[k]).id@,
            r@[k].path@,
        ) by {
            assert(app_views(r@)[k] == r@[k]@);
            assert(comes_from_first(found, app_views(r@)[k]));
            let i = choose|i: int| #[trigger]
                is_first_shown(found, i) && app_views(r@)[k] == app_of(found[i]);
            assert(found[i] == entries@[i]@);
        }
    }
    r
}

/// Whether the entry at `i` is to be shown and none before it that is to be
/// shown has its id.
pub open spec fn is_first_shown(entries: Seq<FoundView>, i: int) -> bool {
    &&& 0 <= i < entries.len()
    &&& is_shown(entries[i])
    &&& forall|j: int|
        0 <= j < i ==> !(is_shown(#[trigger] entries[j]) && entries[j].fields.id
            == entries[i].fields.id)
}

/// Whether `app` is what the first entry of its id that is to be shown
/// declares.
pub open spec fn comes_from_first(entries: Seq<FoundView>, app: AppView) -> bool {
    exists|i: int| #[trigger] is_first_shown(entries, i) && app == app_of(entries[i])
}

proof fn lemma_distinct_apps(entries: Seq<FoundView>)
    ensures
        forall|i: int, j: int|
            0 <= i < j < distinct_apps(entries).len() ==> (#[trigger] distinct_apps(
                entries,
            )[i]).id != (#[trigger] distinct_apps(entries)[j]).id,
        forall|i: int|
            0 <= i < entries.len() && is_shown(#[trigger] entries[i]) ==> has_id(
                distinct_apps(entries),
                entries[i].fields.id,
            ),
        forall|k: int|
            0 <= k < distinct_apps(entries).len() ==> comes_from_first(
                entries,
                #[trigger] distinct_apps(entries)[k],
            ),
    decreases entries.len(),
{
    if entries.len() > 0 {
        let fewer = entries.drop_last();
        let last = entries.len() - 1;
        let entry = entries.last();
        let before = distinct_apps(fewer);
        let apps = distinct_apps(entries);
        lemma_distinct_apps(fewer);
        assert forall|i: int, j: int| 0 <= i < j < apps.len() implies (#[trigger] apps[i]).id != (
        #[trigger] apps[j]).id by {
            if j == before.len() {
                assert(before[i] == apps[i]);
            } else {
                assert(before[i] == apps[i] && before[j] == apps[j]);
            }
        }
        assert forall|i: int| 0 <= i < entries.len() && is_shown(#[trigger] entries[i]) implies has_id(
            apps,
            entries[i].fields.id,
        ) by {
            let id = entries[i].fields.id;
            if i < last {
                assert(fewer[i] == entries[i]);
                assert(has_id(before, id));
            }
            if has_id(before, id) {
                let k = choose|k: int| 0 <= k < before.len() && (#[trigger] before[k]).id == id;
                assert(apps[k].id == id);
            } else {
                assert(apps[before.len() as int].id == id);
            }
        }
        assert forall|k: int| 0 <= k < apps.len() implies comes_from_first(
            entries,
            #[trigger] apps[k],
        ) by {
            if k < before.len() {
                assert(apps[k] == before[k]);
                let i = choose|i: int| #[trigger]
                    is_first_shown(fewer, i) && before[k] == app_of(fewer[i]);
                assert(is_first_shown(entries, i)) by {
                    assert(entries[i] == fewer[i]);
                    assert forall|j: int| 0 <= j < i implies !(is_shown(#[trigger] entries[j])
                        && entries[j].fields.id == entries[i].fields.id) by {
                        assert(fewer[j] == entries[j]);
                    }
                }
            } else {
                assert(apps[k] == app_of(entry));
                assert(is_first_shown(entries, last)) by {
                    assert forall|j: int| 0 <= j < last implies !(is_shown(#[trigger] entries[j])
                        && entries[j].fields.id == entries[last].fields.id) by {
                        assert(fewer[j] == entries[j]);
                    }
                }
            }
        }
    }
}

/// The list of applications holds each id that is to be shown, once: no two
/// applications in it share an id, none that is to be shown is missing, and
/// each comes from the first entry of its id that is to be shown, so that an
/// entry of the user's own hides the system's.
pub proof fn law_each_shown_id_is_listed_once(entries: Seq<FoundView>, listing: Seq<AppView>)
    requires
        is_listing(listing, distinct_apps(entries)),
    ensures
        forall|i: int, j: int|
            0 <= i < j < listing.len() ==> (#[trigger] listing[i]).id != (#[trigger] listing[j]).id,
        forall|i: int|
            0 <= i < entries.len() && is_shown(#[trigger] entries[i]) ==> has_id(
                listing,
                entries[i].fields.id,
            ),
        forall|k: int|
            0 <= k < listing.len() ==> comes_from_first(entries, #[trigger] listing[k]),
{
    let list = distinct_apps(entries);
    lemma_distinct_apps(entries);
    let order = choose|order: Seq<int>| #[trigger]
        sorts(sort_keys(list), order) && listing == order.map_values(|i: int| list[i]);
    assert forall|i: int, j: int| 0 <= i < j < listing.len() implies (#[trigger] listing[i]).id != (
    #[trigger] listing[j]).id by {
        assert(precedes(sort_keys(list), order[i], order[j]));
        lemma_alphabetical_total(sort_keys(list)[order[i]], sort_keys(list)[order[j]]);
        assert(order[i] != order[j]);
        assert(listing[i] == list[order[i]] && listing[j] == list[order[j]]);
    }
    assert forall|i: int| 0 <= i < entries.len() && is_shown(#[trigger] entries[i]) implies has_id(
        listing,
        entries[i].fields.id,
    ) by {
        let id = entries[i].fields.id;
        assert(has_id(list, id));
        let k = choose|k: int| 0 <= k < list.len() && (#[trigger] list[k]).id == id;
        assert(order.contains(k));
        let at = choose|at: int| 0 <= at < order.len() && order[at] == k;
        assert(listing[at].id == id);
    }
    assert forall|k: int| 0 <= k < listing.len() implies comes_from_first(
        entries,
        #[trigger] listing[k],
    ) by {
        assert(listing[k] == list[order[k]]);
        assert(comes_from_first(entries, list[order[k]]));
    }
}

/// What is listed is settled: there is but one list of given applications in
/// alphabetical order.
pub proof fn law_there_is_one_listing(a: Seq<AppView>, b: Seq<AppView>, list: Seq<AppView>)
    requires
        is_listing(a, list),
        is_listing(b, list),
    ensures
        a == b,
{
    let keys = sort_keys(list);
    let order_a = choose|order: Seq<int>| #[trigger]
        sorts(keys, order) && a == order.map_values(|i: int| list[i]);
    let order_b = choose|order: Seq<int>| #[trigger]
        sorts(keys, order) && b == order.map_values(|i: int| list[i]);
    law_one_way_to_sort(keys, order_a, order_b);
}

/// The list of applications is in the alphabetical order of their names in
/// lower case.
pub proof fn law_the_listing_is_alphabetical(listing: Seq<AppView>, list: Seq<AppView>)
    requires
        is_listing(listing, list),
    ensures
        forall|i: int, j: int|
            0 <= i < j < listing.len() ==> !alphabetical(
                lowered((#[trigger] listing[j]).name),
                lowered((#[trigger] listing[i]).name),
            ),
{
    let keys = sort_keys(list);
    let order = choose|order: Seq<int>| #[trigger]
        sorts(keys, order) && listing == order.map_values(|i: int| list[i]);
    assert forall|i: int, j: int| 0 <= i < j < listing.len() implies !alphabetical(
        lowered((#[trigger] listing[j]).name),
        lowered((#[trigger] listing[i]).name),
    ) by {
        assert(precedes(keys, order[i], order[j]));
        assert(keys[order[i]] == lowered(listing[i].name));
        assert(keys[order[j]] == lowered(listing[j].name));
        lemma_alphabetical_total(keys[order[i]], keys[order[j]]);
    }
}

// ---------------------------------------------------------------------------
// What launching and listing amount to
// ---------------------------------------------------------------------------
/// Arguments are appended: the command line with them is the one without them,
/// all of it, then one space, then the arguments as they stand; nothing else
/// about the launch changes.
pub proof fn law_arguments_are_appended(
    exec_line: Seq<char>,
    extra: Seq<char>,
    sandboxed: bool,
)
    ensures
        ({
            let bare = launch_invocation(exec_line, None, sandboxed);
            let full = launch_invocation(exec_line, Some(extra), sandboxed);
            &&& full.program == bare.program
            &&& full.args.len() == bare.args.len() >= 2
            &&& full.args.drop_last() == bare.args.drop_last()
            &&& full.args.last() == bare.args.last() + seq![' '] + extra
        }),
{
    let bare = launch_invocation(exec_line, None, sandboxed);
    let full = launch_invocation(exec_line, Some(extra), sandboxed);
    assert(full.args.drop_last() =~= bare.args.drop_last());
    assert(full.args.last() =~= bare.args.last() + seq![' '] + extra);
}

/// An application is launched by a shell that is handed its command; inside a
/// sandbox the same shell is handed the same on the host.
pub proof fn law_a_shell_launches_the_command(exec_line: Seq<char>, args: Option<Seq<char>>)
    ensures
        ({
            let here = launch_invocation(exec_line, args, false);
            let boxed = launch_invocation(exec_line, args, true);
            &&& here.program == "sh"@
            &&& here.args.len() == 2
            &&& here.args[0] == "-c"@
            &&& args is None ==> here.args[1] == stripped(exec_line)
            &&& boxed.program == "flatpak-spawn"@
            &&& boxed.args == seq!["--host"@, here.program] + here.args
        }),
{
    let here = launch_invocation(exec_line, args, false);
    let boxed = launch_invocation(exec_line, args, true);
    assert(boxed.args =~= seq!["--host"@, here.program] + here.args);
}

/// Taking a code out leaves all that stands before it and behind it, with the
/// code taken out there too; a text without the code stays as it is.
pub proof fn law_taking_out_leaves_the_rest(a: Seq<char>, code: char, b: Seq<char>)
    requires
        code != '%',
    ensures
        without_code(a + seq!['%', code] + b, code) == without_code(a, code) + without_code(
            b,
            code,
        ),
        (forall|i: int| 0 <= i && i + 1 < a.len() ==> !(#[trigger] a[i] == '%' && a[i + 1] == code))
            ==> without_code(a, code) == a,
    decreases a.len(),
{
    let s = a + seq!['%', code] + b;
    if a.len() == 0 {
        assert(s[0] == '%' && s[1] == code);
        assert(s.skip(2) =~= b);
        assert(without_code(a, code) + without_code(b, code) =~= without_code(b, code));
    } else if a.len() >= 2 && a[0] == '%' && a[1] == code {
        assert(s.skip(2) =~= a.skip(2) + seq!['%', code] + b);
        law_taking_out_leaves_the_rest(a.skip(2), code, b);
    } else {
        let rest = a.drop_first();
        assert(s.drop_first() =~= rest + seq!['%', code] + b);
        assert(s[1] == if a.len() >= 2 {
            a[1]
        } else {
            '%'
        });
        law_taking_out_leaves_the_rest(rest, code, b);
        if a.len() == 1 {
            assert(without_code(rest, code) =~= Seq::<char>::empty());
            assert(without_code(a, code) =~= seq![a[0]] + without_code(rest, code));
        }
        assert(without_code(s, code) =~= without_code(a, code) + without_code(b, code));
    }
    if forall|i: int|
        0 <= i && i + 1 < a.len() ==> !(#[trigger] a[i] == '%' && a[i + 1] == code) {
        assert(!holds_pair(a, '%', code)) by {
            if holds_pair(a, '%', code) {
                let i = choose|i: int| pair_at(a, i, '%', code);
                assert(a[i] == '%' && a[i + 1] == code);
            }
        }
        lemma_nothing_to_take_out(a, code);
    }
}

proof fn lemma_without_code_parts_at_space(a: Seq<char>, space: char, b: Seq<char>, code: char)
    requires
        is_space(space),
        !is_space(code),
    ensures
        without_code(a.push(space) + b, code) == without_code(a, code).push(space) + without_code(
            b,
            code,
        ),
    decreases a.len(),
{
    let s = a.push(space) + b;
    if a.len() == 0 {
        assert(s[0] == space);
        assert(s.drop_first() =~= b);
        if s.len() < 2 {
            assert(b =~= Seq::<char>::empty());
        }
        assert(without_code(s, code) =~= without_code(a, code).push(space) + without_code(b, code));
    } else if a.len() >= 2 && a[0] == '%' && a[1] == code {
        assert(s.skip(2) =~= a.skip(2).push(space) + b);
        lemma_without_code_parts_at_space(a.skip(2), space, b, code);
    } else {
        let rest = a.drop_first();
        assert(s.drop_first() =~= rest.push(space) + b);
        assert(s[1] == if a.len() >= 2 {
            a[1]
        } else {
            space
        });
        lemma_without_code_parts_at_space(rest, space, b, code);
        if a.len() == 1 {
            assert(without_code(rest, code) =~= Seq::<char>::empty());
        }
        assert(without_code(s, code) =~= without_code(a, code).push(space) + without_code(b, code));
    }
}

proof fn lemma_without_codes_parts_at_space(
    a: Seq<char>,
    space: char,
    b: Seq<char>,
    codes: Seq<char>,
)
    requires
        is_space(space),
        forall|i: int| 0 <= i < codes.len() ==> !is_space(#[trigger] codes[i]),
    ensures
        without_codes(a.push(space) + b, codes) == without_codes(a, codes).push(space)
            + without_codes(b, codes),
    decreases codes.len(),
{
    if codes.len() > 0 {
        let fewer = codes.drop_last();
        assert forall|i: int| 0 <= i < fewer.len() implies !is_space(#[trigger] fewer[i]) by {
            assert(fewer[i] == codes[i]);
        }
        assert(!is_space(codes[codes.len() - 1]));
        lemma_without_codes_parts_at_space(a, space, b, fewer);
        lemma_without_code_parts_at_space(
            without_codes(a, fewer),
            space,
            without_codes(b, fewer),
            codes.last(),
        );
    }
}

/// A command is stripped part by part: the words that are left of two parts with
/// white space between them are those left of the one and then those left of
/// the other, and the words left have single spaces between them.
pub proof fn law_stripping_goes_part_by_part(a: Seq<char>, space: char, b: Seq<char>)
    requires
        is_space(space),
    ensures
        words(stripped(a.push(space) + b)) == words(stripped(a)) + words(stripped(b)),
        stripped(a) == joined(words(stripped(a))),
{
    let codes = field_codes();
    assert forall|i: int| 0 <= i < codes.len() implies !is_space(#[trigger] codes[i]) by {
    }
    lemma_without_codes_parts_at_space(a, space, b, codes);
    let s = a.push(space) + b;
    let bare_a = without_codes(a, codes);
    let bare_b = without_codes(b, codes);
    law_white_space_parts_words(bare_a, space, bare_b);
    lemma_words_are_words(bare_a);
    lemma_words_are_words(bare_b);
    lemma_words_are_words(without_codes(s, codes));
    lemma_words_of_joined(words(bare_a));
    lemma_words_of_joined(words(bare_b));
    lemma_words_of_joined(words(without_codes(s, codes)));
}

proof fn lemma_one_code_in_a_word(a: Seq<char>, b: Seq<char>, q: int, n: int)
    requires
        0 <= q < field_codes().len(),
        0 <= n <= field_codes().len(),
        !a.contains('%'),
        !b.contains('%'),
    ensures
        without_codes(a + seq!['%', field_codes()[q]] + b, field_codes().take(n)) == if q < n {
            a + b
        } else {
            a + seq!['%', field_codes()[q]] + b
        },
    decreases n,
{
    let codes = field_codes();
    let s = a + seq!['%', codes[q]] + b;
    if n == 0 {
        assert(codes.take(0) =~= Seq::<char>::empty());
    } else {
        lemma_one_code_in_a_word(a, b, q, n - 1);
        lemma_field_codes_differ();
        assert(codes.take(n).drop_last() =~= codes.take(n - 1));
        assert(codes.take(n).last() == codes[n - 1]);
        let code = codes[n - 1];
        if n - 1 < q {
            assert(!holds_pair(s, '%', code)) by {
                if holds_pair(s, '%', code) {
                    let i = choose|i: int| pair_at(s, i, '%', code);
                    if i < a.len() {
                        assert(a[i] == '%');
                    } else if i > a.len() {
                        if i >= a.len() + 2 {
                            assert(b[i - a.len() - 2] == '%');
                        }
                    }
                }
            }
            lemma_nothing_to_take_out(s, code);
        } else {
            assert(!holds_pair(a, '%', code)) by {
                if holds_pair(a, '%', code) {
                    let i = choose|i: int| pair_at(a, i, '%', code);
                    assert(a[i] == '%');
                }
            }
            assert(!holds_pair(b, '%', code)) by {
                if holds_pair(b, '%', code) {
                    let i = choose|i: int| pair_at(b, i, '%', code);
                    assert(b[i] == '%');
                }
            }
            assert(!holds_pair(a + b, '%', code)) by {
                if holds_pair(a + b, '%', code) {
                    let i = choose|i: int| pair_at(a + b, i, '%', code);
                    if i < a.len() {
                        assert(a[i] == '%');
                    } else {
                        assert(b[i - a.len()] == '%');
                    }
                }
            }
            lemma_nothing_to_take_out(a, code);
            lemma_nothing_to_take_out(b, code);
            lemma_nothing_to_take_out(a + b, code);
            if n - 1 == q {
                law_taking_out_leaves_the_rest(a, code, b);
            }
        }
    }
}

/// A field code in a word goes, and the rest of the word stays; so a word that
/// is a field code goes altogether. A word without a percent sign stays.
pub proof fn law_a_field_code_goes_and_the_rest_stays(a: Seq<char>, code: char, b: Seq<char>)
    requires
        "fFuUdDnNickvm"@.contains(code),
        forall|i: int| 0 <= i < a.len() ==> !is_space(#[trigger] a[i]) && a[i] != '%',
        forall|i: int| 0 <= i < b.len() ==> !is_space(#[trigger] b[i]) && b[i] != '%',
    ensures
        stripped(a + seq!['%', code] + b) == a + b,
        stripped(a) == a,
{
    let codes = field_codes();
    reveal_strlit("fFuUdDnNickvm");
    assert("fFuUdDnNickvm"@ =~= codes);
    let q = choose|q: int| 0 <= q < codes.len() && codes[q] == code;
    lemma_one_code_in_a_word(a, b, q, codes.len() as int);
    assert(codes.take(codes.len() as int) =~= codes);
    law_a_word_stays_whole(a + b);
    law_a_word_stays_whole(a);
    lemma_no_percent_stays(a, codes);
    assert(joined(seq![a + b]) == a + b);
    assert(joined(seq![a]) == a);
    if (a + b).len() == 0 {
        assert(a + b =~= Seq::<char>::empty());
    }
    if a.len() == 0 {
        assert(a =~= Seq::<char>::empty());
    }
}

proof fn lemma_no_percent_stays(a: Seq<char>, codes: Seq<char>)
    requires
        !a.contains('%'),
    ensures
        without_codes(a, codes) == a,
{
    assert forall|i: int| 0 <= i < codes.len() implies !holds_pair(
        a,
        '%',
        #[trigger] codes[i],
    ) by {
        if holds_pair(a, '%', codes[i]) {
            let k = choose|k: int| pair_at(a, k, '%', codes[i]);
            assert(a[k] == '%');
        }
    }
    lemma_no_codes_to_take_out(a, codes);
}

/// A percent sign before any other letter, or before nothing, is no field code
/// and stays, so that `%%` does.
pub proof fn law_other_percent_signs_stay(w: Seq<char>)
    requires
        forall|i: int| 0 <= i < w.len() ==> !is_space(#[trigger] w[i]),
        forall|i: int|
            0 <= i && i + 1 < w.len() && #[trigger] w[i] == '%' ==> !"fFuUdDnNickvm"@.contains(
                w[i + 1],
            ),
    ensures
        stripped(w) == w,
{
    let codes = field_codes();
    reveal_strlit("fFuUdDnNickvm");
    assert("fFuUdDnNickvm"@ =~= codes);
    assert forall|i: int| 0 <= i < codes.len() implies !holds_pair(
        w,
        '%',
        #[trigger] codes[i],
    ) by {
        if holds_pair(w, '%', codes[i]) {
            let k = choose|k: int| pair_at(w, k, '%', codes[i]);
            assert(w[k] == '%');
            assert(codes.contains(w[k + 1]));
        }
    }
    lemma_no_codes_to_take_out(w, codes);
    law_a_word_stays_whole(w);
    assert(joined(seq![w]) == w);
    if w.len() == 0 {
        assert(w =~= Seq::<char>::empty());
    }
}

/// An application is what its entry says, field by field: its id, the file it
/// comes from, its name, or its id where it has none, its command as it stands
/// in the entry, whatever the other fields are, and the class that it declares,
/// or its id where it declares none.
pub proof fn law_an_application_is_what_its_entry_says(entry: FoundView)
    ensures
        app_of(entry).id == entry.fields.id,
        app_of(entry).path == entry.path,
        entry.fields.name is Some ==> app_of(entry).name == entry.fields.name->0,
        entry.fields.name is None ==> app_of(entry).name == entry.fields.id,
        entry.fields.exec_line is Some ==> app_of(entry).exec_line == entry.fields.exec_line->0,
        entry.fields.exec_line is None ==> app_of(entry).exec_line.len() == 0,
        entry.fields.startup_wm_class is Some && entry.fields.startup_wm_class->0.len() > 0
            ==> app_of(entry).window_class == entry.fields.startup_wm_class->0,
        entry.fields.startup_wm_class is None || entry.fields.startup_wm_class->0.len() == 0
            ==> app_of(entry).window_class == entry.fields.id,
{
}

/// Whether `app` carries just what the entry declares.
pub open spec fn carries(app: AppView, entry: FoundView) -> bool {
    &&& app.id == entry.fields.id
    &&& app.path == entry.path
    &&& entry.fields.name is Some ==> app.name == entry.fields.name->0
    &&& entry.fields.name is None ==> app.name == entry.fields.id
    &&& entry.fields.exec_line is Some ==> app.exec_line == entry.fields.exec_line->0
    &&& entry.fields.exec_line is None ==> app.exec_line.len() == 0
    &&& entry.fields.startup_wm_class is Some && entry.fields.startup_wm_class->0.len() > 0
        ==> app.window_class == entry.fields.startup_wm_class->0
    &&& entry.fields.startup_wm_class is None || entry.fields.startup_wm_class->0.len() == 0
        ==> app.window_class == entry.fields.id
}

/// Whether the entry at `i` is of an application that is neither hidden nor not
/// to be displayed, the first such of its id.
pub open spec fn leads_its_id(entries: Seq<FoundView>, i: int) -> bool {
    &&& 0 <= i < entries.len()
    &&& entries[i].fields.entry_type == Some("Application"@)
    &&& !entries[i].fields.no_display
    &&& !entries[i].fields.hidden
    &&& forall|j: int|
        0 <= j < i && (#[trigger] entries[j]).fields.id == entries[i].fields.id
            ==> entries[j].fields.no_display || entries[j].fields.hidden
            || entries[j].fields.entry_type != Some("Application"@)
}

/// What is listed is what the entries declare: each application in the list
/// carries just what its entry says, the first of its id that is an application
/// and to be seen; every such entry has its application in the list; and no id
/// is there twice.
pub proof fn law_the_listing_is_what_the_entries_declare(
    entries: Seq<FoundView>,
    listing: Seq<AppView>,
)
    requires
        is_listing(listing, distinct_apps(entries)),
    ensures
        forall|k: int|
            0 <= k < listing.len() ==> has_leading_entry(entries, #[trigger] listing[k]),
        forall|i: int| #[trigger]
            leads_its_id(entries, i) ==> exists|k: int|
                0 <= k < listing.len() && carries(#[trigger] listing[k], entries[i]),
        forall|i: int, j: int|
            0 <= i < j < listing.len() ==> (#[trigger] listing[i]).id != (#[trigger] listing[j]).id,
{
    law_each_shown_id_is_listed_once(entries, listing);
    assert forall|k: int| 0 <= k < listing.len() implies has_leading_entry(
        entries,
        #[trigger] listing[k],
    ) by {
        assert(comes_from_first(entries, listing[k]));
        let i = choose|i: int| #[trigger]
            is_first_shown(entries, i) && listing[k] == app_of(entries[i]);
        law_an_application_is_what_its_entry_says(entries[i]);
        assert(leads_its_id(entries, i));
    }
    assert forall|i: int| #[trigger] leads_its_id(entries, i) implies exists|k: int|
        0 <= k < listing.len() && carries(#[trigger] listing[k], entries[i]) by {
        assert(is_shown(entries[i]));
        assert(has_id(listing, entries[i].fields.id));
        let k = choose|k: int|
            0 <= k < listing.len() && (#[trigger] listing[k]).id == entries[i].fields.id;
        assert(comes_from_first(entries, listing[k]));
        let first = choose|first: int| #[trigger]
            is_first_shown(entries, first) && listing[k] == app_of(entries[first]);
        if i < first {
            assert(!(is_shown(entries[i]) && entries[i].fields.id == entries[first].fields.id));
        } else if first < i {
            assert(entries[first].fields.id == entries[i].fields.id);
        }
        assert(first == i);
        law_an_application_is_what_its_entry_says(entries[i]);
        assert(carries(listing[k], entries[i]));
    }
}

/// Whether `app` carries what an entry declares that leads its id.
pub open spec fn has_leading_entry(entries: Seq<FoundView>, app: AppView) -> bool {
    exists|i: int| #[trigger] leads_its_id(entries, i) && carries(app, entries[i])
}

/// The files are read one by one, in order: one more file adds its entry behind
/// the others, with its own path and the fields that are read from it, or
/// nothing where it is no desktop entry.
pub proof fn law_files_are_read_one_by_one(
    files: Seq<DesktopFile>,
    file: DesktopFile,
    locales: Seq<Seq<char>>,
)
    ensures
        entries_of(Seq::empty(), locales) == Seq::<FoundView>::empty(),
        match desktop_fields(file.path@, file.text@, locales) {
            Some(fields) => entries_of(files.push(file), locales) == entries_of(files, locales)
                + seq![FoundView { path: file.path@, fields }],
            None => entries_of(files.push(file), locales) == entries_of(files, locales),
        },
{
    assert(files.push(file).drop_last() =~= files);
    if desktop_fields(file.path@, file.text@, locales) is Some {
        let fields = desktop_fields(file.path@, file.text@, locales)->0;
        assert(entries_of(files.push(file), locales) =~= entries_of(files, locales)
            + seq![FoundView { path: file.path@, fields }]);
    }
}

/// Applications whose names differ in nothing but case stand in the list in the
/// order in which they were found, and the list holds just those found.
pub proof fn law_applications_of_one_name_keep_their_order(
    listing: Seq<AppView>,
    list: Seq<AppView>,
)
    requires
        is_listing(listing, list),
    ensures
        listing.len() == list.len(),
        forall|x: int| 0 <= x < list.len() ==> listing.contains(#[trigger] list[x]),
        forall|i: int, j: int|
            0 <= i < j < listing.len() && lowered((#[trigger] listing[i]).name) == lowered(
                (#[trigger] listing[j]).name,
            ) ==> stand_in_order(list, listing[i], listing[j]),
{
    let keys = sort_keys(list);
    let order = choose|order: Seq<int>| #[trigger]
        sorts(keys, order) && listing == order.map_values(|i: int| list[i]);
    law_sorting_is_stable(keys, order);
    assert forall|x: int| 0 <= x < list.len() implies listing.contains(#[trigger] list[x]) by {
        assert(order.contains(x));
        let k = choose|k: int| 0 <= k < order.len() && order[k] == x;
        assert(listing[k] == list[x]);
    }
    assert forall|i: int, j: int|
        0 <= i < j < listing.len() && lowered((#[trigger] listing[i]).name) == lowered(
            (#[trigger] listing[j]).name,
        ) implies stand_in_order(list, listing[i], listing[j]) by {
        assert(listing[i] == list[order[i]] && listing[j] == list[order[j]]);
        assert(keys[order[i]] == lowered(list[order[i]].name));
        assert(keys[order[j]] == lowered(list[order[j]].name));
        assert(order[i] < order[j]);
    }
}

/// Whether `a` stands somewhere in `list` before a place where `b` does.
pub open spec fn stand_in_order(list: Seq<AppView>, a: AppView, b: AppView) -> bool {
    exists|p: int, q: int|
        0 <= p < q < list.len() && #[trigger] list[p] == a && #[trigger] list[q] == b
}

/// The field codes are taken out in turn, each of what the ones before it left,
/// and the words of what is left are put together with single spaces.
pub proof fn law_field_codes_are_taken_out_in_turn(s: Seq<char>, codes: Seq<char>, code: char)
    ensures
        without_codes(s, Seq::empty()) == s,
        without_codes(s, codes.push(code)) == without_code(without_codes(s, codes), code),
        stripped(s) == joined(words(without_codes(s, "fFuUdDnNickvm"@))),
{
    assert(codes.push(code).drop_last() =~= codes);
    reveal_strlit("fFuUdDnNickvm");
    assert("fFuUdDnNickvm"@ =~= field_codes());
}

} // verus!

//! Calls that leave the library. Each function here hands its arguments to one
//! function of another crate or of the standard library; its contract is what
//! the rest of the library takes on trust about that function.

use crate::encoding::base64_text;
use crate::text::{ascii_lower, last_part, opt_view, views};
use base64::Engine;
use freedesktop_desktop_entry::DesktopEntry;
use vstd::prelude::*;
use vstd::utf8::{decode_utf8, is_ascii_chars, valid_utf8};

verus! {

/// What `str::to_lowercase` makes of a string.
pub uninterp spec fn unicode_lower(s: Seq<char>) -> Seq<char>;

/// `str::to_lowercase`: the string in lower case, by Unicode's rules. The
/// result depends on the string alone. Where the string is all ASCII, its
/// letters `A` to `Z` become `a` to `z` and nothing else changes.
#[verifier::external_body]
pub(crate) fn to_lowercase(s: &str) -> (r: String)
    ensures
        r@ == unicode_lower(s@),
        is_ascii_chars(s@) ==> r@ == ascii_lower(s@),
{
    s.to_lowercase()
}

/// `s` in lower case: by the ASCII letters where it is all ASCII, else what
/// `str::to_lowercase` makes of it.
pub open spec fn lowered(s: Seq<char>) -> Seq<char> {
    if is_ascii_chars(s) {
        ascii_lower(s)
    } else {
        unicode_lower(s)
    }
}

/// What `String::from_utf8_lossy` makes of bytes.
pub uninterp spec fn utf8_lossy(bytes: Seq<u8>) -> Seq<char>;

/// `String::from_utf8_lossy`: the text that the bytes encode, with U+FFFD in
/// the place of what is not UTF-8. The result depends on the bytes alone, and
/// valid UTF-8 is decoded as it stands.
#[verifier::external_body]
pub(crate) fn from_utf8_lossy(bytes: &[u8]) -> (r: String)
    ensures
        r@ == utf8_lossy(bytes@),
        valid_utf8(bytes@) ==> r@ == decode_utf8(bytes@),
{
    String::from_utf8_lossy(bytes).into_owned()
}

/// The text that a tool printed: what its bytes encode where they are UTF-8,
/// else what `String::from_utf8_lossy` makes of them.
pub open spec fn printed_text(bytes: Seq<u8>) -> Seq<char> {
    if valid_utf8(bytes) {
        decode_utf8(bytes)
    } else {
        utf8_lossy(bytes)
    }
}

/// `base64::engine::general_purpose::STANDARD.encode`: the bytes as base64
/// text, with the standard alphabet and padding. The call panics where that
/// text would not fit in memory.
#[verifier::external_body]
pub(crate) fn encode_base64(bytes: &[u8]) -> (r: String)
    requires
        (bytes@.len() + 2) / 3 * 4 <= isize::MAX,
    ensures
        r@ == base64_text(bytes@),
{
    base64::engine::general_purpose::STANDARD.encode(bytes)
}

/// What `Path::extension` finds in a path.
pub uninterp spec fn path_extension(path: Seq<char>) -> Option<Seq<char>>;

/// Whether a path ends in the name of a file: not in a slash, nor in one of the
/// two names that stand for directories.
pub open spec fn ends_in_name(path: Seq<char>) -> bool {
    let name = last_part(path, '/');
    name.len() > 0 && name != "."@ && name != ".."@
}

/// The extension of a file name: what stands behind its last dot, if it has a
/// dot other than at its start.
pub open spec fn name_extension(name: Seq<char>) -> Option<Seq<char>> {
    let ext = last_part(name, '.');
    if ext.len() + 1 < name.len() {
        Some(ext)
    } else {
        None
    }
}

/// `std::path::Path::extension`, for the paths of a Unix system: what stands
/// behind the last dot of the path's file name, if that has a dot and does not
/// merely start with it. The result depends on the path alone. Of a path that
/// does not end in the name of a file nothing more is said.
#[verifier::external_body]
pub(crate) fn extension(path: &str) -> (r: Option<String>)
    ensures
        opt_view(r) == path_extension(path@),
        ends_in_name(path@) ==> opt_view(r) == name_extension(last_part(path@, '/')),
{
    let ext = std::path::Path::new(path).extension()?;
    ext.to_str().map(str::to_string)
}

/// The extension of a path's file name, and for a path that does not end in
/// one what `Path::extension` finds in it.
pub open spec fn extension_of(path: Seq<char>) -> Option<Seq<char>> {
    if ends_in_name(path) {
        name_extension(last_part(path, '/'))
    } else {
        path_extension(path)
    }
}

/// What the library reads from a `.desktop` file.
#[derive(Debug)]
pub struct DesktopFields {
    /// The entry's id, which comes from the file's path.
    pub id: String,
    /// `Name=`, in the first of the user's languages that the file has it in.
    pub name: Option<String>,
    /// Whether `NoDisplay=` is `true`.
    pub no_display: bool,
    /// Whether `Hidden=` is `true`.
    pub hidden: bool,
    /// `Type=`.
    pub entry_type: Option<String>,
    /// `StartupWMClass=`.
    pub startup_wm_class: Option<String>,
    /// `Exec=`.
    pub exec_line: Option<String>,
}

/// The contents of [`DesktopFields`].
#[verifier::ext_equal]
pub struct FieldsView {
    pub id: Seq<char>,
    pub name: Option<Seq<char>>,
    pub no_display: bool,
    pub hidden: bool,
    pub entry_type: Option<Seq<char>>,
    pub startup_wm_class: Option<Seq<char>>,
    pub exec_line: Option<Seq<char>>,
}

impl View for DesktopFields {
    type V = FieldsView;

    open spec fn view(&self) -> FieldsView {
        FieldsView {
            id: self.id@,
            name: opt_view(self.name),
            no_display: self.no_display,
            hidden: self.hidden,
            entry_type: opt_view(self.entry_type),
            startup_wm_class: opt_view(self.startup_wm_class),
            exec_line: opt_view(self.exec_line),
        }
    }
}

/// What `DesktopEntry::from_str` reads from the text of the `.desktop` file at
/// a path, with the languages in `locales`, or `None` where it is no desktop
/// entry. That nothing else counts rests on the crate's translation catalogs,
/// which differ from machine to machine, being switched off: they come with its
/// default features, which this package does without.
pub uninterp spec fn desktop_fields(
    path: Seq<char>,
    text: Seq<char>,
    locales: Seq<Seq<char>>,
) -> Option<FieldsView>;

/// Whether `id` is what `path` asks for: of a file `NAME.desktop` directly in a
/// directory `applications`, the id is `NAME`.
pub open spec fn id_fits_path(id: Seq<char>, path: Seq<char>) -> bool {
    forall|dir: Seq<char>, name: Seq<char>|
        path == #[trigger] (dir + "/applications/"@ + name + ".desktop"@) && !name.contains('/')
            ==> id == name
}

/// `freedesktop_desktop_entry::DesktopEntry::from_str`: the entry that the text
/// of a `.desktop` file declares, read off by the entry's own accessors. What
/// it reads depends on the path, the text and the languages alone. The id of a
/// file directly in a directory `applications` is the file's name. Which text
/// gives which other fields is left to that crate.
#[verifier::external_body]
pub(crate) fn decode_desktop_entry(path: &str, text: &str, locales: &Vec<String>) -> (r: Option<
    DesktopFields,
>)
    ensures
        match r {
            Some(fields) => desktop_fields(path@, text@, views(locales@)) == Some(fields@),
            None => desktop_fields(path@, text@, views(locales@)) is None,
        },
        r matches Some(fields) ==> id_fits_path(fields.id@, path@),
{
    let entry = DesktopEntry::from_str(path, text, Some(locales.as_slice())).ok()?;
    Some(DesktopFields {
        id: entry.id().to_string(),
        name: entry.name(locales.as_slice()).map(|name| name.to_string()),
        no_display: entry.no_display(),
        hidden: entry.hidden(),
        entry_type: entry.type_().map(str::to_string),
        startup_wm_class: entry.startup_wm_class().map(str::to_string),
        exec_line: entry.exec().map(str::to_string),
    })
}

} // verus!

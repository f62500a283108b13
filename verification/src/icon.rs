//! The picture on a key: an icon file as the text that the key's image is set
//! from.

use crate::encoding::{base64_bytes, base64_text, law_base64_round_trip};
use crate::outside::{encode_base64, extension, extension_of};
use crate::text::{
    ascii_lower, last_part, law_the_last_part, lemma_last_part_of_sum, opt_str_view, same,
    to_ascii_lowercase,
};
use vstd::prelude::*;

verus! {

/// Why an icon could not be turned into an image.
#[derive(Debug)]
pub enum IconEncodeError {
    /// The file could not be read; the message says why.
    Read(String),
}

/// The media type of an icon file, by its extension in upper or lower case;
/// PNG where the extension is none of those known, or there is none.
pub open spec fn mime_of(ext: Option<Seq<char>>) -> Seq<char> {
    match ext {
        Some(e) => {
            let lower = ascii_lower(e);
            if lower == "svg"@ {
                "image/svg+xml"@
            } else if lower == "jpg"@ || lower == "jpeg"@ {
                "image/jpeg"@
            } else if lower == "bmp"@ {
                "image/bmp"@
            } else {
                "image/png"@
            }
        },
        None => "image/png"@,
    }
}

/// The media type of an icon file with this extension.
pub fn mime_type(ext: Option<&str>) -> (r: String)
    ensures
        r@ == mime_of(opt_str_view(ext)),
{
    let mime = match ext {
        Some(e) => {
            let lower = to_ascii_lowercase(e);
            if same(lower.as_str(), "svg") {
                "image/svg+xml"
            } else if same(lower.as_str(), "jpg") || same(lower.as_str(), "jpeg") {
                "image/jpeg"
            } else if same(lower.as_str(), "bmp") {
                "image/bmp"
            } else {
                "image/png"
            }
        },
        None => "image/png",
    };
    mime.to_owned()
}

/// A data URI with a base64 body.
pub open spec fn data_uri(mime: Seq<char>, body: Seq<char>) -> Seq<char> {
    "data:"@ + mime + ";base64,"@ + body
}

/// The data URI of an image whose bytes are `encoded` in base64, from a file
/// with this extension.
pub fn image_uri(ext: Option<&str>, encoded: &str) -> (r: String)
    ensures
        r@ == data_uri(mime_of(opt_str_view(ext)), encoded@),
{
    let mime = mime_type(ext);
    "data:".to_owned().concat(mime.as_str()).concat(";base64,").concat(encoded)
}

/// Builds the text that sets a key's image from the icon file at `path`, given
/// what was read from it, or why it could not be read. It is always a data URI:
/// what does not start with `data:` would be taken for the name of a file, so
/// that SVG markup is encoded like any other image.
pub fn build_image_payload(path: &str, read: Result<Vec<u8>, String>) -> (r: Result<
    String,
    IconEncodeError,
>)
    requires
        read matches Ok(bytes) ==> (bytes@.len() + 2) / 3 * 4 <= isize::MAX,
    ensures
        match (read, r) {
            (Ok(bytes), Ok(payload)) => {
                &&& payload@ == data_uri(mime_of(extension_of(path@)), base64_text(bytes@))
                &&& image_bytes(payload@) == Some(bytes@)
            },
            (Err(message), Err(IconEncodeError::Read(why))) => why@ == message@,
            _ => false,
        },
{
    match read {
        Err(message) => Err(IconEncodeError::Read(message)),
        Ok(bytes) => {
            let ext = extension(path);
            let encoded = encode_base64(bytes.as_slice());
            proof {
                law_an_image_holds_the_file(extension_of(path@), bytes@);
            }
            match &ext {
                Some(e) => Ok(image_uri(Some(e.as_str()), encoded.as_str())),
                None => Ok(image_uri(None, encoded.as_str())),
            }
        },
    }
}

/// The bytes of the image in a data URI: what stands behind its first comma,
/// read as base64.
pub open spec fn image_bytes(uri: Seq<char>) -> Option<Seq<u8>> {
    base64_bytes(uri.skip(uri.index_of_first(',')->0 + 1))
}

/// An image's text is inline data, whatever the image: it starts with
/// `data:`.
pub proof fn law_an_image_is_inline_data(mime: Seq<char>, body: Seq<char>)
    ensures
        "data:"@.is_prefix_of(data_uri(mime, body)),
{
    assert(data_uri(mime, body).take("data:"@.len() as int) =~= "data:"@);
}

/// What stands behind the first comma of an image's text is the encoded
/// image.
pub proof fn law_the_image_stands_behind_the_comma(ext: Option<Seq<char>>, body: Seq<char>)
    ensures
        ({
            let uri = data_uri(mime_of(ext), body);
            &&& uri.contains(',')
            &&& uri.skip(uri.index_of_first(',')->0 + 1) == body
        }),
{
    let head = "data:"@ + mime_of(ext) + ";base64,"@;
    let uri = data_uri(mime_of(ext), body);
    let at = head.len() - 1;
    reveal_strlit("data:");
    reveal_strlit(";base64,");
    reveal_strlit("image/svg+xml");
    reveal_strlit("image/jpeg");
    reveal_strlit("image/bmp");
    reveal_strlit("image/png");
    assert(uri =~= head + body);
    assert(head[at] == ',');
    assert(uri[at] == ',');
    assert forall|i: int| 0 <= i < at implies uri[i] != ',' by {
        assert(uri[i] == head[i]);
        let n = "data:"@.len() as int;
        let m = mime_of(ext).len() as int;
        if i < n {
            assert(head[i] == "data:"@[i]);
        } else if i < n + m {
            assert(head[i] == mime_of(ext)[i - n]);
        } else {
            assert(head[i] == ";base64,"@[i - n - m]);
        }
    }
    uri.index_of_first_ensures(',');
    assert(uri.index_of_first(',') == Some(at));
    assert(uri.skip(at + 1) =~= body);
}

/// An image holds the file: what stands behind the first comma of its text,
/// read as base64, is the file's bytes, whatever the file's extension.
pub proof fn law_an_image_holds_the_file(ext: Option<Seq<char>>, bytes: Seq<u8>)
    ensures
        image_bytes(data_uri(mime_of(ext), base64_text(bytes))) == Some(bytes),
{
    law_the_image_stands_behind_the_comma(ext, base64_text(bytes));
    law_base64_round_trip(bytes);
}

/// A file whose name is some characters, a dot and more characters has these
/// for its extension.
pub proof fn law_an_extension_stands_behind_the_dot(stem: Seq<char>, ext: Seq<char>)
    requires
        stem.len() > 0,
        stem.last() != '/',
        ext.len() > 0,
        !ext.contains('.'),
        !ext.contains('/'),
    ensures
        extension_of(stem.push('.') + ext) == Some(ext),
{
    let path = stem.push('.') + ext;
    let name = last_part(stem, '/').push('.') + ext;
    lemma_last_part_of_sum(stem.push('.'), ext, '/');
    assert(stem.push('.').drop_last() =~= stem);
    assert(last_part(path, '/') == name);
    lemma_last_part_of_sum(last_part(stem, '/').push('.'), ext, '.');
    assert(last_part(name, '.') =~= ext);
    reveal_strlit(".");
    reveal_strlit("..");
}

/// The media type follows the extension, in upper or lower case, and is PNG's
/// for every other extension and where there is none.
pub proof fn law_the_media_type_follows_the_extension(ext: Seq<char>)
    ensures
        mime_of(Some(ext)) == "image/svg+xml"@ <==> ascii_lower(ext) == "svg"@,
        mime_of(Some(ext)) == "image/jpeg"@ <==> ascii_lower(ext) == "jpg"@ || ascii_lower(ext)
            == "jpeg"@,
        mime_of(Some(ext)) == "image/bmp"@ <==> ascii_lower(ext) == "bmp"@,
        mime_of(Some(ext)) == "image/png"@ <==> ascii_lower(ext) != "svg"@ && ascii_lower(ext)
            != "jpg"@ && ascii_lower(ext) != "jpeg"@ && ascii_lower(ext) != "bmp"@,
        mime_of(None) == "image/png"@,
{
    reveal_strlit("svg");
    reveal_strlit("jpg");
    reveal_strlit("jpeg");
    reveal_strlit("bmp");
    reveal_strlit("image/svg+xml");
    reveal_strlit("image/jpeg");
    reveal_strlit("image/bmp");
    reveal_strlit("image/png");
    assert("svg"@[0] == 's' && "jpg"@[0] == 'j' && "bmp"@[0] == 'b');
    assert("image/bmp"@[6] == 'b' && "image/png"@[6] == 'p');
    assert("image/svg+xml"@.len() == 13 && "image/jpeg"@.len() == 10);
    assert("image/bmp"@.len() == 9 && "image/png"@.len() == 9);
}

/// The text of an image gives its media type and then its body, and nothing
/// else.
pub proof fn law_an_image_gives_its_type_and_its_body(mime: Seq<char>, body: Seq<char>)
    ensures
        data_uri(mime, body) == "data:"@ + (mime + (";base64,"@ + body)),
{
    assert(data_uri(mime, body) =~= "data:"@ + (mime + (";base64,"@ + body)));
}

/// A file name without a dot, or with none but the one that it starts with, has
/// no extension, whatever the directory is called.
pub proof fn law_a_name_without_a_dot_has_no_extension(dir: Seq<char>, name: Seq<char>)
    requires
        name.len() > 0,
        !name.contains('/'),
        !name.contains('.'),
    ensures
        extension_of(dir.push('/') + name) is None,
        extension_of(dir.push('/') + name.insert(0, '.')) is None,
        extension_of(name) is None,
{
    reveal_strlit(".");
    reveal_strlit("..");
    law_the_last_part(dir, '/', name);
    law_the_last_part(dir, '.', name);
    let hidden = name.insert(0, '.');
    assert(hidden =~= Seq::<char>::empty().push('.') + name);
    assert forall|i: int| 0 <= i < hidden.len() implies hidden[i] != '/' by {
        if i > 0 {
            assert(hidden[i] == name[i - 1]);
        }
    }
    law_the_last_part(dir, '/', hidden);
    law_the_last_part(Seq::empty(), '.', name);
    assert(name[0] != '.');
    assert(hidden[1] == name[0]);
}

} // verus!

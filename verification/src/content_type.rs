use vstd::prelude::*;
use crate::paths::{spec_extension, extension_of, str_eq};

verus! {

/// What `mime`'s parser makes of a bare extension string: `Some` of the
/// textual form of the parsed type when the string is itself a valid MIME
/// type, `None` otherwise.  Named, not spelled out: the MIME grammar belongs
/// to the `mime` crate.
pub uninterp spec fn mime_of(s: Seq<char>) -> Option<Seq<char>>;

/// Relies on `mime::Mime`'s `FromStr` impl to decide whether the string is
/// itself a valid MIME type, and on its `Display` impl for the textual
/// form; both depend on the input characters alone.
#[verifier::external_body]
fn parse_mime(ext: &str) -> (r: Option<String>)
    ensures
        (r is Some) == (mime_of(ext@) is Some),
        r matches Some(t) ==> mime_of(ext@) == Some(t@),
{
    ext.parse::<mime::Mime>().ok().map(|m| m.to_string())
}

/// The content type served for a file name: a fixed table over well-known
/// extensions; for any other extension, whatever the MIME parser makes of
/// the extension itself; no extension, no content type.
pub open spec fn spec_content_type(name: Seq<char>) -> Option<Seq<char>> {
    match spec_extension(name) {
        None => None,
        Some(e) => if e == "jpg"@ || e == "jpeg"@ {
            Some("image/jpeg"@)
        } else if e == "png"@ {
            Some("image/png"@)
        } else if e == "gif"@ {
            Some("image/gif"@)
        } else if e == "txt"@ || e == "md"@ {
            Some("text/plain"@)
        } else if e == "html"@ {
            Some("text/html"@)
        } else if e == "xml"@ {
            Some("application/xml"@)
        } else if e == "json"@ {
            Some("application/json"@)
        } else if e == "css"@ {
            Some("text/css"@)
        } else {
            mime_of(e)
        },
    }
}

/// Maps a file name's extension to the content type to serve, as
/// `spec_content_type` describes.
pub fn content_type(name: &str) -> (r: Option<String>)
    ensures
        r matches Some(t) ==> spec_content_type(name@) == Some(t@),
        r is None ==> spec_content_type(name@) is None,
{
    let ext = match extension_of(name) {
        Some(e) => e,
        None => {
            return None;
        },
    };
    let es = ext.as_str();
    if str_eq(es, "jpg") || str_eq(es, "jpeg") {
        Some(String::from_str("image/jpeg"))
    } else if str_eq(es, "png") {
        Some(String::from_str("image/png"))
    } else if str_eq(es, "gif") {
        Some(String::from_str("image/gif"))
    } else if str_eq(es, "txt") || str_eq(es, "md") {
        Some(String::from_str("text/plain"))
    } else if str_eq(es, "html") {
        Some(String::from_str("text/html"))
    } else if str_eq(es, "xml") {
        Some(String::from_str("application/xml"))
    } else if str_eq(es, "json") {
        Some(String::from_str("application/json"))
    } else if str_eq(es, "css") {
        Some(String::from_str("text/css"))
    } else {
        parse_mime(es)
    }
}

} // verus!

//! The `Content-Type` field of a response: set to HTML for rendered pages,
//! guessed from the path's extension for files.

use vstd::prelude::*;
use vstd::string::*;
use vstd::utf8::encode_utf8;
use crate::error::{Error, err};
use crate::http::{visible_ascii_chars, lemma_visible_ascii_text, HeaderValue, Response, Uri, HeaderFields, fields_wf, field_get, field_append, field_insert, content_type_name, valid_header_bytes, law_append_then_get, law_insert_then_get};

verus! {

broadcast use vstd::string::group_string_axioms;

/// `mime::TEXT_HTML_UTF_8`, written out.
pub open spec fn text_html_utf_8() -> Seq<char> {
    "text/html; charset=utf-8"@
}

/// `mime::APPLICATION_OCTET_STREAM`, written out.
pub open spec fn application_octet_stream() -> Seq<char> {
    "application/octet-stream"@
}

/// `mime::TEXT_PLAIN_UTF_8`, written out.
pub open spec fn text_plain_utf_8() -> Seq<char> {
    "text/plain; charset=utf-8"@
}

/// `mime::TEXT_HTML_UTF_8.to_string()`.
#[verifier::external_body]
pub(crate) fn mime_text_html_utf_8() -> (r: String)
    ensures
        r@ == text_html_utf_8(),
{
    mime::TEXT_HTML_UTF_8.to_string()
}

/// `mime::APPLICATION_OCTET_STREAM.to_string()`.
#[verifier::external_body]
fn mime_application_octet_stream() -> (r: String)
    ensures
        r@ == application_octet_stream(),
{
    mime::APPLICATION_OCTET_STREAM.to_string()
}

/// `mime::TEXT_PLAIN_UTF_8.to_string()`.
#[verifier::external_body]
pub(crate) fn mime_text_plain_utf_8() -> (r: String)
    ensures
        r@ == text_plain_utf_8(),
{
    mime::TEXT_PLAIN_UTF_8.to_string()
}

/// `mime_guess::from_path(path).first()`, written out: the first media type
/// that mime_guess's table gives for the extension of `path`, if any.
pub uninterp spec fn guessed_mime(path: Seq<char>) -> Option<Seq<char>>;

/// `mime_guess::from_path(path).first()` as text. Every media type in
/// mime_guess's table is visible ASCII, and so is its text.
#[verifier::external_body]
pub(crate) fn guess_mime(path: &str) -> (r: Option<String>)
    ensures
        r matches Some(m) ==> guessed_mime(path@) == Some(m@),
        r matches Some(m) ==> visible_ascii_chars(m@),
        r is None ==> guessed_mime(path@) is None,
{
    match mime_guess::from_path(path).first() {
        Some(m) => Some(m.to_string()),
        None => None,
    }
}

/// The header value of a media type: the bytes of its text, when every one
/// may stand in a header.
pub fn mime_to_header(mime_type: &str) -> (r: Result<HeaderValue, Error>)
    ensures
        r is Ok <==> valid_header_bytes(mime_type.spec_bytes()),
        r matches Ok(v) ==> v@ == mime_type.spec_bytes(),
        r matches Err(e) ==> e is InvalidHeaderValue,
{
    match HeaderValue::from_str(mime_type) {
        Ok(v) => Ok(v),
        Err(e) => Err(Error::InvalidHeaderValue(e)),
    }
}

/// The bytes of `text/html; charset=utf-8`, which may stand in a header.
pub proof fn lemma_text_html_bytes()
    ensures
        valid_header_bytes(encode_utf8(text_html_utf_8())),
{
    reveal_strlit("text/html; charset=utf-8");
    crate::http::lemma_visible_ascii_text("text/html; charset=utf-8");
}

/// The fallback media types are visible ASCII.
pub proof fn lemma_fallback_types_visible()
    ensures
        visible_ascii_chars(application_octet_stream()),
        visible_ascii_chars(text_plain_utf_8()),
{
    reveal_strlit("application/octet-stream");
    reveal_strlit("text/plain; charset=utf-8");
}

/// The fixed message of the error that `html` reports.
pub open spec fn html_conflict_message() -> Seq<char> {
    "html(): response already contains content type header"@
}

/// Sets the content type of a response to `text/html; charset=utf-8`. A
/// response that already has a `Content-Type` field is left as it is and an
/// error is reported.
pub fn html(response: &mut Response) -> (r: Result<(), Error>)
    ensures
        field_get(old(response).headers@, content_type_name()) is Some ==> {
            &&& final(response).headers@ == old(response).headers@
            &&& r matches Err(Error::Message(m)) && m@ == html_conflict_message()
        },
        field_get(old(response).headers@, content_type_name()) is None ==> {
            &&& final(response).headers@ == field_append(old(response).headers@, content_type_name(), encode_utf8(text_html_utf_8()))
            &&& r is Ok
        },
        final(response).status == old(response).status,
        final(response).version == old(response).version,
{
    let mime = mime_text_html_utf_8();
    proof {
        lemma_text_html_bytes();
    }
    let content_type = mime_to_header(mime.as_str())?;
    match response.headers.get("content-type") {
        Some(_) => Err(err("html(): response already contains content type header")),
        None => {
            response.headers.append("content-type", content_type);
            Ok(())
        },
    }
}

/// The media type that `guess` sets for `path`: mime_guess's first guess,
/// or `fallback` when it has none.
pub open spec fn guessed_or(path: Seq<char>, fallback: Seq<char>) -> Seq<char> {
    match guessed_mime(path) {
        Some(m) => m,
        None => fallback,
    }
}

/// Guesses the content type of a response from the extension of the request
/// path, when the response has no `Content-Type` field yet; the type is
/// `application/octet-stream` when the extension tells nothing.
pub fn guess(uri: &Uri, response: &mut Response) -> (r: Result<(), Error>)
    ensures
        r is Ok,
        field_get(old(response).headers@, content_type_name()) is None ==> match guessed_mime(uri.spec_path()) {
            Some(m) => final(response).headers@ == field_insert(old(response).headers@, content_type_name(), encode_utf8(m)),
            None => final(response).headers@ == field_insert(old(response).headers@, content_type_name(), encode_utf8(application_octet_stream())),
        },
        field_get(old(response).headers@, content_type_name()) is Some ==> {
            &&& final(response).headers@ == old(response).headers@
            &&& r is Ok
        },
        field_get(old(response).headers@, content_type_name()) is None ==> {
            let m = encode_utf8(guessed_or(uri.spec_path(), application_octet_stream()));
            &&& r is Ok <==> valid_header_bytes(m)
            &&& r is Ok ==> final(response).headers@ == field_insert(old(response).headers@, content_type_name(), m)
            &&& r is Err ==> final(response).headers@ == old(response).headers@ && r->Err_0 is InvalidHeaderValue
        },
        final(response).status == old(response).status,
        final(response).version == old(response).version,
{
    if response.headers.contains_key("content-type") {
        return Ok(());
    }
    let path = uri.path();
    let mime = match guess_mime(path) {
        Some(m) => m,
        None => mime_application_octet_stream(),
    };
    let mime_str = mime.as_str();
    proof {
        lemma_fallback_types_visible();
        lemma_visible_ascii_text(mime_str);
    }
    let content_type = mime_to_header(mime_str)?;
    response.headers.insert("content-type", content_type);
    Ok(())
}


/// After `html` succeeds, the response's content type is
/// `text/html; charset=utf-8`; so a second `html` fails and `guess` leaves
/// that type in place.
pub proof fn law_html_sets_content_type(h: HeaderFields)
    requires
        fields_wf(h),
        field_get(h, content_type_name()) is None,
    ensures
        field_get(field_append(h, content_type_name(), encode_utf8(text_html_utf_8())), content_type_name())
            == Some(encode_utf8(text_html_utf_8())),
        fields_wf(field_append(h, content_type_name(), encode_utf8(text_html_utf_8()))),
{
    lemma_text_html_bytes();
    law_append_then_get(h, content_type_name(), encode_utf8(text_html_utf_8()), content_type_name());
}

/// After `guess` succeeds on a response without a content type, the
/// response's content type is the guessed type; so a later `guess` or `html`
/// finds it in place.
pub proof fn law_guess_sets_content_type(h: HeaderFields, m: Seq<u8>)
    requires
        fields_wf(h),
        valid_header_bytes(m),
    ensures
        field_get(field_insert(h, content_type_name(), m), content_type_name()) == Some(m),
        fields_wf(field_insert(h, content_type_name(), m)),
{
    law_insert_then_get(h, content_type_name(), m, content_type_name());
}


/// The guess is mime_guess's first guess whenever it has one, whatever the
/// type (text types included), and the fallback only when it has none.
pub proof fn law_guessed_type_wins(path: Seq<char>, fallback: Seq<char>)
    ensures
        guessed_mime(path) matches Some(m) ==> guessed_or(path, fallback) == m,
        guessed_mime(path) is None ==> guessed_or(path, fallback) == fallback,
{
}

} // verus!

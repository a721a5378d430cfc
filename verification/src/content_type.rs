//! The `Content-Type` field of the response of a whole message, for the
//! single-handler server: HTML for rendered pages, a guess from the request
//! path otherwise.

use vstd::prelude::*;
use vstd::utf8::encode_utf8;
use crate::error::Error;
use crate::files::content_type::{
    mime_to_header, mime_text_html_utf_8, mime_text_plain_utf_8, guess_mime, text_html_utf_8,
    text_plain_utf_8, guessed_or, guessed_mime, lemma_text_html_bytes,
};
use crate::http::{field_get, field_insert, content_type_name, valid_header_bytes};
use crate::message::Message;

verus! {

/// Sets the content type of the message's response to
/// `text/html; charset=utf-8`, in place of any content type it had.
pub fn html(message: &mut Message) -> (r: Result<(), Error>)
    ensures
        r is Ok,
        final(message).response.headers@ == field_insert(old(message).response.headers@, content_type_name(), encode_utf8(text_html_utf_8())),
        final(message).response.status == old(message).response.status,
        final(message).response.version == old(message).response.version,
        final(message).request == old(message).request,
        final(message).address == old(message).address,
{
    let mime = mime_text_html_utf_8();
    proof {
        lemma_text_html_bytes();
    }
    let content_type = mime_to_header(mime.as_str())?;
    message.response.headers.insert("content-type", content_type);
    Ok(())
}

/// Guesses the content type of the message's response from the extension of
/// its request path, when the response has no `Content-Type` field yet; the
/// type is `text/plain; charset=utf-8` when the extension tells nothing.
pub fn guess(message: &mut Message) -> (r: Result<(), Error>)
    ensures
        r is Ok,
        field_get(old(message).response.headers@, content_type_name()) is None ==> match guessed_mime(old(message).request.uri.spec_path()) {
            Some(m) => final(message).response.headers@ == field_insert(old(message).response.headers@, content_type_name(), encode_utf8(m)),
            None => final(message).response.headers@ == field_insert(old(message).response.headers@, content_type_name(), encode_utf8(text_plain_utf_8())),
        },
        field_get(old(message).response.headers@, content_type_name()) is Some ==> {
            &&& final(message).response.headers@ == old(message).response.headers@
            &&& r is Ok
        },
        field_get(old(message).response.headers@, content_type_name()) is None ==> {
            let m = encode_utf8(guessed_or(old(message).request.uri.spec_path(), text_plain_utf_8()));
            &&& r is Ok <==> valid_header_bytes(m)
            &&& r is Ok ==> final(message).response.headers@ == field_insert(old(message).response.headers@, content_type_name(), m)
            &&& r is Err ==> final(message).response.headers@ == old(message).response.headers@ && r->Err_0 is InvalidHeaderValue
        },
        final(message).response.status == old(message).response.status,
        final(message).response.version == old(message).response.version,
        final(message).request == old(message).request,
        final(message).address == old(message).address,
{
    if message.response.headers.contains_key("content-type") {
        return Ok(());
    }
    let mime = match guess_mime(message.request.uri.path()) {
        Some(m) => m,
        None => mime_text_plain_utf_8(),
    };
    let mime_str = mime.as_str();
    proof {
        crate::files::content_type::lemma_fallback_types_visible();
        crate::http::lemma_visible_ascii_text(mime_str);
    }
    let content_type = mime_to_header(mime_str)?;
    message.response.headers.insert("content-type", content_type);
    Ok(())
}

} // verus!

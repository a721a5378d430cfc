use seagull::files::content_type::{guess, html, mime_to_header};
use seagull::http::{HeaderValue, Response, Uri};
use seagull::message::Message;

fn content_type_of(response: &Response) -> Option<String> {
    response.headers.get("content-type").map(|v| v.to_str().unwrap())
}

#[test]
fn mime_to_header_ok() {
    let header = mime_to_header(mime::APPLICATION_JAVASCRIPT_UTF_8.as_ref()).unwrap();
    assert_eq!(header.to_str().unwrap(), "application/javascript; charset=utf-8");
}

#[test]
fn html_ok() {
    let mut response = Response::default_ok();
    html(&mut response).unwrap();
    match response.headers.get("content-type") {
        Some(value) => {
            assert_eq!(value.to_str().unwrap(), "text/html; charset=utf-8");
        }
        None => panic!("no content type"),
    }
}

#[test]
fn html_err() {
    let mut response = Response::default_ok();
    response.headers.append(
        "content-type",
        mime_to_header(mime::APPLICATION_JAVASCRIPT_UTF_8.as_ref()).unwrap(),
    );
    match html(&mut response) {
        Ok(_) => panic!("html accepted a response that had a content type"),
        Err(_) => (),
    }
}

#[test]
fn guess_ok() {
    let uri = Uri::parse("/index.js").unwrap();
    let mut response = Response::default_ok();
    guess(&uri, &mut response).unwrap();
    match response.headers.get("content-type") {
        Some(value) => {
            assert_eq!(value.to_str().unwrap(), "application/javascript");
        }
        None => panic!("no content type"),
    }
}

#[test]
fn html_err_keeps_fields_and_message() {
    let mut response = Response::default_ok();
    response.headers.append("content-type", HeaderValue::from_str("text/css").unwrap());
    match html(&mut response) {
        Err(seagull::error::Error::Message(m)) => {
            assert_eq!(m, "html(): response already contains content type header")
        }
        _ => panic!("expected the conflict error"),
    }
    assert_eq!(response.headers.len(), 1);
    assert_eq!(content_type_of(&response).unwrap(), "text/css");
}

#[test]
fn html_twice_fails_second_time() {
    let mut response = Response::default_ok();
    assert!(html(&mut response).is_ok());
    assert!(html(&mut response).is_err());
    assert_eq!(response.headers.value_count_at(0), 1);
}

#[test]
fn guess_keeps_existing_content_type() {
    let uri = Uri::parse("/style.css").unwrap();
    let mut response = Response::default_ok();
    html(&mut response).unwrap();
    guess(&uri, &mut response).unwrap();
    assert_eq!(content_type_of(&response).unwrap(), "text/html; charset=utf-8");
}

#[test]
fn guess_unknown_extension_is_octet_stream() {
    let uri = Uri::parse("/archive.unknownext").unwrap();
    let mut response = Response::default_ok();
    guess(&uri, &mut response).unwrap();
    assert_eq!(content_type_of(&response).unwrap(), "application/octet-stream");
    let uri = Uri::parse("/no_extension").unwrap();
    let mut response = Response::default_ok();
    guess(&uri, &mut response).unwrap();
    assert_eq!(content_type_of(&response).unwrap(), "application/octet-stream");
}

#[test]
fn guess_by_extension() {
    let uri = Uri::parse("/images/logo.png?size=2").unwrap();
    let mut response = Response::default_ok();
    guess(&uri, &mut response).unwrap();
    assert_eq!(content_type_of(&response).unwrap(), "image/png");
}

#[test]
fn mime_to_header_rejects_control_bytes() {
    assert!(mime_to_header("text/plain\n").is_err());
}

#[test]
fn message_html_sets_and_guess_falls_back_to_plain_text() {
    let mut message = Message::default();
    message.response.headers.append("content-type", HeaderValue::from_str("text/css").unwrap());
    message.response.headers.append("content-type", HeaderValue::from_str("text/x").unwrap());
    seagull::content_type::html(&mut message).unwrap();
    seagull::content_type::html(&mut message).unwrap();
    assert_eq!(message.response.headers.value_count_at(0), 1);
    assert_eq!(content_type_of(&message.response).unwrap(), "text/html; charset=utf-8");

    let mut message = Message::default();
    message.request.uri = Uri::parse("/README").unwrap();
    seagull::content_type::guess(&mut message).unwrap();
    assert_eq!(content_type_of(&message.response).unwrap(), "text/plain; charset=utf-8");

    let mut message = Message::default();
    message.request.uri = Uri::parse("/app.js").unwrap();
    seagull::content_type::guess(&mut message).unwrap();
    assert_eq!(content_type_of(&message.response).unwrap(), "application/javascript");
}

use seagull::http::{HeaderValue, IpAddress, Method, Request, Response, SocketAddress, Uri};
use seagull::message::Message;

#[test]
fn new_then_done_gives_the_response() {
    let mut response = Response::default_ok();
    response.status = 404;
    response.headers.insert("x", HeaderValue::from_str("y").unwrap());
    let address = SocketAddress { ip: IpAddress::V4([10, 0, 0, 1]), port: 1234 };
    let message = Message::new(Request::default_get(), response, address);
    assert_eq!(message.address.port, 1234);
    let done = message.done();
    assert_eq!(done.status, 404);
    assert_eq!(done.headers.get("x").unwrap().to_str().unwrap(), "y");
}

#[test]
fn default_message() {
    let m = Message::default();
    assert!(matches!(m.address.ip, IpAddress::V4([127, 0, 0, 1])));
    assert_eq!(m.address.port, 8787);
    assert_eq!(m.response.status, 200);
    assert_eq!(m.request.uri.path(), "/");
    assert_eq!(m.request.uri.as_str(), "/");
    assert_eq!(m.request.version, seagull::http::Version::Http11);
    assert_eq!(m.response.version, seagull::http::Version::Http11);
    assert_eq!(m.request.headers.len(), 0);
    assert_eq!(m.response.headers.len(), 0);
}

#[test]
fn clone_copies_everything() {
    let mut m = Message::default();
    m.request.method = Method::Extension("PURGE".to_string());
    m.request.uri = Uri::parse("/x?y").unwrap();
    m.request.headers.append("accept", HeaderValue::from_str("a").unwrap());
    m.request.headers.append("accept", HeaderValue::from_str("b").unwrap());
    m.response.status = 304;
    let c = m.clone();
    assert!(matches!(&c.request.method, Method::Extension(n) if n == "PURGE"));
    assert_eq!(c.request.uri.as_str(), "/x?y");
    assert_eq!(c.request.headers.value_count_at(0), 2);
    assert_eq!(c.response.status, 304);
    assert_eq!(c.address.port, 8787);
}

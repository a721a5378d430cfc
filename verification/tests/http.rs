use seagull::http::{HeaderMap, HeaderValue, Method, Request, Response, Uri, Version};

#[test]
fn header_value_from_str_and_to_str() {
    let v = HeaderValue::from_str("max-age=0").unwrap();
    assert_eq!(v.as_bytes(), b"max-age=0");
    assert_eq!(v.to_str().unwrap(), "max-age=0");
    assert!(HeaderValue::from_str("a\nb").is_err());
    assert!(HeaderValue::from_str("a\u{7f}").is_err());
    let tab = HeaderValue::from_str("a\tb").unwrap();
    assert_eq!(tab.to_str().unwrap(), "a\tb");
}

#[test]
fn header_value_opaque_bytes_have_no_text() {
    let v = HeaderValue::from_str("café").unwrap();
    assert_eq!(v.as_bytes(), "café".as_bytes());
    assert!(v.to_str().is_none());
    let w = HeaderValue::from_bytes(&[b'a', 0xfa]).unwrap();
    assert!(w.to_str().is_none());
    assert!(HeaderValue::from_bytes(&[0x00]).is_err());
    assert_eq!(HeaderValue::from_static("x").to_str().unwrap(), "x");
}

#[test]
fn header_map_insert_append_get() {
    let mut h = HeaderMap::new();
    assert!(!h.contains_key("a"));
    h.append("a", HeaderValue::from_str("1").unwrap());
    h.append("b", HeaderValue::from_str("2").unwrap());
    h.append("a", HeaderValue::from_str("3").unwrap());
    assert_eq!(h.len(), 2);
    assert_eq!(h.value_count_at(0), 2);
    assert_eq!(h.get("a").unwrap().to_str().unwrap(), "1");
    assert_eq!(h.value_at(0, 1).to_str().unwrap(), "3");
    h.insert("a", HeaderValue::from_str("4").unwrap());
    assert_eq!(h.value_count_at(0), 1);
    assert_eq!(h.get("a").unwrap().to_str().unwrap(), "4");
    assert_eq!(h.name_at(0), "a");
    assert_eq!(h.name_at(1), "b");
    h.insert("c", HeaderValue::from_str("5").unwrap());
    assert_eq!(h.name_at(2), "c");
    let d = h.duplicate();
    assert_eq!(d.len(), 3);
    assert_eq!(d.get("b").unwrap().to_str().unwrap(), "2");
    assert!(h.get("z").is_none());
}

#[test]
fn uri_parse_and_defaults() {
    let u = Uri::parse("http://example.com/a/b?q=1").unwrap();
    assert_eq!(u.path(), "/a/b");
    assert_eq!(u.as_str(), "http://example.com/a/b?q=1");
    assert!(Uri::parse("http://[::1").is_none());
    let r = Request::default_get();
    assert!(matches!(r.method, Method::Get));
    assert_eq!(r.uri.path(), "/");
    assert_eq!(r.version, Version::Http11);
    let s = Response::default_ok();
    assert_eq!(s.status, 200);
    assert_eq!(s.headers.len(), 0);
}

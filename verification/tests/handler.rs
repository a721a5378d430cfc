use seagull::error::{err, Error};
use seagull::graphql::{gql_schema, schema};
use seagull::handler::{
    check_ssr_status, dispatch, esbuild_serves_file, esbuild_url, internal_error_text, pathname,
    page_source, route, ssr_url, upstream_is_file, PageSource, Route,
};
use seagull::http::{HeaderValue, Method, Uri, NOT_FOUND, OK};
use seagull::message::Message;

#[test]
fn pathname_strips_one_slash() {
    assert_eq!(pathname("/image.png"), "image.png");
    assert_eq!(pathname("//a"), "/a");
    assert_eq!(pathname("plain"), "plain");
    assert_eq!(pathname(""), "");
    assert_eq!(pathname("/"), "");
}

#[test]
fn upstream_addresses() {
    assert_eq!(esbuild_url("app.js"), "http://localhost:3080/app.js");
    assert_eq!(ssr_url("about"), "http://localhost:3737/about");
}

#[test]
fn esbuild_file_decision() {
    let html = HeaderValue::from_str("text/html; charset=utf-8").unwrap();
    let js = HeaderValue::from_str("application/javascript").unwrap();
    let opaque = HeaderValue::from_bytes(&[0xff]).unwrap();
    assert_eq!(esbuild_serves_file(OK, Some(&js)).unwrap(), true);
    assert_eq!(esbuild_serves_file(OK, Some(&html)).unwrap(), false);
    assert_eq!(esbuild_serves_file(404, Some(&js)).unwrap(), false);
    assert_eq!(esbuild_serves_file(OK, None).unwrap(), false);
    assert!(matches!(esbuild_serves_file(OK, Some(&opaque)), Err(Error::HeaderToStr)));
    assert_eq!(upstream_is_file(None).unwrap(), true);
    assert_eq!(upstream_is_file(Some(&html)).unwrap(), false);
    assert_eq!(upstream_is_file(Some(&js)).unwrap(), true);
    assert!(upstream_is_file(Some(&opaque)).is_err());
}

#[test]
fn ssr_status_and_error_text() {
    assert!(check_ssr_status(200).is_ok());
    match check_ssr_status(502) {
        Err(Error::Message(m)) => assert_eq!(m, "Failed to fetch React SSR"),
        _ => panic!("expected the SSR error"),
    }
    assert_eq!(internal_error_text("boom"), "500 Internal Server Error: boom");
    assert!(matches!(err("x"), Error::Message(m) if m == "x"));
}

#[test]
fn routes() {
    assert_eq!(route(&Method::Get, "/graphql"), Route::GraphiQL);
    assert_eq!(route(&Method::Post, "/graphql"), Route::GraphQL);
    assert_eq!(route(&Method::Post, "/auth"), Route::Auth);
    assert_eq!(route(&Method::Get, "/index.html"), Route::Page);
    assert_eq!(route(&Method::Get, "/auth"), Route::Page);
    assert_eq!(route(&Method::Post, "/other"), Route::NotFound);
    assert_eq!(route(&Method::Delete, "/graphql"), Route::NotFound);
}

#[test]
fn dispatch_sets_not_found() {
    let mut m = Message::default();
    m.request.method = Method::Put;
    m.request.uri = Uri::parse("/x").unwrap();
    assert_eq!(dispatch(&mut m), Route::NotFound);
    assert_eq!(m.response.status, NOT_FOUND);
    let mut m = Message::default();
    assert_eq!(dispatch(&mut m), Route::Page);
    assert_eq!(m.response.status, OK);
}

#[test]
fn graphql_roots() {
    let _ = gql_schema::Query::new();
    let _ = schema::Query::new();
    assert_eq!(gql_schema::Query::penis(), "penile world");
}

#[test]
fn pathname_restores_path() {
    for p in ["/a/b.png", "/", "//x"] {
        assert_eq!(format!("/{}", pathname(p)), p);
    }
}

#[test]
fn page_source_cases() {
    assert_eq!(page_source(Some(true)), PageSource::File);
    assert_eq!(page_source(Some(false)), PageSource::Page);
    assert_eq!(page_source(None), PageSource::Page);
}

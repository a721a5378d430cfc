//! The decisions of the request handlers: which route a request takes, the
//! file path and the upstream address a page request maps to, when an
//! upstream response is a file rather than a page, and the text of an
//! internal error. The fetching and file reading around these decisions is
//! done by the application.

use vstd::prelude::*;
use vstd::string::*;
use crate::error::{Error, err};
use crate::http::{HeaderValue, Method, header_text, NOT_FOUND, OK};
use crate::message::Message;
use crate::text::{concat_str, starts_with, starts_with_spec};

verus! {

broadcast use vstd::string::group_string_axioms;

/// A request path without its leading `/` (`/image.png` becomes
/// `image.png`); a path without one stays as it is.
pub open spec fn pathname_spec(path: Seq<char>) -> Seq<char> {
    if path.len() > 0 && path[0] == '/' {
        path.drop_first()
    } else {
        path
    }
}

/// A path that starts with `/` is that `/` followed by its pathname.
pub proof fn law_pathname_restores(path: Seq<char>)
    requires
        path.len() > 0,
        path[0] == '/',
    ensures
        seq!['/'] + pathname_spec(path) == path,
{
    assert(seq!['/'] + pathname_spec(path) =~= path);
}

/// The request path without its leading `/`.
pub fn pathname(uri_path: &str) -> (r: String)
    ensures
        r@ == pathname_spec(uri_path@),
{
    let n = uri_path.unicode_len();
    if n > 0 && uri_path.get_char(0) == '/' {
        let rest = uri_path.substring_char(1, n);
        assert(rest@ =~= uri_path@.drop_first());
        String::from_str(rest)
    } else {
        String::from_str(uri_path)
    }
}

/// The address of the development bundler that serves `pathname`.
pub open spec fn esbuild_url_spec(pathname: Seq<char>) -> Seq<char> {
    "http://localhost:3080/"@ + pathname
}

/// The address of the development bundler that serves `pathname`.
pub fn esbuild_url(pathname: &str) -> (r: String)
    ensures
        r@ == esbuild_url_spec(pathname@),
{
    concat_str("http://localhost:3080/", pathname)
}

/// The address of the server-side renderer that renders `pathname`.
pub open spec fn ssr_url_spec(pathname: Seq<char>) -> Seq<char> {
    "http://localhost:3737/"@ + pathname
}

/// The address of the server-side renderer that renders `pathname`.
pub fn ssr_url(pathname: &str) -> (r: String)
    ensures
        r@ == ssr_url_spec(pathname@),
{
    concat_str("http://localhost:3737/", pathname)
}

/// The prefix of the content type of a rendered page.
pub open spec fn text_html_prefix() -> Seq<char> {
    "text/html"@
}

/// Whether a `Content-Type` value names an HTML page: `None` when the value
/// is not visible ASCII, else whether it starts with `text/html`.
pub open spec fn names_html(v: Seq<u8>) -> Option<bool> {
    match header_text(v) {
        Some(t) => Some(starts_with_spec(t, text_html_prefix())),
        None => None,
    }
}

fn is_html_type(content_type: &HeaderValue) -> (r: Result<bool, Error>)
    ensures
        names_html(content_type@) matches Some(b) ==> r == Ok::<bool, Error>(b),
        names_html(content_type@) is None ==> r matches Err(Error::HeaderToStr),
{
    match content_type.to_str() {
        Some(text) => Ok(starts_with(text.as_str(), "text/html")),
        None => Err(Error::HeaderToStr),
    }
}

/// A content type names an HTML page exactly when its text begins with the
/// nine characters `text/html`; any other text type (`text/css`,
/// `text/plain`, ...) is a file.
pub proof fn law_html_by_prefix(v: Seq<u8>)
    ensures
        header_text(v) matches Some(x) ==> (names_html(v) == Some(
            x.len() >= 9 && x.subrange(0, 9) == seq!['t', 'e', 'x', 't', '/', 'h', 't', 'm', 'l'],
        )),
        header_text(v) is None ==> names_html(v) is None,
{
    reveal_strlit("text/html");
    assert(text_html_prefix() =~= seq!['t', 'e', 'x', 't', '/', 'h', 't', 'm', 'l']);
}

/// Whether the development bundler answered with a file (to be passed on)
/// rather than with its page: a status-200 answer whose content type is not
/// HTML. A content type that is not visible ASCII is an error.
pub fn esbuild_serves_file(status: u16, content_type: Option<&HeaderValue>) -> (r: Result<bool, Error>)
    ensures
        status != OK || content_type is None ==> r == Ok::<bool, Error>(false),
        status == OK ==> (content_type matches Some(ct) ==> match names_html(ct@) {
            Some(html) => r == Ok::<bool, Error>(!html),
            None => r matches Err(Error::HeaderToStr),
        }),
{
    match content_type {
        Some(ct) => {
            if status == OK {
                let html = is_html_type(ct)?;
                Ok(!html)
            } else {
                Ok(false)
            }
        },
        None => Ok(false),
    }
}

/// Whether the upstream answer of the single-handler server is a file
/// rather than a page: any answer without a content type, or one whose type
/// is not HTML. A content type that is not visible ASCII is an error.
pub fn upstream_is_file(content_type: Option<&HeaderValue>) -> (r: Result<bool, Error>)
    ensures
        content_type is None ==> r == Ok::<bool, Error>(true),
        content_type matches Some(ct) ==> match names_html(ct@) {
            Some(html) => r == Ok::<bool, Error>(!html),
            None => r matches Err(Error::HeaderToStr),
        },
{
    match content_type {
        Some(ct) => {
            let html = is_html_type(ct)?;
            Ok(!html)
        },
        None => Ok(true),
    }
}

/// Where the body of a page request comes from.
#[derive(Debug, PartialEq, Eq, Structural)]
pub enum PageSource {
    /// The file at the request's path.
    File,
    /// The page that renders the application (`index.html` or the renderer).
    Page,
}

/// The source of a page request's body, by what the file system says of
/// the request's path: the file when a regular file is there, the page
/// otherwise (a directory, or nothing that can be read; `None`).
pub fn page_source(is_file: Option<bool>) -> (r: PageSource)
    ensures
        is_file == Some(true) ==> r == PageSource::File,
        is_file != Some(true) ==> r == PageSource::Page,
{
    match is_file {
        Some(true) => PageSource::File,
        _ => PageSource::Page,
    }
}

/// The message of the error for a failed server-side rendering.
pub open spec fn ssr_failure_message() -> Seq<char> {
    "Failed to fetch React SSR"@
}

/// Accepts the renderer's answer only with status 200.
pub fn check_ssr_status(status: u16) -> (r: Result<(), Error>)
    ensures
        status == OK ==> r is Ok,
        status != OK ==> (r matches Err(Error::Message(m)) && m@ == ssr_failure_message()),
{
    if status != OK {
        return Err(err("Failed to fetch React SSR"));
    }
    Ok(())
}

/// The body of the response to a request whose handling failed.
pub open spec fn internal_error_text_spec(description: Seq<char>) -> Seq<char> {
    "500 Internal Server Error: "@ + description
}

/// The body of the response to a request whose handling failed:
/// `500 Internal Server Error: ` and what went wrong.
pub fn internal_error_text(description: &str) -> (r: String)
    ensures
        r@ == internal_error_text_spec(description@),
{
    concat_str("500 Internal Server Error: ", description)
}

/// Where the single-handler server sends a request.
#[derive(Debug, PartialEq, Eq, Structural)]
pub enum Route {
    /// `GET /graphql`: the GraphiQL page.
    GraphiQL,
    /// `POST /graphql`: a GraphQL query.
    GraphQL,
    /// `POST /auth`: authentication, which does nothing yet.
    Auth,
    /// Any other `GET`: a static file or a rendered page.
    Page,
    /// Anything else: status 404.
    NotFound,
}

/// The route of a request by its method and path.
pub open spec fn route_spec(method: Method, path: Seq<char>) -> Route {
    if method == Method::Get && path == "/graphql"@ {
        Route::GraphiQL
    } else if method == Method::Post && path == "/graphql"@ {
        Route::GraphQL
    } else if method == Method::Post && path == "/auth"@ {
        Route::Auth
    } else if method == Method::Get {
        Route::Page
    } else {
        Route::NotFound
    }
}

/// Every `GET` takes the page route except `GET /graphql`, whatever its
/// path (nested paths included); a request is not found exactly when it is
/// neither a `GET` nor a `POST` to `/graphql` or `/auth`.
pub proof fn law_route_table(method: Method, path: Seq<char>)
    ensures
        method == Method::Get && path != "/graphql"@ ==> route_spec(method, path) == Route::Page,
        method == Method::Get && path == "/graphql"@ ==> route_spec(method, path) == Route::GraphiQL,
        method == Method::Post && path == "/graphql"@ ==> route_spec(method, path) == Route::GraphQL,
        method == Method::Post && path == "/auth"@ ==> route_spec(method, path) == Route::Auth,
        (route_spec(method, path) == Route::NotFound) <==> (method != Method::Get && !(method == Method::Post
            && (path == "/graphql"@ || path == "/auth"@))),
{
    reveal_strlit("/auth");
    reveal_strlit("/graphql");
    assert("/auth"@.len() != "/graphql"@.len());
}

/// The route of a request by its method and path.
pub fn route(method: &Method, path: &str) -> (r: Route)
    ensures
        r == route_spec(*method, path@),
{
    let is_get = match method {
        Method::Get => true,
        _ => false,
    };
    let is_post = match method {
        Method::Post => true,
        _ => false,
    };
    if is_get && crate::text::str_eq(path, "/graphql") {
        Route::GraphiQL
    } else if is_post && crate::text::str_eq(path, "/graphql") {
        Route::GraphQL
    } else if is_post && crate::text::str_eq(path, "/auth") {
        Route::Auth
    } else if is_get {
        Route::Page
    } else {
        Route::NotFound
    }
}

/// Routes a message of the single-handler server; a request that no route
/// takes gets status 404.
pub fn dispatch(message: &mut Message) -> (r: Route)
    ensures
        r == route_spec(old(message).request.method, old(message).request.uri.spec_path()),
        r is NotFound ==> final(message).response.status == NOT_FOUND,
        !(r is NotFound) ==> final(message).response.status == old(message).response.status,
        final(message).response.headers@ == old(message).response.headers@,
        final(message).response.version == old(message).response.version,
        final(message).request == old(message).request,
        final(message).address == old(message).address,
{
    let r = route(&message.request.method, message.request.uri.path());
    match r {
        Route::NotFound => {
            message.response.status = NOT_FOUND;
        },
        _ => {},
    }
    r
}

} // verus!

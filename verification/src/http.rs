//! The service in front of the converter: which request asks for what, and
//! what the answers carry.

use crate::text::{has_prefix, push_str, starts_with, to_chars, to_string, chars_eq_str};
use vstd::prelude::*;

verus! {

/// The method of a request.
#[derive(Debug, Clone, Copy, PartialEq, Eq, Structural)]
pub enum Method {
    Get,
    Post,
    Options,
    Other,
}

/// What a request asks for.
#[derive(Debug, Clone, Copy, PartialEq, Eq, Structural)]
pub enum Route {
    /// A pre-flight request.
    Preflight,
    /// The icon of the site: there is none.
    Favicon,
    /// A crawl; the request is in the body.
    Crawl,
    /// The conversion of the page whose address is the path after its slash,
    /// or the `url` of the query.
    ConvertPath,
    /// The notes on usage.
    Usage,
    /// The conversion of one page; the request is in the body.
    Convert,
    NotFound,
}

/// Whether the path holds an address after its slash.
pub open spec fn holds_address(path: Seq<char>) -> bool {
    has_prefix(path, "/http://"@) || has_prefix(path, "/https://"@)
}

/// What a request with `method` for `path` asks for; `has_query` says whether
/// the request names an address in its query.
pub open spec fn route_of(method: Method, path: Seq<char>, has_query: bool) -> Route {
    if method == Method::Options {
        Route::Preflight
    } else if path == "/favicon.ico"@ {
        Route::Favicon
    } else if method == Method::Post && path == "/crawl"@ {
        Route::Crawl
    } else if method == Method::Get && (holds_address(path) || has_query) {
        Route::ConvertPath
    } else if method == Method::Get && path == "/"@ {
        Route::Usage
    } else if method == Method::Post && path == "/"@ {
        Route::Convert
    } else {
        Route::NotFound
    }
}

/// What a request with `method` for `path` asks for; `query_url` is the
/// address that the request names in its query, if it names one.
pub fn route(method: Method, path: &str, query_url: Option<&str>) -> (r: Route)
    ensures
        r == route_of(method, path@, query_url is Some),
{
    let p = to_chars(path);
    if method == Method::Options {
        Route::Preflight
    } else if chars_eq_str(&p, "/favicon.ico") {
        Route::Favicon
    } else if method == Method::Post && chars_eq_str(&p, "/crawl") {
        Route::Crawl
    } else if method == Method::Get && (starts_with(&p, &to_chars("/http://")) || starts_with(
        &p,
        &to_chars("/https://"),
    ) || query_url.is_some()) {
        Route::ConvertPath
    } else if method == Method::Get && chars_eq_str(&p, "/") {
        Route::Usage
    } else if method == Method::Post && chars_eq_str(&p, "/") {
        Route::Convert
    } else {
        Route::NotFound
    }
}

/// The address of the page that a request for `path` asks to convert: the
/// one in the path, where the path holds one, else the one in the query.
pub open spec fn requested_address(path: Seq<char>, query_url: Option<Seq<char>>) -> Seq<char> {
    if holds_address(path) {
        target_of(path)
    } else {
        match query_url {
            Some(url) => url,
            None => target_of(path),
        }
    }
}

/// The address of the page that a request for `path` asks to convert.
pub fn request_target(path: &str, query_url: Option<&str>) -> (target: String)
    ensures
        target@ == requested_address(path@, query_url.deep_view()),
{
    let p = to_chars(path);
    if starts_with(&p, &to_chars("/http://")) || starts_with(&p, &to_chars("/https://")) {
        path_target(path)
    } else {
        match query_url {
            Some(url) => url.to_owned(),
            None => path_target(path),
        }
    }
}

/// The address that a path holds: the path without the slash at its start.
pub open spec fn target_of(path: Seq<char>) -> Seq<char> {
    if path.len() > 0 && path[0] == '/' {
        path.skip(1)
    } else {
        path
    }
}

/// The address that a path holds.
pub fn path_target(path: &str) -> (target: String)
    ensures
        target@ == target_of(path@),
{
    let p = to_chars(path);
    if p.len() > 0 && p[0] == '/' {
        let mut t: Vec<char> = Vec::new();
        let mut i: usize = 1;
        while i < p.len()
            invariant
                1 <= i <= p.len(),
                t@ == p@.subrange(1, i as int),
            decreases p.len() - i,
        {
            t.push(p[i]);
            i += 1;
        }
        to_string(&t)
    } else {
        to_string(&p)
    }
}

/// The texts `pages[i..]`, each but the very first after a rule of its own.
pub open spec fn joined_pages_from(pages: Seq<Seq<char>>, i: int) -> Seq<char>
    decreases pages.len() - i,
{
    if !(0 <= i < pages.len()) {
        Seq::empty()
    } else if i == 0 {
        pages[i] + joined_pages_from(pages, i + 1)
    } else {
        "\n\n---\n\n"@ + pages[i] + joined_pages_from(pages, i + 1)
    }
}

/// The body of the answer to a crawl: the pages, with a rule between each two,
/// or a note where there is no page.
pub open spec fn crawl_body(pages: Seq<Seq<char>>) -> Seq<char> {
    if pages.len() == 0 {
        "Crawl completed, but no results were generated."@
    } else {
        joined_pages_from(pages, 0)
    }
}

/// The body of the answer to a crawl that gave `pages`.
pub fn crawl_response_body(pages: &Vec<String>) -> (body: String)
    ensures
        body@ == crawl_body(pages.deep_view()),
{
    let mut buf: Vec<char> = Vec::new();
    if pages.len() == 0 {
        push_str(&mut buf, "Crawl completed, but no results were generated.");
        return to_string(&buf);
    }
    let mut i: usize = 0;
    while i < pages.len()
        invariant
            i <= pages.len(),
            buf@ + joined_pages_from(pages.deep_view(), i as int) == joined_pages_from(
                pages.deep_view(),
                0,
            ),
        decreases pages.len() - i,
    {
        let ghost before = buf@;
        let ghost rest = joined_pages_from(pages.deep_view(), i as int);
        if i > 0 {
            push_str(&mut buf, "\n\n---\n\n");
        }
        push_str(&mut buf, pages[i].as_str());
        i += 1;
        assert(buf@ + joined_pages_from(pages.deep_view(), i as int) == before + rest);
    }
    assert(buf@ + Seq::<char>::empty() == buf@);
    to_string(&buf)
}

/// A header of an answer.
#[derive(Debug)]
pub struct Header {
    pub name: String,
    pub value: String,
}

impl DeepView for Header {
    type V = (Seq<char>, Seq<char>);

    open spec fn deep_view(&self) -> (Seq<char>, Seq<char>) {
        (self.name@, self.value@)
    }
}

/// The headers that let pages of any origin use the service. The answer to a
/// pre-flight request also says for how long it may be kept: a day.
pub open spec fn cors_headers_of(preflight: bool) -> Seq<(Seq<char>, Seq<char>)> {
    let always = seq![
        ("Access-Control-Allow-Origin"@, "*"@),
        ("Access-Control-Allow-Methods"@, "GET, POST, OPTIONS"@),
        ("Access-Control-Allow-Headers"@, "Content-Type"@),
    ];
    if preflight {
        always.push(("Access-Control-Max-Age"@, "86400"@))
    } else {
        always
    }
}

/// The headers that let pages of any origin use the service.
pub fn cors_headers(preflight: bool) -> (headers: Vec<Header>)
    ensures
        headers.deep_view() == cors_headers_of(preflight),
{
    let mut headers: Vec<Header> = Vec::new();
    headers.push(
        Header { name: "Access-Control-Allow-Origin".to_owned(), value: "*".to_owned() },
    );
    headers.push(
        Header {
            name: "Access-Control-Allow-Methods".to_owned(),
            value: "GET, POST, OPTIONS".to_owned(),
        },
    );
    headers.push(
        Header { name: "Access-Control-Allow-Headers".to_owned(), value: "Content-Type".to_owned() },
    );
    if preflight {
        headers.push(Header { name: "Access-Control-Max-Age".to_owned(), value: "86400".to_owned() });
    }
    assert(headers.deep_view() =~= cors_headers_of(preflight));
    headers
}

} // verus!

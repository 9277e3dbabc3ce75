use rebar::headers::{HeaderMethods, Headers};
use rebar::parse::{get_http_version, get_method, get_path, internal_parse};
use rebar::path::normalize;
use rebar::types::{HttpParseError, HttpVersion, Method, Request};

#[test]
fn it_gets_method() {
    assert_eq!(get_method(None), Err(HttpParseError::InvalidMethod));
    assert_eq!(get_method(Some(" ")), Err(HttpParseError::InvalidMethod));
    assert_eq!(get_method(Some("")), Err(HttpParseError::InvalidMethod));
    assert_eq!(get_method(Some("get")), Err(HttpParseError::InvalidMethod));
    assert_eq!(get_method(Some("pUt")), Err(HttpParseError::InvalidMethod));
    assert_eq!(get_method(Some("rand")), Err(HttpParseError::InvalidMethod));

    assert_eq!(get_method(Some("GET")), Ok(Method::Get));
    assert_eq!(get_method(Some("POST")), Ok(Method::Post));
    assert_eq!(get_method(Some("PATCH")), Ok(Method::Patch));
    assert_eq!(get_method(Some("DELETE")), Ok(Method::Delete));
    assert_eq!(get_method(Some("PUT")), Ok(Method::Put));
    assert_eq!(get_method(Some("OPTIONS")), Ok(Method::Options));
    assert_eq!(get_method(Some("HEAD")), Ok(Method::Head));
}

#[test]
fn it_gets_path() {
    assert_eq!(get_path(None), Err(HttpParseError::InvalidPath));
    assert_eq!(get_path(Some("")), Err(HttpParseError::InvalidPath));

    assert_eq!(
        get_path(Some("/a/path/")),
        Ok(("/a/path/".to_owned(), None, None))
    );

    assert_eq!(
        get_path(Some("/a/path")),
        Ok(("/a/path/".to_owned(), None, None))
    );

    assert_eq!(
        get_path(Some("/a/path#hmm")),
        Ok(("/a/path/".to_owned(), None, Some("hmm".to_owned())))
    );

    assert_eq!(
        get_path(Some("/a/path?hmm=ok#hmm")),
        Ok((
            "/a/path/".to_owned(),
            Some("hmm=ok".to_owned()),
            Some("hmm".to_owned())
        ))
    );

    assert_eq!(
        get_path(Some("/a/path?hmm=ok")),
        Ok(("/a/path/".to_owned(), Some("hmm=ok".to_owned()), None))
    );
}

#[test]
fn it_constructs_request() {
    assert_eq!(
        internal_parse("".to_owned()),
        Err(HttpParseError::InvalidMethod)
    );
    assert_eq!(
        internal_parse("g".to_owned()),
        Err(HttpParseError::InvalidMethod)
    );

    assert_eq!(
        internal_parse("GET".to_owned()),
        Err(HttpParseError::InvalidPath)
    );
    assert_eq!(
        internal_parse("GET   ".to_owned()),
        Err(HttpParseError::InvalidPath)
    );
    assert_eq!(
        internal_parse("GET /path".to_owned()),
        Err(HttpParseError::InvalidHttpVersion)
    );
    assert_eq!(
        internal_parse("GET /path HTTP/1.0".to_owned()),
        Err(HttpParseError::InvalidHttpVersion)
    );

    assert_eq!(
        internal_parse("GET /path HTTP/1.1".to_owned()),
        Ok(Request {
            method: Method::Get,
            path: "/path/".to_owned(),
            query: None,
            fragment: None,
            http_version: HttpVersion::Http1_1,

            headers: Headers::new(),

            body: None,
        })
    );

    assert_eq!(
        internal_parse("GET /path?ok=1 HTTP/1.1".to_owned()),
        Ok(Request {
            method: Method::Get,
            path: "/path/".to_owned(),
            query: Some("ok=1".to_owned()),
            fragment: None,
            http_version: HttpVersion::Http1_1,

            headers: Headers::new(),

            body: None,
        })
    );
}

#[test]
fn it_constructs_more_requests_but_with_headers() {
    let mut headers = Headers::new();
    headers
        .set_header("Content-Type", "text/html; charset=utf-8")
        .set_header("Host", "www.example.com");

    assert_eq!(
        internal_parse(
            "GET /path?ok=1 HTTP/1.1\r\nContent-Type:text/html; charset=utf-8\r\nHost: www.example.com\r\n\r\n"
                .to_owned()
        ),
        Ok(Request {
            method: Method::Get,
            path: "/path/".to_owned(),
            query: Some("ok=1".to_owned()),
            fragment: None,
            http_version: HttpVersion::Http1_1,

            headers,

            body: None,
        })
    );

    let mut headers = Headers::new();
    headers
        .set_header("Content-Type", "text/html; charset=utf-8")
        .set_header("Host", "www.example.com");

    assert_eq!(
        internal_parse(
            "POST /path?ok=1 HTTP/1.1\r\nContent-Type:text/html; charset=utf-8\r\nHost: www.example.com\r\n\r\nok\r\n\r\nhmm"
                .to_owned()
        ),
        Ok(Request {
            method: Method::Post,
            path: "/path/".to_owned(),
            query: Some("ok=1".to_owned()),
            fragment: None,
            http_version: HttpVersion::Http1_1,

            headers,

            body: Some("ok\r\n\r\nhmm".to_owned()),
        })
    );
}

#[test]
fn parses_plain_request_with_blank_line() {
    let req = internal_parse("GET /path HTTP/1.1\r\n\r\n".to_owned()).unwrap();
    assert_eq!(
        req,
        Request {
            method: Method::Get,
            path: "/path/".to_owned(),
            query: None,
            fragment: None,
            http_version: HttpVersion::Http1_1,
            headers: Headers::new(),
            body: None,
        }
    );
}

#[test]
fn parses_query() {
    let req = internal_parse("GET /path?ok=1 HTTP/1.1\r\n\r\n".to_owned()).unwrap();
    assert_eq!(req.path, "/path/");
    assert_eq!(req.query, Some("ok=1".to_owned()));
    assert_eq!(req.fragment, None);
}

#[test]
fn parses_query_and_fragment() {
    let req = internal_parse("GET /path?hmm=ok#frag HTTP/1.1\r\n\r\n".to_owned()).unwrap();
    assert_eq!(req.path, "/path/");
    assert_eq!(req.query, Some("hmm=ok".to_owned()));
    assert_eq!(req.fragment, Some("frag".to_owned()));
}

#[test]
fn parses_headers_in_lower_case() {
    let req = internal_parse(
        "GET / HTTP/1.1\r\nContent-Type:text/html; charset=utf-8\r\nHost: www.example.com\r\n\r\n"
            .to_owned(),
    )
    .unwrap();
    assert_eq!(
        req.headers.get_header("content-type"),
        Some(&"text/html; charset=utf-8".to_owned())
    );
    assert_eq!(req.headers.get_header("host"), Some(&"www.example.com".to_owned()));
    assert_eq!(req.headers.len(), 2);
    assert_eq!(req.path, "/");
}

#[test]
fn parses_http2_and_other_methods() {
    let req = internal_parse("DELETE /x/y HTTP/2.0\r\n\r\n".to_owned()).unwrap();
    assert_eq!(req.method, Method::Delete);
    assert_eq!(req.http_version, HttpVersion::Http2_0);
    assert_eq!(req.path, "/x/y/");
    assert_eq!(get_http_version(Some("HTTP/2.0")), Ok(HttpVersion::Http2_0));
    assert_eq!(get_http_version(Some("HTTP/1.1")), Ok(HttpVersion::Http1_1));
    assert_eq!(get_http_version(Some("HTTP/1.0")), Err(HttpParseError::InvalidHttpVersion));
    assert_eq!(get_http_version(None), Err(HttpParseError::InvalidHttpVersion));
}

#[test]
fn rejects_unknown_method() {
    assert_eq!(
        internal_parse("FETCH / HTTP/1.1\r\n\r\n".to_owned()),
        Err(HttpParseError::InvalidMethod)
    );
    assert_eq!(
        internal_parse("get / HTTP/1.1\r\n\r\n".to_owned()),
        Err(HttpParseError::InvalidMethod)
    );
}

#[test]
fn rejects_bad_header_lines() {
    assert_eq!(
        internal_parse("GET / HTTP/1.1\r\nNoColonHere\r\n\r\n".to_owned()),
        Err(HttpParseError::InvalidHeaderSyntax)
    );
    assert_eq!(
        internal_parse("GET / HTTP/1.1\r\n  : value\r\n\r\n".to_owned()),
        Err(HttpParseError::InvalidHeaderSyntax)
    );
    assert_eq!(
        internal_parse("GET / HTTP/1.1\r\nHost:   \r\n\r\n".to_owned()),
        Err(HttpParseError::InvalidHeaderSyntax)
    );
}

#[test]
fn header_value_keeps_later_colons() {
    let req = internal_parse("GET / HTTP/1.1\r\nHost: example.com:8080\r\n\r\n".to_owned()).unwrap();
    assert_eq!(req.headers.get_header("HOST"), Some(&"example.com:8080".to_owned()));
}

#[test]
fn later_header_wins() {
    let req = internal_parse("GET / HTTP/1.1\r\nX-A: one\r\nx-a: two\r\n\r\n".to_owned()).unwrap();
    assert_eq!(req.headers.len(), 1);
    assert_eq!(req.headers.get_header("X-a"), Some(&"two".to_owned()));
}

#[test]
fn blank_body_is_absent_and_body_is_trimmed() {
    let req = internal_parse("POST / HTTP/1.1\r\n\r\n   \r\n".to_owned()).unwrap();
    assert_eq!(req.body, None);
    let req = internal_parse("POST / HTTP/1.1\r\n\r\n  data  ".to_owned()).unwrap();
    assert_eq!(req.body, Some("data".to_owned()));
}

#[test]
fn normalizing_a_normalized_path_changes_nothing() {
    assert_eq!(normalize("/a/b/"), ("/a/b/".to_owned(), None, None));
    let (p, _, _) = normalize("/a/b?x=1#f");
    assert_eq!(normalize(&p), (p.clone(), None, None));
    assert_eq!(normalize("?q"), ("/".to_owned(), Some("q".to_owned()), None));
}

#[test]
fn question_mark_is_looked_for_before_hash() {
    assert_eq!(
        normalize("/a#b?c"),
        ("/a#b/".to_owned(), Some("c".to_owned()), None)
    );
    assert_eq!(
        normalize("/a? q #  "),
        ("/a/".to_owned(), Some("q".to_owned()), None)
    );
}

#[test]
fn parsed_header_names_lower_case_beyond_ascii() {
    let req = internal_parse("GET / HTTP/1.1\r\nÄ: 1\r\n\r\n".to_owned()).unwrap();
    assert_eq!(req.headers.get_header("ä"), Some(&"1".to_owned()));
    assert_eq!(req.headers.text(), "ä: 1\r\n");
}

#[test]
fn bad_header_line_after_good_ones() {
    assert_eq!(
        internal_parse("GET / HTTP/1.1\r\nHost: a\r\nAccept: b\r\nBroken\r\n\r\n".to_owned()),
        Err(HttpParseError::InvalidHeaderSyntax)
    );
}

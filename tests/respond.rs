use rebar::dispatch::{begin, conclude, rejection, Step};
use rebar::headers::{HeaderMethods, Headers};
use rebar::types::{HttpStatusCode, HttpVersion, Method, Request, Response};

#[test]
fn handler_without_changes_gives_200() {
    let mut invoked = 0;
    let res = match begin("GET / HTTP/1.1\r\n\r\n".to_owned()) {
        Step::Invoke(req, mut res) => {
            invoked += 1;
            assert_eq!(req.method, Method::Get);
            assert_eq!(req.path, "/");
            let outcome: Option<HttpStatusCode> = {
                let _ = (&req, &mut res);
                None
            };
            conclude(res, outcome)
        }
        Step::Reply(res) => res,
    };
    assert_eq!(invoked, 1);
    let head = res.head();
    assert!(head.starts_with("HTTP/1.1 200 OK\r\n"));
    assert!(head.contains("content-type: text/html; charset=utf-8\r\n"));
    assert!(head.ends_with("\r\n\r\n"));
    assert_eq!(
        head,
        "HTTP/1.1 200 OK\r\ncontent-type: text/html; charset=utf-8\r\n\r\n"
    );
}

#[test]
fn unknown_method_is_rejected_without_the_handler() {
    let mut invoked = 0;
    let res = match begin("FETCH / HTTP/1.1\r\n\r\n".to_owned()) {
        Step::Invoke(_, res) => {
            invoked += 1;
            res
        }
        Step::Reply(res) => res,
    };
    assert_eq!(invoked, 0);
    assert!(res.head().starts_with("HTTP/1.1 400 Bad Request\r\n"));
    assert!(res.body.is_empty());
}

#[test]
fn override_replaces_status_only() {
    let mut res = Response::for_request(&Request::default());
    res.body = b"hi".to_vec();
    res.headers.set_header("Server", "Rebar");
    let res = conclude(res, Some(HttpStatusCode::Code404));
    assert_eq!(res.status, HttpStatusCode::Code404);
    assert_eq!(res.body, b"hi".to_vec());
    assert_eq!(res.headers.get_header("server"), Some(&"Rebar".to_owned()));
    assert!(res.head().starts_with("HTTP/1.1 404 Not Found\r\n"));
    let res = conclude(res, None);
    assert_eq!(res.status, HttpStatusCode::Code404);
}

#[test]
fn http2_request_gets_http2_status_line() {
    match begin("PUT /a HTTP/2.0\r\n\r\n".to_owned()) {
        Step::Invoke(req, res) => {
            assert_eq!(req.http_version, HttpVersion::Http2_0);
            assert_eq!(res.http_version, HttpVersion::Http2_0);
            assert!(res.head().starts_with("HTTP/2.0 200 OK\r\n"));
        }
        Step::Reply(_) => panic!("request should parse"),
    }
}

#[test]
fn rejection_is_400_with_default_headers() {
    let res = rejection();
    assert_eq!(res.status, HttpStatusCode::Code400);
    assert_eq!(res.http_version, HttpVersion::Http1_1);
    assert_eq!(
        res.headers.get_header("Content-Type"),
        Some(&"text/html; charset=utf-8".to_owned())
    );
}

#[test]
fn status_codes_and_reasons() {
    assert_eq!(HttpStatusCode::Code200.code(), 200);
    assert_eq!(HttpStatusCode::Code200.reason(), "OK");
    assert_eq!(HttpStatusCode::Code404.reason(), "Not Found");
    assert_eq!(HttpStatusCode::Code418.reason(), "I'm a teapot");
    assert_eq!(HttpStatusCode::Code511.code(), 511);
    assert_eq!(HttpStatusCode::Code103.code(), 103);
}

#[test]
fn head_lists_every_header() {
    let mut res = Response::with_version(HttpVersion::Http1_1);
    res.headers.set_header("X-One", "1").set_header("x-two", "2");
    let head = res.head();
    assert!(head.contains("x-one: 1\r\n"));
    assert!(head.contains("x-two: 2\r\n"));
    assert_eq!(head.matches("\r\n").count(), 5);
}

#[test]
fn header_names_ignore_case() {
    let mut h = Headers::new();
    h.set_header("Content-Type", "a");
    assert_eq!(h.get_header("content-type"), Some(&"a".to_owned()));
    h.set_header("CONTENT-TYPE", "b");
    assert_eq!(h.len(), 1);
    assert_eq!(h.get_header("Content-type"), Some(&"b".to_owned()));
    h.remove_header("content-TYPE");
    assert_eq!(h.get_header("content-type"), None);
    assert_eq!(h.len(), 0);
}

#[test]
fn default_request() {
    let r = Request::default();
    assert_eq!(r.method, Method::Get);
    assert_eq!(r.path, "/");
    assert_eq!(r.http_version, HttpVersion::Http1_1);
    assert_eq!(r.headers, Headers::new());
}

#[test]
fn header_names_lower_case_beyond_ascii() {
    let mut h = Headers::new();
    h.set_header("Ä", "1");
    h.set_header("ä", "2");
    assert_eq!(h.len(), 1);
    assert_eq!(h.get_header("Ä"), Some(&"2".to_owned()));
    assert_eq!(h.text(), "ä: 2\r\n");
}

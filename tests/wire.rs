use rebar::headers::{HeaderMethods, Headers};
use rebar::parse::internal_parse;
use rebar::template::{RebarError, Template, TemplateError};
use rebar::types::{HttpParseError, HttpStatusCode, HttpVersion, Method, Request};

fn sample(query: Option<&str>, fragment: Option<&str>, body: Option<&str>) -> Request {
    let mut headers = Headers::new();
    headers
        .set_header("Host", "www.example.com")
        .set_header("Accept", "text/html: q=1");
    Request {
        method: Method::Patch,
        http_version: HttpVersion::Http2_0,
        path: "/a/b/".to_owned(),
        query: query.map(|q| q.to_owned()),
        fragment: fragment.map(|f| f.to_owned()),
        headers,
        body: body.map(|b| b.to_owned()),
    }
}

#[test]
fn wire_form_parses_back() {
    for (q, f, b) in [
        (Some("x=1&y=2"), Some("top"), Some("hello\r\n\r\nworld")),
        (Some("x=1"), None, None),
        (None, Some("frag"), None),
        (None, None, Some("body")),
    ] {
        let req = sample(q, f, b);
        let wire = req.to_wire();
        assert_eq!(internal_parse(wire), Ok(req));
    }
}

#[test]
fn wire_form_text() {
    let req = Request::default();
    assert_eq!(req.to_wire(), "GET / HTTP/1.1\r\n\r\n");
    let req = sample(Some("k=v"), None, Some("b"));
    assert_eq!(
        req.to_wire(),
        "PATCH /a/b/?k=v HTTP/2.0\r\nhost: www.example.com\r\naccept: text/html: q=1\r\n\r\nb"
    );
}

#[test]
fn texts_of_versions_and_statuses() {
    assert_eq!(HttpVersion::Http1_1.text(), "HTTP/1.1");
    assert_eq!(HttpVersion::Http2_0.text(), "HTTP/2.0");
    assert_eq!(HttpStatusCode::Code200.text(), "200 OK");
    assert_eq!(HttpStatusCode::Code505.text(), "505 HTTP Version Not Supported");
    let mut h = Headers::new();
    h.set_header("A", "1");
    assert_eq!(h.text(), "a: 1\r\n");
}

#[test]
fn error_messages() {
    assert_eq!(HttpParseError::InvalidMethod.message(), "Invalid method");
    assert_eq!(HttpParseError::Other("boom".to_owned()).message(), "boom");
    assert_eq!(
        TemplateError::InvalidChar('-').message(),
        "Unexpected char '-'"
    );
    assert_eq!(
        TemplateError::MissingVariable("name".to_owned()).message(),
        "Missing variable `name`"
    );
    assert_eq!(TemplateError::UnterminatedBraces.message(), "Unterminated '{{'");
    assert_eq!(
        TemplateError::NonexistentPath("a\"b".to_owned()).message(),
        "Path \"a\\\"b\" either doesnt exist or is a directory"
    );
    assert_eq!(
        RebarError::ParseError(HttpParseError::InvalidPath).message(),
        "Invalid path"
    );
}

#[test]
fn letters_beyond_ascii_make_up_names() {
    assert!(Template::create_from_string("{{ café }}").is_ok());
    assert_eq!(
        Template::create_from_string("{{ a+b }}"),
        Err(RebarError::TemplateError(TemplateError::InvalidChar('+')))
    );
}

//! The data model shared by the parser, the serializer and the dispatcher.
use vstd::prelude::*;
use crate::headers::Headers;

verus! {

/// A request method; the wire form is upper case only.
#[derive(Debug, Clone, Copy, PartialEq, Eq, Structural)]
pub enum Method {
    Get,
    Post,
    Put,
    Head,
    Delete,
    Options,
    Patch,
}

/// Why a request could not be parsed or read.
#[derive(Debug, Clone, PartialEq)]
pub enum HttpParseError {
    InvalidMethod,
    InvalidPath,
    InvalidHttpVersion,
    InvalidHeaderSyntax,
    Other(String),
}

/// The message that describes a parse error.
pub open spec fn parse_error_message(e: HttpParseError) -> Seq<char> {
    match e {
        HttpParseError::InvalidMethod => "Invalid method"@,
        HttpParseError::InvalidPath => "Invalid path"@,
        HttpParseError::InvalidHttpVersion => "Invalid http version"@,
        HttpParseError::InvalidHeaderSyntax => "Invalid header syntax"@,
        HttpParseError::Other(m) => m@,
    }
}

impl HttpParseError {
    /// A message that describes this error.
    pub fn message(&self) -> (r: String)
        ensures
            r@ == parse_error_message(*self),
    {
        match self {
            HttpParseError::InvalidMethod => "Invalid method".to_owned(),
            HttpParseError::InvalidPath => "Invalid path".to_owned(),
            HttpParseError::InvalidHttpVersion => "Invalid http version".to_owned(),
            HttpParseError::InvalidHeaderSyntax => "Invalid header syntax".to_owned(),
            HttpParseError::Other(m) => m.clone(),
        }
    }
}

/// Why a response could not be sent.
#[derive(Debug, Clone, PartialEq)]
pub enum HttpResponseError {
    Other(String),
}

/// The protocol version named on the request line; a tag only.
#[derive(Debug, Clone, Copy, PartialEq, Eq, Structural)]
pub enum HttpVersion {
    Http1_1,
    Http2_0,
}

/// A response status.
#[derive(Debug, Clone, Copy, PartialEq, Eq, Structural)]
pub enum HttpStatusCode {
    Code100,
    Code101,
    Code103,
    Code200,
    Code201,
    Code202,
    Code203,
    Code204,
    Code205,
    Code206,
    Code300,
    Code301,
    Code302,
    Code303,
    Code304,
    Code307,
    Code308,
    Code400,
    Code401,
    Code402,
    Code403,
    Code404,
    Code405,
    Code406,
    Code407,
    Code408,
    Code409,
    Code410,
    Code411,
    Code412,
    Code413,
    Code414,
    Code415,
    Code416,
    Code417,
    Code418,
    Code422,
    Code425,
    Code426,
    Code428,
    Code429,
    Code431,
    Code451,
    Code500,
    Code501,
    Code502,
    Code503,
    Code504,
    Code505,
    Code506,
    Code507,
    Code508,
    Code510,
    Code511,
}

/// The number of a status.
pub open spec fn status_number(c: HttpStatusCode) -> u16 {
    match c {
            HttpStatusCode::Code100 => 100,
            HttpStatusCode::Code101 => 101,
            HttpStatusCode::Code103 => 103,
            HttpStatusCode::Code200 => 200,
            HttpStatusCode::Code201 => 201,
            HttpStatusCode::Code202 => 202,
            HttpStatusCode::Code203 => 203,
            HttpStatusCode::Code204 => 204,
            HttpStatusCode::Code205 => 205,
            HttpStatusCode::Code206 => 206,
            HttpStatusCode::Code300 => 300,
            HttpStatusCode::Code301 => 301,
            HttpStatusCode::Code302 => 302,
            HttpStatusCode::Code303 => 303,
            HttpStatusCode::Code304 => 304,
            HttpStatusCode::Code307 => 307,
            HttpStatusCode::Code308 => 308,
            HttpStatusCode::Code400 => 400,
            HttpStatusCode::Code401 => 401,
            HttpStatusCode::Code402 => 402,
            HttpStatusCode::Code403 => 403,
            HttpStatusCode::Code404 => 404,
            HttpStatusCode::Code405 => 405,
            HttpStatusCode::Code406 => 406,
            HttpStatusCode::Code407 => 407,
            HttpStatusCode::Code408 => 408,
            HttpStatusCode::Code409 => 409,
            HttpStatusCode::Code410 => 410,
            HttpStatusCode::Code411 => 411,
            HttpStatusCode::Code412 => 412,
            HttpStatusCode::Code413 => 413,
            HttpStatusCode::Code414 => 414,
            HttpStatusCode::Code415 => 415,
            HttpStatusCode::Code416 => 416,
            HttpStatusCode::Code417 => 417,
            HttpStatusCode::Code418 => 418,
            HttpStatusCode::Code422 => 422,
            HttpStatusCode::Code425 => 425,
            HttpStatusCode::Code426 => 426,
            HttpStatusCode::Code428 => 428,
            HttpStatusCode::Code429 => 429,
            HttpStatusCode::Code431 => 431,
            HttpStatusCode::Code451 => 451,
            HttpStatusCode::Code500 => 500,
            HttpStatusCode::Code501 => 501,
            HttpStatusCode::Code502 => 502,
            HttpStatusCode::Code503 => 503,
            HttpStatusCode::Code504 => 504,
            HttpStatusCode::Code505 => 505,
            HttpStatusCode::Code506 => 506,
            HttpStatusCode::Code507 => 507,
            HttpStatusCode::Code508 => 508,
            HttpStatusCode::Code510 => 510,
            HttpStatusCode::Code511 => 511,
    }
}

/// The reason phrase of a status.
pub open spec fn reason_phrase(c: HttpStatusCode) -> Seq<char> {
    match c {
            HttpStatusCode::Code100 => "Continue"@,
            HttpStatusCode::Code101 => "Switching Protocols"@,
            HttpStatusCode::Code103 => "Early Hints"@,
            HttpStatusCode::Code200 => "OK"@,
            HttpStatusCode::Code201 => "Created"@,
            HttpStatusCode::Code202 => "Accepted"@,
            HttpStatusCode::Code203 => "Non-Authoritative Information"@,
            HttpStatusCode::Code204 => "No Content"@,
            HttpStatusCode::Code205 => "Reset Content"@,
            HttpStatusCode::Code206 => "Partial Content"@,
            HttpStatusCode::Code300 => "Multiple Choices"@,
            HttpStatusCode::Code301 => "Moved Permanently"@,
            HttpStatusCode::Code302 => "Found"@,
            HttpStatusCode::Code303 => "See Other"@,
            HttpStatusCode::Code304 => "Not Modified"@,
            HttpStatusCode::Code307 => "Temporary Redirect"@,
            HttpStatusCode::Code308 => "Permanent Redirect"@,
            HttpStatusCode::Code400 => "Bad Request"@,
            HttpStatusCode::Code401 => "Unauthorized"@,
            HttpStatusCode::Code402 => "Payment Required"@,
            HttpStatusCode::Code403 => "Forbidden"@,
            HttpStatusCode::Code404 => "Not Found"@,
            HttpStatusCode::Code405 => "Method Not Allowed"@,
            HttpStatusCode::Code406 => "Not Acceptable"@,
            HttpStatusCode::Code407 => "Proxy Authentication Required"@,
            HttpStatusCode::Code408 => "Request Timeout"@,
            HttpStatusCode::Code409 => "Conflict"@,
            HttpStatusCode::Code410 => "Gone"@,
            HttpStatusCode::Code411 => "Length Required"@,
            HttpStatusCode::Code412 => "Precondition Failed"@,
            HttpStatusCode::Code413 => "Payload Too Large"@,
            HttpStatusCode::Code414 => "URI Too Long"@,
            HttpStatusCode::Code415 => "Unsupported Media Type"@,
            HttpStatusCode::Code416 => "Range Not Satisfiable"@,
            HttpStatusCode::Code417 => "Expectation Failed"@,
            HttpStatusCode::Code418 => "I'm a teapot"@,
            HttpStatusCode::Code422 => "Unprocessable Entity"@,
            HttpStatusCode::Code425 => "Too Early"@,
            HttpStatusCode::Code426 => "Upgrade Required"@,
            HttpStatusCode::Code428 => "Precondition Required"@,
            HttpStatusCode::Code429 => "Too Many Requests"@,
            HttpStatusCode::Code431 => "Request Header Fields Too Large"@,
            HttpStatusCode::Code451 => "Unavailable For Legal Reasons"@,
            HttpStatusCode::Code500 => "Internal Server Error"@,
            HttpStatusCode::Code501 => "Not Implemented"@,
            HttpStatusCode::Code502 => "Bad Gateway"@,
            HttpStatusCode::Code503 => "Service Unavailable"@,
            HttpStatusCode::Code504 => "Gateway Timeout"@,
            HttpStatusCode::Code505 => "HTTP Version Not Supported"@,
            HttpStatusCode::Code506 => "Variant Also Negotiates"@,
            HttpStatusCode::Code507 => "Insufficient Storage"@,
            HttpStatusCode::Code508 => "Loop Detected"@,
            HttpStatusCode::Code510 => "Not Extended"@,
            HttpStatusCode::Code511 => "Network Authentication Required"@,
    }
}

impl HttpStatusCode {
    /// The number of this status.
    pub fn code(&self) -> (r: u16)
        ensures
            r == status_number(*self),
            100 <= r <= 599,
    {
        match self {
            HttpStatusCode::Code100 => 100,
            HttpStatusCode::Code101 => 101,
            HttpStatusCode::Code103 => 103,
            HttpStatusCode::Code200 => 200,
            HttpStatusCode::Code201 => 201,
            HttpStatusCode::Code202 => 202,
            HttpStatusCode::Code203 => 203,
            HttpStatusCode::Code204 => 204,
            HttpStatusCode::Code205 => 205,
            HttpStatusCode::Code206 => 206,
            HttpStatusCode::Code300 => 300,
            HttpStatusCode::Code301 => 301,
            HttpStatusCode::Code302 => 302,
            HttpStatusCode::Code303 => 303,
            HttpStatusCode::Code304 => 304,
            HttpStatusCode::Code307 => 307,
            HttpStatusCode::Code308 => 308,
            HttpStatusCode::Code400 => 400,
            HttpStatusCode::Code401 => 401,
            HttpStatusCode::Code402 => 402,
            HttpStatusCode::Code403 => 403,
            HttpStatusCode::Code404 => 404,
            HttpStatusCode::Code405 => 405,
            HttpStatusCode::Code406 => 406,
            HttpStatusCode::Code407 => 407,
            HttpStatusCode::Code408 => 408,
            HttpStatusCode::Code409 => 409,
            HttpStatusCode::Code410 => 410,
            HttpStatusCode::Code411 => 411,
            HttpStatusCode::Code412 => 412,
            HttpStatusCode::Code413 => 413,
            HttpStatusCode::Code414 => 414,
            HttpStatusCode::Code415 => 415,
            HttpStatusCode::Code416 => 416,
            HttpStatusCode::Code417 => 417,
            HttpStatusCode::Code418 => 418,
            HttpStatusCode::Code422 => 422,
            HttpStatusCode::Code425 => 425,
            HttpStatusCode::Code426 => 426,
            HttpStatusCode::Code428 => 428,
            HttpStatusCode::Code429 => 429,
            HttpStatusCode::Code431 => 431,
            HttpStatusCode::Code451 => 451,
            HttpStatusCode::Code500 => 500,
            HttpStatusCode::Code501 => 501,
            HttpStatusCode::Code502 => 502,
            HttpStatusCode::Code503 => 503,
            HttpStatusCode::Code504 => 504,
            HttpStatusCode::Code505 => 505,
            HttpStatusCode::Code506 => 506,
            HttpStatusCode::Code507 => 507,
            HttpStatusCode::Code508 => 508,
            HttpStatusCode::Code510 => 510,
            HttpStatusCode::Code511 => 511,
        }
    }

    /// The reason phrase of this status.
    pub fn reason(&self) -> (r: &'static str)
        ensures
            r@ == reason_phrase(*self),
    {
        match self {
            HttpStatusCode::Code100 => "Continue",
            HttpStatusCode::Code101 => "Switching Protocols",
            HttpStatusCode::Code103 => "Early Hints",
            HttpStatusCode::Code200 => "OK",
            HttpStatusCode::Code201 => "Created",
            HttpStatusCode::Code202 => "Accepted",
            HttpStatusCode::Code203 => "Non-Authoritative Information",
            HttpStatusCode::Code204 => "No Content",
            HttpStatusCode::Code205 => "Reset Content",
            HttpStatusCode::Code206 => "Partial Content",
            HttpStatusCode::Code300 => "Multiple Choices",
            HttpStatusCode::Code301 => "Moved Permanently",
            HttpStatusCode::Code302 => "Found",
            HttpStatusCode::Code303 => "See Other",
            HttpStatusCode::Code304 => "Not Modified",
            HttpStatusCode::Code307 => "Temporary Redirect",
            HttpStatusCode::Code308 => "Permanent Redirect",
            HttpStatusCode::Code400 => "Bad Request",
            HttpStatusCode::Code401 => "Unauthorized",
            HttpStatusCode::Code402 => "Payment Required",
            HttpStatusCode::Code403 => "Forbidden",
            HttpStatusCode::Code404 => "Not Found",
            HttpStatusCode::Code405 => "Method Not Allowed",
            HttpStatusCode::Code406 => "Not Acceptable",
            HttpStatusCode::Code407 => "Proxy Authentication Required",
            HttpStatusCode::Code408 => "Request Timeout",
            HttpStatusCode::Code409 => "Conflict",
            HttpStatusCode::Code410 => "Gone",
            HttpStatusCode::Code411 => "Length Required",
            HttpStatusCode::Code412 => "Precondition Failed",
            HttpStatusCode::Code413 => "Payload Too Large",
            HttpStatusCode::Code414 => "URI Too Long",
            HttpStatusCode::Code415 => "Unsupported Media Type",
            HttpStatusCode::Code416 => "Range Not Satisfiable",
            HttpStatusCode::Code417 => "Expectation Failed",
            HttpStatusCode::Code418 => "I'm a teapot",
            HttpStatusCode::Code422 => "Unprocessable Entity",
            HttpStatusCode::Code425 => "Too Early",
            HttpStatusCode::Code426 => "Upgrade Required",
            HttpStatusCode::Code428 => "Precondition Required",
            HttpStatusCode::Code429 => "Too Many Requests",
            HttpStatusCode::Code431 => "Request Header Fields Too Large",
            HttpStatusCode::Code451 => "Unavailable For Legal Reasons",
            HttpStatusCode::Code500 => "Internal Server Error",
            HttpStatusCode::Code501 => "Not Implemented",
            HttpStatusCode::Code502 => "Bad Gateway",
            HttpStatusCode::Code503 => "Service Unavailable",
            HttpStatusCode::Code504 => "Gateway Timeout",
            HttpStatusCode::Code505 => "HTTP Version Not Supported",
            HttpStatusCode::Code506 => "Variant Also Negotiates",
            HttpStatusCode::Code507 => "Insufficient Storage",
            HttpStatusCode::Code508 => "Loop Detected",
            HttpStatusCode::Code510 => "Not Extended",
            HttpStatusCode::Code511 => "Network Authentication Required",
        }
    }
}

/// A parsed request.
#[derive(Debug, PartialEq)]
pub struct Request {
    pub method: Method,
    pub http_version: HttpVersion,
    /// Ends with `/` in a parsed request.
    pub path: String,
    pub query: Option<String>,
    pub fragment: Option<String>,
    pub headers: Headers,
    pub body: Option<String>,
}

impl Default for Request {
    /// A `GET` of `/` in version 1.1, with no query, fragment, headers or body.
    fn default() -> (r: Request)
        ensures
            r.method == Method::Get,
            r.http_version == HttpVersion::Http1_1,
            r.path@ == seq!['/'],
            r.query is None,
            r.fragment is None,
            r.headers@ == Map::<Seq<char>, Seq<char>>::empty(),
            r.body is None,
    {
        proof {
            reveal_strlit("/");
        }
        Request {
            method: Method::Get,
            http_version: HttpVersion::Http1_1,
            path: "/".to_owned(),
            query: None,
            fragment: None,
            headers: Headers::new(),
            body: None,
        }
    }
}

/// What a request holds, as mathematical values.
pub struct RequestView {
    pub method: Method,
    pub http_version: HttpVersion,
    pub path: Seq<char>,
    pub query: Option<Seq<char>>,
    pub fragment: Option<Seq<char>>,
    pub headers: Map<Seq<char>, Seq<char>>,
    pub body: Option<Seq<char>>,
}

/// The characters of an optional string.
pub open spec fn opt_view(o: Option<String>) -> Option<Seq<char>> {
    match o {
        Some(s) => Some(s@),
        None => None,
    }
}

impl View for Request {
    type V = RequestView;

    open spec fn view(&self) -> RequestView {
        RequestView {
            method: self.method,
            http_version: self.http_version,
            path: self.path@,
            query: opt_view(self.query),
            fragment: opt_view(self.fragment),
            headers: self.headers@,
            body: opt_view(self.body),
        }
    }
}

/// A response under construction: status, version, headers and body bytes.
pub struct Response {
    pub headers: Headers,
    pub http_version: HttpVersion,
    pub status: HttpStatusCode,
    pub body: Vec<u8>,
}

} // verus!

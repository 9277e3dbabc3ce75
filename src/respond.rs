//! Default responses and the serialization of a response's head.
use vstd::prelude::*;
use crate::headers::{map_of, wf_pairs, HeaderMethods, Headers};
use crate::text::{chars_of, lower_of, push_all};
use crate::types::{reason_phrase, status_number, HttpStatusCode, HttpVersion, Request, Response};

verus! {

/// The wire form of a version.
pub open spec fn version_text(v: HttpVersion) -> Seq<char> {
    match v {
        HttpVersion::Http1_1 => seq!['H', 'T', 'T', 'P', '/', '1', '.', '1'],
        HttpVersion::Http2_0 => seq!['H', 'T', 'T', 'P', '/', '2', '.', '0'],
    }
}

/// The decimal digit of a number below ten.
pub open spec fn digit(d: int) -> char {
    ((('0' as u32) as int + d) as u32) as char
}

/// The three decimal digits of a status number.
pub open spec fn code_text(n: u16) -> Seq<char> {
    seq![digit(n as int / 100), digit((n as int / 10) % 10), digit(n as int % 10)]
}

/// `<version> <code> <reason>` and a line end.
pub open spec fn status_line(v: HttpVersion, c: HttpStatusCode) -> Seq<char> {
    version_text(v) + seq![' '] + code_text(status_number(c)) + seq![' '] + reason_phrase(c) + seq!['\r', '\n']
}

/// One `name: value` line for each pair, in order.
pub open spec fn header_lines(ps: Seq<(Seq<char>, Seq<char>)>) -> Seq<char>
    decreases ps.len(),
{
    if ps.len() == 0 {
        Seq::empty()
    } else {
        header_lines(ps.drop_last()) + ps.last().0 + seq![':', ' '] + ps.last().1 + seq!['\r', '\n']
    }
}

/// The head of a response: status line, header lines and a blank line.
pub open spec fn head_text(v: HttpVersion, c: HttpStatusCode, h: Headers) -> Seq<char> {
    status_line(v, c) + header_lines(h.pairs()) + seq!['\r', '\n']
}

/// The header map that every response starts with.
pub open spec fn default_headers() -> Map<Seq<char>, Seq<char>> {
    Map::empty().insert(lower_of("Content-Type"@), "text/html; charset=utf-8"@)
}

/// Whether `r` is the response that starts out for a request of version `v`,
/// before any handler has seen it.
pub open spec fn is_default_response(r: Response, v: HttpVersion) -> bool {
    &&& r.status == HttpStatusCode::Code200
    &&& r.http_version == v
    &&& r.headers@ == default_headers()
    &&& r.body@.len() == 0
}

fn digit_char(d: u16) -> (r: char)
    requires
        d < 10,
    ensures
        r == digit(d as int),
{
    ((d as u8) + 48) as char
}

/// Appends a string literal's characters.
fn push_str(s: &mut String, t: &str)
    ensures
        final(s)@ == old(s)@ + t@,
{
    let v = chars_of(t);
    push_all(s, &v);
}

impl HttpVersion {
    /// The wire form of this version.
    pub fn text(&self) -> (r: String)
        ensures
            r@ == version_text(*self),
    {
        let mut s = String::new();
        match self {
            HttpVersion::Http1_1 => push_str(&mut s, "HTTP/1.1"),
            HttpVersion::Http2_0 => push_str(&mut s, "HTTP/2.0"),
        }
        proof {
            reveal_strlit("HTTP/1.1");
            reveal_strlit("HTTP/2.0");
        }
        assert(s@ =~= version_text(*self));
        s
    }
}

impl HttpStatusCode {
    /// The number and reason phrase of this status, as in `200 OK`.
    pub fn text(&self) -> (r: String)
        ensures
            r@ == code_text(status_number(*self)) + seq![' '] + reason_phrase(*self),
    {
        let n = self.code();
        let num = vec![digit_char(n / 100), digit_char((n / 10) % 10), digit_char(n % 10), ' '];
        let mut s = String::new();
        push_all(&mut s, &num);
        push_str(&mut s, self.reason());
        assert(s@ =~= code_text(status_number(*self)) + seq![' '] + reason_phrase(*self));
        s
    }
}

impl Headers {
    /// One `name: value` line for each kept pair, in the order kept.
    pub fn text(&self) -> (r: String)
        ensures
            r@ == header_lines(self.pairs()),
            wf_pairs(self.pairs()),
            self@ == map_of(self.pairs()),
    {
        self.distinct_names();
        let ghost ps = self.pairs();
        let mut s = String::new();
        let mut i: usize = 0;
        assert(ps.subrange(0, 0) =~= Seq::<(Seq<char>, Seq<char>)>::empty());
        while i < self.len()
            invariant
                i <= ps.len(),
                ps == self.pairs(),
                s@ == header_lines(ps.subrange(0, i as int)),
            decreases ps.len() - i,
        {
            let (name, value) = self.entry(i);
            push_str(&mut s, name.as_str());
            push_all(&mut s, &vec![':', ' ']);
            push_str(&mut s, value.as_str());
            push_all(&mut s, &vec!['\r', '\n']);
            assert(ps.subrange(0, i + 1).drop_last() =~= ps.subrange(0, i as int));
            assert(s@ =~= header_lines(ps.subrange(0, i + 1)));
            i = i + 1;
        }
        assert(ps.subrange(0, ps.len() as int) =~= ps);
        s
    }
}

impl Response {
    /// The response that a successfully parsed request starts with: status
    /// 200, the request's version, a `Content-Type` header and no body.
    pub fn for_request(req: &Request) -> (r: Response)
        ensures
            is_default_response(r, req.http_version),
    {
        Self::with_version(req.http_version)
    }

    /// The default response for version `v`.
    pub fn with_version(v: HttpVersion) -> (r: Response)
        ensures
            is_default_response(r, v),
    {
        let mut headers = Headers::new();
        headers.set_header("Content-Type", "text/html; charset=utf-8");
        Response { headers, http_version: v, status: HttpStatusCode::Code200, body: Vec::new() }
    }

    /// The status line, header lines and blank line of this response.
    pub fn head(&self) -> (r: String)
        ensures
            r@ == head_text(self.http_version, self.status, self.headers),
    {
        let mut s = self.http_version.text();
        push_all(&mut s, &vec![' ']);
        push_str(&mut s, self.status.text().as_str());
        push_all(&mut s, &vec!['\r', '\n']);
        push_str(&mut s, self.headers.text().as_str());
        push_all(&mut s, &vec!['\r', '\n']);
        assert(s@ =~= head_text(self.http_version, self.status, self.headers));
        s
    }
}

} // verus!

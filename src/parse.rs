//! Parsing of a request's text into a `Request`.
use vstd::prelude::*;
use crate::headers::{HeaderMethods, Headers};
use crate::path::{lemma_normalized_path_shape, normalize_in, normalized};
use crate::text::{
    chars_of, lacks, lemma_find_after, lemma_find_none, lemma_split_once_shorter, lower_of, range_is,
    split_in, split_once, string_of, trim, trim_range, trimmed_opt, trimmed_string,
};
use crate::types::{opt_view, HttpParseError, HttpVersion, Method, Request, RequestView};

verus! {

/// The method that a request-line token names, if any.
pub open spec fn method_of(t: Seq<char>) -> Option<Method> {
    if t == seq!['G', 'E', 'T'] {
        Some(Method::Get)
    } else if t == seq!['P', 'O', 'S', 'T'] {
        Some(Method::Post)
    } else if t == seq!['P', 'U', 'T'] {
        Some(Method::Put)
    } else if t == seq!['H', 'E', 'A', 'D'] {
        Some(Method::Head)
    } else if t == seq!['D', 'E', 'L', 'E', 'T', 'E'] {
        Some(Method::Delete)
    } else if t == seq!['O', 'P', 'T', 'I', 'O', 'N', 'S'] {
        Some(Method::Options)
    } else if t == seq!['P', 'A', 'T', 'C', 'H'] {
        Some(Method::Patch)
    } else {
        None
    }
}

/// The method named by `v[lo..hi]`.
pub fn method_in(v: &Vec<char>, lo: usize, hi: usize) -> (r: Option<Method>)
    requires
        lo <= hi <= v@.len(),
    ensures
        r == method_of(v@.subrange(lo as int, hi as int)),
{
    proof {
        assert(['G', 'E', 'T']@ == seq!['G', 'E', 'T']);
        assert(['P', 'O', 'S', 'T']@ == seq!['P', 'O', 'S', 'T']);
        assert(['P', 'U', 'T']@ == seq!['P', 'U', 'T']);
        assert(['H', 'E', 'A', 'D']@ == seq!['H', 'E', 'A', 'D']);
        assert(['D', 'E', 'L', 'E', 'T', 'E']@ == seq!['D', 'E', 'L', 'E', 'T', 'E']);
        assert(['O', 'P', 'T', 'I', 'O', 'N', 'S']@ == seq!['O', 'P', 'T', 'I', 'O', 'N', 'S']);
        assert(['P', 'A', 'T', 'C', 'H']@ == seq!['P', 'A', 'T', 'C', 'H']);
    }
    if range_is(v, lo, hi, &['G', 'E', 'T']) {
        Some(Method::Get)
    } else if range_is(v, lo, hi, &['P', 'O', 'S', 'T']) {
        Some(Method::Post)
    } else if range_is(v, lo, hi, &['P', 'U', 'T']) {
        Some(Method::Put)
    } else if range_is(v, lo, hi, &['H', 'E', 'A', 'D']) {
        Some(Method::Head)
    } else if range_is(v, lo, hi, &['D', 'E', 'L', 'E', 'T', 'E']) {
        Some(Method::Delete)
    } else if range_is(v, lo, hi, &['O', 'P', 'T', 'I', 'O', 'N', 'S']) {
        Some(Method::Options)
    } else if range_is(v, lo, hi, &['P', 'A', 'T', 'C', 'H']) {
        Some(Method::Patch)
    } else {
        None
    }
}

/// The version that a request-line token names, if any.
pub open spec fn version_of(t: Seq<char>) -> Option<HttpVersion> {
    if t == seq!['H', 'T', 'T', 'P', '/', '1', '.', '1'] {
        Some(HttpVersion::Http1_1)
    } else if t == seq!['H', 'T', 'T', 'P', '/', '2', '.', '0'] {
        Some(HttpVersion::Http2_0)
    } else {
        None
    }
}

/// The line separator.
pub open spec fn crlf() -> Seq<char> {
    seq!['\r', '\n']
}

/// The separator between head and body.
pub open spec fn blank_line() -> Seq<char> {
    seq!['\r', '\n', '\r', '\n']
}

/// Name and value of a header line: the line is split at its first `:` and
/// both sides are trimmed; neither may be empty.
pub open spec fn header_of(line: Seq<char>) -> Option<(Seq<char>, Seq<char>)> {
    let (n, v) = split_once(line, seq![':']);
    match v {
        Some(v) => if trim(n).len() == 0 || trim(v).len() == 0 {
            None
        } else {
            Some((trim(n), trim(v)))
        },
        None => None,
    }
}

/// The header map that the header lines in `text` give when added to `acc`,
/// line by line, up to the first empty line.
pub open spec fn headers_from(text: Seq<char>, acc: Map<Seq<char>, Seq<char>>) -> Result<
    Map<Seq<char>, Seq<char>>,
    HttpParseError,
>
    decreases text.len(),
    via headers_from_decreases
{
    let (line, rest) = split_once(text, crlf());
    if line.len() == 0 {
        Ok(acc)
    } else {
        match header_of(line) {
            None => Err(HttpParseError::InvalidHeaderSyntax),
            Some(nv) => {
                let acc2 = acc.insert(lower_of(nv.0), nv.1);
                match rest {
                    Some(r) => headers_from(r, acc2),
                    None => Ok(acc2),
                }
            },
        }
    }
}

#[via_fn]
proof fn headers_from_decreases(text: Seq<char>, acc: Map<Seq<char>, Seq<char>>) {
    lemma_split_once_shorter(text, crlf());
}

/// The body of a request: what follows the first blank line, trimmed, and
/// absent where that is empty.
pub open spec fn body_of(body_part: Option<Seq<char>>) -> Option<Seq<char>> {
    match body_part {
        Some(b) => trimmed_opt(b),
        None => None,
    }
}

/// The request that a text describes, or the first reason it does not
/// describe one. The request line is split on single spaces; its first three
/// tokens are method, target and version.
pub open spec fn parsed(s: Seq<char>) -> Result<RequestView, HttpParseError> {
    let (head, body_part) = split_once(s, blank_line());
    let (line, header_text) = split_once(head, crlf());
    let (t0, r0) = split_once(line, seq![' ']);
    match method_of(t0) {
        None => Err(HttpParseError::InvalidMethod),
        Some(method) => match r0 {
            None => Err(HttpParseError::InvalidPath),
            Some(r0) => {
                let (t1, r1) = split_once(r0, seq![' ']);
                if t1.len() == 0 {
                    Err(HttpParseError::InvalidPath)
                } else {
                    match r1 {
                        None => Err(HttpParseError::InvalidHttpVersion),
                        Some(r1) => match version_of(split_once(r1, seq![' ']).0) {
                            None => Err(HttpParseError::InvalidHttpVersion),
                            Some(http_version) => {
                                let hs = match header_text {
                                    Some(h) => headers_from(h, Map::empty()),
                                    None => Ok(Map::empty()),
                                };
                                match hs {
                                    Err(e) => Err(e),
                                    Ok(headers) => {
                                        let (path, query, fragment) = normalized(t1);
                                        Ok(
                                            RequestView {
                                                method,
                                                http_version,
                                                path,
                                                query,
                                                fragment,
                                                headers,
                                                body: body_of(body_part),
                                            },
                                        )
                                    },
                                }
                            },
                        },
                    }
                }
            },
        },
    }
}

/// The version named by `v[lo..hi]`.
pub fn version_in(v: &Vec<char>, lo: usize, hi: usize) -> (r: Option<HttpVersion>)
    requires
        lo <= hi <= v@.len(),
    ensures
        r == version_of(v@.subrange(lo as int, hi as int)),
{
    proof {
        assert(['H', 'T', 'T', 'P', '/', '1', '.', '1']@ == seq!['H', 'T', 'T', 'P', '/', '1', '.', '1']);
        assert(['H', 'T', 'T', 'P', '/', '2', '.', '0']@ == seq!['H', 'T', 'T', 'P', '/', '2', '.', '0']);
    }
    if range_is(v, lo, hi, &['H', 'T', 'T', 'P', '/', '1', '.', '1']) {
        Some(HttpVersion::Http1_1)
    } else if range_is(v, lo, hi, &['H', 'T', 'T', 'P', '/', '2', '.', '0']) {
        Some(HttpVersion::Http2_0)
    } else {
        None
    }
}

/// The header lines of `v[lo..hi]`, read into a header map.
fn headers_in(v: &Vec<char>, lo: usize, hi: usize) -> (r: Result<Headers, HttpParseError>)
    requires
        lo <= hi <= v@.len(),
    ensures
        match r {
            Ok(h) => headers_from(v@.subrange(lo as int, hi as int), Map::empty()) == Ok::<
                Map<Seq<char>, Seq<char>>,
                HttpParseError,
            >(h@),
            Err(e) => headers_from(v@.subrange(lo as int, hi as int), Map::empty()) == Err::<
                Map<Seq<char>, Seq<char>>,
                HttpParseError,
            >(e),
        },
{
    assert(['\r', '\n']@ =~= crlf());
    assert([':']@ =~= seq![':']);
    let mut headers = Headers::new();
    let mut pos: usize = lo;
    loop
        invariant
            lo <= pos <= hi <= v@.len(),
            headers_from(v@.subrange(lo as int, hi as int), Map::empty()) == headers_from(
                v@.subrange(pos as int, hi as int),
                headers@,
            ),
        decreases hi - pos,
    {
        assert(['\r', '\n']@ =~= crlf());
        assert([':']@ =~= seq![':']);
        let (le, next) = split_in(v, pos, hi, &['\r', '\n']);
        if le == pos {
            return Ok(headers);
        }
        let (ne, vs) = split_in(v, pos, le, &[':']);
        let vs = match vs {
            Some(vs) => vs,
            None => {
                return Err(HttpParseError::InvalidHeaderSyntax);
            },
        };
        let (na, nb) = trim_range(v, pos, ne);
        let (va, vb) = trim_range(v, vs, le);
        if na == nb || va == vb {
            return Err(HttpParseError::InvalidHeaderSyntax);
        }
        let name = string_of(v, na, nb);
        let value = string_of(v, va, vb);
        headers.set_header(name.as_str(), value.as_str());
        match next {
            Some(n) => {
                pos = n;
            },
            None => {
                return Ok(headers);
            },
        }
    }
}

/// The method that a request-line token names.
pub fn get_method(method: Option<&str>) -> (r: Result<Method, HttpParseError>)
    ensures
        match method {
            Some(t) => match method_of(t@) {
                Some(m) => r == Ok::<Method, HttpParseError>(m),
                None => r == Err::<Method, HttpParseError>(HttpParseError::InvalidMethod),
            },
            None => r == Err::<Method, HttpParseError>(HttpParseError::InvalidMethod),
        },
{
    match method {
        Some(t) => {
            let v = chars_of(t);
            assert(v@.subrange(0, v@.len() as int) =~= t@);
            match method_in(&v, 0, v.len()) {
                Some(m) => Ok(m),
                None => Err(HttpParseError::InvalidMethod),
            }
        },
        None => Err(HttpParseError::InvalidMethod),
    }
}

/// The version that a request-line token names.
pub fn get_http_version(version: Option<&str>) -> (r: Result<HttpVersion, HttpParseError>)
    ensures
        match version {
            Some(t) => match version_of(t@) {
                Some(ver) => r == Ok::<HttpVersion, HttpParseError>(ver),
                None => r == Err::<HttpVersion, HttpParseError>(HttpParseError::InvalidHttpVersion),
            },
            None => r == Err::<HttpVersion, HttpParseError>(HttpParseError::InvalidHttpVersion),
        },
{
    match version {
        Some(t) => {
            let v = chars_of(t);
            assert(v@.subrange(0, v@.len() as int) =~= t@);
            match version_in(&v, 0, v.len()) {
                Some(ver) => Ok(ver),
                None => Err(HttpParseError::InvalidHttpVersion),
            }
        },
        None => Err(HttpParseError::InvalidHttpVersion),
    }
}

/// Path, query and fragment of a request-line target, which must be present
/// and not empty.
pub fn get_path(req: Option<&str>) -> (r: Result<(String, Option<String>, Option<String>), HttpParseError>)
    ensures
        match req {
            Some(t) if t@.len() > 0 => match r {
                Ok(p) => (p.0@, opt_view(p.1), opt_view(p.2)) == normalized(t@),
                Err(_) => false,
            },
            _ => r matches Err(HttpParseError::InvalidPath),
        },
{
    match req {
        Some(t) => {
            let v = chars_of(t);
            if v.len() == 0 {
                return Err(HttpParseError::InvalidPath);
            }
            assert(v@.subrange(0, v@.len() as int) =~= t@);
            Ok(normalize_in(&v, 0, v.len()))
        },
        None => Err(HttpParseError::InvalidPath),
    }
}

/// Parses the text of a request.
pub fn internal_parse(req: String) -> (r: Result<Request, HttpParseError>)
    ensures
        match r {
            Ok(q) => parsed(req@) == Ok::<RequestView, HttpParseError>(q@),
            Err(e) => parsed(req@) == Err::<RequestView, HttpParseError>(e),
        },
        r matches Ok(q) ==> q.path@.len() > 0 && q.path@.last() == '/',
{
    let v = chars_of(req.as_str());
    let n = v.len();
    assert(v@.subrange(0, n as int) =~= v@);
    assert(['\r', '\n', '\r', '\n']@ =~= blank_line());
    assert(['\r', '\n']@ =~= crlf());
    assert([' ']@ =~= seq![' ']);
    let (head_end, body_start) = split_in(&v, 0, n, &['\r', '\n', '\r', '\n']);
    let (line_end, headers_start) = split_in(&v, 0, head_end, &['\r', '\n']);
    assert(v@.subrange(0, head_end as int).subrange(0, line_end as int) =~= v@.subrange(0, line_end as int));
    let (t0_end, r0) = split_in(&v, 0, line_end, &[' ']);
    let method = match method_in(&v, 0, t0_end) {
        Some(m) => m,
        None => {
            return Err(HttpParseError::InvalidMethod);
        },
    };
    let r0 = match r0 {
        Some(p) => p,
        None => {
            return Err(HttpParseError::InvalidPath);
        },
    };
    let (t1_end, r1) = split_in(&v, r0, line_end, &[' ']);
    if t1_end == r0 {
        return Err(HttpParseError::InvalidPath);
    }
    let r1 = match r1 {
        Some(p) => p,
        None => {
            return Err(HttpParseError::InvalidHttpVersion);
        },
    };
    let (t2_end, _) = split_in(&v, r1, line_end, &[' ']);
    let http_version = match version_in(&v, r1, t2_end) {
        Some(ver) => ver,
        None => {
            return Err(HttpParseError::InvalidHttpVersion);
        },
    };
    let headers = match headers_start {
        Some(h) => {
            match headers_in(&v, h, head_end) {
                Ok(hs) => hs,
                Err(e) => {
                    return Err(e);
                },
            }
        },
        None => Headers::new(),
    };
    let (path, query, fragment) = normalize_in(&v, r0, t1_end);
    proof {
        lemma_normalized_path_shape(v@.subrange(r0 as int, t1_end as int));
    }
    let body = match body_start {
        Some(b) => trimmed_string(&v, b, n),
        None => None,
    };
    let r = Request { method, http_version, path, query, fragment, headers, body };
    Ok(r)
}

/// A text without a carriage return is a lone request line: it has no
/// header lines and no body.
proof fn lemma_lone_line(s: Seq<char>)
    requires
        lacks(s, '\r'),
    ensures
        split_once(s, blank_line()) == (s, None::<Seq<char>>),
        split_once(s, crlf()) == (s, None::<Seq<char>>),
{
    assert(blank_line()[0] == '\r' && crlf()[0] == '\r');
    lemma_find_none(s, blank_line());
    lemma_find_none(s, crlf());
}

/// A method token holds neither spaces nor carriage returns.
proof fn lemma_method_token(m: Seq<char>)
    requires
        method_of(m) is Some,
    ensures
        lacks(m, ' '),
        lacks(m, '\r'),
{
}

/// Empty input names no method.
pub proof fn lemma_empty_input()
    ensures
        parsed(Seq::empty()) == Err::<RequestView, HttpParseError>(HttpParseError::InvalidMethod),
{
    let e = Seq::<char>::empty();
    lemma_lone_line(e);
    lemma_find_none(e, seq![' ']);
}

/// A request line with a method and nothing after it lacks its path.
pub proof fn lemma_path_absent(m: Seq<char>)
    requires
        method_of(m) is Some,
    ensures
        parsed(m) == Err::<RequestView, HttpParseError>(HttpParseError::InvalidPath),
{
    lemma_method_token(m);
    lemma_lone_line(m);
    lemma_find_none(m, seq![' ']);
}

/// A request line whose method is followed by an empty path token (a space
/// at the end, or two spaces in a row) lacks its path.
pub proof fn lemma_path_blank(m: Seq<char>, rest: Seq<char>)
    requires
        method_of(m) is Some,
        lacks(rest, '\r'),
        rest.len() == 0 || rest[0] == ' ',
    ensures
        parsed(m + seq![' '] + rest) == Err::<RequestView, HttpParseError>(HttpParseError::InvalidPath),
{
    let s = m + seq![' '] + rest;
    lemma_method_token(m);
    assert(lacks(s, '\r')) by {
        assert forall|i: int| 0 <= i < s.len() implies #[trigger] s[i] != '\r' by {
            if i < m.len() {
                assert(s[i] == m[i]);
            } else if i > m.len() {
                assert(s[i] == rest[i - m.len() - 1]);
            }
        }
    }
    lemma_lone_line(s);
    lemma_find_after(m, seq![' '], rest);
    assert(s.subrange(0, m.len() as int) =~= m);
    assert(s.subrange(m.len() + 1int, s.len() as int) =~= rest);
    if rest.len() > 0 {
        lemma_find_after(Seq::empty(), seq![' '], rest.drop_first());
        assert(Seq::<char>::empty() + seq![' '] + rest.drop_first() =~= rest);
    } else {
        lemma_find_none(rest, seq![' ']);
    }
}

/// A request line with a method and a path and nothing after them lacks its
/// version.
pub proof fn lemma_version_absent(m: Seq<char>, p: Seq<char>)
    requires
        method_of(m) is Some,
        p.len() > 0,
        lacks(p, ' '),
        lacks(p, '\r'),
    ensures
        parsed(m + seq![' '] + p) == Err::<RequestView, HttpParseError>(HttpParseError::InvalidHttpVersion),
{
    let s = m + seq![' '] + p;
    lemma_method_token(m);
    assert(lacks(s, '\r')) by {
        assert forall|i: int| 0 <= i < s.len() implies #[trigger] s[i] != '\r' by {
            if i < m.len() {
                assert(s[i] == m[i]);
            } else if i > m.len() {
                assert(s[i] == p[i - m.len() - 1]);
            }
        }
    }
    lemma_lone_line(s);
    lemma_find_after(m, seq![' '], p);
    assert(s.subrange(0, m.len() as int) =~= m);
    assert(s.subrange(m.len() + 1int, s.len() as int) =~= p);
    lemma_find_none(p, seq![' ']);
}

/// A request line with a method and a path whose third token is not one of
/// the two version literals (such as `HTTP/1.0`) has an invalid version.
pub proof fn lemma_version_invalid(m: Seq<char>, p: Seq<char>, rest: Seq<char>)
    requires
        method_of(m) is Some,
        p.len() > 0,
        lacks(p, ' '),
        lacks(p, '\r'),
        lacks(rest, '\r'),
        version_of(split_once(rest, seq![' ']).0) is None,
    ensures
        parsed(m + seq![' '] + p + seq![' '] + rest) == Err::<RequestView, HttpParseError>(
            HttpParseError::InvalidHttpVersion,
        ),
{
    let tail = p + seq![' '] + rest;
    let s = m + seq![' '] + tail;
    assert(s =~= m + seq![' '] + p + seq![' '] + rest);
    lemma_method_token(m);
    assert(lacks(s, '\r')) by {
        assert forall|i: int| 0 <= i < s.len() implies #[trigger] s[i] != '\r' by {
            if i < m.len() {
                assert(s[i] == m[i]);
            } else if i > m.len() && i < m.len() + 1 + p.len() {
                assert(s[i] == p[i - m.len() - 1]);
            } else if i > m.len() + 1 + p.len() {
                assert(s[i] == rest[i - m.len() - 2 - p.len()]);
            }
        }
    }
    lemma_lone_line(s);
    lemma_find_after(m, seq![' '], tail);
    assert(s.subrange(0, m.len() as int) =~= m);
    assert(s.subrange(m.len() + 1int, s.len() as int) =~= tail);
    lemma_find_after(p, seq![' '], rest);
    assert(tail.subrange(0, p.len() as int) =~= p);
    assert(tail.subrange(p.len() + 1int, tail.len() as int) =~= rest);
}

} // verus!

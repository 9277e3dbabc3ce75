//! The canonical wire form of a request, and the proof that parsing it gives
//! the request back.
use vstd::prelude::*;
use crate::headers::{map_of, wf_pairs};
use crate::parse::{blank_line, body_of, crlf, header_of, headers_from, method_of, parsed, version_of};
use crate::path::{normalized, slash_terminated};
use crate::respond::version_text;
use crate::text::{
    chars_of, is_ws, lacks, lemma_find_after, lemma_find_none, lemma_trim_same, lower_of, no_ws, push_all,
    split_once, trim, trim_start,
};
use crate::types::{HttpVersion, Method, Request, RequestView};

verus! {

/// The wire form of a method.
pub open spec fn method_text(m: Method) -> Seq<char> {
    match m {
        Method::Get => seq!['G', 'E', 'T'],
        Method::Post => seq!['P', 'O', 'S', 'T'],
        Method::Put => seq!['P', 'U', 'T'],
        Method::Head => seq!['H', 'E', 'A', 'D'],
        Method::Delete => seq!['D', 'E', 'L', 'E', 'T', 'E'],
        Method::Options => seq!['O', 'P', 'T', 'I', 'O', 'N', 'S'],
        Method::Patch => seq!['P', 'A', 'T', 'C', 'H'],
    }
}

/// The request target: path, then `?` and the query, then `#` and the
/// fragment, each where present.
pub open spec fn target_text(v: RequestView) -> Seq<char> {
    v.path + match v.query {
        Some(q) => seq!['?'] + q,
        None => Seq::empty(),
    } + match v.fragment {
        Some(f) => seq!['#'] + f,
        None => Seq::empty(),
    }
}

/// `<method> <target> <version>`.
pub open spec fn request_line(v: RequestView) -> Seq<char> {
    method_text(v.method) + seq![' '] + target_text(v) + seq![' '] + version_text(v.http_version)
}

/// `<name>: <value>`.
pub open spec fn field_line(p: (Seq<char>, Seq<char>)) -> Seq<char> {
    p.0 + seq![':', ' '] + p.1
}

/// The header lines for pairs `i..`, each ended by a line end.
pub open spec fn fields_from(ps: Seq<(Seq<char>, Seq<char>)>, i: int) -> Seq<char>
    decreases ps.len() - i,
{
    if i < 0 || i >= ps.len() {
        Seq::empty()
    } else {
        field_line(ps[i]) + crlf() + fields_from(ps, i + 1)
    }
}

/// The body text: the body, or nothing.
pub open spec fn body_text(b: Option<Seq<char>>) -> Seq<char> {
    match b {
        Some(b) => b,
        None => Seq::empty(),
    }
}

/// The canonical wire form of a request: request line, header lines in the
/// order they are kept, a blank line and the body.
pub open spec fn wire_of(r: Request) -> Seq<char> {
    request_line(r@) + crlf() + fields_from(r.headers.pairs(), 0) + crlf() + body_text(r@.body)
}

/// Not empty, and neither starting nor ending with whitespace.
pub open spec fn is_trimmed(s: Seq<char>) -> bool {
    s.len() > 0 && !is_ws(s[0]) && !is_ws(s.last())
}

/// A header pair that a header line reads back as: a name of
/// non-whitespace characters other than `:`, and a trimmed value without a
/// carriage return.
pub open spec fn is_field_line(p: (Seq<char>, Seq<char>)) -> bool {
    &&& p.0.len() > 0
    &&& no_ws(p.0)
    &&& lacks(p.0, ':')
    &&& is_trimmed(p.1)
    &&& lacks(p.1, '\r')
}

/// A header pair that a header line carries unchanged into the header map:
/// one that `is_field_line` admits, whose name is its own lower-case form.
pub open spec fn is_field(p: (Seq<char>, Seq<char>)) -> bool {
    is_field_line(p) && lower_of(p.0) == p.0
}

/// A request that its wire form carries unchanged: a slash-terminated path
/// without `?` or `#`; a query without `#`; a fragment without `?` where there
/// is no query; none of these empty or holding whitespace; header pairs as
/// `is_field` says, kept as the header map keeps them; a trimmed body.
pub open spec fn is_well_formed(r: Request) -> bool {
    let v = r@;
    &&& v.path.len() > 0
    &&& no_ws(v.path)
    &&& v.path.last() == '/'
    &&& lacks(v.path, '?')
    &&& lacks(v.path, '#')
    &&& (v.query matches Some(q) ==> q.len() > 0 && no_ws(q) && lacks(q, '#'))
    &&& (v.fragment matches Some(f) ==> f.len() > 0 && no_ws(f) && (v.query is None ==> lacks(
        f,
        '?',
    )))
    &&& wf_pairs(r.headers.pairs())
    &&& forall|i: int| 0 <= i < r.headers.pairs().len() ==> is_field(#[trigger] r.headers.pairs()[i])
    &&& (v.body matches Some(b) ==> is_trimmed(b))
}

proof fn lemma_method_text(m: Method)
    ensures
        method_of(method_text(m)) == Some(m),
        no_ws(method_text(m)),
        method_text(m).len() > 0,
{
    reveal_with_fuel(crate::text::find_from, 1);
}

proof fn lemma_version_text(v: crate::types::HttpVersion)
    ensures
        version_of(version_text(v)) == Some(v),
        no_ws(version_text(v)),
{
}

/// A carriage return in the header lines is followed by a line feed and then
/// by the end of the lines or by a character other than a carriage return.
proof fn lemma_fields_shape(ps: Seq<(Seq<char>, Seq<char>)>, i: int)
    requires
        0 <= i,
        forall|k: int| 0 <= k < ps.len() ==> is_field_line(#[trigger] ps[k]),
    ensures
        ({
            let f = fields_from(ps, i);
            &&& (f.len() == 0 <==> i >= ps.len())
            &&& f.len() > 0 ==> f.len() >= 2 && f[0] != '\r' && f[f.len() - 2] == '\r' && f[f.len() - 1] == '\n'
            &&& forall|k: int|
                0 <= k < f.len() && #[trigger] f[k] == '\r' ==> k + 1 < f.len() && f[k + 1] == '\n' && (k + 2 == f.len() || (k + 2 < f.len()
                    && f[k + 2] != '\r'))
        }),
    decreases ps.len() - i,
{
    if i < ps.len() {
        lemma_fields_shape(ps, i + 1);
        let p = ps[i];
        assert(is_field_line(p));
        let l = field_line(p);
        let g = fields_from(ps, i + 1);
        let f = fields_from(ps, i);
        assert(f == l + crlf() + g);
        assert(forall|k: int| 0 <= k < l.len() ==> l[k] != '\r') by {
            assert forall|k: int| 0 <= k < l.len() implies l[k] != '\r' by {
                if k < p.0.len() {
                    assert(l[k] == p.0[k]);
                    assert(!is_ws(p.0[k]));
                } else if k >= p.0.len() + 2 {
                    assert(l[k] == p.1[k - p.0.len() - 2]);
                }
            }
        }
        assert(l[0] == p.0[0]);
        assert(!is_ws(p.0[0]));
        assert forall|k: int| 0 <= k < f.len() && #[trigger] f[k] == '\r' implies k + 1 < f.len() && f[k + 1] == '\n' && (k + 2 == f.len() || (k + 2
            < f.len() && f[k + 2] != '\r')) by {
            if k < l.len() {
                assert(f[k] == l[k]);
            } else if k == l.len() {
                if g.len() > 0 {
                    assert(f[k + 2] == g[0]);
                }
            } else if k == l.len() + 1 {
                assert(f[k] == '\n');
            } else {
                let k2 = k - l.len() - 2;
                assert(f[k] == g[k2]);
                assert(g[k2] == '\r');
                assert(f[k + 1] == g[k2 + 1]);
                if k2 + 2 < g.len() {
                    assert(f[k + 2] == g[k2 + 2]);
                }
            }
        }
    }
}

/// Where the line holds no carriage return, the head of the wire form ends
/// right after the last header line.
proof fn lemma_blank_line_at(line: Seq<char>, ps: Seq<(Seq<char>, Seq<char>)>, b: Seq<char>)
    requires
        lacks(line, '\r'),
        forall|k: int| 0 <= k < ps.len() ==> is_field(#[trigger] ps[k]),
    ensures
        ({
            let f = fields_from(ps, 0);
            let s = line + crlf() + f + crlf() + b;
            let i0 = if f.len() == 0 { line.len() as int } else { (line.len() + f.len()) as int };
            &&& crate::text::find(s, blank_line()) == Some(i0)
            &&& split_once(s, blank_line()).1 == Some(b)
            &&& split_once(s, blank_line()).0 == if f.len() == 0 {
                line
            } else {
                line + crlf() + f.subrange(0, f.len() - 2)
            }
        }),
{
    lemma_fields_shape(ps, 0);
    let f = fields_from(ps, 0);
    let s = line + crlf() + f + crlf() + b;
    let i0 = if f.len() == 0 { line.len() as int } else { (line.len() + f.len()) as int };
    let n = line.len() as int;
    crate::text::lemma_find(s, blank_line());
    assert(s.subrange(i0, i0 + 4) =~= blank_line());
    assert forall|j: int| 0 <= j < i0 implies #[trigger] s.subrange(j, j + 4) != blank_line() by {
        let w = s.subrange(j, j + 4);
        if j < n {
            assert(w[0] == line[j]);
        } else if j == n {
            assert(w[2] == f[0]);
        } else if j == n + 1 {
            assert(w[0] == '\n');
        } else {
            let k = j - n - 2;
            assert(w[0] == f[k]);
            if f[k] == '\r' {
                assert(w[2] == f[k + 2]);
            }
        }
    }
    match crate::text::find(s, blank_line()) {
        Some(i) => {
            if i > i0 {
                assert(s.subrange(i0, i0 + 4) == blank_line());
            }
        },
        None => {},
    }
    assert(s.subrange(i0 + 4, s.len() as int) =~= b);
    if f.len() == 0 {
        assert(s.subrange(0, i0) =~= line);
    } else {
        assert(s.subrange(0, i0) =~= line + crlf() + f.subrange(0, f.len() - 2));
    }
}

/// The header lines for pairs `i..`, without the final line end.
pub open spec fn fields_core(ps: Seq<(Seq<char>, Seq<char>)>, i: int) -> Seq<char> {
    let f = fields_from(ps, i);
    f.subrange(0, f.len() - 2)
}

proof fn lemma_trim_after_space(v: Seq<char>)
    requires
        is_trimmed(v),
    ensures
        trim(seq![' '] + v) == v,
{
    assert((seq![' '] + v).drop_first() =~= v);
    assert(trim_start(seq![' '] + v) == trim_start(v));
}

/// Reading the header lines for pairs `i..` into the map of pairs `..i`
/// gives the map of all the pairs.
proof fn lemma_headers_read(ps: Seq<(Seq<char>, Seq<char>)>, i: int)
    requires
        0 <= i < ps.len(),
        forall|k: int| 0 <= k < ps.len() ==> is_field(#[trigger] ps[k]),
    ensures
        headers_from(fields_core(ps, i), map_of(ps.subrange(0, i))) == Ok::<
            Map<Seq<char>, Seq<char>>,
            crate::types::HttpParseError,
        >(map_of(ps)),
    decreases ps.len() - i,
{
    lemma_fields_shape(ps, i + 1);
    let p = ps[i];
    assert(is_field(p));
    let l = field_line(p);
    let g = fields_from(ps, i + 1);
    let core = fields_core(ps, i);
    assert(fields_from(ps, i) == l + crlf() + g);
    assert(crlf()[0] == '\r');
    assert forall|k: int| 0 <= k < l.len() implies l[k] != crlf()[0] by {
        if k < p.0.len() {
            assert(l[k] == p.0[k]);
            assert(!is_ws(p.0[k]));
        } else if k >= p.0.len() + 2 {
            assert(l[k] == p.1[k - p.0.len() - 2]);
        }
    }
    let rest: Option<Seq<char>> = if i + 1 < ps.len() {
        Some(fields_core(ps, i + 1))
    } else {
        None
    };
    if i + 1 < ps.len() {
        assert(core =~= l + crlf() + fields_core(ps, i + 1));
        lemma_find_after(l, crlf(), fields_core(ps, i + 1));
        assert((l + crlf() + fields_core(ps, i + 1)).subrange(0, l.len() as int) =~= l);
        assert((l + crlf() + fields_core(ps, i + 1)).subrange(l.len() + 2int, (l + crlf() + fields_core(ps, i + 1)).len() as int) =~= fields_core(ps, i + 1));
    } else {
        assert(core =~= l);
        lemma_find_none(l, crlf());
    }
    assert(split_once(core, crlf()) == (l, rest));
    // The header line itself.
    assert(seq![':'][0] == ':');
    assert forall|k: int| 0 <= k < p.0.len() implies p.0[k] != seq![':'][0] by {
        assert(p.0[k] != ':');
    }
    assert(l =~= p.0 + seq![':'] + (seq![' '] + p.1));
    lemma_find_after(p.0, seq![':'], seq![' '] + p.1);
    assert((p.0 + seq![':'] + (seq![' '] + p.1)).subrange(0, p.0.len() as int) =~= p.0);
    assert((p.0 + seq![':'] + (seq![' '] + p.1)).subrange(p.0.len() + 1int, l.len() as int) =~= seq![' '] + p.1);
    assert(split_once(l, seq![':']) == (p.0, Some(seq![' '] + p.1)));
    assert(!is_ws(p.0[0]));
    assert(!is_ws(p.0.last()));
    lemma_trim_same(p.0);
    lemma_trim_after_space(p.1);
    assert(header_of(l) == Some(p));
    assert(l.len() > 0);
    assert(ps.subrange(0, i + 1).drop_last() =~= ps.subrange(0, i));
    assert(map_of(ps.subrange(0, i + 1)) == map_of(ps.subrange(0, i)).insert(p.0, p.1));
    if i + 1 < ps.len() {
        lemma_headers_read(ps, i + 1);
    } else {
        assert(ps.subrange(0, i + 1) =~= ps);
    }
}

/// The target of a well-formed request normalizes to its path, query and
/// fragment, and holds no whitespace.
proof fn lemma_target(r: Request)
    requires
        is_well_formed(r),
    ensures
        normalized(target_text(r@)) == (r@.path, r@.query, r@.fragment),
        no_ws(target_text(r@)),
        target_text(r@).len() > 0,
{
    let v = r@;
    let p = v.path;
    let t = target_text(v);
    let qm = seq!['?'];
    let hm = seq!['#'];
    assert(qm[0] == '?' && hm[0] == '#');
    assert(slash_terminated(p) == p);
    assert(forall|j: int| 0 <= j < p.len() ==> p[j] != qm[0]);
    assert(forall|j: int| 0 <= j < p.len() ==> p[j] != hm[0]);
    match (v.query, v.fragment) {
        (Some(q), Some(f)) => {
            lemma_trim_same(q);
            lemma_trim_same(f);
            let rest = q + hm + f;
            assert(t =~= p + qm + rest);
            lemma_find_after(p, qm, rest);
            assert(t.subrange(0, p.len() as int) =~= p);
            assert(t.subrange(p.len() + 1int, t.len() as int) =~= rest);
            assert(forall|j: int| 0 <= j < q.len() ==> q[j] != hm[0]);
            lemma_find_after(q, hm, f);
            assert(rest.subrange(0, q.len() as int) =~= q);
            assert(rest.subrange(q.len() + 1int, rest.len() as int) =~= f);
            assert forall|j: int| 0 <= j < t.len() implies !is_ws(#[trigger] t[j]) by {
                if j < p.len() {
                    assert(t[j] == p[j]);
                } else if j > p.len() && j < p.len() + 1 + q.len() {
                    assert(t[j] == q[j - p.len() - 1]);
                } else if j > p.len() + 1 + q.len() {
                    assert(t[j] == f[j - p.len() - 2 - q.len()]);
                }
            }
        },
        (Some(q), None) => {
            lemma_trim_same(q);
            assert(t =~= p + qm + q);
            lemma_find_after(p, qm, q);
            assert(t.subrange(0, p.len() as int) =~= p);
            assert(t.subrange(p.len() + 1int, t.len() as int) =~= q);
            lemma_find_none(q, hm);
            assert forall|j: int| 0 <= j < t.len() implies !is_ws(#[trigger] t[j]) by {
                if j < p.len() {
                    assert(t[j] == p[j]);
                } else if j > p.len() {
                    assert(t[j] == q[j - p.len() - 1]);
                }
            }
        },
        (None, Some(f)) => {
            lemma_trim_same(f);
            assert(t =~= p + hm + f);
            assert forall|j: int| 0 <= j < t.len() implies t[j] != qm[0] by {
                if j < p.len() {
                    assert(t[j] == p[j]);
                } else if j > p.len() {
                    assert(t[j] == f[j - p.len() - 1]);
                }
            }
            lemma_find_none(t, qm);
            lemma_find_after(p, hm, f);
            assert(t.subrange(0, p.len() as int) =~= p);
            assert(t.subrange(p.len() + 1int, t.len() as int) =~= f);
            assert forall|j: int| 0 <= j < t.len() implies !is_ws(#[trigger] t[j]) by {
                if j < p.len() {
                    assert(t[j] == p[j]);
                } else if j > p.len() {
                    assert(t[j] == f[j - p.len() - 1]);
                }
            }
        },
        (None, None) => {
            assert(t =~= p);
            lemma_find_none(p, qm);
            lemma_find_none(p, hm);
        },
    }
}

/// The request line splits into the method, target and version tokens.
proof fn lemma_line_tokens(r: Request)
    requires
        is_well_formed(r),
    ensures
        ({
            let v = r@;
            let m = method_text(v.method);
            let t = target_text(v);
            let ver = version_text(v.http_version);
            let sp = seq![' '];
            let line = request_line(v);
            &&& lacks(line, '\r')
            &&& split_once(line, sp) == (m, Some(t + sp + ver))
            &&& split_once(t + sp + ver, sp) == (t, Some(ver))
            &&& split_once(ver, sp).0 == ver
        }),
{
    let v = r@;
    lemma_target(r);
    lemma_method_text(v.method);
    lemma_version_text(v.http_version);
    let m = method_text(v.method);
    let t = target_text(v);
    let ver = version_text(v.http_version);
    let sp = seq![' '];
    let line = request_line(v);
    assert(sp[0] == ' ');
    assert(line =~= m + sp + (t + sp + ver));
    assert forall|j: int| 0 <= j < line.len() implies #[trigger] line[j] != '\r' by {
        if j < m.len() {
            assert(line[j] == m[j] && !is_ws(m[j]));
        } else if j > m.len() && j < m.len() + 1 + t.len() {
            assert(line[j] == t[j - m.len() - 1] && !is_ws(t[j - m.len() - 1]));
        } else if j > m.len() + 1 + t.len() {
            assert(line[j] == ver[j - m.len() - 2 - t.len()] && !is_ws(ver[j - m.len() - 2 - t.len()]));
        }
    }
    assert(forall|j: int| 0 <= j < m.len() ==> m[j] != sp[0] && !is_ws(m[j]));
    lemma_find_after(m, sp, t + sp + ver);
    assert(line.subrange(0, m.len() as int) =~= m);
    assert(line.subrange(m.len() + 1int, line.len() as int) =~= t + sp + ver);
    assert(forall|j: int| 0 <= j < t.len() ==> t[j] != sp[0] && !is_ws(t[j]));
    lemma_find_after(t, sp, ver);
    assert((t + sp + ver).subrange(0, t.len() as int) =~= t);
    assert((t + sp + ver).subrange(t.len() + 1int, (t + sp + ver).len() as int) =~= ver);
    assert(forall|j: int| 0 <= j < ver.len() ==> ver[j] != sp[0] && !is_ws(ver[j]));
    lemma_find_none(ver, sp);
}

/// The head of the wire form splits into the request line and header text
/// that reads back into the request's header map.
proof fn lemma_head_split(r: Request)
    requires
        is_well_formed(r),
        lacks(request_line(r@), '\r'),
    ensures
        ({
            let line = request_line(r@);
            let head = split_once(wire_of(r), blank_line()).0;
            let hs = match split_once(head, crlf()).1 {
                Some(h) => headers_from(h, Map::empty()),
                None => Ok(Map::empty()),
            };
            &&& split_once(head, crlf()).0 == line
            &&& hs == Ok::<Map<Seq<char>, Seq<char>>, crate::types::HttpParseError>(r@.headers)
            &&& split_once(wire_of(r), blank_line()).1 == Some(body_text(r@.body))
        }),
{
    let ps = r.headers.pairs();
    let line = request_line(r@);
    let b = body_text(r@.body);
    assert(crlf()[0] == '\r');
    lemma_blank_line_at(line, ps, b);
    let f = fields_from(ps, 0);
    assert(wire_of(r) == line + crlf() + f + crlf() + b);
    let head = split_once(wire_of(r), blank_line()).0;
    lemma_fields_shape(ps, 0);
    if f.len() == 0 {
        lemma_find_none(line, crlf());
        assert(split_once(head, crlf()) == (line, None::<Seq<char>>));
        assert(map_of(ps) == Map::<Seq<char>, Seq<char>>::empty());
    } else {
        let core = fields_core(ps, 0);
        assert(head =~= line + crlf() + core);
        lemma_find_after(line, crlf(), core);
        assert((line + crlf() + core).subrange(0, line.len() as int) =~= line);
        assert((line + crlf() + core).subrange(line.len() + 2int, (line + crlf() + core).len() as int) =~= core);
        assert(split_once(head, crlf()) == (line, Some(core)));
        lemma_headers_read(ps, 0);
        assert(ps.subrange(0, 0) =~= Seq::<(Seq<char>, Seq<char>)>::empty());
        assert(map_of(ps.subrange(0, 0)) == Map::<Seq<char>, Seq<char>>::empty());
    }
}

/// Parsing the canonical wire form of a well-formed request gives back its
/// method, path, query, fragment, version, header map and body.
pub proof fn lemma_round_trip(r: Request)
    requires
        is_well_formed(r),
    ensures
        parsed(wire_of(r)) == Ok::<RequestView, crate::types::HttpParseError>(r@),
{
    let v = r@;
    lemma_target(r);
    lemma_method_text(v.method);
    lemma_version_text(v.http_version);
    lemma_line_tokens(r);
    lemma_head_split(r);
    let b = body_text(v.body);
    match v.body {
        Some(bb) => {
            lemma_trim_same(bb);
        },
        None => {
            assert(trim(b) =~= Seq::<char>::empty());
        },
    }
    assert(body_of(Some(b)) == v.body);
}

fn method_chars(m: Method) -> (r: Vec<char>)
    ensures
        r@ == method_text(m),
{
    let r = match m {
        Method::Get => vec!['G', 'E', 'T'],
        Method::Post => vec!['P', 'O', 'S', 'T'],
        Method::Put => vec!['P', 'U', 'T'],
        Method::Head => vec!['H', 'E', 'A', 'D'],
        Method::Delete => vec!['D', 'E', 'L', 'E', 'T', 'E'],
        Method::Options => vec!['O', 'P', 'T', 'I', 'O', 'N', 'S'],
        Method::Patch => vec!['P', 'A', 'T', 'C', 'H'],
    };
    assert(r@ =~= method_text(m));
    r
}

fn version_chars(v: HttpVersion) -> (r: Vec<char>)
    ensures
        r@ == version_text(v),
{
    let r = match v {
        HttpVersion::Http1_1 => vec!['H', 'T', 'T', 'P', '/', '1', '.', '1'],
        HttpVersion::Http2_0 => vec!['H', 'T', 'T', 'P', '/', '2', '.', '0'],
    };
    assert(r@ =~= version_text(v));
    r
}

/// Appends the characters of a string.
fn push_string(s: &mut String, t: &String)
    ensures
        final(s)@ == old(s)@ + t@,
{
    let v = chars_of(t.as_str());
    push_all(s, &v);
}

impl Request {
    /// The canonical wire form of this request: request line, header lines
    /// in the order they are kept, a blank line and the body.
    pub fn to_wire(&self) -> (r: String)
        ensures
            r@ == wire_of(*self),
    {
        let crlf_chars = vec!['\r', '\n'];
        assert(crlf_chars@ =~= crlf());
        let mut s = String::new();
        push_all(&mut s, &method_chars(self.method));
        push_all(&mut s, &vec![' ']);
        push_string(&mut s, &self.path);
        if let Some(q) = &self.query {
            push_all(&mut s, &vec!['?']);
            push_string(&mut s, q);
        }
        if let Some(f) = &self.fragment {
            push_all(&mut s, &vec!['#']);
            push_string(&mut s, f);
        }
        push_all(&mut s, &vec![' ']);
        push_all(&mut s, &version_chars(self.http_version));
        assert(s@ =~= request_line(self@));
        push_all(&mut s, &crlf_chars);
        let ghost ps = self.headers.pairs();
        let ghost start = s@;
        let mut i: usize = 0;
        while i < self.headers.len()
            invariant
                i <= ps.len(),
                ps == self.headers.pairs(),
                crlf_chars@ == crlf(),
                start + fields_from(ps, 0) == s@ + fields_from(ps, i as int),
            decreases ps.len() - i,
        {
            let ghost before = s@;
            let (name, value) = self.headers.entry(i);
            push_string(&mut s, name);
            push_all(&mut s, &vec![':', ' ']);
            push_string(&mut s, value);
            push_all(&mut s, &crlf_chars);
            assert(fields_from(ps, i as int) == field_line(ps[i as int]) + crlf() + fields_from(ps, i + 1));
            assert(s@ =~= before + field_line(ps[i as int]) + crlf());
            assert(s@ + fields_from(ps, i + 1) =~= before + fields_from(ps, i as int));
            i = i + 1;
        }
        assert(s@ =~= start + fields_from(ps, 0));
        push_all(&mut s, &crlf_chars);
        if let Some(b) = &self.body {
            push_string(&mut s, b);
        }
        assert(s@ =~= wire_of(*self));
        s
    }
}

/// A header line reads back as its pair and holds no carriage return.
proof fn lemma_field_line(p: (Seq<char>, Seq<char>))
    requires
        is_field_line(p),
    ensures
        field_line(p).len() > 0,
        lacks(field_line(p), '\r'),
        header_of(field_line(p)) == Some(p),
{
    let l = field_line(p);
    assert forall|k: int| 0 <= k < l.len() implies #[trigger] l[k] != '\r' by {
        if k < p.0.len() {
            assert(l[k] == p.0[k]);
            assert(!is_ws(p.0[k]));
        } else if k >= p.0.len() + 2 {
            assert(l[k] == p.1[k - p.0.len() - 2]);
        }
    }
    assert(seq![':'][0] == ':');
    assert forall|k: int| 0 <= k < p.0.len() implies p.0[k] != seq![':'][0] by {
        assert(p.0[k] != ':');
    }
    assert(l =~= p.0 + seq![':'] + (seq![' '] + p.1));
    lemma_find_after(p.0, seq![':'], seq![' '] + p.1);
    assert((p.0 + seq![':'] + (seq![' '] + p.1)).subrange(0, p.0.len() as int) =~= p.0);
    assert((p.0 + seq![':'] + (seq![' '] + p.1)).subrange(p.0.len() + 1int, l.len() as int) =~= seq![' '] + p.1);
    assert(split_once(l, seq![':']) == (p.0, Some(seq![' '] + p.1)));
    assert(!is_ws(p.0[0]));
    assert(!is_ws(p.0.last()));
    lemma_trim_same(p.0);
    lemma_trim_after_space(p.1);
}

/// Header lines read in turn up to a bad line `h` end in the error that
/// `h` gives, whatever map they started from.
proof fn lemma_headers_then_bad(gs: Seq<(Seq<char>, Seq<char>)>, i: int, h: Seq<char>, acc: Map<Seq<char>, Seq<char>>)
    requires
        0 <= i,
        forall|k: int| 0 <= k < gs.len() ==> is_field_line(#[trigger] gs[k]),
        h.len() > 0,
        lacks(h, '\r'),
        header_of(h) is None,
    ensures
        headers_from(fields_from(gs, i) + h, acc) == Err::<Map<Seq<char>, Seq<char>>, crate::types::HttpParseError>(
            crate::types::HttpParseError::InvalidHeaderSyntax,
        ),
    decreases gs.len() - i,
{
    assert(crlf()[0] == '\r');
    if i >= gs.len() {
        assert(fields_from(gs, i) + h =~= h);
        lemma_find_none(h, crlf());
    } else {
        let p = gs[i];
        assert(is_field_line(p));
        lemma_field_line(p);
        let l = field_line(p);
        let rest = fields_from(gs, i + 1) + h;
        assert(fields_from(gs, i) + h =~= l + crlf() + rest);
        lemma_find_after(l, crlf(), rest);
        assert((l + crlf() + rest).subrange(0, l.len() as int) =~= l);
        assert((l + crlf() + rest).subrange(l.len() + 2int, (l + crlf() + rest).len() as int) =~= rest);
        lemma_headers_then_bad(gs, i + 1, h, acc.insert(lower_of(p.0), p.1));
    }
}

/// Where the line and `h` hold no carriage return, the first blank line of
/// `line`, header lines, `h`, a blank line and a body comes right after `h`.
proof fn lemma_blank_after_bad(line: Seq<char>, gs: Seq<(Seq<char>, Seq<char>)>, h: Seq<char>, body: Seq<char>)
    requires
        lacks(line, '\r'),
        forall|k: int| 0 <= k < gs.len() ==> is_field_line(#[trigger] gs[k]),
        h.len() > 0,
        lacks(h, '\r'),
    ensures
        split_once(line + crlf() + fields_from(gs, 0) + h + blank_line() + body, blank_line()).0
            == line + crlf() + (fields_from(gs, 0) + h),
{
    lemma_fields_shape(gs, 0);
    let f = fields_from(gs, 0);
    let a = line + crlf() + (f + h);
    let s = a + blank_line() + body;
    assert(s =~= line + crlf() + fields_from(gs, 0) + h + blank_line() + body);
    let n = line.len() as int;
    let i0 = a.len() as int;
    assert forall|k: int| 0 <= k < i0 && #[trigger] s[k] == '\r' implies k == n || (n + 2 <= k
        < n + 2 + f.len() && f[k - n - 2] == '\r') by {
        assert(s[k] == a[k]);
        if k < n {
            assert(a[k] == line[k]);
        } else if k >= n + 2 + f.len() {
            assert(a[k] == h[k - n - 2 - f.len()]);
        } else if k >= n + 2 {
            assert(a[k] == f[k - n - 2]);
        }
    }
    assert forall|j: int| 0 <= j < i0 implies #[trigger] s.subrange(j, j + 4) != blank_line() by {
        let w = s.subrange(j, j + 4);
        assert(w[0] == s[j]);
        if s[j] == '\r' {
            assert(w[2] == s[j + 2]);
            if j == n {
                if f.len() > 0 {
                    assert(s[j + 2] == f[0]);
                } else {
                    assert(s[j + 2] == h[0]);
                }
            } else {
                let k = j - n - 2;
                if k + 2 == f.len() {
                    assert(s[j + 2] == h[0]);
                } else {
                    assert(s[j + 2] == f[k + 2]);
                }
            }
        }
    }
    assert(s.subrange(i0, i0 + 4) =~= blank_line());
    crate::text::lemma_find_at(s, blank_line(), i0);
    assert(s.subrange(0, i0) =~= a);
}

/// After a valid request line and header lines that read back, a header line
/// without a `:`, or with an empty name or value once trimmed, makes the
/// request invalid.
pub proof fn lemma_bad_header_line(
    line: Seq<char>,
    gs: Seq<(Seq<char>, Seq<char>)>,
    h: Seq<char>,
    body: Seq<char>,
)
    requires
        lacks(line, '\r'),
        parsed(line) is Ok,
        forall|k: int| 0 <= k < gs.len() ==> is_field_line(#[trigger] gs[k]),
        h.len() > 0,
        lacks(h, '\r'),
        header_of(h) is None,
    ensures
        parsed(line + crlf() + fields_from(gs, 0) + h + blank_line() + body) == Err::<
            RequestView,
            crate::types::HttpParseError,
        >(crate::types::HttpParseError::InvalidHeaderSyntax),
{
    let rest = fields_from(gs, 0) + h;
    assert(crlf()[0] == '\r' && blank_line()[0] == '\r');
    lemma_find_none(line, blank_line());
    lemma_find_none(line, crlf());
    lemma_blank_after_bad(line, gs, h, body);
    lemma_find_after(line, crlf(), rest);
    assert((line + crlf() + rest).subrange(0, line.len() as int) =~= line);
    assert((line + crlf() + rest).subrange(line.len() + 2int, (line + crlf() + rest).len() as int) =~= rest);
    lemma_headers_then_bad(gs, 0, h, Map::empty());
}

} // verus!
//! Decomposition of a raw request target into path, query and fragment.
use vstd::prelude::*;
use crate::text::{chars_of, lemma_find, push_all, split_in, split_once, string_of, trimmed_opt, trimmed_string};
use crate::types::opt_view;

verus! {

/// The path with a `/` at its end, added where it has none.
pub open spec fn slash_terminated(p: Seq<char>) -> Seq<char> {
    if p.len() > 0 && p.last() == '/' {
        p
    } else {
        p.push('/')
    }
}

/// Path, query and fragment of a raw request target. A `?` is looked for
/// first: what follows it is split at its first `#` into query and fragment.
/// Without a `?`, the target is split at its first `#` into path and
/// fragment. Query and fragment are trimmed and absent where empty.
pub open spec fn normalized(raw: Seq<char>) -> (Seq<char>, Option<Seq<char>>, Option<Seq<char>>) {
    let (before_q, after_q) = split_once(raw, seq!['?']);
    match after_q {
        Some(rest) => {
            let (q, f) = split_once(rest, seq!['#']);
            (
                slash_terminated(before_q),
                trimmed_opt(q),
                match f {
                    Some(f) => trimmed_opt(f),
                    None => None,
                },
            )
        },
        None => {
            let (p, f) = split_once(raw, seq!['#']);
            (
                slash_terminated(p),
                None,
                match f {
                    Some(f) => trimmed_opt(f),
                    None => None,
                },
            )
        },
    }
}

/// A normalized path is never empty and always ends with `/`.
pub proof fn lemma_normalized_path_shape(raw: Seq<char>)
    ensures
        normalized(raw).0.len() > 0,
        normalized(raw).0.last() == '/',
{
}

/// Normalizing is idempotent: a path that already ends with `/` and holds
/// no `?` or `#` is its own normal form, with no query and no fragment.
pub proof fn lemma_normalized_idempotent(p: Seq<char>)
    requires
        p.len() > 0,
        p.last() == '/',
        !p.contains('?'),
        !p.contains('#'),
    ensures
        normalized(p) == (p, None::<Seq<char>>, None::<Seq<char>>),
{
    lemma_find(p, seq!['?']);
    lemma_find(p, seq!['#']);
    if let Some(i) = crate::text::find(p, seq!['?']) {
        assert(p.subrange(i, i + 1)[0] == p[i]);
    }
    if let Some(i) = crate::text::find(p, seq!['#']) {
        assert(p.subrange(i, i + 1)[0] == p[i]);
    }
}

/// `v[lo..hi]` as a string, with a `/` at its end.
fn slash_terminated_string(v: &Vec<char>, lo: usize, hi: usize) -> (r: String)
    requires
        lo <= hi <= v@.len(),
    ensures
        r@ == slash_terminated(v@.subrange(lo as int, hi as int)),
{
    let mut s = string_of(v, lo, hi);
    if lo == hi || v[hi - 1] != '/' {
        let slash = vec!['/'];
        push_all(&mut s, &slash);
        assert(slash@ =~= seq!['/']);
    }
    s
}

/// Path, query and fragment of the raw request target `v[lo..hi]`.
pub fn normalize_in(v: &Vec<char>, lo: usize, hi: usize) -> (r: (String, Option<String>, Option<String>))
    requires
        lo <= hi <= v@.len(),
    ensures
        (r.0@, opt_view(r.1), opt_view(r.2)) == normalized(v@.subrange(lo as int, hi as int)),
{
    assert(['?']@ =~= seq!['?']);
    assert(['#']@ =~= seq!['#']);
    let (qe, qs) = split_in(v, lo, hi, &['?']);
    match qs {
        Some(rest) => {
            let path = slash_terminated_string(v, lo, qe);
            let (he, hs) = split_in(v, rest, hi, &['#']);
            let query = trimmed_string(v, rest, he);
            let fragment = match hs {
                Some(f) => trimmed_string(v, f, hi),
                None => None,
            };
            (path, query, fragment)
        },
        None => {
            let (he, hs) = split_in(v, lo, hi, &['#']);
            let path = slash_terminated_string(v, lo, he);
            let fragment = match hs {
                Some(f) => trimmed_string(v, f, hi),
                None => None,
            };
            (path, None, fragment)
        },
    }
}

/// Path, query and fragment of a raw request target.
pub fn normalize(raw: &str) -> (r: (String, Option<String>, Option<String>))
    ensures
        (r.0@, opt_view(r.1), opt_view(r.2)) == normalized(raw@),
        r.0@.len() > 0 && r.0@.last() == '/',
{
    proof {
        lemma_normalized_path_shape(raw@);
    }
    let v = chars_of(raw);
    assert(v@.subrange(0, v@.len() as int) =~= raw@);
    normalize_in(&v, 0, v.len())
}

} // verus!

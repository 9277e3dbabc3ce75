//! Character-level helpers: whitespace, trimming, searching and building strings.
use vstd::prelude::*;

verus! {

/// The characters that carry the Unicode `White_Space` property, which is
/// what `char::is_whitespace` and `str::trim` go by.
pub open spec fn is_ws(c: char) -> bool {
    ('\u{9}' <= c && c <= '\u{d}') || c == ' ' || c == '\u{85}' || c == '\u{a0}'
        || c == '\u{1680}' || ('\u{2000}' <= c && c <= '\u{200a}') || c == '\u{2028}'
        || c == '\u{2029}' || c == '\u{202f}' || c == '\u{205f}' || c == '\u{3000}'
}

pub fn is_whitespace(c: char) -> (r: bool)
    ensures
        r == is_ws(c),
{
    ('\u{9}' <= c && c <= '\u{d}') || c == ' ' || c == '\u{85}' || c == '\u{a0}'
        || c == '\u{1680}' || ('\u{2000}' <= c && c <= '\u{200a}') || c == '\u{2028}'
        || c == '\u{2029}' || c == '\u{202f}' || c == '\u{205f}' || c == '\u{3000}'
}

/// No character of `s` is whitespace.
pub open spec fn no_ws(s: Seq<char>) -> bool {
    forall|i: int| 0 <= i < s.len() ==> !is_ws(#[trigger] s[i])
}

/// No character of `s` is `c`.
pub open spec fn lacks(s: Seq<char>, c: char) -> bool {
    forall|i: int| 0 <= i < s.len() ==> #[trigger] s[i] != c
}

/// The sequence without its leading whitespace.
pub open spec fn trim_start(s: Seq<char>) -> Seq<char>
    decreases s.len(),
{
    if s.len() > 0 && is_ws(s[0]) {
        trim_start(s.drop_first())
    } else {
        s
    }
}

/// The sequence without its trailing whitespace.
pub open spec fn trim_end(s: Seq<char>) -> Seq<char>
    decreases s.len(),
{
    if s.len() > 0 && is_ws(s.last()) {
        trim_end(s.drop_last())
    } else {
        s
    }
}

/// The sequence without surrounding whitespace.
pub open spec fn trim(s: Seq<char>) -> Seq<char> {
    trim_end(trim_start(s))
}

/// The first position at or after `from` where `p` occurs in `s`.
pub open spec fn find_from(s: Seq<char>, p: Seq<char>, from: int) -> Option<int>
    decreases s.len() + 1 - from,
{
    if from < 0 || from + p.len() > s.len() {
        None
    } else if s.subrange(from, from + p.len()) == p {
        Some(from)
    } else {
        find_from(s, p, from + 1)
    }
}

/// The first position where `p` occurs in `s`.
pub open spec fn find(s: Seq<char>, p: Seq<char>) -> Option<int> {
    find_from(s, p, 0)
}

/// Relies on `str::chars`: the characters of the string, in order.
pub fn chars_of(s: &str) -> (r: Vec<char>)
    ensures
        r@ == s@,
{
    let mut v: Vec<char> = Vec::new();
    for c in it: s.chars()
        invariant
            v@ == it.seq().take(it.index() as int),
    {
        v.push(c);
    }
    v
}

/// Where `find_from` answers, `p` stands there and at no earlier position from `from`.
pub proof fn lemma_find_from(s: Seq<char>, p: Seq<char>, from: int)
    ensures
        match find_from(s, p, from) {
            Some(i) => {
                &&& 0 <= from <= i
                &&& i + p.len() <= s.len()
                &&& s.subrange(i, i + p.len()) == p
                &&& forall|j: int| from <= j < i ==> #[trigger] s.subrange(j, j + p.len()) != p
            },
            None => forall|j: int|
                0 <= from <= j && j + p.len() <= s.len() ==> #[trigger] s.subrange(j, j + p.len()) != p,
        },
    decreases s.len() + 1 - from,
{
    if from < 0 || from + p.len() > s.len() {
    } else if s.subrange(from, from + p.len()) == p {
    } else {
        lemma_find_from(s, p, from + 1);
    }
}

/// What `find` answers, stated without recursion.
pub proof fn lemma_find(s: Seq<char>, p: Seq<char>)
    ensures
        match find(s, p) {
            Some(i) => {
                &&& 0 <= i
                &&& i + p.len() <= s.len()
                &&& s.subrange(i, i + p.len()) == p
                &&& forall|j: int| 0 <= j < i ==> #[trigger] s.subrange(j, j + p.len()) != p
            },
            None => forall|j: int| 0 <= j && j + p.len() <= s.len() ==> #[trigger] s.subrange(j, j + p.len()) != p,
        },
{
    lemma_find_from(s, p, 0);
}

/// Where `p` stands at `i` and at no earlier position, `find` answers `i`.
pub proof fn lemma_find_at(s: Seq<char>, p: Seq<char>, i: int)
    requires
        0 <= i,
        i + p.len() <= s.len(),
        s.subrange(i, i + p.len()) == p,
        forall|j: int| 0 <= j < i ==> #[trigger] s.subrange(j, j + p.len()) != p,
    ensures
        find(s, p) == Some(i),
{
    lemma_find(s, p);
}

/// Where `a` holds no character that starts `p`, the first occurrence of `p`
/// in `a + p + b` is the one right after `a`.
pub proof fn lemma_find_after(a: Seq<char>, p: Seq<char>, b: Seq<char>)
    requires
        p.len() > 0,
        forall|j: int| 0 <= j < a.len() ==> a[j] != p[0],
    ensures
        find(a + p + b, p) == Some(a.len() as int),
{
    let s = a + p + b;
    lemma_find(s, p);
    assert(s.subrange(a.len() as int, (a.len() + p.len()) as int) =~= p);
    match find(s, p) {
        Some(i) => {
            if i < a.len() {
                assert(s.subrange(i, i + p.len())[0] == a[i]);
            }
        },
        None => {},
    }
}

/// Where `a` holds no character that starts `p`, `p` does not occur in `a`.
pub proof fn lemma_find_none(a: Seq<char>, p: Seq<char>)
    requires
        p.len() > 0,
        forall|j: int| 0 <= j < a.len() ==> a[j] != p[0],
    ensures
        find(a, p) is None,
{
    lemma_find(a, p);
    if let Some(i) = find(a, p) {
        assert(a.subrange(i, i + p.len())[0] == a[i]);
    }
}

/// A text that neither starts nor ends with whitespace is its own trim.
pub proof fn lemma_trim_same(s: Seq<char>)
    requires
        s.len() > 0,
        !is_ws(s[0]),
        !is_ws(s.last()),
    ensures
        trim(s) == s,
{
}

/// Splits `s` at the first occurrence of `p`: the part before it and, if `p`
/// occurs, the part after it.
pub open spec fn split_once(s: Seq<char>, p: Seq<char>) -> (Seq<char>, Option<Seq<char>>) {
    match find(s, p) {
        Some(i) => (s.subrange(0, i), Some(s.subrange(i + p.len(), s.len() as int))),
        None => (s, None),
    }
}

/// The part after the separator is shorter than the whole.
pub proof fn lemma_split_once_shorter(s: Seq<char>, p: Seq<char>)
    ensures
        split_once(s, p).0.len() <= s.len(),
        split_once(s, p).1 matches Some(r) ==> r.len() + p.len() <= s.len(),
{
    lemma_find(s, p);
}

/// Whether `v[lo..hi]` is exactly the characters of `lit`.
pub fn range_is(v: &Vec<char>, lo: usize, hi: usize, lit: &[char]) -> (r: bool)
    requires
        lo <= hi <= v@.len(),
    ensures
        r == (v@.subrange(lo as int, hi as int) == lit@),
{
    if hi - lo != lit.len() {
        return false;
    }
    let mut i: usize = 0;
    while i < lit.len()
        invariant
            hi - lo == lit@.len(),
            lo <= hi <= v@.len(),
            i <= lit@.len(),
            forall|j: int| 0 <= j < i ==> v@[lo + j] == lit@[j],
        decreases lit@.len() - i,
    {
        if v[lo + i] != lit[i] {
            assert(v@.subrange(lo as int, hi as int)[i as int] != lit@[i as int]);
            return false;
        }
        i = i + 1;
    }
    assert(v@.subrange(lo as int, hi as int) =~= lit@);
    true
}

/// The first position of `p` in `v[lo..hi]`, counted from the start of `v`.
pub fn find_in(v: &Vec<char>, lo: usize, hi: usize, p: &[char]) -> (r: Option<usize>)
    requires
        lo <= hi <= v@.len(),
    ensures
        match r {
            Some(i) => find(v@.subrange(lo as int, hi as int), p@) == Some(i - lo) && lo <= i
                && i + p@.len() <= hi,
            None => find(v@.subrange(lo as int, hi as int), p@) is None,
        },
{
    let ghost sub = v@.subrange(lo as int, hi as int);
    if p.len() > hi - lo {
        return None;
    }
    let mut i: usize = lo;
    while i <= hi - p.len()
        invariant
            lo <= i <= hi - p@.len() + 1,
            p@.len() <= hi - lo,
            hi <= v@.len(),
            sub == v@.subrange(lo as int, hi as int),
            find(sub, p@) == find_from(sub, p@, i - lo),
        decreases hi - i + 1,
    {
        assert(sub.subrange(i - lo, i - lo + p@.len()) =~= v@.subrange(i as int, i + p@.len()));
        if range_is(v, i, i + p.len(), p) {
            return Some(i);
        }
        assert(find_from(sub, p@, i - lo) == find_from(sub, p@, i - lo + 1));
        if i == hi - p.len() {
            assert(find_from(sub, p@, i - lo + 1) is None);
            return None;
        }
        i = i + 1;
    }
    None
}

/// Splits `v[lo..hi]` at the first occurrence of `p`: the end of the part
/// before it and, if `p` occurs, the start of the part after it.
pub fn split_in(v: &Vec<char>, lo: usize, hi: usize, p: &[char]) -> (r: (usize, Option<usize>))
    requires
        lo <= hi <= v@.len(),
    ensures
        lo <= r.0 <= hi,
        r.1 matches Some(s) ==> r.0 + p@.len() == s && s <= hi,
        split_once(v@.subrange(lo as int, hi as int), p@) == (
            v@.subrange(lo as int, r.0 as int),
            match r.1 {
                Some(s) => Some(v@.subrange(s as int, hi as int)),
                None => None,
            },
        ),
{
    let ghost sub = v@.subrange(lo as int, hi as int);
    match find_in(v, lo, hi, p) {
        Some(i) => {
            assert(sub.subrange(0, i - lo) =~= v@.subrange(lo as int, i as int));
            assert(sub.subrange(i - lo + p@.len(), sub.len() as int) =~= v@.subrange(i + p@.len(), hi as int));
            (i, Some(i + p.len()))
        },
        None => (hi, None),
    }
}

/// The trimmed text of `v[lo..hi]`, or nothing where that is empty.
pub open spec fn trimmed_opt(s: Seq<char>) -> Option<Seq<char>> {
    if trim(s).len() == 0 {
        None
    } else {
        Some(trim(s))
    }
}

/// The trimmed text of `v[lo..hi]` as a string, or `None` where it is empty.
pub fn trimmed_string(v: &Vec<char>, lo: usize, hi: usize) -> (r: Option<String>)
    requires
        lo <= hi <= v@.len(),
    ensures
        match r {
            Some(s) => trimmed_opt(v@.subrange(lo as int, hi as int)) == Some(s@),
            None => trimmed_opt(v@.subrange(lo as int, hi as int)) is None,
        },
{
    let (a, b) = trim_range(v, lo, hi);
    if a == b {
        None
    } else {
        Some(string_of(v, a, b))
    }
}

/// Narrows `v[lo..hi]` to the part without surrounding whitespace.
pub fn trim_range(v: &Vec<char>, lo: usize, hi: usize) -> (r: (usize, usize))
    requires
        lo <= hi <= v@.len(),
    ensures
        lo <= r.0 <= r.1 <= hi,
        v@.subrange(r.0 as int, r.1 as int) == trim(v@.subrange(lo as int, hi as int)),
{
    let mut a: usize = lo;
    while a < hi && is_whitespace(v[a])
        invariant
            lo <= a <= hi <= v@.len(),
            trim_start(v@.subrange(lo as int, hi as int)) == trim_start(
                v@.subrange(a as int, hi as int),
            ),
        decreases hi - a,
    {
        assert(v@.subrange(a as int, hi as int).drop_first() =~= v@.subrange(a + 1, hi as int));
        a = a + 1;
    }
    assert(trim_start(v@.subrange(a as int, hi as int)) == v@.subrange(a as int, hi as int));
    let mut b: usize = hi;
    while b > a && is_whitespace(v[b - 1])
        invariant
            lo <= a <= b <= hi <= v@.len(),
            trim(v@.subrange(lo as int, hi as int)) == trim_end(v@.subrange(a as int, b as int)),
        decreases b - a,
    {
        assert(v@.subrange(a as int, b as int).drop_last() =~= v@.subrange(a as int, b - 1));
        b = b - 1;
    }
    (a, b)
}

/// Relies on `String::push`: appends one character at the end.
#[verifier::external_body]
fn push_char(s: &mut String, c: char)
    ensures
        final(s)@ == old(s)@.push(c),
{
    s.push(c);
}

/// A new string holding the characters `v[lo..hi]`.
pub fn string_of(v: &Vec<char>, lo: usize, hi: usize) -> (r: String)
    requires
        lo <= hi <= v@.len(),
    ensures
        r@ == v@.subrange(lo as int, hi as int),
{
    let mut s = String::new();
    let mut i: usize = lo;
    while i < hi
        invariant
            lo <= i <= hi <= v@.len(),
            s@ == v@.subrange(lo as int, i as int),
        decreases hi - i,
    {
        push_char(&mut s, v[i]);
        assert(v@.subrange(lo as int, i + 1) =~= v@.subrange(lo as int, i as int).push(v@[i as int]));
        i = i + 1;
    }
    s
}

/// Appends the characters of `v` to `s`.
pub fn push_all(s: &mut String, v: &Vec<char>)
    ensures
        final(s)@ == old(s)@ + v@,
{
    let ghost start = s@;
    let mut i: usize = 0;
    while i < v.len()
        invariant
            i <= v@.len(),
            s@ == start + v@.subrange(0, i as int),
        decreases v@.len() - i,
    {
        push_char(s, v[i]);
        assert(v@.subrange(0, i + 1) =~= v@.subrange(0, i as int).push(v@[i as int]));
        i = i + 1;
    }
    assert(v@.subrange(0, v@.len() as int) =~= v@);
}

/// The lower-case form of a text, as `str::to_lowercase` gives it.
pub uninterp spec fn lower_of(s: Seq<char>) -> Seq<char>;

/// Relies on `str::to_lowercase`: the lower-case form of a text under
/// Unicode's rules, which depends on the text alone.
#[verifier::external_body]
pub(crate) fn lowercase(s: &str) -> (r: String)
    ensures
        r@ == lower_of(s@),
{
    s.to_lowercase()
}

} // verus!

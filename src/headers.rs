//! Header maps whose names are compared in their lower-case form.
use vstd::prelude::*;
use crate::text::{lower_of, lowercase};

verus! {

/// The map that a list of name/value pairs describes: each pair is inserted
/// in turn, so a later pair overrides an earlier one of the same name.
pub open spec fn map_of(ps: Seq<(Seq<char>, Seq<char>)>) -> Map<Seq<char>, Seq<char>>
    decreases ps.len(),
{
    if ps.len() == 0 {
        Map::empty()
    } else {
        map_of(ps.drop_last()).insert(ps.last().0, ps.last().1)
    }
}

/// No two pairs share a name.
pub open spec fn wf_pairs(ps: Seq<(Seq<char>, Seq<char>)>) -> bool {
    forall|i: int, j: int| 0 <= i < j < ps.len() ==> ps[i].0 != ps[j].0
}

/// With distinct names, the map holds exactly the pairs of the list.
pub proof fn lemma_map_of(ps: Seq<(Seq<char>, Seq<char>)>)
    requires
        forall|i: int, j: int| 0 <= i < j < ps.len() ==> ps[i].0 != ps[j].0,
    ensures
        forall|k: Seq<char>|
            map_of(ps).contains_key(k) <==> exists|i: int| 0 <= i < ps.len() && #[trigger] ps[i].0 == k,
        forall|i: int| 0 <= i < ps.len() ==> map_of(ps)[#[trigger] ps[i].0] == ps[i].1,
    decreases ps.len(),
{
    if ps.len() > 0 {
        let q = ps.drop_last();
        lemma_map_of(q);
        assert forall|k: Seq<char>|
            map_of(ps).contains_key(k) <==> exists|i: int| 0 <= i < ps.len() && #[trigger] ps[i].0 == k by {
            if map_of(ps).contains_key(k) && k != ps.last().0 {
                assert(map_of(q).contains_key(k));
                let i = choose|i: int| 0 <= i < q.len() && #[trigger] q[i].0 == k;
                assert(ps[i] == q[i]);
            }
            if map_of(ps).contains_key(k) && k == ps.last().0 {
                assert(ps[ps.len() - 1].0 == k);
            }
            if exists|i: int| 0 <= i < ps.len() && #[trigger] ps[i].0 == k {
                let i = choose|i: int| 0 <= i < ps.len() && #[trigger] ps[i].0 == k;
                if i < q.len() {
                    assert(ps[i] == q[i]);
                    assert(q[i].0 == k);
                    assert(map_of(q).contains_key(k));
                }
            }
        }
        assert forall|i: int| 0 <= i < ps.len() implies map_of(ps)[#[trigger] ps[i].0] == ps[i].1 by {
            if i < q.len() {
                assert(ps[i] == q[i]);
                if q[i].0 != ps.last().0 {
                    assert(map_of(q)[q[i].0] == q[i].1);
                } else {
                    assert(ps[i].0 == ps[ps.len() - 1].0);
                }
            }
        }
    }
}

/// A header map. Names are kept in the lower-case form that
/// `str::to_lowercase` gives, each at most once; the value set last for a
/// name is the one kept.
#[derive(Debug)]
pub struct Headers {
    entries: Vec<(String, String)>,
}

impl Headers {
    /// The name/value pairs in the order in which they are kept.
    pub closed spec fn pairs(&self) -> Seq<(Seq<char>, Seq<char>)> {
        self.entries@.map_values(|e: (String, String)| (e.0@, e.1@))
    }

    #[verifier::type_invariant]
    closed spec fn inv(self) -> bool {
        wf_pairs(self.pairs())
    }

    /// No two kept pairs share a name. This does nothing at run time; it
    /// hands the map's invariant to the caller's proof.
    pub fn distinct_names(&self)
        ensures
            wf_pairs(self.pairs()),
    {
        proof {
            use_type_invariant(self);
        }
    }

    /// An empty header map.
    pub fn new() -> (r: Headers)
        ensures
            r.pairs() == Seq::<(Seq<char>, Seq<char>)>::empty(),
            r@ == Map::<Seq<char>, Seq<char>>::empty(),
    {
        let r = Headers { entries: Vec::new() };
        assert(r.pairs() =~= Seq::<(Seq<char>, Seq<char>)>::empty());
        r
    }

    /// The number of names in the map.
    pub fn len(&self) -> (r: usize)
        ensures
            r == self.pairs().len(),
            wf_pairs(self.pairs()),
    {
        proof {
            use_type_invariant(self);
        }
        self.entries.len()
    }

    /// The pair kept at position `i`.
    pub fn entry(&self, i: usize) -> (r: (&String, &String))
        requires
            i < self.pairs().len(),
        ensures
            (r.0@, r.1@) == self.pairs()[i as int],
    {
        let e = &self.entries[i];
        (&e.0, &e.1)
    }

    /// The position of a name among the kept pairs.
    fn position(&self, key: &String) -> (r: Option<usize>)
        ensures
            match r {
                Some(i) => i < self.pairs().len() && self.pairs()[i as int].0 == key@,
                None => forall|i: int| 0 <= i < self.pairs().len() ==> #[trigger] self.pairs()[i].0 != key@,
            },
    {
        let mut i: usize = 0;
        while i < self.entries.len()
            invariant
                i <= self.pairs().len(),
                self.pairs().len() == self.entries@.len(),
                forall|j: int| 0 <= j < i ==> #[trigger] self.pairs()[j].0 != key@,
            decreases self.entries@.len() - i,
        {
            if self.entries[i].0 == *key {
                return Some(i);
            }
            i = i + 1;
        }
        None
    }

    /// Sets `key` to `value`.
    fn put(&mut self, key: String, value: String)
        ensures
            final(self)@ == old(self)@.insert(key@, value@),
    {
        proof {
            use_type_invariant(&*self);
            lemma_map_of(self.pairs());
        }
        let ghost ps = self.pairs();
        let found = self.position(&key);
        let ghost kv = (key@, value@);
        let ghost target = match found {
            Some(i) => ps.update(i as int, kv),
            None => ps.push(kv),
        };
        let mut es: Vec<(String, String)> = Vec::new();
        let mut j: usize = 0;
        while j < self.entries.len()
            invariant
                j <= ps.len(),
                ps == self.pairs(),
                kv == (key@, value@),
                ps.len() == self.entries@.len(),
                es@.len() == j,
                found matches Some(i) ==> i < ps.len(),
                target == match found {
                    Some(i) => ps.update(i as int, kv),
                    None => ps.push(kv),
                },
                forall|t: int| 0 <= t < j ==> #[trigger] es@[t].0@ == target[t].0 && es@[t].1@ == target[t].1,
            decreases ps.len() - j,
        {
            proof {
                assert(ps[j as int] == (self.entries@[j as int].0@, self.entries@[j as int].1@));
            }
            let here = match found {
                Some(i) => i == j,
                None => false,
            };
            let (k, v) = if here {
                (key.clone(), value.clone())
            } else {
                (self.entries[j].0.clone(), self.entries[j].1.clone())
            };
            es.push((k, v));
            j = j + 1;
        }
        if let None = found {
            es.push((key, value));
        }
        let ghost qs = es@.map_values(|e: (String, String)| (e.0@, e.1@));
        assert(qs =~= target);
        proof {
            if let Some(i) = found {
                assert forall|a: int, b: int| 0 <= a < b < qs.len() implies qs[a].0 != qs[b].0 by {
                    assert(ps[a].0 != ps[b].0);
                }
                lemma_map_of(qs);
                assert(map_of(qs) =~= map_of(ps).insert(key@, value@)) by {
                    assert forall|k: Seq<char>| #[trigger] map_of(qs).contains_key(k) implies map_of(ps).insert(key@, value@).contains_key(k) by {
                        let j = choose|j: int| 0 <= j < qs.len() && #[trigger] qs[j].0 == k;
                        if j != i {
                            assert(ps[j].0 == k);
                        }
                    }
                    assert forall|k: Seq<char>| #[trigger] map_of(ps).insert(key@, value@).contains_key(k) implies map_of(qs).contains_key(k) && map_of(qs)[k] == map_of(ps).insert(key@, value@)[k] by {
                        if k == key@ {
                            assert(qs[i as int].0 == k);
                        } else {
                            let j = choose|j: int| 0 <= j < ps.len() && #[trigger] ps[j].0 == k;
                            assert(qs[j].0 == k);
                        }
                    }
                }
            } else {
                assert(qs.drop_last() =~= ps);
            }
        }
        self.entries = es;
    }
}

/// Reading and writing headers by name, compared in lower-case form.
pub trait HeaderMethods: View<V = Map<Seq<char>, Seq<char>>> + Sized {
    /// The value kept for `name`, if any.
    fn get_header(&self, name: &str) -> (r: Option<&String>)
        ensures
            match r {
                Some(v) => self@.contains_key(lower_of(name@)) && v@ == self@[lower_of(name@)],
                None => !self@.contains_key(lower_of(name@)),
            },
    ;

    /// Sets `name` to `value`, replacing any value it had.
    fn set_header(&mut self, name: &str, value: &str) -> (r: &mut Self)
        ensures
            r@ == old(self)@.insert(lower_of(name@), value@),
            *final(self) == *final(r),
    ;

    /// Removes `name` and its value, if present.
    fn remove_header(&mut self, name: &str) -> (r: &mut Self)
        ensures
            r@ == old(self)@.remove(lower_of(name@)),
            *final(self) == *final(r),
    ;
}

/// Header names ignore case. Where two names agree once lower-cased,
/// a value set under the first is read back under the second, and setting
/// both keeps one entry for the name, holding the value set last.
pub proof fn lemma_header_names_ignore_case(
    h0: Headers,
    h1: Headers,
    h2: Headers,
    n1: Seq<char>,
    n2: Seq<char>,
    v1: Seq<char>,
    v2: Seq<char>,
)
    requires
        lower_of(n1) == lower_of(n2),
        h1@ == h0@.insert(lower_of(n1), v1),
        h2@ == h1@.insert(lower_of(n2), v2),
    ensures
        h1@.contains_key(lower_of(n2)),
        h1@[lower_of(n2)] == v1,
        h2@.dom() == h1@.dom(),
        h2@ == h0@.insert(lower_of(n1), v2),
{
    assert(h2@ =~= h0@.insert(lower_of(n1), v2));
    assert(h2@.dom() =~= h1@.dom());
}

impl HeaderMethods for Headers {
    fn get_header(&self, name: &str) -> (r: Option<&String>) {
        proof {
            use_type_invariant(self);
            lemma_map_of(self.pairs());
        }
        let key = lowercase(name);
        match self.position(&key) {
            Some(i) => {
                assert(self.pairs()[i as int] == (self.entries@[i as int].0@, self.entries@[i as int].1@));
                Some(&self.entries[i].1)
            },
            None => None,
        }
    }

    fn set_header(&mut self, name: &str, value: &str) -> (r: &mut Self) {
        let key = lowercase(name);
        self.put(key, value.to_owned());
        self
    }

    fn remove_header(&mut self, name: &str) -> (r: &mut Self) {
        let key = lowercase(name);
        self.take_out(&key);
        self
    }
}

impl Headers {
    /// Removes the pair of name `key`, if there is one.
    fn take_out(&mut self, key: &String)
        ensures
            final(self)@ == old(self)@.remove(key@),
    {
        proof {
            use_type_invariant(&*self);
            lemma_map_of(self.pairs());
        }
        let ghost ps = self.pairs();
        let i = match self.position(key) {
            Some(i) => i,
            None => {
                assert(map_of(ps).remove(key@) =~= map_of(ps));
                return;
            },
        };
        let ghost target = ps.remove(i as int);
        let mut es: Vec<(String, String)> = Vec::new();
        let mut j: usize = 0;
        while j < self.entries.len()
            invariant
                j <= ps.len(),
                i < ps.len(),
                ps == self.pairs(),
                ps.len() == self.entries@.len(),
                target == ps.remove(i as int),
                es@.len() == if j <= i { j as int } else { j - 1 },
                forall|t: int| 0 <= t < es@.len() ==> #[trigger] es@[t].0@ == target[t].0 && es@[t].1@ == target[t].1,
            decreases ps.len() - j,
        {
            proof {
                assert(ps[j as int] == (self.entries@[j as int].0@, self.entries@[j as int].1@));
            }
            if j != i {
                es.push((self.entries[j].0.clone(), self.entries[j].1.clone()));
            }
            j = j + 1;
        }
        let ghost qs = es@.map_values(|e: (String, String)| (e.0@, e.1@));
        assert(qs =~= target);
        proof {
            assert forall|a: int, b: int| 0 <= a < b < qs.len() implies qs[a].0 != qs[b].0 by {
                let a2 = if a < i { a } else { a + 1 };
                let b2 = if b < i { b } else { b + 1 };
                assert(ps[a2].0 != ps[b2].0);
            }
            lemma_map_of(qs);
            assert(map_of(qs) =~= map_of(ps).remove(key@)) by {
                assert forall|k: Seq<char>| #[trigger] map_of(qs).contains_key(k) implies map_of(ps).remove(key@).contains_key(k) by {
                    let t = choose|t: int| 0 <= t < qs.len() && #[trigger] qs[t].0 == k;
                    let t2 = if t < i { t } else { t + 1 };
                    assert(ps[t2].0 == k);
                    assert(ps[i as int].0 == key@);
                }
                assert forall|k: Seq<char>| #[trigger] map_of(ps).remove(key@).contains_key(k) implies map_of(qs).contains_key(k) && map_of(qs)[k] == map_of(ps)[k] by {
                    let t = choose|t: int| 0 <= t < ps.len() && #[trigger] ps[t].0 == k;
                    let t2 = if t < i { t } else { t - 1 };
                    assert(qs[t2].0 == k);
                }
            }
        }
        self.entries = es;
    }
}

impl Headers {
    /// Whether every pair of `self` is also in `other`.
    fn within(&self, other: &Headers) -> (r: bool)
        ensures
            r == (forall|k: Seq<char>| #[trigger] self@.contains_key(k) ==> other@.contains_key(k) && other@[k] == self@[k]),
    {
        proof {
            use_type_invariant(self);
            use_type_invariant(other);
            lemma_map_of(self.pairs());
            lemma_map_of(other.pairs());
        }
        let ghost ps = self.pairs();
        let mut i: usize = 0;
        while i < self.entries.len()
            invariant
                i <= ps.len(),
                ps == self.pairs(),
                ps.len() == self.entries@.len(),
                forall|t: int| 0 <= t < i ==> other@.contains_key(#[trigger] ps[t].0) && other@[ps[t].0] == ps[t].1,
            decreases ps.len() - i,
        {
            proof {
                use_type_invariant(self);
                use_type_invariant(other);
                lemma_map_of(self.pairs());
                lemma_map_of(other.pairs());
                assert(ps[i as int] == (self.entries@[i as int].0@, self.entries@[i as int].1@));
                assert(self@.contains_key(ps[i as int].0) && self@[ps[i as int].0] == ps[i as int].1);
            }
            match other.position(&self.entries[i].0) {
                Some(j) => {
                    assert(other.pairs()[j as int] == (other.entries@[j as int].0@, other.entries@[j as int].1@));
                    if other.entries[j].1 != self.entries[i].1 {
                        return false;
                    }
                },
                None => {
                    return false;
                },
            }
            i = i + 1;
        }
        assert forall|k: Seq<char>| #[trigger] self@.contains_key(k) implies other@.contains_key(k) && other@[k] == self@[k] by {
            let t = choose|t: int| 0 <= t < ps.len() && #[trigger] ps[t].0 == k;
        }
        true
    }
}

impl PartialEq for Headers {
    fn eq(&self, other: &Headers) -> (r: bool) {
        let r = self.within(other) && other.within(self);
        assert(r ==> self@ =~= other@);
        r
    }
}

impl vstd::std_specs::cmp::PartialEqSpecImpl for Headers {
    open spec fn obeys_eq_spec() -> bool {
        true
    }

    open spec fn eq_spec(&self, other: &Headers) -> bool {
        self@ == other@
    }
}

impl View for Headers {
    type V = Map<Seq<char>, Seq<char>>;

    open spec fn view(&self) -> Map<Seq<char>, Seq<char>> {
        map_of(self.pairs())
    }
}

} // verus!

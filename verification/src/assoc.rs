//! A small keyed collection: a list of `(key, value)` pairs with distinct keys,
//! viewed as a finite map.
use vstd::prelude::*;

verus! {

/// Keys that can be compared for equality by their views.
pub trait KeyEq: View + Sized {
    fn key_eq(&self, other: &Self) -> (r: bool)
        ensures
            r == (self@ == other@);

    fn key_clone(&self) -> (r: Self)
        ensures
            r@ == self@;
}

impl KeyEq for String {
    fn key_eq(&self, other: &Self) -> (r: bool) {
        self.eq(other)
    }

    fn key_clone(&self) -> (r: Self) {
        self.clone()
    }
}

impl KeyEq for i64 {
    fn key_eq(&self, other: &Self) -> (r: bool) {
        *self == *other
    }

    fn key_clone(&self) -> (r: Self) {
        *self
    }
}

/// The map that a list of pairs denotes (later pairs win).
pub open spec fn view_of<K: View, V>(s: Seq<(K, V)>) -> Map<K::V, V>
    decreases s.len(),
{
    if s.len() == 0 {
        Map::empty()
    } else {
        view_of(s.drop_last()).insert(s.last().0@, s.last().1)
    }
}

/// No key occurs twice.
pub open spec fn distinct_keys<K: View, V>(s: Seq<(K, V)>) -> bool {
    forall|i: int, j: int| 0 <= i < j < s.len() ==> s[i].0@ != s[j].0@
}

/// Lemma: the domain of the denoted map is the set of the keys' views.
pub proof fn lemma_view_dom<K: View, V>(s: Seq<(K, V)>, k: K::V)
    ensures
        view_of(s).dom().contains(k) <==> exists|i: int| 0 <= i < s.len() && s[i].0@ == k,
    decreases s.len(),
{
    if s.len() > 0 {
        lemma_view_dom(s.drop_last(), k);
        if view_of(s).dom().contains(k) && k != s.last().0@ {
            let i = choose|i: int| 0 <= i < s.drop_last().len() && s.drop_last()[i].0@ == k;
            assert(s[i].0@ == k);
        }
        if exists|i: int| 0 <= i < s.len() && s[i].0@ == k {
            let i = choose|i: int| 0 <= i < s.len() && s[i].0@ == k;
            if i < s.len() - 1 {
                assert(s.drop_last()[i].0@ == k);
            }
        }
    }
}

/// Lemma: with distinct keys, each pair's value is what the map gives for its key.
pub proof fn lemma_view_value<K: View, V>(s: Seq<(K, V)>, i: int)
    requires
        distinct_keys(s),
        0 <= i < s.len(),
    ensures
        view_of(s).dom().contains(s[i].0@),
        view_of(s)[s[i].0@] == s[i].1,
    decreases s.len(),
{
    if i < s.len() - 1 {
        assert(s.drop_last()[i] == s[i]);
        lemma_view_value(s.drop_last(), i);
    }
}

/// A map from keys to values held as a list of pairs.
pub struct AssocMap<K, V> {
    pub entries: Vec<(K, V)>,
}

impl<K: KeyEq, V> AssocMap<K, V> {
    /// The map this list denotes.
    pub open spec fn view_map(&self) -> Map<K::V, V> {
        view_of(self.entries@)
    }

    /// Keys are distinct.
    pub open spec fn wf(&self) -> bool {
        distinct_keys(self.entries@)
    }

    /// An empty map.
    pub fn new() -> (r: Self)
        ensures
            r.wf(),
            r.view_map() == Map::<K::V, V>::empty(),
    {
        AssocMap { entries: Vec::new() }
    }

    /// The position of `k`, if present.
    pub fn find(&self, k: &K) -> (r: Option<usize>)
        requires
            self.wf(),
        ensures
            r matches Some(i) ==> i < self.entries.len() && self.entries@[i as int].0@ == k@,
            r is None <==> !self.view_map().dom().contains(k@),
    {
        let mut i: usize = 0;
        while i < self.entries.len()
            invariant
                i <= self.entries.len(),
                forall|j: int| 0 <= j < i ==> self.entries@[j].0@ != k@,
            decreases self.entries.len() - i,
        {
            if self.entries[i].0.key_eq(k) {
                proof {
                    lemma_view_dom(self.entries@, k@);
                }
                return Some(i);
            }
            i += 1;
        }
        proof {
            lemma_view_dom(self.entries@, k@);
        }
        None
    }

    /// Whether `k` is present.
    pub fn contains_key(&self, k: &K) -> (r: bool)
        requires
            self.wf(),
        ensures
            r == self.view_map().dom().contains(k@),
    {
        self.find(k).is_some()
    }

    /// The value of `k`, if present.
    pub fn get(&self, k: &K) -> (r: Option<&V>)
        requires
            self.wf(),
        ensures
            r matches Some(v) ==> self.view_map().dom().contains(k@) && *v == self.view_map()[k@],
            r is None ==> !self.view_map().dom().contains(k@),
    {
        match self.find(k) {
            Some(i) => {
                proof {
                    lemma_view_value(self.entries@, i as int);
                }
                Some(&self.entries[i].1)
            },
            None => None,
        }
    }

    /// Maps `k` to `v`, replacing any earlier value.
    pub fn insert(&mut self, k: K, v: V)
        requires
            old(self).wf(),
        ensures
            final(self).wf(),
            final(self).view_map() == old(self).view_map().insert(k@, v),
    {
        match self.find(&k) {
            Some(i) => {
                let ghost old_s = self.entries@;
                let ghost kv = k@;
                self.entries.set(i, (k, v));
                let ghost new_s = self.entries@;
                assert(new_s == old_s.update(i as int, new_s[i as int]));
                assert(distinct_keys(new_s)) by {
                    assert forall|a: int, b: int| 0 <= a < b < new_s.len() implies new_s[a].0@
                        != new_s[b].0@ by {
                        if a != i && b != i {
                            assert(new_s[a] == old_s[a] && new_s[b] == old_s[b]);
                        } else if a == i {
                            assert(new_s[b] == old_s[b]);
                        } else {
                            assert(new_s[a] == old_s[a]);
                        }
                    }
                }
                assert(view_of(new_s) =~= view_of(old_s).insert(kv, new_s[i as int].1)) by {
                    assert forall|x: K::V| #[trigger] view_of(new_s).dom().contains(x) <==> view_of(
                        old_s,
                    ).insert(kv, new_s[i as int].1).dom().contains(x) by {
                        lemma_view_dom(new_s, x);
                        lemma_view_dom(old_s, x);
                        if exists|j: int| 0 <= j < new_s.len() && new_s[j].0@ == x {
                            let j = choose|j: int| 0 <= j < new_s.len() && new_s[j].0@ == x;
                            if j != i {
                                assert(old_s[j].0@ == x);
                            }
                        }
                        if exists|j: int| 0 <= j < old_s.len() && old_s[j].0@ == x {
                            let j = choose|j: int| 0 <= j < old_s.len() && old_s[j].0@ == x;
                            if j != i {
                                assert(new_s[j].0@ == x);
                            }
                        }
                    }
                    assert forall|x: K::V| #[trigger] view_of(new_s).dom().contains(x) implies view_of(
                        new_s,
                    )[x] == view_of(old_s).insert(kv, new_s[i as int].1)[x] by {
                        lemma_view_dom(new_s, x);
                        let j = choose|j: int| 0 <= j < new_s.len() && new_s[j].0@ == x;
                        lemma_view_value(new_s, j);
                        if j != i {
                            assert(old_s[j] == new_s[j]);
                            lemma_view_value(old_s, j);
                        }
                    }
                }
            },
            None => {
                let ghost old_s = self.entries@;
                self.entries.push((k, v));
                proof {
                    lemma_view_dom(old_s, k@);
                    assert(self.entries@.drop_last() == old_s);
                    assert(distinct_keys(self.entries@)) by {
                        assert forall|a: int, b: int|
                            0 <= a < b < self.entries@.len() implies self.entries@[a].0@
                            != self.entries@[b].0@ by {
                            if b == old_s.len() {
                                assert(self.entries@[a] == old_s[a]);
                            } else {
                                assert(self.entries@[a] == old_s[a] && self.entries@[b]
                                    == old_s[b]);
                            }
                        }
                    }
                }
            },
        }
    }

    /// Removes `k`, returning its value if it was present.
    pub fn remove(&mut self, k: &K) -> (r: Option<V>)
        requires
            old(self).wf(),
        ensures
            final(self).wf(),
            final(self).view_map() == old(self).view_map().remove(k@),
            r matches Some(v) ==> old(self).view_map().dom().contains(k@) && v == old(
                self,
            ).view_map()[k@],
            r is None ==> !old(self).view_map().dom().contains(k@),
    {
        match self.find(k) {
            None => {
                assert(self.view_map() =~= self.view_map().remove(k@));
                None
            },
            Some(i) => {
                let ghost old_s = self.entries@;
                proof {
                    lemma_view_value(old_s, i as int);
                }
                let (_, v) = self.entries.remove(i);
                let ghost new_s = self.entries@;
                assert(new_s == old_s.remove(i as int));
                assert forall|j: int| 0 <= j < new_s.len() implies #[trigger] new_s[j] == (if j < i {
                    old_s[j]
                } else {
                    old_s[j + 1]
                }) by {}
                assert(distinct_keys(new_s)) by {
                    assert forall|a: int, b: int| 0 <= a < b < new_s.len() implies new_s[a].0@
                        != new_s[b].0@ by {
                        let oa = if a < i {
                            a
                        } else {
                            a + 1
                        };
                        let ob = if b < i {
                            b
                        } else {
                            b + 1
                        };
                        assert(new_s[a] == old_s[oa] && new_s[b] == old_s[ob]);
                    }
                }
                assert(view_of(new_s) =~= view_of(old_s).remove(k@)) by {
                    assert forall|x: K::V| #[trigger] view_of(new_s).dom().contains(x) <==> view_of(
                        old_s,
                    ).remove(k@).dom().contains(x) by {
                        lemma_view_dom(new_s, x);
                        lemma_view_dom(old_s, x);
                        if exists|j: int| 0 <= j < new_s.len() && new_s[j].0@ == x {
                            let j = choose|j: int| 0 <= j < new_s.len() && new_s[j].0@ == x;
                            let oj = if j < i {
                                j
                            } else {
                                j + 1
                            };
                            assert(old_s[oj].0@ == x);
                        }
                        if x != k@ && exists|j: int| 0 <= j < old_s.len() && old_s[j].0@ == x {
                            let j = choose|j: int| 0 <= j < old_s.len() && old_s[j].0@ == x;
                            assert(j != i);
                            let nj = if j < i {
                                j
                            } else {
                                j - 1
                            };
                            assert(new_s[nj].0@ == x);
                        }
                    }
                    assert forall|x: K::V| #[trigger] view_of(new_s).dom().contains(x) implies view_of(
                        new_s,
                    )[x] == view_of(old_s).remove(k@)[x] by {
                        lemma_view_dom(new_s, x);
                        let j = choose|j: int| 0 <= j < new_s.len() && new_s[j].0@ == x;
                        lemma_view_value(new_s, j);
                        let oj = if j < i {
                            j
                        } else {
                            j + 1
                        };
                        lemma_view_value(old_s, oj);
                    }
                }
                Some(v)
            },
        }
    }

    /// Removes every entry.
    pub fn clear(&mut self)
        ensures
            final(self).wf(),
            final(self).view_map() == Map::<K::V, V>::empty(),
    {
        self.entries = Vec::new();
    }

    /// The number of entries.
    pub fn len(&self) -> (r: usize)
        requires
            self.wf(),
        ensures
            r == self.view_map().dom().len(),
    {
        proof {
            lemma_view_len(self.entries@);
        }
        self.entries.len()
    }
}

/// Lemma: with distinct keys, the map has as many keys as the list has pairs.
pub proof fn lemma_view_len<K: View, V>(s: Seq<(K, V)>)
    requires
        distinct_keys(s),
    ensures
        view_of(s).dom().finite(),
        view_of(s).dom().len() == s.len(),
    decreases s.len(),
{
    if s.len() > 0 {
        let p = s.drop_last();
        assert(distinct_keys(p)) by {
            assert forall|a: int, b: int| 0 <= a < b < p.len() implies p[a].0@ != p[b].0@ by {
                assert(p[a] == s[a] && p[b] == s[b]);
            }
        }
        lemma_view_len(p);
        lemma_view_dom(p, s.last().0@);
        if view_of(p).dom().contains(s.last().0@) {
            let i = choose|i: int| 0 <= i < p.len() && p[i].0@ == s.last().0@;
            assert(s[i] == p[i]);
        }
    }
}

} // verus!

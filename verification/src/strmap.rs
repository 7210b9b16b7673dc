//! A small map keyed by strings, kept as a vector of entries with distinct
//! keys, and viewed as a `Map`.
use vstd::prelude::*;
use crate::text::{owned, str_is};

verus! {

/// The map that a list of entries stands for (a later entry wins).
pub open spec fn entries_map<V>(s: Seq<(String, V)>) -> Map<Seq<char>, V>
    decreases s.len(),
{
    if s.len() == 0 {
        Map::empty()
    } else {
        entries_map(s.drop_last()).insert(s.last().0@, s.last().1)
    }
}

/// Whether no key occurs twice.
pub open spec fn distinct_keys<V>(s: Seq<(String, V)>) -> bool {
    forall|i: int, j: int| 0 <= i < j < s.len() ==> s[i].0@ != s[j].0@
}

/// A key is in the map exactly when some entry has it.
pub proof fn lemma_entries_dom<V>(s: Seq<(String, V)>, k: Seq<char>)
    ensures
        entries_map(s).contains_key(k) <==> exists|i: int| 0 <= i < s.len() && (#[trigger] s[i]).0@ == k,
    decreases s.len(),
{
    if s.len() > 0 {
        let t = s.drop_last();
        lemma_entries_dom(t, k);
        if entries_map(s).contains_key(k) {
            if s.last().0@ == k {
                assert(s[s.len() - 1].0@ == k);
            } else {
                let i = choose|i: int| 0 <= i < t.len() && (#[trigger] t[i]).0@ == k;
                assert(s[i] == t[i]);
            }
        }
        if exists|i: int| 0 <= i < s.len() && (#[trigger] s[i]).0@ == k {
            let i = choose|i: int| 0 <= i < s.len() && (#[trigger] s[i]).0@ == k;
            if i < s.len() - 1 {
                assert(t[i] == s[i]);
            }
        }
    }
}

/// With distinct keys, each entry's key maps to its value.
pub proof fn lemma_entries_at<V>(s: Seq<(String, V)>, i: int)
    requires
        distinct_keys(s),
        0 <= i < s.len(),
    ensures
        entries_map(s).contains_key(s[i].0@),
        entries_map(s)[s[i].0@] == s[i].1,
    decreases s.len(),
{
    if i < s.len() - 1 {
        let t = s.drop_last();
        assert(t[i] == s[i]);
        lemma_entries_at(t, i);
        assert(s.last().0@ != s[i].0@);
    }
}

/// Replacing the entry of a key sets that key.
pub proof fn lemma_entries_update<V>(s: Seq<(String, V)>, i: int, e: (String, V))
    requires
        distinct_keys(s),
        0 <= i < s.len(),
        s[i].0@ == e.0@,
    ensures
        entries_map(s.update(i, e)) =~= entries_map(s).insert(e.0@, e.1),
        distinct_keys(s.update(i, e)),
    decreases s.len(),
{
    let t = s.drop_last();
    if i == s.len() - 1 {
        assert(s.update(i, e).drop_last() =~= t);
    } else {
        assert(s.update(i, e).drop_last() =~= t.update(i, e));
        lemma_entries_update(t, i, e);
        assert(s.last().0@ != e.0@);
    }
}

/// Removing the entry at `i` removes its key.
pub proof fn lemma_entries_remove<V>(s: Seq<(String, V)>, i: int)
    requires
        distinct_keys(s),
        0 <= i < s.len(),
    ensures
        entries_map(s.remove(i)) =~= entries_map(s).remove(s[i].0@),
        distinct_keys(s.remove(i)),
    decreases s.len(),
{
    let t = s.drop_last();
    if i == s.len() - 1 {
        assert(s.remove(i) =~= t);
        lemma_entries_dom(t, s[i].0@);
        assert forall|j: int| 0 <= j < t.len() implies (#[trigger] t[j]).0@ != s[i].0@ by {
            assert(t[j] == s[j]);
        }
    } else {
        assert(s.remove(i).drop_last() =~= t.remove(i));
        assert(s.remove(i).last() == s.last());
        lemma_entries_remove(t, i);
        assert(s.last().0@ != s[i].0@);
    }
}

/// Adding an entry with a new key inserts it.
pub proof fn lemma_entries_push<V>(s: Seq<(String, V)>, e: (String, V))
    requires
        distinct_keys(s),
        !entries_map(s).contains_key(e.0@),
    ensures
        entries_map(s.push(e)) == entries_map(s).insert(e.0@, e.1),
        distinct_keys(s.push(e)),
{
    assert(s.push(e).drop_last() =~= s);
    lemma_entries_dom(s, e.0@);
    assert forall|i: int, j: int| 0 <= i < j < s.push(e).len() implies s.push(e)[i].0@ != s.push(
        e,
    )[j].0@ by {
        if j == s.len() {
            assert(s.push(e)[i] == s[i]);
        } else {
            assert(s.push(e)[i] == s[i]);
            assert(s.push(e)[j] == s[j]);
        }
    }
}

/// A map from strings to values.
pub struct StrMap<V> {
    entries: Vec<(String, V)>,
}

impl<V> View for StrMap<V> {
    type V = Map<Seq<char>, V>;

    closed spec fn view(&self) -> Map<Seq<char>, V> {
        entries_map(self.entries@)
    }
}

impl<V> StrMap<V> {
    #[verifier::type_invariant]
    spec fn wf(self) -> bool {
        distinct_keys(self.entries@)
    }

    /// An empty map.
    pub fn new() -> (r: Self)
        ensures
            r@ == Map::<Seq<char>, V>::empty(),
    {
        StrMap { entries: Vec::new() }
    }

    /// The number of keys.
    pub fn len(&self) -> (r: usize)
        ensures
            r == self@.dom().len(),
    {
        proof {
            use_type_invariant(self);
            self.lemma_len();
        }
        self.entries.len()
    }

    proof fn lemma_len(&self)
        requires
            distinct_keys(self.entries@),
        ensures
            self@.dom().finite(),
            self@.dom().len() == self.entries@.len(),
    {
        lemma_entries_len(self.entries@);
    }

    fn find(&self, key: &str) -> (r: Option<usize>)
        ensures
            r matches Some(i) ==> i < self.entries@.len() && self.entries@[i as int].0@ == key@,
            r is None ==> !self@.contains_key(key@),
    {
        let mut i: usize = 0;
        while i < self.entries.len()
            invariant
                i <= self.entries@.len(),
                forall|j: int| 0 <= j < i ==> (#[trigger] self.entries@[j]).0@ != key@,
            decreases self.entries.len() - i,
        {
            if str_is(self.entries[i].0.as_str(), key) {
                return Some(i);
            }
            i += 1;
        }
        proof {
            lemma_entries_dom(self.entries@, key@);
        }
        None
    }

    /// Whether a key is present.
    pub fn contains_key(&self, key: &str) -> (r: bool)
        ensures
            r == self@.contains_key(key@),
    {
        proof {
            use_type_invariant(self);
        }
        match self.find(key) {
            Some(i) => {
                proof {
                    lemma_entries_at(self.entries@, i as int);
                }
                true
            },
            None => false,
        }
    }

    /// Sets `key` to `value`.
    pub fn insert(&mut self, key: &str, value: V)
        ensures
            final(self)@ == old(self)@.insert(key@, value),
    {
        proof {
            use_type_invariant(&*self);
        }
        let e = (owned(key), value);
        match self.find(key) {
            Some(i) => {
                proof {
                    lemma_entries_update(self.entries@, i as int, e);
                }
                let mut v: Vec<(String, V)> = Vec::new();
                std::mem::swap(&mut v, &mut self.entries);
                v.set(i, e);
                self.entries = v;
            },
            None => {
                proof {
                    lemma_entries_push(self.entries@, e);
                }
                let mut v: Vec<(String, V)> = Vec::new();
                std::mem::swap(&mut v, &mut self.entries);
                v.push(e);
                self.entries = v;
            },
        }
    }

    /// Removes `key`, if present.
    pub fn remove(&mut self, key: &str)
        ensures
            final(self)@ == old(self)@.remove(key@),
    {
        proof {
            use_type_invariant(&*self);
        }
        match self.find(key) {
            Some(i) => {
                proof {
                    lemma_entries_remove(self.entries@, i as int);
                }
                let mut v: Vec<(String, V)> = Vec::new();
                std::mem::swap(&mut v, &mut self.entries);
                v.remove(i);
                self.entries = v;
            },
            None => {
                assert(self@.remove(key@) =~= self@);
            },
        }
    }
}

impl<V> StrMap<V> {
    /// The keys, in the map's own order.
    pub closed spec fn key_list(&self) -> Seq<Seq<char>> {
        self.entries@.map_values(|e: (String, V)| e.0@)
    }

    /// The `i`-th key and its value.
    pub fn entry_at(&self, i: usize) -> (r: (&String, &V))
        requires
            i < self.key_list().len(),
        ensures
            r.0@ == self.key_list()[i as int],
            self@.contains_key(r.0@),
            self@[r.0@] == *r.1,
    {
        proof {
            use_type_invariant(self);
            lemma_entries_at(self.entries@, i as int);
        }
        let e = &self.entries[i];
        (&e.0, &e.1)
    }

    /// The number of keys (the length of the key list). The key list holds
    /// each of the map's keys, and only those.
    pub fn key_count(&self) -> (r: usize)
        ensures
            r == self.key_list().len(),
            r == self@.dom().len(),
            self@.dom().finite(),
            forall|i: int| 0 <= i < self.key_list().len() ==> self@.contains_key(#[trigger] self.key_list()[i]),
            forall|k: Seq<char>| #[trigger] self@.contains_key(k) ==> exists|i: int|
                0 <= i < self.key_list().len() && self.key_list()[i] == k,
    {
        proof {
            use_type_invariant(self);
            lemma_entries_len(self.entries@);
            assert forall|i: int| 0 <= i < self.key_list().len() implies self@.contains_key(
                #[trigger] self.key_list()[i],
            ) by {
                lemma_entries_at(self.entries@, i);
            }
            assert forall|k: Seq<char>| #[trigger] self@.contains_key(k) implies exists|i: int|
                0 <= i < self.key_list().len() && self.key_list()[i] == k by {
                lemma_entries_dom(self.entries@, k);
                let i = choose|i: int| 0 <= i < self.entries@.len() && (#[trigger] self.entries@[i]).0@ == k;
                assert(self.key_list()[i] == k);
            }
        }
        self.entries.len()
    }
}

impl<V> StrMap<V> {
    /// The value of `key`, borrowed, if present.
    pub fn get_ref(&self, key: &str) -> (r: Option<&V>)
        ensures
            self@.contains_key(key@) ==> (r matches Some(v) && *v == self@[key@]),
            !self@.contains_key(key@) ==> r is None,
    {
        proof {
            use_type_invariant(self);
        }
        match self.find(key) {
            Some(i) => {
                proof {
                    lemma_entries_at(self.entries@, i as int);
                }
                Some(&self.entries[i].1)
            },
            None => None,
        }
    }
}

impl<V: Copy> StrMap<V> {
    /// The value of `key`, if present.
    pub fn get(&self, key: &str) -> (r: Option<V>)
        ensures
            self@.contains_key(key@) ==> r == Some(self@[key@]),
            !self@.contains_key(key@) ==> r is None,
    {
        proof {
            use_type_invariant(self);
        }
        match self.find(key) {
            Some(i) => {
                proof {
                    lemma_entries_at(self.entries@, i as int);
                }
                Some(self.entries[i].1)
            },
            None => None,
        }
    }
}

/// With distinct keys, the map has as many keys as there are entries.
pub proof fn lemma_entries_len<V>(s: Seq<(String, V)>)
    requires
        distinct_keys(s),
    ensures
        entries_map(s).dom().finite(),
        entries_map(s).dom().len() == s.len(),
    decreases s.len(),
{
    if s.len() > 0 {
        let t = s.drop_last();
        lemma_entries_len(t);
        lemma_entries_dom(t, s.last().0@);
        assert forall|j: int| 0 <= j < t.len() implies (#[trigger] t[j]).0@ != s.last().0@ by {
            assert(t[j] == s[j]);
        }
    }
}

impl StrMap<String> {
    /// The text under `key`, if present.
    pub fn get_text(&self, key: &str) -> (r: Option<String>)
        ensures
            self@.contains_key(key@) ==> (r matches Some(v) && v@ == self@[key@]@),
            !self@.contains_key(key@) ==> r is None,
    {
        proof {
            use_type_invariant(self);
        }
        match self.find(key) {
            Some(i) => {
                proof {
                    lemma_entries_at(self.entries@, i as int);
                }
                Some(self.entries[i].1.clone())
            },
            None => None,
        }
    }
}

/// The entries kept when entries seen at least `window` before `now` are
/// dropped.
pub open spec fn fresh(m: Map<Seq<char>, i64>, now: i64, window: int) -> Map<Seq<char>, i64> {
    Map::new(|k: Seq<char>| m.contains_key(k) && now - m[k] < window, |k: Seq<char>| m[k])
}

impl StrMap<i64> {
    /// Drops the keys whose time is `window` or more before `now`.
    pub fn retain_fresh(&mut self, now: i64, window: i128)
        ensures
            final(self)@ == fresh(old(self)@, now, window as int),
    {
        proof {
            use_type_invariant(&*self);
        }
        let ghost old_entries = self.entries@;
        let mut kept: Vec<(String, i64)> = Vec::new();
        let mut i: usize = 0;
        while i < self.entries.len()
            invariant
                i <= self.entries@.len(),
                self.entries@ == old_entries,
                distinct_keys(old_entries),
                distinct_keys(kept@),
                forall|j: int|
                    0 <= j < kept@.len() ==> exists|l: int|
                        0 <= l < i && (#[trigger] old_entries[l]).0@ == (#[trigger] kept@[j]).0@,
                entries_map(kept@) =~= fresh(entries_map(old_entries.take(i as int)), now, window as int),
            decreases self.entries.len() - i,
        {
            let ghost before = old_entries.take(i as int);
            let ghost e = old_entries[i as int];
            assert(old_entries.take(i + 1).drop_last() =~= before);
            assert(old_entries.take(i + 1).last() == e);
            proof {
                lemma_entries_dom(before, e.0@);
                assert forall|j: int| 0 <= j < before.len() implies (#[trigger] before[j]).0@ != e.0@ by {
                    assert(before[j] == old_entries[j]);
                }
            }
            let seen = self.entries[i].1;
            if (now as i128) - (seen as i128) < window {
                let ghost kept_before = kept@;
                proof {
                    lemma_entries_dom(kept_before, e.0@);
                    assert forall|j: int| 0 <= j < kept_before.len() implies (#[trigger] kept_before[
                        j
                    ]).0@ != e.0@ by {
                        let l = choose|l: int|
                            0 <= l < i && (#[trigger] old_entries[l]).0@ == kept_before[j].0@;
                        assert(old_entries[l].0@ != old_entries[i as int].0@);
                    }
                    lemma_entries_push(kept_before, e);
                }
                kept.push((self.entries[i].0.clone(), seen));
                assert(kept@.last() == e);
                assert(kept@ == kept_before.push(e));
                assert forall|j: int| 0 <= j < kept@.len() implies exists|l: int|
                    0 <= l < i + 1 && (#[trigger] old_entries[l]).0@ == (#[trigger] kept@[j]).0@ by {
                    if j < kept_before.len() {
                        assert(kept@[j] == kept_before[j]);
                        let l = choose|l: int|
                            0 <= l < i && (#[trigger] old_entries[l]).0@ == kept_before[j].0@;
                        assert(old_entries[l].0@ == kept@[j].0@);
                    } else {
                        assert(old_entries[i as int].0@ == kept@[j].0@);
                    }
                }
            } else {
                assert forall|j: int| 0 <= j < kept@.len() implies exists|l: int|
                    0 <= l < i + 1 && (#[trigger] old_entries[l]).0@ == (#[trigger] kept@[j]).0@ by {
                    let l = choose|l: int|
                        0 <= l < i && (#[trigger] old_entries[l]).0@ == kept@[j].0@;
                    assert(old_entries[l].0@ == kept@[j].0@);
                }
            }
            i += 1;
        }
        assert(old_entries.take(old_entries.len() as int) =~= old_entries);
        self.entries = kept;
    }
}

} // verus!

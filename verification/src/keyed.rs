//! A small map kept as a list of key-value pairs with distinct keys, seen as
//! a mathematical `Map` from the keys' views. The indexes of the server are
//! built from it.
use crate::text::str_eq;
use vstd::prelude::*;

verus! {

/// Keys that can be compared in executable code by their views.
pub trait KeyEq: View + Sized {
    fn key_eq(&self, other: &Self) -> (b: bool)
        ensures
            b == (self@ == other@),
    ;

    fn key_clone(&self) -> (r: Self)
        ensures
            r@ == self@,
    ;
}

impl KeyEq for String {
    fn key_eq(&self, other: &Self) -> (b: bool) {
        str_eq(self.as_str(), other.as_str())
    }

    fn key_clone(&self) -> (r: Self) {
        self.clone()
    }
}

impl KeyEq for (String, String) {
    fn key_eq(&self, other: &Self) -> (b: bool) {
        str_eq(self.0.as_str(), other.0.as_str()) && str_eq(self.1.as_str(), other.1.as_str())
    }

    fn key_clone(&self) -> (r: Self) {
        (self.0.clone(), self.1.clone())
    }
}

/// The views of the keys of `s`, in order.
pub open spec fn key_views<K: View, V>(s: Seq<(K, V)>) -> Seq<K::V> {
    Seq::new(s.len(), |i: int| s[i].0@)
}

/// The map that the pairs `s` stand for; a later pair wins over an earlier
/// one with the same key.
pub open spec fn pairs_map<K: View, V>(s: Seq<(K, V)>) -> Map<K::V, V>
    decreases s.len(),
{
    if s.len() == 0 {
        Map::empty()
    } else {
        pairs_map(s.drop_last()).insert(s.last().0@, s.last().1)
    }
}

pub proof fn lemma_pairs_map_dom<K: View, V>(s: Seq<(K, V)>)
    ensures
        forall|k: K::V| pairs_map(s).dom().contains(k) <==> key_views(s).contains(k),
        pairs_map(s).dom().finite(),
    decreases s.len(),
{
    if s.len() > 0 {
        let p = s.drop_last();
        lemma_pairs_map_dom(p);
        assert(key_views(s)[s.len() - 1] == s.last().0@);
        assert forall|k: K::V| pairs_map(s).dom().contains(k) <==> key_views(s).contains(k) by {
            if k == s.last().0@ {
                assert(key_views(s)[s.len() - 1] == k);
            }
            if key_views(p).contains(k) {
                let i = choose|i: int| 0 <= i < key_views(p).len() && key_views(p)[i] == k;
                assert(key_views(s)[i] == k);
            }
            if key_views(s).contains(k) {
                let i = choose|i: int| 0 <= i < key_views(s).len() && key_views(s)[i] == k;
                if i < p.len() {
                    assert(key_views(p)[i] == k);
                }
            }
        }
    }
}

pub proof fn lemma_pairs_map_at<K: View, V>(s: Seq<(K, V)>, i: int)
    requires
        key_views(s).no_duplicates(),
        0 <= i < s.len(),
    ensures
        pairs_map(s).dom().contains(s[i].0@),
        pairs_map(s)[s[i].0@] == s[i].1,
    decreases s.len(),
{
    let p = s.drop_last();
    if i < s.len() - 1 {
        assert(key_views(p).no_duplicates()) by {
            assert forall|a: int, b: int| 0 <= a < b < key_views(p).len() implies key_views(p)[a]
                != key_views(p)[b] by {
                assert(key_views(s)[a] != key_views(s)[b]);
            }
        }
        lemma_pairs_map_at(p, i);
        assert(key_views(s)[i] != key_views(s)[s.len() - 1]);
    }
}

proof fn lemma_unique_prefix<K: View, V>(s: Seq<(K, V)>)
    requires
        s.len() > 0,
        key_views(s).no_duplicates(),
    ensures
        key_views(s.drop_last()).no_duplicates(),
        !key_views(s.drop_last()).contains(s.last().0@),
{
    let p = s.drop_last();
    assert forall|a: int, b: int| 0 <= a < b < key_views(p).len() implies key_views(p)[a]
        != key_views(p)[b] by {
        assert(key_views(s)[a] != key_views(s)[b]);
    }
    if key_views(p).contains(s.last().0@) {
        let a = choose|a: int| 0 <= a < key_views(p).len() && key_views(p)[a] == s.last().0@;
        assert(key_views(s)[a] == key_views(s)[s.len() - 1]);
    }
}

proof fn lemma_pairs_map_update<K: View, V>(s: Seq<(K, V)>, j: int, e: (K, V))
    requires
        key_views(s).no_duplicates(),
        0 <= j < s.len(),
        e.0@ == s[j].0@,
    ensures
        pairs_map(s.update(j, e)) == pairs_map(s).insert(e.0@, e.1),
        key_views(s.update(j, e)) == key_views(s),
    decreases s.len(),
{
    let t = s.update(j, e);
    assert(key_views(t) =~= key_views(s));
    lemma_unique_prefix(s);
    if j == s.len() - 1 {
        assert(t.drop_last() =~= s.drop_last());
        assert(pairs_map(t) =~= pairs_map(s).insert(e.0@, e.1));
    } else {
        assert(t.drop_last() =~= s.drop_last().update(j, e));
        lemma_pairs_map_update(s.drop_last(), j, e);
        assert(key_views(s)[j] != key_views(s)[s.len() - 1]);
        assert(pairs_map(t) =~= pairs_map(s).insert(e.0@, e.1));
    }
}

proof fn lemma_pairs_map_remove<K: View, V>(s: Seq<(K, V)>, j: int)
    requires
        key_views(s).no_duplicates(),
        0 <= j < s.len(),
    ensures
        pairs_map(s.remove(j)) == pairs_map(s).remove(s[j].0@),
        key_views(s.remove(j)).no_duplicates(),
    decreases s.len(),
{
    let t = s.remove(j);
    assert(key_views(t) =~= key_views(s).remove(j));
    assert forall|a: int, b: int| 0 <= a < b < key_views(t).len() implies key_views(t)[a]
        != key_views(t)[b] by {
        let a2 = if a < j {
            a
        } else {
            a + 1
        };
        let b2 = if b < j {
            b
        } else {
            b + 1
        };
        assert(key_views(s)[a2] != key_views(s)[b2]);
    }
    lemma_unique_prefix(s);
    let p = s.drop_last();
    if j == s.len() - 1 {
        assert(t =~= p);
        lemma_pairs_map_dom(p);
        assert(pairs_map(t) =~= pairs_map(s).remove(s[j].0@));
    } else {
        assert(t.drop_last() =~= p.remove(j));
        assert(t.last() == s.last());
        lemma_pairs_map_remove(p, j);
        assert(key_views(s)[j] != key_views(s)[s.len() - 1]);
        assert(pairs_map(t) =~= pairs_map(s).remove(s[j].0@));
    }
}

/// A map with keys of type `K`, kept as a list of pairs.
#[derive(Debug, Clone)]
pub struct KeyedMap<K, V> {
    pub entries: Vec<(K, V)>,
}

impl<K: KeyEq, V> KeyedMap<K, V> {
    /// The map the pairs stand for.
    pub open spec fn map(&self) -> Map<K::V, V> {
        pairs_map(self.entries@)
    }

    /// No key occurs twice among the pairs.
    pub open spec fn wf(&self) -> bool {
        key_views(self.entries@).no_duplicates()
    }

    /// An empty map.
    pub fn new() -> (m: Self)
        ensures
            m.wf(),
            m.map() == Map::<K::V, V>::empty(),
    {
        let m = KeyedMap { entries: Vec::new() };
        assert(key_views(m.entries@) =~= Seq::<K::V>::empty());
        m
    }

    /// Position of the pair with key `k`.
    pub fn index_of(&self, k: &K) -> (r: Option<usize>)
        requires
            self.wf(),
        ensures
            match r {
                Some(i) => i < self.entries@.len() && self.entries@[i as int].0@ == k@,
                None => !self.map().dom().contains(k@),
            },
    {
        proof {
            lemma_pairs_map_dom(self.entries@);
        }
        let mut i: usize = 0;
        while i < self.entries.len()
            invariant
                0 <= i <= self.entries.len(),
                forall|j: int| 0 <= j < i ==> self.entries@[j].0@ != k@,
            decreases self.entries.len() - i,
        {
            if self.entries[i].0.key_eq(k) {
                return Some(i);
            }
            i += 1;
        }
        assert(!key_views(self.entries@).contains(k@)) by {
            assert forall|j: int| 0 <= j < key_views(self.entries@).len() implies key_views(
                self.entries@,
            )[j] != k@ by {}
        }
        None
    }

    /// The value of key `k`.
    pub fn get(&self, k: &K) -> (r: Option<&V>)
        requires
            self.wf(),
        ensures
            match r {
                Some(v) => self.map().dom().contains(k@) && self.map()[k@] == *v,
                None => !self.map().dom().contains(k@),
            },
    {
        match self.index_of(k) {
            Some(i) => {
                proof {
                    lemma_pairs_map_at(self.entries@, i as int);
                }
                Some(&self.entries[i].1)
            },
            None => None,
        }
    }

    /// Whether key `k` has a value.
    pub fn contains_key(&self, k: &K) -> (b: bool)
        requires
            self.wf(),
        ensures
            b == self.map().dom().contains(k@),
    {
        match self.index_of(k) {
            Some(i) => {
                proof {
                    lemma_pairs_map_at(self.entries@, i as int);
                }
                true
            },
            None => false,
        }
    }

    /// Sets the value of key `k` to `v`.
    pub fn insert(&mut self, k: K, v: V)
        requires
            old(self).wf(),
        ensures
            final(self).wf(),
            final(self).map() == old(self).map().insert(k@, v),
    {
        match self.index_of(&k) {
            Some(i) => {
                proof {
                    lemma_pairs_map_update(self.entries@, i as int, (k, v));
                }
                self.entries.set(i, (k, v));
            },
            None => {
                proof {
                    lemma_pairs_map_dom(self.entries@);
                    let ks = key_views(self.entries@);
                    assert(!ks.contains(k@));
                    assert(key_views(self.entries@.push((k, v))) =~= ks.push(k@));
                    assert forall|a: int, b: int| 0 <= a < b < ks.push(k@).len() implies ks.push(
                        k@,
                    )[a] != ks.push(k@)[b] by {
                        if b == ks.len() {
                            assert(ks[a] == ks.push(k@)[a]);
                            if ks[a] == k@ {
                                assert(ks.contains(k@));
                            }
                        }
                    }
                    assert(self.entries@.push((k, v)).drop_last() =~= self.entries@);
                }
                self.entries.push((k, v));
            },
        }
    }

    /// Removes key `k` and its value.
    pub fn remove(&mut self, k: &K)
        requires
            old(self).wf(),
        ensures
            final(self).wf(),
            final(self).map() == old(self).map().remove(k@),
    {
        match self.index_of(k) {
            Some(i) => {
                proof {
                    lemma_pairs_map_remove(self.entries@, i as int);
                }
                self.entries.remove(i);
            },
            None => {
                assert(self.map().remove(k@) =~= self.map());
            },
        }
    }

    /// The number of keys.
    pub fn len(&self) -> (n: usize)
        requires
            self.wf(),
        ensures
            n == self.map().dom().len(),
    {
        proof {
            lemma_pairs_map_dom(self.entries@);
            key_views(self.entries@).unique_seq_to_set();
            assert(self.map().dom() =~= key_views(self.entries@).to_set());
        }
        self.entries.len()
    }

    /// Removes every key.
    pub fn clear(&mut self)
        ensures
            final(self).wf(),
            final(self).map() == Map::<K::V, V>::empty(),
    {
        self.entries = Vec::new();
        assert(key_views(self.entries@) =~= Seq::<K::V>::empty());
    }

    /// The map holds exactly the pairs of `entries`.
    pub proof fn lemma_entries(&self)
        requires
            self.wf(),
        ensures
            forall|k: K::V|
                self.map().dom().contains(k) <==> key_views(self.entries@).contains(k),
            forall|i: int|
                0 <= i < self.entries@.len() ==> self.map()[#[trigger] self.entries@[i].0@]
                    == self.entries@[i].1,
            self.map().dom().finite(),
    {
        lemma_pairs_map_dom(self.entries@);
        assert forall|i: int| 0 <= i < self.entries@.len() implies self.map()[
            #[trigger] self.entries@[i].0@] == self.entries@[i].1 by {
            lemma_pairs_map_at(self.entries@, i);
        }
    }
}

} // verus!

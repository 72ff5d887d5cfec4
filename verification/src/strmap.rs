//! A map keyed by strings, kept as an association list without duplicate keys.
//!
//! The library keys its tables, fields, relationships, record fields and prefix
//! mappings by name; this type is the one place where those maps are built and
//! read, and its contract states them as a `Map` from character sequences.

use vstd::prelude::*;
use crate::text::str_eq;

verus! {

/// A string-keyed map that keeps its keys in insertion order.
#[derive(Debug)]
pub struct StrMap<V> {
    entries: Vec<(String, V)>,
}

impl<V> StrMap<V> {
    #[verifier::type_invariant]
    spec fn keys_unique(self) -> bool {
        forall|i: int, j: int|
            0 <= i < j < self.entries@.len() ==> #[trigger] self.entries@[i].0@
                != #[trigger] self.entries@[j].0@
    }

    /// The keys in insertion order.
    pub closed spec fn key_seq(&self) -> Seq<Seq<char>> {
        self.entries@.map_values(|e: (String, V)| e.0@)
    }

    spec fn index_of(&self, k: Seq<char>) -> int {
        choose|i: int| 0 <= i < self.entries@.len() && self.entries@[i].0@ == k
    }

    /// The contents as a map from key characters to values.
    pub closed spec fn as_map(&self) -> Map<Seq<char>, V> {
        Map::new(
            |k: Seq<char>| exists|i: int| 0 <= i < self.entries@.len() && self.entries@[i].0@ == k,
            |k: Seq<char>| self.entries@[self.index_of(k)].1,
        )
    }

    proof fn lemma_index(&self, i: int)
        requires
            0 <= i < self.entries@.len(),
            self.keys_unique(),
        ensures
            self.as_map().contains_key(self.entries@[i].0@),
            self.as_map()[self.entries@[i].0@] == self.entries@[i].1,
            self.key_seq()[i] == self.entries@[i].0@,
    {
        let k = self.entries@[i].0@;
        assert(self.as_map().dom().contains(k));
        let j = self.index_of(k);
        if j != i {
            if j < i {
                assert(self.entries@[j].0@ != self.entries@[i].0@);
            } else {
                assert(self.entries@[i].0@ != self.entries@[j].0@);
            }
        }
    }

    /// A map holds finitely many keys.
    pub proof fn lemma_finite(&self)
        ensures
            self@.dom().finite(),
    {
        assert forall|k: Seq<char>| #[trigger] self@.dom().contains(k) <==> self.key_seq().to_set().contains(k) by {
            if self@.contains_key(k) {
                let i = choose|i: int| 0 <= i < self.entries@.len() && self.entries@[i].0@ == k;
                assert(self.key_seq()[i] == k);
            }
            if self.key_seq().contains(k) {
                let i = choose|i: int| 0 <= i < self.key_seq().len() && self.key_seq()[i] == k;
                assert(self.entries@[i].0@ == k);
            }
        }
        assert(self@.dom() =~= self.key_seq().to_set());
    }

    proof fn lemma_keys(&self)
        requires
            self.keys_unique(),
        ensures
            forall|k: Seq<char>| #[trigger] self@.contains_key(k) <==> self.key_seq().contains(k),
            self.key_seq().no_duplicates(),
    {
        assert forall|k: Seq<char>| #[trigger] self@.contains_key(k) <==> self.key_seq().contains(k) by {
            if self@.contains_key(k) {
                let i = choose|i: int| 0 <= i < self.entries@.len() && self.entries@[i].0@ == k;
                assert(self.key_seq()[i] == k);
            }
            if self.key_seq().contains(k) {
                let i = choose|i: int| 0 <= i < self.key_seq().len() && self.key_seq()[i] == k;
                assert(self.entries@[i].0@ == k);
            }
        }
        assert forall|i: int, j: int|
            0 <= i < self.key_seq().len() && 0 <= j < self.key_seq().len() && i != j
            implies self.key_seq()[i] != self.key_seq()[j] by {
            if i < j {
                assert(self.entries@[i].0@ != self.entries@[j].0@);
            } else {
                assert(self.entries@[j].0@ != self.entries@[i].0@);
            }
        }
    }

    /// An empty map.
    pub fn new() -> (r: Self)
        ensures
            r@ == Map::<Seq<char>, V>::empty(),
            r.key_seq() == Seq::<Seq<char>>::empty(),
    {
        let r = StrMap { entries: Vec::new() };
        assert(r@ =~= Map::<Seq<char>, V>::empty());
        assert(r.key_seq() =~= Seq::<Seq<char>>::empty());
        r
    }

    /// Number of entries.
    pub fn len(&self) -> (r: usize)
        ensures
            r == self.key_seq().len(),
            forall|k: Seq<char>| #[trigger] self@.contains_key(k) <==> self.key_seq().contains(k),
            self.key_seq().no_duplicates(),
            self@.dom().finite(),
            r == self@.dom().len(),
    {
        proof {
            use_type_invariant(self);
            self.lemma_keys();
            assert(self@.dom() =~= self.key_seq().to_set());
            self.key_seq().unique_seq_to_set();
        }
        self.entries.len()
    }

    /// Whether the map has no entries.
    pub fn is_empty(&self) -> (r: bool)
        ensures
            r == (self.key_seq().len() == 0),
            r == (self@ == Map::<Seq<char>, V>::empty()),
    {
        proof {
            use_type_invariant(self);
            self.lemma_keys();
            if self.key_seq().len() > 0 {
                assert(self@.contains_key(self.key_seq()[0]));
            } else {
                assert(self@ =~= Map::<Seq<char>, V>::empty());
            }
        }
        self.entries.len() == 0
    }

    /// Position of `key` among the entries.
    fn find(&self, key: &str) -> (r: Option<usize>)
        ensures
            match r {
                Some(i) => i < self.entries@.len() && self.entries@[i as int].0@ == key@,
                None => !self@.contains_key(key@),
            },
    {
        let n = self.entries.len();
        let mut i: usize = 0;
        while i < n
            invariant
                0 <= i <= n == self.entries@.len(),
                forall|j: int| 0 <= j < i ==> self.entries@[j].0@ != key@,
            decreases n - i,
        {
            if str_eq(self.entries[i].0.as_str(), key) {
                return Some(i);
            }
            i = i + 1;
        }
        None
    }

    /// Whether `key` is present.
    pub fn contains_key(&self, key: &str) -> (r: bool)
        ensures
            r == self@.contains_key(key@),
    {
        match self.find(key) {
            Some(_) => true,
            None => false,
        }
    }

    /// The value stored under `key`.
    pub fn get(&self, key: &str) -> (r: Option<&V>)
        ensures
            match r {
                Some(v) => self@.contains_key(key@) && *v == self@[key@],
                None => !self@.contains_key(key@),
            },
    {
        proof {
            use_type_invariant(self);
        }
        match self.find(key) {
            Some(i) => {
                proof {
                    self.lemma_index(i as int);
                }
                Some(&self.entries[i].1)
            },
            None => None,
        }
    }

    /// The key and value at position `i` of the insertion order.
    pub fn entry_at(&self, i: usize) -> (r: (&String, &V))
        requires
            i < self.key_seq().len(),
        ensures
            r.0@ == self.key_seq()[i as int],
            self@.contains_key(r.0@),
            *r.1 == self@[r.0@],
    {
        proof {
            use_type_invariant(self);
            self.lemma_index(i as int);
        }
        (&self.entries[i].0, &self.entries[i].1)
    }

    /// The keys in insertion order.
    pub fn keys(&self) -> (r: Vec<String>)
        ensures
            r@.len() == self.key_seq().len(),
            forall|i: int| 0 <= i < r@.len() ==> #[trigger] r@[i]@ == self.key_seq()[i],
    {
        let n = self.entries.len();
        let mut out: Vec<String> = Vec::new();
        let mut i: usize = 0;
        while i < n
            invariant
                0 <= i <= n == self.entries@.len(),
                out@.len() == i,
                forall|j: int| 0 <= j < i ==> #[trigger] out@[j]@ == self.key_seq()[j],
            decreases n - i,
        {
            out.push(self.entries[i].0.clone());
            i = i + 1;
        }
        out
    }

    /// Store `value` under `key`, replacing any earlier value. A new key goes
    /// last in the insertion order; a present key keeps its place.
    pub fn insert(&mut self, key: String, value: V)
        ensures
            final(self)@ == old(self)@.insert(key@, value),
            old(self)@.contains_key(key@) ==> final(self).key_seq() == old(self).key_seq(),
            !old(self)@.contains_key(key@) ==> final(self).key_seq() == old(self).key_seq().push(key@),
    {
        proof {
            use_type_invariant(&*self);
        }
        let ghost old_entries = self.entries@;
        let pos = self.find(key.as_str());
        let mut entries: Vec<(String, V)> = Vec::new();
        std::mem::swap(&mut entries, &mut self.entries);
        assert(entries@ == old_entries);
        match pos {
            Some(i) => {
                entries.set(i, (key, value));
            },
            None => {
                entries.push((key, value));
            },
        }
        let ghost new_entries = entries@;
        self.entries = entries;
        proof {
            let old_map = Map::new(
                |k: Seq<char>| exists|i: int| 0 <= i < old_entries.len() && old_entries[i].0@ == k,
                |k: Seq<char>| old_entries[choose|i: int| 0 <= i < old_entries.len() && old_entries[i].0@ == k].1,
            );
            assert(old(self)@ == old_map);
            assert forall|k: Seq<char>| #![auto] self@.contains_key(k) <==> old(self)@.insert(key@, value).contains_key(k) by {
                if self@.contains_key(k) {
                    let i = choose|i: int| 0 <= i < new_entries.len() && new_entries[i].0@ == k;
                    if k != key@ {
                        assert(old_entries[i].0@ == k);
                    }
                }
                if old(self)@.contains_key(k) && k != key@ {
                    let i = choose|i: int| 0 <= i < old_entries.len() && old_entries[i].0@ == k;
                    assert(new_entries[i].0@ == k);
                }
                if k == key@ {
                    match pos {
                        Some(i) => { assert(new_entries[i as int].0@ == k); },
                        None => { assert(new_entries[old_entries.len() as int].0@ == k); },
                    }
                }
            }
            assert forall|k: Seq<char>| #[trigger] self@.contains_key(k) implies self@[k] == old(self)@.insert(key@, value)[k] by {
                let j = self.index_of(k);
                self.lemma_index(j);
                if k != key@ {
                    assert(old_entries[j].0@ == k);
                    let oi = choose|i: int| 0 <= i < old_entries.len() && old_entries[i].0@ == k;
                    if oi != j {
                        if oi < j {
                            assert(old_entries[oi].0@ != old_entries[j].0@);
                        } else {
                            assert(old_entries[j].0@ != old_entries[oi].0@);
                        }
                    }
                }
            }
            assert(self@ =~= old(self)@.insert(key@, value));
            match pos {
                Some(i) => {
                    assert(self.key_seq() =~= old(self).key_seq());
                },
                None => {
                    assert(self.key_seq() =~= old(self).key_seq().push(key@));
                },
            }
        }
    }

    /// Take the value stored under `key` out of the map.
    pub fn remove(&mut self, key: &str) -> (r: Option<V>)
        ensures
            final(self)@ == old(self)@.remove(key@),
            match r {
                Some(v) => old(self)@.contains_key(key@) && v == old(self)@[key@],
                None => !old(self)@.contains_key(key@),
            },
    {
        proof {
            use_type_invariant(&*self);
        }
        let ghost old_entries = self.entries@;
        match self.find(key) {
            Some(i) => {
                proof {
                    self.lemma_index(i as int);
                }
                let mut entries: Vec<(String, V)> = Vec::new();
                std::mem::swap(&mut entries, &mut self.entries);
                let (_k, v) = entries.remove(i);
                let ghost new_entries = entries@;
                self.entries = entries;
                proof {
                    assert forall|k: Seq<char>| #![auto] self@.contains_key(k) <==> old(self)@.remove(key@).contains_key(k) by {
                        if self@.contains_key(k) {
                            let j = choose|j: int| 0 <= j < new_entries.len() && new_entries[j].0@ == k;
                            if j < i {
                                assert(old_entries[j].0@ == k);
                                assert(old_entries[j].0@ != old_entries[i as int].0@);
                            } else {
                                assert(old_entries[j + 1].0@ == k);
                                assert(old_entries[i as int].0@ != old_entries[j + 1].0@);
                            }
                        }
                        if old(self)@.contains_key(k) && k != key@ {
                            let j = choose|j: int| 0 <= j < old_entries.len() && old_entries[j].0@ == k;
                            if j < i {
                                assert(new_entries[j].0@ == k);
                            } else {
                                assert(j != i);
                                assert(new_entries[j - 1].0@ == k);
                            }
                        }
                    }
                    assert forall|k: Seq<char>| #[trigger] self@.contains_key(k) implies self@[k] == old(self)@.remove(key@)[k] by {
                        let j = self.index_of(k);
                        self.lemma_index(j);
                        let oj = if j < i { j } else { j + 1 };
                        assert(old_entries[oj].0@ == k);
                        old(self).lemma_index(oj);
                    }
                    assert(self@ =~= old(self)@.remove(key@));
                }
                Some(v)
            },
            None => {
                assert(old(self)@.remove(key@) =~= old(self)@);
                None
            },
        }
    }
}

impl<V> View for StrMap<V> {
    type V = Map<Seq<char>, V>;

    open spec fn view(&self) -> Map<Seq<char>, V> {
        self.as_map()
    }
}

}

verus! {

/// Values that can be copied with a stated result: the copy has the same view.
pub trait Duplicate: View + Sized {
    fn duplicate(&self) -> (r: Self)
        ensures
            r@ == self@,
    ;
}

impl Duplicate for String {
    fn duplicate(&self) -> (r: Self) {
        self.clone()
    }
}

impl<V: View> StrMap<V> {
    /// The contents with every value taken by its view.
    pub open spec fn deep(&self) -> Map<Seq<char>, V::V> {
        self@.map_values(|v: V| v@)
    }
}

impl<V: Duplicate> StrMap<V> {
    /// Insert a copy of every entry of `src`; entries of `src` win.
    pub fn insert_all(&mut self, src: &StrMap<V>)
        ensures
            final(self).deep() == old(self).deep().union_prefer_right(src.deep()),
    {
        let n = src.len();
        let ghost keys = src.key_seq();
        let mut i: usize = 0;
        assert(old(self).deep().union_prefer_right(src.deep().restrict(keys.take(0).to_set()))
            =~= old(self).deep());
        while i < n
            invariant
                0 <= i <= n == keys.len(),
                keys == src.key_seq(),
                forall|k: Seq<char>| #[trigger] src@.contains_key(k) <==> keys.contains(k),
                self.deep() == old(self).deep().union_prefer_right(
                    src.deep().restrict(keys.take(i as int).to_set()),
                ),
            decreases n - i,
        {
            let (k, v) = src.entry_at(i);
            let ghost kv = k@;
            let ghost vv = v@;
            let ghost prev = self.deep();
            let kc = k.clone();
            let vc = v.duplicate();
            self.insert(kc, vc);
            proof {
                assert(self.deep() =~= prev.insert(kv, vv));
                assert(src.deep()[kv] == vv);
                assert(keys.take(i + 1).to_set() =~= keys.take(i as int).to_set().insert(kv)) by {
                    assert(keys.take(i + 1) =~= keys.take(i as int).push(kv));
                    keys.take(i as int).lemma_push_to_set_commute(kv);
                }
                assert(self.deep() =~= old(self).deep().union_prefer_right(
                    src.deep().restrict(keys.take(i + 1).to_set()),
                ));
            }
            i = i + 1;
        }
        proof {
            assert(keys.take(n as int) =~= keys);
            assert(keys.to_set() =~= src.deep().dom());
            assert(src.deep().restrict(keys.to_set()) =~= src.deep());
        }
    }

    /// A copy of the whole map.
    pub fn duplicate_map(&self) -> (r: StrMap<V>)
        ensures
            r.deep() == self.deep(),
    {
        let mut r = StrMap::new();
        r.insert_all(self);
        assert(r.deep() =~= self.deep());
        r
    }
}

}

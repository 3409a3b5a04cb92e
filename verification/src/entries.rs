//! Field-keyed entry maps.
//!
//! An object's stored fields form a map from numeric field key to raw
//! bytes.  [`EntryMap`] stores it as an association vector with
//! pairwise-distinct keys, the same key space the data triggers use.

use vstd::prelude::*;
use vstd::pervasive::VecAdditionalExecFns;
use crate::assoc::{
    distinct_keys, kv_map, lemma_kv_map_contains, lemma_kv_map_index, lemma_kv_map_len,
    lemma_kv_map_push, lemma_kv_map_update,
};

verus! {

/// Abstraction of a stored field key.
pub open spec fn entry_key_fn() -> spec_fn(u32) -> u32 {
    |k: u32| k
}

/// Abstraction of a stored value.
pub open spec fn entry_val_fn() -> spec_fn(Vec<u8>) -> Seq<u8> {
    |v: Vec<u8>| v@
}

/// Copies a byte vector.
pub fn clone_bytes(v: &Vec<u8>) -> (r: Vec<u8>)
    ensures
        r@ == v@,
{
    let r = v.clone();
    proof {
        assert forall|i: int| 0 <= i < v@.len() implies r@[i] == v@[i] by {
            assert(vstd::pervasive::cloned::<u8>(v@[i], r@[i]));
        };
        assert(r@ =~= v@);
    }
    r
}

/// A map from field key to raw value, stored as an association vector
/// with pairwise-distinct keys.
pub struct EntryMap {
    pairs: Vec<(u32, Vec<u8>)>,
}

impl View for EntryMap {
    type V = Map<u32, Seq<u8>>;

    closed spec fn view(&self) -> Map<u32, Seq<u8>> {
        kv_map(self.pairs@, entry_key_fn(), entry_val_fn())
    }
}

impl EntryMap {
    /// Keys are pairwise distinct.
    pub closed spec fn wf(self) -> bool {
        distinct_keys(self.pairs@, entry_key_fn())
    }

    /// Creates an empty map.
    pub fn new() -> (r: Self)
        ensures
            r.wf(),
            r@ == Map::<u32, Seq<u8>>::empty(),
    {
        let r = EntryMap { pairs: Vec::new() };
        proof {
            assert(r@ =~= Map::<u32, Seq<u8>>::empty());
        }
        r
    }

    /// The index of the pair carrying `key`, if one exists.
    fn index_of(&self, key: u32) -> (r: Option<usize>)
        ensures
            match r {
                Some(i) => i < self.pairs@.len() && self.pairs@[i as int].0 == key,
                None => forall|j: int|
                    0 <= j < self.pairs@.len() ==> (#[trigger] self.pairs@[j].0) != key,
            },
    {
        let mut i: usize = 0;
        while i < self.pairs.len()
            invariant
                i <= self.pairs@.len(),
                forall|j: int| 0 <= j < i ==> (#[trigger] self.pairs@[j].0) != key,
            decreases self.pairs@.len() - i,
        {
            if self.pairs[i].0 == key {
                return Some(i);
            }
            i = i + 1;
        }
        None
    }

    /// Looks a key up.  Returns the stored value exactly when the key is
    /// in the denoted map.
    pub fn get<'a>(&'a self, key: u32) -> (r: Option<&'a Vec<u8>>)
        requires
            self.wf(),
        ensures
            match r {
                Some(v) => self@.contains_key(key) && self@[key] == v@,
                None => !self@.contains_key(key),
            },
    {
        match self.index_of(key) {
            Some(i) => {
                proof {
                    lemma_kv_map_index(self.pairs@, entry_key_fn(), entry_val_fn(), i as int);
                }
                Some(&self.pairs[i].1)
            },
            None => {
                proof {
                    lemma_kv_map_contains(self.pairs@, entry_key_fn(), entry_val_fn(), key);
                }
                None
            },
        }
    }

    /// The number of entries.
    pub fn len(&self) -> (n: usize)
        requires
            self.wf(),
        ensures
            n == self@.dom().len(),
    {
        proof {
            lemma_kv_map_len(self.pairs@, entry_key_fn(), entry_val_fn());
        }
        self.pairs.len()
    }

    /// Inserts an entry, replacing any entry the key already had.
    pub fn insert(&mut self, key: u32, value: Vec<u8>)
        requires
            old(self).wf(),
        ensures
            final(self).wf(),
            final(self)@ == old(self)@.insert(key, value@),
    {
        let ghost p = (key, value);
        match self.index_of(key) {
            Some(i) => {
                proof {
                    lemma_kv_map_update(self.pairs@, entry_key_fn(), entry_val_fn(), i as int, p);
                }
                self.pairs.set(i, (key, value));
            },
            None => {
                proof {
                    lemma_kv_map_push(self.pairs@, entry_key_fn(), entry_val_fn(), p);
                    assert(distinct_keys(self.pairs@.push(p), entry_key_fn()));
                }
                self.pairs.push((key, value));
            },
        }
    }

    /// The stored pairs in storage order, for iteration.
    pub fn pair_at(&self, i: usize) -> (r: (u32, &Vec<u8>))
        requires
            i < self.spec_pair_count(),
        ensures
            r.0 == self.key_at(i as int),
            r.1@ == self.val_at(i as int),
    {
        (self.pairs[i].0, &self.pairs[i].1)
    }

    /// How many pairs are stored.
    pub fn pair_count(&self) -> (n: usize)
        ensures
            n == self.spec_pair_count(),
    {
        self.pairs.len()
    }

    /// The number of stored pairs.
    pub closed spec fn spec_pair_count(self) -> int {
        self.pairs@.len() as int
    }

    /// The key of the pair at `i`.
    pub closed spec fn key_at(self, i: int) -> u32 {
        self.pairs@[i].0
    }

    /// The value of the pair at `i`.
    pub closed spec fn val_at(self, i: int) -> Seq<u8> {
        self.pairs@[i].1@
    }

    /// The denoted map is the fold of the stored pairs.
    pub proof fn lemma_pairs(self)
        ensures
            self@ == kv_map_of_pairs(self, self.spec_pair_count()),
            self.wf() ==> forall|i: int, j: int|
                0 <= i < j < self.spec_pair_count() ==> self.key_at(i) != self.key_at(j),
    {
        self.lemma_pairs_take(self.spec_pair_count());
        assert(self.pairs@.take(self.pairs@.len() as int) =~= self.pairs@);
    }

    proof fn lemma_pairs_take(self, n: int)
        requires
            0 <= n <= self.spec_pair_count(),
        ensures
            kv_map(self.pairs@.take(n), entry_key_fn(), entry_val_fn()) == kv_map_of_pairs(
                self,
                n,
            ),
        decreases n,
    {
        if n == 0 {
            assert(self.pairs@.take(0) =~= Seq::<(u32, Vec<u8>)>::empty());
        } else {
            self.lemma_pairs_take(n - 1);
            assert(self.pairs@.take(n).drop_last() =~= self.pairs@.take(n - 1));
            assert(self.pairs@.take(n).last() == self.pairs@[n - 1]);
        }
    }

    /// Copies the map, pair for pair.
    pub fn duplicate(&self) -> (r: Self)
        ensures
            r@ == self@,
            r.wf() == self.wf(),
    {
        let mut pairs: Vec<(u32, Vec<u8>)> = Vec::new();
        let mut i: usize = 0;
        while i < self.pairs.len()
            invariant
                i <= self.pairs@.len(),
                pairs@.len() == i,
                forall|j: int|
                    0 <= j < i ==> (#[trigger] pairs@[j]).0 == self.pairs@[j].0
                        && pairs@[j].1@ == self.pairs@[j].1@,
            decreases self.pairs@.len() - i,
        {
            let v = clone_bytes(&self.pairs[i].1);
            pairs.push((self.pairs[i].0, v));
            i = i + 1;
        }
        let r = EntryMap { pairs };
        proof {
            crate::assoc::lemma_kv_map_congruence(
                r.pairs@,
                self.pairs@,
                entry_key_fn(),
                entry_val_fn(),
            );
            if self.wf() {
                assert forall|a: int, b: int|
                    0 <= a < b < r.pairs@.len() implies (#[trigger] r.pairs@[a].0) != (
                #[trigger] r.pairs@[b].0) by {
                    assert(self.pairs@[a].0 != self.pairs@[b].0);
                };
                assert(distinct_keys(r.pairs@, entry_key_fn()));
            }
            if r.wf() {
                assert forall|a: int, b: int|
                    0 <= a < b < self.pairs@.len() implies (#[trigger] self.pairs@[a].0) != (
                #[trigger] self.pairs@[b].0) by {
                    assert(r.pairs@[a].0 != r.pairs@[b].0);
                };
                assert(distinct_keys(self.pairs@, entry_key_fn()));
            }
            assert(r.wf() == self.wf());
        }
        r
    }
}

/// The fold of the first `n` stored pairs into a map, later pairs
/// winning.
pub open spec fn kv_map_of_pairs(m: EntryMap, n: int) -> Map<u32, Seq<u8>>
    decreases n,
{
    if n <= 0 {
        Map::empty()
    } else {
        kv_map_of_pairs(m, n - 1).insert(m.key_at(n - 1), m.val_at(n - 1))
    }
}

} // verus!

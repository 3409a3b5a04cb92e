//! String-keyed option maps.
//!
//! Invocation options and response headers are maps from strings to
//! strings with unique keys and no significant order.  [`StrMap`] stores
//! them as an association vector and is specified by the finite map it
//! denotes.

use vstd::prelude::*;
use vstd::pervasive::VecAdditionalExecFns;
use vstd::set_lib::lemma_subset_equality;
use crate::assoc::{
    distinct_keys, kv_map, lemma_kv_map_contains, lemma_kv_map_index, lemma_kv_map_len,
    lemma_kv_map_push, lemma_kv_map_update,
};

verus! {

/// Abstraction of a stored key.
pub open spec fn str_key_fn() -> spec_fn(String) -> Seq<char> {
    |k: String| k@
}

/// Abstraction of a stored value.
pub open spec fn str_val_fn() -> spec_fn(String) -> Seq<char> {
    |v: String| v@
}

/// A map from strings to strings, stored as an association vector with
/// pairwise-distinct keys.
pub struct StrMap {
    pairs: Vec<(String, String)>,
}

impl View for StrMap {
    type V = Map<Seq<char>, Seq<char>>;

    closed spec fn view(&self) -> Map<Seq<char>, Seq<char>> {
        kv_map(self.pairs@, str_key_fn(), str_val_fn())
    }
}

impl StrMap {
    /// Keys are pairwise distinct.
    pub closed spec fn wf(self) -> bool {
        distinct_keys(self.pairs@, str_key_fn())
    }

    /// Creates an empty map.
    pub fn new() -> (r: Self)
        ensures
            r.wf(),
            r@ == Map::<Seq<char>, Seq<char>>::empty(),
    {
        let r = StrMap { pairs: Vec::new() };
        proof {
            assert(r@ =~= Map::<Seq<char>, Seq<char>>::empty());
        }
        r
    }

    /// The index of the pair carrying `key`, if one exists.
    fn index_of(&self, key: &String) -> (r: Option<usize>)
        ensures
            match r {
                Some(i) => i < self.pairs@.len() && self.pairs@[i as int].0@ == key@,
                None => forall|j: int|
                    0 <= j < self.pairs@.len() ==> (#[trigger] self.pairs@[j].0)@ != key@,
            },
    {
        let mut i: usize = 0;
        while i < self.pairs.len()
            invariant
                i <= self.pairs@.len(),
                forall|j: int| 0 <= j < i ==> (#[trigger] self.pairs@[j].0)@ != key@,
            decreases self.pairs@.len() - i,
        {
            if self.pairs[i].0 == *key {
                return Some(i);
            }
            i = i + 1;
        }
        None
    }

    /// Looks a key up.  Returns the stored value exactly when the key is
    /// in the denoted map.
    pub fn get<'a>(&'a self, key: &String) -> (r: Option<&'a String>)
        requires
            self.wf(),
        ensures
            match r {
                Some(v) => self@.contains_key(key@) && self@[key@] == v@,
                None => !self@.contains_key(key@),
            },
    {
        match self.index_of(key) {
            Some(i) => {
                proof {
                    lemma_kv_map_index(self.pairs@, str_key_fn(), str_val_fn(), i as int);
                }
                Some(&self.pairs[i].1)
            },
            None => {
                proof {
                    lemma_kv_map_contains(self.pairs@, str_key_fn(), str_val_fn(), key@);
                }
                None
            },
        }
    }

    /// The number of entries.
    pub fn len(&self) -> (n: usize)
        requires
            self.wf(),
        ensures
            n == self@.dom().len(),
    {
        proof {
            lemma_kv_map_len(self.pairs@, str_key_fn(), str_val_fn());
        }
        self.pairs.len()
    }

    /// Inserts an entry, replacing any entry the key already had.
    pub fn insert(&mut self, key: String, value: String)
        requires
            old(self).wf(),
        ensures
            final(self).wf(),
            final(self)@ == old(self)@.insert(key@, value@),
    {
        let ghost p = (key, value);
        match self.index_of(&key) {
            Some(i) => {
                proof {
                    lemma_kv_map_update(
                        self.pairs@,
                        str_key_fn(),
                        str_val_fn(),
                        i as int,
                        p,
                    );
                }
                self.pairs.set(i, (key, value));
            },
            None => {
                proof {
                    lemma_kv_map_push(self.pairs@, str_key_fn(), str_val_fn(), p);
                    assert(distinct_keys(self.pairs@.push(p), str_key_fn()));
                }
                self.pairs.push((key, value));
            },
        }
    }

    /// Decides extensional equality of the denoted maps.
    pub fn map_eq(&self, other: &Self) -> (r: bool)
        requires
            self.wf(),
            other.wf(),
        ensures
            r == (self@ == other@),
    {
        proof {
            lemma_kv_map_len(self.pairs@, str_key_fn(), str_val_fn());
            lemma_kv_map_len(other.pairs@, str_key_fn(), str_val_fn());
        }
        if self.pairs.len() != other.pairs.len() {
            proof {
                if self@ == other@ {
                    assert(self@.dom() == other@.dom());
                }
            }
            return false;
        }
        let mut i: usize = 0;
        while i < self.pairs.len()
            invariant
                self.wf(),
                other.wf(),
                i <= self.pairs@.len(),
                self.pairs@.len() == other.pairs@.len(),
                forall|j: int|
                    0 <= j < i ==> other@.contains_key((#[trigger] self.pairs@[j].0)@)
                        && other@[self.pairs@[j].0@] == self.pairs@[j].1@,
            decreases self.pairs@.len() - i,
        {
            proof {
                lemma_kv_map_index(self.pairs@, str_key_fn(), str_val_fn(), i as int);
            }
            match other.get(&self.pairs[i].0) {
                Some(v) => {
                    if !(*v == self.pairs[i].1) {
                        proof {
                            let k = self.pairs@[i as int].0@;
                            assert(self@[k] != other@[k]);
                            if self@ == other@ {
                                assert(self@[k] == other@[k]);
                            }
                        }
                        return false;
                    }
                },
                None => {
                    proof {
                        let k = self.pairs@[i as int].0@;
                        if self@ == other@ {
                            assert(other@.contains_key(k));
                        }
                    }
                    return false;
                },
            }
            i = i + 1;
        }
        proof {
            lemma_kv_map_len(self.pairs@, str_key_fn(), str_val_fn());
            lemma_kv_map_len(other.pairs@, str_key_fn(), str_val_fn());
            assert forall|k: Seq<char>| self@.contains_key(k) implies other@.contains_key(
                k,
            ) by {
                lemma_kv_map_contains(self.pairs@, str_key_fn(), str_val_fn(), k);
                let j = choose|j: int|
                    0 <= j < self.pairs@.len() && (#[trigger] self.pairs@[j].0)@ == k;
                assert(other@.contains_key(self.pairs@[j].0@));
            };
            assert(self@.dom().subset_of(other@.dom()));
            lemma_subset_equality(self@.dom(), other@.dom());
            assert forall|k: Seq<char>| self@.contains_key(k) implies self@[k]
                == other@[k] by {
                lemma_kv_map_contains(self.pairs@, str_key_fn(), str_val_fn(), k);
                let j = choose|j: int|
                    0 <= j < self.pairs@.len() && (#[trigger] self.pairs@[j].0)@ == k;
                lemma_kv_map_index(self.pairs@, str_key_fn(), str_val_fn(), j);
            };
            assert(self@ =~= other@);
        }
        true
    }

    /// Copies the map, pair for pair.
    pub fn duplicate(&self) -> (r: Self)
        ensures
            r@ == self@,
            r.wf() == self.wf(),
    {
        let mut pairs: Vec<(String, String)> = Vec::new();
        let mut i: usize = 0;
        while i < self.pairs.len()
            invariant
                i <= self.pairs@.len(),
                pairs@ =~= self.pairs@.take(i as int),
            decreases self.pairs@.len() - i,
        {
            let k = self.pairs[i].0.clone();
            let v = self.pairs[i].1.clone();
            pairs.push((k, v));
            proof {
                assert(pairs@ =~= self.pairs@.take(i + 1 as int));
            }
            i = i + 1;
        }
        proof {
            assert(self.pairs@.take(self.pairs@.len() as int) =~= self.pairs@);
        }
        let r = StrMap { pairs };
        proof {
            assert(r.pairs@ == self.pairs@);
        }
        r
    }
}

} // verus!

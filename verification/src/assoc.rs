//! Association sequences.
//!
//! Every keyed collection in this crate is stored as a vector of
//! key/value pairs whose keys are pairwise distinct, and is specified by
//! the finite map it denotes.  This module defines that denotation,
//! [`kv_map`], together with the lemmas that relate the sequence
//! operations push and update to map insertion.

use vstd::prelude::*;

verus! {

/// The finite map denoted by an association sequence: later pairs win.
/// `kf` and `vf` abstract the keys and values of the stored pairs into
/// their mathematical counterparts.
pub open spec fn kv_map<K, V, KK, VV>(
    s: Seq<(K, V)>,
    kf: spec_fn(K) -> KK,
    vf: spec_fn(V) -> VV,
) -> Map<KK, VV>
    decreases s.len(),
{
    if s.len() == 0 {
        Map::empty()
    } else {
        kv_map(s.drop_last(), kf, vf).insert(kf(s.last().0), vf(s.last().1))
    }
}

/// The abstracted keys of the sequence are pairwise distinct.
pub open spec fn distinct_keys<K, V, KK>(s: Seq<(K, V)>, kf: spec_fn(K) -> KK) -> bool {
    forall|i: int, j: int| 0 <= i < j < s.len() ==> kf(#[trigger] s[i].0) != kf(#[trigger] s[j].0)
}

/// A key is in the denoted map exactly when some pair carries it.
pub proof fn lemma_kv_map_contains<K, V, KK, VV>(
    s: Seq<(K, V)>,
    kf: spec_fn(K) -> KK,
    vf: spec_fn(V) -> VV,
    k: KK,
)
    ensures
        kv_map(s, kf, vf).contains_key(k) <==> exists|i: int|
            0 <= i < s.len() && kf(#[trigger] s[i].0) == k,
    decreases s.len(),
{
    if s.len() == 0 {
    } else {
        lemma_kv_map_contains(s.drop_last(), kf, vf, k);
        if kv_map(s, kf, vf).contains_key(k) {
            if k == kf(s.last().0) {
                assert(kf(s[s.len() - 1].0) == k);
            } else {
                let i = choose|i: int|
                    0 <= i < s.drop_last().len() && kf(s.drop_last()[i].0) == k;
                assert(kf(s[i].0) == k);
            }
        }
        if exists|i: int| 0 <= i < s.len() && kf(#[trigger] s[i].0) == k {
            let i = choose|i: int| 0 <= i < s.len() && kf(#[trigger] s[i].0) == k;
            if i < s.len() - 1 {
                assert(kf(s.drop_last()[i].0) == k);
            }
        }
    }
}

/// Under distinct keys, each stored pair is reflected exactly in the map.
pub proof fn lemma_kv_map_index<K, V, KK, VV>(
    s: Seq<(K, V)>,
    kf: spec_fn(K) -> KK,
    vf: spec_fn(V) -> VV,
    i: int,
)
    requires
        distinct_keys(s, kf),
        0 <= i < s.len(),
    ensures
        kv_map(s, kf, vf).contains_key(kf(s[i].0)),
        kv_map(s, kf, vf)[kf(s[i].0)] == vf(s[i].1),
    decreases s.len(),
{
    if i == s.len() - 1 {
    } else {
        assert(distinct_keys(s.drop_last(), kf));
        lemma_kv_map_index(s.drop_last(), kf, vf, i);
        assert(kf(s[i].0) != kf(s[s.len() - 1].0));
    }
}

/// Under distinct keys, the map has exactly one entry per pair.
pub proof fn lemma_kv_map_len<K, V, KK, VV>(
    s: Seq<(K, V)>,
    kf: spec_fn(K) -> KK,
    vf: spec_fn(V) -> VV,
)
    requires
        distinct_keys(s, kf),
    ensures
        kv_map(s, kf, vf).dom().finite(),
        kv_map(s, kf, vf).dom().len() == s.len(),
    decreases s.len(),
{
    broadcast use vstd::set::group_set_axioms;

    if s.len() == 0 {
        assert(kv_map(s, kf, vf).dom() =~= Set::empty());
    } else {
        assert(distinct_keys(s.drop_last(), kf));
        lemma_kv_map_len(s.drop_last(), kf, vf);
        lemma_kv_map_contains(s.drop_last(), kf, vf, kf(s.last().0));
        assert(forall|i: int|
            0 <= i < s.drop_last().len() ==> kf(#[trigger] s.drop_last()[i].0) != kf(
                s.last().0,
            ));
        assert(!kv_map(s.drop_last(), kf, vf).contains_key(kf(s.last().0)));
        assert(kv_map(s, kf, vf).dom() =~= kv_map(s.drop_last(), kf, vf).dom().insert(
            kf(s.last().0),
        ));
    }
}

/// Appending a pair inserts its abstraction.
pub proof fn lemma_kv_map_push<K, V, KK, VV>(
    s: Seq<(K, V)>,
    kf: spec_fn(K) -> KK,
    vf: spec_fn(V) -> VV,
    p: (K, V),
)
    ensures
        kv_map(s.push(p), kf, vf) == kv_map(s, kf, vf).insert(kf(p.0), vf(p.1)),
{
    assert(s.push(p).drop_last() =~= s);
    assert(s.push(p).last() == p);
}

/// Replacing the pair that carries a key overwrites that key's entry.
pub proof fn lemma_kv_map_update<K, V, KK, VV>(
    s: Seq<(K, V)>,
    kf: spec_fn(K) -> KK,
    vf: spec_fn(V) -> VV,
    i: int,
    p: (K, V),
)
    requires
        distinct_keys(s, kf),
        0 <= i < s.len(),
        kf(p.0) == kf(s[i].0),
    ensures
        kv_map(s.update(i, p), kf, vf) == kv_map(s, kf, vf).insert(kf(p.0), vf(p.1)),
        distinct_keys(s.update(i, p), kf),
    decreases s.len(),
{
    if i == s.len() - 1 {
        assert(s.update(i, p).drop_last() =~= s.drop_last());
        assert(s.update(i, p).last() == p);
        assert(kv_map(s.update(i, p), kf, vf) =~= kv_map(s, kf, vf).insert(
            kf(p.0),
            vf(p.1),
        ));
    } else {
        assert(distinct_keys(s.drop_last(), kf));
        assert(s.update(i, p).drop_last() =~= s.drop_last().update(i, p));
        assert(s.update(i, p).last() == s.last());
        lemma_kv_map_update(s.drop_last(), kf, vf, i, p);
        assert(kf(s.last().0) != kf(s[i].0));
        assert(kv_map(s.update(i, p), kf, vf) =~= kv_map(s, kf, vf).insert(
            kf(p.0),
            vf(p.1),
        ));
    }
}

/// Two sequences whose pairs abstract alike denote the same map.
pub proof fn lemma_kv_map_congruence<K, V, KK, VV>(
    s1: Seq<(K, V)>,
    s2: Seq<(K, V)>,
    kf: spec_fn(K) -> KK,
    vf: spec_fn(V) -> VV,
)
    requires
        s1.len() == s2.len(),
        forall|i: int|
            0 <= i < s1.len() ==> kf(#[trigger] s1[i].0) == kf(#[trigger] s2[i].0) && vf(
                s1[i].1,
            ) == vf(s2[i].1),
    ensures
        kv_map(s1, kf, vf) == kv_map(s2, kf, vf),
    decreases s1.len(),
{
    if s1.len() == 0 {
    } else {
        lemma_kv_map_congruence(s1.drop_last(), s2.drop_last(), kf, vf);
        assert(kf(s1[s1.len() - 1].0) == kf(s2[s2.len() - 1].0));
        assert(vf(s1[s1.len() - 1].1) == vf(s2[s2.len() - 1].1));
    }
}

/// One step of a left-to-right fold over the sequence.
pub proof fn lemma_kv_map_take_step<K, V, KK, VV>(
    s: Seq<(K, V)>,
    kf: spec_fn(K) -> KK,
    vf: spec_fn(V) -> VV,
    i: int,
)
    requires
        0 <= i < s.len(),
    ensures
        kv_map(s.take(i + 1), kf, vf) == kv_map(s.take(i), kf, vf).insert(
            kf(s[i].0),
            vf(s[i].1),
        ),
{
    assert(s.take(i + 1).drop_last() =~= s.take(i));
    assert(s.take(i + 1).last() == s[i]);
}

} // verus!

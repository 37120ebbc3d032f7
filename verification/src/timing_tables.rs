//! The keyed tables the counter readback keeps: timings that arrived before their counters, by
//! frame, and the frames whose counters wait for a timing.

use vstd::prelude::*;

use crate::stats::MeshletGpuFrameTimings;
use std::collections::{BTreeMap, BTreeSet};

verus! {

broadcast use vstd::std_specs::btree::group_btree_axioms;

/// Frame numbers are ordered as integers.
proof fn lemma_frame_keys_ordered()
    ensures
        vstd::laws_cmp::obeys_cmp::<u64>(),
{
    broadcast use vstd::laws_cmp::group_laws_cmp;

}

/// An empty timing table.
pub(crate) fn timings_new() -> (r: BTreeMap<u64, MeshletGpuFrameTimings>)
    ensures
        r@ == Map::<u64, MeshletGpuFrameTimings>::empty(),
{
    BTreeMap::new()
}

/// Records `x` under its frame, replacing an earlier timing of that frame.
pub(crate) fn timings_insert(t: &mut BTreeMap<u64, MeshletGpuFrameTimings>, x: MeshletGpuFrameTimings)
    ensures
        final(t)@ == old(t)@.insert(x.frame_index, x),
{
    proof {
        lemma_frame_keys_ordered();
    }
    t.insert(x.frame_index, x);
}

/// Takes the timing of frame `f` out of the table.
pub(crate) fn timings_remove(t: &mut BTreeMap<u64, MeshletGpuFrameTimings>, f: u64) -> (r: Option<
    MeshletGpuFrameTimings,
>)
    ensures
        final(t)@ == old(t)@.remove(f),
        r == if old(t)@.contains_key(f) {
            Some(old(t)@[f])
        } else {
            None
        },
{
    proof {
        lemma_frame_keys_ordered();
    }
    t.remove(&f)
}

/// The timing of frame `f`, if the table holds one.
pub(crate) fn timings_get(t: &BTreeMap<u64, MeshletGpuFrameTimings>, f: u64) -> (r: Option<
    MeshletGpuFrameTimings,
>)
    ensures
        r == if t@.contains_key(f) {
            Some(t@[f])
        } else {
            None
        },
{
    proof {
        lemma_frame_keys_ordered();
    }
    match t.get(&f) {
        Some(x) => Some(*x),
        None => None,
    }
}

/// How many timings the table holds.
pub(crate) fn timings_len(t: &BTreeMap<u64, MeshletGpuFrameTimings>) -> (r: usize)
    ensures
        r == t@.len(),
{
    proof {
        lemma_frame_keys_ordered();
    }
    t.len()
}

/// An empty set of awaited frames.
pub(crate) fn awaited_new() -> (r: BTreeSet<u64>)
    ensures
        r@ == Set::<u64>::empty(),
{
    BTreeSet::new()
}

/// Adds frame `f` to the awaited frames.
pub(crate) fn awaited_insert(s: &mut BTreeSet<u64>, f: u64)
    ensures
        final(s)@ == old(s)@.insert(f),
{
    proof {
        lemma_frame_keys_ordered();
    }
    s.insert(f);
}

/// Removes frame `f` from the awaited frames.
pub(crate) fn awaited_remove(s: &mut BTreeSet<u64>, f: u64)
    ensures
        final(s)@ == old(s)@.remove(f),
{
    proof {
        lemma_frame_keys_ordered();
    }
    s.remove(&f);
}

/// Whether frame `f` is awaited.
pub(crate) fn awaited_contains(s: &BTreeSet<u64>, f: u64) -> (r: bool)
    ensures
        r == s@.contains(f),
{
    proof {
        lemma_frame_keys_ordered();
    }
    s.contains(&f)
}

} // verus!

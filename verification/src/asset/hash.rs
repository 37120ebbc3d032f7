//! Deterministic content identities: the 128-bit two-lane FNV-style stable hash and the 64-bit
//! FNV-1a section checksum of the cache format.

use vstd::prelude::*;
use vstd::bytes::{spec_u64_to_le_bytes, spec_u32_to_le_bytes, u32_to_le_bytes, u64_to_le_bytes};

use super::MeshletAssetHash;

verus! {

/// FNV-1a 64-bit offset basis.
pub const FNV_OFFSET: u64 = 0xcbf2_9ce4_8422_2325;
/// FNV 64-bit prime.
pub const FNV_PRIME: u64 = 0x0000_0100_0000_01b3;
/// Initial state of the second hash lane.
pub const SECOND_LANE_SEED: u64 = 0x8422_2325_cbf2_9ce4;

/// One FNV-1a step.
pub open spec fn fnv_step(hash: u64, byte: u8) -> u64 {
    (hash ^ (byte as u64)).wrapping_mul(FNV_PRIME)
}

/// The 64-bit FNV-1a checksum of a byte sequence.
pub open spec fn spec_checksum64(bytes: Seq<u8>) -> u64
    decreases bytes.len(),
{
    if bytes.len() == 0 {
        FNV_OFFSET
    } else {
        fnv_step(spec_checksum64(bytes.drop_last()), bytes.last())
    }
}

/// 64-bit FNV-1a checksum of `bytes`.
pub fn checksum64(bytes: &[u8]) -> (r: u64)
    ensures
        r == spec_checksum64(bytes@),
{
    let mut hash: u64 = FNV_OFFSET;
    let mut i: usize = 0;
    while i < bytes.len()
        invariant
            i <= bytes@.len(),
            hash == spec_checksum64(bytes@.subrange(0, i as int)),
        decreases bytes@.len() - i,
    {
        assert(bytes@.subrange(0, i + 1).drop_last() == bytes@.subrange(0, i as int));
        hash = (hash ^ bytes[i] as u64).wrapping_mul(FNV_PRIME);
        i = i + 1;
    }
    assert(bytes@.subrange(0, bytes@.len() as int) == bytes@);
    hash
}

/// State of the two hash lanes.
pub struct HashLanes {
    pub first: u64,
    pub second: u64,
}

/// The second lane's step: an FNV step of the byte with `0xa5`, then a fold of the high half.
pub open spec fn second_lane_step(hash: u64, byte: u8) -> u64 {
    let mixed = (hash ^ ((byte ^ 0xa5u8) as u64)).wrapping_mul(FNV_PRIME);
    mixed ^ (mixed >> 32u64)
}

/// The lanes after absorbing a byte sequence from a given state.
pub open spec fn spec_absorb(start: (u64, u64), bytes: Seq<u8>) -> (u64, u64)
    decreases bytes.len(),
{
    if bytes.len() == 0 {
        start
    } else {
        let before = spec_absorb(start, bytes.drop_last());
        (fnv_step(before.0, bytes.last()), second_lane_step(before.1, bytes.last()))
    }
}

/// The lanes after absorbing a byte sequence from the seed state.
pub open spec fn spec_lanes(bytes: Seq<u8>) -> (u64, u64) {
    spec_absorb((FNV_OFFSET, SECOND_LANE_SEED), bytes)
}

/// The 16-byte identity of the lanes: both lanes in little-endian order.
pub open spec fn spec_finish(lanes: (u64, u64)) -> Seq<u8> {
    spec_u64_to_le_bytes(lanes.0) + spec_u64_to_le_bytes(lanes.1)
}

/// The stable 128-bit hash of a byte stream.
pub open spec fn spec_stable_hash(bytes: Seq<u8>) -> Seq<u8> {
    spec_finish(spec_lanes(bytes))
}

/// Absorbing a concatenation is absorbing one part after the other.
pub proof fn lemma_absorb_concat(start: (u64, u64), a: Seq<u8>, b: Seq<u8>)
    ensures
        spec_absorb(start, a + b) == spec_absorb(spec_absorb(start, a), b),
    decreases b.len(),
{
    if b.len() == 0 {
        assert(a + b == a);
    } else {
        assert((a + b).drop_last() == a + b.drop_last());
        assert((a + b).last() == b.last());
        lemma_absorb_concat(start, a, b.drop_last());
    }
}

/// Incremental form of the stable hash.
pub struct StableHasher {
    first: u64,
    second: u64,
    absorbed: Ghost<Seq<u8>>,
}

impl View for StableHasher {
    /// Every byte written so far.
    type V = Seq<u8>;

    closed spec fn view(&self) -> Seq<u8> {
        self.absorbed@
    }
}

impl StableHasher {
    /// The lanes agree with the bytes written so far.
    pub closed spec fn wf(&self) -> bool {
        spec_lanes(self.absorbed@) == (self.first, self.second)
    }

    pub fn new() -> (r: Self)
        ensures
            r.wf(),
            r@ == Seq::<u8>::empty(),
    {
        StableHasher { first: FNV_OFFSET, second: SECOND_LANE_SEED, absorbed: Ghost(Seq::empty()) }
    }

    pub fn write(&mut self, bytes: &[u8])
        requires
            old(self).wf(),
        ensures
            final(self).wf(),
            final(self)@ == old(self)@ + bytes@,
    {
        let ghost start = self.absorbed@;
        let mut i: usize = 0;
        while i < bytes.len()
            invariant
                i <= bytes@.len(),
                self.absorbed@ == start + bytes@.subrange(0, i as int),
                spec_lanes(self.absorbed@) == (self.first, self.second),
            decreases bytes@.len() - i,
        {
            let byte = bytes[i];
            let ghost before = self.absorbed@;
            self.first = (self.first ^ byte as u64).wrapping_mul(FNV_PRIME);
            let mixed = (self.second ^ (byte ^ 0xa5u8) as u64).wrapping_mul(FNV_PRIME);
            self.second = mixed ^ (mixed >> 32u64);
            proof {
                let after = before.push(byte);
                assert(after.drop_last() == before);
                assert(start + bytes@.subrange(0, i + 1) == after);
                self.absorbed = Ghost(after);
            }
            i = i + 1;
        }
        assert(bytes@.subrange(0, bytes@.len() as int) == bytes@);
    }

    pub fn write_u32(&mut self, value: u32)
        requires
            old(self).wf(),
        ensures
            final(self).wf(),
            final(self)@ == old(self)@ + spec_u32_to_le_bytes(value),
    {
        let bytes = u32_to_le_bytes(value);
        self.write(bytes.as_slice());
    }

    pub fn write_u64(&mut self, value: u64)
        requires
            old(self).wf(),
        ensures
            final(self).wf(),
            final(self)@ == old(self)@ + spec_u64_to_le_bytes(value),
    {
        let bytes = u64_to_le_bytes(value);
        self.write(bytes.as_slice());
    }

    pub fn finish(self) -> (r: MeshletAssetHash)
        requires
            self.wf(),
        ensures
            r@ == spec_stable_hash(self@),
    {
        let first = u64_to_le_bytes(self.first);
        let second = u64_to_le_bytes(self.second);
        let mut bytes: [u8; 16] = [0u8; 16];
        let mut i: usize = 0;
        while i < 8
            invariant
                i <= 8,
                first@.len() == 8,
                second@.len() == 8,
                forall|j: int| 0 <= j < i ==> bytes@[j] == first@[j] && bytes@[j + 8] == second@[j],
            decreases 8 - i,
        {
            bytes.set(i, first[i]);
            bytes.set(i + 8, second[i]);
            i = i + 1;
        }
        let r = MeshletAssetHash::from_bytes(bytes);
        assert(r@ =~= first@ + second@);
        r
    }
}

} // verus!

//! Little-endian words inside byte sequences: reading and writing them, and the byte image of a
//! word sequence.

use vstd::prelude::*;
use vstd::bytes::{
    lemma_auto_spec_u32_to_from_le_bytes, lemma_auto_spec_u64_to_from_le_bytes,
    spec_u32_from_le_bytes, spec_u32_to_le_bytes, spec_u64_from_le_bytes, spec_u64_to_le_bytes,
    u32_from_le_bytes, u32_to_le_bytes, u64_from_le_bytes, u64_to_le_bytes,
};

verus! {

/// The little-endian `u32` stored at byte position `p`.
pub open spec fn u32_at(b: Seq<u8>, p: int) -> u32 {
    spec_u32_from_le_bytes(b.subrange(p, p + 4))
}

/// The little-endian `u64` stored at byte position `p`.
pub open spec fn u64_at(b: Seq<u8>, p: int) -> u64 {
    spec_u64_from_le_bytes(b.subrange(p, p + 8))
}

/// The byte image of a word sequence: every word in little-endian order.
pub open spec fn words_bytes(ws: Seq<u32>) -> Seq<u8>
    decreases ws.len(),
{
    if ws.len() == 0 {
        Seq::empty()
    } else {
        words_bytes(ws.drop_last()) + spec_u32_to_le_bytes(ws.last())
    }
}

/// `n` zero bytes.
pub open spec fn zeros(n: int) -> Seq<u8> {
    Seq::new(n as nat, |_i: int| 0u8)
}

/// `value` rounded up to a multiple of 16.
pub open spec fn align16(value: int) -> int {
    (value + 15) / 16 * 16
}


/// Every `u32` encodes to four bytes and decodes back; every `u64` to eight.
pub proof fn lemma_le_round_trips()
    ensures
        forall|x: u32|
            #![trigger spec_u32_to_le_bytes(x)]
            spec_u32_to_le_bytes(x).len() == 4 && spec_u32_from_le_bytes(spec_u32_to_le_bytes(x))
                == x,
        forall|x: u64|
            #![trigger spec_u64_to_le_bytes(x)]
            spec_u64_to_le_bytes(x).len() == 8 && spec_u64_from_le_bytes(spec_u64_to_le_bytes(x))
                == x,
{
    lemma_auto_spec_u32_to_from_le_bytes();
    lemma_auto_spec_u64_to_from_le_bytes();
    assert forall|x: u32| #![trigger spec_u32_to_le_bytes(x)]
        spec_u32_to_le_bytes(x).len() == 4 && spec_u32_from_le_bytes(spec_u32_to_le_bytes(x))
            == x by {
        assert(spec_u32_to_le_bytes(x).len() == 4);
    }
    assert forall|x: u64| #![trigger spec_u64_to_le_bytes(x)]
        spec_u64_to_le_bytes(x).len() == 8 && spec_u64_from_le_bytes(spec_u64_to_le_bytes(x))
            == x by {
        assert(spec_u64_to_le_bytes(x).len() == 8);
    }
}

/// The byte image of `n` words has `4n` bytes.
pub proof fn lemma_words_bytes_len(ws: Seq<u32>)
    ensures
        words_bytes(ws).len() == 4 * ws.len(),
    decreases ws.len(),
{
    lemma_le_round_trips();
    if ws.len() > 0 {
        lemma_words_bytes_len(ws.drop_last());
    }
}

/// Word `w` of a sequence is stored at byte `4w` of its image.
pub proof fn lemma_words_bytes_at(ws: Seq<u32>, w: int)
    requires
        0 <= w < ws.len(),
    ensures
        words_bytes(ws).len() == 4 * ws.len(),
        words_bytes(ws).subrange(4 * w, 4 * w + 4) == spec_u32_to_le_bytes(ws[w]),
        u32_at(words_bytes(ws), 4 * w) == ws[w],
    decreases ws.len(),
{
    lemma_le_round_trips();
    lemma_words_bytes_len(ws);
    let prefix = ws.drop_last();
    lemma_words_bytes_len(prefix);
    let b = words_bytes(ws);
    if w == ws.len() - 1 {
        assert(b.subrange(4 * w, 4 * w + 4) =~= spec_u32_to_le_bytes(ws[w]));
    } else {
        lemma_words_bytes_at(prefix, w);
        assert(b.subrange(4 * w, 4 * w + 4) =~= words_bytes(prefix).subrange(4 * w, 4 * w + 4));
    }
}

/// The image of a concatenation is the concatenation of the images.
pub proof fn lemma_words_bytes_append(a: Seq<u32>, b: Seq<u32>)
    ensures
        words_bytes(a + b) == words_bytes(a) + words_bytes(b),
    decreases b.len(),
{
    if b.len() == 0 {
        assert(a + b =~= a);
        assert(words_bytes(a) + words_bytes(b) =~= words_bytes(a));
    } else {
        assert((a + b).drop_last() =~= a + b.drop_last());
        assert((a + b).last() == b.last());
        lemma_words_bytes_append(a, b.drop_last());
        assert(words_bytes(a + b) =~= words_bytes(a) + words_bytes(b));
    }
}



/// Reads the little-endian `u32` at `pos`.
pub fn read_u32_at(bytes: &[u8], pos: usize) -> (r: u32)
    requires
        pos + 4 <= bytes@.len(),
    ensures
        r == u32_at(bytes@, pos as int),
{
    let _len = bytes.len();
    u32_from_le_bytes(&bytes[pos..pos + 4])
}

/// Reads the little-endian `u64` at `pos`.
pub fn read_u64_at(bytes: &[u8], pos: usize) -> (r: u64)
    requires
        pos + 8 <= bytes@.len(),
    ensures
        r == u64_at(bytes@, pos as int),
{
    let _len = bytes.len();
    u64_from_le_bytes(&bytes[pos..pos + 8])
}

/// Appends a little-endian `u32`.
pub fn push_u32(output: &mut Vec<u8>, value: u32)
    ensures
        final(output)@ == old(output)@ + spec_u32_to_le_bytes(value),
        final(output)@.len() == old(output)@.len() + 4,
{
    proof {
        lemma_le_round_trips();
    }
    let bytes = u32_to_le_bytes(value);
    let ghost before = output@;
    let mut i: usize = 0;
    while i < 4
        invariant
            bytes@.len() == 4,
            i <= 4,
            output@ == before + bytes@.subrange(0, i as int),
        decreases 4 - i,
    {
        output.push(bytes[i]);
        assert(bytes@.subrange(0, i + 1) =~= bytes@.subrange(0, i as int).push(bytes@[i as int]));
        i = i + 1;
    }
    assert(bytes@.subrange(0, 4) =~= bytes@);
}

/// Appends a little-endian `u64`.
pub fn push_u64(output: &mut Vec<u8>, value: u64)
    ensures
        final(output)@ == old(output)@ + spec_u64_to_le_bytes(value),
        final(output)@.len() == old(output)@.len() + 8,
{
    proof {
        lemma_le_round_trips();
    }
    let bytes = u64_to_le_bytes(value);
    let ghost before = output@;
    let mut i: usize = 0;
    while i < 8
        invariant
            bytes@.len() == 8,
            i <= 8,
            output@ == before + bytes@.subrange(0, i as int),
        decreases 8 - i,
    {
        output.push(bytes[i]);
        assert(bytes@.subrange(0, i + 1) =~= bytes@.subrange(0, i as int).push(bytes@[i as int]));
        i = i + 1;
    }
    assert(bytes@.subrange(0, 8) =~= bytes@);
}

/// Appends bytes.
pub fn push_bytes(output: &mut Vec<u8>, bytes: &[u8])
    ensures
        final(output)@ == old(output)@ + bytes@,
{
    let ghost before = output@;
    let mut i: usize = 0;
    while i < bytes.len()
        invariant
            i <= bytes@.len(),
            output@ == before + bytes@.subrange(0, i as int),
        decreases bytes@.len() - i,
    {
        output.push(bytes[i]);
        assert(bytes@.subrange(0, i + 1) =~= bytes@.subrange(0, i as int).push(bytes@[i as int]));
        i = i + 1;
    }
    assert(bytes@.subrange(0, bytes@.len() as int) =~= bytes@);
}

/// Zero-fills to the next multiple of 16 bytes.
pub fn pad_to_16(output: &mut Vec<u8>)
    requires
        old(output)@.len() + 15 <= usize::MAX,
    ensures
        final(output)@ == old(output)@ + zeros(align16(old(output)@.len() as int) - old(
            output,
        )@.len()),
        final(output)@.len() == align16(old(output)@.len() as int),
{
    let ghost before = output@;
    let target = (output.len() + 15) / 16 * 16;
    while output.len() < target
        invariant
            before.len() <= output@.len() <= target,
            target == align16(before.len() as int),
            output@ == before + zeros(output@.len() - before.len()),
        decreases target - output@.len(),
    {
        let ghost prior = output@;
        output.push(0u8);
        assert(output@ =~= before + zeros(output@.len() - before.len()));
    }
}

} // verus!

//! Reading back what was written: the canonical encoding of a valid asset passes every check of
//! the reader and describes the asset it came from.

use vstd::prelude::*;
use vstd::bytes::{spec_u32_to_le_bytes, spec_u64_to_le_bytes};

use super::decode::{
    clashes_with_earlier, decode_verdict, decoded, directory_verdict, entries_clash, entry_at,
    entry_end, entry_verdict, header_verdict, in_section, kind_entry, kind_present,
    lemma_kind_entry, padding_zero, section_bytes, section_records, all_kinds_present,
    config_section_ok, tables_ok, DecodeVerdict, EntryModel,
};
use super::format::{
    body, directory, directory_entry, encoding_fits, file_size, header, header_start,
    lemma_align16, lemma_body_len, lemma_header_directory_len, lemma_offset_aligned, lemma_offsets_grow, magic,
    section_count, section_data, section_offset, section_stride, spec_encode,
};
use super::hash::spec_checksum64;
use super::layout::{
    align16, lemma_le_round_trips, lemma_words_bytes_len, u32_at, u64_at, zeros,
};
use super::records::{
    attribute_table_words, config_words, lemma_attribute_round_trip, lemma_config_round_trip,
    lemma_lod_round_trip, lemma_mesh_round_trip, lemma_meshlet_round_trip,
    lemma_position_round_trip, lod_table_words, mesh_table_words, meshlet_table_words,
    position_table_words,
};
use super::layout::lemma_words_bytes_at;
use super::validate::asset_valid;
use super::{AssetModel, MeshletSceneAsset};

verus! {

/// A window of a window is a window of the whole.
proof fn lemma_window(big: Seq<u8>, start: int, small: Seq<u8>, p: int, n: int)
    requires
        0 <= start,
        start + small.len() <= big.len(),
        big.subrange(start, start + small.len()) == small,
        0 <= p,
        0 <= n,
        p + n <= small.len(),
    ensures
        big.subrange(start + p, start + p + n) == small.subrange(p, p + n),
{
    assert(big.subrange(start + p, start + p + n) =~= small.subrange(p, p + n));
}

/// Reading a word inside a window reads the window.
proof fn lemma_window_words(big: Seq<u8>, start: int, small: Seq<u8>, p: int)
    requires
        0 <= start,
        start + small.len() <= big.len(),
        big.subrange(start, start + small.len()) == small,
        0 <= p,
    ensures
        p + 4 <= small.len() ==> u32_at(big, start + p) == u32_at(small, p),
        p + 8 <= small.len() ==> u64_at(big, start + p) == u64_at(small, p),
{
    if p + 4 <= small.len() {
        lemma_window(big, start, small, p, 4);
    }
    if p + 8 <= small.len() {
        lemma_window(big, start, small, p, 8);
    }
}

/// The encoding is the header, the directory and the body, one after the other.
proof fn lemma_encode_parts(m: AssetModel)
    requires
        m.source_hash.len() == 16,
        m.build_hash.len() == 16,
    ensures
        spec_encode(m).len() == file_size(m),
        spec_encode(m).subrange(0, 80) == header(m),
        spec_encode(m).subrange(80, 512) == directory(m, 9),
        spec_encode(m).subrange(512, file_size(m)) == body(m, 9),
        header(m).subrange(0, 72) == header_start(m),
{
    lemma_header_directory_len(m, 9);
    lemma_body_len(m, 9);
    let e = spec_encode(m);
    assert(e.subrange(0, 80) =~= header(m));
    assert(e.subrange(80, 512) =~= directory(m, 9));
    assert(e.subrange(512, file_size(m)) =~= body(m, 9));
    assert(header(m).subrange(0, 72) =~= header_start(m));
}

/// The fields of the header, as written.
proof fn lemma_header_fields(m: AssetModel)
    requires
        m.source_hash.len() == 16,
        m.build_hash.len() == 16,
    ensures
        header(m).subrange(0, 8) == magic(),
        u32_at(header(m), 8) == 1,
        u32_at(header(m), 12) == 0x0102_0304,
        u32_at(header(m), 16) == 80,
        u32_at(header(m), 20) == 9,
        header(m).subrange(24, 40) == m.source_hash,
        header(m).subrange(40, 56) == m.build_hash,
        u64_at(header(m), 56) == 80,
        u64_at(header(m), 64) == file_size(m) as u64,
        u64_at(header(m), 72) == spec_checksum64(header_start(m)),
{
    lemma_le_round_trips();
    lemma_header_directory_len(m, 0);
    let h = header(m);
    assert(h.subrange(0, 8) =~= magic());
    assert(h.subrange(8, 12) =~= spec_u32_to_le_bytes(1));
    assert(h.subrange(12, 16) =~= spec_u32_to_le_bytes(0x0102_0304));
    assert(h.subrange(16, 20) =~= spec_u32_to_le_bytes(80));
    assert(h.subrange(20, 24) =~= spec_u32_to_le_bytes(9));
    assert(h.subrange(24, 40) =~= m.source_hash);
    assert(h.subrange(40, 56) =~= m.build_hash);
    assert(h.subrange(56, 64) =~= spec_u64_to_le_bytes(80));
    assert(h.subrange(64, 72) =~= spec_u64_to_le_bytes(file_size(m) as u64));
    assert(h.subrange(72, 80) =~= spec_u64_to_le_bytes(spec_checksum64(header_start(m))));
}

/// Entry `k` of the directory sits at `48 (k - 1)`.
proof fn lemma_directory_window(m: AssetModel, n: int, k: int)
    requires
        m.source_hash.len() == 16,
        m.build_hash.len() == 16,
        1 <= k <= n,
    ensures
        directory(m, n).subrange(48 * (k - 1), 48 * k) == directory_entry(m, k),
    decreases n,
{
    lemma_header_directory_len(m, n);
    lemma_header_directory_len(m, n - 1);
    lemma_le_round_trips();
    if k < n {
        lemma_directory_window(m, n - 1, k);
        assert(directory(m, n).subrange(48 * (k - 1), 48 * k) =~= directory(m, n - 1).subrange(
            48 * (k - 1),
            48 * k,
        ));
    } else {
        assert(directory(m, n).subrange(48 * (k - 1), 48 * k) =~= directory_entry(m, k));
    }
}

/// The fields of a directory entry, as written.
proof fn lemma_entry_fields(m: AssetModel, k: int)
    ensures
        directory_entry(m, k).len() == 48,
        u32_at(directory_entry(m, k), 0) == k as u32,
        u32_at(directory_entry(m, k), 4) == 0,
        u64_at(directory_entry(m, k), 8) == section_offset(m, k) as u64,
        u64_at(directory_entry(m, k), 16) == section_data(m, k).len() as u64,
        u64_at(directory_entry(m, k), 24) == section_count(m, k) as u64,
        u32_at(directory_entry(m, k), 32) == section_stride(k) as u32,
        u32_at(directory_entry(m, k), 36) == 0,
        u64_at(directory_entry(m, k), 40) == spec_checksum64(section_data(m, k)),
{
    lemma_le_round_trips();
    let d = directory_entry(m, k);
    assert(d.subrange(0, 4) =~= spec_u32_to_le_bytes(k as u32));
    assert(d.subrange(4, 8) =~= spec_u32_to_le_bytes(0));
    assert(d.subrange(8, 16) =~= spec_u64_to_le_bytes(section_offset(m, k) as u64));
    assert(d.subrange(16, 24) =~= spec_u64_to_le_bytes(section_data(m, k).len() as u64));
    assert(d.subrange(24, 32) =~= spec_u64_to_le_bytes(section_count(m, k) as u64));
    assert(d.subrange(32, 36) =~= spec_u32_to_le_bytes(section_stride(k) as u32));
    assert(d.subrange(36, 40) =~= spec_u32_to_le_bytes(0));
    assert(d.subrange(40, 48) =~= spec_u64_to_le_bytes(spec_checksum64(section_data(m, k))));
}

/// Directory entry `k - 1` of the encoding describes section `k`.
proof fn lemma_encoded_entry(m: AssetModel, k: int)
    requires
        m.source_hash.len() == 16,
        m.build_hash.len() == 16,
        1 <= k <= 9,
    ensures
        entry_at(spec_encode(m), k - 1) == (EntryModel {
            kind: k as u32,
            flags: 0,
            offset: section_offset(m, k) as u64,
            byte_len: section_data(m, k).len() as u64,
            count: section_count(m, k) as u64,
            stride: section_stride(k) as u32,
            reserved: 0,
            checksum: spec_checksum64(section_data(m, k)),
        }),
{
    let e = spec_encode(m);
    lemma_encode_parts(m);
    lemma_header_directory_len(m, 9);
    lemma_directory_window(m, 9, k);
    lemma_entry_fields(m, k);
    let d = directory_entry(m, k);
    let start = 80 + 48 * (k - 1);
    assert(e.subrange(start, start + 48) =~= d) by {
        lemma_window(e, 80, directory(m, 9), 48 * (k - 1), 48);
    }
    lemma_window_words(e, start, d, 0);
    lemma_window_words(e, start, d, 4);
    lemma_window_words(e, start, d, 8);
    lemma_window_words(e, start, d, 16);
    lemma_window_words(e, start, d, 24);
    lemma_window_words(e, start, d, 32);
    lemma_window_words(e, start, d, 36);
    lemma_window_words(e, start, d, 40);
}

/// The first `k` sections and their padding begin the body of `n >= k` sections.
proof fn lemma_body_prefix(m: AssetModel, k: int, n: int)
    requires
        0 <= k <= n <= 9,
    ensures
        body(m, k).len() <= body(m, n).len(),
        body(m, n).subrange(0, body(m, k).len() as int) == body(m, k),
    decreases n,
{
    if k < n {
        lemma_body_prefix(m, k, n - 1);
        lemma_body_len(m, n);
        assert(body(m, n).subrange(0, body(m, k).len() as int) =~= body(m, n - 1).subrange(
            0,
            body(m, k).len() as int,
        ));
    } else {
        assert(body(m, n).subrange(0, body(m, k).len() as int) =~= body(m, k));
    }
}

/// The middle part of a concatenation.
proof fn lemma_middle(a: Seq<u8>, d: Seq<u8>, z: Seq<u8>)
    ensures
        (a + d + z).subrange(a.len() as int, (a.len() + d.len()) as int) == d,
{
    assert((a + d + z).subrange(a.len() as int, (a.len() + d.len()) as int) =~= d);
}

/// Section `k` is stored in the body after the previous sections and their padding.
proof fn lemma_section_in_body(m: AssetModel, k: int)
    requires
        1 <= k <= 9,
    ensures
        512 + body(m, k - 1).len() == section_offset(m, k),
        body(m, k - 1).len() + section_data(m, k).len() <= body(m, 9).len(),
        body(m, 9).subrange(
            body(m, k - 1).len() as int,
            (body(m, k - 1).len() + section_data(m, k).len()) as int,
        ) == section_data(m, k),
{
    let data = section_data(m, k);
    let prev = body(m, k - 1);
    let end = section_offset(m, k) + data.len();
    lemma_body_len(m, k - 1);
    lemma_body_prefix(m, k, 9);
    let bk = body(m, k);
    assert(bk == prev + data + zeros(align16(end) - end));
    lemma_middle(prev, data, zeros(align16(end) - end));
    lemma_window(body(m, 9), 0, bk, prev.len() as int, data.len() as int);
}

/// Section `k` is stored at its offset.
proof fn lemma_section_window(m: AssetModel, k: int)
    requires
        m.source_hash.len() == 16,
        m.build_hash.len() == 16,
        1 <= k <= 9,
    ensures
        spec_encode(m).subrange(section_offset(m, k), section_offset(m, k) + section_data(
            m,
            k,
        ).len()) == section_data(m, k),
{
    let off = section_offset(m, k);
    let len = section_data(m, k).len() as int;
    lemma_encode_parts(m);
    lemma_section_in_body(m, k);
    lemma_body_len(m, 9);
    lemma_window(spec_encode(m), 512, body(m, 9), off - 512, len);
}

/// Byte `q` lies in the data of one of the first `n` sections.
spec fn covered(m: AssetModel, n: int, q: int) -> bool {
    exists|k: int|
        1 <= k <= n && section_offset(m, k) <= q < section_offset(m, k) + (#[trigger] section_data(
            m,
            k,
        )).len()
}

/// Every byte of the body outside the sections' data is padding, and zero.
proof fn lemma_body_gaps(m: AssetModel, n: int)
    requires
        0 <= n <= 9,
    ensures
        forall|p: int|
            0 <= p < body(m, n).len() && #[trigger] body(m, n)[p] != 0 ==> covered(m, n, 512 + p),
    decreases n,
{
    if n > 0 {
        lemma_body_gaps(m, n - 1);
        lemma_body_len(m, n - 1);
        lemma_body_len(m, n);
        let prev = body(m, n - 1);
        let data = section_data(m, n);
        let end = section_offset(m, n) + data.len();
        assert(512 + prev.len() == section_offset(m, n));
        assert forall|p: int|
            0 <= p < body(m, n).len() && #[trigger] body(m, n)[p] != 0 implies covered(
            m,
            n,
            512 + p,
        ) by {
            if p < prev.len() {
                assert(body(m, n)[p] == prev[p]);
                assert(covered(m, n - 1, 512 + p));
                let k = choose|k: int|
                    1 <= k <= n - 1 && section_offset(m, k) <= 512 + p < section_offset(m, k) + (
                    #[trigger] section_data(m, k)).len();
                assert(section_data(m, k).len() >= 0);
            } else if p < prev.len() + data.len() {
                assert(section_data(m, n).len() >= 0);
            } else {
                assert(body(m, n)[p] == zeros(align16(end) - end)[p - prev.len() - data.len()]);
            }
        }
    }
}

/// The header of the encoding passes every check.
proof fn lemma_header_accepted(m: AssetModel)
    requires
        m.source_hash.len() == 16,
        m.build_hash.len() == 16,
        encoding_fits(m),
    ensures
        header_verdict(spec_encode(m)) == DecodeVerdict::Accept,
        spec_encode(m).len() == file_size(m),
        file_size(m) % 16 == 0,
        512 <= file_size(m) <= usize::MAX,
        spec_encode(m).subrange(24, 40) == m.source_hash,
        spec_encode(m).subrange(40, 56) == m.build_hash,
{
    let e = spec_encode(m);
    let h = header(m);
    lemma_encode_parts(m);
    lemma_header_fields(m);
    lemma_header_directory_len(m, 0);
    lemma_offsets_grow(m, 1, 9);
    lemma_align16(section_offset(m, 9) + section_data(m, 9).len());
    lemma_window(e, 0, h, 0, 8);
    lemma_window(e, 0, h, 0, 72);
    lemma_window(e, 0, h, 24, 16);
    lemma_window(e, 0, h, 40, 16);
    lemma_window_words(e, 0, h, 8);
    lemma_window_words(e, 0, h, 12);
    lemma_window_words(e, 0, h, 16);
    lemma_window_words(e, 0, h, 20);
    lemma_window_words(e, 0, h, 56);
    lemma_window_words(e, 0, h, 64);
    lemma_window_words(e, 0, h, 72);
}

/// Each section holds its record count times its stride bytes.
proof fn lemma_section_shape(m: AssetModel, k: int)
    requires
        1 <= k <= 9,
    ensures
        section_data(m, k).len() == section_count(m, k) * section_stride(k),
        section_count(m, k) >= 0,
        section_stride(k) >= 1,
{
    reveal(section_data);
    lemma_words_bytes_len(config_words(m.config));
    lemma_words_bytes_len(mesh_table_words(m.meshes));
    lemma_words_bytes_len(lod_table_words(m.lods));
    lemma_words_bytes_len(meshlet_table_words(m.meshlets));
    lemma_words_bytes_len(position_table_words(m.positions));
    lemma_words_bytes_len(attribute_table_words(m.attributes));
    lemma_words_bytes_len(m.meshlet_vertex_refs);
    lemma_words_bytes_len(m.fallback_indices);
}

/// Every directory entry of the encoding passes its own checks.
proof fn lemma_entry_accepted(m: AssetModel, k: int)
    requires
        m.source_hash.len() == 16,
        m.build_hash.len() == 16,
        encoding_fits(m),
        1 <= k <= 9,
    ensures
        entry_verdict(spec_encode(m), entry_at(spec_encode(m), k - 1)) == DecodeVerdict::Accept,
        entry_at(spec_encode(m), k - 1).offset == section_offset(m, k),
        entry_end(entry_at(spec_encode(m), k - 1)) == section_offset(m, k) + section_data(
            m,
            k,
        ).len(),
        entry_at(spec_encode(m), k - 1).kind == k,
        entry_at(spec_encode(m), k - 1).count == section_count(m, k),
        entry_at(spec_encode(m), k - 1).stride == section_stride(k),
{
    let e = spec_encode(m);
    lemma_header_accepted(m);
    lemma_encoded_entry(m, k);
    lemma_section_window(m, k);
    lemma_section_shape(m, k);
    lemma_offsets_grow(m, k, 9);
    let len = section_data(m, k).len();
    let count = section_count(m, k);
    let stride = section_stride(k);
    assert(count <= len) by (nonlinear_arith)
        requires
            len == count * stride,
            stride >= 1,
            count >= 0,
    ;
    lemma_offset_aligned(m, k);
    lemma_align16(section_offset(m, k) + len);
    let x = entry_at(e, k - 1);
    assert(x.offset == section_offset(m, k));
    assert(x.byte_len == len);
    assert(x.count == count);
    assert(entry_end(x) <= file_size(m));
    assert(entry_end(x) + 15 <= usize::MAX);
    assert(x.count * x.stride == len);
    assert(e.subrange(x.offset as int, entry_end(x)) == section_data(m, k));
}

/// No two directory entries of the encoding clash.
proof fn lemma_entries_apart(m: AssetModel, i: int, j: int)
    requires
        m.source_hash.len() == 16,
        m.build_hash.len() == 16,
        encoding_fits(m),
        0 <= j < i < 9,
    ensures
        !entries_clash(entry_at(spec_encode(m), i), entry_at(spec_encode(m), j)),
{
    lemma_entry_accepted(m, i + 1);
    lemma_entry_accepted(m, j + 1);
    lemma_offsets_grow(m, j + 1, i + 1);
}

/// The first `n` directory entries of the encoding pass every check.
proof fn lemma_directory_accepted(m: AssetModel, n: int)
    requires
        m.source_hash.len() == 16,
        m.build_hash.len() == 16,
        encoding_fits(m),
        0 <= n <= 9,
    ensures
        directory_verdict(spec_encode(m), n) == DecodeVerdict::Accept,
    decreases n,
{
    if n > 0 {
        let e = spec_encode(m);
        lemma_directory_accepted(m, n - 1);
        lemma_entry_accepted(m, n);
        assert forall|j: int| 0 <= j < n - 1 implies !#[trigger] entries_clash(
            entry_at(e, n - 1),
            entry_at(e, j),
        ) by {
            lemma_entries_apart(m, n - 1, j);
        }
        assert(!clashes_with_earlier(e, n - 1));
    }
}

/// Every byte of the encoding outside the sections' data is zero.
proof fn lemma_padding_accepted(m: AssetModel)
    requires
        m.source_hash.len() == 16,
        m.build_hash.len() == 16,
        encoding_fits(m),
    ensures
        padding_zero(spec_encode(m)),
{
    let e = spec_encode(m);
    lemma_encode_parts(m);
    lemma_header_accepted(m);
    lemma_body_len(m, 9);
    lemma_body_gaps(m, 9);
    assert forall|q: int| 512 <= q < e.len() && !in_section(e, q) implies #[trigger] e[q] == 0 by {
        assert(e[q] == body(m, 9)[q - 512]);
        if e[q] != 0 {
            assert(covered(m, 9, 512 + (q - 512)));
            let k = choose|k: int|
                1 <= k <= 9 && section_offset(m, k) <= q < section_offset(m, k) + (
                #[trigger] section_data(m, k)).len();
            lemma_entry_accepted(m, k);
            assert(entry_at(e, k - 1).offset <= q < entry_end(entry_at(e, k - 1)));
        }
    }
}

/// In the encoding, the section of kind `k` is the `k`-th, and holds section `k` of the asset.
proof fn lemma_kind_section(m: AssetModel, k: u32)
    requires
        m.source_hash.len() == 16,
        m.build_hash.len() == 16,
        encoding_fits(m),
        1 <= k <= 9,
    ensures
        kind_present(spec_encode(m), k),
        kind_entry(spec_encode(m), k).stride == section_stride(k as int),
        section_bytes(spec_encode(m), k) == section_data(m, k as int),
        section_records(spec_encode(m), k) == section_count(m, k as int),
{
    let e = spec_encode(m);
    lemma_directory_accepted(m, 9);
    lemma_entry_accepted(m, k as int);
    lemma_section_window(m, k as int);
    lemma_kind_entry(e, k - 1, k);
}

/// The sections of the encoding pass their checks and describe the asset.
proof fn lemma_sections_accepted(m: AssetModel)
    requires
        m.source_hash.len() == 16,
        m.build_hash.len() == 16,
        encoding_fits(m),
    ensures
        all_kinds_present(spec_encode(m)),
        config_section_ok(spec_encode(m)),
        tables_ok(spec_encode(m)),
        decoded(spec_encode(m)) == m,
{
    let e = spec_encode(m);
    lemma_kind_section(m, 1);
    lemma_kind_section(m, 2);
    lemma_kind_section(m, 3);
    lemma_kind_section(m, 4);
    lemma_kind_section(m, 5);
    lemma_kind_section(m, 6);
    lemma_kind_section(m, 7);
    lemma_kind_section(m, 8);
    lemma_kind_section(m, 9);
    assert forall|k: u32| 1 <= k <= 9 implies #[trigger] kind_present(e, k) by {
        lemma_kind_section(m, k);
    }
    reveal(section_data);
    lemma_config_round_trip(m.config);
    lemma_mesh_round_trip(m.meshes);
    lemma_lod_round_trip(m.lods);
    lemma_meshlet_round_trip(m.meshlets);
    lemma_position_round_trip(m.positions);
    lemma_attribute_round_trip(m.attributes);
    let d = decoded(e);
    assert(d.meshes =~= m.meshes);
    assert(d.lods =~= m.lods);
    assert(d.meshlets =~= m.meshlets);
    assert(d.positions =~= m.positions);
    assert(d.attributes =~= m.attributes);
    assert forall|i: int| 0 <= i < m.meshlet_vertex_refs.len() implies #[trigger] d.meshlet_vertex_refs[i]
        == m.meshlet_vertex_refs[i] by {
        lemma_words_bytes_at(m.meshlet_vertex_refs, i);
    }
    assert(d.meshlet_vertex_refs =~= m.meshlet_vertex_refs);
    assert forall|i: int| 0 <= i < m.fallback_indices.len() implies #[trigger] d.fallback_indices[i]
        == m.fallback_indices[i] by {
        lemma_words_bytes_at(m.fallback_indices, i);
    }
    assert(d.fallback_indices =~= m.fallback_indices);
    lemma_header_accepted(m);
    assert(d == m);
}

/// Reading back the canonical encoding of a valid asset whose encoding is addressable passes
/// every check and gives the same asset.
pub proof fn lemma_decode_encode(asset: &MeshletSceneAsset)
    requires
        asset_valid(asset@),
        encoding_fits(asset@),
    ensures
        decode_verdict(spec_encode(asset@)) == DecodeVerdict::Accept,
        decoded(spec_encode(asset@)) == asset@,
{
    asset.lemma_view();
    let m = asset@;
    assert(m.source_hash.len() == 16);
    assert(m.build_hash.len() == 16);
    lemma_header_accepted(m);
    lemma_directory_accepted(m, 9);
    lemma_padding_accepted(m);
    lemma_sections_accepted(m);
}

/// Encoding is byte-deterministic: decoding an encoded asset and encoding the result again gives
/// the same bytes.
pub proof fn lemma_reencode_is_identical(asset: &MeshletSceneAsset)
    requires
        asset_valid(asset@),
        encoding_fits(asset@),
    ensures
        asset_valid(decoded(spec_encode(asset@))),
        encoding_fits(decoded(spec_encode(asset@))),
        spec_encode(decoded(spec_encode(asset@))) == spec_encode(asset@),
{
    lemma_decode_encode(asset);
}

/// Every proper prefix of the canonical encoding of a valid, addressable asset is rejected.
pub proof fn lemma_truncation_rejected(asset: &MeshletSceneAsset, len: int)
    requires
        asset_valid(asset@),
        encoding_fits(asset@),
        0 <= len < spec_encode(asset@).len(),
    ensures
        decode_verdict(spec_encode(asset@).subrange(0, len)) != DecodeVerdict::Accept,
{
    asset.lemma_view();
    let m = asset@;
    let e = spec_encode(m);
    let t = e.subrange(0, len);
    assert(m.source_hash.len() == 16);
    assert(m.build_hash.len() == 16);
    lemma_header_accepted(m);
    lemma_encode_parts(m);
    lemma_header_fields(m);
    if len >= 80 {
        assert(t.subrange(64, 72) =~= e.subrange(64, 72));
        lemma_window_words(e, 0, header(m), 64);
        assert(u64_at(t, 64) == u64_at(e, 64));
    }
}

/// The layout of an encoded asset: the header carries the magic, version 1, the byte-order tag,
/// its own size of 80 bytes, nine sections, both identities, the directory offset 80 and the file
/// size; the directory lists the sections in kind order, the first at byte 512 and each at a
/// multiple of 16; the gaps between sections are zero; and the file length is a multiple of 16.
pub proof fn lemma_encoding_layout(asset: &MeshletSceneAsset)
    requires
        asset_valid(asset@),
        encoding_fits(asset@),
    ensures
        ({
            let e = spec_encode(asset@);
            &&& e.subrange(0, 8) == magic()
            &&& u32_at(e, 8) == 1
            &&& u32_at(e, 12) == 0x0102_0304
            &&& u32_at(e, 16) == 80
            &&& u32_at(e, 20) == 9
            &&& e.subrange(24, 40) == asset@.source_hash
            &&& e.subrange(40, 56) == asset@.build_hash
            &&& u64_at(e, 56) == 80
            &&& u64_at(e, 64) == e.len()
            &&& e.len() % 16 == 0
            &&& entry_at(e, 0).offset == 512
            &&& forall|k: int|
                1 <= k <= 9 ==> (#[trigger] entry_at(e, k - 1)).kind == k && entry_at(
                    e,
                    k - 1,
                ).offset % 16 == 0
            &&& padding_zero(e)
        }),
{
    asset.lemma_view();
    let m = asset@;
    let e = spec_encode(m);
    assert(m.source_hash.len() == 16);
    assert(m.build_hash.len() == 16);
    lemma_encode_parts(m);
    lemma_header_fields(m);
    lemma_header_accepted(m);
    lemma_window(e, 0, header(m), 0, 8);
    lemma_window_words(e, 0, header(m), 8);
    lemma_window_words(e, 0, header(m), 12);
    lemma_window_words(e, 0, header(m), 16);
    lemma_window_words(e, 0, header(m), 20);
    lemma_window_words(e, 0, header(m), 56);
    lemma_window_words(e, 0, header(m), 64);
    assert forall|k: int| 1 <= k <= 9 implies (#[trigger] entry_at(e, k - 1)).kind == k && entry_at(
        e,
        k - 1,
    ).offset % 16 == 0 by {
        lemma_entry_accepted(m, k);
        lemma_offset_aligned(m, k);
    }
    lemma_entry_accepted(m, 1);
    lemma_padding_accepted(m);
}

} // verus!

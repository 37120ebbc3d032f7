//! The `.zenmesh` v1 file: an 80-byte header, a directory of nine 48-byte section entries, and
//! nine 16-byte-aligned, checksummed sections with zero-filled gaps.

use vstd::prelude::*;
use vstd::bytes::{spec_u32_to_le_bytes, spec_u64_to_le_bytes};

use super::hash::{checksum64, spec_checksum64};
use super::layout::{
    align16, lemma_le_round_trips, pad_to_16, push_bytes, push_u32, push_u64,
    words_bytes, zeros,
};
use super::records::{
    attribute_table_words, config_words, encode_attributes, encode_config, encode_lods,
    encode_meshes, encode_meshlets, encode_positions, encode_u32s, lod_table_words,
    mesh_table_words, meshlet_table_words, position_table_words,
};
use super::validate::{asset_accepted, asset_valid, validation_error_is, CullingVerdicts};
use super::{AssetModel, MeshletAssetError, MeshletSceneAsset, ZENMESH_VERSION};

verus! {

broadcast use vstd::array::group_array_axioms;

pub const HEADER_SIZE: usize = 80;
pub const DIRECTORY_ENTRY_SIZE: usize = 48;
pub const ALIGNMENT: usize = 16;
pub const SECTION_COUNT: usize = 9;
/// End of the section directory, already a multiple of the alignment.
pub const DIRECTORY_END: usize = 512;
pub const ENDIAN_TAG: u32 = 0x0102_0304;

pub const CONFIG_STRIDE: usize = 32;
pub const MESH_STRIDE: usize = 48;
pub const LOD_STRIDE: usize = 48;
pub const MESHLET_STRIDE: usize = 64;
pub const POSITION_STRIDE: usize = 12;
pub const ATTRIBUTE_STRIDE: usize = 16;

/// `ZENMESH\0`.
pub open spec fn magic() -> Seq<u8> {
    seq![0x5au8, 0x45u8, 0x4eu8, 0x4du8, 0x45u8, 0x53u8, 0x48u8, 0x00u8]
}

/// The record stride of a section kind (1 to 9, in file order).
pub open spec fn section_stride(kind: int) -> int {
    if kind == 1 {
        32
    } else if kind == 2 {
        48
    } else if kind == 3 {
        48
    } else if kind == 4 {
        64
    } else if kind == 5 {
        12
    } else if kind == 6 {
        16
    } else if kind == 7 {
        4
    } else if kind == 8 {
        1
    } else {
        4
    }
}

/// The bytes of one section of an asset.
#[verifier::opaque]
pub open spec fn section_data(m: AssetModel, kind: int) -> Seq<u8> {
    if kind == 1 {
        words_bytes(config_words(m.config))
    } else if kind == 2 {
        words_bytes(mesh_table_words(m.meshes))
    } else if kind == 3 {
        words_bytes(lod_table_words(m.lods))
    } else if kind == 4 {
        words_bytes(meshlet_table_words(m.meshlets))
    } else if kind == 5 {
        words_bytes(position_table_words(m.positions))
    } else if kind == 6 {
        words_bytes(attribute_table_words(m.attributes))
    } else if kind == 7 {
        words_bytes(m.meshlet_vertex_refs)
    } else if kind == 8 {
        m.micro_indices
    } else {
        words_bytes(m.fallback_indices)
    }
}

/// The record count of one section of an asset.
pub open spec fn section_count(m: AssetModel, kind: int) -> int {
    if kind == 1 {
        1
    } else if kind == 2 {
        m.meshes.len() as int
    } else if kind == 3 {
        m.lods.len() as int
    } else if kind == 4 {
        m.meshlets.len() as int
    } else if kind == 5 {
        m.positions.len() as int
    } else if kind == 6 {
        m.attributes.len() as int
    } else if kind == 7 {
        m.meshlet_vertex_refs.len() as int
    } else if kind == 8 {
        m.micro_indices.len() as int
    } else {
        m.fallback_indices.len() as int
    }
}

/// Where section `kind` starts: right after the directory, then each section after the aligned
/// end of the previous one.
pub open spec fn section_offset(m: AssetModel, kind: int) -> int
    decreases kind,
{
    if kind <= 1 {
        DIRECTORY_END as int
    } else {
        align16(section_offset(m, kind - 1) + section_data(m, kind - 1).len())
    }
}

/// Total size of the encoded file.
pub open spec fn file_size(m: AssetModel) -> int {
    align16(section_offset(m, 9) + section_data(m, 9).len())
}

/// The first 72 header bytes: magic, version, byte-order tag, header size, section count,
/// both identities, directory offset, and file size.
pub open spec fn header_start(m: AssetModel) -> Seq<u8> {
    magic() + spec_u32_to_le_bytes(ZENMESH_VERSION) + spec_u32_to_le_bytes(ENDIAN_TAG)
        + spec_u32_to_le_bytes(80) + spec_u32_to_le_bytes(9) + m.source_hash + m.build_hash
        + spec_u64_to_le_bytes(80) + spec_u64_to_le_bytes(file_size(m) as u64)
}

/// The header: its first 72 bytes followed by their checksum.
pub open spec fn header(m: AssetModel) -> Seq<u8> {
    header_start(m) + spec_u64_to_le_bytes(spec_checksum64(header_start(m)))
}

/// The directory entry of section `kind`.
pub open spec fn directory_entry(m: AssetModel, kind: int) -> Seq<u8> {
    spec_u32_to_le_bytes(kind as u32) + spec_u32_to_le_bytes(0) + spec_u64_to_le_bytes(
        section_offset(m, kind) as u64,
    ) + spec_u64_to_le_bytes(section_data(m, kind).len() as u64) + spec_u64_to_le_bytes(
        section_count(m, kind) as u64,
    ) + spec_u32_to_le_bytes(section_stride(kind) as u32) + spec_u32_to_le_bytes(0)
        + spec_u64_to_le_bytes(spec_checksum64(section_data(m, kind)))
}

/// The entries of the first `n` sections.
pub open spec fn directory(m: AssetModel, n: int) -> Seq<u8>
    decreases n,
{
    if n <= 0 {
        Seq::empty()
    } else {
        directory(m, n - 1) + directory_entry(m, n)
    }
}

/// The first `n` sections, each followed by zeros up to the next multiple of 16.
pub open spec fn body(m: AssetModel, n: int) -> Seq<u8>
    decreases n,
{
    if n <= 0 {
        Seq::empty()
    } else {
        let end = section_offset(m, n) + section_data(m, n).len();
        body(m, n - 1) + section_data(m, n) + zeros(align16(end) - end)
    }
}

/// The canonical `.zenmesh` v1 encoding of an asset.
pub open spec fn spec_encode(m: AssetModel) -> Seq<u8> {
    header(m) + directory(m, 9) + body(m, 9)
}

/// The encoding's size is addressable.
pub open spec fn encoding_fits(m: AssetModel) -> bool {
    file_size(m) <= usize::MAX
}

/// Offsets never decrease and every section ends before the next one starts.
pub proof fn lemma_offsets_grow(m: AssetModel, a: int, b: int)
    requires
        1 <= a <= b <= 9,
    ensures
        section_offset(m, a) <= section_offset(m, b),
        a < b ==> align16(section_offset(m, a) + section_data(m, a).len()) <= section_offset(
            m,
            b,
        ),
        section_offset(m, a) + section_data(m, a).len() <= align16(
            section_offset(m, a) + section_data(m, a).len(),
        ),
        align16(section_offset(m, b) + section_data(m, b).len()) <= file_size(m),
        section_offset(m, a) % 16 == 0,
    decreases b - a,
{
    lemma_offset_aligned(m, a);
    lemma_align16(section_offset(m, a) + section_data(m, a).len());
    if a < b {
        lemma_offsets_grow(m, a + 1, b);
        lemma_align16(section_offset(m, a) + section_data(m, a).len());
    } else {
        lemma_offsets_to_end(m, b);
    }
}

/// Every section ends within the file.
proof fn lemma_offsets_to_end(m: AssetModel, b: int)
    requires
        1 <= b <= 9,
    ensures
        align16(section_offset(m, b) + section_data(m, b).len()) <= file_size(m),
    decreases 9 - b,
{
    if b < 9 {
        lemma_offsets_to_end(m, b + 1);
        lemma_offset_aligned(m, b + 1);
        lemma_align16(section_offset(m, b + 1) + section_data(m, b + 1).len());
    }
}

/// Offsets are multiples of 16.
pub proof fn lemma_offset_aligned(m: AssetModel, k: int)
    ensures
        section_offset(m, k) % 16 == 0,
        section_offset(m, k) >= 512,
    decreases k,
{
    if k > 1 {
        lemma_offset_aligned(m, k - 1);
        assert(section_offset(m, k - 1) + section_data(m, k - 1).len() >= 0);
        lemma_align16(section_offset(m, k - 1) + section_data(m, k - 1).len());
    }
}

/// Rounding up to 16 gives the least multiple of 16 not below the value.
pub proof fn lemma_align16(v: int)
    requires
        v >= 0,
    ensures
        v <= align16(v) < v + 16,
        align16(v) % 16 == 0,
        v % 16 == 0 ==> align16(v) == v,
{
}

/// The header has 80 bytes, each directory entry 48.
pub proof fn lemma_header_directory_len(m: AssetModel, n: int)
    requires
        0 <= n,
        m.source_hash.len() == 16,
        m.build_hash.len() == 16,
    ensures
        header_start(m).len() == 72,
        header(m).len() == 80,
        directory(m, n).len() == 48 * n,
    decreases n,
{
    lemma_le_round_trips();
    if n > 0 {
        lemma_header_directory_len(m, n - 1);
    }
}

/// The sections and their padding end where the next section starts.
pub proof fn lemma_body_len(m: AssetModel, k: int)
    requires
        0 <= k <= 9,
    ensures
        k == 0 ==> body(m, k).len() == 0,
        k > 0 ==> DIRECTORY_END + body(m, k).len() == align16(
            section_offset(m, k) + section_data(m, k).len(),
        ),
        k > 0 && k < 9 ==> DIRECTORY_END + body(m, k).len() == section_offset(m, k + 1),
    decreases k,
{
    if k > 0 {
        lemma_body_len(m, k - 1);
        lemma_offset_aligned(m, k);
        let end = section_offset(m, k) + section_data(m, k).len();
        lemma_align16(end);
    }
}

fn encode_section(asset: &MeshletSceneAsset, kind: u32) -> (r: Vec<u8>)
    requires
        1 <= kind <= 9,
    ensures
        r@ == section_data(asset@, kind as int),
{
    proof {
        asset.lemma_view();
        reveal(section_data);
    }
    if kind == 1 {
        encode_config(asset.config)
    } else if kind == 2 {
        encode_meshes(asset.meshes.as_slice())
    } else if kind == 3 {
        encode_lods(asset.lods.as_slice())
    } else if kind == 4 {
        encode_meshlets(asset.meshlets.as_slice())
    } else if kind == 5 {
        encode_positions(asset.positions.as_slice())
    } else if kind == 6 {
        encode_attributes(asset.attributes.as_slice())
    } else if kind == 7 {
        encode_u32s(asset.meshlet_vertex_refs.as_slice())
    } else if kind == 8 {
        let mut output: Vec<u8> = Vec::new();
        push_bytes(&mut output, asset.micro_indices.as_slice());
        assert(output@ =~= asset.micro_indices@);
        output
    } else {
        encode_u32s(asset.fallback_indices.as_slice())
    }
}

fn section_count_of(asset: &MeshletSceneAsset, kind: u32) -> (r: usize)
    requires
        1 <= kind <= 9,
    ensures
        r == section_count(asset@, kind as int),
{
    proof {
        asset.lemma_view();
    }
    if kind == 1 {
        1
    } else if kind == 2 {
        asset.meshes.len()
    } else if kind == 3 {
        asset.lods.len()
    } else if kind == 4 {
        asset.meshlets.len()
    } else if kind == 5 {
        asset.positions.len()
    } else if kind == 6 {
        asset.attributes.len()
    } else if kind == 7 {
        asset.meshlet_vertex_refs.len()
    } else if kind == 8 {
        asset.micro_indices.len()
    } else {
        asset.fallback_indices.len()
    }
}

fn section_stride_of(kind: u32) -> (r: u32)
    requires
        1 <= kind <= 9,
    ensures
        r == section_stride(kind as int),
{
    if kind == 1 {
        32
    } else if kind == 2 {
        48
    } else if kind == 3 {
        48
    } else if kind == 4 {
        64
    } else if kind == 5 {
        12
    } else if kind == 6 {
        16
    } else if kind == 7 {
        4
    } else if kind == 8 {
        1
    } else {
        4
    }
}

/// Deterministically encodes a valid asset as `.zenmesh` v1.
///
/// An asset that validation refuses, with the caller's culling findings `culling`, is refused
/// with the very error validation reports for it; an accepted asset whose encoding would not be
/// addressable is refused with `SizeOverflow`; otherwise the result is the canonical encoding.
pub fn encode(asset: &MeshletSceneAsset, culling: &CullingVerdicts) -> (r: Result<
    Vec<u8>,
    MeshletAssetError,
>)
    ensures
        !asset_accepted(asset@, *culling) ==> r is Err && (r->Err_0 is InvalidConfig
            <==> !super::spec_config_valid(asset@.config)) && (r->Err_0 is InvalidConfig
            || r->Err_0 is InvalidAsset) && validation_error_is(asset@, *culling, r->Err_0),
        asset_accepted(asset@, *culling) && !encoding_fits(asset@) ==> r is Err && r->Err_0 is SizeOverflow,
        asset_accepted(asset@, *culling) && encoding_fits(asset@) ==> r is Ok && r->Ok_0@ == spec_encode(
            asset@,
        ),
{
    asset.validate(culling)?;
    let ghost m = asset@;
    let mut sections: Vec<Vec<u8>> = Vec::new();
    let mut offsets: Vec<usize> = Vec::new();
    let mut cursor: usize = DIRECTORY_END;
    let mut kind: u32 = 1;
    while kind <= 9
        invariant
            m == asset@,
            asset_valid(m),
            asset_accepted(m, *culling),
            1 <= kind <= 10,
            sections@.len() == kind - 1,
            offsets@.len() == kind - 1,
            cursor == section_offset(m, kind as int),
            forall|j: int|
                0 <= j < kind - 1 ==> (#[trigger] sections@[j])@ == section_data(m, j + 1),
            forall|j: int|
                0 <= j < kind - 1 ==> #[trigger] offsets@[j] == section_offset(m, j + 1),
        decreases 10 - kind,
    {
        let data = encode_section(asset, kind);
        let len = data.len();
        if len > usize::MAX - cursor || cursor + len > usize::MAX - 15 {
            proof {
                lemma_offsets_grow(m, kind as int, 9);
                lemma_align16(section_offset(m, kind as int) + section_data(m, kind as int).len());
            }
            return Err(MeshletAssetError::SizeOverflow("encoded file"));
        }
        offsets.push(cursor);
        cursor = (cursor + len + 15) / 16 * 16;
        sections.push(data);
        kind = kind + 1;
    }
    let total_size = cursor;
    assert(total_size == file_size(m));
    let mut output: Vec<u8> = Vec::new();
    push_bytes(&mut output, &[0x5au8, 0x45u8, 0x4eu8, 0x4du8, 0x45u8, 0x53u8, 0x48u8, 0x00u8]);
    push_u32(&mut output, ZENMESH_VERSION);
    push_u32(&mut output, ENDIAN_TAG);
    push_u32(&mut output, 80);
    push_u32(&mut output, 9);
    push_bytes(&mut output, &asset.source_hash.0);
    push_bytes(&mut output, &asset.build_hash.0);
    push_u64(&mut output, 80);
    push_u64(&mut output, total_size as u64);
    proof {
        asset.lemma_view();
        assert(output@ =~= header_start(m));
    }
    let header_checksum = checksum64(output.as_slice());
    push_u64(&mut output, header_checksum);
    assert(output@ == header(m));
    let mut k: usize = 0;
    while k < 9
        invariant
            m == asset@,
            k <= 9,
            sections@.len() == 9,
            offsets@.len() == 9,
            forall|j: int| 0 <= j < 9 ==> (#[trigger] sections@[j])@ == section_data(m, j + 1),
            forall|j: int| 0 <= j < 9 ==> #[trigger] offsets@[j] == section_offset(m, j + 1),
            output@ == header(m) + directory(m, k as int),
        decreases 9 - k,
    {
        let kind = (k + 1) as u32;
        let section = &sections[k];
        push_u32(&mut output, kind);
        push_u32(&mut output, 0);
        push_u64(&mut output, offsets[k] as u64);
        push_u64(&mut output, section.len() as u64);
        push_u64(&mut output, section_count_of(asset, kind) as u64);
        push_u32(&mut output, section_stride_of(kind));
        push_u32(&mut output, 0);
        push_u64(&mut output, checksum64(section.as_slice()));
        proof {
            assert(directory(m, k + 1) == directory(m, k as int) + directory_entry(m, k + 1));
            assert(output@ =~= header(m) + directory(m, k + 1));
        }
        k = k + 1;
    }
    proof {
        lemma_header_directory_len(m, 9);
        lemma_body_len(m, 0);
        lemma_offsets_grow(m, 1, 9);
        assert(header(m) + directory(m, 9) + body(m, 0) =~= header(m) + directory(m, 9));
    }
    let mut k: usize = 0;
    while k < 9
        invariant
            m == asset@,
            k <= 9,
            sections@.len() == 9,
            forall|j: int| 0 <= j < 9 ==> (#[trigger] sections@[j])@ == section_data(m, j + 1),
            output@ == header(m) + directory(m, 9) + body(m, k as int),
            header(m).len() == 80,
            directory(m, 9).len() == 432,
            output@.len() == DIRECTORY_END + body(m, k as int).len(),
            output@.len() == if k == 0 {
                DIRECTORY_END as int
            } else {
                align16(section_offset(m, k as int) + section_data(m, k as int).len())
            },
            output@.len() <= file_size(m),
            file_size(m) <= usize::MAX,
        decreases 9 - k,
    {
        let section = &sections[k];
        proof {
            lemma_body_len(m, k as int);
            lemma_body_len(m, k + 1);
            lemma_offsets_grow(m, k + 1, 9);
        }
        push_bytes(&mut output, section.as_slice());
        pad_to_16(&mut output);
        proof {
            let end = section_offset(m, k + 1) + section_data(m, k + 1).len();
            assert(output@ =~= header(m) + directory(m, 9) + body(m, k + 1));
        }
        k = k + 1;
    }
    Ok(output)
}

} // verus!

//! Reading `.zenmesh` v1 files back: the checks a file must pass, in the order they are made,
//! and the asset it describes.

use vstd::prelude::*;

use super::format::{magic, ENDIAN_TAG};
use super::hash::{checksum64, spec_checksum64};
use super::layout::{align16, push_bytes, read_u32_at, read_u64_at, u32_at, u64_at};
use super::records::{
    attribute_from, config_from, decode_attributes, decode_config, decode_lods, decode_meshes,
    decode_meshlets, decode_positions, decode_u32s, lod_from, lod_reserved_zero, mesh_from,
    mesh_reserved_zero, meshlet_from, meshlet_reserved_zero, position_from,
};
use super::{
    config_error_is, config_fault, invalid_format, spec_config_valid, AssetModel,
    MeshletAssetError, MeshletAssetHash,
    MeshletSceneAsset, ZENMESH_VERSION,
};
use crate::text::bytes_equal;
use std::collections::BTreeMap;

verus! {

/// What reading a byte sequence comes to: the asset, or the kind of error that stops it.
pub ghost enum DecodeVerdict {
    Accept,
    Format,
    Overflow,
    Version(u32),
    Config,
}

/// One entry of the section directory, as stored.
pub ghost struct EntryModel {
    pub kind: u32,
    pub flags: u32,
    pub offset: u64,
    pub byte_len: u64,
    pub count: u64,
    pub stride: u32,
    pub reserved: u32,
    pub checksum: u64,
}

/// Directory entry `i`, read at byte `80 + 48 i`.
pub open spec fn entry_at(b: Seq<u8>, i: int) -> EntryModel {
    let p = 80 + 48 * i;
    EntryModel {
        kind: u32_at(b, p),
        flags: u32_at(b, p + 4),
        offset: u64_at(b, p + 8),
        byte_len: u64_at(b, p + 16),
        count: u64_at(b, p + 24),
        stride: u32_at(b, p + 32),
        reserved: u32_at(b, p + 36),
        checksum: u64_at(b, p + 40),
    }
}

/// The end of an entry's data.
pub open spec fn entry_end(e: EntryModel) -> int {
    e.offset + e.byte_len
}

/// The header checks, in order.
pub open spec fn header_verdict(b: Seq<u8>) -> DecodeVerdict {
    if b.len() < 80 || b.subrange(0, 8) != magic() {
        DecodeVerdict::Format
    } else if u32_at(b, 8) != 1 {
        DecodeVerdict::Version(u32_at(b, 8))
    } else if u32_at(b, 12) != ENDIAN_TAG || u32_at(b, 16) != 80 || u32_at(b, 20) != 9 {
        DecodeVerdict::Format
    } else if u64_at(b, 56) > usize::MAX || u64_at(b, 64) > usize::MAX {
        DecodeVerdict::Overflow
    } else if u64_at(b, 72) != spec_checksum64(b.subrange(0, 72)) || u64_at(b, 64) != b.len()
        || b.len() % 16 != 0 || u64_at(b, 56) != 80 || b.len() < 512 {
        DecodeVerdict::Format
    } else {
        DecodeVerdict::Accept
    }
}

/// The checks one directory entry must pass on its own, in order.
pub open spec fn entry_verdict(b: Seq<u8>, e: EntryModel) -> DecodeVerdict {
    if !(1 <= e.kind <= 9) || e.flags != 0 {
        DecodeVerdict::Format
    } else if e.offset > usize::MAX || e.byte_len > usize::MAX || e.count > usize::MAX {
        DecodeVerdict::Overflow
    } else if e.reserved != 0 {
        DecodeVerdict::Format
    } else if entry_end(e) > usize::MAX {
        DecodeVerdict::Overflow
    } else if e.offset < 512 || e.offset % 16 != 0 || entry_end(e) > b.len() {
        DecodeVerdict::Format
    } else if e.count * e.stride > usize::MAX {
        DecodeVerdict::Overflow
    } else if e.stride == 0 || e.byte_len != e.count * e.stride || spec_checksum64(
        b.subrange(e.offset as int, entry_end(e)),
    ) != e.checksum {
        DecodeVerdict::Format
    } else if entry_end(e) + 15 > usize::MAX {
        DecodeVerdict::Overflow
    } else {
        DecodeVerdict::Accept
    }
}

/// The data ranges of two entries, padding included, overlap.
pub open spec fn ranges_overlap(a: EntryModel, c: EntryModel) -> bool {
    a.offset < align16(entry_end(c)) && c.offset < align16(entry_end(a))
}

/// Two entries share a kind, or their data ranges, padding included, overlap.
pub open spec fn entries_clash(a: EntryModel, c: EntryModel) -> bool {
    ||| ranges_overlap(a, c)
    ||| a.kind == c.kind
}

/// Entry `i` clashes with an earlier entry.
pub open spec fn clashes_with_earlier(b: Seq<u8>, i: int) -> bool {
    exists|j: int| 0 <= j < i && #[trigger] entries_clash(entry_at(b, i), entry_at(b, j))
}

/// The checks of the first `n` directory entries, in order.
pub open spec fn directory_verdict(b: Seq<u8>, n: int) -> DecodeVerdict
    decreases n,
{
    if n <= 0 {
        DecodeVerdict::Accept
    } else if directory_verdict(b, n - 1) != DecodeVerdict::Accept {
        directory_verdict(b, n - 1)
    } else if entry_verdict(b, entry_at(b, n - 1)) != DecodeVerdict::Accept {
        entry_verdict(b, entry_at(b, n - 1))
    } else if clashes_with_earlier(b, n - 1) {
        DecodeVerdict::Format
    } else {
        DecodeVerdict::Accept
    }
}

/// Some entry has kind `k`.
pub open spec fn kind_present(b: Seq<u8>, k: u32) -> bool {
    exists|i: int| 0 <= i < 9 && #[trigger] entry_at(b, i).kind == k
}

/// Every section kind has an entry.
pub open spec fn all_kinds_present(b: Seq<u8>) -> bool {
    forall|k: u32| 1 <= k <= 9 ==> #[trigger] kind_present(b, k)
}

/// Byte `q` lies in the data of some section.
pub open spec fn in_section(b: Seq<u8>, q: int) -> bool {
    exists|i: int|
        0 <= i < 9 && entry_at(b, i).offset <= q < entry_end(#[trigger] entry_at(b, i))
}

/// Every byte after the directory that no section's data covers is zero.
pub open spec fn padding_zero(b: Seq<u8>) -> bool {
    forall|q: int| 512 <= q < b.len() && !in_section(b, q) ==> #[trigger] b[q] == 0
}

/// The entry of kind `k`.
pub open spec fn kind_entry(b: Seq<u8>, k: u32) -> EntryModel {
    entry_at(b, choose|i: int| 0 <= i < 9 && #[trigger] entry_at(b, i).kind == k)
}

/// The data of the section of kind `k`.
pub open spec fn section_bytes(b: Seq<u8>, k: u32) -> Seq<u8> {
    b.subrange(kind_entry(b, k).offset as int, entry_end(kind_entry(b, k)))
}

/// The record count of the section of kind `k`.
pub open spec fn section_records(b: Seq<u8>, k: u32) -> nat {
    kind_entry(b, k).count as nat
}

/// The configuration section holds exactly one 32-byte record whose reserved word is zero.
pub open spec fn config_section_ok(b: Seq<u8>) -> bool {
    &&& kind_entry(b, 1).stride == 32
    &&& kind_entry(b, 1).count == 1
    &&& u32_at(section_bytes(b, 1), 28) == 0
}

/// The other sections have their fixed strides and zero reserved words.
pub open spec fn tables_ok(b: Seq<u8>) -> bool {
    &&& kind_entry(b, 2).stride == 48
    &&& mesh_reserved_zero(section_bytes(b, 2), section_records(b, 2) as int)
    &&& kind_entry(b, 3).stride == 48
    &&& lod_reserved_zero(section_bytes(b, 3), section_records(b, 3) as int)
    &&& kind_entry(b, 4).stride == 64
    &&& meshlet_reserved_zero(section_bytes(b, 4), section_records(b, 4) as int)
    &&& kind_entry(b, 5).stride == 12
    &&& kind_entry(b, 6).stride == 16
    &&& kind_entry(b, 7).stride == 4
    &&& kind_entry(b, 8).stride == 1
    &&& kind_entry(b, 9).stride == 4
}

/// The asset a file describes: both identities from the header, every stream from its section.
pub open spec fn decoded(b: Seq<u8>) -> AssetModel {
    AssetModel {
        source_hash: b.subrange(24, 40),
        build_hash: b.subrange(40, 56),
        config: config_from(section_bytes(b, 1)),
        meshes: Seq::new(section_records(b, 2), |i: int| mesh_from(section_bytes(b, 2), 48 * i)),
        lods: Seq::new(section_records(b, 3), |i: int| lod_from(section_bytes(b, 3), 48 * i)),
        meshlets: Seq::new(
            section_records(b, 4),
            |i: int| meshlet_from(section_bytes(b, 4), 64 * i),
        ),
        positions: Seq::new(
            section_records(b, 5),
            |i: int| position_from(section_bytes(b, 5), 12 * i),
        ),
        attributes: Seq::new(
            section_records(b, 6),
            |i: int| attribute_from(section_bytes(b, 6), 16 * i),
        ),
        meshlet_vertex_refs: Seq::new(
            section_records(b, 7),
            |i: int| u32_at(section_bytes(b, 7), 4 * i),
        ),
        micro_indices: section_bytes(b, 8),
        fallback_indices: Seq::new(
            section_records(b, 9),
            |i: int| u32_at(section_bytes(b, 9), 4 * i),
        ),
    }
}

/// Every check a file goes through, in the order they are made.
pub open spec fn decode_verdict(b: Seq<u8>) -> DecodeVerdict {
    if header_verdict(b) != DecodeVerdict::Accept {
        header_verdict(b)
    } else if directory_verdict(b, 9) != DecodeVerdict::Accept {
        directory_verdict(b, 9)
    } else if !all_kinds_present(b) || !padding_zero(b) || !config_section_ok(b) {
        DecodeVerdict::Format
    } else if !spec_config_valid(decoded(b).config) {
        DecodeVerdict::Config
    } else if !tables_ok(b) {
        DecodeVerdict::Format
    } else {
        DecodeVerdict::Accept
    }
}

/// The error a decoder reports for a verdict.
pub open spec fn verdict_error(v: DecodeVerdict, e: MeshletAssetError) -> bool {
    match v {
        DecodeVerdict::Accept => false,
        DecodeVerdict::Format => e is InvalidFormat,
        DecodeVerdict::Overflow => e is SizeOverflow,
        DecodeVerdict::Version(x) => e matches MeshletAssetError::UnsupportedVersion(y) && y == x,
        DecodeVerdict::Config => e is InvalidConfig,
    }
}

/// The directory is refused only as malformed or as too large to address.
proof fn lemma_directory_refusals(b: Seq<u8>, n: int)
    ensures
        directory_verdict(b, n) != DecodeVerdict::Config,
    decreases n,
{
    if n > 0 {
        lemma_directory_refusals(b, n - 1);
    }
}

/// Once an entry fails, the directory verdict stays that failure.
proof fn lemma_directory_stuck(b: Seq<u8>, n: int, m: int)
    requires
        0 <= n <= m,
        directory_verdict(b, n) != DecodeVerdict::Accept,
    ensures
        directory_verdict(b, m) == directory_verdict(b, n),
    decreases m - n,
{
    if n < m {
        lemma_directory_stuck(b, n, m - 1);
    }
}

/// An accepted directory prefix: every entry passes its own checks and clashes with no earlier one.
proof fn lemma_directory_accept(b: Seq<u8>, n: int)
    requires
        directory_verdict(b, n) == DecodeVerdict::Accept,
    ensures
        forall|i: int|
            0 <= i < n ==> entry_verdict(b, #[trigger] entry_at(b, i)) == DecodeVerdict::Accept
                && !clashes_with_earlier(b, i),
    decreases n,
{
    if n > 0 {
        lemma_directory_accept(b, n - 1);
    }
}

/// In an accepted directory, the entry of kind `k` is the one entry with that kind.
pub proof fn lemma_kind_entry(b: Seq<u8>, i: int, k: u32)
    requires
        directory_verdict(b, 9) == DecodeVerdict::Accept,
        0 <= i < 9,
        entry_at(b, i).kind == k,
    ensures
        kind_entry(b, k) == entry_at(b, i),
{
    lemma_directory_accept(b, 9);
    let c = choose|c: int| 0 <= c < 9 && #[trigger] entry_at(b, c).kind == k;
    assert(0 <= c < 9 && entry_at(b, c).kind == k);
    if c < i {
        assert(entries_clash(entry_at(b, i), entry_at(b, c)));
    } else if i < c {
        assert(entries_clash(entry_at(b, c), entry_at(b, i)));
    }
}

/// A directory entry held in native integers.
#[derive(Clone, Copy)]
struct SectionEntry {
    kind: u32,
    offset: usize,
    byte_len: usize,
    count: usize,
    stride: usize,
}

spec fn entry_matches(s: SectionEntry, e: EntryModel) -> bool {
    &&& s.kind == e.kind
    &&& s.offset == e.offset
    &&& s.byte_len == e.byte_len
    &&& s.count == e.count
    &&& s.stride == e.stride
}

/// An empty section directory, keyed by section kind.
fn directory_new() -> (r: BTreeMap<u32, SectionEntry>)
    ensures
        r@ == Map::<u32, SectionEntry>::empty(),
{
    BTreeMap::new()
}

/// Files `e` under its kind; false when that kind already had an entry.
fn directory_insert(d: &mut BTreeMap<u32, SectionEntry>, e: SectionEntry) -> (r: bool)
    ensures
        r == !old(d)@.contains_key(e.kind),
        final(d)@ == old(d)@.insert(e.kind, e),
{
    assert(vstd::laws_cmp::obeys_cmp::<u32>()) by {
        broadcast use vstd::laws_cmp::group_laws_cmp;
    }
    d.insert(e.kind, e).is_none()
}

/// The entry filed under kind `k`.
fn directory_get(d: &BTreeMap<u32, SectionEntry>, k: u32) -> (r: Option<SectionEntry>)
    ensures
        r matches Some(e) ==> d@.contains_key(k) && d@[k] == e,
        r is None ==> !d@.contains_key(k),
{
    assert(vstd::laws_cmp::obeys_cmp::<u32>()) by {
        broadcast use vstd::laws_cmp::group_laws_cmp;
    }
    broadcast use vstd::std_specs::btree::group_btree_axioms;
    match d.get(&k) {
        Some(e) => Some(*e),
        None => None,
    }
}

fn check_header(bytes: &[u8]) -> (r: Result<(), MeshletAssetError>)
    ensures
        r is Ok <==> header_verdict(bytes@) == DecodeVerdict::Accept,
        r is Err ==> verdict_error(header_verdict(bytes@), r->Err_0),
{
    let len = bytes.len();
    if len < 80 {
        return Err(invalid_format("truncated header"));
    }
    let expected: [u8; 8] = [0x5au8, 0x45u8, 0x4eu8, 0x4du8, 0x45u8, 0x53u8, 0x48u8, 0x00u8];
    assert(expected@ =~= magic());
    if !bytes_equal(&bytes[0..8], expected.as_slice()) {
        return Err(invalid_format("bad magic"));
    }
    let version = read_u32_at(bytes, 8);
    if version != ZENMESH_VERSION {
        return Err(MeshletAssetError::UnsupportedVersion(version));
    }
    if read_u32_at(bytes, 12) != ENDIAN_TAG {
        return Err(invalid_format("unsupported byte order marker"));
    }
    if read_u32_at(bytes, 16) != 80 {
        return Err(invalid_format("unexpected v1 header size"));
    }
    if read_u32_at(bytes, 20) != 9 {
        return Err(invalid_format("expected 9 sections"));
    }
    let directory_offset = read_u64_at(bytes, 56);
    if directory_offset > usize::MAX as u64 {
        return Err(MeshletAssetError::SizeOverflow("directory offset"));
    }
    let file_size = read_u64_at(bytes, 64);
    if file_size > usize::MAX as u64 {
        return Err(MeshletAssetError::SizeOverflow("file size"));
    }
    if read_u64_at(bytes, 72) != checksum64(&bytes[0..72]) {
        return Err(invalid_format("header checksum mismatch"));
    }
    if file_size != len as u64 || len % 16 != 0 {
        return Err(invalid_format("declared file size does not match aligned input size"));
    }
    if directory_offset != 80 {
        return Err(invalid_format("unexpected v1 directory offset"));
    }
    if len < 512 {
        return Err(invalid_format("truncated section directory"));
    }
    Ok(())
}

fn check_entry(bytes: &[u8], i: usize) -> (r: Result<SectionEntry, MeshletAssetError>)
    requires
        header_verdict(bytes@) == DecodeVerdict::Accept,
        i < 9,
    ensures
        r is Ok <==> entry_verdict(bytes@, entry_at(bytes@, i as int)) == DecodeVerdict::Accept,
        r is Ok ==> entry_matches(r->Ok_0, entry_at(bytes@, i as int)),
        r is Err ==> verdict_error(entry_verdict(bytes@, entry_at(bytes@, i as int)), r->Err_0),
{
    let ghost e = entry_at(bytes@, i as int);
    let len = bytes.len();
    let p = 80 + 48 * i;
    let kind = read_u32_at(bytes, p);
    if kind < 1 || kind > 9 {
        return Err(invalid_format("unknown section kind"));
    }
    if read_u32_at(bytes, p + 4) != 0 {
        return Err(invalid_format("section has unsupported flags"));
    }
    let offset = read_u64_at(bytes, p + 8);
    if offset > usize::MAX as u64 {
        return Err(MeshletAssetError::SizeOverflow("section offset"));
    }
    let byte_len = read_u64_at(bytes, p + 16);
    if byte_len > usize::MAX as u64 {
        return Err(MeshletAssetError::SizeOverflow("section byte length"));
    }
    let count = read_u64_at(bytes, p + 24);
    if count > usize::MAX as u64 {
        return Err(MeshletAssetError::SizeOverflow("section element count"));
    }
    let stride = read_u32_at(bytes, p + 32);
    if read_u32_at(bytes, p + 36) != 0 {
        return Err(invalid_format("section has a non-zero reserved field"));
    }
    let checksum = read_u64_at(bytes, p + 40);
    let offset = offset as usize;
    let byte_len = byte_len as usize;
    let count = count as usize;
    let stride = stride as usize;
    if byte_len > usize::MAX - offset {
        return Err(MeshletAssetError::SizeOverflow("section range"));
    }
    let end = offset + byte_len;
    if offset < 512 || offset % 16 != 0 || end > len {
        return Err(invalid_format("section has an out-of-range or unaligned byte range"));
    }
    let expected = match count.checked_mul(stride) {
        Some(v) => v,
        None => {
            return Err(MeshletAssetError::SizeOverflow("section element range"));
        },
    };
    if stride == 0 || byte_len != expected {
        return Err(invalid_format("section byte length does not equal count * stride"));
    }
    if checksum64(&bytes[offset..end]) != checksum {
        return Err(invalid_format("section checksum mismatch"));
    }
    if end > usize::MAX - 15 {
        return Err(MeshletAssetError::SizeOverflow("alignment"));
    }
    Ok(SectionEntry { kind, offset, byte_len, count, stride })
}

/// The directory files every entry under its kind, and holds nothing else.
spec fn directory_files(d: Map<u32, SectionEntry>, entries: Seq<SectionEntry>) -> bool {
    &&& forall|j: int|
        0 <= j < entries.len() ==> d.contains_key((#[trigger] entries[j]).kind) && d[entries[j].kind]
            == entries[j]
    &&& forall|k: u32|
        #[trigger] d.contains_key(k) ==> exists|j: int|
            0 <= j < entries.len() && #[trigger] entries[j].kind == k
}

/// Reads and checks the nine directory entries: the entries in file order, and the directory
/// keyed by kind.
fn read_directory(bytes: &[u8]) -> (r: Result<
    (Vec<SectionEntry>, BTreeMap<u32, SectionEntry>),
    MeshletAssetError,
>)
    requires
        header_verdict(bytes@) == DecodeVerdict::Accept,
    ensures
        r is Ok <==> directory_verdict(bytes@, 9) == DecodeVerdict::Accept,
        r is Ok ==> r->Ok_0.0@.len() == 9 && (forall|i: int|
            0 <= i < 9 ==> entry_matches(#[trigger] r->Ok_0.0@[i], entry_at(bytes@, i)))
            && directory_files(r->Ok_0.1@, r->Ok_0.0@),
        r is Err ==> verdict_error(directory_verdict(bytes@, 9), r->Err_0),
{
    let mut entries: Vec<SectionEntry> = Vec::new();
    let mut directory = directory_new();
    let mut i: usize = 0;
    while i < 9
        invariant
            header_verdict(bytes@) == DecodeVerdict::Accept,
            i <= 9,
            entries@.len() == i,
            directory_verdict(bytes@, i as int) == DecodeVerdict::Accept,
            forall|j: int| 0 <= j < i ==> entry_matches(#[trigger] entries@[j], entry_at(bytes@, j)),
            directory_files(directory@, entries@),
        decreases 9 - i,
    {
        proof {
            lemma_directory_accept(bytes@, i as int);
        }
        let e = match check_entry(bytes, i) {
            Ok(e) => e,
            Err(err) => {
                proof {
                    assert(directory_verdict(bytes@, i + 1) == entry_verdict(
                        bytes@,
                        entry_at(bytes@, i as int),
                    ));
                    lemma_directory_stuck(bytes@, i + 1, 9);
                }
                return Err(err);
            },
        };
        let mut j: usize = 0;
        while j < i
            invariant
                i < 9,
                j <= i,
                entries@.len() == i,
                entry_matches(e, entry_at(bytes@, i as int)),
                entry_verdict(bytes@, entry_at(bytes@, i as int)) == DecodeVerdict::Accept,
                directory_verdict(bytes@, i as int) == DecodeVerdict::Accept,
                entry_end(entry_at(bytes@, i as int)) + 15 <= usize::MAX,
                forall|k: int|
                    0 <= k < i ==> entry_matches(#[trigger] entries@[k], entry_at(bytes@, k)),
                forall|k: int|
                    0 <= k < i ==> entry_end(#[trigger] entry_at(bytes@, k)) + 15 <= usize::MAX,
                forall|k: int|
                    0 <= k < j ==> !ranges_overlap(
                        entry_at(bytes@, i as int),
                        #[trigger] entry_at(bytes@, k),
                    ),
            decreases i - j,
        {
            let o = &entries[j];
            assert(entry_matches(*o, entry_at(bytes@, j as int)));
            let o_end = (o.offset + o.byte_len + 15) / 16 * 16;
            let e_end = (e.offset + e.byte_len + 15) / 16 * 16;
            if e.offset < o_end && o.offset < e_end {
                proof {
                    assert(entries_clash(entry_at(bytes@, i as int), entry_at(bytes@, j as int)));
                    assert(clashes_with_earlier(bytes@, i as int));
                    assert(directory_verdict(bytes@, i + 1) == DecodeVerdict::Format);
                    lemma_directory_stuck(bytes@, i + 1, 9);
                }
                return Err(invalid_format("section ranges overlap"));
            }
            j = j + 1;
        }
        let ghost before = directory@;
        if !directory_insert(&mut directory, e) {
            proof {
                let j = choose|j: int|
                    0 <= j < entries@.len() && #[trigger] entries@[j].kind == e.kind;
                assert(entry_matches(entries@[j], entry_at(bytes@, j)));
                assert(entries_clash(entry_at(bytes@, i as int), entry_at(bytes@, j)));
                assert(clashes_with_earlier(bytes@, i as int));
                assert(directory_verdict(bytes@, i + 1) == DecodeVerdict::Format);
                lemma_directory_stuck(bytes@, i + 1, 9);
            }
            return Err(invalid_format("duplicate section"));
        }
        proof {
            assert forall|k: int| 0 <= k < i implies !#[trigger] entries_clash(
                entry_at(bytes@, i as int),
                entry_at(bytes@, k),
            ) by {
                assert(entry_matches(entries@[k], entry_at(bytes@, k)));
                assert(before.contains_key(entries@[k].kind));
                assert(!ranges_overlap(entry_at(bytes@, i as int), entry_at(bytes@, k)));
            }
            assert(!clashes_with_earlier(bytes@, i as int));
        }
        let ghost old_entries = entries@;
        entries.push(e);
        proof {
            assert forall|k: u32| #[trigger] directory@.contains_key(k) implies exists|j: int|
                0 <= j < entries@.len() && #[trigger] entries@[j].kind == k by {
                if k == e.kind {
                    assert(entries@[i as int].kind == k);
                } else {
                    assert(before.contains_key(k));
                    let j = choose|j: int|
                        0 <= j < old_entries.len() && #[trigger] old_entries[j].kind == k;
                    assert(entries@[j] == old_entries[j]);
                    assert(entries@[j].kind == k);
                }
            }
            assert forall|j: int| 0 <= j < entries@.len() implies directory@.contains_key(
                (#[trigger] entries@[j]).kind,
            ) && directory@[entries@[j].kind] == entries@[j] by {
                if j < i {
                    assert(before.contains_key(entries@[j].kind));
                    assert(entries@[j].kind != e.kind);
                }
            }
        }
        i = i + 1;
    }
    Ok((entries, directory))
}

/// Whether every byte after the directory that lies in no section is zero.
fn check_padding(bytes: &[u8], entries: &Vec<SectionEntry>) -> (r: bool)
    requires
        header_verdict(bytes@) == DecodeVerdict::Accept,
        directory_verdict(bytes@, 9) == DecodeVerdict::Accept,
        entries@.len() == 9,
        forall|i: int| 0 <= i < 9 ==> entry_matches(#[trigger] entries@[i], entry_at(bytes@, i)),
    ensures
        r == padding_zero(bytes@),
{
    proof {
        lemma_directory_accept(bytes@, 9);
    }
    let len = bytes.len();
    let mut q: usize = 512;
    while q < len
        invariant
            len == bytes@.len(),
            512 <= q <= len,
            entries@.len() == 9,
            forall|i: int|
                0 <= i < 9 ==> entry_matches(#[trigger] entries@[i], entry_at(bytes@, i)),
            forall|i: int|
                0 <= i < 9 ==> entry_end(#[trigger] entry_at(bytes@, i)) <= bytes@.len(),
            forall|p: int| 512 <= p < q && !in_section(bytes@, p) ==> #[trigger] bytes@[p] == 0,
        decreases len - q,
    {
        let mut inside = false;
        let mut k: usize = 0;
        while k < 9
            invariant
                len == bytes@.len(),
                q < len,
                k <= 9,
                entries@.len() == 9,
                forall|i: int|
                    0 <= i < 9 ==> entry_matches(#[trigger] entries@[i], entry_at(bytes@, i)),
                forall|i: int|
                    0 <= i < 9 ==> entry_end(#[trigger] entry_at(bytes@, i)) <= bytes@.len(),
                inside == exists|i: int|
                    0 <= i < k && entry_at(bytes@, i).offset <= q < entry_end(
                        #[trigger] entry_at(bytes@, i),
                    ),
            decreases 9 - k,
        {
            let e = &entries[k];
            assert(entry_matches(*e, entry_at(bytes@, k as int)));
            if e.offset <= q && q < e.offset + e.byte_len {
                inside = true;
            }
            k = k + 1;
        }
        if !inside && bytes[q] != 0 {
            assert(!in_section(bytes@, q as int));
            return false;
        }
        q = q + 1;
    }
    true
}

/// The entry of kind `k`; a missing kind is a format error.
fn require_kind(
    bytes: &[u8],
    entries: &Vec<SectionEntry>,
    directory: &BTreeMap<u32, SectionEntry>,
    k: u32,
) -> (r: Result<SectionEntry, MeshletAssetError>)
    requires
        directory_verdict(bytes@, 9) == DecodeVerdict::Accept,
        entries@.len() == 9,
        forall|i: int| 0 <= i < 9 ==> entry_matches(#[trigger] entries@[i], entry_at(bytes@, i)),
        directory_files(directory@, entries@),
    ensures
        r matches Ok(e) ==> e.kind == k && entry_matches(e, kind_entry(bytes@, k)) && kind_present(
            bytes@,
            k,
        ),
        r is Err ==> !kind_present(bytes@, k) && r->Err_0 is InvalidFormat,
{
    match directory_get(directory, k) {
        Some(e) => {
            proof {
                let i = choose|i: int| 0 <= i < entries@.len() && #[trigger] entries@[i].kind == k;
                assert(directory@[entries@[i].kind] == entries@[i]);
                assert(entry_matches(entries@[i], entry_at(bytes@, i)));
                lemma_kind_entry(bytes@, i, k);
            }
            Ok(e)
        },
        None => {
            proof {
                assert forall|i: int| 0 <= i < 9 implies #[trigger] entry_at(bytes@, i).kind != k by {
                    assert(entry_matches(entries@[i], entry_at(bytes@, i)));
                    assert(directory@.contains_key(entries@[i].kind));
                }
            }
            Err(invalid_format("missing required section"))
        },
    }
}

/// The data of the section of kind `k`.
fn section_slice<'a>(bytes: &'a [u8], e: &SectionEntry, Ghost(k): Ghost<u32>) -> (r: &'a [u8])
    requires
        entry_matches(*e, kind_entry(bytes@, k)),
        entry_end(kind_entry(bytes@, k)) <= bytes@.len(),
    ensures
        r@ == section_bytes(bytes@, k),
{
    let _len = bytes.len();
    &bytes[e.offset..e.offset + e.byte_len]
}

/// The 16 bytes at `p` as an identity.
fn read_hash(bytes: &[u8], p: usize) -> (r: MeshletAssetHash)
    requires
        p + 16 <= bytes@.len(),
    ensures
        r@ == bytes@.subrange(p as int, p + 16),
{
    let len = bytes.len();
    let mut h: [u8; 16] = [0u8; 16];
    let mut i: usize = 0;
    while i < 16
        invariant
            p + 16 <= bytes@.len(),
            len == bytes@.len(),
            i <= 16,
            forall|j: int| 0 <= j < i ==> h@[j] == bytes@[p + j],
        decreases 16 - i,
    {
        h.set(i, bytes[p + i]);
        i = i + 1;
    }
    let r = MeshletAssetHash::from_bytes(h);
    assert(r@ =~= bytes@.subrange(p as int, p + 16));
    r
}

/// Reads the records of a `.zenmesh` v1 file. The asset rules are not checked here: they need
/// the caller's culling findings for the decoded asset, and [`MeshletSceneAsset::validate`]
/// checks them next.
///
/// The checks run in a fixed order (header, directory, zero padding, configuration record,
/// configuration rules, record tables) and the first that fails decides the error; a file that
/// passes them all yields the asset it describes.
#[verifier::rlimit(60)]
#[verifier::spinoff_prover]
pub fn decode(bytes: &[u8]) -> (r: Result<MeshletSceneAsset, MeshletAssetError>)
    ensures
        r is Ok <==> decode_verdict(bytes@) == DecodeVerdict::Accept,
        r is Ok ==> r->Ok_0@ == decoded(bytes@),
        r is Err ==> verdict_error(decode_verdict(bytes@), r->Err_0),
        decode_verdict(bytes@) == DecodeVerdict::Config ==> config_error_is(
            r->Err_0,
            config_fault(decoded(bytes@).config),
        ),
{
    let ghost b = bytes@;
    check_header(bytes)?;
    proof {
        lemma_directory_refusals(b, 9);
    }
    let (entries, directory) = read_directory(bytes)?;
    proof {
        lemma_directory_accept(b, 9);
    }
    let ic = require_kind(bytes, &entries, &directory, 1)?;
    let im = require_kind(bytes, &entries, &directory, 2)?;
    let il = require_kind(bytes, &entries, &directory, 3)?;
    let ix = require_kind(bytes, &entries, &directory, 4)?;
    let ip = require_kind(bytes, &entries, &directory, 5)?;
    let ia = require_kind(bytes, &entries, &directory, 6)?;
    let iv = require_kind(bytes, &entries, &directory, 7)?;
    let iu = require_kind(bytes, &entries, &directory, 8)?;
    let iff = require_kind(bytes, &entries, &directory, 9)?;
    assert(all_kinds_present(b));
    if !check_padding(bytes, &entries) {
        return Err(invalid_format("non-zero section alignment padding"));
    }
    assert(forall|i: int| 0 <= i < 9 ==> entry_matches(#[trigger] entries@[i], entry_at(b, i)));
    let ce = &ic;
    assert(entry_matches(*ce, kind_entry(b, 1)));
    if ce.stride != 32 || ce.count != 1 {
        return Err(invalid_format("build-config section must contain exactly one record"));
    }
    let config = match decode_config(section_slice(bytes, ce, Ghost(1u32))) {
        Some(c) => c,
        None => {
            return Err(invalid_format("non-zero build-config reserved field"));
        },
    };
    config.validate()?;
    let me = &im;
    assert(entry_matches(*me, kind_entry(b, 2)));
    if me.stride != 48 {
        return Err(invalid_format("mesh section has the wrong stride"));
    }
    let meshes = match decode_meshes(section_slice(bytes, me, Ghost(2u32)), me.count) {
        Some(v) => v,
        None => {
            return Err(invalid_format("non-zero mesh reserved field"));
        },
    };
    let le = &il;
    assert(entry_matches(*le, kind_entry(b, 3)));
    if le.stride != 48 {
        return Err(invalid_format("LOD section has the wrong stride"));
    }
    let lods = match decode_lods(section_slice(bytes, le, Ghost(3u32)), le.count) {
        Some(v) => v,
        None => {
            return Err(invalid_format("non-zero LOD reserved field"));
        },
    };
    let xe = &ix;
    assert(entry_matches(*xe, kind_entry(b, 4)));
    if xe.stride != 64 {
        return Err(invalid_format("meshlet section has the wrong stride"));
    }
    let meshlets = match decode_meshlets(section_slice(bytes, xe, Ghost(4u32)), xe.count) {
        Some(v) => v,
        None => {
            return Err(invalid_format("non-zero meshlet reserved field"));
        },
    };
    let pe = &ip;
    assert(entry_matches(*pe, kind_entry(b, 5)));
    if pe.stride != 12 {
        return Err(invalid_format("position section has the wrong stride"));
    }
    let positions = decode_positions(section_slice(bytes, pe, Ghost(5u32)), pe.count);
    let ae = &ia;
    assert(entry_matches(*ae, kind_entry(b, 6)));
    if ae.stride != 16 {
        return Err(invalid_format("attribute section has the wrong stride"));
    }
    let attributes = decode_attributes(section_slice(bytes, ae, Ghost(6u32)), ae.count);
    let ve = &iv;
    assert(entry_matches(*ve, kind_entry(b, 7)));
    if ve.stride != 4 {
        return Err(invalid_format("meshlet vertex section has the wrong stride"));
    }
    let meshlet_vertex_refs = decode_u32s(section_slice(bytes, ve, Ghost(7u32)), ve.count);
    let ue = &iu;
    assert(entry_matches(*ue, kind_entry(b, 8)));
    if ue.stride != 1 {
        return Err(invalid_format("micro-index section has the wrong stride"));
    }
    let mut micro_indices: Vec<u8> = Vec::new();
    push_bytes(&mut micro_indices, section_slice(bytes, ue, Ghost(8u32)));
    let fe = &iff;
    assert(entry_matches(*fe, kind_entry(b, 9)));
    if fe.stride != 4 {
        return Err(invalid_format("fallback index section has the wrong stride"));
    }
    let fallback_indices = decode_u32s(section_slice(bytes, fe, Ghost(9u32)), fe.count);
    assert(tables_ok(b));
    let asset = MeshletSceneAsset::from_parts(
        read_hash(bytes, 24),
        read_hash(bytes, 40),
        config,
        meshes,
        lods,
        meshlets,
        positions,
        attributes,
        meshlet_vertex_refs,
        micro_indices,
        fallback_indices,
    );
    assert(micro_indices@ =~= section_bytes(b, 8));
    assert(asset@ == decoded(b));
    Ok(asset)
}

} // verus!

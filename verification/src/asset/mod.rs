//! Offline/runtime-cache asset representation for the meshlet renderer.
//!
//! `.zenmesh` is deliberately independent from the GPU upload layout. The file is little-endian,
//! sectioned, checksummed, deterministic for identical inputs, and contains both meshlet-local
//! topology and a global `u32` fallback index stream.
//!
//! Every floating-point quantity of an asset (positions, UVs, bounds, cones, geometric errors and
//! the two real-valued build parameters) is held as its exact IEEE-754 `f32` bit pattern, the
//! representation the file stores.

pub mod bits;
pub mod hash;
pub mod validate;
pub mod layout;
pub mod records;
pub mod format;
pub mod decode;
pub mod round_trip;
pub mod partition;

use vstd::prelude::*;

use self::decode::{decode_verdict, decoded, verdict_error, DecodeVerdict};
use self::format::{encoding_fits, spec_encode};
use self::hash::{spec_stable_hash, StableHasher};
use self::validate::{asset_accepted, CullingVerdicts};
use vstd::bytes::spec_u32_to_le_bytes;

verus! {

broadcast use vstd::array::group_array_axioms;

/// Current on-disk `.zenmesh` format version.
pub const ZENMESH_VERSION: u32 = 1;

/// Revision of the deterministic fallback builder.
///
/// Increment this whenever an implementation change can alter generated LODs or meshlets. It is
/// included in [`MeshletBuildConfig::build_hash`], so stale caches are rejected automatically.
pub const MESHLET_BUILDER_REVISION: u32 = 2;

/// Stable 128-bit content identity used by the cache protocol.
///
/// This is a fast deterministic identity, not a cryptographic digest. Callers that accept assets
/// from an untrusted source must still rely on the per-section checksums checked by
/// [`MeshletSceneAsset::decode_records`] and on [`MeshletSceneAsset::validate`].
#[derive(Clone, Copy, Debug, PartialEq, Eq, Hash, Default)]
pub struct MeshletAssetHash(pub [u8; 16]);

impl View for MeshletAssetHash {
    type V = Seq<u8>;

    open spec fn view(&self) -> Seq<u8> {
        self.0@
    }
}

impl MeshletAssetHash {
    /// The all-zero identity.
    pub fn zero() -> (r: Self)
        ensures
            r@ == Seq::new(16, |_i: int| 0u8),
    {
        let r = MeshletAssetHash([0u8; 16]);
        assert(r@ =~= Seq::new(16, |_i: int| 0u8));
        r
    }

    pub fn from_bytes(bytes: [u8; 16]) -> (r: Self)
        ensures
            r@ == bytes@,
            r.0 == bytes,
    {
        MeshletAssetHash(bytes)
    }

    pub fn to_bytes(self) -> (r: [u8; 16])
        ensures
            r@ == self@,
            r == self.0,
    {
        self.0
    }

    /// The stable hash of a byte string.
    pub fn digest(bytes: &[u8]) -> (r: Self)
        ensures
            r@ == spec_stable_hash(bytes@),
    {
        let mut hasher = StableHasher::new();
        hasher.write(bytes);
        assert(hasher@ == bytes@);
        hasher.finish()
    }

    /// Byte-wise comparison of two identities.
    pub fn same_as(&self, other: &Self) -> (r: bool)
        ensures
            r == (self@ == other@),
    {
        let mut i: usize = 0;
        while i < 16
            invariant
                i <= 16,
                forall|j: int| 0 <= j < i ==> self.0@[j] == other.0@[j],
            decreases 16 - i,
        {
            if self.0[i] != other.0[i] {
                return false;
            }
            i = i + 1;
        }
        assert(self@ =~= other@);
        true
    }
}

/// Key used to decide whether an existing `.zenmesh` cache entry is reusable.
#[derive(Clone, Copy, Debug, PartialEq, Eq)]
pub struct MeshletCacheKey {
    pub source_hash: MeshletAssetHash,
    pub build_hash: MeshletAssetHash,
}

/// Parameters that affect deterministic meshlet asset construction.
#[derive(Clone, Copy, Debug, PartialEq, Eq, Structural)]
pub struct MeshletBuildConfig {
    /// Maximum distinct vertex references in one meshlet. Limited to 256 by `u8` micro-indices.
    pub max_meshlet_vertices: u32,
    /// Maximum triangles in one meshlet.
    pub max_meshlet_triangles: u32,
    /// Mesh children emitted by one task workgroup. Must match the task/mesh shader contract.
    pub task_workgroup_meshlets: u32,
    /// Clustering tradeoff between locality and normal-cone quality (`f32` bits).
    pub meshlet_cone_weight: u32,
    /// Maximum number of LODs including LOD0. Set to one to disable simplification.
    pub max_lods: u32,
    /// Target triangle ratio relative to the preceding LOD (`f32` bits).
    pub lod_target_ratio: u32,
    /// Stop after producing an LOD at or below this triangle count.
    pub min_lod_triangles: u32,
}

/// Bit pattern of `0.5`.
pub const HALF_BITS: u32 = 0x3f00_0000;

impl Default for MeshletBuildConfig {
    fn default() -> (r: Self)
        ensures
            r == (MeshletBuildConfig {
                max_meshlet_vertices: 64,
                max_meshlet_triangles: 64,
                task_workgroup_meshlets: 32,
                meshlet_cone_weight: HALF_BITS,
                max_lods: 8,
                lod_target_ratio: HALF_BITS,
                min_lod_triangles: 128,
            }),
    {
        MeshletBuildConfig::default_config()
    }
}

/// The rules a build configuration must satisfy.
pub open spec fn spec_config_valid(c: MeshletBuildConfig) -> bool {
    &&& 3 <= c.max_meshlet_vertices <= 256
    &&& 1 <= c.max_meshlet_triangles <= 256
    &&& 1 <= c.task_workgroup_meshlets <= 32
    &&& bits::f32_in_closed_unit(c.meshlet_cone_weight)
    &&& 1 <= c.max_lods <= 32
    &&& bits::f32_in_open_unit(c.lod_target_ratio)
    &&& c.min_lod_triangles != 0
}

/// The message of the first configuration rule that `c` breaks, in the order they are checked.
pub open spec fn config_fault(c: MeshletBuildConfig) -> Option<Seq<char>> {
    if !(3 <= c.max_meshlet_vertices <= 256) {
        Some("max_meshlet_vertices must be in 3..=256"@)
    } else if !(1 <= c.max_meshlet_triangles <= 256) {
        Some("max_meshlet_triangles must be in 1..=256"@)
    } else if !(1 <= c.task_workgroup_meshlets <= 32) {
        Some("task_workgroup_meshlets must be in 1..=32"@)
    } else if !bits::f32_in_closed_unit(c.meshlet_cone_weight) {
        Some("meshlet_cone_weight must be finite and in 0..=1"@)
    } else if !(1 <= c.max_lods <= 32) {
        Some("max_lods must be in 1..=32"@)
    } else if !bits::f32_in_open_unit(c.lod_target_ratio) {
        Some("lod_target_ratio must be finite and strictly between zero and one"@)
    } else if c.min_lod_triangles == 0 {
        Some("min_lod_triangles must be non-zero"@)
    } else {
        None
    }
}

/// `e` is the configuration error carrying the message `fault`.
pub open spec fn config_error_is(e: MeshletAssetError, fault: Option<Seq<char>>) -> bool {
    fault matches Some(text) && e matches MeshletAssetError::InvalidConfig(t) && t@ == text
}

/// `e` is the asset error carrying the message `fault`.
pub open spec fn asset_error_is(e: MeshletAssetError, fault: Option<Seq<char>>) -> bool {
    fault matches Some(text) && e matches MeshletAssetError::InvalidAsset(t) && t@ == text
}

/// Bytes that begin every build hash.
pub open spec fn build_hash_domain() -> Seq<u8> {
    vstd::utf8::encode_utf8("zen-render-mesh.meshlet-builder"@)
}

/// The bytes hashed for a build configuration: a domain label, the builder revision, and every
/// field as little-endian words in a fixed order.
pub open spec fn build_hash_input(c: MeshletBuildConfig) -> Seq<u8> {
    build_hash_domain() + spec_u32_to_le_bytes(MESHLET_BUILDER_REVISION) + spec_u32_to_le_bytes(
        c.max_meshlet_vertices,
    ) + spec_u32_to_le_bytes(c.max_meshlet_triangles) + spec_u32_to_le_bytes(
        c.task_workgroup_meshlets,
    ) + spec_u32_to_le_bytes(c.meshlet_cone_weight) + spec_u32_to_le_bytes(c.max_lods)
        + spec_u32_to_le_bytes(c.lod_target_ratio) + spec_u32_to_le_bytes(c.min_lod_triangles)
}

/// The word at byte `p` of `s`, read little-endian.
spec fn word_at(s: Seq<u8>, p: int) -> u32 {
    vstd::bytes::spec_u32_from_le_bytes(s.subrange(p, p + 4))
}

/// The bytes hashed for a build identity determine the configuration: every field is hashed, so
/// two configurations that differ in any field, `min_lod_triangles` included, never share their
/// hash input, and a cache built under one is never taken for the other by its input.
pub proof fn lemma_build_hash_input_determines_config(a: MeshletBuildConfig, b: MeshletBuildConfig)
    ensures
        build_hash_input(a) == build_hash_input(b) ==> a == b,
{
    self::layout::lemma_le_round_trips();
    let p = build_hash_domain() + spec_u32_to_le_bytes(MESHLET_BUILDER_REVISION);
    let l = p.len() as int;
    assert forall|c: MeshletBuildConfig| #![trigger build_hash_input(c)]
        word_at(build_hash_input(c), l) == c.max_meshlet_vertices
        && word_at(build_hash_input(c), l + 4) == c.max_meshlet_triangles
        && word_at(build_hash_input(c), l + 8) == c.task_workgroup_meshlets
        && word_at(build_hash_input(c), l + 12) == c.meshlet_cone_weight
        && word_at(build_hash_input(c), l + 16) == c.max_lods
        && word_at(build_hash_input(c), l + 20) == c.lod_target_ratio
        && word_at(build_hash_input(c), l + 24) == c.min_lod_triangles by {
        let s = build_hash_input(c);
        assert(s.subrange(l, l + 4) =~= spec_u32_to_le_bytes(c.max_meshlet_vertices));
        assert(s.subrange(l + 4, l + 8) =~= spec_u32_to_le_bytes(c.max_meshlet_triangles));
        assert(s.subrange(l + 8, l + 12) =~= spec_u32_to_le_bytes(c.task_workgroup_meshlets));
        assert(s.subrange(l + 12, l + 16) =~= spec_u32_to_le_bytes(c.meshlet_cone_weight));
        assert(s.subrange(l + 16, l + 20) =~= spec_u32_to_le_bytes(c.max_lods));
        assert(s.subrange(l + 20, l + 24) =~= spec_u32_to_le_bytes(c.lod_target_ratio));
        assert(s.subrange(l + 24, l + 28) =~= spec_u32_to_le_bytes(c.min_lod_triangles));
    }
    if build_hash_input(a) == build_hash_input(b) {
        assert(word_at(build_hash_input(a), l) == a.max_meshlet_vertices);
        assert(word_at(build_hash_input(b), l) == b.max_meshlet_vertices);
    }
}

/// The build identity of a configuration.
pub open spec fn spec_build_hash(c: MeshletBuildConfig) -> Seq<u8> {
    spec_stable_hash(build_hash_input(c))
}

impl MeshletBuildConfig {
    /// The shipped configuration: 64 vertices and 64 triangles per meshlet, 32 meshlets per task
    /// workgroup, cone weight 0.5, up to 8 LODs halving the triangle count, down to 128 triangles.
    pub fn default_config() -> (r: Self)
        ensures
            r == (MeshletBuildConfig {
                max_meshlet_vertices: 64,
                max_meshlet_triangles: 64,
                task_workgroup_meshlets: 32,
                meshlet_cone_weight: HALF_BITS,
                max_lods: 8,
                lod_target_ratio: HALF_BITS,
                min_lod_triangles: 128,
            }),
    {
        MeshletBuildConfig {
            max_meshlet_vertices: 64,
            max_meshlet_triangles: 64,
            task_workgroup_meshlets: 32,
            meshlet_cone_weight: HALF_BITS,
            max_lods: 8,
            lod_target_ratio: HALF_BITS,
            min_lod_triangles: 128,
        }
    }

    pub fn validate(&self) -> (r: Result<(), MeshletAssetError>)
        ensures
            r is Ok <==> spec_config_valid(*self),
            r is Ok <==> config_fault(*self) is None,
            r is Err ==> r->Err_0 is InvalidConfig,
            r is Err ==> config_error_is(r->Err_0, config_fault(*self)),
    {
        if !(3 <= self.max_meshlet_vertices && self.max_meshlet_vertices <= 256) {
            return Err(
                MeshletAssetError::InvalidConfig(
                    "max_meshlet_vertices must be in 3..=256".to_owned(),
                ),
            );
        }
        if !(1 <= self.max_meshlet_triangles && self.max_meshlet_triangles <= 256) {
            return Err(
                MeshletAssetError::InvalidConfig(
                    "max_meshlet_triangles must be in 1..=256".to_owned(),
                ),
            );
        }
        if !(1 <= self.task_workgroup_meshlets && self.task_workgroup_meshlets <= 32) {
            return Err(
                MeshletAssetError::InvalidConfig(
                    "task_workgroup_meshlets must be in 1..=32".to_owned(),
                ),
            );
        }
        if !(self.meshlet_cone_weight <= bits::F32_ONE_BITS || self.meshlet_cone_weight
            == bits::F32_NEGATIVE_ZERO_BITS) {
            return Err(
                MeshletAssetError::InvalidConfig(
                    "meshlet_cone_weight must be finite and in 0..=1".to_owned(),
                ),
            );
        }
        if !(1 <= self.max_lods && self.max_lods <= 32) {
            return Err(MeshletAssetError::InvalidConfig("max_lods must be in 1..=32".to_owned()));
        }
        if !(0 < self.lod_target_ratio && self.lod_target_ratio < bits::F32_ONE_BITS) {
            return Err(
                MeshletAssetError::InvalidConfig(
                    "lod_target_ratio must be finite and strictly between zero and one".to_owned(),
                ),
            );
        }
        if self.min_lod_triangles == 0 {
            return Err(
                MeshletAssetError::InvalidConfig("min_lod_triangles must be non-zero".to_owned()),
            );
        }
        Ok(())
    }

    /// The build identity of this configuration.
    pub fn build_hash(&self) -> (r: MeshletAssetHash)
        ensures
            r@ == spec_build_hash(*self),
    {
        let mut hasher = StableHasher::new();
        hasher.write("zen-render-mesh.meshlet-builder".as_bytes());
        hasher.write_u32(MESHLET_BUILDER_REVISION);
        hasher.write_u32(self.max_meshlet_vertices);
        hasher.write_u32(self.max_meshlet_triangles);
        hasher.write_u32(self.task_workgroup_meshlets);
        hasher.write_u32(self.meshlet_cone_weight);
        hasher.write_u32(self.max_lods);
        hasher.write_u32(self.lod_target_ratio);
        hasher.write_u32(self.min_lod_triangles);
        assert(hasher@ =~= build_hash_input(*self));
        hasher.finish()
    }
}

/// Opaque rasterization class. Meshlets never cross this boundary.
#[derive(Clone, Copy, Debug, PartialEq, Eq, Structural)]
pub enum MeshletPsoClass {
    OpaqueBackface,
    OpaqueTwoSided,
}

impl MeshletPsoClass {
    /// The class number stored in tables.
    pub fn as_u32(self) -> (r: u32)
        ensures
            r == spec_pso_number(self),
    {
        match self {
            MeshletPsoClass::OpaqueBackface => 0,
            MeshletPsoClass::OpaqueTwoSided => 1,
        }
    }

    /// The class with a stored number; only 0 and 1 name a class.
    pub fn try_from_u32(value: u32) -> (r: Result<MeshletPsoClass, MeshletAssetError>)
        ensures
            value == 0 ==> r == Ok::<MeshletPsoClass, MeshletAssetError>(
                MeshletPsoClass::OpaqueBackface,
            ),
            value == 1 ==> r == Ok::<MeshletPsoClass, MeshletAssetError>(
                MeshletPsoClass::OpaqueTwoSided,
            ),
            value > 1 ==> (r matches Err(MeshletAssetError::InvalidAsset(text)) && text@
                == "unknown PSO class"@),
    {
        if value == 0 {
            Ok(MeshletPsoClass::OpaqueBackface)
        } else if value == 1 {
            Ok(MeshletPsoClass::OpaqueTwoSided)
        } else {
            Err(MeshletAssetError::InvalidAsset("unknown PSO class".to_owned()))
        }
    }
}

/// The class number stored in tables.
pub open spec fn spec_pso_number(class: MeshletPsoClass) -> u32 {
    match class {
        MeshletPsoClass::OpaqueBackface => 0,
        MeshletPsoClass::OpaqueTwoSided => 1,
    }
}

/// A conservative bounding sphere (`f32` bits).
#[derive(Clone, Copy, Debug, PartialEq, Eq, Default)]
pub struct BoundsSphere {
    pub center: [u32; 3],
    pub radius: u32,
}

/// A normal cone (`f32` bits).
#[derive(Clone, Copy, Debug, PartialEq, Eq)]
pub struct NormalCone {
    pub axis: [u32; 3],
    /// Conservative cone cutoff used by `dot(to_center, axis) >= cutoff * length(to_center) + radius`.
    /// Values above `1.0` disable cone culling.
    pub cutoff: u32,
}

/// Bit pattern of `2.0`.
pub const TWO_BITS: u32 = 0x4000_0000;

impl NormalCone {
    /// The disabled cone: axis `+Z`, cutoff `2.0`.
    pub fn disabled() -> (r: Self)
        ensures
            r.axis@ == seq![0u32, 0u32, bits::F32_ONE_BITS],
            r.cutoff == TWO_BITS,
    {
        NormalCone { axis: [0, 0, bits::F32_ONE_BITS], cutoff: TWO_BITS }
    }
}

/// Attribute record paired one-to-one with the asset's positions.
#[derive(Clone, Copy, Debug, PartialEq, Eq, Default)]
pub struct PackedVertexAttributes {
    /// Octahedral `snorm16x2` normal.
    pub normal_oct: u32,
    /// Full precision UVs (`f32` bits) preserve clamp/repeat coordinates outside `[0, 1]`.
    pub uv: [u32; 2],
    /// Linear RGBA packed as UNORM8.
    pub color_rgba8: u32,
}

/// Entry in the asset's mesh table.
#[derive(Clone, Copy, Debug, PartialEq, Eq, Default)]
pub struct MeshTableEntry {
    pub first_lod: u32,
    pub lod_count: u32,
    /// Range containing all vertex records owned by every LOD of this mesh.
    pub first_vertex: u32,
    pub vertex_count: u32,
    pub material_slot: u32,
    pub pso_class: u32,
    pub bounds: BoundsSphere,
}

impl MeshTableEntry {
    pub fn pso_class(&self) -> (r: Result<MeshletPsoClass, MeshletAssetError>)
        ensures
            self.pso_class == 0 ==> r == Ok::<MeshletPsoClass, MeshletAssetError>(
                MeshletPsoClass::OpaqueBackface,
            ),
            self.pso_class == 1 ==> r == Ok::<MeshletPsoClass, MeshletAssetError>(
                MeshletPsoClass::OpaqueTwoSided,
            ),
            self.pso_class > 1 ==> (r matches Err(MeshletAssetError::InvalidAsset(text)) && text@
                == "unknown PSO class"@),
    {
        MeshletPsoClass::try_from_u32(self.pso_class)
    }
}

/// Entry in the LOD table. Its fallback index range is directly drawable as `u32` indices.
#[derive(Clone, Copy, Debug, PartialEq, Eq, Default)]
pub struct LodTableEntry {
    pub first_meshlet: u32,
    pub meshlet_count: u32,
    pub first_index: u32,
    pub index_count: u32,
    pub first_vertex: u32,
    pub vertex_count: u32,
    /// `f32` bits.
    pub geometric_error: u32,
    pub bounds: BoundsSphere,
}

/// Entry in the meshlet table.
#[derive(Clone, Copy, Debug, PartialEq, Eq)]
pub struct MeshletTableEntry {
    pub vertex_offset: u32,
    pub vertex_count: u32,
    /// Byte offset into the micro-index stream.
    pub triangle_offset: u32,
    pub triangle_count: u32,
    pub fallback_first_index: u32,
    pub fallback_index_count: u32,
    pub bounds: BoundsSphere,
    pub normal_cone: NormalCone,
}

/// CPU asset shared by all meshlet rendering paths.
#[derive(Clone, Debug, PartialEq, Eq)]
pub struct MeshletSceneAsset {
    source_hash: MeshletAssetHash,
    build_hash: MeshletAssetHash,
    config: MeshletBuildConfig,
    meshes: Vec<MeshTableEntry>,
    lods: Vec<LodTableEntry>,
    meshlets: Vec<MeshletTableEntry>,
    positions: Vec<[u32; 3]>,
    attributes: Vec<PackedVertexAttributes>,
    meshlet_vertex_refs: Vec<u32>,
    micro_indices: Vec<u8>,
    fallback_indices: Vec<u32>,
}

/// The mathematical content of an asset.
pub ghost struct AssetModel {
    pub source_hash: Seq<u8>,
    pub build_hash: Seq<u8>,
    pub config: MeshletBuildConfig,
    pub meshes: Seq<MeshTableEntry>,
    pub lods: Seq<LodTableEntry>,
    pub meshlets: Seq<MeshletTableEntry>,
    pub positions: Seq<[u32; 3]>,
    pub attributes: Seq<PackedVertexAttributes>,
    pub meshlet_vertex_refs: Seq<u32>,
    pub micro_indices: Seq<u8>,
    pub fallback_indices: Seq<u32>,
}

impl View for MeshletSceneAsset {
    type V = AssetModel;

    closed spec fn view(&self) -> AssetModel {
        AssetModel {
            source_hash: self.source_hash@,
            build_hash: self.build_hash@,
            config: self.config,
            meshes: self.meshes@,
            lods: self.lods@,
            meshlets: self.meshlets@,
            positions: self.positions@,
            attributes: self.attributes@,
            meshlet_vertex_refs: self.meshlet_vertex_refs@,
            micro_indices: self.micro_indices@,
            fallback_indices: self.fallback_indices@,
        }
    }
}

impl MeshletSceneAsset {
    /// The view of an asset is its streams' views.
    proof fn lemma_view(&self)
        ensures
            self@ == (AssetModel {
                source_hash: self.source_hash@,
                build_hash: self.build_hash@,
                config: self.config,
                meshes: self.meshes@,
                lods: self.lods@,
                meshlets: self.meshlets@,
                positions: self.positions@,
                attributes: self.attributes@,
                meshlet_vertex_refs: self.meshlet_vertex_refs@,
                micro_indices: self.micro_indices@,
                fallback_indices: self.fallback_indices@,
            }),
    {
    }

    /// Assembles an asset from its streams. Nothing is checked; see [`Self::validate`].
    pub fn from_parts(
        source_hash: MeshletAssetHash,
        build_hash: MeshletAssetHash,
        config: MeshletBuildConfig,
        meshes: Vec<MeshTableEntry>,
        lods: Vec<LodTableEntry>,
        meshlets: Vec<MeshletTableEntry>,
        positions: Vec<[u32; 3]>,
        attributes: Vec<PackedVertexAttributes>,
        meshlet_vertex_refs: Vec<u32>,
        micro_indices: Vec<u8>,
        fallback_indices: Vec<u32>,
    ) -> (r: Self)
        ensures
            r@ == (AssetModel {
                source_hash: source_hash@,
                build_hash: build_hash@,
                config,
                meshes: meshes@,
                lods: lods@,
                meshlets: meshlets@,
                positions: positions@,
                attributes: attributes@,
                meshlet_vertex_refs: meshlet_vertex_refs@,
                micro_indices: micro_indices@,
                fallback_indices: fallback_indices@,
            }),
    {
        MeshletSceneAsset {
            source_hash,
            build_hash,
            config,
            meshes,
            lods,
            meshlets,
            positions,
            attributes,
            meshlet_vertex_refs,
            micro_indices,
            fallback_indices,
        }
    }

    /// An asset with the given identities and configuration and no geometry yet.
    pub fn empty(source_hash: MeshletAssetHash, build_hash: MeshletAssetHash, config: MeshletBuildConfig) -> (r:
        Self)
        ensures
            r@ == (AssetModel {
                source_hash: source_hash@,
                build_hash: build_hash@,
                config,
                meshes: Seq::empty(),
                lods: Seq::empty(),
                meshlets: Seq::empty(),
                positions: Seq::empty(),
                attributes: Seq::empty(),
                meshlet_vertex_refs: Seq::empty(),
                micro_indices: Seq::empty(),
                fallback_indices: Seq::empty(),
            }),
    {
        let r = MeshletSceneAsset {
            source_hash,
            build_hash,
            config,
            meshes: Vec::new(),
            lods: Vec::new(),
            meshlets: Vec::new(),
            positions: Vec::new(),
            attributes: Vec::new(),
            meshlet_vertex_refs: Vec::new(),
            micro_indices: Vec::new(),
            fallback_indices: Vec::new(),
        };
        proof {
            r.lemma_view();
        }
        r
    }

    /// Appends one vertex record.
    pub fn push_vertex(&mut self, position: [u32; 3], attributes: PackedVertexAttributes)
        ensures
            final(self)@ == (AssetModel {
                positions: old(self)@.positions.push(position),
                attributes: old(self)@.attributes.push(attributes),
                ..old(self)@
            }),
    {
        proof {
            old(self).lemma_view();
        }
        self.positions.push(position);
        self.attributes.push(attributes);
        proof {
            self.lemma_view();
        }
    }

    /// Appends a LOD table entry.
    pub fn push_lod(&mut self, lod: LodTableEntry)
        ensures
            final(self)@ == (AssetModel { lods: old(self)@.lods.push(lod), ..old(self)@ }),
    {
        proof {
            old(self).lemma_view();
        }
        self.lods.push(lod);
        proof {
            self.lemma_view();
        }
    }

    /// Appends a mesh table entry.
    pub fn push_mesh(&mut self, mesh: MeshTableEntry)
        ensures
            final(self)@ == (AssetModel { meshes: old(self)@.meshes.push(mesh), ..old(self)@ }),
    {
        proof {
            old(self).lemma_view();
        }
        self.meshes.push(mesh);
        proof {
            self.lemma_view();
        }
    }

    /// Appends a meshlet whose vertices are `first_vertex` plus each local reference and whose
    /// corners name them by `micro`: its references, micro-indices and the matching fallback
    /// indices go to the ends of their streams, and its table entry records where.
    ///
    /// Every stream position and global vertex reference must fit in `u32`; otherwise the result
    /// is `SizeOverflow` and the asset is not to be used further.
    pub fn push_meshlet(
        &mut self,
        first_vertex: u32,
        local_refs: &[u32],
        micro: &[u8],
        bounds: BoundsSphere,
        normal_cone: NormalCone,
    ) -> (r: Result<(), MeshletAssetError>)
        requires
            forall|j: int| 0 <= j < micro@.len() ==> (#[trigger] micro@[j] as int) < local_refs@.len(),
        ensures
            ({
                let o = old(self)@;
                let fits = o.meshlet_vertex_refs.len() <= u32::MAX && o.micro_indices.len()
                    <= u32::MAX && o.fallback_indices.len() <= u32::MAX && local_refs@.len()
                    <= u32::MAX && micro@.len() <= u32::MAX && forall|k: int|
                    0 <= k < local_refs@.len() ==> first_vertex + #[trigger] local_refs@[k]
                        <= u32::MAX;
                let global = Seq::new(
                    local_refs@.len(),
                    |k: int| (first_vertex + local_refs@[k]) as u32,
                );
                &&& fits ==> r is Ok && final(self)@ == (AssetModel {
                    meshlets: o.meshlets.push(
                        MeshletTableEntry {
                            vertex_offset: o.meshlet_vertex_refs.len() as u32,
                            vertex_count: local_refs@.len() as u32,
                            triangle_offset: o.micro_indices.len() as u32,
                            triangle_count: (micro@.len() / 3) as u32,
                            fallback_first_index: o.fallback_indices.len() as u32,
                            fallback_index_count: micro@.len() as u32,
                            bounds,
                            normal_cone,
                        },
                    ),
                    meshlet_vertex_refs: o.meshlet_vertex_refs + global,
                    micro_indices: o.micro_indices + micro@,
                    fallback_indices: o.fallback_indices + Seq::new(
                        micro@.len(),
                        |j: int| global[micro@[j] as int],
                    ),
                    ..o
                })
                &&& !fits ==> r is Err && r->Err_0 is SizeOverflow
            }),
    {
        proof {
            old(self).lemma_view();
        }
        let vertex_offset = partition::as_u32(self.meshlet_vertex_refs.len(), "meshlet vertex-ref stream")?;
        let triangle_offset = partition::as_u32(self.micro_indices.len(), "meshlet micro-index stream")?;
        let fallback_first_index = partition::as_u32(
            self.fallback_indices.len(),
            "fallback index stream",
        )?;
        let vertex_count = partition::as_u32(local_refs.len(), "meshlet vertex range")?;
        let index_count = partition::as_u32(micro.len(), "meshlet fallback range")?;
        let mut global: Vec<u32> = Vec::new();
        let mut k: usize = 0;
        while k < local_refs.len()
            invariant
                k <= local_refs@.len(),
                global@ == Seq::new(k as nat, |i: int| (first_vertex + local_refs@[i]) as u32),
                forall|i: int| 0 <= i < k ==> first_vertex + #[trigger] local_refs@[i] <= u32::MAX,
            decreases local_refs@.len() - k,
        {
            let v = local_refs[k];
            if v > u32::MAX - first_vertex {
                return Err(MeshletAssetError::SizeOverflow("global vertex reference"));
            }
            global.push(first_vertex + v);
            k = k + 1;
            assert(global@ =~= Seq::new(k as nat, |i: int| (first_vertex + local_refs@[i]) as u32));
        }
        let ghost refs0 = self.meshlet_vertex_refs@;
        let ghost micro0 = self.micro_indices@;
        let ghost fallback0 = self.fallback_indices@;
        let ghost o = old(self)@;
        let mut i: usize = 0;
        assert(refs0 + global@.take(0) =~= refs0);
        while i < global.len()
            invariant
                i <= global@.len(),
                self.meshlet_vertex_refs@ == refs0 + global@.take(i as int),
                self.micro_indices@ == micro0,
                self.fallback_indices@ == fallback0,
                self.meshlets@ == o.meshlets,
                self.meshes@ == o.meshes,
                self.lods@ == o.lods,
                self.positions@ == o.positions,
                self.attributes@ == o.attributes,
                self.source_hash@ == o.source_hash,
                self.build_hash@ == o.build_hash,
                self.config == o.config,
            decreases global@.len() - i,
        {
            self.meshlet_vertex_refs.push(global[i]);
            i = i + 1;
            assert(global@.take(i as int) =~= global@.take(i - 1).push(global@[i - 1]));
        }
        assert(global@.take(global@.len() as int) =~= global@);
        let mut j: usize = 0;
        assert(micro0 + micro@.take(0) =~= micro0);
        assert(fallback0 + Seq::new(0, |c: int| global@[micro@[c] as int]) =~= fallback0);
        while j < micro.len()
            invariant
                j <= micro@.len(),
                self.meshlet_vertex_refs@ == refs0 + global@,
                self.meshlets@ == o.meshlets,
                self.meshes@ == o.meshes,
                self.lods@ == o.lods,
                self.positions@ == o.positions,
                self.attributes@ == o.attributes,
                self.source_hash@ == o.source_hash,
                self.build_hash@ == o.build_hash,
                self.config == o.config,
                global@.len() == local_refs@.len(),
                forall|c: int| 0 <= c < micro@.len() ==> (#[trigger] micro@[c] as int) < local_refs@.len(),
                self.micro_indices@ == micro0 + micro@.take(j as int),
                self.fallback_indices@ == fallback0 + Seq::new(
                    j as nat,
                    |c: int| global@[micro@[c] as int],
                ),
            decreases micro@.len() - j,
        {
            let m = micro[j];
            self.micro_indices.push(m);
            self.fallback_indices.push(global[m as usize]);
            j = j + 1;
            assert(micro@.take(j as int) =~= micro@.take(j - 1).push(micro@[j - 1]));
            assert(Seq::new(j as nat, |c: int| global@[micro@[c] as int]) =~= Seq::new(
                (j - 1) as nat,
                |c: int| global@[micro@[c] as int],
            ).push(global@[micro@[j - 1] as int]));
        }
        assert(micro@.take(micro@.len() as int) =~= micro@);
        self.meshlets.push(
            MeshletTableEntry {
                vertex_offset,
                vertex_count,
                triangle_offset,
                triangle_count: index_count / 3,
                fallback_first_index,
                fallback_index_count: index_count,
                bounds,
                normal_cone,
            },
        );
        proof {
            self.lemma_view();
        }
        Ok(())
    }

    pub fn cache_key(&self) -> (r: MeshletCacheKey)
        ensures
            r.source_hash@ == self@.source_hash,
            r.build_hash@ == self@.build_hash,
    {
        MeshletCacheKey { source_hash: self.source_hash, build_hash: self.build_hash }
    }

    pub fn source_hash(&self) -> (r: MeshletAssetHash)
        ensures
            r@ == self@.source_hash,
    {
        self.source_hash
    }

    pub fn config(&self) -> (r: MeshletBuildConfig)
        ensures
            r == self@.config,
    {
        self.config
    }

    pub fn meshes(&self) -> (r: &[MeshTableEntry])
        ensures
            r@ == self@.meshes,
    {
        self.meshes.as_slice()
    }

    pub fn lods(&self) -> (r: &[LodTableEntry])
        ensures
            r@ == self@.lods,
    {
        self.lods.as_slice()
    }

    pub fn meshlets(&self) -> (r: &[MeshletTableEntry])
        ensures
            r@ == self@.meshlets,
    {
        self.meshlets.as_slice()
    }

    pub fn positions(&self) -> (r: &[[u32; 3]])
        ensures
            r@ == self@.positions,
    {
        self.positions.as_slice()
    }

    pub fn attributes(&self) -> (r: &[PackedVertexAttributes])
        ensures
            r@ == self@.attributes,
    {
        self.attributes.as_slice()
    }

    pub fn meshlet_vertex_refs(&self) -> (r: &[u32])
        ensures
            r@ == self@.meshlet_vertex_refs,
    {
        self.meshlet_vertex_refs.as_slice()
    }

    pub fn micro_indices(&self) -> (r: &[u8])
        ensures
            r@ == self@.micro_indices,
    {
        self.micro_indices.as_slice()
    }

    pub fn fallback_indices(&self) -> (r: &[u32])
        ensures
            r@ == self@.fallback_indices,
    {
        self.fallback_indices.as_slice()
    }

    /// Deterministically encode this asset as `.zenmesh` v1.
    ///
    /// An asset that validation refuses, with the caller's culling findings `culling`, is refused
    /// with the very error validation reports for it; an accepted asset whose encoding would not be
    /// addressable with `SizeOverflow`; otherwise the result is the canonical encoding.
    pub fn encode_zenmesh(&self, culling: &CullingVerdicts) -> (r: Result<Vec<u8>, MeshletAssetError>)
        ensures
            !asset_accepted(self@, *culling) ==> r is Err && (r->Err_0 is InvalidConfig
                <==> !spec_config_valid(self@.config)) && (r->Err_0 is InvalidConfig
                || r->Err_0 is InvalidAsset) && validate::validation_error_is(
                self@,
                *culling,
                r->Err_0,
            ),
            asset_accepted(self@, *culling) && !encoding_fits(self@) ==> r is Err && r->Err_0 is SizeOverflow,
            asset_accepted(self@, *culling) && encoding_fits(self@) ==> r is Ok && r->Ok_0@ == spec_encode(
                self@,
            ),
    {
        format::encode(self, culling)
    }

    /// Decode and checksum the records of a `.zenmesh` v1 byte stream, up to and including the
    /// configuration rules. The asset rules come next, from [`Self::validate`] with the culling
    /// findings for the decoded asset.
    ///
    /// The checks run in a fixed order and the first that fails decides the error; a stream that
    /// passes them all yields the asset it describes.
    pub fn decode_records(bytes: &[u8]) -> (r: Result<Self, MeshletAssetError>)
        ensures
            r is Ok <==> decode_verdict(bytes@) == DecodeVerdict::Accept,
            r is Ok ==> r->Ok_0@ == decoded(bytes@),
            r is Err ==> verdict_error(decode_verdict(bytes@), r->Err_0),
            decode_verdict(bytes@) == DecodeVerdict::Config ==> config_error_is(
                r->Err_0,
                config_fault(decoded(bytes@).config),
            ),
    {
        decode::decode(bytes)
    }

    /// Keeps a decoded cache entry only when both its source and build identities match.
    pub fn check_cache_key(self, expected: MeshletCacheKey) -> (r: Result<Self, MeshletAssetError>)
        ensures
            self@.source_hash == expected.source_hash@ && self@.build_hash == expected.build_hash@
                ==> r is Ok && r->Ok_0@ == self@,
            !(self@.source_hash == expected.source_hash@ && self@.build_hash
                == expected.build_hash@) ==> r is Err && (r->Err_0 matches MeshletAssetError::CacheKeyMismatch {
                expected: e,
                actual: a,
            } && e == expected && a.source_hash@ == self@.source_hash && a.build_hash@
                == self@.build_hash),
    {
        let actual = self.cache_key();
        if !(actual.source_hash.same_as(&expected.source_hash) && actual.build_hash.same_as(
            &expected.build_hash,
        )) {
            return Err(MeshletAssetError::CacheKeyMismatch { expected, actual });
        }
        Ok(self)
    }
}

/// Build, cache, or format error. All failures are recoverable and contain enough context for a
/// CLI to report the bad mesh/section without panicking.
#[derive(Debug)]
pub enum MeshletAssetError {
    InvalidConfig(String),
    InvalidInput { mesh_index: usize, message: String },
    InvalidAsset(String),
    InvalidFormat(String),
    UnsupportedVersion(u32),
    CacheKeyMismatch { expected: MeshletCacheKey, actual: MeshletCacheKey },
    SizeOverflow(&'static str),
}

/// An `InvalidAsset` error carrying `message`.
pub fn invalid_asset(message: &str) -> (r: MeshletAssetError)
    ensures
        r matches MeshletAssetError::InvalidAsset(text) && text@ == message@,
{
    MeshletAssetError::InvalidAsset(message.to_owned())
}

/// An `InvalidFormat` error carrying `message`.
pub fn invalid_format(message: &str) -> (r: MeshletAssetError)
    ensures
        r matches MeshletAssetError::InvalidFormat(text) && text@ == message@,
{
    MeshletAssetError::InvalidFormat(message.to_owned())
}

} // verus!

//! Validation of a meshlet scene asset: table ranges, stream ownership, LOD ordering,
//! fallback-topology reconstruction, the numeric sanity of every stored bound, and the caller's
//! floating-point culling-bound findings, each in its place in the order of checks.

use vstd::prelude::*;

use super::bits::{f32_is_finite, f32_lt_zero, f32_order_key, is_finite, lt_zero, order_key};
use super::{
    asset_error_is, config_error_is, config_fault, invalid_asset, spec_build_hash,
    spec_config_valid, AssetModel, BoundsSphere,
    LodTableEntry, MeshTableEntry, MeshletAssetError, MeshletSceneAsset, MeshletTableEntry,
    NormalCone,
};

verus! {

broadcast use vstd::array::group_array_axioms;

/// A bounds sphere with finite components and a radius that is not below zero.
pub open spec fn sphere_ok(s: BoundsSphere) -> bool {
    &&& f32_is_finite(s.center@[0])
    &&& f32_is_finite(s.center@[1])
    &&& f32_is_finite(s.center@[2])
    &&& f32_is_finite(s.radius)
    &&& !f32_lt_zero(s.radius)
}

/// A normal cone with finite components and a cutoff that is not below zero.
pub open spec fn cone_ok(c: NormalCone) -> bool {
    &&& f32_is_finite(c.axis@[0])
    &&& f32_is_finite(c.axis@[1])
    &&& f32_is_finite(c.axis@[2])
    &&& f32_is_finite(c.cutoff)
    &&& !f32_lt_zero(c.cutoff)
}

/// Configuration, build identity, paired stream lengths, and finite vertex data.
pub open spec fn streams_ok(m: AssetModel) -> bool {
    &&& spec_config_valid(m.config)
    &&& m.build_hash == spec_build_hash(m.config)
    &&& m.positions.len() == m.attributes.len()
    &&& forall|i: int|
        0 <= i < m.positions.len() ==> {
            &&& f32_is_finite((#[trigger] m.positions[i])@[0])
            &&& f32_is_finite(m.positions[i]@[1])
            &&& f32_is_finite(m.positions[i]@[2])
        }
    &&& forall|i: int|
        0 <= i < m.attributes.len() ==> {
            &&& f32_is_finite((#[trigger] m.attributes[i]).uv@[0])
            &&& f32_is_finite(m.attributes[i].uv@[1])
        }
}

/// Total LOD count of the first `i` meshes.
pub open spec fn mesh_lod_start(ms: Seq<MeshTableEntry>, i: int) -> int
    decreases i,
{
    if i <= 0 {
        0
    } else {
        mesh_lod_start(ms, i - 1) + ms[i - 1].lod_count
    }
}

/// Total vertex count of the first `i` meshes.
pub open spec fn mesh_vertex_start(ms: Seq<MeshTableEntry>, i: int) -> int
    decreases i,
{
    if i <= 0 {
        0
    } else {
        mesh_vertex_start(ms, i - 1) + ms[i - 1].vertex_count
    }
}

/// Total vertex count of the first `i` LODs.
pub open spec fn lod_vertex_start(ls: Seq<LodTableEntry>, i: int) -> int
    decreases i,
{
    if i <= 0 {
        0
    } else {
        lod_vertex_start(ls, i - 1) + ls[i - 1].vertex_count
    }
}

/// Total meshlet count of the first `i` LODs.
pub open spec fn lod_meshlet_start(ls: Seq<LodTableEntry>, i: int) -> int
    decreases i,
{
    if i <= 0 {
        0
    } else {
        lod_meshlet_start(ls, i - 1) + ls[i - 1].meshlet_count
    }
}

/// Total fallback index count of the first `i` LODs.
pub open spec fn lod_index_start(ls: Seq<LodTableEntry>, i: int) -> int
    decreases i,
{
    if i <= 0 {
        0
    } else {
        lod_index_start(ls, i - 1) + ls[i - 1].index_count
    }
}

/// Total fallback index count of the first `i` meshlets.
pub open spec fn meshlet_fallback_start(ms: Seq<MeshletTableEntry>, i: int) -> int
    decreases i,
{
    if i <= 0 {
        0
    } else {
        meshlet_fallback_start(ms, i - 1) + ms[i - 1].fallback_index_count
    }
}

/// Total vertex-reference count of the first `i` meshlets.
pub open spec fn meshlet_ref_start(ms: Seq<MeshletTableEntry>, i: int) -> int
    decreases i,
{
    if i <= 0 {
        0
    } else {
        meshlet_ref_start(ms, i - 1) + ms[i - 1].vertex_count
    }
}

/// Total micro-index count (three per triangle) of the first `i` meshlets.
pub open spec fn meshlet_micro_start(ms: Seq<MeshletTableEntry>, i: int) -> int
    decreases i,
{
    if i <= 0 {
        0
    } else {
        meshlet_micro_start(ms, i - 1) + 3 * ms[i - 1].triangle_count
    }
}

/// The `k`-th LOD, owned by `mesh`: contiguous vertices inside the mesh's range, non-empty
/// geometry of whole triangles, strictly fewer triangles and a non-decreasing, finite,
/// non-negative geometric error along the chain (zero for the first LOD), and a sane sphere.
pub open spec fn lod_in_mesh_ok(m: AssetModel, mesh: MeshTableEntry, k: int) -> bool {
    let l = m.lods[k];
    &&& l.first_vertex == mesh.first_vertex + lod_vertex_start(m.lods, k) - lod_vertex_start(
        m.lods,
        mesh.first_lod as int,
    )
    &&& l.first_vertex + l.vertex_count <= mesh.first_vertex + mesh.vertex_count
    &&& l.vertex_count > 0
    &&& l.meshlet_count > 0
    &&& l.index_count > 0
    &&& l.index_count % 3 == 0
    &&& k > mesh.first_lod ==> l.index_count / 3 < m.lods[k - 1].index_count / 3
    &&& f32_is_finite(l.geometric_error)
    &&& !f32_lt_zero(l.geometric_error)
    &&& k == mesh.first_lod ==> f32_order_key(l.geometric_error) == 0
    &&& k > mesh.first_lod ==> f32_order_key(l.geometric_error) >= f32_order_key(
        m.lods[k - 1].geometric_error,
    )
    &&& sphere_ok(l.bounds)
}

/// The `i`-th mesh: its LOD and vertex ranges follow the previous mesh's, are non-empty and in
/// bounds, its class is known, its sphere is sane, its LODs are valid and own exactly its
/// vertex range.
pub open spec fn mesh_ok(m: AssetModel, i: int) -> bool {
    let e = m.meshes[i];
    &&& e.first_lod == mesh_lod_start(m.meshes, i)
    &&& e.lod_count > 0
    &&& e.vertex_count > 0
    &&& e.first_lod + e.lod_count <= m.lods.len()
    &&& e.first_vertex == mesh_vertex_start(m.meshes, i)
    &&& e.first_vertex + e.vertex_count <= m.positions.len()
    &&& e.pso_class <= 1
    &&& sphere_ok(e.bounds)
    &&& forall|k: int|
        e.first_lod <= k < e.first_lod + e.lod_count ==> #[trigger] lod_in_mesh_ok(m, e, k)
    &&& lod_vertex_start(m.lods, e.first_lod + e.lod_count) - lod_vertex_start(
        m.lods,
        e.first_lod as int,
    ) == e.vertex_count
}

/// The mesh table owns every LOD and every vertex record, in order.
pub open spec fn meshes_ok(m: AssetModel) -> bool {
    &&& forall|i: int| 0 <= i < m.meshes.len() ==> #[trigger] mesh_ok(m, i)
    &&& mesh_lod_start(m.meshes, m.meshes.len() as int) == m.lods.len()
    &&& mesh_vertex_start(m.meshes, m.meshes.len() as int) == m.positions.len()
}

/// Meshlet `j`, owned by LOD `l`: bounded counts, in-range topology streams, a fallback range
/// that follows the previous meshlet's inside the LOD, vertex references inside the LOD's
/// vertex range, fallback indices that equal the micro-indexed vertex references, and sane
/// bounds.
pub open spec fn meshlet_ok(m: AssetModel, l: LodTableEntry, j: int) -> bool {
    let x = m.meshlets[j];
    &&& 1 <= x.vertex_count <= m.config.max_meshlet_vertices
    &&& 1 <= x.triangle_count <= m.config.max_meshlet_triangles
    &&& x.vertex_offset + x.vertex_count <= m.meshlet_vertex_refs.len()
    &&& x.triangle_offset + 3 * x.triangle_count <= m.micro_indices.len()
    &&& x.fallback_first_index == l.first_index + meshlet_fallback_start(m.meshlets, j)
        - meshlet_fallback_start(m.meshlets, l.first_meshlet as int)
    &&& x.fallback_index_count == 3 * x.triangle_count
    &&& x.fallback_first_index + x.fallback_index_count <= m.fallback_indices.len()
    &&& forall|r: int|
        x.vertex_offset <= r < x.vertex_offset + x.vertex_count ==> l.first_vertex
            <= #[trigger] m.meshlet_vertex_refs[r] < l.first_vertex + l.vertex_count
    &&& forall|c: int|
        0 <= c < 3 * x.triangle_count ==> {
            &&& (#[trigger] m.micro_indices[x.triangle_offset + c]) < x.vertex_count
            &&& m.meshlet_vertex_refs[x.vertex_offset + m.micro_indices[x.triangle_offset + c]]
                == m.fallback_indices[x.fallback_first_index + c]
        }
    &&& sphere_ok(x.bounds)
    &&& cone_ok(x.normal_cone)
}

/// LOD `k`: its meshlet and fallback ranges follow the previous LOD's and are in bounds, its
/// vertex range fits in `u32`, its meshlets are valid and own exactly its fallback range.
pub open spec fn lod_ok(m: AssetModel, k: int) -> bool {
    let l = m.lods[k];
    &&& l.first_meshlet == lod_meshlet_start(m.lods, k)
    &&& l.first_meshlet + l.meshlet_count <= m.meshlets.len()
    &&& l.first_index == lod_index_start(m.lods, k)
    &&& l.first_index + l.index_count <= m.fallback_indices.len()
    &&& l.first_vertex + l.vertex_count <= u32::MAX
    &&& forall|j: int|
        l.first_meshlet <= j < l.first_meshlet + l.meshlet_count ==> #[trigger] meshlet_ok(m, l, j)
    &&& meshlet_fallback_start(m.meshlets, l.first_meshlet + l.meshlet_count)
        - meshlet_fallback_start(m.meshlets, l.first_meshlet as int) == l.index_count
}

/// The LOD table owns every meshlet and every fallback index, in order.
pub open spec fn lods_ok(m: AssetModel) -> bool {
    &&& forall|k: int| 0 <= k < m.lods.len() ==> #[trigger] lod_ok(m, k)
    &&& lod_meshlet_start(m.lods, m.lods.len() as int) == m.meshlets.len()
    &&& lod_index_start(m.lods, m.lods.len() as int) == m.fallback_indices.len()
}

/// Meshlet vertex-reference and micro-index streams are packed without gaps, in order.
pub open spec fn packing_ok(m: AssetModel) -> bool {
    &&& forall|j: int|
        0 <= j < m.meshlets.len() ==> {
            &&& (#[trigger] m.meshlets[j]).vertex_offset == meshlet_ref_start(m.meshlets, j)
            &&& m.meshlets[j].triangle_offset == meshlet_micro_start(m.meshlets, j)
        }
    &&& meshlet_ref_start(m.meshlets, m.meshlets.len() as int) == m.meshlet_vertex_refs.len()
    &&& meshlet_micro_start(m.meshlets, m.meshlets.len() as int) == m.micro_indices.len()
}

/// Every structural rule of the asset format.
pub open spec fn asset_valid(m: AssetModel) -> bool {
    &&& streams_ok(m)
    &&& meshes_ok(m)
    &&& lods_ok(m)
    &&& packing_ok(m)
}

/// A culling bound that the floating-point checks found wanting. Those checks are made by the
/// caller, which owns floating-point arithmetic; validation places each finding where the check
/// belongs in its order.
#[derive(Clone, Copy, Debug, PartialEq, Eq, Structural)]
pub enum CullingFault {
    /// A LOD sphere misses one of the LOD's vertices.
    LodSphere,
    /// A mesh sphere misses a vertex of one of its LODs.
    MeshSphere,
    /// An enabled normal cone's axis is not of unit length.
    ConeAxis,
    /// A meshlet sphere misses one of the vertices the meshlet references.
    MeshletSphere,
    /// A normal cone is enabled for a meshlet without a non-degenerate triangle.
    ConeWithoutTriangle,
    /// An enabled normal cone spans more than a hemisphere.
    ConeHemisphere,
    /// An enabled normal cone does not cover every face normal of its meshlet.
    ConeNotConservative,
}

/// The message a culling finding is reported with.
pub open spec fn culling_message(f: CullingFault) -> Seq<char> {
    match f {
        CullingFault::LodSphere => "LOD bounds sphere does not contain all referenced vertices"@,
        CullingFault::MeshSphere => "mesh bounds sphere does not contain all referenced vertices"@,
        CullingFault::ConeAxis => "meshlet normal-cone axis is not normalized"@,
        CullingFault::MeshletSphere => "meshlet bounds sphere does not contain all referenced vertices"@,
        CullingFault::ConeWithoutTriangle => "meshlet enables cone culling without a non-degenerate triangle"@,
        CullingFault::ConeHemisphere => "meshlet enables a cone spanning more than a hemisphere"@,
        CullingFault::ConeNotConservative => "meshlet normal cone is not conservative"@,
    }
}

/// The caller's floating-point findings: for each LOD, the first failing containment check of
/// its vertices against its own and its mesh's spheres; for each meshlet, the first failing check
/// of its cone axis, sphere containment and cone coverage. An entry that is missing or `None`
/// reports nothing.
#[derive(Clone, Debug)]
pub struct CullingVerdicts {
    pub lods: Vec<Option<CullingFault>>,
    pub meshlets: Vec<Option<CullingFault>>,
}

/// The finding reported at position `i`, if any.
pub open spec fn finding_at(s: Seq<Option<CullingFault>>, i: int) -> Option<CullingFault> {
    if 0 <= i < s.len() {
        s[i]
    } else {
        None
    }
}

/// The message of the finding at position `i`, if any.
pub open spec fn finding_message(s: Seq<Option<CullingFault>>, i: int) -> Option<Seq<char>> {
    match finding_at(s, i) {
        Some(f) => Some(culling_message(f)),
        None => None,
    }
}

/// No LOD and no meshlet of `m` has a finding.
pub open spec fn culling_clean(m: AssetModel, c: CullingVerdicts) -> bool {
    &&& forall|k: int| 0 <= k < m.lods.len() ==> #[trigger] finding_at(c.lods@, k) is None
    &&& forall|j: int| 0 <= j < m.meshlets.len() ==> #[trigger] finding_at(c.meshlets@, j) is None
}

/// The asset passes every structural rule and the caller found no culling bound wanting.
pub open spec fn asset_accepted(m: AssetModel, c: CullingVerdicts) -> bool {
    asset_valid(m) && culling_clean(m, c)
}

impl CullingVerdicts {
    /// Findings that report nothing.
    pub fn none() -> (r: Self)
        ensures
            r.lods@.len() == 0,
            r.meshlets@.len() == 0,
    {
        CullingVerdicts { lods: Vec::new(), meshlets: Vec::new() }
    }

    /// The finding for LOD `k`.
    fn lod(&self, k: usize) -> (r: Option<CullingFault>)
        ensures
            r == finding_at(self.lods@, k as int),
    {
        if k < self.lods.len() {
            self.lods[k]
        } else {
            None
        }
    }

    /// The finding for meshlet `j`.
    fn meshlet(&self, j: usize) -> (r: Option<CullingFault>)
        ensures
            r == finding_at(self.meshlets@, j as int),
    {
        if j < self.meshlets.len() {
            self.meshlets[j]
        } else {
            None
        }
    }
}

/// A `CullingFault` error for `f`.
fn culling_error(f: CullingFault) -> (r: MeshletAssetError)
    ensures
        r matches MeshletAssetError::InvalidAsset(text) && text@ == culling_message(f),
{
    match f {
        CullingFault::LodSphere => invalid_asset("LOD bounds sphere does not contain all referenced vertices"),
        CullingFault::MeshSphere => invalid_asset("mesh bounds sphere does not contain all referenced vertices"),
        CullingFault::ConeAxis => invalid_asset("meshlet normal-cone axis is not normalized"),
        CullingFault::MeshletSphere => invalid_asset("meshlet bounds sphere does not contain all referenced vertices"),
        CullingFault::ConeWithoutTriangle => invalid_asset("meshlet enables cone culling without a non-degenerate triangle"),
        CullingFault::ConeHemisphere => invalid_asset("meshlet enables a cone spanning more than a hemisphere"),
        CullingFault::ConeNotConservative => invalid_asset("meshlet normal cone is not conservative"),
    }
}

/// The message of the first stream rule broken by an asset whose configuration is valid.
pub open spec fn streams_fault(m: AssetModel) -> Option<Seq<char>> {
    if m.build_hash != spec_build_hash(m.config) {
        Some("build hash does not match the serialized build configuration"@)
    } else if m.positions.len() != m.attributes.len() {
        Some("position/attribute stream length mismatch"@)
    } else if exists|i: int|
        0 <= i < m.positions.len() && !(f32_is_finite((#[trigger] m.positions[i])@[0])
            && f32_is_finite(m.positions[i]@[1]) && f32_is_finite(m.positions[i]@[2])) {
        Some("position is not finite"@)
    } else if exists|i: int|
        0 <= i < m.attributes.len() && !(f32_is_finite((#[trigger] m.attributes[i]).uv@[0])
            && f32_is_finite(m.attributes[i].uv@[1])) {
        Some("UV is not finite"@)
    } else {
        None
    }
}

/// The message of the first rule that LOD `k` of `mesh` breaks, in the order they are checked.
pub open spec fn lod_in_mesh_fault(
    m: AssetModel,
    c: CullingVerdicts,
    mesh: MeshTableEntry,
    k: int,
) -> Option<
    Seq<char>,
> {
    let l = m.lods[k];
    if l.first_vertex != mesh.first_vertex + lod_vertex_start(m.lods, k) - lod_vertex_start(
        m.lods,
        mesh.first_lod as int,
    ) {
        Some("LOD has a non-contiguous vertex range"@)
    } else if l.first_vertex + l.vertex_count > mesh.first_vertex + mesh.vertex_count {
        Some("LOD vertex range exceeds its mesh"@)
    } else if l.vertex_count == 0 || l.meshlet_count == 0 || l.index_count == 0 {
        Some("LOD has an empty geometry range"@)
    } else if l.index_count % 3 != 0 {
        Some("LOD index count is not divisible by three"@)
    } else if k > mesh.first_lod && l.index_count / 3 >= m.lods[k - 1].index_count / 3 {
        Some("LOD does not reduce triangle count"@)
    } else if !f32_is_finite(l.geometric_error) || f32_lt_zero(l.geometric_error) || (k
        == mesh.first_lod && f32_order_key(l.geometric_error) != 0) || (k > mesh.first_lod
        && f32_order_key(l.geometric_error) < f32_order_key(m.lods[k - 1].geometric_error)) {
        Some("LOD has invalid/non-monotonic geometric error"@)
    } else if !sphere_ok(l.bounds) {
        Some("LOD has an invalid bounds sphere"@)
    } else {
        finding_message(c.lods@, k)
    }
}

/// The first fault among LODs `k..` of `mesh`, then whether they own exactly its vertices.
pub open spec fn mesh_lods_fault_from(
    m: AssetModel,
    c: CullingVerdicts,
    mesh: MeshTableEntry,
    k: int,
) -> Option<
    Seq<char>,
>
    decreases mesh.first_lod + mesh.lod_count - k,
{
    if k < mesh.first_lod + mesh.lod_count {
        match lod_in_mesh_fault(m, c, mesh, k) {
            Some(f) => Some(f),
            None => mesh_lods_fault_from(m, c, mesh, k + 1),
        }
    } else if lod_vertex_start(m.lods, mesh.first_lod + mesh.lod_count) - lod_vertex_start(
        m.lods,
        mesh.first_lod as int,
    ) != mesh.vertex_count {
        Some("mesh vertex range contains unowned records"@)
    } else {
        None
    }
}

/// The message of the first rule that mesh `i` breaks, in the order they are checked.
pub open spec fn mesh_fault(m: AssetModel, c: CullingVerdicts, i: int) -> Option<Seq<char>> {
    let e = m.meshes[i];
    if e.first_lod != mesh_lod_start(m.meshes, i) || e.lod_count == 0 {
        Some("mesh has a non-contiguous or empty LOD range"@)
    } else if e.vertex_count == 0 {
        Some("mesh has an empty vertex range"@)
    } else if e.first_lod + e.lod_count > m.lods.len() {
        Some("mesh LOD range exceeds the LOD table"@)
    } else if e.first_vertex != mesh_vertex_start(m.meshes, i) {
        Some("mesh has a non-contiguous vertex range"@)
    } else if e.first_vertex + e.vertex_count > m.positions.len() {
        Some("mesh vertex range exceeds the vertex streams"@)
    } else if e.pso_class > 1 {
        Some("unknown PSO class"@)
    } else if !sphere_ok(e.bounds) {
        Some("mesh has an invalid bounds sphere"@)
    } else {
        mesh_lods_fault_from(m, c, e, e.first_lod as int)
    }
}

/// The first fault among meshes `i..`, then whether the mesh table owns every LOD and vertex.
pub open spec fn meshes_fault_from(m: AssetModel, c: CullingVerdicts, i: int) -> Option<Seq<char>>
    decreases m.meshes.len() - i,
{
    if 0 <= i < m.meshes.len() {
        match mesh_fault(m, c, i) {
            Some(f) => Some(f),
            None => meshes_fault_from(m, c, i + 1),
        }
    } else if mesh_lod_start(m.meshes, m.meshes.len() as int) != m.lods.len() {
        Some("LOD table contains entries not owned by a mesh"@)
    } else if mesh_vertex_start(m.meshes, m.meshes.len() as int) != m.positions.len() {
        Some("vertex streams contain records not owned by a mesh"@)
    } else {
        None
    }
}

/// Every vertex reference of meshlet `x` lies in the vertex range of LOD `l`.
pub open spec fn refs_in_lod(m: AssetModel, l: LodTableEntry, x: MeshletTableEntry) -> bool {
    forall|r: int|
        x.vertex_offset <= r < x.vertex_offset + x.vertex_count ==> l.first_vertex
            <= #[trigger] m.meshlet_vertex_refs[r] < l.first_vertex + l.vertex_count
}

/// Every fallback index of meshlet `x` is the vertex its micro-index selects.
pub open spec fn corners_match(m: AssetModel, x: MeshletTableEntry) -> bool {
    forall|c: int|
        0 <= c < 3 * x.triangle_count ==> {
            &&& (#[trigger] m.micro_indices[x.triangle_offset + c]) < x.vertex_count
            &&& m.meshlet_vertex_refs[x.vertex_offset + m.micro_indices[x.triangle_offset + c]]
                == m.fallback_indices[x.fallback_first_index + c]
        }
}

/// The message of the first rule that meshlet `j` of LOD `l` breaks, in the order they are
/// checked.
pub open spec fn meshlet_fault(m: AssetModel, c: CullingVerdicts, l: LodTableEntry, j: int) -> Option<
    Seq<char>,
> {
    let x = m.meshlets[j];
    if x.vertex_count == 0 || x.vertex_count > m.config.max_meshlet_vertices {
        Some("meshlet has invalid vertex count"@)
    } else if x.triangle_count == 0 || x.triangle_count > m.config.max_meshlet_triangles {
        Some("meshlet has invalid triangle count"@)
    } else if x.vertex_offset + x.vertex_count > m.meshlet_vertex_refs.len() {
        Some("meshlet vertex range exceeds the reference stream"@)
    } else if 3 * x.triangle_count > u32::MAX {
        Some("meshlet micro-index overflow"@)
    } else if x.triangle_offset + 3 * x.triangle_count > m.micro_indices.len() {
        Some("meshlet triangle range exceeds the micro-index stream"@)
    } else if x.fallback_first_index != l.first_index + meshlet_fallback_start(m.meshlets, j)
        - meshlet_fallback_start(m.meshlets, l.first_meshlet as int) || x.fallback_index_count
        != 3 * x.triangle_count {
        Some("meshlet has an invalid fallback range"@)
    } else if x.fallback_first_index + x.fallback_index_count > m.fallback_indices.len() {
        Some("meshlet fallback range exceeds the fallback stream"@)
    } else {
        meshlet_content_fault(m, c, l, x, j)
    }
}

/// The message of the first rule broken by the contents of meshlet `x`, once its ranges are in
/// bounds.
pub open spec fn meshlet_content_fault(
    m: AssetModel,
    c: CullingVerdicts,
    l: LodTableEntry,
    x: MeshletTableEntry,
    j: int,
) -> Option<
    Seq<char>,
> {
    if !refs_in_lod(m, l, x) {
        Some("meshlet references a vertex outside its LOD"@)
    } else if !corners_match(m, x) {
        Some("meshlet fallback reconstruction differs from its topology"@)
    } else if !sphere_ok(x.bounds) {
        Some("meshlet has an invalid bounds sphere"@)
    } else if !cone_ok(x.normal_cone) {
        Some("meshlet has an invalid normal cone"@)
    } else {
        finding_message(c.meshlets@, j)
    }
}

/// The first fault among meshlets `j..` of LOD `l`, then whether they own exactly its fallback
/// range.
pub open spec fn lod_meshlets_fault_from(
    m: AssetModel,
    c: CullingVerdicts,
    l: LodTableEntry,
    j: int,
) -> Option<
    Seq<char>,
>
    decreases l.first_meshlet + l.meshlet_count - j,
{
    if j < l.first_meshlet + l.meshlet_count {
        match meshlet_fault(m, c, l, j) {
            Some(f) => Some(f),
            None => lod_meshlets_fault_from(m, c, l, j + 1),
        }
    } else if meshlet_fallback_start(m.meshlets, l.first_meshlet + l.meshlet_count)
        - meshlet_fallback_start(m.meshlets, l.first_meshlet as int) != l.index_count {
        Some("LOD fallback range does not match its meshlets"@)
    } else {
        None
    }
}

/// The message of the first rule that LOD `k` breaks, in the order they are checked.
pub open spec fn lod_fault(m: AssetModel, c: CullingVerdicts, k: int) -> Option<Seq<char>> {
    let l = m.lods[k];
    if l.first_meshlet != lod_meshlet_start(m.lods, k) {
        Some("LOD has a non-contiguous meshlet range"@)
    } else if l.first_meshlet + l.meshlet_count > m.meshlets.len() {
        Some("LOD meshlet range exceeds the meshlet table"@)
    } else if l.first_index != lod_index_start(m.lods, k) {
        Some("LOD has a non-contiguous fallback index range"@)
    } else if l.first_index + l.index_count > m.fallback_indices.len() {
        Some("LOD fallback range exceeds the fallback stream"@)
    } else if l.first_vertex + l.vertex_count > u32::MAX {
        Some("LOD vertex range overflow"@)
    } else {
        lod_meshlets_fault_from(m, c, l, l.first_meshlet as int)
    }
}

/// The first fault among LODs `k..`, then whether the LOD table owns every meshlet and index.
pub open spec fn lods_fault_from(m: AssetModel, c: CullingVerdicts, k: int) -> Option<Seq<char>>
    decreases m.lods.len() - k,
{
    if 0 <= k < m.lods.len() {
        match lod_fault(m, c, k) {
            Some(f) => Some(f),
            None => lods_fault_from(m, c, k + 1),
        }
    } else if lod_meshlet_start(m.lods, m.lods.len() as int) != m.meshlets.len() {
        Some("meshlet table contains entries not owned by a LOD"@)
    } else if lod_index_start(m.lods, m.lods.len() as int) != m.fallback_indices.len() {
        Some("fallback index stream contains unowned indices"@)
    } else {
        None
    }
}

/// The message of the first packing rule that meshlet `j` breaks.
pub open spec fn packing_meshlet_fault(m: AssetModel, j: int) -> Option<Seq<char>> {
    let x = m.meshlets[j];
    let refs = m.meshlet_vertex_refs.len() as int;
    let micro = m.micro_indices.len() as int;
    let next_ref = meshlet_ref_start(m.meshlets, j);
    let next_micro = meshlet_micro_start(m.meshlets, j);
    if x.vertex_offset != next_ref || x.triangle_offset != next_micro {
        Some("meshlet has non-contiguous topology ranges"@)
    } else if x.vertex_count > refs - (if next_ref < refs {
        next_ref
    } else {
        refs
    }) || x.vertex_offset > refs || 3 * x.triangle_count > micro - (if next_micro < micro {
        next_micro
    } else {
        micro
    }) || x.triangle_offset > micro {
        Some("meshlet topology streams contain unowned records"@)
    } else {
        None
    }
}

/// The first packing fault among meshlets `j..`, then whether the streams are used up.
pub open spec fn packing_fault_from(m: AssetModel, j: int) -> Option<Seq<char>>
    decreases m.meshlets.len() - j,
{
    if 0 <= j < m.meshlets.len() {
        match packing_meshlet_fault(m, j) {
            Some(f) => Some(f),
            None => packing_fault_from(m, j + 1),
        }
    } else if meshlet_ref_start(m.meshlets, m.meshlets.len() as int) != m.meshlet_vertex_refs.len()
        || meshlet_micro_start(m.meshlets, m.meshlets.len() as int) != m.micro_indices.len() {
        Some("meshlet topology streams contain unowned records"@)
    } else {
        None
    }
}

/// The message of the first rule that an asset with a valid configuration breaks: streams, then
/// meshes with their LODs, then LODs with their meshlets, then topology packing; each culling
/// finding counts right after the structural checks of its LOD or meshlet.
pub open spec fn asset_fault(m: AssetModel, c: CullingVerdicts) -> Option<Seq<char>> {
    match streams_fault(m) {
        Some(f) => Some(f),
        None => match meshes_fault_from(m, c, 0) {
            Some(f) => Some(f),
            None => match lods_fault_from(m, c, 0) {
                Some(f) => Some(f),
                None => packing_fault_from(m, 0),
            },
        },
    }
}

/// `e` is the error that validation reports for `m` with culling findings `c`: the first broken
/// configuration rule as `InvalidConfig`, otherwise the first broken rule as `InvalidAsset`, each
/// with its message.
pub open spec fn validation_error_is(m: AssetModel, c: CullingVerdicts, e: MeshletAssetError) -> bool {
    if config_fault(m.config) is Some {
        config_error_is(e, config_fault(m.config))
    } else {
        asset_error_is(e, asset_fault(m, c))
    }
}

/// The end of the range `offset..offset + count` when it fits in `limit`.
pub fn checked_range_end(offset: u32, count: u32, limit: usize) -> (r: Option<usize>)
    ensures
        offset + count <= limit ==> r == Some((offset + count) as usize),
        offset + count > limit ==> r is None,
{
    let offset = offset as usize;
    let count = count as usize;
    match offset.checked_add(count) {
        Some(end) => if end > limit {
            None
        } else {
            Some(end)
        },
        None => None,
    }
}

fn sphere_is_ok(s: BoundsSphere) -> (r: bool)
    ensures
        r == sphere_ok(s),
{
    is_finite(s.center[0]) && is_finite(s.center[1]) && is_finite(s.center[2]) && is_finite(
        s.radius,
    ) && !lt_zero(s.radius)
}

fn cone_is_ok(c: NormalCone) -> (r: bool)
    ensures
        r == cone_ok(c),
{
    is_finite(c.axis[0]) && is_finite(c.axis[1]) && is_finite(c.axis[2]) && is_finite(c.cutoff)
        && !lt_zero(c.cutoff)
}

/// Reference prefix sums never decrease.
proof fn lemma_ref_start_monotone(ms: Seq<MeshletTableEntry>, a: int, b: int)
    requires
        0 <= a <= b,
    ensures
        meshlet_ref_start(ms, a) <= meshlet_ref_start(ms, b),
    decreases b - a,
{
    if a < b {
        lemma_ref_start_monotone(ms, a, b - 1);
    }
}

/// Micro-index prefix sums never decrease.
proof fn lemma_micro_start_monotone(ms: Seq<MeshletTableEntry>, a: int, b: int)
    requires
        0 <= a <= b,
    ensures
        meshlet_micro_start(ms, a) <= meshlet_micro_start(ms, b),
    decreases b - a,
{
    if a < b {
        lemma_micro_start_monotone(ms, a, b - 1);
    }
}

impl MeshletSceneAsset {
    fn validate_streams(&self) -> (r: Result<(), MeshletAssetError>)
        ensures
            r is Ok <==> streams_ok(self@),
            r is Err ==> (r->Err_0 is InvalidConfig <==> !spec_config_valid(self@.config)),
            r is Err ==> (r->Err_0 is InvalidConfig || r->Err_0 is InvalidAsset),
            r is Ok ==> config_fault(self@.config) is None && streams_fault(self@) is None,
            r is Err && config_fault(self@.config) is Some ==> config_error_is(
                r->Err_0,
                config_fault(self@.config),
            ),
            r is Err && config_fault(self@.config) is None ==> asset_error_is(
                r->Err_0,
                streams_fault(self@),
            ),
    {
        proof {
            self.lemma_view();
        }
        self.config.validate()?;
        let expected = self.config.build_hash();
        if !self.build_hash.same_as(&expected) {
            return Err(
                invalid_asset("build hash does not match the serialized build configuration"),
            );
        }
        if self.positions.len() != self.attributes.len() {
            return Err(invalid_asset("position/attribute stream length mismatch"));
        }
        let mut i: usize = 0;
        while i < self.positions.len()
            invariant
                spec_config_valid(self@.config),
                i <= self.positions@.len(),
                self@.build_hash == spec_build_hash(self@.config),
                self@.positions.len() == self@.attributes.len(),
                forall|j: int|
                    0 <= j < i ==> {
                        &&& f32_is_finite((#[trigger] self.positions@[j])@[0])
                        &&& f32_is_finite(self.positions@[j]@[1])
                        &&& f32_is_finite(self.positions@[j]@[2])
                    },
            decreases self.positions@.len() - i,
        {
            let p = self.positions[i];
            if !(is_finite(p[0]) && is_finite(p[1]) && is_finite(p[2])) {
                assert(self@.positions[i as int] == p);
                assert(!(f32_is_finite(self@.positions[i as int]@[0]) && f32_is_finite(
                    self@.positions[i as int]@[1],
                ) && f32_is_finite(self@.positions[i as int]@[2])));
                assert(self@.build_hash == spec_build_hash(self@.config));
                return Err(invalid_asset("position is not finite"));
            }
            i = i + 1;
        }
        let mut i: usize = 0;
        while i < self.attributes.len()
            invariant
                spec_config_valid(self@.config),
                i <= self.attributes@.len(),
                self@.build_hash == spec_build_hash(self@.config),
                self@.positions.len() == self@.attributes.len(),
                forall|j: int|
                    0 <= j < self@.positions.len() ==> {
                        &&& f32_is_finite((#[trigger] self@.positions[j])@[0])
                        &&& f32_is_finite(self@.positions[j]@[1])
                        &&& f32_is_finite(self@.positions[j]@[2])
                    },
                forall|j: int|
                    0 <= j < i ==> {
                        &&& f32_is_finite((#[trigger] self.attributes@[j]).uv@[0])
                        &&& f32_is_finite(self.attributes@[j].uv@[1])
                    },
            decreases self.attributes@.len() - i,
        {
            let a = self.attributes[i];
            if !(is_finite(a.uv[0]) && is_finite(a.uv[1])) {
                return Err(invalid_asset("UV is not finite"));
            }
            i = i + 1;
        }
        Ok(())
    }

    /// Checks the LODs of one mesh, given that the mesh's own ranges are in bounds.
    fn validate_mesh_lods(&self, mesh: MeshTableEntry, culling: &CullingVerdicts) -> (r: Result<
        (),
        MeshletAssetError,
    >)
        requires
            mesh.first_lod + mesh.lod_count <= self@.lods.len(),
            mesh.first_vertex + mesh.vertex_count <= self@.positions.len(),
            mesh.lod_count > 0,
        ensures
            r is Ok <==> {
                &&& forall|k: int|
                    mesh.first_lod <= k < mesh.first_lod + mesh.lod_count
                        ==> #[trigger] lod_in_mesh_ok(self@, mesh, k)
                &&& lod_vertex_start(self@.lods, mesh.first_lod + mesh.lod_count)
                    - lod_vertex_start(self@.lods, mesh.first_lod as int) == mesh.vertex_count
                &&& forall|k: int|
                    mesh.first_lod <= k < mesh.first_lod + mesh.lod_count ==> #[trigger] finding_at(
                        culling.lods@,
                        k,
                    ) is None
            },
            r is Err ==> r->Err_0 is InvalidAsset,
            r is Ok ==> mesh_lods_fault_from(self@, *culling, mesh, mesh.first_lod as int) is None,
            r is Err ==> asset_error_is(
                r->Err_0,
                mesh_lods_fault_from(self@, *culling, mesh, mesh.first_lod as int),
            ),
    {
        proof {
            self.lemma_view();
        }
        let ghost m = self@;
        let _lods_len = self.lods.len();
        let _positions_len = self.positions.len();
        let mesh_vertex_end: usize = mesh.first_vertex as usize + mesh.vertex_count as usize;
        let lod_end: usize = mesh.first_lod as usize + mesh.lod_count as usize;
        let mut expected_lod_vertex: usize = mesh.first_vertex as usize;
        let mut k: usize = mesh.first_lod as usize;
        while k < lod_end
            invariant
                m == self@,
                mesh.first_lod <= k <= lod_end,
                lod_end == mesh.first_lod + mesh.lod_count,
                lod_end <= m.lods.len(),
                mesh_vertex_end == mesh.first_vertex + mesh.vertex_count,
                expected_lod_vertex == mesh.first_vertex + lod_vertex_start(m.lods, k as int)
                    - lod_vertex_start(m.lods, mesh.first_lod as int),
                expected_lod_vertex <= mesh_vertex_end,
                mesh_lods_fault_from(m, *culling, mesh, mesh.first_lod as int)
                    == mesh_lods_fault_from(m, *culling, mesh, k as int),
                forall|k2: int|
                    mesh.first_lod <= k2 < k ==> #[trigger] lod_in_mesh_ok(m, mesh, k2),
                forall|k2: int|
                    mesh.first_lod <= k2 < k ==> #[trigger] finding_at(culling.lods@, k2) is None,
            decreases lod_end - k,
        {
            let lod = self.lods[k];
            if lod.first_vertex as usize != expected_lod_vertex {
                assert(!lod_in_mesh_ok(m, mesh, k as int));
                return Err(invalid_asset("LOD has a non-contiguous vertex range"));
            }
            let end = match checked_range_end(lod.first_vertex, lod.vertex_count, mesh_vertex_end) {
                Some(end) => end,
                None => {
                    assert(!lod_in_mesh_ok(m, mesh, k as int));
                    return Err(invalid_asset("LOD vertex range exceeds its mesh"));
                },
            };
            if lod.vertex_count == 0 || lod.meshlet_count == 0 || lod.index_count == 0 {
                assert(!lod_in_mesh_ok(m, mesh, k as int));
                return Err(invalid_asset("LOD has an empty geometry range"));
            }
            if lod.index_count % 3 != 0 {
                assert(!lod_in_mesh_ok(m, mesh, k as int));
                return Err(invalid_asset("LOD index count is not divisible by three"));
            }
            if k > mesh.first_lod as usize {
                let previous = self.lods[k - 1];
                if lod.index_count / 3 >= previous.index_count / 3 {
                    assert(!lod_in_mesh_ok(m, mesh, k as int));
                    return Err(invalid_asset("LOD does not reduce triangle count"));
                }
            }
            if !is_finite(lod.geometric_error) || lt_zero(lod.geometric_error) {
                assert(!lod_in_mesh_ok(m, mesh, k as int));
                return Err(invalid_asset("LOD has invalid/non-monotonic geometric error"));
            }
            if k == mesh.first_lod as usize {
                if order_key(lod.geometric_error) != 0 {
                    assert(!lod_in_mesh_ok(m, mesh, k as int));
                    return Err(invalid_asset("LOD has invalid/non-monotonic geometric error"));
                }
            } else {
                let previous = self.lods[k - 1];
                if order_key(lod.geometric_error) < order_key(previous.geometric_error) {
                    assert(!lod_in_mesh_ok(m, mesh, k as int));
                    return Err(invalid_asset("LOD has invalid/non-monotonic geometric error"));
                }
            }
            if !sphere_is_ok(lod.bounds) {
                assert(!lod_in_mesh_ok(m, mesh, k as int));
                return Err(invalid_asset("LOD has an invalid bounds sphere"));
            }
            assert(lod_in_mesh_ok(m, mesh, k as int));
            match culling.lod(k) {
                Some(f) => {
                    return Err(culling_error(f));
                },
                None => {},
            }
            assert(lod_in_mesh_fault(m, *culling, mesh, k as int) is None);
            assert(mesh_lods_fault_from(m, *culling, mesh, k as int) == mesh_lods_fault_from(
                m,
                *culling,
                mesh,
                k + 1,
            ));
            expected_lod_vertex = end;
            k = k + 1;
        }
        if expected_lod_vertex != mesh_vertex_end {
            return Err(invalid_asset("mesh vertex range contains unowned records"));
        }
        Ok(())
    }

    fn validate_meshes(&self, culling: &CullingVerdicts) -> (r: Result<(), MeshletAssetError>)
        ensures
            r is Ok <==> meshes_ok(self@) && forall|k: int|
                0 <= k < self@.lods.len() ==> #[trigger] finding_at(culling.lods@, k) is None,
            r is Err ==> r->Err_0 is InvalidAsset,
            r is Ok ==> meshes_fault_from(self@, *culling, 0) is None,
            r is Err ==> asset_error_is(r->Err_0, meshes_fault_from(self@, *culling, 0)),
    {
        proof {
            self.lemma_view();
        }
        let ghost m = self@;
        let mut expected_lod: usize = 0;
        let mut expected_mesh_vertex: usize = 0;
        let mut i: usize = 0;
        while i < self.meshes.len()
            invariant
                m == self@,
                i <= m.meshes.len(),
                expected_lod == mesh_lod_start(m.meshes, i as int),
                expected_mesh_vertex == mesh_vertex_start(m.meshes, i as int),
                expected_lod <= m.lods.len(),
                expected_mesh_vertex <= m.positions.len(),
                meshes_fault_from(m, *culling, 0) == meshes_fault_from(m, *culling, i as int),
                forall|i2: int| 0 <= i2 < i ==> #[trigger] mesh_ok(m, i2),
                forall|k: int| 0 <= k < expected_lod ==> #[trigger] finding_at(culling.lods@, k) is None,
            decreases m.meshes.len() - i,
        {
            let mesh = self.meshes[i];
            if mesh.first_lod as usize != expected_lod || mesh.lod_count == 0 {
                assert(!mesh_ok(m, i as int));
                return Err(invalid_asset("mesh has a non-contiguous or empty LOD range"));
            }
            if mesh.vertex_count == 0 {
                assert(!mesh_ok(m, i as int));
                return Err(invalid_asset("mesh has an empty vertex range"));
            }
            let lod_end = match checked_range_end(mesh.first_lod, mesh.lod_count, self.lods.len()) {
                Some(end) => end,
                None => {
                    assert(!mesh_ok(m, i as int));
                    return Err(invalid_asset("mesh LOD range exceeds the LOD table"));
                },
            };
            if mesh.first_vertex as usize != expected_mesh_vertex {
                assert(!mesh_ok(m, i as int));
                return Err(invalid_asset("mesh has a non-contiguous vertex range"));
            }
            let vertex_end = match checked_range_end(
                mesh.first_vertex,
                mesh.vertex_count,
                self.positions.len(),
            ) {
                Some(end) => end,
                None => {
                    assert(!mesh_ok(m, i as int));
                    return Err(invalid_asset("mesh vertex range exceeds the vertex streams"));
                },
            };
            if mesh.pso_class().is_err() {
                assert(!mesh_ok(m, i as int));
                return Err(invalid_asset("unknown PSO class"));
            }
            if !sphere_is_ok(mesh.bounds) {
                assert(!mesh_ok(m, i as int));
                return Err(invalid_asset("mesh has an invalid bounds sphere"));
            }
            match self.validate_mesh_lods(mesh, culling) {
                Ok(()) => {},
                Err(e) => {
                    proof {
                        if meshes_ok(m) && (forall|k: int|
                            0 <= k < m.lods.len() ==> #[trigger] finding_at(culling.lods@, k)
                                is None) {
                            assert(mesh_ok(m, i as int));
                            assert forall|k: int|
                                mesh.first_lod <= k < mesh.first_lod
                                    + mesh.lod_count implies #[trigger] finding_at(
                                culling.lods@,
                                k,
                            ) is None by {
                                assert(0 <= k < m.lods.len());
                            }
                        }
                    }
                    return Err(e);
                },
            }
            assert(mesh_ok(m, i as int));
            assert(mesh_fault(m, *culling, i as int) is None);
            assert(meshes_fault_from(m, *culling, i as int) == meshes_fault_from(
                m,
                *culling,
                i + 1,
            ));
            expected_lod = lod_end;
            expected_mesh_vertex = vertex_end;
            i = i + 1;
        }
        if expected_lod != self.lods.len() {
            return Err(invalid_asset("LOD table contains entries not owned by a mesh"));
        }
        if expected_mesh_vertex != self.positions.len() {
            return Err(invalid_asset("vertex streams contain records not owned by a mesh"));
        }
        Ok(())
    }

    /// Checks one meshlet of a LOD whose ranges are in bounds; `fallback_start` is where the
    /// meshlet's fallback range must begin.
    fn validate_meshlet(
        &self,
        lod: LodTableEntry,
        j: usize,
        fallback_start: usize,
        culling: &CullingVerdicts,
    ) -> (r: Result<(), MeshletAssetError>)
        requires
            j < self@.meshlets.len(),
            fallback_start == lod.first_index + meshlet_fallback_start(self@.meshlets, j as int)
                - meshlet_fallback_start(self@.meshlets, lod.first_meshlet as int),
            lod.first_vertex + lod.vertex_count <= u32::MAX,
        ensures
            r is Ok <==> meshlet_ok(self@, lod, j as int) && finding_at(culling.meshlets@, j as int)
                is None,
            r is Err ==> r->Err_0 is InvalidAsset,
            r is Ok ==> meshlet_fault(self@, *culling, lod, j as int) is None,
            r is Err ==> asset_error_is(r->Err_0, meshlet_fault(self@, *culling, lod, j as int)),
    {
        proof {
            self.lemma_view();
        }
        let ghost m = self@;
        let meshlet = self.meshlets[j];
        if meshlet.vertex_count == 0 || meshlet.vertex_count > self.config.max_meshlet_vertices {
            return Err(invalid_asset("meshlet has invalid vertex count"));
        }
        if meshlet.triangle_count == 0 || meshlet.triangle_count
            > self.config.max_meshlet_triangles {
            return Err(invalid_asset("meshlet has invalid triangle count"));
        }
        let vertex_end = match checked_range_end(
            meshlet.vertex_offset,
            meshlet.vertex_count,
            self.meshlet_vertex_refs.len(),
        ) {
            Some(end) => end,
            None => {
                return Err(invalid_asset("meshlet vertex range exceeds the reference stream"));
            },
        };
        let micro_count = match meshlet.triangle_count.checked_mul(3) {
            Some(count) => count,
            None => {
                return Err(invalid_asset("meshlet micro-index overflow"));
            },
        };
        let micro_end = match checked_range_end(
            meshlet.triangle_offset,
            micro_count,
            self.micro_indices.len(),
        ) {
            Some(end) => end,
            None => {
                return Err(invalid_asset("meshlet triangle range exceeds the micro-index stream"));
            },
        };
        if meshlet.fallback_first_index as usize != fallback_start || meshlet.fallback_index_count
            != micro_count {
            return Err(invalid_asset("meshlet has an invalid fallback range"));
        }
        let _fallback_end = match checked_range_end(
            meshlet.fallback_first_index,
            meshlet.fallback_index_count,
            self.fallback_indices.len(),
        ) {
            Some(end) => end,
            None => {
                return Err(invalid_asset("meshlet fallback range exceeds the fallback stream"));
            },
        };
        let lod_vertex_start = lod.first_vertex;
        let lod_vertex_end = lod.first_vertex + lod.vertex_count;
        let mut r: usize = meshlet.vertex_offset as usize;
        while r < vertex_end
            invariant
                m == self@,
                j < m.meshlets.len(),
                meshlet == m.meshlets[j as int],
                meshlet.vertex_offset <= r <= vertex_end,
                vertex_end == meshlet.vertex_offset + meshlet.vertex_count,
                vertex_end <= m.meshlet_vertex_refs.len(),
                lod_vertex_end == lod.first_vertex + lod.vertex_count,
                lod_vertex_start == lod.first_vertex,
                meshlet_fault(m, *culling, lod, j as int) == meshlet_content_fault(
                    m,
                    *culling,
                    lod,
                    meshlet,
                    j as int,
                ),
                forall|r2: int|
                    meshlet.vertex_offset <= r2 < r ==> lod.first_vertex
                        <= #[trigger] m.meshlet_vertex_refs[r2] < lod.first_vertex
                        + lod.vertex_count,
            decreases vertex_end - r,
        {
            proof {
                self.lemma_view();
            }
            let vertex = self.meshlet_vertex_refs[r];
            if vertex < lod_vertex_start || vertex >= lod_vertex_end {
                assert(!meshlet_ok(m, lod, j as int));
                assert(!refs_in_lod(m, lod, meshlet)) by {
                    assert(!(lod.first_vertex <= m.meshlet_vertex_refs[r as int] < lod.first_vertex
                        + lod.vertex_count));
                }
                return Err(invalid_asset("meshlet references a vertex outside its LOD"));
            }
            r = r + 1;
        }
        let mut c: usize = 0;
        let corners: usize = micro_count as usize;
        let _micro_len = self.micro_indices.len();
        let _fallback_len = self.fallback_indices.len();
        let _refs_len = self.meshlet_vertex_refs.len();
        while c < corners
            invariant
                m == self@,
                j < m.meshlets.len(),
                meshlet == m.meshlets[j as int],
                m.micro_indices.len() <= usize::MAX,
                m.fallback_indices.len() <= usize::MAX,
                m.meshlet_vertex_refs.len() <= usize::MAX,
                c <= corners,
                corners == 3 * meshlet.triangle_count,
                meshlet.fallback_index_count == corners,
                meshlet.triangle_offset + corners <= m.micro_indices.len(),
                meshlet.fallback_first_index + corners <= m.fallback_indices.len(),
                meshlet.vertex_offset + meshlet.vertex_count <= m.meshlet_vertex_refs.len(),
                meshlet_fault(m, *culling, lod, j as int) == meshlet_content_fault(
                    m,
                    *culling,
                    lod,
                    meshlet,
                    j as int,
                ),
                refs_in_lod(m, lod, meshlet),
                forall|c2: int|
                    0 <= c2 < c ==> {
                        &&& (#[trigger] m.micro_indices[meshlet.triangle_offset + c2])
                            < meshlet.vertex_count
                        &&& m.meshlet_vertex_refs[meshlet.vertex_offset
                            + m.micro_indices[meshlet.triangle_offset + c2]]
                            == m.fallback_indices[meshlet.fallback_first_index + c2]
                    },
            decreases corners - c,
        {
            proof {
                self.lemma_view();
            }
            let local = self.micro_indices[meshlet.triangle_offset as usize + c];
            let global = self.fallback_indices[meshlet.fallback_first_index as usize + c];
            if local as u32 >= meshlet.vertex_count || self.meshlet_vertex_refs[
                meshlet.vertex_offset as usize + local as usize] != global {
                assert(!meshlet_ok(m, lod, j as int)) by {
                    let ci = c as int;
                    assert(0 <= ci < 3 * meshlet.triangle_count);
                    assert(m.micro_indices[meshlet.triangle_offset + ci] == local);
                }
                assert(!corners_match(m, meshlet)) by {
                    let ci = c as int;
                    assert(m.micro_indices[meshlet.triangle_offset + ci] == local);
                }
                return Err(
                    invalid_asset("meshlet fallback reconstruction differs from its topology"),
                );
            }
            c = c + 1;
        }
        if !sphere_is_ok(meshlet.bounds) {
            return Err(invalid_asset("meshlet has an invalid bounds sphere"));
        }
        if !cone_is_ok(meshlet.normal_cone) {
            return Err(invalid_asset("meshlet has an invalid normal cone"));
        }
        match culling.meshlet(j) {
            Some(f) => Err(culling_error(f)),
            None => Ok(()),
        }
    }

    fn validate_lods(&self, culling: &CullingVerdicts) -> (r: Result<(), MeshletAssetError>)
        ensures
            r is Ok <==> lods_ok(self@) && forall|j: int|
                0 <= j < self@.meshlets.len() ==> #[trigger] finding_at(culling.meshlets@, j) is None,
            r is Err ==> r->Err_0 is InvalidAsset,
            r is Ok ==> lods_fault_from(self@, *culling, 0) is None,
            r is Err ==> asset_error_is(r->Err_0, lods_fault_from(self@, *culling, 0)),
    {
        proof {
            self.lemma_view();
        }
        let ghost m = self@;
        let mut expected_meshlet: usize = 0;
        let mut expected_fallback: usize = 0;
        let mut k: usize = 0;
        while k < self.lods.len()
            invariant
                m == self@,
                k <= m.lods.len(),
                expected_meshlet == lod_meshlet_start(m.lods, k as int),
                expected_fallback == lod_index_start(m.lods, k as int),
                expected_meshlet <= m.meshlets.len(),
                expected_fallback <= m.fallback_indices.len(),
                lods_fault_from(m, *culling, 0) == lods_fault_from(m, *culling, k as int),
                forall|k2: int| 0 <= k2 < k ==> #[trigger] lod_ok(m, k2),
                forall|j2: int|
                    0 <= j2 < expected_meshlet ==> #[trigger] finding_at(culling.meshlets@, j2) is None,
            decreases m.lods.len() - k,
        {
            let lod = self.lods[k];
            if lod.first_meshlet as usize != expected_meshlet {
                assert(!lod_ok(m, k as int));
                return Err(invalid_asset("LOD has a non-contiguous meshlet range"));
            }
            let meshlet_end = match checked_range_end(
                lod.first_meshlet,
                lod.meshlet_count,
                self.meshlets.len(),
            ) {
                Some(end) => end,
                None => {
                    assert(!lod_ok(m, k as int));
                    return Err(invalid_asset("LOD meshlet range exceeds the meshlet table"));
                },
            };
            if lod.first_index as usize != expected_fallback {
                assert(!lod_ok(m, k as int));
                return Err(invalid_asset("LOD has a non-contiguous fallback index range"));
            }
            let fallback_end = match checked_range_end(
                lod.first_index,
                lod.index_count,
                self.fallback_indices.len(),
            ) {
                Some(end) => end,
                None => {
                    assert(!lod_ok(m, k as int));
                    return Err(invalid_asset("LOD fallback range exceeds the fallback stream"));
                },
            };
            if lod.first_vertex.checked_add(lod.vertex_count).is_none() {
                assert(!lod_ok(m, k as int));
                return Err(invalid_asset("LOD vertex range overflow"));
            }
            let _fallback_len = self.fallback_indices.len();
            let mut meshlet_fallback: usize = lod.first_index as usize;
            let mut j: usize = lod.first_meshlet as usize;
            while j < meshlet_end
                invariant
                    m == self@,
                    lod == m.lods[k as int],
                    k < m.lods.len(),
                    lod.first_meshlet <= j <= meshlet_end,
                    meshlet_end == lod.first_meshlet + lod.meshlet_count,
                    meshlet_end <= m.meshlets.len(),
                    lod.first_vertex + lod.vertex_count <= u32::MAX,
                    meshlet_fallback == lod.first_index + meshlet_fallback_start(
                        m.meshlets,
                        j as int,
                    ) - meshlet_fallback_start(m.meshlets, lod.first_meshlet as int),
                    meshlet_fallback <= m.fallback_indices.len(),
                    m.fallback_indices.len() <= usize::MAX,
                    lods_fault_from(m, *culling, 0) == lods_fault_from(m, *culling, k as int),
                    lod_fault(m, *culling, k as int) == lod_meshlets_fault_from(
                        m,
                        *culling,
                        lod,
                        j as int,
                    ),
                    expected_meshlet == lod.first_meshlet,
                    forall|j2: int|
                        0 <= j2 < j ==> #[trigger] finding_at(culling.meshlets@, j2) is None,
                    0 <= k,
                    forall|j2: int|
                        lod.first_meshlet <= j2 < j ==> #[trigger] meshlet_ok(m, lod, j2),
                decreases meshlet_end - j,
            {
                proof {
                    self.lemma_view();
                }
                match self.validate_meshlet(lod, j, meshlet_fallback, culling) {
                    Ok(()) => {},
                    Err(e) => {
                        proof {
                            if lods_ok(m) && (forall|j3: int|
                                0 <= j3 < m.meshlets.len() ==> #[trigger] finding_at(
                                    culling.meshlets@,
                                    j3,
                                ) is None) {
                                assert(lod_ok(m, k as int));
                                assert(meshlet_ok(m, lod, j as int));
                                assert(0 <= j < m.meshlets.len());
                            }
                        }
                        return Err(e);
                    },
                }
                assert(lod_meshlets_fault_from(m, *culling, lod, j as int)
                    == lod_meshlets_fault_from(m, *culling, lod, j + 1));
                let meshlet = self.meshlets[j];
                meshlet_fallback = meshlet.fallback_first_index as usize
                    + meshlet.fallback_index_count as usize;
                j = j + 1;
            }
            if meshlet_fallback != fallback_end {
                assert(!lod_ok(m, k as int));
                return Err(invalid_asset("LOD fallback range does not match its meshlets"));
            }
            assert(lod_ok(m, k as int));
            assert(lod_fault(m, *culling, k as int) is None);
            assert(lods_fault_from(m, *culling, k as int) == lods_fault_from(m, *culling, k + 1));
            expected_meshlet = meshlet_end;
            expected_fallback = fallback_end;
            k = k + 1;
        }
        if expected_meshlet != self.meshlets.len() {
            return Err(invalid_asset("meshlet table contains entries not owned by a LOD"));
        }
        if expected_fallback != self.fallback_indices.len() {
            return Err(invalid_asset("fallback index stream contains unowned indices"));
        }
        Ok(())
    }

    fn validate_packing(&self) -> (r: Result<(), MeshletAssetError>)
        ensures
            r is Ok <==> packing_ok(self@),
            r is Err ==> r->Err_0 is InvalidAsset,
            r is Ok ==> packing_fault_from(self@, 0) is None,
            r is Err ==> asset_error_is(r->Err_0, packing_fault_from(self@, 0)),
    {
        proof {
            self.lemma_view();
        }
        let ghost m = self@;
        let mut next_vertex_ref: usize = 0;
        let mut next_micro: usize = 0;
        let mut j: usize = 0;
        while j < self.meshlets.len()
            invariant
                m == self@,
                next_vertex_ref <= m.meshlet_vertex_refs.len(),
                next_micro <= m.micro_indices.len(),
                j <= m.meshlets.len(),
                next_vertex_ref == meshlet_ref_start(m.meshlets, j as int),
                next_micro == meshlet_micro_start(m.meshlets, j as int),
                packing_fault_from(m, 0) == packing_fault_from(m, j as int),
                forall|j2: int|
                    0 <= j2 < j ==> {
                        &&& (#[trigger] m.meshlets[j2]).vertex_offset == meshlet_ref_start(
                            m.meshlets,
                            j2,
                        )
                        &&& m.meshlets[j2].triangle_offset == meshlet_micro_start(m.meshlets, j2)
                    },
            decreases m.meshlets.len() - j,
        {
            proof {
                self.lemma_view();
            }
            let meshlet = self.meshlets[j];
            if meshlet.vertex_offset as usize != next_vertex_ref || meshlet.triangle_offset as usize
                != next_micro {
                return Err(invalid_asset("meshlet has non-contiguous topology ranges"));
            }
            let refs_len = self.meshlet_vertex_refs.len();
            let micro_len = self.micro_indices.len();
            if meshlet.vertex_count as usize > refs_len - next_vertex_ref.min(refs_len)
                || meshlet.vertex_offset as usize > refs_len {
                proof {
                    lemma_ref_start_monotone(m.meshlets, j + 1, m.meshlets.len() as int);
                }
                return Err(invalid_asset("meshlet topology streams contain unowned records"));
            }
            if 3 * (meshlet.triangle_count as u64) > (micro_len - next_micro.min(micro_len)) as u64
                || meshlet.triangle_offset as usize > micro_len {
                proof {
                    lemma_micro_start_monotone(m.meshlets, j + 1, m.meshlets.len() as int);
                }
                return Err(invalid_asset("meshlet topology streams contain unowned records"));
            }
            assert(packing_meshlet_fault(m, j as int) is None);
            assert(packing_fault_from(m, j as int) == packing_fault_from(m, j + 1));
            next_vertex_ref = meshlet.vertex_offset as usize + meshlet.vertex_count as usize;
            next_micro = meshlet.triangle_offset as usize + 3 * (meshlet.triangle_count as usize);
            j = j + 1;
        }
        if next_vertex_ref != self.meshlet_vertex_refs.len() || next_micro
            != self.micro_indices.len() {
            return Err(invalid_asset("meshlet topology streams contain unowned records"));
        }
        Ok(())
    }

    /// Verifies table ranges, topology reconstruction, every format invariant, and the numeric
    /// sanity of every stored bound; `culling` carries what the caller's floating-point checks
    /// found about whether the culling bounds enclose their geometry, and each finding counts
    /// where that check belongs in the order.
    ///
    /// Succeeds exactly on structurally valid assets with no culling finding for any LOD or
    /// meshlet. Otherwise the first rule broken, in the order the rules are checked, decides the
    /// error: a configuration rule as `InvalidConfig`, any other as `InvalidAsset`, each with that
    /// rule's message.
    pub fn validate(&self, culling: &CullingVerdicts) -> (r: Result<(), MeshletAssetError>)
        ensures
            r is Ok <==> asset_accepted(self@, *culling),
            r is Err ==> (r->Err_0 is InvalidConfig <==> !spec_config_valid(self@.config)),
            r is Err ==> (r->Err_0 is InvalidConfig || r->Err_0 is InvalidAsset),
            r is Err ==> validation_error_is(self@, *culling, r->Err_0),
    {
        self.validate_streams()?;
        self.validate_meshes(culling)?;
        self.validate_lods(culling)?;
        self.validate_packing()?;
        Ok(())
    }
}

} // verus!

//! Per-frame decisions of the renderer that need no GPU: the Hi-Z pyramid shape, when to recycle
//! transient resources, which optional passes run, and the checks made before any GPU resource
//! is created.

use vstd::prelude::*;
use vstd::arithmetic::power2::{lemma2_to64, lemma_pow2_unfold, pow2};
use vstd::bits::lemma_u32_shr_is_div;

use crate::asset::{MeshletAssetError, MeshletBuildConfig};
use crate::bindless::BindlessTextureError;
use crate::capabilities::{AdapterBackend, MeshletFeatures};
use crate::gpu_types::ceil_div;
use crate::config::{
    MeshletBackend, MeshletCapacityConfig, MeshletConfigError, MESHLET_MAX_TRIANGLES,
    MESHLET_MAX_VERTICES, TASK_PACKET_MESHLET_COUNT,
};

verus! {

/// The number of binary digits of `v`.
pub open spec fn bit_length(v: nat) -> nat
    decreases v,
{
    if v == 0 {
        0
    } else {
        1 + bit_length(v / 2)
    }
}

/// A value below `2^n` has at most `n` binary digits.
pub proof fn lemma_bit_length_bound(v: nat, n: nat)
    requires
        v < pow2(n),
    ensures
        bit_length(v) <= n,
    decreases n,
{
    if v > 0 {
        if n == 0 {
            lemma2_to64();
        } else {
            lemma_pow2_unfold(n);
            lemma_bit_length_bound(v / 2, (n - 1) as nat);
        }
    }
}

pub open spec fn max_u32(a: u32, b: u32) -> u32 {
    if a >= b {
        a
    } else {
        b
    }
}

/// The extent of one mip level.
#[derive(Clone, Copy, Debug, PartialEq, Eq, Structural)]
pub struct MipExtent {
    pub width: u32,
    pub height: u32,
    pub depth_or_array_layers: u32,
}

/// Shape of the hierarchical depth pyramid for a render extent: a zero dimension counts as one,
/// and the pyramid goes down to a single texel along its larger side.
#[derive(Clone, Copy, Debug, PartialEq, Eq)]
pub struct HiZPyramidDesc {
    width: u32,
    height: u32,
    mip_level_count: u32,
}

impl HiZPyramidDesc {
    pub closed spec fn spec_width(self) -> u32 {
        self.width
    }

    pub closed spec fn spec_height(self) -> u32 {
        self.height
    }

    pub closed spec fn spec_mip_level_count(self) -> u32 {
        self.mip_level_count
    }

    pub fn new(width: u32, height: u32) -> (r: Self)
        ensures
            r.spec_width() == max_u32(width, 1),
            r.spec_height() == max_u32(height, 1),
            r.spec_mip_level_count() == bit_length(
                max_u32(max_u32(width, 1), max_u32(height, 1)) as nat,
            ),
            1 <= r.spec_mip_level_count() <= 32,
    {
        let width = if width == 0 {
            1
        } else {
            width
        };
        let height = if height == 0 {
            1
        } else {
            height
        };
        let max_dimension = if width >= height {
            width
        } else {
            height
        };
        proof {
            lemma2_to64();
            lemma_bit_length_bound(max_dimension as nat, 32);
        }
        let mut rest = max_dimension;
        let mut count: u32 = 0;
        while rest > 0
            invariant
                count + bit_length(rest as nat) == bit_length(max_dimension as nat),
                bit_length(max_dimension as nat) <= 32,
            decreases rest,
        {
            rest = rest / 2;
            count = count + 1;
        }
        HiZPyramidDesc { width, height, mip_level_count: count }
    }

    pub fn width(self) -> (r: u32)
        ensures
            r == self.spec_width(),
    {
        self.width
    }

    pub fn height(self) -> (r: u32)
        ensures
            r == self.spec_height(),
    {
        self.height
    }

    pub fn mip_level_count(self) -> (r: u32)
        ensures
            r == self.spec_mip_level_count(),
    {
        self.mip_level_count
    }

    /// The extent of mip `mip`: each side halved `mip` times, rounding down, but at least one.
    pub fn mip_extent(self, mip: u32) -> (r: MipExtent)
        requires
            mip < self.spec_mip_level_count(),
            self.spec_mip_level_count() <= 32,
        ensures
            r.width == max_u32((self.spec_width() as nat / pow2(mip as nat)) as u32, 1),
            r.height == max_u32((self.spec_height() as nat / pow2(mip as nat)) as u32, 1),
            r.depth_or_array_layers == 1,
    {
        proof {
            lemma_u32_shr_is_div(self.width, mip);
            lemma_u32_shr_is_div(self.height, mip);
        }
        let w = self.width >> mip;
        let h = self.height >> mip;
        MipExtent {
            width: if w == 0 {
                1
            } else {
                w
            },
            height: if h == 0 {
                1
            } else {
                h
            },
            depth_or_array_layers: 1,
        }
    }
}

/// Transient resources are recycled only when a previous extent exists and differs from the
/// current one.
pub fn should_clear_resource_pool(previous: Option<(u32, u32)>, current: (u32, u32)) -> (r: bool)
    ensures
        r == (previous is Some && previous->0 != current),
{
    match previous {
        Some(p) => p.0 != current.0 || p.1 != current.1,
        None => false,
    }
}

/// The surface extent of the last frame that was presented successfully.
pub struct SurfaceHistory {
    last: Option<(u32, u32)>,
}

impl SurfaceHistory {
    pub closed spec fn spec_last(&self) -> Option<(u32, u32)> {
        self.last
    }

    pub fn new() -> (r: Self)
        ensures
            r.spec_last() is None,
    {
        SurfaceHistory { last: None }
    }

    /// Whether a frame at `extent` must first recycle the transient resource pool.
    pub fn should_clear(&self, extent: (u32, u32)) -> (r: bool)
        ensures
            r == (self.spec_last() is Some && self.spec_last()->0 != extent),
    {
        should_clear_resource_pool(self.last, extent)
    }

    /// Records how a frame at `extent` ended; only a presented frame moves the history on.
    pub fn finish(&mut self, extent: (u32, u32), presented: bool)
        ensures
            final(self).spec_last() == if presented {
                Some(extent)
            } else {
                old(self).spec_last()
            },
    {
        if presented {
            self.last = Some(extent);
        }
    }
}

/// Whether coarse culling results are cleared before the raster backend runs: exactly when
/// occlusion culling re-runs the cull against the current frame's depth.
pub fn clear_coarse_results_before_backend(backend: MeshletBackend, enable_occlusion_culling: bool) -> (r:
    bool)
    ensures
        r == enable_occlusion_culling,
{
    enable_occlusion_culling
}

/// Whether the final compute cull runs; every backend either reuses the coarse visibility or runs
/// the same final cull.
pub fn record_final_compute_cull(backend: MeshletBackend, enable_occlusion_culling: bool) -> (r:
    bool)
    ensures
        r == enable_occlusion_culling,
{
    enable_occlusion_culling
}

/// The texture and sampler slot of one material channel.
#[derive(Clone, Copy, Debug, PartialEq, Eq)]
pub struct MaterialTextureBinding {
    pub texture_id: u32,
    pub sampler_id: u32,
}

/// The texture channels of a material.
#[derive(Clone, Copy, Debug, PartialEq, Eq)]
pub struct MaterialBindings {
    pub albedo: MaterialTextureBinding,
    pub emissive: MaterialTextureBinding,
    pub occlusion: MaterialTextureBinding,
}

/// Device limits that bound a launch's dimensions.
#[derive(Clone, Copy, Debug, PartialEq, Eq)]
pub struct DispatchDimensionLimits {
    pub max_compute_workgroups_per_dimension: u32,
    pub max_mesh_workgroups_per_dimension: u32,
    pub max_task_workgroups_per_dimension: u32,
}

/// Sizes of the GPU records, in bytes.
pub const GPU_VERTEX_SIZE: u64 = 32;
pub const GPU_MESH_RECORD_SIZE: u64 = 32;
pub const GPU_LOD_RECORD_SIZE: u64 = 32;
pub const GPU_MESHLET_RECORD_SIZE: u64 = 64;
pub const INSTANCE_SIZE: u64 = 80;
pub const MATERIAL_SIZE: u64 = 64;
pub const INSTANCE_CLASSIFICATION_SIZE: u64 = 16;
pub const CANDIDATE_WORK_SIZE: u64 = 16;
pub const VISIBLE_MESHLET_WORK_SIZE: u64 = 16;
pub const DRAW_INDEXED_INDIRECT_ARGS_SIZE: u64 = 20;
pub const GPU_COUNTERS_SIZE: u64 = 128;
pub const BACKEND_WORK_COUNTS_SIZE: u64 = 16;
pub const DISPATCH_INDIRECT_ARGS_SIZE: u64 = 12;
/// Fallback texture slots reserved ahead of user textures.
pub const RESERVED_FALLBACK_COUNT: u32 = 4;

/// Errors of the checks made before GPU resources are created.
#[derive(Debug)]
pub enum MeshletRendererError {
    InvalidConfig(MeshletConfigError),
    InvalidAsset(MeshletAssetError),
    Bindless(BindlessTextureError),
    UnsupportedWgpuBackend { actual: AdapterBackend },
    RequirementsConfigMismatch,
    UnresolvedBackend,
    BackendMismatch { configured: MeshletBackend, requested: MeshletBackend },
    DeviceMissingFeatures { missing: MeshletFeatures },
    DeviceLimitsMismatch,
    ForeignPreparedFrame,
    StalePreparedFrame,
    BufferSizeOverflow,
    BufferLimitExceeded {
        buffer: &'static str,
        required: u64,
        max_buffer_size: u64,
        max_storage_binding_size: u64,
    },
    UnsupportedAssetBuild { vertices: u32, triangles: u32, task_workgroup_meshlets: u32 },
    InstanceCapacityExceeded { actual: usize, capacity: u32 },
    TextureCapacityExceeded { actual: usize, capacity: u32 },
    SamplerCapacityExceeded { actual: usize, capacity: u32 },
    InvalidMaterialTexture {
        material: usize,
        slot: &'static str,
        texture_id: u32,
        texture_count: usize,
    },
    InvalidMaterialSampler {
        material: usize,
        slot: &'static str,
        sampler_id: u32,
        sampler_count: usize,
    },
    InstanceDispatchExceeded { groups: u64, max_dimension: u32 },
    InvalidInstanceMesh { instance: usize, mesh_id: u32, mesh_count: usize },
    InvalidInstanceMaterial { instance: usize, material_id: u32, material_count: usize },
    InvalidInstanceTransform { instance: usize },
}

/// The byte size of `count` records of `element_size` bytes, at least four.
pub fn count_bytes(count: u64, element_size: u64) -> (r: Result<u64, MeshletRendererError>)
    ensures
        count * element_size <= u64::MAX ==> (r matches Ok(v) && v == if count * element_size >= 4 {
            count * element_size
        } else {
            4
        }),
        count * element_size > u64::MAX ==> r matches Err(MeshletRendererError::BufferSizeOverflow),
{
    match count.checked_mul(element_size) {
        Some(size) => Ok(
            if size >= 4 {
                size
            } else {
                4
            },
        ),
        None => Err(MeshletRendererError::BufferSizeOverflow),
    }
}

/// [`count_bytes`] for a host-side length.
pub fn element_bytes(count: usize, element_size: u64) -> (r: Result<u64, MeshletRendererError>)
    ensures
        count * element_size <= u64::MAX ==> (r matches Ok(v) && v == if count * element_size >= 4 {
            count * element_size
        } else {
            4
        }),
        count * element_size > u64::MAX ==> r matches Err(MeshletRendererError::BufferSizeOverflow),
{
    if count as u128 > u64::MAX as u128 {
        proof {
            assert(count * element_size > u64::MAX || element_size == 0) by (nonlinear_arith)
                requires
                    count > u64::MAX,
            ;
        }
        if element_size == 0 {
            return Ok(4);
        }
        return Err(MeshletRendererError::BufferSizeOverflow);
    }
    count_bytes(count as u64, element_size)
}

/// The renderer's shaders are compiled for 64-vertex, 64-triangle meshlets and 32-meshlet task
/// workgroups; an asset built otherwise is refused.
pub fn validate_asset_shader_contract(build: MeshletBuildConfig) -> (r: Result<
    (),
    MeshletRendererError,
>)
    ensures
        (build.max_meshlet_vertices == MESHLET_MAX_VERTICES && build.max_meshlet_triangles
            == MESHLET_MAX_TRIANGLES && build.task_workgroup_meshlets
            == TASK_PACKET_MESHLET_COUNT) <==> r is Ok,
        r is Err ==> r->Err_0 == (MeshletRendererError::UnsupportedAssetBuild {
            vertices: build.max_meshlet_vertices,
            triangles: build.max_meshlet_triangles,
            task_workgroup_meshlets: build.task_workgroup_meshlets,
        }),
{
    if build.max_meshlet_vertices != MESHLET_MAX_VERTICES || build.max_meshlet_triangles
        != MESHLET_MAX_TRIANGLES || build.task_workgroup_meshlets != TASK_PACKET_MESHLET_COUNT {
        return Err(
            MeshletRendererError::UnsupportedAssetBuild {
                vertices: build.max_meshlet_vertices,
                triangles: build.max_meshlet_triangles,
                task_workgroup_meshlets: build.task_workgroup_meshlets,
            },
        );
    }
    Ok(())
}

/// The largest launch dimension every stage of a backend accepts: the compute limit, also capped
/// by the mesh and task limits when the backend runs those stages; a zero limit counts as one.
pub fn backend_dispatch_limit(limits: DispatchDimensionLimits, backend: MeshletBackend) -> (r: u32)
    ensures
        r >= 1,
        r <= max_u32(limits.max_compute_workgroups_per_dimension, 1),
        (backend == MeshletBackend::MeshOnly || backend == MeshletBackend::TaskMesh) ==> r <= max_u32(
            limits.max_mesh_workgroups_per_dimension,
            1,
        ),
        backend == MeshletBackend::TaskMesh ==> r <= max_u32(
            limits.max_task_workgroups_per_dimension,
            1,
        ),
        r == max_u32(limits.max_compute_workgroups_per_dimension, 1) || (
        (backend == MeshletBackend::MeshOnly || backend == MeshletBackend::TaskMesh) && r == max_u32(
            limits.max_mesh_workgroups_per_dimension,
            1,
        )) || (backend == MeshletBackend::TaskMesh && r == max_u32(
            limits.max_task_workgroups_per_dimension,
            1,
        )),
{
    let compute = if limits.max_compute_workgroups_per_dimension == 0 {
        1
    } else {
        limits.max_compute_workgroups_per_dimension
    };
    let mut maximum = compute;
    if backend.uses_mesh_shaders() {
        let mesh = if limits.max_mesh_workgroups_per_dimension == 0 {
            1
        } else {
            limits.max_mesh_workgroups_per_dimension
        };
        if mesh < maximum {
            maximum = mesh;
        }
    }
    if backend.uses_task_shaders() {
        let task = if limits.max_task_workgroups_per_dimension == 0 {
            1
        } else {
            limits.max_task_workgroups_per_dimension
        };
        if task < maximum {
            maximum = task;
        }
    }
    maximum
}

/// The byte size [`count_bytes`] gives: `None` when it overflows.
pub open spec fn spec_count_bytes(count: int, element_size: int) -> Option<int> {
    if count * element_size > u64::MAX {
        None
    } else if count * element_size >= 4 {
        Some(count * element_size)
    } else {
        Some(4)
    }
}

/// Stream lengths of the scene to upload.
#[derive(Clone, Copy, Debug, PartialEq, Eq)]
pub struct SceneStreamCounts {
    pub vertices: usize,
    pub meshes: usize,
    pub lods: usize,
    pub meshlets: usize,
    pub meshlet_vertex_refs: usize,
    pub micro_indices: usize,
    pub fallback_indices: usize,
    pub instances: usize,
    pub materials: usize,
}

/// The byte size of every storage buffer the renderer creates, in creation order.
pub open spec fn buffer_requirements(scene: SceneStreamCounts, capacities: MeshletCapacityConfig) -> Seq<Option<int>> {
    seq![
        spec_count_bytes(scene.vertices as int, 32),
        spec_count_bytes(scene.meshes as int, 32),
        spec_count_bytes(scene.lods as int, 32),
        spec_count_bytes(scene.meshlets as int, 64),
        spec_count_bytes(scene.meshlet_vertex_refs as int, 4),
        spec_count_bytes(scene.micro_indices as int, 4),
        spec_count_bytes(scene.fallback_indices as int, 4),
        spec_count_bytes(scene.instances as int, 80),
        spec_count_bytes(scene.materials as int, 64),
        spec_count_bytes(capacities.max_instances as int, 16),
        spec_count_bytes(ceil_div(capacities.max_instances as int, 256), 4),
        spec_count_bytes(capacities.max_instances as int, 4),
        spec_count_bytes(capacities.max_candidate_meshlets as int, 16),
        spec_count_bytes(capacities.max_visible_meshlets as int, 16),
        spec_count_bytes(capacities.max_indirect_draws_per_bin as int * 2, 20),
        spec_count_bytes(1, 128),
        spec_count_bytes(1, 16),
        spec_count_bytes(2, 12),
        spec_count_bytes(2, 12),
        spec_count_bytes(1, 12),
    ]
}

/// The label of each storage buffer, in creation order.
pub open spec fn buffer_name(i: int) -> &'static str {
    if i == 0 {
        "vertices"
    } else if i == 1 {
        "meshes"
    } else if i == 2 {
        "lods"
    } else if i == 3 {
        "meshlets"
    } else if i == 4 {
        "meshlet vertex references"
    } else if i == 5 {
        "expanded micro-indices"
    } else if i == 6 {
        "fallback indices"
    } else if i == 7 {
        "instances"
    } else if i == 8 {
        "materials"
    } else if i == 9 {
        "instance classifications"
    } else if i == 10 {
        "prefix scan block sums"
    } else if i == 11 {
        "LOD history"
    } else if i == 12 {
        "candidate work"
    } else if i == 13 {
        "visible work"
    } else if i == 14 {
        "indexed indirect arguments"
    } else if i == 15 {
        "counters"
    } else if i == 16 {
        "backend work counts"
    } else if i == 17 {
        "mesh dispatch arguments"
    } else if i == 18 {
        "task dispatch arguments"
    } else {
        "candidate dispatch arguments"
    }
}

/// The byte size of every storage buffer the renderer creates, in creation order (as in
/// [`buffer_requirements`]); `None` when a size does not fit in `u64`.
pub fn gpu_buffer_sizes(scene: SceneStreamCounts, capacities: MeshletCapacityConfig) -> (r: Option<
    Vec<u64>,
>)
    ensures
        r is Some <==> forall|i: int| 0 <= i < 20 ==> #[trigger] buffer_requirements(scene, capacities)[i] is Some,
        r matches Some(v) ==> v@.len() == 20 && forall|i: int|
            0 <= i < 20 ==> v@[i] == #[trigger] buffer_requirements(scene, capacities)[i]->0,
{
    let ghost reqs = buffer_requirements(scene, capacities);
    let blocks = crate::gpu_types::prefix_scan_block_count(capacities.max_instances);
    let draws = capacities.max_indirect_draws_per_bin as u64 * 2;
    let mut sizes: Vec<u64> = Vec::new();
    match element_bytes(scene.vertices, 32) {
        Ok(v) => sizes.push(v),
        Err(_) => {
            return None;
        },
    }
    assert(sizes@[0] == reqs[0]->0);
    match element_bytes(scene.meshes, 32) {
        Ok(v) => sizes.push(v),
        Err(_) => {
            return None;
        },
    }
    assert(sizes@[1] == reqs[1]->0);
    match element_bytes(scene.lods, 32) {
        Ok(v) => sizes.push(v),
        Err(_) => {
            return None;
        },
    }
    assert(sizes@[2] == reqs[2]->0);
    match element_bytes(scene.meshlets, 64) {
        Ok(v) => sizes.push(v),
        Err(_) => {
            return None;
        },
    }
    assert(sizes@[3] == reqs[3]->0);
    match element_bytes(scene.meshlet_vertex_refs, 4) {
        Ok(v) => sizes.push(v),
        Err(_) => {
            return None;
        },
    }
    assert(sizes@[4] == reqs[4]->0);
    match element_bytes(scene.micro_indices, 4) {
        Ok(v) => sizes.push(v),
        Err(_) => {
            return None;
        },
    }
    assert(sizes@[5] == reqs[5]->0);
    match element_bytes(scene.fallback_indices, 4) {
        Ok(v) => sizes.push(v),
        Err(_) => {
            return None;
        },
    }
    assert(sizes@[6] == reqs[6]->0);
    match element_bytes(scene.instances, 80) {
        Ok(v) => sizes.push(v),
        Err(_) => {
            return None;
        },
    }
    assert(sizes@[7] == reqs[7]->0);
    match element_bytes(scene.materials, 64) {
        Ok(v) => sizes.push(v),
        Err(_) => {
            return None;
        },
    }
    assert(sizes@[8] == reqs[8]->0);
    match count_bytes(capacities.max_instances as u64, 16) {
        Ok(v) => sizes.push(v),
        Err(_) => {
            return None;
        },
    }
    assert(sizes@[9] == reqs[9]->0);
    match count_bytes(blocks as u64, 4) {
        Ok(v) => sizes.push(v),
        Err(_) => {
            return None;
        },
    }
    assert(sizes@[10] == reqs[10]->0);
    match count_bytes(capacities.max_instances as u64, 4) {
        Ok(v) => sizes.push(v),
        Err(_) => {
            return None;
        },
    }
    assert(sizes@[11] == reqs[11]->0);
    match count_bytes(capacities.max_candidate_meshlets as u64, 16) {
        Ok(v) => sizes.push(v),
        Err(_) => {
            return None;
        },
    }
    assert(sizes@[12] == reqs[12]->0);
    match count_bytes(capacities.max_visible_meshlets as u64, 16) {
        Ok(v) => sizes.push(v),
        Err(_) => {
            return None;
        },
    }
    assert(sizes@[13] == reqs[13]->0);
    match count_bytes(draws, 20) {
        Ok(v) => sizes.push(v),
        Err(_) => {
            return None;
        },
    }
    assert(sizes@[14] == reqs[14]->0);
    match count_bytes(1, 128) {
        Ok(v) => sizes.push(v),
        Err(_) => {
            return None;
        },
    }
    assert(sizes@[15] == reqs[15]->0);
    match count_bytes(1, 16) {
        Ok(v) => sizes.push(v),
        Err(_) => {
            return None;
        },
    }
    assert(sizes@[16] == reqs[16]->0);
    match count_bytes(2, 12) {
        Ok(v) => sizes.push(v),
        Err(_) => {
            return None;
        },
    }
    assert(sizes@[17] == reqs[17]->0);
    match count_bytes(2, 12) {
        Ok(v) => sizes.push(v),
        Err(_) => {
            return None;
        },
    }
    assert(sizes@[18] == reqs[18]->0);
    match count_bytes(1, 12) {
        Ok(v) => sizes.push(v),
        Err(_) => {
            return None;
        },
    }
    assert(sizes@[19] == reqs[19]->0);
    assert forall|i: int| 0 <= i < 20 implies #[trigger] buffer_requirements(scene, capacities)[i] is Some
        && sizes@[i] == buffer_requirements(scene, capacities)[i]->0 by {
        assert(reqs == buffer_requirements(scene, capacities));
    }
    Some(sizes)
}

/// A buffer's requirement is met.
pub open spec fn buffer_fits(req: Option<int>, max_buffer_size: u64, max_storage_binding_size: u64) -> bool {
    req matches Some(v) && v <= max_buffer_size && v <= max_storage_binding_size
}

/// One buffer's check: an overflowing size, or one above either limit, is refused.
fn check_buffer(
    buffer: &'static str,
    required: Result<u64, MeshletRendererError>,
    max_buffer_size: u64,
    max_storage_binding_size: u64,
    Ghost(req): Ghost<Option<int>>,
) -> (r: Result<(), MeshletRendererError>)
    requires
        req is None ==> required matches Err(MeshletRendererError::BufferSizeOverflow),
        req is Some ==> (required matches Ok(w) && w == req->0),
    ensures
        r is Ok <==> buffer_fits(req, max_buffer_size, max_storage_binding_size),
        req is None ==> r matches Err(MeshletRendererError::BufferSizeOverflow),
        req is Some && !buffer_fits(req, max_buffer_size, max_storage_binding_size) ==> (
        r matches Err(MeshletRendererError::BufferLimitExceeded { buffer: n, required: w, max_buffer_size: a, max_storage_binding_size: b })
            && n == buffer && w == req->0 && a == max_buffer_size && b == max_storage_binding_size),
{
    let required = required?;
    if required > max_buffer_size || required > max_storage_binding_size {
        return Err(
            MeshletRendererError::BufferLimitExceeded {
                buffer,
                required,
                max_buffer_size,
                max_storage_binding_size,
            },
        );
    }
    Ok(())
}

/// Every storage buffer of the scene and its work queues fits the device's buffer and binding
/// limits; the first that does not, in creation order, is reported.
pub fn validate_gpu_buffer_limits(
    scene: SceneStreamCounts,
    capacities: MeshletCapacityConfig,
    max_buffer_size: u64,
    max_storage_binding_size: u64,
) -> (r: Result<(), MeshletRendererError>)
    ensures
        r is Ok <==> forall|i: int|
            0 <= i < 20 ==> buffer_fits(
                #[trigger] buffer_requirements(scene, capacities)[i],
                max_buffer_size,
                max_storage_binding_size,
            ),
        r is Err ==> exists|i: int|
            0 <= i < 20 && (forall|j: int|
                0 <= j < i ==> buffer_fits(
                    #[trigger] buffer_requirements(scene, capacities)[j],
                    max_buffer_size,
                    max_storage_binding_size,
                )) && !buffer_fits(
                buffer_requirements(scene, capacities)[i],
                max_buffer_size,
                max_storage_binding_size,
            ) && (buffer_requirements(scene, capacities)[i] is None ==> r matches Err(
                MeshletRendererError::BufferSizeOverflow,
            )) && (buffer_requirements(scene, capacities)[i] matches Some(v) ==> (r matches Err(
                MeshletRendererError::BufferLimitExceeded {
                    buffer: n,
                    required: w,
                    max_buffer_size: a,
                    max_storage_binding_size: c,
                },
            ) && n == buffer_name(i) && w == v && a == max_buffer_size && c == max_storage_binding_size)),
{
    let ghost reqs = buffer_requirements(scene, capacities);
    let mb = max_buffer_size;
    let ms = max_storage_binding_size;
    let blocks = crate::gpu_types::prefix_scan_block_count(capacities.max_instances);
    let draws = capacities.max_indirect_draws_per_bin as u64 * 2;
    check_buffer("vertices", element_bytes(scene.vertices, 32), mb, ms, Ghost(reqs[0]))?;
    check_buffer("meshes", element_bytes(scene.meshes, 32), mb, ms, Ghost(reqs[1]))?;
    check_buffer("lods", element_bytes(scene.lods, 32), mb, ms, Ghost(reqs[2]))?;
    check_buffer("meshlets", element_bytes(scene.meshlets, 64), mb, ms, Ghost(reqs[3]))?;
    check_buffer(
        "meshlet vertex references",
        element_bytes(scene.meshlet_vertex_refs, 4),
        mb,
        ms,
        Ghost(reqs[4]),
    )?;
    check_buffer(
        "expanded micro-indices",
        element_bytes(scene.micro_indices, 4),
        mb,
        ms,
        Ghost(reqs[5]),
    )?;
    check_buffer(
        "fallback indices",
        element_bytes(scene.fallback_indices, 4),
        mb,
        ms,
        Ghost(reqs[6]),
    )?;
    check_buffer("instances", element_bytes(scene.instances, 80), mb, ms, Ghost(reqs[7]))?;
    check_buffer("materials", element_bytes(scene.materials, 64), mb, ms, Ghost(reqs[8]))?;
    check_buffer(
        "instance classifications",
        count_bytes(capacities.max_instances as u64, 16),
        mb,
        ms,
        Ghost(reqs[9]),
    )?;
    check_buffer(
        "prefix scan block sums",
        count_bytes(blocks as u64, 4),
        mb,
        ms,
        Ghost(reqs[10]),
    )?;
    check_buffer(
        "LOD history",
        count_bytes(capacities.max_instances as u64, 4),
        mb,
        ms,
        Ghost(reqs[11]),
    )?;
    check_buffer(
        "candidate work",
        count_bytes(capacities.max_candidate_meshlets as u64, 16),
        mb,
        ms,
        Ghost(reqs[12]),
    )?;
    check_buffer(
        "visible work",
        count_bytes(capacities.max_visible_meshlets as u64, 16),
        mb,
        ms,
        Ghost(reqs[13]),
    )?;
    check_buffer(
        "indexed indirect arguments",
        count_bytes(draws, 20),
        mb,
        ms,
        Ghost(reqs[14]),
    )?;
    check_buffer("counters", count_bytes(1, 128), mb, ms, Ghost(reqs[15]))?;
    check_buffer("backend work counts", count_bytes(1, 16), mb, ms, Ghost(reqs[16]))?;
    check_buffer("mesh dispatch arguments", count_bytes(2, 12), mb, ms, Ghost(reqs[17]))?;
    check_buffer("task dispatch arguments", count_bytes(2, 12), mb, ms, Ghost(reqs[18]))?;
    check_buffer("candidate dispatch arguments", count_bytes(1, 12), mb, ms, Ghost(reqs[19]))?;
    Ok(())
}

/// A channel refers to an existing texture and sampler; with none supplied, to the fallback.
pub open spec fn binding_error(
    b: MaterialTextureBinding,
    material: int,
    slot: &'static str,
    texture_count: usize,
    sampler_count: usize,
) -> Option<MeshletRendererError> {
    let tc = if texture_count == 0 {
        1
    } else {
        texture_count
    };
    let sc = if sampler_count == 0 {
        1
    } else {
        sampler_count
    };
    if b.texture_id >= tc {
        Some(
            MeshletRendererError::InvalidMaterialTexture {
                material: material as usize,
                slot,
                texture_id: b.texture_id,
                texture_count: tc,
            },
        )
    } else if b.sampler_id >= sc {
        Some(
            MeshletRendererError::InvalidMaterialSampler {
                material: material as usize,
                slot,
                sampler_id: b.sampler_id,
                sampler_count: sc,
            },
        )
    } else {
        None
    }
}

/// The first problem of a material, channel by channel.
pub open spec fn material_error(m: MaterialBindings, material: int, texture_count: usize, sampler_count: usize) -> Option<MeshletRendererError> {
    if binding_error(m.albedo, material, "albedo", texture_count, sampler_count) is Some {
        binding_error(m.albedo, material, "albedo", texture_count, sampler_count)
    } else if binding_error(m.emissive, material, "emissive", texture_count, sampler_count) is Some {
        binding_error(m.emissive, material, "emissive", texture_count, sampler_count)
    } else {
        binding_error(m.occlusion, material, "occlusion", texture_count, sampler_count)
    }
}

fn check_binding(
    b: MaterialTextureBinding,
    material: usize,
    slot: &'static str,
    texture_count: usize,
    sampler_count: usize,
) -> (r: Result<(), MeshletRendererError>)
    ensures
        r is Ok <==> binding_error(b, material as int, slot, texture_count, sampler_count) is None,
        r is Err ==> Some(r->Err_0) == binding_error(
            b,
            material as int,
            slot,
            texture_count,
            sampler_count,
        ),
{
    let tc = if texture_count == 0 {
        1
    } else {
        texture_count
    };
    let sc = if sampler_count == 0 {
        1
    } else {
        sampler_count
    };
    if b.texture_id as usize >= tc {
        return Err(
            MeshletRendererError::InvalidMaterialTexture {
                material,
                slot,
                texture_id: b.texture_id,
                texture_count: tc,
            },
        );
    }
    if b.sampler_id as usize >= sc {
        return Err(
            MeshletRendererError::InvalidMaterialSampler {
                material,
                slot,
                sampler_id: b.sampler_id,
                sampler_count: sc,
            },
        );
    }
    Ok(())
}

/// Every material channel names a texture and a sampler that exist (the fallback when none are
/// supplied); the first that does not, by material then channel, is reported.
pub fn validate_material_resources(materials: &[MaterialBindings], texture_count: usize, sampler_count: usize) -> (r: Result<(), MeshletRendererError>)
    ensures
        r is Ok <==> forall|k: int|
            0 <= k < materials@.len() ==> material_error(
                #[trigger] materials@[k],
                k,
                texture_count,
                sampler_count,
            ) is None,
        r is Err ==> exists|k: int|
            0 <= k < materials@.len() && (forall|j: int|
                0 <= j < k ==> material_error(
                    #[trigger] materials@[j],
                    j,
                    texture_count,
                    sampler_count,
                ) is None) && Some(r->Err_0) == material_error(
                materials@[k],
                k,
                texture_count,
                sampler_count,
            ),
{
    let mut k: usize = 0;
    while k < materials.len()
        invariant
            k <= materials@.len(),
            forall|j: int|
                0 <= j < k ==> material_error(
                    #[trigger] materials@[j],
                    j,
                    texture_count,
                    sampler_count,
                ) is None,
        decreases materials@.len() - k,
    {
        let m = materials[k];
        check_binding(m.albedo, k, "albedo", texture_count, sampler_count)?;
        check_binding(m.emissive, k, "emissive", texture_count, sampler_count)?;
        check_binding(m.occlusion, k, "occlusion", texture_count, sampler_count)?;
        k = k + 1;
    }
    Ok(())
}

} // verus!

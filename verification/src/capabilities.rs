//! Adapter capabilities and the device request of the Vulkan-only meshlet renderer: which backend
//! an adapter can run, how `Auto` resolves, and the features, limits and bindless table sizes to
//! request.

use vstd::prelude::*;

use crate::config::{
    spec_benchmark_approves, spec_renderer_config_check, MeshletBackend, MeshletConfigError,
    MeshletRendererConfig, MESHLET_FALLBACK_SAMPLER_SLOTS, MESHLET_FALLBACK_TEXTURE_SLOTS,
    MESHLET_MAX_TRIANGLES, MESHLET_MAX_VERTICES, TASK_PACKET_MESHLET_COUNT,
};
use crate::driver::{first_denial, MeshletDriverBlacklist, MeshletDriverBlacklistEntry, MeshletDriverKey};
use vstd::string::StringExecFns;

verus! {

/// Threads of one mesh workgroup: one per output vertex or primitive, whichever is more.
pub const MESH_WORKGROUP_INVOCATIONS: u32 = 64;
/// Bytes of task payload per candidate meshlet.
pub const TASK_PAYLOAD_WORK_BYTES: u32 = 16;
/// Bytes of one task payload.
pub const TASK_PAYLOAD_BYTES: u32 = 512;

/// The graphics API an adapter runs on.
#[derive(Clone, Copy, Debug, PartialEq, Eq, Structural)]
pub enum AdapterBackend {
    Noop,
    Vulkan,
    Metal,
    Dx12,
    Gl,
    BrowserWebGpu,
}

/// The device features the meshlet renderer may need.
#[derive(Clone, Copy, Debug, PartialEq, Eq, Structural, Default)]
pub struct MeshletFeatures {
    pub texture_binding_array: bool,
    pub partially_bound_binding_array: bool,
    pub sampled_texture_and_storage_buffer_array_non_uniform_indexing: bool,
    pub multi_draw_indirect_count: bool,
    pub indirect_first_instance: bool,
    pub experimental_mesh_shader: bool,
}

impl MeshletFeatures {
    /// No feature.
    pub fn empty() -> (r: Self)
        ensures
            r.spec_is_empty(),
    {
        MeshletFeatures {
            texture_binding_array: false,
            partially_bound_binding_array: false,
            sampled_texture_and_storage_buffer_array_non_uniform_indexing: false,
            multi_draw_indirect_count: false,
            indirect_first_instance: false,
            experimental_mesh_shader: false,
        }
    }

    pub open spec fn spec_is_empty(self) -> bool {
        !self.texture_binding_array && !self.partially_bound_binding_array
            && !self.sampled_texture_and_storage_buffer_array_non_uniform_indexing
            && !self.multi_draw_indirect_count && !self.indirect_first_instance
            && !self.experimental_mesh_shader
    }

    pub fn is_empty(self) -> (r: bool)
        ensures
            r == self.spec_is_empty(),
    {
        !self.texture_binding_array && !self.partially_bound_binding_array
            && !self.sampled_texture_and_storage_buffer_array_non_uniform_indexing
            && !self.multi_draw_indirect_count && !self.indirect_first_instance
            && !self.experimental_mesh_shader
    }

    pub open spec fn spec_difference(self, other: Self) -> Self {
        MeshletFeatures {
            texture_binding_array: self.texture_binding_array && !other.texture_binding_array,
            partially_bound_binding_array: self.partially_bound_binding_array
                && !other.partially_bound_binding_array,
            sampled_texture_and_storage_buffer_array_non_uniform_indexing:
                self.sampled_texture_and_storage_buffer_array_non_uniform_indexing
                && !other.sampled_texture_and_storage_buffer_array_non_uniform_indexing,
            multi_draw_indirect_count: self.multi_draw_indirect_count
                && !other.multi_draw_indirect_count,
            indirect_first_instance: self.indirect_first_instance
                && !other.indirect_first_instance,
            experimental_mesh_shader: self.experimental_mesh_shader
                && !other.experimental_mesh_shader,
        }
    }

    /// The features of `self` that `other` lacks.
    pub fn difference(self, other: Self) -> (r: Self)
        ensures
            r == self.spec_difference(other),
    {
        MeshletFeatures {
            texture_binding_array: self.texture_binding_array && !other.texture_binding_array,
            partially_bound_binding_array: self.partially_bound_binding_array
                && !other.partially_bound_binding_array,
            sampled_texture_and_storage_buffer_array_non_uniform_indexing:
                self.sampled_texture_and_storage_buffer_array_non_uniform_indexing
                && !other.sampled_texture_and_storage_buffer_array_non_uniform_indexing,
            multi_draw_indirect_count: self.multi_draw_indirect_count
                && !other.multi_draw_indirect_count,
            indirect_first_instance: self.indirect_first_instance
                && !other.indirect_first_instance,
            experimental_mesh_shader: self.experimental_mesh_shader
                && !other.experimental_mesh_shader,
        }
    }

    /// Every feature of `other` is in `self`.
    pub open spec fn spec_contains(self, other: Self) -> bool {
        other.spec_difference(self).spec_is_empty()
    }

    pub fn contains(self, other: Self) -> (r: bool)
        ensures
            r == self.spec_contains(other),
    {
        other.difference(self).is_empty()
    }
}

/// The downlevel capabilities the meshlet renderer may need.
#[derive(Clone, Copy, Debug, PartialEq, Eq, Structural, Default)]
pub struct MeshletDownlevelFlags {
    pub indirect_execution: bool,
}

/// The adapter limits the meshlet renderer reads.
#[derive(Clone, Copy, Debug, PartialEq, Eq, Structural, Default)]
pub struct MeshletLimits {
    pub max_binding_array_elements_per_shader_stage: u32,
    pub max_binding_array_sampler_elements_per_shader_stage: u32,
    pub max_storage_buffer_binding_size: u64,
    pub max_buffer_size: u64,
    pub max_mesh_workgroup_total_count: u32,
    pub max_mesh_workgroups_per_dimension: u32,
    pub max_mesh_invocations_per_workgroup: u32,
    pub max_mesh_invocations_per_dimension: u32,
    pub max_mesh_output_vertices: u32,
    pub max_mesh_output_primitives: u32,
    pub max_task_workgroup_total_count: u32,
    pub max_task_workgroups_per_dimension: u32,
    pub max_task_invocations_per_workgroup: u32,
    pub max_task_invocations_per_dimension: u32,
    pub max_task_payload_size: u32,
}

/// Mesh-stage limits requested from the device.
#[derive(Clone, Copy, Debug, PartialEq, Eq, Structural)]
pub struct MeshletMeshLimitRequest {
    pub max_mesh_workgroup_total_count: u32,
    pub max_mesh_workgroups_per_dimension: u32,
    pub max_mesh_invocations_per_workgroup: u32,
    pub max_mesh_invocations_per_dimension: u32,
    pub max_mesh_output_vertices: u32,
    pub max_mesh_output_primitives: u32,
}

/// Task-stage limits requested from the device.
#[derive(Clone, Copy, Debug, PartialEq, Eq, Structural)]
pub struct MeshletTaskLimitRequest {
    pub max_task_workgroup_total_count: u32,
    pub max_task_workgroups_per_dimension: u32,
    pub max_task_invocations_per_workgroup: u32,
    pub max_task_invocations_per_dimension: u32,
    pub max_task_payload_size: u32,
}

/// The limits to request from the device; every limit not named keeps the API's default.
#[derive(Clone, Copy, Debug, PartialEq, Eq, Structural)]
pub struct MeshletLimitRequest {
    pub max_binding_array_elements_per_shader_stage: u32,
    pub max_binding_array_sampler_elements_per_shader_stage: u32,
    pub max_storage_buffer_binding_size: u64,
    pub max_buffer_size: u64,
    pub mesh: Option<MeshletMeshLimitRequest>,
    pub task: Option<MeshletTaskLimitRequest>,
}

/// Effective fixed-table sizes after clamping the renderer request to adapter limits.
#[derive(Clone, Copy, Debug, PartialEq, Eq, Structural)]
pub struct MeshletBindlessCapacity {
    pub textures: u32,
    pub samplers: u32,
}

/// One failed numeric adapter-limit requirement.
#[derive(Clone, Copy, Debug, PartialEq, Eq)]
pub struct MeshletLimitFailure {
    pub name: &'static str,
    pub required: u32,
    pub supported: u32,
}

/// Capability or device-request failure for the Vulkan-only renderer.
#[derive(Clone, Debug, PartialEq, Eq)]
pub enum MeshletCapabilityError {
    InvalidConfig(MeshletConfigError),
    UnsupportedWgpuBackend { actual: AdapterBackend },
    BlacklistedDriver { key: MeshletDriverKey, backend: MeshletBackend, reason: String },
    UnresolvedBackend,
    MissingFeatures { backend: MeshletBackend, missing: MeshletFeatures },
    MissingDownlevelFlags { backend: MeshletBackend, missing: MeshletDownlevelFlags },
    InsufficientLimits { backend: MeshletBackend, failures: Vec<MeshletLimitFailure> },
    InsufficientBindlessCapacity { resource: &'static str, supported: u32, required: u32 },
}

impl From<MeshletConfigError> for MeshletCapabilityError {
    fn from(error: MeshletConfigError) -> (r: Self) {
        MeshletCapabilityError::InvalidConfig(error)
    }
}

impl vstd::std_specs::convert::FromSpecImpl<MeshletConfigError> for MeshletCapabilityError {
    open spec fn obeys_from_spec() -> bool {
        true
    }

    open spec fn from_spec(v: MeshletConfigError) -> Self {
        MeshletCapabilityError::InvalidConfig(v)
    }
}

/// The features every concrete backend needs; mesh backends add the mesh-shader feature.
pub open spec fn spec_required_features(backend: MeshletBackend) -> MeshletFeatures {
    MeshletFeatures {
        texture_binding_array: true,
        partially_bound_binding_array: true,
        sampled_texture_and_storage_buffer_array_non_uniform_indexing: true,
        multi_draw_indirect_count: true,
        indirect_first_instance: true,
        experimental_mesh_shader: backend == MeshletBackend::MeshOnly || backend
            == MeshletBackend::TaskMesh,
    }
}

/// One limit check: the limit's name, the required and the supported value.
pub open spec fn limit_check(name: &'static str, required: u32, supported: u32) -> MeshletLimitFailure {
    MeshletLimitFailure { name, required, supported }
}

/// Every numeric limit a backend needs, in the order it is checked.
pub open spec fn limit_checks(backend: MeshletBackend, limits: MeshletLimits) -> Seq<MeshletLimitFailure> {
    let task = backend == MeshletBackend::TaskMesh;
    let dispatch: u32 = if task {
        TASK_PACKET_MESHLET_COUNT
    } else {
        1
    };
    if !(backend == MeshletBackend::MeshOnly || task) {
        Seq::empty()
    } else {
        let mesh = seq![
            limit_check("max_mesh_workgroup_total_count", dispatch, limits.max_mesh_workgroup_total_count),
            limit_check("max_mesh_workgroups_per_dimension", dispatch, limits.max_mesh_workgroups_per_dimension),
            limit_check("max_mesh_invocations_per_workgroup", MESH_WORKGROUP_INVOCATIONS, limits.max_mesh_invocations_per_workgroup),
            limit_check("max_mesh_invocations_per_dimension", MESH_WORKGROUP_INVOCATIONS, limits.max_mesh_invocations_per_dimension),
            limit_check("max_mesh_output_vertices", MESHLET_MAX_VERTICES, limits.max_mesh_output_vertices),
            limit_check("max_mesh_output_primitives", MESHLET_MAX_TRIANGLES, limits.max_mesh_output_primitives),
        ];
        if task {
            mesh + seq![
                limit_check("max_task_workgroup_total_count", 1, limits.max_task_workgroup_total_count),
                limit_check("max_task_workgroups_per_dimension", 1, limits.max_task_workgroups_per_dimension),
                limit_check("max_task_invocations_per_workgroup", TASK_PACKET_MESHLET_COUNT, limits.max_task_invocations_per_workgroup),
                limit_check("max_task_invocations_per_dimension", TASK_PACKET_MESHLET_COUNT, limits.max_task_invocations_per_dimension),
                limit_check("max_task_payload_size", TASK_PAYLOAD_BYTES, limits.max_task_payload_size),
            ]
        } else {
            mesh
        }
    }
}

/// The checks that fail, in order.
pub open spec fn failing(checks: Seq<MeshletLimitFailure>) -> Seq<MeshletLimitFailure>
    decreases checks.len(),
{
    if checks.len() == 0 {
        Seq::empty()
    } else if checks.last().supported < checks.last().required {
        failing(checks.drop_last()).push(checks.last())
    } else {
        failing(checks.drop_last())
    }
}

/// Records a failed limit.
fn check_limit(failures: &mut Vec<MeshletLimitFailure>, name: &'static str, required: u32, supported: u32)
    ensures
        final(failures)@ == old(failures)@ + failing(seq![limit_check(name, required, supported)]),
{
    let ghost c = limit_check(name, required, supported);
    assert(seq![c].drop_last() =~= Seq::<MeshletLimitFailure>::empty());
    assert(seq![c].last() == c);
    assert(failing(Seq::<MeshletLimitFailure>::empty()) =~= Seq::<MeshletLimitFailure>::empty());
    if supported < required {
        failures.push(MeshletLimitFailure { name, required, supported });
        assert(failures@ =~= old(failures)@ + failing(seq![c]));
    } else {
        assert(failures@ =~= old(failures)@ + failing(seq![c]));
    }
}

/// The mesh and task limits a backend needs that the adapter does not meet, in check order.
pub fn mesh_shader_limit_failures(backend: MeshletBackend, limits: &MeshletLimits) -> (r: Vec<
    MeshletLimitFailure,
>)
    ensures
        r@ == failing(limit_checks(backend, *limits)),
{
    let ghost checks = limit_checks(backend, *limits);
    if !backend.uses_mesh_shaders() {
        let r: Vec<MeshletLimitFailure> = Vec::new();
        assert(r@ =~= failing(checks));
        return r;
    }
    let task = backend.uses_task_shaders();
    let dispatch = if task {
        TASK_PACKET_MESHLET_COUNT
    } else {
        1
    };
    let mut failures: Vec<MeshletLimitFailure> = Vec::new();
    check_limit(
        &mut failures,
        "max_mesh_workgroup_total_count",
        dispatch,
        limits.max_mesh_workgroup_total_count,
    );
    check_limit(
        &mut failures,
        "max_mesh_workgroups_per_dimension",
        dispatch,
        limits.max_mesh_workgroups_per_dimension,
    );
    check_limit(
        &mut failures,
        "max_mesh_invocations_per_workgroup",
        MESH_WORKGROUP_INVOCATIONS,
        limits.max_mesh_invocations_per_workgroup,
    );
    check_limit(
        &mut failures,
        "max_mesh_invocations_per_dimension",
        MESH_WORKGROUP_INVOCATIONS,
        limits.max_mesh_invocations_per_dimension,
    );
    check_limit(
        &mut failures,
        "max_mesh_output_vertices",
        MESHLET_MAX_VERTICES,
        limits.max_mesh_output_vertices,
    );
    check_limit(
        &mut failures,
        "max_mesh_output_primitives",
        MESHLET_MAX_TRIANGLES,
        limits.max_mesh_output_primitives,
    );
    if task {
        check_limit(
            &mut failures,
            "max_task_workgroup_total_count",
            1,
            limits.max_task_workgroup_total_count,
        );
        check_limit(
            &mut failures,
            "max_task_workgroups_per_dimension",
            1,
            limits.max_task_workgroups_per_dimension,
        );
        check_limit(
            &mut failures,
            "max_task_invocations_per_workgroup",
            TASK_PACKET_MESHLET_COUNT,
            limits.max_task_invocations_per_workgroup,
        );
        check_limit(
            &mut failures,
            "max_task_invocations_per_dimension",
            TASK_PACKET_MESHLET_COUNT,
            limits.max_task_invocations_per_dimension,
        );
        check_limit(
            &mut failures,
            "max_task_payload_size",
            TASK_PAYLOAD_BYTES,
            limits.max_task_payload_size,
        );
    }
    proof {
        lemma_failing_split(checks);
        let dispatch_needed: u32 = if task {
            TASK_PACKET_MESHLET_COUNT
        } else {
            1
        };
        let c0 = limit_check("max_mesh_workgroup_total_count", dispatch_needed, limits.max_mesh_workgroup_total_count);
        let c1 = limit_check("max_mesh_workgroups_per_dimension", dispatch_needed, limits.max_mesh_workgroups_per_dimension);
        let c2 = limit_check("max_mesh_invocations_per_workgroup", MESH_WORKGROUP_INVOCATIONS, limits.max_mesh_invocations_per_workgroup);
        let c3 = limit_check("max_mesh_invocations_per_dimension", MESH_WORKGROUP_INVOCATIONS, limits.max_mesh_invocations_per_dimension);
        let c4 = limit_check("max_mesh_output_vertices", MESHLET_MAX_VERTICES, limits.max_mesh_output_vertices);
        let c5 = limit_check("max_mesh_output_primitives", MESHLET_MAX_TRIANGLES, limits.max_mesh_output_primitives);
        let mesh = seq![c0, c1, c2, c3, c4, c5];
        assert(mesh =~= seq![c0] + seq![c1] + seq![c2] + seq![c3] + seq![c4] + seq![c5]);
        if task {
            let t0 = limit_check("max_task_workgroup_total_count", 1, limits.max_task_workgroup_total_count);
            let t1 = limit_check("max_task_workgroups_per_dimension", 1, limits.max_task_workgroups_per_dimension);
            let t2 = limit_check("max_task_invocations_per_workgroup", TASK_PACKET_MESHLET_COUNT, limits.max_task_invocations_per_workgroup);
            let t3 = limit_check("max_task_invocations_per_dimension", TASK_PACKET_MESHLET_COUNT, limits.max_task_invocations_per_dimension);
            let t4 = limit_check("max_task_payload_size", TASK_PAYLOAD_BYTES, limits.max_task_payload_size);
            let tasks = seq![t0, t1, t2, t3, t4];
            assert(tasks =~= seq![t0] + seq![t1] + seq![t2] + seq![t3] + seq![t4]);
            assert(checks == mesh + tasks);
        } else {
            assert(checks == mesh);
        }
    }
    failures
}

/// Failing checks of a list are those of its elements one after the other.
proof fn lemma_failing_split(checks: Seq<MeshletLimitFailure>)
    ensures
        forall|a: Seq<MeshletLimitFailure>, b: Seq<MeshletLimitFailure>|
            #[trigger] failing(a + b) == failing(a) + failing(b),
{
    assert forall|a: Seq<MeshletLimitFailure>, b: Seq<MeshletLimitFailure>|
        #[trigger] failing(a + b) == failing(a) + failing(b) by {
        lemma_failing_append(a, b);
    }
}

proof fn lemma_failing_append(a: Seq<MeshletLimitFailure>, b: Seq<MeshletLimitFailure>)
    ensures
        failing(a + b) == failing(a) + failing(b),
    decreases b.len(),
{
    if b.len() == 0 {
        assert(a + b =~= a);
        assert(failing(a) + failing(b) =~= failing(a));
    } else {
        lemma_failing_append(a, b.drop_last());
        assert((a + b).drop_last() =~= a + b.drop_last());
        assert((a + b).last() == b.last());
        if b.last().supported < b.last().required {
            assert(failing(a + b) =~= failing(a) + failing(b));
        } else {
            assert(failing(a + b) =~= failing(a) + failing(b));
        }
    }
}

/// `a - b`, or zero.
pub open spec fn sat_sub(a: u32, b: u32) -> u32 {
    if a >= b {
        (a - b) as u32
    } else {
        0
    }
}

pub open spec fn min_u32(a: u32, b: u32) -> u32 {
    if a <= b {
        a
    } else {
        b
    }
}

/// The bindless table sizes for a configuration on an adapter: samplers first, within the
/// sampler limit and leaving room for the fallback textures, then textures within what remains.
pub open spec fn spec_bindless_capacity(limits: MeshletLimits, config: MeshletRendererConfig) -> Result<
    MeshletBindlessCapacity,
    MeshletCapabilityError,
> {
    let general = limits.max_binding_array_elements_per_shader_stage;
    let sampler_budget = sat_sub(general, MESHLET_FALLBACK_TEXTURE_SLOTS);
    let samplers = min_u32(
        min_u32(config.bindless.max_samplers, limits.max_binding_array_sampler_elements_per_shader_stage),
        sampler_budget,
    );
    let textures = min_u32(config.bindless.max_textures, sat_sub(general, samplers));
    if textures < MESHLET_FALLBACK_TEXTURE_SLOTS {
        Err(
            MeshletCapabilityError::InsufficientBindlessCapacity {
                resource: "textures",
                supported: textures,
                required: MESHLET_FALLBACK_TEXTURE_SLOTS,
            },
        )
    } else if samplers < MESHLET_FALLBACK_SAMPLER_SLOTS {
        Err(
            MeshletCapabilityError::InsufficientBindlessCapacity {
                resource: "samplers",
                supported: samplers,
                required: MESHLET_FALLBACK_SAMPLER_SLOTS,
            },
        )
    } else {
        Ok(MeshletBindlessCapacity { textures, samplers })
    }
}

/// Adapter capabilities relevant to the Vulkan-only meshlet renderer.
#[derive(Clone, Debug, PartialEq, Eq)]
pub struct MeshletCapabilities {
    backend: AdapterBackend,
    features: MeshletFeatures,
    limits: MeshletLimits,
    downlevel_flags: MeshletDownlevelFlags,
    driver_key: MeshletDriverKey,
}

/// A copy of a driver key.
fn copy_key(key: &MeshletDriverKey) -> (r: MeshletDriverKey)
    ensures
        r == *key,
{
    MeshletDriverKey {
        vendor: key.vendor,
        device: key.device,
        driver: key.driver.clone(),
        driver_info: key.driver_info.clone(),
    }
}

/// The resolved backend `Auto` stands for when nothing is profiled.
pub open spec fn concrete_or_indexed(backend: MeshletBackend) -> MeshletBackend {
    if backend == MeshletBackend::Auto {
        MeshletBackend::IndexedIndirect
    } else {
        backend
    }
}

impl MeshletCapabilities {
    pub closed spec fn spec_backend(&self) -> AdapterBackend {
        self.backend
    }

    pub closed spec fn spec_features(&self) -> MeshletFeatures {
        self.features
    }

    pub closed spec fn spec_limits(&self) -> MeshletLimits {
        self.limits
    }

    pub closed spec fn spec_downlevel_flags(&self) -> MeshletDownlevelFlags {
        self.downlevel_flags
    }

    pub closed spec fn spec_driver_key(&self) -> MeshletDriverKey {
        self.driver_key
    }

    /// Capabilities as an adapter reports them.
    pub fn from_adapter_parts(
        backend: AdapterBackend,
        features: MeshletFeatures,
        limits: MeshletLimits,
        downlevel_flags: MeshletDownlevelFlags,
        driver_key: MeshletDriverKey,
    ) -> (r: Self)
        ensures
            r.spec_backend() == backend,
            r.spec_features() == features,
            r.spec_limits() == limits,
            r.spec_downlevel_flags() == downlevel_flags,
            r.spec_driver_key() == driver_key,
    {
        MeshletCapabilities { backend, features, limits, downlevel_flags, driver_key }
    }

    /// Capabilities with indirect execution and an empty driver identity.
    pub fn from_parts(backend: AdapterBackend, features: MeshletFeatures, limits: MeshletLimits) -> (r:
        Self)
        ensures
            r.spec_backend() == backend,
            r.spec_features() == features,
            r.spec_limits() == limits,
            r.spec_downlevel_flags() == (MeshletDownlevelFlags { indirect_execution: true }),
            r.spec_driver_key().vendor == 0 && r.spec_driver_key().device == 0,
            r.spec_driver_key().driver@ == Seq::<char>::empty(),
            r.spec_driver_key().driver_info@ == Seq::<char>::empty(),
    {
        MeshletCapabilities {
            backend,
            features,
            limits,
            downlevel_flags: MeshletDownlevelFlags { indirect_execution: true },
            driver_key: MeshletDriverKey {
                vendor: 0,
                device: 0,
                driver: String::new(),
                driver_info: String::new(),
            },
        }
    }

    /// Capabilities with explicit downlevel flags and an empty driver identity.
    pub fn from_parts_with_downlevel(
        backend: AdapterBackend,
        features: MeshletFeatures,
        limits: MeshletLimits,
        downlevel_flags: MeshletDownlevelFlags,
    ) -> (r: Self)
        ensures
            r.spec_backend() == backend,
            r.spec_features() == features,
            r.spec_limits() == limits,
            r.spec_downlevel_flags() == downlevel_flags,
            r.spec_driver_key().vendor == 0 && r.spec_driver_key().device == 0,
            r.spec_driver_key().driver@ == Seq::<char>::empty(),
            r.spec_driver_key().driver_info@ == Seq::<char>::empty(),
    {
        MeshletCapabilities {
            backend,
            features,
            limits,
            downlevel_flags,
            driver_key: MeshletDriverKey {
                vendor: 0,
                device: 0,
                driver: String::new(),
                driver_info: String::new(),
            },
        }
    }

    pub fn backend(&self) -> (r: AdapterBackend)
        ensures
            r == self.spec_backend(),
    {
        self.backend
    }

    pub fn features(&self) -> (r: MeshletFeatures)
        ensures
            r == self.spec_features(),
    {
        self.features
    }

    pub fn limits(&self) -> (r: &MeshletLimits)
        ensures
            *r == self.spec_limits(),
    {
        &self.limits
    }

    pub fn downlevel_flags(&self) -> (r: MeshletDownlevelFlags)
        ensures
            r == self.spec_downlevel_flags(),
    {
        self.downlevel_flags
    }

    pub fn driver_key(&self) -> (r: &MeshletDriverKey)
        ensures
            *r == self.spec_driver_key(),
    {
        &self.driver_key
    }

    /// A concrete backend runs on this adapter: Vulkan, indirect execution, its features and its
    /// limits.
    pub open spec fn spec_supports(&self, backend: MeshletBackend) -> bool {
        &&& self.spec_backend() == AdapterBackend::Vulkan
        &&& backend != MeshletBackend::Auto
        &&& self.spec_downlevel_flags().indirect_execution
        &&& spec_required_features(backend).spec_difference(self.spec_features()).spec_is_empty()
        &&& failing(limit_checks(backend, self.spec_limits())).len() == 0
    }

    /// The error [`Self::validate_backend`] reports: the first check that fails, in order.
    pub open spec fn spec_backend_error(&self, backend: MeshletBackend, e: MeshletCapabilityError) -> bool {
        if self.spec_backend() != AdapterBackend::Vulkan {
            e == MeshletCapabilityError::UnsupportedWgpuBackend { actual: self.spec_backend() }
        } else if backend == MeshletBackend::Auto {
            e == MeshletCapabilityError::UnresolvedBackend
        } else if !self.spec_downlevel_flags().indirect_execution {
            e == MeshletCapabilityError::MissingDownlevelFlags {
                backend,
                missing: MeshletDownlevelFlags { indirect_execution: true },
            }
        } else if !spec_required_features(backend).spec_difference(
            self.spec_features(),
        ).spec_is_empty() {
            e == MeshletCapabilityError::MissingFeatures {
                backend,
                missing: spec_required_features(backend).spec_difference(self.spec_features()),
            }
        } else {
            e matches MeshletCapabilityError::InsufficientLimits { backend: b, failures }
                && b == backend && failures@ == failing(limit_checks(backend, self.spec_limits()))
        }
    }

    fn validate_vulkan(&self) -> (r: Result<(), MeshletCapabilityError>)
        ensures
            r is Ok <==> self.spec_backend() == AdapterBackend::Vulkan,
            r is Err ==> r->Err_0 == (MeshletCapabilityError::UnsupportedWgpuBackend {
                actual: self.spec_backend(),
            }),
    {
        if self.backend != AdapterBackend::Vulkan {
            return Err(MeshletCapabilityError::UnsupportedWgpuBackend { actual: self.backend });
        }
        Ok(())
    }

    /// Validates one concrete backend. `Auto` must be resolved with [`Self::resolve_backend`].
    pub fn validate_backend(&self, backend: MeshletBackend) -> (r: Result<(), MeshletCapabilityError>)
        ensures
            r is Ok <==> self.spec_supports(backend),
            r is Err ==> self.spec_backend_error(backend, r->Err_0),
    {
        self.validate_vulkan()?;
        if !backend.is_resolved() {
            return Err(MeshletCapabilityError::UnresolvedBackend);
        }
        if !self.downlevel_flags.indirect_execution {
            return Err(
                MeshletCapabilityError::MissingDownlevelFlags {
                    backend,
                    missing: MeshletDownlevelFlags { indirect_execution: true },
                },
            );
        }
        let required = match MeshletDeviceRequirements::required_features(backend) {
            Ok(f) => f,
            Err(e) => {
                return Err(e);
            },
        };
        let missing = required.difference(self.features);
        if !missing.is_empty() {
            return Err(MeshletCapabilityError::MissingFeatures { backend, missing });
        }
        let failures = mesh_shader_limit_failures(backend, &self.limits);
        if failures.len() > 0 {
            return Err(MeshletCapabilityError::InsufficientLimits { backend, failures });
        }
        Ok(())
    }

    /// Whether a backend is available; `Auto` stands for its unprofiled result, `IndexedIndirect`.
    pub fn supports_backend(&self, backend: MeshletBackend) -> (r: bool)
        ensures
            r == self.spec_supports(concrete_or_indexed(backend)),
    {
        let backend = if backend == MeshletBackend::Auto {
            MeshletBackend::IndexedIndirect
        } else {
            backend
        };
        self.validate_backend(backend).is_ok()
    }

    /// The required features of a backend (`Auto` read as `IndexedIndirect`) the adapter lacks.
    pub fn missing_features(&self, backend: MeshletBackend) -> (r: MeshletFeatures)
        ensures
            r == spec_required_features(concrete_or_indexed(backend)).spec_difference(
                self.spec_features(),
            ),
    {
        let backend = if backend == MeshletBackend::Auto {
            MeshletBackend::IndexedIndirect
        } else {
            backend
        };
        let required = match MeshletDeviceRequirements::required_features(backend) {
            Ok(f) => f,
            Err(_) => MeshletFeatures::empty(),
        };
        required.difference(self.features)
    }

    /// The required downlevel flags of a backend the adapter lacks.
    pub fn missing_downlevel_flags(&self, backend: MeshletBackend) -> (r: MeshletDownlevelFlags)
        ensures
            r.indirect_execution == !self.spec_downlevel_flags().indirect_execution,
    {
        MeshletDownlevelFlags { indirect_execution: !self.downlevel_flags.indirect_execution }
    }

    /// The backend before deny rules: `Auto` becomes `TaskMesh` when a qualifying benchmark
    /// profile approves it and the adapter supports it, else `IndexedIndirect`.
    pub open spec fn spec_candidate(&self, config: MeshletRendererConfig) -> MeshletBackend {
        if config.backend == MeshletBackend::Auto {
            if spec_benchmark_approves(config) && self.spec_supports(MeshletBackend::TaskMesh) {
                MeshletBackend::TaskMesh
            } else {
                MeshletBackend::IndexedIndirect
            }
        } else {
            config.backend
        }
    }

    /// The backend after deny rules: a denied automatic `TaskMesh` falls back to `IndexedIndirect`.
    pub open spec fn spec_after_denial(&self, config: MeshletRendererConfig, entries: Seq<MeshletDriverBlacklistEntry>) -> MeshletBackend {
        let c = self.spec_candidate(config);
        if first_denial(entries, self.spec_driver_key(), c) is Some && config.backend
            == MeshletBackend::Auto && c == MeshletBackend::TaskMesh {
            MeshletBackend::IndexedIndirect
        } else {
            c
        }
    }

    /// A deny-rule error for `backend`, with the reason of the first matching rule.
    pub open spec fn spec_denied_error(&self, entries: Seq<MeshletDriverBlacklistEntry>, backend: MeshletBackend, e: MeshletCapabilityError) -> bool {
        e matches MeshletCapabilityError::BlacklistedDriver { key, backend: b, reason } && key
            == self.spec_driver_key() && b == backend && reason@ == entries[first_denial(
            entries,
            self.spec_driver_key(),
            backend,
        )->0].reason@
    }

    /// The error resolution reports when no backend can be used: the configuration's, the
    /// adapter's, a deny rule's, or the resolved backend's first failing requirement.
    pub open spec fn spec_resolution_error(
        &self,
        config: MeshletRendererConfig,
        entries: Seq<MeshletDriverBlacklistEntry>,
        e: MeshletCapabilityError,
    ) -> bool {
        let c = self.spec_candidate(config);
        let b = self.spec_after_denial(config, entries);
        if spec_renderer_config_check(config) is Err {
            e == MeshletCapabilityError::InvalidConfig(spec_renderer_config_check(config)->Err_0)
        } else if self.spec_backend() != AdapterBackend::Vulkan {
            e == MeshletCapabilityError::UnsupportedWgpuBackend { actual: self.spec_backend() }
        } else if first_denial(entries, self.spec_driver_key(), c) is Some && b == c {
            self.spec_denied_error(entries, c, e)
        } else if first_denial(entries, self.spec_driver_key(), b) is Some {
            self.spec_denied_error(entries, b, e)
        } else {
            self.spec_backend_error(b, e)
        }
    }

    /// Resolves `Auto` once at startup with no deny rules.
    pub fn resolve_backend(&self, config: &MeshletRendererConfig) -> (r: Result<
        MeshletBackend,
        MeshletCapabilityError,
    >)
        ensures
            spec_renderer_config_check(*config) is Err ==> r == Err::<
                MeshletBackend,
                MeshletCapabilityError,
            >(MeshletCapabilityError::InvalidConfig(spec_renderer_config_check(*config)->Err_0)),
            spec_renderer_config_check(*config) is Ok && self.spec_backend()
                != AdapterBackend::Vulkan ==> r == Err::<MeshletBackend, MeshletCapabilityError>(
                MeshletCapabilityError::UnsupportedWgpuBackend { actual: self.spec_backend() },
            ),
            spec_renderer_config_check(*config) is Ok && self.spec_backend()
                == AdapterBackend::Vulkan ==> {
                let b = self.spec_candidate(*config);
                &&& self.spec_supports(b) ==> r == Ok::<MeshletBackend, MeshletCapabilityError>(b)
                &&& !self.spec_supports(b) ==> r is Err && self.spec_backend_error(b, r->Err_0)
            },
    {
        let blacklist = MeshletDriverBlacklist { entries: Vec::new() };
        assert(first_denial(blacklist.entries@, self.spec_driver_key(), self.spec_candidate(*config)) is None);
        self.resolve_backend_with_blacklist(config, &blacklist)
    }

    /// Resolves a backend while applying exact application-owned driver deny rules.
    ///
    /// A denied `TaskMesh` candidate in `Auto` mode falls back to `IndexedIndirect`. An explicitly
    /// selected denied backend is an error.
    pub fn resolve_backend_with_blacklist(
        &self,
        config: &MeshletRendererConfig,
        blacklist: &MeshletDriverBlacklist,
    ) -> (r: Result<MeshletBackend, MeshletCapabilityError>)
        ensures
            spec_renderer_config_check(*config) is Err ==> r == Err::<
                MeshletBackend,
                MeshletCapabilityError,
            >(MeshletCapabilityError::InvalidConfig(spec_renderer_config_check(*config)->Err_0)),
            spec_renderer_config_check(*config) is Ok && self.spec_backend()
                != AdapterBackend::Vulkan ==> r == Err::<MeshletBackend, MeshletCapabilityError>(
                MeshletCapabilityError::UnsupportedWgpuBackend { actual: self.spec_backend() },
            ),
            spec_renderer_config_check(*config) is Ok && self.spec_backend()
                == AdapterBackend::Vulkan ==> {
                let c = self.spec_candidate(*config);
                let b = self.spec_after_denial(*config, blacklist.entries@);
                let denied_c = first_denial(blacklist.entries@, self.spec_driver_key(), c) is Some;
                let denied_b = first_denial(blacklist.entries@, self.spec_driver_key(), b) is Some;
                &&& denied_c && b == c ==> r is Err && self.spec_denied_error(blacklist.entries@, c, r->Err_0)
                &&& !(denied_c && b == c) && denied_b ==> r is Err && self.spec_denied_error(
                    blacklist.entries@,
                    b,
                    r->Err_0,
                )
                &&& !(denied_c && b == c) && !denied_b && self.spec_supports(b) ==> r == Ok::<
                    MeshletBackend,
                    MeshletCapabilityError,
                >(b)
                &&& !(denied_c && b == c) && !denied_b && !self.spec_supports(b) ==> r is Err
                    && self.spec_backend_error(b, r->Err_0)
            },
    {
        match config.validate() {
            Ok(()) => {},
            Err(e) => {
                return Err(MeshletCapabilityError::InvalidConfig(e));
            },
        }
        self.validate_vulkan()?;
        let mut resolved = if config.backend == MeshletBackend::Auto {
            if config.benchmark_approves_task_mesh() && self.validate_backend(
                MeshletBackend::TaskMesh,
            ).is_ok() {
                MeshletBackend::TaskMesh
            } else {
                MeshletBackend::IndexedIndirect
            }
        } else {
            config.backend
        };
        match blacklist.reason_for(&self.driver_key, resolved) {
            Some(reason) => {
                if config.backend == MeshletBackend::Auto && resolved == MeshletBackend::TaskMesh {
                    resolved = MeshletBackend::IndexedIndirect;
                } else {
                    return Err(
                        MeshletCapabilityError::BlacklistedDriver {
                            key: copy_key(&self.driver_key),
                            backend: resolved,
                            reason: String::from_str(reason),
                        },
                    );
                }
            },
            None => {},
        }
        match blacklist.reason_for(&self.driver_key, resolved) {
            Some(reason) => {
                return Err(
                    MeshletCapabilityError::BlacklistedDriver {
                        key: copy_key(&self.driver_key),
                        backend: resolved,
                        reason: String::from_str(reason),
                    },
                );
            },
            None => {},
        }
        self.validate_backend(resolved)?;
        Ok(resolved)
    }

    /// The bindless table sizes for a configuration on this adapter.
    pub fn bindless_capacity(&self, config: &MeshletRendererConfig) -> (r: Result<
        MeshletBindlessCapacity,
        MeshletCapabilityError,
    >)
        ensures
            r == spec_bindless_capacity(self.spec_limits(), *config),
    {
        let general = self.limits.max_binding_array_elements_per_shader_stage;
        let sampler_limit = self.limits.max_binding_array_sampler_elements_per_shader_stage;
        let sampler_budget = if general >= MESHLET_FALLBACK_TEXTURE_SLOTS {
            general - MESHLET_FALLBACK_TEXTURE_SLOTS
        } else {
            0
        };
        let mut samplers = config.bindless.max_samplers;
        if sampler_limit < samplers {
            samplers = sampler_limit;
        }
        if sampler_budget < samplers {
            samplers = sampler_budget;
        }
        let room = if general >= samplers {
            general - samplers
        } else {
            0
        };
        let textures = if config.bindless.max_textures < room {
            config.bindless.max_textures
        } else {
            room
        };
        if textures < MESHLET_FALLBACK_TEXTURE_SLOTS {
            return Err(
                MeshletCapabilityError::InsufficientBindlessCapacity {
                    resource: "textures",
                    supported: textures,
                    required: MESHLET_FALLBACK_TEXTURE_SLOTS,
                },
            );
        }
        if samplers < MESHLET_FALLBACK_SAMPLER_SLOTS {
            return Err(
                MeshletCapabilityError::InsufficientBindlessCapacity {
                    resource: "samplers",
                    supported: samplers,
                    required: MESHLET_FALLBACK_SAMPLER_SLOTS,
                },
            );
        }
        Ok(MeshletBindlessCapacity { textures, samplers })
    }
}

/// The limits to request for a backend on an adapter: the bindless tables, the adapter's buffer
/// sizes, and, for the stages the backend runs, the adapter's own mesh and task limits.
pub open spec fn spec_limit_request(limits: MeshletLimits, backend: MeshletBackend, bindless: MeshletBindlessCapacity) -> MeshletLimitRequest {
    MeshletLimitRequest {
        max_binding_array_elements_per_shader_stage: (bindless.textures + bindless.samplers) as u32,
        max_binding_array_sampler_elements_per_shader_stage: bindless.samplers,
        max_storage_buffer_binding_size: limits.max_storage_buffer_binding_size,
        max_buffer_size: limits.max_buffer_size,
        mesh: if backend == MeshletBackend::MeshOnly || backend == MeshletBackend::TaskMesh {
            Some(
                MeshletMeshLimitRequest {
                    max_mesh_workgroup_total_count: limits.max_mesh_workgroup_total_count,
                    max_mesh_workgroups_per_dimension: limits.max_mesh_workgroups_per_dimension,
                    max_mesh_invocations_per_workgroup: limits.max_mesh_invocations_per_workgroup,
                    max_mesh_invocations_per_dimension: limits.max_mesh_invocations_per_dimension,
                    max_mesh_output_vertices: limits.max_mesh_output_vertices,
                    max_mesh_output_primitives: limits.max_mesh_output_primitives,
                },
            )
        } else {
            None
        },
        task: if backend == MeshletBackend::TaskMesh {
            Some(
                MeshletTaskLimitRequest {
                    max_task_workgroup_total_count: limits.max_task_workgroup_total_count,
                    max_task_workgroups_per_dimension: limits.max_task_workgroups_per_dimension,
                    max_task_invocations_per_workgroup: limits.max_task_invocations_per_workgroup,
                    max_task_invocations_per_dimension: limits.max_task_invocations_per_dimension,
                    max_task_payload_size: limits.max_task_payload_size,
                },
            )
        } else {
            None
        },
    }
}

impl MeshletCapabilities {
    /// The exact device request for the resolved backend and adapter-clamped bindless tables.
    pub fn device_requirements(&self, config: &MeshletRendererConfig) -> (r: Result<
        MeshletDeviceRequirements,
        MeshletCapabilityError,
    >)
        ensures
            self.spec_requirements_outcome(*config, Seq::empty(), r),
    {
        let blacklist = MeshletDriverBlacklist { entries: Vec::new() };
        let r = self.device_requirements_with_blacklist(config, &blacklist);
        assert(blacklist.entries@ =~= Seq::<MeshletDriverBlacklistEntry>::empty());
        r
    }

    /// What [`Self::device_requirements_with_blacklist`] gives: the resolution error, else the
    /// bindless error, else the request built from the resolved backend.
    pub open spec fn spec_requirements_outcome(
        &self,
        config: MeshletRendererConfig,
        entries: Seq<MeshletDriverBlacklistEntry>,
        r: Result<MeshletDeviceRequirements, MeshletCapabilityError>,
    ) -> bool {
        let resolved_ok = spec_renderer_config_check(config) is Ok && self.spec_backend()
            == AdapterBackend::Vulkan && {
            let c = self.spec_candidate(config);
            let b = self.spec_after_denial(config, entries);
            &&& !(first_denial(entries, self.spec_driver_key(), c) is Some && b == c)
            &&& first_denial(entries, self.spec_driver_key(), b) is None
            &&& self.spec_supports(b)
        };
        let b = self.spec_after_denial(config, entries);
        &&& !resolved_ok ==> r is Err && self.spec_resolution_error(config, entries, r->Err_0)
        &&& resolved_ok && spec_bindless_capacity(self.spec_limits(), config) is Err ==> r == Err::<
            MeshletDeviceRequirements,
            MeshletCapabilityError,
        >(spec_bindless_capacity(self.spec_limits(), config)->Err_0)
        &&& resolved_ok && spec_bindless_capacity(self.spec_limits(), config) is Ok ==> (r matches Ok(
            q,
        ) && q.spec_backend() == b && q.spec_adapter_backend() == self.spec_backend()
            && q.spec_driver_key() == self.spec_driver_key() && q.spec_source_config() == config
            && q.spec_features() == spec_required_features(b) && q.spec_downlevel_flags() == (
        MeshletDownlevelFlags { indirect_execution: true }) && q.spec_bindless()
            == spec_bindless_capacity(self.spec_limits(), config)->Ok_0 && q.spec_limits()
            == spec_limit_request(
            self.spec_limits(),
            b,
            spec_bindless_capacity(self.spec_limits(), config)->Ok_0,
        ))
    }

    /// The device request after resolving `Auto` against explicit driver deny rules.
    pub fn device_requirements_with_blacklist(
        &self,
        config: &MeshletRendererConfig,
        blacklist: &MeshletDriverBlacklist,
    ) -> (r: Result<MeshletDeviceRequirements, MeshletCapabilityError>)
        ensures
            self.spec_requirements_outcome(*config, blacklist.entries@, r),
            spec_renderer_config_check(*config) is Err ==> r == Err::<
                MeshletDeviceRequirements,
                MeshletCapabilityError,
            >(MeshletCapabilityError::InvalidConfig(spec_renderer_config_check(*config)->Err_0)),
    {
        let backend = self.resolve_backend_with_blacklist(config, blacklist)?;
        let bindless = self.bindless_capacity(config)?;
        let required_features = MeshletDeviceRequirements::required_features(backend)?;
        let required_downlevel_flags = MeshletDeviceRequirements::required_downlevel_flags(backend)?;
        let l = &self.limits;
        let mesh = if backend.uses_mesh_shaders() {
            Some(
                MeshletMeshLimitRequest {
                    max_mesh_workgroup_total_count: l.max_mesh_workgroup_total_count,
                    max_mesh_workgroups_per_dimension: l.max_mesh_workgroups_per_dimension,
                    max_mesh_invocations_per_workgroup: l.max_mesh_invocations_per_workgroup,
                    max_mesh_invocations_per_dimension: l.max_mesh_invocations_per_dimension,
                    max_mesh_output_vertices: l.max_mesh_output_vertices,
                    max_mesh_output_primitives: l.max_mesh_output_primitives,
                },
            )
        } else {
            None
        };
        let task = if backend.uses_task_shaders() {
            Some(
                MeshletTaskLimitRequest {
                    max_task_workgroup_total_count: l.max_task_workgroup_total_count,
                    max_task_workgroups_per_dimension: l.max_task_workgroups_per_dimension,
                    max_task_invocations_per_workgroup: l.max_task_invocations_per_workgroup,
                    max_task_invocations_per_dimension: l.max_task_invocations_per_dimension,
                    max_task_payload_size: l.max_task_payload_size,
                },
            )
        } else {
            None
        };
        let required_limits = MeshletLimitRequest {
            max_binding_array_elements_per_shader_stage: bindless.textures + bindless.samplers,
            max_binding_array_sampler_elements_per_shader_stage: bindless.samplers,
            max_storage_buffer_binding_size: l.max_storage_buffer_binding_size,
            max_buffer_size: l.max_buffer_size,
            mesh,
            task,
        };
        Ok(
            MeshletDeviceRequirements {
                adapter_backend: self.backend,
                driver_key: copy_key(&self.driver_key),
                source_config: *config,
                backend,
                required_features,
                required_downlevel_flags,
                required_limits,
                bindless,
            },
        )
    }
}

/// Device features, limits, and effective resource-table sizes for one resolved backend.
#[derive(Clone, Debug, PartialEq, Eq)]
pub struct MeshletDeviceRequirements {
    adapter_backend: AdapterBackend,
    driver_key: MeshletDriverKey,
    source_config: MeshletRendererConfig,
    backend: MeshletBackend,
    required_features: MeshletFeatures,
    required_downlevel_flags: MeshletDownlevelFlags,
    required_limits: MeshletLimitRequest,
    bindless: MeshletBindlessCapacity,
}

impl MeshletDeviceRequirements {
    pub closed spec fn spec_backend(&self) -> MeshletBackend {
        self.backend
    }

    pub closed spec fn spec_adapter_backend(&self) -> AdapterBackend {
        self.adapter_backend
    }

    pub closed spec fn spec_driver_key(&self) -> MeshletDriverKey {
        self.driver_key
    }

    pub closed spec fn spec_source_config(&self) -> MeshletRendererConfig {
        self.source_config
    }

    pub closed spec fn spec_features(&self) -> MeshletFeatures {
        self.required_features
    }

    pub closed spec fn spec_downlevel_flags(&self) -> MeshletDownlevelFlags {
        self.required_downlevel_flags
    }

    pub closed spec fn spec_limits(&self) -> MeshletLimitRequest {
        self.required_limits
    }

    pub closed spec fn spec_bindless(&self) -> MeshletBindlessCapacity {
        self.bindless
    }

    pub fn adapter_backend(&self) -> (r: AdapterBackend)
        ensures
            r == self.spec_adapter_backend(),
    {
        self.adapter_backend
    }

    pub fn driver_key(&self) -> (r: &MeshletDriverKey)
        ensures
            *r == self.spec_driver_key(),
    {
        &self.driver_key
    }

    pub fn source_config(&self) -> (r: MeshletRendererConfig)
        ensures
            r == self.spec_source_config(),
    {
        self.source_config
    }

    pub fn backend(&self) -> (r: MeshletBackend)
        ensures
            r == self.spec_backend(),
    {
        self.backend
    }

    pub fn features(&self) -> (r: MeshletFeatures)
        ensures
            r == self.spec_features(),
    {
        self.required_features
    }

    pub fn downlevel_flags(&self) -> (r: MeshletDownlevelFlags)
        ensures
            r == self.spec_downlevel_flags(),
    {
        self.required_downlevel_flags
    }

    pub fn limits(&self) -> (r: &MeshletLimitRequest)
        ensures
            *r == self.spec_limits(),
    {
        &self.required_limits
    }

    pub fn bindless_capacity(&self) -> (r: MeshletBindlessCapacity)
        ensures
            r == self.spec_bindless(),
    {
        self.bindless
    }

    /// The downlevel capabilities shared by every concrete meshlet backend.
    pub fn required_downlevel_flags(backend: MeshletBackend) -> (r: Result<
        MeshletDownlevelFlags,
        MeshletCapabilityError,
    >)
        ensures
            backend == MeshletBackend::Auto ==> r == Err::<
                MeshletDownlevelFlags,
                MeshletCapabilityError,
            >(MeshletCapabilityError::UnresolvedBackend),
            backend != MeshletBackend::Auto ==> r == Ok::<
                MeshletDownlevelFlags,
                MeshletCapabilityError,
            >(MeshletDownlevelFlags { indirect_execution: true }),
    {
        if !backend.is_resolved() {
            return Err(MeshletCapabilityError::UnresolvedBackend);
        }
        Ok(MeshletDownlevelFlags { indirect_execution: true })
    }

    /// The feature set for one concrete meshlet backend.
    pub fn required_features(backend: MeshletBackend) -> (r: Result<
        MeshletFeatures,
        MeshletCapabilityError,
    >)
        ensures
            backend == MeshletBackend::Auto ==> r == Err::<MeshletFeatures, MeshletCapabilityError>(
                MeshletCapabilityError::UnresolvedBackend,
            ),
            backend != MeshletBackend::Auto ==> r == Ok::<MeshletFeatures, MeshletCapabilityError>(
                spec_required_features(backend),
            ),
    {
        if !backend.is_resolved() {
            return Err(MeshletCapabilityError::UnresolvedBackend);
        }
        Ok(
            MeshletFeatures {
                texture_binding_array: true,
                partially_bound_binding_array: true,
                sampled_texture_and_storage_buffer_array_non_uniform_indexing: true,
                multi_draw_indirect_count: true,
                indirect_first_instance: true,
                experimental_mesh_shader: backend.uses_mesh_shaders(),
            },
        )
    }

    /// Whether the device must be created with the experimental mesh-shader API enabled.
    pub fn requires_experimental_features(&self) -> (r: bool)
        ensures
            r == (self.spec_backend() == MeshletBackend::MeshOnly || self.spec_backend()
                == MeshletBackend::TaskMesh),
    {
        self.backend.uses_mesh_shaders()
    }
}

} // verus!

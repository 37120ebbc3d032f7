//! Renderer construction policy: backend names, the benchmark gate for automatic
//! task/mesh promotion, bindless table sizes and fixed GPU capacities.

use vstd::prelude::*;

use crate::text::str_equal;

verus! {

/// Minimum benchmark warm-up used before `TaskMesh` may be selected by [`MeshletBackend::Auto`].
pub const AUTO_BENCHMARK_MIN_WARMUP_FRAMES: u32 = 120;
/// Minimum benchmark sample count used before `TaskMesh` may be selected by [`MeshletBackend::Auto`].
pub const AUTO_BENCHMARK_MIN_SAMPLE_FRAMES: u32 = 600;
/// Required `TaskMesh` p95 improvement, expressed as basis points (10%).
pub const AUTO_TASK_MESH_MIN_SPEEDUP_BPS: u32 = 1_000;

/// Number of built-in texture slots reserved by the renderer (white, black, and flat normal).
pub const MESHLET_FALLBACK_TEXTURE_SLOTS: u32 = 3;
/// Number of built-in sampler slots reserved by the renderer.
pub const MESHLET_FALLBACK_SAMPLER_SLOTS: u32 = 1;

/// Default and currently supported maximum number of unique vertices in one meshlet.
pub const MESHLET_MAX_VERTICES: u32 = 64;
/// Default and currently supported maximum number of triangles in one meshlet.
pub const MESHLET_MAX_TRIANGLES: u32 = 64;
/// Number of candidate meshlets processed by one task workgroup.
pub const TASK_PACKET_MESHLET_COUNT: u32 = 32;

/// A concrete raster backend owned by the meshlet renderer, or its benchmark-gated automatic mode.
#[derive(Clone, Copy, Debug, PartialEq, Eq, Structural, Hash)]
pub enum MeshletBackend {
    /// Resolve to `IndexedIndirect` unless a valid local benchmark profile approves `TaskMesh`.
    Auto,
    /// Compute-generated indexed draws submitted with `multi_draw_indexed_indirect_count`.
    IndexedIndirect,
    /// Mesh shaders consuming the same visible-work list as `IndexedIndirect`.
    MeshOnly,
    /// Task shaders compacting meshlets into payloads consumed by mesh shaders.
    TaskMesh,
}

/// The canonical command-line name of each backend.
pub open spec fn backend_name(backend: MeshletBackend) -> Seq<char> {
    match backend {
        MeshletBackend::Auto => "auto"@,
        MeshletBackend::IndexedIndirect => "indexed"@,
        MeshletBackend::MeshOnly => "mesh"@,
        MeshletBackend::TaskMesh => "task-mesh"@,
    }
}

/// Every accepted spelling of a backend name, canonical names and aliases.
pub open spec fn spec_parse_backend(value: Seq<char>) -> Option<MeshletBackend> {
    if value == "auto"@ {
        Some(MeshletBackend::Auto)
    } else if value == "indexed"@ || value == "indexed-indirect"@ {
        Some(MeshletBackend::IndexedIndirect)
    } else if value == "mesh"@ || value == "mesh-only"@ {
        Some(MeshletBackend::MeshOnly)
    } else if value == "task-mesh"@ || value == "task_mesh"@ {
        Some(MeshletBackend::TaskMesh)
    } else {
        None
    }
}

impl MeshletBackend {
    /// The default backend: automatic, benchmark-gated selection.
    pub fn default_backend() -> (r: Self)
        ensures
            r == MeshletBackend::Auto,
    {
        MeshletBackend::Auto
    }

    pub fn as_str(self) -> (r: &'static str)
        ensures
            r@ == backend_name(self),
    {
        match self {
            MeshletBackend::Auto => "auto",
            MeshletBackend::IndexedIndirect => "indexed",
            MeshletBackend::MeshOnly => "mesh",
            MeshletBackend::TaskMesh => "task-mesh",
        }
    }

    /// Returns whether this is a resolved backend that uses the experimental mesh-shader feature.
    pub fn uses_mesh_shaders(self) -> (r: bool)
        ensures
            r == (self == MeshletBackend::MeshOnly || self == MeshletBackend::TaskMesh),
    {
        match self {
            MeshletBackend::MeshOnly | MeshletBackend::TaskMesh => true,
            _ => false,
        }
    }

    /// Returns whether a task stage is present in the selected pipeline.
    pub fn uses_task_shaders(self) -> (r: bool)
        ensures
            r == (self == MeshletBackend::TaskMesh),
    {
        match self {
            MeshletBackend::TaskMesh => true,
            _ => false,
        }
    }

    /// Returns whether this value names a concrete renderer backend.
    pub fn is_resolved(self) -> (r: bool)
        ensures
            r == (self != MeshletBackend::Auto),
    {
        match self {
            MeshletBackend::Auto => false,
            _ => true,
        }
    }

    /// Parses a backend name; the canonical names and their aliases are accepted.
    pub fn parse(value: &str) -> (r: Result<MeshletBackend, ParseMeshletBackendError>)
        ensures
            match r {
                Ok(backend) => spec_parse_backend(value@) == Some(backend),
                Err(error) => spec_parse_backend(value@) is None && error@ == value@,
            },
    {
        if str_equal(value, "auto") {
            Ok(MeshletBackend::Auto)
        } else if str_equal(value, "indexed") || str_equal(value, "indexed-indirect") {
            Ok(MeshletBackend::IndexedIndirect)
        } else if str_equal(value, "mesh") || str_equal(value, "mesh-only") {
            Ok(MeshletBackend::MeshOnly)
        } else if str_equal(value, "task-mesh") || str_equal(value, "task_mesh") {
            Ok(MeshletBackend::TaskMesh)
        } else {
            Err(ParseMeshletBackendError { value: value.to_owned() })
        }
    }
}

impl core::str::FromStr for MeshletBackend {
    type Err = ParseMeshletBackendError;

    fn from_str(value: &str) -> (r: Result<Self, Self::Err>)
        ensures
            match r {
                Ok(backend) => spec_parse_backend(value@) == Some(backend),
                Err(error) => spec_parse_backend(value@) is None && error@ == value@,
            },
    {
        MeshletBackend::parse(value)
    }
}

/// Error returned when parsing a meshlet backend name.
#[derive(Clone, Debug, PartialEq, Eq)]
pub struct ParseMeshletBackendError {
    value: String,
}

impl View for ParseMeshletBackendError {
    /// The rejected text.
    type V = Seq<char>;

    closed spec fn view(&self) -> Seq<char> {
        self.value@
    }
}

impl ParseMeshletBackendError {
    /// The rejected text.
    pub fn value(&self) -> (r: &str)
        ensures
            r@ == self@,
    {
        self.value.as_str()
    }

    /// Human-readable description of the rejected name.
    pub fn message(&self) -> (r: String)
        ensures
            r@ == "unknown meshlet backend \""@ + self@
                + "\"; expected auto, indexed, mesh, or task-mesh"@,
    {
        let mut text = String::from_str("unknown meshlet backend \"");
        text.append(self.value.as_str());
        text.append("\"; expected auto, indexed, mesh, or task-mesh");
        text
    }
}

/// Local, adapter-specific benchmark result used by [`MeshletBackend::Auto`].
///
/// Persisted profiles must be keyed by adapter, driver, renderer version, scene, resolution, and
/// camera track by the application. This type deliberately contains only the measurements needed
/// to enforce the renderer's promotion gate.
#[derive(Clone, Copy, Debug, PartialEq, Eq, Structural)]
pub struct MeshletBenchmarkProfile {
    pub geometry_bound: bool,
    pub warmup_frames: u32,
    pub sample_frames: u32,
    pub indexed_gpu_p95_ns: u64,
    pub task_mesh_gpu_p95_ns: u64,
}

/// The promotion gate: a geometry-bound profile with enough warm-up and samples, two non-zero
/// measurements, and a task/mesh p95 at most 90% of the indexed p95 (exact integer arithmetic).
pub open spec fn spec_approves_task_mesh(profile: MeshletBenchmarkProfile) -> bool {
    &&& profile.geometry_bound
    &&& profile.warmup_frames >= AUTO_BENCHMARK_MIN_WARMUP_FRAMES
    &&& profile.sample_frames >= AUTO_BENCHMARK_MIN_SAMPLE_FRAMES
    &&& profile.indexed_gpu_p95_ns != 0
    &&& profile.task_mesh_gpu_p95_ns != 0
    &&& profile.task_mesh_gpu_p95_ns * 10_000 <= profile.indexed_gpu_p95_ns * (10_000
        - AUTO_TASK_MESH_MIN_SPEEDUP_BPS)
}

impl MeshletBenchmarkProfile {
    /// Returns whether this profile meets the agreed gate for automatic `TaskMesh` selection.
    pub fn approves_task_mesh(self) -> (r: bool)
        ensures
            r == spec_approves_task_mesh(self),
    {
        if !self.geometry_bound || self.warmup_frames < AUTO_BENCHMARK_MIN_WARMUP_FRAMES
            || self.sample_frames < AUTO_BENCHMARK_MIN_SAMPLE_FRAMES || self.indexed_gpu_p95_ns
            == 0 || self.task_mesh_gpu_p95_ns == 0 {
            return false;
        }
        let required_ratio_bps: u128 = 10_000u128 - AUTO_TASK_MESH_MIN_SPEEDUP_BPS as u128;
        let task: u128 = self.task_mesh_gpu_p95_ns as u128;
        let indexed: u128 = self.indexed_gpu_p95_ns as u128;
        assert(task * 10_000 <= 0xffff_ffff_ffff_ffff * 10_000);
        assert(indexed * required_ratio_bps <= 0xffff_ffff_ffff_ffff * 9_000) by (nonlinear_arith)
            requires
                indexed <= 0xffff_ffff_ffff_ffff,
                required_ratio_bps == 9_000,
        ;
        task * 10_000 <= indexed * required_ratio_bps
    }
}

/// Requested capacities for the fixed bindless resource tables.
#[derive(Clone, Copy, Debug, PartialEq, Eq, Structural)]
pub struct MeshletBindlessConfig {
    pub max_textures: u32,
    pub max_samplers: u32,
}

impl MeshletBindlessConfig {
    /// 4096 textures and 32 samplers.
    pub fn default_config() -> (r: Self)
        ensures
            r.max_textures == 4_096,
            r.max_samplers == 32,
    {
        MeshletBindlessConfig { max_textures: 4_096, max_samplers: 32 }
    }
}

impl Default for MeshletBindlessConfig {
    fn default() -> (r: Self)
        ensures
            r.max_textures == 4_096,
            r.max_samplers == 32,
    {
        MeshletBindlessConfig::default_config()
    }
}

/// Fixed GPU buffer capacities. Exhaustion is clamped on the GPU and reported through sticky
/// overflow flags; it never authorizes an out-of-bounds access.
#[derive(Clone, Copy, Debug, PartialEq, Eq, Structural)]
pub struct MeshletCapacityConfig {
    pub max_instances: u32,
    pub max_candidate_meshlets: u32,
    pub max_visible_meshlets: u32,
    pub max_task_packets: u32,
    pub max_indirect_draws_per_bin: u32,
}

/// Invalid renderer configuration.
#[derive(Clone, Copy, Debug, PartialEq, Eq)]
pub enum MeshletConfigError {
    ZeroCapacity { name: &'static str },
    InsufficientFallbackSlots { resource: &'static str, requested: u32, required: u32 },
    VisibleCapacityExceedsCandidateCapacity { visible: u32, candidate: u32 },
    IndirectCapacityDoesNotMatchVisibleCapacity { indirect_per_bin: u32, visible: u32 },
    StatisticsCounterCapacityOverflow { visible: u32, maximum_per_meshlet: u32 },
    CapacityAddressSpaceOverflow { name: &'static str, per_bin: u32 },
}

/// The outcome of capacity validation: the first failing rule in the documented order.
pub open spec fn spec_capacity_check(c: MeshletCapacityConfig) -> Result<(), MeshletConfigError> {
    if c.max_instances == 0 {
        Err(MeshletConfigError::ZeroCapacity { name: "max_instances" })
    } else if c.max_candidate_meshlets == 0 {
        Err(MeshletConfigError::ZeroCapacity { name: "max_candidate_meshlets" })
    } else if c.max_visible_meshlets == 0 {
        Err(MeshletConfigError::ZeroCapacity { name: "max_visible_meshlets" })
    } else if c.max_task_packets == 0 {
        Err(MeshletConfigError::ZeroCapacity { name: "max_task_packets" })
    } else if c.max_indirect_draws_per_bin == 0 {
        Err(MeshletConfigError::ZeroCapacity { name: "max_indirect_draws_per_bin" })
    } else if c.max_visible_meshlets > c.max_candidate_meshlets {
        Err(
            MeshletConfigError::VisibleCapacityExceedsCandidateCapacity {
                visible: c.max_visible_meshlets,
                candidate: c.max_candidate_meshlets,
            },
        )
    } else if c.max_indirect_draws_per_bin * 2 > u32::MAX {
        Err(
            MeshletConfigError::CapacityAddressSpaceOverflow {
                name: "max_indirect_draws_per_bin",
                per_bin: c.max_indirect_draws_per_bin,
            },
        )
    } else if c.max_indirect_draws_per_bin * 2 != c.max_visible_meshlets {
        Err(
            MeshletConfigError::IndirectCapacityDoesNotMatchVisibleCapacity {
                indirect_per_bin: c.max_indirect_draws_per_bin,
                visible: c.max_visible_meshlets,
            },
        )
    } else if c.max_visible_meshlets * 64 > u32::MAX {
        Err(
            MeshletConfigError::StatisticsCounterCapacityOverflow {
                visible: c.max_visible_meshlets,
                maximum_per_meshlet: 64,
            },
        )
    } else if c.max_task_packets * 2 > u32::MAX {
        Err(
            MeshletConfigError::CapacityAddressSpaceOverflow {
                name: "max_task_packets",
                per_bin: c.max_task_packets,
            },
        )
    } else {
        Ok(())
    }
}

impl MeshletCapacityConfig {
    /// The shipped capacities.
    pub fn default_config() -> (r: Self)
        ensures
            r.max_instances == 262_144,
            r.max_candidate_meshlets == 2_097_152,
            r.max_visible_meshlets == 1_048_576,
            r.max_task_packets == 65_536,
            r.max_indirect_draws_per_bin == 524_288,
    {
        MeshletCapacityConfig {
            max_instances: 262_144,
            max_candidate_meshlets: 2_097_152,
            max_visible_meshlets: 1_048_576,
            max_task_packets: 65_536,
            max_indirect_draws_per_bin: 524_288,
        }
    }

    pub fn validate(self) -> (r: Result<(), MeshletConfigError>)
        ensures
            r == spec_capacity_check(self),
    {
        if self.max_instances == 0 {
            return Err(MeshletConfigError::ZeroCapacity { name: "max_instances" });
        }
        if self.max_candidate_meshlets == 0 {
            return Err(MeshletConfigError::ZeroCapacity { name: "max_candidate_meshlets" });
        }
        if self.max_visible_meshlets == 0 {
            return Err(MeshletConfigError::ZeroCapacity { name: "max_visible_meshlets" });
        }
        if self.max_task_packets == 0 {
            return Err(MeshletConfigError::ZeroCapacity { name: "max_task_packets" });
        }
        if self.max_indirect_draws_per_bin == 0 {
            return Err(MeshletConfigError::ZeroCapacity { name: "max_indirect_draws_per_bin" });
        }
        if self.max_visible_meshlets > self.max_candidate_meshlets {
            return Err(
                MeshletConfigError::VisibleCapacityExceedsCandidateCapacity {
                    visible: self.max_visible_meshlets,
                    candidate: self.max_candidate_meshlets,
                },
            );
        }
        let total_indirect_capacity = match self.max_indirect_draws_per_bin.checked_mul(2) {
            Some(total) => total,
            None => {
                return Err(
                    MeshletConfigError::CapacityAddressSpaceOverflow {
                        name: "max_indirect_draws_per_bin",
                        per_bin: self.max_indirect_draws_per_bin,
                    },
                );
            },
        };
        if total_indirect_capacity != self.max_visible_meshlets {
            return Err(
                MeshletConfigError::IndirectCapacityDoesNotMatchVisibleCapacity {
                    indirect_per_bin: self.max_indirect_draws_per_bin,
                    visible: self.max_visible_meshlets,
                },
            );
        }
        let per_meshlet: u32 = if MESHLET_MAX_VERTICES > MESHLET_MAX_TRIANGLES {
            MESHLET_MAX_VERTICES
        } else {
            MESHLET_MAX_TRIANGLES
        };
        if self.max_visible_meshlets.checked_mul(per_meshlet).is_none() {
            return Err(
                MeshletConfigError::StatisticsCounterCapacityOverflow {
                    visible: self.max_visible_meshlets,
                    maximum_per_meshlet: per_meshlet,
                },
            );
        }
        if self.max_task_packets.checked_mul(2).is_none() {
            return Err(
                MeshletConfigError::CapacityAddressSpaceOverflow {
                    name: "max_task_packets",
                    per_bin: self.max_task_packets,
                },
            );
        }
        Ok(())
    }
}

impl Default for MeshletCapacityConfig {
    fn default() -> (r: Self)
        ensures
            r.max_instances == 262_144,
            r.max_candidate_meshlets == 2_097_152,
            r.max_visible_meshlets == 1_048_576,
            r.max_task_packets == 65_536,
            r.max_indirect_draws_per_bin == 524_288,
    {
        MeshletCapacityConfig::default_config()
    }
}

/// Construction policy for the meshlet renderer.
#[derive(Clone, Copy, Debug, PartialEq, Eq, Structural)]
pub struct MeshletRendererConfig {
    pub backend: MeshletBackend,
    pub bindless: MeshletBindlessConfig,
    pub capacities: MeshletCapacityConfig,
    /// A profile for the exact local adapter/driver and current benchmark version.
    ///
    /// `None` is an unknown adapter and therefore resolves `Auto` to `IndexedIndirect`.
    pub auto_benchmark_profile: Option<MeshletBenchmarkProfile>,
}

/// The outcome of renderer configuration validation.
pub open spec fn spec_renderer_config_check(config: MeshletRendererConfig) -> Result<
    (),
    MeshletConfigError,
> {
    if config.bindless.max_textures < MESHLET_FALLBACK_TEXTURE_SLOTS {
        Err(
            MeshletConfigError::InsufficientFallbackSlots {
                resource: "textures",
                requested: config.bindless.max_textures,
                required: MESHLET_FALLBACK_TEXTURE_SLOTS,
            },
        )
    } else if config.bindless.max_samplers < MESHLET_FALLBACK_SAMPLER_SLOTS {
        Err(
            MeshletConfigError::InsufficientFallbackSlots {
                resource: "samplers",
                requested: config.bindless.max_samplers,
                required: MESHLET_FALLBACK_SAMPLER_SLOTS,
            },
        )
    } else {
        spec_capacity_check(config.capacities)
    }
}

/// A renderer configuration is accepted only when its bindless tables have room for the three
/// fallback textures and the fallback sampler; a table without that room is refused, naming the
/// table, what it asked for and what it needs, textures first.
pub proof fn lemma_renderer_config_needs_fallback_slots(config: MeshletRendererConfig)
    ensures
        spec_renderer_config_check(config) is Ok ==> config.bindless.max_textures >= 3
            && config.bindless.max_samplers >= 1,
        config.bindless.max_textures < 3 ==> spec_renderer_config_check(config) == Err::<
            (),
            MeshletConfigError,
        >(
            MeshletConfigError::InsufficientFallbackSlots {
                resource: "textures",
                requested: config.bindless.max_textures,
                required: 3,
            },
        ),
        config.bindless.max_textures >= 3 && config.bindless.max_samplers == 0
            ==> spec_renderer_config_check(config) == Err::<(), MeshletConfigError>(
            MeshletConfigError::InsufficientFallbackSlots {
                resource: "samplers",
                requested: 0,
                required: 1,
            },
        ),
{
}

/// Whether a configuration carries a profile that passes the promotion gate.
pub open spec fn spec_benchmark_approves(config: MeshletRendererConfig) -> bool {
    match config.auto_benchmark_profile {
        Some(profile) => spec_approves_task_mesh(profile),
        None => false,
    }
}

impl MeshletRendererConfig {
    /// Automatic backend, default bindless tables and capacities, and no benchmark profile.
    pub fn default_config() -> (r: Self)
        ensures
            r.backend == MeshletBackend::Auto,
            r.bindless == (MeshletBindlessConfig { max_textures: 4_096, max_samplers: 32 }),
            r.capacities == (MeshletCapacityConfig {
                max_instances: 262_144,
                max_candidate_meshlets: 2_097_152,
                max_visible_meshlets: 1_048_576,
                max_task_packets: 65_536,
                max_indirect_draws_per_bin: 524_288,
            }),
            r.auto_benchmark_profile == None::<MeshletBenchmarkProfile>,
    {
        MeshletRendererConfig {
            backend: MeshletBackend::Auto,
            bindless: MeshletBindlessConfig::default_config(),
            capacities: MeshletCapacityConfig::default_config(),
            auto_benchmark_profile: None,
        }
    }

    pub fn validate(self) -> (r: Result<(), MeshletConfigError>)
        ensures
            r == spec_renderer_config_check(self),
    {
        if self.bindless.max_textures < MESHLET_FALLBACK_TEXTURE_SLOTS {
            return Err(
                MeshletConfigError::InsufficientFallbackSlots {
                    resource: "textures",
                    requested: self.bindless.max_textures,
                    required: MESHLET_FALLBACK_TEXTURE_SLOTS,
                },
            );
        }
        if self.bindless.max_samplers < MESHLET_FALLBACK_SAMPLER_SLOTS {
            return Err(
                MeshletConfigError::InsufficientFallbackSlots {
                    resource: "samplers",
                    requested: self.bindless.max_samplers,
                    required: MESHLET_FALLBACK_SAMPLER_SLOTS,
                },
            );
        }
        self.capacities.validate()
    }

    pub fn benchmark_approves_task_mesh(self) -> (r: bool)
        ensures
            r == spec_benchmark_approves(self),
    {
        match self.auto_benchmark_profile {
            Some(profile) => profile.approves_task_mesh(),
            None => false,
        }
    }
}

impl Default for MeshletRendererConfig {
    /// Automatic backend, default bindless tables and capacities, and no benchmark profile.
    fn default() -> (r: Self)
        ensures
            r.backend == MeshletBackend::Auto,
            r.bindless == (MeshletBindlessConfig { max_textures: 4_096, max_samplers: 32 }),
            r.capacities == (MeshletCapacityConfig {
                max_instances: 262_144,
                max_candidate_meshlets: 2_097_152,
                max_visible_meshlets: 1_048_576,
                max_task_packets: 65_536,
                max_indirect_draws_per_bin: 524_288,
            }),
            r.auto_benchmark_profile == None::<MeshletBenchmarkProfile>,
    {
        MeshletRendererConfig::default_config()
    }
}

/// Every accepted backend parses back from its canonical name, and no backend is named
/// by two canonical names.
pub proof fn lemma_backend_names_round_trip(backend: MeshletBackend)
    ensures
        spec_parse_backend(backend_name(backend)) == Some(backend),
{
    reveal_strlit("auto");
    reveal_strlit("indexed");
    reveal_strlit("indexed-indirect");
    reveal_strlit("mesh");
    reveal_strlit("mesh-only");
    reveal_strlit("task-mesh");
    reveal_strlit("task_mesh");
    assert("mesh"@[0] != "auto"@[0]);
    assert("indexed"@.len() != "auto"@.len());
    assert("task-mesh"@.len() != "auto"@.len());
    assert("task-mesh"@.len() != "indexed"@.len());
    assert("task-mesh"@.len() != "indexed-indirect"@.len());
    assert("task-mesh"@.len() != "mesh"@.len());
    assert("task-mesh"@[0] != "mesh-only"@[0]);
    assert("mesh"@.len() != "indexed"@.len());
    assert("mesh"@.len() != "indexed-indirect"@.len());
}

} // verus!

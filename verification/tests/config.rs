use zen_render_mesh::config::{
    MeshletBackend, MeshletBenchmarkProfile, MeshletCapacityConfig, MeshletConfigError,
    MeshletRendererConfig, MESHLET_FALLBACK_SAMPLER_SLOTS, MESHLET_FALLBACK_TEXTURE_SLOTS,
};

fn qualifying_profile() -> MeshletBenchmarkProfile {
    MeshletBenchmarkProfile {
        geometry_bound: true,
        warmup_frames: 120,
        sample_frames: 600,
        indexed_gpu_p95_ns: 10_000,
        task_mesh_gpu_p95_ns: 9_000,
    }
}

#[test]
fn backend_names_match_the_demo_cli() {
    for (name, expected) in [
        ("auto", MeshletBackend::Auto),
        ("indexed", MeshletBackend::IndexedIndirect),
        ("mesh", MeshletBackend::MeshOnly),
        ("task-mesh", MeshletBackend::TaskMesh),
    ] {
        assert_eq!(name.parse(), Ok(expected));
        assert_eq!(expected.as_str(), name);
    }
    assert!("legacy".parse::<MeshletBackend>().is_err());
}

#[test]
fn auto_profile_enforces_the_full_promotion_gate() {
    assert!(qualifying_profile().approves_task_mesh());

    let mut profile = qualifying_profile();
    profile.task_mesh_gpu_p95_ns = 9_001;
    assert!(!profile.approves_task_mesh());

    let mut profile = qualifying_profile();
    profile.geometry_bound = false;
    assert!(!profile.approves_task_mesh());

    let mut profile = qualifying_profile();
    profile.warmup_frames = 119;
    assert!(!profile.approves_task_mesh());

    let mut profile = qualifying_profile();
    profile.sample_frames = 599;
    assert!(!profile.approves_task_mesh());
}

#[test]
fn benchmark_math_does_not_overflow_u64() {
    let profile = MeshletBenchmarkProfile {
        indexed_gpu_p95_ns: u64::MAX,
        task_mesh_gpu_p95_ns: u64::MAX / 2,
        ..qualifying_profile()
    };
    assert!(profile.approves_task_mesh());
}

#[test]
fn default_config_reserves_all_fallback_slots() {
    let config = MeshletRendererConfig::default();
    assert!(config.validate().is_ok());
    assert!(config.bindless.max_textures >= MESHLET_FALLBACK_TEXTURE_SLOTS);
    assert!(config.bindless.max_samplers >= MESHLET_FALLBACK_SAMPLER_SLOTS);
    assert!(!config.benchmark_approves_task_mesh());
}

#[test]
fn invalid_capacity_relationships_are_rejected() {
    let capacities = MeshletCapacityConfig {
        max_candidate_meshlets: 10,
        max_visible_meshlets: 11,
        ..Default::default()
    };
    assert!(matches!(
        capacities.validate(),
        Err(MeshletConfigError::VisibleCapacityExceedsCandidateCapacity { .. })
    ));

    let capacities = MeshletCapacityConfig {
        max_candidate_meshlets: 100,
        max_visible_meshlets: 80,
        max_indirect_draws_per_bin: 41,
        ..Default::default()
    };
    assert!(matches!(
        capacities.validate(),
        Err(MeshletConfigError::IndirectCapacityDoesNotMatchVisibleCapacity { .. })
    ));

    let capacities = MeshletCapacityConfig {
        max_candidate_meshlets: u32::MAX,
        max_visible_meshlets: u32::MAX,
        max_indirect_draws_per_bin: u32::MAX,
        ..Default::default()
    };
    assert!(matches!(
        capacities.validate(),
        Err(MeshletConfigError::CapacityAddressSpaceOverflow {
            name: "max_indirect_draws_per_bin",
            ..
        })
    ));

    let capacities = MeshletCapacityConfig {
        max_candidate_meshlets: 100,
        max_visible_meshlets: 2,
        max_indirect_draws_per_bin: 1,
        max_task_packets: u32::MAX,
        ..Default::default()
    };
    assert!(matches!(
        capacities.validate(),
        Err(MeshletConfigError::CapacityAddressSpaceOverflow {
            name: "max_task_packets",
            ..
        })
    ));

    let capacities = MeshletCapacityConfig {
        max_candidate_meshlets: 67_108_864,
        max_visible_meshlets: 67_108_864,
        max_indirect_draws_per_bin: 33_554_432,
        max_task_packets: 1,
        ..Default::default()
    };
    assert!(matches!(
        capacities.validate(),
        Err(MeshletConfigError::StatisticsCounterCapacityOverflow { .. })
    ));
}

#[test]
fn parse_error_keeps_the_rejected_name() {
    let error = "legacy".parse::<MeshletBackend>().unwrap_err();
    assert_eq!(error.value(), "legacy");
}

#[test]
fn zero_capacity_is_rejected_by_name() {
    let capacities = MeshletCapacityConfig {
        max_instances: 0,
        ..Default::default()
    };
    assert_eq!(
        capacities.validate(),
        Err(MeshletConfigError::ZeroCapacity {
            name: "max_instances"
        })
    );
}

#[test]
fn default_renderer_config_is_the_shipped_one_and_valid() {
    let config = MeshletRendererConfig::default();
    assert_eq!(config, MeshletRendererConfig::default_config());
    assert_eq!(config.bindless.max_textures, 4_096);
    assert_eq!(config.bindless.max_samplers, 32);
    assert_eq!(config.capacities, MeshletCapacityConfig::default_config());
    assert_eq!(config.validate(), Ok(()));
}

use zen_render_mesh::capabilities::{
    AdapterBackend, MeshletBindlessCapacity, MeshletCapabilities, MeshletCapabilityError,
    MeshletDeviceRequirements, MeshletDownlevelFlags, MeshletFeatures, MeshletLimits,
    TASK_PAYLOAD_BYTES,
};
use zen_render_mesh::config::{
    MeshletBackend, MeshletBenchmarkProfile, MeshletRendererConfig, TASK_PACKET_MESHLET_COUNT,
};
use zen_render_mesh::driver::{MeshletDriverBlacklist, MeshletDriverBlacklistEntry, MeshletDriverKey};

fn indexed_features() -> MeshletFeatures {
    MeshletDeviceRequirements::required_features(MeshletBackend::IndexedIndirect).unwrap()
}

fn with_mesh_shader(features: MeshletFeatures) -> MeshletFeatures {
    MeshletFeatures {
        experimental_mesh_shader: true,
        ..features
    }
}

fn all_features() -> MeshletFeatures {
    MeshletFeatures {
        texture_binding_array: true,
        partially_bound_binding_array: true,
        sampled_texture_and_storage_buffer_array_non_uniform_indexing: true,
        multi_draw_indirect_count: true,
        indirect_first_instance: true,
        experimental_mesh_shader: true,
    }
}

/// Default adapter limits raised to the recommended mesh-shader minimums, with large bindless
/// tables.
fn mesh_limits() -> MeshletLimits {
    MeshletLimits {
        max_binding_array_elements_per_shader_stage: 8_192,
        max_binding_array_sampler_elements_per_shader_stage: 1_024,
        max_storage_buffer_binding_size: 128 << 20,
        max_buffer_size: 256 << 20,
        max_mesh_workgroup_total_count: 1_024,
        max_mesh_workgroups_per_dimension: 1_024,
        max_mesh_invocations_per_workgroup: 128,
        max_mesh_invocations_per_dimension: 128,
        max_mesh_output_vertices: 256,
        max_mesh_output_primitives: 256,
        max_task_workgroup_total_count: 1 << 22,
        max_task_workgroups_per_dimension: 65_535,
        max_task_invocations_per_workgroup: 128,
        max_task_invocations_per_dimension: 64,
        max_task_payload_size: 16_352,
    }
}

fn capabilities(features: MeshletFeatures) -> MeshletCapabilities {
    MeshletCapabilities::from_parts(AdapterBackend::Vulkan, features, mesh_limits())
}

fn qualifying_profile() -> MeshletBenchmarkProfile {
    MeshletBenchmarkProfile {
        geometry_bound: true,
        warmup_frames: 120,
        sample_frames: 600,
        indexed_gpu_p95_ns: 100,
        task_mesh_gpu_p95_ns: 90,
    }
}

fn config_for(backend: MeshletBackend) -> MeshletRendererConfig {
    MeshletRendererConfig {
        backend,
        ..MeshletRendererConfig::default()
    }
}

#[test]
fn indexed_feature_tier_does_not_enable_experimental_mesh_shaders() {
    let indexed = indexed_features();
    assert!(indexed.texture_binding_array);
    assert!(indexed.partially_bound_binding_array);
    assert!(indexed.multi_draw_indirect_count);
    assert!(indexed.indirect_first_instance);
    assert!(!indexed.experimental_mesh_shader);
}

#[test]
fn mesh_tiers_add_the_experimental_feature() {
    for backend in [MeshletBackend::MeshOnly, MeshletBackend::TaskMesh] {
        let required = MeshletDeviceRequirements::required_features(backend).unwrap();
        assert!(required.contains(indexed_features()));
        assert!(required.experimental_mesh_shader);
    }
}

#[test]
fn non_vulkan_backends_are_rejected_even_with_all_features() {
    let capabilities =
        MeshletCapabilities::from_parts(AdapterBackend::Dx12, all_features(), mesh_limits());
    assert_eq!(
        capabilities.validate_backend(MeshletBackend::IndexedIndirect),
        Err(MeshletCapabilityError::UnsupportedWgpuBackend {
            actual: AdapterBackend::Dx12
        })
    );
}

#[test]
fn every_concrete_backend_requires_indirect_execution() {
    for backend in [
        MeshletBackend::IndexedIndirect,
        MeshletBackend::MeshOnly,
        MeshletBackend::TaskMesh,
    ] {
        assert_eq!(
            MeshletDeviceRequirements::required_downlevel_flags(backend).unwrap(),
            MeshletDownlevelFlags {
                indirect_execution: true
            }
        );
    }

    let capabilities = MeshletCapabilities::from_parts_with_downlevel(
        AdapterBackend::Vulkan,
        indexed_features(),
        mesh_limits(),
        MeshletDownlevelFlags::default(),
    );
    assert_eq!(
        capabilities.validate_backend(MeshletBackend::IndexedIndirect),
        Err(MeshletCapabilityError::MissingDownlevelFlags {
            backend: MeshletBackend::IndexedIndirect,
            missing: MeshletDownlevelFlags {
                indirect_execution: true
            },
        })
    );
}

#[test]
fn unknown_auto_profile_selects_indexed() {
    let capabilities = capabilities(indexed_features());
    let resolved = capabilities
        .resolve_backend(&MeshletRendererConfig::default())
        .unwrap();
    assert_eq!(resolved, MeshletBackend::IndexedIndirect);
}

#[test]
fn qualifying_auto_profile_selects_task_mesh_when_supported() {
    let capabilities = capabilities(with_mesh_shader(indexed_features()));
    let config = MeshletRendererConfig {
        auto_benchmark_profile: Some(qualifying_profile()),
        ..MeshletRendererConfig::default()
    };
    assert_eq!(
        capabilities.resolve_backend(&config).unwrap(),
        MeshletBackend::TaskMesh
    );
}

#[test]
fn qualifying_profile_falls_back_when_mesh_shader_is_unavailable() {
    let capabilities = capabilities(indexed_features());
    let config = MeshletRendererConfig {
        auto_benchmark_profile: Some(qualifying_profile()),
        ..MeshletRendererConfig::default()
    };
    assert_eq!(
        capabilities.resolve_backend(&config).unwrap(),
        MeshletBackend::IndexedIndirect
    );
}

#[test]
fn task_mesh_checks_task_limits_in_addition_to_mesh_limits() {
    let mut limits = mesh_limits();
    limits.max_task_payload_size = TASK_PAYLOAD_BYTES - 1;
    let capabilities = MeshletCapabilities::from_parts(
        AdapterBackend::Vulkan,
        with_mesh_shader(indexed_features()),
        limits,
    );
    let error = capabilities
        .validate_backend(MeshletBackend::TaskMesh)
        .unwrap_err();
    let MeshletCapabilityError::InsufficientLimits { failures, .. } = error else {
        panic!("expected an insufficient-limits error")
    };
    assert!(failures.iter().any(|failure| {
        failure.name == "max_task_payload_size"
            && failure.required == 32 * 16
            && failure.required == TASK_PAYLOAD_BYTES
    }));
}

#[test]
fn device_request_clamps_bindless_tables_to_adapter_limits() {
    let mut limits = mesh_limits();
    limits.max_binding_array_elements_per_shader_stage = 64;
    limits.max_binding_array_sampler_elements_per_shader_stage = 16;
    let capabilities =
        MeshletCapabilities::from_parts(AdapterBackend::Vulkan, indexed_features(), limits);
    let requirements = capabilities
        .device_requirements(&MeshletRendererConfig::default())
        .unwrap();
    assert_eq!(
        requirements.bindless_capacity(),
        MeshletBindlessCapacity {
            textures: 48,
            samplers: 16
        }
    );
    assert_eq!(
        requirements
            .limits()
            .max_binding_array_elements_per_shader_stage,
        64
    );
}

#[test]
fn only_mesh_backends_require_the_experimental_token() {
    let indexed = capabilities(indexed_features())
        .device_requirements(&config_for(MeshletBackend::IndexedIndirect))
        .unwrap();
    assert!(!indexed.requires_experimental_features());

    let mesh = capabilities(with_mesh_shader(indexed_features()))
        .device_requirements(&config_for(MeshletBackend::MeshOnly))
        .unwrap();
    assert!(mesh.requires_experimental_features());
}

#[test]
fn task_mesh_requires_room_for_every_packet_mesh_output() {
    let mut limits = mesh_limits();
    limits.max_mesh_workgroup_total_count = TASK_PACKET_MESHLET_COUNT - 1;
    let capabilities = MeshletCapabilities::from_parts(
        AdapterBackend::Vulkan,
        with_mesh_shader(indexed_features()),
        limits,
    );

    assert!(capabilities.validate_backend(MeshletBackend::MeshOnly).is_ok());
    let MeshletCapabilityError::InsufficientLimits { failures, .. } = capabilities
        .validate_backend(MeshletBackend::TaskMesh)
        .unwrap_err()
    else {
        panic!("expected task mesh limit failure")
    };
    assert!(failures.iter().any(|failure| {
        failure.name == "max_mesh_workgroup_total_count"
            && failure.required == TASK_PACKET_MESHLET_COUNT
    }));

    let mut limits = mesh_limits();
    limits.max_mesh_workgroups_per_dimension = TASK_PACKET_MESHLET_COUNT - 1;
    let capabilities = MeshletCapabilities::from_parts(
        AdapterBackend::Vulkan,
        with_mesh_shader(indexed_features()),
        limits,
    );
    assert!(capabilities.validate_backend(MeshletBackend::MeshOnly).is_ok());
    let MeshletCapabilityError::InsufficientLimits { failures, .. } = capabilities
        .validate_backend(MeshletBackend::TaskMesh)
        .unwrap_err()
    else {
        panic!("expected task mesh per-dimension limit failure")
    };
    assert!(failures.iter().any(|failure| {
        failure.name == "max_mesh_workgroups_per_dimension"
            && failure.required == TASK_PACKET_MESHLET_COUNT
    }));
}

#[test]
fn mesh_device_request_preserves_the_adapters_full_dispatch_limits() {
    let mut limits = mesh_limits();
    limits.max_mesh_workgroup_total_count = 97;
    limits.max_mesh_workgroups_per_dimension = 89;
    limits.max_task_workgroup_total_count = 83;
    limits.max_task_workgroups_per_dimension = 79;
    let capabilities = MeshletCapabilities::from_parts(
        AdapterBackend::Vulkan,
        with_mesh_shader(indexed_features()),
        limits,
    );
    let requirements = capabilities
        .device_requirements(&config_for(MeshletBackend::TaskMesh))
        .unwrap();

    let mesh = requirements.limits().mesh.unwrap();
    let task = requirements.limits().task.unwrap();
    assert_eq!(mesh.max_mesh_workgroup_total_count, limits.max_mesh_workgroup_total_count);
    assert_eq!(
        mesh.max_mesh_workgroups_per_dimension,
        limits.max_mesh_workgroups_per_dimension
    );
    assert_eq!(task.max_task_workgroup_total_count, limits.max_task_workgroup_total_count);
    assert_eq!(
        task.max_task_workgroups_per_dimension,
        limits.max_task_workgroups_per_dimension
    );
}

#[test]
fn exact_driver_blacklist_is_empty_by_default_and_auditable_when_supplied() {
    let capabilities = MeshletCapabilities::from_adapter_parts(
        AdapterBackend::Vulkan,
        with_mesh_shader(indexed_features()),
        mesh_limits(),
        MeshletDownlevelFlags {
            indirect_execution: true,
        },
        MeshletDriverKey {
            vendor: 0x10de,
            device: 0x1234,
            driver: "example-vulkan".into(),
            driver_info: "1.2.3".into(),
        },
    );
    let auto = MeshletRendererConfig {
        auto_benchmark_profile: Some(qualifying_profile()),
        ..MeshletRendererConfig::default()
    };
    assert_eq!(
        capabilities.resolve_backend(&auto).unwrap(),
        MeshletBackend::TaskMesh
    );

    let blacklist = MeshletDriverBlacklist {
        entries: vec![MeshletDriverBlacklistEntry {
            key: capabilities.driver_key().clone(),
            backend: MeshletBackend::TaskMesh,
            reason: "known test-only regression".into(),
        }],
    };
    assert_eq!(
        capabilities
            .resolve_backend_with_blacklist(&auto, &blacklist)
            .unwrap(),
        MeshletBackend::IndexedIndirect
    );

    let explicit = config_for(MeshletBackend::TaskMesh);
    assert!(matches!(
        capabilities.resolve_backend_with_blacklist(&explicit, &blacklist),
        Err(MeshletCapabilityError::BlacklistedDriver {
            backend: MeshletBackend::TaskMesh,
            ..
        })
    ));
}

#[test]
fn unresolved_backend_has_no_feature_set() {
    assert_eq!(
        MeshletDeviceRequirements::required_features(MeshletBackend::Auto),
        Err(MeshletCapabilityError::UnresolvedBackend)
    );
    assert_eq!(
        MeshletDeviceRequirements::required_downlevel_flags(MeshletBackend::Auto),
        Err(MeshletCapabilityError::UnresolvedBackend)
    );
}

#[test]
fn missing_mesh_feature_is_reported_for_mesh_backends() {
    let capabilities = capabilities(indexed_features());
    assert_eq!(
        capabilities.validate_backend(MeshletBackend::MeshOnly),
        Err(MeshletCapabilityError::MissingFeatures {
            backend: MeshletBackend::MeshOnly,
            missing: MeshletFeatures {
                experimental_mesh_shader: true,
                ..MeshletFeatures::empty()
            },
        })
    );
    assert!(capabilities.supports_backend(MeshletBackend::IndexedIndirect));
    assert!(!capabilities.supports_backend(MeshletBackend::TaskMesh));
}

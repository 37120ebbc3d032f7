use zen_render_mesh::asset::{BoundsSphere, MeshTableEntry, MeshletAssetError, MeshletPsoClass};
use zen_render_mesh::capabilities::{
    AdapterBackend, MeshletBindlessCapacity, MeshletCapabilities, MeshletDeviceRequirements,
    MeshletDownlevelFlags, MeshletFeatures, MeshletLimits,
};
use zen_render_mesh::config::{
    MeshletBackend, MeshletBindlessConfig, MeshletCapacityConfig, MeshletRendererConfig,
};
use zen_render_mesh::frame::{
    gpu_buffer_sizes, validate_gpu_buffer_limits, MaterialBindings, MaterialTextureBinding, MeshletRendererError,
    SceneStreamCounts,
};
use zen_render_mesh::readback::MeshletStatsReadback;
use zen_render_mesh::renderer::{
    check_scene_capacity, classify_instances, frame_extent, prepare_materials, remap_materials,
    validate_instance_dispatch, validate_requirements, FrameLedger, InstanceInput,
    MeshletRenderMode, PreparedMeshletFrame,
};

fn default_limits(general: u32, samplers: u32) -> MeshletLimits {
    MeshletLimits {
        max_binding_array_elements_per_shader_stage: general,
        max_binding_array_sampler_elements_per_shader_stage: samplers,
        max_storage_buffer_binding_size: 128 << 20,
        max_buffer_size: 256 << 20,
        max_mesh_workgroup_total_count: 0,
        max_mesh_workgroups_per_dimension: 0,
        max_mesh_invocations_per_workgroup: 0,
        max_mesh_invocations_per_dimension: 0,
        max_mesh_output_vertices: 0,
        max_mesh_output_primitives: 0,
        max_task_workgroup_total_count: 0,
        max_task_workgroups_per_dimension: 0,
        max_task_invocations_per_workgroup: 0,
        max_task_invocations_per_dimension: 0,
        max_task_payload_size: 0,
    }
}

fn mesh(pso_class: u32) -> MeshTableEntry {
    MeshTableEntry {
        first_lod: 0,
        lod_count: 1,
        first_vertex: 0,
        vertex_count: 3,
        material_slot: 0,
        pso_class,
        bounds: BoundsSphere::default(),
    }
}

fn instance(mesh_id: u32, material_id: u32, positive_determinant: bool) -> InstanceInput {
    InstanceInput {
        mesh_id,
        material_id,
        finite_affine: true,
        positive_determinant,
    }
}

fn binding(texture_id: u32, sampler_id: u32) -> MaterialTextureBinding {
    MaterialTextureBinding {
        texture_id,
        sampler_id,
    }
}

#[test]
fn mirrored_or_indeterminate_instances_use_the_two_sided_bin() {
    let meshes = [mesh(0), mesh(1)];
    let instances = [
        instance(0, 0, true),
        instance(0, 0, false),
        instance(1, 0, false),
        instance(1, 0, true),
    ];
    let classes = classify_instances(&instances, &meshes, 1).unwrap();
    assert_eq!(
        classes,
        vec![
            MeshletPsoClass::OpaqueBackface,
            MeshletPsoClass::OpaqueTwoSided,
            MeshletPsoClass::OpaqueTwoSided,
            MeshletPsoClass::OpaqueTwoSided,
        ]
    );
}

#[test]
fn instance_references_are_checked_in_order() {
    let meshes = [mesh(0)];
    let bad_transform = InstanceInput {
        finite_affine: false,
        ..instance(5, 5, true)
    };
    assert!(matches!(
        classify_instances(&[instance(0, 0, true), bad_transform], &meshes, 1),
        Err(MeshletRendererError::InvalidInstanceTransform { instance: 1 })
    ));
    assert!(matches!(
        classify_instances(&[instance(1, 0, true)], &meshes, 1),
        Err(MeshletRendererError::InvalidInstanceMesh {
            instance: 0,
            mesh_id: 1,
            mesh_count: 1
        })
    ));
    assert!(matches!(
        classify_instances(&[instance(0, 2, true)], &meshes, 2),
        Err(MeshletRendererError::InvalidInstanceMaterial {
            instance: 0,
            material_id: 2,
            material_count: 2
        })
    ));
}

#[test]
fn device_requirements_are_bound_to_the_exact_renderer_config() {
    let features =
        MeshletDeviceRequirements::required_features(MeshletBackend::IndexedIndirect).unwrap();
    let limits = default_limits(5, 1);
    let config = MeshletRendererConfig {
        backend: MeshletBackend::IndexedIndirect,
        bindless: MeshletBindlessConfig {
            max_textures: 4,
            max_samplers: 1,
        },
        ..MeshletRendererConfig::default()
    };
    let requirements = MeshletCapabilities::from_parts_with_downlevel(
        AdapterBackend::Vulkan,
        features,
        limits,
        MeshletDownlevelFlags {
            indirect_execution: true,
        },
    )
    .device_requirements(&config)
    .unwrap();
    let mut different = config;
    different.bindless.max_textures = 3;

    assert!(matches!(
        validate_requirements(features, &limits, different, &requirements),
        Err(MeshletRendererError::RequirementsConfigMismatch)
    ));
    assert!(validate_requirements(features, &limits, config, &requirements).is_ok());
    assert!(matches!(
        validate_requirements(MeshletFeatures::empty(), &limits, config, &requirements),
        Err(MeshletRendererError::DeviceMissingFeatures { .. })
    ));
    assert!(matches!(
        validate_requirements(features, &default_limits(4, 1), config, &requirements),
        Err(MeshletRendererError::DeviceLimitsMismatch)
    ));
    let mesh_config = MeshletRendererConfig {
        backend: MeshletBackend::MeshOnly,
        ..config
    };
    assert!(matches!(
        validate_requirements(features, &limits, mesh_config, &requirements),
        Err(MeshletRendererError::RequirementsConfigMismatch)
    ));
}

#[test]
fn gpu_buffer_sizes_are_rejected_before_resource_creation() {
    let scene = SceneStreamCounts {
        vertices: 0,
        meshes: 0,
        lods: 0,
        meshlets: 0,
        meshlet_vertex_refs: 0,
        micro_indices: 0,
        fallback_indices: 0,
        instances: 0,
        materials: 1,
    };
    let capacities = MeshletCapacityConfig {
        max_instances: 1,
        max_candidate_meshlets: u32::MAX,
        max_visible_meshlets: 2,
        max_indirect_draws_per_bin: 1,
        ..MeshletCapacityConfig::default()
    };
    let error = validate_gpu_buffer_limits(scene, capacities, 256 << 20, 128 << 20).unwrap_err();
    assert!(matches!(
        error,
        MeshletRendererError::BufferLimitExceeded {
            buffer: "candidate work",
            ..
        }
    ));
}

#[test]
fn scene_capacity_reserves_the_fallback_slots() {
    let capacities = MeshletCapacityConfig::default();
    let bindless = MeshletBindlessCapacity {
        textures: 8,
        samplers: 2,
    };
    assert!(check_scene_capacity(capacities, bindless, 10, 5, 1).is_ok());
    assert!(matches!(
        check_scene_capacity(capacities, bindless, 10, 6, 1),
        Err(MeshletRendererError::TextureCapacityExceeded {
            actual: 6,
            capacity: 5
        })
    ));
    assert!(matches!(
        check_scene_capacity(capacities, bindless, 10, 0, 2),
        Err(MeshletRendererError::SamplerCapacityExceeded {
            actual: 2,
            capacity: 1
        })
    ));
    let small = MeshletCapacityConfig {
        max_instances: 3,
        ..capacities
    };
    assert!(matches!(
        check_scene_capacity(small, bindless, 4, 0, 0),
        Err(MeshletRendererError::InstanceCapacityExceeded {
            actual: 4,
            capacity: 3
        })
    ));
}

#[test]
fn materials_move_onto_bindless_slots() {
    let material = MaterialBindings {
        albedo: binding(0, 0),
        emissive: binding(1, 0),
        occlusion: binding(0, 0),
    };
    let defaults = remap_materials(&[], 0, 0);
    assert_eq!(defaults, vec![material]);

    let with_user_resources = remap_materials(&[material], 2, 1);
    assert_eq!(
        with_user_resources,
        vec![MaterialBindings {
            albedo: binding(3, 1),
            emissive: binding(4, 1),
            occlusion: binding(3, 1),
        }]
    );
    let fallback_only = remap_materials(&[material], 0, 1);
    assert_eq!(fallback_only[0].emissive, binding(1, 1));
}

#[test]
fn instance_dispatch_must_fit_a_square_launch() {
    assert!(validate_instance_dispatch(64 * 4, 2).is_ok());
    assert!(matches!(
        validate_instance_dispatch(64 * 4 + 1, 2),
        Err(MeshletRendererError::InstanceDispatchExceeded {
            groups: 5,
            max_dimension: 2
        })
    ));
    assert!(validate_instance_dispatch(u32::MAX, 65_535).is_ok());
}

#[test]
fn prepared_frames_are_current_until_they_end() {
    let mut ledger = FrameLedger::new(7);
    let epoch = 3;
    let frame_id = ledger.begin(epoch);
    assert_eq!(frame_id, 1);
    let prepared = PreparedMeshletFrame {
        renderer_id: ledger.renderer_id(),
        frame_id,
        enable_occlusion_culling: true,
        extent: frame_extent(0, 8),
        bindless_epoch: epoch,
        readback_index: None,
        stats_frame_index: 11,
    };
    assert_eq!(prepared.extent.width, 1);
    assert!(ledger.check(&prepared, epoch).is_ok());
    assert!(matches!(
        ledger.check(&prepared, epoch + 1),
        Err(MeshletRendererError::StalePreparedFrame)
    ));
    let foreign = PreparedMeshletFrame {
        renderer_id: 8,
        ..prepared
    };
    assert!(matches!(
        ledger.check(&foreign, epoch),
        Err(MeshletRendererError::ForeignPreparedFrame)
    ));
    ledger.end();
    assert!(!ledger.is_prepared());
    assert!(matches!(
        ledger.check(&prepared, epoch),
        Err(MeshletRendererError::StalePreparedFrame)
    ));
    assert_eq!(ledger.begin(epoch), 2);
}

fn empty_scene() -> SceneStreamCounts {
    SceneStreamCounts {
        vertices: 0,
        meshes: 0,
        lods: 0,
        meshlets: 0,
        meshlet_vertex_refs: 0,
        micro_indices: 0,
        fallback_indices: 0,
        instances: 0,
        materials: 0,
    }
}

#[test]
fn dynamic_work_buffers_include_both_pso_bins() {
    let capacities = MeshletCapacityConfig {
        max_instances: 4,
        max_candidate_meshlets: 8,
        max_visible_meshlets: 8,
        max_indirect_draws_per_bin: 4,
        ..MeshletCapacityConfig::default()
    };
    let sizes = gpu_buffer_sizes(empty_scene(), capacities).unwrap();
    assert_eq!(sizes.len(), 20);
    assert_eq!(sizes[13], 8 * 16);
    assert_eq!(sizes[10], 4);
    assert_eq!(sizes[14], 8 * 20);
    assert_eq!(sizes[0], 4);
}

#[test]
fn discarded_frame_keeps_meshlet_stats_request() {
    let mut ledger = FrameLedger::new(1);
    let mut stats = MeshletStatsReadback::new(0, MeshletBackend::IndexedIndirect);
    stats.request();

    let epoch = 1;
    let frame_id = ledger.begin(epoch);
    let discarded = PreparedMeshletFrame {
        renderer_id: ledger.renderer_id(),
        frame_id,
        enable_occlusion_culling: false,
        extent: frame_extent(8, 8),
        bindless_epoch: epoch,
        readback_index: stats.planned_buffer_index(),
        stats_frame_index: 0,
    };
    assert_eq!(discarded.readback_index, Some(0));
    assert!(ledger.check(&discarded, epoch).is_ok());
    ledger.end();

    let retry_id = ledger.begin(epoch);
    assert_ne!(retry_id, frame_id);
    assert_eq!(stats.planned_buffer_index(), Some(0));
}

#[test]
fn render_mode_defaults_to_shaded_and_carries_its_uniform_code() {
    assert_eq!(MeshletRenderMode::default(), MeshletRenderMode::Shaded);
    assert_eq!(MeshletRenderMode::Shaded.code(), 0);
    assert_eq!(MeshletRenderMode::MeshletId.code(), 1);
}

#[test]
fn an_instance_of_a_mesh_with_an_unknown_class_is_refused_in_instance_order() {
    let meshes = [mesh(0), mesh(7)];
    let bad_transform = InstanceInput { finite_affine: false, ..instance(0, 0, true) };
    // The second instance's transform is checked before the third instance's mesh class.
    assert!(matches!(
        classify_instances(&[instance(0, 0, true), bad_transform, instance(1, 0, true)], &meshes, 1),
        Err(MeshletRendererError::InvalidInstanceTransform { instance: 1 })
    ));
    match classify_instances(&[instance(0, 0, true), instance(1, 0, true)], &meshes, 1) {
        Err(MeshletRendererError::InvalidAsset(MeshletAssetError::InvalidAsset(message))) => {
            assert_eq!(message, "unknown PSO class");
        }
        other => panic!("unexpected result {other:?}"),
    }
    // A mesh with an unknown class that no instance draws is not an upload error.
    assert!(classify_instances(&[instance(0, 0, true)], &meshes, 1).is_ok());
}

#[test]
fn prepared_materials_are_checked_then_moved_onto_bindless_slots() {
    let material = MaterialBindings {
        albedo: binding(1, 0),
        emissive: binding(0, 0),
        occlusion: binding(0, 0),
    };
    assert_eq!(
        prepare_materials(&[material], 2, 1).unwrap(),
        remap_materials(&[material], 2, 1)
    );
    assert!(matches!(
        prepare_materials(&[material], 1, 1),
        Err(MeshletRendererError::InvalidMaterialTexture { material: 0, texture_id: 1, .. })
    ));
    assert!(matches!(
        prepare_materials(&[], usize::MAX, 0),
        Err(MeshletRendererError::TextureCapacityExceeded { actual: usize::MAX, capacity: 4_294_967_292 })
    ));
    assert!(matches!(
        prepare_materials(&[], 0, 4_294_967_295),
        Err(MeshletRendererError::SamplerCapacityExceeded { actual: 4_294_967_295, capacity: 4_294_967_294 })
    ));
}

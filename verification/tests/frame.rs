use zen_render_mesh::config::MeshletBackend;
use zen_render_mesh::frame::{
    clear_coarse_results_before_backend, record_final_compute_cull, should_clear_resource_pool,
    HiZPyramidDesc, SurfaceHistory,
};

#[test]
fn every_backend_reuses_coarse_visibility_or_runs_the_same_final_compute_cull() {
    for backend in [
        MeshletBackend::IndexedIndirect,
        MeshletBackend::MeshOnly,
        MeshletBackend::TaskMesh,
    ] {
        assert!(!clear_coarse_results_before_backend(backend, false));
        assert!(!record_final_compute_cull(backend, false));
        assert!(clear_coarse_results_before_backend(backend, true));
        assert!(record_final_compute_cull(backend, true));
    }
}

#[test]
fn host_pool_is_cleared_only_after_a_successful_extent_changes() {
    assert!(!should_clear_resource_pool(None, (800, 600)));
    assert!(!should_clear_resource_pool(Some((800, 600)), (800, 600)));
    assert!(should_clear_resource_pool(Some((800, 600)), (1280, 720)));
}

#[test]
fn renderer_pool_is_cleared_only_after_a_successful_extent_changes() {
    assert!(!should_clear_resource_pool(None, (800, 600)));
    assert!(!should_clear_resource_pool(Some((800, 600)), (800, 600)));
    assert!(should_clear_resource_pool(Some((800, 600)), (1280, 720)));
}

#[test]
fn a_failed_frame_does_not_move_the_surface_history() {
    let mut history = SurfaceHistory::new();
    assert!(!history.should_clear((800, 600)));
    history.finish((800, 600), true);
    assert!(history.should_clear((1280, 720)));
    history.finish((1280, 720), false);
    assert!(history.should_clear((1280, 720)));
    history.finish((1280, 720), true);
    assert!(!history.should_clear((1280, 720)));
}

#[test]
fn non_power_of_two_dimensions_follow_webgpu_mip_extents() {
    let desc = HiZPyramidDesc::new(13, 7);
    assert_eq!(desc.mip_level_count(), 4);
    let base = desc.mip_extent(0);
    assert_eq!(
        (base.width, base.height, base.depth_or_array_layers),
        (13, 7, 1)
    );
    assert_eq!(desc.mip_extent(1).width, 6);
    assert_eq!(desc.mip_extent(1).height, 3);
    assert_eq!(desc.mip_extent(3).width, 1);
    assert_eq!(desc.mip_extent(3).height, 1);
}

#[test]
fn one_by_one_and_zero_dimensions_produce_one_mip() {
    for desc in [HiZPyramidDesc::new(1, 1), HiZPyramidDesc::new(0, 0)] {
        assert_eq!(desc.width(), 1);
        assert_eq!(desc.height(), 1);
        assert_eq!(desc.mip_level_count(), 1);
        assert_eq!(desc.mip_extent(0).width, 1);
        assert_eq!(desc.mip_extent(0).height, 1);
    }
}

use zen_render_mesh::config::MeshletBackend;
use zen_render_mesh::dispatch::{
    bounded_dispatch, dispatch_2d, hierarchical_prefix_scan, indirect_workgroup_total_limits,
    instance_dispatch, prefix_scan_dispatch,
    rectangular_dispatch_limit, reference_prefix_scan, scatter_destination, task_packets_enabled,
};
use zen_render_mesh::gpu_types::PREFIX_SCAN_WORKGROUP_SIZE;

#[test]
fn dispatch_flattens_to_two_dimensions_without_padding_the_first_row() {
    assert_eq!(dispatch_2d(0, 65_535), (0, 1));
    assert_eq!(dispatch_2d(17, 65_535), (17, 1));
    assert_eq!(dispatch_2d(65_536, 65_535), (65_535, 2));
}

#[test]
fn hierarchical_prefix_scan_matches_wide_reference_at_block_boundaries() {
    for count in [0usize, 1, 255, 256, 257, 16_383, 16_384, 16_385, 262_144] {
        let counts = (0..count)
            .map(|index| ((index * 17 + 3) % 11) as u32)
            .collect::<Vec<_>>();
        let exact_total = counts.iter().map(|value| u64::from(*value)).sum::<u64>();
        for capacity in [
            1,
            exact_total.saturating_sub(1).min(u64::from(u32::MAX)) as u32,
            exact_total.min(u64::from(u32::MAX)) as u32,
            exact_total.saturating_add(1).min(u64::from(u32::MAX)) as u32,
            u32::MAX,
        ] {
            assert_eq!(
                hierarchical_prefix_scan(&counts, capacity),
                reference_prefix_scan(&counts, capacity),
                "count={count}, capacity={capacity}",
            );
        }
    }
}

#[test]
fn hierarchical_prefix_scan_saturates_u32_and_reports_overflow() {
    for counts in [
        vec![u32::MAX, 1],
        vec![u32::MAX - 1, 1, 1],
        vec![u32::MAX; PREFIX_SCAN_WORKGROUP_SIZE as usize + 1],
    ] {
        assert_eq!(
            hierarchical_prefix_scan(&counts, u32::MAX),
            reference_prefix_scan(&counts, u32::MAX),
        );
        assert!(hierarchical_prefix_scan(&counts, u32::MAX).2);
    }
}

#[test]
fn mesh_dispatch_never_exceeds_the_total_workgroup_limit() {
    for maximum_dimension in [1, 7, 64, 1_024] {
        for total_limit in [0, 1, 31, 1_000, 1_024, 65_536] {
            for count in [0, 1, 17, 999, 1_000, 1_025, 65_536] {
                let ((x, y), overflow) = bounded_dispatch(count, maximum_dimension, total_limit);
                assert!(x <= maximum_dimension);
                assert!(y <= maximum_dimension);
                assert!(u64::from(x) * u64::from(y) <= u64::from(total_limit));
                if !overflow && total_limit != 0 {
                    assert!(u64::from(x) * u64::from(y) >= u64::from(count));
                }
            }
        }
    }

    assert_eq!(bounded_dispatch(65_536, 65_535, 70_000), ((2, 32_768), false));
    assert_eq!(bounded_dispatch(1_000, 64, 1_024), ((16, 63), false));
    assert_eq!(bounded_dispatch(1_000, 64, 1_000), ((16, 62), true));
}

#[test]
fn zero_specialization_limit_disables_an_unused_stage_without_overflow() {
    assert_eq!(bounded_dispatch(37, 64, 0), ((0, 1), false));
    assert_eq!(bounded_dispatch(37, 64, 64), ((1, 37), false));
    assert_eq!(bounded_dispatch(65, 64, 64), ((1, 64), true));
}

#[test]
fn only_the_backend_consumed_indirect_dispatch_is_enabled() {
    let mesh_limit = 1_024;
    let task_limit = 2_048;
    assert_eq!(
        indirect_workgroup_total_limits(MeshletBackend::IndexedIndirect, mesh_limit, task_limit),
        (0, 0)
    );
    assert_eq!(
        indirect_workgroup_total_limits(MeshletBackend::MeshOnly, mesh_limit, task_limit),
        (mesh_limit, 0)
    );
    assert_eq!(
        indirect_workgroup_total_limits(MeshletBackend::TaskMesh, mesh_limit, task_limit),
        (0, task_limit)
    );
}

#[test]
fn compute_visible_backends_do_not_build_retired_task_packets() {
    for backend in [
        MeshletBackend::IndexedIndirect,
        MeshletBackend::MeshOnly,
        MeshletBackend::TaskMesh,
    ] {
        assert!(!task_packets_enabled(backend));
    }
}

#[test]
fn scatter_destination_check_cannot_wrap_at_u32_capacity() {
    assert_eq!(scatter_destination(u32::MAX - 1, 0, u32::MAX), Some(u32::MAX - 1));
    assert_eq!(scatter_destination(u32::MAX - 1, 1, u32::MAX), None);
    assert_eq!(scatter_destination(u32::MAX, 0, u32::MAX), None);
    assert_eq!(scatter_destination(7, u32::MAX, u32::MAX), None);
}

#[test]
fn rectangular_limit_prefers_the_narrowest_row() {
    assert_eq!(rectangular_dispatch_limit(0, 64), (1, 0));
    assert_eq!(rectangular_dispatch_limit(1_024, 64), (16, 1_024));
    assert_eq!(rectangular_dispatch_limit(1_000, 64), (16, 992));
    assert_eq!(rectangular_dispatch_limit(70_000, 65_535), (2, 70_000));
}

#[test]
fn reference_scan_offsets_are_exclusive_and_clamped() {
    assert_eq!(reference_prefix_scan(&[3, 4, 5], 100), (vec![0, 3, 7], 12, false));
    assert_eq!(reference_prefix_scan(&[3, 4, 5], 5), (vec![0, 3, 5], 5, true));
    assert_eq!(reference_prefix_scan(&[], 5), (vec![], 0, false));
}

#[test]
fn per_instance_passes_launch_one_thread_per_instance() {
    assert_eq!(instance_dispatch(0, 65_535), (0, 1));
    assert_eq!(instance_dispatch(64, 65_535), (1, 1));
    assert_eq!(instance_dispatch(65, 65_535), (2, 1));
    assert_eq!(instance_dispatch(64 * 10, 4), (4, 3));
    assert_eq!(prefix_scan_dispatch(0, 65_535), None);
    assert_eq!(prefix_scan_dispatch(257, 65_535), Some((2, 1)));
}

use zen_render_mesh::config::MeshletBackend;
use zen_render_mesh::readback::{decode, GpuCounters, MeshletStatsReadback, SlotState};
use zen_render_mesh::stats::{
    MeshletGpuFrameTimings, MeshletGpuPassTimings, MeshletGpuTimingError, MeshletTimingReport,
};

fn submitted_frame(readback: &MeshletStatsReadback, index: usize) -> Option<(u64, u64)> {
    match readback.slot(index) {
        SlotState::Submitted {
            eligible_epoch,
            frame_index,
            ..
        } => Some((eligible_epoch, frame_index)),
        _ => None,
    }
}

#[test]
fn planning_and_discard_do_not_consume_the_request() {
    let mut readback = MeshletStatsReadback::new(42, MeshletBackend::IndexedIndirect);

    readback.request();
    assert_eq!(readback.planned_buffer_index(), Some(0));
    assert_eq!(readback.planned_buffer_index(), Some(0));

    let mapped = readback.after_submit();
    assert!(mapped.is_empty());
    assert_eq!(readback.planned_buffer_index(), Some(0));
    assert!(readback.is_requested());
    assert_eq!(readback.next_index(), 0);
}

#[test]
fn mapping_does_not_begin_before_three_after_submit_calls() {
    let mut readback = MeshletStatsReadback::new(1, MeshletBackend::IndexedIndirect);

    readback.request();
    readback.commit_submitted(0, 17);
    assert_eq!(submitted_frame(&readback, 0), Some((3, 17)));

    assert!(readback.after_submit().is_empty());
    assert!(submitted_frame(&readback, 0).is_some());
    assert!(readback.after_submit().is_empty());
    assert!(submitted_frame(&readback, 0).is_some());

    assert_eq!(readback.after_submit(), vec![0]);
    assert!(submitted_frame(&readback, 0).is_none());
    assert!(readback.is_mapping());
}

#[test]
fn counter_decode_preserves_bins_and_saturates_totals() {
    let counters = GpuCounters {
        candidate_count: 17,
        visible_count_backface: u32::MAX,
        visible_count_two_sided: 1,
        instances_visible: 4,
        culled_frustum: 5,
        culled_cone: 6,
        culled_hiz: 7,
        output_vertices: 8,
        output_primitives: 9,
        overflow: 1 << 31,
        lod_histogram: [1, 2, 1, 0, 0, 0, 0, 0],
        lod_overflow_instances: 11,
        conservatively_visible_meshlets: 13,
        ..GpuCounters::default()
    };

    let stats = decode(44, 12, MeshletBackend::TaskMesh, counters);
    assert_eq!(stats.frame_index, 44);
    assert_eq!(stats.total_instances, 12);
    assert_eq!(stats.classified_instances, 12);
    assert_eq!(stats.visible_meshlets, u32::MAX);
    assert_eq!(stats.task_workgroups, 134_217_729);
    assert_eq!(stats.visible_meshlets_per_bin.opaque_two_sided, 1);
    assert_eq!(stats.indirect_draws_per_bin, stats.visible_meshlets_per_bin);
    assert_eq!(stats.lod_overflow_instances, 11);
    assert_eq!(stats.conservatively_visible_meshlets, 13);
    assert_eq!(stats.overflow.bits(), 1 << 31);
    assert_eq!(stats.gpu_timings, MeshletGpuPassTimings::default());
}

#[test]
fn explicit_timing_association_uses_frame_identity_not_arrival_order() {
    let mut readback = MeshletStatsReadback::new(1, MeshletBackend::IndexedIndirect);

    assert!(readback.try_request_with_gpu_timing());
    readback.commit_submitted(0, 10);
    assert!(readback.try_request_with_gpu_timing());
    readback.commit_submitted(1, 11);

    let frame_11 = MeshletGpuFrameTimings {
        frame_index: 11,
        frame_total_ns: 22,
        passes: MeshletGpuPassTimings {
            prefix_scan_ns: Some(7),
            ..MeshletGpuPassTimings::default()
        },
    };
    let frame_10 = MeshletGpuFrameTimings {
        frame_index: 10,
        frame_total_ns: 20,
        passes: MeshletGpuPassTimings {
            prefix_scan_ns: Some(5),
            ..MeshletGpuPassTimings::default()
        },
    };
    readback.associate_frame_timing(frame_11).unwrap();
    readback.associate_frame_timing(frame_10).unwrap();
    assert_eq!(readback.timing_for(10), Some(frame_10));
    assert_eq!(readback.timing_for(11), Some(frame_11));

    let wrong = readback
        .associate_frame_timing(MeshletGpuFrameTimings {
            frame_index: 12,
            ..MeshletGpuFrameTimings::default()
        })
        .unwrap_err();
    assert_eq!(wrong, MeshletGpuTimingError::NoPendingStats { frame_index: 12 });
}

#[test]
fn discard_has_no_frame_that_can_accept_timing() {
    let mut readback = MeshletStatsReadback::new(1, MeshletBackend::IndexedIndirect);
    assert!(readback.try_request_with_gpu_timing());
    assert_eq!(readback.planned_buffer_index(), Some(0));

    let error = readback
        .associate_frame_timing(MeshletGpuFrameTimings {
            frame_index: 7,
            ..MeshletGpuFrameTimings::default()
        })
        .unwrap_err();
    assert_eq!(error, MeshletGpuTimingError::NoPendingStats { frame_index: 7 });
    assert_eq!(readback.timing_count(), 0);
}

#[test]
fn unavailable_report_releases_expected_timing_without_cross_frame_data() {
    let mut readback = MeshletStatsReadback::new(1, MeshletBackend::IndexedIndirect);
    assert!(readback.try_request_with_gpu_timing());
    readback.commit_submitted(0, 8);
    assert!(readback.expects_timing(8));

    let error = readback
        .associate_gpu_timing(&MeshletTimingReport::Unavailable { frame_index: 8 })
        .unwrap_err();
    assert!(matches!(
        error,
        MeshletGpuTimingError::Unavailable { frame_index: 8 }
    ));
    assert!(!readback.expects_timing(8));
    assert_eq!(readback.timing_count(), 0);
}

#[test]
fn a_full_ring_rejects_timed_requests_without_leaving_a_future_waiter() {
    let mut readback = MeshletStatsReadback::new(1, MeshletBackend::IndexedIndirect);

    for (slot, frame_index) in [10_u64, 11, 12].into_iter().enumerate() {
        assert!(readback.try_request_with_gpu_timing());
        readback.commit_submitted(slot, frame_index);
    }
    assert!(!readback.can_request_immediately());
    assert!(!readback.try_request_with_gpu_timing());
    assert!(!readback.is_requested());
    assert!(!readback.is_timing_requested());

    let error = readback
        .associate_frame_timing(MeshletGpuFrameTimings {
            frame_index: 13,
            ..MeshletGpuFrameTimings::default()
        })
        .unwrap_err();
    assert_eq!(error, MeshletGpuTimingError::NoPendingStats { frame_index: 13 });
    assert!(!readback.expects_timing(13));
}

#[test]
fn completed_stats_are_delivered_in_submission_order_not_slot_order() {
    let mut readback = MeshletStatsReadback::new(1, MeshletBackend::IndexedIndirect);
    readback.request();
    readback.commit_submitted(0, 20);
    readback.request();
    readback.commit_submitted(1, 30);
    readback.after_submit();
    readback.after_submit();
    let mapped = readback.after_submit();
    assert_eq!(mapped.len(), 2);

    readback.map_completed(1, Some(GpuCounters::default()));
    readback.map_completed(0, Some(GpuCounters::default()));

    assert_eq!(readback.take_ready().unwrap().frame_index, 20);
    assert_eq!(readback.take_ready().unwrap().frame_index, 30);
    assert!(readback.take_ready().is_none());
}

#[test]
fn stats_wait_for_their_expected_timing() {
    let mut readback = MeshletStatsReadback::new(5, MeshletBackend::TaskMesh);
    assert!(readback.try_request_with_gpu_timing());
    readback.commit_submitted(0, 40);
    readback.after_submit();
    readback.after_submit();
    assert_eq!(readback.after_submit(), vec![0]);
    readback.map_completed(0, Some(GpuCounters::default()));
    assert!(readback.take_ready().is_none());

    let timing = MeshletGpuFrameTimings {
        frame_index: 40,
        frame_total_ns: 9,
        ..MeshletGpuFrameTimings::default()
    };
    readback.associate_frame_timing(timing).unwrap();
    let stats = readback.take_ready().unwrap();
    assert_eq!(stats.frame_index, 40);
    assert_eq!(stats.total_instances, 5);
    assert!(!readback.expects_timing(40));
}

#[test]
fn failed_map_releases_the_slot_and_its_timing() {
    let mut readback = MeshletStatsReadback::new(1, MeshletBackend::IndexedIndirect);
    assert!(readback.try_request_with_gpu_timing());
    readback.commit_submitted(0, 3);
    readback.after_submit();
    readback.after_submit();
    readback.after_submit();
    readback.map_completed(0, None);
    assert_eq!(readback.slot(0), SlotState::Idle);
    assert!(!readback.expects_timing(3));
    assert!(readback.take_ready().is_none());
}

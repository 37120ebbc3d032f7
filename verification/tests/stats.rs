use zen_render_mesh::stats::{
    MeshletCapacityKind, MeshletGpuFrameTimings, MeshletGpuPassTimings, MeshletGpuTimingError,
    MeshletOverflowFlags, MeshletPsoBinStats, MeshletRenderStats, MeshletTimedNode,
    MeshletTimingReport,
};

#[test]
fn overflow_bits_are_sticky_and_preserve_unknown_gpu_bits() {
    let mut flags = MeshletOverflowFlags::none();
    flags |= MeshletCapacityKind::VisibleMeshlets.overflow_flag();
    flags |= MeshletCapacityKind::IndirectDraws.overflow_flag();
    assert!(flags.contains(MeshletOverflowFlags::visible_meshlets()));
    assert!(flags.contains(MeshletOverflowFlags::visible_backface()));
    assert!(flags.contains(MeshletOverflowFlags::visible_two_sided()));

    let future_bit = 1 << 31;
    let decoded = MeshletOverflowFlags::from_bits_retain(flags.bits() | future_bit);
    assert_eq!(decoded.bits() & future_bit, future_bit);
}

#[test]
fn lod_total_includes_the_overflow_bucket() {
    let stats = MeshletRenderStats {
        lod_instances: [1, 2, 3, 4, 0, 0, 0, 0],
        lod_overflow_instances: 5,
        ..Default::default()
    };
    assert_eq!(stats.lod_instance_total(), 15);
}

#[test]
fn timing_total_ignores_unavailable_passes() {
    let timings = MeshletGpuPassTimings {
        prefix_scan_ns: Some(20),
        backend_raster_ns: Some(30),
        ..Default::default()
    };
    assert_eq!(timings.measured_total_ns(), 50);
}

#[test]
fn timing_labels_aggregate_hiz_mips_and_ignore_other_renderers() {
    let mut timings = MeshletGpuPassTimings::default();
    timings.add_label_duration("meshlet.hiz-depth-to-mip0", 10);
    timings.add_label_duration("meshlet.hiz-mip0-to-mip1", 15);
    timings.add_label_duration("legacy.raster", 75);
    assert_eq!(timings.hiz_build_ns, Some(25));
    assert_eq!(timings.measured_total_ns(), 25);
}

#[test]
fn stats_reject_timing_from_another_frame() {
    let mut stats = MeshletRenderStats {
        frame_index: 4,
        ..Default::default()
    };
    let error = stats
        .associate_gpu_timings(MeshletGpuFrameTimings {
            frame_index: 5,
            frame_total_ns: 9,
            passes: MeshletGpuPassTimings {
                prefix_scan_ns: Some(3),
                ..Default::default()
            },
        })
        .unwrap_err();
    assert!(matches!(error, MeshletGpuTimingError::FrameMismatch { .. }));
    assert_eq!(stats.gpu_timings, MeshletGpuPassTimings::default());
}

#[test]
fn pso_bin_total_saturates() {
    let bins = MeshletPsoBinStats {
        opaque_backface: u32::MAX,
        opaque_two_sided: 1,
    };
    assert_eq!(bins.total(), u32::MAX);
}

#[test]
fn lod_total_saturates_at_the_largest_count() {
    let stats = MeshletRenderStats {
        lod_instances: [u32::MAX, 1, 0, 0, 0, 0, 0, 0],
        lod_overflow_instances: 2,
        ..Default::default()
    };
    assert_eq!(stats.lod_instance_total(), u32::MAX);
}

#[test]
fn matching_timing_is_attached_to_its_frame() {
    let mut stats = MeshletRenderStats {
        frame_index: 6,
        ..Default::default()
    };
    let passes = MeshletGpuPassTimings {
        final_cull_ns: Some(4),
        ..Default::default()
    };
    stats
        .associate_gpu_timings(MeshletGpuFrameTimings {
            frame_index: 6,
            frame_total_ns: 10,
            passes,
        })
        .unwrap();
    assert_eq!(stats.gpu_timings, passes);
}

#[test]
fn timing_report_decodes_labels_in_order() {
    let report = MeshletTimingReport::Available {
        frame_index: 3,
        frame_duration_ns: 100,
        nodes: vec![
            MeshletTimedNode {
                label: "meshlet.prefix-scan".to_string(),
                duration_ns: 7,
            },
            MeshletTimedNode {
                label: "meshlet.hiz-depth-to-mip0".to_string(),
                duration_ns: 2,
            },
            MeshletTimedNode {
                label: "meshlet.hiz-mip0-to-mip1".to_string(),
                duration_ns: 3,
            },
        ],
    };
    let timings = MeshletGpuFrameTimings::from_gpu_timing_report(&report).unwrap();
    assert_eq!(timings.frame_index, 3);
    assert_eq!(timings.frame_total_ns, 100);
    assert_eq!(timings.passes.prefix_scan_ns, Some(7));
    assert_eq!(timings.passes.hiz_build_ns, Some(5));
    assert_eq!(
        MeshletGpuFrameTimings::from_gpu_timing_report(&MeshletTimingReport::Unavailable {
            frame_index: 9
        }),
        Err(MeshletGpuTimingError::Unavailable { frame_index: 9 })
    );
    assert_eq!(
        MeshletGpuFrameTimings::from_gpu_timing_report(&MeshletTimingReport::Unsupported),
        Err(MeshletGpuTimingError::UnsupportedReport)
    );
}

#[test]
fn complete_means_no_overflow_bit() {
    let mut stats = MeshletRenderStats::default();
    assert!(stats.is_complete());
    stats.overflow = MeshletOverflowFlags::candidate_meshlets();
    assert!(!stats.is_complete());
}

use zen_render_mesh::gpu_types::{
    backend_work_counts_layout, gpu_counter_offset, gpu_counters_size, prefix_scan_block_count,
    visible_backface_offset, visible_two_sided_offset, GpuCounterField, RASTER_UNIFORM_STRIDE,
};

#[test]
fn indirect_count_offsets_match_the_wgsl_counter_header() {
    assert_eq!(visible_backface_offset(), 12);
    assert_eq!(visible_two_sided_offset(), 16);
    assert_eq!(gpu_counter_offset(GpuCounterField::Overflow), 44);
    assert_eq!(gpu_counter_offset(GpuCounterField::LodHistogram), 48);
    assert_eq!(gpu_counter_offset(GpuCounterField::LodOverflowInstances), 80);
    assert_eq!(
        gpu_counter_offset(GpuCounterField::ConservativelyVisibleMeshlets),
        84
    );
    assert_eq!(gpu_counter_offset(GpuCounterField::RasterClaimBackface), 88);
    assert_eq!(gpu_counter_offset(GpuCounterField::RasterClaimTwoSided), 92);
    assert_eq!(gpu_counters_size(), 128);
}

#[test]
fn backend_work_counts_match_the_wgsl_abi() {
    let layout = backend_work_counts_layout();
    assert_eq!(layout.mesh_offset, 0);
    assert_eq!(layout.task_offset, 8);
    assert_eq!(layout.size, 16);
    assert_eq!(layout.align, 16);
}

#[test]
fn prefix_scan_block_count_uses_overflow_safe_ceil_division() {
    assert_eq!(prefix_scan_block_count(0), 0);
    assert_eq!(prefix_scan_block_count(1), 1);
    assert_eq!(prefix_scan_block_count(255), 1);
    assert_eq!(prefix_scan_block_count(256), 1);
    assert_eq!(prefix_scan_block_count(257), 2);
    assert_eq!(prefix_scan_block_count(262_144), 1_024);
    assert_eq!(prefix_scan_block_count(u32::MAX), 16_777_216);
}

#[test]
fn counter_fields_are_contiguous_words() {
    assert_eq!(gpu_counter_offset(GpuCounterField::CandidateCount), 0);
    assert_eq!(gpu_counter_offset(GpuCounterField::PacketCountBackface), 4);
    assert_eq!(gpu_counter_offset(GpuCounterField::OutputPrimitives), 40);
    assert_eq!(gpu_counter_offset(GpuCounterField::Padding), 96);
    assert_eq!(RASTER_UNIFORM_STRIDE, 256);
}

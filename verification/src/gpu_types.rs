//! The CPU side of the GPU buffer ABI: fixed sizes, overflow bits, and the word layout of the
//! counter and work-count records shared with the WGSL shaders.

use vstd::prelude::*;

verus! {

/// Size in bytes of the per-frame uniform block.
pub const FRAME_UNIFORM_SIZE: u64 = 304;
/// Stride in bytes between the two per-bin raster uniform blocks (a dynamic-offset alignment).
pub const RASTER_UNIFORM_STRIDE: u64 = 256;
/// Number of opaque PSO bins.
pub const PSO_BIN_COUNT: u32 = 2;
/// Instances scanned by one prefix-scan workgroup.
pub const PREFIX_SCAN_WORKGROUP_SIZE: u32 = 256;

pub const OVERFLOW_CANDIDATES: u32 = 1;
pub const OVERFLOW_VISIBLE_BACKFACE: u32 = 2;
pub const OVERFLOW_VISIBLE_TWO_SIDED: u32 = 4;
pub const OVERFLOW_TASK_PACKETS: u32 = 8;
pub const OVERFLOW_DISPATCH: u32 = 16;

/// Size in bytes of one indexed indirect draw record (five 32-bit words).
pub const DRAW_INDEXED_INDIRECT_ARGS_SIZE: u64 = 20;
/// Size in bytes of one indirect dispatch record (three 32-bit words).
pub const DISPATCH_INDIRECT_ARGS_SIZE: u64 = 12;

/// Ceiling of `a / b` for a positive divisor.
pub open spec fn ceil_div(a: int, b: int) -> int {
    (a + b - 1) / b
}

/// Number of prefix-scan workgroups needed for `instance_count` instances, computed without
/// overflowing `u32` even for the largest count.
pub fn prefix_scan_block_count(instance_count: u32) -> (r: u32)
    ensures
        r as int == ceil_div(instance_count as int, PREFIX_SCAN_WORKGROUP_SIZE as int),
{
    let whole = instance_count / PREFIX_SCAN_WORKGROUP_SIZE;
    if instance_count % PREFIX_SCAN_WORKGROUP_SIZE == 0 {
        whole
    } else {
        whole + 1
    }
}

/// One field of the GPU counter record, in declaration order.
#[derive(Clone, Copy, Debug, PartialEq, Eq, Structural)]
pub enum GpuCounterField {
    CandidateCount,
    PacketCountBackface,
    PacketCountTwoSided,
    VisibleCountBackface,
    VisibleCountTwoSided,
    InstancesVisible,
    CulledFrustum,
    CulledCone,
    CulledHiz,
    OutputVertices,
    OutputPrimitives,
    Overflow,
    LodHistogram,
    LodOverflowInstances,
    ConservativelyVisibleMeshlets,
    RasterClaimBackface,
    RasterClaimTwoSided,
    Padding,
}

/// Declaration position of a counter field.
pub open spec fn counter_field_index(field: GpuCounterField) -> int {
    match field {
        GpuCounterField::CandidateCount => 0,
        GpuCounterField::PacketCountBackface => 1,
        GpuCounterField::PacketCountTwoSided => 2,
        GpuCounterField::VisibleCountBackface => 3,
        GpuCounterField::VisibleCountTwoSided => 4,
        GpuCounterField::InstancesVisible => 5,
        GpuCounterField::CulledFrustum => 6,
        GpuCounterField::CulledCone => 7,
        GpuCounterField::CulledHiz => 8,
        GpuCounterField::OutputVertices => 9,
        GpuCounterField::OutputPrimitives => 10,
        GpuCounterField::Overflow => 11,
        GpuCounterField::LodHistogram => 12,
        GpuCounterField::LodOverflowInstances => 13,
        GpuCounterField::ConservativelyVisibleMeshlets => 14,
        GpuCounterField::RasterClaimBackface => 15,
        GpuCounterField::RasterClaimTwoSided => 16,
        GpuCounterField::Padding => 17,
    }
}

/// The number of 32-bit words of each counter field, in declaration order: scalar counters take
/// one word, the LOD histogram eight, and the tail padding eight.
pub open spec fn counter_field_words() -> Seq<int> {
    seq![1, 1, 1, 1, 1, 1, 1, 1, 1, 1, 1, 1, 8, 1, 1, 1, 1, 8]
}

/// Total words of the first `n` fields.
pub open spec fn words_before(words: Seq<int>, n: int) -> int
    decreases n,
{
    if n <= 0 {
        0
    } else {
        words_before(words, n - 1) + words[n - 1]
    }
}

/// Byte offset of a counter field: every field is 32-bit aligned, so it follows the words of the
/// fields declared before it without padding.
pub fn gpu_counter_offset(field: GpuCounterField) -> (r: u64)
    ensures
        r as int == 4 * words_before(counter_field_words(), counter_field_index(field)),
{
    proof {
        reveal_with_fuel(words_before, 19);
    }
    match field {
        GpuCounterField::CandidateCount => 0,
        GpuCounterField::PacketCountBackface => 4,
        GpuCounterField::PacketCountTwoSided => 8,
        GpuCounterField::VisibleCountBackface => 12,
        GpuCounterField::VisibleCountTwoSided => 16,
        GpuCounterField::InstancesVisible => 20,
        GpuCounterField::CulledFrustum => 24,
        GpuCounterField::CulledCone => 28,
        GpuCounterField::CulledHiz => 32,
        GpuCounterField::OutputVertices => 36,
        GpuCounterField::OutputPrimitives => 40,
        GpuCounterField::Overflow => 44,
        GpuCounterField::LodHistogram => 48,
        GpuCounterField::LodOverflowInstances => 80,
        GpuCounterField::ConservativelyVisibleMeshlets => 84,
        GpuCounterField::RasterClaimBackface => 88,
        GpuCounterField::RasterClaimTwoSided => 92,
        GpuCounterField::Padding => 96,
    }
}

/// Size in bytes of the whole counter record: all of its words, a multiple of its 16-byte
/// alignment.
pub fn gpu_counters_size() -> (r: u64)
    ensures
        r as int == 4 * words_before(counter_field_words(), 18),
        r % 16 == 0,
{
    proof {
        reveal_with_fuel(words_before, 19);
    }
    128
}

/// Byte offset of the visible-count word of the backface bin.
pub fn visible_backface_offset() -> (r: u64)
    ensures
        r as int == 4 * words_before(counter_field_words(), 3),
{
    gpu_counter_offset(GpuCounterField::VisibleCountBackface)
}

/// Byte offset of the visible-count word of the two-sided bin.
pub fn visible_two_sided_offset() -> (r: u64)
    ensures
        r as int == 4 * words_before(counter_field_words(), 4),
{
    gpu_counter_offset(GpuCounterField::VisibleCountTwoSided)
}

/// Layout of the non-atomic backend work counts: two mesh words, then two task words, in a
/// record aligned to 16 bytes.
pub struct BackendWorkCountsLayout {
    pub mesh_offset: u64,
    pub task_offset: u64,
    pub size: u64,
    pub align: u64,
}

/// Computes the work-count layout: `task` follows the two `mesh` words, and the size is rounded
/// up to the record alignment.
pub fn backend_work_counts_layout() -> (r: BackendWorkCountsLayout)
    ensures
        r.mesh_offset == 0,
        r.task_offset == 2 * 4,
        r.align == 16,
        r.size == ceil_div(16int, 16int) * 16,
{
    let words: u64 = 4;
    let align: u64 = 16;
    BackendWorkCountsLayout {
        mesh_offset: 0,
        task_offset: 2 * 4,
        size: (words * 4 + align - 1) / align * align,
        align,
    }
}

} // verus!

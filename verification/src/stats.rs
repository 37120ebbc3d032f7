//! Per-frame meshlet statistics: sticky overflow bits, PSO-bin counts, pass timings and the
//! delayed counter snapshot that timings are associated with by frame identity.

use vstd::prelude::*;
use vstd::utf8::encode_utf8;

use crate::gpu_types::{
    OVERFLOW_CANDIDATES, OVERFLOW_DISPATCH, OVERFLOW_VISIBLE_BACKFACE, OVERFLOW_VISIBLE_TWO_SIDED,
};
use crate::text::{bytes_start_with, str_equal, str_starts_with};

verus! {

/// Number of individual LOD levels retained in the fixed-size stats snapshot.
pub const MESHLET_STATS_LOD_BUCKETS: usize = 8;
/// Stats are consumed only after this many submitted frames, avoiding a same-frame synchronization.
pub const MESHLET_STATS_READBACK_DELAY_FRAMES: u32 = 3;

/// A fixed GPU arena whose writes must be capacity-checked.
#[derive(Clone, Copy, Debug, PartialEq, Eq, Structural, Hash)]
pub enum MeshletCapacityKind {
    Instances,
    CandidateMeshlets,
    VisibleMeshlets,
    IndirectDraws,
    DispatchWorkgroups,
}

/// Bit of the reserved instance-arena overflow.
pub const OVERFLOW_INSTANCES: u32 = 16;

/// The overflow bits reported for one capacity kind.
pub open spec fn spec_overflow_bits(kind: MeshletCapacityKind) -> u32 {
    match kind {
        MeshletCapacityKind::Instances => OVERFLOW_INSTANCES,
        MeshletCapacityKind::CandidateMeshlets => OVERFLOW_CANDIDATES,
        MeshletCapacityKind::VisibleMeshlets => OVERFLOW_VISIBLE_BACKFACE
            | OVERFLOW_VISIBLE_TWO_SIDED,
        MeshletCapacityKind::IndirectDraws => OVERFLOW_VISIBLE_BACKFACE
            | OVERFLOW_VISIBLE_TWO_SIDED,
        MeshletCapacityKind::DispatchWorkgroups => OVERFLOW_DISPATCH,
    }
}

impl MeshletCapacityKind {
    pub fn overflow_flag(self) -> (r: MeshletOverflowFlags)
        ensures
            r.0 == spec_overflow_bits(self),
    {
        assert(2u32 | 4u32 == 6u32) by (bit_vector);
        match self {
            MeshletCapacityKind::Instances => MeshletOverflowFlags::instances(),
            MeshletCapacityKind::CandidateMeshlets => MeshletOverflowFlags::candidate_meshlets(),
            MeshletCapacityKind::VisibleMeshlets => MeshletOverflowFlags::visible_meshlets(),
            // Indexed draw args and visible work are allocated together, one entry per meshlet.
            MeshletCapacityKind::IndirectDraws => MeshletOverflowFlags::visible_meshlets(),
            MeshletCapacityKind::DispatchWorkgroups => MeshletOverflowFlags::dispatch_workgroups(),
        }
    }
}

/// GPU-written sticky overflow bits for one frame.
///
/// Producers set a bit whenever an atomic reservation is clamped. No pass clears an earlier bit;
/// the counter-clear pass resets the complete word at the beginning of the next frame.
#[derive(Clone, Copy, Debug, PartialEq, Eq, Structural, Hash, Default)]
pub struct MeshletOverflowFlags(pub u32);

impl MeshletOverflowFlags {
    // Bits 0 through 3 are part of the GpuCounters/WGSL ABI.
    /// No overflow.
    pub fn none() -> (r: Self)
        ensures
            r.0 == 0,
    {
        MeshletOverflowFlags(0)
    }

    /// Candidate meshlet arena overflow.
    pub fn candidate_meshlets() -> (r: Self)
        ensures
            r.0 == 1,
    {
        MeshletOverflowFlags(1)
    }

    /// Backface visible-bin overflow.
    pub fn visible_backface() -> (r: Self)
        ensures
            r.0 == 2,
    {
        MeshletOverflowFlags(2)
    }

    /// Two-sided visible-bin overflow.
    pub fn visible_two_sided() -> (r: Self)
        ensures
            r.0 == 4,
    {
        MeshletOverflowFlags(4)
    }

    /// Overflow of either visible bin.
    pub fn visible_meshlets() -> (r: Self)
        ensures
            r.0 == 6,
    {
        MeshletOverflowFlags(6)
    }

    /// Dispatch workgroup overflow.
    pub fn dispatch_workgroups() -> (r: Self)
        ensures
            r.0 == 16,
    {
        MeshletOverflowFlags(16)
    }

    /// Reserved for a future GPU-side instance arena; current uploads reject excess instances.
    pub fn instances() -> (r: Self)
        ensures
            r.0 == 16,
    {
        MeshletOverflowFlags(16)
    }

    /// Every defined overflow bit.
    pub fn all() -> (r: Self)
        ensures
            r.0 == 23,
    {
        MeshletOverflowFlags(23)
    }

    pub fn from_bits_retain(bits: u32) -> (r: Self)
        ensures
            r.0 == bits,
    {
        MeshletOverflowFlags(bits)
    }

    pub fn bits(self) -> (r: u32)
        ensures
            r == self.0,
    {
        self.0
    }

    pub fn is_empty(self) -> (r: bool)
        ensures
            r == (self.0 == 0),
    {
        self.0 == 0
    }

    pub fn contains(self, other: Self) -> (r: bool)
        ensures
            r == (self.0 & other.0 == other.0),
    {
        self.0 & other.0 == other.0
    }

    /// Sets every bit of `other`; no bit that was set before is cleared.
    pub fn insert(&mut self, other: Self)
        ensures
            final(self).0 == old(self).0 | other.0,
            final(self).0 & old(self).0 == old(self).0,
            final(self).0 & other.0 == other.0,
    {
        let before = self.0;
        let added = other.0;
        self.0 = before | added;
        assert((before | added) & before == before) by (bit_vector);
        assert((before | added) & added == added) by (bit_vector);
    }

    /// The union of two flag words.
    pub fn union(self, other: Self) -> (r: Self)
        ensures
            r.0 == self.0 | other.0,
    {
        MeshletOverflowFlags(self.0 | other.0)
    }
}

impl core::ops::BitOr for MeshletOverflowFlags {
    type Output = Self;

    fn bitor(self, rhs: Self) -> (r: Self) {
        self.union(rhs)
    }
}

impl vstd::std_specs::ops::BitOrSpecImpl for MeshletOverflowFlags {
    open spec fn obeys_bitor_spec() -> bool {
        true
    }

    open spec fn bitor_req(self, rhs: Self) -> bool {
        true
    }

    open spec fn bitor_spec(self, rhs: Self) -> Self {
        MeshletOverflowFlags(self.0 | rhs.0)
    }
}

impl core::ops::BitOrAssign for MeshletOverflowFlags {
    fn bitor_assign(&mut self, rhs: Self)
        ensures
            final(self).0 == old(self).0 | rhs.0,
    {
        self.insert(rhs);
    }
}

/// Overflow flags are sticky: once a flag word contains a set of bits, inserting any further
/// bits keeps them, and the inserted bits are contained as well.
pub proof fn lemma_overflow_bits_are_sticky(flags: u32, inserted: u32, earlier: u32)
    requires
        flags & earlier == earlier,
    ensures
        (flags | inserted) & earlier == earlier,
        (flags | inserted) & inserted == inserted,
{
    assert(flags & earlier == earlier ==> (flags | inserted) & earlier == earlier) by (bit_vector);
    assert((flags | inserted) & inserted == inserted) by (bit_vector);
}

/// Counts split by the two static opaque PSO bins.
#[derive(Clone, Copy, Debug, PartialEq, Eq, Structural, Default)]
pub struct MeshletPsoBinStats {
    pub opaque_backface: u32,
    pub opaque_two_sided: u32,
}

/// The sum of two counts, clamped to the largest `u32`.
pub open spec fn sat_add_u32(a: u32, b: u32) -> u32 {
    if a + b > u32::MAX {
        u32::MAX
    } else {
        (a + b) as u32
    }
}

/// The sum of two durations, clamped to the largest `u64`.
pub open spec fn sat_add_u64(a: u64, b: u64) -> u64 {
    if a + b > u64::MAX {
        u64::MAX
    } else {
        (a + b) as u64
    }
}

impl MeshletPsoBinStats {
    pub fn total(self) -> (r: u32)
        ensures
            r == sat_add_u32(self.opaque_backface, self.opaque_two_sided),
    {
        self.opaque_backface.saturating_add(self.opaque_two_sided)
    }
}

/// One pass of the fixed meshlet frame topology that receives timestamp durations.
#[derive(Clone, Copy, Debug, PartialEq, Eq, Structural)]
pub enum MeshletTimedPass {
    ClearFrameCounters,
    InstanceClassifyLodCount,
    PrefixScan,
    CandidateScatter,
    CoarseCull,
    OccluderDepth,
    HizBuild,
    ClearCoarseResults,
    FinalCull,
    IndirectPrepare,
    BackendRaster,
    StatsCopy,
}

/// The pass that a FrameGraph node label is accounted to: the exact labels of the meshlet
/// passes, every `meshlet.hiz-` mip pass to the Hi-Z build, every `meshlet.backend-raster.`
/// node to the backend raster; any other label belongs to another renderer.
pub open spec fn spec_label_pass(label: Seq<char>) -> Option<MeshletTimedPass> {
    if label == "meshlet.clear-frame-counters"@ {
        Some(MeshletTimedPass::ClearFrameCounters)
    } else if label == "meshlet.instance-classify-lod-count"@ {
        Some(MeshletTimedPass::InstanceClassifyLodCount)
    } else if label == "meshlet.prefix-scan"@ {
        Some(MeshletTimedPass::PrefixScan)
    } else if label == "meshlet.candidate-scatter"@ {
        Some(MeshletTimedPass::CandidateScatter)
    } else if label == "meshlet.coarse-cull"@ {
        Some(MeshletTimedPass::CoarseCull)
    } else if label == "meshlet.opaque-occluder-depth"@ {
        Some(MeshletTimedPass::OccluderDepth)
    } else if label == "meshlet.clear-coarse-results"@ {
        Some(MeshletTimedPass::ClearCoarseResults)
    } else if label == "meshlet.final-cull"@ {
        Some(MeshletTimedPass::FinalCull)
    } else if label == "meshlet.indirect-prepare"@ {
        Some(MeshletTimedPass::IndirectPrepare)
    } else if label == "meshlet.stats-readback"@ {
        Some(MeshletTimedPass::StatsCopy)
    } else if bytes_start_with(encode_utf8(label), encode_utf8("meshlet.hiz-"@)) {
        Some(MeshletTimedPass::HizBuild)
    } else if bytes_start_with(encode_utf8(label), encode_utf8("meshlet.backend-raster."@)) {
        Some(MeshletTimedPass::BackendRaster)
    } else {
        None
    }
}

/// Timestamp-query results for the fixed meshlet frame topology, in nanoseconds.
///
/// A field is `None` when timestamp queries were unavailable or that pass was not recorded for the
/// selected backend/configuration.
#[derive(Clone, Copy, Debug, PartialEq, Eq, Structural, Default)]
pub struct MeshletGpuPassTimings {
    pub clear_frame_counters_ns: Option<u64>,
    pub instance_classify_lod_count_ns: Option<u64>,
    pub prefix_scan_ns: Option<u64>,
    pub candidate_scatter_ns: Option<u64>,
    pub coarse_cull_ns: Option<u64>,
    pub occluder_depth_ns: Option<u64>,
    pub hiz_build_ns: Option<u64>,
    pub clear_coarse_results_ns: Option<u64>,
    pub final_cull_ns: Option<u64>,
    pub indirect_prepare_ns: Option<u64>,
    pub backend_raster_ns: Option<u64>,
    pub stats_copy_ns: Option<u64>,
}

/// The measured durations in pass order.
pub open spec fn spec_pass_list(t: MeshletGpuPassTimings) -> Seq<Option<u64>> {
    seq![
        t.clear_frame_counters_ns,
        t.instance_classify_lod_count_ns,
        t.prefix_scan_ns,
        t.candidate_scatter_ns,
        t.coarse_cull_ns,
        t.occluder_depth_ns,
        t.hiz_build_ns,
        t.clear_coarse_results_ns,
        t.final_cull_ns,
        t.indirect_prepare_ns,
        t.backend_raster_ns,
        t.stats_copy_ns,
    ]
}

/// The exact sum of the measured durations; missing passes count as zero.
pub open spec fn spec_measured_sum(values: Seq<Option<u64>>) -> int
    decreases values.len(),
{
    if values.len() == 0 {
        0
    } else {
        spec_measured_sum(values.drop_last()) + match values.last() {
            Some(v) => v as int,
            None => 0,
        }
    }
}

/// The duration recorded for one pass.
pub open spec fn spec_pass_duration(t: MeshletGpuPassTimings, pass: MeshletTimedPass) -> Option<
    u64,
> {
    match pass {
        MeshletTimedPass::ClearFrameCounters => t.clear_frame_counters_ns,
        MeshletTimedPass::InstanceClassifyLodCount => t.instance_classify_lod_count_ns,
        MeshletTimedPass::PrefixScan => t.prefix_scan_ns,
        MeshletTimedPass::CandidateScatter => t.candidate_scatter_ns,
        MeshletTimedPass::CoarseCull => t.coarse_cull_ns,
        MeshletTimedPass::OccluderDepth => t.occluder_depth_ns,
        MeshletTimedPass::HizBuild => t.hiz_build_ns,
        MeshletTimedPass::ClearCoarseResults => t.clear_coarse_results_ns,
        MeshletTimedPass::FinalCull => t.final_cull_ns,
        MeshletTimedPass::IndirectPrepare => t.indirect_prepare_ns,
        MeshletTimedPass::BackendRaster => t.backend_raster_ns,
        MeshletTimedPass::StatsCopy => t.stats_copy_ns,
    }
}

/// The timings with one pass's duration replaced.
pub open spec fn spec_with_pass(
    t: MeshletGpuPassTimings,
    pass: MeshletTimedPass,
    value: Option<u64>,
) -> MeshletGpuPassTimings {
    match pass {
        MeshletTimedPass::ClearFrameCounters => MeshletGpuPassTimings {
            clear_frame_counters_ns: value,
            ..t
        },
        MeshletTimedPass::InstanceClassifyLodCount => MeshletGpuPassTimings {
            instance_classify_lod_count_ns: value,
            ..t
        },
        MeshletTimedPass::PrefixScan => MeshletGpuPassTimings { prefix_scan_ns: value, ..t },
        MeshletTimedPass::CandidateScatter => MeshletGpuPassTimings {
            candidate_scatter_ns: value,
            ..t
        },
        MeshletTimedPass::CoarseCull => MeshletGpuPassTimings { coarse_cull_ns: value, ..t },
        MeshletTimedPass::OccluderDepth => MeshletGpuPassTimings { occluder_depth_ns: value, ..t },
        MeshletTimedPass::HizBuild => MeshletGpuPassTimings { hiz_build_ns: value, ..t },
        MeshletTimedPass::ClearCoarseResults => MeshletGpuPassTimings {
            clear_coarse_results_ns: value,
            ..t
        },
        MeshletTimedPass::FinalCull => MeshletGpuPassTimings { final_cull_ns: value, ..t },
        MeshletTimedPass::IndirectPrepare => MeshletGpuPassTimings {
            indirect_prepare_ns: value,
            ..t
        },
        MeshletTimedPass::BackendRaster => MeshletGpuPassTimings { backend_raster_ns: value, ..t },
        MeshletTimedPass::StatsCopy => MeshletGpuPassTimings { stats_copy_ns: value, ..t },
    }
}

/// The timings after one labelled node duration is accounted: the node's pass accumulates the
/// duration (saturating); a label of another renderer changes nothing.
pub open spec fn spec_add_label_duration(
    t: MeshletGpuPassTimings,
    label: Seq<char>,
    duration_ns: u64,
) -> MeshletGpuPassTimings {
    match spec_label_pass(label) {
        Some(pass) => spec_with_pass(
            t,
            pass,
            Some(
                sat_add_u64(
                    match spec_pass_duration(t, pass) {
                        Some(v) => v,
                        None => 0,
                    },
                    duration_ns,
                ),
            ),
        ),
        None => t,
    }
}

/// The duration already recorded for a pass, zero when none is.
pub open spec fn added(slot: Option<u64>) -> u64 {
    match slot {
        Some(v) => v,
        None => 0,
    }
}

/// Each exact meshlet pass label charges its duration, saturating, to the pass of that name and
/// to no other pass.
pub proof fn lemma_exact_labels_charge_their_pass(t: MeshletGpuPassTimings, d: u64)
    ensures
        spec_add_label_duration(t, "meshlet.clear-frame-counters"@, d) == (MeshletGpuPassTimings {
            clear_frame_counters_ns: Some(sat_add_u64(added(t.clear_frame_counters_ns), d)),
            ..t
        }),
        spec_add_label_duration(t, "meshlet.instance-classify-lod-count"@, d) == (MeshletGpuPassTimings {
            instance_classify_lod_count_ns: Some(sat_add_u64(added(t.instance_classify_lod_count_ns), d)),
            ..t
        }),
        spec_add_label_duration(t, "meshlet.prefix-scan"@, d) == (MeshletGpuPassTimings {
            prefix_scan_ns: Some(sat_add_u64(added(t.prefix_scan_ns), d)),
            ..t
        }),
        spec_add_label_duration(t, "meshlet.candidate-scatter"@, d) == (MeshletGpuPassTimings {
            candidate_scatter_ns: Some(sat_add_u64(added(t.candidate_scatter_ns), d)),
            ..t
        }),
        spec_add_label_duration(t, "meshlet.coarse-cull"@, d) == (MeshletGpuPassTimings {
            coarse_cull_ns: Some(sat_add_u64(added(t.coarse_cull_ns), d)),
            ..t
        }),
        spec_add_label_duration(t, "meshlet.opaque-occluder-depth"@, d) == (MeshletGpuPassTimings {
            occluder_depth_ns: Some(sat_add_u64(added(t.occluder_depth_ns), d)),
            ..t
        }),
        spec_add_label_duration(t, "meshlet.clear-coarse-results"@, d) == (MeshletGpuPassTimings {
            clear_coarse_results_ns: Some(sat_add_u64(added(t.clear_coarse_results_ns), d)),
            ..t
        }),
        spec_add_label_duration(t, "meshlet.final-cull"@, d) == (MeshletGpuPassTimings {
            final_cull_ns: Some(sat_add_u64(added(t.final_cull_ns), d)),
            ..t
        }),
        spec_add_label_duration(t, "meshlet.indirect-prepare"@, d) == (MeshletGpuPassTimings {
            indirect_prepare_ns: Some(sat_add_u64(added(t.indirect_prepare_ns), d)),
            ..t
        }),
        spec_add_label_duration(t, "meshlet.stats-readback"@, d) == (MeshletGpuPassTimings {
            stats_copy_ns: Some(sat_add_u64(added(t.stats_copy_ns), d)),
            ..t
        }),
{
    reveal_strlit("meshlet.clear-frame-counters");
    reveal_strlit("meshlet.instance-classify-lod-count");
    reveal_strlit("meshlet.prefix-scan");
    reveal_strlit("meshlet.candidate-scatter");
    reveal_strlit("meshlet.coarse-cull");
    reveal_strlit("meshlet.opaque-occluder-depth");
    reveal_strlit("meshlet.clear-coarse-results");
    reveal_strlit("meshlet.final-cull");
    reveal_strlit("meshlet.indirect-prepare");
    reveal_strlit("meshlet.stats-readback");
    assert("meshlet.clear-frame-counters"@.len() == 28);
    assert("meshlet.instance-classify-lod-count"@.len() == 35);
    assert("meshlet.prefix-scan"@.len() == 19);
    assert("meshlet.candidate-scatter"@.len() == 25);
    assert("meshlet.coarse-cull"@.len() == 19);
    assert("meshlet.opaque-occluder-depth"@.len() == 29);
    assert("meshlet.clear-coarse-results"@.len() == 28);
    assert("meshlet.final-cull"@.len() == 18);
    assert("meshlet.indirect-prepare"@.len() == 24);
    assert("meshlet.stats-readback"@.len() == 22);
    assert("meshlet.prefix-scan"@[8] != "meshlet.coarse-cull"@[8]);
    assert("meshlet.clear-frame-counters"@[14] != "meshlet.clear-coarse-results"@[14]);
}

fn accumulate(slot: Option<u64>, duration_ns: u64) -> (r: Option<u64>)
    ensures
        r == Some(
            sat_add_u64(
                match slot {
                    Some(v) => v,
                    None => 0,
                },
                duration_ns,
            ),
        ),
{
    let current = match slot {
        Some(v) => v,
        None => 0,
    };
    Some(current.saturating_add(duration_ns))
}

/// Replacing a missing duration by a zero one leaves the sum unchanged.
proof fn lemma_missing_counts_as_zero(values: Seq<Option<u64>>, i: int)
    requires
        0 <= i < values.len(),
        values[i] is None,
    ensures
        spec_measured_sum(values.update(i, Some(0u64))) == spec_measured_sum(values),
    decreases values.len(),
{
    let u = values.update(i, Some(0u64));
    if i < values.len() - 1 {
        assert(u.drop_last() =~= values.drop_last().update(i, Some(0u64)));
        lemma_missing_counts_as_zero(values.drop_last(), i);
    } else {
        assert(u.drop_last() =~= values.drop_last());
    }
}

/// Unavailable passes are ignored by the total: a pass without a measurement contributes
/// exactly what a pass measured at zero would, whichever pass it is.
pub proof fn lemma_unavailable_pass_adds_nothing(t: MeshletGpuPassTimings, pass: MeshletTimedPass)
    requires
        spec_pass_duration(t, pass) is None,
    ensures
        spec_measured_sum(spec_pass_list(spec_with_pass(t, pass, Some(0u64)))) == spec_measured_sum(
            spec_pass_list(t),
        ),
{
    let i: int = match pass {
        MeshletTimedPass::ClearFrameCounters => 0,
        MeshletTimedPass::InstanceClassifyLodCount => 1,
        MeshletTimedPass::PrefixScan => 2,
        MeshletTimedPass::CandidateScatter => 3,
        MeshletTimedPass::CoarseCull => 4,
        MeshletTimedPass::OccluderDepth => 5,
        MeshletTimedPass::HizBuild => 6,
        MeshletTimedPass::ClearCoarseResults => 7,
        MeshletTimedPass::FinalCull => 8,
        MeshletTimedPass::IndirectPrepare => 9,
        MeshletTimedPass::BackendRaster => 10,
        MeshletTimedPass::StatsCopy => 11,
    };
    assert(spec_pass_list(spec_with_pass(t, pass, Some(0u64))) =~= spec_pass_list(t).update(
        i,
        Some(0u64),
    ));
    lemma_missing_counts_as_zero(spec_pass_list(t), i);
}

impl MeshletGpuPassTimings {
    /// The sum of every measured pass, saturating at the largest `u64`.
    pub fn measured_total_ns(self) -> (r: u64)
        ensures
            r as int == if spec_measured_sum(spec_pass_list(self)) > u64::MAX {
                u64::MAX as int
            } else {
                spec_measured_sum(spec_pass_list(self))
            },
    {
        let values = [
            self.clear_frame_counters_ns,
            self.instance_classify_lod_count_ns,
            self.prefix_scan_ns,
            self.candidate_scatter_ns,
            self.coarse_cull_ns,
            self.occluder_depth_ns,
            self.hiz_build_ns,
            self.clear_coarse_results_ns,
            self.final_cull_ns,
            self.indirect_prepare_ns,
            self.backend_raster_ns,
            self.stats_copy_ns,
        ];
        let ghost all = spec_pass_list(self);
        assert(values@ == all);
        let mut total: u64 = 0;
        let mut i: usize = 0;
        while i < 12
            invariant
                i <= 12,
                values@ == all,
                all.len() == 12,
                total as int == if spec_measured_sum(all.subrange(0, i as int)) > u64::MAX {
                    u64::MAX as int
                } else {
                    spec_measured_sum(all.subrange(0, i as int))
                },
            decreases 12 - i,
        {
            assert(all.subrange(0, i + 1).drop_last() == all.subrange(0, i as int));
            assert(all.subrange(0, i + 1).last() == all[i as int]);
            match values[i] {
                Some(v) => {
                    total = total.saturating_add(v);
                },
                None => {},
            }
            i = i + 1;
        }
        assert(all.subrange(0, 12) == all);
        total
    }

    /// Accounts one labelled FrameGraph node duration to its meshlet pass.
    pub fn add_label_duration(&mut self, label: &str, duration_ns: u64)
        ensures
            *final(self) == spec_add_label_duration(*old(self), label@, duration_ns),
    {
        if str_equal(label, "meshlet.clear-frame-counters") {
            self.clear_frame_counters_ns = accumulate(self.clear_frame_counters_ns, duration_ns);
        } else if str_equal(label, "meshlet.instance-classify-lod-count") {
            self.instance_classify_lod_count_ns = accumulate(
                self.instance_classify_lod_count_ns,
                duration_ns,
            );
        } else if str_equal(label, "meshlet.prefix-scan") {
            self.prefix_scan_ns = accumulate(self.prefix_scan_ns, duration_ns);
        } else if str_equal(label, "meshlet.candidate-scatter") {
            self.candidate_scatter_ns = accumulate(self.candidate_scatter_ns, duration_ns);
        } else if str_equal(label, "meshlet.coarse-cull") {
            self.coarse_cull_ns = accumulate(self.coarse_cull_ns, duration_ns);
        } else if str_equal(label, "meshlet.opaque-occluder-depth") {
            self.occluder_depth_ns = accumulate(self.occluder_depth_ns, duration_ns);
        } else if str_equal(label, "meshlet.clear-coarse-results") {
            self.clear_coarse_results_ns = accumulate(self.clear_coarse_results_ns, duration_ns);
        } else if str_equal(label, "meshlet.final-cull") {
            self.final_cull_ns = accumulate(self.final_cull_ns, duration_ns);
        } else if str_equal(label, "meshlet.indirect-prepare") {
            self.indirect_prepare_ns = accumulate(self.indirect_prepare_ns, duration_ns);
        } else if str_equal(label, "meshlet.stats-readback") {
            self.stats_copy_ns = accumulate(self.stats_copy_ns, duration_ns);
        } else if str_starts_with(label, "meshlet.hiz-") {
            self.hiz_build_ns = accumulate(self.hiz_build_ns, duration_ns);
        } else if str_starts_with(label, "meshlet.backend-raster.") {
            self.backend_raster_ns = accumulate(self.backend_raster_ns, duration_ns);
        }
    }
}

/// Saturating conversion of a nanosecond count to `u64`.
pub fn saturating_nanos(nanos: u128) -> (r: u64)
    ensures
        r as int == if nanos > u64::MAX {
            u64::MAX as int
        } else {
            nanos as int
        },
{
    if nanos > u64::MAX as u128 {
        u64::MAX
    } else {
        nanos as u64
    }
}

/// One FrameGraph timing result decoded against the fixed meshlet pass labels.
///
/// The explicit `frame_index` is the association key for delayed counter readback. Timings must
/// never be paired by arrival order because timestamp and counter mappings complete independently.
#[derive(Clone, Copy, Debug, PartialEq, Eq, Structural, Default)]
pub struct MeshletGpuFrameTimings {
    pub frame_index: u64,
    pub frame_total_ns: u64,
    pub passes: MeshletGpuPassTimings,
}

/// One labelled, timed FrameGraph node.
#[derive(Clone, Debug)]
pub struct MeshletTimedNode {
    pub label: String,
    pub duration_ns: u64,
}

/// The library's view of a FrameGraph GPU timing report.
#[derive(Clone, Debug)]
pub enum MeshletTimingReport {
    Available { frame_index: u64, frame_duration_ns: u64, nodes: Vec<MeshletTimedNode> },
    Unavailable { frame_index: u64 },
    /// A report format this library does not know.
    Unsupported,
}

/// Errors of GPU timing decoding and association.
#[derive(Clone, Copy, Debug, PartialEq, Eq, Structural)]
pub enum MeshletGpuTimingError {
    Unavailable { frame_index: u64 },
    UnsupportedReport,
    FrameMismatch { stats_frame_index: u64, timing_frame_index: u64 },
    NoPendingStats { frame_index: u64 },
}

/// The pass timings after accounting the first `n` nodes, in order.
pub open spec fn spec_fold_nodes(nodes: Seq<MeshletTimedNode>, n: int) -> MeshletGpuPassTimings
    decreases n,
{
    if n <= 0 {
        MeshletGpuPassTimings {
            clear_frame_counters_ns: None,
            instance_classify_lod_count_ns: None,
            prefix_scan_ns: None,
            candidate_scatter_ns: None,
            coarse_cull_ns: None,
            occluder_depth_ns: None,
            hiz_build_ns: None,
            clear_coarse_results_ns: None,
            final_cull_ns: None,
            indirect_prepare_ns: None,
            backend_raster_ns: None,
            stats_copy_ns: None,
        }
    } else {
        spec_add_label_duration(
            spec_fold_nodes(nodes, n - 1),
            nodes[n - 1].label@,
            nodes[n - 1].duration_ns,
        )
    }
}

impl MeshletGpuFrameTimings {
    /// Decodes one timing report against the fixed meshlet pass labels.
    pub fn from_gpu_timing_report(report: &MeshletTimingReport) -> (r: Result<
        Self,
        MeshletGpuTimingError,
    >)
        ensures
            match *report {
                MeshletTimingReport::Available { frame_index, frame_duration_ns, nodes } => r
                    == Ok::<MeshletGpuFrameTimings, MeshletGpuTimingError>(
                    MeshletGpuFrameTimings {
                        frame_index,
                        frame_total_ns: frame_duration_ns,
                        passes: spec_fold_nodes(nodes@, nodes@.len() as int),
                    },
                ),
                MeshletTimingReport::Unavailable { frame_index } => r == Err::<
                    MeshletGpuFrameTimings,
                    MeshletGpuTimingError,
                >(MeshletGpuTimingError::Unavailable { frame_index }),
                MeshletTimingReport::Unsupported => r == Err::<
                    MeshletGpuFrameTimings,
                    MeshletGpuTimingError,
                >(MeshletGpuTimingError::UnsupportedReport),
            },
    {
        match report {
            MeshletTimingReport::Available { frame_index, frame_duration_ns, nodes } => {
                let mut passes = MeshletGpuPassTimings {
                    clear_frame_counters_ns: None,
                    instance_classify_lod_count_ns: None,
                    prefix_scan_ns: None,
                    candidate_scatter_ns: None,
                    coarse_cull_ns: None,
                    occluder_depth_ns: None,
                    hiz_build_ns: None,
                    clear_coarse_results_ns: None,
                    final_cull_ns: None,
                    indirect_prepare_ns: None,
                    backend_raster_ns: None,
                    stats_copy_ns: None,
                };
                let mut i: usize = 0;
                while i < nodes.len()
                    invariant
                        i <= nodes@.len(),
                        passes == spec_fold_nodes(nodes@, i as int),
                    decreases nodes@.len() - i,
                {
                    passes.add_label_duration(nodes[i].label.as_str(), nodes[i].duration_ns);
                    i = i + 1;
                }
                Ok(
                    MeshletGpuFrameTimings {
                        frame_index: *frame_index,
                        frame_total_ns: *frame_duration_ns,
                        passes,
                    },
                )
            },
            MeshletTimingReport::Unavailable { frame_index } => Err(
                MeshletGpuTimingError::Unavailable { frame_index: *frame_index },
            ),
            MeshletTimingReport::Unsupported => Err(MeshletGpuTimingError::UnsupportedReport),
        }
    }
}

/// Three-frames-delayed counters and timings for one submitted meshlet frame.
#[derive(Clone, Copy, Debug, PartialEq, Eq, Default)]
pub struct MeshletRenderStats {
    /// Frame identity supplied with the frame's render input.
    pub frame_index: u64,
    pub total_instances: u32,
    pub classified_instances: u32,
    pub visible_instances: u32,
    /// Instance counts for LOD 0 through 7.
    pub lod_instances: [u32; 8],
    /// Instances selecting LOD 8 or above, kept separate to avoid silently losing counts.
    pub lod_overflow_instances: u32,
    pub candidate_meshlets: u32,
    pub visible_meshlets: u32,
    pub frustum_culled_meshlets: u32,
    pub normal_cone_culled_meshlets: u32,
    pub hiz_culled_meshlets: u32,
    /// Near-plane, invalid-bound, and otherwise uncertain tests that were conservatively retained.
    pub conservatively_visible_meshlets: u32,
    /// Logical 32-meshlet task groups for `TaskMesh`; zero for the other concrete backends.
    pub task_workgroups: u32,
    pub visible_meshlets_per_bin: MeshletPsoBinStats,
    pub indirect_draws_per_bin: MeshletPsoBinStats,
    /// Logical vertices in the compute-compacted visible set.
    pub output_vertices: u64,
    /// Logical primitives in the compute-compacted visible set.
    pub output_primitives: u64,
    pub overflow: MeshletOverflowFlags,
    pub gpu_timings: MeshletGpuPassTimings,
}

/// Exact sum of a sequence of counts.
pub open spec fn spec_sum_u32(values: Seq<u32>) -> int
    decreases values.len(),
{
    if values.len() == 0 {
        0
    } else {
        spec_sum_u32(values.drop_last()) + values.last() as int
    }
}

impl MeshletRenderStats {
    /// Associates one timestamp report with this delayed counter snapshot after checking identity;
    /// a report of another frame is refused and leaves the snapshot unchanged.
    pub fn associate_gpu_timings(&mut self, timings: MeshletGpuFrameTimings) -> (r: Result<
        (),
        MeshletGpuTimingError,
    >)
        ensures
            old(self).frame_index == timings.frame_index ==> r is Ok && *final(self) == (
            MeshletRenderStats { gpu_timings: timings.passes, ..*old(self) }),
            old(self).frame_index != timings.frame_index ==> r == Err::<(), MeshletGpuTimingError>(
                MeshletGpuTimingError::FrameMismatch {
                    stats_frame_index: old(self).frame_index,
                    timing_frame_index: timings.frame_index,
                },
            ) && *final(self) == *old(self),
    {
        if self.frame_index != timings.frame_index {
            return Err(
                MeshletGpuTimingError::FrameMismatch {
                    stats_frame_index: self.frame_index,
                    timing_frame_index: timings.frame_index,
                },
            );
        }
        self.gpu_timings = timings.passes;
        Ok(())
    }

    /// Returns the number of instances represented by the complete reported LOD distribution,
    /// including the overflow bucket, saturating at the largest `u32`.
    pub fn lod_instance_total(self) -> (r: u32)
        ensures
            r as int == if self.lod_overflow_instances + spec_sum_u32(self.lod_instances@)
                > u32::MAX {
                u32::MAX as int
            } else {
                self.lod_overflow_instances + spec_sum_u32(self.lod_instances@)
            },
    {
        let mut total: u32 = self.lod_overflow_instances;
        let mut i: usize = 0;
        let ghost all = self.lod_instances@;
        while i < 8
            invariant
                i <= 8,
                all == self.lod_instances@,
                all.len() == 8,
                total as int == if self.lod_overflow_instances + spec_sum_u32(
                    all.subrange(0, i as int),
                ) > u32::MAX {
                    u32::MAX as int
                } else {
                    self.lod_overflow_instances + spec_sum_u32(all.subrange(0, i as int))
                },
            decreases 8 - i,
        {
            assert(all.subrange(0, i + 1).drop_last() == all.subrange(0, i as int));
            total = total.saturating_add(self.lod_instances[i]);
            i = i + 1;
        }
        assert(all.subrange(0, 8) == all);
        total
    }

    /// A snapshot with no capacity loss. This does not imply that timestamp queries were present.
    pub fn is_complete(self) -> (r: bool)
        ensures
            r == (self.overflow.0 == 0),
    {
        self.overflow.is_empty()
    }
}

} // verus!

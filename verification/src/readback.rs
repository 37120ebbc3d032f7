//! The three-submission-delayed counter readback: which staging slot receives the next counter
//! copy, when a submitted copy may be mapped, how a mapped counter block becomes a stats snapshot,
//! and how timestamp reports meet their snapshots by frame identity.
//!
//! The GPU side (staging buffers, mapping, polling) stays with the caller, which reports each
//! finished mapping back here.

use vstd::prelude::*;

use crate::asset::layout::{read_u32_at, u32_at};
use crate::config::{MeshletBackend, TASK_PACKET_MESHLET_COUNT};
use crate::timing_tables::{
    awaited_contains, awaited_insert, awaited_new, awaited_remove, timings_get, timings_insert,
    timings_len, timings_new, timings_remove,
};
use crate::stats::{
    sat_add_u32, MeshletGpuFrameTimings, MeshletGpuPassTimings, MeshletGpuTimingError,
    MeshletOverflowFlags, MeshletPsoBinStats, MeshletRenderStats, MeshletTimingReport,
    MESHLET_STATS_READBACK_DELAY_FRAMES,
};
use std::collections::{BTreeMap, BTreeSet};

verus! {

/// Staging slots in the readback ring.
pub const READBACK_RING_SIZE: usize = 3;

/// The counter block the GPU writes each frame.
#[derive(Clone, Copy, Debug, PartialEq, Eq, Default)]
pub struct GpuCounters {
    pub candidate_count: u32,
    pub packet_count_backface: u32,
    pub packet_count_two_sided: u32,
    pub visible_count_backface: u32,
    pub visible_count_two_sided: u32,
    pub instances_visible: u32,
    pub culled_frustum: u32,
    pub culled_cone: u32,
    pub culled_hiz: u32,
    pub output_vertices: u32,
    pub output_primitives: u32,
    pub overflow: u32,
    pub lod_histogram: [u32; 8],
    pub lod_overflow_instances: u32,
    pub conservatively_visible_meshlets: u32,
    pub raster_claim_backface: u32,
    pub raster_claim_two_sided: u32,
}

/// The counter block stored little-endian in the first 128 bytes of `b`.
pub open spec fn counters_from(b: Seq<u8>) -> GpuCounters {
    GpuCounters {
        candidate_count: u32_at(b, 0),
        packet_count_backface: u32_at(b, 4),
        packet_count_two_sided: u32_at(b, 8),
        visible_count_backface: u32_at(b, 12),
        visible_count_two_sided: u32_at(b, 16),
        instances_visible: u32_at(b, 20),
        culled_frustum: u32_at(b, 24),
        culled_cone: u32_at(b, 28),
        culled_hiz: u32_at(b, 32),
        output_vertices: u32_at(b, 36),
        output_primitives: u32_at(b, 40),
        overflow: u32_at(b, 44),
        lod_histogram: [
            u32_at(b, 48),
            u32_at(b, 52),
            u32_at(b, 56),
            u32_at(b, 60),
            u32_at(b, 64),
            u32_at(b, 68),
            u32_at(b, 72),
            u32_at(b, 76),
        ],
        lod_overflow_instances: u32_at(b, 80),
        conservatively_visible_meshlets: u32_at(b, 84),
        raster_claim_backface: u32_at(b, 88),
        raster_claim_two_sided: u32_at(b, 92),
    }
}

impl GpuCounters {
    /// Reads the counter block from the mapped bytes of a staging buffer.
    pub fn from_le_bytes(bytes: &[u8]) -> (r: Self)
        requires
            bytes@.len() >= 128,
        ensures
            r == counters_from(bytes@),
    {
        let r = GpuCounters {
            candidate_count: read_u32_at(bytes, 0),
            packet_count_backface: read_u32_at(bytes, 4),
            packet_count_two_sided: read_u32_at(bytes, 8),
            visible_count_backface: read_u32_at(bytes, 12),
            visible_count_two_sided: read_u32_at(bytes, 16),
            instances_visible: read_u32_at(bytes, 20),
            culled_frustum: read_u32_at(bytes, 24),
            culled_cone: read_u32_at(bytes, 28),
            culled_hiz: read_u32_at(bytes, 32),
            output_vertices: read_u32_at(bytes, 36),
            output_primitives: read_u32_at(bytes, 40),
            overflow: read_u32_at(bytes, 44),
            lod_histogram: [
                read_u32_at(bytes, 48),
                read_u32_at(bytes, 52),
                read_u32_at(bytes, 56),
                read_u32_at(bytes, 60),
                read_u32_at(bytes, 64),
                read_u32_at(bytes, 68),
                read_u32_at(bytes, 72),
                read_u32_at(bytes, 76),
            ],
            lod_overflow_instances: read_u32_at(bytes, 80),
            conservatively_visible_meshlets: read_u32_at(bytes, 84),
            raster_claim_backface: read_u32_at(bytes, 88),
            raster_claim_two_sided: read_u32_at(bytes, 92),
        };
        assert(r.lod_histogram =~= counters_from(bytes@).lod_histogram);
        r
    }
}

/// `a / b` rounded up.
pub open spec fn div_ceil_u32(a: u32, b: u32) -> u32 {
    ((a + b - 1) / (b as int)) as u32
}

/// The no-timing pass record.
pub open spec fn no_timings() -> MeshletGpuPassTimings {
    MeshletGpuPassTimings {
        clear_frame_counters_ns: None,
        instance_classify_lod_count_ns: None,
        prefix_scan_ns: None,
        candidate_scatter_ns: None,
        coarse_cull_ns: None,
        occluder_depth_ns: None,
        hiz_build_ns: None,
        clear_coarse_results_ns: None,
        final_cull_ns: None,
        indirect_prepare_ns: None,
        backend_raster_ns: None,
        stats_copy_ns: None,
    }
}

/// The stats snapshot of a counter block: per-bin visible counts, their saturated total, one
/// indirect draw per visible meshlet, and for `TaskMesh` the 32-meshlet task groups of each bin.
pub open spec fn spec_decode(
    frame_index: u64,
    total_instances: u32,
    backend: MeshletBackend,
    c: GpuCounters,
) -> MeshletRenderStats {
    let bins = MeshletPsoBinStats {
        opaque_backface: c.visible_count_backface,
        opaque_two_sided: c.visible_count_two_sided,
    };
    MeshletRenderStats {
        frame_index,
        total_instances,
        classified_instances: total_instances,
        visible_instances: c.instances_visible,
        lod_instances: c.lod_histogram,
        lod_overflow_instances: c.lod_overflow_instances,
        candidate_meshlets: c.candidate_count,
        visible_meshlets: sat_add_u32(c.visible_count_backface, c.visible_count_two_sided),
        frustum_culled_meshlets: c.culled_frustum,
        normal_cone_culled_meshlets: c.culled_cone,
        hiz_culled_meshlets: c.culled_hiz,
        conservatively_visible_meshlets: c.conservatively_visible_meshlets,
        task_workgroups: if backend == MeshletBackend::TaskMesh {
            sat_add_u32(
                div_ceil_u32(c.visible_count_backface, TASK_PACKET_MESHLET_COUNT),
                div_ceil_u32(c.visible_count_two_sided, TASK_PACKET_MESHLET_COUNT),
            )
        } else {
            0
        },
        visible_meshlets_per_bin: bins,
        indirect_draws_per_bin: bins,
        output_vertices: c.output_vertices as u64,
        output_primitives: c.output_primitives as u64,
        overflow: MeshletOverflowFlags(c.overflow),
        gpu_timings: no_timings(),
    }
}

/// Every culling and output counter of a block lands in the snapshot field of the same name:
/// frustum culls in `frustum_culled_meshlets`, normal-cone culls in
/// `normal_cone_culled_meshlets`, Hi-Z culls in `hiz_culled_meshlets`; the visible meshlets are
/// the two bins added up, saturating; and every snapshot is for the frame it was asked for.
pub proof fn lemma_decode_reports_each_counter(
    frame_index: u64,
    total_instances: u32,
    backend: MeshletBackend,
    c: GpuCounters,
)
    ensures
        ({
            let s = spec_decode(frame_index, total_instances, backend, c);
            &&& s.frame_index == frame_index
            &&& s.total_instances == total_instances
            &&& s.frustum_culled_meshlets == c.culled_frustum
            &&& s.normal_cone_culled_meshlets == c.culled_cone
            &&& s.hiz_culled_meshlets == c.culled_hiz
            &&& s.candidate_meshlets == c.candidate_count
            &&& s.visible_instances == c.instances_visible
            &&& s.conservatively_visible_meshlets == c.conservatively_visible_meshlets
            &&& s.lod_overflow_instances == c.lod_overflow_instances
            &&& s.lod_instances == c.lod_histogram
            &&& s.classified_instances == total_instances
            &&& (backend != MeshletBackend::TaskMesh ==> s.task_workgroups == 0)
            &&& s.visible_meshlets_per_bin.opaque_backface == c.visible_count_backface
            &&& s.visible_meshlets_per_bin.opaque_two_sided == c.visible_count_two_sided
            &&& s.visible_meshlets as int == if c.visible_count_backface + c.visible_count_two_sided
                > u32::MAX {
                u32::MAX as int
            } else {
                c.visible_count_backface + c.visible_count_two_sided
            }
            &&& s.output_vertices == c.output_vertices
            &&& s.output_primitives == c.output_primitives
            &&& s.overflow.0 == c.overflow
        }),
{
}

fn div_ceil_32(a: u32) -> (r: u32)
    ensures
        r == div_ceil_u32(a, TASK_PACKET_MESHLET_COUNT),
{
    if a % 32 == 0 {
        a / 32
    } else {
        a / 32 + 1
    }
}

/// Decodes one counter block into a stats snapshot.
pub fn decode(
    frame_index: u64,
    total_instances: u32,
    backend: MeshletBackend,
    counters: GpuCounters,
) -> (r: MeshletRenderStats)
    ensures
        r == spec_decode(frame_index, total_instances, backend, counters),
{
    let bins = MeshletPsoBinStats {
        opaque_backface: counters.visible_count_backface,
        opaque_two_sided: counters.visible_count_two_sided,
    };
    let task_workgroups = if backend == MeshletBackend::TaskMesh {
        div_ceil_32(counters.visible_count_backface).saturating_add(
            div_ceil_32(counters.visible_count_two_sided),
        )
    } else {
        0
    };
    MeshletRenderStats {
        frame_index,
        total_instances,
        classified_instances: total_instances,
        visible_instances: counters.instances_visible,
        lod_instances: counters.lod_histogram,
        lod_overflow_instances: counters.lod_overflow_instances,
        candidate_meshlets: counters.candidate_count,
        visible_meshlets: bins.total(),
        frustum_culled_meshlets: counters.culled_frustum,
        normal_cone_culled_meshlets: counters.culled_cone,
        hiz_culled_meshlets: counters.culled_hiz,
        conservatively_visible_meshlets: counters.conservatively_visible_meshlets,
        task_workgroups,
        visible_meshlets_per_bin: bins,
        indirect_draws_per_bin: bins,
        output_vertices: counters.output_vertices as u64,
        output_primitives: counters.output_primitives as u64,
        overflow: MeshletOverflowFlags::from_bits_retain(counters.overflow),
        gpu_timings: MeshletGpuPassTimings {
            clear_frame_counters_ns: None,
            instance_classify_lod_count_ns: None,
            prefix_scan_ns: None,
            candidate_scatter_ns: None,
            coarse_cull_ns: None,
            occluder_depth_ns: None,
            hiz_build_ns: None,
            clear_coarse_results_ns: None,
            final_cull_ns: None,
            indirect_prepare_ns: None,
            backend_raster_ns: None,
            stats_copy_ns: None,
        },
    }
}

/// A slot once the submission count reaches `epoch`: a submitted copy becomes mappable from its
/// eligible epoch on; every other state stays.
pub open spec fn slot_after_submit(slot: SlotState, epoch: u64) -> SlotState {
    match slot {
        SlotState::Submitted { eligible_epoch, frame_index, sequence } => if eligible_epoch <= epoch {
            SlotState::Mapping { frame_index, sequence }
        } else {
            slot
        },
        other => other,
    }
}

/// A counter copy is mapped by the third submission after its own and by no earlier one.
pub proof fn lemma_mapping_waits_three_submissions(epoch: u64, frame_index: u64, sequence: u64)
    requires
        epoch + 3 <= u64::MAX,
    ensures
        ({
            let s = SlotState::Submitted {
                eligible_epoch: (epoch + 3) as u64,
                frame_index,
                sequence,
            };
            &&& slot_after_submit(s, (epoch + 1) as u64) == s
            &&& slot_after_submit(slot_after_submit(s, (epoch + 1) as u64), (epoch + 2) as u64) == s
            &&& slot_after_submit(
                slot_after_submit(slot_after_submit(s, (epoch + 1) as u64), (epoch + 2) as u64),
                (epoch + 3) as u64,
            ) == SlotState::Mapping { frame_index, sequence }
        }),
{
}

/// The state of one staging slot.
#[derive(Clone, Copy, Debug, PartialEq, Eq, Structural)]
pub enum SlotState {
    Idle,
    /// A counter copy was submitted; it may be mapped from `eligible_epoch` on.
    Submitted { eligible_epoch: u64, frame_index: u64, sequence: u64 },
    /// The staging buffer is being mapped.
    Mapping { frame_index: u64, sequence: u64 },
}

/// The frame a slot holds counters of, if any.
pub open spec fn slot_frame(s: SlotState) -> Option<u64> {
    match s {
        SlotState::Idle => None,
        SlotState::Submitted { frame_index, .. } => Some(frame_index),
        SlotState::Mapping { frame_index, .. } => Some(frame_index),
    }
}

/// Keys strictly increase.
pub open spec fn strictly_sorted(entries: Seq<(u64, MeshletRenderStats)>) -> bool {
    forall|i: int, j: int| 0 <= i < j < entries.len() ==> entries[i].0 < entries[j].0
}

/// Every kept timing is filed under its own frame.
pub open spec fn timings_keyed(t: Map<u64, MeshletGpuFrameTimings>) -> bool {
    forall|f: u64| #[trigger] t.contains_key(f) ==> t[f].frame_index == f
}

/// Where key `k` belongs among sorted snapshots: the first position whose key is not below it.
pub open spec fn insert_position(r: Seq<(u64, MeshletRenderStats)>, k: u64) -> int {
    choose|p: int|
        0 <= p <= r.len() && (forall|i: int| 0 <= i < p ==> (#[trigger] r[i]).0 < k) && (p < r.len()
            ==> r[p].0 >= k)
}

/// The snapshots with `(k, v)` inserted in key order, replacing an entry with the same key.
pub open spec fn ready_insert(r: Seq<(u64, MeshletRenderStats)>, k: u64, v: MeshletRenderStats) -> Seq<(u64, MeshletRenderStats)> {
    let p = insert_position(r, k);
    if p < r.len() && r[p].0 == k {
        r.update(p, (k, v))
    } else {
        r.insert(p, (k, v))
    }
}

/// The first snapshot of frame `f`, if any.
pub open spec fn snapshot_position(r: Seq<(u64, MeshletRenderStats)>, f: u64) -> Option<int> {
    if exists|i: int| 0 <= i < r.len() && (#[trigger] r[i]).1.frame_index == f {
        Some(
            choose|i: int|
                0 <= i < r.len() && (#[trigger] r[i]).1.frame_index == f && forall|j: int|
                    0 <= j < i ==> (#[trigger] r[j]).1.frame_index != f,
        )
    } else {
        None
    }
}

/// Some slot holds frame `f`'s counters.
pub open spec fn frame_pending(slots: Seq<SlotState>, f: u64) -> bool {
    exists|s: int| 0 <= s < slots.len() && slot_frame(#[trigger] slots[s]) == Some(f)
}

fn insert_ready(r: &mut Vec<(u64, MeshletRenderStats)>, k: u64, v: MeshletRenderStats)
    requires
        strictly_sorted(old(r)@),
    ensures
        final(r)@ == ready_insert(old(r)@, k, v),
        strictly_sorted(final(r)@),
{
    let ghost orig = r@;
    let mut p: usize = 0;
    while p < r.len() && r[p].0 < k
        invariant
            orig == r@,
            p <= orig.len(),
            forall|i: int| 0 <= i < p ==> (#[trigger] orig[i]).0 < k,
        decreases orig.len() - p,
    {
        p = p + 1;
    }
    proof {
        let q = insert_position(orig, k);
        assert(0 <= p <= orig.len() && (forall|i: int| 0 <= i < p ==> (#[trigger] orig[i]).0 < k)
            && (p < orig.len() ==> orig[p as int].0 >= k));
        if q < p {
            assert(orig[q].0 >= k);
        } else if q > p {
            assert(orig[p as int].0 < k);
        }
    }
    if p < r.len() && r[p].0 == k {
        r.set(p, (k, v));
    } else {
        r.insert(p, (k, v));
    }
}

/// The decisions of the delayed counter readback: the staging ring, the pending request, the
/// submission clock, completed snapshots by submission sequence, early timings by frame, and the
/// frames whose timing is still awaited.
pub struct MeshletStatsReadback {
    slots: [SlotState; 3],
    next_index: usize,
    requested: bool,
    requested_timing: bool,
    submission_epoch: u64,
    next_sequence: u64,
    total_instances: u32,
    backend: MeshletBackend,
    ready: Vec<(u64, MeshletRenderStats)>,
    timings: BTreeMap<u64, MeshletGpuFrameTimings>,
    expected_timings: BTreeSet<u64>,
}

impl MeshletStatsReadback {
    pub closed spec fn spec_slots(&self) -> Seq<SlotState> {
        self.slots@
    }

    pub closed spec fn spec_next_index(&self) -> usize {
        self.next_index
    }

    pub closed spec fn spec_requested(&self) -> bool {
        self.requested
    }

    pub closed spec fn spec_requested_timing(&self) -> bool {
        self.requested_timing
    }

    pub closed spec fn spec_epoch(&self) -> u64 {
        self.submission_epoch
    }

    pub closed spec fn spec_next_sequence(&self) -> u64 {
        self.next_sequence
    }

    pub closed spec fn spec_total_instances(&self) -> u32 {
        self.total_instances
    }

    pub closed spec fn spec_backend(&self) -> MeshletBackend {
        self.backend
    }

    /// Completed snapshots with their submission sequence, oldest first.
    pub closed spec fn spec_ready(&self) -> Seq<(u64, MeshletRenderStats)> {
        self.ready@
    }

    /// Timings that arrived before their counters.
    pub closed spec fn spec_timings(&self) -> Map<u64, MeshletGpuFrameTimings> {
        self.timings@
    }

    /// Frames whose snapshot waits for its timing.
    pub closed spec fn spec_expected(&self) -> Set<u64> {
        self.expected_timings@
    }

    /// The ring index is in range, snapshots are ordered by sequence, and every early timing is
    /// filed under its own frame.
    pub closed spec fn wf(&self) -> bool {
        &&& self.next_index < 3
        &&& strictly_sorted(self.ready@)
        &&& timings_keyed(self.timings@)
    }

    /// Completed snapshots wait in submission order: their sequence numbers strictly increase,
    /// and [`Self::take_ready`] hands out the first.
    pub proof fn lemma_ready_in_submission_order(&self)
        requires
            self.wf(),
        ensures
            strictly_sorted(self.spec_ready()),
    {
    }

    /// An empty ring with no request.
    pub fn new(total_instances: u32, backend: MeshletBackend) -> (r: Self)
        ensures
            r.wf(),
            r.spec_slots() == seq![SlotState::Idle, SlotState::Idle, SlotState::Idle],
            r.spec_next_index() == 0,
            !r.spec_requested(),
            !r.spec_requested_timing(),
            r.spec_epoch() == 0,
            r.spec_next_sequence() == 0,
            r.spec_total_instances() == total_instances,
            r.spec_backend() == backend,
            r.spec_ready().len() == 0,
            r.spec_timings() == Map::<u64, MeshletGpuFrameTimings>::empty(),
            r.spec_expected() == Set::<u64>::empty(),
    {
        let r = MeshletStatsReadback {
            slots: [SlotState::Idle, SlotState::Idle, SlotState::Idle],
            next_index: 0,
            requested: false,
            requested_timing: false,
            submission_epoch: 0,
            next_sequence: 0,
            total_instances,
            backend,
            ready: Vec::new(),
            timings: timings_new(),
            expected_timings: awaited_new(),
        };
        assert(r.slots@ =~= seq![SlotState::Idle, SlotState::Idle, SlotState::Idle]);
        r
    }

    /// The state of staging slot `index`.
    pub fn slot(&self, index: usize) -> (r: SlotState)
        requires
            index < 3,
        ensures
            r == self.spec_slots()[index as int],
    {
        self.slots[index]
    }

    pub fn next_index(&self) -> (r: usize)
        ensures
            r == self.spec_next_index(),
    {
        self.next_index
    }

    pub fn is_requested(&self) -> (r: bool)
        ensures
            r == self.spec_requested(),
    {
        self.requested
    }

    pub fn is_timing_requested(&self) -> (r: bool)
        ensures
            r == self.spec_requested_timing(),
    {
        self.requested_timing
    }

    /// Everything but the request flags is the same.
    pub open spec fn same_apart_from_requests(&self, other: &Self) -> bool {
        &&& self.spec_slots() == other.spec_slots()
        &&& self.spec_next_index() == other.spec_next_index()
        &&& self.spec_epoch() == other.spec_epoch()
        &&& self.spec_next_sequence() == other.spec_next_sequence()
        &&& self.spec_total_instances() == other.spec_total_instances()
        &&& self.spec_backend() == other.spec_backend()
        &&& self.spec_ready() == other.spec_ready()
        &&& self.spec_timings() == other.spec_timings()
        &&& self.spec_expected() == other.spec_expected()
    }

    /// Asks for a counter copy from the next eligible frame.
    pub fn request(&mut self)
        requires
            old(self).wf(),
        ensures
            final(self).wf(),
            final(self).spec_requested(),
            final(self).spec_requested_timing() == old(self).spec_requested_timing(),
            final(self).same_apart_from_requests(old(self)),
    {
        self.requested = true;
    }

    /// No request is pending and the next slot is free.
    pub open spec fn spec_can_request(&self) -> bool {
        !self.spec_requested() && self.spec_slots()[self.spec_next_index() as int]
            == SlotState::Idle
    }

    pub fn can_request_immediately(&self) -> (r: bool)
        requires
            self.wf(),
        ensures
            r == self.spec_can_request(),
    {
        !self.requested && self.slots[self.next_index] == SlotState::Idle
    }

    /// Requests a copy only when one can be planned at once.
    pub fn try_request(&mut self) -> (r: bool)
        requires
            old(self).wf(),
        ensures
            final(self).wf(),
            r == old(self).spec_can_request(),
            r ==> final(self).spec_requested() && final(self).spec_requested_timing() == old(self).spec_requested_timing() && final(self).same_apart_from_requests(old(self)),
            !r ==> *final(self) == *old(self),
    {
        if !self.can_request_immediately() {
            return false;
        }
        self.requested = true;
        true
    }

    /// Requests a copy whose snapshot also waits for the frame's GPU timing.
    pub fn try_request_with_gpu_timing(&mut self) -> (r: bool)
        requires
            old(self).wf(),
        ensures
            final(self).wf(),
            r == old(self).spec_can_request(),
            r ==> final(self).spec_requested() && final(self).spec_requested_timing()
                && final(self).same_apart_from_requests(old(self)),
            !r ==> *final(self) == *old(self),
    {
        if !self.try_request() {
            return false;
        }
        self.requested_timing = true;
        true
    }

    /// The slot the next counter copy goes to: the ring's next slot when a request is pending and
    /// the slot is free. Asking changes nothing, so a discarded frame keeps the request.
    pub open spec fn spec_planned(&self) -> Option<usize> {
        if self.spec_requested() && self.spec_slots()[self.spec_next_index() as int]
            == SlotState::Idle {
            Some(self.spec_next_index())
        } else {
            None
        }
    }

    pub fn planned_buffer_index(&self) -> (r: Option<usize>)
        requires
            self.wf(),
        ensures
            r == self.spec_planned(),
    {
        if !self.requested || self.slots[self.next_index] != SlotState::Idle {
            return None;
        }
        Some(self.next_index)
    }

    /// A timed request needs a frame that no awaited timing, snapshot or other slot holds.
    pub open spec fn spec_frame_unique(&self, index: usize, frame_index: u64) -> bool {
        &&& !self.spec_expected().contains(frame_index)
        &&& forall|k: int|
            0 <= k < self.spec_ready().len() ==> (#[trigger] self.spec_ready()[k]).1.frame_index
                != frame_index
        &&& forall|s: int|
            0 <= s < 3 && s != index ==> slot_frame(#[trigger] self.spec_slots()[s]) != Some(
                frame_index,
            )
    }

    /// Records that the planned copy was submitted with frame `frame_index`: the request is
    /// consumed, the slot waits three submissions, and the ring moves on.
    pub fn commit_submitted(&mut self, index: usize, frame_index: u64)
        requires
            old(self).wf(),
            old(self).spec_planned() == Some(index),
            old(self).spec_requested_timing() ==> old(self).spec_frame_unique(index, frame_index),
        ensures
            final(self).wf(),
            !final(self).spec_requested(),
            !final(self).spec_requested_timing(),
            final(self).spec_slots() == old(self).spec_slots().update(
                index as int,
                SlotState::Submitted {
                    eligible_epoch: if old(self).spec_epoch() + 3 > u64::MAX {
                        u64::MAX
                    } else {
                        (old(self).spec_epoch() + 3) as u64
                    },
                    frame_index,
                    sequence: old(self).spec_next_sequence(),
                },
            ),
            final(self).spec_next_index() == (index + 1) % 3,
            final(self).spec_next_sequence() == if old(self).spec_next_sequence() == u64::MAX {
                u64::MAX
            } else {
                (old(self).spec_next_sequence() + 1) as u64
            },
            final(self).spec_expected() == if old(self).spec_requested_timing() {
                old(self).spec_expected().insert(frame_index)
            } else {
                old(self).spec_expected()
            },
            final(self).spec_epoch() == old(self).spec_epoch(),
            final(self).spec_ready() == old(self).spec_ready(),
            final(self).spec_timings() == old(self).spec_timings(),
            final(self).spec_total_instances() == old(self).spec_total_instances(),
            final(self).spec_backend() == old(self).spec_backend(),
    {
        self.requested = false;
        if self.requested_timing {
            awaited_insert(&mut self.expected_timings, frame_index);
        }
        self.requested_timing = false;
        let sequence = self.next_sequence;
        self.next_sequence = self.next_sequence.saturating_add(1);
        self.slots.set(
            index,
            SlotState::Submitted {
                eligible_epoch: self.submission_epoch.saturating_add(
                    MESHLET_STATS_READBACK_DELAY_FRAMES as u64,
                ),
                frame_index,
                sequence,
            },
        );
        self.next_index = (index + 1) % 3;
    }

    /// Advances the submission clock and starts mapping every submitted slot that became
    /// eligible; returns those slots, whose staging buffers the caller now maps.
    pub fn after_submit(&mut self) -> (r: Vec<usize>)
        requires
            old(self).wf(),
        ensures
            final(self).wf(),
            final(self).spec_epoch() == if old(self).spec_epoch() == u64::MAX {
                u64::MAX
            } else {
                (old(self).spec_epoch() + 1) as u64
            },
            final(self).spec_slots().len() == 3,
            forall|s: int|
                0 <= s < 3 ==> #[trigger] final(self).spec_slots()[s] == slot_after_submit(
                    old(self).spec_slots()[s],
                    final(self).spec_epoch(),
                ),
            forall|k: int|
                0 <= k < r@.len() ==> r@[k] < 3 && (#[trigger] old(self).spec_slots()[r@[k] as int]
                    is Submitted) && final(self).spec_slots()[r@[k] as int] is Mapping,
            forall|s: int|
                0 <= s < 3 && final(self).spec_slots()[s] is Mapping && !(old(self).spec_slots()[s] is Mapping)
                    ==> r@.contains(s as usize),
            final(self).spec_next_index() == old(self).spec_next_index(),
            final(self).spec_requested() == old(self).spec_requested(),
            final(self).spec_requested_timing() == old(self).spec_requested_timing(),
            final(self).spec_next_sequence() == old(self).spec_next_sequence(),
            final(self).spec_ready() == old(self).spec_ready(),
            final(self).spec_timings() == old(self).spec_timings(),
            final(self).spec_expected() == old(self).spec_expected(),
            final(self).spec_total_instances() == old(self).spec_total_instances(),
            final(self).spec_backend() == old(self).spec_backend(),
    {
        self.submission_epoch = self.submission_epoch.saturating_add(1);
        let ghost before = self.slots@;
        let ghost mid = *self;
        let mut started: Vec<usize> = Vec::new();
        let mut s: usize = 0;
        while s < 3
            invariant
                s <= 3,
                mid.wf(),
                self.submission_epoch == mid.submission_epoch,
                self.next_index == mid.next_index,
                self.requested == mid.requested,
                self.requested_timing == mid.requested_timing,
                self.next_sequence == mid.next_sequence,
                self.total_instances == mid.total_instances,
                self.backend == mid.backend,
                self.ready == mid.ready,
                self.timings == mid.timings,
                self.expected_timings == mid.expected_timings,
                self.slots@.len() == 3,
                before.len() == 3,
                forall|k: int| s <= k < 3 ==> self.slots@[k] == before[k],
                forall|k: int|
                    0 <= k < s ==> #[trigger] self.slots@[k] == match before[k] {
                        SlotState::Submitted { eligible_epoch, frame_index, sequence }
                            => if eligible_epoch <= self.submission_epoch {
                            SlotState::Mapping { frame_index, sequence }
                        } else {
                            before[k]
                        },
                        other => other,
                    },
                forall|k: int|
                    0 <= k < started@.len() ==> started@[k] < s && (#[trigger] before[started@[k] as int]
                        is Submitted) && self.slots@[started@[k] as int] is Mapping,
                forall|k: int|
                    0 <= k < s && self.slots@[k] is Mapping && !(before[k] is Mapping)
                        ==> started@.contains(k as usize),
            decreases 3 - s,
        {
            match self.slots[s] {
                SlotState::Submitted { eligible_epoch, frame_index, sequence } => {
                    if eligible_epoch <= self.submission_epoch {
                        self.slots.set(s, SlotState::Mapping { frame_index, sequence });
                        let ghost prior = started@;
                        started.push(s);
                        proof {
                            assert(started@[started@.len() - 1] == s);
                            assert forall|x: usize| prior.contains(x) implies started@.contains(x) by {
                                let i = choose|i: int| 0 <= i < prior.len() && prior[i] == x;
                                assert(started@[i] == x);
                            }
                        }
                    }
                },
                _ => {},
            }
            s = s + 1;
        }
        started
    }

    /// The ring, its request flags and its clocks are the same.
    pub open spec fn same_ring(&self, other: &Self) -> bool {
        &&& self.spec_slots() == other.spec_slots()
        &&& self.spec_next_index() == other.spec_next_index()
        &&& self.spec_requested() == other.spec_requested()
        &&& self.spec_requested_timing() == other.spec_requested_timing()
        &&& self.spec_epoch() == other.spec_epoch()
        &&& self.spec_next_sequence() == other.spec_next_sequence()
        &&& self.spec_total_instances() == other.spec_total_instances()
        &&& self.spec_backend() == other.spec_backend()
    }

    /// The snapshot a finished mapping of slot `index` yields from counters `c`, with an early
    /// timing of its frame attached.
    pub open spec fn spec_completed_stats(&self, index: int, c: GpuCounters) -> MeshletRenderStats {
        let f = slot_frame(self.spec_slots()[index])->0;
        let base = spec_decode(f, self.spec_total_instances(), self.spec_backend(), c);
        if self.spec_timings().contains_key(f) {
            MeshletRenderStats { gpu_timings: self.spec_timings()[f].passes, ..base }
        } else {
            base
        }
    }

    /// Records the end of slot `index`'s mapping: the slot becomes free; on success the counters
    /// become a snapshot, filed by submission sequence and joined with an early timing of its
    /// frame; on failure the frame's early timing and awaited timing are dropped.
    pub fn map_completed(&mut self, index: usize, counters: Option<GpuCounters>)
        requires
            old(self).wf(),
            index < 3,
            old(self).spec_slots()[index as int] is Mapping,
        ensures
            final(self).wf(),
            ({
                let f = slot_frame(old(self).spec_slots()[index as int])->0;
                let q = old(self).spec_slots()[index as int]->Mapping_sequence;
                &&& final(self).spec_slots() == old(self).spec_slots().update(
                    index as int,
                    SlotState::Idle,
                )
                &&& final(self).spec_next_index() == old(self).spec_next_index()
                &&& final(self).spec_requested() == old(self).spec_requested()
                &&& final(self).spec_requested_timing() == old(self).spec_requested_timing()
                &&& final(self).spec_epoch() == old(self).spec_epoch()
                &&& final(self).spec_next_sequence() == old(self).spec_next_sequence()
                &&& final(self).spec_total_instances() == old(self).spec_total_instances()
                &&& final(self).spec_backend() == old(self).spec_backend()
                &&& counters is None ==> final(self).spec_ready() == old(self).spec_ready()
                    && final(self).spec_timings() == old(self).spec_timings().remove(f)
                    && final(self).spec_expected() == old(self).spec_expected().remove(f)
                &&& counters matches Some(c) ==> final(self).spec_ready() == ready_insert(
                    old(self).spec_ready(),
                    q,
                    old(self).spec_completed_stats(index as int, c),
                ) && (old(self).spec_timings().contains_key(f) ==> final(self).spec_timings()
                    == old(self).spec_timings().remove(f) && final(self).spec_expected()
                    == old(self).spec_expected().remove(f)) && (!old(self).spec_timings().contains_key(
                    f,
                ) ==> final(self).spec_timings() == old(self).spec_timings()
                    && final(self).spec_expected() == old(self).spec_expected())
            }),
    {
        let (frame_index, sequence) = match self.slots[index] {
            SlotState::Mapping { frame_index, sequence } => (frame_index, sequence),
            _ => (0, 0),
        };
        self.slots.set(index, SlotState::Idle);
        match counters {
            None => {
                timings_remove(&mut self.timings, frame_index);
                awaited_remove(&mut self.expected_timings, frame_index);
            },
            Some(c) => {
                let mut stats = decode(frame_index, self.total_instances, self.backend, c);
                match timings_remove(&mut self.timings, frame_index) {
                    Some(timing) => {
                        assert(timing.frame_index == frame_index);
                        let _ = stats.associate_gpu_timings(timing);
                        awaited_remove(&mut self.expected_timings, frame_index);
                    },
                    None => {
                        assert(self.timings@ =~= old(self).timings@);
                    },
                }
                insert_ready(&mut self.ready, sequence, stats);
            },
        }
    }

    /// Takes the oldest completed snapshot, unless it still waits for its frame's timing.
    pub fn take_ready(&mut self) -> (r: Option<MeshletRenderStats>)
        requires
            old(self).wf(),
        ensures
            final(self).wf(),
            final(self).same_ring(old(self)),
            final(self).spec_timings() == old(self).spec_timings(),
            final(self).spec_expected() == old(self).spec_expected(),
            old(self).spec_ready().len() == 0 || old(self).spec_expected().contains(
                old(self).spec_ready()[0].1.frame_index,
            ) ==> r is None && final(self).spec_ready() == old(self).spec_ready(),
            old(self).spec_ready().len() > 0 && !old(self).spec_expected().contains(
                old(self).spec_ready()[0].1.frame_index,
            ) ==> r == Some(old(self).spec_ready()[0].1) && final(self).spec_ready() == old(self).spec_ready().drop_first(),
    {
        if self.ready.len() == 0 {
            return None;
        }
        if self.expects_timing(self.ready[0].1.frame_index) {
            return None;
        }
        let (_, stats) = self.ready.remove(0);
        Some(stats)
    }

    /// Associates a decoded timing by explicit frame identity: with its snapshot when the counters
    /// are already in, kept for later while the frame's counters are still in flight, and refused
    /// when no slot or snapshot holds that frame.
    pub fn associate_frame_timing(&mut self, timing: MeshletGpuFrameTimings) -> (r: Result<
        (),
        MeshletGpuTimingError,
    >)
        requires
            old(self).wf(),
        ensures
            final(self).wf(),
            final(self).same_ring(old(self)),
            ({
                let f = timing.frame_index;
                let o = *old(self);
                let n = *final(self);
                &&& snapshot_position(o.spec_ready(), f) matches Some(k) ==> r is Ok
                    && n.spec_ready() == o.spec_ready().update(
                    k,
                    (
                        o.spec_ready()[k].0,
                        MeshletRenderStats { gpu_timings: timing.passes, ..o.spec_ready()[k].1 },
                    ),
                ) && n.spec_timings() == o.spec_timings() && n.spec_expected()
                    == o.spec_expected().remove(f)
                &&& snapshot_position(o.spec_ready(), f) is None && !frame_pending(
                    o.spec_slots(),
                    f,
                ) ==> r == Err::<(), MeshletGpuTimingError>(
                    MeshletGpuTimingError::NoPendingStats { frame_index: f },
                ) && n.spec_ready() == o.spec_ready() && n.spec_timings() == o.spec_timings()
                    && n.spec_expected() == o.spec_expected()
                &&& snapshot_position(o.spec_ready(), f) is None && frame_pending(o.spec_slots(), f)
                    ==> r is Ok && n.spec_ready() == o.spec_ready() && n.spec_timings()
                    == o.spec_timings().insert(f, timing) && n.spec_expected()
                    == o.spec_expected()
            }),
    {
        let f = timing.frame_index;
        match self.find_snapshot(f) {
            Some(k) => {
                self.attach_to_snapshot(k, timing);
                return Ok(());
            },
            None => {},
        }
        if !self.frame_pending(f) {
            return Err(MeshletGpuTimingError::NoPendingStats { frame_index: f });
        }
        self.keep_timing(timing);
        Ok(())
    }

    /// Attaches a timing to snapshot `k` and stops waiting for it.
    fn attach_to_snapshot(&mut self, k: usize, timing: MeshletGpuFrameTimings)
        requires
            old(self).wf(),
            k < old(self).spec_ready().len(),
            old(self).spec_ready()[k as int].1.frame_index == timing.frame_index,
        ensures
            final(self).wf(),
            final(self).same_ring(old(self)),
            final(self).spec_ready() == old(self).spec_ready().update(
                k as int,
                (
                    old(self).spec_ready()[k as int].0,
                    MeshletRenderStats {
                        gpu_timings: timing.passes,
                        ..old(self).spec_ready()[k as int].1
                    },
                ),
            ),
            final(self).spec_timings() == old(self).spec_timings(),
            final(self).spec_expected() == old(self).spec_expected().remove(timing.frame_index),
    {
        let (key, mut stats) = self.ready[k];
        let _ = stats.associate_gpu_timings(timing);
        self.ready.set(k, (key, stats));
        awaited_remove(&mut self.expected_timings, timing.frame_index);
    }

    /// Keeps a timing until its frame's counters arrive, replacing an earlier one of that frame.
    fn keep_timing(&mut self, timing: MeshletGpuFrameTimings)
        requires
            old(self).wf(),
        ensures
            final(self).wf(),
            final(self).same_ring(old(self)),
            final(self).spec_ready() == old(self).spec_ready(),
            final(self).spec_timings() == old(self).spec_timings().insert(timing.frame_index, timing),
            final(self).spec_expected() == old(self).spec_expected(),
    {
        timings_insert(&mut self.timings, timing);
    }

    /// Associates a frame-graph timing report; an unavailable report releases the frame's awaited
    /// timing so that its snapshot is delivered without one.
    pub fn associate_gpu_timing(&mut self, report: &MeshletTimingReport) -> (r: Result<
        (),
        MeshletGpuTimingError,
    >)
        requires
            old(self).wf(),
        ensures
            final(self).wf(),
            final(self).same_ring(old(self)),
            *report matches MeshletTimingReport::Unavailable { frame_index } ==> r == Err::<
                (),
                MeshletGpuTimingError,
            >(MeshletGpuTimingError::Unavailable { frame_index }) && final(self).spec_ready()
                == old(self).spec_ready() && final(self).spec_timings() == old(self).spec_timings()
                && final(self).spec_expected() == old(self).spec_expected().remove(frame_index),
            *report is Unsupported ==> r == Err::<(), MeshletGpuTimingError>(
                MeshletGpuTimingError::UnsupportedReport,
            ) && *final(self) == *old(self),
    {
        match MeshletGpuFrameTimings::from_gpu_timing_report(report) {
            Ok(timing) => self.associate_frame_timing(timing),
            Err(MeshletGpuTimingError::Unavailable { frame_index }) => {
                awaited_remove(&mut self.expected_timings, frame_index);
                Err(MeshletGpuTimingError::Unavailable { frame_index })
            },
            Err(e) => Err(e),
        }
    }

    /// The first snapshot of frame `f`.
    fn find_snapshot(&self, f: u64) -> (r: Option<usize>)
        ensures
            snapshot_position(self.spec_ready(), f) is None ==> r is None,
            r matches Some(k) ==> k < self.spec_ready().len() && snapshot_position(
                self.spec_ready(),
                f,
            ) == Some(k as int) && self.spec_ready()[k as int].1.frame_index == f,
            snapshot_position(self.spec_ready(), f) is Some ==> r is Some,
    {
        let mut k: usize = 0;
        while k < self.ready.len()
            invariant
                k <= self.ready@.len(),
                forall|j: int| 0 <= j < k ==> (#[trigger] self.ready@[j]).1.frame_index != f,
            decreases self.ready@.len() - k,
        {
            if self.ready[k].1.frame_index == f {
                proof {
                    let p = snapshot_position(self.ready@, f)->0;
                    if p < k {
                        assert(self.ready@[p].1.frame_index != f);
                    } else if p > k {
                        assert(self.ready@[k as int].1.frame_index == f);
                    }
                }
                return Some(k);
            }
            k = k + 1;
        }
        None
    }

    /// Whether some slot holds frame `f`'s counters.
    fn frame_pending(&self, f: u64) -> (r: bool)
        ensures
            r == frame_pending(self.spec_slots(), f),
    {
        let mut s: usize = 0;
        while s < 3
            invariant
                s <= 3,
                self.slots@.len() == 3,
                forall|j: int| 0 <= j < s ==> slot_frame(#[trigger] self.slots@[j]) != Some(f),
            decreases 3 - s,
        {
            let found = match self.slots[s] {
                SlotState::Submitted { frame_index, .. } => frame_index == f,
                SlotState::Mapping { frame_index, .. } => frame_index == f,
                SlotState::Idle => false,
            };
            if found {
                assert(slot_frame(self.slots@[s as int]) == Some(f));
                return true;
            }
            s = s + 1;
        }
        false
    }

    /// The early timing kept for frame `frame_index`, if any.
    pub fn timing_for(&self, frame_index: u64) -> (r: Option<MeshletGpuFrameTimings>)
        requires
            self.wf(),
        ensures
            r == if self.spec_timings().contains_key(frame_index) {
                Some(self.spec_timings()[frame_index])
            } else {
                None
            },
    {
        timings_get(&self.timings, frame_index)
    }

    /// How many early timings are kept.
    pub fn timing_count(&self) -> (r: usize)
        ensures
            r == self.spec_timings().len(),
    {
        timings_len(&self.timings)
    }

    /// Whether frame `frame_index`'s snapshot waits for its timing.
    pub fn expects_timing(&self, frame_index: u64) -> (r: bool)
        ensures
            r == self.spec_expected().contains(frame_index),
    {
        awaited_contains(&self.expected_timings, frame_index)
    }

    /// Whether any slot is being mapped; only then is there anything to poll.
    pub fn is_mapping(&self) -> (r: bool)
        ensures
            r == exists|s: int| 0 <= s < 3 && #[trigger] self.spec_slots()[s] is Mapping,
    {
        let mut s: usize = 0;
        while s < 3
            invariant
                s <= 3,
                self.slots@.len() == 3,
                forall|k: int| 0 <= k < s ==> !(#[trigger] self.slots@[k] is Mapping),
            decreases 3 - s,
        {
            if let SlotState::Mapping { .. } = self.slots[s] {
                return true;
            }
            s = s + 1;
        }
        false
    }
}

} // verus!

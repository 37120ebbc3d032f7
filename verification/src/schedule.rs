//! The order in which a frame's GPU passes are recorded, for the meshlet path and for the
//! instance-culling mesh path. Recording each pass into the frame graph is the caller's work;
//! which passes run, and in what order, is decided here.

use vstd::prelude::*;

use crate::config::MeshletBackend;
use crate::frame::{
    bit_length, clear_coarse_results_before_backend, max_u32, record_final_compute_cull,
    HiZPyramidDesc, MipExtent,
};

verus! {

/// One pass of the meshlet frame.
#[derive(Clone, Copy, Debug, PartialEq, Eq, Structural)]
pub enum MeshletGraphPass {
    ClearFrameCounters,
    Classify,
    PrefixScan,
    CandidateScatter,
    CoarseCull,
    OccluderDepth,
    HiZDepthToMip0,
    /// Reduces mip `mip - 1` into mip `mip`.
    HiZMipToMip { mip: u32 },
    ClearVisibleCounters,
    FinalCull,
    IndirectPrepare,
    BackendRaster,
    StatsCopy,
}

/// The Hi-Z reductions after mip 0: one per further mip, in order.
pub open spec fn meshlet_hiz_chain(mip_level_count: u32) -> Seq<MeshletGraphPass> {
    Seq::new(
        (mip_level_count - 1) as nat,
        |i: int| MeshletGraphPass::HiZMipToMip { mip: (i + 1) as u32 },
    )
}

/// The meshlet frame: the shared compute front end and coarse cull, the occluder depth, then with
/// occlusion culling the current-frame Hi-Z, the reset coarse result and the final cull, then
/// the indirect arguments, the backend's raster, and the counter copy when one is planned.
pub open spec fn meshlet_schedule(
    enable_occlusion_culling: bool,
    hiz_mip_level_count: u32,
    stats_copy: bool,
) -> Seq<MeshletGraphPass> {
    let front = seq![
        MeshletGraphPass::ClearFrameCounters,
        MeshletGraphPass::Classify,
        MeshletGraphPass::PrefixScan,
        MeshletGraphPass::CandidateScatter,
        MeshletGraphPass::CoarseCull,
        MeshletGraphPass::OccluderDepth,
    ];
    let refine = if enable_occlusion_culling {
        seq![MeshletGraphPass::HiZDepthToMip0] + meshlet_hiz_chain(hiz_mip_level_count) + seq![
            MeshletGraphPass::ClearVisibleCounters,
            MeshletGraphPass::FinalCull,
        ]
    } else {
        Seq::empty()
    };
    let tail = seq![MeshletGraphPass::IndirectPrepare, MeshletGraphPass::BackendRaster];
    let copy = if stats_copy {
        seq![MeshletGraphPass::StatsCopy]
    } else {
        Seq::empty()
    };
    front + refine + tail + copy
}

/// The passes of one meshlet frame, in recording order.
pub fn meshlet_pass_schedule(
    backend: MeshletBackend,
    enable_occlusion_culling: bool,
    hiz_mip_level_count: u32,
    stats_copy: bool,
) -> (r: Vec<MeshletGraphPass>)
    requires
        hiz_mip_level_count >= 1,
    ensures
        r@ == meshlet_schedule(enable_occlusion_culling, hiz_mip_level_count, stats_copy),
{
    let mut out: Vec<MeshletGraphPass> = Vec::new();
    out.push(MeshletGraphPass::ClearFrameCounters);
    out.push(MeshletGraphPass::Classify);
    out.push(MeshletGraphPass::PrefixScan);
    out.push(MeshletGraphPass::CandidateScatter);
    out.push(MeshletGraphPass::CoarseCull);
    out.push(MeshletGraphPass::OccluderDepth);
    let ghost front = out@;
    if enable_occlusion_culling {
        out.push(MeshletGraphPass::HiZDepthToMip0);
        let mut mip: u32 = 1;
        while mip < hiz_mip_level_count
            invariant
                1 <= mip <= hiz_mip_level_count,
                out@ == front + seq![MeshletGraphPass::HiZDepthToMip0] + meshlet_hiz_chain(mip),
            decreases hiz_mip_level_count - mip,
        {
            out.push(MeshletGraphPass::HiZMipToMip { mip });
            proof {
                assert(meshlet_hiz_chain((mip + 1) as u32) =~= meshlet_hiz_chain(mip).push(
                    MeshletGraphPass::HiZMipToMip { mip },
                ));
            }
            mip = mip + 1;
        }
    }
    if clear_coarse_results_before_backend(backend, enable_occlusion_culling) {
        out.push(MeshletGraphPass::ClearVisibleCounters);
    }
    if record_final_compute_cull(backend, enable_occlusion_culling) {
        out.push(MeshletGraphPass::FinalCull);
    }
    out.push(MeshletGraphPass::IndirectPrepare);
    out.push(MeshletGraphPass::BackendRaster);
    if stats_copy {
        out.push(MeshletGraphPass::StatsCopy);
    }
    proof {
        assert(out@ =~= meshlet_schedule(enable_occlusion_culling, hiz_mip_level_count, stats_copy));
    }
    out
}

/// The meshlet frame reads Hi-Z only after building it from this frame's occluder depth: with
/// occlusion culling the occluder depth is followed by the full mip chain and then the final
/// cull, before the indirect arguments and the raster; without it, no Hi-Z or final-cull pass
/// runs and the coarse result goes straight to the raster.
pub proof fn lemma_meshlet_hiz_precedes_final_cull(
    enable_occlusion_culling: bool,
    hiz_mip_level_count: u32,
    stats_copy: bool,
)
    requires
        hiz_mip_level_count >= 1,
    ensures
        ({
            let s = meshlet_schedule(enable_occlusion_culling, hiz_mip_level_count, stats_copy);
            let n = hiz_mip_level_count as int;
            &&& s[5] == MeshletGraphPass::OccluderDepth
            &&& enable_occlusion_culling ==> {
                &&& s[6] == MeshletGraphPass::HiZDepthToMip0
                &&& forall|m: int|
                    1 <= m < n ==> #[trigger] s[6 + m] == (MeshletGraphPass::HiZMipToMip {
                        mip: m as u32,
                    })
                &&& s[6 + n] == MeshletGraphPass::ClearVisibleCounters
                &&& s[7 + n] == MeshletGraphPass::FinalCull
                &&& s[8 + n] == MeshletGraphPass::IndirectPrepare
                &&& s[9 + n] == MeshletGraphPass::BackendRaster
            }
            &&& !enable_occlusion_culling ==> {
                &&& s[6] == MeshletGraphPass::IndirectPrepare
                &&& s[7] == MeshletGraphPass::BackendRaster
                &&& forall|k: int|
                    0 <= k < s.len() ==> #[trigger] s[k] != MeshletGraphPass::FinalCull
                        && s[k] != MeshletGraphPass::HiZDepthToMip0 && !(s[k] is HiZMipToMip)
            }
            &&& s.len() == (if enable_occlusion_culling {
                n + 10
            } else {
                8
            }) + (if stats_copy {
                1int
            } else {
                0
            })
        }),
{
    let s = meshlet_schedule(enable_occlusion_culling, hiz_mip_level_count, stats_copy);
    let n = hiz_mip_level_count as int;
    if enable_occlusion_culling {
        assert forall|m: int| 1 <= m < n implies #[trigger] s[6 + m] == (MeshletGraphPass::HiZMipToMip {
            mip: m as u32,
        }) by {
            assert(meshlet_hiz_chain(hiz_mip_level_count)[m - 1] == MeshletGraphPass::HiZMipToMip {
                mip: m as u32,
            });
        }
    }
}

/// One pass of the instance-culling mesh frame.
#[derive(Clone, Copy, Debug, PartialEq, Eq, Structural)]
pub enum MeshFramePass {
    CounterClears,
    MainCull,
    DispatchPrepareA,
    DrawPrepareA,
    DrawA,
    HiZInitialDepthToMip0,
    HiZInitialMipToMip { mip: u32 },
    DispatchPrepareB,
    OcclusionCullB,
    DrawPrepareB,
    DrawB,
    HiZFinalDepthToMip0,
    HiZFinalMipToMip { mip: u32 },
    OcclusionCullAHistory,
    DebugDrawA,
    DebugDrawB,
    StatsCopy,
}

pub open spec fn initial_hiz_chain(mip_level_count: u32) -> Seq<MeshFramePass> {
    Seq::new(
        (mip_level_count - 1) as nat,
        |i: int| MeshFramePass::HiZInitialMipToMip { mip: (i + 1) as u32 },
    )
}

pub open spec fn final_hiz_chain(mip_level_count: u32) -> Seq<MeshFramePass> {
    Seq::new(
        (mip_level_count - 1) as nat,
        |i: int| MeshFramePass::HiZFinalMipToMip { mip: (i + 1) as u32 },
    )
}

/// The mesh frame: the main view; with occlusion culling, the refinement against a Hi-Z of the
/// main view's depth and the history update against a Hi-Z of the refined depth; the debug view
/// when enabled; and the counter copy when one is planned.
pub open spec fn mesh_schedule(
    enable_occlusion_culling: bool,
    debug_camera: bool,
    hiz_mip_level_count: u32,
    stats_copy: bool,
) -> Seq<MeshFramePass> {
    let main = seq![
        MeshFramePass::CounterClears,
        MeshFramePass::MainCull,
        MeshFramePass::DispatchPrepareA,
        MeshFramePass::DrawPrepareA,
        MeshFramePass::DrawA,
    ];
    let occlusion = if enable_occlusion_culling {
        seq![MeshFramePass::HiZInitialDepthToMip0] + initial_hiz_chain(hiz_mip_level_count) + seq![
            MeshFramePass::DispatchPrepareB,
            MeshFramePass::OcclusionCullB,
            MeshFramePass::DrawPrepareB,
            MeshFramePass::DrawB,
            MeshFramePass::HiZFinalDepthToMip0,
        ] + final_hiz_chain(hiz_mip_level_count) + seq![MeshFramePass::OcclusionCullAHistory]
    } else {
        Seq::empty()
    };
    let debug = if debug_camera {
        seq![MeshFramePass::DebugDrawA, MeshFramePass::DebugDrawB]
    } else {
        Seq::empty()
    };
    let copy = if stats_copy {
        seq![MeshFramePass::StatsCopy]
    } else {
        Seq::empty()
    };
    main + occlusion + debug + copy
}

/// The passes of one mesh frame, in recording order.
pub fn mesh_pass_schedule(
    enable_occlusion_culling: bool,
    debug_camera: bool,
    hiz_mip_level_count: u32,
    stats_copy: bool,
) -> (r: Vec<MeshFramePass>)
    requires
        hiz_mip_level_count >= 1,
    ensures
        r@ == mesh_schedule(enable_occlusion_culling, debug_camera, hiz_mip_level_count, stats_copy),
{
    let mut out: Vec<MeshFramePass> = Vec::new();
    out.push(MeshFramePass::CounterClears);
    out.push(MeshFramePass::MainCull);
    out.push(MeshFramePass::DispatchPrepareA);
    out.push(MeshFramePass::DrawPrepareA);
    out.push(MeshFramePass::DrawA);
    if enable_occlusion_culling {
        out.push(MeshFramePass::HiZInitialDepthToMip0);
        let ghost before = out@;
        let mut mip: u32 = 1;
        while mip < hiz_mip_level_count
            invariant
                1 <= mip <= hiz_mip_level_count,
                out@ == before + initial_hiz_chain(mip),
            decreases hiz_mip_level_count - mip,
        {
            out.push(MeshFramePass::HiZInitialMipToMip { mip });
            proof {
                assert(initial_hiz_chain((mip + 1) as u32) =~= initial_hiz_chain(mip).push(
                    MeshFramePass::HiZInitialMipToMip { mip },
                ));
            }
            mip = mip + 1;
        }
        out.push(MeshFramePass::DispatchPrepareB);
        out.push(MeshFramePass::OcclusionCullB);
        out.push(MeshFramePass::DrawPrepareB);
        out.push(MeshFramePass::DrawB);
        out.push(MeshFramePass::HiZFinalDepthToMip0);
        let ghost middle = out@;
        let mut mip: u32 = 1;
        while mip < hiz_mip_level_count
            invariant
                1 <= mip <= hiz_mip_level_count,
                out@ == middle + final_hiz_chain(mip),
            decreases hiz_mip_level_count - mip,
        {
            out.push(MeshFramePass::HiZFinalMipToMip { mip });
            proof {
                assert(final_hiz_chain((mip + 1) as u32) =~= final_hiz_chain(mip).push(
                    MeshFramePass::HiZFinalMipToMip { mip },
                ));
            }
            mip = mip + 1;
        }
        out.push(MeshFramePass::OcclusionCullAHistory);
    }
    if debug_camera {
        out.push(MeshFramePass::DebugDrawA);
        out.push(MeshFramePass::DebugDrawB);
    }
    if stats_copy {
        out.push(MeshFramePass::StatsCopy);
    }
    proof {
        assert(out@ =~= mesh_schedule(
            enable_occlusion_culling,
            debug_camera,
            hiz_mip_level_count,
            stats_copy,
        ));
    }
    out
}

/// The per-frame controls of the instance-culling mesh path; the camera type is the caller's.
#[derive(Clone, Copy, Debug)]
pub struct MeshFrameInput<C> {
    pub camera: C,
    /// A second view drawn over the first with the first view's culling results.
    pub debug_camera: Option<C>,
    pub enable_occlusion_culling: bool,
}

/// What a prepared mesh frame carries into recording and submission.
#[derive(Clone, Copy, Debug, PartialEq, Eq, Structural)]
pub struct PreparedMeshFrame {
    pub enable_occlusion_culling: bool,
    pub debug_camera: bool,
    pub readback_index: Option<usize>,
    pub extent: MipExtent,
}

/// The frame a mesh renderer prepares from its input, the counter buffer it plans to copy into
/// and the render extent.
pub fn prepare_mesh_frame<C>(
    input: &MeshFrameInput<C>,
    readback_index: Option<usize>,
    extent: MipExtent,
) -> (r: PreparedMeshFrame)
    ensures
        r == (PreparedMeshFrame {
            enable_occlusion_culling: input.enable_occlusion_culling,
            debug_camera: input.debug_camera is Some,
            readback_index,
            extent,
        }),
{
    PreparedMeshFrame {
        enable_occlusion_culling: input.enable_occlusion_culling,
        debug_camera: input.debug_camera.is_some(),
        readback_index,
        extent,
    }
}

/// The number of levels of the depth pyramid for a render extent.
pub open spec fn hiz_level_count(extent: MipExtent) -> u32 {
    bit_length(max_u32(max_u32(extent.width, 1), max_u32(extent.height, 1)) as nat) as u32
}

/// The passes a prepared mesh frame records, in order: the pyramid follows the frame's extent,
/// and the counters are copied out exactly when a readback buffer was planned.
pub fn mesh_frame_passes(prepared: PreparedMeshFrame) -> (r: Vec<MeshFramePass>)
    ensures
        r@ == mesh_schedule(
            prepared.enable_occlusion_culling,
            prepared.debug_camera,
            hiz_level_count(prepared.extent),
            prepared.readback_index is Some,
        ),
{
    let hiz = HiZPyramidDesc::new(prepared.extent.width, prepared.extent.height);
    mesh_pass_schedule(
        prepared.enable_occlusion_culling,
        prepared.debug_camera,
        hiz.mip_level_count(),
        prepared.readback_index.is_some(),
    )
}

} // verus!

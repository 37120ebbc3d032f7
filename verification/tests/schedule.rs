use zen_render_mesh::config::MeshletBackend;
use zen_render_mesh::frame::MipExtent;
use zen_render_mesh::schedule::{
    mesh_frame_passes, mesh_pass_schedule, meshlet_pass_schedule, prepare_mesh_frame,
    MeshFrameInput, MeshFramePass, MeshletGraphPass, PreparedMeshFrame,
};

#[test]
fn meshlet_frames_without_occlusion_go_straight_to_the_raster() {
    let passes = meshlet_pass_schedule(MeshletBackend::IndexedIndirect, false, 4, false);
    assert_eq!(
        passes,
        vec![
            MeshletGraphPass::ClearFrameCounters,
            MeshletGraphPass::Classify,
            MeshletGraphPass::PrefixScan,
            MeshletGraphPass::CandidateScatter,
            MeshletGraphPass::CoarseCull,
            MeshletGraphPass::OccluderDepth,
            MeshletGraphPass::IndirectPrepare,
            MeshletGraphPass::BackendRaster,
        ]
    );
}

#[test]
fn meshlet_occlusion_builds_the_full_pyramid_before_the_final_cull() {
    for backend in [
        MeshletBackend::IndexedIndirect,
        MeshletBackend::MeshOnly,
        MeshletBackend::TaskMesh,
    ] {
        let passes = meshlet_pass_schedule(backend, true, 3, true);
        assert_eq!(
            passes[5..],
            [
                MeshletGraphPass::OccluderDepth,
                MeshletGraphPass::HiZDepthToMip0,
                MeshletGraphPass::HiZMipToMip { mip: 1 },
                MeshletGraphPass::HiZMipToMip { mip: 2 },
                MeshletGraphPass::ClearVisibleCounters,
                MeshletGraphPass::FinalCull,
                MeshletGraphPass::IndirectPrepare,
                MeshletGraphPass::BackendRaster,
                MeshletGraphPass::StatsCopy,
            ]
        );
    }
}

#[test]
fn mesh_frame_branches_follow_their_flags() {
    let basic = mesh_pass_schedule(false, false, 5, false);
    assert_eq!(
        basic,
        vec![
            MeshFramePass::CounterClears,
            MeshFramePass::MainCull,
            MeshFramePass::DispatchPrepareA,
            MeshFramePass::DrawPrepareA,
            MeshFramePass::DrawA,
        ]
    );

    let full = mesh_pass_schedule(true, true, 2, true);
    assert_eq!(
        full[5..],
        [
            MeshFramePass::HiZInitialDepthToMip0,
            MeshFramePass::HiZInitialMipToMip { mip: 1 },
            MeshFramePass::DispatchPrepareB,
            MeshFramePass::OcclusionCullB,
            MeshFramePass::DrawPrepareB,
            MeshFramePass::DrawB,
            MeshFramePass::HiZFinalDepthToMip0,
            MeshFramePass::HiZFinalMipToMip { mip: 1 },
            MeshFramePass::OcclusionCullAHistory,
            MeshFramePass::DebugDrawA,
            MeshFramePass::DebugDrawB,
            MeshFramePass::StatsCopy,
        ]
    );

    for occlusion in [false, true] {
        for debug in [false, true] {
            let passes = mesh_pass_schedule(occlusion, debug, 1, false);
            assert_eq!(passes.contains(&MeshFramePass::OcclusionCullB), occlusion);
            assert_eq!(passes.contains(&MeshFramePass::DebugDrawA), debug);
            assert_eq!(passes.contains(&MeshFramePass::HiZInitialMipToMip { mip: 1 }), false);
        }
    }
}

#[test]
fn prepared_mesh_frame_records_the_debug_view_and_the_pyramid_of_its_extent() {
    let input = MeshFrameInput {
        camera: 1u8,
        debug_camera: Some(2u8),
        enable_occlusion_culling: true,
    };
    let extent = MipExtent { width: 4, height: 3, depth_or_array_layers: 1 };
    let prepared = prepare_mesh_frame(&input, None, extent);
    assert_eq!(
        prepared,
        PreparedMeshFrame {
            enable_occlusion_culling: true,
            debug_camera: true,
            readback_index: None,
            extent,
        }
    );
    // A 4x3 extent has a three-level pyramid: two mip-to-mip passes per pyramid build.
    assert_eq!(mesh_frame_passes(prepared), mesh_pass_schedule(true, true, 3, false));

    let plain = MeshFrameInput { camera: 1u8, debug_camera: None, enable_occlusion_culling: false };
    let prepared = prepare_mesh_frame(&plain, Some(1), MipExtent { width: 0, height: 0, depth_or_array_layers: 1 });
    assert!(!prepared.debug_camera);
    let passes = mesh_frame_passes(prepared);
    assert_eq!(passes.last(), Some(&MeshFramePass::StatsCopy));
    assert_eq!(passes.len(), 6);
}

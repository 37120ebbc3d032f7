use wgpu::TextureFormat;
use zen_render_mesh::frame::MipExtent;
use zen_render_mesh::targets::{
    validate_present_texture, validate_render_target, validate_render_targets, RenderTargetError,
    TargetDesc,
};

fn extent(width: u32, height: u32) -> MipExtent {
    MipExtent { width, height, depth_or_array_layers: 1 }
}

#[test]
fn present_texture_gives_its_extent_when_format_matches() {
    let r = validate_present_texture(
        &TextureFormat::Bgra8UnormSrgb,
        &TextureFormat::Bgra8UnormSrgb,
        extent(640, 480),
    );
    assert_eq!(r.ok(), Some(extent(640, 480)));
}

#[test]
fn present_texture_with_wrong_format_or_zero_side_is_refused() {
    let wrong = validate_present_texture(
        &TextureFormat::Rgba8Unorm,
        &TextureFormat::Bgra8UnormSrgb,
        extent(640, 480),
    );
    assert!(matches!(wrong, Err(RenderTargetError::PresentFormatMismatch)));
    let empty = validate_present_texture(
        &TextureFormat::Bgra8UnormSrgb,
        &TextureFormat::Bgra8UnormSrgb,
        extent(0, 480),
    );
    assert!(matches!(empty, Err(RenderTargetError::PresentZeroExtent)));
    let no_layers = validate_present_texture(
        &TextureFormat::Bgra8UnormSrgb,
        &TextureFormat::Bgra8UnormSrgb,
        MipExtent { width: 4, height: 4, depth_or_array_layers: 0 },
    );
    assert!(matches!(no_layers, Err(RenderTargetError::PresentZeroExtent)));
}

#[test]
fn render_targets_must_match_extent_samples_and_format() {
    let color = TargetDesc { size: extent(8, 8), sample_count: 1, format: TextureFormat::Rgba8Unorm };
    let depth = TargetDesc { size: extent(8, 8), sample_count: 1, format: TextureFormat::Depth32Float };
    assert!(validate_render_target("color", &color, extent(8, 8), &TextureFormat::Rgba8Unorm).is_ok());
    let multisampled = TargetDesc { sample_count: 4, ..color };
    assert!(matches!(
        validate_render_target("color", &multisampled, extent(8, 8), &TextureFormat::Rgba8Unorm),
        Err(RenderTargetError::TargetMismatch { target: "color" })
    ));
    assert!(validate_render_targets(
        &color,
        &depth,
        extent(8, 8),
        &TextureFormat::Rgba8Unorm,
        &TextureFormat::Depth32Float
    )
    .is_ok());
    let small_depth = TargetDesc { size: extent(4, 8), ..depth };
    assert!(matches!(
        validate_render_targets(
            &color,
            &small_depth,
            extent(8, 8),
            &TextureFormat::Rgba8Unorm,
            &TextureFormat::Depth32Float
        ),
        Err(RenderTargetError::TargetMismatch { target: "depth" })
    ));
    // Both wrong: the colour target is reported first.
    let bad_color = TargetDesc { format: TextureFormat::Bgra8Unorm, ..color };
    assert!(matches!(
        validate_render_targets(
            &bad_color,
            &small_depth,
            extent(8, 8),
            &TextureFormat::Rgba8Unorm,
            &TextureFormat::Depth32Float
        ),
        Err(RenderTargetError::TargetMismatch { target: "color" })
    ));
}

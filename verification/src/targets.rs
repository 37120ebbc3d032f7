//! The checks a frame makes on the textures it renders into before anything is recorded: the
//! presented surface must have the composer's format and a nonzero extent, and the meshlet
//! colour and depth targets must match the prepared frame exactly.

use vstd::prelude::*;

use crate::frame::MipExtent;

verus! {

#[verifier::external_type_specification]
#[verifier::external_body]
pub struct ExTextureFormat(wgpu::TextureFormat);

/// `PartialEq::eq` of `wgpu::TextureFormat`. The impl is derived, so two formats compare equal
/// exactly when they are the same value.
#[verifier::external_body]
fn same_format(a: &wgpu::TextureFormat, b: &wgpu::TextureFormat) -> (r: bool)
    ensures
        r == (*a == *b),
{
    *a == *b
}

/// Why a render target was refused.
#[derive(Debug, Clone, Copy)]
pub enum RenderTargetError {
    /// The presented texture does not have the composer's format.
    PresentFormatMismatch,
    /// The presented texture has a zero width, height or layer count.
    PresentZeroExtent,
    /// The named target does not have the prepared extent, a single sample and the expected
    /// format.
    TargetMismatch { target: &'static str },
}

/// What the frame graph reports of a texture it holds.
#[derive(Debug, Clone, Copy)]
pub struct TargetDesc {
    pub size: MipExtent,
    pub sample_count: u32,
    pub format: wgpu::TextureFormat,
}

pub open spec fn spec_present_check(
    format: wgpu::TextureFormat,
    expected_format: wgpu::TextureFormat,
    extent: MipExtent,
) -> Result<MipExtent, RenderTargetError> {
    if format != expected_format {
        Err(RenderTargetError::PresentFormatMismatch)
    } else if extent.width == 0 || extent.height == 0 || extent.depth_or_array_layers == 0 {
        Err(RenderTargetError::PresentZeroExtent)
    } else {
        Ok(extent)
    }
}

/// The extent a frame is rendered at, taken from the presented texture: refused when its format
/// is not the composer's, or when any side of it is zero.
pub fn validate_present_texture(
    format: &wgpu::TextureFormat,
    expected_format: &wgpu::TextureFormat,
    extent: MipExtent,
) -> (r: Result<MipExtent, RenderTargetError>)
    ensures
        r == spec_present_check(*format, *expected_format, extent),
{
    if !same_format(format, expected_format) {
        return Err(RenderTargetError::PresentFormatMismatch);
    }
    if extent.width == 0 || extent.height == 0 || extent.depth_or_array_layers == 0 {
        return Err(RenderTargetError::PresentZeroExtent);
    }
    Ok(extent)
}

pub open spec fn target_matches(
    actual: TargetDesc,
    expected_extent: MipExtent,
    expected_format: wgpu::TextureFormat,
) -> bool {
    actual.size == expected_extent && actual.sample_count == 1 && actual.format == expected_format
}

/// Accepts `actual` as the `target` texture of a frame prepared at `expected_extent` only when it
/// has that extent, one sample and `expected_format`.
pub fn validate_render_target(
    target: &'static str,
    actual: &TargetDesc,
    expected_extent: MipExtent,
    expected_format: &wgpu::TextureFormat,
) -> (r: Result<(), RenderTargetError>)
    ensures
        r == if target_matches(*actual, expected_extent, *expected_format) {
            Ok(())
        } else {
            Err(RenderTargetError::TargetMismatch { target })
        },
{
    if actual.size == expected_extent && actual.sample_count == 1 && same_format(
        &actual.format,
        expected_format,
    ) {
        Ok(())
    } else {
        Err(RenderTargetError::TargetMismatch { target })
    }
}

/// The meshlet renderer's colour and depth targets, checked in that order against the prepared
/// extent and the renderer's formats.
pub fn validate_render_targets(
    color: &TargetDesc,
    depth: &TargetDesc,
    extent: MipExtent,
    color_format: &wgpu::TextureFormat,
    depth_format: &wgpu::TextureFormat,
) -> (r: Result<(), RenderTargetError>)
    ensures
        r == if !target_matches(*color, extent, *color_format) {
            Err(RenderTargetError::TargetMismatch { target: "color" })
        } else if !target_matches(*depth, extent, *depth_format) {
            Err(RenderTargetError::TargetMismatch { target: "depth" })
        } else {
            Ok(())
        },
{
    let checked = validate_render_target("color", color, extent, color_format);
    if checked.is_err() {
        return checked;
    }
    validate_render_target("depth", depth, extent, depth_format)
}

} // verus!

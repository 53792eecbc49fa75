//! The Vello hybrid GPU backend's error type, size limits, formats and error mapping.

use vstd::prelude::*;
use crate::record::ValidateError;
use crate::render::{BackendError, ImageBufferFormat, ImageRendererError, ImageTargetError, RenderContentError};
use crate::texture::{ReadbackError, TextureFormat, TextureRendererError, TextureTargetError};

verus! {

/// Declares `vello_hybrid::RenderError`, the renderer's own error, carried opaquely.
#[verifier::external_type_specification]
#[verifier::external_body]
pub struct ExHybridRenderError(vello_hybrid::RenderError);

/// Errors that can occur when rendering via Vello hybrid.
#[derive(Debug)]
pub enum HybridError {
    /// The scene is invalid (unbalanced stacks).
    InvalidScene(ValidateError),
    /// Vello hybrid returned a render error.
    Render(vello_hybrid::RenderError),
    /// An internal invariant was violated.
    Internal(&'static str),
}

/// Whether `message` is one of the render-size messages of [`checked_size`].
pub open spec fn is_size_message(message: &str) -> bool {
    message@ == "render width too large"@ || message@ == "render height too large"@
}

/// Narrow a render size to the 16-bit sizes Vello hybrid accepts.
pub fn checked_size(width: u32, height: u32) -> (r: Result<(u16, u16), HybridError>)
    ensures
        width <= u16::MAX && height <= u16::MAX ==> r == Ok::<(u16, u16), HybridError>((width as u16, height as u16)),
        width > u16::MAX ==> (r matches Err(HybridError::Internal(m)) && m@ == "render width too large"@),
        width <= u16::MAX && height > u16::MAX ==> (r matches Err(HybridError::Internal(m)) && m@ == "render height too large"@),
{
    if width > 0xffff {
        return Err(HybridError::Internal("render width too large"));
    }
    if height > 0xffff {
        return Err(HybridError::Internal("render height too large"));
    }
    Ok((width as u16, height as u16))
}

/// The texture formats Vello hybrid renders into: RGBA8 only.
pub fn supported_texture_formats() -> (r: Vec<TextureFormat>)
    ensures
        r@ == seq![TextureFormat::Rgba8Unorm],
{
    vec![TextureFormat::Rgba8Unorm]
}

/// The image buffer formats Vello hybrid writes directly: RGBA8 only.
pub fn supported_image_formats() -> (r: Vec<ImageBufferFormat>)
    ensures
        r@ == seq![ImageBufferFormat::Rgba8Unorm],
{
    vec![ImageBufferFormat::Rgba8Unorm]
}

/// Vello hybrid renders only into RGBA8 image targets.
pub fn check_image_target_format(format: ImageBufferFormat) -> (r: Result<(), ImageRendererError>)
    ensures
        format == ImageBufferFormat::Rgba8Unorm ==> r is Ok,
        format != ImageBufferFormat::Rgba8Unorm ==> (r matches Err(ImageRendererError::Target(ImageTargetError::UnsupportedTargetFormat))),
{
    if format != ImageBufferFormat::Rgba8Unorm {
        return Err(ImageRendererError::Target(ImageTargetError::UnsupportedTargetFormat));
    }
    Ok(())
}

/// Map a readback failure to the backend error.
pub fn map_readback_error(err: ReadbackError) -> (r: HybridError)
    ensures
        r matches HybridError::Internal(m) && m@ == (match err {
            ReadbackError::DevicePoll => "device poll failed"@,
            ReadbackError::CallbackDropped => "map_async callback dropped"@,
            ReadbackError::BufferMap => "buffer map failed"@,
            ReadbackError::InvalidTargetStride => "image target row stride too small"@,
            ReadbackError::InvalidTargetBuffer => "image target buffer too small"@,
        }),
{
    match err {
        ReadbackError::DevicePoll => HybridError::Internal("device poll failed"),
        ReadbackError::CallbackDropped => HybridError::Internal("map_async callback dropped"),
        ReadbackError::BufferMap => HybridError::Internal("buffer map failed"),
        ReadbackError::InvalidTargetStride => HybridError::Internal("image target row stride too small"),
        ReadbackError::InvalidTargetBuffer => HybridError::Internal("image target buffer too small"),
    }
}

/// Map a backend error to the shared texture-renderer error: invalid scenes are content
/// errors, the render-size messages are target size errors, everything else is a backend
/// error.
pub fn map_texture_renderer_error(error: HybridError) -> (r: TextureRendererError)
    ensures
        match error {
            HybridError::InvalidScene(e) => r == TextureRendererError::Content(RenderContentError::InvalidScene(e)),
            HybridError::Internal(m) => if is_size_message(m) {
                r == TextureRendererError::Target(TextureTargetError::DimensionsTooLarge)
            } else {
                r == TextureRendererError::Backend(BackendError::VelloHybrid(HybridError::Internal(m)))
            },
            _ => r == TextureRendererError::Backend(BackendError::VelloHybrid(error)),
        },
{
    match error {
        HybridError::InvalidScene(e) => TextureRendererError::Content(RenderContentError::InvalidScene(e)),
        HybridError::Internal(m) => {
            if crate::text::same_text(m, "render width too large") || crate::text::same_text(m, "render height too large") {
                TextureRendererError::Target(TextureTargetError::DimensionsTooLarge)
            } else {
                TextureRendererError::backend(BackendError::VelloHybrid(HybridError::Internal(m)))
            }
        },
        other => TextureRendererError::backend(BackendError::VelloHybrid(other)),
    }
}

} // verus!

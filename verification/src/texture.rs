//! GPU texture formats, texture-renderer errors and the row layout of texture readbacks.

use vstd::prelude::*;
use crate::render::{BackendError, GpuReadbackError, ImageRendererError, ImageTargetError, RenderContentError};

verus! {

/// Texture formats that renderers distinguish; every other format is [`TextureFormat::Other`].
#[derive(Copy, Clone, Debug, PartialEq, Eq, Structural)]
pub enum TextureFormat {
    Rgba8Unorm,
    Rgba8UnormSrgb,
    Bgra8Unorm,
    Bgra8UnormSrgb,
    Rgb10a2Unorm,
    Rgba16Unorm,
    Rgba16Float,
    /// Any other texture format.
    Other,
}

/// Texture-target-specific failures surfaced by texture renderers.
#[derive(Debug)]
pub enum TextureTargetError {
    /// The supplied texture target is not compatible with the renderer.
    InvalidTarget(&'static str),
    /// The requested render dimensions exceed backend limits.
    DimensionsTooLarge,
    /// The backend cannot render into the target's texture format.
    UnsupportedTextureFormat,
    /// A GPU context could not be created for the target.
    CreateGpuContext(&'static str),
    /// The target texture could not be wrapped as a render surface.
    CreateGpuSurface,
    /// No supported GPU backend was available.
    UnsupportedGpuBackend,
}

/// Shared error type for texture renderers.
#[derive(Debug)]
pub enum TextureRendererError {
    /// Source/content-related failure.
    Content(RenderContentError),
    /// Texture-target-related failure.
    Target(TextureTargetError),
    /// Backend-specific rendering error.
    Backend(BackendError),
}

impl TextureRendererError {
    /// Wrap a backend-specific error.
    pub fn backend(error: BackendError) -> (r: TextureRendererError)
        ensures
            r == TextureRendererError::Backend(error),
    {
        TextureRendererError::Backend(error)
    }
}

/// Failures of reading a rendered texture back into CPU memory.
#[derive(Copy, Clone, Debug, PartialEq, Eq, Structural)]
pub enum ReadbackError {
    /// Polling the device failed.
    DevicePoll,
    /// The map callback was dropped before completing.
    CallbackDropped,
    /// The readback buffer could not be mapped.
    BufferMap,
    /// The target's row stride is smaller than a rendered row.
    InvalidTargetStride,
    /// The target buffer is too small.
    InvalidTargetBuffer,
}

/// The image-renderer error a readback failure is reported as.
pub open spec fn readback_image_error(error: ReadbackError) -> ImageRendererError {
    match error {
        ReadbackError::DevicePoll => ImageRendererError::Readback(GpuReadbackError::DevicePoll),
        ReadbackError::CallbackDropped => ImageRendererError::Readback(GpuReadbackError::CallbackDropped),
        ReadbackError::BufferMap => ImageRendererError::Readback(GpuReadbackError::BufferMap),
        ReadbackError::InvalidTargetStride => ImageRendererError::Target(ImageTargetError::InvalidTarget(
            "image target row stride is smaller than the rendered width",
        )),
        ReadbackError::InvalidTargetBuffer => ImageRendererError::Target(ImageTargetError::InvalidTargetBuffer),
    }
}

/// Map a readback failure to the shared image-renderer error: device, callback and mapping
/// failures are readback errors; stride and buffer-size failures are target errors.
pub fn map_readback_image_error(error: ReadbackError) -> (r: ImageRendererError)
    ensures
        r == readback_image_error(error),
{
    match error {
        ReadbackError::DevicePoll => ImageRendererError::Readback(GpuReadbackError::DevicePoll),
        ReadbackError::CallbackDropped => ImageRendererError::Readback(GpuReadbackError::CallbackDropped),
        ReadbackError::BufferMap => ImageRendererError::Readback(GpuReadbackError::BufferMap),
        ReadbackError::InvalidTargetStride => ImageRendererError::Target(ImageTargetError::InvalidTarget(
            "image target row stride is smaller than the rendered width",
        )),
        ReadbackError::InvalidTargetBuffer => ImageRendererError::Target(ImageTargetError::InvalidTargetBuffer),
    }
}

/// The image-renderer error a texture-renderer error is reported as.
pub open spec fn texture_to_image_error(error: TextureRendererError) -> ImageRendererError {
    match error {
        TextureRendererError::Content(e) => ImageRendererError::Content(e),
        TextureRendererError::Target(e) => match e {
            TextureTargetError::InvalidTarget(message) => ImageRendererError::Target(ImageTargetError::InvalidTarget(message)),
            TextureTargetError::DimensionsTooLarge => ImageRendererError::Target(ImageTargetError::DimensionsTooLarge),
            TextureTargetError::UnsupportedTextureFormat => ImageRendererError::Target(ImageTargetError::UnsupportedTargetFormat),
            TextureTargetError::CreateGpuContext(message) => ImageRendererError::Target(ImageTargetError::InvalidTarget(message)),
            TextureTargetError::CreateGpuSurface => ImageRendererError::Target(ImageTargetError::InvalidTarget(
                "backend could not wrap the texture as a GPU render surface",
            )),
            TextureTargetError::UnsupportedGpuBackend => ImageRendererError::Target(ImageTargetError::InvalidTarget(
                "no supported GPU backend was available for the supplied wgpu setup",
            )),
        },
        TextureRendererError::Backend(e) => ImageRendererError::Backend(e),
    }
}

/// Map a texture-renderer error to the shared image-renderer error.
pub fn map_texture_to_image_error(error: TextureRendererError) -> (r: ImageRendererError)
    ensures
        r == texture_to_image_error(error),
{
    match error {
        TextureRendererError::Content(e) => ImageRendererError::Content(e),
        TextureRendererError::Target(e) => match e {
            TextureTargetError::InvalidTarget(message) => ImageRendererError::Target(ImageTargetError::InvalidTarget(message)),
            TextureTargetError::DimensionsTooLarge => ImageRendererError::Target(ImageTargetError::DimensionsTooLarge),
            TextureTargetError::UnsupportedTextureFormat => ImageRendererError::Target(ImageTargetError::UnsupportedTargetFormat),
            TextureTargetError::CreateGpuContext(message) => ImageRendererError::Target(ImageTargetError::InvalidTarget(message)),
            TextureTargetError::CreateGpuSurface => ImageRendererError::Target(ImageTargetError::InvalidTarget(
                "backend could not wrap the texture as a GPU render surface",
            )),
            TextureTargetError::UnsupportedGpuBackend => ImageRendererError::Target(ImageTargetError::InvalidTarget(
                "no supported GPU backend was available for the supplied wgpu setup",
            )),
        },
        TextureRendererError::Backend(e) => ImageRendererError::Backend(e),
    }
}

/// Pixel layout of an image read back from a texture.
#[derive(Copy, Clone, Debug, PartialEq, Eq, Structural)]
pub enum ReadbackPixelFormat {
    Rgba8,
    Bgra8,
}

/// Why a texture cannot be read back.
#[derive(Copy, Clone, Debug, PartialEq, Eq, Structural)]
pub enum ReadbackLayoutError {
    /// The texture format has no readback path.
    UnsupportedFormat(TextureFormat),
    /// The row size in bytes does not fit in `u32`.
    RowSizeOverflow,
}

/// Row layout of a texture readback: rows of `width_bytes` pixel bytes, each padded to
/// `padded_bytes_per_row` bytes in the copy buffer.
#[derive(Copy, Clone, Debug, PartialEq, Eq, Structural)]
pub struct ReadbackLayout {
    pub format: ReadbackPixelFormat,
    pub bytes_per_pixel: u32,
    pub width_bytes: u32,
    pub padded_bytes_per_row: u32,
}

/// Row alignment that texture-to-buffer copies require, in bytes.
pub const COPY_BYTES_PER_ROW_ALIGNMENT: u32 = 256;

/// The smallest multiple of 256 that is at least `n`.
pub open spec fn align_up_256(n: int) -> int {
    (n + 255) / 256 * 256
}

/// The readback layout for a texture of `format` that is `width` pixels wide.
pub open spec fn readback_layout_spec(format: TextureFormat, width: u32) -> Result<ReadbackLayout, ReadbackLayoutError> {
    let pixel = match format {
        TextureFormat::Rgba8Unorm | TextureFormat::Rgba8UnormSrgb => Some(ReadbackPixelFormat::Rgba8),
        TextureFormat::Bgra8Unorm | TextureFormat::Bgra8UnormSrgb => Some(ReadbackPixelFormat::Bgra8),
        _ => None,
    };
    match pixel {
        None => Err(ReadbackLayoutError::UnsupportedFormat(format)),
        Some(p) => if 4 * width > u32::MAX {
            Err(ReadbackLayoutError::RowSizeOverflow)
        } else {
            Ok(ReadbackLayout {
                format: p,
                bytes_per_pixel: 4,
                width_bytes: (4 * width) as u32,
                padded_bytes_per_row: align_up_256(4 * width) as u32,
            })
        },
    }
}

/// A readback keeps the texture's channel order and pixel size: RGBA textures (linear or sRGB)
/// read back as RGBA8 and BGRA textures (linear or sRGB) as BGRA8, four bytes a pixel, with
/// rows holding exactly the width's bytes and (where that fits in `u32`) padded to the smallest
/// multiple of 256 bytes that holds them. The 8-bit RGBA and BGRA textures are read back
/// whenever their row size fits in `u32`; no other texture is.
pub proof fn lemma_readback_keeps_channel_order(format: TextureFormat, width: u32)
    ensures
        readback_layout_spec(format, width) matches Ok(l) ==> {
            &&& (l.format == ReadbackPixelFormat::Rgba8
                <==> (format == TextureFormat::Rgba8Unorm || format == TextureFormat::Rgba8UnormSrgb))
            &&& (l.format == ReadbackPixelFormat::Bgra8
                <==> (format == TextureFormat::Bgra8Unorm || format == TextureFormat::Bgra8UnormSrgb))
            &&& l.bytes_per_pixel == 4
            &&& l.width_bytes == 4 * width
            &&& align_up_256(4 * width) <= u32::MAX ==> {
                &&& l.width_bytes <= l.padded_bytes_per_row < l.width_bytes + 256
                &&& l.padded_bytes_per_row % 256 == 0
            }
        },
        (format == TextureFormat::Rgba8Unorm || format == TextureFormat::Rgba8UnormSrgb
            || format == TextureFormat::Bgra8Unorm || format == TextureFormat::Bgra8UnormSrgb)
            && 4 * width <= u32::MAX
            <==> readback_layout_spec(format, width) is Ok,
{
    let w: int = 4 * width;
    assert(w <= (w + 255) / 256 * 256 < w + 256 && ((w + 255) / 256 * 256) % 256 == 0) by (nonlinear_arith)
        requires w >= 0;
}

/// Choose the pixel layout and row padding for reading back a texture of `format` that is
/// `width` pixels wide. Only 8-bit RGBA and BGRA textures can be read back.
pub fn readback_layout(format: TextureFormat, width: u32) -> (r: Result<ReadbackLayout, ReadbackLayoutError>)
    requires
        4 * width <= u32::MAX ==> align_up_256(4 * width) <= u32::MAX,
    ensures
        r == readback_layout_spec(format, width),
{
    let (pixel, bytes_per_pixel) = match format {
        TextureFormat::Rgba8Unorm | TextureFormat::Rgba8UnormSrgb => (ReadbackPixelFormat::Rgba8, 4u32),
        TextureFormat::Bgra8Unorm | TextureFormat::Bgra8UnormSrgb => (ReadbackPixelFormat::Bgra8, 4u32),
        _ => {
            return Err(ReadbackLayoutError::UnsupportedFormat(format));
        },
    };
    let width_bytes = match width.checked_mul(bytes_per_pixel) {
        Some(n) => n,
        None => {
            return Err(ReadbackLayoutError::RowSizeOverflow);
        },
    };
    let rows_of_256: u32 = width_bytes / 256 + if width_bytes % 256 == 0 { 0 } else { 1 };
    proof {
        assert(rows_of_256 * 256 == align_up_256(width_bytes as int)) by (nonlinear_arith)
            requires
                rows_of_256 == width_bytes / 256 + if width_bytes % 256 == 0 { 0int } else { 1int },
                width_bytes >= 0;
    }
    let padded_bytes_per_row = rows_of_256 * 256;
    Ok(ReadbackLayout { format: pixel, bytes_per_pixel, width_bytes, padded_bytes_per_row })
}

/// The pixel bytes of a readback buffer whose rows are `padded` bytes apart: the first
/// `width_bytes` bytes of every full padded row, in order.
pub open spec fn unpadded_rows(mapped: Seq<u8>, padded: int, width_bytes: int) -> Seq<u8> {
    Seq::new(((mapped.len() as int) / padded * width_bytes) as nat, |i: int| mapped[(i / width_bytes) * padded + i % width_bytes])
}

/// Strip the row padding from a readback buffer.
pub fn unpad_rows(mapped: &[u8], padded: usize, width_bytes: usize) -> (r: Vec<u8>)
    requires
        0 < width_bytes <= padded,
    ensures
        r@ == unpadded_rows(mapped@, padded as int, width_bytes as int),
{
    let rows: usize = mapped.len() / padded;
    let ghost target = unpadded_rows(mapped@, padded as int, width_bytes as int);
    let mut data: Vec<u8> = Vec::new();
    let mut y: usize = 0;
    proof {
        let len = mapped@.len() as int;
        vstd::arithmetic::div_mod::lemma_fundamental_div_mod(len, padded as int);
        vstd::arithmetic::div_mod::lemma_mod_pos_bound(len, padded as int);
        assert((padded as int) * (len / padded as int) == (len / padded as int) * padded) by (nonlinear_arith);
    }
    while y < rows
        invariant
            0 < width_bytes <= padded,
            rows == (mapped@.len() as int) / (padded as int),
            rows * padded <= mapped@.len(),
            mapped@.len() <= usize::MAX,
            y <= rows,
            target == unpadded_rows(mapped@, padded as int, width_bytes as int),
            data@.len() == y * width_bytes,
            forall|i: int| 0 <= i < data@.len() ==> #[trigger] data@[i] == target[i],
            target.len() == rows * width_bytes,
        decreases rows - y,
    {
        proof {
            assert((y + 1) * padded <= rows * padded) by (nonlinear_arith)
                requires y < rows, padded > 0;
            assert((y + 1) * padded == y * padded + padded) by (nonlinear_arith);
            assert((y + 1) * width_bytes == y * width_bytes + width_bytes) by (nonlinear_arith);
            assert((y + 1) * width_bytes <= rows * width_bytes) by (nonlinear_arith)
                requires y < rows, width_bytes > 0;
        }
        let start: usize = y * padded;
        let mut x: usize = 0;
        while x < width_bytes
            invariant
                0 < width_bytes <= padded,
                y < rows,
                start == y * padded,
                start + padded <= mapped@.len(),
                mapped@.len() <= usize::MAX,
                target == unpadded_rows(mapped@, padded as int, width_bytes as int),
                target.len() == rows * width_bytes,
                (y + 1) * width_bytes <= rows * width_bytes,
                x <= width_bytes,
                data@.len() == y * width_bytes + x,
                forall|i: int| 0 <= i < data@.len() ==> #[trigger] data@[i] == target[i],
            decreases width_bytes - x,
        {
            let ghost before = data@;
            data.push(mapped[start + x]);
            proof {
                let i = y * width_bytes + x;
                assert(i < (y + 1) * width_bytes) by (nonlinear_arith)
                    requires i == y * width_bytes + x, x < width_bytes;
                vstd::arithmetic::div_mod::lemma_fundamental_div_mod_converse_div(i, width_bytes as int, y as int, x as int);
                vstd::arithmetic::div_mod::lemma_fundamental_div_mod_converse_mod(i, width_bytes as int, y as int, x as int);
                assert(data@[i] == mapped@[y * padded + x]);
                assert(target[i] == mapped@[y * padded + x]);
                assert forall|j: int| 0 <= j < data@.len() implies #[trigger] data@[j] == target[j] by {
                    if j < i {
                        assert(data@[j] == before[j]);
                    }
                }
            }
            x = x + 1;
        }
        y = y + 1;
    }
    assert(data@ =~= target);
    data
}

} // verus!

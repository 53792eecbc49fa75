//! The Skia backend's error type, cache budgets, pixel-format tables, target checks and error
//! mapping.

use vstd::prelude::*;
use crate::record::{BlendMode, Compose, Mix, ValidateError};
use crate::render::{
    BackendError, GpuReadbackError, ImageBufferFormat, ImageBufferTarget, ImageRendererError,
    ImageTargetError, RenderContentError, format_bytes_per_pixel,
};
use crate::text::same_text;
use crate::texture::{TextureFormat, TextureRendererError, TextureTargetError};
use crate::image_cache::ImageCache;
use crate::lru::evict_front;
use crate::skia_sink::MaskImageCache;

verus! {

/// Errors that can occur when rendering via Skia.
#[derive(Debug)]
pub enum SkiaError {
    /// The scene is invalid (unbalanced stacks).
    InvalidScene(ValidateError),
    /// No supported GPU backend was available for the active platform or `wgpu` backend.
    UnsupportedGpuBackend,
    /// A GPU backend context could not be created from the supplied `wgpu` handles.
    CreateGpuContext(&'static str),
    /// A caller-owned GPU texture could not be wrapped as a Skia surface.
    CreateGpuSurface,
    /// The target texture format cannot be represented through Skia.
    UnsupportedGpuTextureFormat,
    /// The target image buffer format cannot be represented through Skia.
    UnsupportedImageTargetFormat,
    /// Font bytes could not be loaded by Skia.
    InvalidFontData,
    /// A glyph identifier could not be represented by Skia's glyph type.
    InvalidGlyphId,
    /// A group's filter chain could not be built.
    UnsupportedFilter,
    /// An internal invariant was violated.
    Internal(&'static str),
}

/// Skia pixel color types used for raster surfaces and texture wrapping.
#[derive(Copy, Clone, Debug, PartialEq, Eq, Structural)]
pub enum ColorType {
    Rgba8888,
    Srgba8888,
    Bgra8888,
    Rgba1010102,
    R16G16B16A16UNorm,
    RgbaF16,
}

/// Configurable cache and resource budgets for Skia-backed rendering.
///
/// The first four limits are Skia's process-global `graphics` cache settings; if several
/// renderers apply different configs, the most recently constructed renderer wins.
#[derive(Clone, Copy, Debug)]
pub struct SkiaCacheConfig {
    /// Maximum number of entries Skia keeps in its global font cache.
    pub font_cache_count_limit: i32,
    /// Maximum number of cached typefaces Skia keeps globally.
    pub typeface_cache_count_limit: i32,
    /// Maximum number of bytes Skia keeps in its global resource cache.
    pub resource_cache_total_bytes_limit: usize,
    /// Maximum size of a single entry in Skia's global resource cache.
    pub resource_cache_single_allocation_byte_limit: Option<usize>,
    /// Maximum number of bytes retained by the shared realized-image cache.
    pub image_cache_total_bytes_limit: usize,
    /// Maximum number of bytes retained by the shared realized mask cache.
    pub mask_cache_total_bytes_limit: usize,
}

/// The default budgets: 100 fonts, 100 typefaces, a 10 MiB resource cache with no
/// single-allocation limit, and 64 MiB each for realized images and masks.
pub open spec fn default_cache_config() -> SkiaCacheConfig {
    SkiaCacheConfig {
        font_cache_count_limit: 100,
        typeface_cache_count_limit: 100,
        resource_cache_total_bytes_limit: 10_485_760,
        resource_cache_single_allocation_byte_limit: None,
        image_cache_total_bytes_limit: 67_108_864,
        mask_cache_total_bytes_limit: 67_108_864,
    }
}

impl Default for SkiaCacheConfig {
    fn default() -> (r: SkiaCacheConfig)
        ensures
            r == default_cache_config(),
    {
        SkiaCacheConfig {
            font_cache_count_limit: 100,
            typeface_cache_count_limit: 100,
            resource_cache_total_bytes_limit: 10_485_760,
            resource_cache_single_allocation_byte_limit: None,
            image_cache_total_bytes_limit: 67_108_864,
            mask_cache_total_bytes_limit: 67_108_864,
        }
    }
}

impl SkiaCacheConfig {
    /// Create cache budgets with the default limits.
    pub fn new() -> (r: SkiaCacheConfig)
        ensures
            r == default_cache_config(),
    {
        Self::default()
    }

    /// Override the Skia global font-cache entry limit.
    pub fn with_font_cache_count_limit(self, limit: i32) -> (r: SkiaCacheConfig)
        ensures
            r == (SkiaCacheConfig { font_cache_count_limit: limit, ..self }),
    {
        SkiaCacheConfig { font_cache_count_limit: limit, ..self }
    }

    /// Override the Skia global typeface-cache entry limit.
    pub fn with_typeface_cache_count_limit(self, limit: i32) -> (r: SkiaCacheConfig)
        ensures
            r == (SkiaCacheConfig { typeface_cache_count_limit: limit, ..self }),
    {
        SkiaCacheConfig { typeface_cache_count_limit: limit, ..self }
    }

    /// Override the Skia global resource-cache byte limit.
    pub fn with_resource_cache_total_bytes_limit(self, limit: usize) -> (r: SkiaCacheConfig)
        ensures
            r == (SkiaCacheConfig { resource_cache_total_bytes_limit: limit, ..self }),
    {
        SkiaCacheConfig { resource_cache_total_bytes_limit: limit, ..self }
    }

    /// Override the Skia global single-allocation resource-cache byte limit.
    pub fn with_resource_cache_single_allocation_byte_limit(self, limit: Option<usize>) -> (r: SkiaCacheConfig)
        ensures
            r == (SkiaCacheConfig { resource_cache_single_allocation_byte_limit: limit, ..self }),
    {
        SkiaCacheConfig { resource_cache_single_allocation_byte_limit: limit, ..self }
    }

    /// Override the shared realized-image cache byte limit.
    pub fn with_image_cache_total_bytes_limit(self, limit: usize) -> (r: SkiaCacheConfig)
        ensures
            r == (SkiaCacheConfig { image_cache_total_bytes_limit: limit, ..self }),
    {
        SkiaCacheConfig { image_cache_total_bytes_limit: limit, ..self }
    }

    /// Override the shared realized-mask cache byte limit.
    pub fn with_mask_cache_total_bytes_limit(self, limit: usize) -> (r: SkiaCacheConfig)
        ensures
            r == (SkiaCacheConfig { mask_cache_total_bytes_limit: limit, ..self }),
    {
        SkiaCacheConfig { mask_cache_total_bytes_limit: limit, ..self }
    }
}

/// Narrow a render size to the signed 32-bit sizes Skia surfaces use.
pub fn checked_size(width: u32, height: u32) -> (r: Result<(i32, i32), SkiaError>)
    ensures
        width <= i32::MAX && height <= i32::MAX ==> r == Ok::<(i32, i32), SkiaError>((width as i32, height as i32)),
        width > i32::MAX ==> (r matches Err(SkiaError::Internal(m)) && m@ == "render width too large"@),
        width <= i32::MAX && height > i32::MAX ==> (r matches Err(SkiaError::Internal(m)) && m@ == "render height too large"@),
{
    if width > 0x7fff_ffff {
        return Err(SkiaError::Internal("render width too large"));
    }
    if height > 0x7fff_ffff {
        return Err(SkiaError::Internal("render height too large"));
    }
    Ok((width as i32, height as i32))
}

/// The Skia color type that reads or writes pixels of `format`.
pub open spec fn image_format_color_type(format: ImageBufferFormat) -> ColorType {
    match format {
        ImageBufferFormat::Rgba8Unorm => ColorType::Rgba8888,
        ImageBufferFormat::Rgba8UnormSrgb => ColorType::Srgba8888,
        ImageBufferFormat::Bgra8Unorm | ImageBufferFormat::Bgra8UnormSrgb => ColorType::Bgra8888,
        ImageBufferFormat::Rgb10a2Unorm => ColorType::Rgba1010102,
        ImageBufferFormat::Rgba16Unorm => ColorType::R16G16B16A16UNorm,
        ImageBufferFormat::Rgba16Float => ColorType::RgbaF16,
    }
}

/// The Skia color type for an image buffer format; every image buffer format has one.
pub fn color_type_for_image_buffer_format(format: ImageBufferFormat) -> (r: Result<ColorType, SkiaError>)
    ensures
        r == Ok::<ColorType, SkiaError>(image_format_color_type(format)),
{
    match format {
        ImageBufferFormat::Rgba8Unorm => Ok(ColorType::Rgba8888),
        ImageBufferFormat::Rgba8UnormSrgb => Ok(ColorType::Srgba8888),
        ImageBufferFormat::Bgra8Unorm | ImageBufferFormat::Bgra8UnormSrgb => Ok(ColorType::Bgra8888),
        ImageBufferFormat::Rgb10a2Unorm => Ok(ColorType::Rgba1010102),
        ImageBufferFormat::Rgba16Unorm => Ok(ColorType::R16G16B16A16UNorm),
        ImageBufferFormat::Rgba16Float => Ok(ColorType::RgbaF16),
    }
}

/// Bytes of one pixel of Skia color type `c`.
pub open spec fn color_type_bytes_per_pixel(c: ColorType) -> nat {
    match c {
        ColorType::R16G16B16A16UNorm | ColorType::RgbaF16 => 8,
        _ => 4,
    }
}

/// The Skia color type of an image buffer format keeps its channel order and pixel size: the
/// two BGRA8 formats, and no others, map to Skia's BGRA8888, and each color type has as many
/// bytes a pixel as the format it reads or writes.
pub proof fn lemma_color_type_keeps_channel_order(format: ImageBufferFormat)
    ensures
        image_format_color_type(format) == ColorType::Bgra8888
            <==> (format == ImageBufferFormat::Bgra8Unorm || format == ImageBufferFormat::Bgra8UnormSrgb),
        color_type_bytes_per_pixel(image_format_color_type(format)) == format_bytes_per_pixel(format),
{
}

/// Whether pixels of `format` are tagged with the sRGB color space.
pub fn image_buffer_format_is_srgb(format: ImageBufferFormat) -> (r: bool)
    ensures
        r == (format == ImageBufferFormat::Rgba8UnormSrgb || format == ImageBufferFormat::Bgra8UnormSrgb),
{
    match format {
        ImageBufferFormat::Rgba8UnormSrgb | ImageBufferFormat::Bgra8UnormSrgb => true,
        _ => false,
    }
}

/// The candidate formats for CPU and GPU image targets, in the order they are reported.
pub open spec fn candidate_image_formats() -> Seq<ImageBufferFormat> {
    seq![
        ImageBufferFormat::Rgba8Unorm,
        ImageBufferFormat::Rgba8UnormSrgb,
        ImageBufferFormat::Bgra8Unorm,
        ImageBufferFormat::Bgra8UnormSrgb,
        ImageBufferFormat::Rgb10a2Unorm,
        ImageBufferFormat::Rgba16Unorm,
        ImageBufferFormat::Rgba16Float,
    ]
}

/// The image buffer formats Skia can write: the candidates that have a Skia color type, in
/// candidate order.
pub fn supported_image_formats() -> (r: Vec<ImageBufferFormat>)
    ensures
        r@ == candidate_image_formats(),
{
    let candidates: Vec<ImageBufferFormat> = vec![
        ImageBufferFormat::Rgba8Unorm,
        ImageBufferFormat::Rgba8UnormSrgb,
        ImageBufferFormat::Bgra8Unorm,
        ImageBufferFormat::Bgra8UnormSrgb,
        ImageBufferFormat::Rgb10a2Unorm,
        ImageBufferFormat::Rgba16Unorm,
        ImageBufferFormat::Rgba16Float,
    ];
    let mut supported: Vec<ImageBufferFormat> = Vec::new();
    let mut i: usize = 0;
    while i < candidates.len()
        invariant
            i <= candidates@.len(),
            candidates@ == candidate_image_formats(),
            supported@ == candidates@.take(i as int),
        decreases candidates@.len() - i,
    {
        let format = candidates[i];
        if color_type_for_image_buffer_format(format).is_ok() {
            supported.push(format);
        }
        proof {
            assert(candidates@.take(i + 1) =~= candidates@.take(i as int).push(format));
        }
        i = i + 1;
    }
    proof {
        assert(candidates@.take(i as int) =~= candidates@);
    }
    supported
}

/// The texture format used to render into an image buffer of `format`.
pub open spec fn image_format_texture_format(format: ImageBufferFormat) -> TextureFormat {
    match format {
        ImageBufferFormat::Rgba8Unorm => TextureFormat::Rgba8Unorm,
        ImageBufferFormat::Rgba8UnormSrgb => TextureFormat::Rgba8UnormSrgb,
        ImageBufferFormat::Bgra8Unorm => TextureFormat::Bgra8Unorm,
        ImageBufferFormat::Bgra8UnormSrgb => TextureFormat::Bgra8UnormSrgb,
        ImageBufferFormat::Rgb10a2Unorm => TextureFormat::Rgb10a2Unorm,
        ImageBufferFormat::Rgba16Unorm => TextureFormat::Rgba16Unorm,
        ImageBufferFormat::Rgba16Float => TextureFormat::Rgba16Float,
    }
}

/// The texture format used to render into an image buffer of `format`; every image buffer
/// format has one.
pub fn texture_format_for_image_buffer_format(format: ImageBufferFormat) -> (r: Result<TextureFormat, SkiaError>)
    ensures
        r == Ok::<TextureFormat, SkiaError>(image_format_texture_format(format)),
{
    match format {
        ImageBufferFormat::Rgba8Unorm => Ok(TextureFormat::Rgba8Unorm),
        ImageBufferFormat::Rgba8UnormSrgb => Ok(TextureFormat::Rgba8UnormSrgb),
        ImageBufferFormat::Bgra8Unorm => Ok(TextureFormat::Bgra8Unorm),
        ImageBufferFormat::Bgra8UnormSrgb => Ok(TextureFormat::Bgra8UnormSrgb),
        ImageBufferFormat::Rgb10a2Unorm => Ok(TextureFormat::Rgb10a2Unorm),
        ImageBufferFormat::Rgba16Unorm => Ok(TextureFormat::Rgba16Unorm),
        ImageBufferFormat::Rgba16Float => Ok(TextureFormat::Rgba16Float),
    }
}

/// The Skia color type for a texture of `format`, if Skia can wrap it.
pub open spec fn texture_format_color_type(format: TextureFormat) -> Option<ColorType> {
    match format {
        TextureFormat::Rgba8Unorm => Some(ColorType::Rgba8888),
        TextureFormat::Rgba8UnormSrgb => Some(ColorType::Srgba8888),
        TextureFormat::Bgra8Unorm | TextureFormat::Bgra8UnormSrgb => Some(ColorType::Bgra8888),
        TextureFormat::Rgb10a2Unorm => Some(ColorType::Rgba1010102),
        TextureFormat::Rgba16Unorm => Some(ColorType::R16G16B16A16UNorm),
        TextureFormat::Rgba16Float => Some(ColorType::RgbaF16),
        TextureFormat::Other => None,
    }
}

/// The Skia color type for a texture of `format`; other formats are unsupported.
pub fn color_type_for_texture_format(format: TextureFormat) -> (r: Result<ColorType, SkiaError>)
    ensures
        match texture_format_color_type(format) {
            Some(c) => r == Ok::<ColorType, SkiaError>(c),
            None => r matches Err(SkiaError::UnsupportedGpuTextureFormat),
        },
{
    match format {
        TextureFormat::Rgba8Unorm => Ok(ColorType::Rgba8888),
        TextureFormat::Rgba8UnormSrgb => Ok(ColorType::Srgba8888),
        TextureFormat::Bgra8Unorm | TextureFormat::Bgra8UnormSrgb => Ok(ColorType::Bgra8888),
        TextureFormat::Rgb10a2Unorm => Ok(ColorType::Rgba1010102),
        TextureFormat::Rgba16Unorm => Ok(ColorType::R16G16B16A16UNorm),
        TextureFormat::Rgba16Float => Ok(ColorType::RgbaF16),
        TextureFormat::Other => Err(SkiaError::UnsupportedGpuTextureFormat),
    }
}

/// Whether a texture of `format` is tagged with the sRGB color space.
pub fn texture_format_is_srgb(format: TextureFormat) -> (r: bool)
    ensures
        r == (format == TextureFormat::Rgba8UnormSrgb || format == TextureFormat::Bgra8UnormSrgb),
{
    match format {
        TextureFormat::Rgba8UnormSrgb | TextureFormat::Bgra8UnormSrgb => true,
        _ => false,
    }
}

/// Bytes in one row of `width` pixels of `format`.
pub fn image_target_width_bytes(width: u32, format: ImageBufferFormat) -> (r: usize)
    requires
        width * format_bytes_per_pixel(format) <= usize::MAX,
    ensures
        r == width * format_bytes_per_pixel(format),
{
    (width as usize) * format.bytes_per_pixel()
}

/// The error a read of a `width` x `height` surface into `target` reports before any pixel is
/// read, if any, in the order the checks are made.
pub open spec fn read_target_error(width: u32, height: u32, target: &ImageBufferTarget) -> Option<&'static str> {
    if target.width != width || target.height != height {
        Some("image target dimensions do not match renderer output")
    } else if target.bytes_per_row < width * format_bytes_per_pixel(target.format) {
        Some("image target row stride is too small")
    } else if target.data@.len() < target.bytes_per_row * height {
        Some("image target buffer is too small")
    } else {
        None
    }
}

/// Check that `target` can receive the pixels of a `width` x `height` surface, and return the
/// color type to read them as.
pub fn check_read_target(width: u32, height: u32, target: &ImageBufferTarget<'_>) -> (r: Result<ColorType, SkiaError>)
    requires
        width * format_bytes_per_pixel(target.format) <= usize::MAX,
        target.width == width && target.height == height ==> target.bytes_per_row * height <= usize::MAX,
    ensures
        match read_target_error(width, height, target) {
            Some(message) => r matches Err(SkiaError::Internal(m)) && m@ == message@,
            None => r == Ok::<ColorType, SkiaError>(image_format_color_type(target.format)),
        },
{
    let width_bytes = image_target_width_bytes(width, target.format);
    if target.width != width || target.height != height {
        return Err(SkiaError::Internal("image target dimensions do not match renderer output"));
    }
    if target.bytes_per_row < width_bytes {
        return Err(SkiaError::Internal("image target row stride is too small"));
    }
    let required_len: usize = target.bytes_per_row * (height as usize);
    if target.data.len() < required_len {
        return Err(SkiaError::Internal("image target buffer is too small"));
    }
    color_type_for_image_buffer_format(target.format)
}

/// The image-renderer error a Skia error is reported as.
pub open spec fn image_renderer_error(error: SkiaError) -> ImageRendererError {
    match error {
        SkiaError::InvalidScene(e) => ImageRendererError::Content(RenderContentError::InvalidScene(e)),
        SkiaError::InvalidFontData => ImageRendererError::Content(RenderContentError::InvalidFontData),
        SkiaError::InvalidGlyphId => ImageRendererError::Content(RenderContentError::InvalidGlyphId),
        SkiaError::UnsupportedGpuTextureFormat | SkiaError::UnsupportedImageTargetFormat =>
            ImageRendererError::Target(ImageTargetError::UnsupportedTargetFormat),
        SkiaError::Internal(m) => if m@ == "image target dimensions do not match renderer output"@ {
            ImageRendererError::Target(ImageTargetError::InvalidTarget("image target dimensions do not match renderer output"))
        } else if m@ == "image target row stride is too small"@ {
            ImageRendererError::Target(ImageTargetError::InvalidTarget("image target row stride is smaller than the rendered width"))
        } else if m@ == "image target buffer is too small"@ {
            ImageRendererError::Target(ImageTargetError::InvalidTargetBuffer)
        } else if m@ == "render width too large"@ || m@ == "render height too large"@ {
            ImageRendererError::Target(ImageTargetError::DimensionsTooLarge)
        } else {
            ImageRendererError::Backend(BackendError::Skia(SkiaError::Internal(m)))
        },
        other => ImageRendererError::Backend(BackendError::Skia(other)),
    }
}

/// Map a Skia error to the shared image-renderer error.
pub fn map_image_renderer_error(error: SkiaError) -> (r: ImageRendererError)
    ensures
        r == image_renderer_error(error),
{
    match error {
        SkiaError::InvalidScene(e) => ImageRendererError::Content(RenderContentError::InvalidScene(e)),
        SkiaError::InvalidFontData => ImageRendererError::Content(RenderContentError::InvalidFontData),
        SkiaError::InvalidGlyphId => ImageRendererError::Content(RenderContentError::InvalidGlyphId),
        SkiaError::UnsupportedGpuTextureFormat | SkiaError::UnsupportedImageTargetFormat => {
            ImageRendererError::Target(ImageTargetError::UnsupportedTargetFormat)
        },
        SkiaError::Internal(m) => {
            if same_text(m, "image target dimensions do not match renderer output") {
                ImageRendererError::Target(ImageTargetError::InvalidTarget(
                    "image target dimensions do not match renderer output",
                ))
            } else if same_text(m, "image target row stride is too small") {
                ImageRendererError::Target(ImageTargetError::InvalidTarget(
                    "image target row stride is smaller than the rendered width",
                ))
            } else if same_text(m, "image target buffer is too small") {
                ImageRendererError::Target(ImageTargetError::InvalidTargetBuffer)
            } else if same_text(m, "render width too large") || same_text(m, "render height too large") {
                ImageRendererError::Target(ImageTargetError::DimensionsTooLarge)
            } else {
                ImageRendererError::backend(BackendError::Skia(SkiaError::Internal(m)))
            }
        },
        other => ImageRendererError::backend(BackendError::Skia(other)),
    }
}

/// Failures of reading a GPU texture back for the Skia renderer.
#[derive(Copy, Clone, Debug, PartialEq, Eq, Structural)]
pub enum ReadbackError {
    DevicePoll,
    CallbackDropped,
    BufferMap,
}

/// Map a readback failure to the shared image-renderer error.
pub fn map_readback_image_error(error: ReadbackError) -> (r: ImageRendererError)
    ensures
        r == match error {
            ReadbackError::DevicePoll => ImageRendererError::Readback(GpuReadbackError::DevicePoll),
            ReadbackError::CallbackDropped => ImageRendererError::Readback(GpuReadbackError::CallbackDropped),
            ReadbackError::BufferMap => ImageRendererError::Readback(GpuReadbackError::BufferMap),
        },
{
    match error {
        ReadbackError::DevicePoll => ImageRendererError::Readback(GpuReadbackError::DevicePoll),
        ReadbackError::CallbackDropped => ImageRendererError::Readback(GpuReadbackError::CallbackDropped),
        ReadbackError::BufferMap => ImageRendererError::Readback(GpuReadbackError::BufferMap),
    }
}

/// The texture-renderer error a Skia error is reported as.
pub open spec fn texture_renderer_error(error: SkiaError) -> TextureRendererError {
    match error {
        SkiaError::InvalidScene(e) => TextureRendererError::Content(RenderContentError::InvalidScene(e)),
        SkiaError::Internal(m) => if m@ == "render width too large"@ || m@ == "render height too large"@ {
            TextureRendererError::Target(TextureTargetError::DimensionsTooLarge)
        } else {
            TextureRendererError::Backend(BackendError::Skia(SkiaError::Internal(m)))
        },
        SkiaError::UnsupportedGpuTextureFormat => TextureRendererError::Target(TextureTargetError::UnsupportedTextureFormat),
        SkiaError::UnsupportedGpuBackend => TextureRendererError::Target(TextureTargetError::UnsupportedGpuBackend),
        SkiaError::CreateGpuContext(m) => TextureRendererError::Target(TextureTargetError::CreateGpuContext(m)),
        SkiaError::CreateGpuSurface => TextureRendererError::Target(TextureTargetError::CreateGpuSurface),
        other => TextureRendererError::Backend(BackendError::Skia(other)),
    }
}

/// Map a Skia error to the shared texture-renderer error.
pub fn map_texture_renderer_error(error: SkiaError) -> (r: TextureRendererError)
    ensures
        r == texture_renderer_error(error),
{
    match error {
        SkiaError::InvalidScene(e) => TextureRendererError::Content(RenderContentError::InvalidScene(e)),
        SkiaError::Internal(m) => {
            if same_text(m, "render width too large") || same_text(m, "render height too large") {
                TextureRendererError::Target(TextureTargetError::DimensionsTooLarge)
            } else {
                TextureRendererError::backend(BackendError::Skia(SkiaError::Internal(m)))
            }
        },
        SkiaError::UnsupportedGpuTextureFormat => TextureRendererError::Target(TextureTargetError::UnsupportedTextureFormat),
        SkiaError::UnsupportedGpuBackend => TextureRendererError::Target(TextureTargetError::UnsupportedGpuBackend),
        SkiaError::CreateGpuContext(m) => TextureRendererError::Target(TextureTargetError::CreateGpuContext(m)),
        SkiaError::CreateGpuSurface => TextureRendererError::Target(TextureTargetError::CreateGpuSurface),
        other => TextureRendererError::backend(BackendError::Skia(other)),
    }
}

/// Skia blend modes.
#[derive(Copy, Clone, Debug, PartialEq, Eq, Structural)]
pub enum SkBlendMode {
    Clear, Src, Dst, SrcOver, DstOver, SrcIn, DstIn, SrcOut, DstOut, SrcATop, DstATop, Xor, Plus,
    Multiply, Screen, Overlay, Darken, Lighten, ColorDodge, ColorBurn, HardLight, SoftLight,
    Difference, Exclusion, Hue, Saturation, Color, Luminosity,
}

/// The Skia blend mode for a blend mode: the composition decides, except that source-over
/// composition takes its mode from the color mix. Plus-lighter composes as plus.
pub open spec fn sk_blend_mode(mode: BlendMode) -> SkBlendMode {
    match mode.compose {
        Compose::Clear => SkBlendMode::Clear,
        Compose::Copy => SkBlendMode::Src,
        Compose::Dest => SkBlendMode::Dst,
        Compose::SrcOver => match mode.mix {
            Mix::Normal => SkBlendMode::SrcOver,
            Mix::Multiply => SkBlendMode::Multiply,
            Mix::Screen => SkBlendMode::Screen,
            Mix::Overlay => SkBlendMode::Overlay,
            Mix::Darken => SkBlendMode::Darken,
            Mix::Lighten => SkBlendMode::Lighten,
            Mix::ColorDodge => SkBlendMode::ColorDodge,
            Mix::ColorBurn => SkBlendMode::ColorBurn,
            Mix::HardLight => SkBlendMode::HardLight,
            Mix::SoftLight => SkBlendMode::SoftLight,
            Mix::Difference => SkBlendMode::Difference,
            Mix::Exclusion => SkBlendMode::Exclusion,
            Mix::Hue => SkBlendMode::Hue,
            Mix::Saturation => SkBlendMode::Saturation,
            Mix::Color => SkBlendMode::Color,
            Mix::Luminosity => SkBlendMode::Luminosity,
        },
        Compose::DestOver => SkBlendMode::DstOver,
        Compose::SrcIn => SkBlendMode::SrcIn,
        Compose::DestIn => SkBlendMode::DstIn,
        Compose::SrcOut => SkBlendMode::SrcOut,
        Compose::DestOut => SkBlendMode::DstOut,
        Compose::SrcAtop => SkBlendMode::SrcATop,
        Compose::DestAtop => SkBlendMode::DstATop,
        Compose::Xor => SkBlendMode::Xor,
        Compose::Plus | Compose::PlusLighter => SkBlendMode::Plus,
    }
}

/// The color mix a Skia blend mode applies before source-over composition, for the modes that
/// are a mix (source-over itself is the normal mix); `None` for the Porter-Duff modes.
pub open spec fn sk_blend_mode_mix(mode: SkBlendMode) -> Option<Mix> {
    match mode {
        SkBlendMode::SrcOver => Some(Mix::Normal),
        SkBlendMode::Multiply => Some(Mix::Multiply),
        SkBlendMode::Screen => Some(Mix::Screen),
        SkBlendMode::Overlay => Some(Mix::Overlay),
        SkBlendMode::Darken => Some(Mix::Darken),
        SkBlendMode::Lighten => Some(Mix::Lighten),
        SkBlendMode::ColorDodge => Some(Mix::ColorDodge),
        SkBlendMode::ColorBurn => Some(Mix::ColorBurn),
        SkBlendMode::HardLight => Some(Mix::HardLight),
        SkBlendMode::SoftLight => Some(Mix::SoftLight),
        SkBlendMode::Difference => Some(Mix::Difference),
        SkBlendMode::Exclusion => Some(Mix::Exclusion),
        SkBlendMode::Hue => Some(Mix::Hue),
        SkBlendMode::Saturation => Some(Mix::Saturation),
        SkBlendMode::Color => Some(Mix::Color),
        SkBlendMode::Luminosity => Some(Mix::Luminosity),
        _ => None,
    }
}

/// Under source-over composition every color mix becomes the Skia blend mode that applies that
/// same mix, so distinct mixes never share a Skia mode; under any other composition the mix is
/// dropped and the Skia mode is a Porter-Duff mode chosen by the composition alone.
pub proof fn lemma_blend_mode_keeps_mix(mix: Mix, other: Mix, compose: Compose)
    ensures
        sk_blend_mode_mix(sk_blend_mode(BlendMode { mix, compose: Compose::SrcOver })) == Some(mix),
        mix != other ==> sk_blend_mode(BlendMode { mix, compose: Compose::SrcOver })
            != sk_blend_mode(BlendMode { mix: other, compose: Compose::SrcOver }),
        compose != Compose::SrcOver ==> {
            &&& sk_blend_mode_mix(sk_blend_mode(BlendMode { mix, compose })) is None
            &&& sk_blend_mode(BlendMode { mix, compose }) == sk_blend_mode(BlendMode { mix: other, compose })
        },
{
    assert(sk_blend_mode_mix(sk_blend_mode(BlendMode { mix: other, compose: Compose::SrcOver })) == Some(other));
}

/// Map a blend mode to Skia's.
pub fn map_blend_mode(mode: &BlendMode) -> (r: SkBlendMode)
    ensures
        r == sk_blend_mode(*mode),
{
    match mode.compose {
        Compose::Clear => SkBlendMode::Clear,
        Compose::Copy => SkBlendMode::Src,
        Compose::Dest => SkBlendMode::Dst,
        Compose::SrcOver => match mode.mix {
            Mix::Normal => SkBlendMode::SrcOver,
            Mix::Multiply => SkBlendMode::Multiply,
            Mix::Screen => SkBlendMode::Screen,
            Mix::Overlay => SkBlendMode::Overlay,
            Mix::Darken => SkBlendMode::Darken,
            Mix::Lighten => SkBlendMode::Lighten,
            Mix::ColorDodge => SkBlendMode::ColorDodge,
            Mix::ColorBurn => SkBlendMode::ColorBurn,
            Mix::HardLight => SkBlendMode::HardLight,
            Mix::SoftLight => SkBlendMode::SoftLight,
            Mix::Difference => SkBlendMode::Difference,
            Mix::Exclusion => SkBlendMode::Exclusion,
            Mix::Hue => SkBlendMode::Hue,
            Mix::Saturation => SkBlendMode::Saturation,
            Mix::Color => SkBlendMode::Color,
            Mix::Luminosity => SkBlendMode::Luminosity,
        },
        Compose::DestOver => SkBlendMode::DstOver,
        Compose::SrcIn => SkBlendMode::SrcIn,
        Compose::DestIn => SkBlendMode::DstIn,
        Compose::SrcOut => SkBlendMode::SrcOut,
        Compose::DestOut => SkBlendMode::DstOut,
        Compose::SrcAtop => SkBlendMode::SrcATop,
        Compose::DestAtop => SkBlendMode::DstATop,
        Compose::Xor => SkBlendMode::Xor,
        Compose::Plus | Compose::PlusLighter => SkBlendMode::Plus,
    }
}

/// How a brush extends past its bounds.
#[derive(Copy, Clone, Debug, PartialEq, Eq, Structural)]
pub enum Extend {
    Pad,
    Repeat,
    Reflect,
}

/// Skia shader tile modes.
#[derive(Copy, Clone, Debug, PartialEq, Eq, Structural)]
pub enum TileMode {
    Clamp,
    Repeat,
    Mirror,
}

/// Map an extend mode to Skia's tile mode: pad clamps, repeat repeats, reflect mirrors.
pub fn tile_mode_from_extend(extend: Extend) -> (r: TileMode)
    ensures
        r == match extend {
            Extend::Pad => TileMode::Clamp,
            Extend::Repeat => TileMode::Repeat,
            Extend::Reflect => TileMode::Mirror,
        },
{
    match extend {
        Extend::Pad => TileMode::Clamp,
        Extend::Repeat => TileMode::Repeat,
        Extend::Reflect => TileMode::Mirror,
    }
}

/// Image sampling quality.
#[derive(Copy, Clone, Debug, PartialEq, Eq, Structural)]
pub enum ImageQuality {
    Low,
    Medium,
    High,
}

/// Skia sampling filter modes.
#[derive(Copy, Clone, Debug, PartialEq, Eq, Structural)]
pub enum FilterMode {
    Nearest,
    Linear,
}

/// Map an image quality to Skia's filter mode: low samples the nearest pixel, medium and high
/// filter linearly.
pub fn filter_mode_from_quality(quality: ImageQuality) -> (r: FilterMode)
    ensures
        r == (if quality == ImageQuality::Low { FilterMode::Nearest } else { FilterMode::Linear }),
{
    match quality {
        ImageQuality::Low => FilterMode::Nearest,
        ImageQuality::Medium | ImageQuality::High => FilterMode::Linear,
    }
}

/// Whether changing the tolerance from `current` to `requested` (binary64 bits) invalidates
/// realized masks: it does whenever the two do not compare equal.
pub fn tolerance_change_clears_masks(current: u64, requested: u64) -> (r: bool)
    ensures
        r == !crate::float_bits::f64_eq(current, requested),
{
    !crate::float_bits::f64_bits_eq(current, requested)
}

/// Whether Skia can apply a glyph transform with coefficients `[a, b, c, d, e, f]` (binary64
/// bits) as a font size, horizontal scale and skew: `b`, `e` and `f` must compare equal to zero
/// and `d` must not compare `<= 0`.
pub fn glyph_transform_supported(b: u64, d: u64, e: u64, f: u64) -> (r: bool)
    ensures
        r == (crate::float_bits::f64_eq_zero(b) && crate::float_bits::f64_eq_zero(e)
            && crate::float_bits::f64_eq_zero(f) && !crate::float_bits::f64_le_zero(d)),
{
    crate::float_bits::f64_bits_eq_zero(b) && crate::float_bits::f64_bits_eq_zero(e)
        && crate::float_bits::f64_bits_eq_zero(f) && !crate::float_bits::f64_bits_le_zero(d)
}

/// Apply a config's budgets for realized images and masks to the shared caches, evicting each
/// down to its new budget.
pub fn apply_cache_budgets<V, M>(config: &SkiaCacheConfig, images: &mut ImageCache<V>, masks: &mut MaskImageCache<M>)
    requires
        old(images).well_formed(),
        old(masks).well_formed(),
    ensures
        final(images).well_formed(),
        final(masks).well_formed(),
        final(images).max_bytes() == config.image_cache_total_bytes_limit,
        final(masks).max_bytes() == config.mask_cache_total_bytes_limit,
        (final(images).entries(), final(images).bytes_used())
            == evict_front(old(images).entries(), old(images).bytes_used(), config.image_cache_total_bytes_limit),
        (final(masks).entries(), final(masks).bytes_used())
            == evict_front(old(masks).entries(), old(masks).bytes_used(), config.mask_cache_total_bytes_limit),
{
    images.set_max_bytes(config.image_cache_total_bytes_limit);
    masks.set_max_bytes(config.mask_cache_total_bytes_limit);
}

} // verus!

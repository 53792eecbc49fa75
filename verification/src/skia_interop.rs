//! Tables that carry texture, color and path descriptions over to the Skia side: wrapped-texture
//! checks, GL and Vulkan pixel formats, alpha types, fill rules and gradient interpolation.

use vstd::prelude::*;
use crate::image_cache::ImageAlphaType;
use crate::skia_renderer::SkiaError;
use crate::texture::TextureFormat;

verus! {

/// The dimensionality of a GPU texture.
#[derive(Copy, Clone, Debug, PartialEq, Eq, Structural)]
pub enum TextureDimension {
    D1,
    D2,
    D3,
}

/// The size of a texture that the GPU renderer can wrap: it must be two-dimensional and
/// single-sampled.
pub fn checked_texture_size(dimension: TextureDimension, sample_count: u32, width: u32, height: u32)
    -> (r: Result<(u32, u32), SkiaError>)
    ensures
        dimension != TextureDimension::D2 ==> r == Err::<(u32, u32), SkiaError>(
            SkiaError::Internal("Skia GPU renderer only supports 2D textures")),
        dimension == TextureDimension::D2 && sample_count != 1 ==> r == Err::<(u32, u32), SkiaError>(
            SkiaError::Internal("Skia GPU renderer only supports single-sampled textures")),
        dimension == TextureDimension::D2 && sample_count == 1 ==> r == Ok::<(u32, u32), SkiaError>(
            (width, height)),
{
    if dimension != TextureDimension::D2 {
        return Err(SkiaError::Internal("Skia GPU renderer only supports 2D textures"));
    }
    if sample_count != 1 {
        return Err(SkiaError::Internal("Skia GPU renderer only supports single-sampled textures"));
    }
    Ok((width, height))
}

/// GL sized internal formats that wrapped textures use.
#[derive(Copy, Clone, Debug, PartialEq, Eq, Structural)]
pub enum GlFormat {
    Rgba8,
    Srgb8Alpha8,
    Bgra8,
    Rgb10A2,
    Rgba16,
    Rgba16F,
}

/// The GL internal format of a texture of `format`, if one is known.
pub open spec fn texture_gl_format(format: TextureFormat) -> Option<GlFormat> {
    match format {
        TextureFormat::Rgba8Unorm => Some(GlFormat::Rgba8),
        TextureFormat::Rgba8UnormSrgb => Some(GlFormat::Srgb8Alpha8),
        TextureFormat::Bgra8Unorm | TextureFormat::Bgra8UnormSrgb => Some(GlFormat::Bgra8),
        TextureFormat::Rgb10a2Unorm => Some(GlFormat::Rgb10A2),
        TextureFormat::Rgba16Unorm => Some(GlFormat::Rgba16),
        TextureFormat::Rgba16Float => Some(GlFormat::Rgba16F),
        TextureFormat::Other => None,
    }
}

/// Map a texture format to the GL internal format used to wrap it; other formats are an
/// internal error.
pub fn gl_format_for_wgpu_texture_format(format: TextureFormat) -> (r: Result<GlFormat, SkiaError>)
    ensures
        match texture_gl_format(format) {
            Some(f) => r == Ok::<GlFormat, SkiaError>(f),
            None => r == Err::<GlFormat, SkiaError>(
                SkiaError::Internal("unsupported OpenGL wgpu texture format")),
        },
{
    match format {
        TextureFormat::Rgba8Unorm => Ok(GlFormat::Rgba8),
        TextureFormat::Rgba8UnormSrgb => Ok(GlFormat::Srgb8Alpha8),
        TextureFormat::Bgra8Unorm | TextureFormat::Bgra8UnormSrgb => Ok(GlFormat::Bgra8),
        TextureFormat::Rgb10a2Unorm => Ok(GlFormat::Rgb10A2),
        TextureFormat::Rgba16Unorm => Ok(GlFormat::Rgba16),
        TextureFormat::Rgba16Float => Ok(GlFormat::Rgba16F),
        TextureFormat::Other => Err(SkiaError::Internal("unsupported OpenGL wgpu texture format")),
    }
}

/// Vulkan image formats that wrapped textures use.
#[derive(Copy, Clone, Debug, PartialEq, Eq, Structural)]
pub enum VkFormat {
    R8G8B8A8Unorm,
    R8G8B8A8Srgb,
    B8G8R8A8Unorm,
    B8G8R8A8Srgb,
    A2B10G10R10UnormPack32,
    R16G16B16A16Unorm,
    R16G16B16A16Sfloat,
}

/// The Vulkan image format of a texture of `format`, if one is known.
pub open spec fn texture_vk_format(format: TextureFormat) -> Option<VkFormat> {
    match format {
        TextureFormat::Rgba8Unorm => Some(VkFormat::R8G8B8A8Unorm),
        TextureFormat::Rgba8UnormSrgb => Some(VkFormat::R8G8B8A8Srgb),
        TextureFormat::Bgra8Unorm => Some(VkFormat::B8G8R8A8Unorm),
        TextureFormat::Bgra8UnormSrgb => Some(VkFormat::B8G8R8A8Srgb),
        TextureFormat::Rgb10a2Unorm => Some(VkFormat::A2B10G10R10UnormPack32),
        TextureFormat::Rgba16Unorm => Some(VkFormat::R16G16B16A16Unorm),
        TextureFormat::Rgba16Float => Some(VkFormat::R16G16B16A16Sfloat),
        TextureFormat::Other => None,
    }
}

/// Map a texture format to the Vulkan image format used to wrap it; other formats are an
/// internal error.
pub fn vk_format_for_wgpu_texture_format(format: TextureFormat) -> (r: Result<VkFormat, SkiaError>)
    ensures
        match texture_vk_format(format) {
            Some(f) => r == Ok::<VkFormat, SkiaError>(f),
            None => r == Err::<VkFormat, SkiaError>(
                SkiaError::Internal("unsupported Vulkan wgpu texture format")),
        },
{
    match format {
        TextureFormat::Rgba8Unorm => Ok(VkFormat::R8G8B8A8Unorm),
        TextureFormat::Rgba8UnormSrgb => Ok(VkFormat::R8G8B8A8Srgb),
        TextureFormat::Bgra8Unorm => Ok(VkFormat::B8G8R8A8Unorm),
        TextureFormat::Bgra8UnormSrgb => Ok(VkFormat::B8G8R8A8Srgb),
        TextureFormat::Rgb10a2Unorm => Ok(VkFormat::A2B10G10R10UnormPack32),
        TextureFormat::Rgba16Unorm => Ok(VkFormat::R16G16B16A16Unorm),
        TextureFormat::Rgba16Float => Ok(VkFormat::R16G16B16A16Sfloat),
        TextureFormat::Other => Err(SkiaError::Internal("unsupported Vulkan wgpu texture format")),
    }
}

/// Skia alpha types.
#[derive(Copy, Clone, Debug, PartialEq, Eq, Structural)]
pub enum AlphaType {
    Unpremul,
    Premul,
}

/// Straight alpha maps to Skia's unpremultiplied type, premultiplied alpha to its premultiplied
/// type.
pub fn alpha_type_for_image_alpha_type(alpha_type: ImageAlphaType) -> (r: AlphaType)
    ensures
        r == match alpha_type {
            ImageAlphaType::Alpha => AlphaType::Unpremul,
            ImageAlphaType::AlphaPremultiplied => AlphaType::Premul,
        },
{
    match alpha_type {
        ImageAlphaType::Alpha => AlphaType::Unpremul,
        ImageAlphaType::AlphaPremultiplied => AlphaType::Premul,
    }
}

/// Fill rules of a path.
#[derive(Copy, Clone, Debug, PartialEq, Eq, Structural)]
pub enum Fill {
    NonZero,
    EvenOdd,
}

/// Skia path fill types.
#[derive(Copy, Clone, Debug, PartialEq, Eq, Structural)]
pub enum PathFillType {
    Winding,
    EvenOdd,
}

/// The non-zero rule fills by winding; the even-odd rule fills even-odd.
pub fn sk_path_fill_type_from_fill_rule(rule: Fill) -> (r: PathFillType)
    ensures
        r == match rule {
            Fill::NonZero => PathFillType::Winding,
            Fill::EvenOdd => PathFillType::EvenOdd,
        },
{
    match rule {
        Fill::NonZero => PathFillType::Winding,
        Fill::EvenOdd => PathFillType::EvenOdd,
    }
}

/// Color spaces in which gradient stops may be interpolated.
#[derive(Copy, Clone, Debug, PartialEq, Eq, Structural)]
pub enum ColorSpaceTag {
    Srgb,
    LinearSrgb,
    Lab,
    Lch,
    Hsl,
    Hwb,
    Oklab,
    Oklch,
    DisplayP3,
    A98Rgb,
    ProphotoRgb,
    Rec2020,
    AcesCg,
    Aces2065_1,
    XyzD50,
    XyzD65,
    /// Any other color space.
    Other,
}

/// Skia's gradient interpolation color spaces.
#[derive(Copy, Clone, Debug, PartialEq, Eq, Structural)]
pub enum GradientColorSpace {
    Srgb,
    SrgbLinear,
    Lab,
    Lch,
    Hsl,
    Hwb,
    OkLab,
    OkLch,
    DisplayP3,
    A98Rgb,
    ProphotoRgb,
    Rec2020,
}

/// The Skia interpolation space for a gradient's color space; those Skia has no counterpart for
/// fall back to sRGB.
pub open spec fn gradient_color_space(tag: ColorSpaceTag) -> GradientColorSpace {
    match tag {
        ColorSpaceTag::Srgb => GradientColorSpace::Srgb,
        ColorSpaceTag::LinearSrgb => GradientColorSpace::SrgbLinear,
        ColorSpaceTag::Lab => GradientColorSpace::Lab,
        ColorSpaceTag::Lch => GradientColorSpace::Lch,
        ColorSpaceTag::Hsl => GradientColorSpace::Hsl,
        ColorSpaceTag::Hwb => GradientColorSpace::Hwb,
        ColorSpaceTag::Oklab => GradientColorSpace::OkLab,
        ColorSpaceTag::Oklch => GradientColorSpace::OkLch,
        ColorSpaceTag::DisplayP3 => GradientColorSpace::DisplayP3,
        ColorSpaceTag::A98Rgb => GradientColorSpace::A98Rgb,
        ColorSpaceTag::ProphotoRgb => GradientColorSpace::ProphotoRgb,
        ColorSpaceTag::Rec2020 => GradientColorSpace::Rec2020,
        _ => GradientColorSpace::Srgb,
    }
}

/// Map a gradient's interpolation color space to Skia's.
pub fn gradient_shader_cs_from_cs_tag(color_space: ColorSpaceTag) -> (r: GradientColorSpace)
    ensures
        r == gradient_color_space(color_space),
{
    match color_space {
        ColorSpaceTag::Srgb => GradientColorSpace::Srgb,
        ColorSpaceTag::LinearSrgb => GradientColorSpace::SrgbLinear,
        ColorSpaceTag::Lab => GradientColorSpace::Lab,
        ColorSpaceTag::Lch => GradientColorSpace::Lch,
        ColorSpaceTag::Hsl => GradientColorSpace::Hsl,
        ColorSpaceTag::Hwb => GradientColorSpace::Hwb,
        ColorSpaceTag::Oklab => GradientColorSpace::OkLab,
        ColorSpaceTag::Oklch => GradientColorSpace::OkLch,
        ColorSpaceTag::DisplayP3 => GradientColorSpace::DisplayP3,
        ColorSpaceTag::A98Rgb => GradientColorSpace::A98Rgb,
        ColorSpaceTag::ProphotoRgb => GradientColorSpace::ProphotoRgb,
        ColorSpaceTag::Rec2020 => GradientColorSpace::Rec2020,
        _ => GradientColorSpace::Srgb,
    }
}

/// Which way hues are interpolated between gradient stops.
#[derive(Copy, Clone, Debug, PartialEq, Eq, Structural)]
pub enum HueDirection {
    Shorter,
    Longer,
    Increasing,
    Decreasing,
    /// Any other direction.
    Other,
}

/// Skia's hue interpolation methods.
#[derive(Copy, Clone, Debug, PartialEq, Eq, Structural)]
pub enum HueMethod {
    Shorter,
    Longer,
    Increasing,
    Decreasing,
}

/// Each hue direction maps to the Skia hue method of the same name; any other falls back to the
/// shorter arc.
pub fn gradient_shader_hue_method_from_hue_direction(direction: HueDirection) -> (r: HueMethod)
    ensures
        r == match direction {
            HueDirection::Shorter => HueMethod::Shorter,
            HueDirection::Longer => HueMethod::Longer,
            HueDirection::Increasing => HueMethod::Increasing,
            HueDirection::Decreasing => HueMethod::Decreasing,
            HueDirection::Other => HueMethod::Shorter,
        },
{
    match direction {
        HueDirection::Shorter => HueMethod::Shorter,
        HueDirection::Longer => HueMethod::Longer,
        HueDirection::Increasing => HueMethod::Increasing,
        HueDirection::Decreasing => HueMethod::Decreasing,
        HueDirection::Other => HueMethod::Shorter,
    }
}

} // verus!

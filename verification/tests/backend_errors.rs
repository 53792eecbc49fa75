use imaging::hybrid_renderer;
use imaging::render::{GpuReadbackError, ImageBufferFormat, ImageRendererError, ImageTargetError, RenderContentError};
use imaging::record::ValidateError;
use imaging::texture::{
    map_readback_image_error, map_texture_to_image_error, readback_layout, unpad_rows, ReadbackError,
    ReadbackLayout, ReadbackLayoutError, ReadbackPixelFormat, TextureFormat, TextureRendererError, TextureTargetError,
};
use imaging::vello_renderer;

#[test]
fn lib_invalid_target_stride_maps_to_image_target_error() {
    assert!(matches!(
        map_readback_image_error(ReadbackError::InvalidTargetStride),
        ImageRendererError::Target(ImageTargetError::InvalidTarget(
            "image target row stride is smaller than the rendered width",
        ))
    ));
}

#[test]
fn lib_invalid_target_buffer_maps_to_image_target_error() {
    assert!(matches!(
        map_readback_image_error(ReadbackError::InvalidTargetBuffer),
        ImageRendererError::Target(ImageTargetError::InvalidTargetBuffer)
    ));
}

#[test]
fn lib_supported_image_formats_are_rgba8_only() {
    assert_eq!(vello_renderer::supported_image_formats(), vec![ImageBufferFormat::Rgba8Unorm]);
    assert_eq!(hybrid_renderer::supported_image_formats(), vec![ImageBufferFormat::Rgba8Unorm]);
}

#[test]
fn lib_supported_texture_formats_are_rgba8_only() {
    assert_eq!(vello_renderer::supported_texture_formats(), vec![TextureFormat::Rgba8Unorm]);
    assert_eq!(hybrid_renderer::supported_texture_formats(), vec![TextureFormat::Rgba8Unorm]);
}

#[test]
fn readback_failures_map_to_readback_errors() {
    assert!(matches!(
        map_readback_image_error(ReadbackError::DevicePoll),
        ImageRendererError::Readback(GpuReadbackError::DevicePoll)
    ));
    assert!(matches!(
        map_readback_image_error(ReadbackError::CallbackDropped),
        ImageRendererError::Readback(GpuReadbackError::CallbackDropped)
    ));
    assert!(matches!(
        map_readback_image_error(ReadbackError::BufferMap),
        ImageRendererError::Readback(GpuReadbackError::BufferMap)
    ));
}

#[test]
fn readback_errors_map_to_internal_backend_errors() {
    assert!(matches!(
        vello_renderer::map_readback_error(ReadbackError::DevicePoll),
        vello_renderer::VelloError::Internal("device poll failed")
    ));
    assert!(matches!(
        vello_renderer::map_readback_error(ReadbackError::InvalidTargetStride),
        vello_renderer::VelloError::Internal("image target row stride too small")
    ));
    assert!(matches!(
        hybrid_renderer::map_readback_error(ReadbackError::InvalidTargetBuffer),
        hybrid_renderer::HybridError::Internal("image target buffer too small")
    ));
    assert!(matches!(
        hybrid_renderer::map_readback_error(ReadbackError::CallbackDropped),
        hybrid_renderer::HybridError::Internal("map_async callback dropped")
    ));
}

#[test]
fn vello_sizes_are_checked_against_u16() {
    assert!(matches!(vello_renderer::checked_size(65535, 1), Ok((65535, 1))));
    assert!(matches!(
        vello_renderer::checked_size(65536, 1),
        Err(vello_renderer::VelloError::Internal("render width too large"))
    ));
    assert!(matches!(
        hybrid_renderer::checked_size(10, 70000),
        Err(hybrid_renderer::HybridError::Internal("render height too large"))
    ));
}

#[test]
fn size_errors_map_to_dimensions_too_large() {
    let err = vello_renderer::checked_size(100_000, 1).unwrap_err();
    assert!(matches!(
        vello_renderer::map_texture_renderer_error(err),
        TextureRendererError::Target(TextureTargetError::DimensionsTooLarge)
    ));
    let err = hybrid_renderer::checked_size(1, 100_000).unwrap_err();
    assert!(matches!(
        hybrid_renderer::map_texture_renderer_error(err),
        TextureRendererError::Target(TextureTargetError::DimensionsTooLarge)
    ));
    assert!(matches!(
        vello_renderer::map_texture_renderer_error(vello_renderer::VelloError::InvalidScene(ValidateError::UnbalancedStacks)),
        TextureRendererError::Content(RenderContentError::InvalidScene(ValidateError::UnbalancedStacks))
    ));
    assert!(matches!(
        vello_renderer::map_texture_renderer_error(vello_renderer::VelloError::Internal("other")),
        TextureRendererError::Backend(_)
    ));
}

#[test]
fn texture_errors_map_to_image_errors() {
    assert!(matches!(
        map_texture_to_image_error(TextureRendererError::Target(TextureTargetError::UnsupportedTextureFormat)),
        ImageRendererError::Target(ImageTargetError::UnsupportedTargetFormat)
    ));
    assert!(matches!(
        map_texture_to_image_error(TextureRendererError::Target(TextureTargetError::CreateGpuSurface)),
        ImageRendererError::Target(ImageTargetError::InvalidTarget(
            "backend could not wrap the texture as a GPU render surface"
        ))
    ));
    assert!(matches!(
        map_texture_to_image_error(TextureRendererError::Target(TextureTargetError::UnsupportedGpuBackend)),
        ImageRendererError::Target(ImageTargetError::InvalidTarget(
            "no supported GPU backend was available for the supplied wgpu setup"
        ))
    ));
    assert!(matches!(
        map_texture_to_image_error(TextureRendererError::Target(TextureTargetError::CreateGpuContext("ctx"))),
        ImageRendererError::Target(ImageTargetError::InvalidTarget("ctx"))
    ));
    assert!(matches!(
        map_texture_to_image_error(TextureRendererError::Target(TextureTargetError::DimensionsTooLarge)),
        ImageRendererError::Target(ImageTargetError::DimensionsTooLarge)
    ));
}

#[test]
fn non_rgba8_targets_are_rejected() {
    assert!(vello_renderer::check_image_target_format(ImageBufferFormat::Rgba8Unorm).is_ok());
    assert!(matches!(
        vello_renderer::check_image_target_format(ImageBufferFormat::Bgra8Unorm),
        Err(ImageRendererError::Target(ImageTargetError::UnsupportedTargetFormat))
    ));
    assert!(matches!(
        hybrid_renderer::check_image_target_format(ImageBufferFormat::Rgba16Float),
        Err(ImageRendererError::Target(ImageTargetError::UnsupportedTargetFormat))
    ));
}

#[test]
fn readback_rows_are_padded_to_256_bytes() {
    assert_eq!(
        readback_layout(TextureFormat::Rgba8Unorm, 10),
        Ok(ReadbackLayout {
            format: ReadbackPixelFormat::Rgba8,
            bytes_per_pixel: 4,
            width_bytes: 40,
            padded_bytes_per_row: 256,
        })
    );
    assert_eq!(readback_layout(TextureFormat::Bgra8UnormSrgb, 64).unwrap().padded_bytes_per_row, 256);
    assert_eq!(readback_layout(TextureFormat::Bgra8UnormSrgb, 65).unwrap().padded_bytes_per_row, 512);
    assert_eq!(readback_layout(TextureFormat::Bgra8Unorm, 1).unwrap().format, ReadbackPixelFormat::Bgra8);
    assert_eq!(
        readback_layout(TextureFormat::Rgba16Float, 4),
        Err(ReadbackLayoutError::UnsupportedFormat(TextureFormat::Rgba16Float))
    );
    assert_eq!(readback_layout(TextureFormat::Rgba8Unorm, 0x4000_0000), Err(ReadbackLayoutError::RowSizeOverflow));
}

#[test]
fn readback_padding_is_stripped() {
    let mapped: Vec<u8> = vec![1, 2, 3, 0, 4, 5, 6, 0, 7, 8];
    assert_eq!(unpad_rows(&mapped, 4, 3), vec![1, 2, 3, 4, 5, 6]);
    assert_eq!(unpad_rows(&mapped, 5, 2), vec![1, 2, 5, 6]);
    assert_eq!(unpad_rows(&[], 4, 4), Vec::<u8>::new());
}

use imaging::backend::{self, CpuBufferAlphaMode, CpuBufferChannelOrder, Target};
use imaging::render::{
    copy_rgba_image, rendered_image, BackendError, ImageBufferFormat, ImageBufferTarget, ImageRendererError, ImageTargetError, RgbaImage,
};
use imaging::renderer::{CpuBufferFormat, CpuBufferTarget};
use imaging::skia_renderer::SkiaError;

fn image_2x2() -> RgbaImage {
    let mut image = RgbaImage::new(2, 2);
    for (i, byte) in image.data.iter_mut().enumerate() {
        *byte = i as u8 + 1;
    }
    image
}

#[test]
fn new_images_are_transparent_black() {
    let image = RgbaImage::new(3, 2);
    assert_eq!(image.width, 3);
    assert_eq!(image.height, 2);
    assert_eq!(image.data, vec![0; 24]);
}

#[test]
fn bytes_per_pixel_matches_formats() {
    assert_eq!(ImageBufferFormat::Rgba8Unorm.bytes_per_pixel(), 4);
    assert_eq!(ImageBufferFormat::Bgra8UnormSrgb.bytes_per_pixel(), 4);
    assert_eq!(ImageBufferFormat::Rgb10a2Unorm.bytes_per_pixel(), 4);
    assert_eq!(ImageBufferFormat::Rgba16Unorm.bytes_per_pixel(), 8);
    assert_eq!(ImageBufferFormat::Rgba16Float.bytes_per_pixel(), 8);
}

#[test]
fn rgba_image_target_borrows_the_image() {
    let mut image = image_2x2();
    {
        let target = ImageBufferTarget::from_rgba_image(&mut image);
        assert_eq!(target.width, 2);
        assert_eq!(target.height, 2);
        assert_eq!(target.bytes_per_row, 8);
        assert_eq!(target.format, ImageBufferFormat::Rgba8Unorm);
        target.data[0] = 0xaa;
    }
    assert_eq!(image.data[0], 0xaa);
}

#[test]
fn copy_places_rows_at_the_target_stride() {
    let image = image_2x2();
    let mut data = vec![0xee; 20];
    let target = ImageBufferTarget { data: &mut data, width: 2, height: 2, bytes_per_row: 10, format: ImageBufferFormat::Rgba8Unorm };
    assert!(copy_rgba_image(&image, target).is_ok());
    assert_eq!(
        data,
        vec![1, 2, 3, 4, 5, 6, 7, 8, 0xee, 0xee, 9, 10, 11, 12, 13, 14, 15, 16, 0xee, 0xee]
    );
}

#[test]
fn copy_reports_target_errors_in_order() {
    let image = image_2x2();
    let mut data = vec![0; 16];
    let target = ImageBufferTarget { data: &mut data, width: 3, height: 2, bytes_per_row: 8, format: ImageBufferFormat::Bgra8Unorm };
    assert!(matches!(
        copy_rgba_image(&image, target),
        Err(ImageRendererError::Target(ImageTargetError::InvalidTarget("image target dimensions do not match renderer output")))
    ));
    let target = ImageBufferTarget { data: &mut data, width: 2, height: 2, bytes_per_row: 7, format: ImageBufferFormat::Bgra8Unorm };
    assert!(matches!(
        copy_rgba_image(&image, target),
        Err(ImageRendererError::Target(ImageTargetError::InvalidTarget("image target row stride is smaller than the rendered width")))
    ));
    let target = ImageBufferTarget { data: &mut data, width: 2, height: 2, bytes_per_row: 8, format: ImageBufferFormat::Bgra8Unorm };
    assert!(matches!(
        copy_rgba_image(&image, target),
        Err(ImageRendererError::Target(ImageTargetError::UnsupportedTargetFormat))
    ));
    let mut short = vec![0; 15];
    let target = ImageBufferTarget { data: &mut short, width: 2, height: 2, bytes_per_row: 8, format: ImageBufferFormat::Rgba8Unorm };
    assert!(matches!(
        copy_rgba_image(&image, target),
        Err(ImageRendererError::Target(ImageTargetError::InvalidTargetBuffer))
    ));
    assert_eq!(short, vec![0; 15]);
    assert_eq!(data, vec![0; 16]);
}

#[test]
fn backend_errors_are_wrapped() {
    assert!(matches!(
        ImageRendererError::backend(BackendError::Skia(SkiaError::InvalidGlyphId)),
        ImageRendererError::Backend(BackendError::Skia(SkiaError::InvalidGlyphId))
    ));
}

#[test]
fn cpu_buffer_targets_report_their_layout() {
    let mut buffer = vec![0u8; 64];
    let target = CpuBufferTarget { buffer: &mut buffer, width: 4, height: 4, bytes_per_row: 16, format: CpuBufferFormat::Bgra8Opaque };
    let info = target.info();
    assert_eq!((info.width, info.height, info.bytes_per_row), (4, 4, 16));
    assert_eq!(info.format, CpuBufferFormat::Bgra8Opaque);

    let mut buffer = vec![0u8; 32];
    let target = backend::CpuBufferTarget {
        buffer: &mut buffer,
        width: 2,
        height: 4,
        bytes_per_row: 8,
        format: backend::CpuBufferFormat::rgba8_premultiplied(),
    };
    let info = Target::info(&target);
    assert_eq!((info.width, info.height, info.bytes_per_row), (2, 4, 8));
    assert_eq!(info.format.channel_order, CpuBufferChannelOrder::Rgba8);
    assert_eq!(info.format.alpha_mode, CpuBufferAlphaMode::Premultiplied);
    assert_eq!(backend::CpuBufferFormat::bgra8_opaque().channel_order, CpuBufferChannelOrder::Bgra8);
    assert_eq!(backend::CpuBufferFormat::rgba8_opaque().alpha_mode, CpuBufferAlphaMode::Opaque);
    assert_eq!(backend::CpuBufferFormat::bgra8_premultiplied().alpha_mode, CpuBufferAlphaMode::Premultiplied);
}

#[test]
fn rendered_image_returns_the_image_or_the_render_error() {
    let ok = rendered_image(image_2x2(), Ok(())).unwrap();
    assert_eq!((ok.width, ok.height), (2, 2));
    assert_eq!(ok.data[0], 1);
    assert_eq!(ok.data[15], 16);
    let err = rendered_image(image_2x2(), Err(ImageRendererError::Target(ImageTargetError::InvalidTargetBuffer)));
    assert!(matches!(err, Err(ImageRendererError::Target(ImageTargetError::InvalidTargetBuffer))));
}

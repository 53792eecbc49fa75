use imaging::record::{BlendMode, Compose, MaskMode, Mix, ValidateError};
use imaging::render::{ImageBufferFormat, ImageBufferTarget, ImageRendererError, ImageTargetError, RenderContentError};
use imaging::image_cache::ImageCache;
use imaging::skia_renderer::{
    apply_cache_budgets, check_read_target, checked_size, color_type_for_image_buffer_format, color_type_for_texture_format,
    filter_mode_from_quality, image_buffer_format_is_srgb, image_target_width_bytes, map_blend_mode,
    map_image_renderer_error, map_readback_image_error, map_texture_renderer_error, supported_image_formats,
    texture_format_for_image_buffer_format, tile_mode_from_extend, tolerance_change_clears_masks, ColorType, Extend,
    FilterMode, ImageQuality, ReadbackError, SkBlendMode, SkiaCacheConfig, SkiaError, TileMode,
};
use imaging::skia_sink::{
    approx_bytes, mask_image_cache_key, retained_image_cache_key_for_policy, LinearBits, MaskImageCache, PopClip,
    PopGroup, RetainedEvictionPolicy, RetainedImageCache, RetainedTransformPolicy, Route, StreamState, ONE_BITS,
};
use imaging::texture::{TextureFormat, TextureRendererError, TextureTargetError};
use imaging::image_cache::ImageAlphaType;
use imaging::skia_interop::{
    alpha_type_for_image_alpha_type, checked_texture_size, gl_format_for_wgpu_texture_format,
    gradient_shader_cs_from_cs_tag, gradient_shader_hue_method_from_hue_direction, sk_path_fill_type_from_fill_rule,
    vk_format_for_wgpu_texture_format, AlphaType, ColorSpaceTag, Fill, GlFormat, GradientColorSpace, HueDirection,
    HueMethod, PathFillType, TextureDimension, VkFormat,
};

fn identity() -> LinearBits {
    LinearBits { a: ONE_BITS, b: 0, c: 0, d: ONE_BITS }
}

// The canvas sink's clip underflow, through the stream state that decides it.
#[test]
fn sk_canvas_sink_reports_clip_underflow() {
    let mut state = StreamState::new();
    assert_eq!(state.pop_clip(), PopClip::Underflow);
    assert!(matches!(state.finish(), Err(SkiaError::Internal("pop_clip underflow"))));
}

// The recorder sink's unbalanced-group error, through the stream state that decides it.
#[test]
fn sk_picture_recorder_sink_rejects_unbalanced_group() {
    let mut state = StreamState::new();
    assert_eq!(state.route(), Route::Canvas);
    state.push_direct_group(0);
    assert!(matches!(state.finish(), Err(SkiaError::Internal("unbalanced group stack"))));
}

#[test]
fn stream_state_reports_the_first_error_once() {
    let mut state = StreamState::new();
    state.clip_pushed();
    state.set_error_once(SkiaError::InvalidFontData);
    state.set_error_once(SkiaError::InvalidGlyphId);
    assert_eq!(state.route(), Route::Skip);
    assert_eq!(state.pop_clip(), PopClip::Skip);
    assert_eq!(state.pop_group(), PopGroup::Skip);
    assert!(matches!(state.finish(), Err(SkiaError::InvalidFontData)));
    // the error is reported once; the clip is still open
    assert!(matches!(state.finish(), Err(SkiaError::Internal("unbalanced clip stack"))));
    assert_eq!(state.pop_clip(), PopClip::Restore);
    assert!(state.finish().is_ok());
}

#[test]
fn masked_groups_collect_nested_commands() {
    let mut state = StreamState::new();
    state.push_direct_group(2);
    state.push_masked_group();
    assert_eq!(state.route(), Route::Masked);
    assert_eq!(state.pop_clip(), PopClip::Forward);
    state.nest_group();
    assert_eq!(state.pop_group(), PopGroup::Forward);
    assert_eq!(state.route(), Route::Masked);
    assert_eq!(state.pop_group(), PopGroup::DrawMasked);
    assert_eq!(state.route(), Route::Canvas);
    assert_eq!(state.pop_group(), PopGroup::Restore(2));
    assert_eq!(state.pop_group(), PopGroup::Underflow);
    assert!(matches!(state.finish(), Err(SkiaError::Internal("pop_group underflow"))));
    assert!(state.finish().is_ok());
}

// The CPU renderer's format list, from the format table it reports.
#[test]
fn cpu_renderer_reports_supported_image_formats() {
    assert_eq!(
        supported_image_formats(),
        vec![
            ImageBufferFormat::Rgba8Unorm,
            ImageBufferFormat::Rgba8UnormSrgb,
            ImageBufferFormat::Bgra8Unorm,
            ImageBufferFormat::Bgra8UnormSrgb,
            ImageBufferFormat::Rgb10a2Unorm,
            ImageBufferFormat::Rgba16Unorm,
            ImageBufferFormat::Rgba16Float,
        ]
    );
}

// The CPU renderer's target check for a short row stride, and its error mapping.
#[test]
fn cpu_renderer_rejects_short_row_stride_as_target_error() {
    let mut data = vec![0; 4 * 4 * 4];
    let target = ImageBufferTarget {
        data: &mut data,
        width: 4,
        height: 4,
        bytes_per_row: 12,
        format: ImageBufferFormat::Rgba8Unorm,
    };
    let error = check_read_target(4, 4, &target).map_err(map_image_renderer_error).unwrap_err();
    assert!(matches!(
        error,
        ImageRendererError::Target(ImageTargetError::InvalidTarget(
            "image target row stride is smaller than the rendered width",
        ))
    ));
}

// The CPU renderer's target check for a short buffer, and its error mapping.
#[test]
fn cpu_renderer_rejects_short_buffer_as_target_error() {
    let mut data = vec![0; 15];
    let target = ImageBufferTarget {
        data: &mut data,
        width: 4,
        height: 4,
        bytes_per_row: 16,
        format: ImageBufferFormat::Rgba8Unorm,
    };
    let error = check_read_target(4, 4, &target).map_err(map_image_renderer_error).unwrap_err();
    assert!(matches!(error, ImageRendererError::Target(ImageTargetError::InvalidTargetBuffer)));
}

#[test]
fn read_targets_are_checked_in_order() {
    let mut data = vec![0; 128];
    let wrong_size = ImageBufferTarget { data: &mut data, width: 4, height: 5, bytes_per_row: 0, format: ImageBufferFormat::Rgba8Unorm };
    assert!(matches!(
        check_read_target(4, 4, &wrong_size),
        Err(SkiaError::Internal("image target dimensions do not match renderer output"))
    ));
    let mut data = vec![0; 128];
    let wide = ImageBufferTarget { data: &mut data, width: 4, height: 4, bytes_per_row: 32, format: ImageBufferFormat::Rgba16Float };
    assert!(matches!(check_read_target(4, 4, &wide), Ok(ColorType::RgbaF16)));
    let mut data = vec![0; 128];
    let narrow = ImageBufferTarget { data: &mut data, width: 4, height: 4, bytes_per_row: 31, format: ImageBufferFormat::Rgba16Unorm };
    assert!(matches!(check_read_target(4, 4, &narrow), Err(SkiaError::Internal("image target row stride is too small"))));
}

#[test]
fn skia_errors_map_to_shared_errors() {
    assert!(matches!(
        map_image_renderer_error(checked_size(u32::MAX, 1).unwrap_err()),
        ImageRendererError::Target(ImageTargetError::DimensionsTooLarge)
    ));
    assert!(matches!(
        map_image_renderer_error(SkiaError::InvalidScene(ValidateError::UnbalancedStacks)),
        ImageRendererError::Content(RenderContentError::InvalidScene(ValidateError::UnbalancedStacks))
    ));
    assert!(matches!(
        map_image_renderer_error(SkiaError::UnsupportedImageTargetFormat),
        ImageRendererError::Target(ImageTargetError::UnsupportedTargetFormat)
    ));
    assert!(matches!(map_image_renderer_error(SkiaError::Internal("read_pixels failed")), ImageRendererError::Backend(_)));
    assert!(matches!(
        map_image_renderer_error(SkiaError::Internal("image target dimensions do not match renderer output")),
        ImageRendererError::Target(ImageTargetError::InvalidTarget("image target dimensions do not match renderer output"))
    ));
    assert!(matches!(
        map_texture_renderer_error(SkiaError::UnsupportedGpuBackend),
        TextureRendererError::Target(TextureTargetError::UnsupportedGpuBackend)
    ));
    assert!(matches!(
        map_texture_renderer_error(SkiaError::CreateGpuContext("no context")),
        TextureRendererError::Target(TextureTargetError::CreateGpuContext("no context"))
    ));
    assert!(matches!(
        map_texture_renderer_error(checked_size(1, 0x8000_0000).unwrap_err()),
        TextureRendererError::Target(TextureTargetError::DimensionsTooLarge)
    ));
    assert!(matches!(map_texture_renderer_error(SkiaError::InvalidFontData), TextureRendererError::Backend(_)));
    assert!(matches!(
        map_readback_image_error(ReadbackError::BufferMap),
        ImageRendererError::Readback(imaging::render::GpuReadbackError::BufferMap)
    ));
}

#[test]
fn formats_map_to_skia_color_types() {
    assert!(matches!(color_type_for_image_buffer_format(ImageBufferFormat::Bgra8UnormSrgb), Ok(ColorType::Bgra8888)));
    assert!(matches!(color_type_for_image_buffer_format(ImageBufferFormat::Rgb10a2Unorm), Ok(ColorType::Rgba1010102)));
    assert!(matches!(color_type_for_texture_format(TextureFormat::Other), Err(SkiaError::UnsupportedGpuTextureFormat)));
    assert!(matches!(color_type_for_texture_format(TextureFormat::Rgba8UnormSrgb), Ok(ColorType::Srgba8888)));
    assert!(matches!(texture_format_for_image_buffer_format(ImageBufferFormat::Rgba16Unorm), Ok(TextureFormat::Rgba16Unorm)));
    assert!(image_buffer_format_is_srgb(ImageBufferFormat::Rgba8UnormSrgb));
    assert!(!image_buffer_format_is_srgb(ImageBufferFormat::Rgba8Unorm));
    assert_eq!(image_target_width_bytes(10, ImageBufferFormat::Rgba16Float), 80);
    assert!(matches!(checked_size(0x7fff_ffff, 0x7fff_ffff), Ok((0x7fff_ffff, 0x7fff_ffff))));
}

#[test]
fn blend_modes_follow_composition_then_mix() {
    assert_eq!(map_blend_mode(&BlendMode { mix: Mix::Normal, compose: Compose::SrcOver }), SkBlendMode::SrcOver);
    assert_eq!(map_blend_mode(&BlendMode { mix: Mix::Screen, compose: Compose::SrcOver }), SkBlendMode::Screen);
    assert_eq!(map_blend_mode(&BlendMode { mix: Mix::Screen, compose: Compose::Copy }), SkBlendMode::Src);
    assert_eq!(map_blend_mode(&BlendMode { mix: Mix::Hue, compose: Compose::PlusLighter }), SkBlendMode::Plus);
    assert_eq!(map_blend_mode(&BlendMode { mix: Mix::Normal, compose: Compose::DestAtop }), SkBlendMode::DstATop);
    assert_eq!(tile_mode_from_extend(Extend::Reflect), TileMode::Mirror);
    assert_eq!(filter_mode_from_quality(ImageQuality::High), FilterMode::Linear);
    assert_eq!(filter_mode_from_quality(ImageQuality::Low), FilterMode::Nearest);
}

#[test]
fn cache_config_builders_override_one_limit() {
    let config = SkiaCacheConfig::new();
    assert_eq!(config.font_cache_count_limit, 100);
    assert_eq!(config.typeface_cache_count_limit, 100);
    assert_eq!(config.resource_cache_total_bytes_limit, 10 * 1024 * 1024);
    assert_eq!(config.resource_cache_single_allocation_byte_limit, None);
    assert_eq!(config.image_cache_total_bytes_limit, 64 * 1024 * 1024);
    assert_eq!(config.mask_cache_total_bytes_limit, 64 * 1024 * 1024);
    let config = config
        .with_font_cache_count_limit(5)
        .with_typeface_cache_count_limit(6)
        .with_resource_cache_total_bytes_limit(7)
        .with_resource_cache_single_allocation_byte_limit(Some(8))
        .with_image_cache_total_bytes_limit(9)
        .with_mask_cache_total_bytes_limit(10);
    assert_eq!(config.font_cache_count_limit, 5);
    assert_eq!(config.typeface_cache_count_limit, 6);
    assert_eq!(config.resource_cache_total_bytes_limit, 7);
    assert_eq!(config.resource_cache_single_allocation_byte_limit, Some(8));
    assert_eq!(config.image_cache_total_bytes_limit, 9);
    assert_eq!(config.mask_cache_total_bytes_limit, 10);
}

fn mask_key(ptr: usize, width: i32, height: i32) -> imaging::skia_sink::MaskImageCacheKey {
    mask_image_cache_key(ptr, MaskMode::Alpha, identity(), 0.1_f64.to_bits(), width, height)
}

// A zero mask budget, applied to the shared mask cache.
#[test]
fn config_can_disable_realized_mask_retention() {
    let config = SkiaCacheConfig::new().with_mask_cache_total_bytes_limit(0);
    let mut images: ImageCache<u32> = ImageCache::default();
    let mut cache: MaskImageCache<u32> = MaskImageCache::new();
    apply_cache_budgets(&config, &mut images, &mut cache);
    let result: Result<u32, ()> = cache.get_or_render(mask_key(1, 64, 64), || Ok(3));
    assert_eq!(result, Ok(3));
    assert_eq!(cache.len(), 0);
}

#[test]
fn config_budgets_evict_existing_entries() {
    let mut images: ImageCache<u32> = ImageCache::default();
    let mut masks: MaskImageCache<u32> = MaskImageCache::new();
    for id in 0..3u64 {
        images.get_or_create(&imaging::image_cache::ImageDesc {
            blob_id: id,
            format: imaging::image_cache::ImageFormat::Rgba8,
            alpha_type: imaging::image_cache::ImageAlphaType::Alpha,
            width: 8,
            height: 8,
            data_len: 256,
        }, || Some(id as u32));
        masks.insert(mask_key(id as usize, 8, 8), id as u32);
    }
    let config = SkiaCacheConfig::new().with_image_cache_total_bytes_limit(512).with_mask_cache_total_bytes_limit(256);
    apply_cache_budgets(&config, &mut images, &mut masks);
    assert_eq!(images.len(), 2);
    assert_eq!(masks.len(), 1);
    assert_eq!(masks.get(mask_key(2, 8, 8)), Some(2));
}

// The renderer's mask reuse, through the mask cache it consults.
#[test]
fn render_scene_reuses_cached_masks_for_identical_scenes() {
    let mut cache: MaskImageCache<u32> = MaskImageCache::new();
    let first: Result<u32, ()> = cache.get_or_render(mask_key(1, 64, 64), || Ok(3));
    let second: Result<u32, ()> = cache.get_or_render(mask_key(1, 64, 64), || Ok(4));
    assert_eq!((first, second), (Ok(3), Ok(3)));
    assert_eq!(cache.len(), 1);
}

// The tolerance rule that decides when realized masks are dropped.
#[test]
fn changing_tolerance_clears_cached_masks() {
    let mut cache: MaskImageCache<u32> = MaskImageCache::new();
    let _: Result<u32, ()> = cache.get_or_render(mask_key(1, 64, 64), || Ok(3));
    assert_eq!(cache.len(), 1);
    if tolerance_change_clears_masks(0.1_f64.to_bits(), 0.25_f64.to_bits()) {
        cache.clear();
    }
    assert_eq!(cache.len(), 0);
    assert!(!tolerance_change_clears_masks(0.0_f64.to_bits(), (-0.0_f64).to_bits()));
    assert!(tolerance_change_clears_masks(f64::NAN.to_bits(), f64::NAN.to_bits()));
}

// Clearing realized masks, through the mask cache.
#[test]
fn clear_cached_masks_drops_realized_masks() {
    let mut cache: MaskImageCache<u32> = MaskImageCache::new();
    cache.insert(mask_key(1, 8, 8), 1);
    cache.insert(mask_key(2, 8, 8), 2);
    // replacing a mask keeps one entry per key
    cache.insert(mask_key(1, 8, 8), 3);
    assert_eq!(cache.len(), 2);
    assert_eq!(cache.get(mask_key(1, 8, 8)), Some(3));
    cache.clear();
    assert_eq!(cache.len(), 0);
    assert_eq!(cache.get(mask_key(1, 8, 8)), None);
}

#[test]
fn mask_cache_evicts_least_recently_used_masks() {
    let mut cache: MaskImageCache<u32> = MaskImageCache::new();
    cache.set_max_bytes(1024);
    cache.insert(mask_key(1, 8, 8), 1);
    cache.insert(mask_key(2, 8, 8), 2);
    cache.insert(mask_key(3, 8, 8), 3);
    cache.insert(mask_key(4, 8, 8), 4);
    assert_eq!(cache.get(mask_key(1, 8, 8)), Some(1));
    cache.insert(mask_key(5, 8, 8), 5);
    assert_eq!(cache.len(), 4);
    assert_eq!(cache.get(mask_key(2, 8, 8)), None);
    assert_eq!(cache.get(mask_key(1, 8, 8)), Some(1));
    let failed: Result<u32, &str> = cache.get_or_render(mask_key(9, 8, 8), || Err("no surface"));
    assert_eq!(failed, Err("no surface"));
    assert_eq!(cache.len(), 4);
}

#[test]
fn mask_charges_saturate_and_ignore_negative_sizes() {
    assert_eq!(approx_bytes(8, 8), 256);
    assert_eq!(approx_bytes(-3, 8), 0);
    assert_eq!(approx_bytes(8, -1), 0);
    assert_eq!(approx_bytes(i32::MAX, i32::MAX), (i32::MAX as usize) * (i32::MAX as usize) * 4);
}

#[test]
fn retained_keys_follow_the_transform_policy() {
    let scaled = LinearBits { a: 2.0_f64.to_bits(), b: 0, c: 0, d: 2.0_f64.to_bits() };
    assert_eq!(retained_image_cache_key_for_policy(7, None, identity()), None);
    assert_eq!(retained_image_cache_key_for_policy(7, Some(RetainedTransformPolicy::IdentityOnly), scaled), None);
    let negative_zero = LinearBits { a: ONE_BITS, b: (-0.0_f64).to_bits(), c: 0, d: ONE_BITS };
    assert_eq!(
        retained_image_cache_key_for_policy(7, Some(RetainedTransformPolicy::IdentityOnly), negative_zero).unwrap().linear_transform,
        identity()
    );
    assert_eq!(
        retained_image_cache_key_for_policy(7, Some(RetainedTransformPolicy::TranslationOnly), scaled).unwrap().linear_transform,
        identity()
    );
    let linear = retained_image_cache_key_for_policy(7, Some(RetainedTransformPolicy::Linear), scaled).unwrap();
    assert_eq!(linear.linear_transform, scaled);
    assert_eq!(linear.retained_id, 7);
}

#[test]
fn retained_images_are_swept_unless_used_or_manual() {
    let mut cache: RetainedImageCache<u32> = RetainedImageCache::new();
    let key = |id: u64| retained_image_cache_key_for_policy(id, Some(RetainedTransformPolicy::Linear), identity()).unwrap();
    cache.insert(key(1), 10, RetainedEvictionPolicy::UntilUnused);
    cache.insert(key(2), 20, RetainedEvictionPolicy::UntilUnused);
    cache.insert(key(3), 30, RetainedEvictionPolicy::Manual);
    cache.flip_mark();
    assert_eq!(cache.get(key(1)), Some(10));
    let rendered: Result<u32, ()> = cache.get_or_render(key(4), RetainedEvictionPolicy::UntilUnused, || Ok(40));
    assert_eq!(rendered, Ok(40));
    cache.evict_unmarked();
    assert_eq!(cache.len(), 3);
    assert_eq!(cache.get(key(2)), None);
    assert_eq!(cache.get(key(3)), Some(30));
    cache.flip_mark();
    cache.evict_unmarked();
    assert_eq!(cache.len(), 1);
    assert_eq!(cache.get(key(3)), Some(30));
    cache.clear();
    assert_eq!(cache.len(), 0);
}

#[test]
fn balanced_clip_and_group_stream_finishes_cleanly() {
    let mut state = StreamState::new();
    state.clip_pushed();
    state.push_direct_group(1);
    state.clip_pushed();
    assert_eq!(state.pop_clip(), PopClip::Restore);
    assert_eq!(state.pop_group(), PopGroup::Restore(1));
    assert_eq!(state.pop_clip(), PopClip::Restore);
    assert!(state.finish().is_ok());
}

#[test]
fn wrapped_textures_must_be_two_dimensional_and_single_sampled() {
    assert!(matches!(checked_texture_size(TextureDimension::D2, 1, 640, 480), Ok((640, 480))));
    assert!(matches!(
        checked_texture_size(TextureDimension::D3, 1, 640, 480),
        Err(SkiaError::Internal("Skia GPU renderer only supports 2D textures"))
    ));
    assert!(matches!(
        checked_texture_size(TextureDimension::D2, 4, 640, 480),
        Err(SkiaError::Internal("Skia GPU renderer only supports single-sampled textures"))
    ));
}

#[test]
fn gl_and_vulkan_formats_follow_the_texture_format() {
    assert!(matches!(gl_format_for_wgpu_texture_format(TextureFormat::Rgba8UnormSrgb), Ok(GlFormat::Srgb8Alpha8)));
    assert!(matches!(gl_format_for_wgpu_texture_format(TextureFormat::Bgra8UnormSrgb), Ok(GlFormat::Bgra8)));
    assert!(matches!(gl_format_for_wgpu_texture_format(TextureFormat::Rgba16Float), Ok(GlFormat::Rgba16F)));
    assert!(matches!(
        gl_format_for_wgpu_texture_format(TextureFormat::Other),
        Err(SkiaError::Internal("unsupported OpenGL wgpu texture format"))
    ));
    assert!(matches!(vk_format_for_wgpu_texture_format(TextureFormat::Bgra8UnormSrgb), Ok(VkFormat::B8G8R8A8Srgb)));
    assert!(matches!(
        vk_format_for_wgpu_texture_format(TextureFormat::Rgb10a2Unorm),
        Ok(VkFormat::A2B10G10R10UnormPack32)
    ));
    assert!(matches!(
        vk_format_for_wgpu_texture_format(TextureFormat::Other),
        Err(SkiaError::Internal("unsupported Vulkan wgpu texture format"))
    ));
}

#[test]
fn alpha_fill_and_gradient_tables() {
    assert_eq!(alpha_type_for_image_alpha_type(ImageAlphaType::Alpha), AlphaType::Unpremul);
    assert_eq!(alpha_type_for_image_alpha_type(ImageAlphaType::AlphaPremultiplied), AlphaType::Premul);
    assert_eq!(sk_path_fill_type_from_fill_rule(Fill::NonZero), PathFillType::Winding);
    assert_eq!(sk_path_fill_type_from_fill_rule(Fill::EvenOdd), PathFillType::EvenOdd);
    assert_eq!(gradient_shader_cs_from_cs_tag(ColorSpaceTag::LinearSrgb), GradientColorSpace::SrgbLinear);
    assert_eq!(gradient_shader_cs_from_cs_tag(ColorSpaceTag::Oklch), GradientColorSpace::OkLch);
    assert_eq!(gradient_shader_cs_from_cs_tag(ColorSpaceTag::XyzD65), GradientColorSpace::Srgb);
    assert_eq!(gradient_shader_cs_from_cs_tag(ColorSpaceTag::AcesCg), GradientColorSpace::Srgb);
    assert_eq!(gradient_shader_hue_method_from_hue_direction(HueDirection::Longer), HueMethod::Longer);
    assert_eq!(gradient_shader_hue_method_from_hue_direction(HueDirection::Decreasing), HueMethod::Decreasing);
    assert_eq!(gradient_shader_hue_method_from_hue_direction(HueDirection::Other), HueMethod::Shorter);
    assert_eq!(gradient_shader_cs_from_cs_tag(ColorSpaceTag::Other), GradientColorSpace::Srgb);
}

use imaging::image_cache::{image_byte_len, ImageAlphaType, ImageCache, ImageCacheKey, ImageDesc, ImageFormat, ImageRef, PictureCache};
use imaging::image_registry::{
    HybridImageRegistry, ImageDataKey, ImageKey, SceneImageKey, CachedSceneImage,
};
use imaging::skia_renderer::{apply_cache_budgets, SkiaCacheConfig};
use imaging::skia_sink::MaskImageCache;
use std::cell::Cell;

fn desc(blob_id: u64, width: u32, height: u32) -> ImageDesc {
    ImageDesc {
        blob_id,
        format: ImageFormat::Rgba8,
        alpha_type: ImageAlphaType::Alpha,
        width,
        height,
        data_len: (width * height * 4) as usize,
    }
}

fn image(bytes: [u8; 16]) -> (ImageDesc, [u8; 16]) {
    (desc(1, 2, 2), bytes)
}

#[test]
fn image_byte_len_uses_layout_size() {
    assert_eq!(image_byte_len(&desc(1, 3, 5)), 60);
    let mut odd = desc(1, 3, 5);
    odd.data_len = 7;
    assert_eq!(image_byte_len(&odd), 60);
    assert_eq!(image_byte_len(&desc(1, 0, 5)), 0);
    let mut huge = desc(1, 1, 1);
    huge.width = u32::MAX;
    huge.height = u32::MAX;
    huge.data_len = 5;
    assert_eq!(image_byte_len(&huge), 5);
}

// The renderer's image reuse, through the shared image cache it consults.
#[test]
fn render_scene_reuses_cached_images_for_identical_scenes() {
    let mut cache: ImageCache<u32> = ImageCache::new(1 << 20);
    let created = Cell::new(0);
    let image = desc(7, 4, 4);
    let first = cache.get_or_create(&image, || {
        created.set(created.get() + 1);
        Some(11)
    });
    let second = cache.get_or_create(&image, || {
        created.set(created.get() + 1);
        Some(22)
    });
    assert_eq!(first, Some(11));
    assert_eq!(second, Some(11));
    assert_eq!(created.get(), 1);
    assert_eq!(cache.len(), 1);
}

// Clearing realized images, through the shared image cache.
#[test]
fn clear_cached_images_drops_realized_images() {
    let mut cache: ImageCache<u32> = ImageCache::new(1 << 20);
    cache.get_or_create(&desc(1, 4, 4), || Some(1));
    cache.get_or_create(&desc(2, 4, 4), || Some(2));
    assert_eq!(cache.len(), 2);
    cache.clear();
    assert_eq!(cache.len(), 0);
}

// A zero image budget, applied to the shared image cache.
#[test]
fn config_can_disable_realized_image_retention() {
    let config = SkiaCacheConfig::new().with_image_cache_total_bytes_limit(0);
    let mut cache: ImageCache<u32> = ImageCache::default();
    let mut masks: MaskImageCache<u32> = MaskImageCache::new();
    apply_cache_budgets(&config, &mut cache, &mut masks);
    assert_eq!(cache.get_or_create(&desc(3, 8, 8), || Some(5)), Some(5));
    assert_eq!(cache.len(), 0);
}

#[test]
fn image_cache_evicts_least_recently_used_first() {
    let mut cache: ImageCache<u32> = ImageCache::new(200);
    cache.get_or_create(&desc(1, 5, 5), || Some(1));
    cache.get_or_create(&desc(2, 5, 5), || Some(2));
    // touch the first image so the second becomes least recently used
    assert_eq!(cache.get_or_create(&desc(1, 5, 5), || Some(9)), Some(1));
    cache.get_or_create(&desc(3, 5, 5), || Some(3));
    assert_eq!(cache.len(), 2);
    assert_eq!(cache.get_or_create(&desc(1, 5, 5), || Some(9)), Some(1));
    assert_eq!(cache.get_or_create(&desc(3, 5, 5), || Some(9)), Some(3));
    assert_eq!(cache.get_or_create(&desc(2, 5, 5), || Some(8)), Some(8));
}

#[test]
fn image_cache_failed_creation_leaves_cache_unchanged() {
    let mut cache: ImageCache<u32> = ImageCache::new(1000);
    assert_eq!(cache.get_or_create(&desc(1, 2, 2), || None), None);
    assert_eq!(cache.len(), 0);
}

#[test]
fn image_cache_budget_can_shrink() {
    let mut cache: ImageCache<u32> = ImageCache::default();
    for id in 0..4u64 {
        cache.get_or_create(&desc(id, 10, 10), || Some(id as u32));
    }
    assert_eq!(cache.len(), 4);
    cache.set_max_bytes(800);
    assert_eq!(cache.len(), 2);
    assert_eq!(cache.get_or_create(&desc(3, 10, 10), || Some(99)), Some(3));
}

#[test]
fn image_cache_keys_distinguish_layout() {
    let a = ImageCacheKey::new(&desc(1, 2, 2));
    let mut other = desc(1, 2, 2);
    other.format = ImageFormat::Bgra8;
    assert_ne!(a, ImageCacheKey::new(&other));
    other = desc(1, 2, 2);
    other.alpha_type = ImageAlphaType::AlphaPremultiplied;
    assert_ne!(a, ImageCacheKey::new(&other));
    assert_eq!(a, ImageCacheKey::new(&desc(1, 2, 2)));
}

#[test]
fn picture_cache_prunes_dead_pictures_and_reuses_live_ones() {
    let mut cache: PictureCache<bool, u32> = PictureCache::new();
    let live = |alive: &bool| *alive;
    assert_eq!(cache.get_or_create(1, true, &live, || Some(10)), Some(10));
    assert_eq!(cache.get_or_create(2, false, &live, || Some(20)), Some(20));
    assert_eq!(cache.len(), 2);
    assert_eq!(cache.get_or_create(1, true, &live, || Some(99)), Some(10));
    assert_eq!(cache.len(), 1);
    assert_eq!(cache.get_or_create(3, true, &live, || None), None);
    assert_eq!(cache.len(), 1);
    cache.clear();
    assert_eq!(cache.len(), 0);
}

#[test]
fn image_key_dedupes_equivalent_image_contents() {
    let (a_desc, a) = image([1, 2, 3, 4, 9, 8, 7, 6, 5, 4, 3, 2, 10, 11, 12, 13]);
    let (b_desc, b) = image([1, 2, 3, 4, 9, 8, 7, 6, 5, 4, 3, 2, 10, 11, 12, 13]);
    assert_eq!(ImageDataKey::derive(&a_desc, &a), ImageDataKey::derive(&b_desc, &b));
}

#[test]
fn image_key_distinguishes_metadata_changes() {
    let (mut a_desc, a) = image([1, 2, 3, 4, 9, 8, 7, 6, 5, 4, 3, 2, 10, 11, 12, 13]);
    let mut b_desc = a_desc;
    b_desc.alpha_type = ImageAlphaType::AlphaPremultiplied;
    assert_ne!(ImageDataKey::derive(&a_desc, &a), ImageDataKey::derive(&b_desc, &a));

    a_desc.format = ImageFormat::Bgra8;
    assert_ne!(ImageDataKey::derive(&a_desc, &a), ImageDataKey::derive(&b_desc, &a));
}

#[test]
fn scene_image_key_distinguishes_scene_identity() {
    let a = SceneImageKey {
        scene_image_id: 1,
        width: 2,
        height: 3,
        tolerance: 0.1_f64.to_bits(),
    };
    let b = SceneImageKey {
        scene_image_id: 2,
        ..a
    };
    assert_ne!(a, b);
}

fn registry_with_two_images() -> (HybridImageRegistry<(), ()>, ImageKey, ImageKey) {
    let (a_desc, a) = image([1, 2, 3, 4, 9, 8, 7, 6, 5, 4, 3, 2, 10, 11, 12, 13]);
    let (b_desc, b) = image([13, 12, 11, 10, 2, 3, 4, 5, 6, 7, 8, 9, 4, 3, 2, 1]);
    let a_key = ImageKey::Raster(ImageDataKey::derive(&a_desc, &a));
    let b_key = ImageKey::Raster(ImageDataKey::derive(&b_desc, &b));
    let mut registry: HybridImageRegistry<(), ()> = HybridImageRegistry::new(1000 * 1000 * 1000);
    let (mut session, dropped) = registry.begin_upload_session(0.1_f64.to_bits());
    assert!(dropped.is_empty());
    session.resolve(&mut registry, a_key, &a_desc, || (0, true));
    session.resolve(&mut registry, b_key, &b_desc, || (1, true));
    assert!(session.finish(&mut registry, true).is_empty());
    (registry, a_key, b_key)
}

#[test]
fn image_touch() {
    let (mut registry, _, _) = registry_with_two_images();
    assert_eq!(registry.charged_bytes(), 32);

    // Touching the last entry is a no-op
    assert_eq!(registry.touch(1), 1);
    assert_eq!(registry.live_image(1).unwrap().id, 1);

    // Touching the first entry moves it to the end
    assert_eq!(registry.touch(0), 1);
    assert_eq!(registry.live_image(1).unwrap().id, 0);

    // An index past the resident images changes nothing
    assert_eq!(registry.touch(5), 5);
    assert_eq!(registry.live_image(0).unwrap().id, 1);
    assert_eq!(registry.live_image(1).unwrap().id, 0);
}

#[test]
fn resident_images_are_reused_across_sessions() {
    let (mut registry, a_key, _) = registry_with_two_images();
    let (a_desc, _) = image([1, 2, 3, 4, 9, 8, 7, 6, 5, 4, 3, 2, 10, 11, 12, 13]);
    let (mut session, _) = registry.begin_upload_session(0.1_f64.to_bits());
    let found = session.resolve(&mut registry, a_key, &a_desc, || panic!("resident image uploaded again"));
    assert_eq!(found.id, 0);
    assert_eq!(registry.live_image(1).unwrap().id, 0);
    let again = session.resolve(&mut registry, a_key, &a_desc, || panic!("resident image uploaded again"));
    assert_eq!(again, found);
    assert!(session.finish(&mut registry, true).is_empty());
    assert_eq!(registry.live_len(), 2);
}

#[test]
fn upload_session_prefers_pending_then_resident_images() {
    let (mut registry, a_key, b_key) = registry_with_two_images();
    let (mut session, dropped) = registry.begin_upload_session(0.25_f64.to_bits());
    assert!(dropped.is_empty());
    // a resident hit becomes the most recently used image
    assert_eq!(session.find_uploaded(&mut registry, &a_key).unwrap().id, 0);
    assert_eq!(registry.live_image(1).unwrap().id, 0);
    let scene_key = session.scene_key(5, 8, 8);
    assert_eq!(scene_key, ImageKey::Scene(SceneImageKey { scene_image_id: 5, width: 8, height: 8, tolerance: 0.25_f64.to_bits() }));
    assert!(session.find_uploaded(&mut registry, &scene_key).is_none());
    let uploaded = session.resolve(&mut registry, scene_key, &desc(9, 8, 8), || (7, false));
    assert_eq!(uploaded.bytes, 256);
    assert_eq!((uploaded.id, uploaded.may_have_opacities, uploaded.key), (7, false, scene_key));
    assert_eq!(session.find_uploaded(&mut registry, &scene_key), Some(uploaded));
    // a second resolve reuses the upload
    let again = session.resolve(&mut registry, scene_key, &desc(9, 8, 8), || panic!("uploaded twice"));
    assert_eq!(again, uploaded);
    assert_eq!(session.find_uploaded(&mut registry, &b_key).unwrap().id, 1);
    // a failed encode hands the uploads back for destruction
    assert_eq!(session.finish(&mut registry, false), vec![7]);
    assert_eq!(registry.live_len(), 2);
}

#[test]
fn sessions_begin_by_evicting_over_budget_images() {
    let mut registry: HybridImageRegistry<(), ()> = HybridImageRegistry::new(100);
    let (mut session, _) = registry.begin_upload_session(0);
    for id in 0..3u32 {
        session.resolve(
            &mut registry,
            ImageKey::Scene(SceneImageKey { scene_image_id: id as u64, width: 4, height: 4, tolerance: 0 }),
            &desc(id as u64, 4, 4),
            || (id, true),
        );
    }
    assert!(session.finish(&mut registry, true).is_empty());
    // the budget is only enforced when the next session begins
    assert_eq!(registry.live_len(), 3);
    assert_eq!(registry.charged_bytes(), 192);
    let (_session, dropped) = registry.begin_upload_session(0);
    assert_eq!(dropped, vec![0, 1]);
    assert_eq!(registry.live_len(), 1);
    assert_eq!(registry.charged_bytes(), 64);
    assert_eq!(registry.clear(), vec![2]);
    assert_eq!(registry.live_len(), 0);
}

#[test]
fn scene_images_are_found_by_identity_size_and_tolerance() {
    let mut registry: HybridImageRegistry<bool, u32> = HybridImageRegistry::default();
    let live = |alive: &bool| *alive;
    registry.cache_scene_image(CachedSceneImage { scene_image: true, scene_image_id: 4, width: 8, height: 8, tolerance: 0.1_f64.to_bits(), image: 40 });
    registry.cache_scene_image(CachedSceneImage { scene_image: false, scene_image_id: 5, width: 8, height: 8, tolerance: 0.1_f64.to_bits(), image: 50 });
    assert_eq!(registry.cached_scene_image(&live, 4, 8, 8, 0.1_f64.to_bits()), Some(40));
    assert_eq!(registry.cached_scene_image(&live, 4, 8, 9, 0.1_f64.to_bits()), None);
    assert_eq!(registry.cached_scene_image(&live, 4, 8, 8, 0.2_f64.to_bits()), None);
    // the realization of a dropped scene image is pruned
    assert_eq!(registry.cached_scene_image(&live, 5, 8, 8, 0.1_f64.to_bits()), None);
    registry.cache_scene_image(CachedSceneImage { scene_image: true, scene_image_id: 6, width: 1, height: 1, tolerance: 0.0_f64.to_bits(), image: 60 });
    assert_eq!(registry.cached_scene_image(&live, 6, 1, 1, (-0.0_f64).to_bits()), Some(60));
}

#[test]
fn image_payloads_report_their_size_and_key() {
    let pixels = [7u8; 24];
    let raster = ImageRef::Raster { desc: desc(3, 2, 3), data: &pixels };
    let scene = ImageRef::Scene { id: 9, width: 5, height: 6 };
    assert_eq!((raster.width(), raster.height()), (2, 3));
    assert_eq!((scene.width(), scene.height()), (5, 6));
    let mut registry: HybridImageRegistry<(), ()> = HybridImageRegistry::new(1000);
    let (session, _) = registry.begin_upload_session(0.5_f64.to_bits());
    assert_eq!(session.image_key(&raster), ImageKey::Raster(ImageDataKey::derive(&desc(3, 2, 3), &pixels)));
    assert_eq!(
        session.image_key(&scene),
        ImageKey::Scene(SceneImageKey { scene_image_id: 9, width: 5, height: 6, tolerance: 0.5_f64.to_bits() })
    );
    // contents, not blob identity, decide a raster key
    let other = ImageRef::Raster { desc: desc(4, 2, 3), data: &pixels };
    assert_eq!(session.image_key(&raster), session.image_key(&other));
}

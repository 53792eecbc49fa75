use imaging::font_cache::{BaseTypefaceKey, FontCache, FontKey, TypefaceKey};
use std::cell::Cell;

fn face(id: u64) -> BaseTypefaceKey {
    BaseTypefaceKey { font_data_id: id, font_index: 0 }
}

fn typeface_key(id: u64, coords: Vec<i16>) -> TypefaceKey {
    TypefaceKey { base: face(id), normalized_coords: coords }
}

fn font_key(id: u64, coords: Vec<i16>, size: f32) -> FontKey {
    FontKey { typeface: typeface_key(id, coords), font_size_bits: size.to_bits(), hint: false }
}

#[test]
fn fonts_are_resolved_once_per_key() {
    let mut cache: FontCache<String, String> = FontCache::new();
    let loads = Cell::new(0);
    let sized = Cell::new(0);
    for _ in 0..3 {
        let font = cache.font_for_key(
            &font_key(1, vec![], 12.0),
            || {
                loads.set(loads.get() + 1);
                Some("face1".to_string())
            },
            |t| Some(t),
            |t| {
                sized.set(sized.get() + 1);
                format!("{t}@12")
            },
        );
        assert_eq!(font.as_deref(), Some("face1@12"));
    }
    assert_eq!((loads.get(), sized.get()), (1, 1));
    assert_eq!(cache.counts(), (1, 0, 1));

    // another size reuses the base typeface
    let font = cache.font_for_key(&font_key(1, vec![], 18.0), || None, |t| Some(t), |t| format!("{t}@18"));
    assert_eq!(font.as_deref(), Some("face1@18"));
    assert_eq!(cache.counts(), (1, 0, 2));
}

#[test]
fn variation_coordinates_make_distinct_typefaces() {
    let mut cache: FontCache<String, String> = FontCache::new();
    let varied = cache.typeface_for_key(&typeface_key(2, vec![100, -5]), || Some("face2".to_string()), |t| Some(format!("{t}+wght")));
    assert_eq!(varied.as_deref(), Some("face2+wght"));
    let again = cache.typeface_for_key(&typeface_key(2, vec![100, -5]), || None, |_| None);
    assert_eq!(again.as_deref(), Some("face2+wght"));
    let other = cache.typeface_for_key(&typeface_key(2, vec![100, -6]), || None, |t| Some(format!("{t}+opsz")));
    assert_eq!(other.as_deref(), Some("face2+opsz"));
    let plain = cache.typeface_for_key(&typeface_key(2, vec![]), || None, |_| None);
    assert_eq!(plain.as_deref(), Some("face2"));
    assert_eq!(cache.counts(), (1, 2, 0));
}

#[test]
fn failed_loads_keep_nothing() {
    let mut cache: FontCache<String, String> = FontCache::new();
    assert_eq!(cache.font_for_key(&font_key(3, vec![1], 10.0), || None, |t| Some(t), |t| t), None);
    assert_eq!(cache.counts(), (0, 0, 0));
    assert_eq!(
        cache.font_for_key(&font_key(3, vec![1], 10.0), || Some("face3".to_string()), |_| None, |t| t),
        None
    );
    assert_eq!(cache.counts(), (1, 0, 0));
    assert_eq!(cache.base_typeface(face(3), || None).as_deref(), Some("face3"));
    cache.clear();
    assert_eq!(cache.counts(), (0, 0, 0));
}

#[test]
fn typeface_keys_compare_by_value() {
    assert!(typeface_key(1, vec![1, 2]).same_as(&typeface_key(1, vec![1, 2])));
    assert!(!typeface_key(1, vec![1, 2]).same_as(&typeface_key(1, vec![1])));
    assert!(!typeface_key(1, vec![1, 2]).same_as(&typeface_key(2, vec![1, 2])));
    assert!(font_key(1, vec![3], 9.0).same_as(&font_key(1, vec![3], 9.0).duplicate()));
    assert!(!font_key(1, vec![3], 9.0).same_as(&font_key(1, vec![3], 9.5)));
}

//! Realized-image caching shared by the raster and GPU backends.
//!
//! An [`ImageCache`] keeps realized images keyed by the identity and layout of their source
//! image, in least-recently-used order, within a byte budget: entries are dropped from the
//! least recently used end until the bytes in use fit the budget again.

use vstd::prelude::*;
use std::collections::VecDeque;
use crate::image_registry::kept;
use crate::lru::{Charged, evict_front, lemma_evict_front, lemma_total_charge_nonneg, lemma_total_charge_push, lemma_touch_keeps_entries, lemma_appended_entry_survives_last, total_charge, touch_seq};

verus! {

/// Pixel layout of a raster image.
#[derive(Copy, Clone, Debug, PartialEq, Eq, Structural, Hash)]
pub enum ImageFormat {
    /// 32-bit RGBA with 8-bit channels.
    Rgba8,
    /// 32-bit BGRA with 8-bit channels.
    Bgra8,
}

/// Handling of the alpha channel of a raster image.
#[derive(Copy, Clone, Debug, PartialEq, Eq, Structural, Hash)]
pub enum ImageAlphaType {
    /// Straight (unpremultiplied) alpha.
    Alpha,
    /// Premultiplied alpha.
    AlphaPremultiplied,
}

/// What the caches read of a raster image: the identity of its pixel blob, its layout and the
/// length of its pixel data.
#[derive(Copy, Clone, Debug, PartialEq, Eq, Structural)]
pub struct ImageDesc {
    /// Identity of the shared pixel blob.
    pub blob_id: u64,
    /// Pixel layout.
    pub format: ImageFormat,
    /// Alpha handling.
    pub alpha_type: ImageAlphaType,
    /// Width in pixels.
    pub width: u32,
    /// Height in pixels.
    pub height: u32,
    /// Length of the pixel data in bytes.
    pub data_len: usize,
}

/// A borrowed image payload: raster pixels, or a retained scene rendered at a natural size.
#[derive(Copy, Clone, Debug)]
pub enum ImageRef<'a> {
    /// Raster image: its description and pixel bytes.
    Raster { desc: ImageDesc, data: &'a [u8] },
    /// Retained scene content with an explicit natural size.
    Scene { id: u64, width: u32, height: u32 },
}

impl ImageRef<'_> {
    /// The natural width of the image in pixels.
    pub fn width(&self) -> (r: u32)
        ensures
            r == match self {
                ImageRef::Raster { desc, .. } => desc.width,
                ImageRef::Scene { width, .. } => *width,
            },
    {
        match self {
            ImageRef::Raster { desc, .. } => desc.width,
            ImageRef::Scene { width, .. } => *width,
        }
    }

    /// The natural height of the image in pixels.
    pub fn height(&self) -> (r: u32)
        ensures
            r == match self {
                ImageRef::Raster { desc, .. } => desc.height,
                ImageRef::Scene { height, .. } => *height,
            },
    {
        match self {
            ImageRef::Raster { desc, .. } => desc.height,
            ImageRef::Scene { height, .. } => *height,
        }
    }
}

/// Bytes needed for a `width` x `height` image in `format`, or `None` when the computation
/// `4 * width * height` overflows `usize` (the factor `4 * width` is checked first).
pub open spec fn format_size_in_bytes(format: ImageFormat, width: u32, height: u32) -> Option<usize> {
    if 4 * width <= usize::MAX && 4 * width * height <= usize::MAX {
        Some((4 * width * height) as usize)
    } else {
        None
    }
}

/// Calls `peniko::ImageFormat::size_in_bytes`, which multiplies `4`, the width and the height
/// with checked arithmetic in that order and returns `None` on overflow; the contract states
/// that computation.
#[verifier::external_body]
fn size_in_bytes(format: ImageFormat, width: u32, height: u32) -> (r: Option<usize>)
    ensures
        r == format_size_in_bytes(format, width, height),
{
    let format = match format {
        ImageFormat::Rgba8 => peniko::ImageFormat::Rgba8,
        ImageFormat::Bgra8 => peniko::ImageFormat::Bgra8,
    };
    format.size_in_bytes(width, height)
}

/// Bytes an image is charged against a cache budget: its layout's size, or the length of its
/// pixel data when that size overflows.
pub open spec fn image_charge(image: ImageDesc) -> usize {
    match format_size_in_bytes(image.format, image.width, image.height) {
        Some(n) => n,
        None => image.data_len,
    }
}

/// Bytes an image is charged against a cache budget.
pub fn image_byte_len(image: &ImageDesc) -> (r: usize)
    ensures
        r == image_charge(*image),
{
    match size_in_bytes(image.format, image.width, image.height) {
        Some(n) => n,
        None => image.data_len,
    }
}

/// Identity of a realized image: the source blob, its layout and its size.
#[derive(Copy, Clone, Debug, PartialEq, Eq, Structural, Hash)]
pub struct ImageCacheKey {
    pub blob_id: u64,
    pub format: ImageFormat,
    pub alpha_type: ImageAlphaType,
    pub width: u32,
    pub height: u32,
}

/// The key under which a realization of `image` is cached.
pub open spec fn cache_key(image: ImageDesc) -> ImageCacheKey {
    ImageCacheKey {
        blob_id: image.blob_id,
        format: image.format,
        alpha_type: image.alpha_type,
        width: image.width,
        height: image.height,
    }
}

impl ImageCacheKey {
    /// The key under which a realization of `image` is cached.
    pub fn new(image: &ImageDesc) -> (r: ImageCacheKey)
        ensures
            r == cache_key(*image),
    {
        ImageCacheKey {
            blob_id: image.blob_id,
            format: image.format,
            alpha_type: image.alpha_type,
            width: image.width,
            height: image.height,
        }
    }
}

/// One cached realization and the bytes it is charged.
#[derive(Debug)]
pub struct CachedImage<V> {
    pub key: ImageCacheKey,
    pub image: V,
    pub bytes: usize,
}

impl<V> Charged for CachedImage<V> {
    open spec fn charge(&self) -> usize {
        self.bytes
    }
}

/// No key occurs twice in `entries`.
pub open spec fn keys_distinct<V>(entries: Seq<CachedImage<V>>) -> bool {
    forall|i: int, j: int| 0 <= i < j < entries.len() ==> entries[i].key != entries[j].key
}

/// The position of `key` in `entries`, if it is there.
pub open spec fn find_key<V>(entries: Seq<CachedImage<V>>, key: ImageCacheKey) -> Option<int> {
    if exists|i: int| 0 <= i < entries.len() && entries[i].key == key {
        Some(choose|i: int| 0 <= i < entries.len() && entries[i].key == key)
    } else {
        None
    }
}

/// Size-bounded cache of realized images, least recently used first.
#[derive(Debug)]
pub struct ImageCache<V> {
    bytes_used: usize,
    max_bytes: usize,
    entries: VecDeque<CachedImage<V>>,
}

/// Default byte budget of an image cache: 64 MiB.
pub const DEFAULT_IMAGE_CACHE_BYTES: usize = 67_108_864;

/// After a miss creates `value` for `image` and the cache is evicted down to its budget, a
/// later lookup of the same image finds `value` as the most recently used entry, unless the
/// budget left no entry at all.
pub proof fn lemma_created_image_is_found<V>(entries: Seq<CachedImage<V>>, image: ImageDesc, value: V, used: usize, max: usize)
    requires
        keys_distinct(entries),
        find_key(entries, cache_key(image)) is None,
        used <= total_charge(entries.push(CachedImage { key: cache_key(image), image: value, bytes: image_charge(image) })),
    ensures
        ({
            let rest = evict_front(entries.push(CachedImage { key: cache_key(image), image: value, bytes: image_charge(image) }), used, max).0;
            rest.len() > 0 ==> {
                &&& find_key(rest, cache_key(image)) == Some(rest.len() - 1)
                &&& rest[rest.len() - 1].image == value
            }
        }),
{
    let e = CachedImage { key: cache_key(image), image: value, bytes: image_charge(image) };
    let pushed = entries.push(e);
    lemma_appended_entry_survives_last(entries, e, used, max);
    lemma_evict_front(pushed, used, max);
    let rest = evict_front(pushed, used, max).0;
    if rest.len() > 0 {
        assert(keys_distinct(pushed)) by {
            assert forall|i: int, j: int| 0 <= i < j < pushed.len() implies pushed[i].key != pushed[j].key by {
                if j == entries.len() {
                    assert(pushed[i] == entries[i]);
                }
            }
        }
        let k = pushed.len() - rest.len();
        assert forall|i: int, j: int| 0 <= i < j < rest.len() implies rest[i].key != rest[j].key by {
            assert(rest[i] == pushed[k + i]);
            assert(rest[j] == pushed[k + j]);
        }
        assert(rest[rest.len() - 1].key == cache_key(image));
        let c = choose|i: int| 0 <= i < rest.len() && rest[i].key == cache_key(image);
        assert(c == rest.len() - 1);
    }
}

impl<V> ImageCache<V> {
    /// Cached entries, least recently used first.
    pub closed spec fn entries(&self) -> Seq<CachedImage<V>> {
        self.entries@
    }

    /// Bytes currently charged.
    pub closed spec fn bytes_used(&self) -> usize {
        self.bytes_used
    }

    /// The byte budget.
    pub closed spec fn max_bytes(&self) -> usize {
        self.max_bytes
    }

    /// Keys are distinct and the bytes in use never exceed the entries' total charge (they are
    /// below it only after a saturating addition).
    pub closed spec fn well_formed(&self) -> bool {
        &&& keys_distinct(self.entries@)
        &&& self.bytes_used <= total_charge(self.entries@)
    }

    /// An empty cache with the given byte budget.
    pub fn new(max_bytes: usize) -> (r: ImageCache<V>)
        ensures
            r.well_formed(),
            r.entries().len() == 0,
            r.bytes_used() == 0,
            r.max_bytes() == max_bytes,
    {
        ImageCache { bytes_used: 0, max_bytes, entries: VecDeque::new() }
    }

    /// Number of cached entries.
    pub fn len(&self) -> (r: usize)
        ensures
            r == self.entries().len(),
    {
        self.entries.len()
    }

    /// Drop every entry.
    pub fn clear(&mut self)
        ensures
            final(self).well_formed(),
            final(self).entries().len() == 0,
            final(self).bytes_used() == 0,
            final(self).max_bytes() == old(self).max_bytes(),
    {
        self.bytes_used = 0;
        self.entries.clear();
    }

    /// Drop least recently used entries while more bytes than the budget are in use.
    fn evict_to_budget(&mut self)
        requires
            old(self).well_formed(),
        ensures
            final(self).well_formed(),
            (final(self).entries(), final(self).bytes_used())
                == evict_front(old(self).entries(), old(self).bytes_used(), old(self).max_bytes()),
            final(self).max_bytes() == old(self).max_bytes(),
    {
        let ghost target = evict_front(self.entries@, self.bytes_used, self.max_bytes);
        proof {
            lemma_evict_front(self.entries@, self.bytes_used, self.max_bytes);
        }
        loop
            invariant
                self.well_formed(),
                self.max_bytes == old(self).max_bytes,
                evict_front(self.entries@, self.bytes_used, self.max_bytes) == target,
            ensures
                self.well_formed(),
                self.max_bytes == old(self).max_bytes,
                (self.entries@, self.bytes_used) == target,
            decreases self.entries@.len(),
        {
            if self.bytes_used <= self.max_bytes {
                break;
            }
            match self.entries.pop_front() {
                Some(oldest) => {
                    proof {
                        lemma_total_charge_nonneg(self.entries@);
                    }
                    self.bytes_used = self.bytes_used.saturating_sub(oldest.bytes);
                },
                None => {
                    break;
                },
            }
        }
    }

    /// Change the byte budget and evict down to it.
    pub fn set_max_bytes(&mut self, max_bytes: usize)
        requires
            old(self).well_formed(),
        ensures
            final(self).well_formed(),
            final(self).max_bytes() == max_bytes,
            (final(self).entries(), final(self).bytes_used())
                == evict_front(old(self).entries(), old(self).bytes_used(), max_bytes),
    {
        self.max_bytes = max_bytes;
        self.evict_to_budget();
    }

    /// Move the entry at `index` to the most recently used end.
    fn touch(&mut self, index: usize)
        requires
            old(self).well_formed(),
            index < old(self).entries().len(),
        ensures
            final(self).well_formed(),
            final(self).entries() == touch_seq(old(self).entries(), index as int),
            final(self).bytes_used() == old(self).bytes_used(),
            final(self).max_bytes() == old(self).max_bytes(),
    {
        let ghost s = self.entries@;
        proof {
            lemma_touch_keeps_entries(s, index as int);
        }
        if index == self.entries.len() - 1 {
            assert(touch_seq(s, index as int) =~= s);
            return;
        }
        match self.entries.remove(index) {
            Some(entry) => {
                self.entries.push_back(entry);
            },
            None => {},
        }
        assert forall|i: int, j: int| 0 <= i < j < self.entries@.len() implies
            self.entries@[i].key != self.entries@[j].key by {
            let a = if i < index { i } else { i + 1 };
            let b = if j == s.len() - 1 { index as int } else if j < index { j } else { j + 1 };
            assert(self.entries@[i] == s[a]);
            assert(self.entries@[j] == s[b]);
        }
    }

    /// Position of `key` among the entries, if cached.
    fn position(&self, key: &ImageCacheKey) -> (r: Option<usize>)
        requires
            self.well_formed(),
        ensures
            r == (match find_key(self.entries(), *key) {
                Some(i) => Some(i as usize),
                None => None::<usize>,
            }),
            r matches Some(i) ==> i < self.entries().len() && self.entries()[i as int].key == *key,
    {
        let mut i: usize = 0;
        while i < self.entries.len()
            invariant
                i <= self.entries@.len(),
                keys_distinct(self.entries@),
                forall|j: int| 0 <= j < i ==> self.entries@[j].key != *key,
            decreases self.entries@.len() - i,
        {
            if self.entries[i].key == *key {
                assert(self.entries@[i as int].key == *key);
                let ghost c = choose|j: int| 0 <= j < self.entries@.len() && self.entries@[j].key == *key;
                assert(c == i);
                return Some(i);
            }
            i = i + 1;
        }
        None
    }
}

impl<V> Default for ImageCache<V> {
    /// An empty cache with the default 64 MiB budget.
    fn default() -> (r: ImageCache<V>)
        ensures
            r.well_formed(),
            r.entries().len() == 0,
            r.bytes_used() == 0,
            r.max_bytes() == DEFAULT_IMAGE_CACHE_BYTES,
    {
        Self::new(DEFAULT_IMAGE_CACHE_BYTES)
    }
}

impl<V: Clone> ImageCache<V> {
    /// Return the realization cached for `image`, or create, cache and return one.
    ///
    /// A hit moves the entry to the most recently used end. A miss calls `create`; when it
    /// produces a realization, the entry is appended, charged [`image_byte_len`] bytes
    /// (saturating) and the cache is evicted down to its budget, which may drop the new entry
    /// itself. A realization that could not be created leaves the cache unchanged.
    pub fn get_or_create<F: FnOnce() -> Option<V>>(&mut self, image: &ImageDesc, create: F) -> (r: Option<V>)
        requires
            old(self).well_formed(),
            call_requires(create, ()),
        ensures
            final(self).well_formed(),
            final(self).max_bytes() == old(self).max_bytes(),
            match find_key(old(self).entries(), cache_key(*image)) {
                Some(i) => {
                    &&& r matches Some(v) && cloned(old(self).entries()[i].image, v)
                    &&& final(self).entries() == touch_seq(old(self).entries(), i)
                    &&& final(self).bytes_used() == old(self).bytes_used()
                },
                None => exists|c: Option<V>| #[trigger] call_ensures(create, (), c) && match c {
                    None => {
                        &&& r is None
                        &&& final(self).entries() == old(self).entries()
                        &&& final(self).bytes_used() == old(self).bytes_used()
                    },
                    Some(v) => {
                        &&& r matches Some(w) && cloned(v, w)
                        &&& (final(self).entries(), final(self).bytes_used()) == evict_front(
                            old(self).entries().push(CachedImage { key: cache_key(*image), image: v, bytes: image_charge(*image) }),
                            old(self).bytes_used().saturating_add(image_charge(*image)),
                            old(self).max_bytes(),
                        )
                    },
                },
            },
    {
        let key = ImageCacheKey::new(image);
        match self.position(&key) {
            Some(index) => {
                let cached = self.entries[index].image.clone();
                self.touch(index);
                Some(cached)
            },
            None => {
                let created = create();
                match created {
                    None => None,
                    Some(value) => {
                        let bytes = image_byte_len(image);
                        let result = value.clone();
                        let ghost s = self.entries@;
                        let entry = CachedImage { key, image: value, bytes };
                        proof {
                            lemma_total_charge_push(s, entry);
                            lemma_total_charge_nonneg(s);
                        }
                        self.bytes_used = self.bytes_used.saturating_add(bytes);
                        self.entries.push_back(entry);
                        assert forall|i: int, j: int| 0 <= i < j < self.entries@.len() implies
                            self.entries@[i].key != self.entries@[j].key by {
                            if j == s.len() {
                                assert(self.entries@[i] == s[i]);
                            }
                        }
                        self.evict_to_budget();
                        Some(result)
                    },
                }
            },
        }
    }
}

/// A realized picture of a scene picture, kept while the scene picture is alive.
#[derive(Debug)]
pub struct CachedPicture<W, V> {
    /// Identity of the scene picture.
    pub picture_id: u64,
    /// Weak handle to the scene picture.
    pub scene_picture: W,
    /// The realized picture.
    pub picture: V,
}

/// The first position in `entries` of the picture `picture_id`, if any.
pub open spec fn first_picture_index<W, V>(entries: Seq<CachedPicture<W, V>>, picture_id: u64) -> Option<int> {
    if exists|i: int| 0 <= i < entries.len() && entries[i].picture_id == picture_id {
        Some(choose|i: int| 0 <= i < entries.len() && entries[i].picture_id == picture_id
            && forall|j: int| 0 <= j < i ==> entries[j].picture_id != picture_id)
    } else {
        None
    }
}

/// Realized pictures of the scene pictures that are still alive, least recently used first.
#[derive(Debug)]
pub struct PictureCache<W, V> {
    entries: VecDeque<CachedPicture<W, V>>,
}

impl<W, V> PictureCache<W, V> {
    /// Cached pictures, least recently used first.
    pub closed spec fn entries(&self) -> Seq<CachedPicture<W, V>> {
        self.entries@
    }

    /// An empty cache.
    pub fn new() -> (r: PictureCache<W, V>)
        ensures
            r.entries().len() == 0,
    {
        PictureCache { entries: VecDeque::new() }
    }

    /// Number of cached pictures.
    pub fn len(&self) -> (r: usize)
        ensures
            r == self.entries().len(),
    {
        self.entries.len()
    }

    /// Drop every picture.
    pub fn clear(&mut self)
        ensures
            final(self).entries().len() == 0,
    {
        self.entries.clear();
    }

    /// Drop the pictures whose scene picture is no longer alive, as `is_live` reports.
    fn prune_dead<L: Fn(&W) -> bool>(&mut self, is_live: &L)
        requires
            forall|w: &W| call_requires(*is_live, (w,)),
        ensures
            exists|keep: Seq<bool>| {
                &&& keep.len() == old(self).entries().len()
                &&& forall|i: int| 0 <= i < keep.len() ==> call_ensures(*is_live, (&old(self).entries()[i].scene_picture,), #[trigger] keep[i])
                &&& final(self).entries() == kept(old(self).entries(), keep)
            },
    {
        let ghost s0 = self.entries@;
        let mut survivors: VecDeque<CachedPicture<W, V>> = VecDeque::new();
        let ghost mut keep: Seq<bool> = Seq::empty();
        while self.entries.len() > 0
            invariant
                forall|w: &W| call_requires(*is_live, (w,)),
                self.entries@.len() <= s0.len(),
                self.entries@ == s0.subrange(s0.len() - self.entries@.len(), s0.len() as int),
                keep.len() == s0.len() - self.entries@.len(),
                forall|i: int| 0 <= i < keep.len() ==> call_ensures(*is_live, (&s0[i].scene_picture,), #[trigger] keep[i]),
                survivors@ == kept(s0.take(keep.len() as int), keep),
            decreases self.entries@.len(),
        {
            let ghost before = self.entries@;
            match self.entries.pop_front() {
                Some(entry) => {
                    let k: Ghost<int> = Ghost(s0.len() - before.len());
                    proof {
                        assert(s0[k@] == entry);
                    }
                    let alive = is_live(&entry.scene_picture);
                    let ghost old_keep = keep;
                    proof {
                        keep = keep.push(alive);
                        assert(s0.take(k@ + 1).drop_last() =~= s0.take(k@));
                        assert(keep.drop_last() =~= old_keep);
                        assert(self.entries@ =~= s0.subrange(s0.len() - self.entries@.len(), s0.len() as int));
                    }
                    if alive {
                        survivors.push_back(entry);
                    }
                },
                None => {},
            }
        }
        proof {
            assert(s0.take(s0.len() as int) =~= s0);
        }
        self.entries = survivors;
    }
}

impl<W, V: Clone> PictureCache<W, V> {
    /// Return the realized picture of scene picture `picture_id`, or create, cache and return
    /// one.
    ///
    /// Pictures of scene pictures that are no longer alive (as `is_live` reports) are dropped
    /// first. A hit becomes the most recently used entry; a picture created by `create` is
    /// appended with the weak handle `scene_picture`. A picture that could not be created
    /// leaves the pruned cache as it is.
    #[verifier::loop_isolation(false)]
    pub fn get_or_create<L: Fn(&W) -> bool, F: FnOnce() -> Option<V>>(
        &mut self,
        picture_id: u64,
        scene_picture: W,
        is_live: &L,
        create: F,
    ) -> (r: Option<V>)
        requires
            forall|w: &W| call_requires(*is_live, (w,)),
            call_requires(create, ()),
        ensures
            exists|keep: Seq<bool>| #![trigger kept(old(self).entries(), keep)] {
                let pruned = kept(old(self).entries(), keep);
                &&& keep.len() == old(self).entries().len()
                &&& forall|i: int| 0 <= i < keep.len() ==> call_ensures(*is_live, (&old(self).entries()[i].scene_picture,), #[trigger] keep[i])
                &&& match first_picture_index(pruned, picture_id) {
                    Some(i) => (r matches Some(v) && cloned(pruned[i].picture, v))
                        && final(self).entries() == touch_seq(pruned, i),
                    None => exists|c: Option<V>| #[trigger] call_ensures(create, (), c) && match c {
                        None => r is None && final(self).entries() == pruned,
                        Some(v) => (r matches Some(w) && cloned(v, w))
                            && final(self).entries() == pruned.push(CachedPicture { picture_id, scene_picture, picture: v }),
                    },
                }
            },
    {
        self.prune_dead(is_live);
        let ghost pruned = self.entries@;
        let mut i: usize = 0;
        while i < self.entries.len()
            invariant
                i <= self.entries@.len(),
                self.entries@ == pruned,
                forall|j: int| 0 <= j < i ==> self.entries@[j].picture_id != picture_id,
            decreases self.entries@.len() - i,
        {
            if self.entries[i].picture_id == picture_id {
                let ghost c = choose|k: int| 0 <= k < pruned.len() && pruned[k].picture_id == picture_id
                    && forall|j: int| 0 <= j < k ==> pruned[j].picture_id != picture_id;
                assert(pruned[i as int].picture_id == picture_id);
                assert(c == i) by {
                    if c > i {
                        assert(pruned[i as int].picture_id != picture_id);
                    }
                }
                let cached = self.entries[i].picture.clone();
                if i != self.entries.len() - 1 {
                    match self.entries.remove(i) {
                        Some(entry) => {
                            self.entries.push_back(entry);
                        },
                        None => {},
                    }
                } else {
                    assert(touch_seq(pruned, i as int) =~= pruned);
                }
                return Some(cached);
            }
            i = i + 1;
        }
        match create() {
            None => None,
            Some(picture) => {
                let result = picture.clone();
                self.entries.push_back(CachedPicture { picture_id, scene_picture, picture });
                Some(result)
            },
        }
    }
}

} // verus!

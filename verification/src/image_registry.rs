//! Bookkeeping for images uploaded to a hybrid GPU renderer's atlas.
//!
//! The registry keeps the images uploaded in earlier frames (least recently used first) and the
//! realizations of scene images. An upload session collects the images uploaded while one
//! scene is encoded; when the session finishes they join the registry, or, when encoding
//! failed, they are handed back for destruction. Over-budget images are evicted when a session
//! begins, so no image referenced by the scene being encoded is destroyed under it.
//!
//! GPU work (uploading, destroying, submitting) is done by the caller: the registry says which
//! images to destroy and which keys are already resident.

use vstd::prelude::*;
use std::collections::VecDeque;
use std::hash::{DefaultHasher, Hasher};
use vstd::std_specs::hash::DefaultHasherAdditionalSpecFns;
use crate::float_bits::{f64_bits_eq, f64_eq};
use crate::image_cache::{ImageAlphaType, ImageDesc, ImageFormat, ImageRef, image_byte_len, image_charge};
use crate::lru::{
    Charged, evict_front, evicted_prefix, lemma_evict_front, lemma_total_charge_nonneg,
    lemma_total_charge_push, lemma_touch_keeps_entries, total_charge, touch_seq,
};

verus! {

/// Identity of raster image contents: layout, size and a hash of the pixel bytes.
#[derive(Copy, Clone, Debug, PartialEq, Eq, Structural, Hash)]
pub struct ImageDataKey {
    pub format: ImageFormat,
    pub alpha_type: ImageAlphaType,
    pub width: u32,
    pub height: u32,
    pub data_hash: u64,
}

/// The key of a raster image with layout `image` and pixel bytes `data`: the bytes are hashed
/// with a fresh [`DefaultHasher`] in one write.
pub open spec fn image_data_key(image: ImageDesc, data: Seq<u8>) -> ImageDataKey {
    ImageDataKey {
        format: image.format,
        alpha_type: image.alpha_type,
        width: image.width,
        height: image.height,
        data_hash: DefaultHasher::spec_finish(seq![data]),
    }
}

impl ImageDataKey {
    /// Derive the key of a raster image from its layout and pixel bytes.
    pub fn derive(image: &ImageDesc, data: &[u8]) -> (r: ImageDataKey)
        ensures
            r == image_data_key(*image, data@),
    {
        let mut hasher = DefaultHasher::new();
        hasher.write(data);
        let data_hash = hasher.finish();
        proof {
            assert(hasher@ =~= seq![data@]);
        }
        ImageDataKey {
            format: image.format,
            alpha_type: image.alpha_type,
            width: image.width,
            height: image.height,
            data_hash,
        }
    }
}

/// Raster images with the same layout and the same pixel bytes share a key, whatever their
/// blob identity or data length; images that differ in format, alpha handling or size never do.
pub proof fn lemma_image_key_depends_on_content(a: ImageDesc, b: ImageDesc, da: Seq<u8>, db: Seq<u8>)
    ensures
        (a.format == b.format && a.alpha_type == b.alpha_type && a.width == b.width && a.height == b.height && da == db)
            ==> image_data_key(a, da) == image_data_key(b, db),
        (a.format != b.format || a.alpha_type != b.alpha_type || a.width != b.width || a.height != b.height)
            ==> image_data_key(a, da) != image_data_key(b, db),
{
}

/// Identity of a realized scene image: the scene image, its size and the tolerance (binary64
/// bits) it was realized with.
#[derive(Copy, Clone, Debug, PartialEq, Eq, Structural, Hash)]
pub struct SceneImageKey {
    pub scene_image_id: u64,
    pub width: u32,
    pub height: u32,
    pub tolerance: u64,
}

/// Identity of an uploaded image.
#[derive(Copy, Clone, Debug, PartialEq, Eq, Structural, Hash)]
pub enum ImageKey {
    Raster(ImageDataKey),
    Scene(SceneImageKey),
}

/// An image resident in the renderer's atlas.
#[derive(Copy, Clone, Debug, PartialEq, Eq, Structural)]
pub struct RegisteredImage {
    /// Identity of the image contents.
    pub key: ImageKey,
    /// The renderer's handle for the upload.
    pub id: u32,
    /// Whether the uploaded pixels may be translucent.
    pub may_have_opacities: bool,
    /// Bytes the upload is charged.
    pub bytes: usize,
}

impl Charged for RegisteredImage {
    open spec fn charge(&self) -> usize {
        self.bytes
    }
}

/// A realization of a scene image, kept while the scene image is alive.
#[derive(Debug)]
pub struct CachedSceneImage<W, I> {
    /// Weak handle to the scene image.
    pub scene_image: W,
    pub scene_image_id: u64,
    pub width: u32,
    pub height: u32,
    /// Tolerance used for the realization (binary64 bits).
    pub tolerance: u64,
    /// The realized image.
    pub image: I,
}

/// The first position in `images` whose key is `key`, if any.
pub open spec fn first_key_index(images: Seq<RegisteredImage>, key: ImageKey) -> Option<int> {
    if exists|i: int| 0 <= i < images.len() && images[i].key == key {
        Some(choose|i: int| 0 <= i < images.len() && images[i].key == key
            && forall|j: int| 0 <= j < i ==> images[j].key != key)
    } else {
        None
    }
}

/// No two images of `images` share a key.
pub open spec fn keys_distinct(images: Seq<RegisteredImage>) -> bool {
    forall|i: int, j: int| 0 <= i < j < images.len() ==> #[trigger] images[i].key != #[trigger] images[j].key
}

/// No image of `a` shares a key with an image of `b`.
pub open spec fn keys_disjoint(a: Seq<RegisteredImage>, b: Seq<RegisteredImage>) -> bool {
    forall|i: int, j: int| 0 <= i < a.len() && 0 <= j < b.len() ==> #[trigger] a[i].key != #[trigger] b[j].key
}

/// The image already uploaded for `key`: the first of this session's uploads with that key,
/// else the first resident image with it.
pub open spec fn uploaded_image(pending: Seq<RegisteredImage>, live: Seq<RegisteredImage>, key: ImageKey) -> Option<RegisteredImage> {
    match first_key_index(pending, key) {
        Some(p) => Some(pending[p]),
        None => match first_key_index(live, key) {
            Some(i) => Some(live[i]),
            None => None,
        },
    }
}

/// The resident images after looking `key` up: a resident hit (with no upload of this session
/// in front of it) becomes the most recently used image.
pub open spec fn live_after_lookup(pending: Seq<RegisteredImage>, live: Seq<RegisteredImage>, key: ImageKey) -> Seq<RegisteredImage> {
    match first_key_index(pending, key) {
        Some(_) => live,
        None => match first_key_index(live, key) {
            Some(i) => touch_seq(live, i),
            None => live,
        },
    }
}

/// In images with distinct keys, the image at `k` is the first with its key.
pub proof fn lemma_first_key_index_of_distinct(images: Seq<RegisteredImage>, k: int)
    requires
        keys_distinct(images),
        0 <= k < images.len(),
    ensures
        first_key_index(images, images[k].key) == Some(k),
{
    let key = images[k].key;
    assert(images[k].key == key);
    let c = choose|i: int| 0 <= i < images.len() && images[i].key == key
        && forall|j: int| 0 <= j < i ==> images[j].key != key;
    assert(0 <= k < images.len() && images[k].key == key && forall|j: int| 0 <= j < k ==> images[j].key != key) by {
        assert forall|j: int| 0 <= j < k implies images[j].key != key by {
            assert(images[j].key != images[k].key);
        }
    }
    if c != k {
        if c < k {
            assert(images[c].key != images[k].key);
        } else {
            assert(images[k].key != images[c].key);
        }
    }
}

/// Moving an image to the most recently used end keeps keys distinct.
pub proof fn lemma_touch_keeps_keys_distinct(images: Seq<RegisteredImage>, i: int)
    requires
        keys_distinct(images),
        0 <= i < images.len(),
    ensures
        keys_distinct(touch_seq(images, i)),
        forall|j: int| 0 <= j < touch_seq(images, i).len() ==> exists|m: int| 0 <= m < images.len()
            && #[trigger] touch_seq(images, i)[j] == images[m],
{
    let t = touch_seq(images, i);
    let n = images.len();
    assert(t.len() == n);
    // position in `images` of position `j` of `t`
    assert forall|j: int| 0 <= j < n implies t[j] == images[if j < i { j } else if j < n - 1 { j + 1 } else { i }] by {
    }
    assert forall|a: int, b: int| 0 <= a < b < t.len() implies #[trigger] t[a].key != #[trigger] t[b].key by {
        let ia = if a < i { a } else if a < n - 1 { a + 1 } else { i };
        let ib = if b < i { b } else if b < n - 1 { b + 1 } else { i };
        assert(t[a] == images[ia]);
        assert(t[b] == images[ib]);
        assert(ia != ib);
        if ia < ib {
            assert(images[ia].key != images[ib].key);
        } else {
            assert(images[ib].key != images[ia].key);
        }
    }
    assert forall|j: int| 0 <= j < t.len() implies exists|m: int| 0 <= m < images.len() && #[trigger] t[j] == images[m] by {
        let m = if j < i { j } else if j < n - 1 { j + 1 } else { i };
        assert(t[j] == images[m]);
    }
}

/// Joining two key-distinct, key-disjoint sequences keeps keys distinct.
pub proof fn lemma_concat_keys_distinct(a: Seq<RegisteredImage>, b: Seq<RegisteredImage>)
    requires
        keys_distinct(a),
        keys_distinct(b),
        keys_disjoint(a, b),
    ensures
        keys_distinct(a + b),
{
    let c = a + b;
    assert forall|i: int, j: int| 0 <= i < j < c.len() implies #[trigger] c[i].key != #[trigger] c[j].key by {
        if j < a.len() {
            assert(c[i] == a[i] && c[j] == a[j]);
        } else if i < a.len() {
            assert(c[i] == a[i] && c[j] == b[j - a.len()]);
        } else {
            assert(c[i] == b[i - a.len()] && c[j] == b[j - a.len()]);
            assert(b[i - a.len()].key != b[j - a.len()].key);
        }
    }
}

/// An image is uploaded once and then reused: after a resolve of `key` (its outcome as
/// [`HybridImageUploadSession::resolve`] states it, from this session's uploads `pending0` and
/// the resident images `live0`), resolving `key` again finds the same image already uploaded,
/// so it uploads nothing and records nothing, and leaves the resident images as they are.
pub proof fn lemma_resolved_image_is_reused(
    pending0: Seq<RegisteredImage>,
    live0: Seq<RegisteredImage>,
    key: ImageKey,
    r: RegisteredImage,
    pending1: Seq<RegisteredImage>,
    live1: Seq<RegisteredImage>,
)
    requires
        keys_distinct(live0),
        live1 == live_after_lookup(pending0, live0, key),
        match uploaded_image(pending0, live0, key) {
            Some(found) => r == found && pending1 == pending0,
            None => r.key == key && pending1 == pending0.push(r),
        },
    ensures
        uploaded_image(pending1, live1, key) == Some(r),
        live_after_lookup(pending1, live1, key) == live1,
{
    match first_key_index(pending0, key) {
        Some(p) => {},
        None => {
            assert(forall|i: int| 0 <= i < pending0.len() ==> pending0[i].key != key);
            match first_key_index(live0, key) {
                Some(i) => {
                    let c = choose|i: int| 0 <= i < live0.len() && live0[i].key == key
                        && forall|j: int| 0 <= j < i ==> live0[j].key != key;
                    assert(0 <= c < live0.len() && live0[c].key == key);
                    lemma_touch_keeps_entries(live0, i);
                    lemma_touch_keeps_keys_distinct(live0, i);
                    let n = live1.len();
                    assert(live1[n - 1] == live0[i]);
                    lemma_first_key_index_of_distinct(live1, n - 1);
                    assert(touch_seq(live1, n - 1) =~= live1);
                },
                None => {
                    let n = pending0.len() as int;
                    assert(pending1[n] == r);
                    assert(pending1[n].key == key);
                    let c = choose|i: int| 0 <= i < pending1.len() && pending1[i].key == key
                        && forall|j: int| 0 <= j < i ==> pending1[j].key != key;
                    assert(0 <= n < pending1.len() && pending1[n].key == key
                        && forall|j: int| 0 <= j < n ==> pending1[j].key != key) by {
                        assert forall|j: int| 0 <= j < n implies pending1[j].key != key by {
                            assert(pending1[j] == pending0[j]);
                        }
                    }
                    if c < n {
                        assert(pending1[c] == pending0[c]);
                    }
                },
            }
        },
    }
}

/// `used` after adding the charge of each image of `images` in order, saturating.
pub open spec fn add_charges(used: usize, images: Seq<RegisteredImage>) -> usize
    decreases images.len(),
{
    if images.len() == 0 {
        used
    } else {
        add_charges(used, images.drop_last()).saturating_add(images.last().bytes)
    }
}

/// The handles of `images`, in order.
pub open spec fn image_ids(images: Seq<RegisteredImage>) -> Seq<u32> {
    images.map_values(|r: RegisteredImage| r.id)
}

/// `entries` restricted to the positions where `keep` holds, in order.
pub open spec fn kept<T>(entries: Seq<T>, keep: Seq<bool>) -> Seq<T>
    decreases entries.len(),
{
    if entries.len() == 0 || keep.len() == 0 {
        Seq::empty()
    } else if keep.last() {
        kept(entries.drop_last(), keep.drop_last()).push(entries.last())
    } else {
        kept(entries.drop_last(), keep.drop_last())
    }
}

/// The position of the realization of scene image `id` at `width` x `height` and a tolerance
/// that compares equal to `tolerance`, if cached.
pub open spec fn scene_image_matches<W, I>(entry: CachedSceneImage<W, I>, id: u64, width: u32, height: u32, tolerance: u64) -> bool {
    entry.scene_image_id == id && entry.width == width && entry.height == height && f64_eq(entry.tolerance, tolerance)
}

/// Pruning keeps an entry exactly when its liveness flag is set, in order: the kept entries
/// are the flagged ones.
pub proof fn lemma_kept_contains<T>(entries: Seq<T>, keep: Seq<bool>, i: int)
    requires
        keep.len() == entries.len(),
        0 <= i < entries.len(),
        keep[i],
    ensures
        kept(entries, keep).contains(entries[i]),
    decreases entries.len(),
{
    let n = entries.len();
    if i == n - 1 {
        assert(kept(entries, keep) == kept(entries.drop_last(), keep.drop_last()).push(entries.last()));
        let k = kept(entries.drop_last(), keep.drop_last());
        assert(k.push(entries.last())[k.len() as int] == entries[i]);
    } else {
        lemma_kept_contains(entries.drop_last(), keep.drop_last(), i);
        let k = kept(entries.drop_last(), keep.drop_last());
        assert(entries.drop_last()[i] == entries[i]);
        let m = choose|m: int| 0 <= m < k.len() && k[m] == entries[i];
        if keep.last() {
            assert(k.push(entries.last())[m] == entries[i]);
        }
    }
}

/// Every kept entry is an entry.
pub proof fn lemma_kept_subset<T>(entries: Seq<T>, keep: Seq<bool>, x: T)
    requires
        kept(entries, keep).contains(x),
    ensures
        entries.contains(x),
    decreases entries.len(),
{
    if entries.len() > 0 && keep.len() > 0 {
        let k = kept(entries.drop_last(), keep.drop_last());
        let m = choose|m: int| 0 <= m < kept(entries, keep).len() && kept(entries, keep)[m] == x;
        if keep.last() && m == k.len() {
            assert(entries[entries.len() - 1] == x);
        } else {
            assert(k[m] == x);
            lemma_kept_subset(entries.drop_last(), keep.drop_last(), x);
            let j = choose|j: int| 0 <= j < entries.drop_last().len() && entries.drop_last()[j] == x;
            assert(entries[j] == x);
        }
    }
}

/// A realized scene image whose scene image is alive, and which is the only realization
/// matching a lookup, is what the lookup finds: scene images are realized once and then
/// reused.
pub proof fn lemma_live_realization_is_found<W, I>(entries: Seq<CachedSceneImage<W, I>>, keep: Seq<bool>, i: int, id: u64, width: u32, height: u32, tolerance: u64)
    requires
        keep.len() == entries.len(),
        0 <= i < entries.len(),
        keep[i],
        scene_image_matches(entries[i], id, width, height, tolerance),
        forall|j: int| 0 <= j < entries.len() && j != i ==> !scene_image_matches(entries[j], id, width, height, tolerance),
    ensures
        exists|m: int| 0 <= m < kept(entries, keep).len() && #[trigger] kept(entries, keep)[m] == entries[i],
        forall|m: int| 0 <= m < kept(entries, keep).len()
            && scene_image_matches(#[trigger] kept(entries, keep)[m], id, width, height, tolerance)
            ==> kept(entries, keep)[m] == entries[i],
{
    lemma_kept_contains(entries, keep, i);
    let k = kept(entries, keep);
    assert forall|m: int| 0 <= m < k.len() && scene_image_matches(#[trigger] k[m], id, width, height, tolerance)
        implies k[m] == entries[i] by {
        assert(k.contains(k[m]));
        lemma_kept_subset(entries, keep, k[m]);
        let j = choose|j: int| 0 <= j < entries.len() && entries[j] == k[m];
        assert(j == i);
    }
}

/// A cached realization answers a lookup only for its own scene image and size: no entry
/// matches lookups for two different scene images, two different widths or two different
/// heights.
pub proof fn lemma_realization_matches_one_request<W, I>(
    entry: CachedSceneImage<W, I>,
    id1: u64, width1: u32, height1: u32, tolerance1: u64,
    id2: u64, width2: u32, height2: u32, tolerance2: u64,
)
    requires
        scene_image_matches(entry, id1, width1, height1, tolerance1),
        scene_image_matches(entry, id2, width2, height2, tolerance2),
    ensures
        id1 == id2,
        width1 == width2,
        height1 == height2,
        id1 == entry.scene_image_id,
        width1 == entry.width,
        height1 == entry.height,
{
}

/// Default byte budget of the registry: 64 MiB.
pub const DEFAULT_REGISTRY_BYTES: usize = 67_108_864;

/// Images uploaded to a hybrid renderer and realized scene images.
#[derive(Debug)]
pub struct HybridImageRegistry<W, I> {
    live: VecDeque<RegisteredImage>,
    scene_images: VecDeque<CachedSceneImage<W, I>>,
    bytes_used: usize,
    max_bytes: usize,
}

/// The images uploaded during one upload session.
#[derive(Debug)]
pub struct HybridImageUploadSession {
    tolerance: u64,
    pending: Vec<RegisteredImage>,
}

/// Find the first image of `images` with `key`.
fn find_in_pending(images: &Vec<RegisteredImage>, key: &ImageKey) -> (r: Option<usize>)
    ensures
        match r {
            Some(i) => i < images@.len() && images@[i as int].key == *key && first_key_index(images@, *key) == Some(i as int),
            None => first_key_index(images@, *key) is None,
        },
{
    let mut i: usize = 0;
    while i < images.len()
        invariant
            i <= images@.len(),
            forall|j: int| 0 <= j < i ==> images@[j].key != *key,
        decreases images@.len() - i,
    {
        if images[i].key == *key {
            let ghost c = choose|k: int| 0 <= k < images@.len() && images@[k].key == *key
                && forall|j: int| 0 <= j < k ==> images@[j].key != *key;
            assert(images@[i as int].key == *key);
            assert(c == i) by {
                if c < i {
                } else if c > i {
                    assert(images@[i as int].key != *key);
                }
            }
            return Some(i);
        }
        i = i + 1;
    }
    None
}

impl<W, I> HybridImageRegistry<W, I> {
    /// Resident images, least recently used first.
    pub closed spec fn live(&self) -> Seq<RegisteredImage> {
        self.live@
    }

    /// Cached scene-image realizations, oldest first.
    pub closed spec fn scene_images(&self) -> Seq<CachedSceneImage<W, I>> {
        self.scene_images@
    }

    /// Bytes charged for resident images.
    pub closed spec fn bytes_used(&self) -> usize {
        self.bytes_used
    }

    /// The byte budget enforced when a session begins.
    pub closed spec fn max_bytes(&self) -> usize {
        self.max_bytes
    }

    /// The bytes in use never exceed the resident images' total charge, and no two resident
    /// images share a key.
    pub closed spec fn well_formed(&self) -> bool {
        &&& self.bytes_used <= total_charge(self.live@)
        &&& keys_distinct(self.live@)
    }

    /// An empty registry with the given byte budget.
    pub fn new(max_bytes: usize) -> (r: HybridImageRegistry<W, I>)
        ensures
            r.well_formed(),
            r.live().len() == 0,
            r.scene_images().len() == 0,
            r.bytes_used() == 0,
            r.max_bytes() == max_bytes,
    {
        HybridImageRegistry { live: VecDeque::new(), scene_images: VecDeque::new(), bytes_used: 0, max_bytes }
    }

    /// Number of resident images.
    pub fn live_len(&self) -> (r: usize)
        ensures
            r == self.live().len(),
    {
        self.live.len()
    }

    /// The resident image at `index`, least recently used first.
    pub fn live_image(&self, index: usize) -> (r: Option<RegisteredImage>)
        ensures
            r == (if index < self.live().len() { Some(self.live()[index as int]) } else { None }),
    {
        if index < self.live.len() {
            Some(self.live[index])
        } else {
            None
        }
    }

    /// Bytes charged for resident images.
    pub fn charged_bytes(&self) -> (r: usize)
        ensures
            r == self.bytes_used(),
    {
        self.bytes_used
    }

    /// Move the resident image at `index` to the most recently used end and return its new
    /// position. An index past the resident images changes nothing and is returned as is.
    pub fn touch(&mut self, index: usize) -> (r: usize)
        requires
            old(self).well_formed(),
            index < usize::MAX,
        ensures
            final(self).well_formed(),
            index < old(self).live().len() ==> {
                &&& r == old(self).live().len() - 1
                &&& final(self).live() == touch_seq(old(self).live(), index as int)
            },
            index >= old(self).live().len() ==> r == index && final(self).live() == old(self).live(),
            final(self).bytes_used() == old(self).bytes_used(),
            final(self).max_bytes() == old(self).max_bytes(),
            final(self).scene_images() == old(self).scene_images(),
    {
        let ghost s = self.live@;
        if index + 1 == self.live.len() {
            assert(touch_seq(s, index as int) =~= s);
            return index;
        }
        if index >= self.live.len() {
            return index;
        }
        proof {
            lemma_touch_keeps_entries(s, index as int);
            lemma_touch_keeps_keys_distinct(s, index as int);
        }
        match self.live.remove(index) {
            Some(image) => {
                self.live.push_back(image);
                self.live.len() - 1
            },
            None => index,
        }
    }

    /// Evict least recently used images while more bytes than the budget are in use, and
    /// return the handles of the evicted images, oldest first, for the caller to destroy.
    pub fn evict_to_budget(&mut self) -> (dropped: Vec<u32>)
        requires
            old(self).well_formed(),
        ensures
            final(self).well_formed(),
            (final(self).live(), final(self).bytes_used())
                == evict_front(old(self).live(), old(self).bytes_used(), old(self).max_bytes()),
            dropped@ == image_ids(evicted_prefix(old(self).live(), old(self).bytes_used(), old(self).max_bytes())),
            final(self).max_bytes() == old(self).max_bytes(),
            final(self).scene_images() == old(self).scene_images(),
    {
        let ghost s0 = self.live@;
        let ghost target = evict_front(self.live@, self.bytes_used, self.max_bytes);
        proof {
            lemma_evict_front(self.live@, self.bytes_used, self.max_bytes);
        }
        let mut dropped: Vec<u32> = Vec::new();
        loop
            invariant
                self.well_formed(),
                self.max_bytes == old(self).max_bytes,
                self.scene_images@ == old(self).scene_images@,
                evict_front(self.live@, self.bytes_used, self.max_bytes) == target,
                self.live@.len() <= s0.len(),
                self.live@ == s0.subrange(s0.len() - self.live@.len(), s0.len() as int),
                dropped@ == image_ids(s0.take(s0.len() - self.live@.len())),
            ensures
                self.well_formed(),
                self.max_bytes == old(self).max_bytes,
                self.scene_images@ == old(self).scene_images@,
                (self.live@, self.bytes_used) == target,
                dropped@ == image_ids(s0.take(s0.len() - self.live@.len())),
            decreases self.live@.len(),
        {
            if self.bytes_used <= self.max_bytes {
                break;
            }
            let ghost before = self.live@;
            match self.live.pop_front() {
                Some(oldest) => {
                    proof {
                        lemma_total_charge_nonneg(self.live@);
                        let k = s0.len() - before.len();
                        assert(s0[k] == oldest);
                        assert(s0.take(k + 1) =~= s0.take(k).push(oldest));
                        assert(self.live@ =~= s0.subrange(s0.len() - self.live@.len(), s0.len() as int));
                    }
                    self.bytes_used = self.bytes_used.saturating_sub(oldest.bytes);
                    dropped.push(oldest.id);
                    proof {
                        assert(dropped@ =~= image_ids(s0.take(s0.len() - self.live@.len())));
                    }
                },
                None => {
                    break;
                },
            }
        }
        dropped
    }

    /// Forget every resident image and return their handles, oldest first, for the caller to
    /// destroy. Cached scene-image realizations are kept.
    pub fn clear(&mut self) -> (dropped: Vec<u32>)
        ensures
            final(self).well_formed(),
            dropped@ == image_ids(old(self).live()),
            final(self).live().len() == 0,
            final(self).bytes_used() == 0,
            final(self).max_bytes() == old(self).max_bytes(),
            final(self).scene_images() == old(self).scene_images(),
    {
        let mut dropped: Vec<u32> = Vec::new();
        let ghost s0 = self.live@;
        while self.live.len() > 0
            invariant
                self.live@.len() <= s0.len(),
                self.live@ == s0.subrange(s0.len() - self.live@.len(), s0.len() as int),
                dropped@ == image_ids(s0.take(s0.len() - self.live@.len())),
                self.max_bytes == old(self).max_bytes,
                self.scene_images@ == old(self).scene_images@,
            decreases self.live@.len(),
        {
            let ghost before = self.live@;
            match self.live.pop_front() {
                Some(image) => {
                    proof {
                        let k = s0.len() - before.len();
                        assert(s0[k] == image);
                        assert(s0.take(k + 1) =~= s0.take(k).push(image));
                        assert(self.live@ =~= s0.subrange(s0.len() - self.live@.len(), s0.len() as int));
                    }
                    dropped.push(image.id);
                    proof {
                        assert(dropped@ =~= image_ids(s0.take(s0.len() - self.live@.len())));
                    }
                },
                None => {},
            }
        }
        proof {
            assert(s0.take(s0.len() as int) =~= s0);
        }
        self.bytes_used = 0;
        dropped
    }

    /// Start an upload session for a scene encoded at `tolerance` (binary64 bits). Images over
    /// budget are evicted first; their handles are returned for the caller to destroy.
    pub fn begin_upload_session(&mut self, tolerance: u64) -> (r: (HybridImageUploadSession, Vec<u32>))
        requires
            old(self).well_formed(),
        ensures
            final(self).well_formed(),
            (final(self).live(), final(self).bytes_used())
                == evict_front(old(self).live(), old(self).bytes_used(), old(self).max_bytes()),
            r.1@ == image_ids(evicted_prefix(old(self).live(), old(self).bytes_used(), old(self).max_bytes())),
            r.0.pending().len() == 0,
            r.0.tolerance() == tolerance,
            r.0.fits(final(self)),
            final(self).max_bytes() == old(self).max_bytes(),
            final(self).scene_images() == old(self).scene_images(),
    {
        let dropped = self.evict_to_budget();
        let session = HybridImageUploadSession { tolerance, pending: Vec::new() };
        assert(session.pending@.len() == 0);
        (session, dropped)
    }

    /// Drop the realizations whose scene image is no longer alive, as `is_live` reports.
    fn prune_scene_images<L: Fn(&W) -> bool>(&mut self, is_live: &L)
        requires
            forall|w: &W| call_requires(*is_live, (w,)),
        ensures
            exists|keep: Seq<bool>| {
                &&& keep.len() == old(self).scene_images().len()
                &&& forall|i: int| 0 <= i < keep.len() ==> call_ensures(*is_live, (&old(self).scene_images()[i].scene_image,), #[trigger] keep[i])
                &&& final(self).scene_images() == kept(old(self).scene_images(), keep)
            },
            final(self).live() == old(self).live(),
            final(self).bytes_used() == old(self).bytes_used(),
            final(self).max_bytes() == old(self).max_bytes(),
    {
        let ghost s0 = self.scene_images@;
        let mut survivors: VecDeque<CachedSceneImage<W, I>> = VecDeque::new();
        let ghost mut keep: Seq<bool> = Seq::empty();
        while self.scene_images.len() > 0
            invariant
                forall|w: &W| call_requires(*is_live, (w,)),
                self.scene_images@.len() <= s0.len(),
                self.scene_images@ == s0.subrange(s0.len() - self.scene_images@.len(), s0.len() as int),
                keep.len() == s0.len() - self.scene_images@.len(),
                forall|i: int| 0 <= i < keep.len() ==> call_ensures(*is_live, (&s0[i].scene_image,), #[trigger] keep[i]),
                survivors@ == kept(s0.take(keep.len() as int), keep),
                self.live@ == old(self).live@,
                self.bytes_used == old(self).bytes_used,
                self.max_bytes == old(self).max_bytes,
            decreases self.scene_images@.len(),
        {
            let ghost before = self.scene_images@;
            match self.scene_images.pop_front() {
                Some(entry) => {
                    let k: Ghost<int> = Ghost(s0.len() - before.len());
                    proof {
                        assert(s0[k@] == entry);
                    }
                    let alive = is_live(&entry.scene_image);
                    let ghost old_keep = keep;
                    proof {
                        keep = keep.push(alive);
                        assert(s0.take(k@ + 1).drop_last() =~= s0.take(k@));
                        assert(keep.drop_last() =~= old_keep);
                        assert(self.scene_images@ =~= s0.subrange(s0.len() - self.scene_images@.len(), s0.len() as int));
                    }
                    if alive {
                        survivors.push_back(entry);
                    }
                },
                None => {},
            }
        }
        proof {
            assert(s0.take(s0.len() as int) =~= s0);
        }
        self.scene_images = survivors;
    }
}

impl<W, I> Default for HybridImageRegistry<W, I> {
    /// An empty registry with the default 64 MiB budget.
    fn default() -> (r: HybridImageRegistry<W, I>)
        ensures
            r.well_formed(),
            r.live().len() == 0,
            r.scene_images().len() == 0,
            r.bytes_used() == 0,
            r.max_bytes() == DEFAULT_REGISTRY_BYTES,
    {
        Self::new(DEFAULT_REGISTRY_BYTES)
    }
}

impl<W, I: Clone> HybridImageRegistry<W, I> {
    /// The realization of scene image `id` at `width` x `height` for `tolerance`, if cached.
    ///
    /// Realizations whose scene image is no longer alive (as `is_live` reports) are dropped
    /// first.
    #[verifier::loop_isolation(false)]
    pub fn cached_scene_image<L: Fn(&W) -> bool>(
        &mut self,
        is_live: &L,
        id: u64,
        width: u32,
        height: u32,
        tolerance: u64,
    ) -> (r: Option<I>)
        requires
            forall|w: &W| call_requires(*is_live, (w,)),
        ensures
            exists|keep: Seq<bool>| {
                &&& keep.len() == old(self).scene_images().len()
                &&& forall|i: int| 0 <= i < keep.len() ==> call_ensures(*is_live, (&old(self).scene_images()[i].scene_image,), #[trigger] keep[i])
                &&& final(self).scene_images() == kept(old(self).scene_images(), keep)
            },
            final(self).live() == old(self).live(),
            final(self).bytes_used() == old(self).bytes_used(),
            final(self).max_bytes() == old(self).max_bytes(),
            match r {
                Some(image) => exists|i: int| 0 <= i < final(self).scene_images().len()
                    && scene_image_matches(#[trigger] final(self).scene_images()[i], id, width, height, tolerance)
                    && final(self).scene_images()[i].scene_image_id == id
                    && final(self).scene_images()[i].width == width
                    && final(self).scene_images()[i].height == height
                    && f64_eq(final(self).scene_images()[i].tolerance, tolerance)
                    && cloned(final(self).scene_images()[i].image, image)
                    && forall|j: int| 0 <= j < i ==> !scene_image_matches(final(self).scene_images()[j], id, width, height, tolerance),
                None => forall|i: int| 0 <= i < final(self).scene_images().len()
                    ==> !scene_image_matches(#[trigger] final(self).scene_images()[i], id, width, height, tolerance),
            },
    {
        self.prune_scene_images(is_live);
        let mut i: usize = 0;
        while i < self.scene_images.len()
            invariant
                i <= self.scene_images@.len(),
                forall|j: int| 0 <= j < i ==> !scene_image_matches(#[trigger] self.scene_images@[j], id, width, height, tolerance),
            decreases self.scene_images@.len() - i,
        {
            let entry = &self.scene_images[i];
            if entry.scene_image_id == id && entry.width == width && entry.height == height
                && f64_bits_eq(entry.tolerance, tolerance) {
                return Some(entry.image.clone());
            }
            i = i + 1;
        }
        None
    }

    /// Keep a new realization of a scene image.
    pub fn cache_scene_image(&mut self, entry: CachedSceneImage<W, I>)
        ensures
            final(self).scene_images() == old(self).scene_images().push(entry),
            final(self).live() == old(self).live(),
            final(self).bytes_used() == old(self).bytes_used(),
            final(self).max_bytes() == old(self).max_bytes(),
    {
        self.scene_images.push_back(entry);
    }
}

impl HybridImageUploadSession {
    /// Images uploaded during this session, in upload order.
    pub closed spec fn pending(&self) -> Seq<RegisteredImage> {
        self.pending@
    }

    /// The tolerance (binary64 bits) scenes are encoded at in this session.
    pub closed spec fn tolerance(&self) -> u64 {
        self.tolerance
    }

    /// This session's uploads can join `registry`: no two of them share a key, and none shares
    /// a key with a resident image.
    pub open spec fn fits<W, I>(&self, registry: &HybridImageRegistry<W, I>) -> bool {
        &&& keys_distinct(self.pending())
        &&& keys_disjoint(registry.live(), self.pending())
    }

    /// The key of a scene image of size `width` x `height`, realized at this session's
    /// tolerance.
    pub fn scene_key(&self, scene_image_id: u64, width: u32, height: u32) -> (r: ImageKey)
        ensures
            r == ImageKey::Scene(SceneImageKey { scene_image_id, width, height, tolerance: self.tolerance() }),
    {
        ImageKey::Scene(SceneImageKey { scene_image_id, width, height, tolerance: self.tolerance })
    }

    /// The key an image brush's payload is uploaded under: raster contents are keyed by layout
    /// and a hash of the pixel bytes, scene images by identity, size and this session's
    /// tolerance.
    pub fn image_key(&self, image: &ImageRef<'_>) -> (r: ImageKey)
        ensures
            r == match image {
                ImageRef::Raster { desc, data } => ImageKey::Raster(image_data_key(*desc, data@)),
                ImageRef::Scene { id, width, height } => ImageKey::Scene(SceneImageKey {
                    scene_image_id: *id,
                    width: *width,
                    height: *height,
                    tolerance: self.tolerance(),
                }),
            },
    {
        match image {
            ImageRef::Raster { desc, data } => ImageKey::Raster(ImageDataKey::derive(desc, data)),
            ImageRef::Scene { id, width, height } => self.scene_key(*id, *width, *height),
        }
    }

    /// The image already uploaded for `key`: first among this session's uploads, then among
    /// the resident images, where a hit becomes the most recently used image. `None` means the
    /// image has to be uploaded.
    #[verifier::loop_isolation(false)]
    pub fn find_uploaded<W, I>(&self, registry: &mut HybridImageRegistry<W, I>, key: &ImageKey) -> (r: Option<RegisteredImage>)
        requires
            old(registry).well_formed(),
        ensures
            final(registry).well_formed(),
            final(registry).bytes_used() == old(registry).bytes_used(),
            final(registry).max_bytes() == old(registry).max_bytes(),
            final(registry).scene_images() == old(registry).scene_images(),
            match first_key_index(self.pending(), *key) {
                Some(p) => r == Some(self.pending()[p]) && final(registry).live() == old(registry).live(),
                None => match first_key_index(old(registry).live(), *key) {
                    Some(i) => r == Some(old(registry).live()[i])
                        && final(registry).live() == touch_seq(old(registry).live(), i),
                    None => r is None && final(registry).live() == old(registry).live(),
                },
            },
            self.fits(old(registry)) ==> self.fits(final(registry)),
    {
        match find_in_pending(&self.pending, key) {
            Some(p) => {
                let image = self.pending[p];
                assert(first_key_index(self.pending@, *key) == Some(p as int));
                Some(image)
            },
            None => {
                let mut i: usize = 0;
                while i < registry.live.len()
                    invariant
                        i <= registry.live@.len(),
                        registry.live@ == old(registry).live@,
                        registry.bytes_used == old(registry).bytes_used,
                        registry.max_bytes == old(registry).max_bytes,
                        registry.scene_images@ == old(registry).scene_images@,
                        registry.well_formed(),
                        forall|j: int| 0 <= j < i ==> registry.live@[j].key != *key,
                    decreases registry.live@.len() - i,
                {
                    if registry.live[i].key == *key {
                        let ghost s = registry.live@;
                        let ghost c = choose|k: int| 0 <= k < s.len() && s[k].key == *key
                            && forall|j: int| 0 <= j < k ==> s[j].key != *key;
                        assert(s[i as int].key == *key);
                        assert(c == i) by {
                            if c > i {
                                assert(s[i as int].key != *key);
                            }
                        }
                        let image = registry.live[i];
                        proof {
                            lemma_touch_keeps_keys_distinct(s, i as int);
                        }
                        let index = registry.touch(i);
                        proof {
                            let t = registry.live@;
                            let pend = self.pending@;
                            if self.fits(old(registry)) {
                                assert forall|a: int, b: int| 0 <= a < t.len() && 0 <= b < pend.len()
                                    implies #[trigger] t[a].key != #[trigger] pend[b].key by {
                                    let m = choose|m: int| 0 <= m < s.len() && t[a] == s[m];
                                    assert(s[m].key != pend[b].key);
                                }
                            }
                        }
                        assert(registry.live@[index as int] == image);
                        return Some(registry.live[index]);
                    }
                    i = i + 1;
                }
                None
            },
        }
    }

    /// Record an image uploaded for `key` under handle `id`, charged [`image_byte_len`] bytes
    /// of `image`, and return the record.
    fn add_upload(&mut self, key: ImageKey, id: u32, may_have_opacities: bool, image: &ImageDesc) -> (r: RegisteredImage)
        ensures
            r == (RegisteredImage { key, id, may_have_opacities, bytes: image_charge(*image) }),
            final(self).pending() == old(self).pending().push(r),
            final(self).tolerance() == old(self).tolerance(),
    {
        let r = RegisteredImage { key, id, may_have_opacities, bytes: image_byte_len(image) };
        self.pending.push(r);
        r
    }

    /// Resolve `key` to an uploaded image. An image this session or an earlier frame already
    /// uploaded under `key` is reused, and a resident hit becomes the most recently used image;
    /// otherwise `upload` uploads the pixels described by `image`, returning the renderer's
    /// handle and whether the pixels may be translucent, and the upload is recorded for this
    /// session, charged [`image_byte_len`] bytes.
    pub fn resolve<W, I, U: FnOnce() -> (u32, bool)>(
        &mut self,
        registry: &mut HybridImageRegistry<W, I>,
        key: ImageKey,
        image: &ImageDesc,
        upload: U,
    ) -> (r: RegisteredImage)
        requires
            old(registry).well_formed(),
            call_requires(upload, ()),
        ensures
            final(registry).well_formed(),
            final(registry).bytes_used() == old(registry).bytes_used(),
            final(registry).max_bytes() == old(registry).max_bytes(),
            final(registry).scene_images() == old(registry).scene_images(),
            final(self).tolerance() == old(self).tolerance(),
            final(registry).live() == live_after_lookup(old(self).pending(), old(registry).live(), key),
            match uploaded_image(old(self).pending(), old(registry).live(), key) {
                Some(found) => r == found && final(self).pending() == old(self).pending(),
                None => {
                    &&& call_ensures(upload, (), (r.id, r.may_have_opacities))
                    &&& r.key == key
                    &&& r.bytes == image_charge(*image)
                    &&& final(self).pending() == old(self).pending().push(r)
                },
            },
            old(self).fits(old(registry)) ==> final(self).fits(final(registry)),
    {
        match self.find_uploaded(registry, &key) {
            Some(found) => found,
            None => {
                let (id, may_have_opacities) = upload();
                let r = self.add_upload(key, id, may_have_opacities, image);
                proof {
                    let p0 = old(self).pending();
                    let live = registry.live();
                    assert(forall|i: int| 0 <= i < p0.len() ==> p0[i].key != key);
                    assert(forall|i: int| 0 <= i < live.len() ==> live[i].key != key);
                    if old(self).fits(old(registry)) {
                        let p1 = self.pending();
                        assert forall|a: int, b: int| 0 <= a < b < p1.len() implies #[trigger] p1[a].key != #[trigger] p1[b].key by {
                            if b < p0.len() {
                                assert(p0[a].key != p0[b].key);
                            } else {
                                assert(p1[b] == r);
                                assert(p1[a] == p0[a]);
                            }
                        }
                        assert forall|a: int, b: int| 0 <= a < live.len() && 0 <= b < p1.len() implies #[trigger] live[a].key != #[trigger] p1[b].key by {
                            if b < p0.len() {
                                assert(p1[b] == p0[b]);
                                assert(live[a].key != p0[b].key);
                            } else {
                                assert(p1[b] == r);
                            }
                        }
                    }
                }
                r
            },
        }
    }

    /// End the session. When encoding succeeded the uploads join the resident images, in
    /// upload order, and their charges are added (saturating); nothing is returned. Otherwise
    /// the resident images are untouched and the uploads' handles are returned for the caller
    /// to destroy.
    pub fn finish<W, I>(self, registry: &mut HybridImageRegistry<W, I>, success: bool) -> (dropped: Vec<u32>)
        requires
            old(registry).well_formed(),
            self.fits(old(registry)),
        ensures
            final(registry).well_formed(),
            final(registry).max_bytes() == old(registry).max_bytes(),
            final(registry).scene_images() == old(registry).scene_images(),
            success ==> {
                &&& final(registry).live() == old(registry).live() + self.pending()
                &&& final(registry).bytes_used() == add_charges(old(registry).bytes_used(), self.pending())
                &&& dropped@.len() == 0
            },
            !success ==> {
                &&& final(registry).live() == old(registry).live()
                &&& final(registry).bytes_used() == old(registry).bytes_used()
                &&& dropped@ == image_ids(self.pending())
            },
    {
        let mut dropped: Vec<u32> = Vec::new();
        let pending = self.pending;
        if success {
            let ghost live0 = registry.live@;
            let mut i: usize = 0;
            while i < pending.len()
                invariant
                    i <= pending@.len(),
                    registry.live@ == live0 + pending@.take(i as int),
                    registry.bytes_used == add_charges(old(registry).bytes_used, pending@.take(i as int)),
                    registry.bytes_used <= total_charge(registry.live@),
                    registry.max_bytes == old(registry).max_bytes,
                    registry.scene_images@ == old(registry).scene_images@,
                    dropped@.len() == 0,
                decreases pending@.len() - i,
            {
                let image = pending[i];
                proof {
                    lemma_total_charge_push(registry.live@, image);
                    assert(pending@.take(i + 1).drop_last() =~= pending@.take(i as int));
                    assert((live0 + pending@.take(i as int)).push(image) =~= live0 + pending@.take(i + 1));
                }
                registry.live.push_back(image);
                registry.bytes_used = registry.bytes_used.saturating_add(image.bytes);
                i = i + 1;
            }
            proof {
                assert(pending@.take(pending@.len() as int) =~= pending@);
                lemma_concat_keys_distinct(live0, pending@);
            }
        } else {
            let mut i: usize = 0;
            while i < pending.len()
                invariant
                    i <= pending@.len(),
                    dropped@ == image_ids(pending@.take(i as int)),
                decreases pending@.len() - i,
            {
                dropped.push(pending[i].id);
                proof {
                    assert(pending@.take(i + 1) =~= pending@.take(i as int).push(pending@[i as int]));
                    assert(dropped@ =~= image_ids(pending@.take(i + 1)));
                }
                i = i + 1;
            }
            proof {
                assert(pending@.take(pending@.len() as int) =~= pending@);
            }
        }
        dropped
    }
}

} // verus!

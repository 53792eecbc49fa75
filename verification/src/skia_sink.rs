//! Bookkeeping of the Skia paint sinks: the clip/group stack machine with its deferred error,
//! and the caches of realized mask and retained-scene images.
//!
//! The sinks draw through Skia; what they decide (skip a command after an error, forward it to
//! a masked group's content, restore the canvas, report an underflow) is decided here.

use vstd::prelude::*;
use std::collections::VecDeque;
use crate::float_bits::{f64_bits_eq, f64_eq};
use crate::lru::{
    Charged, evict_front, lemma_evict_front, lemma_total_charge_nonneg, lemma_total_charge_push,
    lemma_total_charge_remove, lemma_touch_keeps_entries, total_charge, touch_seq,
};
use crate::record::MaskMode;
use crate::skia_renderer::SkiaError;

verus! {

/// What a sink does with a drawing command.
#[derive(Copy, Clone, Debug, PartialEq, Eq, Structural)]
pub enum Route {
    /// An error was recorded earlier: the command is ignored.
    Skip,
    /// A masked group is open: the command is recorded into its content.
    Masked,
    /// The command is drawn on the canvas.
    Canvas,
}

/// An open group.
#[derive(Copy, Clone, Debug, PartialEq, Eq, Structural)]
pub enum GroupFrame {
    /// A group drawn directly, which saved the canvas `restores` times.
    Direct { restores: u8 },
    /// A masked group whose content is recorded and drawn when it closes; groups pushed inside
    /// it are counted.
    Masked { nested_group_depth: u32 },
}

/// What a sink does when a clip is popped.
#[derive(Copy, Clone, Debug, PartialEq, Eq, Structural)]
pub enum PopClip {
    /// An error was recorded earlier: nothing.
    Skip,
    /// Record the pop into the open masked group's content.
    Forward,
    /// No clip is open: the underflow error was recorded.
    Underflow,
    /// Restore the canvas once.
    Restore,
}

/// What a sink does when a group is popped.
#[derive(Copy, Clone, Debug, PartialEq, Eq, Structural)]
pub enum PopGroup {
    /// An error was recorded earlier: nothing.
    Skip,
    /// No group is open: the underflow error was recorded.
    Underflow,
    /// A direct group closed: restore the canvas this many times.
    Restore(u8),
    /// A group nested in the open masked group closed: record the pop into its content.
    Forward,
    /// The open masked group closed: draw its content through its mask.
    DrawMasked,
}

/// Default path-flattening tolerance of a sink, `0.1` (binary64 bits).
pub const DEFAULT_TOLERANCE_BITS: u64 = 0x3fb9_9999_9999_999a;

/// Clip and group stacks of a Skia sink, with the first error recorded while streaming.
#[derive(Debug)]
pub struct StreamState {
    tolerance: u64,
    error: Option<SkiaError>,
    clip_depth: u32,
    group_stack: Vec<GroupFrame>,
}

/// Whether the innermost open group of `frames` is masked.
pub open spec fn top_is_masked(frames: Seq<GroupFrame>) -> bool {
    frames.len() > 0 && frames.last() is Masked
}

impl StreamState {
    /// The first error recorded and not yet reported.
    pub closed spec fn error(&self) -> Option<SkiaError> {
        self.error
    }

    /// Number of clips pushed onto the canvas and not yet popped.
    pub closed spec fn clip_depth(&self) -> u32 {
        self.clip_depth
    }

    /// Open groups, outermost first.
    pub closed spec fn frames(&self) -> Seq<GroupFrame> {
        self.group_stack@
    }

    /// Path-flattening tolerance (binary64 bits).
    pub closed spec fn tolerance_bits(&self) -> u64 {
        self.tolerance
    }

    /// A state with no open clip or group and no error, at the default tolerance.
    pub fn new() -> (r: StreamState)
        ensures
            r.error() is None,
            r.clip_depth() == 0,
            r.frames().len() == 0,
            r.tolerance_bits() == DEFAULT_TOLERANCE_BITS,
    {
        StreamState { tolerance: DEFAULT_TOLERANCE_BITS, error: None, clip_depth: 0, group_stack: Vec::new() }
    }

    /// The path-flattening tolerance (binary64 bits).
    pub fn tolerance(&self) -> (r: u64)
        ensures
            r == self.tolerance_bits(),
    {
        self.tolerance
    }

    /// Set the path-flattening tolerance (binary64 bits).
    pub fn set_tolerance(&mut self, tolerance: u64)
        ensures
            final(self).tolerance_bits() == tolerance,
            final(self).error() == old(self).error(),
            final(self).clip_depth() == old(self).clip_depth(),
            final(self).frames() == old(self).frames(),
    {
        self.tolerance = tolerance;
    }

    /// Whether an error has been recorded.
    pub fn has_error(&self) -> (r: bool)
        ensures
            r == self.error() is Some,
    {
        self.error.is_some()
    }

    /// Record `err` unless an error is already recorded: the first error wins.
    pub fn set_error_once(&mut self, err: SkiaError)
        ensures
            final(self).error() == (if old(self).error() is Some { old(self).error() } else { Some(err) }),
            final(self).clip_depth() == old(self).clip_depth(),
            final(self).frames() == old(self).frames(),
            final(self).tolerance_bits() == old(self).tolerance_bits(),
    {
        if self.error.is_none() {
            self.error = Some(err);
        }
    }

    /// Where a drawing command goes: nowhere after an error, into the open masked group's
    /// content if the innermost group is masked, else onto the canvas.
    pub fn route(&self) -> (r: Route)
        ensures
            r == (if self.error() is Some {
                Route::Skip
            } else if top_is_masked(self.frames()) {
                Route::Masked
            } else {
                Route::Canvas
            }),
    {
        if self.error.is_some() {
            return Route::Skip;
        }
        let n = self.group_stack.len();
        if n > 0 {
            match self.group_stack[n - 1] {
                GroupFrame::Masked { .. } => {
                    return Route::Masked;
                },
                GroupFrame::Direct { .. } => {},
            }
        }
        Route::Canvas
    }

    /// Count a clip pushed onto the canvas.
    pub fn clip_pushed(&mut self)
        requires
            old(self).clip_depth() < u32::MAX,
        ensures
            old(self).error() is None ==> stack_view(&*final(self)) == stack_step(stack_view(&*old(self)), StackEvent::PushClip),
            final(self).clip_depth() == old(self).clip_depth() + 1,
            final(self).error() == old(self).error(),
            final(self).frames() == old(self).frames(),
            final(self).tolerance_bits() == old(self).tolerance_bits(),
    {
        self.clip_depth = self.clip_depth + 1;
    }

    /// Decide a clip pop: skip after an error, forward into an open masked group, report an
    /// underflow when no clip is open, else restore the canvas once.
    pub fn pop_clip(&mut self) -> (r: PopClip)
        ensures
            !top_is_masked(old(self).frames()) ==> stack_view(&*final(self)) == stack_step(stack_view(&*old(self)), StackEvent::PopClip),
            final(self).frames() == old(self).frames(),
            final(self).tolerance_bits() == old(self).tolerance_bits(),
            old(self).error() is Some ==> r == PopClip::Skip && final(self).error() == old(self).error()
                && final(self).clip_depth() == old(self).clip_depth(),
            old(self).error() is None && top_is_masked(old(self).frames()) ==> r == PopClip::Forward
                && final(self).error() is None && final(self).clip_depth() == old(self).clip_depth(),
            old(self).error() is None && !top_is_masked(old(self).frames()) && old(self).clip_depth() == 0
                ==> r == PopClip::Underflow && final(self).clip_depth() == 0
                && (final(self).error() matches Some(SkiaError::Internal(m)) && m@ == "pop_clip underflow"@),
            old(self).error() is None && !top_is_masked(old(self).frames()) && old(self).clip_depth() > 0
                ==> r == PopClip::Restore && final(self).error() is None
                && final(self).clip_depth() == old(self).clip_depth() - 1,
    {
        match self.route() {
            Route::Skip => PopClip::Skip,
            Route::Masked => PopClip::Forward,
            Route::Canvas => {
                if self.clip_depth == 0 {
                    self.set_error_once(SkiaError::Internal("pop_clip underflow"));
                    PopClip::Underflow
                } else {
                    self.clip_depth = self.clip_depth - 1;
                    PopClip::Restore
                }
            },
        }
    }

    /// Open a group drawn directly onto the canvas, which saved the canvas `restores` times.
    pub fn push_direct_group(&mut self, restores: u8)
        ensures
            old(self).error() is None ==> stack_view(&*final(self)) == stack_step(stack_view(&*old(self)), StackEvent::PushGroup),
            final(self).frames() == old(self).frames().push(GroupFrame::Direct { restores }),
            final(self).error() == old(self).error(),
            final(self).clip_depth() == old(self).clip_depth(),
            final(self).tolerance_bits() == old(self).tolerance_bits(),
    {
        self.group_stack.push(GroupFrame::Direct { restores });
    }

    /// Open a masked group.
    pub fn push_masked_group(&mut self)
        ensures
            final(self).frames() == old(self).frames().push(GroupFrame::Masked { nested_group_depth: 0 }),
            final(self).error() == old(self).error(),
            final(self).clip_depth() == old(self).clip_depth(),
            final(self).tolerance_bits() == old(self).tolerance_bits(),
    {
        self.group_stack.push(GroupFrame::Masked { nested_group_depth: 0 });
    }

    /// Count a group pushed inside the open masked group.
    pub fn nest_group(&mut self)
        requires
            top_is_masked(old(self).frames()),
            old(self).frames().last()->nested_group_depth < u32::MAX,
        ensures
            final(self).frames() == old(self).frames().update(
                old(self).frames().len() - 1,
                GroupFrame::Masked { nested_group_depth: (old(self).frames().last()->nested_group_depth + 1) as u32 },
            ),
            final(self).error() == old(self).error(),
            final(self).clip_depth() == old(self).clip_depth(),
            final(self).tolerance_bits() == old(self).tolerance_bits(),
    {
        let n = self.group_stack.len();
        match self.group_stack[n - 1] {
            GroupFrame::Masked { nested_group_depth } => {
                self.group_stack.set(n - 1, GroupFrame::Masked { nested_group_depth: nested_group_depth + 1 });
            },
            GroupFrame::Direct { .. } => {},
        }
    }

    /// Decide a group pop: skip after an error; report an underflow when no group is open;
    /// close a direct group by restoring the canvas; inside a masked group, close a nested
    /// group by forwarding the pop, or close the masked group itself to draw it.
    pub fn pop_group(&mut self) -> (r: PopGroup)
        ensures
            !top_is_masked(old(self).frames()) ==> stack_view(&*final(self)) == stack_step(stack_view(&*old(self)), StackEvent::PopGroup),
            final(self).clip_depth() == old(self).clip_depth(),
            final(self).tolerance_bits() == old(self).tolerance_bits(),
            old(self).error() is Some ==> r == PopGroup::Skip && final(self).error() == old(self).error()
                && final(self).frames() == old(self).frames(),
            old(self).error() is None && old(self).frames().len() == 0 ==> r == PopGroup::Underflow
                && final(self).frames().len() == 0
                && (final(self).error() matches Some(SkiaError::Internal(m)) && m@ == "pop_group underflow"@),
            old(self).error() is None && old(self).frames().len() > 0 ==> final(self).error() is None && match old(self).frames().last() {
                GroupFrame::Direct { restores } => r == PopGroup::Restore(restores)
                    && final(self).frames() == old(self).frames().drop_last(),
                GroupFrame::Masked { nested_group_depth } => if nested_group_depth != 0 {
                    r == PopGroup::Forward && final(self).frames() == old(self).frames().drop_last().push(
                        GroupFrame::Masked { nested_group_depth: (nested_group_depth - 1) as u32 })
                } else {
                    r == PopGroup::DrawMasked && final(self).frames() == old(self).frames().drop_last()
                },
            },
    {
        if self.error.is_some() {
            return PopGroup::Skip;
        }
        match self.group_stack.pop() {
            None => {
                self.set_error_once(SkiaError::Internal("pop_group underflow"));
                PopGroup::Underflow
            },
            Some(GroupFrame::Direct { restores }) => PopGroup::Restore(restores),
            Some(GroupFrame::Masked { nested_group_depth }) => {
                if nested_group_depth != 0 {
                    self.group_stack.push(GroupFrame::Masked { nested_group_depth: nested_group_depth - 1 });
                    PopGroup::Forward
                } else {
                    PopGroup::DrawMasked
                }
            },
        }
    }

    /// Report the first recorded error, clearing it, or an unbalanced clip stack, or an
    /// unbalanced group stack, in that order; `Ok` when none applies.
    pub fn finish(&mut self) -> (r: Result<(), SkiaError>)
        ensures
            final(self).error() is None,
            final(self).clip_depth() == old(self).clip_depth(),
            final(self).frames() == old(self).frames(),
            final(self).tolerance_bits() == old(self).tolerance_bits(),
            match old(self).error() {
                Some(e) => r == Err::<(), SkiaError>(e),
                None => if old(self).clip_depth() != 0 {
                    r matches Err(SkiaError::Internal(m)) && m@ == "unbalanced clip stack"@
                } else if old(self).frames().len() != 0 {
                    r matches Err(SkiaError::Internal(m)) && m@ == "unbalanced group stack"@
                } else {
                    r is Ok
                },
            },
    {
        match self.error.take() {
            Some(err) => {
                return Err(err);
            },
            None => {},
        }
        if self.clip_depth != 0 {
            return Err(SkiaError::Internal("unbalanced clip stack"));
        }
        if self.group_stack.len() != 0 {
            return Err(SkiaError::Internal("unbalanced group stack"));
        }
        Ok(())
    }
}

/// A clip or group push or pop drawn on the canvas.
#[derive(Copy, Clone, Debug, PartialEq, Eq, Structural)]
pub enum StackEvent {
    PushClip,
    PopClip,
    PushGroup,
    PopGroup,
}

/// What decides how a sink finishes: whether an error was recorded, and the open clips and
/// groups.
pub struct StackView {
    pub failed: bool,
    pub clips: int,
    pub groups: int,
}

/// The stack view of a sink state.
pub open spec fn stack_view(state: &StreamState) -> StackView {
    StackView { failed: state.error() is Some, clips: state.clip_depth() as int, groups: state.frames().len() as int }
}

/// The stack view after event `e`: nothing changes once an error was recorded; a pop with
/// nothing open records an error.
pub open spec fn stack_step(s: StackView, e: StackEvent) -> StackView {
    if s.failed {
        s
    } else {
        match e {
            StackEvent::PushClip => StackView { clips: s.clips + 1, ..s },
            StackEvent::PopClip => if s.clips == 0 { StackView { failed: true, ..s } } else { StackView { clips: s.clips - 1, ..s } },
            StackEvent::PushGroup => StackView { groups: s.groups + 1, ..s },
            StackEvent::PopGroup => if s.groups == 0 { StackView { failed: true, ..s } } else { StackView { groups: s.groups - 1, ..s } },
        }
    }
}

/// The stack view after `events`, from a fresh sink.
pub open spec fn stack_run(events: Seq<StackEvent>) -> StackView
    decreases events.len(),
{
    if events.len() == 0 {
        StackView { failed: false, clips: 0, groups: 0 }
    } else {
        stack_step(stack_run(events.drop_last()), events.last())
    }
}

/// Number of occurrences of `e` in `events`.
pub open spec fn event_count(events: Seq<StackEvent>, e: StackEvent) -> int
    decreases events.len(),
{
    if events.len() == 0 {
        0
    } else {
        event_count(events.drop_last(), e) + if events.last() == e { 1int } else { 0int }
    }
}

/// No prefix of `events` pops more clips or groups than it pushed.
pub open spec fn never_underflows(events: Seq<StackEvent>) -> bool {
    forall|k: int| 0 <= k <= events.len() ==> {
        &&& event_count(#[trigger] events.take(k), StackEvent::PopClip) <= event_count(events.take(k), StackEvent::PushClip)
        &&& event_count(events.take(k), StackEvent::PopGroup) <= event_count(events.take(k), StackEvent::PushGroup)
    }
}

/// A stream of canvas clips and groups records no error exactly when no prefix of it pops more
/// than it pushed, and then leaves open as many clips and groups as were pushed and not
/// popped; so a sink finishes cleanly exactly on streams that never underflow and pop every
/// push.
pub proof fn lemma_balanced_streams_finish_cleanly(events: Seq<StackEvent>)
    ensures
        never_underflows(events) <==> !stack_run(events).failed,
        never_underflows(events) ==> {
            &&& stack_run(events).clips == event_count(events, StackEvent::PushClip) - event_count(events, StackEvent::PopClip)
            &&& stack_run(events).groups == event_count(events, StackEvent::PushGroup) - event_count(events, StackEvent::PopGroup)
        },
    decreases events.len(),
{
    if events.len() == 0 {
        assert forall|k: int| 0 <= k <= events.len() implies {
            &&& event_count(#[trigger] events.take(k), StackEvent::PopClip) <= event_count(events.take(k), StackEvent::PushClip)
            &&& event_count(events.take(k), StackEvent::PopGroup) <= event_count(events.take(k), StackEvent::PushGroup)
        } by {
            assert(events.take(k) =~= Seq::<StackEvent>::empty());
        }
    } else {
        let init = events.drop_last();
        lemma_balanced_streams_finish_cleanly(init);
        assert(events.take(events.len() as int) =~= events);
        assert(events.take(init.len() as int) =~= init);
        if never_underflows(events) {
            assert forall|k: int| 0 <= k <= init.len() implies {
                &&& event_count(#[trigger] init.take(k), StackEvent::PopClip) <= event_count(init.take(k), StackEvent::PushClip)
                &&& event_count(init.take(k), StackEvent::PopGroup) <= event_count(init.take(k), StackEvent::PushGroup)
            } by {
                assert(init.take(k) =~= events.take(k));
            }
            assert(event_count(events.take(events.len() as int), StackEvent::PopClip) <= event_count(events.take(events.len() as int), StackEvent::PushClip));
            assert(event_count(events.take(events.len() as int), StackEvent::PopGroup) <= event_count(events.take(events.len() as int), StackEvent::PushGroup));
        } else {
            if never_underflows(init) {
                assert(!never_underflows(events));
                let k = choose|k: int| 0 <= k <= events.len() && !({
                    &&& event_count(#[trigger] events.take(k), StackEvent::PopClip) <= event_count(events.take(k), StackEvent::PushClip)
                    &&& event_count(events.take(k), StackEvent::PopGroup) <= event_count(events.take(k), StackEvent::PushGroup)
                });
                if k < events.len() {
                    assert(init.take(k) =~= events.take(k));
                    assert(false);
                }
                assert(events.take(k) =~= events);
            }
        }
    }
}

/// The linear part `[a, b, c, d]` of an affine transform, as binary64 bit patterns.
#[derive(Copy, Clone, Debug, PartialEq, Eq, Structural, Hash)]
pub struct LinearBits {
    pub a: u64,
    pub b: u64,
    pub c: u64,
    pub d: u64,
}

/// Identity of a realized mask: the retained mask scene, how its pixels become coverage, the
/// linear part of its transform and the tolerance (binary64 bits), and the surface size.
#[derive(Copy, Clone, Debug, PartialEq, Eq, Structural, Hash)]
pub struct MaskImageCacheKey {
    pub retained_ptr: usize,
    pub mode: MaskMode,
    pub linear_transform: LinearBits,
    pub tolerance_bits: u64,
    pub width: i32,
    pub height: i32,
}

/// The cache key of a mask realized from the retained scene at `retained_ptr` under a
/// transform with linear part `linear`; the translation is left out.
pub fn mask_image_cache_key(
    retained_ptr: usize,
    mode: MaskMode,
    linear: LinearBits,
    tolerance_bits: u64,
    width: i32,
    height: i32,
) -> (r: MaskImageCacheKey)
    ensures
        r == (MaskImageCacheKey { retained_ptr, mode, linear_transform: linear, tolerance_bits, width, height }),
{
    MaskImageCacheKey { retained_ptr, mode, linear_transform: linear, tolerance_bits, width, height }
}

/// Bytes a `width` x `height` RGBA8 mask is charged: negative sizes count as zero and the
/// product saturates.
pub open spec fn approx_mask_bytes(width: i32, height: i32) -> usize {
    let w: usize = if width < 0 { 0 } else { width as usize };
    let h: usize = if height < 0 { 0 } else { height as usize };
    let area: usize = if w * h > usize::MAX { usize::MAX } else { (w * h) as usize };
    if area * 4 > usize::MAX { usize::MAX } else { (area * 4) as usize }
}

fn saturating_mul_usize(a: usize, b: usize) -> (r: usize)
    ensures
        r == (if a * b > usize::MAX { usize::MAX } else { (a * b) as usize }),
{
    match a.checked_mul(b) {
        Some(p) => p,
        None => usize::MAX,
    }
}

/// Bytes a `width` x `height` RGBA8 mask is charged.
pub fn approx_bytes(width: i32, height: i32) -> (r: usize)
    ensures
        r == approx_mask_bytes(width, height),
{
    let w: usize = if width < 0 { 0 } else { width as usize };
    let h: usize = if height < 0 { 0 } else { height as usize };
    saturating_mul_usize(saturating_mul_usize(w, h), 4)
}

/// One realized mask and the bytes it is charged.
#[derive(Debug)]
pub struct MaskEntry<V> {
    pub key: MaskImageCacheKey,
    pub image: V,
    pub bytes: usize,
}

impl<V> Charged for MaskEntry<V> {
    open spec fn charge(&self) -> usize {
        self.bytes
    }
}

/// No key occurs twice in `entries`.
pub open spec fn mask_keys_distinct<V>(entries: Seq<MaskEntry<V>>) -> bool {
    forall|i: int, j: int| 0 <= i < j < entries.len() ==> entries[i].key != entries[j].key
}

/// The position of `key` in `entries`, if it is there.
pub open spec fn mask_key_index<V>(entries: Seq<MaskEntry<V>>, key: MaskImageCacheKey) -> Option<int> {
    if exists|i: int| 0 <= i < entries.len() && entries[i].key == key {
        Some(choose|i: int| 0 <= i < entries.len() && entries[i].key == key)
    } else {
        None
    }
}

/// Entries and bytes in use after inserting `image` under `key`: an entry with the same key is
/// dropped (its charge subtracted, saturating), the new entry is charged
/// [`approx_mask_bytes`] of the key's size (added, saturating) and appended as most recently
/// used, and the cache is evicted down to `max` bytes.
pub open spec fn mask_insert<V>(entries: Seq<MaskEntry<V>>, used: usize, max: usize, key: MaskImageCacheKey, image: V) -> (Seq<MaskEntry<V>>, usize) {
    let e = MaskEntry { key, image, bytes: approx_mask_bytes(key.width, key.height) };
    let (rest, left) = match mask_key_index(entries, key) {
        Some(i) => (entries.remove(i), used.saturating_sub(entries[i].bytes)),
        None => (entries, used),
    };
    evict_front(rest.push(e), left.saturating_add(e.bytes), max)
}

/// Default byte budget of the mask cache: 64 MiB.
pub const MAX_MASK_CACHE_BYTES: usize = 67_108_864;

/// Size-bounded cache of realized masks, least recently used first.
#[derive(Debug)]
pub struct MaskImageCache<V> {
    entries: VecDeque<MaskEntry<V>>,
    bytes_used: usize,
    max_bytes: usize,
}

impl<V> MaskImageCache<V> {
    /// Cached masks, least recently used first.
    pub closed spec fn entries(&self) -> Seq<MaskEntry<V>> {
        self.entries@
    }

    /// Bytes currently charged.
    pub closed spec fn bytes_used(&self) -> usize {
        self.bytes_used
    }

    /// The byte budget.
    pub closed spec fn max_bytes(&self) -> usize {
        self.max_bytes
    }

    /// Keys are distinct and the bytes in use never exceed the entries' total charge.
    pub closed spec fn well_formed(&self) -> bool {
        &&& mask_keys_distinct(self.entries@)
        &&& self.bytes_used <= total_charge(self.entries@)
    }

    /// An empty cache with the default 64 MiB budget.
    pub fn new() -> (r: MaskImageCache<V>)
        ensures
            r.well_formed(),
            r.entries().len() == 0,
            r.bytes_used() == 0,
            r.max_bytes() == MAX_MASK_CACHE_BYTES,
    {
        MaskImageCache { entries: VecDeque::new(), bytes_used: 0, max_bytes: MAX_MASK_CACHE_BYTES }
    }

    /// Number of cached masks.
    pub fn len(&self) -> (r: usize)
        ensures
            r == self.entries().len(),
    {
        self.entries.len()
    }

    /// Drop every mask.
    pub fn clear(&mut self)
        ensures
            final(self).well_formed(),
            final(self).entries().len() == 0,
            final(self).bytes_used() == 0,
            final(self).max_bytes() == old(self).max_bytes(),
    {
        self.entries.clear();
        self.bytes_used = 0;
    }

    fn evict_to_budget(&mut self)
        requires
            old(self).well_formed(),
        ensures
            final(self).well_formed(),
            (final(self).entries(), final(self).bytes_used())
                == evict_front(old(self).entries(), old(self).bytes_used(), old(self).max_bytes()),
            final(self).max_bytes() == old(self).max_bytes(),
    {
        let ghost target = evict_front(self.entries@, self.bytes_used, self.max_bytes);
        proof {
            lemma_evict_front(self.entries@, self.bytes_used, self.max_bytes);
        }
        loop
            invariant
                self.well_formed(),
                self.max_bytes == old(self).max_bytes,
                evict_front(self.entries@, self.bytes_used, self.max_bytes) == target,
            ensures
                self.well_formed(),
                self.max_bytes == old(self).max_bytes,
                (self.entries@, self.bytes_used) == target,
            decreases self.entries@.len(),
        {
            if self.bytes_used <= self.max_bytes {
                break;
            }
            match self.entries.pop_front() {
                Some(oldest) => {
                    proof {
                        lemma_total_charge_nonneg(self.entries@);
                    }
                    self.bytes_used = self.bytes_used.saturating_sub(oldest.bytes);
                },
                None => {
                    break;
                },
            }
        }
    }

    /// Change the byte budget and evict down to it.
    pub fn set_max_bytes(&mut self, max_bytes: usize)
        requires
            old(self).well_formed(),
        ensures
            final(self).well_formed(),
            final(self).max_bytes() == max_bytes,
            (final(self).entries(), final(self).bytes_used())
                == evict_front(old(self).entries(), old(self).bytes_used(), max_bytes),
    {
        self.max_bytes = max_bytes;
        self.evict_to_budget();
    }

    fn position(&self, key: &MaskImageCacheKey) -> (r: Option<usize>)
        requires
            self.well_formed(),
        ensures
            match r {
                Some(i) => i < self.entries().len() && mask_key_index(self.entries(), *key) == Some(i as int),
                None => mask_key_index(self.entries(), *key) is None,
            },
    {
        let mut i: usize = 0;
        while i < self.entries.len()
            invariant
                i <= self.entries@.len(),
                mask_keys_distinct(self.entries@),
                forall|j: int| 0 <= j < i ==> self.entries@[j].key != *key,
            decreases self.entries@.len() - i,
        {
            if self.entries[i].key == *key {
                assert(self.entries@[i as int].key == *key);
                let ghost c = choose|j: int| 0 <= j < self.entries@.len() && self.entries@[j].key == *key;
                assert(c == i);
                return Some(i);
            }
            i = i + 1;
        }
        None
    }

    /// Keep `image` as the realization for `key`, replacing any earlier one, as the most
    /// recently used mask; then evict down to the budget.
    ///
    /// A mask is realized at its key's size, so each entry is charged for the key's size, and a
    /// replaced or evicted entry gives back that same charge.
    pub fn insert(&mut self, key: MaskImageCacheKey, image: V)
        requires
            old(self).well_formed(),
        ensures
            final(self).well_formed(),
            final(self).max_bytes() == old(self).max_bytes(),
            (final(self).entries(), final(self).bytes_used())
                == mask_insert(old(self).entries(), old(self).bytes_used(), old(self).max_bytes(), key, image),
    {
        let ghost s0 = self.entries@;
        let ghost u0 = self.bytes_used;
        match self.position(&key) {
            Some(i) => {
                proof {
                    lemma_total_charge_remove(self.entries@, i as int);
                }
                match self.entries.remove(i) {
                    Some(old_entry) => {
                        self.bytes_used = self.bytes_used.saturating_sub(old_entry.bytes);
                    },
                    None => {},
                }
                assert forall|a: int, b: int| 0 <= a < b < self.entries@.len() implies
                    self.entries@[a].key != self.entries@[b].key by {
                    let x = if a < i { a } else { a + 1 };
                    let y = if b < i { b } else { b + 1 };
                    assert(self.entries@[a] == s0[x]);
                    assert(self.entries@[b] == s0[y]);
                }
            },
            None => {},
        }
        let ghost s1 = self.entries@;
        let bytes = approx_bytes(key.width, key.height);
        let entry = MaskEntry { key, image, bytes };
        proof {
            lemma_total_charge_push(s1, entry);
            lemma_total_charge_nonneg(s1);
        }
        self.bytes_used = self.bytes_used.saturating_add(bytes);
        self.entries.push_back(entry);
        assert forall|a: int, b: int| 0 <= a < b < self.entries@.len() implies
            self.entries@[a].key != self.entries@[b].key by {
            if b == s1.len() {
                assert(self.entries@[a] == s1[a]);
                assert(s1[a].key != key) by {
                    if s1[a].key == key {
                        let k = if mask_key_index(s0, key) is Some { a } else { a };
                        assert(s0.contains(s1[a])) by {
                            if mask_key_index(s0, key) is Some {
                                let i = mask_key_index(s0, key)->0;
                                let x = if a < i { a } else { a + 1 };
                                assert(s0[x] == s1[a]);
                            } else {
                                assert(s0[a] == s1[a]);
                            }
                        }
                    }
                }
            }
        }
        self.evict_to_budget();
    }
}

impl<V: Clone> MaskImageCache<V> {
    /// The realization cached for `key`, made the most recently used mask.
    pub fn get(&mut self, key: MaskImageCacheKey) -> (r: Option<V>)
        requires
            old(self).well_formed(),
        ensures
            final(self).well_formed(),
            final(self).max_bytes() == old(self).max_bytes(),
            final(self).bytes_used() == old(self).bytes_used(),
            match mask_key_index(old(self).entries(), key) {
                Some(i) => (r matches Some(v) && cloned(old(self).entries()[i].image, v))
                    && final(self).entries() == touch_seq(old(self).entries(), i),
                None => r is None && final(self).entries() == old(self).entries(),
            },
    {
        match self.position(&key) {
            Some(i) => {
                let image = self.entries[i].image.clone();
                let ghost s = self.entries@;
                proof {
                    lemma_touch_keeps_entries(s, i as int);
                }
                if i != self.entries.len() - 1 {
                    match self.entries.remove(i) {
                        Some(entry) => {
                            self.entries.push_back(entry);
                        },
                        None => {},
                    }
                } else {
                    assert(touch_seq(s, i as int) =~= s);
                }
                assert forall|a: int, b: int| 0 <= a < b < self.entries@.len() implies
                    self.entries@[a].key != self.entries@[b].key by {
                    let x = if a < i { a } else { a + 1 };
                    let y = if b == s.len() - 1 { i as int } else if b < i { b } else { b + 1 };
                    if i != s.len() - 1 {
                        assert(self.entries@[a] == s[x]);
                        assert(self.entries@[b] == s[y]);
                    }
                }
                Some(image)
            },
            None => None,
        }
    }

    /// The realization cached for `key`, or a fresh one from `render`, which is then kept.
    pub fn get_or_render<E, F: FnOnce() -> Result<V, E>>(&mut self, key: MaskImageCacheKey, render: F) -> (r: Result<V, E>)
        requires
            old(self).well_formed(),
            call_requires(render, ()),
        ensures
            final(self).well_formed(),
            final(self).max_bytes() == old(self).max_bytes(),
            match mask_key_index(old(self).entries(), key) {
                Some(i) => (r matches Ok(v) && cloned(old(self).entries()[i].image, v))
                    && final(self).entries() == touch_seq(old(self).entries(), i)
                    && final(self).bytes_used() == old(self).bytes_used(),
                None => exists|c: Result<V, E>| #[trigger] call_ensures(render, (), c) && match c {
                    Ok(v) => (r matches Ok(w) && cloned(v, w))
                        && (final(self).entries(), final(self).bytes_used())
                            == mask_insert(old(self).entries(), old(self).bytes_used(), old(self).max_bytes(), key, v),
                    Err(e) => r == Err::<V, E>(e) && final(self).entries() == old(self).entries()
                        && final(self).bytes_used() == old(self).bytes_used(),
                },
            },
    {
        match self.get(key) {
            Some(image) => Ok(image),
            None => {
                let rendered = render();
                match rendered {
                    Ok(image) => {
                        let result = image.clone();
                        self.insert(key, image);
                        Ok(result)
                    },
                    Err(e) => Err(e),
                }
            },
        }
    }
}

/// When a retained image may be evicted.
#[derive(Copy, Clone, Debug, PartialEq, Eq, Structural)]
pub enum RetainedEvictionPolicy {
    /// Evicted by the first sweep after a frame that did not use it.
    UntilUnused,
    /// Kept until the cache is cleared.
    Manual,
}

/// Which transforms a retained scene's realized image may be reused under.
#[derive(Copy, Clone, Debug, PartialEq, Eq, Structural)]
pub enum RetainedTransformPolicy {
    /// Only the identity transform.
    IdentityOnly,
    /// Any translation: the realization is made at the identity.
    TranslationOnly,
    /// Any transform with the same linear part.
    Linear,
}

/// Identity of a realized retained scene: the retained scene and the linear part of its
/// transform (binary64 bits).
#[derive(Copy, Clone, Debug, PartialEq, Eq, Structural, Hash)]
pub struct RetainedImageCacheKey {
    pub retained_id: u64,
    pub linear_transform: LinearBits,
}

/// Bit pattern of `1.0`.
pub const ONE_BITS: u64 = 0x3ff0_0000_0000_0000;

/// The cache key of a retained scene realized under the transform with linear coefficients
/// `linear`, or `None` when its policy forbids caching here: no policy,
/// or an identity-only policy under a linear part that does not compare equal to the identity.
/// Identity-only and translation-only realizations are keyed by the identity.
pub open spec fn retained_key_spec(retained_id: u64, policy: Option<RetainedTransformPolicy>, linear: LinearBits) -> Option<RetainedImageCacheKey> {
    let identity = LinearBits { a: ONE_BITS, b: 0, c: 0, d: ONE_BITS };
    match policy {
        None => None,
        Some(RetainedTransformPolicy::IdentityOnly) => {
            if f64_eq(linear.a, ONE_BITS) && f64_eq(linear.b, 0) && f64_eq(linear.c, 0) && f64_eq(linear.d, ONE_BITS) {
                Some(RetainedImageCacheKey { retained_id, linear_transform: identity })
            } else {
                None
            }
        },
        Some(RetainedTransformPolicy::TranslationOnly) => Some(RetainedImageCacheKey { retained_id, linear_transform: identity }),
        Some(RetainedTransformPolicy::Linear) => Some(RetainedImageCacheKey { retained_id, linear_transform: linear }),
    }
}

/// The cache key of a retained scene realized under a transform, as its policy allows.
pub fn retained_image_cache_key_for_policy(retained_id: u64, policy: Option<RetainedTransformPolicy>, linear: LinearBits) -> (r: Option<RetainedImageCacheKey>)
    ensures
        r == retained_key_spec(retained_id, policy, linear),
{
    let identity = LinearBits { a: ONE_BITS, b: 0, c: 0, d: ONE_BITS };
    match policy {
        None => None,
        Some(RetainedTransformPolicy::IdentityOnly) => {
            if f64_bits_eq(linear.a, ONE_BITS) && f64_bits_eq(linear.b, 0) && f64_bits_eq(linear.c, 0)
                && f64_bits_eq(linear.d, ONE_BITS) {
                Some(RetainedImageCacheKey { retained_id, linear_transform: identity })
            } else {
                None
            }
        },
        Some(RetainedTransformPolicy::TranslationOnly) => Some(RetainedImageCacheKey { retained_id, linear_transform: identity }),
        Some(RetainedTransformPolicy::Linear) => Some(RetainedImageCacheKey { retained_id, linear_transform: linear }),
    }
}

/// A realized retained scene, with the mark of the last frame that used it.
#[derive(Debug)]
pub struct CachedRetainedImage<V> {
    pub key: RetainedImageCacheKey,
    pub image: V,
    pub used_mark: bool,
    pub eviction: RetainedEvictionPolicy,
}

/// Whether a sweep at `mark` keeps `entry`: manual entries stay, the others only when used
/// since the mark was set.
pub open spec fn survives_sweep<V>(entry: CachedRetainedImage<V>, mark: bool) -> bool {
    entry.eviction == RetainedEvictionPolicy::Manual || entry.used_mark == mark
}

/// The entries of `entries` that survive a sweep at `mark`, in order.
pub open spec fn swept<V>(entries: Seq<CachedRetainedImage<V>>, mark: bool) -> Seq<CachedRetainedImage<V>>
    decreases entries.len(),
{
    if entries.len() == 0 {
        entries
    } else if survives_sweep(entries.last(), mark) {
        swept(entries.drop_last(), mark).push(entries.last())
    } else {
        swept(entries.drop_last(), mark)
    }
}

/// The position of `key` among `entries`, if present.
pub open spec fn retained_key_index<V>(entries: Seq<CachedRetainedImage<V>>, key: RetainedImageCacheKey) -> Option<int> {
    if exists|i: int| 0 <= i < entries.len() && entries[i].key == key {
        Some(choose|i: int| 0 <= i < entries.len() && entries[i].key == key)
    } else {
        None
    }
}

/// No key occurs twice in `entries`.
pub open spec fn retained_keys_distinct<V>(entries: Seq<CachedRetainedImage<V>>) -> bool {
    forall|i: int, j: int| 0 <= i < j < entries.len() ==> entries[i].key != entries[j].key
}

/// Realized retained scenes, swept by mark: each frame flips the mark, entries used during the
/// frame take the new mark, and a sweep drops the unmarked entries whose policy allows it.
#[derive(Debug)]
pub struct RetainedImageCache<V> {
    images: Vec<CachedRetainedImage<V>>,
    current_mark: bool,
}

impl<V> RetainedImageCache<V> {
    /// Cached realizations.
    pub closed spec fn entries(&self) -> Seq<CachedRetainedImage<V>> {
        self.images@
    }

    /// The mark of the current frame.
    pub closed spec fn mark(&self) -> bool {
        self.current_mark
    }

    /// Keys are distinct.
    pub closed spec fn well_formed(&self) -> bool {
        retained_keys_distinct(self.images@)
    }

    /// An empty cache.
    pub fn new() -> (r: RetainedImageCache<V>)
        ensures
            r.well_formed(),
            r.entries().len() == 0,
            r.mark() == false,
    {
        RetainedImageCache { images: Vec::new(), current_mark: false }
    }

    /// Number of cached realizations.
    pub fn len(&self) -> (r: usize)
        ensures
            r == self.entries().len(),
    {
        self.images.len()
    }

    /// Start a new frame: flip the mark.
    pub fn flip_mark(&mut self)
        ensures
            final(self).mark() == !old(self).mark(),
            final(self).entries() == old(self).entries(),
            final(self).well_formed() == old(self).well_formed(),
    {
        self.current_mark = !self.current_mark;
    }

    /// Drop the entries not used since the mark was set, unless kept manually.
    pub fn evict_unmarked(&mut self)
        requires
            old(self).well_formed(),
        ensures
            final(self).well_formed(),
            final(self).entries() == swept(old(self).entries(), old(self).mark()),
            final(self).mark() == old(self).mark(),
    {
        let mark = self.current_mark;
        let mut old_images: Vec<CachedRetainedImage<V>> = Vec::new();
        std::mem::swap(&mut old_images, &mut self.images);
        let ghost s0 = old_images@;
        let count = old_images.len();
        assert(s0.len() == count);
        let mut kept_images: Vec<CachedRetainedImage<V>> = Vec::new();
        let mut i: usize = 0;
        while old_images.len() > 0
            invariant
                i + old_images@.len() == s0.len(),
                s0.len() <= usize::MAX,
                old_images@ == s0.subrange(i as int, s0.len() as int),
                kept_images@ == swept(s0.take(i as int), mark),
            decreases old_images@.len(),
        {
            let e = old_images.remove(0);
            proof {
                assert(e == s0[i as int]);
                assert(s0.take(i + 1).drop_last() =~= s0.take(i as int));
                assert(s0.take(i + 1).last() == e);
                assert(old_images@ =~= s0.subrange(i + 1, s0.len() as int));
            }
            if e.eviction == RetainedEvictionPolicy::Manual || e.used_mark == mark {
                kept_images.push(e);
            }
            i = i + 1;
        }
        proof {
            assert(s0.take(s0.len() as int) =~= s0);
            lemma_swept_distinct(s0, mark);
        }
        self.images = kept_images;
    }

    /// Drop every entry.
    pub fn clear(&mut self)
        ensures
            final(self).well_formed(),
            final(self).entries().len() == 0,
            final(self).mark() == old(self).mark(),
    {
        self.images = Vec::new();
    }

    fn position(&self, key: &RetainedImageCacheKey) -> (r: Option<usize>)
        requires
            self.well_formed(),
        ensures
            match r {
                Some(i) => i < self.entries().len() && retained_key_index(self.entries(), *key) == Some(i as int),
                None => retained_key_index(self.entries(), *key) is None,
            },
    {
        let mut i: usize = 0;
        while i < self.images.len()
            invariant
                i <= self.images@.len(),
                retained_keys_distinct(self.images@),
                forall|j: int| 0 <= j < i ==> self.images@[j].key != *key,
            decreases self.images@.len() - i,
        {
            if self.images[i].key == *key {
                assert(self.images@[i as int].key == *key);
                let ghost c = choose|j: int| 0 <= j < self.images@.len() && self.images@[j].key == *key;
                assert(c == i);
                return Some(i);
            }
            i = i + 1;
        }
        None
    }

    /// Keep `image` as the realization for `key`, used in the current frame, replacing any
    /// earlier one.
    pub fn insert(&mut self, key: RetainedImageCacheKey, image: V, eviction: RetainedEvictionPolicy)
        requires
            old(self).well_formed(),
        ensures
            final(self).well_formed(),
            final(self).mark() == old(self).mark(),
            match retained_key_index(old(self).entries(), key) {
                Some(i) => final(self).entries() == old(self).entries().update(i,
                    CachedRetainedImage { key, image, used_mark: old(self).mark(), eviction }),
                None => final(self).entries() == old(self).entries().push(
                    CachedRetainedImage { key, image, used_mark: old(self).mark(), eviction }),
            },
    {
        let entry = CachedRetainedImage { key, image, used_mark: self.current_mark, eviction };
        let ghost s = self.images@;
        match self.position(&key) {
            Some(i) => {
                self.images.set(i, entry);
                assert forall|a: int, b: int| 0 <= a < b < self.images@.len() implies
                    self.images@[a].key != self.images@[b].key by {
                    if a != i && b != i {
                        assert(self.images@[a] == s[a] && self.images@[b] == s[b]);
                    } else if a == i {
                        assert(self.images@[b] == s[b] && s[a].key == key);
                    } else {
                        assert(self.images@[a] == s[a] && s[b].key == key);
                    }
                }
            },
            None => {
                self.images.push(entry);
                assert forall|a: int, b: int| 0 <= a < b < self.images@.len() implies
                    self.images@[a].key != self.images@[b].key by {
                    if b < s.len() {
                        assert(self.images@[a] == s[a] && self.images@[b] == s[b]);
                    } else {
                        assert(self.images@[a] == s[a]);
                    }
                }
            },
        }
    }
}

impl<V: Clone> RetainedImageCache<V> {
    /// The realization cached for `key`, which is marked as used in the current frame.
    pub fn get(&mut self, key: RetainedImageCacheKey) -> (r: Option<V>)
        requires
            old(self).well_formed(),
        ensures
            final(self).well_formed(),
            final(self).mark() == old(self).mark(),
            match retained_key_index(old(self).entries(), key) {
                Some(i) => (r matches Some(v) && cloned(old(self).entries()[i].image, v))
                    && final(self).entries().len() == old(self).entries().len()
                    && final(self).entries()[i].used_mark == old(self).mark()
                    && final(self).entries()[i].key == key
                    && final(self).entries()[i].image == old(self).entries()[i].image
                    && final(self).entries()[i].eviction == old(self).entries()[i].eviction
                    && forall|j: int| 0 <= j < old(self).entries().len() && j != i
                        ==> final(self).entries()[j] == old(self).entries()[j]
                    && final(self).entries() == old(self).entries().update(
                        i, CachedRetainedImage { used_mark: old(self).mark(), ..old(self).entries()[i] }),
                None => r is None && final(self).entries() == old(self).entries(),
            },
    {
        match self.position(&key) {
            Some(i) => {
                let ghost s = self.images@;
                let mut entry = self.images.remove(i);
                let image = entry.image.clone();
                entry.used_mark = self.current_mark;
                self.images.insert(i, entry);
                assert forall|a: int, b: int| 0 <= a < b < self.images@.len() implies
                    self.images@[a].key != self.images@[b].key by {
                    assert(self.images@[a].key == s[a].key && self.images@[b].key == s[b].key);
                }
                assert forall|j: int| 0 <= j < s.len() && j != i implies self.images@[j] == s[j] by {
                    if j < i {
                        assert(self.images@[j] == s[j]);
                    } else {
                        assert(self.images@[j] == s[j]);
                    }
                }
                assert(self.images@ =~= s.update(i as int, CachedRetainedImage { used_mark: self.current_mark, ..s[i as int] }));
                Some(image)
            },
            None => None,
        }
    }

    /// The realization cached for `key`, or a fresh one from `render`, which is then kept under
    /// `eviction`.
    pub fn get_or_render<E, F: FnOnce() -> Result<V, E>>(&mut self, key: RetainedImageCacheKey, eviction: RetainedEvictionPolicy, render: F) -> (r: Result<V, E>)
        requires
            old(self).well_formed(),
            call_requires(render, ()),
        ensures
            final(self).well_formed(),
            final(self).mark() == old(self).mark(),
            match retained_key_index(old(self).entries(), key) {
                Some(i) => (r matches Ok(v) && cloned(old(self).entries()[i].image, v))
                    && final(self).entries() == old(self).entries().update(
                        i, CachedRetainedImage { used_mark: old(self).mark(), ..old(self).entries()[i] }),
                None => exists|c: Result<V, E>| #[trigger] call_ensures(render, (), c) && match c {
                    Ok(v) => (r matches Ok(w) && cloned(v, w)) && final(self).entries() == old(self).entries().push(
                        CachedRetainedImage { key, image: v, used_mark: old(self).mark(), eviction }),
                    Err(e) => r == Err::<V, E>(e) && final(self).entries() == old(self).entries(),
                },
            },
    {
        match self.get(key) {
            Some(image) => Ok(image),
            None => {
                let rendered = render();
                match rendered {
                    Ok(image) => {
                        let result = image.clone();
                        self.insert(key, image, eviction);
                        Ok(result)
                    },
                    Err(e) => Err(e),
                }
            },
        }
    }
}

/// A sweep keeps exactly the entries that survive it.
pub proof fn lemma_swept_keeps_order<V>(entries: Seq<CachedRetainedImage<V>>, mark: bool)
    ensures
        swept(entries, mark).len() <= entries.len(),
        forall|x: CachedRetainedImage<V>| #[trigger] swept(entries, mark).contains(x)
            <==> (entries.contains(x) && survives_sweep(x, mark)),
    decreases entries.len(),
{
    if entries.len() > 0 {
        let init = entries.drop_last();
        let last = entries.last();
        lemma_swept_keeps_order(init, mark);
        let rest = swept(init, mark);
        let all = swept(entries, mark);
        assert(all == (if survives_sweep(last, mark) { rest.push(last) } else { rest }));
        assert forall|x: CachedRetainedImage<V>| #[trigger] all.contains(x) implies
            entries.contains(x) && survives_sweep(x, mark) by {
            let m = choose|m: int| 0 <= m < all.len() && all[m] == x;
            if survives_sweep(last, mark) && m == rest.len() {
                assert(entries[entries.len() - 1] == x);
            } else {
                assert(rest[m] == x);
                assert(rest.contains(x));
                assert(init.contains(x) && survives_sweep(x, mark));
                let k = choose|k: int| 0 <= k < init.len() && init[k] == x;
                assert(entries[k] == x);
            }
        }
        assert forall|x: CachedRetainedImage<V>| entries.contains(x) && survives_sweep(x, mark) implies
            #[trigger] all.contains(x) by {
            let k = choose|k: int| 0 <= k < entries.len() && entries[k] == x;
            if k == entries.len() - 1 {
                assert(all[rest.len() as int] == x);
            } else {
                assert(init[k] == x);
                assert(init.contains(x));
                assert(rest.contains(x));
                let m = choose|m: int| 0 <= m < rest.len() && rest[m] == x;
                assert(all[m] == x);
            }
        }
    }
}

/// A sweep of entries with distinct keys leaves entries with distinct keys.
proof fn lemma_swept_distinct<V>(entries: Seq<CachedRetainedImage<V>>, mark: bool)
    requires
        retained_keys_distinct(entries),
    ensures
        retained_keys_distinct(swept(entries, mark)),
    decreases entries.len(),
{
    if entries.len() > 0 {
        let init = entries.drop_last();
        lemma_swept_distinct(init, mark);
        lemma_swept_keeps_order(init, mark);
        let rest = swept(init, mark);
        if survives_sweep(entries.last(), mark) {
            let t = rest.push(entries.last());
            assert forall|i: int, j: int| 0 <= i < j < t.len() implies t[i].key != t[j].key by {
                if j == rest.len() {
                    assert(rest.contains(t[i]));
                    let k = choose|k: int| 0 <= k < init.len() && init[k] == t[i];
                    assert(entries[k] == t[i]);
                }
            }
        }
    }
}

} // verus!

//! Caches of resolved typefaces and sized fonts for text drawing.
//!
//! Three maps are kept: base typefaces by font blob and index, typefaces with variation
//! coordinates applied, and sized fonts. Loading a typeface, applying variations and sizing a
//! font are done by the caller's closures; the cache decides what is reused.

use vstd::prelude::*;

verus! {

/// Identity of a font face: the font blob and the face index in it.
#[derive(Copy, Clone, Debug, PartialEq, Eq, Structural, Hash)]
pub struct BaseTypefaceKey {
    pub font_data_id: u64,
    pub font_index: u32,
}

/// Identity of a typeface: a face and its normalized variation coordinates.
#[derive(Debug)]
pub struct TypefaceKey {
    pub base: BaseTypefaceKey,
    pub normalized_coords: Vec<i16>,
}

/// Identity of a sized font: a typeface, its size (binary32 bits) and whether it is hinted.
#[derive(Debug)]
pub struct FontKey {
    pub typeface: TypefaceKey,
    pub font_size_bits: u32,
    pub hint: bool,
}

/// The value of a [`TypefaceKey`].
pub struct TypefaceKeyView {
    pub base: BaseTypefaceKey,
    pub normalized_coords: Seq<i16>,
}

/// The value of a [`FontKey`].
pub struct FontKeyView {
    pub typeface: TypefaceKeyView,
    pub font_size_bits: u32,
    pub hint: bool,
}

impl TypefaceKey {
    /// The value of this key.
    pub open spec fn view(&self) -> TypefaceKeyView {
        TypefaceKeyView { base: self.base, normalized_coords: self.normalized_coords@ }
    }

    /// Whether two keys have the same value.
    pub fn same_as(&self, other: &TypefaceKey) -> (r: bool)
        ensures
            r == (self.view() == other.view()),
    {
        if self.base != other.base || self.normalized_coords.len() != other.normalized_coords.len() {
            return false;
        }
        let mut i: usize = 0;
        while i < self.normalized_coords.len()
            invariant
                self.normalized_coords@.len() == other.normalized_coords@.len(),
                i <= self.normalized_coords@.len(),
                forall|j: int| 0 <= j < i ==> self.normalized_coords@[j] == other.normalized_coords@[j],
            decreases self.normalized_coords@.len() - i,
        {
            if self.normalized_coords[i] != other.normalized_coords[i] {
                return false;
            }
            i = i + 1;
        }
        assert(self.normalized_coords@ =~= other.normalized_coords@);
        true
    }

    /// A copy of this key.
    pub fn duplicate(&self) -> (r: TypefaceKey)
        ensures
            r.view() == self.view(),
    {
        let mut coords: Vec<i16> = Vec::new();
        let mut i: usize = 0;
        while i < self.normalized_coords.len()
            invariant
                i <= self.normalized_coords@.len(),
                coords@ == self.normalized_coords@.take(i as int),
            decreases self.normalized_coords@.len() - i,
        {
            coords.push(self.normalized_coords[i]);
            proof {
                assert(self.normalized_coords@.take(i + 1) =~= self.normalized_coords@.take(i as int).push(self.normalized_coords@[i as int]));
            }
            i = i + 1;
        }
        proof {
            assert(self.normalized_coords@.take(i as int) =~= self.normalized_coords@);
        }
        TypefaceKey { base: self.base, normalized_coords: coords }
    }
}

impl FontKey {
    /// The value of this key.
    pub open spec fn view(&self) -> FontKeyView {
        FontKeyView { typeface: self.typeface.view(), font_size_bits: self.font_size_bits, hint: self.hint }
    }

    /// Whether two keys have the same value.
    pub fn same_as(&self, other: &FontKey) -> (r: bool)
        ensures
            r == (self.view() == other.view()),
    {
        self.font_size_bits == other.font_size_bits && self.hint == other.hint && self.typeface.same_as(&other.typeface)
    }

    /// A copy of this key.
    pub fn duplicate(&self) -> (r: FontKey)
        ensures
            r.view() == self.view(),
    {
        FontKey { typeface: self.typeface.duplicate(), font_size_bits: self.font_size_bits, hint: self.hint }
    }
}

/// The map held by a sequence of key/value pairs whose keys are distinct.
pub open spec fn pairs_map<K, V>(pairs: Seq<(K, V)>) -> Map<K, V> {
    Map::new(
        |k: K| exists|i: int| 0 <= i < pairs.len() && pairs[i].0 == k,
        |k: K| pairs[choose|i: int| 0 <= i < pairs.len() && pairs[i].0 == k].1,
    )
}

/// No key occurs twice among `pairs`.
pub open spec fn pair_keys_distinct<K, V>(pairs: Seq<(K, V)>) -> bool {
    forall|i: int, j: int| 0 <= i < j < pairs.len() ==> pairs[i].0 != pairs[j].0
}

/// Appending a pair with a new key inserts it into the map.
proof fn lemma_pairs_map_push<K, V>(pairs: Seq<(K, V)>, k: K, v: V)
    requires
        pair_keys_distinct(pairs),
        !pairs_map(pairs).contains_key(k),
    ensures
        pair_keys_distinct(pairs.push((k, v))),
        pairs_map(pairs.push((k, v))) == pairs_map(pairs).insert(k, v),
{
    let p = pairs.push((k, v));
    assert forall|i: int, j: int| 0 <= i < j < p.len() implies p[i].0 != p[j].0 by {
        if j == pairs.len() {
            assert(p[i] == pairs[i]);
        }
    }
    let m = pairs_map(pairs).insert(k, v);
    assert forall|x: K| #[trigger] pairs_map(p).contains_key(x) <==> m.contains_key(x) by {
        if m.contains_key(x) && x != k {
            let i = choose|i: int| 0 <= i < pairs.len() && pairs[i].0 == x;
            assert(p[i].0 == x);
        }
        if pairs_map(p).contains_key(x) && x != k {
            let i = choose|i: int| 0 <= i < p.len() && p[i].0 == x;
            assert(pairs[i].0 == x);
        }
        if x == k {
            assert(p[pairs.len() as int].0 == k);
        }
    }
    assert forall|x: K| #[trigger] pairs_map(p).contains_key(x) implies pairs_map(p)[x] == m[x] by {
        let i = choose|i: int| 0 <= i < p.len() && p[i].0 == x;
        if x == k {
            assert(i == pairs.len());
        } else {
            let j = choose|j: int| 0 <= j < pairs.len() && pairs[j].0 == x;
            assert(p[j].0 == x);
            assert(i == j);
        }
    }
    assert(pairs_map(p) =~= m);
}

/// The value at position `i` is what the map holds for its key.
proof fn lemma_pairs_map_index<K, V>(pairs: Seq<(K, V)>, i: int)
    requires
        pair_keys_distinct(pairs),
        0 <= i < pairs.len(),
    ensures
        pairs_map(pairs).contains_key(pairs[i].0),
        pairs_map(pairs)[pairs[i].0] == pairs[i].1,
{
    let k = pairs[i].0;
    assert(pairs_map(pairs).contains_key(k));
    let c = choose|j: int| 0 <= j < pairs.len() && pairs[j].0 == k;
    assert(c == i);
}

/// The map of typefaces held by `pairs`, keyed by value.
pub open spec fn typeface_pairs_view<T>(pairs: Seq<(TypefaceKey, T)>) -> Seq<(TypefaceKeyView, T)> {
    pairs.map_values(|p: (TypefaceKey, T)| (p.0.view(), p.1))
}

/// The map of fonts held by `pairs`, keyed by value.
pub open spec fn font_pairs_view<F>(pairs: Seq<(FontKey, F)>) -> Seq<(FontKeyView, F)> {
    pairs.map_values(|p: (FontKey, F)| (p.0.view(), p.1))
}

/// What a base-typeface lookup for `key` does to the map `before` when `load` produces `loaded`:
/// a cached face is returned (a clone) and nothing changes; otherwise a loaded face is kept
/// and returned (a clone), and a failed load changes nothing.
pub open spec fn base_step<T: Clone>(before: Map<BaseTypefaceKey, T>, key: BaseTypefaceKey, loaded: Option<T>, r: Option<T>, after: Map<BaseTypefaceKey, T>) -> bool {
    if before.contains_key(key) {
        (r matches Some(v) && cloned(before[key], v)) && after == before
    } else {
        match loaded {
            None => r is None && after == before,
            Some(t) => (r matches Some(v) && cloned(t, v)) && after == before.insert(key, t),
        }
    }
}

/// What resolving a typeface with variations does when it is not cached: the base face is
/// looked up as by [`base_step`] (giving `base`), then `vary` is applied to it and a varied
/// typeface is kept and returned (a clone); a missing base face or a failed variation returns
/// `None` and keeps no typeface.
pub open spec fn varied_typeface_step<T: Clone, L: FnOnce() -> Option<T>, A: FnOnce(T) -> Option<T>>(
    bases: Map<BaseTypefaceKey, T>,
    typefaces: Map<TypefaceKeyView, T>,
    base_key: BaseTypefaceKey,
    key: TypefaceKeyView,
    load: L,
    vary: A,
    base: Option<T>,
    r: Option<T>,
    bases_after: Map<BaseTypefaceKey, T>,
    typefaces_after: Map<TypefaceKeyView, T>,
) -> bool {
    &&& (bases.contains_key(base_key) ==> base_step(bases, base_key, None, base, bases_after))
    &&& (!bases.contains_key(base_key) ==> exists|loaded: Option<T>| #[trigger] call_ensures(load, (), loaded)
        && base_step(bases, base_key, loaded, base, bases_after))
    &&& match base {
        None => r is None && typefaces_after == typefaces,
        Some(b) => exists|varied: Option<T>| #[trigger] call_ensures(vary, (b,), varied) && match varied {
            None => r is None && typefaces_after == typefaces,
            Some(t) => (r matches Some(v) && cloned(t, v)) && typefaces_after == typefaces.insert(key, t),
        },
    }
}

/// What resolving the typeface `key` does: without variation coordinates it is the base face
/// (see [`base_step`]); a cached typeface is returned (a clone) and nothing changes; otherwise
/// see [`varied_typeface_step`].
pub open spec fn typeface_step<T: Clone, L: FnOnce() -> Option<T>, A: FnOnce(T) -> Option<T>>(
    bases: Map<BaseTypefaceKey, T>,
    typefaces: Map<TypefaceKeyView, T>,
    key: TypefaceKeyView,
    load: L,
    vary: A,
    r: Option<T>,
    bases_after: Map<BaseTypefaceKey, T>,
    typefaces_after: Map<TypefaceKeyView, T>,
) -> bool {
    if key.normalized_coords.len() == 0 {
        &&& typefaces_after == typefaces
        &&& (bases.contains_key(key.base) ==> base_step(bases, key.base, None, r, bases_after))
        &&& (!bases.contains_key(key.base) ==> exists|loaded: Option<T>| #[trigger] call_ensures(load, (), loaded)
            && base_step(bases, key.base, loaded, r, bases_after))
    } else if typefaces.contains_key(key) {
        &&& r matches Some(v) && cloned(typefaces[key], v)
        &&& typefaces_after == typefaces
        &&& bases_after == bases
    } else {
        exists|base: Option<T>| #[trigger] varied_typeface_step(bases, typefaces, key.base, key, load, vary, base, r, bases_after, typefaces_after)
    }
}

/// Resolved typefaces and fonts.
#[derive(Debug)]
pub struct FontCache<T, F> {
    base_typefaces: Vec<(BaseTypefaceKey, T)>,
    typefaces: Vec<(TypefaceKey, T)>,
    fonts: Vec<(FontKey, F)>,
}

impl<T, F> FontCache<T, F> {
    /// Base typefaces by face.
    pub closed spec fn bases(&self) -> Map<BaseTypefaceKey, T> {
        pairs_map(self.base_typefaces@)
    }

    /// Typefaces with variations applied, by key value.
    pub closed spec fn typefaces(&self) -> Map<TypefaceKeyView, T> {
        pairs_map(typeface_pairs_view(self.typefaces@))
    }

    /// Sized fonts, by key value.
    pub closed spec fn fonts(&self) -> Map<FontKeyView, F> {
        pairs_map(font_pairs_view(self.fonts@))
    }

    /// Numbers of cached base typefaces, typefaces and fonts.
    pub closed spec fn sizes(&self) -> (nat, nat, nat) {
        (self.base_typefaces@.len(), self.typefaces@.len(), self.fonts@.len())
    }

    /// Each map holds every key once.
    pub closed spec fn well_formed(&self) -> bool {
        &&& pair_keys_distinct(self.base_typefaces@)
        &&& pair_keys_distinct(typeface_pairs_view(self.typefaces@))
        &&& pair_keys_distinct(font_pairs_view(self.fonts@))
    }

    /// An empty cache.
    pub fn new() -> (r: FontCache<T, F>)
        ensures
            r.well_formed(),
            r.bases() == Map::<BaseTypefaceKey, T>::empty(),
            r.typefaces() == Map::<TypefaceKeyView, T>::empty(),
            r.fonts() == Map::<FontKeyView, F>::empty(),
    {
        let r = FontCache { base_typefaces: Vec::new(), typefaces: Vec::new(), fonts: Vec::new() };
        assert(r.bases() =~= Map::<BaseTypefaceKey, T>::empty());
        assert(r.typefaces() =~= Map::<TypefaceKeyView, T>::empty());
        assert(r.fonts() =~= Map::<FontKeyView, F>::empty());
        r
    }

    /// Drop every cached typeface and font.
    pub fn clear(&mut self)
        ensures
            final(self).well_formed(),
            final(self).bases() == Map::<BaseTypefaceKey, T>::empty(),
            final(self).typefaces() == Map::<TypefaceKeyView, T>::empty(),
            final(self).fonts() == Map::<FontKeyView, F>::empty(),
    {
        self.base_typefaces = Vec::new();
        self.typefaces = Vec::new();
        self.fonts = Vec::new();
        assert(self.bases() =~= Map::<BaseTypefaceKey, T>::empty());
        assert(self.typefaces() =~= Map::<TypefaceKeyView, T>::empty());
        assert(self.fonts() =~= Map::<FontKeyView, F>::empty());
    }

    /// Numbers of cached base typefaces, typefaces and fonts.
    pub fn counts(&self) -> (r: (usize, usize, usize))
        ensures
            r.0 == self.sizes().0,
            r.1 == self.sizes().1,
            r.2 == self.sizes().2,
    {
        (self.base_typefaces.len(), self.typefaces.len(), self.fonts.len())
    }

    fn find_base(&self, key: BaseTypefaceKey) -> (r: Option<usize>)
        requires
            self.well_formed(),
        ensures
            match r {
                Some(i) => i < self.base_typefaces@.len() && self.base_typefaces@[i as int].0 == key,
                None => !self.bases().contains_key(key),
            },
    {
        let mut i: usize = 0;
        while i < self.base_typefaces.len()
            invariant
                i <= self.base_typefaces@.len(),
                forall|j: int| 0 <= j < i ==> self.base_typefaces@[j].0 != key,
            decreases self.base_typefaces@.len() - i,
        {
            if self.base_typefaces[i].0 == key {
                return Some(i);
            }
            i = i + 1;
        }
        None
    }

    fn find_typeface(&self, key: &TypefaceKey) -> (r: Option<usize>)
        requires
            self.well_formed(),
        ensures
            match r {
                Some(i) => i < self.typefaces@.len() && self.typefaces@[i as int].0.view() == key.view(),
                None => !self.typefaces().contains_key(key.view()),
            },
    {
        let mut i: usize = 0;
        while i < self.typefaces.len()
            invariant
                i <= self.typefaces@.len(),
                forall|j: int| 0 <= j < i ==> self.typefaces@[j].0.view() != key.view(),
            decreases self.typefaces@.len() - i,
        {
            if self.typefaces[i].0.same_as(key) {
                return Some(i);
            }
            i = i + 1;
        }
        proof {
            let v = typeface_pairs_view(self.typefaces@);
            if self.typefaces().contains_key(key.view()) {
                let j = choose|j: int| 0 <= j < v.len() && v[j].0 == key.view();
                assert(self.typefaces@[j].0.view() == key.view());
            }
        }
        None
    }

    fn find_font(&self, key: &FontKey) -> (r: Option<usize>)
        requires
            self.well_formed(),
        ensures
            match r {
                Some(i) => i < self.fonts@.len() && self.fonts@[i as int].0.view() == key.view(),
                None => !self.fonts().contains_key(key.view()),
            },
    {
        let mut i: usize = 0;
        while i < self.fonts.len()
            invariant
                i <= self.fonts@.len(),
                forall|j: int| 0 <= j < i ==> self.fonts@[j].0.view() != key.view(),
            decreases self.fonts@.len() - i,
        {
            if self.fonts[i].0.same_as(key) {
                return Some(i);
            }
            i = i + 1;
        }
        proof {
            let v = font_pairs_view(self.fonts@);
            if self.fonts().contains_key(key.view()) {
                let j = choose|j: int| 0 <= j < v.len() && v[j].0 == key.view();
                assert(self.fonts@[j].0.view() == key.view());
            }
        }
        None
    }
}

impl<T: Clone, F: Clone> FontCache<T, F> {
    /// The base typeface of face `key`: cached, or loaded by `load` and kept.
    pub fn base_typeface<L: FnOnce() -> Option<T>>(&mut self, key: BaseTypefaceKey, load: L) -> (r: Option<T>)
        requires
            old(self).well_formed(),
            call_requires(load, ()),
        ensures
            final(self).well_formed(),
            final(self).typefaces() == old(self).typefaces(),
            final(self).fonts() == old(self).fonts(),
            old(self).bases().contains_key(key) ==> base_step(old(self).bases(), key, None, r, final(self).bases()),
            !old(self).bases().contains_key(key) ==> exists|loaded: Option<T>| #[trigger] call_ensures(load, (), loaded)
                && base_step(old(self).bases(), key, loaded, r, final(self).bases()),
    {
        match self.find_base(key) {
            Some(i) => {
                proof {
                    lemma_pairs_map_index(self.base_typefaces@, i as int);
                }
                Some(self.base_typefaces[i].1.clone())
            },
            None => {
                let loaded = load();
                match loaded {
                    None => None,
                    Some(t) => {
                        let result = t.clone();
                        proof {
                            lemma_pairs_map_push(self.base_typefaces@, key, t);
                        }
                        self.base_typefaces.push((key, t));
                        Some(result)
                    },
                }
            },
        }
    }

    /// The typeface for `key`: the base typeface when no variation coordinates are given,
    /// else a cached typeface, else the base typeface (cached or loaded by `load`) with
    /// variations applied by `vary`, which is kept.
    pub fn typeface_for_key<L: FnOnce() -> Option<T>, A: FnOnce(T) -> Option<T>>(
        &mut self,
        key: &TypefaceKey,
        load: L,
        vary: A,
    ) -> (r: Option<T>)
        requires
            old(self).well_formed(),
            call_requires(load, ()),
            forall|t: T| call_requires(vary, (t,)),
        ensures
            final(self).well_formed(),
            final(self).fonts() == old(self).fonts(),
            typeface_step(old(self).bases(), old(self).typefaces(), key.view(), load, vary, r, final(self).bases(), final(self).typefaces()),
    {
        if key.normalized_coords.len() == 0 {
            return self.base_typeface(key.base, load);
        }
        match self.find_typeface(key) {
            Some(i) => {
                proof {
                    lemma_pairs_map_index(typeface_pairs_view(self.typefaces@), i as int);
                }
                Some(self.typefaces[i].1.clone())
            },
            None => {
                let ghost bases0 = self.bases();
                let ghost typefaces0 = self.typefaces();
                let base = self.base_typeface(key.base, load);
                match base {
                    None => {
                        assert(varied_typeface_step(bases0, typefaces0, key.view().base, key.view(), load, vary, base, None,
                            self.bases(), self.typefaces()));
                        None
                    },
                    Some(b) => {
                        let ghost b0 = b;
                        let varied = vary(b);
                        match varied {
                            None => {
                                assert(varied_typeface_step(bases0, typefaces0, key.view().base, key.view(), load, vary, Some(b0), None,
                                    self.bases(), self.typefaces()));
                                None
                            },
                            Some(t) => {
                                let result = t.clone();
                                let stored = key.duplicate();
                                let ghost before = self.typefaces@;
                                proof {
                                    lemma_pairs_map_push(typeface_pairs_view(before), key.view(), t);
                                }
                                self.typefaces.push((stored, t));
                                proof {
                                    assert(typeface_pairs_view(self.typefaces@) =~= typeface_pairs_view(before).push((key.view(), t)));
                                    assert(varied_typeface_step(bases0, typefaces0, key.view().base, key.view(), load, vary, Some(b0), Some(result),
                                        self.bases(), self.typefaces()));
                                }
                                Some(result)
                            },
                        }
                    },
                }
            },
        }
    }

    /// The sized font for `key`: cached, else sized by `make_font` from the typeface of
    /// [`FontCache::typeface_for_key`] and kept. `None` when no typeface could be resolved.
    pub fn font_for_key<L: FnOnce() -> Option<T>, A: FnOnce(T) -> Option<T>, M: FnOnce(T) -> F>(
        &mut self,
        key: &FontKey,
        load: L,
        vary: A,
        make_font: M,
    ) -> (r: Option<F>)
        requires
            old(self).well_formed(),
            call_requires(load, ()),
            forall|t: T| call_requires(vary, (t,)),
            forall|t: T| call_requires(make_font, (t,)),
        ensures
            final(self).well_formed(),
            old(self).fonts().contains_key(key.view()) ==> {
                &&& r matches Some(v) && cloned(old(self).fonts()[key.view()], v)
                &&& final(self).fonts() == old(self).fonts()
                &&& final(self).typefaces() == old(self).typefaces()
                &&& final(self).bases() == old(self).bases()
            },
            !old(self).fonts().contains_key(key.view()) ==> exists|typeface: Option<T>| {
                &&& #[trigger] typeface_step(old(self).bases(), old(self).typefaces(), key.typeface.view(), load, vary, typeface,
                    final(self).bases(), final(self).typefaces())
                &&& match typeface {
                    None => r is None && final(self).fonts() == old(self).fonts(),
                    Some(t) => exists|f: F| #[trigger] call_ensures(make_font, (t,), f)
                        && (r matches Some(v) && cloned(f, v))
                        && final(self).fonts() == old(self).fonts().insert(key.view(), f),
                }
            },
    {
        match self.find_font(key) {
            Some(i) => {
                proof {
                    lemma_pairs_map_index(font_pairs_view(self.fonts@), i as int);
                }
                Some(self.fonts[i].1.clone())
            },
            None => {
                let ghost bases0 = self.bases();
                let ghost typefaces0 = self.typefaces();
                let typeface = self.typeface_for_key(&key.typeface, load, vary);
                assert(typeface_step(bases0, typefaces0, key.typeface.view(), load, vary, typeface, self.bases(), self.typefaces()));
                match typeface {
                    None => None,
                    Some(t) => {
                        let ghost t0 = t;
                        let font = make_font(t);
                        let ghost f0 = font;
                        let result = font.clone();
                        let stored = key.duplicate();
                        let ghost before = self.fonts@;
                        let ghost fonts0 = self.fonts();
                        proof {
                            lemma_pairs_map_push(font_pairs_view(before), key.view(), font);
                        }
                        self.fonts.push((stored, font));
                        proof {
                            assert(font_pairs_view(self.fonts@) =~= font_pairs_view(before).push((key.view(), f0)));
                            assert(self.fonts() == fonts0.insert(key.view(), f0));
                            assert(call_ensures(make_font, (t0,), f0));
                            assert(typeface_step(bases0, typefaces0, key.typeface.view(), load, vary, Some(t0), self.bases(), self.typefaces()));
                        }
                        Some(result)
                    },
                }
            },
        }
    }
}

} // verus!

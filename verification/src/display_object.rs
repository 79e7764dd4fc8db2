//! The properties that every display object carries, and how a
//! PlaceObject tag changes them.

use vstd::prelude::*;
use crate::place_object::PlaceObjectRecord;
use crate::swf_io;
use crate::tags::{Color, ColorTransform, Matrix, SwfBlendMode};

verus! {

/// An object's bitmap cache: the scale and skew of the matrix (raw 16.16
/// values `a`, `b`, `c`, `d`) and the size of the unfiltered drawing it was
/// last made for, the offset the filtered drawing is drawn at, and the size
/// of its texture, when it has one.  A cache made dirty remembers no matrix,
/// so that no matrix matches it.
#[derive(Debug, Clone, Copy)]
pub struct BitmapCache {
    pub matrix: Option<(i32, i32, i32, i32)>,
    pub source_width: u16,
    pub source_height: u16,
    pub draw_offset: (i32, i32),
    pub texture: Option<(u16, u16)>,
}

/// A new cache: made for a zero matrix and an empty drawing, without a
/// texture.
pub open spec fn spec_new_cache() -> BitmapCache {
    BitmapCache { matrix: Some((0, 0, 0, 0)), source_width: 0, source_height: 0, draw_offset: (0, 0), texture: None }
}

/// The scale and skew part of a matrix, as a cache remembers it.
pub open spec fn spec_scale_skew(m: Matrix) -> (i32, i32, i32, i32) {
    (m.a, m.b, m.c, m.d)
}

/// Whether a cache must be drawn again for the matrix `m` and an
/// unfiltered drawing of `width` by `height`: the scale, skew or size
/// changed, it was made dirty, or it has no texture.
pub open spec fn spec_cache_dirty(c: BitmapCache, m: Matrix, width: u16, height: u16) -> bool {
    c.matrix != Some(spec_scale_skew(m)) || c.source_width != width || c.source_height != height || c.texture is None
}

/// What updating a bitmap cache does with its texture.
#[derive(Debug, Clone, Copy, PartialEq, Eq, Structural)]
pub enum CacheResize {
    /// The texture already has the wanted size.
    Keep,
    /// A texture of this size is made (the renderer may still fail).
    Allocate { width: u16, height: u16 },
    /// The cache is left without a texture.
    Drop,
}

/// The largest cache texture a movie may ask for: below 8191 pixels a side
/// and 16777215 pixels in all from version 10 on, below 2880 a side before.
pub open spec fn spec_cache_size_acceptable(swf_version: u8, width: u16, height: u16) -> bool {
    if swf_version > 9 {
        width < 8191 && height < 8191 && (width as int) * (height as int) < 16777215
    } else {
        width < 2880 && height < 2880
    }
}

/// What an update of a cache whose texture has `current` size does when
/// the filtered drawing needs `width` by `height` pixels.
pub open spec fn spec_cache_resize(
    current: Option<(u16, u16)>,
    width: u16,
    height: u16,
    swf_version: u8,
    offscreen_supported: bool,
) -> CacheResize {
    if current == Some((width, height)) {
        CacheResize::Keep
    } else if offscreen_supported && width > 0 && height > 0 && spec_cache_size_acceptable(swf_version, width, height) {
        CacheResize::Allocate { width, height }
    } else {
        CacheResize::Drop
    }
}

impl BitmapCache {
    /// A new cache (`spec_new_cache`).
    pub fn new() -> (r: BitmapCache)
        ensures
            r == spec_new_cache(),
    {
        BitmapCache { matrix: Some((0, 0, 0, 0)), source_width: 0, source_height: 0, draw_offset: (0, 0), texture: None }
    }

    /// Makes the cache dirty, so that the next frame draws it again.
    pub fn make_dirty(&mut self)
        ensures
            *final(self) == (BitmapCache { matrix: None, ..*old(self) }),
    {
        self.matrix = None;
    }

    /// Whether the cache must be drawn again for the matrix `matrix` and an
    /// unfiltered drawing of `source_width` by `source_height`.
    pub fn is_dirty(&self, matrix: &Matrix, source_width: u16, source_height: u16) -> (r: bool)
        ensures
            r == spec_cache_dirty(*self, *matrix, source_width, source_height),
    {
        let same_matrix = match self.matrix {
            Some((a, b, c, d)) => a == matrix.a && b == matrix.b && c == matrix.c && d == matrix.d,
            None => false,
        };
        !same_matrix || self.source_width != source_width || self.source_height != source_height || self.texture.is_none()
    }

    /// Clears the dirtiness: remembers the matrix, the sizes and the draw
    /// offset, and makes sure a texture of `actual_width` by
    /// `actual_height` is there, as `resize` decides (keeping the one
    /// there, taking a new one, or dropping it).  The caller asks the
    /// renderer for a new texture and calls `clear` when it cannot have one.
    pub fn update(
        &mut self,
        matrix: &Matrix,
        source_width: u16,
        source_height: u16,
        actual_width: u16,
        actual_height: u16,
        draw_offset: (i32, i32),
        swf_version: u8,
        offscreen_supported: bool,
    ) -> (r: CacheResize)
        ensures
            r == spec_cache_resize(old(self).texture, actual_width, actual_height, swf_version, offscreen_supported),
            final(self).matrix == Some(spec_scale_skew(*matrix)),
            final(self).source_width == source_width,
            final(self).source_height == source_height,
            final(self).draw_offset == draw_offset,
            final(self).texture == match r {
                CacheResize::Keep => old(self).texture,
                CacheResize::Allocate { width, height } => Some((width, height)),
                CacheResize::Drop => None,
            },
    {
        self.matrix = Some((matrix.a, matrix.b, matrix.c, matrix.d));
        self.source_width = source_width;
        self.source_height = source_height;
        self.draw_offset = draw_offset;
        let r = BitmapCache::resize(self.texture, actual_width, actual_height, swf_version, offscreen_supported);
        match r {
            CacheResize::Keep => {},
            CacheResize::Allocate { width, height } => {
                self.texture = Some((width, height));
            },
            CacheResize::Drop => {
                self.texture = None;
            },
        }
        r
    }

    /// Drops the texture, when the cache cannot be drawn to for now.
    pub fn clear(&mut self)
        ensures
            *final(self) == (BitmapCache { texture: None, ..*old(self) }),
    {
        self.texture = None;
    }

    /// Decides what updating the cache does with its texture: keeps one of
    /// the wanted size, makes a new one when the renderer can draw offscreen
    /// and the size is not empty and within the movie's limits, and drops
    /// it otherwise.
    pub fn resize(current: Option<(u16, u16)>, width: u16, height: u16, swf_version: u8, offscreen_supported: bool) -> (r: CacheResize)
        ensures
            r == spec_cache_resize(current, width, height, swf_version, offscreen_supported),
    {
        if let Some((w, h)) = current {
            if w == width && h == height {
                return CacheResize::Keep;
            }
        }
        let acceptable = if swf_version > 9 {
            let (w, h) = (width as u32, height as u32);
            assert(w * h <= 0xffff * 0xffff) by (nonlinear_arith)
                requires
                    w <= 0xffff,
                    h <= 0xffff,
            ;
            let total: u32 = w * h;
            width < 8191 && height < 8191 && total < 16777215
        } else {
            width < 2880 && height < 2880
        };
        if offscreen_supported && width > 0 && height > 0 && acceptable {
            CacheResize::Allocate { width, height }
        } else {
            CacheResize::Drop
        }
    }
}

/// The state shared by all display objects.
pub struct DisplayObjectBase {
    pub place_frame: u16,
    pub depth: u16,
    pub clip_depth: u16,
    pub name: Option<String>,
    pub matrix: Matrix,
    pub color_transform: ColorTransform,
    pub blend_mode: SwfBlendMode,
    pub visible: bool,
    pub is_root: bool,
    pub cache_as_bitmap: bool,
    pub cache_invalidated: bool,
    pub opaque_background: Option<Color>,
    pub filters: Vec<swf::Filter>,
    pub cache: Option<BitmapCache>,
}

/// The cache an object should have: one while it asks to be cached or has
/// filters, none otherwise; an existing cache is kept as it is.
pub open spec fn spec_recheck_cache(b: DisplayObjectBase) -> Option<BitmapCache> {
    let should_cache = b.cache_as_bitmap || b.filters@.len() > 0;
    if should_cache && b.cache is None {
        Some(spec_new_cache())
    } else if !should_cache && b.cache is Some {
        None
    } else {
        b.cache
    }
}

/// The opaque background as it is stored: always fully opaque.
pub open spec fn spec_opaque(value: Option<Color>) -> Option<Color> {
    match value {
        Some(c) => Some(Color { a: 255, ..c }),
        None => None,
    }
}

/// The background color that a PlaceObject tag asks for: a transparent
/// color removes the background, any other is made opaque.
pub open spec fn spec_background_from_tag(c: Color) -> Option<Color> {
    if c.a > 0 { Some(Color { a: 255, ..c }) } else { None }
}

/// The object after `invalidate_cached_bitmap`: the first call in a frame
/// marks the cache (if any) and sets the frame's flag; later calls do
/// nothing.
pub open spec fn spec_invalidate(b: DisplayObjectBase) -> DisplayObjectBase {
    if b.cache_invalidated {
        b
    } else {
        DisplayObjectBase {
            cache: match b.cache {
                Some(c) => Some(BitmapCache { matrix: None, ..c }),
                None => None,
            },
            cache_invalidated: true,
            ..b
        }
    }
}

/// The object after its opaque background is set through the display
/// object interface: a change invalidates the bitmap cache.
pub open spec fn spec_set_opaque_background(b: DisplayObjectBase, value: Option<Color>) -> DisplayObjectBase {
    let stored = spec_opaque(value);
    let set = DisplayObjectBase { opaque_background: stored, ..b };
    if stored != b.opaque_background { spec_invalidate(set) } else { set }
}

/// A PlaceObject tag's matrix and color transform, applied.
pub open spec fn spec_place_transform(b: DisplayObjectBase, p: PlaceObjectRecord) -> DisplayObjectBase {
    DisplayObjectBase {
        matrix: match p.matrix { Some(m) => m, None => b.matrix },
        color_transform: match p.color_transform { Some(c) => c, None => b.color_transform },
        ..b
    }
}

/// A PlaceObject tag's cache preference and blend mode, applied.
pub open spec fn spec_place_cache_and_blend(b: DisplayObjectBase, p: PlaceObjectRecord) -> DisplayObjectBase {
    let b2 = match p.is_bitmap_cached {
        Some(c) => {
            let pref = DisplayObjectBase { cache_as_bitmap: c, ..b };
            DisplayObjectBase { cache: spec_recheck_cache(pref), ..pref }
        },
        None => b,
    };
    match p.blend_mode {
        Some(m) => DisplayObjectBase { blend_mode: m, ..b2 },
        None => b2,
    }
}

/// A PlaceObject tag's visibility and background, applied; both count
/// from SWF version 11.
pub open spec fn spec_place_visibility(b: DisplayObjectBase, p: PlaceObjectRecord, swf_version: u8) -> DisplayObjectBase {
    if swf_version >= 11 {
        let b4 = match p.is_visible {
            Some(v) => DisplayObjectBase { visible: v, ..b },
            None => b,
        };
        match p.background_color {
            Some(c) => spec_set_opaque_background(b4, spec_background_from_tag(c)),
            None => b4,
        }
    } else {
        b
    }
}

/// The object after every property of a PlaceObject tag but the filter
/// list is applied, in the order the player applies them.
pub open spec fn spec_apply_place_object_properties(
    b: DisplayObjectBase,
    p: PlaceObjectRecord,
    swf_version: u8,
) -> DisplayObjectBase {
    spec_place_visibility(spec_place_cache_and_blend(spec_place_transform(b, p), p), p, swf_version)
}

/// `after` is `before` with a PlaceObject tag applied: every property but
/// the filter list as `spec_apply_place_object_properties` says; the tag's
/// filter list, when it has one, replaces the current one, with the cache
/// rechecked, unless the filters' own equality finds the two lists equal.
pub open spec fn spec_place_applied(
    before: DisplayObjectBase,
    p: PlaceObjectRecord,
    swf_version: u8,
    after: DisplayObjectBase,
) -> bool {
    let props = spec_apply_place_object_properties(before, p, swf_version);
    match p.filters {
        None => after == props,
        Some(fs) => if swf_io::spec_filters_equal(fs@, props.filters@) {
            after == props
        } else {
            after.filters@ == fs@ && after == ({
                let set = DisplayObjectBase { filters: after.filters, ..props };
                DisplayObjectBase { cache: spec_recheck_cache(set), ..set }
            })
        },
    }
}

impl DisplayObjectBase {
    /// Whether this value is a fresh object (its filter list compared by
    /// its contents).
    pub open spec fn is_fresh(self) -> bool {
        &&& self.place_frame == 0
        &&& self.depth == 0
        &&& self.clip_depth == 0
        &&& self.name is None
        &&& self.matrix == Matrix::spec_identity()
        &&& self.color_transform == ColorTransform::spec_identity()
        &&& self.blend_mode == SwfBlendMode::Normal
        &&& self.visible
        &&& !self.is_root
        &&& !self.cache_as_bitmap
        &&& !self.cache_invalidated
        &&& self.opaque_background is None
        &&& self.filters@.len() == 0
        &&& self.cache is None
    }

    /// Creates a fresh object.
    pub fn new() -> (r: DisplayObjectBase)
        ensures
            r.is_fresh(),
    {
        DisplayObjectBase {
            place_frame: 0,
            depth: 0,
            clip_depth: 0,
            name: None,
            matrix: Matrix::identity(),
            color_transform: ColorTransform::identity(),
            blend_mode: SwfBlendMode::Normal,
            visible: true,
            is_root: false,
            cache_as_bitmap: false,
            cache_invalidated: false,
            opaque_background: None,
            filters: Vec::new(),
            cache: None,
        }
    }

    /// The object's name, if it has one.
    pub fn name(&self) -> (r: Option<&str>)
        ensures
            match self.name {
                Some(s) => r matches Some(t) && t@ == s@,
                None => r is None,
            },
    {
        match &self.name {
            Some(s) => Some(s.as_str()),
            None => None,
        }
    }

    /// Whether the object is visible.
    pub fn visible(&self) -> (r: bool)
        ensures
            r == self.visible,
    {
        self.visible
    }

    /// Whether the object has a bitmap cache.
    pub fn is_bitmap_cached(&self) -> (r: bool)
        ensures
            r == (self.cache is Some),
    {
        self.cache.is_some()
    }

    /// Renames the object.
    pub fn set_name(&mut self, name: Option<String>)
        ensures
            *final(self) == (DisplayObjectBase { name, ..*old(self) }),
    {
        self.name = name;
    }

    /// Replaces the object's matrix.
    pub fn set_matrix(&mut self, matrix: Matrix)
        ensures
            *final(self) == (DisplayObjectBase { matrix, ..*old(self) }),
    {
        self.matrix = matrix;
    }

    /// Replaces the object's color transform.
    pub fn set_color_transform(&mut self, color_transform: ColorTransform)
        ensures
            *final(self) == (DisplayObjectBase { color_transform, ..*old(self) }),
    {
        self.color_transform = color_transform;
    }

    /// Marks the object as the root of its movie.
    pub fn set_root(&mut self)
        ensures
            *final(self) == (DisplayObjectBase { is_root: true, ..*old(self) }),
    {
        self.is_root = true;
    }

    /// Moves the object to a depth.
    pub fn set_depth(&mut self, depth: u16)
        ensures
            *final(self) == (DisplayObjectBase { depth, ..*old(self) }),
    {
        self.depth = depth;
    }

    /// Records the frame on which the object was placed.
    pub fn set_place_frame(&mut self, frame: u16)
        ensures
            *final(self) == (DisplayObjectBase { place_frame: frame, ..*old(self) }),
    {
        self.place_frame = frame;
    }

    /// Makes the object a mask for the depths up to `depth`.
    pub fn set_clip_depth(&mut self, depth: u16)
        ensures
            *final(self) == (DisplayObjectBase { clip_depth: depth, ..*old(self) }),
    {
        self.clip_depth = depth;
    }

    /// Creates or drops the bitmap cache as the preference and the filters
    /// ask.
    pub fn recheck_cache_as_bitmap(&mut self)
        ensures
            *final(self) == (DisplayObjectBase { cache: spec_recheck_cache(*old(self)), ..*old(self) }),
    {
        let should_cache = self.cache_as_bitmap || self.filters.len() > 0;
        if should_cache && self.cache.is_none() {
            self.cache = Some(BitmapCache::new());
        } else if !should_cache && self.cache.is_some() {
            self.cache = None;
        }
    }

    /// Sets whether the object asks to be cached as a bitmap.
    pub fn set_bitmap_cached_preference(&mut self, value: bool)
        ensures
            ({
                let pref = DisplayObjectBase { cache_as_bitmap: value, ..*old(self) };
                *final(self) == (DisplayObjectBase { cache: spec_recheck_cache(pref), ..pref })
            }),
    {
        self.cache_as_bitmap = value;
        self.recheck_cache_as_bitmap();
    }

    /// Sets the blend mode; tells whether it changed.
    pub fn set_blend_mode(&mut self, value: SwfBlendMode) -> (changed: bool)
        ensures
            *final(self) == (DisplayObjectBase { blend_mode: value, ..*old(self) }),
            changed == (old(self).blend_mode != value),
    {
        let changed = self.blend_mode != value;
        self.blend_mode = value;
        changed
    }

    /// Sets the filter list when it differs from the current one (as the
    /// filters' own equality decides: a list of another length always
    /// differs, two empty lists never do), rechecking the cache; tells
    /// whether it changed.
    pub fn set_filters(&mut self, filters: Vec<swf::Filter>) -> (changed: bool)
        ensures
            changed == !swf_io::spec_filters_equal(filters@, old(self).filters@),
            filters@.len() != old(self).filters@.len() ==> changed,
            filters@.len() == 0 && old(self).filters@.len() == 0 ==> !changed,
            changed ==> ({
                let set = DisplayObjectBase { filters, ..*old(self) };
                *final(self) == (DisplayObjectBase { cache: spec_recheck_cache(set), ..set })
            }),
            !changed ==> *final(self) == *old(self),
    {
        if !swf_io::filters_eq(&filters, &self.filters) {
            self.filters = filters;
            self.recheck_cache_as_bitmap();
            true
        } else {
            false
        }
    }

    /// Shows or hides the object; tells whether that changed.
    pub fn set_visible(&mut self, visible: bool) -> (changed: bool)
        ensures
            *final(self) == (DisplayObjectBase { visible, ..*old(self) }),
            changed == (old(self).visible != visible),
    {
        let changed = self.visible != visible;
        self.visible = visible;
        changed
    }

    /// Sets the opaque background, made fully opaque; tells whether it
    /// changed.
    pub fn set_opaque_background(&mut self, value: Option<Color>) -> (changed: bool)
        ensures
            *final(self) == (DisplayObjectBase { opaque_background: spec_opaque(value), ..*old(self) }),
            changed == (spec_opaque(value) != old(self).opaque_background),
    {
        let value = match value {
            Some(c) => Some(Color { r: c.r, g: c.g, b: c.b, a: 255 }),
            None => None,
        };
        let changed = match (value, self.opaque_background) {
            (Some(x), Some(y)) => x != y,
            (None, None) => false,
            _ => true,
        };
        self.opaque_background = value;
        changed
    }

    /// Marks the bitmap cache for regeneration, once per frame; tells
    /// whether this call did it.
    pub fn invalidate_cached_bitmap(&mut self) -> (done: bool)
        ensures
            *final(self) == spec_invalidate(*old(self)),
            done == !old(self).cache_invalidated,
    {
        if self.cache_invalidated {
            return false;
        }
        match &mut self.cache {
            Some(c) => c.make_dirty(),
            None => {},
        }
        self.cache_invalidated = true;
        true
    }

    /// Clears the once-per-frame invalidation flag.
    pub fn clear_invalidate_flag(&mut self)
        ensures
            *final(self) == (DisplayObjectBase { cache_invalidated: false, ..*old(self) }),
    {
        self.cache_invalidated = false;
    }

    /// Sets the opaque background as the display object interface does:
    /// a change invalidates the bitmap cache.
    pub fn set_opaque_background_and_invalidate(&mut self, value: Option<Color>)
        ensures
            *final(self) == spec_set_opaque_background(*old(self), value),
    {
        if self.set_opaque_background(value) {
            self.invalidate_cached_bitmap();
        }
    }

    /// Applies a PlaceObject tag's matrix and color transform.
    fn apply_place_transform(&mut self, place_object: &PlaceObjectRecord)
        ensures
            *final(self) == spec_place_transform(*old(self), *place_object),
    {
        if let Some(matrix) = place_object.matrix {
            self.set_matrix(matrix);
        }
        if let Some(color_transform) = place_object.color_transform {
            self.set_color_transform(color_transform);
        }
    }

    /// Applies a PlaceObject tag's cache preference and blend mode.
    fn apply_place_cache_and_blend(&mut self, place_object: &PlaceObjectRecord)
        ensures
            *final(self) == spec_place_cache_and_blend(*old(self), *place_object),
    {
        if let Some(is_bitmap_cached) = place_object.is_bitmap_cached {
            self.set_bitmap_cached_preference(is_bitmap_cached);
        }
        if let Some(blend_mode) = place_object.blend_mode {
            self.set_blend_mode(blend_mode);
        }
    }

    /// Applies a PlaceObject tag's visibility and background.
    fn apply_place_visibility(&mut self, place_object: &PlaceObjectRecord, swf_version: u8)
        ensures
            *final(self) == spec_place_visibility(*old(self), *place_object, swf_version),
    {
        if swf_version >= 11 {
            if let Some(visible) = place_object.is_visible {
                self.set_visible(visible);
            }
            if let Some(color) = place_object.background_color {
                let color = if color.a > 0 {
                    Some(Color { r: color.r, g: color.g, b: color.b, a: 255 })
                } else {
                    None
                };
                self.set_opaque_background_and_invalidate(color);
            }
        }
    }

    /// Applies the properties of a PlaceObject tag to the object.  The
    /// filter list is replaced when the filters' own equality finds it
    /// different.
    pub fn apply_place_object(&mut self, place_object: &PlaceObjectRecord, swf_version: u8)
        ensures
            spec_place_applied(*old(self), *place_object, swf_version, *final(self)),
    {
        self.apply_place_transform(place_object);
        self.apply_place_cache_and_blend(place_object);
        self.apply_place_visibility(place_object, swf_version);
        match &place_object.filters {
            Some(filters) => {
                let filters = swf_io::clone_filters(filters);
                self.set_filters(filters);
            },
            None => {},
        }
    }
}

} // verus!

verus! {

/// A morph shape placed on a timeline, at a ratio of its morph.
pub struct MorphShape {
    pub base: DisplayObjectBase,
    pub ratio: u16,
}

impl MorphShape {
    /// A fresh morph shape at `ratio`.
    pub fn new(ratio: u16) -> (r: MorphShape)
        ensures
            r.base.is_fresh(),
            r.ratio == ratio,
    {
        MorphShape { base: DisplayObjectBase::new(), ratio }
    }

    /// Moves the morph to `ratio`.
    pub fn set_ratio(&mut self, ratio: u16)
        ensures
            final(self).ratio == ratio,
            final(self).base == old(self).base,
    {
        self.ratio = ratio;
    }
}

/// A rectangle in twips.
#[derive(Debug, Clone, Copy, PartialEq, Eq, Structural)]
pub struct Rect {
    pub x_min: i32,
    pub x_max: i32,
    pub y_min: i32,
    pub y_max: i32,
}

/// A shape placed on a timeline.
pub struct Graphic {
    pub id: u16,
    pub shape: swf::Shape,
    pub bounds: Rect,
    pub base: DisplayObjectBase,
}


/// `a` is a copy of `b`: the same properties, with the name and the filter
/// list equal as values.
pub open spec fn base_copy_of(a: DisplayObjectBase, b: DisplayObjectBase) -> bool {
    &&& a.place_frame == b.place_frame
    &&& a.depth == b.depth
    &&& a.clip_depth == b.clip_depth
    &&& match (a.name, b.name) {
        (Some(x), Some(y)) => x@ == y@,
        (None, None) => true,
        _ => false,
    }
    &&& a.matrix == b.matrix
    &&& a.color_transform == b.color_transform
    &&& a.blend_mode == b.blend_mode
    &&& a.visible == b.visible
    &&& a.is_root == b.is_root
    &&& a.cache_as_bitmap == b.cache_as_bitmap
    &&& a.cache_invalidated == b.cache_invalidated
    &&& a.opaque_background == b.opaque_background
    &&& a.filters@ == b.filters@
    &&& a.cache == b.cache
}

impl DisplayObjectBase {
    /// A copy of the properties.
    pub fn copy(&self) -> (r: DisplayObjectBase)
        ensures
            base_copy_of(r, *self),
    {
        let name = match &self.name {
            Some(s) => Some(s.clone()),
            None => None,
        };
        DisplayObjectBase {
            place_frame: self.place_frame,
            depth: self.depth,
            clip_depth: self.clip_depth,
            name,
            matrix: self.matrix,
            color_transform: self.color_transform,
            blend_mode: self.blend_mode,
            visible: self.visible,
            is_root: self.is_root,
            cache_as_bitmap: self.cache_as_bitmap,
            cache_invalidated: self.cache_invalidated,
            opaque_background: self.opaque_background,
            filters: swf_io::clone_filters(&self.filters),
            cache: self.cache,
        }
    }
}

impl Graphic {
    /// A copy of the graphic.
    pub fn copy(&self) -> (r: Graphic)
        ensures
            r.id == self.id,
            r.shape == self.shape,
            r.bounds == self.bounds,
            base_copy_of(r.base, self.base),
    {
        Graphic {
            id: self.id,
            shape: swf_io::clone_shape(&self.shape),
            bounds: self.bounds,
            base: self.base.copy(),
        }
    }
}

impl Graphic {
    /// A graphic for a decoded DefineShape tag, with fresh properties.
    pub fn from_swf_tag(shape: swf::Shape) -> (r: Graphic)
        ensures
            r.shape == shape,
            r.base.is_fresh(),
    {
        let id = crate::swf_io::shape_id(&shape);
        let (x_min, x_max, y_min, y_max) = crate::swf_io::shape_bounds(&shape);
        Graphic { id, shape, bounds: Rect { x_min, x_max, y_min, y_max }, base: DisplayObjectBase::new() }
    }
}

} // verus!

verus! {

/// An object on a timeline: a movie clip with its own timeline, or a shape.
pub enum DisplayObject {
    MovieClip(crate::movie_clip::MovieClip),
    Graphic(Graphic),
}

/// The shared properties of a display object.
pub open spec fn base_of(o: DisplayObject) -> DisplayObjectBase {
    match o {
        DisplayObject::MovieClip(mc) => mc.base,
        DisplayObject::Graphic(g) => g.base,
    }
}

/// The object with its shared properties replaced.
pub open spec fn with_base(o: DisplayObject, b: DisplayObjectBase) -> DisplayObject {
    match o {
        DisplayObject::MovieClip(mc) => DisplayObject::MovieClip(crate::movie_clip::MovieClip { base: b, ..mc }),
        DisplayObject::Graphic(g) => DisplayObject::Graphic(Graphic { base: b, ..g }),
    }
}

/// The character id the object was instantiated from.
pub open spec fn character_id_of(o: DisplayObject) -> u16 {
    match o {
        DisplayObject::MovieClip(mc) => mc.id,
        DisplayObject::Graphic(g) => g.id,
    }
}

impl DisplayObject {
    /// The shared properties.
    pub fn base(&self) -> (r: &DisplayObjectBase)
        ensures
            *r == base_of(*self),
    {
        match self {
            DisplayObject::MovieClip(mc) => &mc.base,
            DisplayObject::Graphic(g) => &g.base,
        }
    }

    /// The depth the object sits at.
    pub fn depth(&self) -> (r: u16)
        ensures
            r == base_of(*self).depth,
    {
        self.base().depth
    }

    /// The frame of its parent on which the object was placed.
    pub fn place_frame(&self) -> (r: u16)
        ensures
            r == base_of(*self).place_frame,
    {
        self.base().place_frame
    }

    /// The depth up to which the object masks, 0 when it is no mask.
    pub fn clip_depth(&self) -> (r: u16)
        ensures
            r == base_of(*self).clip_depth,
    {
        self.base().clip_depth
    }

    /// The character id the object was instantiated from.
    pub fn character_id(&self) -> (r: u16)
        ensures
            r == character_id_of(*self),
    {
        match self {
            DisplayObject::MovieClip(mc) => mc.id,
            DisplayObject::Graphic(g) => g.id,
        }
    }

    /// Every display object may act as a mask.
    pub fn allow_as_mask(&self) -> (r: bool)
        ensures
            r,
    {
        true
    }

    /// Moves the object to a depth.
    pub fn set_depth(&mut self, depth: u16)
        ensures
            *final(self) == with_base(*old(self), DisplayObjectBase { depth, ..base_of(*old(self)) }),
    {
        match self {
            DisplayObject::MovieClip(mc) => mc.base.set_depth(depth),
            DisplayObject::Graphic(g) => g.base.set_depth(depth),
        }
    }

    /// Records the frame on which the object was placed.
    pub fn set_place_frame(&mut self, frame: u16)
        ensures
            *final(self) == with_base(*old(self), DisplayObjectBase { place_frame: frame, ..base_of(*old(self)) }),
    {
        match self {
            DisplayObject::MovieClip(mc) => mc.base.set_place_frame(frame),
            DisplayObject::Graphic(g) => g.base.set_place_frame(frame),
        }
    }

    /// Makes the object a mask for the depths up to `depth`.
    pub fn set_clip_depth(&mut self, depth: u16)
        ensures
            *final(self) == with_base(*old(self), DisplayObjectBase { clip_depth: depth, ..base_of(*old(self)) }),
    {
        match self {
            DisplayObject::MovieClip(mc) => mc.base.set_clip_depth(depth),
            DisplayObject::Graphic(g) => g.base.set_clip_depth(depth),
        }
    }

    /// Renames the object.
    pub fn set_name(&mut self, name: Option<String>)
        ensures
            *final(self) == with_base(*old(self), DisplayObjectBase { name, ..base_of(*old(self)) }),
    {
        match self {
            DisplayObject::MovieClip(mc) => mc.base.set_name(name),
            DisplayObject::Graphic(g) => g.base.set_name(name),
        }
    }
}

} // verus!

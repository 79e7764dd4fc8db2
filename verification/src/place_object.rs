//! The PlaceObject record in plain values.

use vstd::prelude::*;
use crate::swf_io;
use crate::tags::{Color, ColorTransform, Matrix, PlaceObjectAction, SwfBlendMode};

verus! {

/// A PlaceObject tag (any version) in plain values: every property is
/// optional and, when present, overrides the one of the object at `depth`.
pub struct PlaceObjectRecord {
    pub version: u8,
    pub action: PlaceObjectAction,
    pub depth: u16,
    pub matrix: Option<Matrix>,
    pub color_transform: Option<ColorTransform>,
    pub ratio: Option<u16>,
    pub name: Option<String>,
    pub clip_depth: Option<u16>,
    pub filters: Option<Vec<swf::Filter>>,
    pub background_color: Option<Color>,
    pub blend_mode: Option<SwfBlendMode>,
    pub is_bitmap_cached: Option<bool>,
    pub is_visible: Option<bool>,
}

/// What the `swf` crate decodes from a PlaceObject tag body of the given
/// layout version (1 for PlaceObject, 2 to 4 for the later layouts): the
/// depth, the action and the other properties; none when it reports an
/// error.
pub open spec fn spec_place_decoded(body: Seq<u8>, swf_version: u8, place_version: u8) -> Option<(u16, PlaceObjectAction, swf_io::PlaceFields)> {
    if place_version == 1 {
        swf_io::spec_place_object_1(body, swf_version)
    } else {
        swf_io::spec_place_object_2_or_3(body, swf_version, place_version)
    }
}

/// The depth and the action that the `swf` crate decodes from a
/// PlaceObject tag body; none when it reports an error.
pub open spec fn spec_place_header(body: Seq<u8>, swf_version: u8, place_version: u8) -> Option<(u16, PlaceObjectAction)> {
    match spec_place_decoded(body, swf_version, place_version) {
        Some((d, a, _)) => Some((d, a)),
        None => None,
    }
}

/// `r` holds the decoded properties `f`: matrix, color transform, ratio,
/// clip depth, bitmap caching, visibility, name, background color, blend
/// mode (by its number) and filters.
pub open spec fn fields_match(f: swf_io::PlaceFields, r: PlaceObjectRecord) -> bool {
    let (ratio, clip_depth, is_bitmap_cached, is_visible) = f.2;
    &&& r.matrix == f.0
    &&& r.color_transform == f.1
    &&& r.ratio == ratio
    &&& r.clip_depth == clip_depth
    &&& r.is_bitmap_cached == is_bitmap_cached
    &&& r.is_visible == is_visible
    &&& match r.name {
        Some(n) => f.3 == Some(n@),
        None => f.3 is None,
    }
    &&& r.background_color == f.4
    &&& r.blend_mode == match f.5 {
        Some(n) => Some(crate::tags::spec_blend_mode_from_number(n)),
        None => None,
    }
    &&& match r.filters {
        Some(v) => f.6 == Some(v@),
        None => f.6 is None,
    }
}

/// `r` is the record of the PlaceObject tag body `body` (layout
/// `place_version`, SWF version `swf_version`): the layout version, and the
/// depth, action and properties the `swf` crate decodes from the body.
pub open spec fn record_read(body: Seq<u8>, swf_version: u8, place_version: u8, r: PlaceObjectRecord) -> bool {
    match spec_place_decoded(body, swf_version, place_version) {
        Some((d, a, f)) => r.version == place_version && r.depth == d && r.action == a && fields_match(f, r),
        None => false,
    }
}

/// Decodes a PlaceObject tag body of the given layout version with the
/// `swf` crate: `None` when the crate reports an error, otherwise the
/// record of the body (`record_read`).
pub fn read_place_object(body: &[u8], swf_version: u8, place_version: u8) -> (r: Option<PlaceObjectRecord>)
    ensures
        match spec_place_decoded(body@, swf_version, place_version) {
            Some(_) => r matches Some(p) && record_read(body@, swf_version, place_version, p),
            None => r is None,
        },
{
    let parsed = if place_version == 1 {
        swf_io::read_place_object_1(body, swf_version)
    } else {
        swf_io::read_place_object_2_or_3(body, swf_version, place_version)
    };
    match parsed {
        Ok((depth, action, p)) => {
            let ghost f = swf_io::spec_fields_of(p, swf_version);
            let (ratio, clip_depth, is_bitmap_cached, is_visible) = swf_io::place_flags(&p);
            let matrix = swf_io::place_matrix(&p);
            let color_transform = swf_io::place_color_transform(&p);
            let name = swf_io::place_name(&p, swf_version);
            let background_color = swf_io::place_background_color(&p);
            let blend_mode = match swf_io::place_blend_mode(&p) {
                Some(n) => Some(crate::tags::blend_mode_from_number(n)),
                None => None,
            };
            let filters = swf_io::place_filters(p);
            let r = PlaceObjectRecord {
                version: place_version,
                action,
                depth,
                matrix,
                color_transform,
                ratio,
                name,
                clip_depth,
                filters,
                background_color,
                blend_mode,
                is_bitmap_cached,
                is_visible,
            };
            assert(fields_match(f, r));
            Some(r)
        },
        Err(_) => None,
    }
}

} // verus!

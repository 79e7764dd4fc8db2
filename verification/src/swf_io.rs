//! The calls into the `swf` crate: decompressing a movie and decoding the
//! tag records whose layout is the crate's business (PlaceObject with its
//! bit-packed matrices, shapes, strings).

use vstd::prelude::*;
use crate::tags::{Color, ColorTransform, Matrix, PlaceObjectAction};

verus! {

#[verifier::external_type_specification]
#[verifier::external_body]
pub struct ExSwfError(swf::error::Error);

#[verifier::external_type_specification]
#[verifier::external_body]
pub struct ExSwfPlaceObject<'a>(swf::PlaceObject<'a>);

#[verifier::external_type_specification]
#[verifier::external_body]
pub struct ExSwfFilter(swf::Filter);

#[verifier::external_type_specification]
#[verifier::external_body]
pub struct ExSwfShape(swf::Shape);

/// What `swf::decompress_swf` makes of a file: the version, whether the
/// movie is ActionScript 3, its frame count, the length its header
/// declares, and the decompressed tag stream after the header.
pub uninterp spec fn spec_decompressed_swf(file: Seq<u8>) -> Option<(u8, bool, u16, i32, Seq<u8>)>;

/// What `Reader::read_frame_label` and `SwfStr::to_str_lossy` (with the
/// encoding that `SwfStr::encoding_for_version` picks) make of a FrameLabel
/// tag body.
pub uninterp spec fn spec_frame_label(body: Seq<u8>, swf_version: u8) -> Option<Seq<char>>;

/// The decimal digits of a number, most significant first.
pub open spec fn spec_decimal(n: nat) -> Seq<char>
    decreases n,
{
    let digit = (('0' as u32) + (n % 10) as u32) as char;
    if n < 10 {
        seq![digit]
    } else {
        spec_decimal(n / 10).push(digit)
    }
}

/// Appends the decimal digits of `n`, most significant first.
pub fn push_decimal(out: &mut Vec<char>, n: u16)
    ensures
        final(out)@ == old(out)@ + spec_decimal(n as nat),
    decreases n,
{
    if n >= 10 {
        push_decimal(out, n / 10);
    }
    let d: u8 = (n % 10) as u8;
    let c: char = (48u8 + d) as char;
    assert(c == ((('0' as u32) + ((n as nat) % 10) as u32) as char));
    out.push(c);
    assert(spec_decimal(n as nat) == (if n < 10 { seq![c] } else { spec_decimal((n / 10) as nat).push(c) }));
}

/// Collects characters into a `String` (`Iterator::collect`): the string
/// holds exactly those characters, in order.
#[verifier::external_body]
pub(crate) fn string_from_chars(chars: &Vec<char>) -> (r: String)
    ensures
        r@ == chars@,
{
    chars.iter().collect()
}

/// Calls `swf::decompress_swf`.  The contract claims only that the result
/// is a function of the file's bytes, and names it.
#[verifier::external_body]
pub(crate) fn decompress_swf(file: &[u8]) -> (r: Result<(u8, bool, u16, i32, Vec<u8>), swf::error::Error>)
    ensures
        match r {
            Ok(p) => spec_decompressed_swf(file@) == Some((p.0, p.1, p.2, p.3, p.4@)),
            Err(_) => spec_decompressed_swf(file@) is None,
        },
{
    match swf::decompress_swf(file) {
        Ok(buf) => Ok((
            buf.header.version(),
            buf.header.is_action_script_3(),
            buf.header.num_frames(),
            buf.header.uncompressed_len(),
            buf.data,
        )),
        Err(e) => Err(e),
    }
}

/// Calls `Reader::read_frame_label` on a tag body and decodes the label
/// with `SwfStr::to_str_lossy`.  The contract names the result as a
/// function of the body and the SWF version.
#[verifier::external_body]
pub(crate) fn read_frame_label(body: &[u8], swf_version: u8) -> (r: Option<String>)
    ensures
        match r {
            Some(s) => spec_frame_label(body@, swf_version) == Some(s@),
            None => spec_frame_label(body@, swf_version) is None,
        },
{
    match swf::read::Reader::new(body, swf_version).read_frame_label() {
        Ok(label) => Some(
            label.label.to_str_lossy(swf::SwfStr::encoding_for_version(swf_version)).into_owned(),
        ),
        Err(_) => None,
    }
}

/// The properties of a decoded PlaceObject besides its depth and action,
/// in plain values: the matrix, the color transform, the ratio, clip depth,
/// bitmap caching and visibility, the name (decoded for the SWF version),
/// the background color, the blend mode number and the filters.
pub type PlaceFields = (
    Option<Matrix>,
    Option<ColorTransform>,
    (Option<u16>, Option<u16>, Option<bool>, Option<bool>),
    Option<Seq<char>>,
    Option<Color>,
    Option<u8>,
    Option<Seq<swf::Filter>>,
);

/// The plain properties of a decoded PlaceObject, as the field readers
/// below read them.
pub open spec fn spec_fields_of(p: swf::PlaceObject, swf_version: u8) -> PlaceFields {
    (
        spec_place_matrix(p),
        spec_place_color_transform(p),
        spec_place_flags(p),
        spec_place_name(p, swf_version),
        spec_place_background_color(p),
        spec_place_blend_mode(p),
        spec_place_filters(p),
    )
}

/// The depth, the action and the other properties of the record that
/// `Reader::read_place_object` decodes from a version 1 PlaceObject body;
/// none when it reports an error.
pub uninterp spec fn spec_place_object_1(body: Seq<u8>, swf_version: u8) -> Option<(u16, PlaceObjectAction, PlaceFields)>;

/// The depth, the action and the other properties of the record that
/// `Reader::read_place_object_2_or_3` decodes from a PlaceObject body of
/// layout 2, 3 or 4; none when it reports an error.
pub uninterp spec fn spec_place_object_2_or_3(body: Seq<u8>, swf_version: u8, place_version: u8) -> Option<(u16, PlaceObjectAction, PlaceFields)>;

/// Calls `Reader::read_place_object` (the version 1 PlaceObject layout) and
/// hands out the decoded record with its `depth` and `action` (one variant
/// for one).  The contract names the depth, the action and the record's
/// other properties (as the field readers read them) as a function of the
/// body and the SWF version.
#[verifier::external_body]
pub(crate) fn read_place_object_1<'a>(body: &'a [u8], swf_version: u8) -> (r: Result<(u16, PlaceObjectAction, swf::PlaceObject<'a>), swf::error::Error>)
    ensures
        match r {
            Ok(t) => spec_place_object_1(body@, swf_version) == Some((t.0, t.1, spec_fields_of(t.2, swf_version))),
            Err(_) => spec_place_object_1(body@, swf_version) is None,
        },
{
    let p = swf::read::Reader::new(body, swf_version).read_place_object()?;
    let action = match p.action {
        swf::PlaceObjectAction::Place(id) => PlaceObjectAction::Place(id),
        swf::PlaceObjectAction::Modify => PlaceObjectAction::Modify,
        swf::PlaceObjectAction::Replace(id) => PlaceObjectAction::Replace(id),
        swf::PlaceObjectAction::None => PlaceObjectAction::NoAction,
    };
    Ok((p.depth, action, p))
}

/// Calls `Reader::read_place_object_2_or_3` (layouts 2, 3 and 4) and hands
/// out the decoded record with its `depth` and `action` (one variant for
/// one).  The contract names the depth, the action and the record's other
/// properties (as the field readers read them) as a function of the body,
/// the SWF version and the layout.
#[verifier::external_body]
pub(crate) fn read_place_object_2_or_3<'a>(body: &'a [u8], swf_version: u8, place_version: u8) -> (r: Result<(u16, PlaceObjectAction, swf::PlaceObject<'a>), swf::error::Error>)
    ensures
        match r {
            Ok(t) => spec_place_object_2_or_3(body@, swf_version, place_version) == Some((t.0, t.1, spec_fields_of(t.2, swf_version))),
            Err(_) => spec_place_object_2_or_3(body@, swf_version, place_version) is None,
        },
{
    let p = swf::read::Reader::new(body, swf_version).read_place_object_2_or_3(place_version)?;
    let action = match p.action {
        swf::PlaceObjectAction::Place(id) => PlaceObjectAction::Place(id),
        swf::PlaceObjectAction::Modify => PlaceObjectAction::Modify,
        swf::PlaceObjectAction::Replace(id) => PlaceObjectAction::Replace(id),
        swf::PlaceObjectAction::None => PlaceObjectAction::NoAction,
    };
    Ok((p.depth, action, p))
}

/// The `matrix` field of a decoded PlaceObject, as `place_matrix` reads it.
pub uninterp spec fn spec_place_matrix(p: swf::PlaceObject) -> Option<Matrix>;

/// Reads the `matrix` field of a decoded PlaceObject as raw fixed-point
/// and twips values (`Fixed16::get`, `Twips::get`); the result is named as
/// a function of the record.
#[verifier::external_body]
pub(crate) fn place_matrix(p: &swf::PlaceObject) -> (r: Option<Matrix>)
    ensures
        r == spec_place_matrix(*p),
{
    match p.matrix {
        Some(m) => Some(Matrix { a: m.a.get(), b: m.b.get(), c: m.c.get(), d: m.d.get(), tx: m.tx.get(), ty: m.ty.get() }),
        None => None,
    }
}

/// The `color_transform` field of a decoded PlaceObject, as
/// `place_color_transform` reads it.
pub uninterp spec fn spec_place_color_transform(p: swf::PlaceObject) -> Option<ColorTransform>;

/// Reads the `color_transform` field of a decoded PlaceObject as raw
/// fixed-point multipliers (`Fixed8::get`) and offsets; the result is
/// named as a function of the record.
#[verifier::external_body]
pub(crate) fn place_color_transform(p: &swf::PlaceObject) -> (r: Option<ColorTransform>)
    ensures
        r == spec_place_color_transform(*p),
{
    match p.color_transform {
        Some(c) => Some(ColorTransform {
            r_multiply: c.r_multiply.get(), g_multiply: c.g_multiply.get(),
            b_multiply: c.b_multiply.get(), a_multiply: c.a_multiply.get(),
            r_add: c.r_add, g_add: c.g_add, b_add: c.b_add, a_add: c.a_add,
        }),
        None => None,
    }
}

/// The `ratio`, `clip_depth`, `is_bitmap_cached` and `is_visible` fields
/// of a decoded PlaceObject, as `place_flags` reads them.
pub uninterp spec fn spec_place_flags(p: swf::PlaceObject) -> (Option<u16>, Option<u16>, Option<bool>, Option<bool>);

/// Reads the `ratio`, `clip_depth`, `is_bitmap_cached` and `is_visible`
/// fields of a decoded PlaceObject; the result is named as a function of
/// the record.
#[verifier::external_body]
pub(crate) fn place_flags(p: &swf::PlaceObject) -> (r: (Option<u16>, Option<u16>, Option<bool>, Option<bool>))
    ensures
        r == spec_place_flags(*p),
{
    (p.ratio, p.clip_depth, p.is_bitmap_cached, p.is_visible)
}

/// The `name` field of a decoded PlaceObject, as `place_name` decodes it.
pub uninterp spec fn spec_place_name(p: swf::PlaceObject, swf_version: u8) -> Option<Seq<char>>;

/// Reads the `name` field of a decoded PlaceObject, decoded with
/// `SwfStr::to_str_lossy` in the encoding for the SWF version; the text is
/// named as a function of the record and the version.
#[verifier::external_body]
pub(crate) fn place_name(p: &swf::PlaceObject, swf_version: u8) -> (r: Option<String>)
    ensures
        match r {
            Some(s) => spec_place_name(*p, swf_version) == Some(s@),
            None => spec_place_name(*p, swf_version) is None,
        },
{
    match p.name {
        Some(s) => Some(s.to_str_lossy(swf::SwfStr::encoding_for_version(swf_version)).into_owned()),
        None => None,
    }
}

/// The `background_color` field of a decoded PlaceObject, as
/// `place_background_color` reads it.
pub uninterp spec fn spec_place_background_color(p: swf::PlaceObject) -> Option<Color>;

/// Reads the `background_color` field of a decoded PlaceObject; the result
/// is named as a function of the record.
#[verifier::external_body]
pub(crate) fn place_background_color(p: &swf::PlaceObject) -> (r: Option<Color>)
    ensures
        r == spec_place_background_color(*p),
{
    match p.background_color {
        Some(c) => Some(Color { r: c.r, g: c.g, b: c.b, a: c.a }),
        None => None,
    }
}

/// The `filters` field of a decoded PlaceObject.
pub uninterp spec fn spec_place_filters(p: swf::PlaceObject) -> Option<Seq<swf::Filter>>;

/// Takes the `filters` field out of a decoded PlaceObject; the list is
/// named as a function of the record.
#[verifier::external_body]
pub(crate) fn place_filters(p: swf::PlaceObject) -> (r: Option<Vec<swf::Filter>>)
    ensures
        match r {
            Some(v) => spec_place_filters(p) == Some(v@),
            None => spec_place_filters(p) is None,
        },
{
    p.filters
}

/// The `blend_mode` field of a decoded PlaceObject, as `place_blend_mode`
/// numbers it.
pub uninterp spec fn spec_place_blend_mode(p: swf::PlaceObject) -> Option<u8>;

/// Reads the `blend_mode` field of a decoded PlaceObject as the number
/// the `swf` crate gives each variant (its SWF blend mode number); the
/// result is named as a function of the record.
#[verifier::external_body]
pub(crate) fn place_blend_mode(p: &swf::PlaceObject) -> (r: Option<u8>)
    ensures
        r == spec_place_blend_mode(*p),
{
    match p.blend_mode {
        Some(b) => Some(b as u8),
        None => None,
    }
}

/// The number of the variant of a decoded filter, as `filter_kind` tells
/// them apart.
pub uninterp spec fn spec_filter_kind(f: swf::Filter) -> u8;

/// Tells the kinds of decoded filters apart, one number per variant of
/// `swf::Filter`: 0 drop shadow, 1 blur, 2 glow, 3 bevel, 4 gradient glow,
/// 5 convolution, 6 color matrix, 7 gradient bevel.  The number is named
/// as a function of the filter, and is below 8.
#[verifier::external_body]
pub(crate) fn filter_kind(f: &swf::Filter) -> (r: u8)
    ensures
        r == spec_filter_kind(*f),
        r < 8,
{
    match f {
        swf::Filter::DropShadowFilter(_) => 0,
        swf::Filter::BlurFilter(_) => 1,
        swf::Filter::GlowFilter(_) => 2,
        swf::Filter::BevelFilter(_) => 3,
        swf::Filter::GradientGlowFilter(_) => 4,
        swf::Filter::ConvolutionFilter(_) => 5,
        swf::Filter::ColorMatrixFilter(_) => 6,
        swf::Filter::GradientBevelFilter(_) => 7,
    }
}

/// The blur radii and quality passes of a decoded filter, as
/// `filter_blur` reads them.
pub uninterp spec fn spec_filter_blur(f: swf::Filter) -> Option<(i32, i32, u8)>;

/// Reads the blur radii (raw 16.16 values, `Fixed16::get`) and the number
/// of quality passes (`num_passes`) of a blur, glow or bevel filter; none
/// for the other kinds.  The result is named as a function of the filter.
#[verifier::external_body]
pub(crate) fn filter_blur(f: &swf::Filter) -> (r: Option<(i32, i32, u8)>)
    ensures
        r == spec_filter_blur(*f),
        r is Some <==> (spec_filter_kind(*f) == 1 || spec_filter_kind(*f) == 2 || spec_filter_kind(*f) == 3),
{
    match f {
        swf::Filter::BlurFilter(b) => Some((b.blur_x.get(), b.blur_y.get(), b.num_passes())),
        swf::Filter::GlowFilter(g) => Some((g.blur_x.get(), g.blur_y.get(), g.num_passes())),
        swf::Filter::BevelFilter(b) => Some((b.blur_x.get(), b.blur_y.get(), b.num_passes())),
        _ => None,
    }
}

/// What `ColorMatrixFilter::impotent` answers for a decoded filter, as
/// `filter_color_matrix_impotent` calls it.
pub uninterp spec fn spec_filter_identity(f: swf::Filter) -> Option<bool>;

/// Calls `ColorMatrixFilter::impotent` on a color matrix filter, which
/// says whether the matrix equals the identity matrix; `None` for the
/// other kinds.  The answer is named as a function of the filter; nothing
/// more is claimed of it, as it compares floating-point entries.
#[verifier::external_body]
pub(crate) fn filter_color_matrix_impotent(f: &swf::Filter) -> (r: Option<bool>)
    ensures
        r == spec_filter_identity(*f),
        r is Some <==> spec_filter_kind(*f) == 6,
{
    match f {
        swf::Filter::ColorMatrixFilter(c) => Some(c.impotent()),
        _ => None,
    }
}

/// The character id and the bounds (raw twips `x_min`, `x_max`, `y_min`,
/// `y_max`) of the shape that `Reader::read_define_shape` decodes from a
/// DefineShape body; none when it reports an error.
pub uninterp spec fn spec_define_shape(body: Seq<u8>, swf_version: u8, shape_version: u8) -> Option<(u16, (i32, i32, i32, i32))>;

/// Calls `Reader::read_define_shape` on a DefineShape tag body and hands
/// out the decoded shape with its `id` and `shape_bounds` fields.  The
/// contract names the id and the bounds as a function of the body, the SWF
/// version and the shape version; nothing is claimed of the rest of the
/// shape.
#[verifier::external_body]
pub(crate) fn read_define_shape(body: &[u8], swf_version: u8, shape_version: u8)
    -> (r: Result<(u16, (i32, i32, i32, i32), swf::Shape), swf::error::Error>)
    ensures
        match r {
            Ok(t) => spec_define_shape(body@, swf_version, shape_version) == Some((t.0, t.1)),
            Err(_) => spec_define_shape(body@, swf_version, shape_version) is None,
        },
{
    let s = swf::read::Reader::new(body, swf_version).read_define_shape(shape_version)?;
    let b = &s.shape_bounds;
    Ok((s.id, (b.x_min.get(), b.x_max.get(), b.y_min.get(), b.y_max.get()), s))
}

/// Reads the `id` field of a decoded shape.
#[verifier::external_body]
pub(crate) fn shape_id(s: &swf::Shape) -> u16 {
    s.id
}

/// Reads the `shape_bounds` field of a decoded shape as raw twips
/// (`x_min`, `x_max`, `y_min`, `y_max`).
#[verifier::external_body]
pub(crate) fn shape_bounds(s: &swf::Shape) -> (i32, i32, i32, i32) {
    (s.shape_bounds.x_min.get(), s.shape_bounds.x_max.get(), s.shape_bounds.y_min.get(), s.shape_bounds.y_max.get())
}

/// Calls the derived `Clone` of `swf::Shape`, which copies every field:
/// the copy equals the original.
#[verifier::external_body]
pub(crate) fn clone_shape(s: &swf::Shape) -> (r: swf::Shape)
    ensures
        r == *s,
{
    s.clone()
}

/// Calls the derived `Clone` of `Vec<swf::Filter>`, which copies every
/// filter: the copy holds the same filters in the same order.
#[verifier::external_body]
pub(crate) fn clone_filters(f: &Vec<swf::Filter>) -> (r: Vec<swf::Filter>)
    ensures
        r@ == f@,
{
    f.clone()
}

/// Whether two filter lists are equal by the `PartialEq` of
/// `Vec<swf::Filter>`: the lengths, then the filters one by one by their
/// derived equality (which compares floating-point fields, so a list need
/// not equal itself).
pub uninterp spec fn spec_filters_equal(a: Seq<swf::Filter>, b: Seq<swf::Filter>) -> bool;

/// Calls the `PartialEq` of `Vec<swf::Filter>`, which compares the lengths
/// and then the filters one by one: the answer is named as a function of
/// the two lists; lists of different lengths differ, and two empty lists
/// are equal.
#[verifier::external_body]
pub(crate) fn filters_eq(a: &Vec<swf::Filter>, b: &Vec<swf::Filter>) -> (r: bool)
    ensures
        r == spec_filters_equal(a@, b@),
        a@.len() != b@.len() ==> !r,
        a@.len() == 0 && b@.len() == 0 ==> r,
{
    a == b
}

} // verus!

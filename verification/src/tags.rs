//! Plain values for what the timeline reads out of SWF tags, and the
//! little-endian record layouts of the tags that carry only integers.

use vstd::prelude::*;

verus! {

/// Tag codes of the SWF format that the timeline acts on.
pub const TAG_END: u16 = 0;
pub const TAG_SHOW_FRAME: u16 = 1;
pub const TAG_DEFINE_SHAPE: u16 = 2;
pub const TAG_PLACE_OBJECT: u16 = 4;
pub const TAG_REMOVE_OBJECT: u16 = 5;
pub const TAG_DEFINE_SHAPE_2: u16 = 22;
pub const TAG_PLACE_OBJECT_2: u16 = 26;
pub const TAG_REMOVE_OBJECT_2: u16 = 28;
pub const TAG_DEFINE_SHAPE_3: u16 = 32;
pub const TAG_DEFINE_BITS_JPEG_3: u16 = 35;
pub const TAG_DEFINE_SPRITE: u16 = 39;
pub const TAG_FRAME_LABEL: u16 = 43;
pub const TAG_PLACE_OBJECT_3: u16 = 70;
pub const TAG_DEFINE_SHAPE_4: u16 = 83;
pub const TAG_DEFINE_BITS_JPEG_4: u16 = 90;
pub const TAG_PLACE_OBJECT_4: u16 = 94;

/// The unsigned little-endian 16-bit value at `i`.
pub open spec fn le_u16(d: Seq<u8>, i: int) -> int {
    d[i] as int + 256 * (d[i + 1] as int)
}

/// The unsigned little-endian 32-bit value at `i`.
pub open spec fn le_u32(d: Seq<u8>, i: int) -> int {
    le_u16(d, i) + 65536 * le_u16(d, i + 2)
}

/// Reads the little-endian `u16` at `pos`, if two bytes are there.
pub fn read_u16_at(data: &[u8], pos: usize) -> (r: Option<u16>)
    ensures
        r == (if pos + 2 <= data@.len() { Some(le_u16(data@, pos as int) as u16) } else { None }),
{
    if pos <= data.len() && data.len() - pos >= 2 {
        let lo: u16 = data[pos] as u16;
        let hi: u16 = data[pos + 1] as u16;
        Some(lo + 256 * hi)
    } else {
        None
    }
}

/// Reads the little-endian `u32` at `pos`, if four bytes are there.
pub fn read_u32_at(data: &[u8], pos: usize) -> (r: Option<u32>)
    ensures
        r == (if pos + 4 <= data@.len() { Some(le_u32(data@, pos as int) as u32) } else { None }),
{
    if pos <= data.len() && data.len() - pos >= 4 {
        let lo: u32 = data[pos] as u32 + 256 * (data[pos + 1] as u32);
        let hi: u32 = data[pos + 2] as u32 + 256 * (data[pos + 3] as u32);
        Some(lo + 65536 * hi)
    } else {
        None
    }
}

/// The header of the tag that starts at `pos`: its code, the length of
/// its body and the position where the body starts.  A short header holds
/// the length in its low six bits; the value 63 announces a 32-bit length.
pub open spec fn spec_tag_header(d: Seq<u8>, pos: int) -> Option<(u16, usize, usize)> {
    if pos + 2 > d.len() {
        None
    } else {
        let w = le_u16(d, pos);
        if w % 64 == 63 {
            if pos + 6 > d.len() {
                None
            } else {
                Some(((w / 64) as u16, le_u32(d, pos + 2) as usize, (pos + 6) as usize))
            }
        } else {
            Some(((w / 64) as u16, (w % 64) as usize, (pos + 2) as usize))
        }
    }
}

/// Reads the header of the tag at `pos` (code and length, as the SWF
/// format lays them out).
pub fn read_tag_code_and_length(data: &[u8], pos: usize) -> (r: Option<(u16, usize, usize)>)
    ensures
        r == spec_tag_header(data@, pos as int),
        r matches Some((_, _, body)) ==> pos < body <= data@.len(),
{
    match read_u16_at(data, pos) {
        None => None,
        Some(w) => {
            assert(pos + 2 <= data@.len() && data@.len() == data.len());
            let code: u16 = w / 64;
            let short_len: u16 = w % 64;
            if short_len == 63 {
                match read_u32_at(data, pos + 2) {
                    None => None,
                    Some(len) => {
                        assert(pos + 6 <= data@.len() && data@.len() == data.len());
                        Some((code, len as usize, pos + 6))
                    },
                }
            } else {
                Some((code, short_len as usize, pos + 2))
            }
        }
    }
}

/// What a RemoveObject tag (version 1 or 2) names: the depth to clear.
/// Version 1 carries a character id before the depth.
pub open spec fn spec_remove_object_depth(body: Seq<u8>, version: u8) -> Option<u16> {
    if version == 1 {
        if body.len() >= 4 { Some(le_u16(body, 2) as u16) } else { None }
    } else {
        if body.len() >= 2 { Some(le_u16(body, 0) as u16) } else { None }
    }
}

/// Reads the depth out of a RemoveObject tag body.
pub fn read_remove_object(body: &[u8], version: u8) -> (r: Option<u16>)
    ensures
        r == spec_remove_object_depth(body@, version),
{
    if version == 1 {
        match read_u16_at(body, 0) {
            None => None,
            Some(_character_id) => read_u16_at(body, 2),
        }
    } else {
        read_u16_at(body, 0)
    }
}

/// The header of a DefineSprite tag: the sprite's character id and its
/// number of frames.  Its own tag list follows these four bytes.
pub open spec fn spec_define_sprite_header(body: Seq<u8>) -> Option<(u16, u16)> {
    if body.len() >= 4 { Some((le_u16(body, 0) as u16, le_u16(body, 2) as u16)) } else { None }
}

/// Reads the header of a DefineSprite tag body.
pub fn read_define_sprite_header(body: &[u8]) -> (r: Option<(u16, u16)>)
    ensures
        r == spec_define_sprite_header(body@),
{
    match (read_u16_at(body, 0), read_u16_at(body, 2)) {
        (Some(id), Some(num_frames)) => Some((id, num_frames)),
        _ => None,
    }
}

/// A 2x3 affine matrix as the SWF stores it: 16.16 fixed-point scale and
/// skew, translation in twips.
#[derive(Debug, Clone, Copy, PartialEq, Eq, Structural)]
pub struct Matrix {
    pub a: i32,
    pub b: i32,
    pub c: i32,
    pub d: i32,
    pub tx: i32,
    pub ty: i32,
}

impl Matrix {
    /// The identity matrix (scale 1.0 is 65536 in 16.16 fixed point).
    pub open spec fn spec_identity() -> Matrix {
        Matrix { a: 65536, b: 0, c: 0, d: 65536, tx: 0, ty: 0 }
    }

    /// The identity matrix.
    pub fn identity() -> (r: Matrix)
        ensures
            r == Matrix::spec_identity(),
    {
        Matrix { a: 65536, b: 0, c: 0, d: 65536, tx: 0, ty: 0 }
    }
}

/// A color transform as the SWF stores it: 8.8 fixed-point multipliers
/// and integer offsets.
#[derive(Debug, Clone, Copy, PartialEq, Eq, Structural)]
pub struct ColorTransform {
    pub r_multiply: i16,
    pub g_multiply: i16,
    pub b_multiply: i16,
    pub a_multiply: i16,
    pub r_add: i16,
    pub g_add: i16,
    pub b_add: i16,
    pub a_add: i16,
}

impl ColorTransform {
    /// The identity transform (multiplier 1.0 is 256 in 8.8 fixed point).
    pub open spec fn spec_identity() -> ColorTransform {
        ColorTransform {
            r_multiply: 256,
            g_multiply: 256,
            b_multiply: 256,
            a_multiply: 256,
            r_add: 0,
            g_add: 0,
            b_add: 0,
            a_add: 0,
        }
    }

    /// The identity transform.
    pub fn identity() -> (r: ColorTransform)
        ensures
            r == ColorTransform::spec_identity(),
    {
        ColorTransform {
            r_multiply: 256,
            g_multiply: 256,
            b_multiply: 256,
            a_multiply: 256,
            r_add: 0,
            g_add: 0,
            b_add: 0,
            a_add: 0,
        }
    }
}

/// An RGBA color.
#[derive(Debug, Clone, Copy, PartialEq, Eq, Structural)]
pub struct Color {
    pub r: u8,
    pub g: u8,
    pub b: u8,
    pub a: u8,
}

/// The blend modes that a PlaceObject tag can name.
#[derive(Debug, Clone, Copy, PartialEq, Eq, Structural)]
pub enum SwfBlendMode {
    Normal,
    Layer,
    Multiply,
    Screen,
    Lighten,
    Darken,
    Difference,
    Add,
    Subtract,
    Invert,
    Alpha,
    Erase,
    Overlay,
    HardLight,
}

/// The blend mode with a SWF blend mode number: 0 and 1 are Normal, 2 to
/// 14 name the other modes in the format's order; the format defines no
/// other number, which reads as Normal too.
pub open spec fn spec_blend_mode_from_number(n: u8) -> SwfBlendMode {
    if n == 2 { SwfBlendMode::Layer }
    else if n == 3 { SwfBlendMode::Multiply }
    else if n == 4 { SwfBlendMode::Screen }
    else if n == 5 { SwfBlendMode::Lighten }
    else if n == 6 { SwfBlendMode::Darken }
    else if n == 7 { SwfBlendMode::Difference }
    else if n == 8 { SwfBlendMode::Add }
    else if n == 9 { SwfBlendMode::Subtract }
    else if n == 10 { SwfBlendMode::Invert }
    else if n == 11 { SwfBlendMode::Alpha }
    else if n == 12 { SwfBlendMode::Erase }
    else if n == 13 { SwfBlendMode::Overlay }
    else if n == 14 { SwfBlendMode::HardLight }
    else { SwfBlendMode::Normal }
}

/// The blend mode numbers of the SWF format (the numbers the `swf` crate
/// gives its blend modes): 0 Normal, 2 Layer, 3 Multiply, 4 Screen,
/// 5 Lighten, 6 Darken, 7 Difference, 8 Add, 9 Subtract, 10 Invert,
/// 11 Alpha, 12 Erase, 13 Overlay, 14 HardLight.
pub proof fn lemma_blend_mode_numbers()
    ensures
        spec_blend_mode_from_number(0) == SwfBlendMode::Normal,
        spec_blend_mode_from_number(2) == SwfBlendMode::Layer,
        spec_blend_mode_from_number(3) == SwfBlendMode::Multiply,
        spec_blend_mode_from_number(4) == SwfBlendMode::Screen,
        spec_blend_mode_from_number(5) == SwfBlendMode::Lighten,
        spec_blend_mode_from_number(6) == SwfBlendMode::Darken,
        spec_blend_mode_from_number(7) == SwfBlendMode::Difference,
        spec_blend_mode_from_number(8) == SwfBlendMode::Add,
        spec_blend_mode_from_number(9) == SwfBlendMode::Subtract,
        spec_blend_mode_from_number(10) == SwfBlendMode::Invert,
        spec_blend_mode_from_number(11) == SwfBlendMode::Alpha,
        spec_blend_mode_from_number(12) == SwfBlendMode::Erase,
        spec_blend_mode_from_number(13) == SwfBlendMode::Overlay,
        spec_blend_mode_from_number(14) == SwfBlendMode::HardLight,
        forall|n: u8, k: u8| 2 <= n <= 14 && 2 <= k <= 14 && n != k
            ==> #[trigger] spec_blend_mode_from_number(n) != #[trigger] spec_blend_mode_from_number(k),
{
}

/// Computes `spec_blend_mode_from_number`.
pub fn blend_mode_from_number(n: u8) -> (r: SwfBlendMode)
    ensures
        r == spec_blend_mode_from_number(n),
{
    if n == 2 { SwfBlendMode::Layer }
    else if n == 3 { SwfBlendMode::Multiply }
    else if n == 4 { SwfBlendMode::Screen }
    else if n == 5 { SwfBlendMode::Lighten }
    else if n == 6 { SwfBlendMode::Darken }
    else if n == 7 { SwfBlendMode::Difference }
    else if n == 8 { SwfBlendMode::Add }
    else if n == 9 { SwfBlendMode::Subtract }
    else if n == 10 { SwfBlendMode::Invert }
    else if n == 11 { SwfBlendMode::Alpha }
    else if n == 12 { SwfBlendMode::Erase }
    else if n == 13 { SwfBlendMode::Overlay }
    else if n == 14 { SwfBlendMode::HardLight }
    else { SwfBlendMode::Normal }
}

/// What a PlaceObject tag does at its depth.
#[derive(Debug, Clone, Copy, PartialEq, Eq, Structural)]
pub enum PlaceObjectAction {
    /// Place a new instance of the character.
    Place(u16),
    /// Change the properties of the object already there.
    Modify,
    /// Swap the character of the object already there.
    Replace(u16),
    /// Neither a move nor a character.
    NoAction,
}

} // verus!

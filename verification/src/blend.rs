//! Blend modes: which of a display object's SWF blend modes the renderer
//! draws with a fixed-function blend, and which key selects its material.

use vstd::prelude::*;
use crate::display_object::{DisplayObject, base_of};
use crate::tags::SwfBlendMode;

verus! {

/// Blend modes that a fixed-function blend state can draw.
#[derive(Debug, Clone, Copy, PartialEq, Eq, Structural)]
pub enum TrivialBlend {
    Normal,
    Add,
    Subtract,
    Screen,
    Lighten,
    Darken,
    Multiply,
}

/// Blend modes that need the pixels underneath (or a layer) to draw.
#[derive(Debug, Clone, Copy, PartialEq, Eq, Structural)]
pub enum ComplexBlend {
    Difference,
    Invert,
    Alpha,
    Erase,
    Overlay,
    HardLight,
}

/// How the renderer blends a display object.
#[derive(Debug, Clone, Copy, PartialEq, Eq, Structural)]
pub enum BlendMode {
    Trivial(TrivialBlend),
    Complex(ComplexBlend),
}

/// The renderer's blend mode for a SWF blend mode: Layer draws as Normal.
pub open spec fn spec_blend_mode_from(mode: SwfBlendMode) -> BlendMode {
    match mode {
        SwfBlendMode::Normal => BlendMode::Trivial(TrivialBlend::Normal),
        SwfBlendMode::Layer => BlendMode::Trivial(TrivialBlend::Normal),
        SwfBlendMode::Add => BlendMode::Trivial(TrivialBlend::Add),
        SwfBlendMode::Subtract => BlendMode::Trivial(TrivialBlend::Subtract),
        SwfBlendMode::Screen => BlendMode::Trivial(TrivialBlend::Screen),
        SwfBlendMode::Lighten => BlendMode::Trivial(TrivialBlend::Lighten),
        SwfBlendMode::Darken => BlendMode::Trivial(TrivialBlend::Darken),
        SwfBlendMode::Multiply => BlendMode::Trivial(TrivialBlend::Multiply),
        SwfBlendMode::Alpha => BlendMode::Complex(ComplexBlend::Alpha),
        SwfBlendMode::Difference => BlendMode::Complex(ComplexBlend::Difference),
        SwfBlendMode::Invert => BlendMode::Complex(ComplexBlend::Invert),
        SwfBlendMode::Erase => BlendMode::Complex(ComplexBlend::Erase),
        SwfBlendMode::Overlay => BlendMode::Complex(ComplexBlend::Overlay),
        SwfBlendMode::HardLight => BlendMode::Complex(ComplexBlend::HardLight),
    }
}

impl From<SwfBlendMode> for BlendMode {
    fn from(mode: SwfBlendMode) -> (r: BlendMode) {
        match mode {
            SwfBlendMode::Normal => BlendMode::Trivial(TrivialBlend::Normal),
            SwfBlendMode::Layer => BlendMode::Trivial(TrivialBlend::Normal),
            SwfBlendMode::Add => BlendMode::Trivial(TrivialBlend::Add),
            SwfBlendMode::Subtract => BlendMode::Trivial(TrivialBlend::Subtract),
            SwfBlendMode::Screen => BlendMode::Trivial(TrivialBlend::Screen),
            SwfBlendMode::Lighten => BlendMode::Trivial(TrivialBlend::Lighten),
            SwfBlendMode::Darken => BlendMode::Trivial(TrivialBlend::Darken),
            SwfBlendMode::Multiply => BlendMode::Trivial(TrivialBlend::Multiply),
            SwfBlendMode::Alpha => BlendMode::Complex(ComplexBlend::Alpha),
            SwfBlendMode::Difference => BlendMode::Complex(ComplexBlend::Difference),
            SwfBlendMode::Invert => BlendMode::Complex(ComplexBlend::Invert),
            SwfBlendMode::Erase => BlendMode::Complex(ComplexBlend::Erase),
            SwfBlendMode::Overlay => BlendMode::Complex(ComplexBlend::Overlay),
            SwfBlendMode::HardLight => BlendMode::Complex(ComplexBlend::HardLight),
        }
    }
}

impl vstd::std_specs::convert::FromSpecImpl<SwfBlendMode> for BlendMode {
    open spec fn obeys_from_spec() -> bool {
        true
    }

    open spec fn from_spec(v: SwfBlendMode) -> BlendMode {
        spec_blend_mode_from(v)
    }
}

/// The key bits that select a shape material's blend state.
pub const BLEND_KEY_NORMAL: u8 = 0;
pub const BLEND_KEY_ADD: u8 = 1;
pub const BLEND_KEY_SUBTRACT: u8 = 2;
pub const BLEND_KEY_SCREEN: u8 = 4;
pub const BLEND_KEY_LIGHTEN: u8 = 8;
pub const BLEND_KEY_DARKEN: u8 = 16;
pub const BLEND_KEY_MULTIPLY: u8 = 32;

/// The key of a shape material's blend state, one bit per trivial blend
/// mode (none for Normal).
#[derive(Debug, Clone, Copy, PartialEq, Eq, Structural)]
pub struct BlendModelKey {
    pub bits: u8,
}

/// The material key for a blend mode: a complex mode draws with the
/// normal blend state.
pub open spec fn spec_blend_key(mode: BlendMode) -> BlendModelKey {
    BlendModelKey {
        bits: match mode {
            BlendMode::Trivial(TrivialBlend::Normal) => BLEND_KEY_NORMAL,
            BlendMode::Trivial(TrivialBlend::Add) => BLEND_KEY_ADD,
            BlendMode::Trivial(TrivialBlend::Subtract) => BLEND_KEY_SUBTRACT,
            BlendMode::Trivial(TrivialBlend::Screen) => BLEND_KEY_SCREEN,
            BlendMode::Trivial(TrivialBlend::Lighten) => BLEND_KEY_LIGHTEN,
            BlendMode::Trivial(TrivialBlend::Multiply) => BLEND_KEY_MULTIPLY,
            BlendMode::Trivial(TrivialBlend::Darken) => BLEND_KEY_DARKEN,
            BlendMode::Complex(_) => BLEND_KEY_NORMAL,
        },
    }
}

impl From<BlendMode> for BlendModelKey {
    fn from(value: BlendMode) -> (r: BlendModelKey) {
        let bits = match value {
            BlendMode::Trivial(TrivialBlend::Normal) => BLEND_KEY_NORMAL,
            BlendMode::Trivial(TrivialBlend::Add) => BLEND_KEY_ADD,
            BlendMode::Trivial(TrivialBlend::Subtract) => BLEND_KEY_SUBTRACT,
            BlendMode::Trivial(TrivialBlend::Screen) => BLEND_KEY_SCREEN,
            BlendMode::Trivial(TrivialBlend::Lighten) => BLEND_KEY_LIGHTEN,
            BlendMode::Trivial(TrivialBlend::Multiply) => BLEND_KEY_MULTIPLY,
            BlendMode::Trivial(TrivialBlend::Darken) => BLEND_KEY_DARKEN,
            BlendMode::Complex(_) => BLEND_KEY_NORMAL,
        };
        BlendModelKey { bits }
    }
}

impl vstd::std_specs::convert::FromSpecImpl<BlendMode> for BlendModelKey {
    open spec fn obeys_from_spec() -> bool {
        true
    }

    open spec fn from_spec(v: BlendMode) -> BlendModelKey {
        spec_blend_key(v)
    }
}

/// The blend mode a display object is drawn with: a parent's mode other
/// than Normal overrides the object's own.
pub fn determine_blend_mode(parent_blend_mode: SwfBlendMode, display_object: &DisplayObject) -> (r: SwfBlendMode)
    ensures
        r == (if parent_blend_mode == SwfBlendMode::Normal { base_of(*display_object).blend_mode } else { parent_blend_mode }),
{
    if parent_blend_mode == SwfBlendMode::Normal {
        display_object.base().blend_mode
    } else {
        parent_blend_mode
    }
}

/// The blend mode handed down to the objects of a display list: a list of
/// several objects is drawn with Normal (blending the composite of several
/// shapes is not drawn).
pub fn list_blend_mode(blend_mode: SwfBlendMode, list_len: usize) -> (r: SwfBlendMode)
    ensures
        r == (if list_len > 1 { SwfBlendMode::Normal } else { blend_mode }),
{
    if list_len > 1 {
        SwfBlendMode::Normal
    } else {
        blend_mode
    }
}

/// Each trivial SWF blend mode keeps its own material key; every complex
/// one, and Layer, shares the normal key.
pub proof fn lemma_blend_key_trivial_only(mode: SwfBlendMode)
    ensures
        spec_blend_key(spec_blend_mode_from(mode)).bits != BLEND_KEY_NORMAL
            <==> (spec_blend_mode_from(mode) is Trivial && mode != SwfBlendMode::Normal && mode != SwfBlendMode::Layer),
{
}

/// Each SWF blend mode draws as the renderer's mode of the same name:
/// Normal and Layer as Normal, the fixed-function modes as the trivial
/// blend of their name, the others as the complex blend of their name;
/// and each trivial mode but Normal has its own material key bit.
pub proof fn lemma_blend_modes_by_name()
    ensures
        spec_blend_mode_from(SwfBlendMode::Normal) == BlendMode::Trivial(TrivialBlend::Normal),
        spec_blend_mode_from(SwfBlendMode::Layer) == BlendMode::Trivial(TrivialBlend::Normal),
        spec_blend_mode_from(SwfBlendMode::Add) == BlendMode::Trivial(TrivialBlend::Add),
        spec_blend_mode_from(SwfBlendMode::Subtract) == BlendMode::Trivial(TrivialBlend::Subtract),
        spec_blend_mode_from(SwfBlendMode::Screen) == BlendMode::Trivial(TrivialBlend::Screen),
        spec_blend_mode_from(SwfBlendMode::Lighten) == BlendMode::Trivial(TrivialBlend::Lighten),
        spec_blend_mode_from(SwfBlendMode::Darken) == BlendMode::Trivial(TrivialBlend::Darken),
        spec_blend_mode_from(SwfBlendMode::Multiply) == BlendMode::Trivial(TrivialBlend::Multiply),
        spec_blend_mode_from(SwfBlendMode::Alpha) == BlendMode::Complex(ComplexBlend::Alpha),
        spec_blend_mode_from(SwfBlendMode::Difference) == BlendMode::Complex(ComplexBlend::Difference),
        spec_blend_mode_from(SwfBlendMode::Invert) == BlendMode::Complex(ComplexBlend::Invert),
        spec_blend_mode_from(SwfBlendMode::Erase) == BlendMode::Complex(ComplexBlend::Erase),
        spec_blend_mode_from(SwfBlendMode::Overlay) == BlendMode::Complex(ComplexBlend::Overlay),
        spec_blend_mode_from(SwfBlendMode::HardLight) == BlendMode::Complex(ComplexBlend::HardLight),
        spec_blend_key(BlendMode::Trivial(TrivialBlend::Add)).bits == 1,
        spec_blend_key(BlendMode::Trivial(TrivialBlend::Subtract)).bits == 2,
        spec_blend_key(BlendMode::Trivial(TrivialBlend::Screen)).bits == 4,
        spec_blend_key(BlendMode::Trivial(TrivialBlend::Lighten)).bits == 8,
        spec_blend_key(BlendMode::Trivial(TrivialBlend::Darken)).bits == 16,
        spec_blend_key(BlendMode::Trivial(TrivialBlend::Multiply)).bits == 32,
        forall|a: SwfBlendMode, b: SwfBlendMode|
            a != b && spec_blend_mode_from(a) is Trivial && spec_blend_mode_from(b) is Trivial
            && a != SwfBlendMode::Normal && a != SwfBlendMode::Layer && b != SwfBlendMode::Normal && b != SwfBlendMode::Layer
            ==> #[trigger] spec_blend_key(spec_blend_mode_from(a)) != #[trigger] spec_blend_key(spec_blend_mode_from(b)),
{
}

/// Each blend bit of an offscreen pipeline key, set alone among the blend
/// bits, selects its own compositing: add `src + dst`, subtract
/// `dst - src`, screen `src + dst * (1 - src)`, multiply
/// `src * dst + dst * (1 - src alpha)`, lighten the larger and darken the
/// smaller of the two; with no blend bit the shape is drawn with
/// premultiplied alpha.  The color bit selects the color layout and
/// shader; without it the gradient bit the gradient ones; with neither,
/// the bitmap bit the bitmap ones.
pub proof fn lemma_offscreen_key_bits(key: u16)
    ensures
        key & 0x3f == OFFSCREEN_KEY_BLEND_ADD ==> spec_offscreen_pipeline(key).blend
            == (OffscreenBlend::Custom { src: BlendFactorKind::One, dst: BlendFactorKind::One, op: BlendOpKind::Add }),
        key & 0x3f == OFFSCREEN_KEY_BLEND_SUBTRACT ==> spec_offscreen_pipeline(key).blend
            == (OffscreenBlend::Custom { src: BlendFactorKind::One, dst: BlendFactorKind::One, op: BlendOpKind::ReverseSubtract }),
        key & 0x3f == OFFSCREEN_KEY_BLEND_SCREEN ==> spec_offscreen_pipeline(key).blend
            == (OffscreenBlend::Custom { src: BlendFactorKind::One, dst: BlendFactorKind::OneMinusSrc, op: BlendOpKind::Add }),
        key & 0x3f == OFFSCREEN_KEY_BLEND_MULTIPLY ==> spec_offscreen_pipeline(key).blend
            == (OffscreenBlend::Custom { src: BlendFactorKind::Dst, dst: BlendFactorKind::OneMinusSrcAlpha, op: BlendOpKind::Add }),
        key & 0x3f == OFFSCREEN_KEY_BLEND_LIGHTEN ==> spec_offscreen_pipeline(key).blend
            == (OffscreenBlend::Custom { src: BlendFactorKind::One, dst: BlendFactorKind::One, op: BlendOpKind::Max }),
        key & 0x3f == OFFSCREEN_KEY_BLEND_DARKEN ==> spec_offscreen_pipeline(key).blend
            == (OffscreenBlend::Custom { src: BlendFactorKind::One, dst: BlendFactorKind::One, op: BlendOpKind::Min }),
        key & 0x3f == 0 ==> spec_offscreen_pipeline(key).blend == OffscreenBlend::PremultipliedAlpha,
        key & OFFSCREEN_KEY_COLOR != 0 ==> spec_offscreen_pipeline(key).layout == OffscreenMaterial::Color
            && spec_offscreen_pipeline(key).shader == OffscreenMaterial::Color,
        key & OFFSCREEN_KEY_COLOR == 0 && key & OFFSCREEN_KEY_GRADIENT != 0
            ==> spec_offscreen_pipeline(key).layout == OffscreenMaterial::Gradient
            && spec_offscreen_pipeline(key).shader == OffscreenMaterial::Gradient,
        key & OFFSCREEN_KEY_COLOR == 0 && key & OFFSCREEN_KEY_GRADIENT == 0 && key & OFFSCREEN_KEY_BITMAP != 0
            ==> spec_offscreen_pipeline(key).layout == OffscreenMaterial::Bitmap
            && spec_offscreen_pipeline(key).shader == OffscreenMaterial::Bitmap,
{
    let b = key & 0x3f;
    assert(b == key & 0x3f);
    assert((key & 1 != 0) == (b & 1 != 0)) by (bit_vector) requires b == key & 0x3f;
    assert((key & 2 != 0) == (b & 2 != 0)) by (bit_vector) requires b == key & 0x3f;
    assert((key & 4 != 0) == (b & 4 != 0)) by (bit_vector) requires b == key & 0x3f;
    assert((key & 8 != 0) == (b & 8 != 0)) by (bit_vector) requires b == key & 0x3f;
    assert((key & 16 != 0) == (b & 16 != 0)) by (bit_vector) requires b == key & 0x3f;
    assert((key & 32 != 0) == (b & 32 != 0)) by (bit_vector) requires b == key & 0x3f;
    assert(1u16 & 1 != 0 && 1u16 & 2 == 0 && 1u16 & 4 == 0 && 1u16 & 8 == 0 && 1u16 & 16 == 0 && 1u16 & 32 == 0) by (bit_vector);
    assert(2u16 & 1 == 0 && 2u16 & 2 != 0 && 2u16 & 4 == 0 && 2u16 & 8 == 0 && 2u16 & 16 == 0 && 2u16 & 32 == 0) by (bit_vector);
    assert(4u16 & 1 == 0 && 4u16 & 2 == 0 && 4u16 & 4 != 0 && 4u16 & 8 == 0 && 4u16 & 16 == 0 && 4u16 & 32 == 0) by (bit_vector);
    assert(8u16 & 1 == 0 && 8u16 & 2 == 0 && 8u16 & 4 == 0 && 8u16 & 8 != 0 && 8u16 & 16 == 0 && 8u16 & 32 == 0) by (bit_vector);
    assert(16u16 & 1 == 0 && 16u16 & 2 == 0 && 16u16 & 4 == 0 && 16u16 & 8 == 0 && 16u16 & 16 != 0 && 16u16 & 32 == 0) by (bit_vector);
    assert(32u16 & 1 == 0 && 32u16 & 2 == 0 && 32u16 & 4 == 0 && 32u16 & 8 == 0 && 32u16 & 16 == 0 && 32u16 & 32 != 0) by (bit_vector);
    assert(0u16 & 1 == 0 && 0u16 & 2 == 0 && 0u16 & 4 == 0 && 0u16 & 8 == 0 && 0u16 & 16 == 0 && 0u16 & 32 == 0) by (bit_vector);
}

/// The bits of the key an offscreen shape pipeline is specialized for: the
/// blend mode (as the material keys number them) and the kind of material.
pub const OFFSCREEN_KEY_BLEND_ADD: u16 = 1;
pub const OFFSCREEN_KEY_BLEND_SUBTRACT: u16 = 2;
pub const OFFSCREEN_KEY_BLEND_SCREEN: u16 = 4;
pub const OFFSCREEN_KEY_BLEND_LIGHTEN: u16 = 8;
pub const OFFSCREEN_KEY_BLEND_DARKEN: u16 = 16;
pub const OFFSCREEN_KEY_BLEND_MULTIPLY: u16 = 32;
pub const OFFSCREEN_KEY_BLEND_ALPHA: u16 = 64;
pub const OFFSCREEN_KEY_COLOR: u16 = 128;
pub const OFFSCREEN_KEY_GRADIENT: u16 = 256;
pub const OFFSCREEN_KEY_BITMAP: u16 = 512;

/// The kind of material a pipeline binds, or whose shader it runs.
#[derive(Debug, Clone, Copy, PartialEq, Eq, Structural)]
pub enum OffscreenMaterial {
    Color,
    Gradient,
    Bitmap,
}

/// A blend factor of a custom blend state.
#[derive(Debug, Clone, Copy, PartialEq, Eq, Structural)]
pub enum BlendFactorKind {
    One,
    Dst,
    OneMinusSrc,
    OneMinusSrcAlpha,
}

/// A blend operation of a custom blend state.
#[derive(Debug, Clone, Copy, PartialEq, Eq, Structural)]
pub enum BlendOpKind {
    Add,
    ReverseSubtract,
    Max,
    Min,
}

/// The blend state of a pipeline: a custom color blend (alpha blends
/// "over"), or premultiplied alpha blending.
#[derive(Debug, Clone, Copy, PartialEq, Eq, Structural)]
pub enum OffscreenBlend {
    Custom { src: BlendFactorKind, dst: BlendFactorKind, op: BlendOpKind },
    PremultipliedAlpha,
}

/// What an offscreen shape pipeline is made of: the bind group layout of
/// its material, the shader it runs, and its blend state.
#[derive(Debug, Clone, Copy, PartialEq, Eq, Structural)]
pub struct OffscreenPipeline {
    pub layout: OffscreenMaterial,
    pub shader: OffscreenMaterial,
    pub blend: OffscreenBlend,
}

/// The key has the bit `bit`.
pub open spec fn has_bit(key: u16, bit: u16) -> bool {
    key & bit != 0
}

/// The pipeline for a key.  The layout follows the first of the color and
/// gradient bits that is set, else the bitmap layout; the shader follows
/// the first of the color, gradient and bitmap bits, else the color
/// shader.  The blend state follows the first blend bit set among add,
/// multiply, subtract, screen, lighten and darken, else premultiplied
/// alpha.
pub open spec fn spec_offscreen_pipeline(key: u16) -> OffscreenPipeline {
    OffscreenPipeline {
        layout: if has_bit(key, OFFSCREEN_KEY_COLOR) {
            OffscreenMaterial::Color
        } else if has_bit(key, OFFSCREEN_KEY_GRADIENT) {
            OffscreenMaterial::Gradient
        } else {
            OffscreenMaterial::Bitmap
        },
        shader: if has_bit(key, OFFSCREEN_KEY_COLOR) {
            OffscreenMaterial::Color
        } else if has_bit(key, OFFSCREEN_KEY_GRADIENT) {
            OffscreenMaterial::Gradient
        } else if has_bit(key, OFFSCREEN_KEY_BITMAP) {
            OffscreenMaterial::Bitmap
        } else {
            OffscreenMaterial::Color
        },
        blend: if has_bit(key, OFFSCREEN_KEY_BLEND_ADD) {
            OffscreenBlend::Custom { src: BlendFactorKind::One, dst: BlendFactorKind::One, op: BlendOpKind::Add }
        } else if has_bit(key, OFFSCREEN_KEY_BLEND_MULTIPLY) {
            OffscreenBlend::Custom { src: BlendFactorKind::Dst, dst: BlendFactorKind::OneMinusSrcAlpha, op: BlendOpKind::Add }
        } else if has_bit(key, OFFSCREEN_KEY_BLEND_SUBTRACT) {
            OffscreenBlend::Custom { src: BlendFactorKind::One, dst: BlendFactorKind::One, op: BlendOpKind::ReverseSubtract }
        } else if has_bit(key, OFFSCREEN_KEY_BLEND_SCREEN) {
            OffscreenBlend::Custom { src: BlendFactorKind::One, dst: BlendFactorKind::OneMinusSrc, op: BlendOpKind::Add }
        } else if has_bit(key, OFFSCREEN_KEY_BLEND_LIGHTEN) {
            OffscreenBlend::Custom { src: BlendFactorKind::One, dst: BlendFactorKind::One, op: BlendOpKind::Max }
        } else if has_bit(key, OFFSCREEN_KEY_BLEND_DARKEN) {
            OffscreenBlend::Custom { src: BlendFactorKind::One, dst: BlendFactorKind::One, op: BlendOpKind::Min }
        } else {
            OffscreenBlend::PremultipliedAlpha
        },
    }
}

/// Chooses the layout, shader and blend state of the offscreen shape
/// pipeline for a key.
pub fn offscreen_pipeline_for_key(key: u16) -> (r: OffscreenPipeline)
    ensures
        r == spec_offscreen_pipeline(key),
{
    let color = key & OFFSCREEN_KEY_COLOR != 0;
    let gradient = key & OFFSCREEN_KEY_GRADIENT != 0;
    let bitmap = key & OFFSCREEN_KEY_BITMAP != 0;
    let layout = if color {
        OffscreenMaterial::Color
    } else if gradient {
        OffscreenMaterial::Gradient
    } else {
        OffscreenMaterial::Bitmap
    };
    let shader = if color {
        OffscreenMaterial::Color
    } else if gradient {
        OffscreenMaterial::Gradient
    } else if bitmap {
        OffscreenMaterial::Bitmap
    } else {
        OffscreenMaterial::Color
    };
    let blend = if key & OFFSCREEN_KEY_BLEND_ADD != 0 {
        OffscreenBlend::Custom { src: BlendFactorKind::One, dst: BlendFactorKind::One, op: BlendOpKind::Add }
    } else if key & OFFSCREEN_KEY_BLEND_MULTIPLY != 0 {
        OffscreenBlend::Custom { src: BlendFactorKind::Dst, dst: BlendFactorKind::OneMinusSrcAlpha, op: BlendOpKind::Add }
    } else if key & OFFSCREEN_KEY_BLEND_SUBTRACT != 0 {
        OffscreenBlend::Custom { src: BlendFactorKind::One, dst: BlendFactorKind::One, op: BlendOpKind::ReverseSubtract }
    } else if key & OFFSCREEN_KEY_BLEND_SCREEN != 0 {
        OffscreenBlend::Custom { src: BlendFactorKind::One, dst: BlendFactorKind::OneMinusSrc, op: BlendOpKind::Add }
    } else if key & OFFSCREEN_KEY_BLEND_LIGHTEN != 0 {
        OffscreenBlend::Custom { src: BlendFactorKind::One, dst: BlendFactorKind::One, op: BlendOpKind::Max }
    } else if key & OFFSCREEN_KEY_BLEND_DARKEN != 0 {
        OffscreenBlend::Custom { src: BlendFactorKind::One, dst: BlendFactorKind::One, op: BlendOpKind::Min }
    } else {
        OffscreenBlend::PremultipliedAlpha
    };
    OffscreenPipeline { layout, shader, blend }
}

} // verus!

//! Where each kind of filter finds its uniforms in the renderer's buffers.

use vstd::prelude::*;

verus! {

/// The dynamic offsets of a view's uniforms and of each filter's uniforms,
/// by kind, in the order the filters are drawn.
pub struct FilterOffsets {
    pub view_offset: u32,
    pub color_offsets: Vec<u32>,
    pub blur_offsets: Vec<u32>,
    pub glow_offsets: Vec<u32>,
    pub bevel_offsets: Vec<u32>,
}

impl FilterOffsets {
    /// The offsets of a view with no filters yet.
    pub fn new(view_offset: u32) -> (r: FilterOffsets)
        ensures
            r.view_offset == view_offset,
            r.color_offsets@.len() == 0,
            r.blur_offsets@.len() == 0,
            r.glow_offsets@.len() == 0,
            r.bevel_offsets@.len() == 0,
    {
        FilterOffsets {
            view_offset,
            color_offsets: Vec::new(),
            blur_offsets: Vec::new(),
            glow_offsets: Vec::new(),
            bevel_offsets: Vec::new(),
        }
    }

    /// Records the offset of a color matrix filter.
    pub fn color_offset_push(&mut self, offset: u32)
        ensures
            final(self).color_offsets@ == old(self).color_offsets@.push(offset),
            final(self).view_offset == old(self).view_offset,
            final(self).blur_offsets@ == old(self).blur_offsets@,
            final(self).glow_offsets@ == old(self).glow_offsets@,
            final(self).bevel_offsets@ == old(self).bevel_offsets@,
    {
        self.color_offsets.push(offset);
    }

    /// Records the offsets of a blur filter's passes.
    pub fn blur_offset_extend(&mut self, offsets: Vec<u32>)
        ensures
            final(self).blur_offsets@ == old(self).blur_offsets@ + offsets@,
            final(self).view_offset == old(self).view_offset,
            final(self).color_offsets@ == old(self).color_offsets@,
            final(self).glow_offsets@ == old(self).glow_offsets@,
            final(self).bevel_offsets@ == old(self).bevel_offsets@,
    {
        let mut offsets = offsets;
        self.blur_offsets.append(&mut offsets);
    }

    /// Records the offset of a glow filter.
    pub fn glow_offset_push(&mut self, offset: u32)
        ensures
            final(self).glow_offsets@ == old(self).glow_offsets@.push(offset),
            final(self).view_offset == old(self).view_offset,
            final(self).color_offsets@ == old(self).color_offsets@,
            final(self).blur_offsets@ == old(self).blur_offsets@,
            final(self).bevel_offsets@ == old(self).bevel_offsets@,
    {
        self.glow_offsets.push(offset);
    }

    /// Records the offset of a bevel filter.
    pub fn bevel_offset_push(&mut self, offset: u32)
        ensures
            final(self).bevel_offsets@ == old(self).bevel_offsets@.push(offset),
            final(self).view_offset == old(self).view_offset,
            final(self).color_offsets@ == old(self).color_offsets@,
            final(self).blur_offsets@ == old(self).blur_offsets@,
            final(self).glow_offsets@ == old(self).glow_offsets@,
    {
        self.bevel_offsets.push(offset);
    }
}

} // verus!

//! The offscreen render sub-graph: its passes and the edges that chain
//! them, as the renderer declares them.

use vstd::prelude::*;

verus! {

/// The label of the sub-graph that draws cached layers to offscreen
/// textures.
#[derive(Debug, Clone, Copy, PartialEq, Eq, Structural)]
pub struct OffscreenCore2d;

/// The passes of the offscreen sub-graph.
#[derive(Debug, Clone, Copy, PartialEq, Eq, Structural)]
pub enum OffscreenNode2d {
    /// Draws the layer's shapes.
    MainTransparentPass,
    /// Applies the layer's filters.
    FilterPostProcessing,
    /// Writes the result to the target texture.
    Upscaling,
}

/// The passes in the order the sub-graph runs them.
pub open spec fn spec_offscreen_passes() -> Seq<OffscreenNode2d> {
    seq![OffscreenNode2d::MainTransparentPass, OffscreenNode2d::FilterPostProcessing, OffscreenNode2d::Upscaling]
}

impl OffscreenCore2d {
    /// The passes of the sub-graph, in the order its edges chain them.
    pub fn passes() -> (r: Vec<OffscreenNode2d>)
        ensures
            r@ == spec_offscreen_passes(),
    {
        let mut v: Vec<OffscreenNode2d> = Vec::new();
        v.push(OffscreenNode2d::MainTransparentPass);
        v.push(OffscreenNode2d::FilterPostProcessing);
        v.push(OffscreenNode2d::Upscaling);
        assert(v@ =~= spec_offscreen_passes());
        v
    }

    /// The edges of the sub-graph: each pass runs before the next one.
    pub fn edges() -> (r: Vec<(OffscreenNode2d, OffscreenNode2d)>)
        ensures
            r@.len() == spec_offscreen_passes().len() - 1,
            forall|i: int| 0 <= i < r@.len() ==> r@[i] == (spec_offscreen_passes()[i], spec_offscreen_passes()[i + 1]),
    {
        let passes = Self::passes();
        let mut edges: Vec<(OffscreenNode2d, OffscreenNode2d)> = Vec::new();
        let mut i: usize = 0;
        while i + 1 < passes.len()
            invariant
                passes@ == spec_offscreen_passes(),
                i < passes@.len(),
                edges@.len() == i,
                forall|j: int| 0 <= j < i ==> edges@[j] == (passes@[j], passes@[j + 1]),
            decreases passes@.len() - i,
        {
            edges.push((passes[i], passes[i + 1]));
            i += 1;
        }
        edges
    }
}

/// The sub-graph is a chain without repeats: every pass runs once, and the
/// edges lead from the shape pass to the upscaling pass.
pub proof fn lemma_offscreen_chain()
    ensures
        spec_offscreen_passes().no_duplicates(),
        spec_offscreen_passes()[0] == OffscreenNode2d::MainTransparentPass,
        spec_offscreen_passes().last() == OffscreenNode2d::Upscaling,
{
}

} // verus!

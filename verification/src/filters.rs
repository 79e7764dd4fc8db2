//! Which render passes a layer's filters take, in order: a blur filter
//! blurs horizontally and vertically once per quality pass (skipping a
//! direction of radius 1 or less); a glow or bevel filter copies the
//! source, blurs it and composites; a color matrix filter is one pass.

use vstd::prelude::*;
use crate::filter_offsets::FilterOffsets;

verus! {

/// A filter as its passes see it; blur radii are 16.16 fixed point.
#[derive(Debug, Clone, Copy, PartialEq, Eq, Structural)]
pub enum FilterSpec {
    Blur { blur_x: i32, blur_y: i32, passes: u8 },
    Glow { blur_x: i32, blur_y: i32, passes: u8 },
    Bevel { blur_x: i32, blur_y: i32, passes: u8 },
    /// A color matrix; `identity` when it is the identity matrix.
    ColorMatrix { identity: bool },
    DropShadow,
    Convolution,
    GradientBevel,
    GradientGlow,
}

/// Which filter pipelines have been compiled; a filter whose pipelines
/// are not ready is skipped.
#[derive(Debug, Clone, Copy, PartialEq, Eq, Structural)]
pub struct PipelinesReady {
    pub blur: bool,
    pub color_matrix: bool,
    pub glow: bool,
    pub bevel: bool,
}

/// A render pass of a filter, with the dynamic offset of its uniforms
/// where the renderer keeps them in a shared buffer.
#[derive(Debug, Clone, Copy, PartialEq, Eq, Structural)]
pub enum FilterPass {
    /// One blur pass, horizontal or vertical.
    Blur { horizontal: bool, offset: Option<u32> },
    /// A copy of the source texture, kept for the compositing pass.
    CopySource,
    /// The glow compositing pass.
    Glow { offset: Option<u32> },
    /// The color matrix pass.
    ColorMatrix { offset: Option<u32> },
    /// The bevel compositing pass.
    Bevel { offset: Option<u32> },
}

/// The filter spec for a kind number (as `swf_io::filter_kind` numbers the
/// kinds), for the blurring kinds their blur radii and passes, and for a
/// color matrix whether it is the identity.
pub open spec fn spec_filter_spec(kind: u8, blur: Option<(i32, i32, u8)>, identity: Option<bool>) -> FilterSpec {
    let (x, y, n) = match blur {
        Some(b) => b,
        None => (0i32, 0i32, 0u8),
    };
    if kind == 1 {
        FilterSpec::Blur { blur_x: x, blur_y: y, passes: n }
    } else if kind == 2 {
        FilterSpec::Glow { blur_x: x, blur_y: y, passes: n }
    } else if kind == 3 {
        FilterSpec::Bevel { blur_x: x, blur_y: y, passes: n }
    } else if kind == 4 {
        FilterSpec::GradientGlow
    } else if kind == 5 {
        FilterSpec::Convolution
    } else if kind == 6 {
        FilterSpec::ColorMatrix { identity: identity == Some(true) }
    } else if kind == 7 {
        FilterSpec::GradientBevel
    } else {
        FilterSpec::DropShadow
    }
}

/// Computes `spec_filter_spec`.
fn filter_spec_from(kind: u8, blur: Option<(i32, i32, u8)>, identity: Option<bool>) -> (r: FilterSpec)
    ensures
        r == spec_filter_spec(kind, blur, identity),
{
    let (x, y, n) = match blur {
        Some(b) => b,
        None => (0, 0, 0),
    };
    if kind == 1 {
        FilterSpec::Blur { blur_x: x, blur_y: y, passes: n }
    } else if kind == 2 {
        FilterSpec::Glow { blur_x: x, blur_y: y, passes: n }
    } else if kind == 3 {
        FilterSpec::Bevel { blur_x: x, blur_y: y, passes: n }
    } else if kind == 4 {
        FilterSpec::GradientGlow
    } else if kind == 5 {
        FilterSpec::Convolution
    } else if kind == 6 {
        FilterSpec::ColorMatrix { identity: match identity { Some(b) => b, None => false } }
    } else if kind == 7 {
        FilterSpec::GradientBevel
    } else {
        FilterSpec::DropShadow
    }
}

/// The filter spec of a decoded filter: its kind, with its blur radii and
/// passes or whether its color matrix is the identity.
pub open spec fn spec_filter_spec_of(f: swf::Filter) -> FilterSpec {
    spec_filter_spec(
        crate::swf_io::spec_filter_kind(f),
        crate::swf_io::spec_filter_blur(f),
        crate::swf_io::spec_filter_identity(f),
    )
}

/// The filter specs of a display object's decoded filters, in order.
pub fn filter_specs(filters: &Vec<swf::Filter>) -> (r: Vec<FilterSpec>)
    ensures
        r@.len() == filters@.len(),
        forall|i: int| 0 <= i < r@.len() ==> #[trigger] r@[i] == spec_filter_spec_of(filters@[i]),
{
    let mut out: Vec<FilterSpec> = Vec::new();
    let mut i: usize = 0;
    while i < filters.len()
        invariant
            i <= filters@.len(),
            out@.len() == i,
            forall|j: int| 0 <= j < i ==> #[trigger] out@[j] == spec_filter_spec_of(filters@[j]),
        decreases filters@.len() - i,
    {
        let f = &filters[i];
        out.push(filter_spec_from(
            crate::swf_io::filter_kind(f),
            crate::swf_io::filter_blur(f),
            crate::swf_io::filter_color_matrix_impotent(f),
        ));
        i += 1;
    }
    out
}

/// Whether a filter has no effect and can be skipped: a blur with no
/// quality pass, or with neither radius above 1.0; a color matrix that is
/// the identity.  No other kind is known to be without effect.
pub open spec fn spec_impotent(f: FilterSpec) -> bool {
    match f {
        FilterSpec::Blur { blur_x, blur_y, passes } => passes == 0 || (blur_x <= BLUR_ONE && blur_y <= BLUR_ONE),
        FilterSpec::ColorMatrix { identity } => identity,
        _ => false,
    }
}

impl FilterSpec {
    /// Whether this filter has no effect when applied.
    pub fn impotent(&self) -> (r: bool)
        ensures
            r == spec_impotent(*self),
    {
        match *self {
            FilterSpec::Blur { blur_x, blur_y, passes } => passes == 0 || (blur_x <= BLUR_ONE && blur_y <= BLUR_ONE),
            FilterSpec::ColorMatrix { identity } => identity,
            _ => false,
        }
    }
}

/// The filters that have an effect, in their order.
pub fn potent_filters(filters: &Vec<FilterSpec>) -> (r: Vec<FilterSpec>)
    ensures
        r@ == filters@.filter(|f: FilterSpec| !spec_impotent(f)),
{
    let mut out: Vec<FilterSpec> = Vec::new();
    let mut i: usize = 0;
    while i < filters.len()
        invariant
            i <= filters@.len(),
            out@ == filters@.subrange(0, i as int).filter(|f: FilterSpec| !spec_impotent(f)),
        decreases filters@.len() - i,
    {
        let f = filters[i];
        proof {
            reveal(Seq::filter);
            let s1 = filters@.subrange(0, i + 1);
            assert(s1.drop_last() =~= filters@.subrange(0, i as int));
            assert(s1.last() == f);
        }
        if !f.impotent() {
            out.push(f);
        }
        i += 1;
    }
    proof {
        assert(filters@.subrange(0, filters@.len() as int) =~= filters@);
    }
    out
}

/// The radius 1.0 in 16.16 fixed point: a direction blurred by no more is
/// left out.
pub const BLUR_ONE: i32 = 65536;

/// The directions of one quality pass of a blur: horizontal first.
pub open spec fn blur_unit(blur_x: i32, blur_y: i32) -> Seq<bool> {
    (if blur_x > BLUR_ONE { seq![true] } else { Seq::empty() }) + (if blur_y > BLUR_ONE { seq![false] } else { Seq::empty() })
}

/// The directions of the blur passes, `passes` quality passes long.
pub open spec fn blur_dirs(blur_x: i32, blur_y: i32, passes: nat) -> Seq<bool>
    decreases passes,
{
    if passes == 0 { Seq::empty() } else { blur_dirs(blur_x, blur_y, (passes - 1) as nat) + blur_unit(blur_x, blur_y) }
}

/// Blur passes in the given directions, without offsets.
pub open spec fn plain_blur_passes(dirs: Seq<bool>) -> Seq<FilterPass> {
    Seq::new(dirs.len(), |j: int| FilterPass::Blur { horizontal: dirs[j], offset: None })
}

/// The passes of a filter in the view's filter node.
pub open spec fn flash_filter_passes(f: FilterSpec, ready: PipelinesReady) -> Seq<FilterPass> {
    match f {
        FilterSpec::Blur { blur_x, blur_y, passes } =>
            if ready.blur { plain_blur_passes(blur_dirs(blur_x, blur_y, passes as nat)) } else { Seq::empty() },
        FilterSpec::Glow { blur_x, blur_y, passes } =>
            if ready.blur && ready.glow {
                seq![FilterPass::CopySource] + plain_blur_passes(blur_dirs(blur_x, blur_y, passes as nat)) + seq![FilterPass::Glow { offset: None }]
            } else {
                Seq::empty()
            },
        FilterSpec::ColorMatrix { .. } => if ready.color_matrix { seq![FilterPass::ColorMatrix { offset: None }] } else { Seq::empty() },
        _ => Seq::empty(),
    }
}

/// The passes of the filters from position `k` on, in the view's filter
/// node.
pub open spec fn flash_filter_plan_from(filters: Seq<FilterSpec>, k: int, ready: PipelinesReady) -> Seq<FilterPass>
    decreases filters.len() - k,
{
    if k < 0 || k >= filters.len() {
        Seq::empty()
    } else {
        flash_filter_passes(filters[k], ready) + flash_filter_plan_from(filters, k + 1, ready)
    }
}

/// Appends the blur passes of one filter.
fn push_plain_blur_passes(out: &mut Vec<FilterPass>, blur_x: i32, blur_y: i32, passes: u8)
    ensures
        final(out)@ == old(out)@ + plain_blur_passes(blur_dirs(blur_x, blur_y, passes as nat)),
{
    let mut p: u8 = 0;
    while p < passes
        invariant
            p <= passes,
            out@ == old(out)@ + plain_blur_passes(blur_dirs(blur_x, blur_y, p as nat)),
        decreases passes - p,
    {
        let ghost before = out@;
        if blur_x > BLUR_ONE {
            out.push(FilterPass::Blur { horizontal: true, offset: None });
        }
        if blur_y > BLUR_ONE {
            out.push(FilterPass::Blur { horizontal: false, offset: None });
        }
        proof {
            let d0 = blur_dirs(blur_x, blur_y, p as nat);
            let d1 = blur_dirs(blur_x, blur_y, (p + 1) as nat);
            assert(d1 == d0 + blur_unit(blur_x, blur_y));
            assert(plain_blur_passes(d1) =~= plain_blur_passes(d0) + plain_blur_passes(blur_unit(blur_x, blur_y)));
            assert(out@ =~= before + plain_blur_passes(blur_unit(blur_x, blur_y)));
        }
        p += 1;
    }
}

/// The filter node of a view.
pub struct FlashFilterNode;

impl FlashFilterNode {
    /// The passes that the view's filters take, in order.
    pub fn plan(filters: &Vec<FilterSpec>, ready: PipelinesReady) -> (r: Vec<FilterPass>)
        ensures
            r@ == flash_filter_plan_from(filters@, 0, ready),
    {
        let mut out: Vec<FilterPass> = Vec::new();
        let mut k: usize = 0;
        while k < filters.len()
            invariant
                k <= filters@.len(),
                out@ + flash_filter_plan_from(filters@, k as int, ready) == flash_filter_plan_from(filters@, 0, ready),
            decreases filters@.len() - k,
        {
            let ghost before = out@;
            match filters[k] {
                FilterSpec::Blur { blur_x, blur_y, passes } => {
                    if ready.blur {
                        push_plain_blur_passes(&mut out, blur_x, blur_y, passes);
                    }
                },
                FilterSpec::Glow { blur_x, blur_y, passes } => {
                    if ready.blur && ready.glow {
                        out.push(FilterPass::CopySource);
                        push_plain_blur_passes(&mut out, blur_x, blur_y, passes);
                        out.push(FilterPass::Glow { offset: None });
                    }
                },
                FilterSpec::ColorMatrix { .. } => {
                    if ready.color_matrix {
                        out.push(FilterPass::ColorMatrix { offset: None });
                    }
                },
                _ => {},
            }
            proof {
                assert(out@ =~= before + flash_filter_passes(filters@[k as int], ready));
                assert(flash_filter_plan_from(filters@, k as int, ready)
                    == flash_filter_passes(filters@[k as int], ready) + flash_filter_plan_from(filters@, k + 1, ready));
                assert(out@ + flash_filter_plan_from(filters@, k + 1, ready)
                    =~= before + flash_filter_plan_from(filters@, k as int, ready));
            }
            k += 1;
        }
        proof {
            assert(out@ + flash_filter_plan_from(filters@, filters@.len() as int, ready) =~= out@);
        }
        out
    }
}

/// How many offsets of each kind the filters use: blur, glow, color
/// matrix, bevel.
pub struct OffsetUse {
    pub blur: nat,
    pub glow: nat,
    pub color: nat,
    pub bevel: nat,
}

/// The offsets a filter uses in the offscreen filter node.
pub open spec fn offsets_used(f: FilterSpec, ready: PipelinesReady) -> OffsetUse {
    match f {
        FilterSpec::Blur { blur_x, blur_y, passes } =>
            OffsetUse { blur: if ready.blur { blur_dirs(blur_x, blur_y, passes as nat).len() } else { 0 }, glow: 0, color: 0, bevel: 0 },
        FilterSpec::Glow { blur_x, blur_y, passes } =>
            if ready.blur && ready.glow {
                OffsetUse { blur: blur_dirs(blur_x, blur_y, passes as nat).len(), glow: 1, color: 0, bevel: 0 }
            } else {
                OffsetUse { blur: 0, glow: 0, color: 0, bevel: 0 }
            },
        FilterSpec::Bevel { blur_x, blur_y, passes } =>
            if ready.blur && ready.bevel {
                OffsetUse { blur: blur_dirs(blur_x, blur_y, passes as nat).len(), glow: 0, color: 0, bevel: 1 }
            } else {
                OffsetUse { blur: 0, glow: 0, color: 0, bevel: 0 }
            },
        FilterSpec::ColorMatrix { .. } => OffsetUse { blur: 0, glow: 0, color: if ready.color_matrix { 1 } else { 0 }, bevel: 0 },
        _ => OffsetUse { blur: 0, glow: 0, color: 0, bevel: 0 },
    }
}

/// Blur passes in the given directions, taking their offsets in order
/// from position `b` of `offs`.
pub open spec fn offset_blur_passes(dirs: Seq<bool>, offs: Seq<u32>, b: int) -> Seq<FilterPass> {
    Seq::new(dirs.len(), |j: int| FilterPass::Blur { horizontal: dirs[j], offset: Some(offs[b + j]) })
}

/// The passes of the filters from position `k` on in the offscreen filter
/// node, each kind of pass taking the next offset of its kind (from `b`,
/// `g`, `c`, `v` on).
pub open spec fn post_plan_from(
    filters: Seq<FilterSpec>,
    k: int,
    ready: PipelinesReady,
    o: FilterOffsets,
    b: int,
    g: int,
    c: int,
    v: int,
) -> Seq<FilterPass>
    decreases filters.len() - k,
{
    if k < 0 || k >= filters.len() {
        Seq::empty()
    } else {
        let u = offsets_used(filters[k], ready);
        let here = match filters[k] {
            FilterSpec::Blur { blur_x, blur_y, passes } =>
                if ready.blur { offset_blur_passes(blur_dirs(blur_x, blur_y, passes as nat), o.blur_offsets@, b) } else { Seq::empty() },
            FilterSpec::Glow { blur_x, blur_y, passes } =>
                if ready.blur && ready.glow {
                    seq![FilterPass::CopySource] + offset_blur_passes(blur_dirs(blur_x, blur_y, passes as nat), o.blur_offsets@, b)
                        + seq![FilterPass::Glow { offset: Some(o.glow_offsets@[g]) }]
                } else {
                    Seq::empty()
                },
            FilterSpec::Bevel { blur_x, blur_y, passes } =>
                if ready.blur && ready.bevel {
                    seq![FilterPass::CopySource] + offset_blur_passes(blur_dirs(blur_x, blur_y, passes as nat), o.blur_offsets@, b)
                        + seq![FilterPass::Bevel { offset: Some(o.bevel_offsets@[v]) }]
                } else {
                    Seq::empty()
                },
            FilterSpec::ColorMatrix { .. } =>
                if ready.color_matrix { seq![FilterPass::ColorMatrix { offset: Some(o.color_offsets@[c]) }] } else { Seq::empty() },
            _ => Seq::empty(),
        };
        here + post_plan_from(filters, k + 1, ready, o, b + u.blur, g + u.glow, c + u.color, v + u.bevel)
    }
}

/// The offsets of each kind that the filters from position `k` on use.
pub open spec fn total_use_from(filters: Seq<FilterSpec>, k: int, ready: PipelinesReady) -> OffsetUse
    decreases filters.len() - k,
{
    if k < 0 || k >= filters.len() {
        OffsetUse { blur: 0, glow: 0, color: 0, bevel: 0 }
    } else {
        let u = offsets_used(filters[k], ready);
        let rest = total_use_from(filters, k + 1, ready);
        OffsetUse { blur: u.blur + rest.blur, glow: u.glow + rest.glow, color: u.color + rest.color, bevel: u.bevel + rest.bevel }
    }
}

/// Appends the blur passes of one filter, taking offsets from position
/// `*b` on; `*b` moves past them.
fn push_offset_blur_passes(out: &mut Vec<FilterPass>, blur_x: i32, blur_y: i32, passes: u8, offs: &Vec<u32>, b: &mut usize)
    requires
        *old(b) + blur_dirs(blur_x, blur_y, passes as nat).len() <= offs@.len(),
    ensures
        final(out)@ == old(out)@ + offset_blur_passes(blur_dirs(blur_x, blur_y, passes as nat), offs@, *old(b) as int),
        *final(b) == *old(b) + blur_dirs(blur_x, blur_y, passes as nat).len(),
{
    let ghost b0 = *b as int;
    let n_offs = offs.len();
    let mut p: u8 = 0;
    while p < passes
        invariant
            p <= passes,
            *b == b0 + blur_dirs(blur_x, blur_y, p as nat).len(),
            b0 + blur_dirs(blur_x, blur_y, passes as nat).len() <= offs@.len(),
            n_offs == offs@.len(),
            out@ == old(out)@ + offset_blur_passes(blur_dirs(blur_x, blur_y, p as nat), offs@, b0),
        decreases passes - p,
    {
        let ghost before = out@;
        let ghost d0 = blur_dirs(blur_x, blur_y, p as nat);
        let ghost d1 = blur_dirs(blur_x, blur_y, (p + 1) as nat);
        proof {
            assert(d1 == d0 + blur_unit(blur_x, blur_y));
            lemma_blur_prefix_len(blur_x, blur_y, (p + 1) as nat, passes as nat);
        }
        if blur_x > BLUR_ONE {
            out.push(FilterPass::Blur { horizontal: true, offset: Some(offs[*b]) });
            *b = *b + 1;
        }
        if blur_y > BLUR_ONE {
            out.push(FilterPass::Blur { horizontal: false, offset: Some(offs[*b]) });
            *b = *b + 1;
        }
        proof {
            assert(offset_blur_passes(d1, offs@, b0) =~= offset_blur_passes(d0, offs@, b0)
                + offset_blur_passes(blur_unit(blur_x, blur_y), offs@, b0 + d0.len()));
            assert(out@ =~= before + offset_blur_passes(blur_unit(blur_x, blur_y), offs@, b0 + d0.len()));
        }
        p += 1;
    }
}

/// Blurring fewer quality passes takes no more directions.
proof fn lemma_blur_prefix_len(blur_x: i32, blur_y: i32, p: nat, q: nat)
    requires
        p <= q,
    ensures
        blur_dirs(blur_x, blur_y, p).len() <= blur_dirs(blur_x, blur_y, q).len(),
    decreases q,
{
    if p < q {
        lemma_blur_prefix_len(blur_x, blur_y, p, (q - 1) as nat);
    }
}

/// The filter node of an offscreen layer.
pub struct FilterPostProcessingNode;

impl FilterPostProcessingNode {
    /// The passes that the layer's filters take, in order, each with the
    /// next offset of its kind.  The layer's offsets were prepared with
    /// one entry per pass.
    pub fn plan(filters: &Vec<FilterSpec>, ready: PipelinesReady, offsets: &FilterOffsets) -> (r: Vec<FilterPass>)
        requires
            total_use_from(filters@, 0, ready).blur <= offsets.blur_offsets@.len(),
            total_use_from(filters@, 0, ready).glow <= offsets.glow_offsets@.len(),
            total_use_from(filters@, 0, ready).color <= offsets.color_offsets@.len(),
            total_use_from(filters@, 0, ready).bevel <= offsets.bevel_offsets@.len(),
        ensures
            r@ == post_plan_from(filters@, 0, ready, *offsets, 0, 0, 0, 0),
    {
        let n_glow = offsets.glow_offsets.len();
        let n_color = offsets.color_offsets.len();
        let n_bevel = offsets.bevel_offsets.len();
        let mut out: Vec<FilterPass> = Vec::new();
        let mut b: usize = 0;
        let mut g: usize = 0;
        let mut c: usize = 0;
        let mut v: usize = 0;
        let mut k: usize = 0;
        while k < filters.len()
            invariant
                k <= filters@.len(),
                out@ + post_plan_from(filters@, k as int, ready, *offsets, b as int, g as int, c as int, v as int)
                    == post_plan_from(filters@, 0, ready, *offsets, 0, 0, 0, 0),
                b + total_use_from(filters@, k as int, ready).blur <= offsets.blur_offsets@.len(),
                g + total_use_from(filters@, k as int, ready).glow <= offsets.glow_offsets@.len(),
                c + total_use_from(filters@, k as int, ready).color <= offsets.color_offsets@.len(),
                v + total_use_from(filters@, k as int, ready).bevel <= offsets.bevel_offsets@.len(),
                n_glow == offsets.glow_offsets@.len(),
                n_color == offsets.color_offsets@.len(),
                n_bevel == offsets.bevel_offsets@.len(),
            decreases filters@.len() - k,
        {
            let ghost before = out@;
            let ghost (b0, g0, c0, v0) = (b as int, g as int, c as int, v as int);
            match filters[k] {
                FilterSpec::Blur { blur_x, blur_y, passes } => {
                    if ready.blur {
                        push_offset_blur_passes(&mut out, blur_x, blur_y, passes, &offsets.blur_offsets, &mut b);
                    }
                },
                FilterSpec::Glow { blur_x, blur_y, passes } => {
                    if ready.blur && ready.glow {
                        out.push(FilterPass::CopySource);
                        push_offset_blur_passes(&mut out, blur_x, blur_y, passes, &offsets.blur_offsets, &mut b);
                        out.push(FilterPass::Glow { offset: Some(offsets.glow_offsets[g]) });
                        g = g + 1;
                    }
                },
                FilterSpec::Bevel { blur_x, blur_y, passes } => {
                    if ready.blur && ready.bevel {
                        out.push(FilterPass::CopySource);
                        push_offset_blur_passes(&mut out, blur_x, blur_y, passes, &offsets.blur_offsets, &mut b);
                        out.push(FilterPass::Bevel { offset: Some(offsets.bevel_offsets[v]) });
                        v = v + 1;
                    }
                },
                FilterSpec::ColorMatrix { .. } => {
                    if ready.color_matrix {
                        out.push(FilterPass::ColorMatrix { offset: Some(offsets.color_offsets[c]) });
                        c = c + 1;
                    }
                },
                _ => {},
            }
            proof {
                let u = offsets_used(filters@[k as int], ready);
                assert(b == b0 + u.blur && g == g0 + u.glow && c == c0 + u.color && v == v0 + u.bevel);
                let rest = post_plan_from(filters@, k + 1, ready, *offsets, b as int, g as int, c as int, v as int);
                assert(out@ + rest =~= before + post_plan_from(filters@, k as int, ready, *offsets, b0, g0, c0, v0));
            }
            k += 1;
        }
        proof {
            assert(out@ + post_plan_from(filters@, filters@.len() as int, ready, *offsets, b as int, g as int, c as int, v as int) =~= out@);
        }
        out
    }
}

} // verus!

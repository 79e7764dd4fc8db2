//! The order in which a display list is drawn, with its masks: an object
//! with a clip depth masks the objects above it up to that depth; the mask
//! is drawn into the stencil first, the masked objects after it, and the
//! mask again to clear the stencil once the list leaves its range.

use vstd::prelude::*;

verus! {

/// A step of drawing a display list.
#[derive(Debug, Clone, Copy, PartialEq, Eq, Structural)]
pub enum RenderOp {
    /// Draw the object at this position of the list.
    Draw(usize),
    /// Start drawing a mask into the stencil.
    PushMask,
    /// Use the stencil: what follows is drawn inside the mask.
    ActivateMask,
    /// Start drawing a mask again, to take it out of the stencil.
    DeactivateMask,
    /// The mask is out of the stencil.
    PopMask,
}

/// The state of the drawing of a display list: the steps so far, how many
/// masks are being drawn into (or out of) the stencil, whether a stencil
/// is needed at all, and whether the root flips its axes.
pub struct RenderContext {
    pub commands: Vec<RenderOp>,
    pub flip_x: bool,
    pub flip_y: bool,
    pub maskers_in_progress: u8,
    pub needs_stencil: bool,
}

/// A call on the mask counter of a render context.
#[derive(Debug, Clone, Copy, PartialEq, Eq, Structural)]
pub enum MaskStep {
    Push,
    Activate,
    Deactivate,
    Pop,
}

/// The steps and the counter after one call: `push_mask` and
/// `deactivate_mask` count up and record their step when no mask was being
/// drawn; `activate_mask` and `pop_mask` count down and record theirs when
/// none is left.
pub open spec fn spec_mask_step(cmds: Seq<RenderOp>, c: int, st: MaskStep) -> (Seq<RenderOp>, int) {
    match st {
        MaskStep::Push => (if c == 0 { cmds.push(RenderOp::PushMask) } else { cmds }, c + 1),
        MaskStep::Activate => (if c == 1 { cmds.push(RenderOp::ActivateMask) } else { cmds }, c - 1),
        MaskStep::Deactivate => (if c == 0 { cmds.push(RenderOp::DeactivateMask) } else { cmds }, c + 1),
        MaskStep::Pop => (if c == 1 { cmds.push(RenderOp::PopMask) } else { cmds }, c - 1),
    }
}

/// The steps and the counter after a sequence of calls.
pub open spec fn spec_mask_run(cmds: Seq<RenderOp>, c: int, steps: Seq<MaskStep>) -> (Seq<RenderOp>, int)
    decreases steps.len(),
{
    if steps.len() == 0 {
        (cmds, c)
    } else {
        let prev = spec_mask_run(cmds, c, steps.drop_last());
        spec_mask_step(prev.0, prev.1, steps.last())
    }
}

/// From counter `c`, the counter is at least 1 before and after each call
/// of `steps`: a group nested inside a mask that is being drawn.
pub open spec fn stays_nested(c: int, steps: Seq<MaskStep>) -> bool {
    forall|i: int| 0 <= i <= steps.len() ==> #[trigger] spec_mask_run(Seq::empty(), c, steps.take(i)).1 >= 1
}

/// The counter does not depend on the steps recorded before.
proof fn lemma_mask_count_indep(a: Seq<RenderOp>, b: Seq<RenderOp>, c: int, steps: Seq<MaskStep>)
    ensures
        spec_mask_run(a, c, steps).1 == spec_mask_run(b, c, steps).1,
    decreases steps.len(),
{
    if steps.len() > 0 {
        lemma_mask_count_indep(a, b, c, steps.drop_last());
    }
}

/// Running two sequences one after the other.
proof fn lemma_mask_run_concat(cmds: Seq<RenderOp>, c: int, a: Seq<MaskStep>, b: Seq<MaskStep>)
    ensures
        spec_mask_run(cmds, c, a + b) == ({
            let m = spec_mask_run(cmds, c, a);
            spec_mask_run(m.0, m.1, b)
        }),
    decreases b.len(),
{
    if b.len() == 0 {
        assert(a + b =~= a);
    } else {
        assert((a + b).drop_last() =~= a + b.drop_last());
        assert((a + b).last() == b.last());
        lemma_mask_run_concat(cmds, c, a, b.drop_last());
    }
}

/// Mask groups nested inside a mask that is being drawn record no step.
pub proof fn lemma_nested_masks_record_nothing(cmds: Seq<RenderOp>, c: int, steps: Seq<MaskStep>)
    requires
        stays_nested(c, steps),
    ensures
        spec_mask_run(cmds, c, steps).0 == cmds,
        spec_mask_run(cmds, c, steps).1 >= 1,
    decreases steps.len(),
{
    assert(steps.take(steps.len() as int) =~= steps);
    assert(spec_mask_run(Seq::empty(), c, steps.take(steps.len() as int)).1 >= 1);
    lemma_mask_count_indep(cmds, Seq::empty(), c, steps);
    if steps.len() > 0 {
        let d = steps.drop_last();
        assert forall|i: int| 0 <= i <= d.len() implies #[trigger] spec_mask_run(Seq::empty(), c, d.take(i)).1 >= 1 by {
            assert(d.take(i) =~= steps.take(i));
            assert(spec_mask_run(Seq::empty(), c, steps.take(i)).1 >= 1);
        }
        lemma_nested_masks_record_nothing(cmds, c, d);
        lemma_mask_count_indep(cmds, Seq::empty(), c, d);
    }
}

/// A mask group started with no mask in progress records exactly its four
/// steps, whatever complete groups are nested inside it while the mask is
/// drawn in and out, and leaves no mask in progress.
pub proof fn lemma_mask_group(cmds: Seq<RenderOp>, inner_in: Seq<MaskStep>, inner_out: Seq<MaskStep>)
    requires
        stays_nested(1, inner_in),
        spec_mask_run(Seq::empty(), 1, inner_in).1 == 1,
        stays_nested(1, inner_out),
        spec_mask_run(Seq::empty(), 1, inner_out).1 == 1,
    ensures
        spec_mask_run(cmds, 0,
            seq![MaskStep::Push] + inner_in + seq![MaskStep::Activate, MaskStep::Deactivate] + inner_out + seq![MaskStep::Pop])
            == (cmds + seq![RenderOp::PushMask, RenderOp::ActivateMask, RenderOp::DeactivateMask, RenderOp::PopMask], 0int),
{
    let p = seq![MaskStep::Push];
    let ad = seq![MaskStep::Activate, MaskStep::Deactivate];
    let q = seq![MaskStep::Pop];
    let c1 = cmds.push(RenderOp::PushMask);
    assert(spec_mask_run(cmds, 0, p) == (c1, 1int)) by {
        assert(p.drop_last() =~= Seq::<MaskStep>::empty());
        assert(spec_mask_run(cmds, 0, Seq::<MaskStep>::empty()) == (cmds, 0int));
        assert(p.last() == MaskStep::Push);
    }
    lemma_mask_run_concat(cmds, 0, p, inner_in);
    lemma_nested_masks_record_nothing(c1, 1, inner_in);
    lemma_mask_count_indep(c1, Seq::empty(), 1, inner_in);
    let c2 = c1.push(RenderOp::ActivateMask).push(RenderOp::DeactivateMask);
    assert(spec_mask_run(c1, 1, ad) == (c2, 1int)) by {
        let a1 = seq![MaskStep::Activate];
        assert(ad.drop_last() =~= a1);
        assert(a1.drop_last() =~= Seq::<MaskStep>::empty());
        assert(spec_mask_run(c1, 1, Seq::<MaskStep>::empty()) == (c1, 1int));
        assert(a1.last() == MaskStep::Activate);
        assert(spec_mask_run(c1, 1, a1) == (c1.push(RenderOp::ActivateMask), 0int));
        assert(ad.last() == MaskStep::Deactivate);
    }
    lemma_mask_run_concat(cmds, 0, p + inner_in, ad);
    lemma_nested_masks_record_nothing(c2, 1, inner_out);
    lemma_mask_count_indep(c2, Seq::empty(), 1, inner_out);
    lemma_mask_run_concat(cmds, 0, p + inner_in + ad, inner_out);
    assert(spec_mask_run(c2, 1, q) == (c2.push(RenderOp::PopMask), 0int)) by {
        assert(q.drop_last() =~= Seq::<MaskStep>::empty());
        assert(spec_mask_run(c2, 1, Seq::<MaskStep>::empty()) == (c2, 1int));
        assert(q.last() == MaskStep::Pop);
    }
    lemma_mask_run_concat(cmds, 0, p + inner_in + ad + inner_out, q);
    assert(c2.push(RenderOp::PopMask) =~= cmds + seq![RenderOp::PushMask, RenderOp::ActivateMask, RenderOp::DeactivateMask, RenderOp::PopMask]);
}

impl RenderContext {
    /// A context with no steps yet.
    pub fn new(flip_x: bool, flip_y: bool) -> (r: RenderContext)
        ensures
            r.commands@.len() == 0,
            r.flip_x == flip_x,
            r.flip_y == flip_y,
            r.maskers_in_progress == 0,
            !r.needs_stencil,
    {
        RenderContext { commands: Vec::new(), flip_x, flip_y, maskers_in_progress: 0, needs_stencil: false }
    }

    /// Draws the object at position `index` of the list.
    pub fn render_shape(&mut self, index: usize)
        ensures
            final(self).commands@ == old(self).commands@.push(RenderOp::Draw(index)),
            final(self).flip_x == old(self).flip_x,
            final(self).flip_y == old(self).flip_y,
            final(self).maskers_in_progress == old(self).maskers_in_progress,
            final(self).needs_stencil == old(self).needs_stencil,
    {
        self.commands.push(RenderOp::Draw(index));
    }

    /// Starts drawing a mask; the step is recorded unless another mask is
    /// already being drawn.
    pub fn push_mask(&mut self)
        requires
            old(self).maskers_in_progress < u8::MAX,
        ensures
            (final(self).commands@, final(self).maskers_in_progress as int)
                == spec_mask_step(old(self).commands@, old(self).maskers_in_progress as int, MaskStep::Push),
            final(self).needs_stencil,
            final(self).maskers_in_progress == old(self).maskers_in_progress + 1,
            final(self).commands@ == (if old(self).maskers_in_progress == 0 {
                old(self).commands@.push(RenderOp::PushMask)
            } else {
                old(self).commands@
            }),
            final(self).flip_x == old(self).flip_x,
            final(self).flip_y == old(self).flip_y,
    {
        self.needs_stencil = true;
        if self.maskers_in_progress == 0 {
            self.commands.push(RenderOp::PushMask);
        }
        self.maskers_in_progress = self.maskers_in_progress + 1;
    }

    /// Ends drawing a mask and uses it; the step is recorded once no mask
    /// is being drawn.
    pub fn activate_mask(&mut self)
        requires
            old(self).maskers_in_progress > 0,
        ensures
            (final(self).commands@, final(self).maskers_in_progress as int)
                == spec_mask_step(old(self).commands@, old(self).maskers_in_progress as int, MaskStep::Activate),
            final(self).needs_stencil,
            final(self).maskers_in_progress == old(self).maskers_in_progress - 1,
            final(self).commands@ == (if old(self).maskers_in_progress == 1 {
                old(self).commands@.push(RenderOp::ActivateMask)
            } else {
                old(self).commands@
            }),
            final(self).flip_x == old(self).flip_x,
            final(self).flip_y == old(self).flip_y,
    {
        self.needs_stencil = true;
        self.maskers_in_progress = self.maskers_in_progress - 1;
        if self.maskers_in_progress == 0 {
            self.commands.push(RenderOp::ActivateMask);
        }
    }

    /// Starts drawing a mask again to take it out of the stencil; the step
    /// is recorded unless another mask is being drawn.
    pub fn deactivate_mask(&mut self)
        requires
            old(self).maskers_in_progress < u8::MAX,
        ensures
            (final(self).commands@, final(self).maskers_in_progress as int)
                == spec_mask_step(old(self).commands@, old(self).maskers_in_progress as int, MaskStep::Deactivate),
            final(self).needs_stencil,
            final(self).maskers_in_progress == old(self).maskers_in_progress + 1,
            final(self).commands@ == (if old(self).maskers_in_progress == 0 {
                old(self).commands@.push(RenderOp::DeactivateMask)
            } else {
                old(self).commands@
            }),
            final(self).flip_x == old(self).flip_x,
            final(self).flip_y == old(self).flip_y,
    {
        self.needs_stencil = true;
        if self.maskers_in_progress == 0 {
            self.commands.push(RenderOp::DeactivateMask);
        }
        self.maskers_in_progress = self.maskers_in_progress + 1;
    }

    /// Ends taking a mask out of the stencil; the step is recorded once no
    /// mask is being drawn.
    pub fn pop_mask(&mut self)
        requires
            old(self).maskers_in_progress > 0,
        ensures
            (final(self).commands@, final(self).maskers_in_progress as int)
                == spec_mask_step(old(self).commands@, old(self).maskers_in_progress as int, MaskStep::Pop),
            final(self).needs_stencil,
            final(self).maskers_in_progress == old(self).maskers_in_progress - 1,
            final(self).commands@ == (if old(self).maskers_in_progress == 1 {
                old(self).commands@.push(RenderOp::PopMask)
            } else {
                old(self).commands@
            }),
            final(self).flip_x == old(self).flip_x,
            final(self).flip_y == old(self).flip_y,
    {
        self.needs_stencil = true;
        self.maskers_in_progress = self.maskers_in_progress - 1;
        if self.maskers_in_progress == 0 {
            self.commands.push(RenderOp::PopMask);
        }
    }
}

/// The steps that draw the mask at position `i`: into the stencil, and
/// back out of it.  Inside another mask's drawing only the object is drawn.
pub open spec fn open_ops(i: usize, emit: bool) -> Seq<RenderOp> {
    if emit { seq![RenderOp::PushMask, RenderOp::Draw(i), RenderOp::ActivateMask] } else { seq![RenderOp::Draw(i)] }
}

/// The steps that take the mask at position `i` out of the stencil.
pub open spec fn close_ops(i: usize, emit: bool) -> Seq<RenderOp> {
    if emit { seq![RenderOp::DeactivateMask, RenderOp::Draw(i), RenderOp::PopMask] } else { seq![RenderOp::Draw(i)] }
}

/// Closes the open masks whose range ends below `depth`, innermost first:
/// the steps, the masks still open (each with the clip depth that was in
/// force before it), and the clip depth in force.
pub open spec fn spec_close_masks(
    ops: Seq<RenderOp>,
    stack: Seq<(u16, usize)>,
    clip: u16,
    depth: u16,
    emit: bool,
) -> (Seq<RenderOp>, Seq<(u16, usize)>, u16)
    decreases stack.len(),
{
    if clip > 0 && depth > clip && stack.len() > 0 {
        spec_close_masks(ops + close_ops(stack.last().1, emit), stack.drop_last(), stack.last().0, depth, emit)
    } else {
        (ops, stack, clip)
    }
}

/// Closes every open mask, innermost first.
pub open spec fn spec_drain(stack: Seq<(u16, usize)>, emit: bool) -> Seq<RenderOp>
    decreases stack.len(),
{
    if stack.len() == 0 {
        Seq::empty()
    } else {
        close_ops(stack.last().1, emit) + spec_drain(stack.drop_last(), emit)
    }
}

/// The steps that draw the objects from position `k` on, given the steps
/// so far, the open masks and the clip depth in force.  Each object first
/// closes the masks it lies above; a mask is then opened, any other object
/// drawn.  At the end the masks still open are closed.
pub open spec fn spec_plan_from(
    items: Seq<(u16, u16)>,
    k: int,
    ops: Seq<RenderOp>,
    stack: Seq<(u16, usize)>,
    clip: u16,
    emit: bool,
) -> Seq<RenderOp>
    decreases items.len() - k,
{
    if k < 0 || k >= items.len() {
        ops + spec_drain(stack, emit)
    } else {
        let c = spec_close_masks(ops, stack, clip, items[k].0, emit);
        if items[k].1 > 0 {
            spec_plan_from(items, k + 1, c.0 + open_ops(k as usize, emit), c.1.push((c.2, k as usize)), items[k].1, emit)
        } else {
            spec_plan_from(items, k + 1, c.0.push(RenderOp::Draw(k as usize)), c.1, c.2, emit)
        }
    }
}

/// Draws a display list, given as the depth and clip depth of each object
/// in drawing order, with its masks.  The steps are recorded when no mask
/// is being drawn around the list; inside a mask's drawing only the
/// objects are drawn.
pub fn process_display_list(context: &mut RenderContext, items: &Vec<(u16, u16)>)
    requires
        old(context).maskers_in_progress < u8::MAX,
        items@.len() < usize::MAX,
    ensures
        final(context).commands@ == spec_plan_from(items@, 0, old(context).commands@, Seq::empty(), 0, old(context).maskers_in_progress == 0),
        final(context).maskers_in_progress == old(context).maskers_in_progress,
        final(context).flip_x == old(context).flip_x,
        final(context).flip_y == old(context).flip_y,
{
    let ghost emit = context.maskers_in_progress == 0;
    let ghost m0 = context.maskers_in_progress;
    let ghost target = spec_plan_from(items@, 0, context.commands@, Seq::empty(), 0, emit);
    let mut clip_depth: u16 = 0;
    let mut clip_depth_stack: Vec<(u16, usize)> = Vec::new();
    let mut k: usize = 0;
    while k < items.len()
        invariant
            k <= items@.len(),
            items@.len() < usize::MAX,
            context.maskers_in_progress == m0,
            m0 < u8::MAX,
            emit == (m0 == 0),
            context.flip_x == old(context).flip_x,
            context.flip_y == old(context).flip_y,
            spec_plan_from(items@, k as int, context.commands@, clip_depth_stack@, clip_depth, emit) == target,
        decreases items@.len() - k,
    {
        let depth = items[k].0;
        let ghost close = spec_close_masks(context.commands@, clip_depth_stack@, clip_depth, depth, emit);
        while clip_depth > 0 && depth > clip_depth && clip_depth_stack.len() > 0
            invariant
                context.maskers_in_progress == m0,
                m0 < u8::MAX,
                emit == (m0 == 0),
                context.flip_x == old(context).flip_x,
                context.flip_y == old(context).flip_y,
                spec_close_masks(context.commands@, clip_depth_stack@, clip_depth, depth, emit) == close,
            decreases clip_depth_stack@.len(),
        {
            let (prev_clip_depth, prev) = clip_depth_stack.pop().unwrap();
            clip_depth = prev_clip_depth;
            let ghost before = context.commands@;
            context.deactivate_mask();
            context.render_shape(prev);
            context.pop_mask();
            proof {
                assert(context.commands@ =~= before + close_ops(prev, emit));
            }
        }
        let ghost after_close = context.commands@;
        if items[k].1 > 0 {
            clip_depth_stack.push((clip_depth, k));
            clip_depth = items[k].1;
            context.push_mask();
            context.render_shape(k);
            context.activate_mask();
            proof {
                assert(context.commands@ =~= after_close + open_ops(k, emit));
            }
        } else {
            context.render_shape(k);
        }
        k += 1;
    }
    let ghost before_drain = context.commands@;
    let ghost drain_target = spec_drain(clip_depth_stack@, emit);
    proof {
        assert(target == before_drain + drain_target);
    }
    while clip_depth_stack.len() > 0
        invariant
            context.maskers_in_progress == m0,
            m0 < u8::MAX,
            emit == (m0 == 0),
            context.flip_x == old(context).flip_x,
            context.flip_y == old(context).flip_y,
            context.commands@ + spec_drain(clip_depth_stack@, emit) == target,
        decreases clip_depth_stack@.len(),
    {
        let ghost st = clip_depth_stack@;
        let ghost before = context.commands@;
        let (_, prev) = clip_depth_stack.pop().unwrap();
        context.deactivate_mask();
        context.render_shape(prev);
        context.pop_mask();
        proof {
            assert(context.commands@ =~= before + close_ops(prev, emit));
            assert(spec_drain(st, emit) == close_ops(prev, emit) + spec_drain(clip_depth_stack@, emit));
            assert(before + spec_drain(st, emit) =~= context.commands@ + spec_drain(clip_depth_stack@, emit));
        }
    }
    proof {
        assert(spec_drain(clip_depth_stack@, emit) =~= Seq::<RenderOp>::empty());
        assert(context.commands@ + Seq::<RenderOp>::empty() =~= context.commands@);
    }
}

/// How often `op` occurs in `s`.
pub open spec fn count_op(s: Seq<RenderOp>, op: RenderOp) -> int
    decreases s.len(),
{
    if s.len() == 0 {
        0
    } else {
        count_op(s.drop_last(), op) + (if s.last() == op { 1int } else { 0int })
    }
}

/// The masks drawn into the stencil minus those taken out of it.
pub open spec fn open_balance(s: Seq<RenderOp>) -> int {
    count_op(s, RenderOp::PushMask) - count_op(s, RenderOp::PopMask)
}

/// Counting distributes over concatenation.
proof fn lemma_count_concat(a: Seq<RenderOp>, b: Seq<RenderOp>, op: RenderOp)
    ensures
        count_op(a + b, op) == count_op(a, op) + count_op(b, op),
    decreases b.len(),
{
    if b.len() > 0 {
        lemma_count_concat(a, b.drop_last(), op);
        assert((a + b).drop_last() =~= a + b.drop_last());
    } else {
        assert(a + b =~= a);
    }
}

/// Opening a mask adds one to the balance, closing one takes one away.
proof fn lemma_mask_ops_balance(ops: Seq<RenderOp>, i: usize)
    ensures
        open_balance(ops + open_ops(i, true)) == open_balance(ops) + 1,
        open_balance(ops + close_ops(i, true)) == open_balance(ops) - 1,
        open_balance(ops.push(RenderOp::Draw(i))) == open_balance(ops),
{
    lemma_count_concat(ops, open_ops(i, true), RenderOp::PushMask);
    lemma_count_concat(ops, open_ops(i, true), RenderOp::PopMask);
    lemma_count_concat(ops, close_ops(i, true), RenderOp::PushMask);
    lemma_count_concat(ops, close_ops(i, true), RenderOp::PopMask);
    let o = open_ops(i, true);
    let c = close_ops(i, true);
    assert(o.drop_last() =~= seq![RenderOp::PushMask, RenderOp::Draw(i)]);
    assert(o.drop_last().drop_last() =~= seq![RenderOp::PushMask]);
    assert(o.drop_last().drop_last().drop_last() =~= Seq::<RenderOp>::empty());
    assert(c.drop_last() =~= seq![RenderOp::DeactivateMask, RenderOp::Draw(i)]);
    assert(c.drop_last().drop_last() =~= seq![RenderOp::DeactivateMask]);
    assert(c.drop_last().drop_last().drop_last() =~= Seq::<RenderOp>::empty());
    assert(count_op(o, RenderOp::PushMask) == 1) by {
        reveal_with_fuel(count_op, 4);
    }
    assert(count_op(o, RenderOp::PopMask) == 0) by {
        reveal_with_fuel(count_op, 4);
    }
    assert(count_op(c, RenderOp::PushMask) == 0) by {
        reveal_with_fuel(count_op, 4);
    }
    assert(count_op(c, RenderOp::PopMask) == 1) by {
        reveal_with_fuel(count_op, 4);
    }
    assert(ops.push(RenderOp::Draw(i)).drop_last() =~= ops);
}

/// Closing the masks that end below a depth takes one away from the
/// balance for each mask it closes.
proof fn lemma_close_balance(ops: Seq<RenderOp>, stack: Seq<(u16, usize)>, clip: u16, depth: u16)
    ensures
        ({
            let c = spec_close_masks(ops, stack, clip, depth, true);
            &&& c.1.len() <= stack.len()
            &&& open_balance(c.0) - c.1.len() == open_balance(ops) - stack.len()
        }),
    decreases stack.len(),
{
    if clip > 0 && depth > clip && stack.len() > 0 {
        lemma_mask_ops_balance(ops, stack.last().1);
        lemma_close_balance(ops + close_ops(stack.last().1, true), stack.drop_last(), stack.last().0, depth);
    }
}

/// Closing every open mask takes the balance down by their number.
proof fn lemma_drain_balance(ops: Seq<RenderOp>, stack: Seq<(u16, usize)>)
    ensures
        open_balance(ops + spec_drain(stack, true)) == open_balance(ops) - stack.len(),
    decreases stack.len(),
{
    if stack.len() > 0 {
        let c = close_ops(stack.last().1, true);
        lemma_mask_ops_balance(ops, stack.last().1);
        lemma_drain_balance(ops + c, stack.drop_last());
        assert(ops + spec_drain(stack, true) =~= (ops + c) + spec_drain(stack.drop_last(), true));
    } else {
        assert(ops + spec_drain(stack, true) =~= ops);
    }
}

/// The balance at the end is the balance so far less the masks still open.
proof fn lemma_plan_balance(items: Seq<(u16, u16)>, k: int, ops: Seq<RenderOp>, stack: Seq<(u16, usize)>, clip: u16)
    requires
        0 <= k,
    ensures
        open_balance(spec_plan_from(items, k, ops, stack, clip, true)) == open_balance(ops) - stack.len(),
    decreases items.len() - k,
{
    if k >= items.len() {
        lemma_drain_balance(ops, stack);
    } else {
        let c = spec_close_masks(ops, stack, clip, items[k].0, true);
        lemma_close_balance(ops, stack, clip, items[k].0);
        lemma_mask_ops_balance(c.0, k as usize);
        if items[k].1 > 0 {
            lemma_plan_balance(items, k + 1, c.0 + open_ops(k as usize, true), c.1.push((c.2, k as usize)), items[k].1);
        } else {
            lemma_plan_balance(items, k + 1, c.0.push(RenderOp::Draw(k as usize)), c.1, c.2);
        }
    }
}

/// Every mask that a display list draws into the stencil is taken out of
/// it again: the steps of a list hold as many PushMask as PopMask steps.
pub proof fn lemma_masks_balanced(items: Seq<(u16, u16)>, ops: Seq<RenderOp>)
    ensures
        open_balance(spec_plan_from(items, 0, ops, Seq::empty(), 0, true)) == open_balance(ops),
{
    lemma_plan_balance(items, 0, ops, Seq::empty(), 0);
}


/// `b` begins with the steps `a`.
pub open spec fn starts_with(b: Seq<RenderOp>, a: Seq<RenderOp>) -> bool {
    a.len() <= b.len() && forall|i: int| 0 <= i < a.len() ==> b[i] == a[i]
}

/// The mask at position `m` is drawn into the stencil at `a`: its drawing
/// at `a`, the stencil put to use at `a + 1`.
pub open spec fn opens_at(o: Seq<RenderOp>, a: int, m: usize) -> bool {
    0 <= a && a + 1 < o.len() && o[a] == RenderOp::Draw(m) && o[a + 1] == RenderOp::ActivateMask
}

/// The mask at position `m` is taken out of the stencil at `b`: the
/// stencil's use ends at `b`, the mask is drawn again at `b + 1`.
pub open spec fn closes_at(o: Seq<RenderOp>, b: int, m: usize) -> bool {
    0 <= b && b + 1 < o.len() && o[b] == RenderOp::DeactivateMask && o[b + 1] == RenderOp::Draw(m)
}

/// The steps, the open masks and the clip depth after the object at
/// position `k` is processed from the state `st` (steps recorded).
pub open spec fn spec_plan_step(items: Seq<(u16, u16)>, k: int, st: (Seq<RenderOp>, Seq<(u16, usize)>, u16))
    -> (Seq<RenderOp>, Seq<(u16, usize)>, u16)
{
    let c = spec_close_masks(st.0, st.1, st.2, items[k].0, true);
    if items[k].1 > 0 {
        (c.0 + open_ops(k as usize, true), c.1.push((c.2, k as usize)), items[k].1)
    } else {
        (c.0.push(RenderOp::Draw(k as usize)), c.1, c.2)
    }
}

/// The state after the first `k` objects are processed, from the steps
/// `ops`, no open mask and no clip depth.
pub open spec fn spec_plan_prefix(items: Seq<(u16, u16)>, k: int, ops: Seq<RenderOp>) -> (Seq<RenderOp>, Seq<(u16, usize)>, u16)
    decreases k,
{
    if k <= 0 {
        (ops, Seq::empty(), 0u16)
    } else {
        spec_plan_step(items, k - 1, spec_plan_prefix(items, k - 1, ops))
    }
}

/// The open mask at stack position `i` saved the clip depth of the mask
/// below it.
pub open spec fn saved_clip(items: Seq<(u16, u16)>, s: Seq<(u16, usize)>, i: int) -> bool {
    s[i].0 == items[s[i - 1].1 as int].1
}

/// The open masks as processing objects leaves them: each saved the clip
/// depth of the mask below it, and the clip depth in force is the top
/// mask's.
pub open spec fn mask_chain(items: Seq<(u16, u16)>, s: Seq<(u16, usize)>, clip: u16) -> bool {
    &&& forall|i: int| 1 <= i < s.len() ==> #[trigger] saved_clip(items, s, i)
    &&& s.len() > 0 ==> clip == items[s.last().1 as int].1
}

/// Prefixes chain.
proof fn lemma_starts_with_trans(a: Seq<RenderOp>, b: Seq<RenderOp>, c: Seq<RenderOp>)
    requires
        starts_with(b, a),
        starts_with(c, b),
    ensures
        starts_with(c, a),
{
    assert forall|i: int| 0 <= i < a.len() implies c[i] == a[i] by {
        assert(c[i] == b[i]);
    }
}

/// Closing masks appends steps, pops open masks from the top, and keeps
/// the chain of open masks.  The mask at stack position `p` stays open
/// while the depth is within its clip depth; when it is closed, its
/// closing steps are among those appended.
proof fn lemma_close_facts(items: Seq<(u16, u16)>, k: int, ops: Seq<RenderOp>, s: Seq<(u16, usize)>, clip: u16, d: u16, p: int)
    requires
        mask_chain(items, s, clip),
    ensures
        starts_with(spec_close_masks(ops, s, clip, d, true).0, ops),
        spec_close_masks(ops, s, clip, d, true).1.len() <= s.len(),
        forall|i: int| 0 <= i < spec_close_masks(ops, s, clip, d, true).1.len()
            ==> #[trigger] spec_close_masks(ops, s, clip, d, true).1[i] == s[i],
        mask_chain(items, spec_close_masks(ops, s, clip, d, true).1, spec_close_masks(ops, s, clip, d, true).2),
        0 <= p < s.len() && d <= items[s[p].1 as int].1 ==> p < spec_close_masks(ops, s, clip, d, true).1.len(),
        0 <= p < s.len() && spec_close_masks(ops, s, clip, d, true).1.len() <= p ==> exists|b: int| ops.len() <= b
            && #[trigger] closes_at(spec_close_masks(ops, s, clip, d, true).0, b, s[p].1),
    decreases s.len(),
{
    if clip > 0 && d > clip && s.len() > 0 {
        let top = s.last();
        let ops2 = ops + close_ops(top.1, true);
        let s2 = s.drop_last();
        assert(mask_chain(items, s2, top.0)) by {
            if s2.len() > 0 {
                assert(saved_clip(items, s, s.len() - 1));
            }
            assert forall|i: int| 1 <= i < s2.len() implies #[trigger] saved_clip(items, s2, i) by {
                assert(saved_clip(items, s, i));
            }
        }
        lemma_close_facts(items, k, ops2, s2, top.0, d, p);
        let c = spec_close_masks(ops2, s2, top.0, d, true);
        assert(starts_with(ops2, ops));
        lemma_starts_with_trans(ops, ops2, c.0);
        if 0 <= p < s.len() && d <= items[s[p].1 as int].1 {
            if p == s.len() - 1 {
                assert(s.last() == s[p]);
                assert(false);
            } else {
                assert(s2[p] == s[p]);
                assert(p < c.1.len());
            }
            assert(spec_close_masks(ops, s, clip, d, true) == c);
        }
        if 0 <= p < s.len() && c.1.len() <= p {
            if p == s.len() - 1 {
                assert(closes_at(ops2, ops.len() as int, top.1));
                assert(closes_at(c.0, ops.len() as int, s[p].1));
            } else {
                assert(s2[p] == s[p]);
                let b = choose|b: int| ops2.len() <= b && #[trigger] closes_at(c.0, b, s2[p].1);
                assert(closes_at(c.0, b, s[p].1));
            }
        }
    } else {
        assert(starts_with(ops, ops));
    }
}

/// Processing one object appends steps and keeps the chain of open masks.
proof fn lemma_step_facts(items: Seq<(u16, u16)>, k: int, st: (Seq<RenderOp>, Seq<(u16, usize)>, u16))
    requires
        items.len() <= usize::MAX,
        0 <= k < items.len(),
        mask_chain(items, st.1, st.2),
    ensures
        starts_with(spec_plan_step(items, k, st).0, st.0),
        mask_chain(items, spec_plan_step(items, k, st).1, spec_plan_step(items, k, st).2),
{
    lemma_close_facts(items, k, st.0, st.1, st.2, items[k].0, 0);
    let c = spec_close_masks(st.0, st.1, st.2, items[k].0, true);
    let n = spec_plan_step(items, k, st);
    lemma_starts_with_trans(st.0, c.0, n.0);
    if items[k].1 > 0 {
        let s2 = c.1.push((c.2, k as usize));
        assert forall|i: int| 1 <= i < s2.len() implies #[trigger] saved_clip(items, s2, i) by {
            if i == s2.len() - 1 {
                assert(s2[i - 1] == c.1.last());
            } else {
                assert(saved_clip(items, c.1, i));
            }
        }
    }
}

/// The state after the first `k` objects: its steps begin with `ops`, and
/// its open masks form a chain.
proof fn lemma_prefix_facts(items: Seq<(u16, u16)>, k: int, ops: Seq<RenderOp>)
    requires
        items.len() <= usize::MAX,
        0 <= k <= items.len(),
    ensures
        starts_with(spec_plan_prefix(items, k, ops).0, ops),
        mask_chain(items, spec_plan_prefix(items, k, ops).1, spec_plan_prefix(items, k, ops).2),
    decreases k,
{
    if k == 0 {
        assert(starts_with(ops, ops));
    } else {
        lemma_prefix_facts(items, k - 1, ops);
        let st = spec_plan_prefix(items, k - 1, ops);
        lemma_step_facts(items, k - 1, st);
        lemma_starts_with_trans(ops, st.0, spec_plan_prefix(items, k, ops).0);
    }
}

/// The steps of the first `k2` objects begin with those of the first `k1`.
proof fn lemma_prefix_grows(items: Seq<(u16, u16)>, k1: int, k2: int, ops: Seq<RenderOp>)
    requires
        items.len() <= usize::MAX,
        0 <= k1 <= k2 <= items.len(),
    ensures
        starts_with(spec_plan_prefix(items, k2, ops).0, spec_plan_prefix(items, k1, ops).0),
    decreases k2 - k1,
{
    if k1 == k2 {
        assert(starts_with(spec_plan_prefix(items, k1, ops).0, spec_plan_prefix(items, k1, ops).0));
    } else {
        lemma_prefix_grows(items, k1, k2 - 1, ops);
        lemma_prefix_facts(items, k2 - 1, ops);
        lemma_step_facts(items, k2 - 1, spec_plan_prefix(items, k2 - 1, ops));
        lemma_starts_with_trans(spec_plan_prefix(items, k1, ops).0, spec_plan_prefix(items, k2 - 1, ops).0,
            spec_plan_prefix(items, k2, ops).0);
    }
}

/// Drawing a list from the start is drawing it from position `k` on after
/// its first `k` objects.
proof fn lemma_plan_split(items: Seq<(u16, u16)>, k: int, ops: Seq<RenderOp>)
    requires
        0 <= k <= items.len(),
    ensures
        spec_plan_from(items, 0, ops, Seq::empty(), 0, true) == ({
            let st = spec_plan_prefix(items, k, ops);
            spec_plan_from(items, k, st.0, st.1, st.2, true)
        }),
    decreases k,
{
    if k > 0 {
        lemma_plan_split(items, k - 1, ops);
    }
}

/// The steps of the rest of a list begin with the steps so far.
proof fn lemma_plan_extends(items: Seq<(u16, u16)>, k: int, ops: Seq<RenderOp>, s: Seq<(u16, usize)>, clip: u16)
    requires
        items.len() <= usize::MAX,
        0 <= k,
        mask_chain(items, s, clip),
    ensures
        starts_with(spec_plan_from(items, k, ops, s, clip, true), ops),
    decreases items.len() - k,
{
    if k >= items.len() {
        assert(starts_with(ops + spec_drain(s, true), ops));
    } else {
        let st = (ops, s, clip);
        lemma_step_facts(items, k, st);
        let n = spec_plan_step(items, k, st);
        lemma_plan_extends(items, k + 1, n.0, n.1, n.2);
        lemma_starts_with_trans(ops, n.0, spec_plan_from(items, k, ops, s, clip, true));
    }
}

/// Closing every open mask takes each out of the stencil.
proof fn lemma_drain_closes(ops: Seq<RenderOp>, s: Seq<(u16, usize)>, p: int)
    requires
        0 <= p < s.len(),
    ensures
        exists|b: int| ops.len() <= b && #[trigger] closes_at(ops + spec_drain(s, true), b, s[p].1),
    decreases s.len(),
{
    let ops2 = ops + close_ops(s.last().1, true);
    assert(ops + spec_drain(s, true) =~= ops2 + spec_drain(s.drop_last(), true));
    if p == s.len() - 1 {
        assert(closes_at(ops + spec_drain(s, true), ops.len() as int, s[p].1));
    } else {
        lemma_drain_closes(ops2, s.drop_last(), p);
        assert(s.drop_last()[p] == s[p]);
    }
}

/// A mask still open is taken out of the stencil later on.
proof fn lemma_open_mask_closes(items: Seq<(u16, u16)>, k: int, ops: Seq<RenderOp>, s: Seq<(u16, usize)>, clip: u16, p: int)
    requires
        items.len() <= usize::MAX,
        0 <= k,
        mask_chain(items, s, clip),
        0 <= p < s.len(),
    ensures
        exists|b: int| ops.len() <= b && #[trigger] closes_at(spec_plan_from(items, k, ops, s, clip, true), b, s[p].1),
    decreases items.len() - k,
{
    let o = spec_plan_from(items, k, ops, s, clip, true);
    if k >= items.len() {
        lemma_drain_closes(ops, s, p);
    } else {
        let st = (ops, s, clip);
        lemma_close_facts(items, k, ops, s, clip, items[k].0, p);
        let c = spec_close_masks(ops, s, clip, items[k].0, true);
        lemma_step_facts(items, k, st);
        let n = spec_plan_step(items, k, st);
        lemma_plan_extends(items, k + 1, n.0, n.1, n.2);
        lemma_close_facts(items, k, ops, s, clip, items[k].0, 0);
        lemma_starts_with_trans(c.0, n.0, o);
        if p < c.1.len() {
            assert(n.1[p] == s[p]);
            lemma_open_mask_closes(items, k + 1, n.0, n.1, n.2, p);
            let b = choose|b: int| n.0.len() <= b && #[trigger] closes_at(o, b, n.1[p].1);
            assert(closes_at(o, b, s[p].1));
        } else {
            let b = choose|b: int| ops.len() <= b && #[trigger] closes_at(c.0, b, s[p].1);
            assert(o[b] == c.0[b] && o[b + 1] == c.0[b + 1]);
            assert(closes_at(o, b, s[p].1));
        }
    }
}

/// While the objects of a list sorted by depth stay within the clip depth
/// of the mask at position `m`, that mask stays open at its place.
proof fn lemma_mask_stays_open(items: Seq<(u16, u16)>, ops: Seq<RenderOp>, m: int, j: int, p: int, k: int)
    requires
        items.len() <= usize::MAX,
        forall|i: int, i2: int| 0 <= i < i2 < items.len() ==> items[i].0 < items[i2].0,
        0 <= m < j < items.len(),
        items[j].0 <= items[m].1,
        m + 1 <= k <= j,
        p < spec_plan_prefix(items, m + 1, ops).1.len(),
        0 <= p,
        spec_plan_prefix(items, m + 1, ops).1[p].1 == m,
    ensures
        p < spec_plan_prefix(items, k, ops).1.len(),
        spec_plan_prefix(items, k, ops).1[p].1 == m,
    decreases k,
{
    if k > m + 1 {
        lemma_mask_stays_open(items, ops, m, j, p, k - 1);
        let st = spec_plan_prefix(items, k - 1, ops);
        lemma_prefix_facts(items, k - 1, ops);
        assert(items[k - 1].0 <= items[j].0);
        lemma_close_facts(items, k - 1, st.0, st.1, st.2, items[k - 1].0, p);
        let c = spec_close_masks(st.0, st.1, st.2, items[k - 1].0, true);
        assert(c.1[p] == st.1[p]);
        let n = spec_plan_step(items, k - 1, st);
        assert(n.1[p] == c.1[p]);
    }
}

/// The law of masks: in a display list sorted by depth, each object that
/// is not a mask is drawn while every earlier mask whose clip depth reaches
/// its depth is in the stencil: between that mask's drawing into the
/// stencil (its drawing followed by ActivateMask) and its drawing out of
/// it (DeactivateMask followed by its drawing).  Closing an inner mask
/// gives back the clip depth of the mask around it.
pub proof fn lemma_masked_objects_inside_their_masks(items: Seq<(u16, u16)>, ops: Seq<RenderOp>, m: int, j: int)
    requires
        items.len() <= usize::MAX,
        forall|i: int, i2: int| 0 <= i < i2 < items.len() ==> items[i].0 < items[i2].0,
        0 <= m < j < items.len(),
        items[m].1 > 0,
        items[j].1 == 0,
        items[j].0 <= items[m].1,
    ensures
        ({
            let o = spec_plan_from(items, 0, ops, Seq::empty(), 0, true);
            exists|a: int, q: int, b: int|
                ops.len() <= a < q < b && #[trigger] opens_at(o, a, m as usize) && #[trigger] o[q] == RenderOp::Draw(j as usize)
                && #[trigger] closes_at(o, b, m as usize)
        }),
{
    let o = spec_plan_from(items, 0, ops, Seq::empty(), 0, true);
    // The mask is opened.
    let sm = spec_plan_prefix(items, m, ops);
    lemma_prefix_facts(items, m, ops);
    lemma_close_facts(items, m, sm.0, sm.1, sm.2, items[m].0, 0);
    let cm = spec_close_masks(sm.0, sm.1, sm.2, items[m].0, true);
    let s1 = spec_plan_prefix(items, m + 1, ops);
    assert(s1 == spec_plan_step(items, m, sm));
    let a = cm.0.len() as int + 1;
    assert(opens_at(s1.0, a, m as usize));
    let p = s1.1.len() - 1;
    assert(s1.1[p].1 == m);
    assert(starts_with(cm.0, sm.0));
    // It stays open up to the object, which is drawn.
    lemma_mask_stays_open(items, ops, m, j, p, j);
    let sj = spec_plan_prefix(items, j, ops);
    lemma_prefix_facts(items, j, ops);
    lemma_close_facts(items, j, sj.0, sj.1, sj.2, items[j].0, p);
    let cj = spec_close_masks(sj.0, sj.1, sj.2, items[j].0, true);
    let s2 = spec_plan_prefix(items, j + 1, ops);
    assert(s2 == spec_plan_step(items, j, sj));
    let q = cj.0.len() as int;
    assert(s2.0[q] == RenderOp::Draw(j as usize));
    assert(s2.1[p] == sj.1[p]);
    lemma_prefix_grows(items, m + 1, j, ops);
    lemma_prefix_grows(items, m + 1, j + 1, ops);
    assert(a < q);
    // Later it is closed.
    lemma_prefix_facts(items, j + 1, ops);
    lemma_plan_split(items, j + 1, ops);
    lemma_plan_extends(items, j + 1, s2.0, s2.1, s2.2);
    lemma_open_mask_closes(items, j + 1, s2.0, s2.1, s2.2, p);
    let b = choose|b: int| s2.0.len() <= b && #[trigger] closes_at(o, b, s2.1[p].1);
    lemma_starts_with_trans(s1.0, s2.0, o);
    assert(o[a] == s1.0[a] && o[a + 1] == s1.0[a + 1]);
    assert(opens_at(o, a, m as usize));
    assert(o[q] == s2.0[q]);
    assert(closes_at(o, b, m as usize));
    lemma_prefix_facts(items, m, ops);
    assert(ops.len() <= sm.0.len());
}


/// The open masks are masks among the first `k` objects.
pub open spec fn masks_before(items: Seq<(u16, u16)>, k: int, s: Seq<(u16, usize)>) -> bool {
    forall|i: int| 0 <= i < s.len() ==> #[trigger] mask_before(items, k, s[i])
}

/// The open mask `e` is one of the first `k` objects, and a mask.
pub open spec fn mask_before(items: Seq<(u16, u16)>, k: int, e: (u16, usize)) -> bool {
    (e.1 as int) < k && items[e.1 as int].1 > 0
}

/// An object above the clip depth of every open mask closes them all, and
/// each closing takes one mask out of the balance.
proof fn lemma_close_all(items: Seq<(u16, u16)>, k: int, ops: Seq<RenderOp>, s: Seq<(u16, usize)>, clip: u16, d: u16)
    requires
        mask_chain(items, s, clip),
        masks_before(items, k, s),
        forall|i: int| 0 <= i < k && items[i].1 > 0 ==> items[i].1 < d,
    ensures
        spec_close_masks(ops, s, clip, d, true).1.len() == 0,
        open_balance(spec_close_masks(ops, s, clip, d, true).0) == open_balance(ops) - s.len(),
    decreases s.len(),
{
    lemma_close_balance(ops, s, clip, d);
    if s.len() > 0 {
        assert(mask_before(items, k, s[s.len() - 1]));
        let s2 = s.drop_last();
        let top = s.last();
        assert(mask_chain(items, s2, top.0)) by {
            if s2.len() > 0 {
                assert(saved_clip(items, s, s.len() - 1));
            }
            assert forall|i: int| 1 <= i < s2.len() implies #[trigger] saved_clip(items, s2, i) by {
                assert(saved_clip(items, s, i));
            }
        }
        assert forall|i: int| 0 <= i < s2.len() implies #[trigger] mask_before(items, k, s2[i]) by {
            assert(mask_before(items, k, s[i]));
        }
        lemma_close_all(items, k, ops + close_ops(top.1, true), s2, top.0, d);
    }
}

/// The state after the first `k` objects: its open masks are masks among
/// those objects, and the masks drawn into the stencil but not out of it
/// are exactly the open ones.
proof fn lemma_prefix_balance(items: Seq<(u16, u16)>, k: int, ops: Seq<RenderOp>)
    requires
        items.len() <= usize::MAX,
        0 <= k <= items.len(),
    ensures
        masks_before(items, k, spec_plan_prefix(items, k, ops).1),
        open_balance(spec_plan_prefix(items, k, ops).0) - spec_plan_prefix(items, k, ops).1.len() == open_balance(ops),
    decreases k,
{
    if k > 0 {
        lemma_prefix_balance(items, k - 1, ops);
        lemma_prefix_facts(items, k - 1, ops);
        let st = spec_plan_prefix(items, k - 1, ops);
        lemma_close_balance(st.0, st.1, st.2, items[k - 1].0);
        lemma_close_facts(items, k - 1, st.0, st.1, st.2, items[k - 1].0, 0);
        let c = spec_close_masks(st.0, st.1, st.2, items[k - 1].0, true);
        lemma_mask_ops_balance(c.0, (k - 1) as usize);
        let n = spec_plan_prefix(items, k, ops);
        assert forall|i: int| 0 <= i < n.1.len() implies #[trigger] mask_before(items, k, n.1[i]) by {
            if i < c.1.len() {
                assert(c.1[i] == st.1[i]);
                assert(mask_before(items, k - 1, st.1[i]));
            }
        }
    }
}

/// The law of unmasked objects: in a display list sorted by depth, an
/// object that is not a mask and lies above the clip depth of every
/// earlier mask is drawn with no mask in the stencil: as many masks were
/// drawn into the stencil as out of it before its drawing, besides those
/// of the steps before the list.
pub proof fn lemma_unmasked_objects_outside_masks(items: Seq<(u16, u16)>, ops: Seq<RenderOp>, j: int)
    requires
        items.len() <= usize::MAX,
        0 <= j < items.len(),
        items[j].1 == 0,
        forall|i: int| 0 <= i < j && items[i].1 > 0 ==> items[i].1 < items[j].0,
    ensures
        ({
            let o = spec_plan_from(items, 0, ops, Seq::empty(), 0, true);
            exists|q: int| ops.len() <= q < o.len() && #[trigger] o[q] == RenderOp::Draw(j as usize)
                && open_balance(o.take(q)) == open_balance(ops)
        }),
{
    let o = spec_plan_from(items, 0, ops, Seq::empty(), 0, true);
    let sj = spec_plan_prefix(items, j, ops);
    lemma_prefix_facts(items, j, ops);
    lemma_prefix_balance(items, j, ops);
    lemma_close_all(items, j, sj.0, sj.1, sj.2, items[j].0);
    lemma_close_facts(items, j, sj.0, sj.1, sj.2, items[j].0, 0);
    let cj = spec_close_masks(sj.0, sj.1, sj.2, items[j].0, true);
    let s2 = spec_plan_prefix(items, j + 1, ops);
    assert(s2 == spec_plan_step(items, j, sj));
    let q = cj.0.len() as int;
    lemma_prefix_facts(items, j + 1, ops);
    lemma_plan_split(items, j + 1, ops);
    lemma_plan_extends(items, j + 1, s2.0, s2.1, s2.2);
    assert(o[q] == s2.0[q]);
    assert(o.take(q) =~= cj.0);
    lemma_starts_with_trans(ops, sj.0, cj.0);
}

} // verus!

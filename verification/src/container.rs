//! The display list of a movie clip: which object sits at which depth, and
//! in what order the objects are drawn.

use vstd::prelude::*;
use std::collections::BTreeMap;
use vstd::std_specs::iter::IteratorSpec;
use crate::display_object::DisplayObject;

verus! {

broadcast use vstd::laws_cmp::group_laws_cmp;

/// The children of a movie clip.  `depth_list` maps a depth to the id of
/// the object there; `display_objects` holds the objects by id;
/// `render_list` is the drawing order, by id.
pub struct ChildContainer {
    pub render_list: Vec<u16>,
    pub depth_list: BTreeMap<u16, u16>,
    pub display_objects: BTreeMap<u16, DisplayObject>,
}

/// The mathematical content of a display list.
pub struct ContainerView {
    pub render: Seq<u16>,
    pub depths: Map<u16, u16>,
    pub objects: Map<u16, DisplayObject>,
}

impl View for ChildContainer {
    type V = ContainerView;

    open spec fn view(&self) -> ContainerView {
        ContainerView {
            render: self.render_list@,
            depths: self.depth_list@,
            objects: self.display_objects@,
        }
    }
}

/// `k` is the smallest key of `m` above `d`.
pub open spec fn is_min_key_above(m: Map<u16, u16>, d: u16, k: u16) -> bool {
    &&& m.contains_key(k)
    &&& k > d
    &&& forall|k2: u16| #[trigger] m.contains_key(k2) && k2 > d ==> k <= k2
}

/// The smallest key of `m` above `d`, if there is one.
pub open spec fn spec_min_key_above(m: Map<u16, u16>, d: u16) -> Option<u16> {
    if exists|k: u16| is_min_key_above(m, d, k) {
        Some(choose|k: u16| is_min_key_above(m, d, k))
    } else {
        None
    }
}

/// `i` is the first position of `v` in `s`.
pub open spec fn is_first_index(s: Seq<u16>, v: u16, i: int) -> bool {
    &&& 0 <= i < s.len()
    &&& s[i] == v
    &&& forall|j: int| 0 <= j < i ==> s[j] != v
}

/// The first position of `v` in `s`, if `v` occurs.
pub open spec fn spec_first_index(s: Seq<u16>, v: u16) -> Option<int> {
    if exists|i: int| is_first_index(s, v, i) {
        Some(choose|i: int| is_first_index(s, v, i))
    } else {
        None
    }
}

/// `k` may take a new object placed at `depth`: no stored object has it,
/// or it is the id of the object at `depth`, which leaves.
pub open spec fn is_free_id(v: ContainerView, depth: u16, k: u16) -> bool {
    !v.objects.contains_key(k) || (v.depths.contains_key(depth) && v.depths[depth] == k)
}

/// `k` is the smallest id free for an object placed at `depth`.
pub open spec fn is_smallest_free_id(v: ContainerView, depth: u16, k: u16) -> bool {
    &&& is_free_id(v, depth, k)
    &&& forall|k2: u16| k2 < k ==> !#[trigger] is_free_id(v, depth, k2)
}

/// The id a new object placed at `depth` gets: the smallest free one.
/// There is none only when all 65536 ids are held by objects at other
/// depths.
pub open spec fn spec_free_id(v: ContainerView, depth: u16) -> Option<u16> {
    if exists|k: u16| is_smallest_free_id(v, depth, k) {
        Some(choose|k: u16| is_smallest_free_id(v, depth, k))
    } else {
        None
    }
}

/// The drawing order with `id` placed in front of the object at the next
/// depth above `depth`, or last when there is none above (or it is not
/// drawn).
pub open spec fn spec_render_after_place(v: ContainerView, depth: u16, id: u16) -> Seq<u16> {
    match spec_min_key_above(v.depths, depth) {
        Some(k) => match spec_first_index(v.render, v.depths[k]) {
            Some(p) => v.render.insert(p, id),
            None => v.render.push(id),
        },
        None => v.render.push(id),
    }
}

/// The display list after `replace_at_depth(depth, child)`.  The child
/// gets the smallest free id and the depth maps to it.  An object already
/// at the depth leaves the store, and the new child takes its place in the
/// drawing order; at a free depth the child is drawn in front of the
/// object at the next depth above, or last.  When no id is free nothing
/// changes.
pub open spec fn spec_replace_at_depth(v: ContainerView, depth: u16, child: DisplayObject) -> ContainerView {
    match spec_free_id(v, depth) {
        None => v,
        Some(id) => {
            let taken = v.depths.contains_key(depth);
            let prev = v.depths[depth];
            ContainerView {
                render: if taken && v.render.contains(prev) {
                    v.render.update(spec_first_index(v.render, prev)->0, id)
                } else {
                    spec_render_after_place(v, depth, id)
                },
                depths: v.depths.insert(depth, id),
                objects: (if taken { v.objects.remove(prev) } else { v.objects }).insert(id, child),
            }
        },
    }
}

/// The object that `replace_at_depth` hands back: the one that was at the
/// depth, when there was one and the child was placed.
pub open spec fn spec_replaced_child(v: ContainerView, depth: u16) -> Option<DisplayObject> {
    if spec_free_id(v, depth) is Some && v.depths.contains_key(depth) && v.objects.contains_key(v.depths[depth]) {
        Some(v.objects[v.depths[depth]])
    } else {
        None
    }
}

/// The display list after the object at `depth` leaves the depth list
/// and the object store.
pub open spec fn spec_remove_from_depth_list(v: ContainerView, depth: u16) -> ContainerView {
    if v.depths.contains_key(depth) {
        ContainerView {
            render: v.render,
            depths: v.depths.remove(depth),
            objects: v.objects.remove(v.depths[depth]),
        }
    } else {
        v
    }
}

/// The drawing order with the first occurrence of `id` taken out.
pub open spec fn spec_remove_from_render(render: Seq<u16>, id: u16) -> Seq<u16> {
    match spec_first_index(render, id) {
        Some(p) => render.remove(p),
        None => render,
    }
}

/// The display list after `remove_child(child)`: the depth `child` leaves
/// the depth list and the store, and the first entry `child` (read as an
/// id) leaves the drawing order.
pub open spec fn spec_remove_child(v: ContainerView, child: u16) -> ContainerView {
    let w = spec_remove_from_depth_list(v, child);
    ContainerView { render: spec_remove_from_render(w.render, child), ..w }
}

/// The object at `depth`, if any.
pub open spec fn spec_child_by_depth(v: ContainerView, depth: u16) -> Option<DisplayObject> {
    if v.depths.contains_key(depth) && v.objects.contains_key(v.depths[depth]) {
        Some(v.objects[v.depths[depth]])
    } else {
        None
    }
}

/// The drawing order is sorted by depth and covers the depth list, and
/// every id it names is stored.
pub open spec fn ordered(v: ContainerView) -> bool {
    &&& forall|i: int, j: int| 0 <= i < j < v.render.len() ==> v.render[i] != v.render[j]
    &&& forall|k: u16| #[trigger] v.depths.contains_key(k) ==> v.render.contains(v.depths[k])
    &&& forall|i: int| 0 <= i < v.render.len() ==> v.objects.contains_key(#[trigger] v.render[i])
    &&& forall|k: u16| #[trigger] v.depths.contains_key(k) ==> v.objects.contains_key(v.depths[k])
    &&& forall|k1: u16, k2: u16, i: int, j: int|
        #![trigger v.depths[k1], v.depths[k2], v.render[i], v.render[j]]
        v.depths.contains_key(k1) && v.depths.contains_key(k2) && k1 < k2
            && 0 <= i < v.render.len() && 0 <= j < v.render.len()
            && v.render[i] == v.depths[k1] && v.render[j] == v.depths[k2] ==> i < j
}

/// Finds the smallest key of `m` above `depth` and the value there.
fn first_above(m: &BTreeMap<u16, u16>, depth: u16) -> (r: Option<(u16, u16)>)
    ensures
        match r {
            Some((k, v)) => is_min_key_above(m@, depth, k) && m@[k] == v,
            None => forall|k2: u16| #[trigger] m@.contains_key(k2) ==> k2 <= depth,
        },
        r matches Some((k, _)) ==> spec_min_key_above(m@, depth) == Some(k),
        r is None ==> spec_min_key_above(m@, depth) is None,
{
    let mut found: Option<u16> = None;
    let ghost mut pos: int = 0;
    let keys = m.keys();
    let ghost all = keys.remaining();
    for k in it: keys
        invariant_except_break
            it.seq() == all,
            found is None,
            forall|i: int| 0 <= i < it.index() ==> *it.seq()[i] <= depth,
        ensures
            found matches Some(fk) ==> (0 <= pos < it.seq().len() && *it.seq()[pos] == fk && fk > depth
                && forall|i: int| 0 <= i < pos ==> *it.seq()[i] <= depth),
            found is None ==> forall|i: int| 0 <= i < it.seq().len() ==> *it.seq()[i] <= depth,
    {
        if *k > depth {
            found = Some(*k);
            proof { pos = it.index() as int; }
            break;
        }
    }
    proof {
        broadcast use vstd::std_specs::btree::axiom_spec_keys_iter;
        assert(all == vstd::std_specs::btree::spec_keys_iter(m).remaining());
        assert(all.unref().to_set() == m@.dom());
        if let Some(fk) = found {
            assert(all.unref()[pos] == fk);
            assert(m@.dom().contains(fk));
            assert forall|k2: u16| #[trigger] m@.contains_key(k2) && k2 > depth implies fk <= k2 by {
                assert(all.unref().to_set().contains(k2));
                let j = all.unref().index_of(k2);
                if j < pos {
                    assert(*all[j] <= depth);
                } else if j > pos {
                    crate::key_order::lemma_increasing_keys(all, pos, j);
                }
            }
            assert(is_min_key_above(m@, depth, fk));
            let c = choose|k: u16| is_min_key_above(m@, depth, k);
            assert(is_min_key_above(m@, depth, c));
            assert(c <= fk && fk <= c);
        } else {
            assert forall|k2: u16| #[trigger] m@.contains_key(k2) implies k2 <= depth by {
                assert(all.unref().to_set().contains(k2));
                let j = all.unref().index_of(k2);
                assert(*all[j] <= depth);
            }
        }
    }
    match found {
        Some(k) => {
            let v = *m.get(&k).unwrap();
            Some((k, v))
        },
        None => None,
    }
}

/// Finds the first position of `v` in `s`.
fn position(s: &Vec<u16>, v: u16) -> (r: Option<usize>)
    ensures
        match r {
            Some(p) => is_first_index(s@, v, p as int) && spec_first_index(s@, v) == Some(p as int),
            None => !s@.contains(v) && spec_first_index(s@, v) is None,
        },
{
    let mut i: usize = 0;
    while i < s.len()
        invariant
            i <= s@.len(),
            forall|j: int| 0 <= j < i ==> s@[j] != v,
        decreases s@.len() - i,
    {
        if s[i] == v {
            proof {
                assert(is_first_index(s@, v, i as int));
                let c = choose|j: int| is_first_index(s@, v, j);
                assert(is_first_index(s@, v, c));
                assert(c == i);
            }
            return Some(i);
        }
        i += 1;
    }
    proof {
        assert(!(exists|j: int| is_first_index(s@, v, j)));
    }
    None
}


/// A value that occurs in a sequence has a first position.
proof fn lemma_first_index_exists(s: Seq<u16>, v: u16)
    requires
        s.contains(v),
    ensures
        exists|i: int| is_first_index(s, v, i),
    decreases s.len(),
{
    if s[0] == v {
        assert(is_first_index(s, v, 0));
    } else {
        let t = s.subrange(1, s.len() as int);
        let w = choose|i: int| 0 <= i < s.len() && s[i] == v;
        assert(t[w - 1] == v);
        assert(t.contains(v));
        lemma_first_index_exists(t, v);
        let i = choose|i: int| is_first_index(t, v, i);
        assert(is_first_index(s, v, i + 1)) by {
            assert forall|j: int| 0 <= j < i + 1 implies s[j] != v by {
                if j > 0 {
                    assert(s[j] == t[j - 1]);
                }
            }
        }
    }
}

/// After an object is placed at a depth, that depth holds exactly that
/// object.
pub proof fn lemma_place_then_find(v: ContainerView, depth: u16, child: DisplayObject)
    ensures
        spec_free_id(v, depth) is Some ==> spec_child_by_depth(spec_replace_at_depth(v, depth, child), depth) == Some(child),
{
}

/// Placing an object at a depth leaves every other depth with the object
/// it had, unless that depth shared the replaced object's id.
pub proof fn lemma_place_keeps_other_depths(v: ContainerView, depth: u16, child: DisplayObject, d: u16)
    requires
        d != depth,
        spec_child_by_depth(v, d) is Some,
        v.depths.contains_key(depth) ==> v.depths[d] != v.depths[depth],
    ensures
        spec_child_by_depth(spec_replace_at_depth(v, depth, child), d) == spec_child_by_depth(v, d),
{
    if let Some(id) = spec_free_id(v, depth) {
        let c = choose|k: u16| is_smallest_free_id(v, depth, k);
        assert(is_smallest_free_id(v, depth, c));
        assert(v.objects.contains_key(v.depths[d]));
        assert(id != v.depths[d]);
    }
}

/// After the object at a depth leaves the depth list, nothing is found at
/// that depth.
pub proof fn lemma_removed_depth_is_empty(v: ContainerView, depth: u16)
    ensures
        spec_child_by_depth(spec_remove_from_depth_list(v, depth), depth) is None,
{
}

/// A key above `d` means there is a smallest key above `d`.
proof fn lemma_min_key_exists(m: Map<u16, u16>, d: u16, k: u16)
    requires
        m.contains_key(k),
        k > d,
    ensures
        exists|k2: u16| is_min_key_above(m, d, k2),
    decreases k,
{
    if !is_min_key_above(m, d, k) {
        let k2 = choose|k2: u16| #[trigger] m.contains_key(k2) && k2 > d && !(k <= k2);
        lemma_min_key_exists(m, d, k2);
    }
}

/// The display list after an object is placed at a free depth under the
/// id `id`.
pub open spec fn spec_place_at_free(v: ContainerView, depth: u16, id: u16, child: DisplayObject) -> ContainerView {
    ContainerView {
        render: spec_render_after_place(v, depth, id),
        depths: v.depths.insert(depth, id),
        objects: v.objects.insert(id, child),
    }
}

/// Placing an object at a free depth, under an id not yet in use, keeps
/// the drawing order sorted by depth: objects at lower depths are drawn
/// first.
pub proof fn lemma_place_keeps_order(v: ContainerView, depth: u16, id: u16, child: DisplayObject)
    requires
        ordered(v),
        !v.depths.contains_key(depth),
        !v.objects.contains_key(id),
    ensures
        ordered(spec_place_at_free(v, depth, id, child)),
{
    let w = spec_place_at_free(v, depth, id, child);
    let r = v.render;
    assert(!r.contains(id));
    assert(w.depths == v.depths.insert(depth, id));
    assert(w.objects == v.objects.insert(id, child));
    match spec_min_key_above(v.depths, depth) {
        None => {
            assert(w.render == r.push(id));
            assert forall|k: u16| v.depths.contains_key(k) implies k < depth by {
                if k > depth {
                    lemma_min_key_exists(v.depths, depth, k);
                }
            }
            assert forall|i: int, j: int| 0 <= i < j < w.render.len() implies w.render[i] != w.render[j] by {
                if j == r.len() {
                    assert(r.contains(r[i]));
                }
            }
            assert forall|k: u16| #[trigger] w.depths.contains_key(k) implies w.render.contains(w.depths[k]) by {
                if k == depth {
                    assert(w.render[r.len() as int] == id);
                } else {
                    let i = choose|i: int| 0 <= i < r.len() && r[i] == v.depths[k];
                    assert(w.render[i] == r[i]);
                }
            }
            assert forall|i: int| 0 <= i < w.render.len() implies w.objects.contains_key(#[trigger] w.render[i]) by {
                if i < r.len() {
                    assert(w.render[i] == r[i]);
                }
            }
            assert forall|k1: u16, k2: u16, i: int, j: int|
                #![trigger w.depths[k1], w.depths[k2], w.render[i], w.render[j]]
                w.depths.contains_key(k1) && w.depths.contains_key(k2) && k1 < k2
                    && 0 <= i < w.render.len() && 0 <= j < w.render.len()
                    && w.render[i] == w.depths[k1] && w.render[j] == w.depths[k2] implies i < j by {
                if k2 == depth {
                    assert(k1 != depth);
                    assert(v.objects.contains_key(v.depths[k1]));
                    if i == r.len() {
                        assert(w.render[i] == id);
                    }
                } else {
                    assert(k1 != depth);
                    if j == r.len() {
                        assert(v.objects.contains_key(v.depths[k2]));
                    }
                    if i == r.len() {
                        assert(v.objects.contains_key(v.depths[k1]));
                    }
                    assert(r[i] == v.depths[k1] && r[j] == v.depths[k2]);
                }
            }
        },
        Some(kmin) => {
            assert(is_min_key_above(v.depths, depth, kmin));
            let above = v.depths[kmin];
            assert(r.contains(above));
            lemma_first_index_exists(r, above);
            let p = choose|i: int| is_first_index(r, above, i);
            assert(spec_first_index(r, above) == Some(p));
            assert(w.render == r.insert(p, id));
            // old index x maps to x (x < p) or x + 1 (x >= p)
            assert forall|x: int| 0 <= x < r.len() implies
                (x < p ==> w.render[x] == r[x]) && (x >= p ==> w.render[x + 1] == r[x]) by {}
            assert(w.render[p] == id);
            assert forall|i: int, j: int| 0 <= i < j < w.render.len() implies w.render[i] != w.render[j] by {
                if i == p {
                    assert(r.contains(w.render[j])) by {
                        assert(w.render[j] == r[j - 1]);
                    }
                } else if j == p {
                    assert(w.render[i] == r[i]);
                    assert(r.contains(r[i]));
                } else {
                    let oi = if i < p { i } else { i - 1 };
                    let oj = if j < p { j } else { j - 1 };
                    assert(w.render[i] == r[oi] && w.render[j] == r[oj]);
                }
            }
            assert forall|k: u16| #[trigger] w.depths.contains_key(k) implies w.render.contains(w.depths[k]) by {
                if k == depth {
                    assert(w.render[p] == id);
                } else {
                    let x = choose|x: int| 0 <= x < r.len() && r[x] == v.depths[k];
                    if x < p {
                        assert(w.render[x] == r[x]);
                    } else {
                        assert(w.render[x + 1] == r[x]);
                    }
                }
            }
            assert forall|i: int| 0 <= i < w.render.len() implies w.objects.contains_key(#[trigger] w.render[i]) by {
                if i < p {
                    assert(w.render[i] == r[i]);
                } else if i > p {
                    assert(w.render[i] == r[i - 1]);
                }
            }
            assert forall|k1: u16, k2: u16, i: int, j: int|
                #![trigger w.depths[k1], w.depths[k2], w.render[i], w.render[j]]
                w.depths.contains_key(k1) && w.depths.contains_key(k2) && k1 < k2
                    && 0 <= i < w.render.len() && 0 <= j < w.render.len()
                    && w.render[i] == w.depths[k1] && w.render[j] == w.depths[k2] implies i < j by {
                if k1 == depth {
                    // the new object against one above it
                    assert(w.render[i] == id);
                    if i != p {
                        let oi = if i < p { i } else { i - 1 };
                        assert(w.render[i] == r[oi]);
                        assert(r.contains(id));
                    }
                    assert(v.objects.contains_key(v.depths[k2]));
                    if j < p {
                        assert(w.render[j] == r[j]);
                        if k2 == kmin {
                            assert(r[j] == above);
                        } else {
                            assert(kmin <= k2);
                            assert(r[p] == v.depths[kmin]);
                            assert(r[j] == v.depths[k2]);
                            assert(p < j);
                        }
                    } else if j == p {
                        assert(w.render[j] == id);
                    }
                } else if k2 == depth {
                    assert(w.render[j] == id);
                    if j != p {
                        let oj = if j < p { j } else { j - 1 };
                        assert(w.render[j] == r[oj]);
                        assert(r.contains(id));
                    }
                    assert(v.objects.contains_key(v.depths[k1]));
                    if i > p {
                        assert(w.render[i] == r[i - 1]);
                        assert(k1 < kmin);
                        assert(r[p] == v.depths[kmin]);
                        assert(r[i - 1] == v.depths[k1]);
                        assert(i - 1 < p);
                    } else if i == p {
                        assert(w.render[i] == id);
                    }
                } else {
                    assert(v.objects.contains_key(v.depths[k1]));
                    assert(v.objects.contains_key(v.depths[k2]));
                    if i == p {
                        assert(w.render[i] == id);
                    }
                    if j == p {
                        assert(w.render[j] == id);
                    }
                    let oi = if i < p { i } else { i - 1 };
                    let oj = if j < p { j } else { j - 1 };
                    assert(w.render[i] == r[oi] && w.render[j] == r[oj]);
                    assert(oi < oj);
                }
            }
        },
    }
}

/// The smallest free id is the only one.
proof fn lemma_smallest_free_unique(v: ContainerView, depth: u16, k: u16)
    requires
        is_smallest_free_id(v, depth, k),
    ensures
        spec_free_id(v, depth) == Some(k),
{
    let c = choose|k: u16| is_smallest_free_id(v, depth, k);
    assert(is_smallest_free_id(v, depth, c));
    if c < k {
        assert(!is_free_id(v, depth, c));
    } else if k < c {
        assert(!is_free_id(v, depth, k));
    }
}

/// Finds the smallest id that no object in `objects` holds, or that is
/// `prev`.
fn free_id(objects: &BTreeMap<u16, DisplayObject>, prev: Option<u16>) -> (r: Option<u16>)
    ensures
        match r {
            Some(k) => (!objects@.contains_key(k) || prev == Some(k))
                && forall|k2: u16| k2 < k ==> objects@.contains_key(k2) && prev != Some(k2),
            None => forall|k2: u16| objects@.contains_key(k2) && prev != Some(k2),
        },
{
    let mut k: u32 = 0;
    while k <= 65535
        invariant
            k <= 65536,
            forall|k2: u16| k2 < k ==> objects@.contains_key(k2) && prev != Some(k2),
        decreases 65536 - k,
    {
        let id = k as u16;
        let reused = match prev {
            Some(p) => p == id,
            None => false,
        };
        if !objects.contains_key(&id) || reused {
            return Some(id);
        }
        k += 1;
    }
    None
}

/// `k` is the id of the object at some depth.
pub open spec fn is_depth_id(v: ContainerView, k: u16) -> bool {
    exists|d: u16| v.depths.contains_key(d) && v.depths[d] == k
}

/// A display list as placing objects builds it: the drawing order holds
/// exactly the ids of the depth list, each once, sorted by depth; each
/// depth has an id of its own, stored; only those ids are stored; and the
/// drawing order, the depth list and the store have as many entries.
pub open spec fn well_formed(v: ContainerView) -> bool {
    &&& ordered(v)
    &&& forall|i: int| 0 <= i < v.render.len() ==> is_depth_id(v, #[trigger] v.render[i])
    &&& forall|d1: u16, d2: u16| #![trigger v.depths[d1], v.depths[d2]]
        v.depths.contains_key(d1) && v.depths.contains_key(d2) && d1 != d2 ==> v.depths[d1] != v.depths[d2]
    &&& forall|k: u16| #[trigger] v.objects.contains_key(k) ==> is_depth_id(v, k)
    &&& v.depths.dom().finite()
    &&& v.objects.dom().finite()
    &&& v.render.len() == v.depths.len()
    &&& v.objects.len() == v.depths.len()
}

/// A free id has a smallest free id at or below it.
proof fn lemma_smallest_free_exists(v: ContainerView, depth: u16, k: u16)
    requires
        is_free_id(v, depth, k),
    ensures
        exists|k2: u16| is_smallest_free_id(v, depth, k2),
    decreases k,
{
    if !is_smallest_free_id(v, depth, k) {
        let k2 = choose|k2: u16| k2 < k && is_free_id(v, depth, k2);
        lemma_smallest_free_exists(v, depth, k2);
    }
}

/// The empty display list is well formed.
pub proof fn lemma_empty_well_formed()
    ensures
        well_formed(ContainerView {
            render: Seq::empty(),
            depths: Map::<u16, u16>::empty(),
            objects: Map::<u16, DisplayObject>::empty(),
        }),
{
    let v = ContainerView { render: Seq::empty(), depths: Map::<u16, u16>::empty(), objects: Map::<u16, DisplayObject>::empty() };
    assert(v.depths.dom() =~= Set::<u16>::empty());
    assert(v.objects.dom() =~= Set::<u16>::empty());
}

/// The elements of the drawing order after a placement at a free depth:
/// the new id and those of the old order.
proof fn lemma_render_after_place_elems(v: ContainerView, depth: u16, id: u16)
    ensures
        spec_render_after_place(v, depth, id).len() == v.render.len() + 1,
        forall|i: int| 0 <= i < spec_render_after_place(v, depth, id).len() ==>
            (#[trigger] spec_render_after_place(v, depth, id)[i] == id
                || exists|j: int| 0 <= j < v.render.len() && v.render[j] == spec_render_after_place(v, depth, id)[i]),
{
    let w = spec_render_after_place(v, depth, id);
    let r = v.render;
    match spec_min_key_above(v.depths, depth) {
        Some(k) => match spec_first_index(r, v.depths[k]) {
            Some(p) => {
                assert(w == r.insert(p, id));
                assert forall|i: int| 0 <= i < w.len() implies (#[trigger] w[i] == id
                    || exists|j: int| 0 <= j < r.len() && r[j] == w[i]) by {
                    if i < p {
                        assert(r[i] == w[i]);
                    } else if i > p {
                        assert(r[i - 1] == w[i]);
                    }
                }
            },
            None => {
                assert forall|i: int| 0 <= i < w.len() implies (#[trigger] w[i] == id
                    || exists|j: int| 0 <= j < r.len() && r[j] == w[i]) by {
                    if i < r.len() {
                        assert(r[i] == w[i]);
                    }
                }
            },
        },
        None => {
            assert forall|i: int| 0 <= i < w.len() implies (#[trigger] w[i] == id
                || exists|j: int| 0 <= j < r.len() && r[j] == w[i]) by {
                if i < r.len() {
                    assert(r[i] == w[i]);
                }
            }
        },
    }
}

/// The display list after placing each `(depth, child)` of `places` in
/// turn, starting from `v`.
pub open spec fn spec_place_all(v: ContainerView, places: Seq<(u16, DisplayObject)>) -> ContainerView
    decreases places.len(),
{
    if places.len() == 0 {
        v
    } else {
        spec_replace_at_depth(spec_place_all(v, places.drop_last()), places.last().0, places.last().1)
    }
}

/// A display list built from an empty one by placements alone, at most
/// one per id, is well formed: its drawing order holds exactly the ids of
/// its depth list, each once, sorted by depth, and it stores as many
/// objects as it has depths.
pub proof fn lemma_placements_well_formed(places: Seq<(u16, DisplayObject)>)
    requires
        places.len() <= 0x10000,
    ensures
        well_formed(spec_place_all(
            ContainerView { render: Seq::empty(), depths: Map::empty(), objects: Map::empty() },
            places,
        )),
        spec_place_all(
            ContainerView { render: Seq::empty(), depths: Map::empty(), objects: Map::empty() },
            places,
        ).depths.len() <= places.len(),
    decreases places.len(),
{
    let e = ContainerView { render: Seq::<u16>::empty(), depths: Map::<u16, u16>::empty(), objects: Map::<u16, DisplayObject>::empty() };
    if places.len() == 0 {
        lemma_empty_well_formed();
        assert(e.depths.dom() =~= Set::<u16>::empty());
    } else {
        let rest = places.drop_last();
        lemma_placements_well_formed(rest);
        let w = spec_place_all(e, rest);
        let (d, c) = places.last();
        lemma_place_keeps_well_formed(w, d, c);
        assert(spec_replace_at_depth(w, d, c).depths.dom() =~= w.depths.dom().insert(d));
    }
}

/// Fewer objects than there are ids leave some id free.
proof fn lemma_some_id_free(v: ContainerView)
    requires
        v.objects.dom().finite(),
        v.objects.len() < 0x10000,
    ensures
        exists|k: u16| !v.objects.contains_key(k),
{
    if forall|k: u16| v.objects.contains_key(k) {
        let f = |k: u16| k as int;
        let dom = v.objects.dom();
        let img = dom.map(f);
        vstd::set_lib::lemma_map_size_bound(dom, img, f);
        assert forall|i: int| vstd::set_lib::set_int_range(0, 0x10000).contains(i) implies img.contains(i) by {
            let k = i as u16;
            assert(v.objects.contains_key(k));
            assert(dom.contains(k) && f(k) == i);
        }
        vstd::set_lib::lemma_int_range(0, 0x10000);
        vstd::set_lib::lemma_len_subset(vstd::set_lib::set_int_range(0, 0x10000), img);
    }
}

/// Placing an object keeps a display list well formed (the law of the
/// display list): the drawing order still holds exactly the ids of the
/// depth list, each once and sorted by depth, and the three have as many
/// entries.  Placing at a taken depth reuses its id; a new depth needs
/// fewer than 65536 objects there already, one per id.
pub proof fn lemma_place_keeps_well_formed(v: ContainerView, depth: u16, child: DisplayObject)
    requires
        well_formed(v),
        v.depths.contains_key(depth) || v.depths.len() < 0x10000,
    ensures
        spec_free_id(v, depth) is Some,
        well_formed(spec_replace_at_depth(v, depth, child)),
{
    if !v.depths.contains_key(depth) {
        lemma_some_id_free(v);
    }
    if v.depths.contains_key(depth) {
        assert(is_free_id(v, depth, v.depths[depth]));
        lemma_smallest_free_exists(v, depth, v.depths[depth]);
    } else {
        let k = choose|k: u16| !v.objects.contains_key(k);
        assert(is_free_id(v, depth, k));
        lemma_smallest_free_exists(v, depth, k);
    }
    let id = choose|k: u16| is_smallest_free_id(v, depth, k);
    assert(is_smallest_free_id(v, depth, id));
    assert(spec_free_id(v, depth) == Some(id));
    let w = spec_replace_at_depth(v, depth, child);
    let r = v.render;
    if !v.depths.contains_key(depth) {
        assert(!v.objects.contains_key(id));
        assert(w == spec_place_at_free(v, depth, id, child));
        lemma_place_keeps_order(v, depth, id, child);
        lemma_render_after_place_elems(v, depth, id);
        assert forall|i: int| 0 <= i < w.render.len() implies is_depth_id(w, #[trigger] w.render[i]) by {
            if w.render[i] == id {
                assert(w.depths.contains_key(depth) && w.depths[depth] == id);
            } else {
                let j = choose|j: int| 0 <= j < r.len() && r[j] == w.render[i];
                assert(is_depth_id(v, r[j]));
                let d = choose|d: u16| v.depths.contains_key(d) && v.depths[d] == r[j];
                assert(d != depth);
                assert(w.depths.contains_key(d) && w.depths[d] == w.render[i]);
            }
        }
        assert forall|d1: u16, d2: u16| #![trigger w.depths[d1], w.depths[d2]]
            w.depths.contains_key(d1) && w.depths.contains_key(d2) && d1 != d2 implies w.depths[d1] != w.depths[d2] by {
            if d1 == depth {
                assert(v.objects.contains_key(v.depths[d2]));
            } else if d2 == depth {
                assert(v.objects.contains_key(v.depths[d1]));
            } else {
                assert(v.depths[d1] != v.depths[d2]);
            }
        }
        assert forall|k: u16| #[trigger] w.objects.contains_key(k) implies is_depth_id(w, k) by {
            if k == id {
                assert(w.depths.contains_key(depth) && w.depths[depth] == id);
            } else {
                assert(is_depth_id(v, k));
                let d = choose|d: u16| v.depths.contains_key(d) && v.depths[d] == k;
                assert(w.depths.contains_key(d) && w.depths[d] == k);
            }
        }
        assert(w.depths.dom() =~= v.depths.dom().insert(depth));
        assert(w.objects.dom() =~= v.objects.dom().insert(id));
    } else {
        let prev = v.depths[depth];
        assert(v.objects.contains_key(prev));
        assert(r.contains(prev));
        lemma_first_index_exists(r, prev);
        let p = choose|i: int| is_first_index(r, prev, i);
        assert(spec_first_index(r, prev) == Some(p));
        assert(w.render == r.update(p, id));
        assert(id == prev || !v.objects.contains_key(id));
        // the new id occurs in the new order only at `p`
        assert forall|i: int| 0 <= i < r.len() && i != p implies #[trigger] w.render[i] == r[i] && r[i] != prev && r[i] != id by {
            assert(v.objects.contains_key(r[i]));
        }
        assert forall|k: u16| #[trigger] v.depths.contains_key(k) && k != depth implies v.depths[k] != prev && v.depths[k] != id && v.objects.contains_key(v.depths[k]) by {
            assert(v.depths[k] != v.depths[depth]);
        }
        let wv = w;
        assert(ordered(wv)) by {
            assert forall|i: int, j: int| 0 <= i < j < wv.render.len() implies wv.render[i] != wv.render[j] by {
                if i != p && j != p {
                    assert(wv.render[i] == r[i] && wv.render[j] == r[j]);
                }
            }
            assert forall|k: u16| #[trigger] wv.depths.contains_key(k) implies wv.render.contains(wv.depths[k]) by {
                if k == depth {
                    assert(wv.render[p] == id);
                } else {
                    let x = choose|x: int| 0 <= x < r.len() && r[x] == v.depths[k];
                    assert(x != p);
                    assert(wv.render[x] == r[x]);
                }
            }
            assert forall|i: int| 0 <= i < wv.render.len() implies wv.objects.contains_key(#[trigger] wv.render[i]) by {
                if i != p {
                    assert(wv.render[i] == r[i]);
                }
            }
            assert forall|k: u16| #[trigger] wv.depths.contains_key(k) implies wv.objects.contains_key(wv.depths[k]) by {
                if k != depth {
                    assert(v.depths[k] != prev);
                }
            }
            assert forall|k1: u16, k2: u16, i: int, j: int|
                #![trigger wv.depths[k1], wv.depths[k2], wv.render[i], wv.render[j]]
                wv.depths.contains_key(k1) && wv.depths.contains_key(k2) && k1 < k2
                    && 0 <= i < wv.render.len() && 0 <= j < wv.render.len()
                    && wv.render[i] == wv.depths[k1] && wv.render[j] == wv.depths[k2] implies i < j by {
                if k1 == depth {
                    assert(v.depths[k2] != id);
                    assert(j != p);
                    if i != p {
                        assert(wv.render[i] == r[i]);
                    }
                    assert(i == p);
                    assert(r[p] == v.depths[k1] && r[j] == v.depths[k2]);
                } else if k2 == depth {
                    assert(v.depths[k1] != id);
                    assert(i != p);
                    if j != p {
                        assert(wv.render[j] == r[j]);
                    }
                    assert(j == p);
                    assert(r[i] == v.depths[k1] && r[j] == v.depths[k2]);
                } else {
                    assert(v.depths[k1] != id && v.depths[k2] != id);
                    assert(i != p && j != p);
                    assert(r[i] == v.depths[k1] && r[j] == v.depths[k2]);
                }
            }
        }
        assert forall|i: int| 0 <= i < w.render.len() implies is_depth_id(w, #[trigger] w.render[i]) by {
            if i == p {
                assert(w.depths.contains_key(depth) && w.depths[depth] == w.render[i]);
            } else {
                assert(w.render[i] == r[i]);
                assert(is_depth_id(v, r[i]));
                let d = choose|d: u16| v.depths.contains_key(d) && v.depths[d] == r[i];
                assert(d != depth);
                assert(w.depths.contains_key(d) && w.depths[d] == w.render[i]);
            }
        }
        assert forall|d1: u16, d2: u16| #![trigger w.depths[d1], w.depths[d2]]
            w.depths.contains_key(d1) && w.depths.contains_key(d2) && d1 != d2 implies w.depths[d1] != w.depths[d2] by {
            if d1 != depth && d2 != depth {
                assert(v.depths[d1] != v.depths[d2]);
            }
        }
        assert forall|k: u16| #[trigger] w.objects.contains_key(k) implies is_depth_id(w, k) by {
            if k == id {
                assert(w.depths.contains_key(depth) && w.depths[depth] == id);
            } else {
                assert(v.objects.contains_key(k) && k != prev);
                assert(is_depth_id(v, k));
                let d = choose|d: u16| v.depths.contains_key(d) && v.depths[d] == k;
                assert(d != depth);
                assert(w.depths.contains_key(d) && w.depths[d] == k);
            }
        }
        assert(w.depths.dom() =~= v.depths.dom());
        assert(v.objects.remove(prev).dom() =~= v.objects.dom().remove(prev));
        assert(w.objects.dom() =~= v.objects.dom().remove(prev).insert(id));
        assert(!v.objects.dom().remove(prev).contains(id));
    }
}

impl ChildContainer {
    /// An empty display list.
    pub fn new() -> (r: ChildContainer)
        ensures
            r@.render == Seq::<u16>::empty(),
            r@.depths == Map::<u16, u16>::empty(),
            r@.objects == Map::<u16, DisplayObject>::empty(),
    {
        ChildContainer {
            render_list: Vec::new(),
            depth_list: BTreeMap::new(),
            display_objects: BTreeMap::new(),
        }
    }

    /// The number of entries in the drawing order.
    pub fn render_list_len(&self) -> (r: usize)
        ensures
            r == self@.render.len(),
    {
        self.render_list.len()
    }

    /// A copy of the drawing order.
    pub fn render_list(&self) -> (r: Vec<u16>)
        ensures
            r@ == self@.render,
    {
        let mut out: Vec<u16> = Vec::new();
        let mut i: usize = 0;
        while i < self.render_list.len()
            invariant
                i <= self.render_list@.len(),
                out@ == self.render_list@.subrange(0, i as int),
            decreases self.render_list@.len() - i,
        {
            out.push(self.render_list[i]);
            i += 1;
        }
        assert(self.render_list@.subrange(0, self.render_list@.len() as int) == self.render_list@);
        out
    }

    /// The object at `depth`, if any.
    pub fn child_by_depth(&self, depth: u16) -> (r: Option<&DisplayObject>)
        ensures
            match spec_child_by_depth(self@, depth) {
                Some(o) => r matches Some(x) && *x == o,
                None => r is None,
            },
    {
        match self.depth_list.get(&depth) {
            Some(id) => self.display_objects.get(id),
            None => None,
        }
    }

    /// The stored objects, by id.
    pub fn display_objects(&self) -> (r: &BTreeMap<u16, DisplayObject>)
        ensures
            r@ == self@.objects,
    {
        &self.display_objects
    }

    /// Stores `child` under `id` and maps `depth` to it; returns the id
    /// that was at `depth` before.
    fn insert_child_into_depth_list(&mut self, depth: u16, id: u16, child: DisplayObject) -> (r: Option<u16>)
        ensures
            final(self)@.objects == old(self)@.objects.insert(id, child),
            final(self)@.depths == old(self)@.depths.insert(depth, id),
            final(self)@.render == old(self)@.render,
            r == (if old(self)@.depths.contains_key(depth) { Some(old(self)@.depths[depth]) } else { None }),
    {
        self.display_objects.insert(id, child);
        self.depth_list.insert(depth, id)
    }

    /// Takes the object at `depth` out of the depth list and the store.
    pub fn remove_child_from_depth_list(&mut self, depth: u16)
        ensures
            final(self)@ == spec_remove_from_depth_list(old(self)@, depth),
    {
        if self.depth_list.contains_key(&depth) {
            let remove = self.depth_list.remove(&depth);
            if let Some(remove) = remove {
                self.display_objects.remove(&remove);
            }
        }
    }

    /// Removes the first occurrence of `child` from the drawing order;
    /// tells whether there was one.
    fn remove_child_from_render_list(container: &mut ChildContainer, child: u16) -> (r: bool)
        ensures
            final(container)@ == (ContainerView { render: spec_remove_from_render(old(container)@.render, child), ..old(container)@ }),
            r == old(container)@.render.contains(child),
    {
        match position(&container.render_list, child) {
            Some(p) => {
                container.render_list.remove(p);
                true
            },
            None => false,
        }
    }

    /// Removes a child: the depth `child` leaves the depth list and the
    /// store, and the drawing-order entry equal to the number `child`
    /// (read as an id, not the id the depth held) leaves the drawing order.
    pub fn remove_child(&mut self, child: u16)
        ensures
            final(self)@ == spec_remove_child(old(self)@, child),
    {
        self.remove_child_from_depth_list(child);
        Self::remove_child_from_render_list(self, child);
    }

    /// Places `child` at `depth`, replacing any object there, and hands
    /// back the replaced object.  The child gets the smallest free id; it
    /// takes the replaced object's place in the drawing order, or, at a
    /// free depth, goes in front of the object at the next depth above.
    pub fn replace_at_depth(&mut self, depth: u16, child: DisplayObject) -> (r: Option<DisplayObject>)
        ensures
            final(self)@ == spec_replace_at_depth(old(self)@, depth, child),
            r == spec_replaced_child(old(self)@, depth),
    {
        let ghost v = self@;
        let prev = self.id_at_depth(depth);
        let id = match free_id(&self.display_objects, prev) {
            Some(id) => id,
            None => {
                proof {
                    assert(!exists|k: u16| is_smallest_free_id(v, depth, k)) by {
                        if exists|k: u16| is_smallest_free_id(v, depth, k) {
                            let k = choose|k: u16| is_smallest_free_id(v, depth, k);
                            assert(is_free_id(v, depth, k));
                        }
                    }
                }
                return None;
            },
        };
        proof {
            lemma_smallest_free_unique(v, depth, id);
        }
        let old_child = match prev {
            Some(p) => self.display_objects.remove(&p),
            None => None,
        };
        let ghost objects0 = self.display_objects@;
        self.insert_child_into_depth_list(depth, id, child);
        if let Some(p) = prev {
            match position(&self.render_list, p) {
                Some(pos) => {
                    self.render_list.set(pos, id);
                    return old_child;
                },
                None => {},
            }
        }
        let ghost m1 = self.depth_list@;
        proof {
            assert forall|k2: u16| is_min_key_above(m1, depth, k2) <==> is_min_key_above(v.depths, depth, k2) by {
                if is_min_key_above(m1, depth, k2) {
                    assert forall|k3: u16| #[trigger] v.depths.contains_key(k3) && k3 > depth implies k2 <= k3 by {
                        assert(m1.contains_key(k3));
                    }
                }
            }
        }
        match first_above(&self.depth_list, depth) {
            Some((k, above_child)) => {
                proof {
                    assert(is_min_key_above(v.depths, depth, k));
                    assert(spec_min_key_above(v.depths, depth) == Some(k));
                    assert(v.depths[k] == above_child);
                }
                match position(&self.render_list, above_child) {
                    Some(position) => {
                        self.render_list.insert(position, id);
                    },
                    None => {
                        self.render_list.push(id);
                    },
                }
            },
            None => {
                proof {
                    assert forall|k2: u16| !is_min_key_above(v.depths, depth, k2) by {
                        if is_min_key_above(v.depths, depth, k2) {
                            assert(m1.contains_key(k2));
                        }
                    }
                }
                self.render_list.push(id);
            },
        }
        old_child
    }

    /// Takes the object with id `id` out of the store, to be changed and
    /// put back.
    pub fn take_display_object(&mut self, id: u16) -> (r: Option<DisplayObject>)
        ensures
            match r {
                Some(o) => old(self)@.objects.contains_key(id) && o == old(self)@.objects[id],
                None => !old(self)@.objects.contains_key(id),
            },
            final(self)@ == (ContainerView { objects: old(self)@.objects.remove(id), ..old(self)@ }),
    {
        self.display_objects.remove(&id)
    }

    /// Stores `object` under `id`.
    pub fn put_display_object(&mut self, id: u16, object: DisplayObject)
        ensures
            final(self)@ == (ContainerView { objects: old(self)@.objects.insert(id, object), ..old(self)@ }),
    {
        self.display_objects.insert(id, object);
    }

    /// The id mapped at `depth`, if any.
    pub fn id_at_depth(&self, depth: u16) -> (r: Option<u16>)
        ensures
            r == (if self@.depths.contains_key(depth) { Some(self@.depths[depth]) } else { None }),
    {
        match self.depth_list.get(&depth) {
            Some(id) => Some(*id),
            None => None,
        }
    }
}

} // verus!

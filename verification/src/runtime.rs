//! Running a movie clip's timeline: placing and removing children as the
//! tags of each frame say, deferring them in ActionScript 3 movies, and
//! jumping to a frame by replaying the timeline's display list.

use vstd::prelude::*;
use std::collections::HashMap;
use vstd::std_specs::iter::IteratorSpec;
use crate::display_object::{
    DisplayObject, DisplayObjectBase, base_copy_of, base_of, with_base, character_id_of, spec_place_applied,
};
use crate::movie_clip::{Character, MovieClip, MovieLibrary, same_labels};
use crate::place_object::PlaceObjectRecord;
use crate::queued_tags::{
    QueuedTag, QueuedTagAction, QueuedTagList, pending_add, pending_remove, without_add,
    without_remove, spec_queue_add, spec_queue_remove,
};
use crate::swf_io;
use crate::tag_utils::{SwfMovie, TagStep, spec_frame_end, spec_next_tag};
use crate::tags;

verus! {

/// The default name of the `n`-th instance: `instance` and `n` in decimal.
pub open spec fn spec_instance_name(n: u16) -> Seq<char> {
    seq!['i', 'n', 's', 't', 'a', 'n', 'c', 'e'] + swf_io::spec_decimal(n as nat)
}

/// The default name of the `n`-th instance.
pub fn instance_name(n: u16) -> (r: String)
    ensures
        r@ == spec_instance_name(n),
{
    let mut chars: Vec<char> = Vec::new();
    chars.push('i');
    chars.push('n');
    chars.push('s');
    chars.push('t');
    chars.push('a');
    chars.push('n');
    chars.push('c');
    chars.push('e');
    swf_io::push_decimal(&mut chars, n);
    assert(chars@ =~= spec_instance_name(n));
    swf_io::string_from_chars(&chars)
}

/// The character id of a library entry (a bitmap has none of its own).
pub open spec fn spec_character_id(c: Character) -> Option<u16> {
    match c {
        Character::MovieClip(mc) => Some(mc.id),
        Character::Graphic(g) => Some(g.id),
        Character::Bitmap(_) => None,
    }
}

/// Running a timeline leaves the library's characters as they are.
pub open spec fn keeps_characters(a: MovieLibrary, b: MovieLibrary) -> bool {
    &&& a.characters@ == b.characters@
    &&& a.bitmap_characters@ == b.bitmap_characters@
}

/// The queue at depth `d`, empty when there is none.
pub open spec fn spec_bucket(m: Map<u16, QueuedTagList>, d: u16) -> QueuedTagList {
    if m.contains_key(d) { m[d] } else { QueuedTagList::Empty }
}

/// The object after `replace_with(id)`: a graphic takes the shape, bounds
/// and id of the graphic `id` of the library, when there is one; a clip,
/// or any other id, leaves it as it is.
pub open spec fn spec_replaced(o: DisplayObject, id: u16, library: MovieLibrary) -> DisplayObject {
    match o {
        DisplayObject::Graphic(g) => {
            if library.characters@.contains_key(id) && library.characters@[id] is Graphic {
                let t = library.characters@[id]->Graphic_0;
                DisplayObject::Graphic(crate::display_object::Graphic { id: t.id, shape: t.shape, bounds: t.bounds, ..g })
            } else {
                o
            }
        },
        DisplayObject::MovieClip(_) => o,
    }
}

/// `o2` is `o` with the properties of the record `p` applied.
pub open spec fn tag_applied(o: DisplayObject, p: PlaceObjectRecord, swf_version: u8, o2: DisplayObject) -> bool {
    o2 == with_base(o, base_of(o2)) && spec_place_applied(base_of(o), p, swf_version, base_of(o2))
}

/// The object marked as placed on `frame`.
pub open spec fn with_place_frame(o: DisplayObject, frame: u16) -> DisplayObject {
    with_base(o, DisplayObjectBase { place_frame: frame, ..base_of(o) })
}

/// The display list with the object stored for `depth` changed to `o2`.
pub open spec fn changed_at_depth(v: crate::container::ContainerView, depth: u16, o2: DisplayObject) -> crate::container::ContainerView {
    crate::container::ContainerView { objects: v.objects.insert(v.depths[depth], o2), ..v }
}

/// `after` is `before` with a new child for the character `id` of the
/// library put at `depth`, marked as placed on `frame`, when the library
/// holds a clip or a graphic under `id` and a nesting level is left;
/// `before` itself otherwise.
pub open spec fn placed_new_child(
    before: crate::container::ContainerView,
    after: crate::container::ContainerView,
    library: MovieLibrary,
    id: u16,
    depth: u16,
    frame: u16,
    budget: u32,
) -> bool {
    if budget > 0 && library.characters@.contains_key(id) && !(library.characters@[id] is Bitmap) {
        exists|c: DisplayObject| #[trigger] crate::container::spec_replace_at_depth(before, depth, c) == after
            && spec_character_id(library.characters@[id]) == Some(character_id_of(c))
            && base_of(c).depth == depth
            && base_of(c).place_frame == frame
    } else {
        after == before
    }
}

impl DisplayObject {
    /// Applies the properties of a PlaceObject tag.
    pub fn apply_place_object(&mut self, place_object: &PlaceObjectRecord, swf_version: u8)
        ensures
            *final(self) == with_base(*old(self), base_of(*final(self))),
            spec_place_applied(base_of(*old(self)), *place_object, swf_version, base_of(*final(self))),
    {
        match self {
            DisplayObject::MovieClip(mc) => mc.base.apply_place_object(place_object, swf_version),
            DisplayObject::Graphic(g) => g.base.apply_place_object(place_object, swf_version),
        }
    }

    /// Swaps the character of a graphic for the graphic with id `id` in the
    /// library; a clip, or an id that names no graphic, stays as it is.
    pub fn replace_with(&mut self, id: u16, library: &MovieLibrary)
        ensures
            *final(self) == spec_replaced(*old(self), id, *library),
            match *old(self) {
                DisplayObject::Graphic(g) => {
                    if library.characters@.contains_key(id) && library.characters@[id] is Graphic {
                        let t = library.characters@[id]->Graphic_0;
                        *final(self) == DisplayObject::Graphic(crate::display_object::Graphic {
                            id: t.id,
                            shape: t.shape,
                            bounds: t.bounds,
                            ..g
                        })
                    } else {
                        *final(self) == *old(self)
                    }
                },
                DisplayObject::MovieClip(_) => *final(self) == *old(self),
            },
    {
        match self {
            DisplayObject::Graphic(g) => {
                match library.get_graphic(id) {
                    Some(new_graphic) => {
                        g.id = new_graphic.id;
                        g.shape = new_graphic.shape;
                        g.bounds = new_graphic.bounds;
                    },
                    None => {},
                }
            },
            DisplayObject::MovieClip(_) => {},
        }
    }

    /// Gives an unnamed object the next default instance name and counts
    /// the instance.
    pub fn post_instantiation(&mut self, library: &mut MovieLibrary)
        ensures
            keeps_characters(*final(library), *old(library)),
            match base_of(*old(self)).name {
                Some(_) => {
                    &&& *final(self) == *old(self)
                    &&& final(library).instance_count == old(library).instance_count
                },
                None => {
                    &&& *final(self) == with_base(*old(self), base_of(*final(self)))
                    &&& base_of(*final(self)) == (DisplayObjectBase { name: base_of(*final(self)).name, ..base_of(*old(self)) })
                    &&& base_of(*final(self)).name matches Some(n) && n@ == spec_instance_name(old(library).instance_count)
                    &&& final(library).instance_count == old(library).instance_count.wrapping_add(1)
                },
            },
    {
        let unnamed = match self {
            DisplayObject::MovieClip(mc) => mc.base.name.is_none(),
            DisplayObject::Graphic(g) => g.base.name.is_none(),
        };
        if unnamed {
            let name = instance_name(library.instance_count);
            self.set_name(Some(name));
            library.instance_count = library.instance_count.wrapping_add(1);
        }
    }
}

/// `o` is a new instance of the character `c`: a copy of a graphic, or a
/// clip with the character's properties, timeline and frame position, an
/// empty display list and no deferred tags.
pub open spec fn is_instance_of(o: DisplayObject, c: Character) -> bool {
    match (o, c) {
        (DisplayObject::Graphic(g), Character::Graphic(t)) =>
            g.id == t.id && g.shape == t.shape && g.bounds == t.bounds && base_copy_of(g.base, t.base),
        (DisplayObject::MovieClip(m), Character::MovieClip(t)) => {
            &&& base_copy_of(m.base, t.base)
            &&& m.swf == t.swf
            &&& m.id == t.id
            &&& m.current_frame == t.current_frame
            &&& m.total_frames == t.total_frames
            &&& same_labels(m.frame_labels@, t.frame_labels@)
            &&& m.container@.render.len() == 0
            &&& m.container@.depths.is_empty()
            &&& m.container@.objects.is_empty()
            &&& m.playing == t.playing
            &&& m.tag_stream_pos == t.tag_stream_pos
            &&& m.queued_tags@.is_empty()
        },
        _ => false,
    }
}

/// A new object for the character `id` of the library: a fresh instance of
/// a clip's timeline, or a copy of a graphic.  A bitmap, or an id the
/// library lacks, gives none.
pub fn instantiate_by_id(library: &MovieLibrary, id: u16) -> (r: Option<DisplayObject>)
    ensures
        r is Some <==> (library.characters@.contains_key(id) && !(library.characters@[id] is Bitmap)),
        r matches Some(o) ==> spec_character_id(library.characters@[id]) == Some(character_id_of(o)),
        r matches Some(o) ==> is_instance_of(o, library.characters@[id]),
{
    match library.character(id) {
        Some(Character::MovieClip(mc)) => Some(DisplayObject::MovieClip(mc.instantiate_copy())),
        Some(Character::Graphic(g)) => Some(DisplayObject::Graphic(g.copy())),
        _ => None,
    }
}

/// The position where reading resumes: the saved one, or the end of the
/// stream when the saved one lies past it.
pub open spec fn spec_resume_pos(tag_stream_pos: u64, len: nat) -> int {
    if tag_stream_pos <= len { tag_stream_pos as int } else { len as int }
}

/// Computes `spec_resume_pos`.
fn resume_pos(tag_stream_pos: u64, len: usize) -> (r: usize)
    ensures
        r == spec_resume_pos(tag_stream_pos, len as nat),
{
    if tag_stream_pos <= len as u64 {
        tag_stream_pos as usize
    } else {
        len
    }
}

/// The entries are in order of where their tags start.
pub open spec fn sorted_by_start(s: Seq<(u16, QueuedTag)>) -> bool {
    forall|i: int, j: int| 0 <= i < j < s.len() ==> s[i].1.tag_start <= s[j].1.tag_start
}

/// Inserts `x` after the entries whose tags start no later than its own.
fn insert_sorted(v: &mut Vec<(u16, QueuedTag)>, x: (u16, QueuedTag))
    requires
        sorted_by_start(old(v)@),
    ensures
        sorted_by_start(final(v)@),
        exists|p: int| 0 <= p <= old(v)@.len() && final(v)@ == old(v)@.insert(p, x),
{
    let mut p: usize = 0;
    while p < v.len() && v[p].1.tag_start <= x.1.tag_start
        invariant
            p <= v@.len(),
            v@ == old(v)@,
            sorted_by_start(v@),
            forall|i: int| 0 <= i < p ==> v@[i].1.tag_start <= x.1.tag_start,
        decreases v@.len() - p,
    {
        p += 1;
    }
    let ghost before = v@;
    v.insert(p, x);
    proof {
        assert(v@ == before.insert(p as int, x));
        assert forall|i: int, j: int| 0 <= i < j < v@.len() implies v@[i].1.tag_start <= v@[j].1.tag_start by {
            if j < p {
            } else if j == p {
            } else if i < p {
                assert(v@[j] == before[j - 1]);
                assert(before[p as int].1.tag_start > x.1.tag_start);
                assert(before[p as int].1.tag_start <= before[j - 1].1.tag_start);
            } else if i == p {
                assert(v@[j] == before[j - 1]);
                assert(before[p as int].1.tag_start <= before[j - 1].1.tag_start);
            } else {
                assert(v@[i] == before[i - 1] && v@[j] == before[j - 1]);
            }
        }
    }
}

/// The keys of the deferred-tag table, each once, in the table's own walk
/// order.
fn queue_depths(m: &HashMap<u16, QueuedTagList>) -> (r: Vec<u16>)
    ensures
        r@.to_set() == m@.dom(),
        r@.no_duplicates(),
{
    let keys = m.keys();
    let ghost all = keys.remaining();
    let mut out: Vec<u16> = Vec::new();
    for k in it: keys
        invariant
            it.seq() == all,
            out@.len() == it.index(),
            forall|i: int| 0 <= i < it.index() ==> out@[i] == *all[i],
    {
        out.push(*k);
    }
    proof {
        broadcast use vstd::std_specs::hash::axiom_spec_keys_iter;
        assert(all == vstd::std_specs::hash::spec_keys_iter(m).remaining());
        assert(out@ =~= all.unref());
    }
    out
}

/// The pending tag of a queue: its add, or its remove.
pub open spec fn pending_of(list: QueuedTagList, adds: bool) -> Option<QueuedTag> {
    if adds { pending_add(list) } else { pending_remove(list) }
}

/// A queue with its add, or its remove, taken out.
pub open spec fn without_pending(list: QueuedTagList, adds: bool) -> QueuedTagList {
    if adds { without_add(list) } else { without_remove(list) }
}

/// The pending adds (or removes) of the table, by depth.
pub open spec fn pending_tags(m: Map<u16, QueuedTagList>, adds: bool) -> Map<u16, QueuedTag> {
    Map::new(
        |d: u16| m.contains_key(d) && pending_of(m[d], adds) is Some,
        |d: u16| pending_of(m[d], adds)->0,
    )
}

/// The table after its pending adds (or removes) are taken out: a queue
/// that had one and is left empty goes; every other queue stays, without
/// it.
pub open spec fn spec_after_unqueue(m: Map<u16, QueuedTagList>, adds: bool) -> Map<u16, QueuedTagList> {
    Map::new(
        |d: u16| m.contains_key(d) && !(pending_of(m[d], adds) is Some && without_pending(m[d], adds) == QueuedTagList::Empty),
        |d: u16| without_pending(m[d], adds),
    )
}

/// `r` lists each entry of `pending` once, as (depth, tag), in order of
/// where the tags start.
pub open spec fn lists_exactly(r: Seq<(u16, QueuedTag)>, pending: Map<u16, QueuedTag>) -> bool {
    &&& forall|i: int| 0 <= i < r.len() ==> #[trigger] pending.contains_key(r[i].0) && pending[r[i].0] == r[i].1
    &&& forall|d: u16| #[trigger] pending.contains_key(d) ==> exists|i: int| 0 <= i < r.len() && r[i].0 == d
    &&& forall|i: int, j: int| 0 <= i < j < r.len() ==> r[i].0 != r[j].0
    &&& sorted_by_start(r)
}

/// `d` is among the first `i` keys.
pub open spec fn seen(keys: Seq<u16>, i: int, d: u16) -> bool {
    exists|j: int| 0 <= j < i && keys[j] == d
}

impl MovieClip {
    /// Takes the pending adds (or removes) out of every depth's queue and
    /// lists them in order of where their tags start.
    fn unqueue(&mut self, adds: bool) -> (r: Vec<(u16, QueuedTag)>)
        ensures
            final(self).queued_tags@ == spec_after_unqueue(old(self).queued_tags@, adds),
            lists_exactly(r@, pending_tags(old(self).queued_tags@, adds)),
            *final(self) == (MovieClip { queued_tags: final(self).queued_tags, ..*old(self) }),
    {
        let ghost m0 = self.queued_tags@;
        let ghost target = spec_after_unqueue(m0, adds);
        let ghost pend = pending_tags(m0, adds);
        let keys = queue_depths(&self.queued_tags);
        let mut out: Vec<(u16, QueuedTag)> = Vec::new();
        let mut i: usize = 0;
        while i < keys.len()
            invariant
                i <= keys@.len(),
                keys@.to_set() == m0.dom(),
                keys@.no_duplicates(),
                m0 == old(self).queued_tags@,
                target == spec_after_unqueue(m0, adds),
                pend == pending_tags(m0, adds),
                *self == (MovieClip { queued_tags: self.queued_tags, ..*old(self) }),
                forall|d: u16| #[trigger] seen(keys@, i as int, d) ==> (self.queued_tags@.contains_key(d) == target.contains_key(d)
                    && (target.contains_key(d) ==> self.queued_tags@[d] == target[d])),
                forall|d: u16| !#[trigger] seen(keys@, i as int, d) ==> (self.queued_tags@.contains_key(d) == m0.contains_key(d)
                    && (m0.contains_key(d) ==> self.queued_tags@[d] == m0[d])),
                forall|j: int| 0 <= j < out@.len() ==> seen(keys@, i as int, #[trigger] out@[j].0) && pend.contains_key(out@[j].0) && pend[out@[j].0] == out@[j].1,
                forall|d: u16| #[trigger] seen(keys@, i as int, d) && pend.contains_key(d) ==> exists|j: int| 0 <= j < out@.len() && out@[j].0 == d,
                forall|a: int, b: int| 0 <= a < b < out@.len() ==> out@[a].0 != out@[b].0,
                sorted_by_start(out@),
            decreases keys@.len() - i,
        {
            let d = keys[i];
            proof {
                assert(keys@.to_set().contains(d));
                assert(!seen(keys@, i as int, d)) by {
                    if seen(keys@, i as int, d) {
                        let j = choose|j: int| 0 <= j < i && keys@[j] == d;
                        assert(keys@[j] == keys@[i as int]);
                    }
                }
                assert forall|e: u16| #[trigger] seen(keys@, i + 1, e) <==> (seen(keys@, i as int, e) || e == d) by {
                    if e == d {
                        assert(keys@[i as int] == e);
                    }
                    if seen(keys@, i + 1, e) && e != d {
                        let j = choose|j: int| 0 <= j < i + 1 && keys@[j] == e;
                        assert(j < i);
                    }
                }
            }
            let ghost out0 = out@;
            let ghost q0 = self.queued_tags@;
            match self.queued_tags.get(&d) {
                Some(b) => {
                    let mut bucket = *b;
                    let taken = if adds { bucket.unqueue_add() } else { bucket.unqueue_remove() };
                    match taken {
                        Some(t) => {
                            insert_sorted(&mut out, (d, t));
                            if bucket == QueuedTagList::Empty {
                                self.queued_tags.remove(&d);
                            } else {
                                self.queued_tags.insert(d, bucket);
                            }
                            proof {
                                let p = choose|p: int| 0 <= p <= out0.len() && out@ == out0.insert(p, (d, t));
                                assert forall|j: int| 0 <= j < out@.len() implies seen(keys@, i + 1, #[trigger] out@[j].0) && pend.contains_key(out@[j].0) && pend[out@[j].0] == out@[j].1 by {
                                    if j < p {
                                        assert(out@[j] == out0[j]);
                                    } else if j > p {
                                        assert(out@[j] == out0[j - 1]);
                                    }
                                }
                                assert forall|e: u16| #[trigger] seen(keys@, i + 1, e) && pend.contains_key(e) implies exists|j: int| 0 <= j < out@.len() && out@[j].0 == e by {
                                    if e == d {
                                        assert(out@[p].0 == e);
                                    } else {
                                        let j = choose|j: int| 0 <= j < out0.len() && out0[j].0 == e;
                                        if j < p {
                                            assert(out@[j] == out0[j]);
                                        } else {
                                            assert(out@[j + 1] == out0[j]);
                                        }
                                    }
                                }
                                assert forall|a: int, c: int| 0 <= a < c < out@.len() implies out@[a].0 != out@[c].0 by {
                                    if a != p && c != p {
                                        let oa = if a < p { a } else { a - 1 };
                                        let oc = if c < p { c } else { c - 1 };
                                        assert(out@[a] == out0[oa] && out@[c] == out0[oc]);
                                    } else if a == p {
                                        let oc = c - 1;
                                        assert(out@[c] == out0[oc]);
                                        assert(seen(keys@, i as int, out0[oc].0));
                                    } else {
                                        assert(out@[a] == out0[a]);
                                        assert(seen(keys@, i as int, out0[a].0));
                                    }
                                }
                            }
                        },
                        None => {
                            proof {
                                assert(without_pending(q0[d], adds) == q0[d]);
                            }
                        },
                    }
                },
                None => {},
            }
            i += 1;
        }
        proof {
            let n = keys@.len() as int;
            assert forall|d: u16| #[trigger] seen(keys@, n, d) <==> m0.contains_key(d) by {
                if m0.contains_key(d) {
                    assert(keys@.to_set().contains(d));
                    assert(keys@.contains(d));
                    let j = choose|j: int| 0 <= j < keys@.len() && keys@[j] == d;
                    assert(seen(keys@, n, d));
                }
                if seen(keys@, n, d) {
                    let j = choose|j: int| 0 <= j < n && keys@[j] == d;
                    assert(keys@.contains(keys@[j]));
                    assert(keys@.to_set().contains(d));
                }
            }
            assert forall|d: u16| self.queued_tags@.contains_key(d) <==> target.contains_key(d) by {
                if seen(keys@, n, d) {
                } else {
                    assert(!m0.contains_key(d));
                }
            }
            assert forall|d: u16| target.contains_key(d) implies self.queued_tags@[d] == target[d] by {
                assert(seen(keys@, n, d));
            }
            assert(self.queued_tags@ =~= target);
            assert forall|d: u16| #[trigger] pend.contains_key(d) implies exists|j: int| 0 <= j < out@.len() && out@[j].0 == d by {
                assert(seen(keys@, n, d));
            }
        }
        out
    }

    /// Takes the pending removes out of every depth's queue, in order of
    /// where their tags start.
    pub fn unqueue_removes(&mut self) -> (r: Vec<(u16, QueuedTag)>)
        ensures
            final(self).queued_tags@ == spec_after_unqueue(old(self).queued_tags@, false),
            lists_exactly(r@, pending_tags(old(self).queued_tags@, false)),
            *final(self) == (MovieClip { queued_tags: final(self).queued_tags, ..*old(self) }),
    {
        self.unqueue(false)
    }

    /// Takes the pending adds out of every depth's queue, in order of
    /// where their tags start.
    pub fn unqueue_adds(&mut self) -> (r: Vec<(u16, QueuedTag)>)
        ensures
            final(self).queued_tags@ == spec_after_unqueue(old(self).queued_tags@, true),
            lists_exactly(r@, pending_tags(old(self).queued_tags@, true)),
            *final(self) == (MovieClip { queued_tags: final(self).queued_tags, ..*old(self) }),
    {
        self.unqueue(true)
    }
}

/// What a timeline step leaves of a clip: the clip's properties, tag
/// stream, character id, frame count, labels and play state.
pub open spec fn keeps_identity(a: MovieClip, b: MovieClip) -> bool {
    &&& a.base == b.base
    &&& a.swf == b.swf
    &&& a.id == b.id
    &&& a.total_frames == b.total_frames
    &&& a.frame_labels == b.frame_labels
    &&& a.playing == b.playing
}

/// The two clips stand at the same frame and read position.
pub open spec fn same_position(a: MovieClip, b: MovieClip) -> bool {
    a.current_frame == b.current_frame && a.tag_stream_pos == b.tag_stream_pos
}

/// The version of a PlaceObject tag, by its code.
pub open spec fn place_version(code: u16) -> Option<u8> {
    if code == tags::TAG_PLACE_OBJECT {
        Some(1u8)
    } else if code == tags::TAG_PLACE_OBJECT_2 {
        Some(2u8)
    } else if code == tags::TAG_PLACE_OBJECT_3 {
        Some(3u8)
    } else if code == tags::TAG_PLACE_OBJECT_4 {
        Some(4u8)
    } else {
        None
    }
}

/// The version of a RemoveObject tag, by its code.
pub open spec fn remove_version(code: u16) -> Option<u8> {
    if code == tags::TAG_REMOVE_OBJECT {
        Some(1u8)
    } else if code == tags::TAG_REMOVE_OBJECT_2 {
        Some(2u8)
    } else {
        None
    }
}

/// Computes `place_version`.
fn place_version_of(code: u16) -> (r: Option<u8>)
    ensures
        r == place_version(code),
{
    if code == tags::TAG_PLACE_OBJECT {
        Some(1)
    } else if code == tags::TAG_PLACE_OBJECT_2 {
        Some(2)
    } else if code == tags::TAG_PLACE_OBJECT_3 {
        Some(3)
    } else if code == tags::TAG_PLACE_OBJECT_4 {
        Some(4)
    } else {
        None
    }
}

/// Computes `remove_version`.
fn remove_version_of(code: u16) -> (r: Option<u8>)
    ensures
        r == remove_version(code),
{
    if code == tags::TAG_REMOVE_OBJECT {
        Some(1)
    } else if code == tags::TAG_REMOVE_OBJECT_2 {
        Some(2)
    } else {
        None
    }
}

impl MovieClip {
    /// Clears the depth a RemoveObject tag names, when an object is there.
    fn remove_object(&mut self, body: &[u8], version: u8)
        ensures
            *final(self) == (MovieClip { container: final(self).container, ..*old(self) }),
            final(self).container@ == match tags::spec_remove_object_depth(body@, version) {
                Some(d) => if crate::container::spec_child_by_depth(old(self).container@, d) is Some {
                    crate::container::spec_remove_child(old(self).container@, d)
                } else {
                    old(self).container@
                },
                None => old(self).container@,
            },
    {
        match tags::read_remove_object(body, version) {
            Some(depth) => {
                if self.container.child_by_depth(depth).is_some() {
                    self.container.remove_child(depth);
                }
            },
            None => {},
        }
    }

    /// Defers a RemoveObject tag that starts at `tag_start` to the end of
    /// the frame.
    fn queue_remove_object(&mut self, body: &[u8], version: u8, tag_start: u64)
        ensures
            *final(self) == (MovieClip { queued_tags: final(self).queued_tags, ..*old(self) }),
            final(self).queued_tags@ == match tags::spec_remove_object_depth(body@, version) {
                Some(d) => old(self).queued_tags@.insert(d, spec_queue_remove(
                    spec_bucket(old(self).queued_tags@, d),
                    QueuedTag { tag_type: QueuedTagAction::Remove(version), tag_start },
                )),
                None => old(self).queued_tags@,
            },
    {
        match tags::read_remove_object(body, version) {
            Some(depth) => {
                let mut bucket = match self.queued_tags.get(&depth) {
                    Some(b) => *b,
                    None => QueuedTagList::Empty,
                };
                bucket.queue_remove(QueuedTag { tag_type: QueuedTagAction::Remove(version), tag_start });
                self.queued_tags.insert(depth, bucket);
            },
            None => {},
        }
    }

    /// Defers a PlaceObject tag that starts at `tag_start` to the end of
    /// the frame, queued at the depth the decoded tag names.  A tag the
    /// `swf` crate cannot decode is dropped.
    fn queue_place_object(&mut self, movie: &crate::tag_utils::SwfMovie, body: &[u8], version: u8, tag_start: u64)
        ensures
            *final(self) == (MovieClip { queued_tags: final(self).queued_tags, ..*old(self) }),
            match crate::place_object::spec_place_header(body@, movie.version, version) {
                Some((d, _)) => final(self).queued_tags@ == old(self).queued_tags@.insert(d, spec_queue_add(
                    spec_bucket(old(self).queued_tags@, d),
                    QueuedTag { tag_type: QueuedTagAction::Place(version), tag_start },
                )),
                None => final(self).queued_tags@ == old(self).queued_tags@,
            },
    {
        match crate::place_object::read_place_object(body, movie.version, version) {
            Some(p) => {
                let depth = p.depth;
                let mut bucket = match self.queued_tags.get(&depth) {
                    Some(b) => *b,
                    None => QueuedTagList::Empty,
                };
                bucket.queue_add(QueuedTag { tag_type: QueuedTagAction::Place(version), tag_start });
                self.queued_tags.insert(depth, bucket);
                assert(self.queued_tags@ == old(self).queued_tags@.insert(depth, spec_queue_add(
                    spec_bucket(old(self).queued_tags@, depth),
                    QueuedTag { tag_type: QueuedTagAction::Place(version), tag_start },
                )));
            },
            None => {},
        }
    }
}

/// A PlaceObject tag met while jumping to a frame, with the changes of the
/// later tags at its depth merged in: the frame it takes effect on, the
/// record, the order in which it was met, where its tag starts, and the
/// tag's version.
pub struct GotoPlaceObject {
    pub frame: u16,
    pub place_object: PlaceObjectRecord,
    pub index: usize,
    pub tag_start: u64,
    pub version: u8,
}

/// The record a rewinding jump starts from: a Place tag met while rewinding
/// gets every property it leaves out set to its default, so that the
/// object starts over as the tag placed it.
pub open spec fn rewind_filled(p: PlaceObjectRecord, r: PlaceObjectRecord) -> bool {
    &&& r.version == p.version
    &&& r.action == p.action
    &&& r.depth == p.depth
    &&& r.name == p.name
    &&& r.clip_depth == p.clip_depth
    &&& r.is_visible == p.is_visible
    &&& r.matrix == (if p.matrix is None { Some(crate::tags::Matrix::spec_identity()) } else { p.matrix })
    &&& r.color_transform == (if p.color_transform is None { Some(crate::tags::ColorTransform::spec_identity()) } else { p.color_transform })
    &&& r.ratio == (if p.ratio is None { Some(0u16) } else { p.ratio })
    &&& r.blend_mode == (if p.blend_mode is None { Some(crate::tags::SwfBlendMode::Normal) } else { p.blend_mode })
    &&& r.is_bitmap_cached == (if p.is_bitmap_cached is None { Some(false) } else { p.is_bitmap_cached })
    &&& r.background_color == (if p.background_color is None { Some(crate::tags::Color { r: 0, g: 0, b: 0, a: 0 }) } else { p.background_color })
    &&& (if p.filters is None { r.filters matches Some(f) && f@.len() == 0 } else { r.filters == p.filters })
}

/// The value of a property after a later tag is merged in: the later
/// tag's value where it has one.
pub open spec fn merged<T>(cur: Option<T>, next: Option<T>) -> Option<T> {
    if next is Some { next } else { cur }
}

/// `c` is the command made for the record `p` of a PlaceObject tag met on
/// `frame`: when rewinding, a Place record is completed with default
/// properties (`rewind_filled`); otherwise the record is kept as it is.
pub open spec fn new_command(c: GotoPlaceObject, p: PlaceObjectRecord, frame: u16, rewind: bool, index: usize, tag_start: u64, version: u8) -> bool {
    &&& c.frame == frame
    &&& c.index == index
    &&& c.tag_start == tag_start
    &&& c.version == version
    &&& if rewind && p.action is Place { rewind_filled(p, c.place_object) } else { c.place_object == p }
}

/// The command `c` with the later command `n` at its depth merged in: a
/// Modify keeps the action and frame, any other action replaces them;
/// every property `n` sets replaces the one of `c`.
pub open spec fn spec_merge(c: GotoPlaceObject, n: GotoPlaceObject) -> GotoPlaceObject {
    let cp = c.place_object;
    let np = n.place_object;
    let modify = np.action == crate::tags::PlaceObjectAction::Modify;
    GotoPlaceObject {
        frame: if modify { c.frame } else { n.frame },
        place_object: PlaceObjectRecord {
            action: if modify { cp.action } else { np.action },
            matrix: merged(cp.matrix, np.matrix),
            color_transform: merged(cp.color_transform, np.color_transform),
            ratio: merged(cp.ratio, np.ratio),
            blend_mode: merged(cp.blend_mode, np.blend_mode),
            is_bitmap_cached: merged(cp.is_bitmap_cached, np.is_bitmap_cached),
            is_visible: merged(cp.is_visible, np.is_visible),
            background_color: merged(cp.background_color, np.background_color),
            filters: merged(cp.filters, np.filters),
            ..cp
        },
        ..c
    }
}

impl GotoPlaceObject {
    /// A command for a PlaceObject tag met on `frame`; when rewinding, a
    /// Place tag is completed with default properties.
    pub fn new(frame: u16, place_object: PlaceObjectRecord, is_rewind: bool, index: usize, tag_start: u64, version: u8) -> (r: GotoPlaceObject)
        ensures
            new_command(r, place_object, frame, is_rewind, index, tag_start, version),
    {
        let mut place_object = place_object;
        if is_rewind {
            if let crate::tags::PlaceObjectAction::Place(_) = place_object.action {
                if place_object.matrix.is_none() {
                    place_object.matrix = Some(crate::tags::Matrix::identity());
                }
                if place_object.color_transform.is_none() {
                    place_object.color_transform = Some(crate::tags::ColorTransform::identity());
                }
                if place_object.ratio.is_none() {
                    place_object.ratio = Some(0);
                }
                if place_object.blend_mode.is_none() {
                    place_object.blend_mode = Some(crate::tags::SwfBlendMode::Normal);
                }
                if place_object.is_bitmap_cached.is_none() {
                    place_object.is_bitmap_cached = Some(false);
                }
                if place_object.background_color.is_none() {
                    place_object.background_color = Some(crate::tags::Color { r: 0, g: 0, b: 0, a: 0 });
                }
                if place_object.filters.is_none() {
                    place_object.filters = Some(Vec::new());
                }
            }
        }
        GotoPlaceObject { frame, place_object, index, tag_start, version }
    }

    /// The depth the command acts on.
    pub fn depth(&self) -> (r: u16)
        ensures
            r == self.place_object.depth,
    {
        self.place_object.depth
    }

    /// Merges a later tag at the same depth into this command: a Modify
    /// keeps the action, any other action replaces it (and the frame it
    /// takes effect on); every property the later tag sets is moved over.
    pub fn merge(&mut self, next: &mut GotoPlaceObject)
        ensures
            *final(self) == spec_merge(*old(self), *old(next)),
            *final(next) == (GotoPlaceObject {
                place_object: PlaceObjectRecord {
                    matrix: None,
                    color_transform: None,
                    ratio: None,
                    blend_mode: None,
                    is_bitmap_cached: None,
                    is_visible: None,
                    background_color: None,
                    filters: None,
                    ..old(next).place_object
                },
                ..*old(next)
            }),
    {
        match next.place_object.action {
            crate::tags::PlaceObjectAction::Modify => {},
            new_action => {
                self.place_object.action = new_action;
                self.frame = next.frame;
            },
        }
        if next.place_object.matrix.is_some() {
            self.place_object.matrix = next.place_object.matrix.take();
        }
        if next.place_object.color_transform.is_some() {
            self.place_object.color_transform = next.place_object.color_transform.take();
        }
        if next.place_object.ratio.is_some() {
            self.place_object.ratio = next.place_object.ratio.take();
        }
        if next.place_object.blend_mode.is_some() {
            self.place_object.blend_mode = next.place_object.blend_mode.take();
        }
        if next.place_object.is_bitmap_cached.is_some() {
            self.place_object.is_bitmap_cached = next.place_object.is_bitmap_cached.take();
        }
        if next.place_object.is_visible.is_some() {
            self.place_object.is_visible = next.place_object.is_visible.take();
        }
        if next.place_object.background_color.is_some() {
            self.place_object.background_color = next.place_object.background_color.take();
        }
        if next.place_object.filters.is_some() {
            self.place_object.filters = next.place_object.filters.take();
        }
    }
}

/// The commands are in the order their tags were met (by strictly
/// increasing `index`, each below `bound`), at most one per depth.
pub open spec fn goto_ordered(s: Seq<GotoPlaceObject>, bound: int) -> bool {
    &&& forall|i: int, j: int| 0 <= i < j < s.len() ==> s[i].index < s[j].index
    &&& forall|i: int| 0 <= i < s.len() ==> s[i].index < bound
    &&& forall|i: int, j: int| 0 <= i < j < s.len() ==> s[i].place_object.depth != s[j].place_object.depth
}

/// Finds the command at `depth`.
fn goto_position(s: &Vec<GotoPlaceObject>, depth: u16) -> (r: Option<usize>)
    ensures
        match r {
            Some(i) => i < s@.len() && s@[i as int].place_object.depth == depth
                && forall|j: int| 0 <= j < i ==> s@[j].place_object.depth != depth,
            None => forall|j: int| 0 <= j < s@.len() ==> s@[j].place_object.depth != depth,
        },
{
    let mut i: usize = 0;
    while i < s.len()
        invariant
            i <= s@.len(),
            forall|j: int| 0 <= j < i ==> s@[j].place_object.depth != depth,
        decreases s@.len() - i,
    {
        if s[i].place_object.depth == depth {
            return Some(i);
        }
        i += 1;
    }
    None
}

/// What a RemoveObject tag met while jumping does to the display list
/// (`v0` to `v1`) and the commands (`c0` to `c1`): the command at its depth
/// is dropped; going forward, the object at that depth leaves at once.
pub open spec fn goto_remove_done(
    v0: crate::container::ContainerView,
    c0: Seq<GotoPlaceObject>,
    v1: crate::container::ContainerView,
    c1: Seq<GotoPlaceObject>,
    body: Seq<u8>,
    version: u8,
    rewind: bool,
) -> bool {
    match tags::spec_remove_object_depth(body, version) {
        None => v1 == v0 && c1 == c0,
        Some(d) => {
            &&& (forall|j: int| 0 <= j < c0.len() ==> c0[j].place_object.depth != d)
                ==> c1 == c0
            &&& forall|i: int| 0 <= i < c0.len() && c0[i].place_object.depth == d
                && (forall|j: int| 0 <= j < i ==> c0[j].place_object.depth != d)
                ==> c1 == c0.remove(i)
            &&& v1 == match crate::container::spec_child_by_depth(v0, d) {
                Some(o) => if rewind {
                    v0
                } else {
                    crate::container::spec_remove_child(v0, base_of(o).depth)
                },
                None => v0,
            }
        },
    }
}

/// What a PlaceObject tag (layout `version`) met while jumping at frame
/// `cf` does to the commands (`c0` to `c1`): a tag the `swf` crate cannot
/// decode changes nothing; otherwise the tag's record makes a command
/// (`new_command`), which is appended when no command is at its depth, or
/// merged into the command already there (`spec_merge`).
pub open spec fn goto_place_done(c0: Seq<GotoPlaceObject>, c1: Seq<GotoPlaceObject>, body: Seq<u8>, mv: u8, version: u8, cf: u16,
    index: usize, tag_start: u64, rewind: bool) -> bool
{
    let o = c0;
    let f = c1;
    match crate::place_object::spec_place_header(body, mv, version) {
        None => f == o,
        Some((d, a)) => exists|p: PlaceObjectRecord, n: GotoPlaceObject|
            #![trigger crate::place_object::record_read(body, mv, version, p), new_command(n, p, cf, rewind, index, tag_start, version)]
            crate::place_object::record_read(body, mv, version, p)
            && new_command(n, p, cf, rewind, index, tag_start, version)
            && if forall|j: int| 0 <= j < o.len() ==> o[j].place_object.depth != d {
                f == o.push(n)
            } else {
                exists|i: int| #![trigger o[i]]
                    0 <= i < o.len() && o[i].place_object.depth == d
                    && f == o.update(i, spec_merge(o[i], n))
            },
    }
}

/// What a jump's scan has gathered so far: the display list, the
/// commands, and how many PlaceObject tags it met.
pub type GotoScan = (crate::container::ContainerView, Seq<GotoPlaceObject>, int);

/// One tag met by a jump's scan at frame `cf`: a PlaceObject tag is
/// counted and recorded as a command, a RemoveObject tag acts as
/// `goto_remove_done` says, any other tag does nothing.
pub open spec fn goto_tag_done(s0: GotoScan, s1: GotoScan, code: u16, body: Seq<u8>, body_start: int, cf: u16, mv: u8, rewind: bool) -> bool {
    match place_version(code) {
        Some(v) => s1.0 == s0.0 && s1.2 == s0.2 + 1
            && goto_place_done(s0.1, s1.1, body, mv, v, cf, (s0.2 + 1) as usize, body_start as u64, rewind),
        None => match remove_version(code) {
            Some(v) => s1.2 == s0.2 && goto_remove_done(s0.0, s0.1, s1.0, s1.1, body, v, rewind),
            None => s1 == s0,
        },
    }
}

/// The tags of one frame from `pos` on, up to its ShowFrame tag (or where
/// the stream stops), met by a jump's scan at frame `cf`.
pub open spec fn goto_tags_done(s0: GotoScan, s1: GotoScan, data: Seq<u8>, pos: int, cf: u16, mv: u8, rewind: bool) -> bool
    decreases data.len() - pos,
{
    if pos < 0 || pos > data.len() {
        s1 == s0
    } else {
        match spec_next_tag(data, pos) {
            TagStep::Tag { code, body_start, body_len } => {
                if body_start <= pos || body_start + body_len > data.len() || code == tags::TAG_SHOW_FRAME {
                    s1 == s0
                } else {
                    let next = (body_start + body_len) as int;
                    exists|m: GotoScan|
                        #[trigger] goto_tag_done(s0, m, code, data.subrange(body_start as int, next), body_start as int, cf, mv, rewind)
                        && goto_tags_done(m, s1, data, next, cf, mv, rewind)
                }
            },
            _ => s1 == s0,
        }
    }
}

/// A jump's scan from `pos`, at frame `cur`, towards frame `target`: one
/// frame at a time, as `spec_goto_scan` moves.
pub open spec fn goto_frames_done(s0: GotoScan, s1: GotoScan, data: Seq<u8>, pos: int, cur: int, target: int, mv: u8, rewind: bool) -> bool
    decreases target - cur,
{
    if cur < target && pos < data.len() {
        exists|m: GotoScan|
            #[trigger] goto_tags_done(s0, m, data, pos, (cur + 1) as u16, mv, rewind)
            && goto_frames_done(m, s1, data, spec_frame_end(data, pos), cur + 1, target, mv, rewind)
    } else {
        s1 == s0
    }
}

/// The part of a clip and its library that a jump changes after its
/// scan: the display list, the deferred tags, and the library.
pub type GotoDisplay = (crate::container::ContainerView, Map<u16, QueuedTagList>, MovieLibrary);

/// What running a command recorded while jumping does (`run_goto_command`):
/// in an ActionScript 3 movie, a jump the timeline made by itself defers
/// the placing of an object that is not there; otherwise an object at the
/// depth takes the properties (and, for Replace, the character), and a
/// missing one is placed anew.
pub open spec fn goto_command_done(d0: GotoDisplay, d1: GotoDisplay, cmd: GotoPlaceObject, implicit: bool, rewind: bool, mv: u8, as3: bool, budget: u32) -> bool {
    let d = cmd.place_object.depth;
    let v = d0.0;
    let f = d1.0;
    let lib = d0.2;
    if as3 && implicit && crate::container::spec_child_by_depth(v, d) is None {
        &&& f == v
        &&& d1.1 == d0.1.insert(d, spec_queue_add(
            spec_bucket(d0.1, d),
            QueuedTag { tag_type: QueuedTagAction::Place(cmd.version), tag_start: cmd.tag_start },
        ))
        &&& d1.2 == d0.2
    } else {
        &&& d1.1 == d0.1
        &&& match crate::container::spec_child_by_depth(v, d) {
            Some(o) => if rewind || cmd.place_object.action == crate::tags::PlaceObjectAction::Modify {
                &&& d1.2 == d0.2
                &&& exists|o2: DisplayObject| #[trigger] tag_applied(o, cmd.place_object, mv, o2)
                    && f == changed_at_depth(v, d, o2)
            } else {
                match cmd.place_object.action {
                    crate::tags::PlaceObjectAction::Replace(id) => {
                        &&& d1.2 == d0.2
                        &&& exists|o2: DisplayObject| #[trigger] tag_applied(spec_replaced(o, id, lib), cmd.place_object, mv, o2)
                            && f == changed_at_depth(v, d, with_place_frame(o2, cmd.frame))
                    },
                    crate::tags::PlaceObjectAction::Place(id) => placed_new_child(v, f, lib, id, d, cmd.frame, budget)
                        && keeps_characters(d1.2, d0.2),
                    _ => f == v && d1.2 == d0.2,
                }
            },
            None => match cmd.place_object.action {
                crate::tags::PlaceObjectAction::Replace(id) => placed_new_child(v, f, lib, id, d, cmd.frame, budget)
                    && keeps_characters(d1.2, d0.2),
                crate::tags::PlaceObjectAction::Place(id) => placed_new_child(v, f, lib, id, d, cmd.frame, budget)
                    && keeps_characters(d1.2, d0.2),
                _ => f == v && d1.2 == d0.2,
            },
        }
    }
}

/// One command of a jump's list in one of its two passes: the pass
/// `before` runs the commands for frames before the target, the other pass
/// the rest.
pub open spec fn goto_command_step(d0: GotoDisplay, d1: GotoDisplay, cmd: GotoPlaceObject, frame: u16, before: bool, implicit: bool, rewind: bool, mv: u8, as3: bool, budget: u32) -> bool {
    if (cmd.frame < frame) == before {
        goto_command_done(d0, d1, cmd, implicit, rewind, mv, as3, budget)
    } else {
        d1 == d0
    }
}

/// One pass over a jump's commands, in their order.
pub open spec fn goto_commands_run(d0: GotoDisplay, d1: GotoDisplay, cmds: Seq<GotoPlaceObject>, frame: u16, before: bool, implicit: bool, rewind: bool, mv: u8, as3: bool, budget: u32) -> bool
    decreases cmds.len(),
{
    if cmds.len() == 0 {
        d1 == d0
    } else {
        exists|m: GotoDisplay|
            goto_commands_run(d0, m, cmds.drop_last(), frame, before, implicit, rewind, mv, as3, budget)
            && #[trigger] goto_command_step(m, d1, cmds.last(), frame, before, implicit, rewind, mv, as3, budget)
    }
}

/// The display list after a RemoveObject tag runs: the object at the depth
/// it names leaves, when there is one.
pub open spec fn spec_remove_effect(v: crate::container::ContainerView, body: Seq<u8>, version: u8) -> crate::container::ContainerView {
    match tags::spec_remove_object_depth(body, version) {
        Some(d) => if crate::container::spec_child_by_depth(v, d) is Some {
            crate::container::spec_remove_child(v, d)
        } else {
            v
        },
        None => v,
    }
}

/// The display list after the deferred removes of `list` run, in order,
/// each read from where its tag starts in the stream `data`.
pub open spec fn spec_removes_run(v: crate::container::ContainerView, list: Seq<(u16, QueuedTag)>, data: Seq<u8>) -> crate::container::ContainerView
    decreases list.len(),
{
    if list.len() == 0 {
        v
    } else {
        let w = spec_removes_run(v, list.drop_last(), data);
        let e = list.last().1;
        match e.tag_type {
            QueuedTagAction::Remove(ver) => if e.tag_start <= data.len() {
                spec_remove_effect(w, data.subrange(e.tag_start as int, data.len() as int), ver)
            } else {
                w
            },
            QueuedTagAction::Place(_) => w,
        }
    }
}

/// The pending removes of the queues `q` taken out and run on `v`, in
/// order of where their tags start.
pub open spec fn deferred_removes_run(v: crate::container::ContainerView, q: Map<u16, QueuedTagList>, after: crate::container::ContainerView, data: Seq<u8>) -> bool {
    exists|list: Seq<(u16, QueuedTag)>|
        #[trigger] lists_exactly(list, pending_tags(q, false)) && after == spec_removes_run(v, list, data)
}

/// A clip and its library while a frame runs.
pub type FrameState = (MovieClip, MovieLibrary);

/// One tag of a frame run with its display actions on, in a movie of SWF
/// version `mv`: a PlaceObject tag is deferred (ActionScript 3) or runs as
/// `place_tag_done` says; a RemoveObject tag is deferred or clears its
/// depth; any other tag does nothing.
pub open spec fn frame_tag_done(s0: FrameState, s1: FrameState, code: u16, body: Seq<u8>, body_start: int, mv: u8, as3: bool, budget: u32) -> bool {
    let c0 = s0.0;
    let c1 = s1.0;
    match place_version(code) {
        Some(v) => if as3 {
            &&& s1.1 == s0.1
            &&& c1 == (MovieClip { queued_tags: c1.queued_tags, ..c0 })
            &&& match crate::place_object::spec_place_header(body, mv, v) {
                Some((d, _)) => c1.queued_tags@ == c0.queued_tags@.insert(d, spec_queue_add(
                    spec_bucket(c0.queued_tags@, d),
                    QueuedTag { tag_type: QueuedTagAction::Place(v), tag_start: body_start as u64 },
                )),
                None => c1.queued_tags@ == c0.queued_tags@,
            }
        } else {
            place_tag_done(c0, c1, s0.1, s1.1, body, v, mv, budget)
        },
        None => match remove_version(code) {
            Some(v) => if as3 {
                &&& s1.1 == s0.1
                &&& c1 == (MovieClip { queued_tags: c1.queued_tags, ..c0 })
                &&& c1.queued_tags@ == match tags::spec_remove_object_depth(body, v) {
                    Some(d) => c0.queued_tags@.insert(d, spec_queue_remove(
                        spec_bucket(c0.queued_tags@, d),
                        QueuedTag { tag_type: QueuedTagAction::Remove(v), tag_start: body_start as u64 },
                    )),
                    None => c0.queued_tags@,
                }
            } else {
                &&& s1.1 == s0.1
                &&& c1 == (MovieClip { container: c1.container, ..c0 })
                &&& c1.container@ == spec_remove_effect(c0.container@, body, v)
            },
            None => s1 == s0,
        },
    }
}

/// The tags of a frame from `pos` on, up to its ShowFrame tag (or where
/// the stream stops), run with their display actions on.
pub open spec fn frame_tags_done(s0: FrameState, s1: FrameState, data: Seq<u8>, pos: int, mv: u8, as3: bool, budget: u32) -> bool
    decreases data.len() - pos,
{
    if pos < 0 || pos > data.len() {
        s1 == s0
    } else {
        match spec_next_tag(data, pos) {
            TagStep::Tag { code, body_start, body_len } => {
                if body_start <= pos || body_start + body_len > data.len() || code == tags::TAG_SHOW_FRAME {
                    s1 == s0
                } else {
                    let next = (body_start + body_len) as int;
                    exists|m: FrameState|
                        #[trigger] frame_tag_done(s0, m, code, data.subrange(body_start as int, next), body_start as int, mv, as3, budget)
                        && frame_tags_done(m, s1, data, next, mv, as3, budget)
                }
            },
            _ => s1 == s0,
        }
    }
}

/// What a frame's tags do with display actions on (the clip `c0` and
/// library `l0` giving `c1` and `l1`): the tags run from where the clip
/// stands in its stream, then the pending removes are taken out of the
/// queues and run.
pub open spec fn frame_tags_run(c0: MovieClip, l0: MovieLibrary, c1: MovieClip, l1: MovieLibrary, data: Seq<u8>, mv: u8, as3: bool, budget: u32) -> bool {
    exists|mid: FrameState|
        #[trigger] frame_tags_done((c0, l0), mid, data, spec_resume_pos(c0.tag_stream_pos, data.len()), mv, as3, budget)
        && l1 == mid.1
        && c1.queued_tags@ == spec_after_unqueue(mid.0.queued_tags@, false)
        && deferred_removes_run(mid.0.container@, mid.0.queued_tags@, c1.container@, data)
}

/// What running the children's frames leaves of a clip: its own
/// timeline, queues and display list (the same objects at the same
/// depths, drawn in the same order) stay; only the children themselves
/// change.
pub open spec fn children_ran(before: MovieClip, after: MovieClip) -> bool {
    &&& keeps_identity(after, before)
    &&& same_position(after, before)
    &&& after.queued_tags == before.queued_tags
    &&& after.container@.render == before.container@.render
    &&& after.container@.depths == before.container@.depths
    &&& after.container@.objects.dom() == before.container@.objects.dom()
}

/// A playing clip's own frame in an ActionScript 3 movie (from `c0` and
/// `l0` to `c1` and `l1`): at the end of a timeline of several frames a
/// jump to the first frame, otherwise the next frame's tags.
pub open spec fn own_frame_run(c0: MovieClip, l0: MovieLibrary, c1: MovieClip, l1: MovieLibrary, data: Seq<u8>, mv: u8, budget: u32) -> bool {
    if c0.current_frame >= c0.total_frames && c0.total_frames > 1 {
        goto_done(c0, c1, l0, l1, data, 1, true, mv, true, budget)
    } else {
        frame_tags_run(c0, l0, c1, l1, data, mv, true, budget)
    }
}

/// An ActionScript 3 frame of a clip (from `c0` and `l0` to `c3` and
/// `l3`), shown by the clip after its children ran (`c1`, `l1`) and after
/// its own frame ran (`c2`, `l2`): the children run first; a playing clip
/// then runs its own frame; last the pending adds run.
pub open spec fn as3_frame_by(c0: MovieClip, l0: MovieLibrary, c3: MovieClip, l3: MovieLibrary, data: Seq<u8>, mv: u8, budget: u32,
    c1: MovieClip, l1: MovieLibrary, c2: MovieClip, l2: MovieLibrary) -> bool {
    &&& children_ran(c0, c1)
    &&& keeps_characters(l1, l0)
    &&& if c0.playing { own_frame_run(c1, l1, c2, l2, data, mv, budget) } else { c2 == c1 && l2 == l1 }
    &&& deferred_adds_run(c2, l2, c3, l3, data, mv, budget)
}

/// An ActionScript 3 frame of a clip, as `as3_frame_by` shows it.
pub open spec fn as3_frame_done(c0: MovieClip, l0: MovieLibrary, c3: MovieClip, l3: MovieLibrary, data: Seq<u8>, mv: u8, budget: u32) -> bool {
    exists|c1: MovieClip, l1: MovieLibrary, c2: MovieClip, l2: MovieLibrary|
        #[trigger] as3_frame_by(c0, l0, c3, l3, data, mv, budget, c1, l1, c2, l2)
}

/// What `goto_frame` does to the display list (the clip `before` and
/// library `lb` giving `after` and `la`): a jump to another frame than the
/// current one acts as `goto_done` says (counted from 1, 0 counting as 1);
/// staying leaves the library as it is.
pub open spec fn goto_frame_display(before: MovieClip, after: MovieClip, lb: MovieLibrary, la: MovieLibrary, data: Seq<u8>, frame: u16, mv: u8, as3: bool) -> bool {
    let target: u16 = if frame > 1 { frame } else { 1 };
    if target != before.current_frame {
        goto_done(MovieClip { playing: after.playing, ..before }, after, lb, la, data, target, false, mv, as3,
            crate::movie_clip::MAX_NESTING_DEPTH)
    } else {
        la == lb
    }
}

/// What `enter_frame` does to a clip (`c0` and library `l0` giving `c1`
/// and `l1`): its timeline moves as `frame_ran` says; in an ActionScript 3
/// movie the frame runs as `as3_frame_done` says, otherwise only the
/// children change.
pub open spec fn frame_entered(c0: MovieClip, l0: MovieLibrary, c1: MovieClip, l1: MovieLibrary, data: Seq<u8>, mv: u8, as3: bool) -> bool {
    &&& frame_ran(c0, c1, data, as3)
    &&& keeps_characters(l1, l0)
    &&& if as3 {
        as3_frame_done(c0, l0, c1, l1, data, mv, crate::movie_clip::MAX_NESTING_DEPTH)
    } else {
        children_ran(c0, c1)
    }
}

/// The display list after a jump's scan, going back: the children placed
/// after the target leave.
pub open spec fn goto_rewound(v: crate::container::ContainerView, frame: u16, rewind: bool) -> crate::container::ContainerView {
    if rewind { spec_remove_children(v, spec_late_depths(v.render, v.objects, frame)) } else { v }
}

/// What a jump to `frame` does to a clip `c0` and library `l0` (giving
/// `c1` and `l1`) over the tag stream `data`.  A jump back starts over
/// from the first frame.  The scan reads the frames up to the target
/// (`goto_frames_done`), collecting commands and, going forward, removing
/// objects at once.  Going back, the children placed after the target
/// leave.  Then the commands for frames before the target run; when the
/// scan reached the target, its deferred removes run; then the commands
/// for the target frame run.
pub open spec fn goto_done(c0: MovieClip, c1: MovieClip, l0: MovieLibrary, l1: MovieLibrary, data: Seq<u8>, frame: u16, implicit: bool, mv: u8, as3: bool, budget: u32) -> bool {
    exists|sc: GotoScan, da: GotoDisplay, db: GotoDisplay|
        #[trigger] goto_done_by(c0, c1, l0, l1, data, frame, implicit, mv, as3, budget, sc, da, db)
}

/// `goto_done` shown by the scan `sc` and the display states `da` (after
/// the commands for frames before the target) and `db` (before the
/// commands for the target frame).
pub open spec fn goto_done_by(c0: MovieClip, c1: MovieClip, l0: MovieLibrary, l1: MovieLibrary, data: Seq<u8>, frame: u16,
    implicit: bool, mv: u8, as3: bool, budget: u32, sc: GotoScan, da: GotoDisplay, db: GotoDisplay) -> bool {
    let rewind = frame <= c0.current_frame;
    let cur0: int = if rewind { 0 } else { c0.current_frame as int };
    let tsp0: u64 = if rewind { 0 } else { c0.tag_stream_pos };
    let pos0 = spec_resume_pos(tsp0, data.len());
    let clamped: u16 = if frame < c0.total_frames { frame } else { c0.total_frames };
    let hit = spec_goto_scan(data, pos0, cur0, clamped as int, pos0).0 == frame;
    &&& goto_frames_done((c0.container@, Seq::empty(), 0), sc, data, pos0, cur0, clamped as int, mv, rewind)
    &&& goto_commands_run((goto_rewound(sc.0, frame, rewind), c0.queued_tags@, l0),
        da, sc.1, frame, true, implicit, rewind, mv, as3, budget)
    &&& if hit {
        &&& db.2 == da.2
        &&& db.1 == spec_after_unqueue(da.1, false)
        &&& deferred_removes_run(da.0, da.1, db.0, data)
    } else {
        db == da
    }
    &&& goto_commands_run(db, (c1.container@, c1.queued_tags@, l1), sc.1, frame, false, implicit, rewind, mv, as3, budget)
}

impl MovieClip {
    /// Records a PlaceObject tag met while jumping: merged into the command
    /// already at its depth, or added as a new one.  A tag the `swf` crate
    /// cannot decode is dropped.
    fn goto_place_object(
        &self,
        movie: &crate::tag_utils::SwfMovie,
        body: &[u8],
        version: u8,
        goto_commands: &mut Vec<GotoPlaceObject>,
        is_rewind: bool,
        index: usize,
        tag_start: u64,
    )
        requires
            goto_ordered(old(goto_commands)@, index as int),
        ensures
            goto_ordered(final(goto_commands)@, index + 1),
            goto_place_done(old(goto_commands)@, final(goto_commands)@, body@, movie.version, version, self.current_frame, index, tag_start, is_rewind),
    {
        let place_object = match crate::place_object::read_place_object(body, movie.version, version) {
            Some(p) => p,
            None => return,
        };
        let depth = place_object.depth;
        let ghost p = place_object;
        let mut goto_place = GotoPlaceObject::new(self.current_frame, place_object, is_rewind, index, tag_start, version);
        let ghost n = goto_place;
        let ghost o = goto_commands@;
        match goto_position(goto_commands, depth) {
            Some(i) => {
                let mut existing = goto_commands.remove(i);
                existing.merge(&mut goto_place);
                goto_commands.insert(i, existing);
                proof {
                    assert forall|j: int| 0 <= j < o.len() && j != i implies goto_commands@[j] == o[j] by {
                        if j < i {
                        } else {
                        }
                    }
                    assert(goto_commands@[i as int].index == o[i as int].index);
                    assert(goto_commands@ =~= o.update(i as int, spec_merge(o[i as int], n)));
                    assert(crate::place_object::record_read(body@, movie.version, version, p));
                    assert(new_command(n, p, self.current_frame, is_rewind, index, tag_start, version));
                }
            },
            None => {
                goto_commands.push(goto_place);
                proof {
                    assert(goto_commands@.subrange(0, o.len() as int) =~= o);
                    assert(goto_commands@ =~= o.push(n));
                    assert(crate::place_object::record_read(body@, movie.version, version, p));
                    assert(new_command(n, p, self.current_frame, is_rewind, index, tag_start, version));
                }
            },
        }
    }

    /// Handles a RemoveObject tag met while jumping: the command at its
    /// depth is dropped; going forward, the object at that depth leaves
    /// the display list at once.
    fn goto_remove_object(&mut self, body: &[u8], version: u8, goto_commands: &mut Vec<GotoPlaceObject>, is_rewind: bool)
        ensures
            *final(self) == (MovieClip { container: final(self).container, ..*old(self) }),
            forall|b: int| goto_ordered(old(goto_commands)@, b) ==> goto_ordered(final(goto_commands)@, b),
            goto_remove_done(old(self).container@, old(goto_commands)@, final(self).container@, final(goto_commands)@, body@, version, is_rewind),
    {
        let depth = match tags::read_remove_object(body, version) {
            Some(d) => d,
            None => return,
        };
        let ghost o = goto_commands@;
        match goto_position(goto_commands, depth) {
            Some(i) => {
                goto_commands.remove(i);
                proof {
                    assert forall|b: int| goto_ordered(o, b) implies goto_ordered(goto_commands@, b) by {
                        let f = goto_commands@;
                        assert forall|x: int, y: int| 0 <= x < y < f.len() implies f[x].index < f[y].index
                            && f[x].place_object.depth != f[y].place_object.depth by {
                            let ox = if x < i { x } else { x + 1 };
                            let oy = if y < i { y } else { y + 1 };
                            assert(f[x] == o[ox] && f[y] == o[oy]);
                        }
                        assert forall|x: int| 0 <= x < f.len() implies f[x].index < b by {
                            let ox = if x < i { x } else { x + 1 };
                            assert(f[x] == o[ox]);
                        }
                    }
                }
            },
            None => {},
        }
        if !is_rewind {
            let child_depth = match self.container.child_by_depth(depth) {
                Some(child) => Some(child.depth()),
                None => None,
            };
            match child_depth {
                Some(d) => self.container.remove_child(d),
                None => {},
            }
        }
    }
}

/// The frame's end lies between its start and the end of the stream.
pub proof fn lemma_frame_end_bounds(data: Seq<u8>, pos: int)
    requires
        0 <= pos <= data.len(),
        data.len() <= usize::MAX,
    ensures
        pos <= spec_frame_end(data, pos) <= data.len(),
    decreases data.len() - pos,
{
    match spec_next_tag(data, pos) {
        TagStep::Tag { code, body_start, body_len } => {
            if body_start > pos && body_start + body_len <= data.len() && code != tags::TAG_SHOW_FRAME {
                lemma_frame_end_bounds(data, body_start + body_len);
            }
        },
        _ => {},
    }
}

/// The frame counter and the start of the last frame read when a jump
/// scans forward from `pos`, at frame `cur`, towards frame `target`: one
/// frame at a time while frames are wanted and bytes are left.
pub open spec fn spec_goto_scan(data: Seq<u8>, pos: int, cur: int, target: int, fp: int) -> (int, int)
    decreases target - cur,
{
    if cur < target && pos < data.len() {
        spec_goto_scan(data, spec_frame_end(data, pos), cur + 1, target, pos)
    } else {
        (cur, fp)
    }
}

/// The scan ends between its start frame and its target (at its start
/// frame when that lies past the target), at a frame start inside the
/// stream.
pub proof fn lemma_goto_scan_bounds(data: Seq<u8>, pos: int, cur: int, target: int, fp: int)
    requires
        0 <= pos <= data.len(),
        0 <= fp <= data.len(),
        data.len() <= usize::MAX,
    ensures
        cur <= target ==> cur <= spec_goto_scan(data, pos, cur, target, fp).0 <= target,
        cur > target ==> spec_goto_scan(data, pos, cur, target, fp).0 == cur,
        0 <= spec_goto_scan(data, pos, cur, target, fp).1 <= data.len(),
    decreases target - cur,
{
    if cur < target && pos < data.len() {
        lemma_frame_end_bounds(data, pos);
        lemma_goto_scan_bounds(data, spec_frame_end(data, pos), cur + 1, target, pos);
    }
}

/// The frame counter and read position a jump to `frame` leaves: a jump
/// back (or to the current frame) starts over from the first frame; the
/// scan stops at the target, the last frame, or the end of the stream.
/// Reaching the target, the target frame is run once more from its start
/// (which counts it in ActionScript 3 movies only); otherwise the counter
/// stands at the clamped target and the read position where the jump
/// started.
pub open spec fn spec_goto_outcome(c: MovieClip, data: Seq<u8>, frame: u16, as3: bool) -> (u16, u64) {
    let rewind = frame <= c.current_frame;
    let cur0: u16 = if rewind { 0 } else { c.current_frame };
    let tsp0: u64 = if rewind { 0 } else { c.tag_stream_pos };
    let pos0 = spec_resume_pos(tsp0, data.len());
    let clamped: u16 = if frame < c.total_frames { frame } else { c.total_frames };
    let scan = spec_goto_scan(data, pos0, cur0 as int, clamped as int, pos0);
    if scan.0 == frame {
        ((if as3 { frame } else { (frame - 1) as u16 }), spec_frame_end(data, scan.1) as u64)
    } else {
        (clamped, tsp0)
    }
}

/// The frame counter and read position after a frame is run without a
/// jump: the frame's tags are read from the saved position; the counter
/// moves on only in ActionScript 3 movies, and only while frames are left.
pub open spec fn spec_advance_outcome(c: MovieClip, data: Seq<u8>, as3: bool) -> (u16, u64) {
    (
        if c.current_frame < c.total_frames && as3 { (c.current_frame + 1) as u16 } else { c.current_frame },
        spec_frame_end(data, spec_resume_pos(c.tag_stream_pos, data.len())) as u64,
    )
}

/// The frame counter and read position after `run_frame_internal`: at the
/// end of a timeline of several frames it jumps back to the first frame
/// (as the movie's script version says); otherwise it runs the next frame.
pub open spec fn spec_frame_step(c: MovieClip, data: Seq<u8>, as3: bool, movie_as3: bool) -> (u16, u64) {
    if c.current_frame >= c.total_frames && c.total_frames > 1 {
        spec_goto_outcome(c, data, 1, movie_as3)
    } else {
        spec_advance_outcome(c, data, as3)
    }
}

/// `after` is `before` after `goto_frame(frame, stop)` over the tag stream
/// `data`: stopped, or playing when it has several frames; at the target
/// frame (0 counts as 1) as a jump there leaves it, or where it was when
/// it already stood there.
pub open spec fn goto_frame_done(before: MovieClip, after: MovieClip, data: Seq<u8>, frame: u16, stop: bool, as3: bool) -> bool {
    let target: u16 = if frame > 1 { frame } else { 1 };
    &&& after.playing == (if stop { false } else if before.total_frames > 1 { true } else { before.playing })
    &&& keeps_identity(after, MovieClip { playing: after.playing, ..before })
    &&& if target == before.current_frame {
        after == (MovieClip { playing: after.playing, ..before })
    } else {
        (after.current_frame, after.tag_stream_pos) == spec_goto_outcome(before, data, target, as3)
    }
}

/// What running one frame does to a clip's timeline: in an ActionScript 3
/// movie a playing clip steps to its next frame; otherwise it stays where
/// it stands.  What it is otherwise stays the same.
pub open spec fn frame_ran(before: MovieClip, after: MovieClip, data: Seq<u8>, as3: bool) -> bool {
    &&& keeps_identity(after, before)
    &&& if as3 && before.playing {
        (after.current_frame, after.tag_stream_pos) == spec_frame_step(before, data, true, true)
    } else {
        same_position(after, before)
    }
}

/// The depths of the objects in drawing order `render` (looked up in
/// `objects`) that their tags placed after `frame`, in that order.
pub open spec fn spec_late_depths(render: Seq<u16>, objects: Map<u16, DisplayObject>, frame: u16) -> Seq<u16>
    decreases render.len(),
{
    if render.len() == 0 {
        Seq::empty()
    } else {
        let rest = spec_late_depths(render.drop_last(), objects, frame);
        let id = render.last();
        if objects.contains_key(id) && base_of(objects[id]).place_frame > frame {
            rest.push(base_of(objects[id]).depth)
        } else {
            rest
        }
    }
}

/// The display list after the children at `depths` leave, one after the
/// other.
pub open spec fn spec_remove_children(v: crate::container::ContainerView, depths: Seq<u16>) -> crate::container::ContainerView
    decreases depths.len(),
{
    if depths.len() == 0 {
        v
    } else {
        crate::container::spec_remove_child(spec_remove_children(v, depths.drop_last()), depths.last())
    }
}

/// What running a frame does to a clip, as far as it is known: its
/// timeline moves as `frame_ran` says; outside ActionScript 3 the clip's
/// deferred tags and its display list (the drawing order, the depths and
/// the ids of the stored objects) stay as they were.
pub open spec fn clip_frame_entered(before: MovieClip, after: MovieClip, data: Seq<u8>, as3: bool) -> bool {
    &&& frame_ran(before, after, data, as3)
    &&& !as3 ==> {
        &&& after.queued_tags == before.queued_tags
        &&& after.container@.render == before.container@.render
        &&& after.container@.depths == before.container@.depths
        &&& after.container@.objects.dom() == before.container@.objects.dom()
    }
}

/// What running the PlaceObject tag `body` (layout `version`) does to a
/// clip `c0` and the library `l0`, giving `c1` and `l1`, in a movie of SWF
/// version `mv` with `budget` nesting levels left: a tag the `swf` crate
/// cannot decode does nothing; Place puts a new child at the decoded depth
/// on the current frame; Replace and Modify change the object at that
/// depth (Replace also swaps its character and marks it placed now) with
/// a record of that depth and action; NoAction does nothing.
pub open spec fn place_tag_done(c0: MovieClip, c1: MovieClip, l0: MovieLibrary, l1: MovieLibrary, body: Seq<u8>, version: u8, mv: u8, budget: u32) -> bool {
    match crate::place_object::spec_place_header(body, mv, version) {
        None => c1 == c0 && l1 == l0,
        Some((d, a)) => {
            let v = c0.container@;
            let f = c1.container@;
            let lib = l0;
            let frame = c0.current_frame;
            &&& c1 == (MovieClip { container: c1.container, ..c0 })
            &&& match a {
                crate::tags::PlaceObjectAction::Place(id) => placed_new_child(v, f, lib, id, d, frame, budget),
                crate::tags::PlaceObjectAction::Replace(id) => {
                    &&& l1 == l0
                    &&& match crate::container::spec_child_by_depth(v, d) {
                        Some(o) => exists|p: PlaceObjectRecord, o2: DisplayObject|
                            #![trigger tag_applied(spec_replaced(o, id, lib), p, mv, o2)]
                            p.depth == d && p.action == a && p.version == version
                            && tag_applied(spec_replaced(o, id, lib), p, mv, o2)
                            && f == changed_at_depth(v, d, with_place_frame(o2, frame)),
                        None => f == v,
                    }
                },
                crate::tags::PlaceObjectAction::Modify => {
                    &&& l1 == l0
                    &&& match crate::container::spec_child_by_depth(v, d) {
                        Some(o) => exists|p: PlaceObjectRecord, o2: DisplayObject|
                            #![trigger tag_applied(o, p, mv, o2)]
                            p.depth == d && p.action == a && p.version == version
                            && tag_applied(o, p, mv, o2)
                            && f == changed_at_depth(v, d, o2),
                        None => f == v,
                    }
                },
                crate::tags::PlaceObjectAction::NoAction => f == v && l1 == l0,
            }
        },
    }
}

/// Running one deferred tag `e` of the tag stream `data`: a Place tag
/// runs as a PlaceObject tag read from where it starts (when that lies in
/// the stream); anything else does nothing.
pub open spec fn deferred_place_done(c0: MovieClip, c1: MovieClip, l0: MovieLibrary, l1: MovieLibrary, e: (u16, QueuedTag), data: Seq<u8>, mv: u8, budget: u32) -> bool {
    match e.1.tag_type {
        QueuedTagAction::Place(v) => if e.1.tag_start <= data.len() {
            place_tag_done(c0, c1, l0, l1, data.subrange(e.1.tag_start as int, data.len() as int), v, mv, budget)
        } else {
            c1 == c0 && l1 == l0
        },
        QueuedTagAction::Remove(_) => c1 == c0 && l1 == l0,
    }
}

/// Running the deferred tags `list` one after the other, in order.
pub open spec fn deferred_places_done(c0: MovieClip, c1: MovieClip, l0: MovieLibrary, l1: MovieLibrary, list: Seq<(u16, QueuedTag)>, data: Seq<u8>, mv: u8, budget: u32) -> bool
    decreases list.len(),
{
    if list.len() == 0 {
        c1 == c0 && l1 == l0
    } else {
        exists|cm: MovieClip, lm: MovieLibrary|
            deferred_places_done(c0, cm, l0, lm, list.drop_last(), data, mv, budget)
            && #[trigger] deferred_place_done(cm, c1, lm, l1, list.last(), data, mv, budget)
    }
}

/// The end of an ActionScript 3 frame of a clip: from `mid` (the clip
/// after its children and its own frame ran), the pending adds are taken
/// out of the queues and run, in order of where their tags start.
pub open spec fn deferred_adds_run(mid: MovieClip, lmid: MovieLibrary, after: MovieClip, lafter: MovieLibrary, data: Seq<u8>, mv: u8, budget: u32) -> bool {
    exists|list: Seq<(u16, QueuedTag)>|
        #[trigger] lists_exactly(list, pending_tags(mid.queued_tags@, true))
        && deferred_places_done(
            MovieClip { queued_tags: after.queued_tags, ..mid },
            after, lmid, lafter, list, data, mv, budget)
        && after.queued_tags@ == spec_after_unqueue(mid.queued_tags@, true)
}

impl DisplayObject {
    /// Runs a frame of the object with `budget` levels of nesting left: a
    /// clip steps its timeline; a graphic has none.
    fn enter_frame_nested(&mut self, movie: &SwfMovie, library: &mut MovieLibrary, budget: u32)
        ensures
            keeps_characters(*final(library), *old(library)),
            match *old(self) {
                DisplayObject::MovieClip(mc) => *final(self) matches DisplayObject::MovieClip(mc2) 
                    && clip_frame_entered(mc, mc2, mc.swf.spec_stream(movie.data@), movie.is_action_script_3),
                DisplayObject::Graphic(_) => *final(self) == *old(self),
            },
        decreases budget, 7nat,
    {
        match self {
            DisplayObject::MovieClip(mc) => mc.enter_frame_nested(movie, library, budget),
            DisplayObject::Graphic(_) => {},
        }
    }

    /// Runs a frame of the object: a clip steps its timeline (and those of
    /// its children); a graphic has none.
    pub fn enter_frame(&mut self, movie: &SwfMovie, library: &mut MovieLibrary)
        ensures
            keeps_characters(*final(library), *old(library)),
            match *old(self) {
                DisplayObject::MovieClip(mc) => *final(self) matches DisplayObject::MovieClip(mc2) 
                    && clip_frame_entered(mc, mc2, mc.swf.spec_stream(movie.data@), movie.is_action_script_3),
                DisplayObject::Graphic(_) => *final(self) == *old(self),
            },
    {
        self.enter_frame_nested(movie, library, crate::movie_clip::MAX_NESTING_DEPTH);
    }
}

impl MovieClip {
    /// A new child for the character `id`, set up as the PlaceObject tag
    /// says: at `depth`, placed on the current frame, with the tag's
    /// properties, name and clip depth, a default name if it has none, and
    /// its first frame run.  None when the library holds no clip or graphic
    /// under `id`, or when no nesting level is left.
    fn instantiate_child(
        &self,
        movie: &SwfMovie,
        library: &mut MovieLibrary,
        id: u16,
        depth: u16,
        place_object: &PlaceObjectRecord,
        budget: u32,
    ) -> (r: Option<DisplayObject>)
        ensures
            keeps_characters(*final(library), *old(library)),
            r is Some <==> (budget > 0 && old(library).characters@.contains_key(id) && !(old(library).characters@[id] is Bitmap)),
            r matches Some(o) ==> {
                &&& spec_character_id(old(library).characters@[id]) == Some(character_id_of(o))
                &&& base_of(o).depth == depth
                &&& base_of(o).place_frame == self.current_frame
            },
        decreases budget, 0nat,
    {
        if budget == 0 {
            return None;
        }
        match instantiate_by_id(library, id) {
            Some(child) => {
                let mut child = child;
                let ghost id0 = character_id_of(child);
                child.set_depth(depth);
                child.set_place_frame(self.current_frame);
                child.apply_place_object(place_object, movie.version);
                match &place_object.name {
                    Some(name) => child.set_name(Some(name.clone())),
                    None => {},
                }
                match place_object.clip_depth {
                    Some(clip_depth) => child.set_clip_depth(clip_depth),
                    None => {},
                }
                assert(base_of(child).depth == depth && base_of(child).place_frame == self.current_frame);
                assert(character_id_of(child) == id0);
                child.post_instantiation(library);
                child.enter_frame_nested(movie, library, budget - 1);
                Some(child)
            },
            None => None,
        }
    }

    /// Runs a PlaceObject tag: Place puts a new child at the depth, Replace
    /// swaps the character of the child there, Modify changes its
    /// properties.  A tag the `swf` crate cannot decode does nothing.
    fn place_object_nested(&mut self, movie: &SwfMovie, library: &mut MovieLibrary, body: &[u8], version: u8, budget: u32)
        ensures
            keeps_identity(*final(self), *old(self)),
            same_position(*final(self), *old(self)),
            final(self).queued_tags == old(self).queued_tags,
            keeps_characters(*final(library), *old(library)),
            place_tag_done(*old(self), *final(self), *old(library), *final(library), body@, version, movie.version, budget),
        decreases budget, 1nat,
    {
        let place_object = match crate::place_object::read_place_object(body, movie.version, version) {
            Some(p) => p,
            None => return,
        };
        let ghost v = self.container@;
        let ghost lib0 = *library;
        match place_object.action {
            crate::tags::PlaceObjectAction::Place(id) => {
                match self.instantiate_child(movie, library, id, place_object.depth, &place_object, budget) {
                    Some(child) => {
                        let ghost c = child;
                        self.container.replace_at_depth(place_object.depth, child);
                        proof {
                            assert(crate::container::spec_replace_at_depth(v, place_object.depth, c) == self.container@);
                            assert(spec_character_id(lib0.characters@[id]) == Some(character_id_of(c)));
                        }
                    },
                    None => {},
                }
            },
            crate::tags::PlaceObjectAction::Replace(id) => {
                match self.container.id_at_depth(place_object.depth) {
                    Some(oid) => {
                        match self.container.take_display_object(oid) {
                            Some(child) => {
                                let mut child = child;
                                child.replace_with(id, library);
                                let ghost o1 = child;
                                child.apply_place_object(&place_object, movie.version);
                                let ghost o2 = child;
                                child.set_place_frame(self.current_frame);
                                self.container.put_display_object(oid, child);
                                proof {
                                    assert(tag_applied(o1, place_object, movie.version, o2));
                                    assert(self.container@.objects =~= v.objects.insert(v.depths[place_object.depth], with_place_frame(o2, self.current_frame)));
                                    assert(self.container@ == changed_at_depth(v, place_object.depth, with_place_frame(o2, self.current_frame)));
                                }
                            },
                            None => {
                                proof {
                                    assert(self.container@.objects =~= v.objects);
                                }
                            },
                        }
                    },
                    None => {},
                }
            },
            crate::tags::PlaceObjectAction::Modify => {
                match self.container.id_at_depth(place_object.depth) {
                    Some(oid) => {
                        match self.container.take_display_object(oid) {
                            Some(child) => {
                                let mut child = child;
                                let ghost o = child;
                                child.apply_place_object(&place_object, movie.version);
                                let ghost o2 = child;
                                self.container.put_display_object(oid, child);
                                proof {
                                    assert(tag_applied(o, place_object, movie.version, o2));
                                    assert(self.container@.objects =~= v.objects.insert(v.depths[place_object.depth], o2));
                                    assert(self.container@ == changed_at_depth(v, place_object.depth, o2));
                                }
                            },
                            None => {
                                proof {
                                    assert(self.container@.objects =~= v.objects);
                                }
                            },
                        }
                    },
                    None => {},
                }
            },
            crate::tags::PlaceObjectAction::NoAction => {},
        }
    }

    /// Runs the tags of the next frame (or the same one, at the end of a
    /// timeline of one frame): PlaceObject and RemoveObject act at once,
    /// or, in ActionScript 3, are deferred; then the deferred removes run.
    fn advance_frame_nested(
        &mut self,
        movie: &SwfMovie,
        library: &mut MovieLibrary,
        run_display_actions: bool,
        is_action_script_3: bool,
        budget: u32,
    )
        requires
            !(old(self).current_frame >= old(self).total_frames && old(self).total_frames > 1),
        ensures
            keeps_identity(*final(self), *old(self)),
            keeps_characters(*final(library), *old(library)),
            (final(self).current_frame, final(self).tag_stream_pos)
                == spec_advance_outcome(*old(self), old(self).swf.spec_stream(movie.data@), is_action_script_3),
            !run_display_actions ==> {
                &&& *final(library) == *old(library)
                &&& final(self).queued_tags@ == spec_after_unqueue(old(self).queued_tags@, false)
                &&& deferred_removes_run(old(self).container@, old(self).queued_tags@, final(self).container@,
                    old(self).swf.spec_stream(movie.data@))
            },
            run_display_actions ==> frame_tags_run(*old(self), *old(library), *final(self), *final(library),
                old(self).swf.spec_stream(movie.data@), movie.version, is_action_script_3, budget),
        decreases budget, 3nat,
    {
        let next_frame = self.determine_next_frame();
        let data = self.swf.stream(movie);
        let start = resume_pos(self.tag_stream_pos, data.len());
        let mut pos = start;
        let ghost clip0 = *self;
        let ghost fend = spec_frame_end(data@, start as int);
        let ghost s0: FrameState = (*self, *library);
        let ghost mv = movie.version;
        proof {
            lemma_frame_end_bounds(data@, start as int);
        }
        loop
            invariant_except_break
                spec_frame_end(data@, pos as int) == fend,
                run_display_actions ==> forall|fin: FrameState| #[trigger] frame_tags_done((*self, *library), fin, data@, pos as int, mv, is_action_script_3, budget)
                    ==> frame_tags_done(s0, fin, data@, start as int, mv, is_action_script_3, budget),
            invariant
                s0 == (clip0, *old(library)),
                mv == movie.version,
                start as int == spec_resume_pos(clip0.tag_stream_pos, data@.len()),
                data@ == old(self).swf.spec_stream(movie.data@),
                data@.len() == data.len(),
                pos <= data@.len(),
                keeps_identity(*self, clip0),
                same_position(*self, clip0),
                clip0 == *old(self),
                keeps_characters(*library, *old(library)),
                !run_display_actions ==> *library == *old(library) && self.queued_tags == clip0.queued_tags
                    && self.container@ == clip0.container@,
            ensures
                pos == fend,
                run_display_actions ==> frame_tags_done(s0, (*self, *library), data@, start as int, mv, is_action_script_3, budget),
                keeps_identity(*self, clip0),
                same_position(*self, clip0),
                keeps_characters(*library, *old(library)),
                !run_display_actions ==> *library == *old(library) && self.queued_tags == clip0.queued_tags
                    && self.container@ == clip0.container@,
            decreases data@.len() - pos,
        {
            let ghost sa: FrameState = (*self, *library);
            let ghost pos_a = pos as int;
            match crate::tag_utils::next_tag(data, pos) {
                TagStep::Tag { code, body_start, body_len } => {
                    let next = body_start + body_len;
                    if code == tags::TAG_SHOW_FRAME {
                        proof {
                            assert(frame_tags_done(sa, sa, data@, pos_a, mv, is_action_script_3, budget));
                        }
                        pos = next;
                        break;
                    }
                    let body = vstd::slice::slice_subrange(data, body_start, next);
                    if run_display_actions {
                        match place_version_of(code) {
                            Some(v) => {
                                if is_action_script_3 {
                                    self.queue_place_object(movie, body, v, body_start as u64);
                                } else {
                                    self.place_object_nested(movie, library, body, v, budget);
                                }
                            },
                            None => {
                                match remove_version_of(code) {
                                    Some(v) => {
                                        if is_action_script_3 {
                                            self.queue_remove_object(body, v, body_start as u64);
                                        } else {
                                            self.remove_object(body, v);
                                        }
                                    },
                                    None => {},
                                }
                            },
                        }
                        proof {
                            let sb: FrameState = (*self, *library);
                            assert(data@.subrange(body_start as int, next as int) == body@);
                            assert(frame_tag_done(sa, sb, code, body@, body_start as int, mv, is_action_script_3, budget));
                            assert forall|fin: FrameState| #[trigger] frame_tags_done(sb, fin, data@, next as int, mv, is_action_script_3, budget)
                                implies frame_tags_done(s0, fin, data@, start as int, mv, is_action_script_3, budget) by {
                                assert(frame_tags_done(sa, fin, data@, pos_a, mv, is_action_script_3, budget));
                            }
                        }
                    }
                    pos = next;
                },
                TagStep::Truncated => {
                    proof {
                        assert(frame_tags_done(sa, sa, data@, pos_a, mv, is_action_script_3, budget));
                    }
                    pos = data.len();
                    break;
                },
                TagStep::Error { stop } => {
                    proof {
                        assert(frame_tags_done(sa, sa, data@, pos_a, mv, is_action_script_3, budget));
                    }
                    pos = stop;
                    break;
                },
            }
        }
        let ghost mid: FrameState = (*self, *library);
        let ghost q1 = self.queued_tags@;
        let remove_actions = self.unqueue_removes();
        let ghost v1 = self.container@;
        let mut k: usize = 0;
        while k < remove_actions.len()
            invariant
                k <= remove_actions@.len(),
                self.container@ == spec_removes_run(v1, remove_actions@.take(k as int), data@),
                data@ == old(self).swf.spec_stream(movie.data@),
                data@.len() == data.len(),
                keeps_identity(*self, clip0),
                same_position(*self, clip0),
                keeps_characters(*library, *old(library)),
                !run_display_actions ==> *library == *old(library),
                !run_display_actions ==> self.queued_tags@ == spec_after_unqueue(clip0.queued_tags@, false),
                self.queued_tags@ == spec_after_unqueue(q1, false),
                *library == mid.1,
            decreases remove_actions@.len() - k,
        {
            proof {
                assert(remove_actions@.take(k + 1).drop_last() =~= remove_actions@.take(k as int));
                assert(remove_actions@.take(k + 1).last() == remove_actions@[k as int]);
            }
            let tag = remove_actions[k].1;
            match tag.tag_type {
                QueuedTagAction::Remove(v) => {
                    if tag.tag_start <= data.len() as u64 {
                        let rest = vstd::slice::slice_subrange(data, tag.tag_start as usize, data.len());
                        self.remove_object(rest, v);
                    }
                },
                QueuedTagAction::Place(_) => {},
            }
            k += 1;
        }
        proof {
            assert(remove_actions@.take(remove_actions@.len() as int) =~= remove_actions@);
            assert(deferred_removes_run(v1, q1, self.container@, data@));
            if !run_display_actions {
                assert(deferred_removes_run(clip0.container@, clip0.queued_tags@, self.container@, data@));
            }
        }
        proof {
            lemma_frame_end_bounds(data@, start as int);
        }
        self.tag_stream_pos = pos as u64;
        if next_frame == crate::movie_clip::NextFrame::Next && is_action_script_3 {
            self.current_frame = self.current_frame + 1;
        }
    }
}

impl MovieClip {
    /// Runs a command recorded while jumping.  In an ActionScript 3 movie,
    /// a jump the timeline made by itself defers the placing of an object
    /// that is not there; otherwise an object already at the depth takes
    /// the properties (and, for Replace, the character) and a missing one
    /// is placed anew.
    fn run_goto_command(
        &mut self,
        movie: &SwfMovie,
        library: &mut MovieLibrary,
        cmd: &GotoPlaceObject,
        is_implicit: bool,
        is_rewind: bool,
        budget: u32,
    )
        ensures
            keeps_identity(*final(self), *old(self)),
            same_position(*final(self), *old(self)),
            keeps_characters(*final(library), *old(library)),
            ({
                let d = cmd.place_object.depth;
                let v = old(self).container@;
                let f = final(self).container@;
                let lib = *old(library);
                let ver = movie.is_action_script_3;
                if movie.is_action_script_3 && is_implicit && crate::container::spec_child_by_depth(v, d) is None {
                    &&& *final(self) == (MovieClip { queued_tags: final(self).queued_tags, ..*old(self) })
                    &&& final(self).queued_tags@ == old(self).queued_tags@.insert(d, spec_queue_add(
                        spec_bucket(old(self).queued_tags@, d),
                        QueuedTag { tag_type: QueuedTagAction::Place(cmd.version), tag_start: cmd.tag_start },
                    ))
                    &&& *final(library) == *old(library)
                } else {
                    &&& *final(self) == (MovieClip { container: final(self).container, ..*old(self) })
                    &&& match crate::container::spec_child_by_depth(v, d) {
                        Some(o) => if is_rewind || cmd.place_object.action == crate::tags::PlaceObjectAction::Modify {
                            &&& *final(library) == *old(library)
                            &&& exists|o2: DisplayObject| #[trigger] tag_applied(o, cmd.place_object, movie.version, o2)
                                && f == changed_at_depth(v, d, o2)
                        } else {
                            match cmd.place_object.action {
                                crate::tags::PlaceObjectAction::Replace(id) => {
                                    &&& *final(library) == *old(library)
                                    &&& exists|o2: DisplayObject| #[trigger] tag_applied(spec_replaced(o, id, lib), cmd.place_object, movie.version, o2)
                                        && f == changed_at_depth(v, d, with_place_frame(o2, cmd.frame))
                                },
                                crate::tags::PlaceObjectAction::Place(id) => placed_new_child(v, f, lib, id, d, cmd.frame, budget),
                                _ => f == v && *final(library) == *old(library),
                            }
                        },
                        None => match cmd.place_object.action {
                            crate::tags::PlaceObjectAction::Replace(id) => placed_new_child(v, f, lib, id, d, cmd.frame, budget),
                            crate::tags::PlaceObjectAction::Place(id) => placed_new_child(v, f, lib, id, d, cmd.frame, budget),
                            _ => f == v && *final(library) == *old(library),
                        },
                    }
                }
            }),
            goto_command_done((old(self).container@, old(self).queued_tags@, *old(library)),
                (final(self).container@, final(self).queued_tags@, *final(library)), *cmd, is_implicit, is_rewind,
                movie.version, movie.is_action_script_3, budget),
        decreases budget, 2nat,
    {
        let depth = cmd.place_object.depth;
        let ghost v = self.container@;
        let has_child = self.container.child_by_depth(depth).is_some();
        if movie.is_action_script_3 && is_implicit && !has_child {
            let mut bucket = match self.queued_tags.get(&depth) {
                Some(b) => *b,
                None => QueuedTagList::Empty,
            };
            bucket.queue_add(QueuedTag { tag_type: QueuedTagAction::Place(cmd.version), tag_start: cmd.tag_start });
            self.queued_tags.insert(depth, bucket);
            return;
        }
        let action = cmd.place_object.action;
        let modify = match action {
            crate::tags::PlaceObjectAction::Modify => true,
            _ => false,
        };
        if has_child && (is_rewind || modify) {
            match self.container.id_at_depth(depth) {
                Some(oid) => {
                    match self.container.take_display_object(oid) {
                        Some(child) => {
                            let mut child = child;
                            let ghost o = child;
                            child.apply_place_object(&cmd.place_object, movie.version);
                            let ghost o2 = child;
                            self.container.put_display_object(oid, child);
                            proof {
                                assert(tag_applied(o, cmd.place_object, movie.version, o2));
                                assert(self.container@.objects =~= v.objects.insert(v.depths[depth], o2));
                                assert(self.container@ == changed_at_depth(v, depth, o2));
                            }
                        },
                        None => {},
                    }
                },
                None => {},
            }
        } else {
            match action {
                crate::tags::PlaceObjectAction::Replace(id) => {
                    if has_child {
                        match self.container.id_at_depth(depth) {
                            Some(oid) => {
                                match self.container.take_display_object(oid) {
                                    Some(child) => {
                                        let mut child = child;
                                        child.replace_with(id, library);
                                        let ghost o1 = child;
                                        child.apply_place_object(&cmd.place_object, movie.version);
                                        let ghost o2 = child;
                                        child.set_place_frame(cmd.frame);
                                        self.container.put_display_object(oid, child);
                                        proof {
                                            assert(tag_applied(o1, cmd.place_object, movie.version, o2));
                                            assert(self.container@.objects =~= v.objects.insert(v.depths[depth], with_place_frame(o2, cmd.frame)));
                                            assert(self.container@ == changed_at_depth(v, depth, with_place_frame(o2, cmd.frame)));
                                        }
                                    },
                                    None => {},
                                }
                            },
                            None => {},
                        }
                    } else {
                        self.place_from_command(movie, library, cmd, id, budget);
                    }
                },
                crate::tags::PlaceObjectAction::Place(id) => {
                    self.place_from_command(movie, library, cmd, id, budget);
                },
                _ => {},
            }
        }
    }

    /// Places a new child for a command, marked as placed on the frame the
    /// command's tag would have placed it.
    fn place_from_command(&mut self, movie: &SwfMovie, library: &mut MovieLibrary, cmd: &GotoPlaceObject, id: u16, budget: u32)
        ensures
            keeps_identity(*final(self), *old(self)),
            same_position(*final(self), *old(self)),
            final(self).queued_tags == old(self).queued_tags,
            keeps_characters(*final(library), *old(library)),
            *final(self) == (MovieClip { container: final(self).container, ..*old(self) }),
            placed_new_child(old(self).container@, final(self).container@, *old(library), id, cmd.place_object.depth, cmd.frame, budget),
        decreases budget, 1nat,
    {
        let depth = cmd.place_object.depth;
        let ghost lib0 = *library;
        match self.instantiate_child(movie, library, id, depth, &cmd.place_object, budget) {
            Some(child) => {
                let mut child = child;
                child.set_place_frame(cmd.frame);
                let ghost c = child;
                let ghost v = self.container@;
                self.container.replace_at_depth(depth, child);
                proof {
                    assert(crate::container::spec_replace_at_depth(v, depth, c) == self.container@);
                    assert(spec_character_id(lib0.characters@[id]) == Some(character_id_of(c)));
                }
            },
            None => {},
        }
    }

    /// Jumps to `frame` with `budget` levels of nesting left.
    fn run_goto_nested(&mut self, movie: &SwfMovie, library: &mut MovieLibrary, frame: u16, is_implicit: bool, budget: u32)
        requires
            frame >= 1,
        ensures
            keeps_identity(*final(self), *old(self)),
            keeps_characters(*final(library), *old(library)),
            (final(self).current_frame, final(self).tag_stream_pos)
                == spec_goto_outcome(*old(self), old(self).swf.spec_stream(movie.data@), frame, movie.is_action_script_3),
            goto_done(*old(self), *final(self), *old(library), *final(library), old(self).swf.spec_stream(movie.data@), frame,
                is_implicit, movie.version, movie.is_action_script_3, budget),
        decreases budget, 4nat,
    {
        let ghost clip0 = *self;
        let mut goto_commands: Vec<GotoPlaceObject> = Vec::new();
        let is_rewind = frame <= self.current_frame;
        if is_rewind {
            self.tag_stream_pos = 0;
            self.current_frame = 0;
        }
        let tsp0 = self.tag_stream_pos;
        let data = self.swf.stream(movie);
        let start = resume_pos(self.tag_stream_pos, data.len());
        let mut pos = start;
        let mut frame_pos = start;
        let mut index: usize = 0;
        let clamped_frame = if frame < self.total_frames { frame } else { self.total_frames };
        let ghost scan = spec_goto_scan(data@, start as int, self.current_frame as int, clamped_frame as int, start as int);
        let ghost s0: GotoScan = (self.container@, Seq::<GotoPlaceObject>::empty(), 0int);
        let ghost cur0 = self.current_frame as int;
        let ghost mv = movie.version;
        while self.current_frame < clamped_frame && pos < data.len()
            invariant
                data@ == clip0.swf.spec_stream(movie.data@),
                data@.len() == data.len(),
                spec_goto_scan(data@, pos as int, self.current_frame as int, clamped_frame as int, frame_pos as int) == scan,
                pos <= data@.len(),
                frame_pos <= data@.len(),
                index <= pos,
                goto_ordered(goto_commands@, index + 1),
                keeps_identity(*self, clip0),
                self.tag_stream_pos == tsp0,
                self.queued_tags == clip0.queued_tags,
                mv == movie.version,
                *library == *old(library),
                forall|fin: GotoScan| #[trigger] goto_frames_done((self.container@, goto_commands@, index as int), fin, data@, pos as int,
                    self.current_frame as int, clamped_frame as int, mv, is_rewind)
                    ==> goto_frames_done(s0, fin, data@, start as int, cur0, clamped_frame as int, mv, is_rewind),
            decreases clamped_frame - self.current_frame,
        {
            let ghost sf: GotoScan = (self.container@, goto_commands@, index as int);
            let ghost pos_f = pos as int;
            let ghost cur_f = self.current_frame as int;
            self.current_frame = self.current_frame + 1;
            frame_pos = pos;
            let ghost fend = spec_frame_end(data@, pos as int);
            let ghost cf = self.current_frame;
            proof {
                lemma_frame_end_bounds(data@, pos as int);
            }
            loop
                invariant_except_break
                    spec_frame_end(data@, pos as int) == fend,
                    forall|fin: GotoScan| #[trigger] goto_tags_done((self.container@, goto_commands@, index as int), fin, data@, pos as int, cf, mv, is_rewind)
                        ==> goto_tags_done(sf, fin, data@, pos_f, cf, mv, is_rewind),
                invariant
                    data@ == clip0.swf.spec_stream(movie.data@),
                    data@.len() == data.len(),
                    pos <= data@.len(),
                    fend <= data@.len(),
                    index <= pos,
                    goto_ordered(goto_commands@, index + 1),
                    keeps_identity(*self, clip0),
                    self.tag_stream_pos == tsp0,
                    self.queued_tags == clip0.queued_tags,
                    mv == movie.version,
                    self.current_frame == cf,
                ensures
                    self.queued_tags == clip0.queued_tags,
                    pos == fend,
                    index <= pos,
                    goto_ordered(goto_commands@, index + 1),
                    keeps_identity(*self, clip0),
                    self.tag_stream_pos == tsp0,
                    self.current_frame == cf,
                    goto_tags_done(sf, (self.container@, goto_commands@, index as int), data@, pos_f, cf, mv, is_rewind),
                decreases data@.len() - pos,
            {
                let ghost sa: GotoScan = (self.container@, goto_commands@, index as int);
                let ghost pos_a = pos as int;
                match crate::tag_utils::next_tag(data, pos) {
                    TagStep::Tag { code, body_start, body_len } => {
                        let next = body_start + body_len;
                        if code == tags::TAG_SHOW_FRAME {
                            proof {
                                assert(goto_tags_done(sa, sa, data@, pos_a, cf, mv, is_rewind));
                            }
                            pos = next;
                            break;
                        }
                        let body = vstd::slice::slice_subrange(data, body_start, next);
                        match place_version_of(code) {
                            Some(v) => {
                                index = index + 1;
                                self.goto_place_object(movie, body, v, &mut goto_commands, is_rewind, index, body_start as u64);
                            },
                            None => {
                                match remove_version_of(code) {
                                    Some(v) => {
                                        self.goto_remove_object(body, v, &mut goto_commands, is_rewind);
                                    },
                                    None => {},
                                }
                            },
                        }
                        proof {
                            let sb: GotoScan = (self.container@, goto_commands@, index as int);
                            assert(data@.subrange(body_start as int, next as int) == body@);
                            assert(goto_tag_done(sa, sb, code, body@, body_start as int, cf, mv, is_rewind));
                            assert forall|fin: GotoScan| #[trigger] goto_tags_done(sb, fin, data@, next as int, cf, mv, is_rewind)
                                implies goto_tags_done(sf, fin, data@, pos_f, cf, mv, is_rewind) by {
                                assert(goto_tags_done(sa, fin, data@, pos_a, cf, mv, is_rewind));
                            }
                        }
                        pos = next;
                    },
                    TagStep::Truncated => {
                        proof {
                            assert(goto_tags_done(sa, sa, data@, pos_a, cf, mv, is_rewind));
                        }
                        pos = data.len();
                        break;
                    },
                    TagStep::Error { stop } => {
                        proof {
                            assert(goto_tags_done(sa, sa, data@, pos_a, cf, mv, is_rewind));
                        }
                        pos = stop;
                        break;
                    },
                }
            }
            proof {
                let se: GotoScan = (self.container@, goto_commands@, index as int);
                assert(pos_f < data@.len());
                assert forall|fin: GotoScan| #[trigger] goto_frames_done(se, fin, data@, pos as int, self.current_frame as int, clamped_frame as int, mv, is_rewind)
                    implies goto_frames_done(s0, fin, data@, start as int, cur0, clamped_frame as int, mv, is_rewind) by {
                    assert(goto_tags_done(sf, se, data@, pos_f, (cur_f + 1) as u16, mv, is_rewind));
                    assert(goto_frames_done(sf, fin, data@, pos_f, cur_f, clamped_frame as int, mv, is_rewind));
                }
            }
        }
        let ghost s_scan: GotoScan = (self.container@, goto_commands@, index as int);
        proof {
            assert(goto_frames_done(s_scan, s_scan, data@, pos as int, self.current_frame as int, clamped_frame as int, mv, is_rewind));
            assert(goto_frames_done(s0, s_scan, data@, start as int, cur0, clamped_frame as int, mv, is_rewind));
        }
        proof {
            lemma_goto_scan_bounds(data@, start as int, (if is_rewind { 0int } else { clip0.current_frame as int }), clamped_frame as int, start as int);
        }
        let hit_target_frame = self.current_frame == frame;
        let ghost pos_after_scan = (self.current_frame, self.tag_stream_pos);
        if is_rewind {
            self.remove_children_placed_after(frame);
        }
        let ghost as3 = movie.is_action_script_3;
        let ghost d_start: GotoDisplay = (self.container@, self.queued_tags@, *library);
        proof {
            assert(self.container@ == goto_rewound(s_scan.0, frame, is_rewind));
        }
        let mut k: usize = 0;
        while k < goto_commands.len()
            invariant
                k <= goto_commands@.len(),
                keeps_identity(*self, clip0),
                (self.current_frame, self.tag_stream_pos) == pos_after_scan,
                keeps_characters(*library, *old(library)),
                goto_commands@ == s_scan.1,
                mv == movie.version,
                as3 == movie.is_action_script_3,
                goto_commands_run(d_start, (self.container@, self.queued_tags@, *library), goto_commands@.take(k as int),
                    frame, true, is_implicit, is_rewind, mv, as3, budget),
            decreases goto_commands@.len() - k,
        {
            let ghost dm: GotoDisplay = (self.container@, self.queued_tags@, *library);
            if goto_commands[k].frame < frame {
                self.run_goto_command(movie, library, &goto_commands[k], is_implicit, is_rewind, budget);
            }
            proof {
                let l1 = goto_commands@.take(k + 1);
                let dn: GotoDisplay = (self.container@, self.queued_tags@, *library);
                assert(l1.drop_last() =~= goto_commands@.take(k as int));
                assert(l1.last() == goto_commands@[k as int]);
                assert(goto_command_step(dm, dn, l1.last(), frame, true, is_implicit, is_rewind, mv, as3, budget));
                assert(goto_commands_run(d_start, dn, l1, frame, true, is_implicit, is_rewind, mv, as3, budget));
            }
            k += 1;
        }
        proof {
            assert(goto_commands@.take(goto_commands@.len() as int) =~= goto_commands@);
        }
        let ghost da: GotoDisplay = (self.container@, self.queued_tags@, *library);
        if hit_target_frame {
            self.current_frame = self.current_frame - 1;
            self.tag_stream_pos = frame_pos as u64;
            self.advance_frame_nested(movie, library, false, movie.is_action_script_3, budget);
        } else {
            self.current_frame = clamped_frame;
        }
        let ghost db: GotoDisplay = (self.container@, self.queued_tags@, *library);
        let ghost pos_final = (self.current_frame, self.tag_stream_pos);
        k = 0;
        while k < goto_commands.len()
            invariant
                k <= goto_commands@.len(),
                keeps_identity(*self, clip0),
                (self.current_frame, self.tag_stream_pos) == pos_final,
                keeps_characters(*library, *old(library)),
                goto_commands@ == s_scan.1,
                mv == movie.version,
                as3 == movie.is_action_script_3,
                goto_commands_run(db, (self.container@, self.queued_tags@, *library), goto_commands@.take(k as int),
                    frame, false, is_implicit, is_rewind, mv, as3, budget),
            decreases goto_commands@.len() - k,
        {
            let ghost dm: GotoDisplay = (self.container@, self.queued_tags@, *library);
            if goto_commands[k].frame >= frame {
                self.run_goto_command(movie, library, &goto_commands[k], is_implicit, is_rewind, budget);
            }
            proof {
                let l1 = goto_commands@.take(k + 1);
                let dn: GotoDisplay = (self.container@, self.queued_tags@, *library);
                assert(l1.drop_last() =~= goto_commands@.take(k as int));
                assert(l1.last() == goto_commands@[k as int]);
                assert(goto_command_step(dm, dn, l1.last(), frame, false, is_implicit, is_rewind, mv, as3, budget));
                assert(goto_commands_run(db, dn, l1, frame, false, is_implicit, is_rewind, mv, as3, budget));
            }
            k += 1;
        }
        proof {
            assert(goto_commands@.take(goto_commands@.len() as int) =~= goto_commands@);
            let rewind = frame <= clip0.current_frame;
            let tsp0c: u64 = if rewind { 0 } else { clip0.tag_stream_pos };
            let pos0 = spec_resume_pos(tsp0c, data@.len());
            assert(rewind == is_rewind);
            assert(pos0 == start as int);
            assert(s0 == (clip0.container@, Seq::<GotoPlaceObject>::empty(), 0int));
            assert(goto_frames_done((clip0.container@, Seq::empty(), 0), s_scan, data@, pos0, cur0, clamped_frame as int, mv, rewind));
            assert(d_start == (goto_rewound(s_scan.0, frame, rewind), clip0.queued_tags@, *old(library)));
            assert(hit_target_frame == (spec_goto_scan(data@, pos0, cur0, clamped_frame as int, pos0).0 == frame));
            if hit_target_frame {
                assert(db.2 == da.2);
                assert(db.1 == spec_after_unqueue(da.1, false));
                assert(deferred_removes_run(da.0, da.1, db.0, data@));
            } else {
                assert(db == da);
            }
            assert(cur0 == (if rewind { 0int } else { clip0.current_frame as int }));
            assert(clamped_frame == (if frame < clip0.total_frames { frame } else { clip0.total_frames }));
            assert(goto_commands_run((goto_rewound(s_scan.0, frame, rewind), clip0.queued_tags@, *old(library)),
                da, s_scan.1, frame, true, is_implicit, rewind, mv, as3, budget));
            assert(goto_commands_run(db, (self.container@, self.queued_tags@, *library), s_scan.1, frame, false,
                is_implicit, rewind, mv, as3, budget));
            assert(goto_done_by(clip0, *self, *old(library), *library, data@, frame, is_implicit, mv, as3, budget, s_scan, da, db));
        }
    }

    /// Rewinding: the children that their tags placed after `frame` leave.
    fn remove_children_placed_after(&mut self, frame: u16)
        ensures
            *final(self) == (MovieClip { container: final(self).container, ..*old(self) }),
            final(self).container@ == spec_remove_children(
                old(self).container@,
                spec_late_depths(old(self).container@.render, old(self).container@.objects, frame),
            ),
    {
        let render_list = self.container.render_list();
        let ghost v0 = self.container@;
        let mut depths: Vec<u16> = Vec::new();
        let mut k: usize = 0;
        while k < render_list.len()
            invariant
                k <= render_list@.len(),
                render_list@ == v0.render,
                self.container@ == v0,
                depths@ == spec_late_depths(v0.render.subrange(0, k as int), v0.objects, frame),
            decreases render_list@.len() - k,
        {
            let id = render_list[k];
            proof {
                let pre = v0.render.subrange(0, k + 1);
                assert(pre.drop_last() =~= v0.render.subrange(0, k as int));
                assert(pre.last() == id);
            }
            match self.container.display_objects.get(&id) {
                Some(o) => {
                    if o.place_frame() > frame {
                        depths.push(o.depth());
                    }
                },
                None => {},
            }
            k += 1;
        }
        proof {
            assert(v0.render.subrange(0, render_list@.len() as int) =~= v0.render);
        }
        let ghost clip0 = *self;
        k = 0;
        while k < depths.len()
            invariant
                k <= depths@.len(),
                *self == (MovieClip { container: self.container, ..clip0 }),
                self.container@ == spec_remove_children(v0, depths@.subrange(0, k as int)),
            decreases depths@.len() - k,
        {
            proof {
                let pre = depths@.subrange(0, k + 1);
                assert(pre.drop_last() =~= depths@.subrange(0, k as int));
            }
            self.container.remove_child(depths[k]);
            k += 1;
        }
        proof {
            assert(depths@.subrange(0, depths@.len() as int) =~= depths@);
        }
    }

    /// Runs a frame with `budget` levels of nesting left: at the end of a
    /// timeline of several frames, jumps back to the first frame; otherwise
    /// runs the next frame's tags.
    fn run_frame_internal_nested(
        &mut self,
        movie: &SwfMovie,
        library: &mut MovieLibrary,
        run_display_actions: bool,
        is_action_script_3: bool,
        budget: u32,
    )
        ensures
            keeps_identity(*final(self), *old(self)),
            keeps_characters(*final(library), *old(library)),
            (final(self).current_frame, final(self).tag_stream_pos)
                == spec_frame_step(*old(self), old(self).swf.spec_stream(movie.data@), is_action_script_3, movie.is_action_script_3),
            !run_display_actions && !(old(self).current_frame >= old(self).total_frames && old(self).total_frames > 1) ==> {
                &&& *final(library) == *old(library)
                &&& final(self).queued_tags@ == spec_after_unqueue(old(self).queued_tags@, false)
                &&& deferred_removes_run(old(self).container@, old(self).queued_tags@, final(self).container@,
                    old(self).swf.spec_stream(movie.data@))
            },
            run_display_actions && !(old(self).current_frame >= old(self).total_frames && old(self).total_frames > 1) ==>
                frame_tags_run(*old(self), *old(library), *final(self), *final(library),
                    old(self).swf.spec_stream(movie.data@), movie.version, is_action_script_3, budget),
            old(self).current_frame >= old(self).total_frames && old(self).total_frames > 1 ==>
                goto_done(*old(self), *final(self), *old(library), *final(library), old(self).swf.spec_stream(movie.data@), 1,
                    true, movie.version, movie.is_action_script_3, budget),
        decreases budget, 5nat,
    {
        match self.determine_next_frame() {
            crate::movie_clip::NextFrame::First => {
                self.run_goto_nested(movie, library, 1, true, budget);
            },
            _ => {
                self.advance_frame_nested(movie, library, run_display_actions, is_action_script_3, budget);
            },
        }
    }

    /// Runs a frame of the clip with `budget` levels of nesting left: the
    /// children first, last drawn first; then, in an ActionScript 3 movie,
    /// the clip's own next frame while it plays, and the deferred places.
    fn enter_frame_nested(&mut self, movie: &SwfMovie, library: &mut MovieLibrary, budget: u32)
        ensures
            keeps_identity(*final(self), *old(self)),
            keeps_characters(*final(library), *old(library)),
            !movie.is_action_script_3 ==> {
                &&& same_position(*final(self), *old(self))
                &&& final(self).queued_tags == old(self).queued_tags
                &&& final(self).container@.render == old(self).container@.render
                &&& final(self).container@.depths == old(self).container@.depths
                &&& final(self).container@.objects.dom() == old(self).container@.objects.dom()
            },
            movie.is_action_script_3 && !old(self).playing ==> same_position(*final(self), *old(self)),
            movie.is_action_script_3 && old(self).playing ==> (final(self).current_frame, final(self).tag_stream_pos)
                == spec_frame_step(*old(self), old(self).swf.spec_stream(movie.data@), true, true),
            clip_frame_entered(*old(self), *final(self), old(self).swf.spec_stream(movie.data@), movie.is_action_script_3),
            movie.is_action_script_3 ==> as3_frame_done(*old(self), *old(library), *final(self), *final(library),
                old(self).swf.spec_stream(movie.data@), movie.version, budget),
        decreases budget, 6nat,
    {
        let ghost clip0 = *self;
        let is_playing = self.playing;
        if budget > 0 {
            let render_list = self.container.render_list();
            let mut i: usize = render_list.len();
            while i > 0
                invariant
                    i <= render_list@.len(),
                    budget > 0,
                    keeps_identity(*self, clip0),
                    same_position(*self, clip0),
                    self.queued_tags == clip0.queued_tags,
                    self.container@.render == clip0.container@.render,
                    self.container@.depths == clip0.container@.depths,
                    self.container@.objects.dom() == clip0.container@.objects.dom(),
                    keeps_characters(*library, *old(library)),
                decreases i,
            {
                i = i - 1;
                let id = render_list[i];
                match self.container.take_display_object(id) {
                    Some(child) => {
                        let mut child = child;
                        child.enter_frame_nested(movie, library, budget - 1);
                        self.container.put_display_object(id, child);
                        proof {
                            assert(self.container@.objects.dom() =~= clip0.container@.objects.dom());
                        }
                    },
                    None => {},
                }
            }
        }
        let ghost c1 = *self;
        let ghost l1 = *library;
        if movie.is_action_script_3 {
            if is_playing {
                self.run_frame_internal_nested(movie, library, true, true, budget);
            }
            let ghost pos_now = (self.current_frame, self.tag_stream_pos);
            let ghost mid = *self;
            let ghost lmid = *library;
            let place_actions = self.unqueue_adds();
            let ghost start = *self;
            let data = self.swf.stream(movie);
            let mut k: usize = 0;
            while k < place_actions.len()
                invariant
                    k <= place_actions@.len(),
                    data@.len() == data.len(),
                    data@ == clip0.swf.spec_stream(movie.data@),
                    keeps_identity(*self, clip0),
                    (self.current_frame, self.tag_stream_pos) == pos_now,
                    keeps_characters(*library, *old(library)),
                    self.queued_tags == start.queued_tags,
                    start == (MovieClip { queued_tags: start.queued_tags, ..mid }),
                    deferred_places_done(start, *self, lmid, *library, place_actions@.take(k as int), data@, movie.version, budget),
                decreases place_actions@.len() - k,
            {
                let ghost cm = *self;
                let ghost lm = *library;
                proof {
                    assert(place_actions@.take(k + 1).drop_last() =~= place_actions@.take(k as int));
                    assert(place_actions@.take(k + 1).last() == place_actions@[k as int]);
                }
                let tag = place_actions[k].1;
                match tag.tag_type {
                    QueuedTagAction::Place(v) => {
                        if tag.tag_start <= data.len() as u64 {
                            let rest = vstd::slice::slice_subrange(data, tag.tag_start as usize, data.len());
                            self.place_object_nested(movie, library, rest, v, budget);
                        }
                    },
                    QueuedTagAction::Remove(_) => {},
                }
                proof {
                    if tag.tag_start <= data.len() as u64 {
                        assert(data@.subrange(tag.tag_start as int, data@.len() as int) == data@.subrange(tag.tag_start as int, data@.len() as int));
                    }
                    let l1 = place_actions@.take(k + 1);
                    let c1 = *self;
                    let lib1 = *library;
                    assert(l1.len() > 0);
                    assert(deferred_place_done(cm, c1, lm, lib1, l1.last(), data@, movie.version, budget));
                    assert(deferred_places_done(start, cm, lmid, lm, l1.drop_last(), data@, movie.version, budget));
                    assert(deferred_places_done(start, c1, lmid, lib1, l1, data@, movie.version, budget));
                }
                k += 1;
            }
            proof {
                assert(place_actions@.take(place_actions@.len() as int) =~= place_actions@);
                assert(self.queued_tags == start.queued_tags);
                assert(deferred_adds_run(mid, lmid, *self, *library, clip0.swf.spec_stream(movie.data@), movie.version, budget));
                assert(c1.swf == clip0.swf);
                assert(as3_frame_by(clip0, *old(library), *self, *library, clip0.swf.spec_stream(movie.data@), movie.version, budget,
                    c1, l1, mid, lmid));
            }
        }
    }

    /// Runs a frame of the clip and of its children.
    pub fn enter_frame(&mut self, movie: &SwfMovie, library: &mut MovieLibrary)
        ensures
            keeps_identity(*final(self), *old(self)),
            keeps_characters(*final(library), *old(library)),
            !movie.is_action_script_3 ==> {
                &&& same_position(*final(self), *old(self))
                &&& final(self).queued_tags == old(self).queued_tags
                &&& final(self).container@.render == old(self).container@.render
                &&& final(self).container@.depths == old(self).container@.depths
                &&& final(self).container@.objects.dom() == old(self).container@.objects.dom()
            },
            movie.is_action_script_3 && !old(self).playing ==> same_position(*final(self), *old(self)),
            movie.is_action_script_3 && old(self).playing ==> (final(self).current_frame, final(self).tag_stream_pos)
                == spec_frame_step(*old(self), old(self).swf.spec_stream(movie.data@), true, true),
            frame_ran(*old(self), *final(self), old(self).swf.spec_stream(movie.data@), movie.is_action_script_3),
            movie.is_action_script_3 ==> as3_frame_done(*old(self), *old(library), *final(self), *final(library),
                old(self).swf.spec_stream(movie.data@), movie.version, crate::movie_clip::MAX_NESTING_DEPTH),
            frame_entered(*old(self), *old(library), *final(self), *final(library), old(self).swf.spec_stream(movie.data@),
                movie.version, movie.is_action_script_3),
    {
        self.enter_frame_nested(movie, library, crate::movie_clip::MAX_NESTING_DEPTH);
    }

    /// Runs the clip's next frame (or jumps back to the first one at the
    /// end of the timeline).  `run_display_actions` says whether the
    /// frame's PlaceObject and RemoveObject tags act.
    pub fn run_frame_internal(&mut self, movie: &SwfMovie, library: &mut MovieLibrary, run_display_actions: bool, is_action_script_3: bool)
        ensures
            keeps_identity(*final(self), *old(self)),
            keeps_characters(*final(library), *old(library)),
            (final(self).current_frame, final(self).tag_stream_pos)
                == spec_frame_step(*old(self), old(self).swf.spec_stream(movie.data@), is_action_script_3, movie.is_action_script_3),
            !run_display_actions && !(old(self).current_frame >= old(self).total_frames && old(self).total_frames > 1) ==> {
                &&& *final(library) == *old(library)
                &&& final(self).queued_tags@ == spec_after_unqueue(old(self).queued_tags@, false)
                &&& deferred_removes_run(old(self).container@, old(self).queued_tags@, final(self).container@,
                    old(self).swf.spec_stream(movie.data@))
            },
            run_display_actions && !(old(self).current_frame >= old(self).total_frames && old(self).total_frames > 1) ==>
                frame_tags_run(*old(self), *old(library), *final(self), *final(library),
                    old(self).swf.spec_stream(movie.data@), movie.version, is_action_script_3, crate::movie_clip::MAX_NESTING_DEPTH),
            old(self).current_frame >= old(self).total_frames && old(self).total_frames > 1 ==>
                goto_done(*old(self), *final(self), *old(library), *final(library), old(self).swf.spec_stream(movie.data@), 1,
                    true, movie.version, movie.is_action_script_3, crate::movie_clip::MAX_NESTING_DEPTH),
    {
        self.run_frame_internal_nested(movie, library, run_display_actions, is_action_script_3, crate::movie_clip::MAX_NESTING_DEPTH);
    }

    /// Jumps to `frame` (counted from 1): the timeline is replayed from the
    /// current frame, or from the start when jumping back, with the
    /// display list brought to what the target frame shows.
    pub fn run_goto(&mut self, movie: &SwfMovie, library: &mut MovieLibrary, frame: u16, is_implicit: bool)
        requires
            frame >= 1,
        ensures
            keeps_identity(*final(self), *old(self)),
            keeps_characters(*final(library), *old(library)),
            (final(self).current_frame, final(self).tag_stream_pos)
                == spec_goto_outcome(*old(self), old(self).swf.spec_stream(movie.data@), frame, movie.is_action_script_3),
            goto_done(*old(self), *final(self), *old(library), *final(library), old(self).swf.spec_stream(movie.data@), frame,
                is_implicit, movie.version, movie.is_action_script_3, crate::movie_clip::MAX_NESTING_DEPTH),
    {
        self.run_goto_nested(movie, library, frame, is_implicit, crate::movie_clip::MAX_NESTING_DEPTH);
    }

    /// Goes to `frame` (0 counts as 1) and stops or plays there; nothing
    /// is replayed when the clip already stands at that frame.
    pub fn goto_frame(&mut self, movie: &SwfMovie, library: &mut MovieLibrary, frame: u16, stop: bool)
        ensures
            goto_frame_done(*old(self), *final(self), old(self).swf.spec_stream(movie.data@), frame, stop, movie.is_action_script_3),
            keeps_characters(*final(library), *old(library)),
            goto_frame_display(*old(self), *final(self), *old(library), *final(library), old(self).swf.spec_stream(movie.data@),
                frame, movie.version, movie.is_action_script_3),
    {
        if stop {
            self.stop();
        } else {
            self.play();
        }
        let frame = if frame > 1 { frame } else { 1 };
        if frame != self.current_frame {
            self.run_goto(movie, library, frame, false);
        }
    }

    /// Places `child` at `depth` of the clip's display list.
    pub fn replace_at_depth(&mut self, depth: u16, child: DisplayObject)
        ensures
            *final(self) == (MovieClip { container: final(self).container, ..*old(self) }),
            final(self).container@ == crate::container::spec_replace_at_depth(old(self).container@, depth, child),
    {
        self.container.replace_at_depth(depth, child);
    }
}

/// The stream holds `n` more frames from `pos`: each of them starts before
/// the end of the stream.
pub open spec fn frames_available(data: Seq<u8>, pos: int, n: nat) -> bool
    decreases n,
{
    n == 0 || (0 <= pos < data.len() && frames_available(data, spec_frame_end(data, pos), (n - 1) as nat))
}

/// A scan towards `target` over a stream that holds the frames up to it
/// stops at the target.
proof fn lemma_scan_reaches_target(data: Seq<u8>, pos: int, cur: int, target: int, fp: int)
    requires
        cur <= target,
        frames_available(data, pos, (target - cur) as nat),
    ensures
        spec_goto_scan(data, pos, cur, target, fp).0 == target,
    decreases target - cur,
{
    if cur < target {
        lemma_scan_reaches_target(data, spec_frame_end(data, pos), cur + 1, target, pos);
    }
}

/// Seeking lands on the target: a jump to a frame within the timeline,
/// over a stream that holds the frames up to it, ends on that frame in an
/// ActionScript 3 movie (and one before it otherwise, where the frame
/// counter moves elsewhere).
pub proof fn lemma_goto_lands_on_target(c: MovieClip, data: Seq<u8>, frame: u16, as3: bool)
    requires
        1 <= frame <= c.total_frames,
        frames_available(
            data,
            spec_resume_pos(if frame <= c.current_frame { 0 } else { c.tag_stream_pos }, data.len()),
            (frame - (if frame <= c.current_frame { 0 } else { c.current_frame })) as nat,
        ),
    ensures
        spec_goto_outcome(c, data, frame, as3).0 == (if as3 { frame } else { (frame - 1) as u16 }),
{
    let rewind = frame <= c.current_frame;
    let cur0: u16 = if rewind { 0 } else { c.current_frame };
    let tsp0: u64 = if rewind { 0 } else { c.tag_stream_pos };
    let pos0 = spec_resume_pos(tsp0, data.len());
    lemma_scan_reaches_target(data, pos0, cur0 as int, frame as int, pos0);
}

/// Playing past the last frame of a timeline of several frames wraps
/// around: the next frame step stands on the first frame again (in an
/// ActionScript 3 movie with a non-empty tag stream), read from the start
/// of the stream.
pub proof fn lemma_last_frame_wraps_to_first(c: MovieClip, data: Seq<u8>, as3: bool)
    requires
        c.current_frame >= c.total_frames,
        c.total_frames > 1,
        data.len() > 0,
    ensures
        spec_frame_step(c, data, as3, true).0 == 1,
        spec_frame_step(c, data, as3, true).1 == spec_frame_end(data, 0) as u64,
{
    assert(spec_resume_pos(0, data.len()) == 0);
    assert(spec_goto_scan(data, 0, 0, 1, 0) == spec_goto_scan(data, spec_frame_end(data, 0), 1, 1, 0));
}

/// Once the pending adds (or removes) are taken out, no queue holds one.
pub proof fn lemma_unqueue_leaves_none_pending(m: Map<u16, QueuedTagList>, adds: bool, d: u16)
    requires
        spec_after_unqueue(m, adds).contains_key(d),
    ensures
        pending_of(spec_after_unqueue(m, adds)[d], adds) is None,
{
}

/// `k` is the smallest id under which a movie clip is stored.
pub open spec fn is_first_clip(objects: Map<u16, DisplayObject>, k: u16) -> bool {
    &&& objects.contains_key(k)
    &&& objects[k] is MovieClip
    &&& forall|k2: u16| #[trigger] objects.contains_key(k2) && objects[k2] is MovieClip ==> k <= k2
}

/// The movie clip stored under the smallest id, if any.
pub open spec fn spec_first_clip(objects: Map<u16, DisplayObject>) -> Option<MovieClip> {
    if exists|k: u16| is_first_clip(objects, k) {
        Some(objects[choose|k: u16| is_first_clip(objects, k)]->MovieClip_0)
    } else {
        None
    }
}

/// The clip has the name `name`.
pub open spec fn named(mc: MovieClip, name: Seq<char>) -> bool {
    mc.base.name matches Some(n) && n@ == name
}

/// What `query_movie_clip` finds, looking `fuel` levels deep: the clip
/// itself when it has the name; otherwise its first child clip (by id)
/// when that has the name, or what the search finds inside that child.
/// The search goes no further than the first child clip of each level.
pub open spec fn spec_query(mc: MovieClip, name: Seq<char>, fuel: nat) -> Option<MovieClip>
    decreases fuel,
{
    if named(mc, name) {
        Some(mc)
    } else if fuel == 0 {
        None
    } else {
        match spec_first_clip(mc.container@.objects) {
            Some(c) => if named(c, name) { Some(c) } else { spec_query(c, name, (fuel - 1) as nat) },
            None => None,
        }
    }
}

/// A clip stored anywhere means a first one.
proof fn lemma_first_clip_exists(objects: Map<u16, DisplayObject>, k: u16)
    requires
        objects.contains_key(k),
        objects[k] is MovieClip,
    ensures
        exists|k2: u16| is_first_clip(objects, k2),
    decreases k,
{
    if !is_first_clip(objects, k) {
        let k2 = choose|k2: u16| #[trigger] objects.contains_key(k2) && objects[k2] is MovieClip && !(k <= k2);
        lemma_first_clip_exists(objects, k2);
    }
}

impl crate::container::ChildContainer {
    /// The movie clip stored under the smallest id, if any.
    pub fn first_child_movie_clip(&self) -> (r: Option<&MovieClip>)
        ensures
            match spec_first_clip(self@.objects) {
                Some(c) => r matches Some(x) && *x == c,
                None => r is None,
            },
    {
        let m = &self.display_objects;
        let keys = m.keys();
        let ghost all = keys.remaining();
        let mut found: Option<u16> = None;
        let ghost mut pos: int = 0;
        proof {
            broadcast use vstd::std_specs::btree::axiom_spec_keys_iter;
            assert(all == vstd::std_specs::btree::spec_keys_iter(m).remaining());
            assert(all.unref().to_set() == m@.dom());
        }
        for k in it: keys
            invariant_except_break
                found is None,
                forall|i: int| 0 <= i < it.index() ==> !(m@[*it.seq()[i]] is MovieClip),
            invariant
                it.seq() == all,
                all.unref().to_set() == m@.dom(),
            ensures
                found matches Some(fk) ==> (0 <= pos < it.seq().len() && *it.seq()[pos] == fk && m@[fk] is MovieClip
                    && forall|i: int| 0 <= i < pos ==> !(m@[*it.seq()[i]] is MovieClip)),
                found is None ==> forall|i: int| 0 <= i < it.seq().len() ==> !(m@[*it.seq()[i]] is MovieClip),
        {
            proof {
                assert(all.unref()[it.index() as int] == *all[it.index() as int]);
                assert(all.unref().contains(*all[it.index() as int]));
            }
            match m.get(k) {
                Some(DisplayObject::MovieClip(_)) => {
                    found = Some(*k);
                    proof { pos = it.index() as int; }
                    break;
                },
                _ => {},
            }
        }
        proof {
            broadcast use vstd::std_specs::btree::axiom_spec_keys_iter;
            assert(all == vstd::std_specs::btree::spec_keys_iter(m).remaining());
            assert(all.unref().to_set() == m@.dom());
            match found {
                Some(fk) => {
                    assert(all.unref()[pos] == fk);
                    assert(m@.dom().contains(fk));
                    assert forall|k2: u16| #[trigger] m@.contains_key(k2) && m@[k2] is MovieClip implies fk <= k2 by {
                        assert(all.unref().to_set().contains(k2));
                        let j = all.unref().index_of(k2);
                        if j < pos {
                            assert(*all[j] == k2);
                        } else if j > pos {
                            crate::key_order::lemma_increasing_keys(all, pos, j);
                        }
                    }
                    assert(is_first_clip(m@, fk));
                    let c = choose|k: u16| is_first_clip(m@, k);
                    assert(is_first_clip(m@, c));
                    assert(c <= fk && fk <= c);
                },
                None => {
                    assert forall|k2: u16| !is_first_clip(m@, k2) by {
                        if is_first_clip(m@, k2) {
                            assert(all.unref().to_set().contains(k2));
                            let j = all.unref().index_of(k2);
                            assert(*all[j] == k2);
                        }
                    }
                },
            }
        }
        match found {
            Some(k) => match m.get(&k) {
                Some(DisplayObject::MovieClip(mc)) => Some(mc),
                _ => None,
            },
            None => None,
        }
    }
}

impl MovieClip {
    /// The search of `query_movie_clip`, `fuel` levels deep.
    fn query_nested(&self, target: &String, fuel: u32) -> (r: Option<&MovieClip>)
        ensures
            match spec_query(*self, target@, fuel as nat) {
                Some(c) => r matches Some(x) && *x == c,
                None => r is None,
            },
        decreases fuel,
    {
        let self_named = match &self.base.name {
            Some(n) => *n == *target,
            None => false,
        };
        if self_named {
            return Some(self);
        }
        if fuel == 0 {
            return None;
        }
        match self.container.first_child_movie_clip() {
            Some(child) => {
                let child_named = match &child.base.name {
                    Some(n) => *n == *target,
                    None => false,
                };
                if child_named {
                    Some(child)
                } else {
                    child.query_nested(target, fuel - 1)
                }
            },
            None => None,
        }
    }

    /// Finds the clip named `arg`: this clip, or, down the first child
    /// clip (by id) of each level, the first one with that name.
    pub fn query_movie_clip(&self, arg: &str) -> (r: Option<&MovieClip>)
        ensures
            match spec_query(*self, arg@, crate::movie_clip::MAX_NESTING_DEPTH as nat) {
                Some(c) => r matches Some(x) && *x == c,
                None => r is None,
            },
    {
        let target = arg.to_owned();
        self.query_nested(&target, crate::movie_clip::MAX_NESTING_DEPTH)
    }
}

} // verus!

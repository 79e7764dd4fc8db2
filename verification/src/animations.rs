//! The animations and frame events that the labels of a movie's main
//! timeline name.  A label `anim_NAME` (or any label without a known
//! prefix) starts the animation NAME; a label `event_NAME` fires the event
//! NAME when its frame is reached.  An animation runs until the next one
//! starts, the last one until the end of the timeline.

use vstd::prelude::*;

verus! {

/// `s` without the prefix `p`, if it starts with it.
pub open spec fn spec_strip_prefix(s: Seq<char>, p: Seq<char>) -> Option<Seq<char>> {
    if p.len() <= s.len() && s.subrange(0, p.len() as int) == p {
        Some(s.subrange(p.len() as int, s.len() as int))
    } else {
        None
    }
}

/// Calls `str::strip_prefix`: the rest of `s` after `prefix` when `s`
/// starts with it, as its documentation says.
#[verifier::external_body]
fn strip_prefix(s: &str, prefix: &str) -> (r: Option<String>)
    ensures
        match r {
            Some(t) => spec_strip_prefix(s@, prefix@) == Some(t@),
            None => spec_strip_prefix(s@, prefix@) is None,
        },
{
    match s.strip_prefix(prefix) {
        Some(rest) => Some(rest.to_string()),
        None => None,
    }
}

/// The prefix of a label that names an animation.
pub open spec fn anim_prefix() -> Seq<char> {
    seq!['a', 'n', 'i', 'm', '_']
}

/// The prefix of a label that names a frame event.
pub open spec fn event_prefix() -> Seq<char> {
    seq!['e', 'v', 'e', 'n', 't', '_']
}

/// The position of the entry named `name`, if there is one.
pub open spec fn spec_find_anim(s: Seq<(Seq<char>, u16)>, name: Seq<char>) -> Option<int> {
    if exists|i: int| 0 <= i < s.len() && s[i].0 == name {
        Some(choose|i: int| 0 <= i < s.len() && s[i].0 == name)
    } else {
        None
    }
}

/// The position of the event at `frame`, if there is one.
pub open spec fn spec_find_event(s: Seq<(u16, Seq<char>)>, frame: u16) -> Option<int> {
    if exists|i: int| 0 <= i < s.len() && s[i].0 == frame {
        Some(choose|i: int| 0 <= i < s.len() && s[i].0 == frame)
    } else {
        None
    }
}

/// Sets the start of the animation `name`: the entry keeps its place when
/// there is one, a new one comes last.
pub open spec fn spec_upsert_anim(s: Seq<(Seq<char>, u16)>, name: Seq<char>, start: u16) -> Seq<(Seq<char>, u16)> {
    match spec_find_anim(s, name) {
        Some(i) => s.update(i, (name, start)),
        None => s.push((name, start)),
    }
}

/// Sets the event at `frame`: the entry keeps its place when there is one,
/// a new one comes last.
pub open spec fn spec_upsert_event(s: Seq<(u16, Seq<char>)>, frame: u16, name: Seq<char>) -> Seq<(u16, Seq<char>)> {
    match spec_find_event(s, frame) {
        Some(i) => s.update(i, (frame, name)),
        None => s.push((frame, name)),
    }
}

/// What the labels, read in timeline order, name: the animations with
/// their start frames and the frame events (a later label with the same
/// name, or at the same frame, wins).
pub open spec fn spec_collect(labels: Seq<(u16, Seq<char>)>) -> (Seq<(Seq<char>, u16)>, Seq<(u16, Seq<char>)>)
    decreases labels.len(),
{
    if labels.len() == 0 {
        (Seq::empty(), Seq::empty())
    } else {
        let prev = spec_collect(labels.drop_last());
        let (frame, text) = labels.last();
        match spec_strip_prefix(text, anim_prefix()) {
            Some(name) => (spec_upsert_anim(prev.0, name, frame), prev.1),
            None => match spec_strip_prefix(text, event_prefix()) {
                Some(name) => (prev.0, spec_upsert_event(prev.1, frame, name)),
                None => (spec_upsert_anim(prev.0, text, frame), prev.1),
            },
        }
    }
}

/// No two entries share a name.
pub open spec fn distinct_names(s: Seq<(Seq<char>, u16)>) -> bool {
    forall|i: int, j: int| 0 <= i < j < s.len() ==> s[i].0 != s[j].0
}

/// No two entries share a frame.
pub open spec fn distinct_frames(s: Seq<(u16, Seq<char>)>) -> bool {
    forall|i: int, j: int| 0 <= i < j < s.len() ==> s[i].0 != s[j].0
}

/// The animations, each with its start frame and its length.
pub struct AnimationTable {
    pub animations: Vec<(String, u16, u16)>,
    pub frame_events: Vec<(u16, String)>,
}

/// The names and start frames of a table's animations.
pub open spec fn anim_starts(t: Seq<(String, u16, u16)>) -> Seq<(Seq<char>, u16)> {
    t.map_values(|a: (String, u16, u16)| (a.0@, a.1))
}

/// The frames and names of a table's events.
pub open spec fn event_names(t: Seq<(u16, String)>) -> Seq<(u16, Seq<char>)> {
    t.map_values(|e: (u16, String)| (e.0, e.1@))
}

/// The animations come in order of their start frames, and each runs
/// until the next one starts, the last one until frame `total_frames`.
pub open spec fn tiles_timeline(t: Seq<(String, u16, u16)>, total_frames: u16) -> bool {
    &&& forall|i: int, j: int| 0 <= i < j < t.len() ==> t[i].1 <= t[j].1
    &&& forall|i: int| 0 <= i < t.len() - 1 ==> t[i].2 == t[i + 1].1 - t[i].1
    &&& t.len() > 0 ==> t.last().2 == total_frames - t.last().1
}

/// Finds the entry named `name`.
fn find_anim(s: &Vec<(String, u16)>, name: &String) -> (r: Option<usize>)
    ensures
        match r {
            Some(i) => i < s@.len() && s@[i as int].0@ == name@,
            None => forall|j: int| 0 <= j < s@.len() ==> s@[j].0@ != name@,
        },
{
    let mut i: usize = 0;
    while i < s.len()
        invariant
            i <= s@.len(),
            forall|j: int| 0 <= j < i ==> s@[j].0@ != name@,
        decreases s@.len() - i,
    {
        if s[i].0 == *name {
            return Some(i);
        }
        i += 1;
    }
    None
}

/// Finds the event at `frame`.
fn find_event(s: &Vec<(u16, String)>, frame: u16) -> (r: Option<usize>)
    ensures
        match r {
            Some(i) => i < s@.len() && s@[i as int].0 == frame,
            None => forall|j: int| 0 <= j < s@.len() ==> s@[j].0 != frame,
        },
{
    let mut i: usize = 0;
    while i < s.len()
        invariant
            i <= s@.len(),
            forall|j: int| 0 <= j < i ==> s@[j].0 != frame,
        decreases s@.len() - i,
    {
        if s[i].0 == frame {
            return Some(i);
        }
        i += 1;
    }
    None
}

/// The names and starts of a list of named starts.
pub open spec fn named_starts(s: Seq<(String, u16)>) -> Seq<(Seq<char>, u16)> {
    s.map_values(|a: (String, u16)| (a.0@, a.1))
}

/// Sets the start of the animation `name` in a list of named starts.
fn upsert_anim(s: &mut Vec<(String, u16)>, name: String, start: u16)
    requires
        distinct_names(named_starts(old(s)@)),
    ensures
        distinct_names(named_starts(final(s)@)),
        named_starts(final(s)@) == spec_upsert_anim(named_starts(old(s)@), name@, start),
{
    let ghost v = named_starts(s@);
    match find_anim(s, &name) {
        Some(i) => {
            let ghost n = name@;
            s.set(i, (name, start));
            proof {
                assert(v[i as int].0 == n);
                assert(exists|j: int| 0 <= j < v.len() && v[j].0 == n);
                let c = choose|j: int| 0 <= j < v.len() && v[j].0 == n;
                assert(c == i);
                assert(named_starts(s@) =~= v.update(i as int, (n, start)));
            }
        },
        None => {
            let ghost n = name@;
            s.push((name, start));
            proof {
                assert(!(exists|j: int| 0 <= j < v.len() && v[j].0 == n));
                assert(named_starts(s@) =~= v.push((n, start)));
            }
        },
    }
}

/// The frames and names of a list of events.
pub open spec fn named_events(s: Seq<(u16, String)>) -> Seq<(u16, Seq<char>)> {
    s.map_values(|e: (u16, String)| (e.0, e.1@))
}

/// Sets the event at `frame`.
fn upsert_event(s: &mut Vec<(u16, String)>, frame: u16, name: String)
    requires
        distinct_frames(named_events(old(s)@)),
    ensures
        distinct_frames(named_events(final(s)@)),
        named_events(final(s)@) == spec_upsert_event(named_events(old(s)@), frame, name@),
{
    let ghost v = named_events(s@);
    match find_event(s, frame) {
        Some(i) => {
            let ghost n = name@;
            s.set(i, (frame, name));
            proof {
                assert(v[i as int].0 == frame);
                let c = choose|j: int| 0 <= j < v.len() && v[j].0 == frame;
                assert(c == i);
                assert(named_events(s@) =~= v.update(i as int, (frame, n)));
            }
        },
        None => {
            let ghost n = name@;
            s.push((frame, name));
            proof {
                assert(!(exists|j: int| 0 <= j < v.len() && v[j].0 == frame));
                assert(named_events(s@) =~= v.push((frame, n)));
            }
        },
    }
}

/// The labels' texts.
pub open spec fn label_seq(labels: Seq<(u16, String)>) -> Seq<(u16, Seq<char>)> {
    labels.map_values(|l: (u16, String)| (l.0, l.1@))
}

/// Sorts named starts by start frame, keeping the order of equal starts.
fn sort_by_start(s: Vec<(String, u16)>) -> (r: Vec<(String, u16)>)
    ensures
        named_starts(r@).to_multiset() == named_starts(s@).to_multiset(),
        r@.len() == s@.len(),
        forall|i: int, j: int| 0 <= i < j < r@.len() ==> r@[i].1 <= r@[j].1,
{
    let ghost total = named_starts(s@).to_multiset();
    let mut out: Vec<(String, u16)> = Vec::new();
    let mut rest = s;
    proof {
        assert(named_starts(out@).len() == 0);
        named_starts(out@).to_multiset_ensures();
        assert(named_starts(out@).to_multiset() =~= vstd::multiset::Multiset::empty());
        broadcast use vstd::multiset::group_multiset_axioms;
        assert(named_starts(out@).to_multiset().add(named_starts(rest@).to_multiset()) =~= total);
    }
    while rest.len() > 0
        invariant
            named_starts(out@).to_multiset().add(named_starts(rest@).to_multiset()) == total,
            forall|i: int, j: int| 0 <= i < j < out@.len() ==> out@[i].1 <= out@[j].1,
            out@.len() + rest@.len() == s@.len(),
            total == named_starts(s@).to_multiset(),
        decreases rest@.len(),
    {
        let ghost rest_old = named_starts(rest@);
        let item = rest.remove(0);
        let ghost it = (item.0@, item.1);
        proof {
            assert(rest_old[0] == it);
            assert(named_starts(rest@) =~= rest_old.remove(0));
            vstd::seq_lib::to_multiset_remove(rest_old, 0);
            vstd::seq_lib::to_multiset_contains(rest_old, it);
        }
        let mut p: usize = out.len();
        while p > 0 && out[p - 1].1 > item.1
            invariant
                p <= out@.len(),
                forall|i: int, j: int| 0 <= i < j < out@.len() ==> out@[i].1 <= out@[j].1,
                forall|i: int| p <= i < out@.len() ==> out@[i].1 > item.1,
            decreases p,
        {
            p -= 1;
        }
        let ghost before = out@;
        out.insert(p, item);
        proof {
            assert(out@ == before.insert(p as int, out@[p as int]));
            assert forall|i: int, j: int| 0 <= i < j < out@.len() implies out@[i].1 <= out@[j].1 by {
                if j < p {
                    assert(out@[i] == before[i] && out@[j] == before[j]);
                } else if j == p {
                    assert(out@[i] == before[i]);
                } else if i < p {
                    assert(out@[i] == before[i] && out@[j] == before[j - 1]);
                } else if i == p {
                    assert(out@[j] == before[j - 1]);
                } else {
                    assert(out@[i] == before[i - 1] && out@[j] == before[j - 1]);
                }
            }
            assert(named_starts(out@) =~= named_starts(before).insert(p as int, it));
            vstd::seq_lib::to_multiset_insert(named_starts(before), p as int, it);
            broadcast use vstd::multiset::group_multiset_axioms;
            assert(named_starts(out@).to_multiset().add(named_starts(rest@).to_multiset())
                =~= named_starts(before).to_multiset().add(rest_old.to_multiset()));
        }
    }
    proof {
        broadcast use vstd::multiset::group_multiset_axioms;
        assert(named_starts(rest@).len() == 0);
        named_starts(rest@).to_multiset_ensures();
        assert(named_starts(rest@).to_multiset() =~= vstd::multiset::Multiset::empty());
        assert(named_starts(out@).to_multiset() =~= total);
    }
    out
}

/// The first animation named `name`, by position.
pub open spec fn spec_lookup_anim(t: Seq<(String, u16, u16)>, name: Seq<char>) -> Option<(u16, u16)> {
    if exists|i: int| 0 <= i < t.len() && t[i].0@ == name {
        let i = choose|i: int| 0 <= i < t.len() && t[i].0@ == name && forall|j: int| 0 <= j < i ==> t[j].0@ != name;
        Some((t[i].1, t[i].2))
    } else {
        None
    }
}

/// The first event at `frame`, by position.
pub open spec fn spec_lookup_event(t: Seq<(u16, String)>, frame: u16) -> Option<Seq<char>> {
    if exists|i: int| 0 <= i < t.len() && t[i].0 == frame {
        let i = choose|i: int| 0 <= i < t.len() && t[i].0 == frame && forall|j: int| 0 <= j < i ==> t[j].0 != frame;
        Some(t[i].1@)
    } else {
        None
    }
}

/// The total length of the animations from position `k` on.
pub open spec fn length_from(t: Seq<(String, u16, u16)>, k: int) -> int
    decreases t.len() - k,
{
    if k < 0 || k >= t.len() {
        0
    } else {
        t[k].2 + length_from(t, k + 1)
    }
}

/// The animations cover the timeline without gaps or overlaps: from the
/// first start on, their lengths add up to the rest of the timeline.
pub proof fn lemma_animations_cover_timeline(t: Seq<(String, u16, u16)>, total_frames: u16, k: int)
    requires
        tiles_timeline(t, total_frames),
        0 <= k < t.len(),
    ensures
        length_from(t, k) == total_frames - t[k].1,
    decreases t.len() - k,
{
    if k + 1 < t.len() {
        lemma_animations_cover_timeline(t, total_frames, k + 1);
    } else {
        assert(t.last() == t[k]);
        assert(length_from(t, k + 1) == 0);
    }
}

impl AnimationTable {
    /// Reads the animations and frame events out of the labels of the main
    /// timeline, in timeline order; the animations come sorted by start
    /// frame, each running until the next one starts and the last one
    /// until frame `total_frames`.
    pub fn from_labels(labels: &Vec<(u16, String)>, total_frames: u16) -> (r: AnimationTable)
        requires
            forall|i: int| 0 <= i < spec_collect(label_seq(labels@)).0.len()
                ==> #[trigger] spec_collect(label_seq(labels@)).0[i].1 <= total_frames,
        ensures
            anim_starts(r.animations@).to_multiset() == spec_collect(label_seq(labels@)).0.to_multiset(),
            tiles_timeline(r.animations@, total_frames),
            event_names(r.frame_events@) == spec_collect(label_seq(labels@)).1,
    {
        let ghost ls = label_seq(labels@);
        let mut starts: Vec<(String, u16)> = Vec::new();
        let mut events: Vec<(u16, String)> = Vec::new();
        let mut i: usize = 0;
        proof {
            assert(ls.subrange(0, 0) =~= Seq::<(u16, Seq<char>)>::empty());
            assert(named_starts(starts@) =~= Seq::<(Seq<char>, u16)>::empty());
            assert(named_events(events@) =~= Seq::<(u16, Seq<char>)>::empty());
        }
        while i < labels.len()
            invariant
                i <= labels@.len(),
                ls == label_seq(labels@),
                (named_starts(starts@), named_events(events@)) == spec_collect(ls.subrange(0, i as int)),
                distinct_names(named_starts(starts@)),
                distinct_frames(named_events(events@)),
            decreases labels@.len() - i,
        {
            let frame = labels[i].0;
            let text = &labels[i].1;
            let ghost prev = spec_collect(ls.subrange(0, i as int));
            proof {
                reveal_strlit("anim_");
                reveal_strlit("event_");
                assert("anim_"@ =~= anim_prefix());
                assert("event_"@ =~= event_prefix());
                assert(ls.subrange(0, i + 1).drop_last() =~= ls.subrange(0, i as int));
                assert(ls.subrange(0, i + 1).last() == (frame, text@));
                assert(ls.subrange(0, i + 1).len() > 0);
            }
            match strip_prefix(text.as_str(), "anim_") {
                Some(name) => {
                    let ghost n = name@;
                    upsert_anim(&mut starts, name, frame);
                    assert(spec_collect(ls.subrange(0, i + 1)) == (spec_upsert_anim(prev.0, n, frame), prev.1));
                },
                None => {
                    match strip_prefix(text.as_str(), "event_") {
                        Some(name) => {
                            let ghost n = name@;
                            upsert_event(&mut events, frame, name);
                            assert(spec_collect(ls.subrange(0, i + 1)) == (prev.0, spec_upsert_event(prev.1, frame, n)));
                        },
                        None => {
                            upsert_anim(&mut starts, text.clone(), frame);
                            assert(spec_collect(ls.subrange(0, i + 1)) == (spec_upsert_anim(prev.0, text@, frame), prev.1));
                        },
                    }
                },
            }
            i += 1;
        }
        proof {
            assert(ls.subrange(0, labels@.len() as int) =~= ls);
        }
        let ghost collected = named_starts(starts@);
        proof {
            assert(collected == spec_collect(label_seq(labels@)).0);
            assert forall|a: int| 0 <= a < collected.len() implies collected[a].1 <= total_frames by {
                assert(spec_collect(label_seq(labels@)).0[a].1 <= total_frames);
            }
        }
        let sorted = sort_by_start(starts);
        let n = sorted.len();
        let mut animations: Vec<(String, u16, u16)> = Vec::new();
        let mut k: usize = 0;
        while k < n
            invariant
                n == sorted@.len(),
                k <= n,
                animations@.len() == k,
                named_starts(sorted@).to_multiset() == collected.to_multiset(),
                forall|a: int| 0 <= a < collected.len() ==> collected[a].1 <= total_frames,
                forall|a: int, b: int| 0 <= a < b < sorted@.len() ==> sorted@[a].1 <= sorted@[b].1,
                forall|a: int| 0 <= a < k ==> animations@[a].0@ == sorted@[a].0@ && animations@[a].1 == sorted@[a].1,
                forall|a: int| 0 <= a < k && a + 1 < n ==> animations@[a].2 == sorted@[a + 1].1 - sorted@[a].1,
                forall|a: int| 0 <= a < k && a + 1 == n ==> animations@[a].2 == total_frames - sorted@[a].1,
            decreases n - k,
        {
            let start = sorted[k].1;
            let len: u16 = if k + 1 < n {
                sorted[k + 1].1 - start
            } else {
                proof {
                    let e = named_starts(sorted@)[k as int];
                    named_starts(sorted@).to_multiset_ensures();
                    collected.to_multiset_ensures();
                    assert(named_starts(sorted@)[k as int] == e);
                    assert(named_starts(sorted@).contains(e));
                    assert(named_starts(sorted@).to_multiset().count(e) > 0);
                    assert(collected.to_multiset().count(e) > 0);
                    assert(collected.contains(e));
                    let w = choose|w: int| 0 <= w < collected.len() && collected[w] == e;
                    assert(collected[w].1 <= total_frames);
                }
                total_frames - start
            };
            animations.push((sorted[k].0.clone(), start, len));
            k += 1;
        }
        proof {
            assert(anim_starts(animations@) =~= named_starts(sorted@));
        }
        AnimationTable { animations, frame_events: events }
    }

    /// The start frame and length of the animation `name`.
    pub fn animation(&self, name: &String) -> (r: Option<(u16, u16)>)
        ensures
            r == spec_lookup_anim(self.animations@, name@),
    {
        let mut i: usize = 0;
        while i < self.animations.len()
            invariant
                i <= self.animations@.len(),
                forall|j: int| 0 <= j < i ==> self.animations@[j].0@ != name@,
            decreases self.animations@.len() - i,
        {
            if self.animations[i].0 == *name {
                proof {
                    let t = self.animations@;
                    let c = choose|c: int| 0 <= c < t.len() && t[c].0@ == name@ && forall|j: int| 0 <= j < c ==> t[j].0@ != name@;
                    assert(0 <= i < t.len() && t[i as int].0@ == name@ && forall|j: int| 0 <= j < i ==> t[j].0@ != name@);
                    if c < i {
                    } else if c > i {
                        assert(t[i as int].0@ != name@);
                    }
                }
                return Some((self.animations[i].1, self.animations[i].2));
            }
            i += 1;
        }
        None
    }

    /// The event fired when frame `frame` is reached, if any.
    pub fn frame_event(&self, frame: u16) -> (r: Option<String>)
        ensures
            match spec_lookup_event(self.frame_events@, frame) {
                Some(n) => r matches Some(s) && s@ == n,
                None => r is None,
            },
    {
        let mut i: usize = 0;
        while i < self.frame_events.len()
            invariant
                i <= self.frame_events@.len(),
                forall|j: int| 0 <= j < i ==> self.frame_events@[j].0 != frame,
            decreases self.frame_events@.len() - i,
        {
            if self.frame_events[i].0 == frame {
                proof {
                    let t = self.frame_events@;
                    let c = choose|c: int| 0 <= c < t.len() && t[c].0 == frame && forall|j: int| 0 <= j < c ==> t[j].0 != frame;
                    assert(0 <= i < t.len() && t[i as int].0 == frame && forall|j: int| 0 <= j < i ==> t[j].0 != frame);
                    if c < i {
                    } else if c > i {
                        assert(t[i as int].0 != frame);
                    }
                }
                return Some(self.frame_events[i].1.clone());
            }
            i += 1;
        }
        None
    }
}

} // verus!

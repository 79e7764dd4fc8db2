//! Place and remove tags that an ActionScript 3 movie defers to the end of
//! a frame, one small queue per depth.

use vstd::prelude::*;

verus! {

/// The kind of a deferred tag; the number is the tag's version.
#[derive(Debug, Clone, Copy, PartialEq, Eq, Structural)]
pub enum QueuedTagAction {
    Place(u8),
    Remove(u8),
}

/// A deferred tag: its kind and where it starts in the clip's tag stream.
#[derive(Debug, Clone, Copy, PartialEq, Eq, Structural)]
pub struct QueuedTag {
    pub tag_type: QueuedTagAction,
    pub tag_start: u64,
}

/// What is pending at one depth: nothing, an add, a remove, or a remove
/// that has to run before an add.
#[derive(Debug, Clone, Copy, PartialEq, Eq, Structural)]
pub enum QueuedTagList {
    Empty,
    Add(QueuedTag),
    Remove(QueuedTag),
    RemoveThenAdd(QueuedTag, QueuedTag),
}

/// The queue after an add is queued.  A second add while one is pending is
/// dropped (the player warns that it failed to place the object).
pub open spec fn spec_queue_add(list: QueuedTagList, tag: QueuedTag) -> QueuedTagList {
    match list {
        QueuedTagList::Empty => QueuedTagList::Add(tag),
        QueuedTagList::Add(existing) => QueuedTagList::Add(existing),
        QueuedTagList::Remove(r) => QueuedTagList::RemoveThenAdd(r, tag),
        QueuedTagList::RemoveThenAdd(r, _) => QueuedTagList::RemoveThenAdd(r, tag),
    }
}

/// The queue after a remove is queued.  A remove cancels a pending add.
pub open spec fn spec_queue_remove(list: QueuedTagList, tag: QueuedTag) -> QueuedTagList {
    match list {
        QueuedTagList::Empty => QueuedTagList::Remove(tag),
        QueuedTagList::Add(_) => QueuedTagList::Empty,
        QueuedTagList::Remove(_) => QueuedTagList::Remove(tag),
        QueuedTagList::RemoveThenAdd(r, _) => QueuedTagList::Remove(r),
    }
}

/// The pending add, if any.
pub open spec fn pending_add(list: QueuedTagList) -> Option<QueuedTag> {
    match list {
        QueuedTagList::Add(a) => Some(a),
        QueuedTagList::RemoveThenAdd(_, a) => Some(a),
        _ => None,
    }
}

/// The pending remove, if any.
pub open spec fn pending_remove(list: QueuedTagList) -> Option<QueuedTag> {
    match list {
        QueuedTagList::Remove(r) => Some(r),
        QueuedTagList::RemoveThenAdd(r, _) => Some(r),
        _ => None,
    }
}

/// The queue with its add taken out.
pub open spec fn without_add(list: QueuedTagList) -> QueuedTagList {
    match list {
        QueuedTagList::Add(_) => QueuedTagList::Empty,
        QueuedTagList::RemoveThenAdd(r, _) => QueuedTagList::Remove(r),
        other => other,
    }
}

/// The queue with its remove taken out.
pub open spec fn without_remove(list: QueuedTagList) -> QueuedTagList {
    match list {
        QueuedTagList::Remove(_) => QueuedTagList::Empty,
        QueuedTagList::RemoveThenAdd(_, a) => QueuedTagList::Add(a),
        other => other,
    }
}

impl QueuedTagList {
    /// Queues a place tag.
    pub fn queue_add(&mut self, add_tag: QueuedTag)
        ensures
            *final(self) == spec_queue_add(*old(self), add_tag),
    {
        let new = match *self {
            QueuedTagList::Empty => QueuedTagList::Add(add_tag),
            QueuedTagList::Add(existing) => QueuedTagList::Add(existing),
            QueuedTagList::Remove(r) => QueuedTagList::RemoveThenAdd(r, add_tag),
            QueuedTagList::RemoveThenAdd(r, _) => QueuedTagList::RemoveThenAdd(r, add_tag),
        };
        *self = new;
    }

    /// Queues a remove tag.
    pub fn queue_remove(&mut self, remove_tag: QueuedTag)
        ensures
            *final(self) == spec_queue_remove(*old(self), remove_tag),
    {
        let new = match *self {
            QueuedTagList::Empty => QueuedTagList::Remove(remove_tag),
            QueuedTagList::Add(_) => QueuedTagList::Empty,
            QueuedTagList::Remove(_) => QueuedTagList::Remove(remove_tag),
            QueuedTagList::RemoveThenAdd(r, _) => QueuedTagList::Remove(r),
        };
        *self = new;
    }

    /// Takes the pending add out of the queue.
    pub fn unqueue_add(&mut self) -> (r: Option<QueuedTag>)
        ensures
            r == pending_add(*old(self)),
            *final(self) == without_add(*old(self)),
    {
        let (new_queue, return_val) = match *self {
            QueuedTagList::Empty => (QueuedTagList::Empty, None),
            QueuedTagList::Add(a) => (QueuedTagList::Empty, Some(a)),
            QueuedTagList::Remove(r) => (QueuedTagList::Remove(r), None),
            QueuedTagList::RemoveThenAdd(r, a) => (QueuedTagList::Remove(r), Some(a)),
        };
        *self = new_queue;
        return_val
    }

    /// Takes the pending remove out of the queue.
    pub fn unqueue_remove(&mut self) -> (r: Option<QueuedTag>)
        ensures
            r == pending_remove(*old(self)),
            *final(self) == without_remove(*old(self)),
    {
        let (new_queue, return_val) = match *self {
            QueuedTagList::Empty => (QueuedTagList::Empty, None),
            QueuedTagList::Add(a) => (QueuedTagList::Add(a), None),
            QueuedTagList::Remove(r) => (QueuedTagList::Empty, Some(r)),
            QueuedTagList::RemoveThenAdd(r, a) => (QueuedTagList::Add(a), Some(r)),
        };
        *self = new_queue;
        return_val
    }

    /// Whether nothing is pending.
    pub fn is_none(&self) -> (r: bool)
        ensures
            r == (*self == QueuedTagList::Empty),
    {
        match self {
            QueuedTagList::Empty => true,
            _ => false,
        }
    }
}

/// An add queued where no add is pending is the one that a later unqueue
/// of adds hands back, and the queue returns to what it held before.
pub proof fn lemma_queued_add_comes_back(list: QueuedTagList, tag: QueuedTag)
    requires
        pending_add(list) is None,
    ensures
        pending_add(spec_queue_add(list, tag)) == Some(tag),
        without_add(spec_queue_add(list, tag)) == list,
{
}

/// A remove queued after an add on an empty queue cancels the add: nothing
/// is left to run.
pub proof fn lemma_remove_cancels_add(add_tag: QueuedTag, remove_tag: QueuedTag)
    ensures
        spec_queue_remove(spec_queue_add(QueuedTagList::Empty, add_tag), remove_tag)
            == QueuedTagList::Empty,
{
}

/// A remove is never lost by queueing: after a remove is queued, a remove is
/// pending, and a later add keeps that remove in front of it.
pub proof fn lemma_remove_stays_before_add(list: QueuedTagList, r: QueuedTag, a: QueuedTag)
    requires
        !(list is Add),
    ensures
        pending_remove(spec_queue_remove(list, r)) is Some,
        pending_remove(spec_queue_add(spec_queue_remove(list, r), a))
            == pending_remove(spec_queue_remove(list, r)),
        pending_add(spec_queue_add(spec_queue_remove(list, r), a)) == Some(a),
{
}

/// Taking out the removes and then the adds empties any queue, and hands
/// out each pending tag exactly once.
pub proof fn lemma_drain_empties(list: QueuedTagList)
    ensures
        without_add(without_remove(list)) == QueuedTagList::Empty,
        pending_add(without_remove(list)) == pending_add(list),
        pending_remove(without_add(list)) == pending_remove(list),
        pending_remove(without_remove(list)) is None,
        pending_add(without_add(list)) is None,
{
}

} // verus!

//! Undo/redo history of editor snapshots.
//!
//! Before each edit the editor records a snapshot of the whole scene. Undo
//! hands back the latest snapshot and keeps the current state for redo;
//! redo does the reverse. The undo stack keeps at most `max_undo` snapshots,
//! dropping the oldest.
use vstd::prelude::*;

verus! {

/// The abstract content of an [`UndoHistory`]: both stacks, oldest first,
/// and the capacity.
pub struct UndoView<S> {
    pub undo: Seq<S>,
    pub redo: Seq<S>,
    pub max_undo: nat,
}

/// Undo/redo stacks of snapshots of type `S`.
#[derive(Debug)]
pub struct UndoHistory<S> {
    undo_stack: Vec<S>,
    redo_stack: Vec<S>,
    max_undo: usize,
}

impl<S> View for UndoHistory<S> {
    type V = UndoView<S>;

    closed spec fn view(&self) -> UndoView<S> {
        UndoView { undo: self.undo_stack@, redo: self.redo_stack@, max_undo: self.max_undo as nat }
    }
}

/// `stack` with `s` pushed, dropping the oldest entry when that makes it
/// longer than `max`.
pub open spec fn push_bounded<S>(stack: Seq<S>, s: S, max: nat) -> Seq<S> {
    let pushed = stack.push(s);
    if pushed.len() > max {
        pushed.subrange(1, pushed.len() as int)
    } else {
        pushed
    }
}

/// The history after recording a snapshot: it goes on the undo stack
/// (bounded), and the redo stack is emptied.
pub open spec fn spec_record<S>(h: UndoView<S>, s: S) -> UndoView<S> {
    UndoView { undo: push_bounded(h.undo, s, h.max_undo), redo: Seq::empty(), max_undo: h.max_undo }
}

/// The history after an undo from the state `current`, and the snapshot to
/// restore; an empty undo stack leaves everything as it was.
pub open spec fn spec_undo<S>(h: UndoView<S>, current: S) -> (UndoView<S>, Option<S>) {
    if h.undo.len() == 0 {
        (h, None)
    } else {
        (
            UndoView { undo: h.undo.drop_last(), redo: h.redo.push(current), max_undo: h.max_undo },
            Some(h.undo.last()),
        )
    }
}

/// The history after a redo from the state `current`, and the snapshot to
/// restore; an empty redo stack leaves everything as it was.
pub open spec fn spec_redo<S>(h: UndoView<S>, current: S) -> (UndoView<S>, Option<S>) {
    if h.redo.len() == 0 {
        (h, None)
    } else {
        (
            UndoView { undo: h.undo.push(current), redo: h.redo.drop_last(), max_undo: h.max_undo },
            Some(h.redo.last()),
        )
    }
}

/// Together the two stacks hold no more snapshots than the capacity.
pub open spec fn within_capacity<S>(h: UndoView<S>) -> bool {
    h.undo.len() + h.redo.len() <= h.max_undo
}

impl<S> UndoHistory<S> {
    /// An empty history keeping at most `max_undo` undo steps.
    pub fn new(max_undo: usize) -> (h: Self)
        ensures
            h@.undo == Seq::<S>::empty(),
            h@.redo == Seq::<S>::empty(),
            h@.max_undo == max_undo,
    {
        UndoHistory { undo_stack: Vec::new(), redo_stack: Vec::new(), max_undo }
    }

    /// Record the snapshot taken before an edit.
    pub fn record(&mut self, snapshot: S)
        ensures
            final(self)@ == spec_record(old(self)@, snapshot),
    {
        self.undo_stack.push(snapshot);
        if self.undo_stack.len() > self.max_undo {
            self.undo_stack.remove(0);
        }
        self.redo_stack.clear();
        proof {
            let pushed = old(self)@.undo.push(snapshot);
            if pushed.len() > old(self)@.max_undo {
                assert(self.undo_stack@ =~= pushed.subrange(1, pushed.len() as int));
            }
        }
    }

    /// Step back: returns the snapshot to restore, keeping `current` (the
    /// snapshot of the state being left) for redo; `None` when there is
    /// nothing to undo.
    pub fn undo(&mut self, current: S) -> (restored: Option<S>)
        ensures
            (final(self)@, restored) == spec_undo(old(self)@, current),
    {
        match self.undo_stack.pop() {
            None => None,
            Some(state) => {
                self.redo_stack.push(current);
                Some(state)
            },
        }
    }

    /// Step forward again: returns the snapshot to restore, keeping `current`
    /// for undo; `None` when there is nothing to redo.
    pub fn redo(&mut self, current: S) -> (restored: Option<S>)
        ensures
            (final(self)@, restored) == spec_redo(old(self)@, current),
    {
        match self.redo_stack.pop() {
            None => None,
            Some(state) => {
                self.undo_stack.push(current);
                Some(state)
            },
        }
    }

    /// Number of steps that can be undone.
    pub fn undo_len(&self) -> (n: usize)
        ensures
            n == self@.undo.len(),
    {
        self.undo_stack.len()
    }

    /// Number of steps that can be redone.
    pub fn redo_len(&self) -> (n: usize)
        ensures
            n == self@.redo.len(),
    {
        self.redo_stack.len()
    }

    /// The capacity of the undo stack.
    pub fn max_undo(&self) -> (n: usize)
        ensures
            n == self@.max_undo,
    {
        self.max_undo
    }
}

/// Undoing right after recording hands back the recorded snapshot; redoing
/// right after that hands back the state that was undone.
pub proof fn law_undo_restores_recorded<S>(h: UndoView<S>, before: S, after: S, again: S)
    requires
        h.max_undo > 0,
    ensures
        spec_undo(spec_record(h, before), after).1 == Some(before),
        spec_redo(spec_undo(spec_record(h, before), after).0, again).1 == Some(after),
{
    let r = spec_record(h, before);
    assert(r.undo.len() > 0);
    assert(r.undo.last() == before);
}

/// An undo followed by a redo that hands back the undone snapshot leaves
/// both stacks as they were.
pub proof fn law_undo_then_redo_is_identity<S>(h: UndoView<S>, current: S)
    requires
        h.undo.len() > 0,
    ensures
        spec_redo(spec_undo(h, current).0, h.undo.last()).0 == h,
        spec_redo(spec_undo(h, current).0, h.undo.last()).1 == Some(current),
{
    let u = spec_undo(h, current).0;
    assert(u.redo.drop_last() =~= h.redo);
    assert(u.undo.push(h.undo.last()) =~= h.undo);
}

/// A redo followed by an undo that hands back the redone snapshot leaves
/// both stacks as they were.
pub proof fn law_redo_then_undo_is_identity<S>(h: UndoView<S>, current: S)
    requires
        h.redo.len() > 0,
    ensures
        spec_undo(spec_redo(h, current).0, h.redo.last()).0 == h,
        spec_undo(spec_redo(h, current).0, h.redo.last()).1 == Some(current),
{
    let r = spec_redo(h, current).0;
    assert(r.undo.drop_last() =~= h.undo);
    assert(r.redo.push(h.redo.last()) =~= h.redo);
}

/// A new edit forgets every redo step.
pub proof fn law_record_clears_redo<S>(h: UndoView<S>, s: S)
    ensures
        spec_record(h, s).redo.len() == 0,
        spec_redo(spec_record(h, s), s).1 is None,
{
}

/// Recording, undoing and redoing never make the history hold more
/// snapshots than its capacity.
pub proof fn law_history_within_capacity<S>(h: UndoView<S>, s: S)
    requires
        within_capacity(h),
    ensures
        within_capacity(spec_record(h, s)),
        within_capacity(spec_undo(h, s).0),
        within_capacity(spec_redo(h, s).0),
        spec_record(h, s).undo.len() <= h.max_undo,
{
}

} // verus!

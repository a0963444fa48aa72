//! Buffer of changes with undo/redo support.
use crate::changes::{model_wf, real_changes, spec_redo, spec_set, spec_undo, ByteChange, ChangeList, ChangeListModel};
use std::collections::BTreeMap;
use vstd::prelude::*;

verus! {

/// Single change.
#[derive(Copy, Clone, PartialEq, Eq, Structural, Debug)]
pub struct Change {
    pub offset: u64,
    pub old: u8,
    pub new: u8,
}

/// Buffer of changes with undo/redo support.
pub struct Buffer {
    /// Recorded changes and the undo/redo position.
    list: ChangeList,
}

impl View for Buffer {
    type V = ChangeListModel;

    closed spec fn view(&self) -> ChangeListModel {
        self.list@
    }
}

/// The change record described by a byte change.
pub open spec fn to_change(c: ByteChange) -> Change {
    Change { offset: c.offset, old: c.old, new: c.new }
}

impl Buffer {
    /// Create new instance.
    pub fn new() -> (r: Self)
        ensures
            r@.changes == Seq::<ByteChange>::empty(),
            r@.index == 0,
    {
        Buffer { list: ChangeList::new() }
    }

    /// Reset buffer state.
    pub fn reset(&mut self)
        ensures
            final(self)@.changes == Seq::<ByteChange>::empty(),
            final(self)@.index == 0,
    {
        self.list.reset();
    }

    /// Add single change.
    pub fn add(&mut self, offset: u64, origin: u8, value: u8)
        ensures
            model_wf(old(self)@),
            final(self)@ == spec_set(old(self)@, offset, origin, value),
            model_wf(final(self)@),
    {
        self.list.set(offset, origin, value);
    }

    /// Get map of actual changes: offset -> value.
    pub fn get(&self) -> (r: BTreeMap<u64, u8>)
        ensures
            model_wf(self@),
            r@ == real_changes(self@.changes.take(self@.index as int)),
    {
        self.list.get()
    }

    /// Undo the last change, returns it.
    pub fn undo(&mut self) -> (r: Option<Change>)
        ensures
            model_wf(old(self)@),
            final(self)@ == spec_undo(old(self)@),
            model_wf(final(self)@),
            r == (if old(self)@.index == 0 {
                None
            } else {
                Some(to_change(old(self)@.changes[old(self)@.index - 1]))
            }),
    {
        match self.list.undo() {
            Some(c) => Some(Change { offset: c.offset, old: c.old, new: c.new }),
            None => None,
        }
    }

    /// Redo the next change, returns it.
    pub fn redo(&mut self) -> (r: Option<Change>)
        ensures
            model_wf(old(self)@),
            final(self)@ == spec_redo(old(self)@),
            model_wf(final(self)@),
            r == (if old(self)@.index >= old(self)@.changes.len() {
                None
            } else {
                Some(to_change(old(self)@.changes[old(self)@.index as int]))
            }),
    {
        match self.list.redo() {
            Some(c) => Some(Change { offset: c.offset, old: c.old, new: c.new }),
            None => None,
        }
    }
}

} // verus!

//! Undo/redo list of single byte modifications.
use std::collections::BTreeMap;
use vstd::prelude::*;

verus! {

/// Modification of single byte.
#[derive(Copy, Clone, PartialEq, Eq, Structural, Debug)]
pub struct ByteChange {
    pub offset: u64,
    pub old: u8,
    pub new: u8,
}

/// Abstract state of a change list: the recorded changes and the number of
/// them that are currently applied.
pub struct ChangeListModel {
    pub changes: Seq<ByteChange>,
    pub index: nat,
}

/// `true` if some change of `s` touches `offset`.
pub open spec fn touched(s: Seq<ByteChange>, offset: u64) -> bool
    decreases s.len(),
{
    if s.len() == 0 {
        false
    } else {
        s.last().offset == offset || touched(s.drop_last(), offset)
    }
}

/// Value of the byte before the first change of `s` at `offset`.
pub open spec fn first_old(s: Seq<ByteChange>, offset: u64) -> u8
    decreases s.len(),
{
    if s.len() == 0 {
        0
    } else if touched(s.drop_last(), offset) {
        first_old(s.drop_last(), offset)
    } else {
        s.last().old
    }
}

/// Value written by the last change of `s` at `offset`.
pub open spec fn last_new(s: Seq<ByteChange>, offset: u64) -> u8
    decreases s.len(),
{
    if s.len() == 0 {
        0
    } else if s.last().offset == offset {
        s.last().new
    } else {
        last_new(s.drop_last(), offset)
    }
}

/// Real changes made by the sequence `s`: every touched offset whose final
/// value differs from its origin, mapped to the final value.
pub open spec fn real_changes(s: Seq<ByteChange>) -> Map<u64, u8> {
    Map::new(
        |o: u64| touched(s, o) && last_new(s, o) != first_old(s, o),
        |o: u64| last_new(s, o),
    )
}

/// Model after `set(offset, old, new)`: the changes that were undone are
/// dropped; a change at the offset of the last applied change only replaces
/// its new value, any other change is appended and applied.
pub open spec fn spec_set(m: ChangeListModel, offset: u64, old: u8, new: u8) -> ChangeListModel {
    if m.index == m.changes.len() && m.changes.len() > 0 && m.changes.last().offset == offset {
        ChangeListModel {
            changes: m.changes.update(
                m.changes.len() - 1,
                ByteChange { offset, old: m.changes.last().old, new },
            ),
            index: m.index,
        }
    } else {
        let kept = m.changes.take(m.index as int);
        ChangeListModel { changes: kept.push(ByteChange { offset, old, new }), index: kept.len() + 1 }
    }
}

/// Model after `undo()`.
pub open spec fn spec_undo(m: ChangeListModel) -> ChangeListModel {
    if m.index == 0 {
        m
    } else {
        ChangeListModel { changes: m.changes, index: (m.index - 1) as nat }
    }
}

/// Model after `redo()`.
pub open spec fn spec_redo(m: ChangeListModel) -> ChangeListModel {
    if m.index >= m.changes.len() {
        m
    } else {
        ChangeListModel { changes: m.changes, index: m.index + 1 }
    }
}

/// List of bytes modifications.
pub struct ChangeList {
    /// List of changes.
    changes: Vec<ByteChange>,
    /// Current position in the queue.
    index: usize,
}

impl View for ChangeList {
    type V = ChangeListModel;

    closed spec fn view(&self) -> ChangeListModel {
        ChangeListModel { changes: self.changes@, index: self.index as nat }
    }
}

impl ChangeList {
    #[verifier::type_invariant]
    spec fn inv(self) -> bool {
        self.index <= self.changes.len()
    }

    /// Create an empty list.
    pub fn new() -> (r: Self)
        ensures
            r@.changes == Seq::<ByteChange>::empty(),
            r@.index == 0,
    {
        ChangeList { changes: Vec::new(), index: 0 }
    }

    /// Make change: set new value for the byte at specified position.
    ///
    /// Changes that were undone are dropped. A change at the same offset as
    /// the last applied one only replaces the new value of that record.
    pub fn set(&mut self, offset: u64, origin: u8, value: u8)
        ensures
            model_wf(old(self)@),
            final(self)@ == spec_set(old(self)@, offset, origin, value),
            model_wf(final(self)@),
    {
        proof {
            use_type_invariant(&*self);
        }
        let len = self.changes.len();
        if len > 0 && self.index == len && self.changes[len - 1].offset == offset {
            let last = self.changes[len - 1];
            let mut taken = ChangeList::new();
            std::mem::swap(&mut taken, self);
            let ChangeList { mut changes, index } = taken;
            changes.set(len - 1, ByteChange { offset, old: last.old, new: value });
            *self = ChangeList { changes, index };
            return;
        }
        let mut taken = ChangeList::new();
        std::mem::swap(&mut taken, self);
        let ChangeList { mut changes, index } = taken;
        changes.truncate(index);
        changes.push(ByteChange { offset, old: origin, new: value });
        let index = changes.len();
        *self = ChangeList { changes, index };
    }

    /// Get the map of real changes: offset -> value.
    pub fn get(&self) -> (r: BTreeMap<u64, u8>)
        ensures
            model_wf(self@),
            r@ == real_changes(self@.changes.take(self@.index as int)),
    {
        proof {
            use_type_invariant(self);
        }
        let ghost applied = self.changes@.take(self.index as int);
        let mut actual: BTreeMap<u64, u8> = BTreeMap::new();
        let mut origins: BTreeMap<u64, u8> = BTreeMap::new();
        let mut i: usize = 0;
        while i < self.index
            invariant
                self.index <= self.changes.len(),
                applied == self.changes@.take(self.index as int),
                i <= self.index,
                forall|o: u64|
                    #![trigger origins@.contains_key(o)]
                    origins@.contains_key(o) == touched(applied.take(i as int), o),
                forall|o: u64|
                    #![trigger actual@.contains_key(o)]
                    actual@.contains_key(o) == touched(applied.take(i as int), o),
                forall|o: u64|
                    origins@.contains_key(o) ==> origins@[o] == first_old(
                        applied.take(i as int),
                        o,
                    ),
                forall|o: u64|
                    actual@.contains_key(o) ==> actual@[o] == last_new(applied.take(i as int), o),
            decreases self.index - i,
        {
            let change = self.changes[i];
            proof {
                assert(applied.take(i + 1).drop_last() =~= applied.take(i as int));
                assert(applied.take(i + 1).last() == change);
            }
            if !origins.contains_key(&change.offset) {
                origins.insert(change.offset, change.old);
            }
            actual.insert(change.offset, change.new);
            i = i + 1;
        }
        assert(applied.take(i as int) =~= applied);
        // remove changes that restore origin values
        let mut j: usize = 0;
        while j < self.index
            invariant
                self.index <= self.changes.len(),
                applied == self.changes@.take(self.index as int),
                applied.len() == self.index,
                j <= self.index,
                forall|o: u64|
                    #![trigger origins@.contains_key(o)]
                    origins@.contains_key(o) == touched(applied, o),
                forall|o: u64|
                    origins@.contains_key(o) ==> origins@[o] == first_old(applied, o),
                forall|o: u64|
                    #![trigger actual@.contains_key(o)]
                    actual@.contains_key(o) == (touched(applied, o) && (last_new(applied, o)
                        != first_old(applied, o) || !(exists|k: int|
                        0 <= k < j && #[trigger] applied[k].offset == o))),
                forall|o: u64| actual@.contains_key(o) ==> actual@[o] == last_new(applied, o),
            decreases self.index - j,
        {
            let offset = self.changes[j].offset;
            assert(applied[j as int].offset == offset);
            proof {
                lemma_touched_index(applied, j as int);
            }
            let origin = *origins.get(&offset).unwrap();
            let restore = match actual.get(&offset) {
                Some(v) => *v == origin,
                None => false,
            };
            if restore {
                actual.remove(&offset);
            }
            proof {
                assert forall|o: u64| #[trigger]
                    actual@.contains_key(o) == (touched(applied, o) && (last_new(applied, o)
                        != first_old(applied, o) || !(exists|k: int|
                        0 <= k < j + 1 && #[trigger] applied[k].offset == o))) by {
                    if o != offset {
                        if exists|k: int| 0 <= k < j + 1 && #[trigger] applied[k].offset == o {
                            let k = choose|k: int|
                                0 <= k < j + 1 && #[trigger] applied[k].offset == o;
                            assert(k != j);
                        }
                    } else {
                        assert(applied[j as int].offset == o);
                    }
                }
            }
            j = j + 1;
        }
        proof {
            assert forall|o: u64| touched(applied, o) implies (exists|k: int|
                0 <= k < j && #[trigger] applied[k].offset == o) by {
                lemma_touched_exists(applied, o);
            }
            assert(actual@ =~= real_changes(applied));
        }
        actual
    }

    /// Undo the last change, returns the undone change.
    pub fn undo(&mut self) -> (r: Option<ByteChange>)
        ensures
            model_wf(old(self)@),
            final(self)@ == spec_undo(old(self)@),
            model_wf(final(self)@),
            r == (if old(self)@.index == 0 {
                None
            } else {
                Some(old(self)@.changes[old(self)@.index - 1])
            }),
    {
        proof {
            use_type_invariant(&*self);
        }
        if self.changes.len() == 0 || self.index == 0 {
            None
        } else {
            self.index = self.index - 1;
            Some(self.changes[self.index])
        }
    }

    /// Redo the next change, returns the applied change.
    pub fn redo(&mut self) -> (r: Option<ByteChange>)
        ensures
            model_wf(old(self)@),
            final(self)@ == spec_redo(old(self)@),
            model_wf(final(self)@),
            r == (if old(self)@.index >= old(self)@.changes.len() {
                None
            } else {
                Some(old(self)@.changes[old(self)@.index as int])
            }),
    {
        proof {
            use_type_invariant(&*self);
        }
        if self.changes.len() == 0 || self.index == self.changes.len() {
            None
        } else {
            self.index = self.index + 1;
            Some(self.changes[self.index - 1])
        }
    }

    /// Reset changes.
    pub fn reset(&mut self)
        ensures
            final(self)@.changes == Seq::<ByteChange>::empty(),
            final(self)@.index == 0,
    {
        *self = ChangeList::new();
    }

    /// Value of the byte at `offset` after the applied changes, if any
    /// applied change touches it.
    pub fn last(&self, offset: u64) -> (r: Option<u8>)
        ensures
            model_wf(self@),
            r == (if touched(self@.changes.take(self@.index as int), offset) {
                Some(last_new(self@.changes.take(self@.index as int), offset))
            } else {
                None
            }),
    {
        proof {
            use_type_invariant(self);
        }
        let ghost applied = self.changes@.take(self.index as int);
        let mut i: usize = self.index;
        while i > 0
            invariant
                i <= self.index <= self.changes.len(),
                applied == self.changes@.take(self.index as int),
                forall|k: int| i <= k < self.index ==> applied[k].offset != offset,
            decreases i,
        {
            let change = self.changes[i - 1];
            if change.offset == offset {
                proof {
                    lemma_last_new_suffix(applied, i as int, offset);
                }
                return Some(change.new);
            }
            i = i - 1;
        }
        proof {
            lemma_untouched(applied, offset);
        }
        None
    }
}

impl Default for ChangeList {
    fn default() -> (r: Self)
        ensures
            r@.changes == Seq::<ByteChange>::empty(),
            r@.index == 0,
    {
        ChangeList::new()
    }
}

/// An offset at some position of `s` is touched by `s`.
pub proof fn lemma_touched_index(s: Seq<ByteChange>, k: int)
    requires
        0 <= k < s.len(),
    ensures
        touched(s, s[k].offset),
    decreases s.len(),
{
    if k < s.len() - 1 {
        lemma_touched_index(s.drop_last(), k);
    }
}

/// An offset touched by `s` occurs at some position of `s`.
pub proof fn lemma_touched_exists(s: Seq<ByteChange>, o: u64)
    requires
        touched(s, o),
    ensures
        exists|k: int| 0 <= k < s.len() && #[trigger] s[k].offset == o,
    decreases s.len(),
{
    if s.last().offset == o {
        assert(s[s.len() - 1].offset == o);
    } else {
        lemma_touched_exists(s.drop_last(), o);
        let k = choose|k: int| 0 <= k < s.drop_last().len() && #[trigger] s.drop_last()[k].offset == o;
        assert(s[k].offset == o);
    }
}

/// An offset that no position of `s` holds is not touched.
proof fn lemma_untouched(s: Seq<ByteChange>, o: u64)
    requires
        forall|k: int| 0 <= k < s.len() ==> s[k].offset != o,
    ensures
        !touched(s, o),
    decreases s.len(),
{
    if s.len() > 0 {
        lemma_untouched(s.drop_last(), o);
    }
}

/// The last change at `offset` in `s` is at position `i - 1` when no later
/// position holds `offset`.
proof fn lemma_last_new_suffix(s: Seq<ByteChange>, i: int, offset: u64)
    requires
        0 < i <= s.len(),
        s[i - 1].offset == offset,
        forall|k: int| i <= k < s.len() ==> s[k].offset != offset,
    ensures
        touched(s, offset),
        last_new(s, offset) == s[i - 1].new,
    decreases s.len(),
{
    lemma_touched_index(s, i - 1);
    if i < s.len() {
        lemma_last_new_suffix(s.drop_last(), i, offset);
    }
}

/// A well formed model never applies more changes than it records.
pub open spec fn model_wf(m: ChangeListModel) -> bool {
    m.index <= m.changes.len()
}

/// A new change drops every undone change: nothing is left to redo.
pub proof fn law_set_drops_redo(m: ChangeListModel, offset: u64, origin: u8, value: u8)
    requires
        model_wf(m),
    ensures
        spec_set(m, offset, origin, value).index == spec_set(m, offset, origin, value).changes.len(),
        spec_redo(spec_set(m, offset, origin, value)) == spec_set(m, offset, origin, value),
{
}

/// A new change sets the byte at its offset to the new value, or clears the
/// change there when the new value equals the byte's origin (the old value of
/// the first applied change at that offset, else the given old value); the
/// other offsets keep their state.
pub proof fn law_set_real_changes(m: ChangeListModel, offset: u64, origin: u8, value: u8)
    requires
        model_wf(m),
    ensures
        ({
            let before = m.changes.take(m.index as int);
            let after = spec_set(m, offset, origin, value);
            let first = if touched(before, offset) {
                first_old(before, offset)
            } else {
                origin
            };
            real_changes(after.changes.take(after.index as int)) == if value == first {
                real_changes(before).remove(offset)
            } else {
                real_changes(before).insert(offset, value)
            }
        }),
{
    let before = m.changes.take(m.index as int);
    let after = spec_set(m, offset, origin, value);
    if m.index == m.changes.len() && m.changes.len() > 0 && m.changes.last().offset == offset {
        let s = m.changes.drop_last();
        let c = ByteChange { offset, old: m.changes.last().old, new: value };
        assert(before =~= m.changes);
        assert(after.changes.take(after.index as int) =~= s.push(c));
        assert(m.changes =~= s.push(m.changes.last()));
        assert(s.push(m.changes.last()).drop_last() =~= s);
        assert(s.push(c).drop_last() =~= s);
        law_real_changes_push(s, c);
        law_real_changes_push(s, m.changes.last());
        let t = s.push(m.changes.last());
        let o2 = if touched(s, offset) { first_old(s, offset) } else { c.old };
        assert(touched(t, offset));
        assert(first_old(t, offset) == o2);
        // the merged change hides the value written by the last one
        assert(real_changes(s.push(c)) =~= (if value == o2 {
            real_changes(t).remove(offset)
        } else {
            real_changes(t).insert(offset, value)
        }));
    } else {
        let c = ByteChange { offset, old: origin, new: value };
        assert(after.changes.take(after.index as int) =~= before.push(c));
        law_real_changes_push(before, c);
    }
}

/// Undo steps back over the last applied change and redo applies the next
/// one again, each keeping the recorded changes; with nothing to undo (or
/// to redo) the list stays as it is.
pub proof fn law_undo_redo_steps(m: ChangeListModel)
    requires
        model_wf(m),
    ensures
        spec_undo(m).changes == m.changes,
        spec_redo(m).changes == m.changes,
        m.index > 0 ==> spec_undo(m).index == m.index - 1,
        m.index == 0 ==> spec_undo(m) == m,
        m.index < m.changes.len() ==> spec_redo(m).index == m.index + 1,
        m.index == m.changes.len() ==> spec_redo(m) == m,
{
}

/// Undoing a change and redoing it gives back the same list.
pub proof fn law_undo_then_redo(m: ChangeListModel)
    requires
        model_wf(m),
        m.index > 0,
    ensures
        spec_redo(spec_undo(m)) == m,
{
}

/// Redoing a change and undoing it gives back the same list.
pub proof fn law_redo_then_undo(m: ChangeListModel)
    requires
        model_wf(m),
        m.index < m.changes.len(),
    ensures
        spec_undo(spec_redo(m)) == m,
{
}

/// Every operation keeps the model well formed.
pub proof fn law_operations_keep_wf(m: ChangeListModel, offset: u64, origin: u8, value: u8)
    requires
        model_wf(m),
    ensures
        model_wf(spec_set(m, offset, origin, value)),
        model_wf(spec_undo(m)),
        model_wf(spec_redo(m)),
{
}

/// After undoing every change nothing is changed.
pub proof fn law_nothing_applied(s: Seq<ByteChange>)
    ensures
        real_changes(s.take(0)) == Map::<u64, u8>::empty(),
{
    assert(real_changes(s.take(0)) =~= Map::<u64, u8>::empty());
}

/// Applying one more change: its offset maps to its new value unless the
/// value equals the origin of the byte, in which case the offset is no
/// longer changed; all other offsets keep their state.
pub proof fn law_real_changes_push(s: Seq<ByteChange>, c: ByteChange)
    ensures
        ({
            let origin = if touched(s, c.offset) {
                first_old(s, c.offset)
            } else {
                c.old
            };
            real_changes(s.push(c)) == if c.new == origin {
                real_changes(s).remove(c.offset)
            } else {
                real_changes(s).insert(c.offset, c.new)
            }
        }),
{
    let t = s.push(c);
    assert(t.drop_last() =~= s);
    let origin = if touched(s, c.offset) {
        first_old(s, c.offset)
    } else {
        c.old
    };
    if c.new == origin {
        assert(real_changes(t) =~= real_changes(s).remove(c.offset));
    } else {
        assert(real_changes(t) =~= real_changes(s).insert(c.offset, c.new));
    }
}

} // verus!

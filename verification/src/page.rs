//! Page of displayed data: the bytes of the visible part of a file and the
//! addresses of the changed ones.
use std::collections::{BTreeMap, BTreeSet};
use vstd::std_specs::iter::IteratorSpec;
use vstd::prelude::*;

verus! {

broadcast use {vstd::std_specs::btree::group_btree_axioms, vstd::laws_cmp::group_laws_cmp};

/// Page data.
pub struct Page {
    /// Page start address.
    pub offset: u64,
    /// Number of lines per page.
    pub lines: usize,
    /// Number of bytes per line.
    pub columns: usize,
    /// Raw data to display.
    pub data: Vec<u8>,
    /// Byte states (changed, diff, etc).
    pub state: Vec<u8>,
    /// Addresses of changed bytes.
    pub changed: BTreeSet<u64>,
}

impl Page {
    /// Create new instance: no page shown yet.
    pub fn new() -> (r: Self)
        ensures
            r.offset == u64::MAX,
            r.lines == 0,
            r.columns == 0,
            r.data@.len() == 0,
            r.state@.len() == 0,
            r.changed@ == Set::<u64>::empty(),
    {
        Page {
            offset: u64::MAX,
            lines: 0,
            columns: 0,
            data: Vec::new(),
            state: Vec::new(),
            changed: BTreeSet::new(),
        }
    }

    /// Byte at the address `offset` (at or past the page start), if the page
    /// holds it.
    pub fn get_data(&self, offset: u64) -> (r: Option<&u8>)
        requires
            offset >= self.offset,
        ensures
            r == (if offset - self.offset < self.data@.len() {
                Some(&self.data@[offset - self.offset])
            } else {
                None::<&u8>
            }),
    {
        let index = offset - self.offset;
        if index < self.data.len() as u64 {
            Some(&self.data[index as usize])
        } else {
            None
        }
    }

    /// Update page with changed data: the changed addresses are those of
    /// the changes.
    pub fn update(&mut self, changes: &BTreeMap<u64, u8>)
        ensures
            final(self).changed@ == changes@.dom(),
            final(self).offset == old(self).offset,
            final(self).lines == old(self).lines,
            final(self).columns == old(self).columns,
            final(self).data == old(self).data,
            final(self).state == old(self).state,
    {
        let mut changed: BTreeSet<u64> = BTreeSet::new();
        let keys = changes.keys();
        let ghost all = IteratorSpec::remaining(&keys);
        assert(all.unref().to_set() == changes@.dom());
        for k in it: keys
            invariant
                all == it.seq(),
                changed@ == it.seq().take(it.index() as int).unref().to_set(),
        {
            let ghost t = it.seq().take(it.index() as int).unref();
            proof {
                assert(it.seq().take(it.index() + 1).unref() =~= t.push(*k));
                assert forall|x: u64| #[trigger] t.push(*k).contains(x) == t.to_set().insert(*k).contains(x) by {
                    if t.push(*k).contains(x) && x != *k {
                        let w = choose|w: int| 0 <= w < t.push(*k).len() && t.push(*k)[w] == x;
                        assert(t[w] == x);
                    }
                    if t.contains(x) {
                        let w = choose|w: int| 0 <= w < t.len() && t[w] == x;
                        assert(t.push(*k)[w] == x);
                    }
                    if x == *k {
                        assert(t.push(*k)[t.len() as int] == x);
                    }
                }
                assert(t.push(*k).to_set() =~= t.to_set().insert(*k));
            }
            changed.insert(*k);
        }
        assert(all.take(all.len() as int) =~= all);
        self.changed = changed;
    }
}

} // verus!

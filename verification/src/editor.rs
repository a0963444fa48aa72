//! Editor logic over the open documents: focus switching, byte changes,
//! filling, the closest change, the layout of the views and the markers of
//! differing bytes.
use crate::changes::{last_new, model_wf, spec_set, touched, ByteChange, ChangeList, ChangeListModel};
use crate::cursor::{align_down, move_ok, spec_move, Cursor, Direction, Place};
use crate::view::HexView;
use std::collections::{BTreeMap, BTreeSet};
use vstd::prelude::*;
use vstd::std_specs::iter::IteratorSpec;

verus! {

broadcast use {vstd::std_specs::btree::group_btree_axioms, vstd::laws_cmp::group_laws_cmp};

/// Focus switch direction.
#[derive(Clone, Copy, PartialEq, Eq, Structural, Debug)]
pub enum Focus {
    NextField,
    PreviousField,
    NextDocument,
    PreviousDocument,
    DocumentIndex(usize),
}

/// Focused document and place after switching the focus: fields go
/// current hex -> current ascii -> next hex -> next ascii (the ASCII field
/// only where it is shown); the place, when it changes, changes for every
/// document.
pub open spec fn spec_switch_focus(dir: Focus, current: int, count: int, place: Place, has_ascii: bool) -> (int, Place) {
    match dir {
        Focus::NextField => if place == Place::Hex && has_ascii {
            (current, Place::Ascii)
        } else {
            (if current + 1 == count {
                0
            } else {
                current + 1
            }, Place::Hex)
        },
        Focus::PreviousField => if place == Place::Ascii {
            (current, Place::Hex)
        } else {
            (if current > 0 {
                current - 1
            } else {
                count - 1
            }, if has_ascii {
                Place::Ascii
            } else {
                place
            })
        },
        Focus::NextDocument => (if current + 1 < count {
            current + 1
        } else {
            current
        }, place),
        Focus::PreviousDocument => (if current > 0 {
            current - 1
        } else {
            current
        }, place),
        Focus::DocumentIndex(index) => (index as int, place),
    }
}

/// Switch focus between documents and fields; returns the focused document
/// and the place of the cursors.
pub fn switch_focus(dir: &Focus, current: usize, count: usize, place: Place, has_ascii: bool) -> (r: (usize, Place))
    requires
        current < count,
        *dir matches Focus::DocumentIndex(i) ==> i < count,
    ensures
        (r.0 as int, r.1) == spec_switch_focus(*dir, current as int, count as int, place, has_ascii),
        r.0 < count,
{
    match dir {
        Focus::NextField => {
            if place == Place::Hex && has_ascii {
                (current, Place::Ascii)
            } else {
                let next = if current + 1 == count {
                    0
                } else {
                    current + 1
                };
                (next, Place::Hex)
            }
        },
        Focus::PreviousField => {
            if place == Place::Ascii {
                (current, Place::Hex)
            } else {
                let prev = if current > 0 {
                    current - 1
                } else {
                    count - 1
                };
                (prev, if has_ascii {
                    Place::Ascii
                } else {
                    place
                })
            }
        },
        Focus::NextDocument => (if current + 1 < count {
            current + 1
        } else {
            current
        }, place),
        Focus::PreviousDocument => (if current > 0 {
            current - 1
        } else {
            current
        }, place),
        Focus::DocumentIndex(index) => (*index, place),
    }
}

/// Moving between documents keeps the place of the cursors; the next
/// document is the one after the current (the last one stays), the
/// previous is the one before it (the first one stays), and each undoes the
/// other; choosing a document by its index goes there.
pub proof fn law_document_moves(current: int, count: int, place: Place, has_ascii: bool, index: usize)
    requires
        0 <= current < count,
    ensures
        ({
            let next = spec_switch_focus(Focus::NextDocument, current, count, place, has_ascii);
            let prev = spec_switch_focus(Focus::PreviousDocument, current, count, place, has_ascii);
            &&& next.1 == place && prev.1 == place
            &&& current + 1 < count ==> next.0 == current + 1
            &&& current + 1 == count ==> next.0 == current
            &&& current > 0 ==> prev.0 == current - 1
            &&& current == 0 ==> prev.0 == 0
            &&& current + 1 < count ==> spec_switch_focus(Focus::PreviousDocument, next.0, count, place, has_ascii)
                == (current, place)
            &&& current > 0 ==> spec_switch_focus(Focus::NextDocument, prev.0, count, place, has_ascii) == (
                current,
                place,
            )
            &&& spec_switch_focus(Focus::DocumentIndex(index), current, count, place, has_ascii) == (
                index as int,
                place,
            )
        }),
{
}

/// The next field after the hex field is the ASCII field of the same
/// document, where it is shown; otherwise it is the hex field of the next
/// document, the first one after the last.
pub proof fn law_next_field(current: int, count: int, place: Place, has_ascii: bool)
    requires
        0 <= current < count,
    ensures
        ({
            let (c1, p1) = spec_switch_focus(Focus::NextField, current, count, place, has_ascii);
            &&& place == Place::Hex && has_ascii ==> c1 == current && p1 == Place::Ascii
            &&& !(place == Place::Hex && has_ascii) ==> p1 == Place::Hex && c1 == (current + 1) % count
        }),
{
    if current + 1 == count {
        vstd::arithmetic::div_mod::lemma_mod_self_0(count);
    } else {
        vstd::arithmetic::div_mod::lemma_small_mod((current + 1) as nat, count as nat);
    }
}

/// Going to the previous field undoes going to the next one.
pub proof fn law_previous_field_undoes_next(current: int, count: int, place: Place, has_ascii: bool)
    requires
        0 <= current < count,
        place == Place::Ascii ==> has_ascii,
    ensures
        ({
            let (c1, p1) = spec_switch_focus(Focus::NextField, current, count, place, has_ascii);
            spec_switch_focus(Focus::PreviousField, c1, count, p1, has_ascii) == (current, place)
        }),
{
}

/// Going to the next field undoes going to the previous one.
pub proof fn law_next_field_undoes_previous(current: int, count: int, place: Place, has_ascii: bool)
    requires
        0 <= current < count,
        place == Place::Ascii ==> has_ascii,
    ensures
        ({
            let (c1, p1) = spec_switch_focus(Focus::PreviousField, current, count, place, has_ascii);
            spec_switch_focus(Focus::NextField, c1, count, p1, has_ascii) == (current, place)
        }),
{
}

/// Byte value after writing the bits of `value` selected by `mask` over
/// `old`.
pub open spec fn spec_merge(old: u8, value: u8, mask: u8) -> u8 {
    (old & !mask) | (value & mask)
}

/// Writing every bit of a value gives the value.
pub proof fn lemma_merge_full(old: u8, value: u8)
    ensures
        spec_merge(old, value, 0xff) == value,
{
    assert((old & !0xffu8) | (value & 0xffu8) == value) by (bit_vector);
}

/// Offset of the closest changed byte after (`forward`) or before the
/// cursor; the last address is never reached forward.
pub open spec fn is_closest(dom: Set<u64>, cursor: u64, forward: bool, k: u64) -> bool {
    &&& dom.contains(k)
    &&& if forward {
        cursor < k < u64::MAX && forall|j: u64| dom.contains(j) && cursor < j < u64::MAX ==> k <= j
    } else {
        k < cursor && forall|j: u64| dom.contains(j) && j < cursor ==> j <= k
    }
}

/// Whether some changed byte lies in the searched range.
pub open spec fn has_closest(dom: Set<u64>, cursor: u64, forward: bool) -> bool {
    exists|j: u64| dom.contains(j) && if forward {
        cursor < j < u64::MAX
    } else {
        j < cursor
    }
}

/// Offset of the closest change after (`forward`) or before the cursor.
pub fn closest_change(changes: &BTreeMap<u64, u8>, cursor: u64, forward: bool) -> (r: Option<u64>)
    ensures
        match r {
            Some(k) => is_closest(changes@.dom(), cursor, forward, k),
            None => !has_closest(changes@.dom(), cursor, forward),
        },
{
    let keys = changes.keys();
    let ghost all = IteratorSpec::remaining(&keys);
    assert(all.unref().to_set() == changes@.dom());
    let mut best: Option<u64> = None;
    for k in it: keys
        invariant
            all == it.seq(),
            all.unref().to_set() == changes@.dom(),
            match best {
                Some(b) => all.unref().take(it.index() as int).contains(b) && (if forward {
                    cursor < b < u64::MAX
                } else {
                    b < cursor
                }) && forall|i: int| 0 <= i < it.index() ==> #[trigger] all.unref()[i] == b || !(if forward {
                    cursor < all.unref()[i] < u64::MAX
                } else {
                    all.unref()[i] < cursor
                }) || (if forward {
                    b <= all.unref()[i]
                } else {
                    all.unref()[i] <= b
                }),
                None => forall|i: int| 0 <= i < it.index() ==> !(if forward {
                    cursor < #[trigger] all.unref()[i] < u64::MAX
                } else {
                    all.unref()[i] < cursor
                }),
            },
    {
        let key = *k;
        let inside = if forward {
            cursor < key && key < u64::MAX
        } else {
            key < cursor
        };
        if inside {
            let better = match best {
                Some(b) => if forward {
                    key < b
                } else {
                    key > b
                },
                None => true,
            };
            if better {
                best = Some(key);
            }
        }
        proof {
            assert(all.unref()[it.index() as int] == key);
            if let Some(b) = best {
                let t1 = all.unref().take(it.index() + 1);
                let t0 = all.unref().take(it.index() as int);
                if b == key {
                    assert(t1[it.index() as int] == key);
                } else {
                    let w = choose|w: int| 0 <= w < t0.len() && t0[w] == b;
                    assert(t1[w] == b);
                }
            }
        }
    }
    proof {
        let s = all.unref();
        assert(s.take(s.len() as int) =~= s);
        match best {
            Some(b) => {
                assert(s.contains(b));
                assert forall|j: u64| changes@.dom().contains(j) && (if forward {
                    cursor < j < u64::MAX
                } else {
                    j < cursor
                }) implies (if forward {
                    b <= j
                } else {
                    j <= b
                }) by {
                    assert(s.to_set().contains(j));
                    let w = choose|w: int| 0 <= w < s.len() && s[w] == j;
                    assert(s[w] == j);
                }
            },
            None => {
                assert forall|j: u64| changes@.dom().contains(j) implies !(if forward {
                    cursor < j < u64::MAX
                } else {
                    j < cursor
                }) by {
                    assert(s.to_set().contains(j));
                    let w = choose|w: int| 0 <= w < s.len() && s[w] == j;
                    assert(s[w] == j);
                }
            },
        }
    }
    best
}

/// Editable document: the changes, the cursor and the view of a file.
pub struct Document {
    /// Change list.
    pub changes: ChangeList,
    /// Cursor position within a page.
    pub cursor: Cursor,
    /// View of the document.
    pub view: HexView,
}

impl Document {
    /// Move cursor; returns `true` if a new page start was set (the page
    /// data is to be read again).
    pub fn move_cursor(&mut self, dir: &Direction) -> (r: bool)
        requires
            move_ok(old(self).cursor, *dir, old(self).view),
        ensures
            final(self).cursor == spec_move(old(self).cursor, *dir, old(self).view).0,
            ({
                let base = align_down(spec_move(old(self).cursor, *dir, old(self).view).1, old(self).view.columns as int);
                &&& r == (base != old(self).view.offset)
                &&& final(self).view == (if r {
                    HexView { offset: base as u64, ..old(self).view }
                } else {
                    old(self).view
                })
            }),
            final(self).changes@ == old(self).changes@,
    {
        let new_base = self.cursor.move_to(dir, &self.view);
        let base_changed = new_base != self.view.offset;
        if base_changed {
            self.view.offset = new_base;
        }
        base_changed
    }

    /// Change data in the document: the bits of `value` selected by `mask`
    /// are written over the current value of the byte (its last change, or
    /// `file_byte`, the byte in the file); a change is recorded where the
    /// current value differs from `value`.
    pub fn change(&mut self, offset: u64, value: u8, mask: u8, file_byte: u8)
        ensures
            ({
                let applied = old(self).changes@.changes.take(old(self).changes@.index as int);
                let current = if touched(applied, offset) {
                    last_new(applied, offset)
                } else {
                    file_byte
                };
                final(self).changes@ == if current != value {
                    spec_set(old(self).changes@, offset, current, spec_merge(current, value, mask))
                } else {
                    old(self).changes@
                }
            }),
            final(self).cursor == old(self).cursor,
            final(self).view == old(self).view,
    {
        let old = match self.changes.last(offset) {
            Some(val) => val,
            None => file_byte,
        };
        let new = (old & !mask) | (value & mask);
        if old != value {
            self.changes.set(offset, old, new);
        }
    }
}

/// Value of the pattern at position `i` of a fill (the pattern repeats).
pub open spec fn pattern_at(pattern: Seq<u8>, i: int) -> u8 {
    pattern[i % pattern.len() as int]
}

/// Changes after filling `n` bytes from `start` with the repeated pattern
/// (`file` holds the bytes of the file there): each byte whose current
/// value differs from the pattern gets a change.
pub open spec fn fill_changes(m: ChangeListModel, start: u64, n: nat, pattern: Seq<u8>, file: Seq<u8>) -> ChangeListModel
    decreases n,
{
    if n == 0 {
        m
    } else {
        let prev = fill_changes(m, start, (n - 1) as nat, pattern, file);
        let offset = (start + n - 1) as u64;
        let applied = prev.changes.take(prev.index as int);
        let current = if touched(applied, offset) {
            last_new(applied, offset)
        } else {
            file[n - 1]
        };
        let value = pattern_at(pattern, n - 1);
        if current != value {
            spec_set(prev, offset, current, value)
        } else {
            prev
        }
    }
}

/// Value the byte at `offset` reads as under the applied changes of `m`
/// (`file_byte`, its value in the file, where no applied change touches it).
pub open spec fn current_value(m: ChangeListModel, offset: u64, file_byte: u8) -> u8 {
    let applied = m.changes.take(m.index as int);
    if touched(applied, offset) {
        last_new(applied, offset)
    } else {
        file_byte
    }
}

/// Recording a change makes its byte read as the new value and leaves the
/// other bytes as they read.
proof fn lemma_set_current(m: ChangeListModel, off: u64, old: u8, new: u8, o: u64, fb: u8)
    requires
        model_wf(m),
    ensures
        model_wf(spec_set(m, off, old, new)),
        current_value(spec_set(m, off, old, new), o, fb) == if o == off {
            new
        } else {
            current_value(m, o, fb)
        },
{
    let r = spec_set(m, off, old, new);
    let s = m.changes;
    let applied = s.take(m.index as int);
    if m.index == s.len() && s.len() > 0 && s.last().offset == off {
        assert(applied =~= s);
        let t = s.update(s.len() - 1, ByteChange { offset: off, old: s.last().old, new });
        assert(r.changes == t);
        assert(t.take(r.index as int) =~= t);
        assert(t.drop_last() =~= s.drop_last());
    } else {
        let c = ByteChange { offset: off, old, new };
        assert(r.changes =~= applied.push(c));
        assert(r.changes.take(r.index as int) =~= r.changes);
        assert(applied.push(c).drop_last() =~= applied);
    }
}

/// A change writes the bits of the value under the mask over the byte as
/// it reads, and leaves the other bytes as they read.
pub proof fn law_change_writes_masked(m: ChangeListModel, offset: u64, value: u8, mask: u8, file_byte: u8, o: u64, fb: u8)
    requires
        model_wf(m),
    ensures
        ({
            let cur = current_value(m, offset, file_byte);
            let r = if cur != value {
                spec_set(m, offset, cur, spec_merge(cur, value, mask))
            } else {
                m
            };
            &&& current_value(r, offset, file_byte) == spec_merge(cur, value, mask)
            &&& o != offset ==> current_value(r, o, fb) == current_value(m, o, fb)
        }),
{
    let cur = current_value(m, offset, file_byte);
    assert((cur & !mask) | (cur & mask) == cur) by (bit_vector);
    if cur != value {
        lemma_set_current(m, offset, cur, spec_merge(cur, value, mask), offset, file_byte);
        lemma_set_current(m, offset, cur, spec_merge(cur, value, mask), o, fb);
    }
}

/// Filling writes the pattern: each filled byte reads as the pattern repeated from the start of the range, and the
/// bytes outside the range read as before.
pub proof fn law_fill_writes_pattern(
    m: ChangeListModel,
    start: u64,
    n: nat,
    pattern: Seq<u8>,
    file: Seq<u8>,
    i: int,
    o: u64,
    fb: u8,
)
    requires
        model_wf(m),
        pattern.len() > 0,
        n <= file.len(),
        start + n <= u64::MAX,
    ensures
        ({
            let r = fill_changes(m, start, n, pattern, file);
            &&& model_wf(r)
            &&& 0 <= i < n ==> current_value(r, (start + i) as u64, file[i]) == pattern_at(pattern, i)
            &&& !(start <= o < start + n) ==> current_value(r, o, fb) == current_value(m, o, fb)
        }),
    decreases n,
{
    if n > 0 {
        let k = (n - 1) as nat;
        let prev = fill_changes(m, start, k, pattern, file);
        let off = (start + k) as u64;
        let value = pattern_at(pattern, k as int);
        let cur = current_value(prev, off, file[k as int]);
        law_fill_writes_pattern(m, start, k, pattern, file, i, o, fb);
        if cur != value {
            lemma_set_current(prev, off, cur, value, (start + i) as u64, file[i]);
            lemma_set_current(prev, off, cur, value, o, fb);
        }
    }
}

impl Document {
    /// Fill the range `[start, start + file.len())` with the repeated
    /// pattern; `file` holds the bytes of the file in the range.
    pub fn fill(&mut self, start: u64, pattern: &[u8], file: &[u8])
        requires
            pattern@.len() > 0,
            start + file@.len() <= u64::MAX,
        ensures
            final(self).changes@ == fill_changes(old(self).changes@, start, file@.len(), pattern@, file@),
            final(self).cursor == old(self).cursor,
            final(self).view == old(self).view,
    {
        let mut pattern_pos: usize = 0;
        let mut i: usize = 0;
        let n = file.len();
        while i < n
            invariant
                n == file@.len(),
                i <= n,
                pattern@.len() > 0,
                start + file@.len() <= u64::MAX,
                pattern_pos == (i as int) % (pattern@.len() as int),
                self.changes@ == fill_changes(old(self).changes@, start, i as nat, pattern@, file@),
                self.cursor == old(self).cursor,
                self.view == old(self).view,
            decreases n - i,
        {
            let offset = start + i as u64;
            proof {
                vstd::arithmetic::div_mod::lemma_mod_bound(i as int, pattern@.len() as int);
                lemma_merge_full(file@[i as int], pattern@[pattern_pos as int]);
                let applied = self.changes@.changes.take(self.changes@.index as int);
                if touched(applied, offset) {
                    lemma_merge_full(last_new(applied, offset), pattern@[pattern_pos as int]);
                }
            }
            self.change(offset, pattern[pattern_pos], 0xff, file[i]);
            pattern_pos = pattern_pos + 1;
            if pattern_pos == pattern.len() {
                pattern_pos = 0;
            }
            proof {
                crate::file::lemma_mod_step(i as int, pattern@.len() as int);
            }
            i = i + 1;
        }
    }
}

/// Position and height of each of `count` views sharing `height` lines:
/// equal heights, the last view taking the lines left over.
pub open spec fn spec_layout(height: int, count: int, index: int) -> (int, int) {
    let lpd = height / count;
    (index * lpd, if index == count - 1 {
        height - index * lpd
    } else {
        lpd
    })
}

/// The views share the screen: the first starts at the top, each starts
/// where the one before it ends, the last ends at the bottom, all but the
/// last are as high as the first, and the last is less than one line per
/// view higher.
pub proof fn law_layout_tiles(height: int, count: int, i: int)
    requires
        count > 0,
        height >= 0,
        0 <= i < count,
    ensures
        spec_layout(height, count, 0).0 == 0,
        i + 1 < count ==> spec_layout(height, count, i).0 + spec_layout(height, count, i).1 == spec_layout(
            height,
            count,
            i + 1,
        ).0,
        i + 1 == count ==> spec_layout(height, count, i).0 + spec_layout(height, count, i).1 == height,
        i + 1 < count ==> spec_layout(height, count, i).1 == spec_layout(height, count, 0).1,
        spec_layout(height, count, 0).1 <= spec_layout(height, count, count - 1).1 < spec_layout(height, count, 0).1
            + count,
{
    let lpd = height / count;
    vstd::arithmetic::div_mod::lemma_fundamental_div_mod(height, count);
    assert((count - 1) * lpd + lpd == count * lpd) by (nonlinear_arith);
    assert(count * lpd == lpd * count) by (nonlinear_arith);
    assert((i + 1) * lpd == i * lpd + lpd) by (nonlinear_arith);
    assert(0 * lpd == 0);
}

/// Lines of each view (first line, height) when `count` views share
/// `height` lines.
pub fn view_layout(height: usize, count: usize) -> (r: Vec<(usize, usize)>)
    requires
        count > 0,
    ensures
        r@.len() == count,
        forall|i: int| 0 <= i < count ==> (#[trigger] r@[i].0 as int, r@[i].1 as int) == spec_layout(
            height as int,
            count as int,
            i,
        ),
{
    let lpd = height / count;
    let last = count - 1;
    let mut r: Vec<(usize, usize)> = Vec::new();
    let mut index: usize = 0;
    let mut y: usize = 0;
    assert(count * lpd <= height) by (nonlinear_arith)
        requires
            lpd == height / count,
            count > 0,
    {
        vstd::arithmetic::div_mod::lemma_fundamental_div_mod(height as int, count as int);
        vstd::arithmetic::div_mod::lemma_mod_bound(height as int, count as int);
    }
    while index < count
        invariant
            count > 0,
            lpd == height / count,
            last == count - 1,
            index <= count,
            y == index * lpd,
            y <= height,
            count * lpd <= height,
            r@.len() == index,
            forall|i: int| 0 <= i < index ==> (#[trigger] r@[i].0 as int, r@[i].1 as int) == spec_layout(
                height as int,
                count as int,
                i,
            ),
        decreases count - index,
    {
        proof {
            assert((index + 1) * lpd == index * lpd + lpd) by (nonlinear_arith);
            assert((index + 1) * lpd <= count * lpd) by (nonlinear_arith)
                requires
                    index < count,
                    lpd >= 0,
            ;
        }
        let h = if index == last {
            height - y
        } else {
            lpd
        };
        let ghost before = r@;
        r.push((y, h));
        assert(r@[index as int] == (y, h));
        assert forall|i: int| 0 <= i < index + 1 implies (#[trigger] r@[i].0 as int, r@[i].1 as int) == spec_layout(
            height as int,
            count as int,
            i,
        ) by {
            if i < index {
                assert(r@[i] == before[i]);
            }
        }
        y = y + lpd;
        index = index + 1;
    }
    r
}

/// The byte at `i` of the page differs in the other page (or the other
/// page ends before it).
pub open spec fn differs_at(left: Seq<u8>, right: Seq<u8>, i: int) -> bool {
    !(i < right.len() && right[i] == left[i])
}

/// Addresses of the bytes of a page (read at `offset`) that differ in any
/// of the other documents' pages at the same address.
pub open spec fn spec_diff(offset: u64, left: Seq<u8>, others: Seq<Seq<u8>>) -> Set<u64> {
    Set::new(
        |a: u64|
            offset <= a < offset + left.len() && exists|k: int|
                0 <= k < others.len() && #[trigger] differs_at(left, others[k], a - offset),
    )
}

/// Comparing pages: a page shows no difference against copies of itself;
/// a byte of the page is marked where some other page holds another value
/// there or ends before it; only bytes of the page are marked.
pub proof fn law_diff(offset: u64, left: Seq<u8>, others: Seq<Seq<u8>>, a: u64, k: int)
    ensures
        (forall|j: int| 0 <= j < others.len() ==> #[trigger] others[j] == left) ==> !spec_diff(offset, left, others).contains(
            a,
        ),
        offset <= a < offset + left.len() && 0 <= k < others.len() && (a - offset >= others[k].len() || others[k][a
            - offset] != left[a - offset]) ==> spec_diff(offset, left, others).contains(a),
        spec_diff(offset, left, others).contains(a) ==> offset <= a < offset + left.len(),
{
    let i = a - offset;
    if offset <= a < offset + left.len() && 0 <= k < others.len() && (i >= others[k].len() || others[k][i] != left[i]) {
        assert(differs_at(left, others[k], i));
    }
    if forall|j: int| 0 <= j < others.len() ==> #[trigger] others[j] == left {
        if spec_diff(offset, left, others).contains(a) {
            let j = choose|j: int| 0 <= j < others.len() && #[trigger] differs_at(left, others[j], i);
            assert(others[j] == left);
        }
    }
}

/// Changed addresses on the page of `size` bytes at `offset`.
pub open spec fn spec_page_changes(dom: Set<u64>, offset: u64, size: u64) -> Set<u64> {
    dom.filter(|o: u64| offset <= o && o < offset + size)
}

/// Markers of the changed bytes on a page: the changed addresses in
/// `[offset, offset + size)`.
pub fn page_changes(changes: &BTreeMap<u64, u8>, offset: u64, size: u64) -> (r: BTreeSet<u64>)
    ensures
        r@ == spec_page_changes(changes@.dom(), offset, size),
{
    let mut marks: BTreeSet<u64> = BTreeSet::new();
    let keys = changes.keys();
    let ghost all = IteratorSpec::remaining(&keys);
    assert(all.unref().to_set() == changes@.dom());
    for k in it: keys
        invariant
            all == it.seq(),
            marks@ == spec_page_changes(it.seq().take(it.index() as int).unref().to_set(), offset, size),
    {
        let ghost t = it.seq().take(it.index() as int).unref();
        proof {
            assert(it.seq().take(it.index() + 1).unref() =~= t.push(*k));
            assert forall|x: u64| #[trigger] t.push(*k).contains(x) == t.to_set().insert(*k).contains(x) by {
                if t.push(*k).contains(x) && x != *k {
                    let w = choose|w: int| 0 <= w < t.push(*k).len() && t.push(*k)[w] == x;
                    assert(t[w] == x);
                }
                if t.contains(x) {
                    let w = choose|w: int| 0 <= w < t.len() && t[w] == x;
                    assert(t.push(*k)[w] == x);
                }
                if x == *k {
                    assert(t.push(*k)[t.len() as int] == x);
                }
            }
            assert(t.push(*k).to_set() =~= t.to_set().insert(*k));
        }
        let key = *k;
        if offset <= key && (key as u128) < (offset as u128) + (size as u128) {
            marks.insert(key);
        }
        proof {
            assert(marks@ =~= spec_page_changes(t.push(*k).to_set(), offset, size));
        }
    }
    assert(all.take(all.len() as int) =~= all);
    marks
}

/// Pages of the other documents.
pub open spec fn pages_view(p: Seq<Vec<u8>>) -> Seq<Seq<u8>> {
    p.map_values(|v: Vec<u8>| v@)
}

/// Diff markers of a page against the pages of the other documents.
pub fn diff_offsets(offset: u64, left: &Vec<u8>, others: &Vec<Vec<u8>>) -> (r: BTreeSet<u64>)
    requires
        offset + left@.len() <= u64::MAX,
    ensures
        r@ == spec_diff(offset, left@, pages_view(others@)),
{
    let ghost pv = pages_view(others@);
    let mut diff: BTreeSet<u64> = BTreeSet::new();
    let mut k: usize = 0;
    while k < others.len()
        invariant
            pv == pages_view(others@),
            offset + left@.len() <= u64::MAX,
            k <= others@.len(),
            diff@ == Set::new(
                |a: u64|
                    offset <= a < offset + left@.len() && exists|m: int|
                        0 <= m < k && #[trigger] differs_at(left@, pv[m], a - offset),
            ),
        decreases others.len() - k,
    {
        let right = &others[k];
        assert(pv[k as int] == right@);
        let ghost before = diff@;
        let mut i: usize = 0;
        while i < left.len()
            invariant
                pv == pages_view(others@),
                pv[k as int] == right@,
                k < others@.len(),
                offset + left@.len() <= u64::MAX,
                i <= left@.len(),
                diff@ == before.union(
                    Set::new(|a: u64| offset <= a < offset + i && differs_at(left@, right@, a - offset)),
                ),
            decreases left.len() - i,
        {
            let equal = i < right.len() && right[i] == left[i];
            if !equal {
                diff.insert(offset + i as u64);
            }
            assert(diff@ =~= before.union(
                Set::new(|a: u64| offset <= a < offset + i + 1 && differs_at(left@, right@, a - offset)),
            )) by {
                assert forall|a: u64| diff@.contains(a) == before.union(
                    Set::new(|a: u64| offset <= a < offset + i + 1 && differs_at(left@, right@, a - offset)),
                ).contains(a) by {
                    if a == offset + i {
                        assert(differs_at(left@, right@, a - offset) == !equal);
                    }
                }
            }
            i = i + 1;
        }
        assert(diff@ =~= Set::new(
            |a: u64|
                offset <= a < offset + left@.len() && exists|m: int|
                    0 <= m < k + 1 && #[trigger] differs_at(left@, pv[m], a - offset),
        )) by {
            assert forall|a: u64| #[trigger] diff@.contains(a) == (offset <= a < offset + left@.len() && exists|m: int|
                0 <= m < k + 1 && #[trigger] differs_at(left@, pv[m], a - offset)) by {
                if offset <= a < offset + left@.len() && differs_at(left@, pv[k as int], a - offset) {
                    assert(diff@.contains(a));
                }
                if before.contains(a) {
                    let m = choose|m: int| 0 <= m < k && #[trigger] differs_at(left@, pv[m], a - offset);
                    assert(0 <= m < k + 1 && differs_at(left@, pv[m], a - offset));
                }
                if offset <= a < offset + left@.len() && (exists|m: int| 0 <= m < k + 1 && #[trigger] differs_at(left@, pv[m], a - offset)) {
                    let m = choose|m: int| 0 <= m < k + 1 && #[trigger] differs_at(left@, pv[m], a - offset);
                    if m < k {
                        assert(before.contains(a));
                    }
                }
            }
        }
        k = k + 1;
    }
    diff
}

} // verus!

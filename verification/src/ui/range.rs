//! Range control: the start, end and length fields shared by the dialogs
//! that work on a range of the file.
use crate::num::{parse_u64, spec_digits, spec_parse_unsigned, to_dec, to_hex};
use crate::ui::dialog::{dialog_wf, kept_items, rows_above, Dialog, DialogHandler, ItemId, PADDING_X, PADDING_Y};
use crate::ui::widget::{InputFormat, InputLine, WidgetType};
use std::ops::Range;
use vstd::prelude::*;
use vstd::string::StringExecFns;

verus! {

/// Width of the dialogs with a range control.
pub const DIALOG_WIDTH: usize = 43;
/// Width of the offset fields.
pub const OFFSET_WIDTH: usize = 13;
/// Width of the length field.
pub const LENGTH_WIDTH: usize = 9;

/// Range control: the ids of its fields and the end of the file.
pub struct RangeControl {
    /// Size of the file (the range ends at it at most).
    pub max: u64,
    pub start: ItemId,
    pub end: ItemId,
    pub length: ItemId,
}

/// Text of an input field (empty for other widgets).
pub open spec fn edit_text(d: Dialog, item: ItemId) -> Seq<char> {
    match d.items@[item as int].widget {
        WidgetType::Edit(e) => e.value@,
        _ => Seq::empty(),
    }
}

/// Number typed into a field in a radix (0 where it is none).
pub open spec fn typed_number(text: Seq<char>, radix: int) -> int {
    match spec_parse_unsigned(text, radix, u64::MAX as int) {
        Some(v) => v,
        None => 0,
    }
}

/// Offset typed into an input field (hex): 0 where it is not a number,
/// the last offset of the file where it lies past it.
pub open spec fn spec_offset(d: Dialog, item: ItemId, max: u64) -> int {
    if d.items@[item as int].widget is Edit {
        let v = typed_number(edit_text(d, item), 16);
        if v >= max {
            max - 1
        } else {
            v
        }
    } else {
        0
    }
}

/// Length of the range between two offsets (none if the end comes first).
pub open spec fn range_length(start: int, end: int) -> int {
    if start > end {
        0
    } else {
        end - start + 1
    }
}

/// The range typed into the control is valid: the start comes first and
/// lies in the file.
pub open spec fn range_valid(c: RangeControl, d: Dialog) -> bool {
    let s = spec_offset(d, c.start, c.max);
    let e = spec_offset(d, c.end, c.max);
    s <= e && s < c.max
}

/// The ids of the control lie within the dialog and the file is not empty.
pub open spec fn range_ok(c: RangeControl, d: Dialog) -> bool {
    &&& c.start < d.items@.len()
    &&& c.end < d.items@.len()
    &&& c.length < d.items@.len()
    &&& c.max > 0
}

impl RangeControl {
    /// Check the ids of the control against the dialog.
    pub fn fits(&self, dialog: &Dialog) -> (r: bool)
        ensures
            r == range_ok(*self, *dialog),
    {
        self.start < dialog.items.len() && self.end < dialog.items.len() && self.length < dialog.items.len()
            && self.max > 0
    }

    /// Offset typed into a field.
    pub fn get_offset(&self, dialog: &Dialog, item: ItemId) -> (r: u64)
        requires
            item < dialog.items@.len(),
            self.max > 0,
        ensures
            r == spec_offset(*dialog, item, self.max),
    {
        let mut offset: u64 = 0;
        if let WidgetType::Edit(widget) = dialog.get_widget(item) {
            proof {
                crate::num::lemma_parse_unsigned_bounds(widget.value@, 16, u64::MAX as int);
            }
            offset = match parse_u64(widget.get_value(), 16) {
                Some(v) => v,
                None => 0,
            };
            if offset >= self.max {
                offset = self.max - 1;
            }
        }
        offset
    }

    /// Range typed into the control: from the start to the end offset, if
    /// the start comes first and lies in the file.
    pub fn get(&self, dialog: &Dialog) -> (r: Option<Range<u64>>)
        requires
            range_ok(*self, *dialog),
        ensures
            ({
                let s = spec_offset(*dialog, self.start, self.max);
                let e = spec_offset(*dialog, self.end, self.max);
                match r {
                    Some(range) => s <= e && s < self.max && range.start == s && range.end == e + 1,
                    None => !(s <= e && s < self.max),
                }
            }),
    {
        let start = self.get_offset(dialog, self.start);
        let end = self.get_offset(dialog, self.end);
        if start <= end && start < self.max {
            Some(Range { start, end: end + 1 })
        } else {
            None
        }
    }

    /// Put the control onto the dialog with the default range (a non-empty
    /// range inside a file of `max` bytes).
    pub fn create(dlg: &mut Dialog, default: Range<u64>, max: u64) -> (r: Self)
        requires
            default.start < default.end <= max,
            dialog_wf(*old(dlg)),
            old(dlg).items@.len() + 6 < usize::MAX,
            old(dlg).lcline + 3 < usize::MAX,
        ensures
            r.max == max,
            range_ok(r, *final(dlg)),
            final(dlg).items@.len() == old(dlg).items@.len() + 6,
            forall|i: int| 0 <= i < old(dlg).items@.len() ==> final(dlg).items@[i] == old(dlg).items@[i],
            final(dlg).items@[r.start as int].widget is Edit,
            final(dlg).items@[r.end as int].widget is Edit,
            final(dlg).items@[r.length as int].widget is Edit,
            edit_text(*final(dlg), r.start) == spec_digits(default.start as nat, 16),
            edit_text(*final(dlg), r.end) == spec_digits((default.end - 1) as nat, 16),
            edit_text(*final(dlg), r.length) == spec_digits((default.end - default.start) as nat, 10),
            final(dlg).lcline == old(dlg).lcline + 3,
            dialog_wf(*final(dlg)),
            final(dlg).width == old(dlg).width,
            final(dlg).height == old(dlg).height,
            final(dlg).focus == old(dlg).focus,
            forall|b: int|
                rows_above(old(dlg).items@, b) && old(dlg).lcline + 2 < b && PADDING_Y + 2 < b ==> #[trigger] rows_above(
                    final(dlg).items@,
                    b,
                ),
    {
        dlg.add_line(WidgetType::StaticText(String::from_str("            Start                  End")));
        dlg.add_line(
            WidgetType::StaticText(
                String::from_str("Range:               \u{2500}\u{2500}\u{2500}\u{2500}\u{2500}\u{2500}\u{2500}\u{2500}\u{2500}"),
            ),
        );
        let widget = InputLine::new(to_hex(default.start), InputFormat::HexUnsigned, Vec::new(), OFFSET_WIDTH);
        let start = dlg.add(PADDING_X + 8, PADDING_Y + 1, OFFSET_WIDTH, WidgetType::Edit(widget));
        let widget = InputLine::new(to_hex(default.end - 1), InputFormat::HexUnsigned, Vec::new(), OFFSET_WIDTH);
        let end = dlg.add(PADDING_X + 30, PADDING_Y + 1, OFFSET_WIDTH, WidgetType::Edit(widget));
        dlg.add_line(
            WidgetType::StaticText(
                String::from_str(
                    "Length:       \u{2514}\u{2500}\u{2500}\u{2500}\u{2500}\u{2500}\u{2500}         \u{2500}\u{2500}\u{2500}\u{2500}\u{2500}\u{2500}\u{2518}",
                ),
            ),
        );
        let widget = InputLine::new(
            to_dec(default.end - default.start),
            InputFormat::DecUnsigned,
            Vec::new(),
            LENGTH_WIDTH,
        );
        let length = dlg.add(PADDING_X + 21, PADDING_Y + 2, LENGTH_WIDTH, WidgetType::Edit(widget));
        RangeControl { max, start, end, length }
    }
}

/// Length field text after the start or end field changed.
pub open spec fn length_text(d: Dialog, c: RangeControl) -> Seq<char> {
    spec_digits(
        range_length(spec_offset(d, c.start, c.max), spec_offset(d, c.end, c.max)) as nat,
        10,
    )
}

/// End offset after the length field changed: the start plus the length
/// (at least 1), not past the end of the file.
pub open spec fn end_from_length(d: Dialog, c: RangeControl) -> int {
    let typed = typed_number(edit_text(d, c.length), 10);
    let length = if d.items@[c.length as int].widget is Edit && typed != 0 {
        typed
    } else {
        1
    };
    let end = spec_offset(d, c.start, c.max) + length - 1;
    if end >= c.max {
        c.max - 1
    } else {
        end
    }
}

/// An offset field reads as the hex number typed into it, kept inside the
/// file: a number past the end reads as the last byte.
pub proof fn law_offset_field(d: Dialog, item: ItemId, max: u64, v: u64)
    requires
        max > 0,
        d.items@[item as int].widget is Edit,
        edit_text(d, item) == spec_digits(v as nat, 16),
    ensures
        spec_offset(d, item, max) == if v < max {
            v as int
        } else {
            max - 1
        },
{
    crate::num::lemma_parse_digits(v as nat, 16, u64::MAX as int);
}

/// The length and the end of the range agree: where the length field holds
/// a length that fits in the file from the start, the end written for it
/// gives back that length.
pub proof fn law_length_end_agree(c: RangeControl, d: Dialog, e: Dialog)
    requires
        range_ok(c, d),
        d.items@[c.length as int].widget is Edit,
        typed_number(edit_text(d, c.length), 10) != 0,
        spec_offset(d, c.start, c.max) + typed_number(edit_text(d, c.length), 10) - 1 < c.max,
        e.items@[c.start as int] == d.items@[c.start as int],
        e.items@[c.end as int].widget is Edit,
        edit_text(e, c.end) == spec_digits(end_from_length(d, c) as nat, 16),
    ensures
        range_length(spec_offset(e, c.start, c.max), spec_offset(e, c.end, c.max)) == typed_number(
            edit_text(d, c.length),
            10,
        ),
{
    let end = end_from_length(d, c);
    crate::num::lemma_parse_unsigned_bounds(edit_text(d, c.length), 10, u64::MAX as int);
    crate::num::lemma_parse_unsigned_bounds(edit_text(d, c.start), 16, u64::MAX as int);
    assert(0 <= end < c.max);
    law_offset_field(e, c.end, c.max, end as u64);
}

impl DialogHandler for RangeControl {
    open spec fn closes(&self, dialog: Dialog, item: ItemId) -> bool {
        true
    }

    /// Closing is always allowed.
    fn on_close(&mut self, dialog: &mut Dialog, item: ItemId) -> (r: bool)
        ensures
            r,
            *final(dialog) == *old(dialog),
    {
        true
    }

    /// A new start or end gives the length; a new length gives the end.
    fn on_item_change(&mut self, dialog: &mut Dialog, item: ItemId)
        ensures
            *final(self) == *old(self),
            range_ok(*old(self), *old(dialog)) && (item == old(self).start || item == old(self).end)
                && old(dialog).items@[old(self).length as int].widget is Edit ==> edit_text(
                *final(dialog),
                old(self).length,
            ) == length_text(*old(dialog), *old(self)),
            range_ok(*old(self), *old(dialog)) && item != old(self).start && item != old(self).end && item
                == old(self).length && old(dialog).items@[old(self).end as int].widget is Edit ==> edit_text(
                *final(dialog),
                old(self).end,
            ) == spec_digits(end_from_length(*old(dialog), *old(self)) as nat, 16),
    {
        if !self.fits(dialog) {
            return;
        }
        if item == self.start || item == self.end {
            let start = self.get_offset(dialog, self.start);
            let end = self.get_offset(dialog, self.end);
            let length = if start > end {
                0
            } else {
                end - start + 1
            };
            let text = to_dec(length);
            proof {
                crate::num::lemma_digits_len(length as nat, 10);
            }
            dialog.set_value(self.length, text);
        } else if item == self.length {
            let mut length: u64 = 1;
            if let WidgetType::Edit(widget) = dialog.get_widget(self.length) {
                proof {
                    crate::num::lemma_parse_unsigned_bounds(widget.value@, 10, u64::MAX as int);
                }
                length = match parse_u64(widget.get_value(), 10) {
                    Some(v) => v,
                    None => 0,
                };
                if length == 0 {
                    length = 1;
                }
            }
            let start = self.get_offset(dialog, self.start);
            let end = match start.checked_add(length - 1) {
                Some(e) => if e >= self.max {
                    self.max - 1
                } else {
                    e
                },
                None => self.max - 1,
            };
            let text = to_hex(end);
            proof {
                crate::num::lemma_digits_len(end as nat, 16);
            }
            dialog.set_value(self.end, text);
        }
    }

    /// A left offset field shows the offset as read; a left length field
    /// shows the length of the range.
    fn on_focus_lost(&mut self, dialog: &mut Dialog, item: ItemId)
        ensures
            *final(self) == *old(self),
            range_ok(*old(self), *old(dialog)) && (item == old(self).start || item == old(self).end)
                && old(dialog).items@[item as int].widget is Edit ==> edit_text(*final(dialog), item) == spec_digits(
                spec_offset(*old(dialog), item, old(self).max) as nat,
                16,
            ),
            range_ok(*old(self), *old(dialog)) && item != old(self).start && item != old(self).end && item
                == old(self).length && old(dialog).items@[old(self).length as int].widget is Edit ==> edit_text(
                *final(dialog),
                old(self).length,
            ) == length_text(*old(dialog), *old(self)),
    {
        if !self.fits(dialog) {
            return;
        }
        if item == self.start || item == self.end {
            let offset = self.get_offset(dialog, item);
            let text = to_hex(offset);
            proof {
                crate::num::lemma_digits_len(offset as nat, 16);
            }
            dialog.set_value(item, text);
        } else if item == self.length {
            let start = self.get_offset(dialog, self.start);
            let end = self.get_offset(dialog, self.end);
            let length = if start > end {
                0
            } else {
                end - start + 1
            };
            let text = to_dec(length);
            proof {
                crate::num::lemma_digits_len(length as nat, 10);
            }
            dialog.set_value(self.length, text);
        }
    }
}

} // verus!

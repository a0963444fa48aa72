//! "Fill range" dialog: a range and the pattern to fill it with.
use crate::history::{hex_string, hex_text};
use crate::num::{all_digits, hex_pairs, spec_hex_pairs};
use crate::ui::dialog::{
    buttons_line, dialog_wf, kept_items, rows_above, Dialog, DialogHandler, DialogType, ItemId, ok_cancel_closes,
};
use crate::ui::range::{range_valid, edit_text, range_ok, spec_offset, RangeControl, DIALOG_WIDTH};
use crate::ui::widget::{byte_len, InputFormat, InputLine, WidgetType};
use crate::text::push_char;
use std::ops::Range;
use vstd::prelude::*;
use vstd::string::StringExecFns;

verus! {

/// "Fill range" dialog.
pub struct FillDialog {
    pub rctl: RangeControl,
    pub pattern: ItemId,
    pub btn_ok: ItemId,
    pub btn_cancel: ItemId,
}

/// Pattern typed into a hex field: the bytes of its digits, a single zero
/// byte where it is empty.
pub open spec fn typed_pattern(text: Seq<char>) -> Seq<u8> {
    if text.len() == 0 {
        seq![0u8]
    } else {
        spec_hex_pairs(text)
    }
}

/// A pattern field that holds the hex text of a pattern reads back as the
/// pattern (an empty field as one zero byte).
pub proof fn law_pattern_reads_back(pattern: Seq<u8>)
    ensures
        all_digits(hex_text(pattern), 16),
        typed_pattern(hex_text(pattern)) == if pattern.len() == 0 {
            seq![0u8]
        } else {
            pattern
        },
{
    crate::history::lemma_hex_text_pairs(pattern);
    crate::history::lemma_hex_text_digits(pattern);
}

/// Text of a left pattern field: `00` for an empty one, an odd number of
/// digits completed with a zero digit.
pub open spec fn completed_pattern(text: Seq<char>) -> Seq<char> {
    if text.len() == 0 {
        "00"@
    } else if byte_len(text) % 2 != 0 {
        text.push('0')
    } else {
        text
    }
}

/// The ids of the dialog lie within it.
pub open spec fn fill_ok(f: FillDialog, d: Dialog) -> bool {
    &&& range_ok(f.rctl, d)
    &&& f.pattern < d.items@.len()
    &&& f.btn_ok < d.items@.len()
    &&& f.btn_cancel < d.items@.len()
}

impl FillDialog {
    /// Build the dialog: the range of one byte at `offset` in a file of
    /// `max` bytes, and the last pattern.
    pub fn create(offset: u64, max: u64, pattern: &[u8]) -> (r: (Dialog, FillDialog))
        requires
            offset < max,
        ensures
            fill_ok(r.1, r.0),
            r.1.rctl.max == max,
            edit_text(r.0, r.1.rctl.start) == crate::num::spec_digits(offset as nat, 16),
            edit_text(r.0, r.1.rctl.end) == crate::num::spec_digits(offset as nat, 16),
            r.0.items@[r.1.pattern as int].widget is Edit,
            edit_text(r.0, r.1.pattern) == hex_text(pattern@),
            r.0.items@[r.1.btn_ok as int].context.enabled,
            r.0.focus == crate::ui::dialog::NO_ITEM,
    {
        let mut dlg = Dialog::new(DIALOG_WIDTH, 6, DialogType::Normal, "Fill range");
        let rctl = RangeControl::create(&mut dlg, Range { start: offset, end: offset + 1 }, max);
        dlg.add_separator();
        dlg.add_line(WidgetType::StaticText(String::from_str("Fill with pattern:")));
        let text = hex_string(pattern);
        let widget = InputLine::new(text, InputFormat::HexStream, Vec::new(), DIALOG_WIDTH);
        let pattern_id = dlg.add_line(WidgetType::Edit(widget));
        assert(rows_above(dlg.items@, buttons_line(dlg)));
        let (btn_ok, btn_cancel) = dlg.add_ok_cancel();
        let handler = FillDialog { rctl, pattern: pattern_id, btn_ok, btn_cancel };
        (dlg, handler)
    }

    /// Pattern typed into the dialog.
    pub fn get_pattern(&self, dialog: &Dialog) -> (r: Vec<u8>)
        requires
            self.pattern < dialog.items@.len(),
            all_digits(edit_text(*dialog, self.pattern), 16),
        ensures
            r@ == typed_pattern(edit_text(*dialog, self.pattern)),
    {
        let value = dialog.edit_value(self.pattern);
        if value.unicode_len() > 0 {
            hex_pairs(value)
        } else {
            let mut r: Vec<u8> = Vec::new();
            r.push(0);
            r
        }
    }

    /// Result of the closed dialog (`closed`: the item it was closed with,
    /// `None` if canceled): the range and the pattern, unless canceled.
    pub fn result(&self, dialog: &Dialog, closed: Option<ItemId>) -> (r: Option<(Range<u64>, Vec<u8>)>)
        requires
            fill_ok(*self, *dialog),
            closed matches Some(id) && id != self.btn_cancel ==> all_digits(edit_text(*dialog, self.pattern), 16)
                && spec_offset(*dialog, self.rctl.start, self.rctl.max) <= spec_offset(
                *dialog,
                self.rctl.end,
                self.rctl.max,
            ),
        ensures
            match closed {
                Some(id) => if id != self.btn_cancel {
                    r matches Some((range, p)) && range.start == spec_offset(*dialog, self.rctl.start, self.rctl.max)
                        && range.end == spec_offset(*dialog, self.rctl.end, self.rctl.max) + 1 && p@ == typed_pattern(
                        edit_text(*dialog, self.pattern),
                    )
                } else {
                    r is None
                },
                None => r is None,
            },
    {
        match closed {
            Some(id) => {
                if id != self.btn_cancel {
                    let range = self.rctl.get(dialog).unwrap();
                    let pattern = self.get_pattern(dialog);
                    Some((range, pattern))
                } else {
                    None
                }
            },
            None => None,
        }
    }
}

/// Text of a pattern field completed to whole bytes.
pub fn complete_pattern(value: &str) -> (r: Option<String>)
    ensures
        match r {
            Some(t) => value@.len() == 0 && t@ == "00"@ || value@.len() > 0 && byte_len(value@) % 2 != 0 && t@
                == value@.push('0'),
            None => value@.len() > 0 && byte_len(value@) % 2 == 0,
        },
{
    if value.unicode_len() == 0 {
        proof {
            reveal_strlit("00");
        }
        Some(String::from_str("00"))
    } else if value.len() % 2 != 0 {
        let mut v = String::from_str(value);
        push_char(&mut v, '0');
        Some(v)
    } else {
        None
    }
}

impl DialogHandler for FillDialog {
    open spec fn closes(&self, dialog: Dialog, item: ItemId) -> bool {
        ok_cancel_closes(dialog, self.btn_ok, self.btn_cancel, item)
    }

    /// Closing is allowed with Cancel, or while OK is enabled.
    fn on_close(&mut self, dialog: &mut Dialog, item: ItemId) -> (r: bool)
        ensures
            *final(dialog) == *old(dialog),
    {
        if !(self.btn_ok < dialog.items.len()) {
            return item == self.btn_cancel;
        }
        item == self.btn_cancel || dialog.get_context(self.btn_ok).enabled
    }

    /// The range control follows the change; OK is enabled while the
    /// range is valid.
    fn on_item_change(&mut self, dialog: &mut Dialog, item: ItemId)
        ensures
            fill_ok(*old(self), *old(dialog)) ==> final(dialog).items@[old(self).btn_ok as int].context.enabled
                == range_valid(old(self).rctl, *final(dialog)),
    {
        if !(self.btn_ok < dialog.items.len()) {
            return;
        }
        self.rctl.on_item_change(dialog, item);
        if self.rctl.fits(dialog) {
            let valid = self.rctl.get(dialog).is_some();
            let ghost before = *dialog;
            dialog.set_enabled(self.btn_ok, valid);
            proof {
                let c = self.rctl;
                assert(dialog.items@[c.start as int].widget == before.items@[c.start as int].widget);
                assert(dialog.items@[c.end as int].widget == before.items@[c.end as int].widget);
                assert(range_valid(c, *dialog) == range_valid(c, before));
            }
        }
    }

    /// A left pattern field is completed to whole bytes; the range fields
    /// are left to the range control.
    fn on_focus_lost(&mut self, dialog: &mut Dialog, item: ItemId)
        ensures
            fill_ok(*old(self), *old(dialog)) && item == old(self).pattern && old(dialog).items@[item as int].widget is Edit
                ==> edit_text(*final(dialog), item)
                == completed_pattern(edit_text(*old(dialog), item)),
    {
        if item == self.pattern {
            if item < dialog.items.len() {
                let value = dialog.edit_value(item);
                proof {
                    reveal_strlit("00");
                }
                if let Some(text) = complete_pattern(value) {
                    dialog.set_value(item, text);
                }
            }
        } else {
            self.rctl.on_focus_lost(dialog, item);
        }
    }
}

} // verus!

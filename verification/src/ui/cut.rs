//! "Cut out range" dialog.
use crate::ui::dialog::{buttons_line, rows_above, Dialog, DialogHandler, DialogType, ItemId, NO_ITEM, ok_cancel_closes};
use crate::ui::range::{range_valid, edit_text, range_ok, spec_offset, RangeControl, DIALOG_WIDTH};
use std::ops::Range;
use vstd::prelude::*;
use vstd::string::StringExecFns;

verus! {

/// "Cut out range" dialog.
pub struct CutDialog {
    pub rctl: RangeControl,
    pub btn_ok: ItemId,
    pub btn_cancel: ItemId,
}

/// The ids of the dialog lie within it.
pub open spec fn cut_ok(c: CutDialog, d: Dialog) -> bool {
    &&& range_ok(c.rctl, d)
    &&& c.btn_ok < d.items@.len()
    &&& c.btn_cancel < d.items@.len()
}

impl CutDialog {
    /// Build the dialog: the range of one byte at `offset` in a file of
    /// `max` bytes, and a warning.
    pub fn create(offset: u64, max: u64) -> (r: (Dialog, CutDialog))
        requires
            offset < max,
        ensures
            cut_ok(r.1, r.0),
            r.1.rctl.max == max,
            edit_text(r.0, r.1.rctl.start) == crate::num::spec_digits(offset as nat, 16),
            edit_text(r.0, r.1.rctl.end) == crate::num::spec_digits(offset as nat, 16),
            r.0.items@[r.1.btn_ok as int].context.enabled,
            r.0.focus == NO_ITEM,
    {
        let mut dlg = Dialog::new(DIALOG_WIDTH, 6, DialogType::Normal, "Cut out range");
        let rctl = RangeControl::create(&mut dlg, Range { start: offset, end: offset + 1 }, max);
        dlg.add_separator();
        proof {
            reveal_strlit("WARNING!");
            reveal_strlit("This operation cannot be undone!");
        }
        dlg.add_center(String::from_str("WARNING!"));
        dlg.add_center(String::from_str("This operation cannot be undone!"));
        assert(rows_above(dlg.items@, buttons_line(dlg)));
        let (btn_ok, btn_cancel) = dlg.add_ok_cancel();
        (dlg, CutDialog { rctl, btn_ok, btn_cancel })
    }

    /// Result of the closed dialog (`closed`: the item it was closed with,
    /// `None` if canceled): the range, unless canceled or invalid.
    pub fn result(&self, dialog: &Dialog, closed: Option<ItemId>) -> (r: Option<Range<u64>>)
        requires
            cut_ok(*self, *dialog),
        ensures
            ({
                let s = spec_offset(*dialog, self.rctl.start, self.rctl.max);
                let e = spec_offset(*dialog, self.rctl.end, self.rctl.max);
                match r {
                    Some(range) => closed matches Some(id) && id != self.btn_cancel && s <= e && range.start == s
                        && range.end == e + 1,
                    None => closed is None || closed == Some(self.btn_cancel) || e < s,
                }
            }),
    {
        match closed {
            Some(id) => {
                if id != self.btn_cancel {
                    self.rctl.get(dialog)
                } else {
                    None
                }
            },
            None => None,
        }
    }
}

impl DialogHandler for CutDialog {
    open spec fn closes(&self, dialog: Dialog, item: ItemId) -> bool {
        ok_cancel_closes(dialog, self.btn_ok, self.btn_cancel, item)
    }

    /// Closing is allowed with Cancel, or while OK is enabled.
    fn on_close(&mut self, dialog: &mut Dialog, item: ItemId) -> (r: bool)
        ensures
            *final(dialog) == *old(dialog),
    {
        if !(self.btn_ok < dialog.items.len()) {
            return item == self.btn_cancel;
        }
        item == self.btn_cancel || dialog.get_context(self.btn_ok).enabled
    }

    /// The range control follows the change; OK is enabled while the
    /// range is valid.
    fn on_item_change(&mut self, dialog: &mut Dialog, item: ItemId)
        ensures
            cut_ok(*old(self), *old(dialog)) ==> final(dialog).items@[old(self).btn_ok as int].context.enabled
                == range_valid(old(self).rctl, *final(dialog)),
    {
        if !(self.btn_ok < dialog.items.len()) {
            return;
        }
        self.rctl.on_item_change(dialog, item);
        if self.rctl.fits(dialog) {
            let valid = self.rctl.get(dialog).is_some();
            let ghost before = *dialog;
            dialog.set_enabled(self.btn_ok, valid);
            proof {
                let c = self.rctl;
                assert(dialog.items@[c.start as int].widget == before.items@[c.start as int].widget);
                assert(dialog.items@[c.end as int].widget == before.items@[c.end as int].widget);
                assert(range_valid(c, *dialog) == range_valid(c, before));
            }
        }
    }

    /// The range control completes a left field.
    fn on_focus_lost(&mut self, dialog: &mut Dialog, item: ItemId)
        ensures
            cut_ok(*old(self), *old(dialog)) && (item == old(self).rctl.start || item == old(self).rctl.end)
                && old(dialog).items@[item as int].widget is Edit ==> edit_text(*final(dialog), item)
                == crate::num::spec_digits(spec_offset(*old(dialog), item, old(self).rctl.max) as nat, 16),
    {
        self.rctl.on_focus_lost(dialog, item);
    }
}

} // verus!

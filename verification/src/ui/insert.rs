//! "Insert bytes" dialog: how many bytes, where, and the fill pattern.
use crate::history::{hex_string, hex_text};
use crate::num::{all_digits, parse_u64, spec_digits, to_hex};
use crate::ui::dialog::{
    buttons_line, rows_above, Dialog, DialogHandler, DialogType, ItemId, NO_ITEM, PADDING_X, PADDING_Y, ok_cancel_closes,
};
use crate::ui::fill::{complete_pattern, completed_pattern, typed_pattern};
use crate::ui::range::{edit_text, typed_number};
use crate::ui::widget::{InputFormat, InputLine, WidgetType};
use vstd::prelude::*;
use vstd::string::{StrSliceExecFns, StringExecFns};

verus! {

/// Width of the dialog.
pub const INSERT_WIDTH: usize = 42;

/// "Insert bytes" dialog.
pub struct InsertDialog {
    pub length: ItemId,
    pub offset: ItemId,
    pub pattern: ItemId,
    pub btn_ok: ItemId,
    pub btn_cancel: ItemId,
}

/// The ids of the dialog lie within it.
pub open spec fn insert_ok(s: InsertDialog, d: Dialog) -> bool {
    &&& s.length < d.items@.len()
    &&& s.offset < d.items@.len()
    &&& s.pattern < d.items@.len()
    &&& s.btn_ok < d.items@.len()
    &&& s.btn_cancel < d.items@.len()
}

/// Number typed into an input field in a radix (0 for other widgets).
pub open spec fn field_number(d: Dialog, item: ItemId, radix: int) -> int {
    if d.items@[item as int].widget is Edit {
        typed_number(edit_text(d, item), radix)
    } else {
        0
    }
}

/// The insert dialog as built for `offset` and `pattern`: one byte (in
/// decimal) at the offset (in hex), the pattern in hex.
pub open spec fn insert_built(d: Dialog, s: InsertDialog, offset: u64, pattern: Seq<u8>) -> bool {
    &&& insert_ok(s, d)
    &&& d.items@[s.length as int].widget is Edit
    &&& d.items@[s.offset as int].widget is Edit
    &&& d.items@[s.pattern as int].widget is Edit
    &&& edit_text(d, s.length) == "1"@
    &&& edit_text(d, s.offset) == spec_digits(offset as nat, 16)
    &&& edit_text(d, s.pattern) == hex_text(pattern)
}

/// Confirming the insert dialog as it was built gives back what it was
/// built with: the offset, one byte, and the pattern (one zero byte where
/// the pattern is empty).
pub proof fn law_insert_defaults(d: Dialog, s: InsertDialog, offset: u64, pattern: Seq<u8>)
    requires
        insert_built(d, s, offset, pattern),
    ensures
        field_number(d, s.offset, 16) == offset,
        field_number(d, s.length, 10) == 1,
        all_digits(edit_text(d, s.pattern), 16),
        typed_pattern(edit_text(d, s.pattern)) == if pattern.len() == 0 {
            seq![0u8]
        } else {
            pattern
        },
{
    reveal_strlit("1");
    crate::num::lemma_parse_digits(offset as nat, 16, u64::MAX as int);
    crate::num::lemma_parse_digits(1, 10, u64::MAX as int);
    assert(spec_digits(1, 10) =~= "1"@);
    crate::history::lemma_hex_text_pairs(pattern);
    if pattern.len() == 0 {
        assert(hex_text(pattern) =~= Seq::<char>::empty());
    } else {
        assert(hex_text(pattern).len() > 0);
    }
}

impl InsertDialog {
    /// Build the dialog: one byte at `offset`, the last pattern.
    pub fn create(offset: u64, pattern: &[u8]) -> (r: (Dialog, InsertDialog))
        ensures
            insert_built(r.0, r.1, offset, pattern@),
            r.0.items@[r.1.btn_ok as int].context.enabled,
            r.0.focus == NO_ITEM,
    {
        let mut dlg = Dialog::new(INSERT_WIDTH, 7, DialogType::Normal, "Insert bytes");
        dlg.add_line(WidgetType::StaticText(String::from_str("Insert        bytes at offset")));
        let widget = InputLine::new(String::from_str("1"), InputFormat::DecUnsigned, Vec::new(), 6);
        let length = dlg.add(PADDING_X + 7, PADDING_Y, 6, WidgetType::Edit(widget));
        let widget = InputLine::new(to_hex(offset), InputFormat::HexUnsigned, Vec::new(), 12);
        let offset_id = dlg.add(PADDING_X + 30, PADDING_Y, 12, WidgetType::Edit(widget));
        dlg.add_separator();
        dlg.add_line(WidgetType::StaticText(String::from_str("Fill with pattern:")));
        let text = hex_string(pattern);
        let widget = InputLine::new(text, InputFormat::HexStream, Vec::new(), INSERT_WIDTH);
        let pattern_id = dlg.add_line(WidgetType::Edit(widget));
        dlg.add_separator();
        proof {
            reveal_strlit("WARNING!");
            reveal_strlit("This operation cannot be undone!");
        }
        dlg.add_center(String::from_str("WARNING!"));
        dlg.add_center(String::from_str("This operation cannot be undone!"));
        assert(rows_above(dlg.items@, buttons_line(dlg)));
        let (btn_ok, btn_cancel) = dlg.add_ok_cancel();
        let handler = InsertDialog { length, offset: offset_id, pattern: pattern_id, btn_ok, btn_cancel };
        (dlg, handler)
    }

    /// Pattern typed into the dialog (a zero byte where empty).
    pub fn get_pattern(&self, dialog: &Dialog) -> (r: Vec<u8>)
        requires
            self.pattern < dialog.items@.len(),
            all_digits(edit_text(*dialog, self.pattern), 16),
        ensures
            r@ == typed_pattern(edit_text(*dialog, self.pattern)),
    {
        let value = dialog.edit_value(self.pattern);
        if value.unicode_len() > 0 {
            crate::num::hex_pairs(value)
        } else {
            let mut r: Vec<u8> = Vec::new();
            r.push(0);
            r
        }
    }

    /// Result of the closed dialog: the offset, the number of bytes and
    /// the pattern, unless canceled.
    pub fn result(&self, dialog: &Dialog, closed: Option<ItemId>) -> (r: Option<(u64, u64, Vec<u8>)>)
        requires
            insert_ok(*self, *dialog),
            closed matches Some(id) && id != self.btn_cancel ==> all_digits(edit_text(*dialog, self.pattern), 16),
        ensures
            match r {
                Some((offset, length, pattern)) => closed matches Some(id) && id != self.btn_cancel && offset
                    == field_number(*dialog, self.offset, 16) && length == field_number(*dialog, self.length, 10)
                    && pattern@ == typed_pattern(edit_text(*dialog, self.pattern)),
                None => closed is None || closed == Some(self.btn_cancel),
            },
    {
        match closed {
            Some(id) => {
                if id != self.btn_cancel {
                    let length = number_of(dialog, self.length, 10);
                    let offset = number_of(dialog, self.offset, 16);
                    let pattern = self.get_pattern(dialog);
                    Some((offset, length, pattern))
                } else {
                    None
                }
            },
            None => None,
        }
    }
}

/// Number typed into an input field (0 where none).
pub fn number_of(dialog: &Dialog, item: ItemId, radix: u32) -> (r: u64)
    requires
        item < dialog.items@.len(),
        2 <= radix <= 36,
    ensures
        r == field_number(*dialog, item, radix as int),
{
    if let WidgetType::Edit(widget) = dialog.get_widget(item) {
        proof {
            crate::num::lemma_parse_unsigned_bounds(widget.value@, radix as int, u64::MAX as int);
        }
        match parse_u64(widget.get_value(), radix) {
            Some(v) => v,
            None => 0,
        }
    } else {
        0
    }
}

impl DialogHandler for InsertDialog {
    open spec fn closes(&self, dialog: Dialog, item: ItemId) -> bool {
        ok_cancel_closes(dialog, self.btn_ok, self.btn_cancel, item)
    }

    /// Closing is allowed with Cancel, or while OK is enabled.
    fn on_close(&mut self, dialog: &mut Dialog, item: ItemId) -> (r: bool)
        ensures
            *final(dialog) == *old(dialog),
    {
        if !(self.btn_ok < dialog.items.len()) {
            return item == self.btn_cancel;
        }
        item == self.btn_cancel || dialog.get_context(self.btn_ok).enabled
    }

    /// OK is enabled while the number of bytes is not zero.
    fn on_item_change(&mut self, dialog: &mut Dialog, item: ItemId)
        ensures
            insert_ok(*old(self), *old(dialog)) && item == old(self).length && old(dialog).items@[item as int].widget is Edit
                ==> final(dialog).items@[old(self).btn_ok as int].context.enabled == (field_number(
                *old(dialog),
                item,
                10,
            ) != 0),
    {
        if item == self.length && self.length < dialog.items.len() && self.btn_ok < dialog.items.len() {
            if let WidgetType::Edit(_) = dialog.get_widget(self.length) {
                let is_valid = number_of(dialog, self.length, 10) != 0;
                dialog.set_enabled(self.btn_ok, is_valid);
            }
        }
    }

    /// An empty number field gets `0`; a pattern field is completed to
    /// whole bytes.
    fn on_focus_lost(&mut self, dialog: &mut Dialog, item: ItemId)
        ensures
            insert_ok(*old(self), *old(dialog)) && (item == old(self).length || item == old(self).offset) && old(
                dialog,
            ).items@[item as int].widget is Edit ==> edit_text(*final(dialog), item) == (if edit_text(
                *old(dialog),
                item,
            ).len() == 0 {
                "0"@
            } else {
                edit_text(*old(dialog), item)
            }),
            insert_ok(*old(self), *old(dialog)) && item != old(self).length && item != old(self).offset && item
                == old(self).pattern && old(dialog).items@[item as int].widget is Edit ==> edit_text(*final(dialog), item)
                == completed_pattern(edit_text(*old(dialog), item)),
    {
        if !(item < dialog.items.len()) {
            return;
        }
        proof {
            reveal_strlit("0");
            reveal_strlit("00");
        }
        if item == self.length || item == self.offset {
            if dialog.edit_value(item).unicode_len() == 0 {
                dialog.set_value(item, String::from_str("0"));
            }
        } else if item == self.pattern {
            let value = dialog.edit_value(item);
            if let Some(text) = complete_pattern(value) {
                dialog.set_value(item, text);
            }
        }
    }
}

} // verus!

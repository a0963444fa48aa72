//! "Search" dialog: the sequence as hex and as text, and the direction.
use crate::curses::char_from_u32;
use crate::history::{hex_string, hex_text};
use crate::num::{all_digits, hex_pairs, is_hex_text, spec_digits, spec_hex_pairs};
use crate::text::{push_char, to_chars};
use crate::ui::dialog::{buttons_line, rows_above, Dialog, DialogHandler, DialogType, ItemId, NO_ITEM, ok_cancel_closes};
use crate::ui::fill::complete_pattern;
use crate::ui::range::edit_text;
use crate::ui::widget::{byte_len, CheckBox, InputFormat, InputLine, WidgetType};
use vstd::prelude::*;
use vstd::string::{StrSliceExecFns, StringExecFns};

verus! {

/// Width of the input fields.
pub const SEARCH_WIDTH: usize = 40;

/// Character shown for a byte that is not printable.
pub const NPCHAR: char = '\u{b7}';

/// "Search" dialog.
pub struct SearchDialog {
    pub hex: ItemId,
    pub ascii: ItemId,
    pub btn_ok: ItemId,
    pub btn_cancel: ItemId,
}

/// The ids of the dialog lie within it and differ.
pub open spec fn search_ok(s: SearchDialog, d: Dialog) -> bool {
    &&& s.hex < d.items@.len()
    &&& s.ascii < d.items@.len()
    &&& s.btn_ok < d.items@.len()
    &&& s.btn_cancel < d.items@.len()
    &&& s.hex != s.ascii
    &&& s.hex != s.btn_ok
    &&& s.ascii != s.btn_ok
}

/// Text view of bytes: printable ones as themselves, others as a dot.
pub open spec fn ascii_view(bytes: Seq<u8>) -> Seq<char> {
    Seq::new(bytes.len(), |i: int| if 0x20 < bytes[i] < 0x7f {
        bytes[i] as char
    } else {
        NPCHAR
    })
}

/// Bytes of a text field: the dot stands for zero, other characters for
/// the low byte of their code.
pub open spec fn text_bytes(text: Seq<char>) -> Seq<u8> {
    Seq::new(text.len(), |i: int| if text[i] == NPCHAR {
        0u8
    } else {
        ((text[i] as u32) % 256) as u8
    })
}

/// Sequence typed into the hex field: its bytes, if it is not empty.
pub open spec fn typed_sequence(d: Dialog, s: SearchDialog) -> Option<Seq<u8>> {
    if d.items@[s.hex as int].widget is Edit && edit_text(d, s.hex).len() > 0 {
        Some(spec_hex_pairs(edit_text(d, s.hex)))
    } else {
        None
    }
}

/// The hex field of the search dialog that holds the hex text of a
/// non-empty sequence reads back as the sequence; an empty field holds no
/// sequence.
pub proof fn law_sequence_reads_back(d: Dialog, s: SearchDialog, x: Seq<u8>)
    requires
        s.hex < d.items@.len(),
        d.items@[s.hex as int].widget is Edit,
        edit_text(d, s.hex) == hex_text(x),
    ensures
        typed_sequence(d, s) == if x.len() == 0 {
            None::<Seq<u8>>
        } else {
            Some(x)
        },
{
    crate::history::lemma_hex_text_pairs(x);
    crate::history::lemma_hex_text_digits(x);
}

impl SearchDialog {
    /// Build the dialog: the hex field holds the last sequence of the
    /// history (which it offers), the text field follows it.
    pub fn create(sequences: &Vec<Vec<u8>>, backward: bool) -> (r: (Dialog, SearchDialog, ItemId))
        ensures
            search_ok(r.1, r.0),
            r.0.items@[r.1.hex as int].widget is Edit,
            edit_text(r.0, r.1.hex) == (if sequences@.len() == 0 {
                Seq::<char>::empty()
            } else {
                hex_text(sequences@[0]@)
            }),
            r.2 < r.0.items@.len(),
            r.0.items@[r.2 as int].widget matches WidgetType::CheckBox(c) && c.state == backward,
            r.0.focus == NO_ITEM,
    {
        let mut dlg = Dialog::new(SEARCH_WIDTH, 6, DialogType::Normal, "Search");
        dlg.add_line(WidgetType::StaticText(String::from_str("Hex sequence to search:")));
        let mut history: Vec<String> = Vec::new();
        let mut i: usize = 0;
        while i < sequences.len()
            invariant
                i <= sequences@.len(),
                history@.len() == i,
                forall|k: int| 0 <= k < i ==> #[trigger] history@[k]@ == hex_text(sequences@[k]@),
            decreases sequences.len() - i,
        {
            history.push(hex_string(sequences[i].as_slice()));
            i = i + 1;
        }
        let init = if history.len() == 0 {
            String::new()
        } else {
            history[0].clone()
        };
        let widget = InputLine::new(init, InputFormat::HexStream, history, SEARCH_WIDTH);
        let hex = dlg.add_line(WidgetType::Edit(widget));
        dlg.add_line(WidgetType::StaticText(String::from_str("ASCII:")));
        let widget = InputLine::new(String::new(), InputFormat::Any, Vec::new(), SEARCH_WIDTH);
        let ascii = dlg.add_line(WidgetType::Edit(widget));
        dlg.add_separator();
        let widget = CheckBox { state: backward, title: String::from_str("Backward search") };
        let bkg = dlg.add_line(WidgetType::CheckBox(widget));
        assert(rows_above(dlg.items@, buttons_line(dlg)));
        let (btn_ok, btn_cancel) = dlg.add_ok_cancel();
        let mut handler = SearchDialog { hex, ascii, btn_ok, btn_cancel };
        handler.on_item_change(&mut dlg, hex);
        (dlg, handler, bkg)
    }

    /// Sequence typed into the hex field, if any (a field with other
    /// characters than hex digits gives none).
    pub fn get_sequence(&self, dialog: &Dialog) -> (r: Option<Vec<u8>>)
        requires
            self.hex < dialog.items@.len(),
        ensures
            match r {
                Some(v) => typed_sequence(*dialog, *self) == Some(v@) && all_digits(edit_text(*dialog, self.hex), 16),
                None => typed_sequence(*dialog, *self) is None || !all_digits(edit_text(*dialog, self.hex), 16),
            },
    {
        if let WidgetType::Edit(widget) = dialog.get_widget(self.hex) {
            let value = widget.get_value();
            if value.unicode_len() > 0 && is_hex_text(value) {
                return Some(hex_pairs(value));
            }
        }
        None
    }

    /// Result of the closed dialog: the sequence and the direction, unless
    /// canceled.
    pub fn result(&self, dialog: &Dialog, closed: Option<ItemId>, bkg: ItemId, backward: bool) -> (r: Option<(Vec<u8>, bool)>)
        requires
            search_ok(*self, *dialog),
            bkg < dialog.items@.len(),
        ensures
            match r {
                Some((seq, dir)) => closed matches Some(id) && id != self.btn_cancel && typed_sequence(*dialog, *self)
                    == Some(seq@) && dir == (match dialog.items@[bkg as int].widget {
                    WidgetType::CheckBox(c) => c.state,
                    _ => backward,
                }),
                None => closed is None || closed == Some(self.btn_cancel) || typed_sequence(*dialog, *self) is None
                    || !all_digits(edit_text(*dialog, self.hex), 16),
            },
    {
        match closed {
            Some(id) => {
                if id != self.btn_cancel {
                    if let Some(seq) = self.get_sequence(dialog) {
                        let dir = match dialog.get_widget(bkg) {
                            WidgetType::CheckBox(widget) => widget.state,
                            _ => backward,
                        };
                        return Some((seq, dir));
                    }
                }
                None
            },
            None => None,
        }
    }
}

/// Text view of bytes.
pub fn ascii_text(bytes: &Vec<u8>) -> (r: String)
    ensures
        r@ == ascii_view(bytes@),
{
    let mut r = String::new();
    let mut i: usize = 0;
    while i < bytes.len()
        invariant
            i <= bytes@.len(),
            r@ == ascii_view(bytes@.subrange(0, i as int)),
        decreases bytes.len() - i,
    {
        let b = bytes[i];
        let c = if 0x20 < b && b < 0x7f {
            char_from_u32(b as u32).unwrap()
        } else {
            NPCHAR
        };
        push_char(&mut r, c);
        assert(r@ =~= ascii_view(bytes@.subrange(0, i + 1)));
        i = i + 1;
    }
    assert(bytes@.subrange(0, i as int) =~= bytes@);
    r
}

/// Hex text of a text field.
pub fn text_hex(text: &str) -> (r: String)
    ensures
        r@ == hex_text(text_bytes(text@)),
{
    let chars = to_chars(text);
    let mut bytes: Vec<u8> = Vec::new();
    let mut i: usize = 0;
    while i < chars.len()
        invariant
            chars@ == text@,
            i <= chars@.len(),
            bytes@ == text_bytes(text@.subrange(0, i as int)),
        decreases chars.len() - i,
    {
        let c = chars[i];
        let b: u8 = if c == NPCHAR {
            0
        } else {
            ((c as u32) % 256) as u8
        };
        bytes.push(b);
        assert(bytes@ =~= text_bytes(text@.subrange(0, i + 1)));
        i = i + 1;
    }
    assert(text@.subrange(0, i as int) =~= text@);
    hex_string(bytes.as_slice())
}

impl DialogHandler for SearchDialog {
    open spec fn closes(&self, dialog: Dialog, item: ItemId) -> bool {
        ok_cancel_closes(dialog, self.btn_ok, self.btn_cancel, item)
    }

    /// Closing is allowed with Cancel, or while OK is enabled.
    fn on_close(&mut self, dialog: &mut Dialog, item: ItemId) -> (r: bool)
        ensures
            *final(dialog) == *old(dialog),
    {
        if !(self.btn_ok < dialog.items.len()) {
            return item == self.btn_cancel;
        }
        item == self.btn_cancel || dialog.get_context(self.btn_ok).enabled
    }

    /// The other field follows the changed one; OK is enabled while there
    /// is a sequence.
    fn on_item_change(&mut self, dialog: &mut Dialog, item: ItemId)
        ensures
            *final(self) == *old(self),
            final(dialog).items@.len() == old(dialog).items@.len(),
            forall|i: int| 0 <= i < old(dialog).items@.len() ==> (#[trigger] final(dialog).items@[i].widget is Edit
                <==> old(dialog).items@[i].widget is Edit),
            forall|i: int|
                0 <= i < old(dialog).items@.len() && i != old(self).hex && i != old(self).ascii && i != old(self).btn_ok
                    ==> #[trigger] final(dialog).items@[i] == old(dialog).items@[i],
            search_ok(*old(self), *old(dialog)) && item == old(self).hex ==> final(dialog).items@[old(self).hex as int]
                == old(dialog).items@[old(self).hex as int],
            search_ok(*old(self), *old(dialog)) && item == old(self).hex && all_digits(edit_text(*old(dialog), item), 16)
                && old(dialog).items@[old(self).ascii as int].widget is Edit ==> match typed_sequence(*old(dialog), *old(self)) {
                Some(seq) => edit_text(*final(dialog), old(self).ascii) == ascii_view(seq),
                None => true,
            },
            search_ok(*old(self), *old(dialog)) && item == old(self).ascii && item != old(self).hex
                && old(dialog).items@[item as int].widget is Edit && old(dialog).items@[old(self).hex as int].widget is Edit
                ==> edit_text(*final(dialog), old(self).hex) == hex_text(text_bytes(edit_text(*old(dialog), item))),
            search_ok(*old(self), *old(dialog)) ==> final(dialog).items@[old(self).btn_ok as int].context.enabled == (if item
                == old(self).hex {
                typed_sequence(*old(dialog), *old(self)) matches Some(seq) && seq.len() > 0 && all_digits(
                    edit_text(*old(dialog), item),
                    16,
                )
            } else if item == old(self).ascii {
                old(dialog).items@[item as int].widget is Edit && edit_text(*old(dialog), item).len() > 0
            } else {
                true
            }),
    {
        if !(self.hex < dialog.items.len() && self.ascii < dialog.items.len() && self.btn_ok < dialog.items.len()
            && self.hex != self.ascii && self.hex != self.btn_ok && self.ascii != self.btn_ok) {
            return;
        }
        let mut is_ok = false;
        if item == self.hex {
            if let Some(hex) = self.get_sequence(dialog) {
                let ascii = ascii_text(&hex);
                dialog.set_value(self.ascii, ascii);
                is_ok = hex.len() > 0;
            }
        } else if item == self.ascii {
            if let WidgetType::Edit(widget) = dialog.get_widget(self.ascii) {
                let hex = text_hex(widget.get_value());
                is_ok = hex.unicode_len() > 0;
                dialog.set_value(self.hex, hex);
            }
        } else {
            is_ok = true;
        }
        dialog.set_enabled(self.btn_ok, is_ok);
    }

    /// A left hex field is completed to whole bytes.
    fn on_focus_lost(&mut self, dialog: &mut Dialog, item: ItemId)
        ensures
            item == old(self).hex && item < old(dialog).items@.len() && old(dialog).items@[item as int].widget is Edit
                && edit_text(*old(dialog), item).len() > 0 && byte_len(edit_text(*old(dialog), item)) % 2 != 0
                ==> edit_text(*final(dialog), item) == edit_text(
                *old(dialog),
                item,
            ).push('0'),
    {
        if item == self.hex && item < dialog.items.len() {
            let value = dialog.edit_value(item);
            if value.unicode_len() > 0 {
                if let Some(text) = complete_pattern(value) {
                    dialog.set_value(item, text);
                }
            }
        }
    }
}

} // verus!

//! "Goto" dialog: an absolute or relative offset, in hex or decimal, each
//! field following the others.
use crate::num::{parse_i64, parse_u64, spec_digits, spec_parse_i64, spec_parse_unsigned, spec_signed_dec, to_dec, to_hex, to_signed_dec};
use crate::text::append_str;
use crate::ui::dialog::{
    buttons_line, rows_above, Dialog, DialogHandler, DialogType, ItemId, NO_ITEM, PADDING_X, PADDING_Y,
};
use crate::ui::range::{edit_text, typed_number};
use crate::ui::widget::{InputFormat, InputLine, WidgetType};
use vstd::prelude::*;
use vstd::string::{StrSliceExecFns, StringExecFns};

verus! {

/// Width of the input fields.
pub const INP_WIDTH: usize = 17;

/// "Goto" dialog.
pub struct GotoDialog {
    pub current: u64,
    pub abs_hex: ItemId,
    pub abs_dec: ItemId,
    pub rel_hex: ItemId,
    pub rel_dec: ItemId,
}

/// The ids of the dialog lie within it.
pub open spec fn goto_ok(g: GotoDialog, d: Dialog) -> bool {
    &&& g.abs_hex < d.items@.len()
    &&& g.abs_dec < d.items@.len()
    &&& g.rel_hex < d.items@.len()
    &&& g.rel_dec < d.items@.len()
    &&& g.abs_hex != g.abs_dec
    &&& g.abs_hex != g.rel_hex
    &&& g.abs_hex != g.rel_dec
    &&& g.abs_dec != g.rel_hex
    &&& g.abs_dec != g.rel_dec
    &&& g.rel_hex != g.rel_dec
}

/// The item is one of the fields of the dialog.
pub open spec fn is_field(g: GotoDialog, i: int) -> bool {
    i == g.abs_hex || i == g.abs_dec || i == g.rel_hex || i == g.rel_dec
}

/// Signed number typed into a field (0 where none).
pub open spec fn typed_signed(text: Seq<char>, radix: int) -> int {
    match spec_parse_i64(text, radix) {
        Some(v) => v,
        None => 0,
    }
}

/// Offset typed into the field `source`: absolute offsets as typed,
/// relative ones from the current offset (0 where that would go below the
/// start of the file).
pub open spec fn goto_target(d: Dialog, g: GotoDialog, source: ItemId) -> u64 {
    if d.items@[source as int].widget is Edit {
        let text = edit_text(d, source);
        if source == g.abs_hex {
            typed_number(text, 16) as u64
        } else if source == g.abs_dec {
            typed_number(text, 10) as u64
        } else {
            let rel = if source == g.rel_hex {
                typed_signed(text, 16)
            } else {
                typed_signed(text, 10)
            };
            if rel >= 0 {
                g.current.wrapping_add(rel as u64)
            } else if -rel < g.current {
                (g.current + rel) as u64
            } else {
                0
            }
        }
    } else {
        0
    }
}

/// The offset that a field of the dialog gives: an absolute field gives the
/// number typed into it (hex or decimal; 0 for text that is no number); a
/// relative field moves from the current offset by the signed number typed
/// into it, going round past the largest offset when moving forward and
/// stopping at the start of the file when moving backward.
pub proof fn law_goto_target(d: Dialog, g: GotoDialog, source: ItemId)
    requires
        goto_ok(g, d),
        is_field(g, source as int),
        d.items@[source as int].widget is Edit,
    ensures
        ({
            let text = edit_text(d, source);
            let t = goto_target(d, g, source) as int;
            let radix: int = if source == g.abs_hex || source == g.rel_hex {
                16
            } else {
                10
            };
            &&& (source == g.abs_hex || source == g.abs_dec) ==> t == match spec_parse_unsigned(
                text,
                radix,
                u64::MAX as int,
            ) {
                Some(v) => v,
                None => 0,
            }
            &&& (source == g.rel_hex || source == g.rel_dec) ==> ({
                let r = match spec_parse_i64(text, radix) {
                    Some(v) => v,
                    None => 0,
                };
                &&& r >= 0 && g.current + r <= u64::MAX ==> t == g.current + r
                &&& r >= 0 && g.current + r > u64::MAX ==> t == g.current + r - 0x1_0000_0000_0000_0000
                &&& r < 0 && g.current + r > 0 ==> t == g.current + r
                &&& r < 0 && g.current + r <= 0 ==> t == 0
            })
        }),
{
    crate::num::lemma_parse_unsigned_bounds(edit_text(d, source), 16, u64::MAX as int);
    crate::num::lemma_parse_unsigned_bounds(edit_text(d, source), 10, u64::MAX as int);
    crate::num::lemma_parse_i64_bounds(edit_text(d, source), 16);
    crate::num::lemma_parse_i64_bounds(edit_text(d, source), 10);
}

/// The fields agree: once the other fields followed a changed field, each
/// of them reads back as the offset typed into the changed one. For the
/// relative fields this is stated where the offset and the current offset
/// lie below 2^63.
pub proof fn law_fields_agree(g: GotoDialog, a: Dialog, b: Dialog, source: ItemId, f: ItemId)
    requires
        goto_ok(g, a),
        goto_ok(g, b),
        source < a.items@.len(),
        fields_follow(g, a, b, source),
        is_field(g, f as int),
        f != source,
        a.items@[f as int].widget is Edit,
        b.items@[f as int].widget is Edit,
        (f == g.rel_hex || f == g.rel_dec) ==> goto_target(a, g, source) < 0x8000_0000_0000_0000 && g.current
            < 0x8000_0000_0000_0000,
    ensures
        goto_target(b, g, f) == goto_target(a, g, source),
{
    let off = goto_target(a, g, source);
    if f == g.abs_hex {
        crate::num::lemma_parse_digits(off as nat, 16, u64::MAX as int);
    } else if f == g.abs_dec {
        crate::num::lemma_parse_digits(off as nat, 10, u64::MAX as int);
    } else {
        let rel = relative_of(off, g.current);
        assert(rel == off - g.current);
        if f == g.rel_hex {
            reveal_strlit("-");
            if rel < 0 {
                let t = relative_hex(rel);
                crate::num::lemma_parse_digits((-rel) as nat, 16, 0x8000_0000_0000_0000);
                crate::num::lemma_digits_roundtrip((-rel) as nat, 16);
                assert(t.drop_first() =~= spec_digits((-rel) as nat, 16));
                assert(spec_parse_i64(t, 16) == Some(rel as int));
            } else {
                crate::num::lemma_parse_digits(rel as nat, 16, 0x7fff_ffff_ffff_ffff);
            }
            assert(typed_signed(edit_text(b, f), 16) == rel);
        } else {
            crate::num::lemma_parse_signed_dec(rel as int);
            assert(typed_signed(edit_text(b, f), 10) == rel);
        }
    }
}

/// Offset relative to the current one (as the two's complement difference
/// of 64-bit numbers).
pub open spec fn relative_of(offset: u64, current: u64) -> i64 {
    (offset as i64).wrapping_sub(current as i64)
}

/// Relative offset in hex: a minus sign for negative ones, then the digits
/// of the magnitude.
pub open spec fn relative_hex(r: i64) -> Seq<char> {
    if r < 0 {
        "-"@ + spec_digits((-r) as nat, 16)
    } else {
        spec_digits(r as nat, 16)
    }
}

/// Dialog `b` after the field `source` of `a` changed: each other field
/// shows the offset typed into `source` in its own format.
pub open spec fn fields_follow(g: GotoDialog, a: Dialog, b: Dialog, source: ItemId) -> bool {
    goto_ok(g, a) && source < a.items@.len() ==> ({
        let offset = goto_target(a, g, source);
        let rel = relative_of(offset, g.current);
        &&& source != g.abs_hex && a.items@[g.abs_hex as int].widget is Edit ==> edit_text(b, g.abs_hex)
            == spec_digits(offset as nat, 16)
        &&& source != g.abs_dec && a.items@[g.abs_dec as int].widget is Edit ==> edit_text(b, g.abs_dec)
            == spec_digits(offset as nat, 10)
        &&& source != g.rel_hex && a.items@[g.rel_hex as int].widget is Edit ==> edit_text(b, g.rel_hex)
            == relative_hex(rel)
        &&& source != g.rel_dec && a.items@[g.rel_dec as int].widget is Edit ==> edit_text(b, g.rel_dec)
            == spec_signed_dec(rel as int)
    })
}

impl GotoDialog {
    /// Build the dialog: the absolute field holds the last address of the
    /// history (which it offers), the others follow it.
    pub fn create(history: &[u64], current: u64) -> (r: (Dialog, GotoDialog))
        ensures
            goto_ok(r.1, r.0),
            r.1.current == current,
            r.0.items@[r.1.abs_hex as int].widget is Edit,
            edit_text(r.0, r.1.abs_hex) == (if history@.len() == 0 {
                Seq::<char>::empty()
            } else {
                spec_digits(history@[0] as nat, 16)
            }),
            r.0.focus == NO_ITEM,
    {
        let mut dlg = Dialog::new(44, 6, DialogType::Normal, "Goto");
        dlg.add_line(WidgetType::StaticText(String::from_str("Absolute offset")));
        dlg.add_line(WidgetType::StaticText(String::from_str("hex:")));
        let mut hist: Vec<String> = Vec::new();
        let mut i: usize = 0;
        while i < history.len()
            invariant
                i <= history@.len(),
                hist@.len() == i,
                forall|k: int| 0 <= k < i ==> #[trigger] hist@[k]@ == spec_digits(history@[k] as nat, 16),
            decreases history.len() - i,
        {
            hist.push(to_hex(history[i]));
            i = i + 1;
        }
        let init = if hist.len() == 0 {
            String::new()
        } else {
            hist[0].clone()
        };
        let widget = InputLine::new(init, InputFormat::HexUnsigned, hist, INP_WIDTH);
        let abs_hex = dlg.add(PADDING_X + 4, PADDING_Y + 1, INP_WIDTH, WidgetType::Edit(widget));
        dlg.add(PADDING_X + 23, PADDING_Y + 1, 4, WidgetType::StaticText(String::from_str("dec:")));
        let widget = InputLine::new(String::new(), InputFormat::DecUnsigned, Vec::new(), INP_WIDTH);
        let abs_dec = dlg.add(PADDING_X + 27, PADDING_Y + 1, INP_WIDTH, WidgetType::Edit(widget));
        dlg.add_separator();
        dlg.add_line(WidgetType::StaticText(String::from_str("Relative offset")));
        dlg.add_line(WidgetType::StaticText(String::from_str("hex:")));
        let widget = InputLine::new(String::new(), InputFormat::HexSigned, Vec::new(), INP_WIDTH);
        let rel_hex = dlg.add(PADDING_X + 4, PADDING_Y + 4, INP_WIDTH, WidgetType::Edit(widget));
        dlg.add(PADDING_X + 23, PADDING_Y + 4, 4, WidgetType::StaticText(String::from_str("dec:")));
        let widget = InputLine::new(String::new(), InputFormat::DecSigned, Vec::new(), INP_WIDTH);
        let rel_dec = dlg.add(PADDING_X + 27, PADDING_Y + 4, INP_WIDTH, WidgetType::Edit(widget));
        assert(rows_above(dlg.items@, buttons_line(dlg)));
        dlg.add_ok_cancel();
        let mut handler = GotoDialog { current, abs_hex, abs_dec, rel_hex, rel_dec };
        let ghost before = dlg;
        handler.update(&mut dlg, abs_hex);
        (dlg, handler)
    }

    /// Result of the closed dialog: the absolute offset typed (0 where it
    /// is none), unless canceled.
    pub fn result(&self, dialog: &Dialog, closed: Option<ItemId>, btn_cancel: ItemId) -> (r: Option<u64>)
        requires
            goto_ok(*self, *dialog),
        ensures
            match r {
                Some(v) => closed matches Some(id) && id != btn_cancel && dialog.items@[self.abs_hex as int].widget is Edit
                    && v == typed_number(edit_text(*dialog, self.abs_hex), 16),
                None => closed is None || closed == Some(btn_cancel) || !(dialog.items@[self.abs_hex as int].widget is Edit),
            },
    {
        match closed {
            Some(id) => {
                if id != btn_cancel {
                    if let WidgetType::Edit(widget) = dialog.get_widget(self.abs_hex) {
                        proof {
                            crate::num::lemma_parse_unsigned_bounds(widget.value@, 16, u64::MAX as int);
                        }
                        return Some(
                            match parse_u64(widget.get_value(), 16) {
                                Some(v) => v,
                                None => 0,
                            },
                        );
                    }
                }
                None
            },
            None => None,
        }
    }

    /// Offset typed into the field `source`.
    fn target(&self, dialog: &Dialog, source: ItemId) -> (r: u64)
        requires
            goto_ok(*self, *dialog),
            source < dialog.items@.len(),
        ensures
            r == goto_target(*dialog, *self, source),
    {
        let mut offset: u64 = 0;
        if let WidgetType::Edit(widget) = dialog.get_widget(source) {
            let value = widget.get_value();
            proof {
                crate::num::lemma_parse_unsigned_bounds(widget.value@, 16, u64::MAX as int);
                crate::num::lemma_parse_unsigned_bounds(widget.value@, 10, u64::MAX as int);
                crate::num::lemma_parse_i64_bounds(widget.value@, 16);
                crate::num::lemma_parse_i64_bounds(widget.value@, 10);
            }
            if source == self.abs_hex {
                offset = match parse_u64(value, 16) {
                    Some(v) => v,
                    None => 0,
                };
            } else if source == self.abs_dec {
                offset = match parse_u64(value, 10) {
                    Some(v) => v,
                    None => 0,
                };
            } else {
                let relative: i64 = if source == self.rel_hex {
                    match parse_i64(value, 16) {
                        Some(v) => v,
                        None => 0,
                    }
                } else {
                    match parse_i64(value, 10) {
                        Some(v) => v,
                        None => 0,
                    }
                };
                if relative >= 0 {
                    offset = self.current.wrapping_add(relative as u64);
                } else if relative > i64::MIN && ((-relative) as u64) < self.current {
                    offset = self.current - ((-relative) as u64);
                } else if relative == i64::MIN && 0x8000_0000_0000_0000u64 < self.current {
                    offset = self.current - 0x8000_0000_0000_0000u64;
                }
            }
        }
        offset
    }

    /// Fill every field but `source` with the offset typed into it.
    pub fn update(&mut self, dialog: &mut Dialog, source: ItemId)
        ensures
            *final(self) == *old(self),
            final(dialog).items@.len() == old(dialog).items@.len(),
            final(dialog).focus == old(dialog).focus,
            fields_follow(*old(self), *old(dialog), *final(dialog), source),
            forall|i: int|
                0 <= i < old(dialog).items@.len() && (i == source || !is_field(*old(self), i))
                    ==> #[trigger] final(dialog).items@[i] == old(dialog).items@[i],
            forall|i: int|
                0 <= i < old(dialog).items@.len() ==> (#[trigger] final(dialog).items@[i].widget is Edit
                    <==> old(dialog).items@[i].widget is Edit),
    {
        if !(self.abs_hex < dialog.items.len() && self.abs_dec < dialog.items.len() && self.rel_hex
            < dialog.items.len() && self.rel_dec < dialog.items.len() && source < dialog.items.len()
            && self.abs_hex != self.abs_dec && self.abs_hex != self.rel_hex && self.abs_hex != self.rel_dec
            && self.abs_dec != self.rel_hex && self.abs_dec != self.rel_dec && self.rel_hex != self.rel_dec) {
            return;
        }
        let offset = self.target(dialog, source);
        let rel: i64 = (offset as i64).wrapping_sub(self.current as i64);
        proof {
            reveal_strlit("-");
            crate::num::lemma_digits_len(offset as nat, 16);
            crate::num::lemma_digits_len(offset as nat, 10);
        }
        if source != self.abs_hex {
            dialog.set_value(self.abs_hex, to_hex(offset));
        }
        if source != self.abs_dec {
            dialog.set_value(self.abs_dec, to_dec(offset));
        }
        if source != self.rel_hex {
            let magnitude: u64 = if rel >= 0 {
                rel as u64
            } else if rel == i64::MIN {
                0x8000_0000_0000_0000u64
            } else {
                (-rel) as u64
            };
            let mut text = String::new();
            if rel < 0 {
                append_str(&mut text, "-");
            }
            let digits = to_hex(magnitude);
            proof {
                crate::num::lemma_digits_len(magnitude as nat, 16);
            }
            append_str(&mut text, digits.as_str());
            dialog.set_value(self.rel_hex, text);
        }
        if source != self.rel_dec {
            let text = to_signed_dec(rel);
            proof {
                let m: int = if rel < 0 { -(rel as int) } else { rel as int };
                crate::num::lemma_digits_len(m as nat, 10);
            }
            dialog.set_value(self.rel_dec, text);
        }
    }
}

impl DialogHandler for GotoDialog {
    open spec fn closes(&self, dialog: Dialog, item: ItemId) -> bool {
        true
    }

    /// Closing is always allowed.
    fn on_close(&mut self, dialog: &mut Dialog, item: ItemId) -> (r: bool)
        ensures
            r,
            *final(dialog) == *old(dialog),
    {
        true
    }

    /// The other fields follow the changed one.
    fn on_item_change(&mut self, dialog: &mut Dialog, item: ItemId)
        ensures
            fields_follow(*old(self), *old(dialog), *final(dialog), item),
            *final(self) == *old(self),
    {
        self.update(dialog, item);
    }

    /// A left empty field gets `0`, and the others follow it.
    fn on_focus_lost(&mut self, dialog: &mut Dialog, item: ItemId)
        ensures
            item < old(dialog).items@.len() && old(dialog).items@[item as int].widget is Edit && edit_text(
                *old(dialog),
                item,
            ).len() == 0 ==> edit_text(*final(dialog), item) == "0"@ || !goto_ok(*old(self), *old(dialog)),
    {
        if !(item < dialog.items.len()) {
            return;
        }
        if let WidgetType::Edit(widget) = dialog.get_widget(item) {
            if widget.get_value().unicode_len() == 0 {
                dialog.set_value(item, String::from_str("0"));
                proof {
                    reveal_strlit("0");
                }
                self.update(dialog, item);
            }
        }
    }
}

} // verus!

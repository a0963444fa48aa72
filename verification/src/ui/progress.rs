//! Progress window of long operations.
use crate::curses::{Key, KeyPress};
use crate::ui::dialog::{lemma_row_width_none, new_context, Dialog, DialogItem, DialogType, ItemId, PADDING_X, PADDING_Y};
use crate::ui::widget::{button_text, StandardButton, WidgetType};
use vstd::prelude::*;

verus! {

/// Progress dialog.
pub struct ProgressDialog {
    /// The window.
    pub dlg: Dialog,
    /// Item of the progress bar.
    pub bar: ItemId,
    /// Ask the user before an abort.
    pub confirm: bool,
}

impl ProgressDialog {
    /// Create new progress window: a bar at 0% above a Cancel button.
    pub fn new(title: &str, confirm: bool) -> (r: Self)
        ensures
            r.dlg.width == 50 + 2 * PADDING_X,
            r.dlg.height == 1 + 2 * PADDING_Y + 2,
            r.dlg.dtype == DialogType::Normal,
            r.dlg.title@ == " "@ + title@ + " "@,
            r.dlg.items@.len() == 3,
            r.bar == 1,
            r.dlg.items@[1].widget == WidgetType::ProgressBar(0),
            r.dlg.items@[1].context == new_context(PADDING_X, PADDING_Y, 50),
            r.dlg.items@[2].widget matches WidgetType::Button(b) && b.text@ == button_text(StandardButton::Cancel, true)
                && b.default,
            r.confirm == confirm,
    {
        let mut dlg = Dialog::new(50, 1, DialogType::Normal, title);
        let bar = dlg.add_line(WidgetType::ProgressBar(0));
        let ghost y = (dlg.height - PADDING_Y - 1) as usize;
        proof {
            reveal_strlit("{ ");
            reveal_strlit(" }");
            reveal_strlit("Cancel");
            assert forall|i: int| 0 <= i < dlg.items@.len() implies #[trigger] dlg.items@[i].context.y != y by {
                assert(i == 0 || i == 1);
            }
            lemma_row_width_none(dlg.items@, y);
        }
        let ghost items0 = dlg.items@;
        dlg.add_button(StandardButton::Cancel, true);
        proof {
            assert(dlg.items@.take(2)[1] == dlg.items@[1]);
        }
        ProgressDialog { dlg, bar, confirm }
    }

    /// Show `percent` on the bar.
    pub fn set_percent(&mut self, percent: u8)
        requires
            percent <= 100,
        ensures
            final(self).bar == old(self).bar,
            final(self).confirm == old(self).confirm,
            if old(self).bar < old(self).dlg.items@.len() && old(self).dlg.items@[old(self).bar as int].widget is ProgressBar {
                final(self).dlg.items@ == old(self).dlg.items@.update(
                    old(self).bar as int,
                    DialogItem {
                        widget: WidgetType::ProgressBar(percent),
                        context: old(self).dlg.items@[old(self).bar as int].context,
                    },
                )
            } else {
                final(self).dlg.items@ == old(self).dlg.items@
            },
            final(self).dlg.width == old(self).dlg.width,
            final(self).dlg.height == old(self).dlg.height,
            final(self).dlg.focus == old(self).dlg.focus,
    {
        let bar = self.bar;
        if bar < self.dlg.items.len() {
            if let WidgetType::ProgressBar(_) = &self.dlg.items[bar].widget {
                let it = self.dlg.items.remove(bar);
                let item = DialogItem { widget: WidgetType::ProgressBar(percent), context: it.context };
                self.dlg.items.insert(bar, item);
                assert(self.dlg.items@ =~= old(self).dlg.items@.update(
                    bar as int,
                    DialogItem { widget: WidgetType::ProgressBar(percent), context: old(self).dlg.items@[bar as int].context },
                ));
            }
        }
    }

    /// Keys that interrupt the operation: Esc, Enter and space.
    pub fn is_abort_key(key: &KeyPress) -> (r: bool)
        ensures
            r == (key.key == Key::Esc || key.key == Key::Enter || key.key == Key::Char(' ')),
    {
        match key.key {
            Key::Esc | Key::Enter => true,
            Key::Char(c) => c == ' ',
            _ => false,
        }
    }
}

} // verus!

//! "Save as" dialog: the name of the new file.
use crate::ui::dialog::{buttons_line, rows_above, Dialog, DialogHandler, DialogType, ItemId, NO_ITEM, ok_cancel_closes};
use crate::ui::range::edit_text;
use crate::ui::widget::{InputFormat, InputLine, WidgetType};
use vstd::prelude::*;
use vstd::string::{StrSliceExecFns, StringExecFns};

verus! {

/// Width of the file name field.
pub const SAVEAS_WIDTH: usize = 40;

/// "Save as" dialog.
pub struct SaveAsDialog {
    pub path: ItemId,
    pub btn_ok: ItemId,
    pub btn_cancel: ItemId,
}

/// The ids of the dialog lie within it.
pub open spec fn saveas_ok(s: SaveAsDialog, d: Dialog) -> bool {
    &&& s.path < d.items@.len()
    &&& s.btn_ok < d.items@.len()
    &&& s.btn_cancel < d.items@.len()
}

impl SaveAsDialog {
    /// Build the dialog with the default file name; OK is enabled while the
    /// name is not empty.
    pub fn create(default: String) -> (r: (Dialog, SaveAsDialog))
        ensures
            saveas_ok(r.1, r.0),
            r.0.items@[r.1.path as int].widget is Edit,
            edit_text(r.0, r.1.path) == default@,
            r.0.items@[r.1.btn_ok as int].context.enabled == (default@.len() > 0),
            r.0.focus == NO_ITEM,
    {
        let mut dlg = Dialog::new(SAVEAS_WIDTH, 2, DialogType::Normal, "Save as");
        dlg.add_line(WidgetType::StaticText(String::from_str("File name:")));
        let edit = InputLine::new(default, InputFormat::Any, Vec::new(), SAVEAS_WIDTH);
        let path = dlg.add_line(WidgetType::Edit(edit));
        assert(rows_above(dlg.items@, buttons_line(dlg)));
        let (btn_ok, btn_cancel) = dlg.add_ok_cancel();
        let mut handler = SaveAsDialog { path, btn_ok, btn_cancel };
        handler.on_item_change(&mut dlg, path);
        (dlg, handler)
    }

    /// Result of the closed dialog: the file name, unless canceled.
    pub fn result(&self, dialog: &Dialog, closed: Option<ItemId>) -> (r: Option<String>)
        requires
            saveas_ok(*self, *dialog),
        ensures
            match r {
                Some(name) => closed matches Some(id) && id != self.btn_cancel && dialog.items@[self.path as int].widget is Edit
                    && name@ == edit_text(*dialog, self.path),
                None => closed is None || closed == Some(self.btn_cancel) || !(dialog.items@[self.path as int].widget is Edit),
            },
    {
        match closed {
            Some(id) => {
                if id != self.btn_cancel {
                    if let WidgetType::Edit(widget) = dialog.get_widget(self.path) {
                        return Some(String::from_str(widget.get_value()));
                    }
                }
                None
            },
            None => None,
        }
    }
}

impl DialogHandler for SaveAsDialog {
    open spec fn closes(&self, dialog: Dialog, item: ItemId) -> bool {
        ok_cancel_closes(dialog, self.btn_ok, self.btn_cancel, item)
    }

    /// Closing is allowed with Cancel, or while OK is enabled.
    fn on_close(&mut self, dialog: &mut Dialog, item: ItemId) -> (r: bool)
        ensures
            *final(dialog) == *old(dialog),
    {
        if !(self.btn_ok < dialog.items.len()) {
            return item == self.btn_cancel;
        }
        item == self.btn_cancel || dialog.get_context(self.btn_ok).enabled
    }

    /// OK is enabled while the name is not empty.
    fn on_item_change(&mut self, dialog: &mut Dialog, item: ItemId)
        ensures
            saveas_ok(*old(self), *old(dialog)) && item == old(self).path ==> final(dialog).items@[old(self).btn_ok as int].context.enabled
                == (match old(dialog).items@[old(self).path as int].widget {
                WidgetType::Edit(e) => e.value@.len() > 0,
                _ => true,
            }),
            saveas_ok(*old(self), *old(dialog)) && item == old(self).path ==> final(dialog).items@[old(self).path as int]
                == old(dialog).items@[old(self).path as int] || old(self).path == old(self).btn_ok,
            item != old(self).path ==> *final(dialog) == *old(dialog),
            *final(self) == *old(self),
    {
        if item == self.path && self.path < dialog.items.len() && self.btn_ok < dialog.items.len() {
            let is_ok = match dialog.get_widget(self.path) {
                WidgetType::Edit(widget) => widget.get_value().unicode_len() > 0,
                _ => true,
            };
            dialog.set_enabled(self.btn_ok, is_ok);
        }
    }

    fn on_focus_lost(&mut self, dialog: &mut Dialog, item: ItemId)
        ensures
            *final(dialog) == *old(dialog),
    {
    }
}

} // verus!

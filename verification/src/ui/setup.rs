//! "Setup" dialog: the width mode and the ASCII table of the viewer.
use crate::ui::dialog::{buttons_line, rows_above, Dialog, DialogType, ItemId, NO_ITEM};
use crate::ui::widget::{CheckBox, ListBox, WidgetType};
use vstd::prelude::*;
use vstd::string::StringExecFns;

verus! {

/// "Setup" dialog: the ids of its items.
pub struct SetupDialog {
    pub fixed: ItemId,
    pub ascii: ItemId,
    pub btn_cancel: ItemId,
}

/// Position in the list of the current table: one past the index of the
/// last table with its identifier (0, "None", where there is none).
pub open spec fn table_choice_index(tables: Seq<(String, String)>, current: Option<Seq<char>>, n: int) -> int
    decreases n,
{
    if n <= 0 {
        0
    } else {
        match current {
            Some(id) => if tables[n - 1].0@ == id {
                n
            } else {
                table_choice_index(tables, current, n - 1)
            },
            None => 0,
        }
    }
}

impl SetupDialog {
    /// Build the dialog for the current setup; `tables` holds the
    /// identifiers and names of the ASCII tables.
    pub fn create(fixed_width: bool, ascii_table: &Option<String>, tables: &Vec<(String, String)>) -> (r: (
        Dialog,
        SetupDialog,
    ))
        requires
            tables@.len() + 1 < usize::MAX,
        ensures
            r.1.fixed < r.0.items@.len(),
            r.1.ascii < r.0.items@.len(),
            r.1.btn_cancel < r.0.items@.len(),
            r.0.items@[r.1.fixed as int].widget matches WidgetType::CheckBox(c) && c.state == fixed_width,
            r.0.items@[r.1.ascii as int].widget matches WidgetType::ListBox(l) && l.list@.len() == tables@.len() + 1
                && (forall|i: int| 0 <= i < tables@.len() ==> #[trigger] l.list@[i + 1]@ == tables@[i].1@)
                && l.current == table_choice_index(
                tables@,
                match ascii_table {
                    Some(t) => Some(t@),
                    None => None,
                },
                tables@.len() as int,
            ),
            r.0.focus == NO_ITEM,
    {
        let mut dlg = Dialog::new(27, 4, DialogType::Normal, "Setup");
        let checkbox = CheckBox { state: fixed_width, title: String::from_str("Fixed width (16 bytes)") };
        let fixed = dlg.add_line(WidgetType::CheckBox(checkbox));
        dlg.add_separator();
        dlg.add_line(WidgetType::StaticText(String::from_str("ASCII field:")));
        let ghost current = match ascii_table {
            Some(t) => Some(t@),
            None => None,
        };
        let mut select: usize = 0;
        let mut list: Vec<String> = Vec::new();
        list.push(String::from_str("None (hide)"));
        let mut i: usize = 0;
        while i < tables.len()
            invariant
                i <= tables@.len(),
                tables@.len() + 1 < usize::MAX,
                list@.len() == i + 1,
                forall|k: int| 0 <= k < i ==> #[trigger] list@[k + 1]@ == tables@[k].1@,
                select == table_choice_index(tables@, current, i as int),
                current == (match ascii_table {
                    Some(t) => Some(t@),
                    None => None,
                }),
            decreases tables.len() - i,
        {
            list.push(tables[i].1.clone());
            if let Some(cur) = ascii_table {
                if crate::text::str_eq(cur.as_str(), tables[i].0.as_str()) {
                    select = i + 1;
                }
            }
            i = i + 1;
        }
        let listbox = ListBox { list, current: select };
        let ascii = dlg.add_line(WidgetType::ListBox(listbox));
        assert(rows_above(dlg.items@, buttons_line(dlg)));
        let (_, btn_cancel) = dlg.add_ok_cancel();
        (dlg, SetupDialog { fixed, ascii, btn_cancel })
    }

    /// Result of the closed dialog: the width mode and the identifier of the
    /// chosen table (none for "None"), unless canceled.
    pub fn result(&self, dialog: &Dialog, closed: Option<ItemId>, tables: &Vec<(String, String)>) -> (r: Option<(bool, Option<String>)>)
        requires
            self.fixed < dialog.items@.len(),
            self.ascii < dialog.items@.len(),
            dialog.items@[self.fixed as int].widget is CheckBox,
            dialog.items@[self.ascii as int].widget is ListBox,
        ensures
            match r {
                Some((fixed, table)) => closed matches Some(id) && id != self.btn_cancel && (dialog.items@[self.fixed as int].widget
                    matches WidgetType::CheckBox(c) && c.state == fixed) && (dialog.items@[self.ascii as int].widget matches WidgetType::ListBox(
                    l,
                ) && match table {
                    Some(t) => 0 < l.current <= tables@.len() && t@ == tables@[l.current - 1].0@,
                    None => l.current == 0 || l.current > tables@.len(),
                }),
                None => closed is None || closed == Some(self.btn_cancel),
            },
    {
        match closed {
            Some(id) => {
                if id == self.btn_cancel {
                    return None;
                }
                let fixed = match dialog.get_widget(self.fixed) {
                    WidgetType::CheckBox(widget) => widget.state,
                    _ => false,
                };
                let table = match dialog.get_widget(self.ascii) {
                    WidgetType::ListBox(widget) => {
                        if widget.current == 0 || widget.current > tables.len() {
                            None
                        } else {
                            Some(tables[widget.current - 1].0.clone())
                        }
                    },
                    _ => None,
                };
                Some((fixed, table))
            },
            None => None,
        }
    }
}

} // verus!

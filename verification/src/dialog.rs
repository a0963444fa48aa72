//! Classic dialogs: items placed by coordinates, and rules that link them.
use crate::widget::WidgetData;
use vstd::prelude::*;
use vstd::string::StrSliceExecFns;

verus! {

/// Dialog type.
#[derive(Clone, Copy, PartialEq, Eq, Structural, Debug)]
pub enum DialogType {
    Normal,
    Error,
}

/// Type of dialog's item ID.
pub type ItemId = isize;

/// Rule part: data for the target item, made from the data of the source.
pub trait CopyData {
    fn copy_data(&self, data: &WidgetData) -> (r: Option<WidgetData>);
}

/// Rule part: new state of the target item, made from the data of the source.
pub trait StateChange {
    fn set_state(&self, data: &WidgetData) -> (r: Option<bool>);
}

/// Rule part: whether the data of the item lets the dialog close.
pub trait AllowExit {
    fn allow_exit(&self, data: &WidgetData) -> (r: bool);
}

/// Dialog rules.
pub enum DialogRule {
    /// Copy data from one widget to another if first one has been changed.
    CopyData(ItemId, ItemId, Box<dyn CopyData>),
    /// Enable or disable item depending on source data.
    StateChange(ItemId, ItemId, Box<dyn StateChange>),
    /// Check for exit.
    AllowExit(ItemId, Box<dyn AllowExit>),
}

/// Text of a widget's data, if it holds one.
pub open spec fn data_text(data: WidgetData) -> Option<Seq<char>> {
    match data {
        WidgetData::Text(v) => Some(v@),
        _ => None,
    }
}

/// Dialog rule: enables the item where the text is not empty.
pub struct StateOnEmpty;

impl StateChange for StateOnEmpty {
    fn set_state(&self, data: &WidgetData) -> (r: Option<bool>)
        ensures
            r == match data_text(*data) {
                Some(v) => Some(v.len() > 0),
                None => None,
            },
    {
        match data {
            WidgetData::Text(value) => Some(value.as_str().unicode_len() != 0),
            _ => None,
        }
    }
}

/// Dialog rule: prevents exit while the text is empty.
pub struct DisableEmpty;

impl AllowExit for DisableEmpty {
    fn allow_exit(&self, data: &WidgetData) -> (r: bool)
        ensures
            r == match data_text(*data) {
                Some(v) => v.len() > 0,
                None => true,
            },
    {
        match data {
            WidgetData::Text(value) => value.as_str().unicode_len() != 0,
            _ => true,
        }
    }
}

} // verus!

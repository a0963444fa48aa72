//! Dialog model: the items of a dialog window, their layout, the focus and
//! the handling of a key press.
use crate::curses::{Key, KeyPress, MOD_SHIFT};
use crate::text::{append_str, str_eq};
use crate::ui::widget::{
    button_text, glen, widget_keyed, widget_uses, grapheme_count, Button, StandardButton, WidgetContext, WidgetType,
};
use vstd::prelude::*;
use vstd::string::{StrSliceExecFns, StringExecFns};

verus! {

/// Size of the field between window edge and border.
pub const BORDER_X: usize = 3;
pub const BORDER_Y: usize = 1;
/// Size of the padding.
pub const PADDING_X: usize = 5;
pub const PADDING_Y: usize = 2;

/// Type of dialog item ID.
pub type ItemId = usize;

/// No item (nothing focused yet).
pub const NO_ITEM: ItemId = usize::MAX;

/// Dialog type.
#[derive(Clone, Copy, PartialEq, Eq, Structural, Debug)]
pub enum DialogType {
    Normal,
    Error,
}

/// Single dialog item.
pub struct DialogItem {
    pub widget: WidgetType,
    pub context: WidgetContext,
}

/// Dialog: its window size, items and focus.
pub struct Dialog {
    /// Width of the window.
    pub width: usize,
    /// Height of the window.
    pub height: usize,
    /// Dialog type (background color).
    pub dtype: DialogType,
    /// Dialog items.
    pub items: Vec<DialogItem>,
    /// Last used line number used by constructor.
    pub lcline: usize,
    /// Currently focused item.
    pub focus: ItemId,
    /// Title.
    pub title: String,
    /// Resize flag.
    pub resized: bool,
}

/// One step of a running dialog.
#[derive(Clone, Copy, PartialEq, Eq, Structural, Debug)]
pub enum DialogStep {
    /// Wait for the next event.
    Continue,
    /// The dialog is over: with the last focused item, or `None` if it was
    /// canceled.
    Close(Option<ItemId>),
}

/// Context of a new item.
pub open spec fn new_context(x: usize, y: usize, width: usize) -> WidgetContext {
    WidgetContext { focused: false, enabled: true, x, y, width }
}

/// The window can hold the padding and the buttons block.
pub open spec fn dialog_wf(d: Dialog) -> bool {
    d.width >= 2 * PADDING_X && d.height >= 2 * PADDING_Y + 2
}

/// The item can take the focus.
pub open spec fn can_focus(items: Seq<DialogItem>, i: int) -> bool {
    items[i].context.enabled && (items[i].widget is CheckBox || items[i].widget is Button
        || items[i].widget is ListBox || items[i].widget is Edit)
}

/// Item reached after `k` steps from `from` in the focus order (items wrap
/// around).
pub open spec fn focus_candidate(n: int, from: int, forward: bool, k: int) -> int {
    if forward {
        (from + k) % n
    } else {
        (from + n - k % n) % n
    }
}

/// Number of steps to the first item that can take the focus, if any
/// within one round.
pub open spec fn focus_steps(items: Seq<DialogItem>, from: int, forward: bool, k: int) -> Option<int>
    decreases items.len() + 1 - k,
{
    if k > items.len() || k < 1 {
        None
    } else if can_focus(items, focus_candidate(items.len() as int, from, forward, k)) {
        Some(k)
    } else {
        focus_steps(items, from, forward, k + 1)
    }
}

impl Dialog {
    /// Create new dialog: `width` and `height` of the useful area; the
    /// window adds the padding and the buttons block, whose separator is
    /// the first item.
    pub fn new(width: usize, height: usize, dt: DialogType, title: &str) -> (r: Self)
        requires
            width + 2 * PADDING_X <= usize::MAX,
            height + 2 * PADDING_Y + 2 <= usize::MAX,
        ensures
            r.width == width + 2 * PADDING_X,
            r.height == height + 2 * PADDING_Y + 2,
            r.dtype == dt,
            r.items@.len() == 1,
            r.items@[0].widget is Separator,
            r.items@[0].context == new_context(BORDER_X, (r.height - PADDING_Y - 2) as usize, (r.width - 2 * BORDER_X) as usize),
            r.lcline == PADDING_Y,
            r.focus == NO_ITEM,
            r.title@ == " "@ + title@ + " "@,
            !r.resized,
            dialog_wf(r),
            rows_above(r.items@, buttons_line(r)),
    {
        let width = width + PADDING_X * 2;
        let height = height + PADDING_Y * 2 + 2;
        let separator = DialogItem {
            widget: WidgetType::Separator,
            context: WidgetContext {
                focused: false,
                enabled: true,
                x: BORDER_X,
                y: height - PADDING_Y - 2,
                width: width - BORDER_X * 2,
            },
        };
        let mut t = String::new();
        append_str(&mut t, " ");
        append_str(&mut t, title);
        append_str(&mut t, " ");
        let mut items: Vec<DialogItem> = Vec::new();
        items.push(separator);
        Dialog {
            width,
            height,
            dtype: dt,
            items,
            lcline: PADDING_Y,
            focus: NO_ITEM,
            title: t,
            resized: false,
        }
    }

    /// Size of the dialog excluding borders and padding.
    pub fn get_size(&self) -> (r: (usize, usize))
        requires
            dialog_wf(*self),
        ensures
            r.0 == self.width - 2 * PADDING_X,
            r.1 == self.height - 2 * PADDING_Y,
    {
        (self.width - PADDING_X * 2, self.height - PADDING_Y * 2)
    }

    /// Add new widget onto dialog window; returns its item Id.
    pub fn add(&mut self, x: usize, y: usize, width: usize, widget: WidgetType) -> (r: ItemId)
        requires
            old(self).items@.len() < usize::MAX,
        ensures
            r == old(self).items@.len(),
            final(self).items@.len() == old(self).items@.len() + 1,
            forall|i: int| 0 <= i < old(self).items@.len() ==> final(self).items@[i] == old(self).items@[i],
            final(self).items@[r as int].widget == widget,
            final(self).items@[r as int].context == new_context(x, y, width),
            same_frame(*old(self), *final(self)),
            final(self).lcline == old(self).lcline,
            forall|b: int| rows_above(old(self).items@, b) && y < b ==> #[trigger] rows_above(final(self).items@, b),
    {
        let context = WidgetContext { focused: false, enabled: true, x, y, width };
        self.items.push(DialogItem { widget, context });
        self.items.len() - 1
    }

    /// Add new widget on the next line on dialog window.
    pub fn add_line(&mut self, widget: WidgetType) -> (r: ItemId)
        requires
            dialog_wf(*old(self)),
            old(self).items@.len() < usize::MAX,
            old(self).lcline < usize::MAX,
        ensures
            r == old(self).items@.len(),
            final(self).items@ == old(self).items@.push(
                DialogItem { widget, context: new_context(PADDING_X, old(self).lcline, (old(self).width - 2 * PADDING_X) as usize) },
            ),
            final(self).lcline == old(self).lcline + 1,
            same_frame(*old(self), *final(self)),
            forall|b: int| rows_above(old(self).items@, b) && old(self).lcline < b ==> #[trigger] rows_above(final(self).items@, b),
    {
        let (width, _) = self.get_size();
        let line = self.lcline;
        self.lcline = self.lcline + 1;
        let r = self.add(PADDING_X, line, width, widget);
        assert(self.items@ =~= old(self).items@.push(
            DialogItem { widget, context: new_context(PADDING_X, old(self).lcline, (old(self).width - 2 * PADDING_X) as usize) },
        ));
        r
    }

    /// Add centered text on the next line on dialog window.
    pub fn add_center(&mut self, text: String)
        requires
            dialog_wf(*old(self)),
            old(self).items@.len() < usize::MAX,
            old(self).lcline < usize::MAX,
            text@.len() <= old(self).width - 2 * PADDING_X || glen(text@) <= old(self).width - 2 * PADDING_X,
        ensures
            final(self).items@ == old(self).items@.push(
                DialogItem {
                    widget: WidgetType::StaticText(text),
                    context: new_context(
                        (PADDING_X + (old(self).width - 2 * PADDING_X) / 2 - glen(text@) / 2) as usize,
                        old(self).lcline,
                        glen(text@) as usize,
                    ),
                },
            ),
            final(self).lcline == old(self).lcline + 1,
            same_frame(*old(self), *final(self)),
            forall|b: int| rows_above(old(self).items@, b) && old(self).lcline < b ==> #[trigger] rows_above(final(self).items@, b),
    {
        let (width, _) = self.get_size();
        let len = grapheme_count(text.as_str());
        let x = PADDING_X + width / 2 - len / 2;
        let line = self.lcline;
        self.lcline = self.lcline + 1;
        let ghost t = text;
        self.add(x, line, len, WidgetType::StaticText(text));
        assert(self.items@ =~= old(self).items@.push(
            DialogItem {
                widget: WidgetType::StaticText(t),
                context: new_context(
                    (PADDING_X + (old(self).width - 2 * PADDING_X) / 2 - glen(t@) / 2) as usize,
                    old(self).lcline,
                    glen(t@) as usize,
                ),
            },
        ));
    }

    /// Add separator in the next line on dialog window.
    pub fn add_separator(&mut self)
        requires
            dialog_wf(*old(self)),
            old(self).items@.len() < usize::MAX,
            old(self).lcline < usize::MAX,
        ensures
            final(self).items@ == old(self).items@.push(
                DialogItem {
                    widget: WidgetType::Separator,
                    context: new_context(BORDER_X, old(self).lcline, (old(self).width - 2 * BORDER_X) as usize),
                },
            ),
            final(self).lcline == old(self).lcline + 1,
            same_frame(*old(self), *final(self)),
            forall|b: int| rows_above(old(self).items@, b) && old(self).lcline < b ==> #[trigger] rows_above(final(self).items@, b),
    {
        let width = self.width - BORDER_X * 2;
        let line = self.lcline;
        self.lcline = self.lcline + 1;
        self.add(BORDER_X, line, width, WidgetType::Separator);
        assert(self.items@ =~= old(self).items@.push(
            DialogItem {
                widget: WidgetType::Separator,
                context: new_context(BORDER_X, old(self).lcline, (old(self).width - 2 * BORDER_X) as usize),
            },
        ));
    }

    /// Enable or disable item.
    pub fn set_enabled(&mut self, item: ItemId, state: bool)
        requires
            item < old(self).items@.len(),
        ensures
            final(self).items@.len() == old(self).items@.len(),
            forall|i: int| 0 <= i < old(self).items@.len() && i != item ==> final(self).items@[i] == old(self).items@[i],
            final(self).items@[item as int].widget == old(self).items@[item as int].widget,
            final(self).items@[item as int].context == (WidgetContext { enabled: state, ..old(self).items@[item as int].context }),
            same_frame(*old(self), *final(self)),
            final(self).lcline == old(self).lcline,
    {
        let mut it = self.items.remove(item);
        it.context.enabled = state;
        self.items.insert(item, it);
    }

    /// Item widget.
    pub fn get_widget(&self, item: ItemId) -> (r: &WidgetType)
        requires
            item < self.items@.len(),
        ensures
            *r == self.items@[item as int].widget,
    {
        &self.items[item].widget
    }

    /// Item context.
    pub fn get_context(&self, item: ItemId) -> (r: &WidgetContext)
        requires
            item < self.items@.len(),
        ensures
            *r == self.items@[item as int].context,
    {
        &self.items[item].context
    }

    /// Set the value of an input field (other widgets stay as they are);
    /// the cursor goes to the start of the value.
    pub fn set_value(&mut self, item: ItemId, value: String)
        requires
            item < old(self).items@.len(),
        ensures
            final(self).items@.len() == old(self).items@.len(),
            forall|i: int| 0 <= i < old(self).items@.len() && i != item ==> final(self).items@[i] == old(self).items@[i],
            final(self).items@[item as int].context == old(self).items@[item as int].context,
            match old(self).items@[item as int].widget {
                WidgetType::Edit(a) => final(self).items@[item as int].widget matches WidgetType::Edit(b) && b.value
                    == value && !b.selection && b.cursor == 0 && (a.width > 0 ==> b.start == 0) && b.format == a.format
                    && b.width == a.width && b.history == a.history && b.current == a.current,
                _ => final(self).items@[item as int].widget == old(self).items@[item as int].widget,
            },
            same_frame(*old(self), *final(self)),
            final(self).lcline == old(self).lcline,
    {
        let mut it = self.items.remove(item);
        if let WidgetType::Edit(widget) = &mut it.widget {
            widget.set_value(value);
        }
        self.items.insert(item, it);
    }

    /// Value of an input field (empty for other widgets).
    pub fn edit_value(&self, item: ItemId) -> (r: &str)
        requires
            item < self.items@.len(),
        ensures
            r@ == match self.items@[item as int].widget {
                WidgetType::Edit(e) => e.value@,
                _ => Seq::empty(),
            },
    {
        match &self.items[item].widget {
            WidgetType::Edit(widget) => widget.get_value(),
            _ => {
                proof {
                    reveal_strlit("");
                }
                ""
            },
        }
    }

    /// Max width of the useful area of a dialog on a screen `width`
    /// columns wide.
    pub fn max_width(width: usize) -> (r: usize)
        ensures
            r == (if width < 2 * PADDING_X {
                0
            } else {
                width - 2 * PADDING_X
            }),
    {
        let padding = PADDING_X * 2;
        if width < padding {
            0
        } else {
            width - padding
        }
    }
}

/// The window, type, title, focus and resize flag are kept.
pub open spec fn same_frame(a: Dialog, b: Dialog) -> bool {
    &&& b.width == a.width
    &&& b.height == a.height
    &&& b.dtype == a.dtype
    &&& b.focus == a.focus
    &&& b.title == a.title
    &&& b.resized == a.resized
}

/// Total width of the items on line `y`, each with a space after it.
pub open spec fn row_width(items: Seq<DialogItem>, y: usize) -> int
    decreases items.len(),
{
    if items.len() == 0 {
        0
    } else {
        row_width(items.drop_last(), y) + if items.last().context.y == y {
            items.last().context.width + 1
        } else {
            0
        }
    }
}

/// Items with those on line `y` placed one after another from column `x`.
pub open spec fn row_placed(items: Seq<DialogItem>, y: usize, x: int) -> Seq<DialogItem> {
    Seq::new(
        items.len(),
        |i: int|
            if items[i].context.y == y {
                DialogItem {
                    widget: items[i].widget,
                    context: WidgetContext { x: (x + row_width(items.take(i), y)) as usize, ..items[i].context },
                }
            } else {
                items[i]
            },
    )
}

pub(crate) proof fn lemma_row_width_step(items: Seq<DialogItem>, y: usize, i: int)
    requires
        0 <= i < items.len(),
    ensures
        row_width(items.take(i + 1), y) == row_width(items.take(i), y) + if items[i].context.y == y {
            items[i].context.width + 1
        } else {
            0
        },
{
    assert(items.take(i + 1).drop_last() =~= items.take(i));
}

pub(crate) proof fn lemma_row_width_nonneg(items: Seq<DialogItem>, y: usize)
    ensures
        row_width(items, y) >= 0,
    decreases items.len(),
{
    if items.len() > 0 {
        lemma_row_width_nonneg(items.drop_last(), y);
    }
}

impl Dialog {
    /// Add standard button on dialog: the buttons line is centered, earlier
    /// buttons move left to make room. (Button texts are ASCII: their width
    /// is their number of characters.)
    pub fn add_button(&mut self, button: StandardButton, default: bool) -> (r: ItemId)
        requires
            dialog_wf(*old(self)),
            old(self).items@.len() < usize::MAX,
            button_text(button, default).len() + row_width(
                old(self).items@,
                (old(self).height - PADDING_Y - 1) as usize,
            ) <= old(self).width - 2 * PADDING_X,
        ensures
            ({
                let width = old(self).width - 2 * PADDING_X;
                let y = (old(self).height - PADDING_Y - 1) as usize;
                let btn_width = button_text(button, default).len();
                let total = btn_width + row_width(old(self).items@, y);
                let x = PADDING_X + width / 2 - total / 2;
                &&& r == old(self).items@.len()
                &&& final(self).items@.len() == old(self).items@.len() + 1
                &&& final(self).items@.take(r as int) == row_placed(old(self).items@, y, x)
                &&& final(self).items@[r as int].widget matches WidgetType::Button(b) && b.text@ == button_text(
                    button,
                    default,
                ) && b.default == default
                &&& final(self).items@[r as int].context == new_context(
                    (x + row_width(old(self).items@, y)) as usize,
                    y,
                    btn_width as usize,
                )
            }),
            same_frame(*old(self), *final(self)),
            final(self).lcline == old(self).lcline,
    {
        let text = button.text(default);
        let (width, height) = self.get_size();
        let btn_width = text.unicode_len();
        let btn_y = height + PADDING_Y - 1;
        let ghost items0 = self.items@;
        // total width of buttons on the same line
        let mut total_width = btn_width;
        let mut i: usize = 0;
        while i < self.items.len()
            invariant
                items0 == self.items@,
                i <= items0.len(),
                total_width == btn_width + row_width(items0.take(i as int), btn_y),
                btn_width + row_width(items0, btn_y) <= width,
                btn_y == old(self).height - PADDING_Y - 1,
            decreases self.items.len() - i,
        {
            proof {
                lemma_row_width_step(items0, btn_y, i as int);
                lemma_row_width_nonneg(items0.skip(i + 1), btn_y);
                lemma_row_width_split(items0, btn_y, i + 1);
            }
            if self.items[i].context.y == btn_y {
                total_width = total_width + self.items[i].context.width + 1;
            }
            i = i + 1;
        }
        assert(items0.take(i as int) =~= items0);
        // calculate position of the button
        let center = width / 2 - total_width / 2;
        let ghost x0 = PADDING_X + center;
        let mut move_x = center;
        let mut k: usize = 0;
        while k < self.items.len()
            invariant
                self.items@.len() == items0.len(),
                k <= items0.len(),
                move_x == center + row_width(items0.take(k as int), btn_y),
                center + row_width(items0, btn_y) <= width,
                x0 == PADDING_X + center,
                forall|j: int| 0 <= j < k ==> self.items@[j] == row_placed(items0, btn_y, x0)[j],
                forall|j: int| k <= j < items0.len() ==> self.items@[j] == items0[j],
                same_frame(*old(self), *self),
                self.lcline == old(self).lcline,
                dialog_wf(*self),
                width == self.width - 2 * PADDING_X,
            decreases self.items.len() - k,
        {
            proof {
                lemma_row_width_step(items0, btn_y, k as int);
                lemma_row_width_split(items0, btn_y, k + 1);
                lemma_row_width_nonneg(items0.skip(k + 1), btn_y);
            }
            if self.items[k].context.y == btn_y {
                let mut it = self.items.remove(k);
                it.context.x = PADDING_X + move_x;
                move_x = move_x + it.context.width + 1;
                self.items.insert(k, it);
            }
            k = k + 1;
        }
        assert(self.items@ =~= row_placed(items0, btn_y, x0));
        let btn_x = PADDING_X + move_x;
        let widget = WidgetType::Button(Button { text, default });
        self.add(btn_x, btn_y, btn_width, widget)
    }
}

proof fn lemma_row_width_split(items: Seq<DialogItem>, y: usize, i: int)
    requires
        0 <= i <= items.len(),
    ensures
        row_width(items, y) == row_width(items.take(i), y) + row_width(items.skip(i), y),
    decreases items.len(),
{
    if items.len() == i {
        assert(items.take(i) =~= items);
        assert(items.skip(i).len() == 0);
    } else {
        lemma_row_width_split(items.drop_last(), y, i);
        assert(items.drop_last().take(i) =~= items.take(i));
        assert(items.skip(i).drop_last() =~= items.drop_last().skip(i));
        assert(items.skip(i).last() == items.last());
    }
}

/// Dialog handlers: the parts of a running dialog that each dialog decides
/// for itself. A handler keeps the items and the focus of the dialog.
pub trait DialogHandler {
    /// Whether the dialog `dialog` may close with the item `item`.
    spec fn closes(&self, dialog: Dialog, item: ItemId) -> bool;

    /// Check if dialog can be closed (not canceled).
    fn on_close(&mut self, dialog: &mut Dialog, item: ItemId) -> (r: bool)
        ensures
            r == old(self).closes(*old(dialog), item),
            kept_items(*old(dialog), *final(dialog)),
    ;

    /// Item change callback.
    fn on_item_change(&mut self, dialog: &mut Dialog, item: ItemId)
        ensures
            kept_items(*old(dialog), *final(dialog)),
    ;

    /// Focus lost callback.
    fn on_focus_lost(&mut self, dialog: &mut Dialog, item: ItemId)
        ensures
            kept_items(*old(dialog), *final(dialog)),
    ;
}

/// The number of items and the focus stay as they were.
pub open spec fn kept_items(a: Dialog, b: Dialog) -> bool {
    &&& b.items@.len() == a.items@.len()
    &&& b.focus == a.focus
}

/// Closing is allowed with the Cancel button, or while the OK button is
/// enabled (with Cancel alone where there is no OK item).
pub open spec fn ok_cancel_closes(d: Dialog, btn_ok: ItemId, btn_cancel: ItemId, item: ItemId) -> bool {
    if btn_ok < d.items@.len() {
        item == btn_cancel || d.items@[btn_ok as int].context.enabled
    } else {
        item == btn_cancel
    }
}

/// Handler of dialogs that decide nothing for themselves.
pub struct DialogEmptyHandler;

impl DialogHandler for DialogEmptyHandler {
    open spec fn closes(&self, dialog: Dialog, item: ItemId) -> bool {
        true
    }

    /// Closing is always allowed.
    fn on_close(&mut self, dialog: &mut Dialog, item: ItemId) -> (r: bool)
        ensures
            r,
            *final(dialog) == *old(dialog),
    {
        true
    }

    /// Nothing changes.
    fn on_item_change(&mut self, dialog: &mut Dialog, item: ItemId)
        ensures
            *final(dialog) == *old(dialog),
    {
    }

    /// Nothing changes.
    fn on_focus_lost(&mut self, dialog: &mut Dialog, item: ItemId)
        ensures
            *final(dialog) == *old(dialog),
    {
    }
}

/// Item that can take the focus.
fn can_take_focus(item: &DialogItem) -> (r: bool)
    ensures
        r == (item.context.enabled && (item.widget is CheckBox || item.widget is Button
            || item.widget is ListBox || item.widget is Edit)),
{
    item.context.enabled && item.widget.focusable()
}

impl Dialog {
    /// Give the focus to the item `to`, taking it from the focused item.
    fn take_focus(&mut self, to: ItemId)
        requires
            old(self).focus < old(self).items@.len(),
            to < old(self).items@.len(),
        ensures
            final(self).focus == to,
            final(self).items@.len() == old(self).items@.len(),
            final(self).lcline == old(self).lcline,
            final(self).width == old(self).width,
            final(self).height == old(self).height,
            forall|i: int|
                0 <= i < old(self).items@.len() && i != to && i != old(self).focus ==> final(self).items@[i]
                    == old(self).items@[i],
            final(self).items@[to as int].context.focused,
            final(self).items@[to as int].context.enabled == old(self).items@[to as int].context.enabled,
            to != old(self).focus ==> !final(self).items@[old(self).focus as int].context.focused,
    {
        let from = self.focus;
        let mut it = self.items.remove(from);
        it.context.focused = false;
        self.items.insert(from, it);
        self.focus = to;
        let mut it = self.items.remove(to);
        it.context.focused = true;
        it.widget.focus_set();
        self.items.insert(to, it);
    }

    /// Set focus to the next (or previous) item that can take it; returns
    /// the item that lost the focus, or `None` if the focus stays.
    pub fn move_focus(&mut self, forward: bool) -> (r: Option<ItemId>)
        requires
            old(self).focus < old(self).items@.len(),
            old(self).items@.len() < usize::MAX,
        ensures
            match focus_steps(old(self).items@, old(self).focus as int, forward, 1) {
                Some(k) => {
                    let to = focus_candidate(old(self).items@.len() as int, old(self).focus as int, forward, k);
                    &&& final(self).focus == to
                    &&& r == if to == old(self).focus {
                        None
                    } else {
                        Some(old(self).focus)
                    }
                },
                None => final(self).focus == old(self).focus && r is None,
            },
            final(self).focus < final(self).items@.len(),
            final(self).items@.len() == old(self).items@.len(),
            final(self).lcline == old(self).lcline,
            final(self).width == old(self).width,
            final(self).height == old(self).height,
    {
        let n = self.items.len();
        let from = self.focus;
        let mut focus = from;
        let mut k: usize = 1;
        let ghost items0 = self.items@;
        proof {
            vstd::arithmetic::div_mod::lemma_small_mod(from as nat, n as nat);
            vstd::arithmetic::div_mod::lemma_small_mod(0, n as nat);
            vstd::arithmetic::div_mod::lemma_fundamental_div_mod_converse_mod((from + n) as int, n as int, 1, from as int);
        }
        loop
            invariant_except_break
                items0 == self.items@,
                n == items0.len(),
                n < usize::MAX,
                from < n,
                from == self.focus,
                1 <= k <= n + 1,
                focus < n,
                focus == focus_candidate(n as int, from as int, forward, (k - 1) as int),
                focus_steps(items0, from as int, forward, 1) == focus_steps(items0, from as int, forward, k as int),
            ensures
                items0 == self.items@,
                n == items0.len(),
                from < n,
                from == self.focus,
                focus < n,
                1 <= k <= n,
                focus == focus_candidate(n as int, from as int, forward, k as int),
                focus_steps(items0, from as int, forward, 1) == Some(k as int),
            decreases n + 1 - k,
        {
            if k > n {
                return None;
            }
            let next = if forward {
                if focus + 1 == n {
                    0
                } else {
                    focus + 1
                }
            } else {
                if focus == 0 {
                    n - 1
                } else {
                    focus - 1
                }
            };
            proof {
                lemma_candidate_step(n as int, from as int, forward, (k - 1) as int);
            }
            focus = next;
            if can_take_focus(&self.items[focus]) {
                break;
            }
            k = k + 1;
        }
        if focus != from {
            self.take_focus(focus);
            Some(from)
        } else {
            None
        }
    }
}

proof fn lemma_candidate_step(n: int, from: int, forward: bool, k: int)
    requires
        0 <= from < n,
        0 <= k < n,
    ensures
        focus_candidate(n, from, forward, k + 1) == if forward {
            if focus_candidate(n, from, forward, k) + 1 == n {
                0
            } else {
                focus_candidate(n, from, forward, k) + 1
            }
        } else {
            if focus_candidate(n, from, forward, k) == 0 {
                n - 1
            } else {
                focus_candidate(n, from, forward, k) - 1
            }
        },
        0 <= focus_candidate(n, from, forward, k + 1) < n,
{
    vstd::arithmetic::div_mod::lemma_mod_bound(from + k, n);
    vstd::arithmetic::div_mod::lemma_mod_bound(from + k + 1, n);
    if forward {
        crate::file::lemma_mod_step(from + k, n);
    } else {
        vstd::arithmetic::div_mod::lemma_small_mod(k as nat, n as nat);
        if k + 1 < n {
            vstd::arithmetic::div_mod::lemma_small_mod((k + 1) as nat, n as nat);
        } else {
            vstd::arithmetic::div_mod::lemma_mod_self_0(n);
            vstd::arithmetic::div_mod::lemma_fundamental_div_mod_converse_mod(from + n, n, 1, from);
            vstd::arithmetic::div_mod::lemma_small_mod(from as nat, n as nat);
        }
        vstd::arithmetic::div_mod::lemma_mod_bound(from + n - k, n);
        crate::file::lemma_mod_step(from + n - k - 1, n);
    }
}

/// First item from `i` on that can take the focus.
pub open spec fn first_focusable(items: Seq<DialogItem>, i: int) -> Option<int>
    decreases items.len() - i,
{
    if i < 0 || i >= items.len() {
        None
    } else if can_focus(items, i) {
        Some(i)
    } else {
        first_focusable(items, i + 1)
    }
}

/// First default button from `i` on.
pub open spec fn first_default(items: Seq<DialogItem>, i: int) -> Option<int>
    decreases items.len() - i,
{
    if i < 0 || i >= items.len() {
        None
    } else if items[i].widget matches WidgetType::Button(b) && b.default {
        Some(i)
    } else {
        first_default(items, i + 1)
    }
}

/// Item focused first: the first item that can take the focus, or, where
/// that is a button, the default button of the buttons block.
pub open spec fn initial_focus(items: Seq<DialogItem>) -> Option<int> {
    match first_focusable(items, 0) {
        Some(f) => if items[f].widget is Button {
            match first_default(items, f) {
                Some(d) => Some(d),
                None => Some(f),
            }
        } else {
            Some(f)
        },
        None => None,
    }
}

/// Default button.
fn is_default_button(item: &DialogItem) -> (r: bool)
    ensures
        r == (item.widget matches WidgetType::Button(b) && b.default),
{
    match &item.widget {
        WidgetType::Button(b) => b.default,
        _ => false,
    }
}

impl Dialog {
    /// Set initial focus.
    pub fn initialize_focus(&mut self)
        requires
            initial_focus(old(self).items@) is Some,
        ensures
            final(self).focus == initial_focus(old(self).items@).unwrap(),
            final(self).items@.len() == old(self).items@.len(),
            final(self).items@[final(self).focus as int].context.focused,
            forall|i: int| 0 <= i < old(self).items@.len() && i != final(self).focus ==> final(self).items@[i] == old(self).items@[i],
            final(self).lcline == old(self).lcline,
            final(self).width == old(self).width,
            final(self).height == old(self).height,
    {
        let ghost items0 = self.items@;
        let n = self.items.len();
        let mut first: usize = 0;
        while first < n && !can_take_focus(&self.items[first])
            invariant
                items0 == self.items@,
                n == items0.len(),
                first <= n,
                first_focusable(items0, 0) == first_focusable(items0, first as int),
            decreases n - first,
        {
            first = first + 1;
        }
        let mut focus = first;
        if let WidgetType::Button(_) = &self.items[first].widget {
            let mut j: usize = first;
            while j < n && !is_default_button(&self.items[j])
                invariant
                    items0 == self.items@,
                    n == items0.len(),
                    first <= j <= n,
                    first_default(items0, first as int) == first_default(items0, j as int),
                decreases n - j,
            {
                j = j + 1;
            }
            if j < n {
                focus = j;
            }
        }
        self.focus = focus;
        let mut it = self.items.remove(focus);
        it.context.focused = true;
        it.widget.focus_set();
        self.items.insert(focus, it);
    }

    /// Pass the key press to the widget of the item; `true` if it used it.
    fn widget_key(&mut self, item: ItemId, key: &KeyPress) -> (r: bool)
        requires
            item < old(self).items@.len(),
        ensures
            final(self).items@.len() == old(self).items@.len(),
            forall|i: int| 0 <= i < old(self).items@.len() && i != item ==> final(self).items@[i] == old(self).items@[i],
            final(self).items@[item as int].context == old(self).items@[item as int].context,
            widget_keyed(old(self).items@[item as int].widget, final(self).items@[item as int].widget, *key, r),
            r == widget_uses(old(self).items@[item as int].widget, *key),
            same_frame(*old(self), *final(self)),
            final(self).lcline == old(self).lcline,
    {
        let mut it = self.items.remove(item);
        let r = it.widget.key_press(key);
        self.items.insert(item, it);
        r
    }

    /// Handle a key press in a running dialog: Tab and the arrows move the
    /// focus, Esc cancels, Enter closes where the handler allows it, other
    /// keys go to the focused widget.
    pub fn key_event<H: DialogHandler>(&mut self, key: &KeyPress, handler: &mut H) -> (r: DialogStep)
        requires
            old(self).focus < old(self).items@.len(),
            old(self).items@.len() < usize::MAX,
        ensures
            key.key == Key::Esc ==> r == DialogStep::Close(None) && *final(self) == *old(self),
            key.key == Key::Enter ==> r == (if old(handler).closes(*old(self), old(self).focus) {
                DialogStep::Close(Some(old(self).focus))
            } else {
                DialogStep::Continue
            }),
            key.key == Key::Enter ==> final(self).focus == old(self).focus,
            key.key != Key::Esc && key.key != Key::Enter ==> r == DialogStep::Continue,
            key.key == Key::Tab ==> final(self).focus == focus_after(*old(self), key.modifier != MOD_SHIFT),
            ({
                let used = widget_uses(old(self).items@[old(self).focus as int].widget, *key);
                let other = key.key != Key::Tab && key.key != Key::Esc && key.key != Key::Enter;
                &&& other && used ==> final(self).focus == old(self).focus
                &&& other && !used && (key.key == Key::Left || key.key == Key::Up) ==> final(self).focus
                    == focus_after(*old(self), false)
                &&& other && !used && (key.key == Key::Right || key.key == Key::Down) ==> final(self).focus
                    == focus_after(*old(self), true)
                &&& other && !used && key.key != Key::Left && key.key != Key::Up && key.key != Key::Right && key.key
                    != Key::Down ==> final(self).items@ == old(self).items@ && final(self).focus == old(self).focus
            }),
            final(self).focus < final(self).items@.len(),
            final(self).items@.len() == old(self).items@.len(),
    {
        match key.key {
            Key::Tab => {
                if let Some(previous) = self.move_focus(key.modifier != MOD_SHIFT) {
                    handler.on_focus_lost(self, previous);
                }
                DialogStep::Continue
            },
            Key::Esc => DialogStep::Close(None),
            Key::Enter => {
                let focus = self.focus;
                if handler.on_close(self, focus) {
                    DialogStep::Close(Some(focus))
                } else {
                    DialogStep::Continue
                }
            },
            _ => {
                let focus = self.focus;
                let ghost before = self.items@;
                if self.widget_key(focus, key) {
                    handler.on_item_change(self, focus);
                } else {
                    assert(self.items@ =~= before);
                    if key.key == Key::Left || key.key == Key::Up {
                        if let Some(previous) = self.move_focus(false) {
                            handler.on_focus_lost(self, previous);
                        }
                    } else if key.key == Key::Right || key.key == Key::Down {
                        if let Some(previous) = self.move_focus(true) {
                            handler.on_focus_lost(self, previous);
                        }
                    }
                }
                DialogStep::Continue
            },
        }
    }
}

/// Item focused after moving the focus forward (or backward): the next
/// item that can take it, or the same one where none can.
pub open spec fn focus_after(d: Dialog, forward: bool) -> ItemId {
    match focus_steps(d.items@, d.focus as int, forward, 1) {
        Some(k) => focus_candidate(d.items@.len() as int, d.focus as int, forward, k) as ItemId,
        None => d.focus,
    }
}

/// Item `j` steps from `from` in the focus order, written out: forward
/// `from + j`, backward `from - j`, going round the `n` items.
pub open spec fn cyclic_step(n: int, from: int, forward: bool, j: int) -> int {
    if forward {
        (from + j) % n
    } else {
        (from + n - j) % n
    }
}

proof fn lemma_focus_steps(items: Seq<DialogItem>, from: int, forward: bool, k: int)
    requires
        0 <= from < items.len(),
        1 <= k,
    ensures
        match focus_steps(items, from, forward, k) {
            Some(s) => k <= s <= items.len() && can_focus(items, cyclic_step(items.len() as int, from, forward, s))
                && forall|j: int| k <= j < s ==> !can_focus(items, #[trigger] cyclic_step(items.len() as int, from, forward, j)),
            None => forall|j: int|
                k <= j <= items.len() ==> !can_focus(items, #[trigger] cyclic_step(items.len() as int, from, forward, j)),
        },
    decreases items.len() + 1 - k,
{
    let n = items.len() as int;
    if k <= n {
        lemma_candidate_is_step(n, from, forward, k);
        lemma_focus_steps(items, from, forward, k + 1);
    }
}

proof fn lemma_candidate_is_step(n: int, from: int, forward: bool, k: int)
    requires
        0 <= from < n,
        1 <= k <= n,
    ensures
        focus_candidate(n, from, forward, k) == cyclic_step(n, from, forward, k),
{
    if !forward {
        if k < n {
            vstd::arithmetic::div_mod::lemma_small_mod(k as nat, n as nat);
        } else {
            vstd::arithmetic::div_mod::lemma_mod_self_0(n);
            vstd::arithmetic::div_mod::lemma_mod_add_multiples_vanish(from, n);
            vstd::arithmetic::div_mod::lemma_small_mod(from as nat, n as nat);
        }
    }
}

/// Moving the focus goes to the first item after the focused one in the
/// direction of the move (going round) that can take the focus: it can
/// take it and no item between can. Where none can, the focus stays.
pub proof fn law_focus_moves_to_next_focusable(d: Dialog, forward: bool)
    requires
        d.focus < d.items@.len() <= usize::MAX,
    ensures
        ({
            let n = d.items@.len() as int;
            let t = focus_after(d, forward);
            &&& (exists|k: int| 1 <= k <= n && can_focus(d.items@, #[trigger] cyclic_step(n, d.focus as int, forward, k)))
                ==> exists|k: int|
                1 <= k <= n && t == cyclic_step(n, d.focus as int, forward, k) && can_focus(d.items@, t as int)
                    && forall|j: int| 1 <= j < k ==> !can_focus(d.items@, #[trigger] cyclic_step(n, d.focus as int, forward, j))
            &&& (forall|k: int| 1 <= k <= n ==> !can_focus(d.items@, #[trigger] cyclic_step(n, d.focus as int, forward, k)))
                ==> t == d.focus
        }),
{
    let n = d.items@.len() as int;
    lemma_focus_steps(d.items@, d.focus as int, forward, 1);
    match focus_steps(d.items@, d.focus as int, forward, 1) {
        Some(s) => {
            lemma_candidate_is_step(n, d.focus as int, forward, s);
            vstd::arithmetic::div_mod::lemma_mod_bound(d.focus + s, n);
            vstd::arithmetic::div_mod::lemma_mod_bound(d.focus + n - s, n);
            let c = focus_candidate(n, d.focus as int, forward, s);
            assert(c == cyclic_step(n, d.focus as int, forward, s));
            assert(0 <= c < n);
            let t = focus_after(d, forward);
            assert(t == c as ItemId);
            assert(t == cyclic_step(n, d.focus as int, forward, s));
        },
        None => {},
    }
}

/// Every item lies above the line `y`.
pub open spec fn rows_above(items: Seq<DialogItem>, y: int) -> bool {
    forall|i: int| 0 <= i < items.len() ==> #[trigger] items[i].context.y < y
}

/// Line of the buttons block.
pub open spec fn buttons_line(d: Dialog) -> int {
    d.height - PADDING_Y - 1
}

pub(crate) proof fn lemma_row_width_none(items: Seq<DialogItem>, y: usize)
    requires
        forall|i: int| 0 <= i < items.len() ==> #[trigger] items[i].context.y != y,
    ensures
        row_width(items, y) == 0,
    decreases items.len(),
{
    if items.len() > 0 {
        assert forall|i: int| 0 <= i < items.drop_last().len() implies #[trigger] items.drop_last()[i].context.y
            != y by {
            assert(items.drop_last()[i] == items[i]);
        }
        lemma_row_width_none(items.drop_last(), y);
        assert(items[items.len() - 1].context.y != y);
    }
}

pub(crate) proof fn lemma_row_width_placed(items: Seq<DialogItem>, y: usize, x: int)
    ensures
        row_width(row_placed(items, y, x), y) == row_width(items, y),
    decreases items.len(),
{
    if items.len() > 0 {
        let d = items.drop_last();
        lemma_row_width_placed(d, y, x);
        assert(row_placed(items, y, x).drop_last() =~= row_placed(d, y, x)) by {
            assert forall|i: int| 0 <= i < d.len() implies #[trigger] row_placed(items, y, x)[i] == row_placed(d, y, x)[i] by {
                assert(items.take(i) =~= d.take(i));
            }
        }
    }
}

impl Dialog {
    /// Add the OK (default) and Cancel buttons below the other items.
    pub fn add_ok_cancel(&mut self) -> (r: (ItemId, ItemId))
        requires
            dialog_wf(*old(self)),
            old(self).items@.len() + 2 < usize::MAX,
            rows_above(old(self).items@, buttons_line(*old(self))),
            old(self).width >= 2 * PADDING_X + 17,
        ensures
            r.0 == old(self).items@.len(),
            r.1 == old(self).items@.len() + 1,
            final(self).items@.len() == old(self).items@.len() + 2,
            forall|i: int| 0 <= i < old(self).items@.len() ==> final(self).items@[i] == old(self).items@[i],
            final(self).items@[r.0 as int].widget matches WidgetType::Button(b) && b.default,
            final(self).items@[r.1 as int].widget matches WidgetType::Button(b) && !b.default,
            final(self).items@[r.0 as int].context.enabled,
            final(self).items@[r.1 as int].context.enabled,
            same_frame(*old(self), *final(self)),
            final(self).lcline == old(self).lcline,
            dialog_wf(*final(self)),
    {
        let ghost y = (self.height - PADDING_Y - 1) as usize;
        proof {
            reveal_strlit("{ ");
            reveal_strlit(" }");
            reveal_strlit("[ ");
            reveal_strlit(" ]");
            reveal_strlit("OK");
            reveal_strlit("Cancel");
            assert forall|i: int| 0 <= i < self.items@.len() implies #[trigger] self.items@[i].context.y != y by {
                assert(self.items@[i].context.y < buttons_line(*self));
            }
            lemma_row_width_none(self.items@, y);
        }
        let ghost items0 = self.items@;
        let ok = self.add_button(StandardButton::OK, true);
        proof {
            let placed = row_placed(items0, y, PADDING_X + (self.width - 2 * PADDING_X) / 2 - 3);
            lemma_row_width_placed(items0, y, PADDING_X + (self.width - 2 * PADDING_X) / 2 - 3);
            assert(self.items@.drop_last() =~= placed);
            assert forall|i: int| 0 <= i < items0.len() implies self.items@[i] == items0[i] by {
                assert(self.items@[i] == placed[i]);
                assert(items0[i].context.y != y);
            }
            assert(row_width(self.items@, y) == 7);
        }
        let ghost items1 = self.items@;
        let cancel = self.add_button(StandardButton::Cancel, false);
        proof {
            let x = PADDING_X + (self.width - 2 * PADDING_X) / 2 - 8;
            assert(self.items@.take(cancel as int) == row_placed(items1, y, x));
            assert forall|i: int| 0 <= i < items0.len() implies self.items@[i] == items0[i] by {
                assert(self.items@.take(cancel as int)[i] == self.items@[i]);
                assert(items1[i] == items0[i]);
                assert(items0[i].context.y != y);
            }
            assert(self.items@.take(cancel as int)[ok as int] == self.items@[ok as int]);
        }
        (ok, cancel)
    }
}

} // verus!

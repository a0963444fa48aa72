//! Message box: lines of text above a row of standard buttons.
use crate::text::{from_chars, push_char, to_chars};
use crate::ui::dialog::{
    lemma_row_width_none, lemma_row_width_placed, lemma_row_width_step, new_context, row_placed, row_width, Dialog, DialogItem,
    DialogType, ItemId, NO_ITEM, PADDING_X, PADDING_Y,
};
use crate::ui::widget::{WidgetContext, button_text, cluster_start, glen, grapheme_count, gstart, StandardButton, WidgetType};
use vstd::prelude::*;

verus! {

/// Message box dialog.
pub struct MessageBox {}

/// Width of a row of buttons, counting one space after each of them.
pub open spec fn buttons_width(b: Seq<(StandardButton, bool)>) -> int
    decreases b.len(),
{
    if b.len() == 0 {
        0
    } else {
        buttons_width(b.drop_last()) + button_text(b.last().0, b.last().1).len() + 1
    }
}

/// Width `w` widened for the message lines, each as wide as its grapheme
/// clusters, while it is below `max`; never beyond `max`.
pub open spec fn lines_width(w: int, lines: Seq<Seq<char>>, max: int) -> int
    decreases lines.len(),
{
    if lines.len() == 0 {
        w
    } else {
        let w0 = lines_width(w, lines.drop_last(), max);
        let len = glen(lines.last());
        if w0 < max && w0 < len {
            if len < max {
                len
            } else {
                max
            }
        } else {
            w0
        }
    }
}

/// Character views of message lines.
pub open spec fn lines_view(m: Seq<String>) -> Seq<Seq<char>> {
    m.map_values(|s: String| s@)
}

/// Width of the useful area of a dialog on a screen `screen` columns wide.
pub open spec fn area_width(screen: usize) -> int {
    if screen < 2 * PADDING_X {
        0
    } else {
        screen - 2 * PADDING_X
    }
}

/// Width of the message area: that of the buttons row, widened for the
/// message lines up to what the screen holds.
pub open spec fn box_width(message: Seq<String>, buttons: Seq<(StandardButton, bool)>, screen: usize) -> int {
    lines_width(buttons_width(buttons) - 1, lines_view(message), area_width(screen))
}

/// A message line as shown in an area `w` columns wide: a longer line is
/// cut after `w - 1` grapheme clusters and ends with an ellipsis.
pub open spec fn shown_line(m: Seq<char>, w: int) -> Seq<char> {
    if glen(m) <= w {
        m
    } else {
        let t = m.take(gstart(m, w - 1)).push('\u{2026}');
        if glen(t) <= w {
            t
        } else {
            m.take(w - 1).push('\u{2026}')
        }
    }
}

/// Column where a text of `len` clusters starts, centered in an area `w`
/// columns wide.
pub open spec fn centered_x(w: int, len: int) -> usize {
    (PADDING_X + w / 2 - len / 2) as usize
}

proof fn lemma_buttons_width_prefix(b: Seq<(StandardButton, bool)>, i: int)
    requires
        0 <= i <= b.len(),
    ensures
        0 <= buttons_width(b.take(i)) <= buttons_width(b),
        i > 0 ==> buttons_width(b.take(i)) >= 1,
    decreases b.len(),
{
    if i == b.len() {
        assert(b.take(i) =~= b);
        if i > 0 {
            lemma_buttons_width_prefix(b.drop_last(), i - 1);
        }
    } else {
        lemma_buttons_width_prefix(b.drop_last(), i);
        assert(b.drop_last().take(i) =~= b.take(i));
    }
}

proof fn lemma_buttons_width_min(b: Seq<(StandardButton, bool)>)
    requires
        b.len() > 0,
    ensures
        buttons_width(b) >= 5,
{
    reveal_strlit("{ ");
    reveal_strlit(" }");
    reveal_strlit("[ ");
    reveal_strlit(" ]");
    lemma_buttons_width_prefix(b.drop_last(), b.len() - 1);
    assert(b.drop_last().take(b.len() - 1) =~= b.drop_last());
}

proof fn lemma_buttons_width_step(b: Seq<(StandardButton, bool)>, i: int)
    requires
        0 <= i < b.len(),
    ensures
        buttons_width(b.take(i + 1)) == buttons_width(b.take(i)) + button_text(b[i].0, b[i].1).len() + 1,
{
    assert(b.take(i + 1).drop_last() =~= b.take(i));
}

proof fn lemma_lines_width_bounds(w: int, lines: Seq<Seq<char>>, max: int)
    ensures
        lines_width(w, lines, max) >= w,
        w <= max ==> lines_width(w, lines, max) <= max,
        w > max ==> lines_width(w, lines, max) == w,
    decreases lines.len(),
{
    if lines.len() > 0 {
        lemma_lines_width_bounds(w, lines.drop_last(), max);
    }
}

/// Width of the items on line `y` before the button `k` of a buttons row
/// that starts at item `first`.
proof fn lemma_buttons_prefix_rows(
    items: Seq<DialogItem>,
    y: usize,
    first: int,
    b: Seq<(StandardButton, bool)>,
    j: int,
    k: int,
)
    requires
        0 <= first,
        0 <= k <= j <= b.len(),
        items.len() == first + j,
        forall|i: int| 0 <= i < first ==> #[trigger] items[i].context.y != y,
        forall|i: int|
            first <= i < first + j ==> #[trigger] items[i].context.y == y && items[i].context.width == button_text(
                b[i - first].0,
                b[i - first].1,
            ).len(),
    ensures
        row_width(items.take(first + k), y) == buttons_width(b.take(k)),
    decreases k,
{
    if k == 0 {
        let t = items.take(first);
        assert forall|i: int| 0 <= i < t.len() implies #[trigger] t[i].context.y != y by {
            assert(t[i] == items[i]);
        }
        lemma_row_width_none(t, y);
        assert(b.take(0) =~= Seq::<(StandardButton, bool)>::empty());
    } else {
        lemma_buttons_prefix_rows(items, y, first, b, j, k - 1);
        lemma_row_width_step(items, y, first + k - 1);
        lemma_buttons_width_step(b, k - 1);
        assert(items[first + k - 1].context.y == y);
    }
}

impl MessageBox {
    /// Size of the message area: the widest of the buttons row and the
    /// message lines (these up to the screen width), and the number of
    /// lines.
    pub fn calc_size(message: &Vec<String>, buttons: &Vec<(StandardButton, bool)>, screen_width: usize) -> (r: (
        usize,
        usize,
    ))
        requires
            buttons@.len() > 0,
            buttons_width(buttons@) <= usize::MAX,
        ensures
            r.0 == box_width(message@, buttons@, screen_width),
            r.1 == message@.len(),
    {
        let max_width = Dialog::max_width(screen_width);
        let mut width: usize = 0;
        let mut i: usize = 0;
        while i < buttons.len()
            invariant
                i <= buttons@.len(),
                width == buttons_width(buttons@.take(i as int)),
                buttons_width(buttons@) <= usize::MAX,
            decreases buttons@.len() - i,
        {
            proof {
                lemma_buttons_width_step(buttons@, i as int);
                lemma_buttons_width_prefix(buttons@, i + 1);
            }
            let (button, default) = buttons[i];
            let text = button.text(default);
            width = width + 1 + text.unicode_len();
            i = i + 1;
        }
        proof {
            assert(buttons@.take(i as int) =~= buttons@);
            lemma_buttons_width_prefix(buttons@, i as int);
        }
        width = width - 1;
        let ghost lines = lines_view(message@);
        let mut j: usize = 0;
        while j < message.len()
            invariant
                j <= message@.len(),
                lines == lines_view(message@),
                width == lines_width(buttons_width(buttons@) - 1, lines.take(j as int), area_width(screen_width)),
                max_width == area_width(screen_width),
            decreases message@.len() - j,
        {
            let len = grapheme_count(message[j].as_str());
            proof {
                assert(lines.take(j + 1).drop_last() =~= lines.take(j as int));
                assert(lines.take(j + 1).last() == message@[j as int]@);
            }
            if width < max_width && width < len {
                width = if len < max_width {
                    len
                } else {
                    max_width
                };
            }
            j = j + 1;
        }
        assert(lines.take(j as int) =~= lines);
        (width, message.len())
    }

    /// A message line as shown in an area `width` columns wide.
    pub fn shown(line: &String, width: usize) -> (r: String)
        requires
            width >= 1,
        ensures
            r@ == shown_line(line@, width as int),
            r@.len() <= width || glen(r@) <= width,
    {
        let len = grapheme_count(line.as_str());
        if len <= width {
            return line.clone();
        }
        let chars = to_chars(line.as_str());
        let n = chars.len();
        assert(line@.len() == n);
        let index = cluster_start(line.as_str(), width - 1);
        let mut cut = from_chars(&chars, 0, index);
        push_char(&mut cut, '\u{2026}');
        assert(chars@.subrange(0, index as int) =~= line@.take(index as int));
        if grapheme_count(cut.as_str()) <= width {
            cut
        } else {
            let mut chars_cut = from_chars(&chars, 0, width - 1);
            push_char(&mut chars_cut, '\u{2026}');
            assert(chars@.subrange(0, width - 1) =~= line@.take(width - 1));
            chars_cut
        }
    }

    /// Message box dialog: the message lines centered one under another (a
    /// line wider than the area is cut), then the buttons row. Returns the
    /// dialog and the item of its first button.
    #[verifier::spinoff_prover]
    #[verifier::rlimit(40)]
    pub fn create(
        dt: DialogType,
        title: &str,
        message: &Vec<String>,
        buttons: &Vec<(StandardButton, bool)>,
        screen_width: usize,
    ) -> (r: (Dialog, ItemId))
        requires
            buttons@.len() > 0,
            buttons_width(buttons@) + 2 * PADDING_X <= usize::MAX,
            message@.len() + buttons@.len() + 2 * PADDING_Y + 4 <= usize::MAX,
        ensures
            ({
                let w = box_width(message@, buttons@, screen_width);
                let m = message@.len();
                let d = r.0;
                &&& d.width == w + 2 * PADDING_X
                &&& d.height == m + 2 * PADDING_Y + 2
                &&& d.dtype == dt
                &&& d.title@ == " "@ + title@ + " "@
                &&& d.focus == NO_ITEM
                &&& r.1 == m + 1
                &&& d.items@.len() == m + 1 + buttons@.len()
                &&& d.items@[0].widget is Separator
                &&& forall|i: int|
                    1 <= i <= m ==> {
                        let line = shown_line(message@[i - 1]@, w);
                        &&& #[trigger] d.items@[i].widget matches WidgetType::StaticText(s) && s@ == line
                        &&& d.items@[i].context == new_context(
                            centered_x(w, glen(line)),
                            (PADDING_Y + i - 1) as usize,
                            glen(line) as usize,
                        )
                    }
                &&& forall|j: int|
                    m + 1 <= j < m + 1 + buttons@.len() ==> {
                        let text = button_text(buttons@[j - m - 1].0, buttons@[j - m - 1].1);
                        &&& #[trigger] d.items@[j].widget matches WidgetType::Button(b) && b.text@ == text
                            && b.default == buttons@[j - m - 1].1
                        &&& d.items@[j].context.y == m + PADDING_Y + 1
                        &&& d.items@[j].context.x == (PADDING_X + w / 2 - (buttons_width(buttons@) - 1) / 2
                            + buttons_width(buttons@.take(j - m - 1))) as usize
                        &&& d.items@[j].context.width == text.len()
                        &&& d.items@[j].context.enabled
                        &&& !d.items@[j].context.focused
                    }
            }),
    {
        proof {
            lemma_buttons_width_prefix(buttons@, buttons@.len() as int);
            lemma_buttons_width_min(buttons@);
            lemma_lines_width_bounds(buttons_width(buttons@) - 1, lines_view(message@), area_width(screen_width));
        }
        let (width, height) = MessageBox::calc_size(message, buttons, screen_width);
        let mut dlg = Dialog::new(width, height, dt, title);
        let ghost m = message@.len();
        let ghost lines = lines_view(message@);
        // message lines
        let mut i: usize = 0;
        while i < message.len()
            invariant
                i <= m,
                m == message@.len(),
                lines == lines_view(message@),
                width >= 1,
                width == box_width(message@, buttons@, screen_width),
                dlg.width == width + 2 * PADDING_X,
                dlg.height == m + 2 * PADDING_Y + 2,
                dlg.dtype == dt,
                dlg.title@ == " "@ + title@ + " "@,
                dlg.focus == NO_ITEM,
                dlg.lcline == PADDING_Y + i,
                dlg.items@.len() == i + 1,
                dlg.items@[0].widget is Separator,
                dlg.items@[0].context.y == m + PADDING_Y,
                forall|k: int|
                    1 <= k <= i ==> {
                        let line = shown_line(message@[k - 1]@, width as int);
                        &&& #[trigger] dlg.items@[k].widget matches WidgetType::StaticText(s) && s@ == line
                        &&& dlg.items@[k].context == new_context(
                            centered_x(width as int, glen(line)),
                            (PADDING_Y + k - 1) as usize,
                            glen(line) as usize,
                        )
                    },
                m + buttons@.len() + 2 * PADDING_Y + 4 <= usize::MAX,
            decreases m - i,
        {
            let line = MessageBox::shown(&message[i], width);
            let ghost items0 = dlg.items@;
            dlg.add_center(line);
            proof {
                assert forall|k: int| 1 <= k <= i + 1 implies {
                    let line = shown_line(message@[k - 1]@, width as int);
                    &&& #[trigger] dlg.items@[k].widget matches WidgetType::StaticText(s) && s@ == line
                    &&& dlg.items@[k].context == new_context(
                        centered_x(width as int, glen(line)),
                        (PADDING_Y + k - 1) as usize,
                        glen(line) as usize,
                    )
                } by {
                    if k <= i {
                        assert(dlg.items@[k] == items0[k]);
                    }
                }
            }
            i = i + 1;
        }
        // buttons
        let ghost y = (m + PADDING_Y + 1) as usize;
        let ghost base = dlg.items@;
        proof {
            assert forall|k: int| 0 <= k < dlg.items@.len() implies #[trigger] dlg.items@[k].context.y != y by {
                if k > 0 {
                    assert(dlg.items@[k].widget is StaticText);
                }
            }
            lemma_row_width_none(dlg.items@, y);
        }
        let first = dlg.items.len();
        let mut j: usize = 0;
        while j < buttons.len()
            invariant
                j <= buttons@.len(),
                m == message@.len(),
                first == m + 1,
                y == m + PADDING_Y + 1,
                base.len() == m + 1,
                forall|k: int| 0 <= k < base.len() ==> #[trigger] base[k].context.y != y,
                dlg.width == width + 2 * PADDING_X,
                dlg.height == m + 2 * PADDING_Y + 2,
                width == box_width(message@, buttons@, screen_width),
                buttons_width(buttons@) - 1 <= width,
                buttons_width(buttons@) + 2 * PADDING_X <= usize::MAX,
                dlg.dtype == dt,
                dlg.title@ == " "@ + title@ + " "@,
                dlg.focus == NO_ITEM,
                dlg.items@.len() == first + j,
                forall|k: int| 0 <= k < first ==> #[trigger] dlg.items@[k] == base[k],
                row_width(dlg.items@, y) == buttons_width(buttons@.take(j as int)),
                forall|k: int|
                    first <= k < first + j ==> {
                        let text = button_text(buttons@[k - first].0, buttons@[k - first].1);
                        &&& #[trigger] dlg.items@[k].widget matches WidgetType::Button(b) && b.text@ == text
                            && b.default == buttons@[k - first].1
                        &&& dlg.items@[k].context.y == y
                        &&& dlg.items@[k].context.x == (PADDING_X + width / 2 - (buttons_width(buttons@.take(j as int))
                            - 1) / 2 + buttons_width(buttons@.take(k - first))) as usize
                        &&& dlg.items@[k].context.width == text.len()
                        &&& dlg.items@[k].context.enabled
                        &&& !dlg.items@[k].context.focused
                    },
                m + buttons@.len() + 2 * PADDING_Y + 4 <= usize::MAX,
            decreases buttons@.len() - j,
        {
            let ghost items0 = dlg.items@;
            proof {
                lemma_buttons_width_step(buttons@, j as int);
                lemma_buttons_width_prefix(buttons@, j + 1);
                lemma_buttons_width_prefix(buttons@, j as int);
            }
            let (button, default) = buttons[j];
            let id = dlg.add_button(button, default);
            proof {
                let w = dlg.width - 2 * PADDING_X;
                let total = button_text(button, default).len() + row_width(items0, y);
                let x = PADDING_X + w / 2 - total / 2;
                let placed = row_placed(items0, y, x);
                assert(dlg.items@.take(id as int) == placed);
                lemma_row_width_placed(items0, y, x);
                assert(dlg.items@.drop_last() =~= placed);
                assert forall|i: int| first <= i < first + j implies #[trigger] items0[i].context.y == y
                    && items0[i].context.width == button_text(
                    buttons@[i - first].0,
                    buttons@[i - first].1,
                ).len() by {
                    assert(items0[i].widget is Button);
                }
                assert forall|i: int| 0 <= i < first implies #[trigger] items0[i].context.y != y by {
                    assert(items0[i] == base[i]);
                }
                lemma_buttons_prefix_rows(items0, y, first as int, buttons@, j as int, j as int);
                assert(items0.take(first + j) =~= items0);
                assert forall|k: int| 0 <= k < first implies #[trigger] dlg.items@[k] == base[k] by {
                    assert(dlg.items@.take(id as int)[k] == dlg.items@[k]);
                    assert(items0[k] == base[k]);
                }
                assert forall|k: int| first <= k < first + j + 1 implies {
                    let text = button_text(buttons@[k - first].0, buttons@[k - first].1);
                    &&& #[trigger] dlg.items@[k].widget matches WidgetType::Button(b) && b.text@ == text
                        && b.default == buttons@[k - first].1
                    &&& dlg.items@[k].context.y == y
                    &&& dlg.items@[k].context.x == (PADDING_X + width / 2 - (buttons_width(buttons@.take(j + 1))
                        - 1) / 2 + buttons_width(buttons@.take(k - first))) as usize
                    &&& dlg.items@[k].context.width == text.len()
                    &&& dlg.items@[k].context.enabled
                    &&& !dlg.items@[k].context.focused
                } by {
                    if k < first + j {
                        lemma_buttons_prefix_rows(items0, y, first as int, buttons@, j as int, k - first);
                        assert(items0.take(first + (k - first)) =~= items0.take(k));
                        assert(items0[k].widget is Button);
                        assert(items0[k].context.y == y);
                        assert(dlg.items@.take(id as int)[k] == dlg.items@[k]);
                        assert(placed[k] == DialogItem {
                            widget: items0[k].widget,
                            context: WidgetContext { x: (x + row_width(items0.take(k), y)) as usize, ..items0[k].context },
                        });
                    } else {
                        assert(k == id);
                        assert(buttons@[k - first] == (button, default));
                        assert(button_text(button, default).len() <= usize::MAX);
                    }
                }
            }
            j = j + 1;
        }
        proof {
            assert(buttons@.take(j as int) =~= buttons@);
        }
        (dlg, first)
    }

    /// Button chosen when the dialog closed on item `closed` (`None` when
    /// it was canceled); `first` is the item of the first button.
    pub fn result(buttons: &Vec<(StandardButton, bool)>, first: ItemId, closed: Option<ItemId>) -> (r: Option<
        StandardButton,
    >)
        requires
            closed matches Some(id) ==> first <= id < first + buttons@.len(),
        ensures
            r == match closed {
                Some(id) => Some(buttons@[id - first].0),
                None => None,
            },
    {
        match closed {
            Some(id) => Some(buttons[id - first].0),
            None => None,
        }
    }

    /// Whether the answer to a failed write asks to try it again.
    pub fn retry_chosen(choice: Option<StandardButton>) -> (r: bool)
        ensures
            r == (choice == Some(StandardButton::Retry)),
    {
        match choice {
            Some(StandardButton::Retry) => true,
            _ => false,
        }
    }
}

} // verus!

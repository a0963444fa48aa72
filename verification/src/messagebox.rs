//! Classic message box: a title, lines of text and a row of standard
//! buttons, laid out in a border.
use crate::dialog::DialogType;
use crate::ui::widget::byte_len;
use crate::widget::{bracketed, std_title, Button, StdButton};
use vstd::prelude::*;
use vstd::string::StringExecFns;

verus! {

/// Message box dialog.
pub struct MessageBox {
    /// Message text: string and align flag (the first one is the title).
    message: Vec<(String, bool)>,
    /// Buttons: type and default state.
    buttons: Vec<(StdButton, bool)>,
    /// Message type.
    dtype: DialogType,
}

/// Where the items of a message box stand.
pub struct MessageLayout {
    /// Width of the text area (the border is 4 columns wider).
    pub width: usize,
    /// Height of the border.
    pub height: usize,
    /// Column and line of each text line after the title.
    pub lines: Vec<(usize, usize)>,
    /// Line of the separator above the buttons, if there are buttons.
    pub separator: Option<usize>,
    /// Column, line and width of each button.
    pub buttons: Vec<(usize, usize, usize)>,
    /// Button focused first: the last default one.
    pub focus: Option<usize>,
}

/// Width of the text of a standard button (its text is ASCII).
pub open spec fn std_width(b: (StdButton, bool)) -> int {
    bracketed(std_title(b.0), b.1).len() as int
}

/// Total width of buttons, counting one space after each.
pub open spec fn buttons_run(b: Seq<(StdButton, bool)>) -> int
    decreases b.len(),
{
    if b.len() == 0 {
        0
    } else {
        buttons_run(b.drop_last()) + std_width(b.last()) + 1
    }
}

/// Width of the buttons line: the buttons with one space between them.
pub open spec fn buttons_line_width(b: Seq<(StdButton, bool)>) -> int {
    if b.len() == 0 {
        0
    } else {
        buttons_run(b) - 1
    }
}

/// Width `w` widened to the longest of the lines (in bytes).
pub open spec fn widest(w: int, lines: Seq<(String, bool)>) -> int
    decreases lines.len(),
{
    if lines.len() == 0 {
        w
    } else {
        let w0 = widest(w, lines.drop_last());
        let len = byte_len(lines.last().0@);
        if w0 < len {
            len
        } else {
            w0
        }
    }
}

/// Index of the last default button, if any.
pub open spec fn last_default(b: Seq<(StdButton, bool)>) -> Option<int>
    decreases b.len(),
{
    if b.len() == 0 {
        None
    } else if b.last().1 {
        Some(b.len() - 1)
    } else {
        last_default(b.drop_last())
    }
}

proof fn lemma_widest(w: int, lines: Seq<(String, bool)>)
    ensures
        widest(w, lines) >= w,
        forall|i: int| 0 <= i < lines.len() ==> widest(w, lines) >= #[trigger] byte_len(lines[i].0@),
        widest(w, lines) == w || exists|i: int| 0 <= i < lines.len() && widest(w, lines) == #[trigger] byte_len(
            lines[i].0@,
        ),
    decreases lines.len(),
{
    if lines.len() > 0 {
        let d = lines.drop_last();
        lemma_widest(w, d);
        assert forall|i: int| 0 <= i < lines.len() implies widest(w, lines) >= #[trigger] byte_len(lines[i].0@) by {
            if i < d.len() {
                assert(lines[i] == d[i]);
            }
        }
        if widest(w, lines) != w && widest(w, lines) != byte_len(lines.last().0@) {
            let i = choose|i: int| 0 <= i < d.len() && widest(w, d) == #[trigger] byte_len(d[i].0@);
            assert(lines[i] == d[i]);
        }
    }
}

proof fn lemma_buttons_run(b: Seq<(StdButton, bool)>, k: int)
    requires
        0 <= k <= b.len(),
    ensures
        0 <= buttons_run(b.take(k)) <= buttons_run(b),
        k < b.len() ==> buttons_run(b.take(k + 1)) == buttons_run(b.take(k)) + std_width(b[k]) + 1,
        b.len() > 0 ==> buttons_run(b) >= 1,
    decreases b.len(),
{
    if b.len() > 0 {
        let d = b.drop_last();
        if k == b.len() {
            assert(b.take(k) =~= b);
            lemma_buttons_run(d, k - 1);
            assert(d.take(k - 1) =~= d);
        } else {
            lemma_buttons_run(d, k);
            assert(d.take(k) =~= b.take(k));
            assert(b.take(k + 1).drop_last() =~= b.take(k));
            if k + 1 < b.len() {
                assert(d.take(k + 1) =~= b.take(k + 1));
            } else {
                assert(b.take(k + 1) =~= b);
            }
        }
    }
}

impl MessageBox {
    /// Message lines with their align flags; the first is the title.
    pub closed spec fn lines(self) -> Seq<(String, bool)> {
        self.message@
    }

    /// Buttons with their default flags.
    pub closed spec fn button_list(self) -> Seq<(StdButton, bool)> {
        self.buttons@
    }

    /// Message type.
    pub closed spec fn kind(self) -> DialogType {
        self.dtype
    }

    /// Create new message box.
    pub fn new(title: &str, dtype: DialogType) -> (r: Self)
        ensures
            r.lines().len() == 1,
            r.lines()[0].0@ == title@,
            r.lines()[0].1,
            r.button_list().len() == 0,
            r.kind() == dtype,
    {
        let mut message: Vec<(String, bool)> = Vec::new();
        message.push((String::from_str(title), true));
        MessageBox { message, buttons: Vec::new(), dtype }
    }

    /// Add text line (left aligned).
    pub fn left(&mut self, text: &str) -> (r: &mut Self)
        ensures
            r.lines().len() == old(self).lines().len() + 1,
            forall|i: int| 0 <= i < old(self).lines().len() ==> r.lines()[i] == old(self).lines()[i],
            r.lines().last().0@ == text@,
            !r.lines().last().1,
            r.button_list() == old(self).button_list(),
            r.kind() == old(self).kind(),
            *final(self) == *final(r),
    {
        self.message.push((String::from_str(text), false));
        self
    }

    /// Add text line (centered).
    pub fn center(&mut self, text: &str) -> (r: &mut Self)
        ensures
            r.lines().len() == old(self).lines().len() + 1,
            forall|i: int| 0 <= i < old(self).lines().len() ==> r.lines()[i] == old(self).lines()[i],
            r.lines().last().0@ == text@,
            r.lines().last().1,
            r.button_list() == old(self).button_list(),
            r.kind() == old(self).kind(),
            *final(self) == *final(r),
    {
        self.message.push((String::from_str(text), true));
        self
    }

    /// Add one of the standard button.
    pub fn button(&mut self, button: StdButton, default: bool) -> (r: &mut Self)
        ensures
            r.lines() == old(self).lines(),
            r.button_list() == old(self).button_list().push((button, default)),
            r.kind() == old(self).kind(),
            *final(self) == *final(r),
    {
        self.buttons.push((button, default));
        self
    }
}

proof fn lemma_std_width(b: (StdButton, bool))
    ensures
        4 <= std_width(b) <= 10,
{
    reveal_strlit("{ ");
    reveal_strlit(" }");
    reveal_strlit("[ ");
    reveal_strlit(" ]");
    reveal_strlit("OK");
    reveal_strlit("Cancel");
    reveal_strlit("Retry");
    reveal_strlit("Yes");
    reveal_strlit("No");
}

impl MessageBox {
    /// Where `show` puts the items: the text area as wide as the widest of
    /// the lines and the buttons line; the lines under the title, centered
    /// ones in the middle; then a separator and the buttons, centered as a
    /// group.
    pub fn layout(&self) -> (r: MessageLayout)
        requires
            self.lines().len() >= 1,
            widest(buttons_line_width(self.button_list()), self.lines()) + buttons_run(self.button_list()) + 4
                <= usize::MAX,
            self.lines().len() + 4 <= usize::MAX,
        ensures
            ({
                let m = self.lines();
                let b = self.button_list();
                let bw = buttons_line_width(b);
                let w = widest(bw, m);
                &&& r.width == w
                &&& r.height == m.len() - 1 + if b.len() == 0 {
                    2int
                } else {
                    4int
                }
                &&& r.lines@.len() == m.len() - 1
                &&& forall|i: int|
                    0 <= i < m.len() - 1 ==> #[trigger] r.lines@[i] == (
                        (2 + if m[i + 1].1 {
                            (w - byte_len(m[i + 1].0@)) / 2
                        } else {
                            0
                        }) as usize,
                        (1 + i) as usize,
                    )
                &&& r.separator == if b.len() == 0 {
                    None
                } else {
                    Some(m.len() as usize)
                }
                &&& r.buttons@.len() == b.len()
                &&& forall|k: int|
                    0 <= k < b.len() ==> #[trigger] r.buttons@[k] == (
                        (2 + w / 2 - bw / 2 + buttons_run(b.take(k))) as usize,
                        (m.len() + 1) as usize,
                        std_width(b[k]) as usize,
                    )
                &&& r.focus == match last_default(b) {
                    Some(k) => Some(k as usize),
                    None => None,
                }
            }),
    {
        let ghost m = self.lines();
        let ghost b = self.button_list();
        proof {
            lemma_buttons_run(b, b.len() as int);
        }
        // buttons line width
        let mut buttons_width: usize = 0;
        let mut k: usize = 0;
        while k < self.buttons.len()
            invariant
                b == self.buttons@,
                k <= b.len(),
                buttons_width == if k == 0 {
                    0
                } else {
                    buttons_run(b.take(k as int)) - 1
                },
                k > 0 ==> buttons_width > 0,
                buttons_run(b) + 4 <= usize::MAX,
            decreases b.len() - k,
        {
            proof {
                lemma_buttons_run(b, k as int);
                lemma_buttons_run(b, k + 1);
                lemma_std_width(b[k as int]);
            }
            let (button, default) = self.buttons[k];
            let text_width = Button::standard(button, default).text.as_str().unicode_len();
            assert(b[k as int] == (button, default));
            if buttons_width != 0 {
                buttons_width = buttons_width + 1;
            }
            buttons_width = buttons_width + text_width;
            k = k + 1;
        }
        proof {
            assert(b.take(k as int) =~= b);
        }
        // minimal width
        let mut width = buttons_width;
        let mut i: usize = 0;
        while i < self.message.len()
            invariant
                m == self.message@,
                i <= m.len(),
                width == widest(buttons_width as int, m.take(i as int)),
                buttons_width == buttons_line_width(b),
            decreases m.len() - i,
        {
            let len = self.message[i].0.as_str().len();
            proof {
                assert(m.take(i + 1).drop_last() =~= m.take(i as int));
            }
            if width < len {
                width = len;
            }
            i = i + 1;
        }
        proof {
            assert(m.take(i as int) =~= m);
            lemma_widest(buttons_width as int, m);
        }
        let height = self.message.len() - 1 + if self.buttons.len() == 0 {
            2
        } else {
            4
        };
        // message text
        let mut lines: Vec<(usize, usize)> = Vec::new();
        let mut y: usize = 1;
        let mut j: usize = 1;
        while j < self.message.len()
            invariant
                m == self.message@,
                1 <= j <= m.len(),
                y == j,
                width == widest(buttons_line_width(b), m),
                forall|t: int| 0 <= t < m.len() ==> width >= #[trigger] byte_len(m[t].0@),
                lines@.len() == j - 1,
                forall|t: int|
                    0 <= t < j - 1 ==> #[trigger] lines@[t] == (
                        (2 + if m[t + 1].1 {
                            (width - byte_len(m[t + 1].0@)) / 2
                        } else {
                            0
                        }) as usize,
                        (1 + t) as usize,
                    ),
                width + 4 <= usize::MAX,
            decreases m.len() - j,
        {
            let len = self.message[j].0.as_str().len();
            assert(len == byte_len(m[j as int].0@));
            let x = if self.message[j].1 {
                2 + (width - len) / 2
            } else {
                2
            };
            lines.push((x, y));
            y = y + 1;
            j = j + 1;
        }
        // separator between message and buttons
        let separator = if self.buttons.len() != 0 {
            let line = y;
            y = y + 1;
            Some(line)
        } else {
            None
        };
        // buttons line
        let mut buttons: Vec<(usize, usize, usize)> = Vec::new();
        let mut focus: Option<usize> = None;
        let mut x = 2 + width / 2 - buttons_width / 2;
        let ghost x0 = x;
        let mut n: usize = 0;
        while n < self.buttons.len()
            invariant
                b == self.buttons@,
                n <= b.len(),
                b.len() > 0 ==> y == m.len() + 1,
                x == x0 + buttons_run(b.take(n as int)),
                x0 + buttons_run(b) + 2 <= usize::MAX,
                x0 == 2 + width / 2 - buttons_width / 2,
                buttons@.len() == n,
                forall|t: int|
                    0 <= t < n ==> #[trigger] buttons@[t] == (
                        (x0 + buttons_run(b.take(t))) as usize,
                        (m.len() + 1) as usize,
                        std_width(b[t]) as usize,
                    ),
                focus == match last_default(b.take(n as int)) {
                    Some(t) => Some(t as usize),
                    None => None,
                },
            decreases b.len() - n,
        {
            proof {
                lemma_buttons_run(b, n as int);
                lemma_buttons_run(b, n + 1);
                lemma_std_width(b[n as int]);
                assert(b.take(n + 1).drop_last() =~= b.take(n as int));
            }
            let (button, default) = self.buttons[n];
            let text_width = Button::standard(button, default).text.as_str().unicode_len();
            assert(b[n as int] == (button, default));
            buttons.push((x, y, text_width));
            if default {
                focus = Some(n);
            }
            x = x + text_width + 1;
            n = n + 1;
        }
        proof {
            assert(b.take(n as int) =~= b);
        }
        MessageLayout { width, height, lines, separator, buttons, focus }
    }
}

} // verus!

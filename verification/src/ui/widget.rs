//! Dialog widgets: static items, check box, list box, buttons and the single
//! line input field.
use crate::curses::{Key, KeyPress, MOD_CTRL};
use crate::text::{append_str, from_chars, push_char, to_chars};
use vstd::string::StrSliceExecFns;
use unicode_segmentation::UnicodeSegmentation;
use vstd::prelude::*;

verus! {

/// Grapheme clusters of a text, as the Unicode segmentation yields them.
pub uninterp spec fn spec_graphemes(s: Seq<char>) -> Seq<Seq<char>>;

/// Character views of grapheme clusters.
pub open spec fn clusters_view(g: Seq<Vec<char>>) -> Seq<Seq<char>> {
    g.map_values(|c: Vec<char>| c@)
}

/// Calls `UnicodeSegmentation::graphemes(s, true)`, which splits the text
/// into its extended grapheme clusters: consecutive, non-empty pieces of the
/// text that together make it up, in order.
#[verifier::external_body]
fn graphemes(s: &str) -> (r: Vec<Vec<char>>)
    ensures
        clusters_view(r@) == spec_graphemes(s@),
        clusters_view(r@).flatten() == s@,
        forall|i: int| 0 <= i < r@.len() ==> #[trigger] r@[i]@.len() > 0,
{
    s.graphemes(true).map(|g| g.chars().collect()).collect()
}

/// Number of grapheme clusters of a text.
pub open spec fn glen(s: Seq<char>) -> int {
    spec_graphemes(s).len() as int
}

/// Character index where the grapheme cluster `k` of a text starts.
pub open spec fn gstart(s: Seq<char>, k: int) -> int {
    spec_graphemes(s).take(k).flatten().len() as int
}

proof fn lemma_flatten_split(g: Seq<Seq<char>>, k: int)
    requires
        0 <= k <= g.len(),
    ensures
        g.flatten() == g.take(k).flatten() + g.skip(k).flatten(),
    decreases k,
{
    if k == 0 {
        assert(g.take(0) =~= Seq::<Seq<char>>::empty());
        assert(g.skip(0) =~= g);
        assert(Seq::<Seq<char>>::empty().flatten() + g.flatten() =~= g.flatten());
    } else {
        let t = g.drop_first();
        lemma_flatten_split(t, k - 1);
        assert(g.take(k) =~= seq![g[0]] + t.take(k - 1));
        assert(g.take(k).drop_first() =~= t.take(k - 1));
        assert(g.skip(k) =~= t.skip(k - 1));
        assert(g.take(k).flatten() == g[0] + t.take(k - 1).flatten());
        assert(g.flatten() == g[0] + t.flatten());
        assert(g.flatten() =~= g.take(k).flatten() + g.skip(k).flatten());
    }
}

proof fn lemma_flatten_nonempty_len(g: Seq<Seq<char>>)
    requires
        forall|i: int| 0 <= i < g.len() ==> #[trigger] g[i].len() > 0,
    ensures
        g.len() <= g.flatten().len(),
    decreases g.len(),
{
    if g.len() > 0 {
        let t = g.drop_first();
        assert forall|i: int| 0 <= i < t.len() implies #[trigger] t[i].len() > 0 by {
            assert(t[i] == g[i + 1]);
        }
        lemma_flatten_nonempty_len(t);
    }
}

/// Number of grapheme clusters of a text.
pub(crate) fn grapheme_count(s: &str) -> (r: usize)
    ensures
        r == glen(s@),
        r <= s@.len(),
{
    let g = graphemes(s);
    proof {
        lemma_flatten_nonempty_len(clusters_view(g@));
    }
    g.len()
}

/// Character index where the grapheme cluster `pos` starts.
pub(crate) fn cluster_start(s: &str, pos: usize) -> (r: usize)
    requires
        pos <= glen(s@),
        s@.len() <= usize::MAX,
    ensures
        r == gstart(s@, pos as int),
        r <= s@.len(),
{
    let g = graphemes(s);
    let ghost cv = clusters_view(g@);
    let mut r: usize = 0;
    let mut i: usize = 0;
    proof {
        lemma_flatten_split(cv, pos as int);
        assert(cv.take(0) =~= Seq::<Seq<char>>::empty());
    }
    while i < pos
        invariant
            cv == clusters_view(g@),
            cv == spec_graphemes(s@),
            cv.flatten() == s@,
            pos <= cv.len(),
            i <= pos,
            r == cv.take(i as int).flatten().len(),
            cv.take(pos as int).flatten().len() <= s@.len(),
            s@.len() <= usize::MAX,
        decreases pos - i,
    {
        proof {
            assert(cv.take(i + 1) =~= cv.take(i as int).push(cv[i as int]));
            cv.take(i as int).lemma_flatten_push(cv[i as int]);
            lemma_flatten_split(cv.take(pos as int), i + 1);
            assert(cv.take(pos as int).take(i + 1) =~= cv.take(i + 1));
            assert(g@[i as int]@ == cv[i as int]);
            assert(r + cv[i as int].len() == cv.take(i + 1).flatten().len());
            assert(cv.take(i + 1).flatten().len() <= cv.take(pos as int).flatten().len());
        }
        r = r + g[i].len();
        i = i + 1;
    }
    r
}

/// Widget `b` after the key press on `a` (`handled`: the widget used the
/// key): an input field that is ready edits, a check box toggles, a list
/// box with items moves; other widgets leave the key alone.
pub open spec fn widget_keyed(a: WidgetType, b: WidgetType, key: KeyPress, handled: bool) -> bool {
    match a {
        WidgetType::Edit(x) => b matches WidgetType::Edit(y) && (if edit_ready(x) {
            edit_key(x, y, key, handled)
        } else {
            !handled && y == x
        }),
        WidgetType::CheckBox(x) => b matches WidgetType::CheckBox(y) && check_key(x, y, key, handled),
        WidgetType::ListBox(x) => b matches WidgetType::ListBox(y) && (if x.list@.len() > 0 {
            list_key(x, y, key, handled)
        } else {
            !handled && y == x
        }),
        _ => !handled && b == a,
    }
}

/// Whether the widget `w` takes the key: an input field that is ready takes
/// the editing keys, and the vertical arrows with Ctrl (history); a check
/// box takes the space; a list box with items takes the left and right
/// arrows.
pub open spec fn widget_uses(w: WidgetType, key: KeyPress) -> bool {
    match w {
        WidgetType::Edit(x) => edit_ready(x) && match key.key {
            Key::Up | Key::Down => (key.modifier & MOD_CTRL) != 0,
            Key::Home | Key::End | Key::Left | Key::Right | Key::Delete | Key::Backspace | Key::Char(_) => true,
            _ => false,
        },
        WidgetType::CheckBox(_) => key.key == Key::Char(' '),
        WidgetType::ListBox(x) => x.list@.len() > 0 && (key.key == Key::Left || key.key == Key::Right),
        _ => false,
    }
}

/// Typed widget.
pub enum WidgetType {
    Separator,
    StaticText(String),
    CheckBox(CheckBox),
    ListBox(ListBox),
    ProgressBar(u8),
    Button(Button),
    Edit(InputLine),
}

/// Widget context: linkage with a dialog.
#[derive(Clone, Copy, PartialEq, Eq, Structural, Debug)]
pub struct WidgetContext {
    /// Focus flag.
    pub focused: bool,
    /// State.
    pub enabled: bool,
    /// Start column on the dialog window.
    pub x: usize,
    /// Line number on the dialog window.
    pub y: usize,
    /// Size of the widget.
    pub width: usize,
}

impl Default for WidgetContext {
    /// Enabled, not focused, at the origin, empty.
    fn default() -> (r: Self)
        ensures
            !r.focused,
            r.enabled,
            r.x == 0,
            r.y == 0,
            r.width == 0,
    {
        WidgetContext { focused: false, enabled: true, x: 0, y: 0, width: 0 }
    }
}

/// Check box control.
pub struct CheckBox {
    pub state: bool,
    pub title: String,
}

/// Check box `b` after the key press on `a`: space toggles the state.
pub open spec fn check_key(a: CheckBox, b: CheckBox, key: KeyPress, handled: bool) -> bool {
    &&& handled == (key.key == Key::Char(' '))
    &&& b.state == (if handled {
        !a.state
    } else {
        a.state
    })
    &&& b.title == a.title
}

impl CheckBox {
    /// Keyboard input handler: space toggles the state.
    pub fn key_press(&mut self, key: &KeyPress) -> (handled: bool)
        ensures
            check_key(*old(self), *final(self), *key, handled),
    {
        if key.key == Key::Char(' ') {
            self.state = !self.state;
            true
        } else {
            false
        }
    }
}

/// List box control.
pub struct ListBox {
    pub list: Vec<String>,
    pub current: usize,
}

/// List box `b` after the key press on `a`: left and right arrows select
/// the previous and the next item (not past the ends).
pub open spec fn list_key(a: ListBox, b: ListBox, key: KeyPress, handled: bool) -> bool {
    &&& handled == (key.key == Key::Left || key.key == Key::Right)
    &&& b.current == (if key.key == Key::Left && a.current > 0 {
        a.current - 1
    } else if key.key == Key::Right && a.current < a.list@.len() - 1 {
        a.current + 1
    } else {
        a.current as int
    })
    &&& b.list == a.list
}

impl ListBox {
    /// Keyboard input handler: left and right arrows select the previous and
    /// the next item (not past the ends).
    pub fn key_press(&mut self, key: &KeyPress) -> (handled: bool)
        requires
            old(self).list@.len() > 0,
        ensures
            list_key(*old(self), *final(self), *key, handled),
    {
        match key.key {
            Key::Left => {
                if self.current > 0 {
                    self.current = self.current - 1;
                }
            },
            Key::Right => {
                if self.current < self.list.len() - 1 {
                    self.current = self.current + 1;
                }
            },
            _ => {
                return false;
            },
        }
        true
    }
}

/// Button.
pub struct Button {
    /// Text representation.
    pub text: String,
    /// Default button in group.
    pub default: bool,
}

/// Standard buttons.
#[derive(Clone, Copy, PartialEq, Eq, Structural, Debug)]
pub enum StandardButton {
    OK,
    Cancel,
    Retry,
    Yes,
    No,
}

/// Title of a standard button.
pub open spec fn button_title(b: StandardButton) -> Seq<char> {
    match b {
        StandardButton::OK => "OK"@,
        StandardButton::Cancel => "Cancel"@,
        StandardButton::Retry => "Retry"@,
        StandardButton::Yes => "Yes"@,
        StandardButton::No => "No"@,
    }
}

/// Text of a button: the title in braces for the default button of a group,
/// in square brackets otherwise.
pub open spec fn button_text(b: StandardButton, default: bool) -> Seq<char> {
    (if default {
        "{ "@
    } else {
        "[ "@
    }) + button_title(b) + (if default {
        " }"@
    } else {
        " ]"@
    })
}

impl StandardButton {
    /// Get text representation of the button.
    pub fn text(&self, default: bool) -> (r: String)
        ensures
            r@ == button_text(*self, default),
    {
        let title = match self {
            StandardButton::OK => "OK",
            StandardButton::Cancel => "Cancel",
            StandardButton::Retry => "Retry",
            StandardButton::Yes => "Yes",
            StandardButton::No => "No",
        };
        let mut r = String::new();
        if default {
            append_str(&mut r, "{ ");
        } else {
            append_str(&mut r, "[ ");
        }
        append_str(&mut r, title);
        if default {
            append_str(&mut r, " }");
        } else {
            append_str(&mut r, " ]");
        }
        r
    }
}

/// Value formats.
#[derive(Clone, Copy, PartialEq, Eq, Structural, Debug)]
pub enum InputFormat {
    Any,
    HexStream,
    HexSigned,
    HexUnsigned,
    DecSigned,
    DecUnsigned,
}

/// Single line input widget.
pub struct InputLine {
    /// Editing value.
    pub value: String,
    /// Value format.
    pub format: InputFormat,
    /// Size of the input field.
    pub width: usize,
    /// Selection flag.
    pub selection: bool,
    /// Cursor position in value string (in grapheme clusters).
    pub cursor: usize,
    /// First visible grapheme cluster of value string.
    pub start: usize,
    /// Input history.
    pub history: Vec<String>,
    /// Current index in history.
    pub current: usize,
}

/// Cursor position after a move by `step` in a text of `length` clusters.
pub open spec fn cursor_after(cursor: int, step: int, length: int) -> int {
    if step > length || cursor + step > length {
        length
    } else if step < 0 && cursor + step < 0 {
        0
    } else {
        cursor + step
    }
}

/// First visible cluster after the cursor moved to `cursor`.
pub open spec fn start_after(start: int, cursor: int, width: int) -> int {
    if cursor < start {
        cursor
    } else if cursor >= start + width {
        cursor - width + 1
    } else {
        start
    }
}

/// ASCII hex digit.
pub open spec fn is_hex_char(c: char) -> bool {
    ('0' <= c <= '9') || ('a' <= c <= 'f') || ('A' <= c <= 'F')
}

/// ASCII decimal digit.
pub open spec fn is_dec_char(c: char) -> bool {
    '0' <= c <= '9'
}

/// Whether a character may be typed into a value of the format, holding
/// `bytes` bytes, with the cursor at `cursor`.
pub open spec fn input_allowed(format: InputFormat, bytes: int, cursor: int, selection: bool, ch: char) -> bool {
    match format {
        InputFormat::Any => true,
        InputFormat::HexStream => bytes < 512 && is_hex_char(ch),
        InputFormat::HexSigned => (bytes < 16 && is_hex_char(ch)) || ((cursor == 0 || selection) && (ch == '-'
            || ch == '+')),
        InputFormat::HexUnsigned => bytes <= 16 && is_hex_char(ch),
        InputFormat::DecSigned => (bytes < 20 && is_dec_char(ch)) || ((cursor == 0 || selection) && (ch == '-'
            || ch == '+')),
        InputFormat::DecUnsigned => bytes <= 20 && is_dec_char(ch),
    }
}

/// Length in bytes of a text (as `str::len` gives it).
pub open spec fn byte_len(s: Seq<char>) -> int {
    (vstd::utf8::encode_utf8(s).len() as usize) as int
}

/// Text with the characters `[a, b)` removed.
pub open spec fn cut_chars(s: Seq<char>, a: int, b: int) -> Seq<char> {
    s.subrange(0, a) + s.subrange(b, s.len() as int)
}

/// Text with `ch` inserted at the character index `a`.
pub open spec fn insert_at(s: Seq<char>, a: int, ch: char) -> Seq<char> {
    s.subrange(0, a) + seq![ch] + s.subrange(a, s.len() as int)
}

/// Lengths fit the machine: the value may grow by a character; the cursor
/// and every history entry are below the largest allocation.
pub open spec fn lengths_ok(l: InputLine) -> bool {
    &&& l.value@.len() + 1 < isize::MAX
    &&& l.cursor < isize::MAX
    &&& forall|i: int| 0 <= i < l.history@.len() ==> #[trigger] l.history@[i]@.len() < isize::MAX
}

/// The cursor lies within the text (the precondition of editing).
pub open spec fn cursor_in_text(l: InputLine) -> bool {
    l.selection || l.cursor <= glen(l.value@)
}

/// `b` is `a` with its cursor moved by `step`.
pub open spec fn moved(a: InputLine, b: InputLine, step: int) -> bool {
    &&& !b.selection
    &&& b.cursor == cursor_after(a.cursor as int, step, glen(a.value@))
    &&& b.start == start_after(a.start as int, b.cursor as int, a.width as int)
    &&& b.value == a.value
    &&& b.format == a.format
    &&& b.width == a.width
    &&& b.history == a.history
    &&& b.current == a.current
}

/// Value, cursor and first visible cluster once a selection is dropped
/// (the selected value is deleted, the cursor goes to the start).
pub open spec fn unselected(a: InputLine) -> (Seq<char>, int, int) {
    if a.selection {
        (Seq::empty(), 0, start_after(a.start as int, 0, a.width as int))
    } else {
        (a.value@, a.cursor as int, a.start as int)
    }
}

/// `b` keeps the fields of `a` that editing the value does not touch.
pub open spec fn same_setup(a: InputLine, b: InputLine) -> bool {
    &&& b.format == a.format
    &&& b.width == a.width
    &&& b.history == a.history
    &&& b.current == a.current
}

/// `b` is `a` after typing `ch`: where the format allows it, the selection
/// is deleted and `ch` is inserted at the cursor, which moves past it;
/// otherwise nothing changes.
pub open spec fn inserted(a: InputLine, b: InputLine, ch: char) -> bool {
    if input_allowed(a.format, byte_len(a.value@), a.cursor as int, a.selection, ch) {
        let (v0, c0, s0) = unselected(a);
        let v1 = insert_at(v0, gstart(v0, c0), ch);
        &&& b.value@ == v1
        &&& !b.selection
        &&& b.cursor == cursor_after(c0, 1, glen(v1))
        &&& b.start == start_after(s0, b.cursor as int, a.width as int)
        &&& same_setup(a, b)
    } else {
        b == a
    }
}

/// `b` is `a` after deleting `count` clusters to the right of the cursor
/// (`count > 0`, the cursor stays) or `-count` to its left (`count < 0`,
/// the cursor moves back over them); a selection is deleted first.
pub open spec fn deleted(a: InputLine, b: InputLine, count: int) -> bool {
    let (v0, c0, s0) = unselected(a);
    let length = glen(v0);
    &&& !b.selection
    &&& same_setup(a, b)
    &&& if count > 0 && c0 < length {
        let rm = if length - c0 < count {
            length - c0
        } else {
            count
        };
        &&& b.value@ == cut_chars(v0, gstart(v0, c0), gstart(v0, c0 + rm))
        &&& b.cursor == c0
        &&& b.start == s0
    } else if count < 0 && c0 > 0 {
        let rm = if c0 < -count {
            c0
        } else {
            -count
        };
        let v1 = cut_chars(v0, gstart(v0, c0 - rm), gstart(v0, c0));
        &&& b.value@ == v1
        &&& b.cursor == cursor_after(c0, count, glen(v1))
        &&& b.start == start_after(s0, b.cursor as int, a.width as int)
    } else {
        &&& b.value@ == v0
        &&& b.cursor == c0
        &&& b.start == s0
    }
}

/// History index after stepping forward or back (none past the ends).
pub open spec fn history_step(a: InputLine, forward: bool) -> Option<int> {
    if forward && a.current + 1 < a.history@.len() {
        Some(a.current + 1)
    } else if !forward && a.current > 0 {
        Some(a.current - 1)
    } else {
        None
    }
}

/// `b` is `a` after stepping through the history: the value becomes the
/// history entry, selected, with the cursor at its end.
pub open spec fn recalled(a: InputLine, b: InputLine, forward: bool) -> bool {
    match history_step(a, forward) {
        Some(k) => {
            &&& b.current == k
            &&& b.value@ == a.history@[k]@
            &&& b.selection
            &&& b.cursor == glen(b.value@)
            &&& b.start == start_after(a.start as int, b.cursor as int, a.width as int)
            &&& b.format == a.format
            &&& b.width == a.width
            &&& b.history == a.history
        },
        None => b == a,
    }
}

/// `b` is `a` after the key press; `handled` tells whether the field used
/// the key.
pub open spec fn edit_key(a: InputLine, b: InputLine, key: KeyPress, handled: bool) -> bool {
    match key.key {
        Key::Up => if (key.modifier & MOD_CTRL) != 0 {
            handled && recalled(a, b, false)
        } else {
            !handled && b == a
        },
        Key::Down => if (key.modifier & MOD_CTRL) != 0 {
            handled && recalled(a, b, true)
        } else {
            !handled && b == a
        },
        Key::Home => handled && moved(a, b, isize::MIN as int),
        Key::End => handled && moved(a, b, isize::MAX as int),
        Key::Left => handled && moved(a, b, -1),
        Key::Right => handled && moved(a, b, 1),
        Key::Delete => handled && deleted(a, b, 1),
        Key::Backspace => handled && deleted(a, b, -1),
        Key::Char(ch) => handled && inserted(a, b, ch),
        _ => !handled && b == a,
    }
}

/// `b` is `a` once it took the focus: the cursor at the end of the value,
/// the value selected.
pub open spec fn focus_taken(a: InputLine, b: InputLine) -> bool {
    &&& b.selection
    &&& b.cursor == glen(a.value@)
    &&& b.start == start_after(a.start as int, b.cursor as int, a.width as int)
    &&& b.value == a.value
    &&& same_setup(a, b)
}

proof fn lemma_gstart_mono(s: Seq<char>, k1: int, k2: int)
    requires
        0 <= k1 <= k2 <= glen(s),
    ensures
        gstart(s, k1) <= gstart(s, k2),
{
    let g = spec_graphemes(s);
    lemma_flatten_split(g.take(k2), k1);
    assert(g.take(k2).take(k1) =~= g.take(k1));
}

impl InputLine {
    /// Create new widget instance.
    pub fn new(value: String, format: InputFormat, history: Vec<String>, width: usize) -> (r: Self)
        ensures
            r.value == value,
            r.format == format,
            r.history == history,
            r.width == width,
            !r.selection,
            r.cursor == 0,
            r.start == 0,
            r.current == 0,
    {
        InputLine { value, format, width, selection: false, cursor: 0, start: 0, history, current: 0 }
    }

    /// Set new value (the cursor goes to its start).
    pub fn set_value(&mut self, value: String)
        ensures
            final(self).value == value,
            !final(self).selection,
            final(self).cursor == 0,
            final(self).start == start_after(old(self).start as int, 0, old(self).width as int),
            old(self).width > 0 ==> final(self).start == 0,
            final(self).format == old(self).format,
            final(self).width == old(self).width,
            final(self).history == old(self).history,
            final(self).current == old(self).current,
    {
        self.value = value;
        self.selection = false;
        self.cursor = 0;
        self.follow_cursor();
    }

    /// Get the current value.
    pub fn get_value(&self) -> (r: &str)
        ensures
            r@ == self.value@,
    {
        self.value.as_str()
    }

    /// Focus set handler: the cursor goes to the end, the value is selected.
    pub fn on_focus_set(&mut self)
        requires
            old(self).value@.len() < isize::MAX,
        ensures
            focus_taken(*old(self), *final(self)),
    {
        self.move_cursor(isize::MAX);
        self.selection = true;
    }

    /// Move cursor inside the edit string.
    fn move_cursor(&mut self, step: isize)
        requires
            old(self).value@.len() < isize::MAX,
        ensures
            glen(old(self).value@) <= old(self).value@.len(),
            moved(*old(self), *final(self), step as int),
    {
        self.selection = false;
        let length = grapheme_count(self.value.as_str());
        let len: i128 = length as i128;
        let cur: i128 = self.cursor as i128;
        let st: i128 = step as i128;
        let cursor: usize = if st > len || cur + st > len {
            length
        } else if st < 0 && cur + st < 0 {
            0
        } else {
            (cur + st) as usize
        };
        self.cursor = cursor;
        self.follow_cursor();
    }

    /// Move the first visible cluster so that the cursor is in view.
    fn follow_cursor(&mut self)
        requires
            old(self).cursor < usize::MAX,
        ensures
            final(self).start == start_after(old(self).start as int, old(self).cursor as int, old(self).width as int),
            *final(self) == (InputLine { start: final(self).start, ..*old(self) }),
    {
        if self.cursor < self.start {
            self.start = self.cursor;
        } else if self.cursor - self.start >= self.width {
            self.start = self.cursor - self.width + 1;
        }
    }
    /// Insert character to current cursor position.
    fn insert_char(&mut self, ch: char)
        requires
            lengths_ok(*old(self)),
            cursor_in_text(*old(self)),
        ensures
            inserted(*old(self), *final(self), ch),
    {
        let bytes = self.value.as_str().len();
        let allow = match self.format {
            InputFormat::Any => true,
            InputFormat::HexStream => bytes < 512 && hex_char(ch),
            InputFormat::HexSigned => (bytes < 16 && hex_char(ch)) || ((self.cursor == 0 || self.selection) && (ch
                == '-' || ch == '+')),
            InputFormat::HexUnsigned => bytes <= 16 && hex_char(ch),
            InputFormat::DecSigned => (bytes < 20 && dec_char(ch)) || ((self.cursor == 0 || self.selection) && (ch
                == '-' || ch == '+')),
            InputFormat::DecUnsigned => bytes <= 20 && dec_char(ch),
        };
        if allow {
            if self.selection {
                // delete the entire selection
                self.selection = false;
                self.value = String::new();
                self.move_cursor(isize::MIN);
            }
            let ghost v0 = self.value@;
            let pos = cluster_start(self.value.as_str(), self.cursor);
            let chars = to_chars(self.value.as_str());
            let mut v = from_chars(&chars, 0, pos);
            push_char(&mut v, ch);
            let rest = from_chars(&chars, pos, chars.len());
            append_str(&mut v, rest.as_str());
            self.value = v;
            assert(self.value@ =~= insert_at(v0, gstart(v0, self.cursor as int), ch));
            assert(v0 == unselected(*old(self)).0);
            assert(self.cursor == unselected(*old(self)).1);
            assert(self.start == unselected(*old(self)).2);
            self.move_cursor(1);
        }
    }

    /// Delete `count` characters (grapheme clusters) from the cursor
    /// position: to the right for a positive count, to the left otherwise.
    fn delete_char(&mut self, count: isize)
        requires
            lengths_ok(*old(self)),
            cursor_in_text(*old(self)),
            count != isize::MIN,
        ensures
            deleted(*old(self), *final(self), count as int),
    {
        if self.selection {
            // delete the entire selection
            self.selection = false;
            self.value = String::new();
            self.move_cursor(isize::MIN);
        }
        let ghost v0 = self.value@;
        let length = grapheme_count(self.value.as_str());
        if count > 0 && self.cursor < length {
            // delete to the right
            let count_u = count as usize;
            let remove = if length - self.cursor < count_u {
                length - self.cursor
            } else {
                count_u
            };
            let a = cluster_start(self.value.as_str(), self.cursor);
            let b = cluster_start(self.value.as_str(), self.cursor + remove);
            proof {
                lemma_gstart_mono(v0, self.cursor as int, self.cursor + remove);
            }
            let chars = to_chars(self.value.as_str());
            let mut v = from_chars(&chars, 0, a);
            let rest = from_chars(&chars, b, chars.len());
            append_str(&mut v, rest.as_str());
            self.value = v;
            assert(self.value@ =~= cut_chars(v0, a as int, b as int));
        } else if count < 0 && self.cursor > 0 {
            // delete to the left (backspace)
            let count_u = (-count) as usize;
            let remove = if self.cursor < count_u {
                self.cursor
            } else {
                count_u
            };
            let a = cluster_start(self.value.as_str(), self.cursor - remove);
            let b = cluster_start(self.value.as_str(), self.cursor);
            proof {
                lemma_gstart_mono(v0, self.cursor - remove, self.cursor as int);
            }
            let chars = to_chars(self.value.as_str());
            let mut v = from_chars(&chars, 0, a);
            let rest = from_chars(&chars, b, chars.len());
            append_str(&mut v, rest.as_str());
            self.value = v;
            assert(self.value@ =~= cut_chars(v0, a as int, b as int));
            self.move_cursor(count);
        }
    }

    /// Move through history.
    fn from_history(&mut self, forward: bool)
        requires
            lengths_ok(*old(self)),
            old(self).current <= old(self).history@.len(),
        ensures
            recalled(*old(self), *final(self), forward),
    {
        if forward && self.history.len() > 0 && self.current < self.history.len() - 1 {
            self.current = self.current + 1;
        } else if !forward && self.current > 0 {
            self.current = self.current - 1;
        } else {
            return;
        }
        self.value = self.history[self.current].clone();
        self.move_cursor(isize::MAX);
        self.selection = true;
    }

    /// Keyboard input handler; returns `true` if the key was handled.
    pub fn key_press(&mut self, key: &KeyPress) -> (handled: bool)
        requires
            lengths_ok(*old(self)),
            cursor_in_text(*old(self)),
            old(self).current <= old(self).history@.len(),
        ensures
            edit_key(*old(self), *final(self), *key, handled),
    {
        match key.key {
            Key::Up => {
                if key.modifier & MOD_CTRL != 0 {
                    self.from_history(false);
                    return true;
                }
                return false;
            },
            Key::Down => {
                if key.modifier & MOD_CTRL != 0 {
                    self.from_history(true);
                    return true;
                }
                return false;
            },
            Key::Home => {
                self.move_cursor(isize::MIN);
            },
            Key::End => {
                self.move_cursor(isize::MAX);
            },
            Key::Left => {
                self.move_cursor(-1);
            },
            Key::Right => {
                self.move_cursor(1);
            },
            Key::Delete => {
                self.delete_char(1);
            },
            Key::Backspace => {
                self.delete_char(-1);
            },
            Key::Char(ch) => {
                self.insert_char(ch);
            },
            _ => {
                return false;
            },
        }
        true
    }
}

impl WidgetType {
    /// Keyboard input handler; returns `true` if the key was handled. An
    /// input field whose cursor lies past its text leaves the key alone.
    pub fn key_press(&mut self, key: &KeyPress) -> (handled: bool)
        ensures
            widget_keyed(*old(self), *final(self), *key, handled),
            handled == widget_uses(*old(self), *key),
    {
        match self {
            WidgetType::Edit(widget) => {
                if cursor_fits(widget) && line_fits(widget) {
                    widget.key_press(key)
                } else {
                    false
                }
            },
            WidgetType::CheckBox(widget) => widget.key_press(key),
            WidgetType::ListBox(widget) => {
                if widget.list.len() > 0 {
                    widget.key_press(key)
                } else {
                    false
                }
            },
            _ => false,
        }
    }

    /// Check if widget is focusable.
    pub fn focusable(&self) -> (r: bool)
        ensures
            r == (self is CheckBox || self is Button || self is ListBox || self is Edit),
    {
        match self {
            WidgetType::CheckBox(_) | WidgetType::Button(_) | WidgetType::ListBox(_) | WidgetType::Edit(_) => true,
            _ => false,
        }
    }

    /// Set focus handler: an input field selects its value.
    pub fn focus_set(&mut self)
        ensures
            match *old(self) {
                WidgetType::Edit(a) => *final(self) matches WidgetType::Edit(b) && (if a.value@.len() < isize::MAX {
                    focus_taken(a, b)
                } else {
                    b == a
                }),
                _ => *final(self) == *old(self),
            },
    {
        if let WidgetType::Edit(edit) = self {
            if edit.value.unicode_len() < isize::MAX as usize {
                edit.on_focus_set();
            }
        }
    }
}

/// An input field can take keys: its lengths fit the machine, its cursor
/// lies within its text and its history index within its history.
pub open spec fn edit_ready(l: InputLine) -> bool {
    &&& lengths_ok(l)
    &&& cursor_in_text(l)
    &&& l.current <= l.history@.len()
}

/// Whether the lengths of an input field fit the machine and its history
/// index lies within its history.
fn line_fits(l: &InputLine) -> (r: bool)
    ensures
        r == (lengths_ok(*l) && l.current <= l.history@.len()),
{
    if !(l.value.unicode_len() < (isize::MAX - 1) as usize && l.cursor < isize::MAX as usize && l.current
        <= l.history.len()) {
        return false;
    }
    let mut i: usize = 0;
    while i < l.history.len()
        invariant
            i <= l.history@.len(),
            forall|k: int| 0 <= k < i ==> #[trigger] l.history@[k]@.len() < isize::MAX,
        decreases l.history.len() - i,
    {
        if !(l.history[i].unicode_len() < isize::MAX as usize) {
            return false;
        }
        i = i + 1;
    }
    true
}

/// Whether the cursor of an input field lies within its text.
fn cursor_fits(l: &InputLine) -> (r: bool)
    ensures
        r == cursor_in_text(*l),
{
    l.selection || l.cursor <= grapheme_count(l.value.as_str())
}

/// ASCII hex digit.
fn hex_char(c: char) -> (r: bool)
    ensures
        r == is_hex_char(c),
{
    ('0' <= c && c <= '9') || ('a' <= c && c <= 'f') || ('A' <= c && c <= 'F')
}

/// ASCII decimal digit.
fn dec_char(c: char) -> (r: bool)
    ensures
        r == is_dec_char(c),
{
    '0' <= c && c <= '9'
}

} // verus!

//! Widgets of the classic dialogs: static text, border, separator, buttons,
//! check box, progress bar and the single line editor.
use crate::curses::{Key, KeyPress};
use crate::text::append_str;
use crate::ui::widget::{
    cursor_in_text, edit_key, focus_taken, glen, lengths_ok, start_after, InputFormat, InputLine,
};
use vstd::prelude::*;
use vstd::string::StringExecFns;

verus! {

/// Widget data.
pub enum WidgetData {
    Text(String),
    Number(usize),
    Bool(bool),
}

/// Static text line.
pub struct Text {
    pub text: String,
}

impl Text {
    /// Create new widget instance.
    pub fn new(text: &str) -> (r: Box<Self>)
        ensures
            r.text@ == text@,
    {
        Box::new(Text { text: String::from_str(text) })
    }

    /// Set the text (other data is ignored).
    pub fn set_data(&mut self, data: WidgetData)
        ensures
            final(self).text == (match data {
                WidgetData::Text(t) => t,
                _ => old(self).text,
            }),
    {
        if let WidgetData::Text(text) = data {
            self.text = text;
        }
    }

    /// Get the text.
    pub fn get_data(&self) -> (r: WidgetData)
        ensures
            r matches WidgetData::Text(t) && t@ == self.text@,
    {
        WidgetData::Text(self.text.clone())
    }
}

/// Text framed by one space on each side.
pub open spec fn spaced(title: Seq<char>) -> Seq<char> {
    " "@ + title + " "@
}

/// Static border with title.
pub struct Border {
    pub title: String,
}

impl Border {
    /// Create new widget instance (the title framed by spaces).
    pub fn new(title: &str) -> (r: Box<Self>)
        ensures
            r.title@ == spaced(title@),
    {
        Box::new(Border { title: framed(title) })
    }
}

/// Static separator (horizontal line).
pub struct Separator {
    pub title: String,
}

impl Separator {
    /// Create new widget instance (a title is framed by spaces).
    pub fn new(title: Option<&str>) -> (r: Box<Self>)
        ensures
            r.title@ == (match title {
                Some(t) => spaced(t@),
                None => Seq::empty(),
            }),
    {
        let title = match title {
            Some(t) => framed(t),
            None => String::new(),
        };
        Box::new(Separator { title })
    }
}

/// Text framed by one space on each side.
fn framed(title: &str) -> (r: String)
    ensures
        r@ == spaced(title@),
{
    let mut r = String::new();
    append_str(&mut r, " ");
    append_str(&mut r, title);
    append_str(&mut r, " ");
    r
}

/// Standard buttons.
#[derive(Clone, Copy, PartialEq, Eq, Structural, Debug)]
pub enum StdButton {
    OK,
    Cancel,
    Retry,
    Yes,
    No,
}

/// Title of a standard button.
pub open spec fn std_title(b: StdButton) -> Seq<char> {
    match b {
        StdButton::OK => "OK"@,
        StdButton::Cancel => "Cancel"@,
        StdButton::Retry => "Retry"@,
        StdButton::Yes => "Yes"@,
        StdButton::No => "No"@,
    }
}

/// Button text: the title in braces for the default button, in square
/// brackets otherwise.
pub open spec fn bracketed(title: Seq<char>, default: bool) -> Seq<char> {
    (if default {
        "{ "@
    } else {
        "[ "@
    }) + title + (if default {
        " }"@
    } else {
        " ]"@
    })
}

/// Button.
pub struct Button {
    pub text: String,
    pub default: bool,
}

impl Button {
    /// Create custom button instance.
    pub fn new(title: &str, default: bool) -> (r: Box<Self>)
        ensures
            r.text@ == bracketed(title@, default),
            r.default == default,
    {
        let mut text = String::new();
        if default {
            append_str(&mut text, "{ ");
        } else {
            append_str(&mut text, "[ ");
        }
        append_str(&mut text, title);
        if default {
            append_str(&mut text, " }");
        } else {
            append_str(&mut text, " ]");
        }
        Box::new(Button { text, default })
    }

    /// Create standard button instance.
    pub fn standard(button: StdButton, default: bool) -> (r: Box<Self>)
        ensures
            r.text@ == bracketed(std_title(button), default),
            r.default == default,
    {
        let text = match button {
            StdButton::OK => "OK",
            StdButton::Cancel => "Cancel",
            StdButton::Retry => "Retry",
            StdButton::Yes => "Yes",
            StdButton::No => "No",
        };
        Button::new(text, default)
    }
}

/// Checkbox.
pub struct Checkbox {
    pub title: String,
    pub state: bool,
}

impl Checkbox {
    /// Create new widget instance.
    pub fn new(title: &str, state: bool) -> (r: Box<Self>)
        ensures
            r.title@ == title@,
            r.state == state,
    {
        Box::new(Checkbox { title: String::from_str(title), state })
    }

    /// Keyboard input handler: space toggles the state.
    pub fn keypress(&mut self, key: &KeyPress) -> (handled: bool)
        ensures
            handled == (key.key == Key::Char(' ')),
            final(self).state == (old(self).state != handled),
            final(self).title == old(self).title,
    {
        if key.key == Key::Char(' ') {
            self.state = !self.state;
            true
        } else {
            false
        }
    }

    /// Set the state (other data is ignored).
    pub fn set_data(&mut self, data: WidgetData)
        ensures
            final(self).state == (match data {
                WidgetData::Bool(b) => b,
                _ => old(self).state,
            }),
            final(self).title == old(self).title,
    {
        if let WidgetData::Bool(state) = data {
            self.state = state;
        }
    }

    /// Get the state.
    pub fn get_data(&self) -> (r: WidgetData)
        ensures
            r == WidgetData::Bool(self.state),
    {
        WidgetData::Bool(self.state)
    }
}

/// Progress bar.
pub struct ProgressBar {
    pub percent: usize,
}

impl ProgressBar {
    /// Create new widget instance (no progress shown yet).
    pub fn new() -> (r: Box<Self>)
        ensures
            r.percent == usize::MAX,
    {
        Box::new(ProgressBar { percent: usize::MAX })
    }

    /// Set the percentage (other data is ignored).
    pub fn set_data(&mut self, data: WidgetData)
        ensures
            final(self).percent == (match data {
                WidgetData::Number(n) => n,
                _ => old(self).percent,
            }),
    {
        if let WidgetData::Number(n) = data {
            self.percent = n;
        }
    }

    /// Get the percentage.
    pub fn get_data(&self) -> (r: WidgetData)
        ensures
            r == WidgetData::Number(self.percent),
    {
        WidgetData::Number(self.percent)
    }
}

/// Edit formats.
#[derive(Clone, Copy, PartialEq, Eq, Structural, Debug)]
pub enum EditFormat {
    Any,
    HexStream,
    HexSigned,
    HexUnsigned,
    DecSigned,
    DecUnsigned,
}

/// Input format of an edit format.
pub open spec fn format_of(f: EditFormat) -> InputFormat {
    match f {
        EditFormat::Any => InputFormat::Any,
        EditFormat::HexStream => InputFormat::HexStream,
        EditFormat::HexSigned => InputFormat::HexSigned,
        EditFormat::HexUnsigned => InputFormat::HexUnsigned,
        EditFormat::DecSigned => InputFormat::DecSigned,
        EditFormat::DecUnsigned => InputFormat::DecUnsigned,
    }
}

/// Single line editor.
pub struct Edit {
    pub value: String,
    pub history: Vec<String>,
    /// Current index in history.
    pub history_index: usize,
    /// Value format.
    pub format: EditFormat,
    /// Selection flag.
    pub selection: bool,
    /// Cursor position in value string (in grapheme clusters).
    pub cursor: usize,
    /// First visible grapheme cluster of value string.
    pub start: usize,
    pub width: usize,
}

/// The editor as an input line: it behaves as one.
pub open spec fn line_of(e: Edit) -> InputLine {
    InputLine {
        value: e.value,
        format: format_of(e.format),
        width: e.width,
        selection: e.selection,
        cursor: e.cursor,
        start: e.start,
        history: e.history,
        current: e.history_index,
    }
}


impl Edit {
    /// Create new widget instance.
    pub fn new(width: usize, value: String, format: EditFormat) -> (r: Box<Self>)
        ensures
            r.value == value,
            r.history@.len() == 0,
            r.history_index == 0,
            r.format == format,
            !r.selection,
            r.cursor == 0,
            r.start == 0,
            r.width == width,
    {
        Box::new(
            Edit {
                value,
                history: Vec::new(),
                history_index: 0,
                format,
                selection: false,
                cursor: 0,
                start: 0,
                width,
            },
        )
    }

    /// Move the value and history out into an input line.
    fn take_line(&mut self) -> (l: InputLine)
        ensures
            l == line_of(*old(self)),
            final(self).format == old(self).format,
    {
        let mut value = String::new();
        std::mem::swap(&mut value, &mut self.value);
        let mut history: Vec<String> = Vec::new();
        std::mem::swap(&mut history, &mut self.history);
        let format = match self.format {
            EditFormat::Any => InputFormat::Any,
            EditFormat::HexStream => InputFormat::HexStream,
            EditFormat::HexSigned => InputFormat::HexSigned,
            EditFormat::HexUnsigned => InputFormat::HexUnsigned,
            EditFormat::DecSigned => InputFormat::DecSigned,
            EditFormat::DecUnsigned => InputFormat::DecUnsigned,
        };
        InputLine {
            value,
            format,
            width: self.width,
            selection: self.selection,
            cursor: self.cursor,
            start: self.start,
            history,
            current: self.history_index,
        }
    }

    /// Take the state of an input line back.
    fn put_line(&mut self, l: InputLine)
        requires
            l.format == format_of(old(self).format),
        ensures
            line_of(*final(self)) == l,
    {
        self.value = l.value;
        self.history = l.history;
        self.history_index = l.current;
        self.selection = l.selection;
        self.cursor = l.cursor;
        self.start = l.start;
        self.width = l.width;
    }

    /// Set focus handler: the cursor goes to the end, the value is selected.
    pub fn focus(&mut self)
        requires
            old(self).value@.len() < isize::MAX,
        ensures
            focus_taken(line_of(*old(self)), line_of(*final(self))),
    {
        let mut line = self.take_line();
        line.on_focus_set();
        self.put_line(line);
    }

    /// Keyboard input handler, returns true if key was handled.
    pub fn keypress(&mut self, key: &KeyPress) -> (handled: bool)
        requires
            lengths_ok(line_of(*old(self))),
            cursor_in_text(line_of(*old(self))),
            old(self).history_index <= old(self).history@.len(),
        ensures
            edit_key(line_of(*old(self)), line_of(*final(self)), *key, handled),
    {
        let mut line = self.take_line();
        let handled = line.key_press(key);
        self.put_line(line);
        handled
    }

    /// Set the value (other data is ignored); the cursor goes to its start.
    pub fn set_data(&mut self, data: WidgetData)
        ensures
            match data {
                WidgetData::Text(t) => final(self).value == t && final(self).cursor == 0 && !final(self).selection
                    && final(self).start == start_after(old(self).start as int, 0, old(self).width as int)
                    && final(self).history == old(self).history && final(self).history_index == old(
                    self,
                ).history_index && final(self).format == old(self).format && final(self).width == old(self).width,
                _ => *final(self) == *old(self),
            },
    {
        if let WidgetData::Text(text) = data {
            let mut line = self.take_line();
            line.set_value(text);
            self.put_line(line);
        }
    }

    /// Get the value.
    pub fn get_data(&self) -> (r: WidgetData)
        ensures
            r matches WidgetData::Text(t) && t@ == self.value@,
    {
        WidgetData::Text(self.value.clone())
    }
}

} // verus!

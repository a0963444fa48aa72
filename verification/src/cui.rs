//! Console user interface: the interface of a text terminal and its events.
use vstd::prelude::*;

verus! {

/// Console user interface: drawing and input of a text terminal.
pub trait Cui {
    /// Print text at the position.
    fn print(&self, x: usize, y: usize, text: &str);

    /// Color a part of a line.
    fn color(&self, x: usize, y: usize, width: usize, color: Color);

    /// Set the color of the following output.
    fn color_on(&self, color: Color);

    /// Clear the screen.
    fn clear(&self);

    /// Size of the screen (columns, lines).
    fn size(&self) -> (usize, usize);

    /// Show the cursor at the position.
    fn show_cursor(&self, x: usize, y: usize);

    /// Hide the cursor.
    fn hide_cursor(&self);

    /// Wait for the next event.
    fn poll_event(&self) -> Event;
}

/// Colors of the interface elements.
#[derive(Copy, Clone, PartialEq, Eq, Structural, Debug)]
pub enum Color {
    OffsetNormal,
    OffsetHi,
    HexNormal,
    HexHi,
    HexModified,
    HexModifiedHi,
    AsciiNormal,
    AsciiHi,
    AsciiModified,
    AsciiModifiedHi,
    StatusBar,
    KeyBarId,
    KeyBarTitle,
    DialogNormal,
    DialogError,
    DialogShadow,
    ItemDisabled,
    ItemFocused,
    EditNormal,
    EditFocused,
    EditSelection,
}

/// Color pair number of a color (the first is 1).
pub open spec fn color_number(c: Color) -> int {
    match c {
        Color::OffsetNormal => 1,
        Color::OffsetHi => 2,
        Color::HexNormal => 3,
        Color::HexHi => 4,
        Color::HexModified => 5,
        Color::HexModifiedHi => 6,
        Color::AsciiNormal => 7,
        Color::AsciiHi => 8,
        Color::AsciiModified => 9,
        Color::AsciiModifiedHi => 10,
        Color::StatusBar => 11,
        Color::KeyBarId => 12,
        Color::KeyBarTitle => 13,
        Color::DialogNormal => 14,
        Color::DialogError => 15,
        Color::DialogShadow => 16,
        Color::ItemDisabled => 17,
        Color::ItemFocused => 18,
        Color::EditNormal => 19,
        Color::EditFocused => 20,
        Color::EditSelection => 21,
    }
}

impl Color {
    /// Color pair number of the color.
    pub fn number(self) -> (r: i16)
        ensures
            r == color_number(self),
    {
        match self {
            Color::OffsetNormal => 1,
            Color::OffsetHi => 2,
            Color::HexNormal => 3,
            Color::HexHi => 4,
            Color::HexModified => 5,
            Color::HexModifiedHi => 6,
            Color::AsciiNormal => 7,
            Color::AsciiHi => 8,
            Color::AsciiModified => 9,
            Color::AsciiModifiedHi => 10,
            Color::StatusBar => 11,
            Color::KeyBarId => 12,
            Color::KeyBarTitle => 13,
            Color::DialogNormal => 14,
            Color::DialogError => 15,
            Color::DialogShadow => 16,
            Color::ItemDisabled => 17,
            Color::ItemFocused => 18,
            Color::EditNormal => 19,
            Color::EditFocused => 20,
            Color::EditSelection => 21,
        }
    }
}

/// External event.
#[derive(Copy, Clone, PartialEq, Eq, Structural, Debug)]
pub enum Event {
    /// Terminal window was resized.
    TerminalResize,
    /// Key pressed.
    KeyPress(KeyPress),
}

/// Key press event data: code with modifiers.
#[derive(Copy, Clone, PartialEq, Eq, Structural, Debug)]
pub struct KeyPress {
    pub key: Key,
    pub modifier: u8,
}

impl KeyPress {
    /// Create a key press.
    pub fn new(key: Key, modifier: u8) -> (r: Self)
        ensures
            r.key == key,
            r.modifier == modifier,
    {
        KeyPress { key, modifier }
    }
}

/// Key types.
#[derive(Copy, Clone, PartialEq, Eq, Structural, Debug)]
pub enum Key {
    // alphanumeric
    Char(char),
    // functional buttons (F1, F2, ...)
    F(u8),
    // special buttons
    Left,
    Right,
    Up,
    Down,
    PageUp,
    PageDown,
    Home,
    End,
    Tab,
    Backspace,
    Delete,
    Enter,
    Esc,
}

} // verus!

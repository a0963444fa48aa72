//! Terminal input and colors: key codes as the terminal library reports
//! them, decoded into key presses.
use vstd::prelude::*;

verus! {

/// Terminal key code: down-arrow key.
pub const KEY_DOWN: i32 = 0x102;
/// Terminal key code: up-arrow key.
pub const KEY_UP: i32 = 0x103;
/// Terminal key code: left-arrow key.
pub const KEY_LEFT: i32 = 0x104;
/// Terminal key code: right-arrow key.
pub const KEY_RIGHT: i32 = 0x105;
/// Terminal key code: home key.
pub const KEY_HOME: i32 = 0x106;
/// Terminal key code: backspace key.
pub const KEY_BACKSPACE: i32 = 0x107;
/// Terminal key code: first function key (64 codes follow).
pub const KEY_F1: i32 = 0x109;
/// Terminal key code: delete-character key.
pub const KEY_DC: i32 = 0x14a;
/// Terminal key code: scroll-forward (shifted down) key.
pub const KEY_SF: i32 = 0x150;
/// Terminal key code: scroll-backward (shifted up) key.
pub const KEY_SR: i32 = 0x151;
/// Terminal key code: next-page key.
pub const KEY_NPAGE: i32 = 0x152;
/// Terminal key code: previous-page key.
pub const KEY_PPAGE: i32 = 0x153;
/// Terminal key code: back-tab key.
pub const KEY_BTAB: i32 = 0x161;
/// Terminal key code: end key.
pub const KEY_END: i32 = 0x168;
/// Terminal key code: shifted end key.
pub const KEY_SEND: i32 = 0x182;
/// Terminal key code: shifted home key.
pub const KEY_SHOME: i32 = 0x187;
/// Terminal key code: shifted left-arrow key.
pub const KEY_SLEFT: i32 = 0x189;
/// Terminal key code: shifted right-arrow key.
pub const KEY_SRIGHT: i32 = 0x192;
/// Terminal key code: terminal resize event.
pub const KEY_RESIZE: i32 = 0x19a;

/// Key modifier: none.
pub const MOD_NONE: u8 = 0b000;
/// Key modifier: shift.
pub const MOD_SHIFT: u8 = 0b001;
/// Key modifier: control.
pub const MOD_CTRL: u8 = 0b010;
/// Key modifier: alt.
pub const MOD_ALT: u8 = 0b100;

/// Wrapper around the terminal library: key decoding.
pub struct Curses;

/// Color identifiers.
#[derive(Copy, Clone, PartialEq, Eq, Structural, Debug)]
pub enum Color {
    HexNorm,
    HexMod,
    HexDiff,
    HexNormHi,
    HexModHi,
    HexDiffHi,
    AsciiNorm,
    AsciiMod,
    AsciiDiff,
    AsciiNormHi,
    AsciiModHi,
    AsciiDiffHi,
    Offset,
    OffsetHi,
    Bar,
    Dialog,
    Error,
    Disabled,
    Focused,
    Input,
    Select,
}

/// Color pair number of each color (1 for the first one, in order).
pub open spec fn spec_pair_id(c: Color) -> i16 {
    match c {
        Color::HexNorm => 1,
        Color::HexMod => 2,
        Color::HexDiff => 3,
        Color::HexNormHi => 4,
        Color::HexModHi => 5,
        Color::HexDiffHi => 6,
        Color::AsciiNorm => 7,
        Color::AsciiMod => 8,
        Color::AsciiDiff => 9,
        Color::AsciiNormHi => 10,
        Color::AsciiModHi => 11,
        Color::AsciiDiffHi => 12,
        Color::Offset => 13,
        Color::OffsetHi => 14,
        Color::Bar => 15,
        Color::Dialog => 16,
        Color::Error => 17,
        Color::Disabled => 18,
        Color::Focused => 19,
        Color::Input => 20,
        Color::Select => 21,
    }
}

impl Color {
    /// Color pair number used by the terminal for this color.
    pub fn pair_id(self) -> (r: i16)
        ensures
            r == spec_pair_id(self),
    {
        match self {
            Color::HexNorm => 1,
            Color::HexMod => 2,
            Color::HexDiff => 3,
            Color::HexNormHi => 4,
            Color::HexModHi => 5,
            Color::HexDiffHi => 6,
            Color::AsciiNorm => 7,
            Color::AsciiMod => 8,
            Color::AsciiDiff => 9,
            Color::AsciiNormHi => 10,
            Color::AsciiModHi => 11,
            Color::AsciiDiffHi => 12,
            Color::Offset => 13,
            Color::OffsetHi => 14,
            Color::Bar => 15,
            Color::Dialog => 16,
            Color::Error => 17,
            Color::Disabled => 18,
            Color::Focused => 19,
            Color::Input => 20,
            Color::Select => 21,
        }
    }
}

/// External event.
#[derive(Copy, Clone, PartialEq, Eq, Structural, Debug)]
pub enum Event {
    /// Terminal window was resized.
    TerminalResize,
    /// Key pressed.
    KeyPress(KeyPress),
}

/// Key types.
#[derive(Copy, Clone, PartialEq, Eq, Structural, Debug)]
pub enum Key {
    // alphanumeric
    Char(char),
    // functional buttons (F1, F2, ...)
    F(u8),
    // special buttons
    Left,
    Right,
    Up,
    Down,
    PageUp,
    PageDown,
    Home,
    End,
    Tab,
    Backspace,
    Delete,
    Enter,
    Esc,
}

/// Key press event data: code with modifiers.
#[derive(Copy, Clone, PartialEq, Eq, Structural, Debug)]
pub struct KeyPress {
    pub key: Key,
    pub modifier: u8,
}

impl KeyPress {
    /// Create a key press.
    pub fn new(key: Key, modifier: u8) -> (r: Self)
        ensures
            r.key == key,
            r.modifier == modifier,
    {
        KeyPress { key, modifier }
    }
}

/// Spec form of a key press.
pub open spec fn kp(key: Key, modifier: u8) -> KeyPress {
    KeyPress { key, modifier }
}

/// `true` for the code of a valid `char` (not a surrogate, not above the
/// Unicode range).
pub open spec fn valid_char_code(c: u32) -> bool {
    c < 0xd800 || (0xe000 <= c && c <= 0x10ffff)
}

/// Calls `char::from_u32`, which returns the character of a valid code
/// and `None` for a surrogate or a code above `0x10ffff`.
#[verifier::external_body]
pub(crate) fn char_from_u32(c: u32) -> (r: Option<char>)
    ensures
        r == (if valid_char_code(c) {
            Some(c as char)
        } else {
            None
        }),
{
    std::char::from_u32(c)
}

/// Key press for a character code: control codes map to control
/// combinations and special keys, other characters to themselves.
pub open spec fn spec_key_from_char(chr: u32) -> Option<KeyPress> {
    if !valid_char_code(chr) {
        None
    } else if chr >= 0x80 || (0x20 <= chr && chr < 0x7f) || chr == 0 {
        Some(kp(Key::Char(chr as char), MOD_NONE))
    } else if chr == 0x09 {
        Some(kp(Key::Tab, MOD_NONE))
    } else if chr == 0x0a || chr == 0x0d {
        Some(kp(Key::Enter, MOD_NONE))
    } else if chr == 0x1b {
        Some(kp(Key::Esc, MOD_NONE))
    } else if chr == 0x7f {
        Some(kp(Key::Backspace, MOD_NONE))
    } else if chr <= 0x1a {
        Some(kp(Key::Char((chr + 0x60) as char), MOD_CTRL))
    } else {
        // 0x1c..0x1f: '\\', ']', '^', '_'
        Some(kp(Key::Char((chr + 0x40) as char), MOD_CTRL))
    }
}

/// Key press for a terminal key code.
pub open spec fn spec_key_from_code(code: i32) -> Option<KeyPress> {
    let a = MOD_ALT;
    let s = MOD_SHIFT;
    let c = MOD_CTRL;
    if code == KEY_LEFT {
        Some(kp(Key::Left, MOD_NONE))
    } else if code == KEY_SLEFT {
        Some(kp(Key::Left, s))
    } else if code == 0x220 {
        Some(kp(Key::Left, a))
    } else if code == 0x221 {
        Some(kp(Key::Left, a | s))
    } else if code == 0x222 {
        Some(kp(Key::Left, c))
    } else if code == 0x223 {
        Some(kp(Key::Left, c | s))
    } else if code == 0x224 {
        Some(kp(Key::Left, a | c))
    } else if code == KEY_RIGHT {
        Some(kp(Key::Right, MOD_NONE))
    } else if code == KEY_SRIGHT {
        Some(kp(Key::Right, s))
    } else if code == 0x22f {
        Some(kp(Key::Right, a))
    } else if code == 0x230 {
        Some(kp(Key::Right, a | s))
    } else if code == 0x231 {
        Some(kp(Key::Right, c))
    } else if code == 0x232 {
        Some(kp(Key::Right, c | s))
    } else if code == 0x233 {
        Some(kp(Key::Right, a | c))
    } else if code == KEY_UP {
        Some(kp(Key::Up, MOD_NONE))
    } else if code == KEY_SR {
        Some(kp(Key::Up, s))
    } else if code == 0x235 {
        Some(kp(Key::Up, a))
    } else if code == 0x236 {
        Some(kp(Key::Up, a | s))
    } else if code == 0x237 {
        Some(kp(Key::Up, c))
    } else if code == 0x238 {
        Some(kp(Key::Up, c | s))
    } else if code == 0x239 {
        Some(kp(Key::Up, a | c))
    } else if code == KEY_DOWN {
        Some(kp(Key::Down, MOD_NONE))
    } else if code == KEY_SF {
        Some(kp(Key::Down, s))
    } else if code == 0x20c {
        Some(kp(Key::Down, a))
    } else if code == 0x20d {
        Some(kp(Key::Down, a | s))
    } else if code == 0x20e {
        Some(kp(Key::Down, c))
    } else if code == 0x20f {
        Some(kp(Key::Down, c | s))
    } else if code == 0x210 {
        Some(kp(Key::Down, a | c))
    } else if code == KEY_PPAGE {
        Some(kp(Key::PageUp, MOD_NONE))
    } else if code == KEY_NPAGE {
        Some(kp(Key::PageDown, MOD_NONE))
    } else if code == KEY_HOME {
        Some(kp(Key::Home, MOD_NONE))
    } else if code == KEY_SHOME {
        Some(kp(Key::Home, s))
    } else if code == 0x216 {
        Some(kp(Key::Home, a))
    } else if code == 0x217 {
        Some(kp(Key::Home, a | s))
    } else if code == 0x218 {
        Some(kp(Key::Home, c))
    } else if code == 0x219 {
        Some(kp(Key::Home, c | s))
    } else if code == 0x21a {
        Some(kp(Key::Home, a | c))
    } else if code == KEY_END {
        Some(kp(Key::End, MOD_NONE))
    } else if code == KEY_SEND {
        Some(kp(Key::End, s))
    } else if code == 0x211 {
        Some(kp(Key::End, a))
    } else if code == 0x212 {
        Some(kp(Key::End, a | s))
    } else if code == 0x213 {
        Some(kp(Key::End, c))
    } else if code == 0x214 {
        Some(kp(Key::End, c | s))
    } else if code == 0x215 {
        Some(kp(Key::End, a | c))
    } else if code == KEY_BTAB {
        Some(kp(Key::Tab, s))
    } else if code == KEY_DC {
        Some(kp(Key::Delete, MOD_NONE))
    } else if code == KEY_BACKSPACE {
        Some(kp(Key::Backspace, MOD_NONE))
    } else if KEY_F1 <= code && code < KEY_F1 + 64 {
        let f = code - KEY_F1;
        let m = if f >= 48 {
            a
        } else if f >= 36 {
            c | s
        } else if f >= 24 {
            c
        } else if f >= 12 {
            s
        } else {
            MOD_NONE
        };
        Some(kp(Key::F((1 + f % 12) as u8), m))
    } else {
        None
    }
}

impl Curses {
    /// Create key press instance from a character code.
    pub fn key_from_char(chr: u32) -> (r: Option<KeyPress>)
        ensures
            r == spec_key_from_char(chr),
    {
        let c = match char_from_u32(chr) {
            Some(c) => c,
            None => {
                return None;
            },
        };
        if chr >= 0x80 || (0x20 <= chr && chr < 0x7f) || chr == 0 {
            return Some(KeyPress::new(Key::Char(c), MOD_NONE));
        }
        if chr == 0x09 {
            Some(KeyPress::new(Key::Tab, MOD_NONE))
        } else if chr == 0x0a || chr == 0x0d {
            Some(KeyPress::new(Key::Enter, MOD_NONE))
        } else if chr == 0x1b {
            Some(KeyPress::new(Key::Esc, MOD_NONE))
        } else if chr == 0x7f {
            Some(KeyPress::new(Key::Backspace, MOD_NONE))
        } else if chr <= 0x1a {
            let letter = char_from_u32(chr + 0x60);
            match letter {
                Some(l) => Some(KeyPress::new(Key::Char(l), MOD_CTRL)),
                None => None,
            }
        } else {
            let sign = char_from_u32(chr + 0x40);
            match sign {
                Some(l) => Some(KeyPress::new(Key::Char(l), MOD_CTRL)),
                None => None,
            }
        }
    }

    /// Create key press instance from a terminal key code.
    pub fn key_from_code(code: i32) -> (r: Option<KeyPress>)
        ensures
            r == spec_key_from_code(code),
    {
        let a = MOD_ALT;
        let s = MOD_SHIFT;
        let c = MOD_CTRL;
        if code == KEY_LEFT {
            Some(KeyPress::new(Key::Left, MOD_NONE))
        } else if code == KEY_SLEFT {
            Some(KeyPress::new(Key::Left, s))
        } else if code == 0x220 {
            Some(KeyPress::new(Key::Left, a))
        } else if code == 0x221 {
            Some(KeyPress::new(Key::Left, a | s))
        } else if code == 0x222 {
            Some(KeyPress::new(Key::Left, c))
        } else if code == 0x223 {
            Some(KeyPress::new(Key::Left, c | s))
        } else if code == 0x224 {
            Some(KeyPress::new(Key::Left, a | c))
        } else if code == KEY_RIGHT {
            Some(KeyPress::new(Key::Right, MOD_NONE))
        } else if code == KEY_SRIGHT {
            Some(KeyPress::new(Key::Right, s))
        } else if code == 0x22f {
            Some(KeyPress::new(Key::Right, a))
        } else if code == 0x230 {
            Some(KeyPress::new(Key::Right, a | s))
        } else if code == 0x231 {
            Some(KeyPress::new(Key::Right, c))
        } else if code == 0x232 {
            Some(KeyPress::new(Key::Right, c | s))
        } else if code == 0x233 {
            Some(KeyPress::new(Key::Right, a | c))
        } else if code == KEY_UP {
            Some(KeyPress::new(Key::Up, MOD_NONE))
        } else if code == KEY_SR {
            Some(KeyPress::new(Key::Up, s))
        } else if code == 0x235 {
            Some(KeyPress::new(Key::Up, a))
        } else if code == 0x236 {
            Some(KeyPress::new(Key::Up, a | s))
        } else if code == 0x237 {
            Some(KeyPress::new(Key::Up, c))
        } else if code == 0x238 {
            Some(KeyPress::new(Key::Up, c | s))
        } else if code == 0x239 {
            Some(KeyPress::new(Key::Up, a | c))
        } else if code == KEY_DOWN {
            Some(KeyPress::new(Key::Down, MOD_NONE))
        } else if code == KEY_SF {
            Some(KeyPress::new(Key::Down, s))
        } else if code == 0x20c {
            Some(KeyPress::new(Key::Down, a))
        } else if code == 0x20d {
            Some(KeyPress::new(Key::Down, a | s))
        } else if code == 0x20e {
            Some(KeyPress::new(Key::Down, c))
        } else if code == 0x20f {
            Some(KeyPress::new(Key::Down, c | s))
        } else if code == 0x210 {
            Some(KeyPress::new(Key::Down, a | c))
        } else if code == KEY_PPAGE {
            Some(KeyPress::new(Key::PageUp, MOD_NONE))
        } else if code == KEY_NPAGE {
            Some(KeyPress::new(Key::PageDown, MOD_NONE))
        } else if code == KEY_HOME {
            Some(KeyPress::new(Key::Home, MOD_NONE))
        } else if code == KEY_SHOME {
            Some(KeyPress::new(Key::Home, s))
        } else if code == 0x216 {
            Some(KeyPress::new(Key::Home, a))
        } else if code == 0x217 {
            Some(KeyPress::new(Key::Home, a | s))
        } else if code == 0x218 {
            Some(KeyPress::new(Key::Home, c))
        } else if code == 0x219 {
            Some(KeyPress::new(Key::Home, c | s))
        } else if code == 0x21a {
            Some(KeyPress::new(Key::Home, a | c))
        } else if code == KEY_END {
            Some(KeyPress::new(Key::End, MOD_NONE))
        } else if code == KEY_SEND {
            Some(KeyPress::new(Key::End, s))
        } else if code == 0x211 {
            Some(KeyPress::new(Key::End, a))
        } else if code == 0x212 {
            Some(KeyPress::new(Key::End, a | s))
        } else if code == 0x213 {
            Some(KeyPress::new(Key::End, c))
        } else if code == 0x214 {
            Some(KeyPress::new(Key::End, c | s))
        } else if code == 0x215 {
            Some(KeyPress::new(Key::End, a | c))
        } else if code == KEY_BTAB {
            Some(KeyPress::new(Key::Tab, s))
        } else if code == KEY_DC {
            Some(KeyPress::new(Key::Delete, MOD_NONE))
        } else if code == KEY_BACKSPACE {
            Some(KeyPress::new(Key::Backspace, MOD_NONE))
        } else if KEY_F1 <= code && code < KEY_F1 + 64 {
            // check for Fn range
            let fn_max: i32 = 12;
            let fn_code: i32 = code - KEY_F1;
            let fn_num = (1 + fn_code % fn_max) as u8;
            let m = if fn_code >= fn_max * 4 {
                a
            } else if fn_code >= fn_max * 3 {
                c | s
            } else if fn_code >= fn_max * 2 {
                c
            } else if fn_code >= fn_max {
                s
            } else {
                MOD_NONE
            };
            Some(KeyPress::new(Key::F(fn_num), m))
        } else {
            None
        }
    }

    /// Decode an escape sequence: an escape code followed by the code of
    /// the next character read (if any) is that key with the alt modifier;
    /// otherwise it is the escape key itself.
    pub fn key_after_escape(next: Option<u32>) -> (r: KeyPress)
        ensures
            r == (match next {
                Some(chr) => match spec_key_from_char(chr) {
                    Some(k) => kp(k.key, k.modifier | MOD_ALT),
                    None => kp(Key::Esc, MOD_NONE),
                },
                None => kp(Key::Esc, MOD_NONE),
            }),
    {
        if let Some(chr) = next {
            if let Some(key) = Curses::key_from_char(chr) {
                return KeyPress::new(key.key, key.modifier | MOD_ALT);
            }
        }
        KeyPress::new(Key::Esc, MOD_NONE)
    }
}

/// Modifiers of the extended arrow, Home and End codes, in the order of
/// their codes.
pub open spec fn extended_modifier(k: int) -> u8 {
    if k == 0 {
        MOD_ALT
    } else if k == 1 {
        MOD_ALT | MOD_SHIFT
    } else if k == 2 {
        MOD_CTRL
    } else if k == 3 {
        MOD_CTRL | MOD_SHIFT
    } else {
        MOD_ALT | MOD_CTRL
    }
}

/// Modifiers of the blocks of function key codes, in the order of the
/// blocks.
pub open spec fn function_modifier(k: int) -> u8 {
    if k == 0 {
        MOD_NONE
    } else if k == 1 {
        MOD_SHIFT
    } else if k == 2 {
        MOD_CTRL
    } else if k == 3 {
        MOD_CTRL | MOD_SHIFT
    } else {
        MOD_ALT
    }
}

/// Each arrow, Home and End key has a run of five extended codes, one for
/// each of Alt, Alt+Shift, Ctrl, Ctrl+Shift and Alt+Ctrl, in that order;
/// the function keys F1 to F12 come in blocks of twelve codes: plain, with
/// Shift, with Ctrl, with Ctrl+Shift and with Alt.
pub proof fn law_key_code_runs(k: int, n: int)
    requires
        0 <= k < 5,
        1 <= n <= 12,
    ensures
        spec_key_from_code((0x220 + k) as i32) == Some(kp(Key::Left, extended_modifier(k))),
        spec_key_from_code((0x22f + k) as i32) == Some(kp(Key::Right, extended_modifier(k))),
        spec_key_from_code((0x235 + k) as i32) == Some(kp(Key::Up, extended_modifier(k))),
        spec_key_from_code((0x20c + k) as i32) == Some(kp(Key::Down, extended_modifier(k))),
        spec_key_from_code((0x216 + k) as i32) == Some(kp(Key::Home, extended_modifier(k))),
        spec_key_from_code((0x211 + k) as i32) == Some(kp(Key::End, extended_modifier(k))),
        spec_key_from_code((KEY_F1 + 12 * k + n - 1) as i32) == Some(kp(Key::F(n as u8), function_modifier(k))),
{
    let f = 12 * k + n - 1;
    assert(f % 12 == n - 1 && f / 12 == k) by (nonlinear_arith)
        requires
            f == 12 * k + n - 1,
            0 <= k < 5,
            1 <= n <= 12,
    ;
}

/// Control codes of letters are Ctrl with the letter (code 1 is Ctrl+A;
/// the codes of Tab and Enter excepted), and printable ASCII characters
/// stand for themselves.
pub proof fn law_char_codes(letter: char, x: u32)
    requires
        'a' <= letter <= 'z',
    ensures
        ({
            let code = ((letter as u32) - ('a' as u32) + 1) as u32;
            code != 9 && code != 10 && code != 13 ==> spec_key_from_char(code) == Some(
                kp(Key::Char(letter), MOD_CTRL),
            )
        }),
        0x20 <= x < 0x7f ==> spec_key_from_char(x) == Some(kp(Key::Char(x as char), MOD_NONE)),
{
}

} // verus!

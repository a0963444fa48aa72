//! Controller decisions: what the editor does on an input event, and the
//! text of the key bar.
use crate::curses::{Event, Key, KeyPress, MOD_ALT, MOD_CTRL, MOD_NONE, MOD_SHIFT};
use crate::cursor::{Direction, HalfByte, Place};
use crate::editor::{lemma_merge_full, spec_merge, Focus};
use crate::num::digit_value;
use crate::text::{append_str, push_char};
use vstd::prelude::*;

verus! {

/// What the editor does on an input event.
#[derive(Clone, Copy, PartialEq, Eq, Structural, Debug)]
pub enum Action {
    /// Nothing to do.
    Nothing,
    /// Leave the editor (after asking to save modified files).
    Exit,
    /// Lay the views out for the new screen size.
    Resize,
    /// Show the mini help.
    Help,
    /// Save the current file.
    Save,
    /// Save the current file with a new name.
    SaveAs,
    /// Ask for an address and go there.
    Goto,
    /// Ask for a sequence and find it.
    Find,
    /// Find the last sequence again (`true`: backward).
    FindClosest(bool),
    /// Fill a range.
    Fill,
    /// Insert bytes.
    Insert,
    /// Cut out a range.
    Cut,
    /// Set the viewer up.
    Setup,
    /// Switch the focus.
    Focus(Focus),
    /// Move the cursor.
    Move(Direction),
    /// Go to the closest change (`true`: forward).
    ClosestChange(bool),
    /// Undo the last change.
    Undo,
    /// Redo the last undone change.
    Redo,
    /// Write the bits of the value under the mask at the cursor, then move.
    Change(u8, u8, Direction),
}

/// Action of a key with the given modifier: one action for each of no
/// modifier, shift, alt and ctrl; other modifiers do nothing.
pub open spec fn by_modifier(m: u8, none: Action, shift: Action, alt: Action, ctrl: Action) -> Action {
    if m == MOD_NONE {
        none
    } else if m == MOD_SHIFT {
        shift
    } else if m == MOD_ALT {
        alt
    } else if m == MOD_CTRL {
        ctrl
    } else {
        Action::Nothing
    }
}

/// Common keyboard input: the action, or `None` where the key is left to
/// the focused field.
pub open spec fn spec_common(key: KeyPress, backward: bool) -> Option<Action> {
    let m = key.modifier;
    match key.key {
        Key::F(1) => Some(Action::Help),
        Key::F(2) => Some(by_modifier(m, Action::Save, Action::SaveAs, Action::Nothing, Action::Nothing)),
        Key::F(3) => Some(Action::Goto),
        Key::F(5) => Some(
            if m == MOD_SHIFT {
                Action::FindClosest(backward)
            } else if m == MOD_ALT {
                Action::FindClosest(!backward)
            } else {
                Action::Find
            },
        ),
        Key::F(6) => Some(Action::Fill),
        Key::F(7) => Some(Action::Insert),
        Key::F(8) => Some(Action::Cut),
        Key::F(9) => Some(Action::Setup),
        Key::Tab => Some(
            Action::Focus(
                if m == MOD_SHIFT {
                    Focus::PreviousField
                } else {
                    Focus::NextField
                },
            ),
        ),
        Key::Left => Some(
            by_modifier(
                m,
                Action::Move(Direction::PrevByte),
                Action::Move(Direction::PrevWord),
                Action::ClosestChange(false),
                Action::Focus(Focus::PreviousField),
            ),
        ),
        Key::Right => Some(
            by_modifier(
                m,
                Action::Move(Direction::NextByte),
                Action::Move(Direction::NextWord),
                Action::ClosestChange(true),
                Action::Focus(Focus::NextField),
            ),
        ),
        Key::Up => Some(
            by_modifier(
                m,
                Action::Move(Direction::LineUp),
                Action::Move(Direction::ScrollUp),
                Action::ClosestChange(false),
                Action::Focus(Focus::PreviousDocument),
            ),
        ),
        Key::Down => Some(
            by_modifier(
                m,
                Action::Move(Direction::LineDown),
                Action::Move(Direction::ScrollDown),
                Action::ClosestChange(true),
                Action::Focus(Focus::NextDocument),
            ),
        ),
        Key::Home => Some(
            by_modifier(
                m,
                Action::Move(Direction::LineBegin),
                Action::Nothing,
                Action::Nothing,
                Action::Move(Direction::FileBegin),
            ),
        ),
        Key::End => Some(
            by_modifier(
                m,
                Action::Move(Direction::LineEnd),
                Action::Nothing,
                Action::Nothing,
                Action::Move(Direction::FileEnd),
            ),
        ),
        Key::PageUp => Some(Action::Move(Direction::PageUp)),
        Key::PageDown => Some(Action::Move(Direction::PageDown)),
        Key::Char('z') => if m == MOD_CTRL {
            Some(Action::Undo)
        } else {
            None
        },
        Key::Char('r') | Key::Char('y') => if m == MOD_CTRL {
            Some(Action::Redo)
        } else {
            None
        },
        _ => None,
    }
}

/// Value of a hex digit character.
pub open spec fn hex_half(c: char) -> int {
    if 'a' <= c <= 'f' {
        c as int - 'a' as int + 10
    } else if 'A' <= c <= 'F' {
        c as int - 'A' as int + 10
    } else {
        c as int - '0' as int
    }
}

/// Keyboard input in the hex field (vi-like keys and hex digits); a digit
/// writes the half of the byte under the cursor and moves to the next half.
pub open spec fn spec_hex_input(key: KeyPress, half: HalfByte, backward: bool) -> Action {
    match key.key {
        Key::Backspace => Action::Move(Direction::PrevHalf),
        Key::Char('G') => Action::Move(Direction::FileEnd),
        Key::Char('g') => Action::Move(Direction::FileBegin),
        Key::Char(':') => Action::Goto,
        Key::Char('/') => Action::Find,
        Key::Char('n') => Action::FindClosest(backward),
        Key::Char('N') => Action::FindClosest(!backward),
        Key::Char('h') => Action::Move(Direction::PrevByte),
        Key::Char('l') => Action::Move(Direction::NextByte),
        Key::Char('j') => Action::Move(Direction::LineUp),
        Key::Char('k') => Action::Move(Direction::LineDown),
        Key::Char('u') => Action::Undo,
        Key::Char(c) => if (('a' <= c <= 'f') || ('A' <= c <= 'F') || ('0' <= c <= '9')) && key.modifier
            == MOD_NONE {
            if half == HalfByte::Left {
                Action::Change((hex_half(c) * 16) as u8, 0xf0, Direction::NextHalf)
            } else {
                Action::Change(hex_half(c) as u8, 0x0f, Direction::NextHalf)
            }
        } else {
            Action::Nothing
        },
        _ => Action::Nothing,
    }
}

/// The move that goes the other way.
pub open spec fn reverse_direction(d: Direction) -> Direction {
    match d {
        Direction::PrevHalf => Direction::NextHalf,
        Direction::NextHalf => Direction::PrevHalf,
        Direction::PrevByte => Direction::NextByte,
        Direction::NextByte => Direction::PrevByte,
        Direction::PrevWord => Direction::NextWord,
        Direction::NextWord => Direction::PrevWord,
        Direction::LineBegin => Direction::LineEnd,
        Direction::LineEnd => Direction::LineBegin,
        Direction::LineUp => Direction::LineDown,
        Direction::LineDown => Direction::LineUp,
        Direction::ScrollUp => Direction::ScrollDown,
        Direction::ScrollDown => Direction::ScrollUp,
        Direction::PageUp => Direction::PageDown,
        Direction::PageDown => Direction::PageUp,
        Direction::FileBegin => Direction::FileEnd,
        Direction::FileEnd => Direction::FileBegin,
        Direction::Absolute(t, d) => Direction::Absolute(t, d),
    }
}

/// The action that goes the other way (moves, searches and focus changes
/// turn round; other actions stay).
pub open spec fn reverse_action(a: Action) -> Action {
    match a {
        Action::Move(d) => Action::Move(reverse_direction(d)),
        Action::ClosestChange(forward) => Action::ClosestChange(!forward),
        Action::FindClosest(backward) => Action::FindClosest(!backward),
        Action::Focus(Focus::NextField) => Action::Focus(Focus::PreviousField),
        Action::Focus(Focus::PreviousField) => Action::Focus(Focus::NextField),
        Action::Focus(Focus::NextDocument) => Action::Focus(Focus::PreviousDocument),
        Action::Focus(Focus::PreviousDocument) => Action::Focus(Focus::NextDocument),
        _ => a,
    }
}

/// Keys that point opposite ways do opposite things, with every modifier:
/// left and right, up and down, Home and End, Page Up and Page Down, Tab
/// and Shift+Tab, Shift+F5 and Alt+F5. Without a modifier the arrows move
/// the cursor by a byte or a line in their direction, Home and End go to
/// the ends of the line, Page Up and Page Down by a page; Ctrl+Z undoes,
/// Ctrl+R and Ctrl+Y redo.
pub proof fn law_opposite_keys(m: u8, backward: bool)
    ensures
        ({
            let act = |k: Key| spec_common(KeyPress { key: k, modifier: m }, backward);
            let plain = |k: Key| spec_common(KeyPress { key: k, modifier: MOD_NONE }, backward);
            &&& act(Key::Left) matches Some(a) && act(Key::Right) == Some(reverse_action(a))
            &&& act(Key::Up) matches Some(a) && act(Key::Down) == Some(reverse_action(a))
            &&& act(Key::Home) matches Some(a) && act(Key::End) == Some(reverse_action(a))
            &&& act(Key::PageUp) matches Some(a) && act(Key::PageDown) == Some(reverse_action(a))
            &&& spec_common(KeyPress { key: Key::Tab, modifier: MOD_SHIFT }, backward) == Some(
                reverse_action(plain(Key::Tab).unwrap()),
            )
            &&& spec_common(KeyPress { key: Key::F(5), modifier: MOD_SHIFT }, backward) matches Some(a)
                && spec_common(KeyPress { key: Key::F(5), modifier: MOD_ALT }, backward) == Some(reverse_action(a))
            &&& plain(Key::Left) == Some(Action::Move(Direction::PrevByte))
            &&& plain(Key::Up) == Some(Action::Move(Direction::LineUp))
            &&& plain(Key::Home) == Some(Action::Move(Direction::LineBegin))
            &&& plain(Key::PageUp) == Some(Action::Move(Direction::PageUp))
            &&& plain(Key::Tab) == Some(Action::Focus(Focus::NextField))
            &&& spec_common(KeyPress { key: Key::Char('z'), modifier: MOD_CTRL }, backward) == Some(Action::Undo)
            &&& spec_common(KeyPress { key: Key::Char('r'), modifier: MOD_CTRL }, backward) == Some(Action::Redo)
            &&& spec_common(KeyPress { key: Key::Char('y'), modifier: MOD_CTRL }, backward) == Some(Action::Redo)
        }),
{
}

/// The vi keys of the hex field come in opposite pairs: `h` and `l` move a
/// byte back and on, `g` and `G` go to the ends of the file, `n` and `N`
/// repeat the search in opposite directions; `u` undoes.
pub proof fn law_vi_keys(half: HalfByte, backward: bool)
    ensures
        ({
            let act = |c: char| spec_hex_input(KeyPress { key: Key::Char(c), modifier: MOD_NONE }, half, backward);
            &&& act('h') == Action::Move(Direction::PrevByte)
            &&& act('l') == reverse_action(act('h'))
            &&& act('j') == reverse_action(act('k'))
            &&& act('g') == Action::Move(Direction::FileBegin)
            &&& act('G') == reverse_action(act('g'))
            &&& act('n') == Action::FindClosest(backward)
            &&& act('N') == reverse_action(act('n'))
            &&& act('u') == Action::Undo
        }),
{
}

/// Typing a hex digit in the hex field writes the digit into the half of
/// the byte under the cursor and keeps the other half, then moves to the
/// next half: on the left half the digit becomes the high four bits, on the
/// right half the low four bits.
pub proof fn law_hex_digit_writes_half(c: char, half: HalfByte, backward: bool, old: u8)
    requires
        0 <= digit_value(c) < 16,
    ensures
        spec_hex_input(KeyPress { key: Key::Char(c), modifier: MOD_NONE }, half, backward) matches Action::Change(
            v,
            m,
            d,
        ) && d == Direction::NextHalf && ({
            let merged = spec_merge(old, v, m);
            let digit = digit_value(c) as u8;
            &&& half == HalfByte::Left ==> merged & 0x0f == old & 0x0f && merged >> 4u8 == digit
            &&& half == HalfByte::Right ==> merged & 0xf0 == old & 0xf0 && merged & 0x0f == digit
        }),
{
    let digit = digit_value(c) as u8;
    assert(hex_half(c) == digit_value(c));
    let hi = (hex_half(c) * 16) as u8;
    let lo = hex_half(c) as u8;
    assert(hi == digit * 16);
    assert(lo == digit);
    assert(((old & !0xf0u8) | (hi & 0xf0u8)) & 0x0f == old & 0x0f && ((old & !0xf0u8) | (hi & 0xf0u8)) >> 4u8
        == digit) by (bit_vector)
        requires
            hi == digit * 16,
            digit < 16,
    ;
    assert(((old & !0x0fu8) | (lo & 0x0fu8)) & 0xf0 == old & 0xf0 && ((old & !0x0fu8) | (lo & 0x0fu8)) & 0x0f
        == digit) by (bit_vector)
        requires
            lo == digit,
            digit < 16,
    ;
}

/// Typing a printable character in the ASCII field writes it as the whole
/// byte under the cursor and moves to the next byte.
pub proof fn law_ascii_char_writes_byte(c: char, old: u8)
    requires
        ' ' <= c <= '~',
    ensures
        spec_ascii_input(KeyPress { key: Key::Char(c), modifier: MOD_NONE }) matches Action::Change(v, m, d)
            && d == Direction::NextByte && spec_merge(old, v, m) as u32 == c as u32,
{
    if let Action::Change(v, m, d) = spec_ascii_input(KeyPress { key: Key::Char(c), modifier: MOD_NONE }) {
        lemma_merge_full(old, v);
    }
}

/// Keyboard input in the ASCII field: a printable character writes the
/// byte under the cursor and moves to the next byte.
pub open spec fn spec_ascii_input(key: KeyPress) -> Action {
    match key.key {
        Key::Char(c) => if ' ' <= c <= '~' && key.modifier == MOD_NONE {
            Action::Change(c as u8, 0xff, Direction::NextByte)
        } else {
            Action::Nothing
        },
        _ => Action::Nothing,
    }
}

/// Action of an input event in the main loop.
pub open spec fn spec_event_action(event: Event, place: Place, half: HalfByte, backward: bool) -> Action {
    match event {
        Event::TerminalResize => Action::Resize,
        Event::KeyPress(key) => match key.key {
            Key::Esc | Key::F(10) => Action::Exit,
            _ => match spec_common(key, backward) {
                Some(a) => a,
                None => if place == Place::Hex {
                    spec_hex_input(key, half, backward)
                } else {
                    spec_ascii_input(key)
                },
            },
        },
    }
}

/// Action of one of the four modifiers.
fn by_modifier_of(m: u8, none: Action, shift: Action, alt: Action, ctrl: Action) -> (r: Action)
    ensures
        r == by_modifier(m, none, shift, alt, ctrl),
{
    if m == MOD_NONE {
        none
    } else if m == MOD_SHIFT {
        shift
    } else if m == MOD_ALT {
        alt
    } else if m == MOD_CTRL {
        ctrl
    } else {
        Action::Nothing
    }
}

/// Common keyboard input handler; `None` where the key is not handled.
pub fn key_input_common(key: &KeyPress, search_backward: bool) -> (r: Option<Action>)
    ensures
        r == spec_common(*key, search_backward),
{
    let m = key.modifier;
    match key.key {
        Key::F(1) => Some(Action::Help),
        Key::F(2) => Some(by_modifier_of(m, Action::Save, Action::SaveAs, Action::Nothing, Action::Nothing)),
        Key::F(3) => Some(Action::Goto),
        Key::F(5) => Some(
            if m == MOD_SHIFT {
                Action::FindClosest(search_backward)
            } else if m == MOD_ALT {
                Action::FindClosest(!search_backward)
            } else {
                Action::Find
            },
        ),
        Key::F(6) => Some(Action::Fill),
        Key::F(7) => Some(Action::Insert),
        Key::F(8) => Some(Action::Cut),
        Key::F(9) => Some(Action::Setup),
        Key::Tab => Some(
            Action::Focus(
                if m == MOD_SHIFT {
                    Focus::PreviousField
                } else {
                    Focus::NextField
                },
            ),
        ),
        Key::Left => Some(
            by_modifier_of(
                m,
                Action::Move(Direction::PrevByte),
                Action::Move(Direction::PrevWord),
                Action::ClosestChange(false),
                Action::Focus(Focus::PreviousField),
            ),
        ),
        Key::Right => Some(
            by_modifier_of(
                m,
                Action::Move(Direction::NextByte),
                Action::Move(Direction::NextWord),
                Action::ClosestChange(true),
                Action::Focus(Focus::NextField),
            ),
        ),
        Key::Up => Some(
            by_modifier_of(
                m,
                Action::Move(Direction::LineUp),
                Action::Move(Direction::ScrollUp),
                Action::ClosestChange(false),
                Action::Focus(Focus::PreviousDocument),
            ),
        ),
        Key::Down => Some(
            by_modifier_of(
                m,
                Action::Move(Direction::LineDown),
                Action::Move(Direction::ScrollDown),
                Action::ClosestChange(true),
                Action::Focus(Focus::NextDocument),
            ),
        ),
        Key::Home => Some(
            by_modifier_of(
                m,
                Action::Move(Direction::LineBegin),
                Action::Nothing,
                Action::Nothing,
                Action::Move(Direction::FileBegin),
            ),
        ),
        Key::End => Some(
            by_modifier_of(
                m,
                Action::Move(Direction::LineEnd),
                Action::Nothing,
                Action::Nothing,
                Action::Move(Direction::FileEnd),
            ),
        ),
        Key::PageUp => Some(Action::Move(Direction::PageUp)),
        Key::PageDown => Some(Action::Move(Direction::PageDown)),
        Key::Char('z') => if m == MOD_CTRL {
            Some(Action::Undo)
        } else {
            None
        },
        Key::Char('r') | Key::Char('y') => if m == MOD_CTRL {
            Some(Action::Redo)
        } else {
            None
        },
        _ => None,
    }
}

/// Keyboard input handler (HEX field focused).
pub fn key_input_hex(key: &KeyPress, half: HalfByte, search_backward: bool) -> (r: Action)
    ensures
        r == spec_hex_input(*key, half, search_backward),
{
    match key.key {
        Key::Backspace => Action::Move(Direction::PrevHalf),
        Key::Char('G') => Action::Move(Direction::FileEnd),
        Key::Char('g') => Action::Move(Direction::FileBegin),
        Key::Char(':') => Action::Goto,
        Key::Char('/') => Action::Find,
        Key::Char('n') => Action::FindClosest(search_backward),
        Key::Char('N') => Action::FindClosest(!search_backward),
        Key::Char('h') => Action::Move(Direction::PrevByte),
        Key::Char('l') => Action::Move(Direction::NextByte),
        Key::Char('j') => Action::Move(Direction::LineUp),
        Key::Char('k') => Action::Move(Direction::LineDown),
        Key::Char('u') => Action::Undo,
        Key::Char(chr) => {
            if (('a' <= chr && chr <= 'f') || ('A' <= chr && chr <= 'F') || ('0' <= chr && chr <= '9'))
                && key.modifier == MOD_NONE {
                let half_value: u8 = if 'a' <= chr && chr <= 'f' {
                    (chr as u8) - ('a' as u8) + 10
                } else if 'A' <= chr && chr <= 'F' {
                    (chr as u8) - ('A' as u8) + 10
                } else {
                    (chr as u8) - ('0' as u8)
                };
                if half == HalfByte::Left {
                    Action::Change(half_value * 16, 0xf0, Direction::NextHalf)
                } else {
                    Action::Change(half_value, 0x0f, Direction::NextHalf)
                }
            } else {
                Action::Nothing
            }
        },
        _ => Action::Nothing,
    }
}

/// Keyboard input handler (ASCII field focused).
pub fn key_input_ascii(key: &KeyPress) -> (r: Action)
    ensures
        r == spec_ascii_input(*key),
{
    match key.key {
        Key::Char(chr) => {
            if ' ' <= chr && chr <= '~' && key.modifier == MOD_NONE {
                Action::Change(chr as u8, 0xff, Direction::NextByte)
            } else {
                Action::Nothing
            }
        },
        _ => Action::Nothing,
    }
}

/// Action of an input event in the main loop: resize, exit on Esc and
/// F10, the common keys, then the keys of the focused field.
pub fn event_action(event: &Event, place: Place, half: HalfByte, search_backward: bool) -> (r: Action)
    ensures
        r == spec_event_action(*event, place, half, search_backward),
{
    match event {
        Event::TerminalResize => Action::Resize,
        Event::KeyPress(key) => match key.key {
            Key::Esc | Key::F(10) => Action::Exit,
            _ => match key_input_common(key, search_backward) {
                Some(a) => a,
                None => if place == Place::Hex {
                    key_input_hex(key, half, search_backward)
                } else {
                    key_input_ascii(key)
                },
            },
        },
    }
}

/// Names of the function keys F1 to F10 on the key bar.
pub open spec fn key_names() -> Seq<Seq<char>> {
    seq!["Help"@, "Save"@, "Goto"@, ""@, "Find"@, "Fill"@, "Insert"@, "Cut"@, "Setup"@, "Exit"@]
}

/// Width of a key on the key bar: the screen width (at least three columns
/// per key) shared by the ten keys.
pub open spec fn key_width(width: int) -> int {
    (if width > 30 {
        width
    } else {
        30
    }) / 10
}

/// `s` padded with spaces on the right to `w` characters.
pub open spec fn pad_right(s: Seq<char>, w: int) -> Seq<char> {
    if s.len() < w {
        s + Seq::new((w - s.len()) as nat, |i: int| ' ')
    } else {
        s
    }
}

/// Key number right aligned in two columns.
pub open spec fn key_number(i: int) -> Seq<char> {
    if i + 1 < 10 {
        seq![' ', (('0' as int) + i + 1) as char]
    } else {
        "10"@
    }
}

/// Key bar entry of the key `i` (its number, then its name cut to the
/// room left, but for the last key, and padded).
pub open spec fn keybar_entry(i: int, name: Seq<char>, name_max: int) -> Seq<char> {
    let shown = if i < 9 && name.len() > name_max {
        name.take(name_max)
    } else {
        name
    };
    key_number(i) + pad_right(shown, name_max)
}

/// Key bar text of the first `n` keys.
pub open spec fn keybar_entries(n: int, name_max: int) -> Seq<char>
    decreases n,
{
    if n <= 0 {
        Seq::empty()
    } else {
        keybar_entries(n - 1, name_max) + keybar_entry(n - 1, key_names()[n - 1], name_max)
    }
}

/// Key bar text for a screen `width` columns wide.
pub open spec fn keybar_text(width: int) -> Seq<char> {
    let all = keybar_entries(10, key_width(width) - 2);
    if all.len() > width {
        all.take(width)
    } else {
        all
    }
}

/// Columns where the key numbers start, for the numbers that fit the
/// screen.
pub open spec fn keybar_marks(width: int) -> Seq<usize>
    decreases 0int,
{
    let n = keybar_fitting(width, 0);
    Seq::new(n as nat, |i: int| (i * key_width(width)) as usize)
}

/// Number of key numbers, from the key `i` on, that fit the screen.
pub open spec fn keybar_fitting(width: int, i: int) -> int
    decreases 10 - i,
{
    if i >= 10 || i * key_width(width) + 2 > width {
        i
    } else {
        keybar_fitting(width, i + 1)
    }
}

/// Key bar: its text and the columns of the key numbers to highlight.
pub fn keybar(width: usize) -> (r: (String, Vec<usize>))
    requires
        width < usize::MAX / 2,
    ensures
        r.0@ == keybar_text(width as int),
        r.1@ == keybar_marks(width as int),
{
    let names: [&str; 10] = ["Help", "Save", "Goto", "", "Find", "Fill", "Insert", "Cut", "Setup", "Exit"];
    let key_len: usize = (if width > 30 {
        width
    } else {
        30
    }) / 10;
    let name_max: usize = key_len - 2;
    let ghost kn = key_names();
    proof {
        reveal_strlit("Help");
        reveal_strlit("Save");
        reveal_strlit("Goto");
        reveal_strlit("");
        reveal_strlit("Find");
        reveal_strlit("Fill");
        reveal_strlit("Insert");
        reveal_strlit("Cut");
        reveal_strlit("Setup");
        reveal_strlit("Exit");
        reveal_strlit("10");
        assert(names@.map_values(|n: &str| n@) =~= kn);
    }
    let mut text = String::new();
    let mut i: usize = 0;
    while i < 10
        invariant
            i <= 10,
            names@.map_values(|n: &str| n@) == kn,
            kn == key_names(),
            key_len == key_width(width as int),
            name_max == key_len - 2,
            key_len >= 3,
            width < usize::MAX / 2,
            text@ == keybar_entries(i as int, name_max as int),
        decreases 10 - i,
    {
        let ghost before = text@;
        let name = names[i];
        assert(name@ == kn[i as int]);
        if i + 1 < 10 {
            push_char(&mut text, ' ');
            let digit = char_of_digit((i + 1) as u8);
            push_char(&mut text, digit);
        } else {
            append_str(&mut text, "10");
        }
        let name_chars = crate::text::to_chars(name);
        let shown_len: usize = if i < 9 && name_chars.len() > name_max {
            name_max
        } else {
            name_chars.len()
        };
        let mut k: usize = 0;
        while k < shown_len
            invariant
                k <= shown_len <= name_chars@.len(),
                text@ == before + key_number(i as int) + name_chars@.take(k as int),
            decreases shown_len - k,
        {
            let c = name_chars[k];
            push_char(&mut text, c);
            assert(name_chars@.take(k + 1) =~= name_chars@.take(k as int).push(c));
            k = k + 1;
        }
        let mut pad = shown_len;
        while pad < name_max
            invariant
                shown_len <= pad <= name_max || (pad == shown_len && shown_len >= name_max),
                text@ == before + key_number(i as int) + name_chars@.take(shown_len as int) + Seq::new(
                    (pad - shown_len) as nat,
                    |j: int| ' ',
                ),
            decreases name_max - pad,
        {
            push_char(&mut text, ' ');
            assert(Seq::new((pad + 1 - shown_len) as nat, |j: int| ' ') =~= Seq::new(
                (pad - shown_len) as nat,
                |j: int| ' ',
            ).push(' '));
            pad = pad + 1;
        }
        proof {
            let shown = if i < 9 && name@.len() > name_max {
                name@.take(name_max as int)
            } else {
                name@
            };
            assert(name_chars@.take(shown_len as int) =~= shown);
            if shown.len() < name_max {
                assert(pad == name_max);
            } else {
                assert(Seq::new((pad - shown_len) as nat, |j: int| ' ') =~= Seq::<char>::empty());
            }
            assert(text@ =~= before + keybar_entry(i as int, kn[i as int], name_max as int));
        }
        i = i + 1;
    }
    let text = truncate_chars(text, width);
    let mut marks: Vec<usize> = Vec::new();
    let mut j: usize = 0;
    let mut pos: usize = 0;
    assert(key_len <= width / 10 + 3);
    while j < 10 && pos + 2 <= width
        invariant
            j <= 10,
            key_len == key_width(width as int),
            3 <= key_len <= width / 10 + 3,
            width < usize::MAX / 2,
            pos == j * key_len,
            pos <= width + key_len,
            keybar_fitting(width as int, 0) == keybar_fitting(width as int, j as int),
            marks@ == Seq::new(j as nat, |m: int| (m * key_len) as usize),
        decreases 10 - j,
    {
        marks.push(pos);
        assert(marks@ =~= Seq::new((j + 1) as nat, |m: int| (m * key_len) as usize));
        assert((j + 1) * key_len == j * key_len + key_len) by (nonlinear_arith);
        pos = pos + key_len;
        j = j + 1;
    }
    assert(keybar_fitting(width as int, j as int) == j);
    (text, marks)
}

/// Digit character of a number below ten.
fn char_of_digit(d: u8) -> (c: char)
    requires
        d < 10,
    ensures
        c == (('0' as int) + d) as char,
{
    match d {
        0 => '0',
        1 => '1',
        2 => '2',
        3 => '3',
        4 => '4',
        5 => '5',
        6 => '6',
        7 => '7',
        8 => '8',
        _ => '9',
    }
}

/// The first `n` characters of a text (the whole text if shorter).
fn truncate_chars(s: String, n: usize) -> (r: String)
    ensures
        r@ == (if s@.len() > n {
            s@.take(n as int)
        } else {
            s@
        }),
{
    let chars = crate::text::to_chars(s.as_str());
    if chars.len() > n {
        crate::text::from_chars(&chars, 0, n)
    } else {
        s
    }
}

} // verus!

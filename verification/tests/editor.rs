use std::collections::{BTreeMap, BTreeSet};
use xvi::controller::{event_action, keybar, Action};
use xvi::curses::{Color, Event, Key, KeyPress, MOD_CTRL, MOD_NONE, MOD_SHIFT};
use xvi::cursor::{Direction, HalfByte, Place};
use xvi::editor::{closest_change, diff_offsets, switch_focus, Focus};
use xvi::view::highlight_color;

#[test]
fn focus_cycles_through_fields() {
    assert_eq!(switch_focus(&Focus::NextField, 0, 2, Place::Hex, true), (0, Place::Ascii));
    assert_eq!(switch_focus(&Focus::NextField, 0, 2, Place::Ascii, true), (1, Place::Hex));
    assert_eq!(switch_focus(&Focus::NextField, 1, 2, Place::Ascii, true), (0, Place::Hex));
    assert_eq!(switch_focus(&Focus::NextField, 1, 2, Place::Hex, false), (0, Place::Hex));
    assert_eq!(switch_focus(&Focus::PreviousField, 0, 2, Place::Hex, true), (1, Place::Ascii));
    assert_eq!(switch_focus(&Focus::PreviousField, 0, 2, Place::Ascii, true), (0, Place::Hex));
    assert_eq!(switch_focus(&Focus::NextDocument, 1, 2, Place::Hex, true), (1, Place::Hex));
    assert_eq!(switch_focus(&Focus::PreviousDocument, 1, 2, Place::Ascii, true), (0, Place::Ascii));
    assert_eq!(switch_focus(&Focus::DocumentIndex(1), 0, 2, Place::Hex, true), (1, Place::Hex));
}

#[test]
fn next_then_previous_field_returns() {
    let (doc, place) = switch_focus(&Focus::NextField, 2, 3, Place::Ascii, true);
    assert_eq!(switch_focus(&Focus::PreviousField, doc, 3, place, true), (2, Place::Ascii));
}

#[test]
fn closest_changed_byte() {
    let mut changes = BTreeMap::new();
    changes.insert(10u64, 1u8);
    changes.insert(20u64, 2u8);
    changes.insert(30u64, 3u8);
    assert_eq!(closest_change(&changes, 20, true), Some(30));
    assert_eq!(closest_change(&changes, 20, false), Some(10));
    assert_eq!(closest_change(&changes, 5, false), None);
    assert_eq!(closest_change(&changes, 30, true), None);
    assert_eq!(closest_change(&BTreeMap::new(), 30, true), None);
}

#[test]
fn diff_markers() {
    let left = vec![1u8, 2, 3, 4];
    let others = vec![vec![1u8, 9, 3], vec![1u8, 2, 3, 4]];
    let expected: BTreeSet<u64> = [101u64, 103].into_iter().collect();
    assert_eq!(diff_offsets(100, &left, &others), expected);
    assert!(diff_offsets(0, &left, &vec![left.clone()]).is_empty());
}

#[test]
fn keybar_text_and_marks() {
    let (text, marks) = keybar(80);
    assert_eq!(
        text,
        " 1Help   2Save   3Goto   4       5Find   6Fill   7Insert 8Cut    9Setup 10Exit  "
    );
    assert_eq!(marks, vec![0, 8, 16, 24, 32, 40, 48, 56, 64, 72]);
    let (text, marks) = keybar(30);
    assert_eq!(text, " 1H 2S 3G 4  5F 6F 7I 8C 9S10E");
    assert_eq!(marks.len(), 10);
}

#[test]
fn key_actions() {
    let key = |k: Key, m: u8| Event::KeyPress(KeyPress::new(k, m));
    assert_eq!(event_action(&key(Key::F(10), MOD_NONE), Place::Hex, HalfByte::Left, false), Action::Exit);
    assert_eq!(event_action(&key(Key::Esc, MOD_NONE), Place::Hex, HalfByte::Left, false), Action::Exit);
    assert_eq!(event_action(&key(Key::F(2), MOD_NONE), Place::Hex, HalfByte::Left, false), Action::Save);
    assert_eq!(event_action(&key(Key::F(2), MOD_SHIFT), Place::Hex, HalfByte::Left, false), Action::SaveAs);
    assert_eq!(
        event_action(&key(Key::Char('z'), MOD_CTRL), Place::Hex, HalfByte::Left, false),
        Action::Undo
    );
    assert_eq!(
        event_action(&key(Key::Left, MOD_NONE), Place::Hex, HalfByte::Left, false),
        Action::Move(Direction::PrevByte)
    );
    assert_eq!(
        event_action(&key(Key::Char('a'), MOD_NONE), Place::Hex, HalfByte::Left, false),
        Action::Change(0xa0, 0xf0, Direction::NextHalf)
    );
    assert_eq!(
        event_action(&key(Key::Char('a'), MOD_NONE), Place::Ascii, HalfByte::Left, false),
        Action::Change(b'a', 0xff, Direction::NextByte)
    );
}

#[test]
fn highlight_colors() {
    // 16 columns, page at 0x100, cursor at 0x112 (line 1, column 2)
    assert_eq!(highlight_color(0x102, 0x112, 0x100, 16, true, true), Color::HexModHi);
    assert_eq!(highlight_color(0x11f, 0x112, 0x100, 16, false, false), Color::AsciiDiffHi);
    assert_eq!(highlight_color(0x125, 0x112, 0x100, 16, true, false), Color::AsciiMod);
    assert_eq!(highlight_color(0x125, 0x112, 0x100, 16, false, true), Color::HexDiff);
}

fn document(size: u64) -> xvi::editor::Document {
    let mut view = xvi::view::HexView::new(false, Some("ascii".to_string()), size);
    assert!(view.fits_width(80));
    view.reinit(80, 10);
    xvi::editor::Document {
        changes: xvi::changes::ChangeList::new(),
        cursor: xvi::cursor::Cursor { offset: 0, half: HalfByte::Left, place: Place::Hex },
        view,
    }
}

#[test]
fn view_geometry() {
    let doc = document(1000);
    assert_eq!(doc.view.columns, 16);
    assert_eq!(doc.view.lines, 10);
    assert_eq!(doc.view.get_position(0x11, true), Some((doc.view.offset_width + 3 + 3, 1)));
}

#[test]
fn cursor_moves_stay_on_page() {
    let mut doc = document(1000);
    assert!(xvi::cursor::can_move(&doc.cursor, &Direction::LineDown, &doc.view));
    doc.move_cursor(&Direction::LineDown);
    assert_eq!(doc.cursor.offset, 16);
    assert!(doc.view.offset <= doc.cursor.offset);
    // an absolute jump past the end lands on the last byte
    doc.move_cursor(&Direction::Absolute(5000, 0));
    assert_eq!(doc.cursor.offset, 999);
    assert!(doc.view.offset <= 999 && 999 < doc.view.offset + 160);
    assert_eq!(doc.view.offset % 16, 0);
}

#[test]
fn ini_section_read_after_write() {
    let mut ini = xvi::inifile::IniFile::new();
    ini.insert_section("view".to_string(), vec!["fixedwidth = yes".to_string()]);
    ini.insert_section("colors".to_string(), vec!["theme = light".to_string()]);
    ini.insert_section("view".to_string(), vec!["ascii = none".to_string()]);
    assert_eq!(ini.section("view"), Some(&vec!["ascii = none".to_string()]));
    assert_eq!(ini.section("colors"), Some(&vec!["theme = light".to_string()]));
    assert_eq!(ini.get_strval("colors", "theme"), Some("light".to_string()));
    assert_eq!(ini.section("other"), None);
}

#[test]
fn fill_writes_pattern() {
    let mut doc = document(1000);
    doc.fill(10, &[1, 2], &[9, 2, 9]);
    let changes = doc.changes.get();
    let expected: BTreeMap<u64, u8> = [(10u64, 1u8), (12, 1)].into_iter().collect();
    assert_eq!(changes, expected);
}

#[test]
fn change_writes_masked_bits() {
    let mut doc = document(1000);
    doc.change(5, 0xa0, 0xf0, 0x0b);
    doc.change(5, 0x0c, 0x0f, 0x0b);
    let expected: BTreeMap<u64, u8> = [(5u64, 0xacu8)].into_iter().collect();
    assert_eq!(doc.changes.get(), expected);
    // writing the value the byte has changes nothing
    doc.change(6, 0x33, 0xff, 0x33);
    assert_eq!(doc.changes.get(), expected);
}

#[test]
fn byte_and_half_moves_undo_each_other() {
    let mut doc = document(1000);
    doc.move_cursor(&Direction::Absolute(100, 0));
    doc.move_cursor(&Direction::NextByte);
    assert_eq!(doc.cursor.offset, 101);
    doc.move_cursor(&Direction::PrevByte);
    assert_eq!(doc.cursor.offset, 100);
    doc.move_cursor(&Direction::NextHalf);
    assert_eq!((doc.cursor.offset, doc.cursor.half), (100, HalfByte::Right));
    doc.move_cursor(&Direction::NextHalf);
    assert_eq!((doc.cursor.offset, doc.cursor.half), (101, HalfByte::Left));
    doc.move_cursor(&Direction::PrevHalf);
    assert_eq!((doc.cursor.offset, doc.cursor.half), (100, HalfByte::Right));
}

#[test]
fn page_change_markers() {
    let mut changes = BTreeMap::new();
    for o in [5u64, 16, 31, 32, 100] {
        changes.insert(o, 0u8);
    }
    let marks = xvi::editor::page_changes(&changes, 16, 16);
    let expected: BTreeSet<u64> = [16u64, 31].into_iter().collect();
    assert_eq!(marks, expected);
}

#[test]
fn word_moves_land_on_word_starts() {
    let mut doc = document(1000);
    doc.move_cursor(&Direction::Absolute(5, 0));
    doc.move_cursor(&Direction::PrevWord);
    assert_eq!((doc.cursor.offset, doc.cursor.half), (4, HalfByte::Left));
    doc.move_cursor(&Direction::PrevWord);
    assert_eq!(doc.cursor.offset, 0);
    doc.move_cursor(&Direction::PrevWord);
    assert_eq!(doc.cursor.offset, 0);
    doc.move_cursor(&Direction::Absolute(1, 0));
    doc.move_cursor(&Direction::PrevWord);
    assert_eq!(doc.cursor.offset, 0);
    doc.move_cursor(&Direction::Absolute(5, 0));
    doc.move_cursor(&Direction::NextWord);
    assert_eq!(doc.cursor.offset, 8);
}

#[test]
fn ini_values_are_trimmed_of_unicode_white_space() {
    let mut ini = xvi::inifile::IniFile::new();
    ini.insert_section("a".to_string(), vec!["key =\u{3000}v\u{a0}".to_string(), "other = \u{200b}w".to_string()]);
    assert_eq!(ini.get_strval("a", "key"), Some("v".to_string()));
    assert_eq!(ini.get_strval("a", "other"), Some("\u{200b}w".to_string()));
}

#[test]
fn ini_set_keyval_is_read_back_trimmed() {
    let mut ini = xvi::inifile::IniFile::new();
    ini.set_keyval("View", "Ascii", "  none ");
    assert_eq!(ini.get_strval("view", "ascii"), Some("none".to_string()));
    ini.set_keyval("view", "ascii", "ansi");
    assert_eq!(ini.get_strval("VIEW", "ASCII"), Some("ansi".to_string()));
    assert_eq!(ini.section("view"), Some(&vec!["ascii = ansi".to_string()]));
}

#[test]
fn ini_text_reads_back() {
    let mut ini = xvi::inifile::IniFile::new();
    ini.insert_section("view".to_string(), vec!["ascii = none".to_string(), "fixedwidth = yes".to_string()]);
    ini.insert_section("colors".to_string(), vec!["theme = light".to_string()]);
    let text = ini.to_text();
    assert_eq!(text, "[colors]\ntheme = light\n[view]\nascii = none\nfixedwidth = yes\n");
    let lines: Vec<String> = text.lines().map(|l| l.to_string()).collect();
    let back = xvi::inifile::IniFile::parse(&lines);
    assert_eq!(back.section("view"), ini.section("view"));
    assert_eq!(back.section("colors"), ini.section("colors"));
    assert_eq!(back.to_text(), text);
}

#[test]
fn ini_names_are_compared_in_unicode_lower_case() {
    let mut ini = xvi::inifile::IniFile::new();
    ini.set_keyval("ÄB", "Ключ", "v");
    assert_eq!(ini.get_strval("äb", "ключ"), Some("v".to_string()));
    assert_eq!(ini.section("äb"), Some(&vec!["ключ = v".to_string()]));
}

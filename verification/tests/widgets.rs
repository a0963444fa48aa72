use xvi::config::{Config, Palette};
use xvi::curses::{Key, KeyPress, MOD_CTRL, MOD_NONE};
use xvi::inifile::IniFile;
use xvi::ui::widget::{CheckBox, InputFormat, InputLine, ListBox, WidgetType};

fn key(k: Key) -> KeyPress {
    KeyPress::new(k, MOD_NONE)
}

#[test]
fn input_line_editing() {
    let mut line = InputLine::new("ab".to_string(), InputFormat::Any, vec![], 10);
    assert!(line.key_press(&key(Key::End)));
    assert_eq!(line.cursor, 2);
    assert!(line.key_press(&key(Key::Char('c'))));
    assert_eq!(line.get_value(), "abc");
    assert!(line.key_press(&key(Key::Home)));
    assert!(line.key_press(&key(Key::Delete)));
    assert_eq!(line.get_value(), "bc");
    assert!(line.key_press(&key(Key::Right)));
    assert!(line.key_press(&key(Key::Backspace)));
    assert_eq!(line.get_value(), "c");
    assert_eq!(line.cursor, 0);
    assert!(!line.key_press(&key(Key::F(1))));
}

#[test]
fn input_line_formats() {
    let mut line = InputLine::new(String::new(), InputFormat::HexUnsigned, vec![], 10);
    assert!(line.key_press(&key(Key::Char('f'))));
    assert!(line.key_press(&key(Key::Char('x'))));
    assert_eq!(line.get_value(), "f");
    let mut line = InputLine::new(String::new(), InputFormat::DecSigned, vec![], 10);
    line.key_press(&key(Key::Char('-')));
    line.key_press(&key(Key::Char('1')));
    line.key_press(&key(Key::Char('-')));
    assert_eq!(line.get_value(), "-1");
}

#[test]
fn input_line_selection_is_replaced() {
    let mut line = InputLine::new("123".to_string(), InputFormat::Any, vec![], 10);
    line.on_focus_set();
    assert!(line.selection);
    assert_eq!(line.cursor, 3);
    line.key_press(&key(Key::Char('9')));
    assert_eq!(line.get_value(), "9");
    assert!(!line.selection);
}

#[test]
fn input_line_history() {
    let history = vec!["aa".to_string(), "bb".to_string()];
    let mut line = InputLine::new("aa".to_string(), InputFormat::Any, history, 10);
    assert!(line.key_press(&KeyPress::new(Key::Down, MOD_CTRL)));
    assert_eq!(line.get_value(), "bb");
    assert!(line.selection);
    assert!(line.key_press(&KeyPress::new(Key::Up, MOD_CTRL)));
    assert_eq!(line.get_value(), "aa");
    assert!(!line.key_press(&key(Key::Up)));
}

#[test]
fn check_box_and_list_box() {
    let mut check = WidgetType::CheckBox(CheckBox { state: false, title: "Fixed".to_string() });
    assert!(check.key_press(&key(Key::Char(' '))));
    assert!(matches!(check, WidgetType::CheckBox(CheckBox { state: true, .. })));
    let mut list = WidgetType::ListBox(ListBox { list: vec!["a".to_string(), "b".to_string()], current: 0 });
    assert!(list.key_press(&key(Key::Right)));
    assert!(list.key_press(&key(Key::Right)));
    assert!(matches!(list, WidgetType::ListBox(ListBox { current: 1, .. })));
    assert!(!list.key_press(&key(Key::Up)));
}

#[test]
fn palette_lines_override_colors() {
    let mut palette = Palette::dark();
    palette.parse(&vec![
        "general = 1, 2".to_string(),
        "select = 3,4".to_string(),
        "bar = x, 1".to_string(),
        "unknown = 5, 6".to_string(),
    ]);
    let dark = Palette::dark();
    assert_eq!(palette.general, (1, 2));
    assert_eq!(palette.select, (3, 4));
    assert_eq!(palette.bar, dark.bar);
}

#[test]
fn config_from_ini() {
    let tables = vec!["ascii".to_string(), "cp437".to_string()];
    let ini = IniFile::parse(&vec![
        "[View]".to_string(),
        "FixedWidth = 1".to_string(),
        "Ascii = cp437".to_string(),
    ]);
    let config = Config::from_ini(&ini, "ascii", &tables);
    assert!(config.fixed_width);
    assert_eq!(config.ascii_table, Some("cp437".to_string()));
    let ini = IniFile::parse(&vec!["[View]".to_string(), "Ascii = none".to_string()]);
    let config = Config::from_ini(&ini, "ascii", &tables);
    assert!(!config.fixed_width);
    assert_eq!(config.ascii_table, None);
    assert_eq!(Config::new("ascii").ascii_table, Some("ascii".to_string()));
}

#[test]
fn input_line_set_value_resets_cursor_and_start() {
    let mut line = InputLine::new("0123456789".to_string(), InputFormat::Any, vec![], 4);
    line.on_focus_set();
    assert_eq!((line.cursor, line.start, line.selection), (10, 7, true));
    line.set_value("abc".to_string());
    assert_eq!(line.get_value(), "abc");
    assert_eq!((line.cursor, line.start, line.selection), (0, 0, false));
    // a cursor past any real text still goes to the start
    line.cursor = usize::MAX;
    line.set_value("xy".to_string());
    assert_eq!((line.cursor, line.start), (0, 0));
}

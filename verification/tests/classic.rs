use xvi::dialog::{AllowExit, CopyData, DialogType, DisableEmpty, StateChange, StateOnEmpty};
use xvi::goto::OffsetConverter;
use xvi::messagebox::MessageBox;
use xvi::search::{get_hex, AsciiToHex, HexToAscii, Search};
use xvi::widget::{Button, EditFormat, StdButton, WidgetData};

fn text_of(data: Option<WidgetData>) -> Option<String> {
    match data {
        Some(WidgetData::Text(t)) => Some(t),
        _ => None,
    }
}

fn text(s: &str) -> WidgetData {
    WidgetData::Text(s.to_string())
}

#[test]
fn standard_button_texts() {
    assert_eq!(Button::standard(StdButton::OK, true).text, "{ OK }");
    assert_eq!(Button::standard(StdButton::Cancel, false).text, "[ Cancel ]");
    assert_eq!(Button::new("Go", false).text, "[ Go ]");
}

#[test]
fn state_on_empty_rule() {
    assert_eq!(StateOnEmpty.set_state(&text("")), Some(false));
    assert_eq!(StateOnEmpty.set_state(&text("a")), Some(true));
    assert_eq!(StateOnEmpty.set_state(&WidgetData::Bool(true)), None);
}

#[test]
fn disable_empty_rule() {
    assert!(!DisableEmpty.allow_exit(&text("")));
    assert!(DisableEmpty.allow_exit(&text("x")));
    assert!(DisableEmpty.allow_exit(&WidgetData::Number(0)));
}

#[test]
fn offset_converter_formats() {
    let conv = OffsetConverter::new(EditFormat::HexUnsigned, EditFormat::DecUnsigned, 0);
    assert_eq!(text_of(conv.copy_data(&text("ff"))), Some("255".to_string()));
    let conv = OffsetConverter::new(EditFormat::HexUnsigned, EditFormat::HexSigned, 0x100);
    assert_eq!(text_of(conv.copy_data(&text("f0"))), Some("-10".to_string()));
    assert_eq!(text_of(conv.copy_data(&text("110"))), Some("+10".to_string()));
    let conv = OffsetConverter::new(EditFormat::DecSigned, EditFormat::HexUnsigned, 100);
    assert_eq!(text_of(conv.copy_data(&text("-200"))), Some("0".to_string()));
    assert_eq!(text_of(conv.copy_data(&text("+28"))), Some("80".to_string()));
    let conv = OffsetConverter::new(EditFormat::DecUnsigned, EditFormat::DecSigned, 10);
    assert_eq!(text_of(conv.copy_data(&text("15"))), Some("+5".to_string()));
    assert_eq!(text_of(conv.copy_data(&text("3"))), Some("-7".to_string()));
    // not a number: read as 0
    assert_eq!(text_of(conv.copy_data(&text("zz"))), Some("-10".to_string()));
    assert!(conv.copy_data(&WidgetData::Bool(false)).is_none());
}

#[test]
fn hex_field_bytes() {
    assert_eq!(get_hex("abc"), vec![0xab, 0x0c]);
    // each pair of digits is one byte
    assert_eq!(get_hex("abcd"), vec![0xab, 0xcd]);
    assert_eq!(get_hex("4142"), vec![0x41, 0x42]);
    assert_eq!(get_hex(""), Vec::<u8>::new());
}

#[test]
fn hex_to_ascii_rule() {
    assert_eq!(text_of(HexToAscii.copy_data(&text("414243"))), Some("ABC".to_string()));
    assert_eq!(text_of(HexToAscii.copy_data(&text("2041"))), Some("?A".to_string()));
    assert!(HexToAscii.copy_data(&text("4g")).is_none());
    assert_eq!(text_of(HexToAscii.copy_data(&WidgetData::Bool(true))), Some(String::new()));
}

#[test]
fn ascii_to_hex_rule() {
    assert_eq!(text_of(AsciiToHex.copy_data(&text("AB z"))), Some("4142207a".to_string()));
    assert!(AsciiToHex.copy_data(&WidgetData::Number(1)).is_none());
}

#[test]
fn search_settings_roundtrip() {
    let mut search = Search { data: vec![0x12, 0xab], backward: false };
    assert_eq!(search.initial_text(), "12ab");
    search.configure_result("abc", true);
    assert_eq!(search.data, vec![0xab, 0xc0]);
    assert!(search.backward);
}

#[test]
fn message_box_layout() {
    let mut mb = MessageBox::new("Search", DialogType::Error);
    mb.center("Sequence not found!").button(StdButton::OK, true);
    let layout = mb.layout();
    assert_eq!(layout.width, 19);
    assert_eq!(layout.height, 5);
    assert_eq!(layout.lines, vec![(2, 1)]);
    assert_eq!(layout.separator, Some(2));
    // "{ OK }" is 6 wide: 2 + 19 / 2 - 6 / 2
    assert_eq!(layout.buttons, vec![(8, 3, 6)]);
    assert_eq!(layout.focus, Some(0));
}

#[test]
fn message_box_layout_two_buttons() {
    let mut mb = MessageBox::new("Question", DialogType::Normal);
    mb.left("Save?").button(StdButton::Yes, false).button(StdButton::No, true);
    let layout = mb.layout();
    // "[ Yes ] { No }": 7 + 1 + 6
    assert_eq!(layout.width, 14);
    assert_eq!(layout.height, 5);
    assert_eq!(layout.lines, vec![(2, 1)]);
    assert_eq!(layout.buttons, vec![(2, 3, 7), (10, 3, 6)]);
    assert_eq!(layout.focus, Some(1));
}

#[test]
fn message_box_without_buttons() {
    let mut mb = MessageBox::new("Note", DialogType::Normal);
    mb.center("ab").left("abcdef");
    let layout = mb.layout();
    assert_eq!(layout.width, 6);
    assert_eq!(layout.height, 4);
    assert_eq!(layout.lines, vec![(4, 1), (2, 2)]);
    assert_eq!(layout.separator, None);
    assert!(layout.buttons.is_empty());
    assert_eq!(layout.focus, None);
}

#[test]
fn progress_percent() {
    let mut progress = xvi::progress::Progress::new(0, 200);
    assert!(progress.update(50));
    assert_eq!(progress.percent, 25);
    assert!(!progress.update(51));
    assert!(progress.update(200));
    assert_eq!(progress.percent, 100);
    let mut single = xvi::progress::Progress::new(5, 5);
    assert!(!single.update(5));
    assert_eq!(single.percent, 0);
}

use xvi::curses::{Key, KeyPress, MOD_NONE};
use xvi::ui::dialog::{DialogEmptyHandler, DialogStep, DialogType};
use xvi::ui::messagebox::MessageBox;
use xvi::ui::progress::ProgressDialog;
use xvi::ui::widget::{StandardButton, WidgetType};

fn lines(v: &[&str]) -> Vec<String> {
    v.iter().map(|s| s.to_string()).collect()
}

fn static_text(w: &WidgetType) -> Option<String> {
    match w {
        WidgetType::StaticText(s) => Some(s.clone()),
        _ => None,
    }
}

#[test]
fn message_box_size() {
    let message = lines(&["Error reading file", "/path", "No such file"]);
    let buttons = vec![(StandardButton::OK, true)];
    assert_eq!(MessageBox::calc_size(&message, &buttons, 80), (18, 3));
    // the buttons row is wider than the text
    let buttons = vec![(StandardButton::Retry, true), (StandardButton::Cancel, false)];
    assert_eq!(MessageBox::calc_size(&lines(&["x"]), &buttons, 80), (20, 1));
    // a narrow screen limits the width
    assert_eq!(MessageBox::calc_size(&lines(&["0123456789abc"]), &vec![(StandardButton::OK, true)], 20), (10, 1));
}

#[test]
fn message_box_line_cut() {
    assert_eq!(MessageBox::shown(&"0123456789abc".to_string(), 10), "012345678\u{2026}");
    assert_eq!(MessageBox::shown(&"short".to_string(), 10), "short");
}

#[test]
fn message_box_dialog() {
    let message = lines(&["Error reading file", "/path", "No such file"]);
    let buttons = vec![(StandardButton::OK, true)];
    let (dlg, first) = MessageBox::create(DialogType::Error, "Error", &message, &buttons, 80);
    assert_eq!(dlg.width, 28);
    assert_eq!(dlg.height, 9);
    assert_eq!(dlg.title, " Error ");
    assert_eq!(dlg.items.len(), 5);
    assert_eq!(first, 4);
    assert_eq!(static_text(&dlg.items[1].widget), Some("Error reading file".to_string()));
    assert_eq!((dlg.items[1].context.x, dlg.items[1].context.y), (5, 2));
    assert_eq!((dlg.items[2].context.x, dlg.items[2].context.y), (12, 3));
    match &dlg.items[4].widget {
        WidgetType::Button(b) => assert_eq!(b.text, "{ OK }"),
        _ => panic!("not a button"),
    }
    assert_eq!((dlg.items[4].context.x, dlg.items[4].context.y, dlg.items[4].context.width), (11, 6, 6));
}

#[test]
fn message_box_enter_closes_on_default_button() {
    let buttons = vec![(StandardButton::Yes, false), (StandardButton::No, true)];
    let (mut dlg, first) =
        MessageBox::create(DialogType::Error, "Abort", &lines(&["Are you sure?"]), &buttons, 80);
    dlg.initialize_focus();
    assert_eq!(dlg.focus, first + 1);
    let mut handler = DialogEmptyHandler;
    let step = dlg.key_event(&KeyPress::new(Key::Enter, MOD_NONE), &mut handler);
    assert_eq!(step, DialogStep::Close(Some(first + 1)));
    assert_eq!(MessageBox::result(&buttons, first, Some(first + 1)), Some(StandardButton::No));
    let step = dlg.key_event(&KeyPress::new(Key::Left, MOD_NONE), &mut handler);
    assert_eq!(step, DialogStep::Continue);
    assert_eq!(dlg.focus, first);
    assert_eq!(MessageBox::result(&buttons, first, Some(dlg.focus)), Some(StandardButton::Yes));
    assert_eq!(MessageBox::result(&buttons, first, None), None);
}

#[test]
fn progress_window() {
    let mut progress = ProgressDialog::new("Search", true);
    assert_eq!(progress.bar, 1);
    assert!(matches!(progress.dlg.items[1].widget, WidgetType::ProgressBar(0)));
    progress.set_percent(42);
    assert!(matches!(progress.dlg.items[1].widget, WidgetType::ProgressBar(42)));
    assert!(ProgressDialog::is_abort_key(&KeyPress::new(Key::Esc, MOD_NONE)));
    assert!(ProgressDialog::is_abort_key(&KeyPress::new(Key::Char(' '), MOD_NONE)));
    assert!(!ProgressDialog::is_abort_key(&KeyPress::new(Key::Char('a'), MOD_NONE)));
}

#[test]
fn retry_is_chosen_only_by_retry_button() {
    assert!(MessageBox::retry_chosen(Some(StandardButton::Retry)));
    assert!(!MessageBox::retry_chosen(Some(StandardButton::Cancel)));
    assert!(!MessageBox::retry_chosen(None));
}

use xvi::ui::cut::CutDialog;
use xvi::curses::{Key, KeyPress, MOD_NONE};
use xvi::ui::dialog::{DialogHandler, DialogStep};
use xvi::ui::fill::{complete_pattern, FillDialog};
use xvi::ui::goto::GotoDialog;
use xvi::ui::insert::InsertDialog;
use xvi::ui::saveas::SaveAsDialog;
use xvi::ui::search::SearchDialog;
use xvi::ui::setup::SetupDialog;

#[test]
fn goto_fields_follow_absolute_offset() {
    let (dlg, goto) = GotoDialog::create(&[0x100], 0x80);
    assert_eq!(dlg.edit_value(goto.abs_hex), "100");
    assert_eq!(dlg.edit_value(goto.abs_dec), "256");
    assert_eq!(dlg.edit_value(goto.rel_hex), "80");
    assert_eq!(dlg.edit_value(goto.rel_dec), "128");
    let btn_cancel = dlg.items.len() - 1;
    assert_eq!(goto.result(&dlg, Some(btn_cancel - 1), btn_cancel), Some(0x100));
    assert_eq!(goto.result(&dlg, Some(btn_cancel), btn_cancel), None);
    assert_eq!(goto.result(&dlg, None, btn_cancel), None);
}

#[test]
fn goto_fields_follow_relative_offset() {
    let (mut dlg, mut goto) = GotoDialog::create(&[], 0x80);
    dlg.set_value(goto.rel_hex, "-10".to_string());
    let rel_hex = goto.rel_hex;
    goto.on_item_change(&mut dlg, rel_hex);
    assert_eq!(dlg.edit_value(goto.abs_hex), "70");
    assert_eq!(dlg.edit_value(goto.abs_dec), "112");
    assert_eq!(dlg.edit_value(goto.rel_dec), "-16");
    // before the start of the file: offset 0
    dlg.set_value(goto.rel_dec, "-1000".to_string());
    let rel_dec = goto.rel_dec;
    goto.on_item_change(&mut dlg, rel_dec);
    assert_eq!(dlg.edit_value(goto.abs_hex), "0");
}

#[test]
fn fill_dialog_result() {
    let (dlg, fill) = FillDialog::create(5, 100, &[0xab, 0xcd]);
    assert_eq!(dlg.edit_value(fill.rctl.start), "5");
    assert_eq!(dlg.edit_value(fill.rctl.end), "5");
    assert_eq!(fill.result(&dlg, Some(fill.btn_ok)), Some((5..6, vec![0xab, 0xcd])));
    assert_eq!(fill.result(&dlg, Some(fill.btn_cancel)), None);
}

#[test]
fn fill_pattern_completion() {
    assert_eq!(complete_pattern(""), Some("00".to_string()));
    assert_eq!(complete_pattern("abc"), Some("abc0".to_string()));
    assert_eq!(complete_pattern("ab"), None);
}

#[test]
fn cut_range_follows_fields() {
    let (mut dlg, mut cut) = CutDialog::create(5, 100);
    assert_eq!(cut.result(&dlg, Some(cut.btn_ok)), Some(5..6));
    let end = cut.rctl.end;
    dlg.set_value(end, "9".to_string());
    cut.on_item_change(&mut dlg, end);
    assert_eq!(dlg.edit_value(cut.rctl.length), "5");
    assert!(dlg.items[cut.btn_ok].context.enabled);
    assert_eq!(cut.result(&dlg, Some(cut.btn_ok)), Some(5..10));
    // the end before the start: nothing to cut
    dlg.set_value(end, "3".to_string());
    cut.on_item_change(&mut dlg, end);
    assert_eq!(dlg.edit_value(cut.rctl.length), "0");
    assert!(!dlg.items[cut.btn_ok].context.enabled);
    // a length gives the end, within the file
    let length = cut.rctl.length;
    dlg.set_value(length, "1000".to_string());
    cut.on_item_change(&mut dlg, length);
    assert_eq!(dlg.edit_value(cut.rctl.end), "63");
}

#[test]
fn insert_dialog_result() {
    let (dlg, insert) = InsertDialog::create(0x1f, &[0xff]);
    assert_eq!(dlg.edit_value(insert.length), "1");
    assert_eq!(dlg.edit_value(insert.offset), "1f");
    assert_eq!(dlg.edit_value(insert.pattern), "ff");
    assert_eq!(insert.result(&dlg, Some(insert.btn_ok)), Some((0x1f, 1, vec![0xff])));
    assert_eq!(insert.result(&dlg, None), None);
}

#[test]
fn save_as_dialog_result() {
    let (dlg, saveas) = SaveAsDialog::create("/tmp/file".to_string());
    assert!(dlg.items[saveas.btn_ok].context.enabled);
    assert_eq!(saveas.result(&dlg, Some(saveas.btn_ok)), Some("/tmp/file".to_string()));
    let (dlg, saveas) = SaveAsDialog::create(String::new());
    assert!(!dlg.items[saveas.btn_ok].context.enabled);
}

#[test]
fn search_dialog_result() {
    let (dlg, search, bkg) = SearchDialog::create(&vec![vec![0x41, 0x42]], true);
    assert_eq!(dlg.edit_value(search.hex), "4142");
    assert_eq!(search.result(&dlg, Some(search.btn_ok), bkg, true), Some((vec![0x41, 0x42], true)));
    assert_eq!(search.result(&dlg, Some(search.btn_cancel), bkg, true), None);
}

#[test]
fn setup_dialog_result() {
    let tables = vec![("ascii".to_string(), "ASCII".to_string()), ("cp437".to_string(), "CP437".to_string())];
    let (dlg, setup) = SetupDialog::create(true, &Some("cp437".to_string()), &tables);
    assert_eq!(setup.result(&dlg, Some(setup.fixed), &tables), Some((true, Some("cp437".to_string()))));
    let (dlg, setup) = SetupDialog::create(false, &None, &tables);
    assert_eq!(setup.result(&dlg, Some(setup.fixed), &tables), Some((false, None)));
    assert_eq!(setup.result(&dlg, Some(setup.btn_cancel), &tables), None);
}

#[test]
fn save_as_enter_closes_only_while_ok_is_enabled() {
    let (mut dlg, mut saveas) = SaveAsDialog::create(String::new());
    dlg.initialize_focus();
    assert_eq!(dlg.focus, saveas.path);
    let enter = KeyPress::new(Key::Enter, MOD_NONE);
    assert_eq!(dlg.key_event(&enter, &mut saveas), DialogStep::Continue);
    // typing a name enables OK, and Enter then closes
    assert_eq!(dlg.key_event(&KeyPress::new(Key::Char('a'), MOD_NONE), &mut saveas), DialogStep::Continue);
    assert!(dlg.items[saveas.btn_ok].context.enabled);
    assert_eq!(dlg.key_event(&enter, &mut saveas), DialogStep::Close(Some(saveas.path)));
    // the down arrow is not for the input field: it moves the focus
    assert_eq!(dlg.key_event(&KeyPress::new(Key::Down, MOD_NONE), &mut saveas), DialogStep::Continue);
    assert_eq!(dlg.focus, saveas.btn_ok);
    assert_eq!(dlg.key_event(&KeyPress::new(Key::Up, MOD_NONE), &mut saveas), DialogStep::Continue);
    assert_eq!(dlg.focus, saveas.path);
    assert_eq!(dlg.key_event(&KeyPress::new(Key::Esc, MOD_NONE), &mut saveas), DialogStep::Close(None));
}

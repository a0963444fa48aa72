use xvi::history::History;
use xvi::inifile::IniFile;

fn empty_history() -> History {
    History {
        file_pos: Vec::new(),
        search: Vec::new(),
        search_backward: false,
        goto: Vec::new(),
        pattern: Vec::new(),
    }
}

#[test]
fn test_load() {
    let mut ini = IniFile::new();
    ini.insert_section(
        "file".to_string(),
        vec![
            "/path/to/file:1234abc".to_string(),
            "/path/to/file:invalid".to_string(),
        ],
    );
    ini.insert_section(
        "search".to_string(),
        vec![
            "abcdef1234567890".to_string(),
            "1234abc".to_string(), // not even
            "invalid".to_string(),
        ],
    );
    ini.insert_section("goto".to_string(), vec!["abc".to_string(), "-1".to_string()]);

    let mut history = empty_history();
    history.load(&ini);

    assert_eq!(
        history.file_pos,
        vec![("/path/to/file".to_string(), 0x1234abc_u64)]
    );
    assert_eq!(
        history.search,
        vec![vec![0xab, 0xcd, 0xef, 0x12, 0x34, 0x56, 0x78, 0x90]]
    );
    assert_eq!(history.goto, vec![0xabc]);
}

#[test]
fn test_set_goto() {
    let mut history = empty_history();
    history.goto = vec![0, 1, 2, 3, 4, 5, 6, 7, 8, 9, 10, 11, 12];

    history.add_goto(55);
    assert_eq!(history.goto, vec![55, 0, 1, 2, 3, 4, 5, 6, 7, 8],);

    history.add_goto(3);
    assert_eq!(history.goto, vec![3, 55, 0, 1, 2, 4, 5, 6, 7, 8],);
}

#[test]
fn history_new_is_empty() {
    let history = History::new();
    assert!(history.file_pos.is_empty());
    assert!(history.search.is_empty());
    assert!(history.goto.is_empty());
    assert!(!history.search_backward);
    assert_eq!(history.pattern, vec![0]);
}

#[test]
fn history_search_moves_to_front() {
    let mut history = empty_history();
    history.add_search(&[1, 2]);
    history.add_search(&[3]);
    history.add_search(&[1, 2]);
    assert_eq!(history.search, vec![vec![1, 2], vec![3]]);
    for i in 0..20u8 {
        history.add_search(&[i]);
    }
    assert_eq!(history.search.len(), 10);
    assert_eq!(history.search[0], vec![19]);
}

#[test]
fn history_filepos_read_after_write() {
    let mut history = empty_history();
    assert_eq!(history.get_filepos("/a"), None);
    history.add_filepos("/a", 10);
    history.add_filepos("/b", 20);
    history.add_filepos("/a", 30);
    assert_eq!(history.get_filepos("/a"), Some(30));
    assert_eq!(history.get_filepos("/b"), Some(20));
    assert_eq!(
        history.file_pos,
        vec![("/a".to_string(), 30), ("/b".to_string(), 20)]
    );
}

#[test]
fn history_save_then_load() {
    let mut history = empty_history();
    history.add_filepos("/x:y", 0xff);
    history.add_search(&[0x00, 0xab]);
    history.add_goto(0x1f);
    let ini = history.save();
    assert_eq!(ini.section("file"), Some(&vec!["/x:y:ff".to_string()]));
    assert_eq!(ini.section("search"), Some(&vec!["00ab".to_string()]));
    assert_eq!(ini.section("goto"), Some(&vec!["1f".to_string()]));

    let mut loaded = empty_history();
    loaded.load(&ini);
    assert_eq!(loaded.file_pos, history.file_pos);
    assert_eq!(loaded.search, history.search);
    assert_eq!(loaded.goto, history.goto);
}

#[test]
fn history_search_plus_sign_pair() {
    let mut ini = IniFile::new();
    ini.insert_section("search".to_string(), vec!["+a0g".to_string()]);
    let mut history = empty_history();
    history.load(&ini);
    assert_eq!(history.search, vec![vec![0x0a]]);
}

#[test]
fn history_saved_text_reads_back() {
    let mut history = empty_history();
    history.add_filepos("/x:y", 0xff);
    history.add_filepos("/tmp/a b", 0);
    history.add_search(&[0x00, 0xab]);
    history.add_goto(0x1f);
    let text = history.save().to_text();
    assert_eq!(text, "[file]\n/tmp/a b:0\n/x:y:ff\n[goto]\n1f\n[search]\n00ab\n");
    let lines: Vec<String> = text.lines().map(|l| l.to_string()).collect();
    let mut loaded = empty_history();
    loaded.load(&IniFile::parse(&lines));
    assert_eq!(loaded.file_pos, history.file_pos);
    assert_eq!(loaded.search, history.search);
    assert_eq!(loaded.goto, history.goto);
    // nothing recorded: nothing read back
    let text = empty_history().save().to_text();
    let lines: Vec<String> = text.lines().map(|l| l.to_string()).collect();
    let mut loaded = empty_history();
    loaded.load(&IniFile::parse(&lines));
    assert!(loaded.file_pos.is_empty() && loaded.search.is_empty() && loaded.goto.is_empty());
}

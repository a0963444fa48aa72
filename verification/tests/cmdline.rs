use xvi::cmdline::CmdLineArgs;

#[test]
fn test_simple() {
    let args = ["--help".to_string()];
    let args = CmdLineArgs::parse(args.to_vec()).unwrap();
    assert!(args.help);
    assert!(!args.version);
    assert!(args.offset.is_none());
    assert!(args.files.is_empty());

    let args = ["-v".to_string()];
    let args = CmdLineArgs::parse(args.to_vec()).unwrap();
    assert!(!args.help);
    assert!(args.version);
    assert!(args.offset.is_none());
    assert!(args.files.is_empty());

    let args = ["--version".to_string(), "-h".to_string()];
    let args = CmdLineArgs::parse(args.to_vec()).unwrap();
    assert!(args.help);
    assert!(args.version);
    assert!(args.offset.is_none());
    assert!(args.files.is_empty());
}

#[test]
fn test_offset() {
    let args = ["--offset".to_string(), "0x12345678".to_string()];
    let args = CmdLineArgs::parse(args.to_vec()).unwrap();
    assert!(!args.help);
    assert!(!args.version);
    assert!(args.files.is_empty());
    assert_eq!(args.offset, Some(0x12345678));

    let args = ["--offset".to_string(), "1234567a".to_string()];
    let args = CmdLineArgs::parse(args.to_vec()).unwrap();
    assert!(!args.help);
    assert!(!args.version);
    assert!(args.files.is_empty());
    assert_eq!(args.offset, Some(0x1234567a));

    let args = ["-o".to_string(), "12345678".to_string()];
    let args = CmdLineArgs::parse(args.to_vec()).unwrap();
    assert!(!args.help);
    assert!(!args.version);
    assert!(args.files.is_empty());
    assert_eq!(args.offset, Some(12345678));

    let args = ["-o".to_string()];
    assert!(CmdLineArgs::parse(args.to_vec()).is_err());
    let args = ["-o".to_string(), "test".to_string()];
    assert!(CmdLineArgs::parse(args.to_vec()).is_err());
}

#[test]
fn test_files() {
    let args = ["file".to_string()];
    let args = CmdLineArgs::parse(args.to_vec()).unwrap();
    assert!(!args.help);
    assert!(!args.version);
    assert_eq!(args.files.len(), 1);
    assert_eq!(args.files.get(0), Some(&"file".to_string()));

    let args = [
        "-v".to_string(),
        "--".to_string(),
        "--file1".to_string(),
        "file2".to_string(),
    ];
    let args = CmdLineArgs::parse(args.to_vec()).unwrap();
    assert_eq!(args.files.len(), 2);
    assert_eq!(args.files.get(0), Some(&"--file1".to_string()));
    assert_eq!(args.files.get(1), Some(&"file2".to_string()));
}

#[test]
fn cmdline_error_messages() {
    let err = CmdLineArgs::parse(vec!["-o".to_string()]).err().unwrap();
    assert_eq!(err, "Offset not specified");
    let err = CmdLineArgs::parse(vec!["-o".to_string(), "xyz".to_string()]).err().unwrap();
    assert_eq!(err, "Invalid offset value: xyz");
    let err = CmdLineArgs::parse(vec!["--bad".to_string()]).err().unwrap();
    assert_eq!(err, "Invalid argument: --bad");
}

#[test]
fn cmdline_offset_forms() {
    // upper case hex letters select hex too
    let args = CmdLineArgs::parse(vec!["-o".to_string(), "FF".to_string()]).unwrap();
    assert_eq!(args.offset, Some(0xff));
    // a leading plus sign is accepted
    let args = CmdLineArgs::parse(vec!["-o".to_string(), "+10".to_string()]).unwrap();
    assert_eq!(args.offset, Some(10));
    // overflow is an error
    let args = CmdLineArgs::parse(vec!["-o".to_string(), "0x10000000000000000".to_string()]);
    assert!(args.is_err());
    // options after the first file name are file names
    let args = CmdLineArgs::parse(vec!["a".to_string(), "-v".to_string()]).unwrap();
    assert!(!args.version);
    assert_eq!(args.files, vec!["a".to_string(), "-v".to_string()]);
}

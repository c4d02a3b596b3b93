use enigma::hands::{
    accepted_requests, default_op, insert_line, patch_content, plan_write, safe_path, scan_error, unescape_content,
    ArrayScan, FileError, FileWriteRequest, WriteAction, EMPTY_FILE_LIST, LINE_FIELD_MISSING,
    NO_ARRAY_FOUND, NO_CLOSING_BRACKET, PATCH_FIELDS_MISSING,
};
use enigma::operations::{
    file_to_read, is_listed_path, json_array_slice, read_files, EntryType, FileEntry,
    FileError as ReadError, SliceError,
};
use enigma::paths::{file_name, normalize_path, resolve_file_path, resolve_workdir};

fn req(path: &str, op: &str, content: Option<&str>) -> FileWriteRequest {
    FileWriteRequest {
        path: path.to_string(),
        content: content.map(|c| c.to_string()),
        op: op.to_string(),
        search: None,
        replace: None,
        line: None,
    }
}

#[test]
fn normalising_paths() {
    assert_eq!(normalize_path("./a/b/../c//d/."), "a/c/d");
    assert_eq!(normalize_path("/x/../y"), "/y");
    assert_eq!(normalize_path("../up"), "up");
    let once = normalize_path("a/./b/../../c");
    assert_eq!(normalize_path(&once), once);
}

#[test]
fn workdir_never_regresses_to_parent() {
    assert_eq!(resolve_workdir("./sandbox/proj", None), "sandbox/proj");
    assert_eq!(resolve_workdir("./sandbox/proj", Some("  ")), "sandbox/proj");
    assert_eq!(resolve_workdir("./sandbox/proj", Some(".")), "sandbox/proj");
    assert_eq!(resolve_workdir("./sandbox/proj", Some("./sandbox")), "sandbox/proj");
    assert_eq!(resolve_workdir("./sandbox/proj", Some("src")), "sandbox/proj/src");
    assert_eq!(resolve_workdir("./sandbox", Some("/tmp/w")), "/tmp/w");
    assert_eq!(resolve_file_path("sandbox/app", "main.rs"), "sandbox/app/main.rs");
    assert_eq!(resolve_file_path("sandbox/app", "/etc/x"), "/etc/x");
}

#[test]
fn workdir_with_parent_steps_can_leave() {
    assert_eq!(resolve_workdir("a/b/c", Some("../../b")), "a/b");
}

#[test]
fn final_component() {
    assert_eq!(file_name("src/main.rs"), "main.rs");
    assert_eq!(file_name("src/"), "src");
    assert_eq!(file_name("a/.."), "");
    assert_eq!(file_name(""), "");
}

#[test]
fn safe_path_joins_relative_paths() {
    match safe_path("./sandbox", "app/../src/lib.rs") {
        Ok(p) => assert_eq!(p, "sandbox/src/lib.rs"),
        Err(_) => panic!("safe_path always succeeds"),
    }
    match safe_path("./sandbox", "/abs/file") {
        Ok(p) => assert_eq!(p, "/abs/file"),
        Err(_) => panic!("safe_path always succeeds"),
    }
}

#[test]
fn unescaping_content() {
    assert_eq!(unescape_content("a\\nb\\tc\\\"d\\'e"), "a\nb\tc\"d'e");
    assert_eq!(unescape_content("path\\\\name"), "path\\name");
    assert_eq!(unescape_content("C:\\\\new"), "C:\\new");
    assert_eq!(unescape_content("plain text"), "plain text");
}

#[test]
fn write_plans_by_operation() {
    match plan_write("./sandbox", &req("a.txt", "append", Some("x\\ny"))) {
        Ok(WriteAction::Append { path, text }) => {
            assert_eq!(path, "sandbox/a.txt");
            assert_eq!(text, "x\ny");
        }
        _ => panic!("append expected"),
    }
    match plan_write("./sandbox", &req("a.txt", "overwrite", None)) {
        Ok(WriteAction::Overwrite { path, text }) => {
            assert_eq!(path, "sandbox/a.txt");
            assert_eq!(text, "");
        }
        _ => panic!("overwrite expected"),
    }
    assert_eq!(default_op(), "overwrite");
}

#[test]
fn write_plan_errors() {
    match plan_write("./sandbox", &req("a.txt", "patch", None)) {
        Err(FileError::ParseError(m)) => assert_eq!(m, PATCH_FIELDS_MISSING),
        _ => panic!("patch without fields is an error"),
    }
    match plan_write("./sandbox", &req("a.txt", "insert_at", Some("x"))) {
        Err(FileError::ParseError(m)) => assert_eq!(m, LINE_FIELD_MISSING),
        _ => panic!("insert without line is an error"),
    }
    let mut p = req("a.txt", "patch", None);
    p.search = Some("old".to_string());
    p.replace = Some("new".to_string());
    match plan_write(".", &p) {
        Ok(WriteAction::Patch { path, search, replace }) => {
            assert_eq!(path, "a.txt");
            assert_eq!(search, "old");
            assert_eq!(replace, "new");
        }
        _ => panic!("patch expected"),
    }
    let mut i = req("a.txt", "insert_at", Some("line"));
    i.line = Some(2);
    assert!(matches!(plan_write(".", &i), Ok(WriteAction::InsertAt { line: 2, .. })));
}

#[test]
fn io_errors_convert() {
    let e: FileError = std::io::Error::new(std::io::ErrorKind::Other, "disk").into();
    assert!(matches!(e, FileError::IoError(_)));
}

#[test]
fn inserting_lines() {
    assert_eq!(insert_line("a\nb\nc", 2, "X"), "a\nX\nb\nc");
    assert_eq!(insert_line("a\nb", 0, "X"), "X\na\nb");
    assert_eq!(insert_line("a\nb", 3, "X"), "a\nb\nX");
    assert_eq!(insert_line("a\nb", 9, "X"), "a\nb\nX");
    assert_eq!(insert_line("", 1, "X"), "X");
}

#[test]
fn patching_text() {
    assert_eq!(patch_content("let a = 1; a = 1;", "a = 1", "b = 2"), Some("let b = 2; b = 2;".to_string()));
    assert_eq!(patch_content("abc", "zz", "y"), None);
    assert_eq!(patch_content("abc", "", "y"), None);
}

#[test]
fn scanning_for_arrays() {
    let mut scan = match ArrayScan::start("Files: [1] and [{\"path\":\"a\"}] ok") {
        Ok(s) => s,
        Err(_) => panic!("has a closing bracket"),
    };
    assert_eq!(scan.next_candidate(), Some("[1] and [{\"path\":\"a\"}]".to_string()));
    assert_eq!(scan.next_candidate(), Some("[{\"path\":\"a\"}]".to_string()));
    assert_eq!(scan.next_candidate(), None);
    match ArrayScan::start("no array here") {
        Err(m) => assert_eq!(m, NO_CLOSING_BRACKET),
        Ok(_) => panic!("no closing bracket"),
    }
    assert_eq!(scan_error("x", None), NO_ARRAY_FOUND.to_string());
    assert_eq!(
        scan_error("[bad]", Some("expected value")),
        "JSON Parse Error: expected value. Input snippet: [bad]".to_string()
    );
    assert!(EMPTY_FILE_LIST.len() > 0);
}

#[test]
fn scan_error_snippet_is_cut_at_500_bytes() {
    let long = "a".repeat(600);
    let m = scan_error(&long, Some("e"));
    assert_eq!(m.len(), "JSON Parse Error: e. Input snippet: ".len() + 500);
    let split = format!("{}é", "a".repeat(499));
    assert_eq!(scan_error(&split, Some("e")), format!("JSON Parse Error: e. Input snippet: {}", "a".repeat(499)));
}

#[test]
fn listing_filters_and_reads() {
    assert!(is_listed_path("src/main.rs"));
    assert!(!is_listed_path("./.git/HEAD"));
    assert!(!is_listed_path("target/debug"));
    assert!(!is_listed_path("sandbox/cmd_outputs.txt"));
    let entries = vec![
        FileEntry { path: "src".to_string(), depth: 1, entry_type: EntryType::Directory },
        FileEntry { path: "src/main.rs".to_string(), depth: 2, entry_type: EntryType::File },
    ];
    assert_eq!(read_files(&entries), vec!["src/main.rs".to_string()]);
    let win = FileEntry { path: "src\\lib.rs".to_string(), depth: 2, entry_type: EntryType::File };
    assert_eq!(file_to_read(&win), Some(("src/lib.rs".to_string(), "lib.rs".to_string())));
    assert_eq!(file_to_read(&entries[0]), None);
}

#[test]
fn array_slices() {
    match json_array_slice("Here: [\"a.rs\", \"b.rs\"] done") {
        Ok(s) => assert_eq!(s, "[\"a.rs\", \"b.rs\"]"),
        Err(_) => panic!("array present"),
    }
    assert!(matches!(json_array_slice("none"), Err(SliceError::NoArray)));
    match json_array_slice("[ never closed") {
        Err(e) => assert_eq!(e.message(), "No closing bracket found in response"),
        Ok(_) => panic!("no closing bracket"),
    }
}

#[test]
fn read_errors_describe_themselves() {
    let io = ReadError::Io(std::io::Error::new(std::io::ErrorKind::Other, "disk full"));
    assert_eq!(io.describe(), "IO error: disk full");
    assert_eq!(ReadError::InvalidPath("x.txt".to_string()).describe(), "Invalid path: x.txt");
}

#[test]
fn empty_request_lists_are_refused() {
    match accepted_requests(Vec::new()) {
        Err(FileError::ParseError(m)) => assert_eq!(m, EMPTY_FILE_LIST),
        _ => panic!("an empty list is an error"),
    }
    match accepted_requests(vec![req("a.txt", "overwrite", Some("x"))]) {
        Ok(v) => assert_eq!(v.len(), 1),
        Err(_) => panic!("a non-empty list is accepted"),
    }
}

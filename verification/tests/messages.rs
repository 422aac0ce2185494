use file_mcp::messages::{
    check_write_path, commit_message, sanitize_message, truncate_grep_output, truncate_output,
    truncate_to, WriteKind,
};

#[test]
fn sanitize_keeps_allowed_and_collapses() {
    assert_eq!(sanitize_message("  Fix: the   bug!  "), "Fix the bug");
    assert_eq!(sanitize_message("add-feature_x"), "add-featurex");
    assert_eq!(sanitize_message("ümlaut é ok"), "mlaut ok");
    assert_eq!(sanitize_message("$$$"), "");
}

#[test]
fn sanitize_truncates_to_120() {
    let long = "ab ".repeat(100);
    let s = sanitize_message(&long);
    assert_eq!(s.len(), 120);
    assert!(s.chars().all(|c| c.is_ascii_alphanumeric() || c == '-' || c == ' '));
    assert!(!s.contains("  "));
    assert!(!s.starts_with(' '));
}

#[test]
fn commit_message_must_keep_something() {
    assert_eq!(commit_message("hello  world").unwrap(), "hello world");
    assert_eq!(
        commit_message("!!!").unwrap_err(),
        "400: commit message is empty after sanitisation (only a-zA-Z0-9- and spaces are kept)."
    );
}

#[test]
fn short_output_is_kept() {
    assert_eq!(truncate_output(b"hello\n"), "hello\n");
    assert_eq!(truncate_grep_output(b"x"), "x");
}

#[test]
fn invalid_utf8_is_replaced() {
    assert_eq!(truncate_output(&[b'a', 0xff, b'b']), "a\u{fffd}b");
}

#[test]
fn long_output_is_cut_at_char_boundary() {
    assert_eq!(truncate_to(b"abcdef", 4), "abcd\n... (truncated at 4 bytes)");
    // "é" takes two bytes: cutting at 4 bytes keeps "aé" plus one more byte
    // would split the second "é", so only "aé" (3 bytes) is kept.
    assert_eq!(truncate_to("aéé".as_bytes(), 4), "aé\n... (truncated at 4 bytes)");
    assert_eq!(truncate_to("aéé".as_bytes(), 5), "aéé");
}

#[test]
fn git_output_cap() {
    let big = vec![b'x'; 1024 * 1024 + 3];
    let s = truncate_output(&big);
    assert!(s.ends_with("\n... (truncated at 1048576 bytes)"));
    assert_eq!(s.len(), 1024 * 1024 + "\n... (truncated at 1048576 bytes)".len());
}

#[test]
fn write_checks() {
    let ex = ["target"];
    assert!(check_write_path("src/a.rs", &ex, 3, WriteKind::File).is_ok());
    assert_eq!(
        check_write_path("target/x", &ex, 3, WriteKind::File).unwrap_err(),
        "400: 'target/x' is inside a build-artifact directory and cannot be written directly."
    );
    assert_eq!(
        check_write_path("target", &ex, 3, WriteKind::Directory).unwrap_err(),
        "400: 'target' is inside a build-artifact directory and cannot be created directly."
    );
    assert_eq!(
        check_write_path(".meta/project.json", &ex, 3, WriteKind::File).unwrap_err(),
        "400: '.meta/project.json' is inside '.meta/' which is reserved for project metadata."
    );
    assert_eq!(
        check_write_path("a b", &ex, 3, WriteKind::File).unwrap_err(),
        "400: invalid path — component 'a b' contains disallowed characters: [' '] (only a-zA-Z0-9._- are permitted)"
    );
    assert_eq!(
        check_write_path("a/b/c/d", &ex, 3, WriteKind::File).unwrap_err(),
        "400: path depth 4 exceeds project max_depth 3."
    );
    assert_eq!(
        check_write_path("a/b/c/d", &ex, 2, WriteKind::Directory).unwrap_err(),
        "400: directory depth 4 exceeds project max_depth 2."
    );
}

#[test]
fn sanitized_message_is_empty_without_word_characters() {
    assert_eq!(sanitize_message("!! ?? _ ."), "");
    assert_eq!(sanitize_message("   "), "");
    assert_eq!(sanitize_message("!-!"), "-");
    assert_eq!(sanitize_message(" é 7 "), "7");
}

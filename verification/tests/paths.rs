use file_mcp::paths::{
    check_is_regular, excluded_dirs_for, is_excluded_path, join_path, path_depth, safe_path, skipped_when_counting,
    validate_name, validate_put_path, FileKind,
};

#[test]
fn put_paths_accepted() {
    assert!(validate_put_path("src/main.rs").is_ok());
    assert!(validate_put_path("./a/b.txt").is_ok());
    assert!(validate_put_path("a//b/").is_ok());
    assert!(validate_put_path("...").is_ok());
}

#[test]
fn put_paths_rejected() {
    assert_eq!(validate_put_path("/etc/passwd").unwrap_err(), "absolute paths are not allowed");
    assert_eq!(validate_put_path("").unwrap_err(), "path must not be empty");
    assert_eq!(
        validate_put_path("a/../b").unwrap_err(),
        "'..'' components are not allowed in put paths"
    );
    assert_eq!(
        validate_put_path("ok/b@d name.txt").unwrap_err(),
        "component 'b@d name.txt' contains disallowed characters: ['@', ' '] (only a-zA-Z0-9._- are permitted)"
    );
}

#[test]
fn first_bad_component_is_reported() {
    assert_eq!(
        validate_put_path("x$/../y").unwrap_err(),
        "component 'x$' contains disallowed characters: ['$'] (only a-zA-Z0-9._- are permitted)"
    );
}

#[test]
fn names() {
    assert!(validate_name("my-app_2").is_ok());
    assert_eq!(validate_name("").unwrap_err(), "name must not be empty");
    assert_eq!(
        validate_name("my.app").unwrap_err(),
        "name contains disallowed characters: ['.'] (only a-zA-Z0-9_- are permitted)"
    );
}

#[test]
fn depth_counts_names() {
    assert_eq!(path_depth("src/main.rs"), 2);
    assert_eq!(path_depth("src/tools/mod.rs"), 3);
    assert_eq!(path_depth("./a/./b/"), 2);
    assert_eq!(path_depth("a/../b"), 2);
    assert_eq!(path_depth(""), 0);
}

#[test]
fn excluded_dirs_by_language() {
    assert_eq!(excluded_dirs_for("rust"), vec!["target"]);
    assert_eq!(excluded_dirs_for("Java"), vec!["target", "build", ".gradle"]);
    assert_eq!(excluded_dirs_for("PYTHON"), vec![".venv", "venv", "__pycache__", "dist", "build"]);
    assert_eq!(excluded_dirs_for("ts"), vec!["node_modules", "dist", "build"]);
    assert_eq!(excluded_dirs_for("cpp"), vec!["build"]);
    assert_eq!(excluded_dirs_for("godot-2d"), vec![".godot"]);
    assert!(excluded_dirs_for("cobol").is_empty());
}

#[test]
fn only_top_level_is_excluded() {
    let ex = ["target"];
    assert!(is_excluded_path("target/foo", &ex));
    assert!(is_excluded_path("./target", &ex));
    assert!(!is_excluded_path("src/target/foo", &ex));
    assert!(!is_excluded_path("targets", &ex));
    assert!(!is_excluded_path("", &ex));
}

#[test]
fn safe_paths_resolve_under_base() {
    assert_eq!(safe_path("/p", "a/b").as_deref(), Some("/p/a/b"));
    assert_eq!(safe_path("/p/", "./a/../b").as_deref(), Some("/p/b"));
    assert_eq!(safe_path("/p", "").as_deref(), Some("/p"));
    assert_eq!(safe_path("", "x").as_deref(), Some("x"));
}

#[test]
fn escaping_paths_are_refused() {
    assert_eq!(safe_path("/p", "/etc"), None);
    assert_eq!(safe_path("/p", ".."), None);
    assert_eq!(safe_path("/p", "a/../../b"), None);
}

#[test]
fn valid_put_paths_always_resolve() {
    for p in ["a", "a/b", "./x.txt", "d/e/f.rs"] {
        assert!(validate_put_path(p).is_ok());
        let r = safe_path("/base", p).unwrap();
        assert!(r.starts_with("/base/"));
    }
}

#[test]
fn join_path_like_pathbuf() {
    assert_eq!(join_path("a", "b"), "a/b");
    assert_eq!(join_path("a/", "b"), "a/b");
    assert_eq!(join_path("", "b"), "b");
    assert_eq!(join_path("a", ""), "a/");
}

#[test]
fn file_kinds() {
    assert!(check_is_regular(&Ok(FileKind::File), "f").is_ok());
    assert!(check_is_regular(&Ok(FileKind::Dir), "d").is_ok());
    assert_eq!(
        check_is_regular(&Ok(FileKind::Symlink), "/p/l").unwrap_err(),
        "'/p/l' is a symbolic link — only regular files and directories are allowed"
    );
    assert_eq!(
        check_is_regular(&Ok(FileKind::Special), "/p/s").unwrap_err(),
        "'/p/s' is a special file (device/FIFO/socket) — only regular files and directories are allowed"
    );
    assert_eq!(
        check_is_regular(&Err("No such file".to_string()), "/p/x").unwrap_err(),
        "cannot stat '/p/x': No such file"
    );
}

#[test]
fn directories_skipped_when_counting() {
    let excluded = ["target", "build"];
    assert!(skipped_when_counting(".git", true, &excluded));
    assert!(skipped_when_counting(".git", false, &excluded));
    assert!(skipped_when_counting("target", true, &excluded));
    assert!(!skipped_when_counting("target", false, &excluded));
    assert!(!skipped_when_counting("src", true, &excluded));
}

#[test]
fn put_paths_accepted_exactly_when_allowed() {
    assert!(validate_put_path("src/main.rs").is_ok());
    assert!(validate_put_path("./a/.b_c-d").is_ok());
    assert!(validate_put_path("a/../b").is_err());
    assert!(validate_put_path("a b").is_err());
    assert!(validate_put_path("").is_err());
    assert!(validate_put_path("/etc").is_err());
}

#[test]
fn safe_path_refuses_exactly_escaping_requests() {
    assert_eq!(safe_path("/p", "a/../b"), Some("/p/b".to_string()));
    assert_eq!(safe_path("/p", "a/.."), Some("/p".to_string()));
    assert_eq!(safe_path("/p", "a/../../b"), None);
    assert_eq!(safe_path("/p", "../a"), None);
    assert_eq!(safe_path("/p", "/a"), None);
}

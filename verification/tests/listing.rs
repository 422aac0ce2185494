use file_mcp::constants::MAX_TREE_LINES;
use file_mcp::listing::{dir_listing, sort_texts, text_le, tree_depth, tree_lines, DirNode};
use file_mcp::messages::{check_file_count, check_get_size, check_put_size};

fn file(name: &str) -> DirNode {
    DirNode { name: name.to_string(), is_dir: false, children: Vec::new() }
}

fn dir(name: &str, children: Vec<DirNode>) -> DirNode {
    DirNode { name: name.to_string(), is_dir: true, children }
}

fn sample() -> DirNode {
    dir(
        "",
        vec![
            dir("src", vec![file("main.rs"), dir("tools", vec![file("mod.rs")])]),
            file("build.sh"),
        ],
    )
}

#[test]
fn tree_is_drawn_with_connectors() {
    let lines = tree_lines(&sample(), 3);
    assert_eq!(
        lines,
        vec![
            "├── src/",
            "│   ├── main.rs",
            "│   └── tools/",
            "│       └── mod.rs",
            "└── build.sh",
        ]
    );
}

#[test]
fn tree_stops_at_depth() {
    assert_eq!(tree_lines(&sample(), 0), vec!["├── src/", "└── build.sh"]);
    assert_eq!(
        tree_lines(&sample(), 1),
        vec!["├── src/", "│   ├── main.rs", "│   └── tools/", "└── build.sh"]
    );
    assert!(tree_lines(&dir("", Vec::new()), 5).is_empty());
}

#[test]
fn tree_is_capped() {
    let many: Vec<DirNode> = (0..MAX_TREE_LINES + 5).map(|i| file(&format!("f{i}"))).collect();
    let lines = tree_lines(&dir("", many), 1);
    assert_eq!(lines.len(), MAX_TREE_LINES);
    assert_eq!(lines[0], "├── f0");
}

#[test]
fn tree_depth_defaults_and_cap() {
    assert_eq!(tree_depth(None, 3), 3);
    assert_eq!(tree_depth(Some(7), 3), 7);
    assert_eq!(tree_depth(Some(99), 3), 10);
    assert_eq!(tree_depth(None, 40), 10);
}

#[test]
fn texts_are_sorted_like_strings() {
    let v: Vec<String> = ["b", "a/", "B", "ab", "a", "é", "z"].iter().map(|s| s.to_string()).collect();
    let mut expected = v.clone();
    expected.sort();
    assert_eq!(sort_texts(v), expected);
    assert!(text_le("a", "ab"));
    assert!(!text_le("ab", "a"));
    assert!(text_le("Z", "a"));
    assert!(text_le("same", "same"));
    assert!(sort_texts(Vec::new()).is_empty());
}

#[test]
fn directory_listing_text() {
    let entries = vec!["a (dir)".to_string(), "b.rs (file)".to_string()];
    assert_eq!(dir_listing("src", &entries), "Directory listing for 'src':\na (dir)\nb.rs (file)");
    assert_eq!(dir_listing(".", &Vec::new()), "Directory listing for '.':\n");
}

#[test]
fn size_and_count_limits() {
    assert_eq!(check_put_size("hello"), Ok(()));
    let big = "x".repeat(512 * 1024 + 1);
    assert_eq!(check_put_size(&big), Err("413: content is 524289 bytes, exceeds max 524288.".to_string()));
    assert_eq!(check_put_size(&"x".repeat(512 * 1024)), Ok(()));
    assert_eq!(check_get_size("a.txt", 524288), Ok(()));
    assert_eq!(
        check_get_size("a.txt", 524289),
        Err("413: file 'a.txt' is 524289 bytes, exceeds max 524288. Use start_line/end_line to read a slice.".to_string())
    );
    assert_eq!(check_file_count(199, 200), Ok(()));
    assert_eq!(
        check_file_count(200, 200),
        Err("400: project file limit reached (200/200). Increase the size preset or remove unused files.".to_string())
    );
}

use file_mcp::listing::{child_prefix, page_listing, tree_line, LineWindow};
use file_mcp::replies::{build_report, commit_reply, grep_argv, grep_reply};

#[test]
fn pages() {
    let entries: Vec<String> = (0..150).map(|i| format!("e{i}")).collect();
    let first = page_listing("ls", ".", &entries, 0);
    assert!(first.starts_with("ls '.'  [1-100 of 150, use offset to page]\ne0\ne1\n"));
    assert!(first.ends_with("\ne99"));
    let second = page_listing("tree", "src", &entries, 100);
    assert!(second.starts_with("tree 'src'  [101-150 of 150]\ne100\n"));
    assert_eq!(page_listing("ls", "x", &entries, 500), "ls 'x'  [501-500 of 150]\n");
    assert_eq!(page_listing("ls", "x", &Vec::new(), 0), "ls 'x'  [1-0 of 0]\n");
    assert_eq!(
        page_listing("ls", "x", &entries, usize::MAX),
        format!("ls 'x'  [{}-{} of 150]\n", usize::MAX as u128 + 1, usize::MAX)
    );
}

#[test]
fn tree_line_pieces() {
    assert_eq!(tree_line("", false, "src", true), "├── src/");
    assert_eq!(tree_line("│   ", true, "main.rs", false), "│   └── main.rs");
    assert_eq!(child_prefix("", true), "    ");
    assert_eq!(child_prefix("", false), "│   ");
}

fn window(lines: &[&str], start: u64, end: u64, max: usize) -> Result<String, String> {
    let mut w = LineWindow::new(start, end, max);
    for l in lines {
        if w.is_done() {
            break;
        }
        w.feed(l);
    }
    w.finish()
}

#[test]
fn line_windows() {
    let lines = ["a", "b", "c", "d"];
    assert_eq!(window(&lines, 2, 3, 100), Ok("b\nc\n".to_string()));
    assert_eq!(window(&lines, 3, u64::MAX, 100), Ok("c\nd\n".to_string()));
    assert_eq!(
        window(&lines, 9, 10, 100),
        Err("404: start_line 9 is past end of file (file has 4 line(s)).".to_string())
    );
    assert_eq!(
        window(&lines, 1, 4, 5),
        Ok("a\nb\n... (truncated at 5 bytes; shorten the range)\n".to_string())
    );
}

#[test]
fn grep_command_line() {
    let argv = grep_argv("fn", "/p/src", 2, 0, true, true, &["target"]);
    assert_eq!(
        argv,
        vec!["-E", "-H", "-n", "-A2", "-r", "--exclude-dir=.git", "--exclude-dir=.meta", "--exclude-dir=target", "--", "fn", "/p/src"]
    );
    let argv = grep_argv("-x", "/p/a.rs", 0, 3, false, false, &[]);
    assert_eq!(argv, vec!["-E", "-H", "-B3", "--", "-x", "/p/a.rs"]);
}

#[test]
fn grep_replies() {
    assert_eq!(
        grep_reply(0, b"/p/src/a.rs:fn x\n/p/b.rs:fn y\n", b"", "/p", "fn", "."),
        ("src/a.rs:fn x\nb.rs:fn y\n".to_string(), false)
    );
    assert_eq!(
        grep_reply(1, b"", b"", "/p", "fn", "src"),
        ("0 matches for /fn/ in 'src'.".to_string(), false)
    );
    assert_eq!(
        grep_reply(2, b"", b"bad regex", "/p", "(", "."),
        ("grep failed (exit 2): bad regex".to_string(), true)
    );
}

#[test]
fn build_reports() {
    assert_eq!(build_report(0, " \n", ""), ("Build succeeded.".to_string(), false));
    assert_eq!(build_report(0, "done", ""), ("Build succeeded.\ndone".to_string(), false));
    assert_eq!(
        build_report(-1, "out", "err"),
        ("Build failed (exit code -1).\n\nstdout:\nout\n\nstderr:\nerr".to_string(), true)
    );
    assert_eq!(build_report(2, "", "\t"), ("Build failed (exit code 2).".to_string(), true));
}

#[test]
fn commit_replies() {
    assert_eq!(
        commit_reply("a.txt", "msg", None, &Ok("[main 1] msg".to_string())),
        ("File 'a.txt' written and committed (message='msg').\n[main 1] msg".to_string(), false)
    );
    assert_eq!(
        commit_reply("a.txt", "msg", None, &Err("On branch main\nnothing to commit, working tree clean".to_string())),
        ("File 'a.txt' written (no effective changes to commit).".to_string(), false)
    );
    assert_eq!(
        commit_reply("a.txt", "msg", Some(2), &Err("nothing to commit".to_string())),
        ("File 'a.txt' updated (2 replacement(s)) — no effective changes to commit.".to_string(), false)
    );
    assert_eq!(
        commit_reply("a.txt", "msg", Some(1), &Ok("ok".to_string())),
        ("File 'a.txt' updated (1 replacement(s)) and committed (message='msg').\nok".to_string(), false)
    );
    assert_eq!(
        commit_reply("a.txt", "msg", Some(1), &Err("fatal".to_string())),
        ("File 'a.txt' updated but git commit failed: fatal".to_string(), true)
    );
}

#[test]
fn blank_output_follows_unicode_white_space() {
    for c in (0u32..=0x10FFFF).filter_map(char::from_u32) {
        let text = c.to_string();
        let (msg, _) = build_report(0, &text, "");
        assert_eq!(msg == "Build succeeded.", c.is_whitespace(), "char U+{:04X}", c as u32);
    }
}

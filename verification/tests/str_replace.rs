use file_mcp::edit::{diagnose_no_match, plan_replacement, ReplaceError};
use file_mcp::replies::{check_old_str, edit_plan, EditPlan};

#[test]
fn detects_tab_in_needle_spaces_in_file() {
    let file = "    let x = 1;\n";
    let needle = "\tlet x = 1;\n";
    let hint = diagnose_no_match(file, needle);
    assert!(hint.contains("TABS"), "got: {hint}");
    assert!(hint.contains("SPACES"), "got: {hint}");
}

#[test]
fn detects_spaces_in_needle_tabs_in_file() {
    let file = "\tlet x = 1;\n";
    let needle = "    let x = 1;\n";
    let hint = diagnose_no_match(file, needle);
    assert!(hint.contains("SPACES"), "got: {hint}");
    assert!(hint.contains("TABS"), "got: {hint}");
}

#[test]
fn detects_crlf_vs_lf() {
    let file = "a\nb\nc\n";
    let needle = "a\r\nb\r\n";
    let hint = diagnose_no_match(file, needle);
    assert!(hint.contains("CRLF"), "got: {hint}");
}

#[test]
fn empty_when_no_obvious_cause() {
    let hint = diagnose_no_match("hello world", "completely unrelated");
    assert!(hint.is_empty(), "got: {hint}");
}

#[test]
fn hint_names_the_space_width() {
    assert_eq!(
        diagnose_no_match("    let x = 1;\n", "\tlet x = 1;\n"),
        " Hint: your old_str uses TABS but the file uses 4 SPACES at the matching location."
    );
    assert_eq!(
        diagnose_no_match("\tx\n", "        x\n"),
        " Hint: your old_str uses 8 SPACES but the file uses TABS at the matching location."
    );
}

#[test]
fn detects_lf_vs_crlf() {
    assert_eq!(
        diagnose_no_match("a\r\nb\r\n", "a\nb\n"),
        " Hint: your old_str uses LF line endings but the file uses CRLF."
    );
}

#[test]
fn detects_trailing_whitespace() {
    assert_eq!(
        diagnose_no_match("a\nb\n", "a  \nb"),
        " Hint: trailing whitespace on one or more lines differs between old_str and the file."
    );
    assert_eq!(
        diagnose_no_match("a \t\nb\n", "a\nb"),
        " Hint: the file has trailing whitespace on one or more lines that your old_str does not."
    );
}

#[test]
fn diagnosis_is_empty_or_a_hint() {
    for (hay, needle) in [("abc", "x"), ("  a", "\ta"), ("a\r\n", "a\n"), ("q ", "q\t\n")] {
        let h = diagnose_no_match(hay, needle);
        assert!(h.is_empty() || h.starts_with(" Hint: "), "got: {h}");
    }
}

fn text_of(r: Result<file_mcp::edit::Replacement, ReplaceError>) -> (String, usize) {
    match r {
        Ok(rep) => (rep.text, rep.replaced),
        Err(_) => panic!("expected a replacement"),
    }
}

#[test]
fn replaces_unique_occurrence() {
    assert_eq!(text_of(plan_replacement("a b c", "b", "XX", 0)), ("a XX c".to_string(), 1));
}

#[test]
fn replaces_all_occurrences() {
    assert_eq!(text_of(plan_replacement("aXaXa", "a", "bb", -1)), ("bbXbbXbb".to_string(), 3));
    // Matches do not overlap: "aaa" holds one "aa" found from the left.
    assert_eq!(text_of(plan_replacement("aaa", "aa", "b", -1)), ("ba".to_string(), 1));
}

#[test]
fn replaces_nth_occurrence() {
    assert_eq!(text_of(plan_replacement("x-x-x", "x", "y", 2)), ("x-y-x".to_string(), 2));
    assert_eq!(text_of(plan_replacement("x-x-x", "x", "y", 3)), ("x-x-y".to_string(), 3));
}

#[test]
fn replacement_errors() {
    match plan_replacement("abc", "zz", "y", 0) {
        Err(ReplaceError::NotFound { hint }) => assert!(hint.is_empty()),
        _ => panic!("expected NotFound"),
    }
    match plan_replacement("a a", "a", "b", 0) {
        Err(ReplaceError::NotUnique { count }) => assert_eq!(count, 2),
        _ => panic!("expected NotUnique"),
    }
    match plan_replacement("a a", "a", "b", 3) {
        Err(ReplaceError::OutOfRange { requested, count }) => {
            assert_eq!((requested, count), (3, 2))
        }
        _ => panic!("expected OutOfRange"),
    }
    match plan_replacement("a a", "a", "b", -2) {
        Err(ReplaceError::InvalidOccurrence { occurrence }) => assert_eq!(occurrence, -2),
        _ => panic!("expected InvalidOccurrence"),
    }
}

#[test]
fn replacing_with_itself_changes_nothing() {
    for occ in [0i64, -1, 1] {
        let (t, _) = text_of(plan_replacement("one two", "two", "two", occ));
        assert_eq!(t, "one two");
    }
}

#[test]
fn replacement_length_law() {
    let (t, n) = text_of(plan_replacement("ab ab ab", "ab", "xyz", -1));
    assert_eq!(t.chars().count(), 8 + n * (3 - 2));
}

#[test]
fn unicode_text_is_replaced_by_characters() {
    assert_eq!(text_of(plan_replacement("héllo wörld", "ö", "o", 0)), ("héllo world".to_string(), 1));
}

#[test]
fn edit_plan_messages() {
    match edit_plan("f.txt", "a a", "a", "b", 0) {
        EditPlan::Refuse(m) => assert_eq!(
            m,
            "409: old_str is not unique in 'f.txt' (2 occurrences) — pass occurrence=-1 to replace all, or 1..2 to pick one."
        ),
        _ => panic!("expected a refusal"),
    }
    match edit_plan("f.txt", "abc", "q", "b", 0) {
        EditPlan::Refuse(m) => assert_eq!(
            m,
            "404: old_str not found in 'f.txt' (0 occurrences). Matching is BYTE-BY-BYTE — whitespace, tabs vs spaces, and line endings must match exactly. Re-fetch the file with `get` and copy the bytes verbatim."
        ),
        _ => panic!("expected a refusal"),
    }
    match edit_plan("f.txt", "a a", "a", "b", 5) {
        EditPlan::Refuse(m) => {
            assert_eq!(m, "400: occurrence 5 out of range — file has 2 occurrence(s) of old_str.")
        }
        _ => panic!("expected a refusal"),
    }
    match edit_plan("f.txt", "a a", "a", "b", -7) {
        EditPlan::Refuse(m) => {
            assert_eq!(m, "400: invalid occurrence -7 — use 0 (unique), -1 (all), or 1..n.")
        }
        _ => panic!("expected a refusal"),
    }
    match edit_plan("f.txt", "a b", "b", "b", 0) {
        EditPlan::Unchanged(m) => {
            assert_eq!(m, "File 'f.txt' unchanged (new_str is identical to old_str).")
        }
        _ => panic!("expected unchanged"),
    }
    match edit_plan("f.txt", "a b", "b", "c", -1) {
        EditPlan::Write { text, replaced } => assert_eq!((text.as_str(), replaced), ("a c", 1)),
        _ => panic!("expected a write"),
    }
}

#[test]
fn edit_plan_refuses_oversized_result() {
    let big = "x".repeat(512 * 1024);
    match edit_plan("f.txt", &big, "x", "yy", 0) {
        EditPlan::Refuse(m) => assert!(m.starts_with("409:")),
        _ => panic!("expected a refusal"),
    }
    let original = format!("{}z", "x".repeat(512 * 1024 - 1));
    match edit_plan("f.txt", &original, "z", "zz", 0) {
        EditPlan::Refuse(m) => assert_eq!(
            m,
            "413: resulting content is 524289 bytes, exceeds max 524288."
        ),
        _ => panic!("expected a refusal"),
    }
}

#[test]
fn empty_old_str_is_refused() {
    assert_eq!(check_old_str("").unwrap_err(), "400: old_str must not be empty.");
    assert!(check_old_str("x").is_ok());
}

//! The answers of the tools that run a command or change a file: grep's
//! command line and output, build reports, commit replies, and the plan of
//! a `str_replace` edit.

use vstd::prelude::*;
use crate::constants::{MAX_GREP_OUTPUT_BYTES, MAX_PUT_FILE_SZ};
use crate::edit::{plan_replacement, replacement, ReplaceError, Replacement};
use crate::messages::{truncate_grep_output, truncated};
use crate::text::{
    char_width, chars_eq, chars_of, contains, contains_seq, decimal, decimal_int, is_whitespace,
    lossy_decode, match_positions, push_chars, push_decimal, push_decimal_i64, push_str,
    replace_all, replace_chars, string_of, utf8_len, utf8_lossy, whitespace,
};

verus! {

// ── grep ────────────────────────────────────────────────────────────────────

/// `--exclude-dir=` followed by each of `dirs`.
pub open spec fn exclude_args(dirs: Seq<&str>) -> Seq<Seq<char>>
    decreases dirs.len(),
{
    if dirs.len() == 0 {
        Seq::empty()
    } else {
        exclude_args(dirs.drop_last()).push("--exclude-dir="@ + dirs.last()@)
    }
}

/// grep's arguments: extended regular expressions, file names always
/// shown, optional line numbers and context, a recursive search of a
/// directory that skips `.git`, `.meta` and the build-artifact directories,
/// then `--`, the pattern and the target (so a pattern starting with `-` is
/// safe).
pub open spec fn grep_args(
    regex: Seq<char>,
    target: Seq<char>,
    lines_after: u64,
    lines_before: u64,
    line_numbers: bool,
    is_dir: bool,
    excluded: Seq<&str>,
) -> Seq<Seq<char>> {
    seq!["-E"@, "-H"@] + (if line_numbers {
        seq!["-n"@]
    } else {
        Seq::empty()
    }) + (if lines_after > 0 {
        seq!["-A"@ + decimal(lines_after as nat)]
    } else {
        Seq::empty()
    }) + (if lines_before > 0 {
        seq!["-B"@ + decimal(lines_before as nat)]
    } else {
        Seq::empty()
    }) + (if is_dir {
        seq!["-r"@, "--exclude-dir=.git"@, "--exclude-dir=.meta"@] + exclude_args(excluded)
    } else {
        Seq::empty()
    }) + seq!["--"@, regex, target]
}

/// The texts of a list of strings.
pub open spec fn texts(v: Seq<String>) -> Seq<Seq<char>> {
    v.map_values(|s: String| s@)
}

fn text_of(s: &str) -> (r: String)
    ensures
        r@ == s@,
{
    s.to_owned()
}

/// Assembles grep's command line (see `grep_args`).
pub fn grep_argv(
    regex: &str,
    target: &str,
    lines_after: u64,
    lines_before: u64,
    line_numbers: bool,
    is_dir: bool,
    excluded: &[&str],
) -> (r: Vec<String>)
    ensures
        texts(r@) == grep_args(
            regex@,
            target@,
            lines_after,
            lines_before,
            line_numbers,
            is_dir,
            excluded@,
        ),
{
    let mut argv: Vec<String> = Vec::new();
    argv.push(text_of("-E"));
    argv.push(text_of("-H"));
    let ghost a1 = texts(argv@);
    assert(a1 =~= seq!["-E"@, "-H"@]);
    if line_numbers {
        argv.push(text_of("-n"));
    }
    let ghost a2 = texts(argv@);
    assert(a2 =~= a1 + (if line_numbers {
        seq!["-n"@]
    } else {
        Seq::<Seq<char>>::empty()
    }));
    if lines_after > 0 {
        let mut a: Vec<char> = Vec::new();
        push_str(&mut a, "-A");
        push_decimal(&mut a, lines_after as u128);
        argv.push(string_of(&a));
    }
    let ghost a3 = texts(argv@);
    assert(a3 =~= a2 + (if lines_after > 0 {
        seq!["-A"@ + decimal(lines_after as nat)]
    } else {
        Seq::<Seq<char>>::empty()
    }));
    if lines_before > 0 {
        let mut b: Vec<char> = Vec::new();
        push_str(&mut b, "-B");
        push_decimal(&mut b, lines_before as u128);
        argv.push(string_of(&b));
    }
    let ghost a4 = texts(argv@);
    assert(a4 =~= a3 + (if lines_before > 0 {
        seq!["-B"@ + decimal(lines_before as nat)]
    } else {
        Seq::<Seq<char>>::empty()
    }));
    if is_dir {
        argv.push(text_of("-r"));
        argv.push(text_of("--exclude-dir=.git"));
        argv.push(text_of("--exclude-dir=.meta"));
        let ghost a5 = texts(argv@);
        assert(a5 =~= a4 + seq!["-r"@, "--exclude-dir=.git"@, "--exclude-dir=.meta"@]);
        let mut i: usize = 0;
        assert(excluded@.take(0) =~= Seq::<&str>::empty());
        while i < excluded.len()
            invariant
                i <= excluded@.len(),
                texts(argv@) == a5 + exclude_args(excluded@.take(i as int)),
            decreases excluded@.len() - i,
        {
            let mut e: Vec<char> = Vec::new();
            push_str(&mut e, "--exclude-dir=");
            push_str(&mut e, excluded[i]);
            let ghost before = texts(argv@);
            argv.push(string_of(&e));
            assert(excluded@.take(i + 1).drop_last() =~= excluded@.take(i as int));
            assert(texts(argv@) =~= before.push("--exclude-dir="@ + excluded@[i as int]@));
            i = i + 1;
        }
        assert(excluded@.take(excluded@.len() as int) =~= excluded@);
    }
    let ghost a6 = texts(argv@);
    assert(a6 =~= a4 + (if is_dir {
        seq!["-r"@, "--exclude-dir=.git"@, "--exclude-dir=.meta"@] + exclude_args(excluded@)
    } else {
        Seq::<Seq<char>>::empty()
    }));
    argv.push(text_of("--"));
    argv.push(text_of(regex));
    argv.push(text_of(target));
    assert(texts(argv@) =~= a6 + seq!["--"@, regex@, target@]);
    argv
}

/// The answer of `grep` for its exit code (0: matches, 1: none, other: an
/// error) and output. Matches are shown with the project directory prefix
/// (`project_dir` followed by `/`) removed from file names, capped at
/// `MAX_GREP_OUTPUT_BYTES`. The flag tells whether the answer is an error.
pub open spec fn grep_reply_text(
    code: i32,
    stdout: Seq<u8>,
    stderr: Seq<u8>,
    project_dir: Seq<char>,
    regex: Seq<char>,
    path: Seq<char>,
) -> (Seq<char>, bool) {
    if code == 0 {
        (
            replace_all(
                truncated(lossy_decode(stdout), MAX_GREP_OUTPUT_BYTES as nat),
                project_dir + seq!['/'],
                Seq::empty(),
            ),
            false,
        )
    } else if code == 1 {
        ("0 matches for /"@ + regex + "/ in '"@ + path + "'."@, false)
    } else {
        ("grep failed (exit "@ + decimal_int(code as int) + "): "@ + lossy_decode(stderr), true)
    }
}

/// Turns grep's exit code and output into the tool's answer (see
/// `grep_reply_text`).
pub fn grep_reply(
    code: i32,
    stdout: &[u8],
    stderr: &[u8],
    project_dir: &str,
    regex: &str,
    path: &str,
) -> (r: (String, bool))
    ensures
        (r.0@, r.1) == grep_reply_text(code, stdout@, stderr@, project_dir@, regex@, path@),
{
    if code == 0 {
        let out = truncate_grep_output(stdout);
        let s = chars_of(out.as_str());
        let mut prefix = chars_of(project_dir);
        prefix.push('/');
        assert(prefix@ =~= project_dir@ + seq!['/']);
        let empty: Vec<char> = Vec::new();
        assert(empty@ =~= Seq::<char>::empty());
        let cleaned = replace_chars(&s, &prefix, &empty);
        (string_of(&cleaned), false)
    } else if code == 1 {
        let mut m: Vec<char> = Vec::new();
        push_str(&mut m, "0 matches for /");
        push_str(&mut m, regex);
        push_str(&mut m, "/ in '");
        push_str(&mut m, path);
        push_str(&mut m, "'.");
        (string_of(&m), false)
    } else {
        let mut m: Vec<char> = Vec::new();
        push_str(&mut m, "grep failed (exit ");
        push_decimal_i64(&mut m, code as i64);
        push_str(&mut m, "): ");
        let err = utf8_lossy(stderr);
        push_str(&mut m, err.as_str());
        (string_of(&m), true)
    }
}

// ── build reports ───────────────────────────────────────────────────────────

/// Every character of `s` is white space (`s.trim()` would be empty).
pub open spec fn blank(s: Seq<char>) -> bool {
    forall|i: int| 0 <= i < s.len() ==> whitespace(s[i])
}

fn blank_exec(s: &str) -> (r: bool)
    ensures
        r == blank(s@),
{
    let v = chars_of(s);
    let mut i: usize = 0;
    while i < v.len()
        invariant
            i <= v.len(),
            v@ == s@,
            forall|k: int| 0 <= k < i ==> whitespace(v@[k]),
        decreases v.len() - i,
    {
        if !is_whitespace(v[i]) {
            return false;
        }
        i = i + 1;
    }
    true
}

/// The report of a finished build: success (exit code 0) with its output
/// when there is any, or failure with the exit code and each non-blank
/// stream. The flag tells whether the report is an error.
pub open spec fn build_report_text(exit_code: i32, stdout: Seq<char>, stderr: Seq<char>) -> (
    Seq<char>,
    bool,
) {
    if exit_code == 0 {
        (
            if blank(stdout) {
                "Build succeeded."@
            } else {
                "Build succeeded.\n"@ + stdout
            },
            false,
        )
    } else {
        (
            "Build failed (exit code "@ + decimal_int(exit_code as int) + ")."@ + (if blank(
                stdout,
            ) {
                Seq::empty()
            } else {
                "\n\nstdout:\n"@ + stdout
            }) + (if blank(stderr) {
                Seq::empty()
            } else {
                "\n\nstderr:\n"@ + stderr
            }),
            true,
        )
    }
}

/// Reports a finished build (see `build_report_text`).
pub fn build_report(exit_code: i32, stdout: &str, stderr: &str) -> (r: (String, bool))
    ensures
        (r.0@, r.1) == build_report_text(exit_code, stdout@, stderr@),
{
    if exit_code == 0 {
        if blank_exec(stdout) {
            (text_of("Build succeeded."), false)
        } else {
            let mut m: Vec<char> = Vec::new();
            push_str(&mut m, "Build succeeded.\n");
            push_str(&mut m, stdout);
            (string_of(&m), false)
        }
    } else {
        let mut m: Vec<char> = Vec::new();
        push_str(&mut m, "Build failed (exit code ");
        push_decimal_i64(&mut m, exit_code as i64);
        push_str(&mut m, ").");
        let ghost head = m@;
        if !blank_exec(stdout) {
            push_str(&mut m, "\n\nstdout:\n");
            push_str(&mut m, stdout);
        }
        let ghost mid = m@;
        assert(mid =~= head + (if blank(stdout@) {
            Seq::<char>::empty()
        } else {
            "\n\nstdout:\n"@ + stdout@
        }));
        if !blank_exec(stderr) {
            push_str(&mut m, "\n\nstderr:\n");
            push_str(&mut m, stderr);
        }
        assert(m@ =~= mid + (if blank(stderr@) {
            Seq::<char>::empty()
        } else {
            "\n\nstderr:\n"@ + stderr@
        }));
        (string_of(&m), true)
    }
}

// ── commits ─────────────────────────────────────────────────────────────────

/// The answer once a file was written and `git commit` ran: the commit's
/// output, a note that nothing changed when git says "nothing to commit",
/// or git's error. `replaced` is the number of replacements of a
/// `str_replace`, or none for a `put`. The flag tells whether the answer is
/// an error.
pub open spec fn commit_reply_text(
    path: Seq<char>,
    message: Seq<char>,
    replaced: Option<usize>,
    result: Result<Seq<char>, Seq<char>>,
) -> (Seq<char>, bool) {
    let what = match replaced {
        None => "written"@,
        Some(n) => "updated ("@ + decimal(n as nat) + " replacement(s))"@,
    };
    match result {
        Ok(out) => ("File '"@ + path + "' "@ + what + " and committed (message='"@ + message
            + "')."@ + "\n"@ + out, false),
        Err(e) => if contains_seq(e, "nothing to commit"@) {
            (
                "File '"@ + path + "' "@ + match replaced {
                    None => "written (no effective changes to commit)."@,
                    Some(n) => "updated ("@ + decimal(n as nat)
                        + " replacement(s)) — no effective changes to commit."@,
                },
                false,
            )
        } else {
            ("File '"@ + path + "' "@ + match replaced {
                None => "written"@,
                Some(_) => "updated"@,
            } + " but git commit failed: "@ + e, true)
        },
    }
}

/// Answers a write that was committed (see `commit_reply_text`).
pub fn commit_reply(path: &str, message: &str, replaced: Option<usize>, result: &Result<
    String,
    String,
>) -> (r: (String, bool))
    ensures
        (r.0@, r.1) == commit_reply_text(
            path@,
            message@,
            replaced,
            match result {
                Ok(o) => Ok(o@),
                Err(e) => Err(e@),
            },
        ),
{
    let mut m: Vec<char> = Vec::new();
    push_str(&mut m, "File '");
    push_str(&mut m, path);
    push_str(&mut m, "' ");
    match result {
        Ok(out) => {
            let ghost head = m@;
            match replaced {
                None => push_str(&mut m, "written"),
                Some(n) => {
                    push_str(&mut m, "updated (");
                    push_decimal(&mut m, n as u128);
                    push_str(&mut m, " replacement(s))");
                },
            }
            push_str(&mut m, " and committed (message='");
            push_str(&mut m, message);
            push_str(&mut m, "').");
            push_str(&mut m, "\n");
            push_str(&mut m, out.as_str());
            (string_of(&m), false)
        },
        Err(e) => {
            let ev = chars_of(e.as_str());
            let nothing = chars_of("nothing to commit");
            if contains(&ev, &nothing) {
                match replaced {
                    None => push_str(&mut m, "written (no effective changes to commit)."),
                    Some(n) => {
                        push_str(&mut m, "updated (");
                        push_decimal(&mut m, n as u128);
                        push_str(&mut m, " replacement(s)) — no effective changes to commit.");
                    },
                }
                (string_of(&m), false)
            } else {
                match replaced {
                    None => push_str(&mut m, "written"),
                    Some(_) => push_str(&mut m, "updated"),
                }
                push_str(&mut m, " but git commit failed: ");
                push_str(&mut m, e.as_str());
                (string_of(&m), true)
            }
        },
    }
}

// ── str_replace ─────────────────────────────────────────────────────────────

/// What a `str_replace` does with a file's text.
pub enum EditPlan {
    /// The edit is refused with this message.
    Refuse(String),
    /// The edit would not change the file; this message says so.
    Unchanged(String),
    /// Write `text`, which has `replaced` replacements.
    Write { text: String, replaced: usize },
}

/// The refusal for a replacement that could not be made.
pub open spec fn refusal_text(path: Seq<char>, orig: Seq<char>, old: Seq<char>, occurrence: int) -> Seq<
    char,
> {
    let ms = match_positions(orig, old);
    if ms.len() == 0 {
        "404: old_str not found in '"@ + path
            + "' (0 occurrences). Matching is BYTE-BY-BYTE — whitespace, tabs vs spaces, and line endings must match exactly."@
            + crate::edit::diagnosis(orig, old)
            + " Re-fetch the file with `get` and copy the bytes verbatim."@
    } else if occurrence == 0 {
        "409: old_str is not unique in '"@ + path + "' ("@ + decimal(ms.len())
            + " occurrences) — pass occurrence=-1 to replace all, or 1.."@ + decimal(ms.len())
            + " to pick one."@
    } else if occurrence > ms.len() {
        "400: occurrence "@ + decimal(occurrence as nat) + " out of range — file has "@ + decimal(
            ms.len(),
        ) + " occurrence(s) of old_str."@
    } else {
        "400: invalid occurrence "@ + decimal_int(occurrence) + " — use 0 (unique), -1 (all), or 1..n."@
    }
}

/// The plan of a `str_replace` of `old` by `new` in `orig` at `path`: the
/// replacement `replacement` describes, refused when it cannot be made or
/// when the new text exceeds `MAX_PUT_FILE_SZ` bytes, and reported as
/// unchanged when the text stays the same.
pub open spec fn edit_plan_of(
    path: Seq<char>,
    orig: Seq<char>,
    old: Seq<char>,
    new: Seq<char>,
    occurrence: int,
) -> (Option<Seq<char>>, Option<Seq<char>>, Option<(Seq<char>, nat)>) {
    match replacement(orig, old, new, occurrence) {
        None => (Some(refusal_text(path, orig, old, occurrence)), None, None),
        Some((text, n)) => if utf8_len(text) > MAX_PUT_FILE_SZ {
            (
                Some(
                    "413: resulting content is "@ + decimal(utf8_len(text))
                        + " bytes, exceeds max "@ + decimal(MAX_PUT_FILE_SZ as nat) + "."@,
                ),
                None,
                None,
            )
        } else if text == orig {
            (None, Some("File '"@ + path + "' unchanged (new_str is identical to old_str)."@), None)
        } else {
            (None, None, Some((text, n)))
        },
    }
}

/// The view of an edit plan as (refusal, unchanged message, write).
pub open spec fn plan_view(p: EditPlan) -> (Option<Seq<char>>, Option<Seq<char>>, Option<
    (Seq<char>, nat),
>) {
    match p {
        EditPlan::Refuse(m) => (Some(m@), None, None),
        EditPlan::Unchanged(m) => (None, Some(m@), None),
        EditPlan::Write { text, replaced } => (None, None, Some((text@, replaced as nat))),
    }
}

/// The UTF-8 length of `s` in bytes.
fn utf8_len_exec(s: &Vec<char>) -> (r: u128)
    ensures
        r == utf8_len(s@),
{
    let mut acc: u128 = 0;
    let mut i: usize = 0;
    assert(s@.take(0) =~= Seq::<char>::empty());
    while i < s.len()
        invariant
            i <= s.len(),
            acc == utf8_len(s@.take(i as int)),
            acc <= 4 * i,
        decreases s.len() - i,
    {
        assert(s@.take(i + 1).drop_last() =~= s@.take(i as int));
        acc = acc + char_width(s[i]) as u128;
        i = i + 1;
    }
    assert(s@.take(s.len() as int) =~= s@);
    acc
}

/// Checks the text a `str_replace` must find: it may not be empty.
pub fn check_old_str(old_str: &str) -> (r: Result<(), String>)
    ensures
        old_str@.len() == 0 ==> (r matches Err(m) && m@ == "400: old_str must not be empty."@),
        old_str@.len() > 0 ==> r is Ok,
{
    if old_str.is_empty() {
        Err(text_of("400: old_str must not be empty."))
    } else {
        Ok(())
    }
}

/// Plans a `str_replace` edit of the file at `path` whose text is
/// `original` (see `edit_plan_of`).
pub fn edit_plan(path: &str, original: &str, old_str: &str, new_str: &str, occurrence: i64) -> (r:
    EditPlan)
    requires
        old_str@.len() > 0,
    ensures
        plan_view(r) == edit_plan_of(path@, original@, old_str@, new_str@, occurrence as int),
{
    match plan_replacement(original, old_str, new_str, occurrence) {
        Err(err) => {
            let mut m: Vec<char> = Vec::new();
            match err {
                ReplaceError::NotFound { hint } => {
                    push_str(&mut m, "404: old_str not found in '");
                    push_str(&mut m, path);
                    push_str(
                        &mut m,
                        "' (0 occurrences). Matching is BYTE-BY-BYTE — whitespace, tabs vs spaces, and line endings must match exactly.",
                    );
                    push_str(&mut m, hint.as_str());
                    push_str(&mut m, " Re-fetch the file with `get` and copy the bytes verbatim.");
                },
                ReplaceError::NotUnique { count } => {
                    push_str(&mut m, "409: old_str is not unique in '");
                    push_str(&mut m, path);
                    push_str(&mut m, "' (");
                    push_decimal(&mut m, count as u128);
                    push_str(
                        &mut m,
                        " occurrences) — pass occurrence=-1 to replace all, or 1..",
                    );
                    push_decimal(&mut m, count as u128);
                    push_str(&mut m, " to pick one.");
                },
                ReplaceError::OutOfRange { requested, count } => {
                    push_str(&mut m, "400: occurrence ");
                    push_decimal(&mut m, requested as u128);
                    push_str(&mut m, " out of range — file has ");
                    push_decimal(&mut m, count as u128);
                    push_str(&mut m, " occurrence(s) of old_str.");
                },
                ReplaceError::InvalidOccurrence { occurrence: o } => {
                    push_str(&mut m, "400: invalid occurrence ");
                    push_decimal_i64(&mut m, o);
                    push_str(&mut m, " — use 0 (unique), -1 (all), or 1..n.");
                },
            }
            EditPlan::Refuse(string_of(&m))
        },
        Ok(Replacement { text, replaced }) => {
            let tv = chars_of(text.as_str());
            let n = utf8_len_exec(&tv);
            if n > MAX_PUT_FILE_SZ as u128 {
                let mut m: Vec<char> = Vec::new();
                push_str(&mut m, "413: resulting content is ");
                push_decimal(&mut m, n);
                push_str(&mut m, " bytes, exceeds max ");
                push_decimal(&mut m, MAX_PUT_FILE_SZ as u128);
                push_str(&mut m, ".");
                return EditPlan::Refuse(string_of(&m));
            }
            let ov = chars_of(original);
            if chars_eq(&tv, &ov) {
                let mut m: Vec<char> = Vec::new();
                push_str(&mut m, "File '");
                push_str(&mut m, path);
                push_str(&mut m, "' unchanged (new_str is identical to old_str).");
                return EditPlan::Unchanged(string_of(&m));
            }
            EditPlan::Write { text, replaced }
        },
    }
}

} // verus!

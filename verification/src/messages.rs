//! Texts that reach git or the client: commit messages, truncated command
//! output, and the checks every write request passes before it touches the
//! disk.

use vstd::prelude::*;
use crate::constants::{MAX_GET_FILE_SZ, MAX_GIT_OUTPUT_BYTES, MAX_GREP_OUTPUT_BYTES, MAX_PUT_FILE_SZ};
use crate::paths::{
    depth_of, first_name, is_ascii_alnum, is_excluded_path, path_depth, put_path_error,
    validate_put_path,
};
use crate::text::{
    chars_of, decimal, join, join_parts, lemma_split_on_nonempty, lossy_decode, non_empty,
    non_empty_parts, push_decimal, push_str, split_chars, split_on, string_of, utf8_len,
    utf8_lossy, utf8_prefix, utf8_prefix_chars,
};

verus! {

// ── commit messages ─────────────────────────────────────────────────────────

/// The characters a commit message keeps: `[a-zA-Z0-9-]` and space.
pub open spec fn is_msg_char(c: char) -> bool {
    is_ascii_alnum(c) || c == '-' || c == ' '
}

/// The characters of `s` that a commit message keeps, in order.
pub open spec fn msg_filtered(s: Seq<char>) -> Seq<char> {
    s.filter(|c: char| is_msg_char(c))
}

/// `s` without leading and trailing spaces and with every run of spaces
/// collapsed to one.
pub open spec fn collapse_spaces(s: Seq<char>) -> Seq<char> {
    join(non_empty(split_on(s, ' ')), seq![' '])
}

/// The sanitised commit message: kept characters only, spaces collapsed and
/// trimmed, at most 120 characters.
pub open spec fn sanitized(msg: Seq<char>) -> Seq<char> {
    let c = collapse_spaces(msg_filtered(msg));
    if c.len() > 120 {
        c.take(120)
    } else {
        c
    }
}

fn msg_filtered_exec(s: &Vec<char>) -> (r: Vec<char>)
    ensures
        r@ == msg_filtered(s@),
{
    let mut out: Vec<char> = Vec::new();
    let mut i: usize = 0;
    assert(s@.take(0) =~= Seq::<char>::empty());
    reveal_with_fuel(Seq::<_>::filter, 1);
    while i < s.len()
        invariant
            i <= s.len(),
            out@ == msg_filtered(s@.take(i as int)),
        decreases s.len() - i,
    {
        assert(s@.take(i + 1).drop_last() =~= s@.take(i as int));
        assert(s@.take(i + 1).last() == s@[i as int]);
        reveal_with_fuel(Seq::<_>::filter, 1);
        let c = s[i];
        if ('a' <= c && c <= 'z') || ('A' <= c && c <= 'Z') || ('0' <= c && c <= '9') || c == '-'
            || c == ' ' {
            out.push(c);
        }
        i = i + 1;
    }
    assert(s@.take(s.len() as int) =~= s@);
    out
}

/// Keep only `a-zA-Z0-9-` and space, collapse runs of spaces to one, trim
/// leading/trailing spaces, then truncate to 120 characters.
pub fn sanitize_message(msg: &str) -> (r: String)
    ensures
        r@ == sanitized(msg@),
{
    let s = chars_of(msg);
    let filtered = msg_filtered_exec(&s);
    let pieces = split_chars(&filtered, ' ');
    assert(pieces@.map_values(|p: Vec<char>| p@) =~= split_on(filtered@, ' '));
    let words = non_empty_parts(&pieces);
    assert(words@.map_values(|p: Vec<char>| p@) =~= non_empty(split_on(filtered@, ' ')));
    let space = vec![' '];
    assert(space@ =~= seq![' ']);
    let collapsed = join_parts(&words, &space);
    if collapsed.len() > 120 {
        let mut cut: Vec<char> = Vec::new();
        let mut i: usize = 0;
        while i < 120
            invariant
                i <= 120,
                collapsed@.len() > 120,
                cut@ == collapsed@.take(i as int),
            decreases 120 - i,
        {
            cut.push(collapsed[i]);
            i = i + 1;
            assert(cut@ =~= collapsed@.take(i as int));
        }
        string_of(&cut)
    } else {
        string_of(&collapsed)
    }
}

/// Sanitises a raw commit message; one that keeps no character is refused.
pub fn commit_message(raw: &str) -> (r: Result<String, String>)
    ensures
        sanitized(raw@).len() > 0 ==> (r matches Ok(m) && m@ == sanitized(raw@)),
        sanitized(raw@).len() == 0 ==> (r matches Err(e) && e@
            == "400: commit message is empty after sanitisation (only a-zA-Z0-9- and spaces are kept)."@),
{
    let m = sanitize_message(raw);
    if m.as_str().is_empty() {
        Err(
            string_of(
                &chars_of(
                    "400: commit message is empty after sanitisation (only a-zA-Z0-9- and spaces are kept).",
                ),
            ),
        )
    } else {
        Ok(m)
    }
}

// ── truncated command output ────────────────────────────────────────────────

/// `s` cut at the longest prefix whose UTF-8 encoding fits in `max` bytes,
/// with a note of the cut appended, when the whole does not fit.
pub open spec fn truncated(s: Seq<char>, max: nat) -> Seq<char> {
    if utf8_len(s) <= max {
        s
    } else {
        utf8_prefix(s, max) + "\n... (truncated at "@ + decimal(max) + " bytes)"@
    }
}

/// The longest prefix that fits is the whole text exactly when it fits.
proof fn lemma_utf8_prefix_whole(s: Seq<char>, max: nat)
    ensures
        utf8_prefix(s, max).len() <= s.len(),
        utf8_prefix(s, max).len() == s.len() <==> utf8_len(s) <= max,
    decreases s.len(),
{
    if utf8_len(s) > max {
        lemma_utf8_prefix_whole(s.drop_last(), max);
    }
}

/// The longest prefix that fits is a prefix of `s` and fits.
proof fn lemma_utf8_prefix_fits(s: Seq<char>, max: nat)
    ensures
        utf8_len(utf8_prefix(s, max)) <= max,
        s.take(utf8_prefix(s, max).len() as int) == utf8_prefix(s, max),
    decreases s.len(),
{
    lemma_utf8_prefix_whole(s, max);
    if utf8_len(s) > max {
        let t = s.drop_last();
        lemma_utf8_prefix_fits(t, max);
        lemma_utf8_prefix_whole(t, max);
        assert(s.take(utf8_prefix(t, max).len() as int) =~= t.take(utf8_prefix(t, max).len() as int));
    } else {
        assert(s.take(s.len() as int) =~= s);
    }
}

/// Capped output is the whole text when it fits; otherwise it is a proper
/// prefix of the text that fits in `max` bytes, cut at a character
/// boundary, followed by the note of the cut.
pub proof fn law_truncation_keeps_fitting_prefix(s: Seq<char>, max: nat)
    ensures
        utf8_len(s) <= max ==> truncated(s, max) == s,
        utf8_len(s) > max ==> ({
            let kept = utf8_prefix(s, max);
            &&& kept.len() < s.len()
            &&& s.take(kept.len() as int) == kept
            &&& utf8_len(kept) <= max
            &&& truncated(s, max) == kept + "\n... (truncated at "@ + decimal(max) + " bytes)"@
        }),
{
    lemma_utf8_prefix_whole(s, max);
    lemma_utf8_prefix_fits(s, max);
}

/// Decodes `bytes` lossily and caps the text at `max` bytes (see
/// `truncated`), cutting at a character boundary.
pub fn truncate_to(bytes: &[u8], max: usize) -> (r: String)
    requires
        max < usize::MAX - 4,
    ensures
        r@ == truncated(lossy_decode(bytes@), max as nat),
{
    let text = utf8_lossy(bytes);
    let s = chars_of(text.as_str());
    let prefix = utf8_prefix_chars(&s, max);
    proof {
        lemma_utf8_prefix_whole(s@, max as nat);
    }
    if prefix.len() == s.len() {
        return text;
    }
    let mut out = prefix;
    push_str(&mut out, "\n... (truncated at ");
    push_decimal(&mut out, max as u128);
    push_str(&mut out, " bytes)");
    string_of(&out)
}

/// Lossy-converts raw git output to text and caps it at
/// `MAX_GIT_OUTPUT_BYTES`, appending a sentinel if truncation happened.
/// Cuts at a UTF-8 character boundary.
pub fn truncate_output(bytes: &[u8]) -> (r: String)
    ensures
        r@ == truncated(lossy_decode(bytes@), MAX_GIT_OUTPUT_BYTES as nat),
{
    truncate_to(bytes, MAX_GIT_OUTPUT_BYTES)
}

/// Lossy-converts raw grep output to text and caps it at
/// `MAX_GREP_OUTPUT_BYTES`, as `truncate_output` does.
pub fn truncate_grep_output(bytes: &[u8]) -> (r: String)
    ensures
        r@ == truncated(lossy_decode(bytes@), MAX_GREP_OUTPUT_BYTES as nat),
{
    truncate_to(bytes, MAX_GREP_OUTPUT_BYTES)
}

// ── checks on a path that is about to be written ────────────────────────────

/// How a tool writes at a path: a file it writes or edits, or a directory
/// it creates.
#[derive(Clone, Copy, Debug, PartialEq, Eq)]
pub enum WriteKind {
    File,
    Directory,
}

/// One of the texts of `list` equals `f`.
pub open spec fn listed(list: Seq<&str>, f: Seq<char>) -> bool {
    exists|k: int| 0 <= k < list.len() && list[k]@ == f
}

/// Why writing at `path` is refused, if it is: it lies in a build-artifact
/// directory, in `.meta/`, is not a valid put path, or is deeper than
/// `max_depth`.
pub open spec fn write_path_error(
    path: Seq<char>,
    excluded: Seq<&str>,
    max_depth: nat,
    kind: WriteKind,
) -> Option<Seq<char>> {
    if first_name(path) matches Some(f) && listed(excluded, f) {
        Some(
            "400: '"@ + path + "' is inside a build-artifact directory and cannot be "@ + (if kind
                == WriteKind::File {
                "written"@
            } else {
                "created"@
            }) + " directly."@,
        )
    } else if first_name(path) == Some(".meta"@) {
        Some("400: '"@ + path + "' is inside '.meta/' which is reserved for project metadata."@)
    } else if put_path_error(path) is Some {
        Some("400: invalid path — "@ + put_path_error(path)->0)
    } else if depth_of(path) > max_depth {
        Some(
            "400: "@ + (if kind == WriteKind::File {
                "path"@
            } else {
                "directory"@
            }) + " depth "@ + decimal(depth_of(path)) + " exceeds project max_depth "@ + decimal(
                max_depth,
            ) + "."@,
        )
    } else {
        None
    }
}

/// The checks `put`, `mkdir` and `str_replace` make on the requested path
/// before touching the disk (see `write_path_error`), so that none of them
/// can be used to sidestep the others.
pub fn check_write_path(path: &str, excluded: &[&str], max_depth: usize, kind: WriteKind) -> (r:
    Result<(), String>)
    ensures
        match write_path_error(path@, excluded@, max_depth as nat, kind) {
            None => r is Ok,
            Some(e) => r matches Err(m) && m@ == e,
        },
{
    if is_excluded_path(path, excluded) {
        let mut msg: Vec<char> = Vec::new();
        push_str(&mut msg, "400: '");
        push_str(&mut msg, path);
        push_str(&mut msg, "' is inside a build-artifact directory and cannot be ");
        match kind {
            WriteKind::File => push_str(&mut msg, "written"),
            WriteKind::Directory => push_str(&mut msg, "created"),
        }
        push_str(&mut msg, " directly.");
        return Err(string_of(&msg));
    }
    let meta: [&str; 1] = [".meta"];
    if is_excluded_path(path, meta.as_slice()) {
        assert(meta@.len() == 1 && meta@[0]@ == ".meta"@);
        let mut msg: Vec<char> = Vec::new();
        push_str(&mut msg, "400: '");
        push_str(&mut msg, path);
        push_str(&mut msg, "' is inside '.meta/' which is reserved for project metadata.");
        return Err(string_of(&msg));
    }
    assert(meta@.len() == 1 && meta@[0]@ == ".meta"@);
    assert(!(first_name(path@) == Some(".meta"@)));
    if let Err(reason) = validate_put_path(path) {
        let mut msg: Vec<char> = Vec::new();
        push_str(&mut msg, "400: invalid path — ");
        push_str(&mut msg, reason.as_str());
        return Err(string_of(&msg));
    }
    let depth = path_depth(path);
    if depth > max_depth {
        let mut msg: Vec<char> = Vec::new();
        push_str(&mut msg, "400: ");
        match kind {
            WriteKind::File => push_str(&mut msg, "path"),
            WriteKind::Directory => push_str(&mut msg, "directory"),
        }
        push_str(&mut msg, " depth ");
        push_decimal(&mut msg, depth as u128);
        push_str(&mut msg, " exceeds project max_depth ");
        push_decimal(&mut msg, max_depth as u128);
        push_str(&mut msg, ".");
        return Err(string_of(&msg));
    }
    Ok(())
}

// ── size and count limits ───────────────────────────────────────────────────

/// Checks the content a `put` would write: at most `MAX_PUT_FILE_SZ` bytes.
pub fn check_put_size(content: &str) -> (r: Result<(), String>)
    ensures
        content.len() <= MAX_PUT_FILE_SZ ==> r is Ok,
        content.len() > MAX_PUT_FILE_SZ ==> (r matches Err(m) && m@ == "413: content is "@
            + decimal(content.len() as nat) + " bytes, exceeds max "@ + decimal(
            MAX_PUT_FILE_SZ as nat,
        ) + "."@),
{
    let n = content.len();
    if n > MAX_PUT_FILE_SZ {
        let mut msg: Vec<char> = Vec::new();
        push_str(&mut msg, "413: content is ");
        push_decimal(&mut msg, n as u128);
        push_str(&mut msg, " bytes, exceeds max ");
        push_decimal(&mut msg, MAX_PUT_FILE_SZ as u128);
        push_str(&mut msg, ".");
        return Err(string_of(&msg));
    }
    Ok(())
}

/// Checks the size on disk of a file `get` would return whole: at most
/// `MAX_GET_FILE_SZ` bytes; a larger one can still be read by lines.
pub fn check_get_size(path: &str, size: u64) -> (r: Result<(), String>)
    ensures
        size <= MAX_GET_FILE_SZ ==> r is Ok,
        size > MAX_GET_FILE_SZ ==> (r matches Err(m) && m@ == "413: file '"@ + path@ + "' is "@
            + decimal(size as nat) + " bytes, exceeds max "@ + decimal(MAX_GET_FILE_SZ as nat)
            + ". Use start_line/end_line to read a slice."@),
{
    if size > MAX_GET_FILE_SZ {
        let mut msg: Vec<char> = Vec::new();
        push_str(&mut msg, "413: file '");
        push_str(&mut msg, path);
        push_str(&mut msg, "' is ");
        push_decimal(&mut msg, size as u128);
        push_str(&mut msg, " bytes, exceeds max ");
        push_decimal(&mut msg, MAX_GET_FILE_SZ as u128);
        push_str(&mut msg, ". Use start_line/end_line to read a slice.");
        return Err(string_of(&msg));
    }
    Ok(())
}

/// Checks that a new file fits the project: `current` files are counted
/// and at most `max_files` are allowed.
pub fn check_file_count(current: usize, max_files: usize) -> (r: Result<(), String>)
    ensures
        current < max_files ==> r is Ok,
        current >= max_files ==> (r matches Err(m) && m@ == "400: project file limit reached ("@
            + decimal(current as nat) + "/"@ + decimal(max_files as nat)
            + "). Increase the size preset or remove unused files."@),
{
    if current >= max_files {
        let mut msg: Vec<char> = Vec::new();
        push_str(&mut msg, "400: project file limit reached (");
        push_decimal(&mut msg, current as u128);
        push_str(&mut msg, "/");
        push_decimal(&mut msg, max_files as u128);
        push_str(&mut msg, "). Increase the size preset or remove unused files.");
        return Err(string_of(&msg));
    }
    Ok(())
}

// ── laws ────────────────────────────────────────────────────────────────────

/// No tool writes into `.meta/` or into a build-artifact directory at the
/// top of the project: a path whose first name is `.meta` or one of
/// `excluded` is always refused, whatever the depth limit.
pub proof fn law_reserved_directories_are_never_written(
    path: Seq<char>,
    excluded: Seq<&str>,
    max_depth: nat,
    kind: WriteKind,
)
    requires
        first_name(path) == Some(".meta"@) || (first_name(path) matches Some(f) && listed(
            excluded,
            f,
        )),
    ensures
        write_path_error(path, excluded, max_depth, kind) is Some,
{
}

/// A character a commit message keeps other than the space:
/// `[a-zA-Z0-9-]`.
pub open spec fn is_word_char(c: char) -> bool {
    is_ascii_alnum(c) || c == '-'
}

/// Some character of `s` is a word character.
pub open spec fn has_word_char(s: Seq<char>) -> bool {
    exists|i: int| 0 <= i < s.len() && is_word_char(#[trigger] s[i])
}

/// Some character of `s` is not a space.
pub open spec fn has_non_space(s: Seq<char>) -> bool {
    exists|i: int| 0 <= i < s.len() && #[trigger] s[i] != ' '
}

proof fn lemma_filtered_words(s: Seq<char>)
    ensures
        has_non_space(msg_filtered(s)) == has_word_char(s),
    decreases s.len(),
{
    reveal_with_fuel(Seq::<_>::filter, 1);
    if s.len() > 0 {
        let t = s.drop_last();
        lemma_filtered_words(t);
        let ft = msg_filtered(t);
        let fs = msg_filtered(s);
        assert(s.filter(|c: char| is_msg_char(c)) == t.filter(|c: char| is_msg_char(c)) + (if is_msg_char(s.last()) {
            seq![s.last()]
        } else {
            Seq::<char>::empty()
        })) by {
            assert(s.drop_last() =~= t);
            if is_msg_char(s.last()) {
                assert(ft.push(s.last()) =~= ft + seq![s.last()]);
            } else {
                assert(ft =~= ft + Seq::<char>::empty());
            }
        }
        if has_word_char(s) {
            let i = choose|i: int| 0 <= i < s.len() && is_word_char(#[trigger] s[i]);
            if i < t.len() {
                assert(t[i] == s[i]);
                let j = choose|j: int| 0 <= j < ft.len() && #[trigger] ft[j] != ' ';
                assert(fs[j] == ft[j]);
            } else {
                assert(fs[ft.len() as int] == s.last());
            }
        }
        if has_non_space(fs) {
            let j = choose|j: int| 0 <= j < fs.len() && #[trigger] fs[j] != ' ';
            if j < ft.len() {
                assert(fs[j] == ft[j]);
                let i = choose|i: int| 0 <= i < t.len() && is_word_char(#[trigger] t[i]);
                assert(s[i] == t[i]);
            } else {
                assert(s[s.len() - 1] == s.last());
            }
        }
    }
}

proof fn lemma_pieces_of_blank(s: Seq<char>, sep: char)
    ensures
        (non_empty(split_on(s, sep)).len() == 0) == (forall|i: int| 0 <= i < s.len() ==> s[i] == sep),
    decreases s.len(),
{
    if s.len() == 0 {
        let q = split_on(s, sep);
        assert(q.drop_last() =~= Seq::<Seq<char>>::empty());
        assert(non_empty(q.drop_last()).len() == 0);
    } else {
        let t = s.drop_last();
        lemma_pieces_of_blank(t, sep);
        crate::text::lemma_split_on_nonempty(t, sep);
        let r = split_on(t, sep);
        let q = split_on(s, sep);
        if s.last() == sep {
            assert(q.drop_last() =~= r);
            assert(non_empty(q) == non_empty(r));
            if forall|i: int| 0 <= i < t.len() ==> t[i] == sep {
                assert forall|i: int| 0 <= i < s.len() implies s[i] == sep by {
                    if i < t.len() {
                        assert(s[i] == t[i]);
                    }
                }
            } else {
                let i = choose|i: int| 0 <= i < t.len() && t[i] != sep;
                assert(s[i] == t[i]);
            }
        } else {
            assert(q.last().len() > 0);
            assert(non_empty(q) == non_empty(q.drop_last()).push(q.last()));
            assert(s[s.len() - 1] != sep);
        }
    }
}

/// A sanitised commit message is empty exactly when the raw message holds
/// no `[a-zA-Z0-9-]` character, which is when `put` refuses it.
pub proof fn law_sanitized_message_empty(msg: Seq<char>)
    ensures
        (sanitized(msg).len() == 0) == !has_word_char(msg),
{
    let f = msg_filtered(msg);
    lemma_filtered_words(msg);
    lemma_pieces_of_blank(f, ' ');
    let words = non_empty(split_on(f, ' '));
    let pred = |c: char| is_msg_char(c);
    assert forall|i: int| 0 <= i < f.len() implies pred(f[i]) by {
        broadcast use vstd::seq_lib::group_filter_ensures;
        assert(msg.filter(pred)[i] == f[i]);
    }
    crate::text::lemma_split_pieces(f, ' ', pred);
    let pieces = split_on(f, ' ');
    crate::text::lemma_non_empty_from(pieces);
    assert forall|k: int, i: int| 0 <= k < words.len() && 0 <= i < words[k].len() implies words[k][i]
        != ' ' by {
        let j = choose|j: int| 0 <= j < pieces.len() && pieces[j] == words[k];
        assert(words[k][i] == pieces[j][i]);
    }
    lemma_join_words(words);
    if !has_non_space(f) {
        assert forall|i: int| 0 <= i < f.len() implies f[i] == ' ' by {
            if f[i] != ' ' {
                assert(has_non_space(f));
            }
        }
    } else {
        let j = choose|j: int| 0 <= j < f.len() && #[trigger] f[j] != ' ';
        assert(!(forall|i: int| 0 <= i < f.len() ==> f[i] == ' '));
    }
    let c = collapse_spaces(f);
    if c.len() > 120 {
        assert(c.take(120).len() == 120);
    }
}

/// No two neighbouring characters of `s` are both spaces.
pub open spec fn no_double_space(s: Seq<char>) -> bool {
    forall|i: int| #![trigger s[i]] 0 <= i < s.len() - 1 ==> !(s[i] == ' ' && s[i + 1] == ' ')
}

/// Joining non-empty, space-free pieces with single spaces gives a text
/// that neither starts nor ends with a space and has no double space.
proof fn lemma_join_words(parts: Seq<Seq<char>>)
    requires
        forall|k: int| 0 <= k < parts.len() ==> parts[k].len() > 0,
        forall|k: int, i: int| 0 <= k < parts.len() && 0 <= i < parts[k].len() ==> parts[k][i]
            != ' ',
    ensures
        ({
            let j = join(parts, seq![' ']);
            &&& no_double_space(j)
            &&& j.len() > 0 ==> j[0] != ' ' && j[j.len() - 1] != ' '
            &&& parts.len() > 0 ==> j.len() > 0
        }),
    decreases parts.len(),
{
    if parts.len() > 1 {
        lemma_join_words(parts.drop_last());
        let a = join(parts.drop_last(), seq![' ']);
        let l = parts[parts.len() - 1];
        let j = join(parts, seq![' ']);
        assert(j == a + seq![' '] + l);
        assert(j[0] == a[0]);
        assert(j[j.len() - 1] == l[l.len() - 1]);
        assert forall|i: int| #![trigger j[i]] 0 <= i < j.len() - 1 implies !(j[i] == ' ' && j[i + 1] == ' ') by {
            if i < a.len() - 1 {
                assert(j[i] == a[i] && j[i + 1] == a[i + 1]);
            } else if i == a.len() - 1 {
                assert(j[i] == a[a.len() - 1]);
            } else if i == a.len() {
                assert(j[i + 1] == l[0]);
            } else {
                assert(j[i] == l[i - a.len() - 1] && j[i + 1] == l[i - a.len()]);
            }
        }
    } else if parts.len() == 1 {
        let j = join(parts, seq![' ']);
        assert(j == parts[0]);
    }
}

/// A sanitised commit message is at most 120 characters of `[a-zA-Z0-9-]`
/// and space, does not start with a space and never holds two spaces in a
/// row.
pub proof fn law_sanitized_message_shape(msg: Seq<char>)
    ensures
        ({
            let s = sanitized(msg);
            &&& s.len() <= 120
            &&& forall|i: int| 0 <= i < s.len() ==> is_msg_char(#[trigger] s[i])
            &&& s.len() > 0 ==> s[0] != ' '
            &&& no_double_space(s)
        }),
{
    let f = msg_filtered(msg);
    let pred = |c: char| is_msg_char(c);
    assert forall|i: int| 0 <= i < f.len() implies pred(f[i]) by {
        broadcast use vstd::seq_lib::group_filter_ensures;
        assert(msg.filter(pred)[i] == f[i]);
    }
    crate::text::lemma_split_pieces(f, ' ', pred);
    let pieces = split_on(f, ' ');
    crate::text::lemma_non_empty_from(pieces);
    let words = non_empty(pieces);
    assert forall|k: int, i: int| 0 <= k < words.len() && 0 <= i < words[k].len() implies pred(
        words[k][i],
    ) && words[k][i] != ' ' by {
        let j = choose|j: int| 0 <= j < pieces.len() && pieces[j] == words[k];
        assert(words[k][i] == pieces[j][i]);
    }
    crate::text::lemma_join_chars(words, seq![' '], pred);
    lemma_join_words(words);
    let c = collapse_spaces(f);
    let s = sanitized(msg);
    if c.len() > 120 {
        assert forall|i: int| #![trigger s[i]] 0 <= i < s.len() - 1 implies !(s[i] == ' ' && s[i + 1] == ' ') by {
            assert(s[i] == c[i] && s[i + 1] == c[i + 1]);
        }
        assert forall|i: int| 0 <= i < s.len() implies is_msg_char(#[trigger] s[i]) by {
            assert(s[i] == c[i]);
            assert(pred(c[i]));
        }
    } else {
        assert forall|i: int| 0 <= i < s.len() implies is_msg_char(#[trigger] s[i]) by {
            assert(pred(c[i]));
        }
    }
}

} // verus!

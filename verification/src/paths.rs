//! Paths inside a project: how a relative path breaks into components, which
//! paths and names the tools accept, and where a path resolves to.
//!
//! Paths are `/`-separated, as on Unix. A path's components are its
//! `/`-separated pieces without the empty ones (repeated or trailing
//! slashes) and without `.`; what remains is either `..` or a name.

use vstd::prelude::*;
use crate::text::{
    ascii_lower, chars_eq, chars_of, debug_chars, debug_of_chars, is_ascii_text, lowercase, lowercase_of, push_chars,
    push_str, split_chars, split_on, str_eq, string_of,
};

verus! {

// ── components ──────────────────────────────────────────────────────────────

pub open spec fn dot() -> Seq<char> {
    seq!['.']
}

pub open spec fn dotdot() -> Seq<char> {
    seq!['.', '.']
}

/// A path starts at the root when its first character is `/`.
pub open spec fn is_absolute_path(s: Seq<char>) -> bool {
    s.len() > 0 && s[0] == '/'
}

/// The pieces of `segs` that are components: neither empty nor `.`.
pub open spec fn keep_parts(segs: Seq<Seq<char>>) -> Seq<Seq<char>>
    decreases segs.len(),
{
    if segs.len() == 0 {
        segs
    } else if segs.last().len() > 0 && segs.last() != dot() {
        keep_parts(segs.drop_last()).push(segs.last())
    } else {
        keep_parts(segs.drop_last())
    }
}

/// The components of a path, in order: names and `..`.
pub open spec fn path_parts(s: Seq<char>) -> Seq<Seq<char>> {
    keep_parts(split_on(s, '/'))
}

/// The names among `parts` (every component but `..`), in order.
pub open spec fn names_of(parts: Seq<Seq<char>>) -> Seq<Seq<char>>
    decreases parts.len(),
{
    if parts.len() == 0 {
        parts
    } else if parts.last() != dotdot() {
        names_of(parts.drop_last()).push(parts.last())
    } else {
        names_of(parts.drop_last())
    }
}

/// The components of a path.
fn parts_exec(s: &Vec<char>) -> (r: Vec<Vec<char>>)
    ensures
        r@.len() == path_parts(s@).len(),
        forall|k: int| 0 <= k < r@.len() ==> #[trigger] r@[k]@ == path_parts(s@)[k],
{
    let segs = split_chars(s, '/');
    let ghost views = split_on(s@, '/');
    let dot_v = vec!['.'];
    assert(dot_v@ =~= dot());
    let mut out: Vec<Vec<char>> = Vec::new();
    let mut i: usize = 0;
    assert(views.take(0) =~= Seq::<Seq<char>>::empty());
    while i < segs.len()
        invariant
            i <= segs.len(),
            dot_v@ == dot(),
            segs@.len() == views.len(),
            forall|k: int| 0 <= k < segs@.len() ==> #[trigger] segs@[k]@ == views[k],
            out@.len() == keep_parts(views.take(i as int)).len(),
            forall|k: int|
                0 <= k < out@.len() ==> #[trigger] out@[k]@ == keep_parts(views.take(i as int))[k],
        decreases segs.len() - i,
    {
        assert(views.take(i + 1).drop_last() =~= views.take(i as int));
        assert(views.take(i + 1).last() == segs@[i as int]@);
        if segs[i].len() > 0 && !chars_eq(&segs[i], &dot_v) {
            out.push(segs[i].clone());
        }
        i = i + 1;
    }
    assert(views.take(segs.len() as int) =~= views);
    out
}

// ── characters ──────────────────────────────────────────────────────────────

pub open spec fn is_ascii_alnum(c: char) -> bool {
    ('a' <= c && c <= 'z') || ('A' <= c && c <= 'Z') || ('0' <= c && c <= '9')
}

/// The characters a component of a written path may hold: `[._\-a-zA-Z0-9]`.
pub open spec fn is_put_char(c: char) -> bool {
    is_ascii_alnum(c) || c == '.' || c == '_' || c == '-'
}

/// The characters a project name may hold: `[_\-a-zA-Z0-9]`.
pub open spec fn is_name_char(c: char) -> bool {
    is_ascii_alnum(c) || c == '_' || c == '-'
}

/// The characters of `p` that a written path may not hold, in order.
pub open spec fn put_disallowed(p: Seq<char>) -> Seq<char> {
    p.filter(|c: char| !is_put_char(c))
}

/// The characters of `p` that a project name may not hold, in order.
pub open spec fn name_disallowed(p: Seq<char>) -> Seq<char> {
    p.filter(|c: char| !is_name_char(c))
}

fn is_ascii_alnum_exec(c: char) -> (r: bool)
    ensures
        r == is_ascii_alnum(c),
{
    ('a' <= c && c <= 'z') || ('A' <= c && c <= 'Z') || ('0' <= c && c <= '9')
}

fn put_disallowed_exec(p: &Vec<char>) -> (r: Vec<char>)
    ensures
        r@ == put_disallowed(p@),
{
    let mut out: Vec<char> = Vec::new();
    let mut i: usize = 0;
    assert(p@.take(0) =~= Seq::<char>::empty());
    reveal_with_fuel(Seq::<_>::filter, 1);
    while i < p.len()
        invariant
            i <= p.len(),
            out@ == put_disallowed(p@.take(i as int)),
        decreases p.len() - i,
    {
        assert(p@.take(i + 1).drop_last() =~= p@.take(i as int));
        assert(p@.take(i + 1).last() == p@[i as int]);
        reveal_with_fuel(Seq::<_>::filter, 1);
        let c = p[i];
        if !(is_ascii_alnum_exec(c) || c == '.' || c == '_' || c == '-') {
            out.push(c);
        }
        i = i + 1;
    }
    assert(p@.take(p.len() as int) =~= p@);
    out
}

fn name_disallowed_exec(p: &Vec<char>) -> (r: Vec<char>)
    ensures
        r@ == name_disallowed(p@),
{
    let mut out: Vec<char> = Vec::new();
    let mut i: usize = 0;
    assert(p@.take(0) =~= Seq::<char>::empty());
    reveal_with_fuel(Seq::<_>::filter, 1);
    while i < p.len()
        invariant
            i <= p.len(),
            out@ == name_disallowed(p@.take(i as int)),
        decreases p.len() - i,
    {
        assert(p@.take(i + 1).drop_last() =~= p@.take(i as int));
        assert(p@.take(i + 1).last() == p@[i as int]);
        reveal_with_fuel(Seq::<_>::filter, 1);
        let c = p[i];
        if !(is_ascii_alnum_exec(c) || c == '_' || c == '-') {
            out.push(c);
        }
        i = i + 1;
    }
    assert(p@.take(p.len() as int) =~= p@);
    out
}

// ── validating written paths and names ──────────────────────────────────────

/// Why a single component is refused in a written path, if it is.
pub open spec fn part_error(p: Seq<char>) -> Option<Seq<char>> {
    if p == dotdot() {
        Some("'..'' components are not allowed in put paths"@)
    } else if put_disallowed(p).len() > 0 {
        Some(
            "component '"@ + p + "' contains disallowed characters: "@ + debug_of_chars(
                put_disallowed(p),
            ) + " (only a-zA-Z0-9._- are permitted)"@,
        )
    } else {
        None
    }
}

/// The refusal of the first refused component among `parts`, if any.
pub open spec fn first_part_error(parts: Seq<Seq<char>>) -> Option<Seq<char>>
    decreases parts.len(),
{
    if parts.len() == 0 {
        None
    } else {
        match first_part_error(parts.drop_last()) {
            Some(e) => Some(e),
            None => part_error(parts.last()),
        }
    }
}

/// Why a path is refused for writing, if it is: it must be relative and
/// non-empty, hold no `..`, and every name in it must be made of
/// `[._\-a-zA-Z0-9]`.
pub open spec fn put_path_error(s: Seq<char>) -> Option<Seq<char>> {
    if is_absolute_path(s) {
        Some("absolute paths are not allowed"@)
    } else if s.len() == 0 {
        Some("path must not be empty"@)
    } else {
        first_part_error(path_parts(s))
    }
}

/// Once a prefix of `parts` holds a refused component, the first refusal of
/// the whole is that of the prefix.
proof fn lemma_first_error_stable(parts: Seq<Seq<char>>, j: int)
    requires
        0 <= j <= parts.len(),
        first_part_error(parts.take(j)) is Some,
    ensures
        first_part_error(parts) == first_part_error(parts.take(j)),
    decreases parts.len(),
{
    if j == parts.len() {
        assert(parts.take(j) =~= parts);
    } else {
        let t = parts.drop_last();
        assert(t.take(j) =~= parts.take(j));
        lemma_first_error_stable(t, j);
    }
}

/// Validates that every component of a put path contains only
/// `[._\-a-zA-Z0-9]`; empty paths, absolute paths and `..` components are
/// rejected too. The error names the offending component.
pub fn validate_put_path(path: &str) -> (r: Result<(), String>)
    ensures
        match put_path_error(path@) {
            None => r is Ok,
            Some(e) => r matches Err(m) && m@ == e,
        },
{
    let s = chars_of(path);
    if s.len() > 0 && s[0] == '/' {
        return Err(string_of(&chars_of("absolute paths are not allowed")));
    }
    if s.len() == 0 {
        return Err(string_of(&chars_of("path must not be empty")));
    }
    let parts = parts_exec(&s);
    let ghost ps = path_parts(s@);
    let dd = vec!['.', '.'];
    assert(dd@ =~= dotdot());
    let mut i: usize = 0;
    assert(ps.take(0) =~= Seq::<Seq<char>>::empty());
    while i < parts.len()
        invariant
            i <= parts.len(),
            dd@ == dotdot(),
            s@ == path@,
            s@.len() > 0,
            !is_absolute_path(s@),
            ps == path_parts(s@),
            parts@.len() == ps.len(),
            forall|k: int| 0 <= k < parts@.len() ==> #[trigger] parts@[k]@ == ps[k],
            first_part_error(ps.take(i as int)) is None,
        decreases parts.len() - i,
    {
        assert(ps.take(i + 1).drop_last() =~= ps.take(i as int));
        assert(ps.take(i + 1).last() == parts@[i as int]@);
        let p = &parts[i];
        if chars_eq(p, &dd) {
            proof {
                lemma_first_error_stable(ps, i + 1);
            }
            return Err(string_of(&chars_of("'..'' components are not allowed in put paths")));
        }
        let bad = put_disallowed_exec(p);
        if bad.len() > 0 {
            proof {
                lemma_first_error_stable(ps, i + 1);
            }
            let mut msg: Vec<char> = Vec::new();
            push_str(&mut msg, "component '");
            push_chars(&mut msg, p);
            push_str(&mut msg, "' contains disallowed characters: ");
            let shown = debug_chars(&bad);
            push_str(&mut msg, shown.as_str());
            push_str(&mut msg, " (only a-zA-Z0-9._- are permitted)");
            return Err(string_of(&msg));
        }
        i = i + 1;
    }
    assert(ps.take(parts.len() as int) =~= ps);
    Ok(())
}

/// Why a project name is refused, if it is: it must be non-empty and made of
/// `[_\-a-zA-Z0-9]`.
pub open spec fn name_error(s: Seq<char>) -> Option<Seq<char>> {
    if s.len() == 0 {
        Some("name must not be empty"@)
    } else if name_disallowed(s).len() > 0 {
        Some(
            "name contains disallowed characters: "@ + debug_of_chars(name_disallowed(s))
                + " (only a-zA-Z0-9_- are permitted)"@,
        )
    } else {
        None
    }
}

/// Every character of `s` is an ASCII letter of either case, an ASCII
/// digit, `_` or `-`.
pub open spec fn all_name_chars(s: Seq<char>) -> bool {
    forall|i: int|
        0 <= i < s.len() ==> ('a' <= #[trigger] s[i] && s[i] <= 'z') || ('A' <= s[i] && s[i] <= 'Z')
            || ('0' <= s[i] && s[i] <= '9') || s[i] == '_' || s[i] == '-'
}

proof fn lemma_name_disallowed_empty(p: Seq<char>)
    ensures
        (name_disallowed(p).len() == 0) == all_name_chars(p),
    decreases p.len(),
{
    reveal_with_fuel(Seq::<_>::filter, 1);
    if p.len() > 0 {
        let t = p.drop_last();
        lemma_name_disallowed_empty(t);
        assert(p.filter(|c: char| !is_name_char(c)).len() == t.filter(|c: char| !is_name_char(c)).len()
            + (if is_name_char(p.last()) {
            0int
        } else {
            1int
        }));
        if all_name_chars(t) && is_name_char(p.last()) {
            assert forall|i: int| 0 <= i < p.len() implies is_name_char(#[trigger] p[i]) by {
                if i < t.len() {
                    assert(p[i] == t[i]);
                    assert(is_name_char(t[i]));
                }
            }
        }
        if all_name_chars(p) {
            assert forall|i: int| 0 <= i < t.len() implies is_name_char(#[trigger] t[i]) by {
                assert(p[i] == t[i]);
            }
            assert(is_name_char(p[p.len() - 1]));
            assert(all_name_chars(t));
        }
    }
}

/// `validate_name` accepts exactly the non-empty names made of ASCII
/// letters of either case, ASCII digits, `_` and `-`.
pub proof fn law_name_accepted_exactly_when_allowed(s: Seq<char>)
    ensures
        (name_error(s) is None) == (s.len() > 0 && all_name_chars(s)),
{
    lemma_name_disallowed_empty(s);
}

/// Validates a project name: only `[_\-a-zA-Z0-9]` (no dot).
pub fn validate_name(name: &str) -> (r: Result<(), String>)
    ensures
        match name_error(name@) {
            None => r is Ok,
            Some(e) => r matches Err(m) && m@ == e,
        },
{
    let s = chars_of(name);
    if s.len() == 0 {
        return Err(string_of(&chars_of("name must not be empty")));
    }
    let bad = name_disallowed_exec(&s);
    if bad.len() > 0 {
        let mut msg: Vec<char> = Vec::new();
        push_str(&mut msg, "name contains disallowed characters: ");
        let shown = debug_chars(&bad);
        push_str(&mut msg, shown.as_str());
        push_str(&mut msg, " (only a-zA-Z0-9_- are permitted)");
        return Err(string_of(&msg));
    }
    Ok(())
}

// ── depth and top-level directory ───────────────────────────────────────────

/// The number of names in a path.
pub open spec fn depth_of(s: Seq<char>) -> nat {
    names_of(path_parts(s)).len()
}

/// The first name in a path, if it has one.
pub open spec fn first_name(s: Seq<char>) -> Option<Seq<char>> {
    let ns = names_of(path_parts(s));
    if ns.len() > 0 {
        Some(ns[0])
    } else {
        None
    }
}

/// The names of a path, in order.
fn names_exec(s: &Vec<char>) -> (r: Vec<Vec<char>>)
    ensures
        r@.len() == names_of(path_parts(s@)).len(),
        forall|k: int| 0 <= k < r@.len() ==> #[trigger] r@[k]@ == names_of(path_parts(s@))[k],
{
    let parts = parts_exec(s);
    let ghost ps = path_parts(s@);
    let dd = vec!['.', '.'];
    assert(dd@ =~= dotdot());
    let mut out: Vec<Vec<char>> = Vec::new();
    let mut i: usize = 0;
    assert(ps.take(0) =~= Seq::<Seq<char>>::empty());
    while i < parts.len()
        invariant
            i <= parts.len(),
            dd@ == dotdot(),
            parts@.len() == ps.len(),
            forall|k: int| 0 <= k < parts@.len() ==> #[trigger] parts@[k]@ == ps[k],
            out@.len() == names_of(ps.take(i as int)).len(),
            forall|k: int|
                0 <= k < out@.len() ==> #[trigger] out@[k]@ == names_of(ps.take(i as int))[k],
        decreases parts.len() - i,
    {
        assert(ps.take(i + 1).drop_last() =~= ps.take(i as int));
        assert(ps.take(i + 1).last() == parts@[i as int]@);
        if !chars_eq(&parts[i], &dd) {
            out.push(parts[i].clone());
        }
        i = i + 1;
    }
    assert(ps.take(parts.len() as int) =~= ps);
    out
}

/// Returns the number of names in `path` (`..` and `.` do not count).
/// E.g. "src/main.rs" → 2, "src/tools/mod.rs" → 3.
pub fn path_depth(path: &str) -> (r: usize)
    ensures
        r == depth_of(path@),
{
    let s = chars_of(path);
    let names = names_exec(&s);
    names.len()
}

/// The top-level build-artifact directories for a language (given in
/// lower case).
pub open spec fn excluded_dirs(lang: Seq<char>) -> Seq<Seq<char>> {
    if lang == "rust"@ {
        seq!["target"@]
    } else if lang == "java"@ {
        seq!["target"@, "build"@, ".gradle"@]
    } else if lang == "python"@ {
        seq![".venv"@, "venv"@, "__pycache__"@, "dist"@, "build"@]
    } else if lang == "go"@ {
        seq!["vendor"@]
    } else if lang == "javascript"@ || lang == "js"@ || lang == "node"@ || lang == "typescript"@
        || lang == "ts"@ {
        seq!["node_modules"@, "dist"@, "build"@]
    } else if lang == "c"@ || lang == "c++"@ || lang == "cpp"@ {
        seq!["build"@]
    } else if lang == "godot"@ || lang == "godot3d"@ || lang == "godot-3d"@ || lang == "godot2d"@
        || lang == "godot-2d"@ {
        seq![".godot"@]
    } else {
        Seq::empty()
    }
}

/// Whether `s` equals one of the given texts.
fn one_of(s: &str, options: &[&str]) -> (r: bool)
    ensures
        r == exists|k: int| 0 <= k < options@.len() && options@[k]@ == s@,
{
    let mut i: usize = 0;
    while i < options.len()
        invariant
            i <= options@.len(),
            forall|k: int| 0 <= k < i ==> options@[k]@ != s@,
        decreases options@.len() - i,
    {
        if str_eq(options[i], s) {
            return true;
        }
        i = i + 1;
    }
    false
}

/// Returns the top-level build-artifact directories for a language (matched
/// case-insensitively). These directories must not be written to via
/// put/mkdir, and are not counted toward the project file limit.
pub fn excluded_dirs_for(language: &str) -> (r: Vec<&'static str>)
    ensures
        r@.len() == excluded_dirs(lowercase_of(language@)).len(),
        forall|k: int|
            0 <= k < r@.len() ==> #[trigger] r@[k]@ == excluded_dirs(lowercase_of(language@))[k],
        is_ascii_text(language@) ==> r@.len() == excluded_dirs(ascii_lower(language@)).len(),
        is_ascii_text(language@) ==> forall|k: int|
            0 <= k < r@.len() ==> #[trigger] r@[k]@ == excluded_dirs(ascii_lower(language@))[k],
{
    let lower = lowercase(language);
    let l = lower.as_str();
    let r: Vec<&'static str> = if str_eq(l, "rust") {
        vec!["target"]
    } else if str_eq(l, "java") {
        vec!["target", "build", ".gradle"]
    } else if str_eq(l, "python") {
        vec![".venv", "venv", "__pycache__", "dist", "build"]
    } else if str_eq(l, "go") {
        vec!["vendor"]
    } else if str_eq(l, "javascript") || str_eq(l, "js") || str_eq(l, "node") || str_eq(
        l,
        "typescript",
    ) || str_eq(l, "ts") {
        vec!["node_modules", "dist", "build"]
    } else if str_eq(l, "c") || str_eq(l, "c++") || str_eq(l, "cpp") {
        vec!["build"]
    } else if str_eq(l, "godot") || str_eq(l, "godot3d") || str_eq(l, "godot-3d") || str_eq(
        l,
        "godot2d",
    ) || str_eq(l, "godot-2d") {
        vec![".godot"]
    } else {
        Vec::new()
    };
    r
}

/// Returns true when the first name of `path` is one of `excluded`.
/// Only the top-level component is checked — `src/target/foo` is not
/// excluded, but `target/foo` is.
pub fn is_excluded_path(path: &str, excluded: &[&str]) -> (r: bool)
    ensures
        r == (first_name(path@) matches Some(f) && exists|k: int|
            0 <= k < excluded@.len() && excluded@[k]@ == f),
{
    let s = chars_of(path);
    let names = names_exec(&s);
    if names.len() == 0 {
        return false;
    }
    let first = string_of(&names[0]);
    one_of(first.as_str(), excluded)
}

/// Whether counting a project's files skips the directory `name`: `.git`
/// at every level, the build-artifact directories `excluded` at the top
/// level only.
pub fn skipped_when_counting(name: &str, top_level: bool, excluded: &[&str]) -> (r: bool)
    ensures
        r == (name@ == ".git"@ || (top_level && exists|k: int|
            0 <= k < excluded@.len() && excluded@[k]@ == name@)),
{
    if str_eq(name, ".git") {
        return true;
    }
    top_level && one_of(name, excluded)
}

// ── resolving a path under a base directory ─────────────────────────────────

/// The names that `parts` leaves after each `..` removes the name before
/// it, or nothing when a `..` has no name left to remove.
pub open spec fn resolve(parts: Seq<Seq<char>>) -> Option<Seq<Seq<char>>>
    decreases parts.len(),
{
    if parts.len() == 0 {
        Some(Seq::empty())
    } else {
        match resolve(parts.drop_last()) {
            None => None,
            Some(st) => if parts.last() == dotdot() {
                if st.len() == 0 {
                    None
                } else {
                    Some(st.drop_last())
                }
            } else {
                Some(st.push(parts.last()))
            },
        }
    }
}

/// Once a prefix of `parts` climbs above its start, so does the whole.
proof fn lemma_resolve_failure_stable(parts: Seq<Seq<char>>, j: int)
    requires
        0 <= j <= parts.len(),
        resolve(parts.take(j)) is None,
    ensures
        resolve(parts) is None,
    decreases parts.len(),
{
    if j == parts.len() {
        assert(parts.take(j) =~= parts);
    } else {
        let t = parts.drop_last();
        assert(t.take(j) =~= parts.take(j));
        lemma_resolve_failure_stable(t, j);
    }
}

/// `base` extended by the component `part`, with a `/` between them unless
/// `base` is empty or already ends in one.
pub open spec fn push_path(base: Seq<char>, part: Seq<char>) -> Seq<char> {
    if base.len() == 0 {
        part
    } else if base.last() == '/' {
        base + part
    } else {
        base + seq!['/'] + part
    }
}

/// `base` extended by the component `part` (as `PathBuf::push` does for a
/// relative component).
pub fn join_path(base: &str, part: &str) -> (r: String)
    ensures
        r@ == push_path(base@, part@),
{
    let mut out = chars_of(base);
    if out.len() > 0 && out[out.len() - 1] != '/' {
        out.push('/');
    }
    push_str(&mut out, part);
    string_of(&out)
}

/// `base` extended by each of `parts` in turn.
pub open spec fn push_all(base: Seq<char>, parts: Seq<Seq<char>>) -> Seq<char>
    decreases parts.len(),
{
    if parts.len() == 0 {
        base
    } else {
        push_path(push_all(base, parts.drop_last()), parts.last())
    }
}

/// Where `requested` leads from `base`, or nothing when it is absolute or
/// climbs above `base`.
pub open spec fn safe_target(base: Seq<char>, requested: Seq<char>) -> Option<Seq<char>> {
    if is_absolute_path(requested) {
        None
    } else {
        match resolve(path_parts(requested)) {
            None => None,
            Some(st) => Some(push_all(base, st)),
        }
    }
}

/// Resolves `requested` relative to `base`, rejecting any path that would
/// escape `base` (absolute paths, leading `..`, embedded `..` that pops
/// above `base`). Returns `None` on any violation.
pub fn safe_path(base: &str, requested: &str) -> (r: Option<String>)
    ensures
        match safe_target(base@, requested@) {
            None => r is None,
            Some(t) => r matches Some(p) && p@ == t,
        },
{
    let req = chars_of(requested);
    if req.len() > 0 && req[0] == '/' {
        return None;
    }
    let parts = parts_exec(&req);
    let ghost ps = path_parts(req@);
    let dd = vec!['.', '.'];
    assert(dd@ =~= dotdot());
    let mut stack: Vec<Vec<char>> = Vec::new();
    let mut i: usize = 0;
    assert(ps.take(0) =~= Seq::<Seq<char>>::empty());
    while i < parts.len()
        invariant
            i <= parts.len(),
            dd@ == dotdot(),
            ps == path_parts(req@),
            req@ == requested@,
            !is_absolute_path(req@),
            parts@.len() == ps.len(),
            forall|k: int| 0 <= k < parts@.len() ==> #[trigger] parts@[k]@ == ps[k],
            resolve(ps.take(i as int)) matches Some(st) && stack@.len() == st.len() && (forall|
                k: int,
            | 0 <= k < stack@.len() ==> #[trigger] stack@[k]@ == st[k]),
        decreases parts.len() - i,
    {
        assert(ps.take(i + 1).drop_last() =~= ps.take(i as int));
        assert(ps.take(i + 1).last() == parts@[i as int]@);
        let ghost st = resolve(ps.take(i as int))->0;
        if chars_eq(&parts[i], &dd) {
            if stack.len() == 0 {
                proof {
                    lemma_resolve_failure_stable(ps, i + 1);
                }
                return None;
            }
            stack.pop();
            assert forall|k: int| 0 <= k < stack@.len() implies #[trigger] stack@[k]@
                == st.drop_last()[k] by {
                assert(st.drop_last()[k] == st[k]);
            }
        } else {
            stack.push(parts[i].clone());
        }
        i = i + 1;
    }
    assert(ps.take(parts.len() as int) =~= ps);
    let ghost st = resolve(ps)->0;
    let mut out = chars_of(base);
    let mut j: usize = 0;
    assert(st.take(0) =~= Seq::<Seq<char>>::empty());
    while j < stack.len()
        invariant
            j <= stack@.len(),
            stack@.len() == st.len(),
            forall|k: int| 0 <= k < stack@.len() ==> #[trigger] stack@[k]@ == st[k],
            out@ == push_all(base@, st.take(j as int)),
        decreases stack@.len() - j,
    {
        assert(st.take(j + 1).drop_last() =~= st.take(j as int));
        assert(st.take(j + 1).last() == stack@[j as int]@);
        if out.len() > 0 && out[out.len() - 1] != '/' {
            out.push('/');
        }
        push_chars(&mut out, &stack[j]);
        j = j + 1;
    }
    assert(st.take(stack.len() as int) =~= st);
    Some(string_of(&out))
}

// ── file kinds ──────────────────────────────────────────────────────────────

/// What `symlink_metadata` reports a path to be.
#[derive(Clone, Copy, Debug, PartialEq, Eq)]
pub enum FileKind {
    File,
    Dir,
    Symlink,
    /// A device, FIFO, socket or anything else.
    Special,
}

/// Verifies that a path, whose kind `stat` reports without following
/// symbolic links, is a plain regular file or a plain directory. Returns
/// `Err` when it could not be inspected, and for symlinks, device files,
/// FIFOs, sockets or anything else exotic. `display` names the path in the
/// message.
pub fn check_is_regular(stat: &Result<FileKind, String>, display: &str) -> (r: Result<(), String>)
    ensures
        match stat {
            Err(e) => r matches Err(m) && m@ == "cannot stat '"@ + display@ + "': "@ + e@,
            Ok(FileKind::Symlink) => r matches Err(m) && m@ == "'"@ + display@
                + "' is a symbolic link — only regular files and directories are allowed"@,
            Ok(FileKind::Special) => r matches Err(m) && m@ == "'"@ + display@
                + "' is a special file (device/FIFO/socket) — only regular files and directories are allowed"@,
            Ok(_) => r is Ok,
        },
{
    match stat {
        Err(e) => {
            let mut msg: Vec<char> = Vec::new();
            push_str(&mut msg, "cannot stat '");
            push_str(&mut msg, display);
            push_str(&mut msg, "': ");
            push_str(&mut msg, e.as_str());
            Err(string_of(&msg))
        },
        Ok(FileKind::Symlink) => {
            let mut msg: Vec<char> = Vec::new();
            push_str(&mut msg, "'");
            push_str(&mut msg, display);
            push_str(
                &mut msg,
                "' is a symbolic link — only regular files and directories are allowed",
            );
            Err(string_of(&msg))
        },
        Ok(FileKind::Special) => {
            let mut msg: Vec<char> = Vec::new();
            push_str(&mut msg, "'");
            push_str(&mut msg, display);
            push_str(
                &mut msg,
                "' is a special file (device/FIFO/socket) — only regular files and directories are allowed",
            );
            Err(string_of(&msg))
        },
        Ok(_) => Ok(()),
    }
}

// ── laws ────────────────────────────────────────────────────────────────────

/// A name that stays inside the directory it is appended to: non-empty, not
/// `.` or `..`, and without `/`.
pub open spec fn is_plain_name(p: Seq<char>) -> bool {
    p.len() > 0 && p != dot() && p != dotdot() && forall|i: int| 0 <= i < p.len() ==> p[i] != '/'
}

/// The pieces that `split_on` yields never hold the separator.
proof fn lemma_split_pieces_lack_sep(s: Seq<char>, sep: char)
    ensures
        forall|k: int, i: int|
            0 <= k < split_on(s, sep).len() && 0 <= i < split_on(s, sep)[k].len() ==> split_on(
                s,
                sep,
            )[k][i] != sep,
    decreases s.len(),
{
    if s.len() > 0 {
        lemma_split_pieces_lack_sep(s.drop_last(), sep);
        crate::text::lemma_split_on_nonempty(s.drop_last(), sep);
        let r = split_on(s.drop_last(), sep);
        if s.last() != sep {
            assert forall|k: int, i: int|
                0 <= k < split_on(s, sep).len() && 0 <= i < split_on(s, sep)[k].len() implies split_on(
                s,
                sep,
            )[k][i] != sep by {
                if k == r.len() - 1 {
                    assert(split_on(s, sep)[k] == r.last().push(s.last()));
                    if i < r.last().len() {
                        assert(r.last()[i] == r[k][i]);
                    }
                } else {
                    assert(split_on(s, sep)[k] == r[k]);
                }
            }
        } else {
            assert forall|k: int, i: int|
                0 <= k < split_on(s, sep).len() && 0 <= i < split_on(s, sep)[k].len() implies split_on(
                s,
                sep,
            )[k][i] != sep by {
                if k < r.len() {
                    assert(split_on(s, sep)[k] == r[k]);
                }
            }
        }
    }
}

/// The components `keep_parts` keeps come from its input and are neither
/// empty nor `.`.
proof fn lemma_keep_parts_from(segs: Seq<Seq<char>>)
    ensures
        forall|k: int|
            0 <= k < keep_parts(segs).len() ==> keep_parts(segs)[k].len() > 0 && keep_parts(
                segs,
            )[k] != dot() && exists|j: int| 0 <= j < segs.len() && segs[j] == keep_parts(segs)[k],
    decreases segs.len(),
{
    if segs.len() > 0 {
        lemma_keep_parts_from(segs.drop_last());
        let r = keep_parts(segs.drop_last());
        assert forall|k: int| 0 <= k < keep_parts(segs).len() implies keep_parts(segs)[k].len() > 0
            && keep_parts(segs)[k] != dot() && exists|j: int|
            0 <= j < segs.len() && segs[j] == keep_parts(segs)[k] by {
            if k < r.len() {
                assert(keep_parts(segs)[k] == r[k]);
                let j = choose|j: int| 0 <= j < segs.drop_last().len() && segs.drop_last()[j] == r[k];
                assert(segs[j] == r[k]);
            } else {
                assert(segs[segs.len() - 1] == keep_parts(segs)[k]);
            }
        }
    }
}

/// Every component of a path is non-empty, not `.`, and holds no `/`.
proof fn lemma_path_parts_shape(s: Seq<char>)
    ensures
        forall|k: int|
            0 <= k < path_parts(s).len() ==> #[trigger] path_parts(s)[k].len() > 0 && path_parts(
                s,
            )[k] != dot() && forall|i: int|
                0 <= i < path_parts(s)[k].len() ==> path_parts(s)[k][i] != '/',
{
    lemma_split_pieces_lack_sep(s, '/');
    lemma_keep_parts_from(split_on(s, '/'));
}

/// The names `resolve` leaves are components of its input other than `..`.
proof fn lemma_resolve_from(parts: Seq<Seq<char>>)
    requires
        resolve(parts) is Some,
    ensures
        forall|k: int|
            0 <= k < resolve(parts)->0.len() ==> resolve(parts)->0[k] != dotdot() && exists|j: int|
                0 <= j < parts.len() && parts[j] == resolve(parts)->0[k],
    decreases parts.len(),
{
    if parts.len() > 0 {
        lemma_resolve_from(parts.drop_last());
        let st = resolve(parts.drop_last())->0;
        let res = resolve(parts)->0;
        assert forall|k: int| 0 <= k < res.len() implies res[k] != dotdot() && exists|j: int|
            0 <= j < parts.len() && parts[j] == res[k] by {
            if k < st.len() {
                assert(res[k] == st[k]);
                let j = choose|j: int|
                    0 <= j < parts.drop_last().len() && parts.drop_last()[j] == st[k];
                assert(parts[j] == st[k]);
            } else {
                assert(parts[parts.len() - 1] == res[k]);
            }
        }
    }
}

/// Appending names keeps the base as a prefix.
proof fn lemma_push_all_prefix(base: Seq<char>, st: Seq<Seq<char>>)
    ensures
        push_all(base, st).len() >= base.len(),
        push_all(base, st).subrange(0, base.len() as int) == base,
    decreases st.len(),
{
    if st.len() > 0 {
        lemma_push_all_prefix(base, st.drop_last());
        let prev = push_all(base, st.drop_last());
        let next = push_all(base, st);
        if prev.len() == 0 {
            assert(base.len() == 0);
            assert(next.subrange(0, 0) =~= base);
        } else {
            assert(next.subrange(0, base.len() as int) =~= prev.subrange(0, base.len() as int));
        }
    }
}

/// A path that `safe_path` accepts leads below `base`: the result is `base`
/// followed by plain names only, so it never climbs out of `base`, and it
/// starts with `base`.
pub proof fn law_safe_path_stays_under_base(base: Seq<char>, requested: Seq<char>)
    requires
        safe_target(base, requested) is Some,
    ensures
        ({
            let st = resolve(path_parts(requested))->0;
            let t = safe_target(base, requested)->0;
            &&& t == push_all(base, st)
            &&& forall|k: int| 0 <= k < st.len() ==> is_plain_name(#[trigger] st[k])
            &&& t.len() >= base.len()
            &&& t.subrange(0, base.len() as int) == base
        }),
{
    let ps = path_parts(requested);
    lemma_path_parts_shape(requested);
    lemma_resolve_from(ps);
    let st = resolve(ps)->0;
    assert forall|k: int| 0 <= k < st.len() implies is_plain_name(#[trigger] st[k]) by {
        let j = choose|j: int| 0 <= j < ps.len() && ps[j] == st[k];
        assert(ps[j].len() > 0);
    }
    lemma_push_all_prefix(base, st);
}

/// When no component is refused, none is `..`.
proof fn lemma_no_error_no_dotdot(parts: Seq<Seq<char>>)
    requires
        first_part_error(parts) is None,
    ensures
        resolve(parts) == Some(parts),
    decreases parts.len(),
{
    if parts.len() > 0 {
        lemma_no_error_no_dotdot(parts.drop_last());
        assert(parts.drop_last().push(parts.last()) =~= parts);
    }
}

/// Every character of `p` may stand in a put path.
pub open spec fn all_put_chars(p: Seq<char>) -> bool {
    forall|i: int|
        0 <= i < p.len() ==> ('a' <= #[trigger] p[i] && p[i] <= 'z') || ('A' <= p[i] && p[i] <= 'Z')
            || ('0' <= p[i] && p[i] <= '9') || p[i] == '.' || p[i] == '_' || p[i] == '-'
}

/// A path `put` and `mkdir` accept: not absolute, not empty, with no `..`
/// component and every component made of `[a-zA-Z0-9._-]`.
pub open spec fn put_path_allowed(s: Seq<char>) -> bool {
    &&& !is_absolute_path(s)
    &&& s.len() > 0
    &&& forall|k: int|
        0 <= k < path_parts(s).len() ==> #[trigger] path_parts(s)[k] != dotdot() && all_put_chars(
            path_parts(s)[k],
        )
}

proof fn lemma_disallowed_empty(p: Seq<char>)
    ensures
        (put_disallowed(p).len() == 0) == all_put_chars(p),
    decreases p.len(),
{
    reveal_with_fuel(Seq::<_>::filter, 1);
    if p.len() > 0 {
        let t = p.drop_last();
        lemma_disallowed_empty(t);
        assert(p.filter(|c: char| !is_put_char(c)).len() == t.filter(|c: char| !is_put_char(c)).len()
            + (if is_put_char(p.last()) {
            0int
        } else {
            1int
        }));
        if all_put_chars(t) && is_put_char(p.last()) {
            assert forall|i: int| 0 <= i < p.len() implies is_put_char(#[trigger] p[i]) by {
                if i < t.len() {
                    assert(is_put_char(t[i]));
                }
                if i < t.len() {
                    assert(p[i] == t[i]);
                }
            }
        }
        if all_put_chars(p) {
            assert forall|i: int| 0 <= i < t.len() implies is_put_char(#[trigger] t[i]) by {
                assert(p[i] == t[i]);
            }
            assert(is_put_char(p[p.len() - 1]));
            assert(all_put_chars(t));
        }
    }
}

proof fn lemma_no_part_error(parts: Seq<Seq<char>>)
    ensures
        (first_part_error(parts) is None) == (forall|k: int|
            0 <= k < parts.len() ==> #[trigger] part_error(parts[k]) is None),
    decreases parts.len(),
{
    if parts.len() > 0 {
        let t = parts.drop_last();
        lemma_no_part_error(t);
        if first_part_error(parts) is None {
            assert forall|k: int| 0 <= k < parts.len() implies #[trigger] part_error(parts[k]) is None by {
                if k < t.len() {
                    assert(parts[k] == t[k]);
                }
            }
        } else if first_part_error(t) is Some {
            let k = choose|k: int| 0 <= k < t.len() && !(#[trigger] part_error(t[k]) is None);
            assert(parts[k] == t[k]);
        } else {
            assert(!(part_error(parts[parts.len() - 1]) is None));
        }
    }
}

/// `validate_put_path` accepts exactly the allowed paths (see
/// `put_path_allowed`).
pub proof fn law_put_path_accepted_exactly_when_allowed(s: Seq<char>)
    ensures
        (put_path_error(s) is None) == put_path_allowed(s),
{
    let parts = path_parts(s);
    lemma_no_part_error(parts);
    assert forall|k: int| 0 <= k < parts.len() implies (#[trigger] part_error(parts[k]) is None) == (
    parts[k] != dotdot() && all_put_chars(parts[k])) by {
        lemma_disallowed_empty(parts[k]);
    }
    if !is_absolute_path(s) && s.len() > 0 {
        if put_path_error(s) is None {
            assert forall|k: int| 0 <= k < parts.len() implies #[trigger] parts[k] != dotdot()
                && all_put_chars(parts[k]) by {
                assert(part_error(parts[k]) is None);
            }
        }
        if put_path_allowed(s) {
            assert forall|k: int| 0 <= k < parts.len() implies #[trigger] part_error(parts[k]) is None by {
                assert(parts[k] != dotdot() && all_put_chars(parts[k]));
            }
        }
    }
}

/// The net depth `parts` reach from where they start: one level down per
/// name, one up per `..`.
pub open spec fn balance(parts: Seq<Seq<char>>) -> int
    decreases parts.len(),
{
    if parts.len() == 0 {
        0
    } else {
        balance(parts.drop_last()) + (if parts.last() == dotdot() {
            -1int
        } else {
            1int
        })
    }
}

/// Some leading run of `parts` climbs above where it starts.
pub open spec fn climbs_above(parts: Seq<Seq<char>>) -> bool {
    exists|j: int| 0 <= j <= parts.len() && balance(#[trigger] parts.take(j)) < 0
}

proof fn lemma_resolve_balance(parts: Seq<Seq<char>>)
    ensures
        (resolve(parts) is None) == climbs_above(parts),
        resolve(parts) is Some ==> resolve(parts)->0.len() == balance(parts),
    decreases parts.len(),
{
    if parts.len() == 0 {
        assert forall|j: int| 0 <= j <= parts.len() implies balance(#[trigger] parts.take(j)) >= 0 by {
            assert(parts.take(j) =~= Seq::<Seq<char>>::empty());
        }
    } else {
        let t = parts.drop_last();
        lemma_resolve_balance(t);
        assert(parts.take(parts.len() as int) =~= parts);
        if resolve(t) is None {
            let j = choose|j: int| 0 <= j <= t.len() && balance(#[trigger] t.take(j)) < 0;
            assert(parts.take(j) =~= t.take(j));
        } else {
            assert forall|j: int| 0 <= j <= t.len() implies #[trigger] parts.take(j) == t.take(j) by {
                assert(parts.take(j) =~= t.take(j));
            }
            if resolve(parts) is Some {
                assert forall|j: int| 0 <= j <= parts.len() implies balance(#[trigger] parts.take(j))
                    >= 0 by {
                    if j <= t.len() {
                        assert(parts.take(j) == t.take(j));
                        if balance(t.take(j)) < 0 {
                            assert(climbs_above(t));
                        }
                    }
                }
            }
        }
    }
}

/// `safe_path` refuses a request exactly when it is absolute or some
/// leading run of its components climbs above the base with `..`; an
/// accepted request keeps as many names as its net depth.
pub proof fn law_safe_path_refused_exactly_when_escaping(base: Seq<char>, requested: Seq<char>)
    ensures
        (safe_target(base, requested) is None) == (is_absolute_path(requested) || climbs_above(
            path_parts(requested),
        )),
        safe_target(base, requested) is Some ==> resolve(path_parts(requested))->0.len() == balance(
            path_parts(requested),
        ),
{
    lemma_resolve_balance(path_parts(requested));
}

/// A `..` cancels the name just before it: resolving a name followed by
/// `..` leaves the names before them as they were.
pub proof fn law_dotdot_cancels_previous_name(ps: Seq<Seq<char>>, n: Seq<char>)
    requires
        n != dotdot(),
    ensures
        resolve(ps.push(n).push(dotdot())) == resolve(ps),
{
    let p1 = ps.push(n);
    let p2 = p1.push(dotdot());
    assert(p1.drop_last() =~= ps);
    assert(p2.drop_last() =~= p1);
    assert(p1.last() == n);
    assert(p2.last() == dotdot());
    assert(p1.len() > 0 && p2.len() > 0);
    match resolve(ps) {
        None => {
            assert(resolve(p1) is None);
            assert(resolve(p2) is None);
        },
        Some(st) => {
            assert(resolve(p1) == Some(st.push(n)));
            assert(st.push(n).drop_last() =~= st);
            assert(resolve(p2) == Some(st));
        },
    }
}

proof fn lemma_split_concat(a: Seq<char>, b: Seq<char>, sep: char)
    ensures
        split_on(a + seq![sep] + b, sep) == split_on(a, sep) + split_on(b, sep),
    decreases b.len(),
{
    let c = a + seq![sep] + b;
    if b.len() == 0 {
        assert(c.drop_last() =~= a);
        assert(split_on(a, sep).push(Seq::<char>::empty()) =~= split_on(a, sep) + split_on(b, sep));
    } else {
        let b1 = b.drop_last();
        lemma_split_concat(a, b1, sep);
        assert(c.drop_last() =~= a + seq![sep] + b1);
        crate::text::lemma_split_on_nonempty(b1, sep);
        let r = split_on(a, sep) + split_on(b1, sep);
        if b.last() == sep {
            assert(r.push(Seq::<char>::empty()) =~= split_on(a, sep) + split_on(b, sep));
        } else {
            let q = split_on(b1, sep);
            assert(r.update(r.len() - 1, r.last().push(b.last())) =~= split_on(a, sep) + q.update(
                q.len() - 1,
                q.last().push(b.last()),
            ));
        }
    }
}

proof fn lemma_keep_concat(x: Seq<Seq<char>>, y: Seq<Seq<char>>)
    ensures
        keep_parts(x + y) == keep_parts(x) + keep_parts(y),
    decreases y.len(),
{
    if y.len() == 0 {
        assert(x + y =~= x);
        assert(keep_parts(x) + keep_parts(y) =~= keep_parts(x));
    } else {
        lemma_keep_concat(x, y.drop_last());
        assert((x + y).drop_last() =~= x + y.drop_last());
        if y.last().len() > 0 && y.last() != dot() {
            assert(keep_parts(x) + keep_parts(y.drop_last()).push(y.last()) =~= (keep_parts(x)
                + keep_parts(y.drop_last())).push(y.last()));
        }
    }
}

proof fn lemma_split_plain(n: Seq<char>, sep: char)
    requires
        forall|i: int| 0 <= i < n.len() ==> n[i] != sep,
    ensures
        split_on(n, sep) == seq![n],
    decreases n.len(),
{
    if n.len() > 0 {
        let m = n.drop_last();
        assert forall|i: int| 0 <= i < m.len() implies m[i] != sep by {
            assert(m[i] == n[i]);
        }
        lemma_split_plain(m, sep);
        assert(n.last() == n[n.len() - 1]);
        assert(m.push(n.last()) =~= n);
        assert(seq![m].update(0, m.push(n.last())) =~= seq![n]);
    } else {
        assert(n =~= Seq::<char>::empty());
    }
}

/// A request naming a further name and then `..` resolves where the request
/// without them does: `r/n/..` and `r` lead to the same place (or are both
/// refused), for a relative `r` and a plain name `n`.
pub proof fn law_name_then_dotdot_is_no_move(base: Seq<char>, r: Seq<char>, n: Seq<char>)
    requires
        r.len() > 0,
        n.len() > 0,
        n != dot(),
        n != dotdot(),
        forall|i: int| 0 <= i < n.len() ==> n[i] != '/',
    ensures
        safe_target(base, r + seq!['/'] + n + seq!['/', '.', '.']) == safe_target(base, r),
{
    let dd = seq!['.', '.'];
    assert(dd =~= dotdot());
    let req = r + seq!['/'] + n + seq!['/', '.', '.'];
    assert(req =~= r + seq!['/'] + (n + seq!['/'] + dd));
    lemma_split_concat(r, n + seq!['/'] + dd, '/');
    lemma_split_concat(n, dd, '/');
    lemma_split_plain(n, '/');
    lemma_split_plain(dd, '/');
    let sr = split_on(r, '/');
    lemma_keep_concat(sr, seq![n] + seq![dd]);
    lemma_keep_concat(seq![n], seq![dd]);
    assert(seq![n].drop_last() =~= Seq::<Seq<char>>::empty());
    assert(seq![dd].drop_last() =~= Seq::<Seq<char>>::empty());
    assert(seq![n].last() == n);
    assert(keep_parts(seq![n].drop_last()) =~= Seq::<Seq<char>>::empty());
    assert(keep_parts(seq![n]) =~= seq![n]);
    assert(seq![dd].last() == dd);
    assert(dd != dot());
    assert(keep_parts(seq![dd].drop_last()) =~= Seq::<Seq<char>>::empty());
    assert(keep_parts(seq![dd]) =~= seq![dd]);
    assert(path_parts(req) =~= path_parts(r).push(n).push(dotdot()));
    law_dotdot_cancels_previous_name(path_parts(r), n);
    assert(req[0] == r[0]);
}

/// A path that `validate_put_path` accepts resolves under any base
/// directory, to the base followed by the path's own components, whose
/// number is the path's depth.
pub proof fn law_valid_put_path_resolves(base: Seq<char>, path: Seq<char>)
    requires
        put_path_error(path) is None,
    ensures
        safe_target(base, path) == Some(push_all(base, path_parts(path))),
        names_of(path_parts(path)).len() == path_parts(path).len(),
{
    lemma_no_error_no_dotdot(path_parts(path));
    lemma_names_all(path_parts(path));
}

/// When no component is refused, every component is a name.
proof fn lemma_names_all(parts: Seq<Seq<char>>)
    requires
        first_part_error(parts) is None,
    ensures
        names_of(parts) == parts,
    decreases parts.len(),
{
    if parts.len() > 0 {
        lemma_names_all(parts.drop_last());
        assert(parts.drop_last().push(parts.last()) =~= parts);
    }
}

} // verus!

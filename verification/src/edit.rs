//! In-place text replacement for the `str_replace` tool: locating the
//! occurrences of the old text, choosing which of them to replace, and
//! explaining a failed match.

use vstd::prelude::*;
use crate::text::{
    chars_eq, chars_of, contains, contains_seq, decimal, find_matches, is_match_at,
    match_positions, matches_from, push_decimal, push_str, repeat, repeat_char, replace_all,
    replace_chars, replace_from, splice, splice_chars, string_of, trim_line_ends, trim_line_ends_chars,
};

verus! {

// ── the hint given when old_str does not occur ──────────────────────────────

/// The hint for a needle written with tabs where the file has `w` spaces.
pub open spec fn hint_tabs_vs_spaces(w: nat) -> Seq<char> {
    " Hint: your old_str uses TABS but the file uses "@ + decimal(w)
        + " SPACES at the matching location."@
}

/// The hint for a needle written with `w` spaces where the file has tabs.
pub open spec fn hint_spaces_vs_tabs(w: nat) -> Seq<char> {
    " Hint: your old_str uses "@ + decimal(w) + " SPACES but the file uses TABS at the matching location."@
}

pub open spec fn hint_crlf() -> Seq<char> {
    " Hint: your old_str uses CRLF line endings but the file uses LF."@
}

pub open spec fn hint_lf() -> Seq<char> {
    " Hint: your old_str uses LF line endings but the file uses CRLF."@
}

pub open spec fn hint_needle_trailing() -> Seq<char> {
    " Hint: trailing whitespace on one or more lines differs between old_str and the file."@
}

pub open spec fn hint_file_trailing() -> Seq<char> {
    " Hint: the file has trailing whitespace on one or more lines that your old_str does not."@
}

pub open spec fn tab_seq() -> Seq<char> {
    seq!['\t']
}

pub open spec fn lf_seq() -> Seq<char> {
    seq!['\n']
}

pub open spec fn crlf_seq() -> Seq<char> {
    seq!['\r', '\n']
}

/// The needle with every tab widened to `w` spaces occurs in the haystack.
pub open spec fn tabs_widened_match(hay: Seq<char>, needle: Seq<char>, w: nat) -> bool {
    contains_seq(hay, replace_all(needle, tab_seq(), repeat_char(' ', w)))
}

/// The needle holds runs of `w` spaces, and with each run narrowed to a tab
/// it is changed and occurs in the haystack.
pub open spec fn spaces_narrowed_match(hay: Seq<char>, needle: Seq<char>, w: nat) -> bool {
    let pat = repeat_char(' ', w);
    let cand = replace_all(needle, pat, tab_seq());
    contains_seq(needle, pat) && cand != needle && contains_seq(hay, cand)
}

/// The hint about trailing whitespace, or nothing.
pub open spec fn trailing_hint(hay: Seq<char>, needle: Seq<char>) -> Seq<char> {
    let nt = trim_line_ends(needle);
    if nt != needle {
        if contains_seq(trim_line_ends(hay), nt) {
            hint_needle_trailing()
        } else {
            Seq::empty()
        }
    } else {
        let ht = trim_line_ends(hay);
        if ht != hay && contains_seq(ht, needle) {
            hint_file_trailing()
        } else {
            Seq::empty()
        }
    }
}

/// The explanation offered when `needle` does not occur in `hay`: the first
/// whitespace or line-ending substitution that would have matched, tried in
/// this order: tabs widened to 8, 4, 2 spaces; runs of 8, 4, 2 spaces
/// narrowed to tabs; CRLF as LF; LF as CRLF; trailing blanks removed.
pub open spec fn diagnosis(hay: Seq<char>, needle: Seq<char>) -> Seq<char> {
    let has_tab = contains_seq(needle, tab_seq());
    if has_tab && tabs_widened_match(hay, needle, 8) {
        hint_tabs_vs_spaces(8)
    } else if has_tab && tabs_widened_match(hay, needle, 4) {
        hint_tabs_vs_spaces(4)
    } else if has_tab && tabs_widened_match(hay, needle, 2) {
        hint_tabs_vs_spaces(2)
    } else if spaces_narrowed_match(hay, needle, 8) {
        hint_spaces_vs_tabs(8)
    } else if spaces_narrowed_match(hay, needle, 4) {
        hint_spaces_vs_tabs(4)
    } else if spaces_narrowed_match(hay, needle, 2) {
        hint_spaces_vs_tabs(2)
    } else if contains_seq(needle, crlf_seq()) && contains_seq(
        hay,
        replace_all(needle, crlf_seq(), lf_seq()),
    ) {
        hint_crlf()
    } else if !contains_seq(needle, crlf_seq()) && contains_seq(needle, lf_seq()) && contains_seq(
        hay,
        crlf_seq(),
    ) && contains_seq(hay, replace_all(needle, lf_seq(), crlf_seq())) {
        hint_lf()
    } else {
        trailing_hint(hay, needle)
    }
}

fn hint_tabs_vs_spaces_exec(w: u64) -> (r: Vec<char>)
    ensures
        r@ == hint_tabs_vs_spaces(w as nat),
{
    let mut v: Vec<char> = Vec::new();
    push_str(&mut v, " Hint: your old_str uses TABS but the file uses ");
    push_decimal(&mut v, w as u128);
    push_str(&mut v, " SPACES at the matching location.");
    v
}

fn hint_spaces_vs_tabs_exec(w: u64) -> (r: Vec<char>)
    ensures
        r@ == hint_spaces_vs_tabs(w as nat),
{
    let mut v: Vec<char> = Vec::new();
    push_str(&mut v, " Hint: your old_str uses ");
    push_decimal(&mut v, w as u128);
    push_str(&mut v, " SPACES but the file uses TABS at the matching location.");
    v
}

fn tabs_widened_match_exec(hay: &Vec<char>, needle: &Vec<char>, w: usize) -> (r: bool)
    ensures
        r == tabs_widened_match(hay@, needle@, w as nat),
{
    let tab = vec!['\t'];
    assert(tab@ =~= tab_seq());
    let spaces = repeat(' ', w);
    let cand = replace_chars(needle, &tab, &spaces);
    contains(hay, &cand)
}

fn spaces_narrowed_match_exec(hay: &Vec<char>, needle: &Vec<char>, w: usize) -> (r: bool)
    requires
        w > 0,
    ensures
        r == spaces_narrowed_match(hay@, needle@, w as nat),
{
    let pat = repeat(' ', w);
    if !contains(needle, &pat) {
        return false;
    }
    let tab = vec!['\t'];
    assert(tab@ =~= tab_seq());
    let cand = replace_chars(needle, &pat, &tab);
    !chars_eq(&cand, needle) && contains(hay, &cand)
}

fn trailing_hint_exec(hay: &Vec<char>, needle: &Vec<char>) -> (r: Vec<char>)
    ensures
        r@ == trailing_hint(hay@, needle@),
{
    let needle_trim = trim_line_ends_chars(needle);
    let hay_trim = trim_line_ends_chars(hay);
    if !chars_eq(&needle_trim, needle) {
        if contains(&hay_trim, &needle_trim) {
            chars_of(
                " Hint: trailing whitespace on one or more lines differs between old_str and the file.",
            )
        } else {
            Vec::new()
        }
    } else {
        if !chars_eq(&hay_trim, hay) && contains(&hay_trim, needle) {
            chars_of(
                " Hint: the file has trailing whitespace on one or more lines that your old_str does not.",
            )
        } else {
            Vec::new()
        }
    }
}

/// When `needle` does not occur in `haystack`, tries the common whitespace
/// and line-ending substitutions and reports the first that would have
/// matched. The result is empty or starts with `" Hint: "`.
pub fn diagnose_no_match(haystack: &str, needle: &str) -> (r: String)
    ensures
        r@ == diagnosis(haystack@, needle@),
{
    let hay = chars_of(haystack);
    let ndl = chars_of(needle);
    let hint = diagnose_chars(&hay, &ndl);
    string_of(&hint)
}

fn diagnose_chars(hay: &Vec<char>, needle: &Vec<char>) -> (r: Vec<char>)
    ensures
        r@ == diagnosis(hay@, needle@),
{
    let tab = vec!['\t'];
    assert(tab@ =~= tab_seq());
    let lf = vec!['\n'];
    assert(lf@ =~= lf_seq());
    let crlf = vec!['\r', '\n'];
    assert(crlf@ =~= crlf_seq());
    // 1. Tabs in the needle where the file has spaces.
    if contains(needle, &tab) {
        if tabs_widened_match_exec(hay, needle, 8) {
            return hint_tabs_vs_spaces_exec(8);
        }
        if tabs_widened_match_exec(hay, needle, 4) {
            return hint_tabs_vs_spaces_exec(4);
        }
        if tabs_widened_match_exec(hay, needle, 2) {
            return hint_tabs_vs_spaces_exec(2);
        }
    }
    // 2. Runs of spaces in the needle where the file has tabs.
    if spaces_narrowed_match_exec(hay, needle, 8) {
        return hint_spaces_vs_tabs_exec(8);
    }
    if spaces_narrowed_match_exec(hay, needle, 4) {
        return hint_spaces_vs_tabs_exec(4);
    }
    if spaces_narrowed_match_exec(hay, needle, 2) {
        return hint_spaces_vs_tabs_exec(2);
    }
    // 3. Line endings.
    if contains(needle, &crlf) {
        let cand = replace_chars(needle, &crlf, &lf);
        if contains(hay, &cand) {
            return chars_of(" Hint: your old_str uses CRLF line endings but the file uses LF.");
        }
    } else if contains(needle, &lf) && contains(hay, &crlf) {
        let cand = replace_chars(needle, &lf, &crlf);
        if contains(hay, &cand) {
            return chars_of(" Hint: your old_str uses LF line endings but the file uses CRLF.");
        }
    }
    // 4. Trailing whitespace.
    trailing_hint_exec(hay, needle)
}

// ── choosing the occurrences to replace ─────────────────────────────────────

/// What replacing `old` by `new` in `orig` gives for the `occurrence`
/// argument: 0 demands a unique occurrence, -1 replaces all of them, n >= 1
/// the n-th (counted from 1). The text and the number of replacements, or
/// nothing when the request cannot be met.
pub open spec fn replacement(orig: Seq<char>, old: Seq<char>, new: Seq<char>, occurrence: int) -> Option<
    (Seq<char>, nat),
> {
    let ms = match_positions(orig, old);
    if ms.len() == 0 {
        None
    } else if occurrence == 0 {
        if ms.len() == 1 {
            Some((splice(orig, ms[0], old.len() as int, new), 1))
        } else {
            None
        }
    } else if occurrence == -1 {
        Some((replace_all(orig, old, new), ms.len()))
    } else if 1 <= occurrence <= ms.len() {
        Some((splice(orig, ms[occurrence - 1], old.len() as int, new), occurrence as nat))
    } else {
        None
    }
}

/// Why a replacement could not be made.
pub enum ReplaceError {
    /// `old_str` does not occur; `hint` may explain why.
    NotFound { hint: String },
    /// `occurrence` was 0 but `old_str` occurs `count` times.
    NotUnique { count: usize },
    /// `occurrence` names an occurrence past the last of `count`.
    OutOfRange { requested: u64, count: usize },
    /// `occurrence` is below -1.
    InvalidOccurrence { occurrence: i64 },
}

/// A replacement that was made: the new text and the number of occurrences
/// replaced.
pub struct Replacement {
    pub text: String,
    pub replaced: usize,
}

/// Replaces occurrences of the non-empty `old_str` in `original` by
/// `new_str`, as the `occurrence` argument selects (see `replacement`).
pub fn plan_replacement(original: &str, old_str: &str, new_str: &str, occurrence: i64) -> (r: Result<
    Replacement,
    ReplaceError,
>)
    requires
        old_str@.len() > 0,
    ensures
        ({
            let ms = match_positions(original@, old_str@);
            &&& (r is Ok) <==> replacement(original@, old_str@, new_str@, occurrence as int) is Some
            &&& r matches Ok(rep) ==> (rep.text@, rep.replaced as nat) == replacement(
                original@,
                old_str@,
                new_str@,
                occurrence as int,
            )->0
            &&& (r matches Err(ReplaceError::NotFound { hint })) <==> ms.len() == 0
            &&& r matches Err(ReplaceError::NotFound { hint }) ==> hint@ == diagnosis(
                original@,
                old_str@,
            )
            &&& (r matches Err(ReplaceError::NotUnique { count })) <==> (ms.len() > 1
                && occurrence == 0)
            &&& r matches Err(ReplaceError::NotUnique { count }) ==> count == ms.len()
            &&& (r matches Err(ReplaceError::OutOfRange { requested: o, count })) <==> (ms.len()
                > 0 && occurrence > ms.len())
            &&& r matches Err(ReplaceError::OutOfRange { requested: o, count }) ==> o
                == occurrence && count == ms.len()
            &&& (r matches Err(ReplaceError::InvalidOccurrence { occurrence: o })) <==> (ms.len()
                > 0 && occurrence < -1)
            &&& r matches Err(ReplaceError::InvalidOccurrence { occurrence: o }) ==> o
                == occurrence
        }),
{
    let orig = chars_of(original);
    let old = chars_of(old_str);
    let new = chars_of(new_str);
    let ghost ms = match_positions(orig@, old@);
    let matches = find_matches(&orig, &old);
    let count = matches.len();
    proof {
        lemma_matches_in_bounds(orig@, old@, 0);
    }
    if count == 0 {
        let hint = diagnose_chars(&orig, &old);
        return Err(ReplaceError::NotFound { hint: string_of(&hint) });
    }
    if occurrence == 0 {
        if count != 1 {
            return Err(ReplaceError::NotUnique { count });
        }
        let start = matches[0];
        assert(ms[0] == start as int);
        let text = splice_chars(&orig, start, old.len(), &new);
        Ok(Replacement { text: string_of(&text), replaced: 1 })
    } else if occurrence == -1 {
        let text = replace_chars(&orig, &old, &new);
        Ok(Replacement { text: string_of(&text), replaced: count })
    } else if occurrence >= 1 {
        if occurrence as u64 > count as u64 {
            return Err(ReplaceError::OutOfRange { requested: occurrence as u64, count });
        }
        let idx = occurrence as usize;
        let start = matches[idx - 1];
        assert(ms[idx - 1] == start as int);
        let text = splice_chars(&orig, start, old.len(), &new);
        Ok(Replacement { text: string_of(&text), replaced: idx })
    } else {
        Err(ReplaceError::InvalidOccurrence { occurrence })
    }
}

/// Every position that `matches_from` yields starts a whole occurrence.
pub proof fn lemma_matches_in_bounds(s: Seq<char>, pat: Seq<char>, i: int)
    requires
        0 <= i,
    ensures
        forall|k: int|
            0 <= k < matches_from(s, pat, i).len() ==> i <= #[trigger] matches_from(s, pat, i)[k]
                && is_match_at(s, pat, matches_from(s, pat, i)[k]),
    decreases s.len() - i,
{
    if pat.len() == 0 || i + pat.len() > s.len() {
    } else if is_match_at(s, pat, i) {
        lemma_matches_in_bounds(s, pat, i + pat.len());
        let rest = matches_from(s, pat, i + pat.len());
        assert(matches_from(s, pat, i) == seq![i] + rest);
        assert forall|k: int| 0 <= k < matches_from(s, pat, i).len() implies i
            <= #[trigger] matches_from(s, pat, i)[k] && is_match_at(
            s,
            pat,
            matches_from(s, pat, i)[k],
        ) by {
            if k > 0 {
                assert(matches_from(s, pat, i)[k] == rest[k - 1]);
            }
        }
    } else {
        assert(matches_from(s, pat, i) == matches_from(s, pat, i + 1));
        lemma_matches_in_bounds(s, pat, i + 1);
    }
}

// ── laws ────────────────────────────────────────────────────────────────────

/// Replacing from index `i` with the pattern itself leaves the text as it was.
proof fn lemma_replace_from_identity(s: Seq<char>, pat: Seq<char>, i: int)
    requires
        pat.len() > 0,
        0 <= i <= s.len(),
    ensures
        replace_from(s, pat, pat, i) == s.skip(i),
    decreases s.len() - i,
{
    if i >= s.len() {
        assert(s.skip(i) =~= Seq::<char>::empty());
    } else if is_match_at(s, pat, i) {
        lemma_replace_from_identity(s, pat, i + pat.len());
        assert(s.skip(i) =~= s.subrange(i, i + pat.len()) + s.skip(i + pat.len()));
    } else {
        lemma_replace_from_identity(s, pat, i + 1);
        assert(s.skip(i) =~= seq![s[i]] + s.skip(i + 1));
    }
}

/// Replacing an occurrence of the old text by the same text, in any of the
/// ways `occurrence` selects, leaves the text unchanged.
pub proof fn law_replace_with_itself_is_identity(orig: Seq<char>, old: Seq<char>, occurrence: int)
    requires
        old.len() > 0,
        replacement(orig, old, old, occurrence) is Some,
    ensures
        ({
            let (text, _n) = replacement(orig, old, old, occurrence)->0;
            text == orig
        }),
{
    lemma_matches_in_bounds(orig, old, 0);
    let ms = match_positions(orig, old);
    if occurrence == -1 {
        lemma_replace_from_identity(orig, old, 0);
        assert(orig.skip(0) =~= orig);
    } else {
        let p = if occurrence == 0 { ms[0] } else { ms[occurrence - 1] };
        assert(is_match_at(orig, old, p));
        assert(splice(orig, p, old.len() as int, old) =~= orig);
    }
}

/// The length of a text after replacing from index `i`: every replaced
/// occurrence changes it by the difference of the two lengths.
proof fn lemma_replace_from_len(s: Seq<char>, pat: Seq<char>, rep: Seq<char>, i: int)
    requires
        pat.len() > 0,
        0 <= i <= s.len(),
    ensures
        replace_from(s, pat, rep, i).len() == (s.len() - i) + matches_from(s, pat, i).len() * (
        rep.len() - pat.len()),
    decreases s.len() - i,
{
    if i >= s.len() {
    } else if is_match_at(s, pat, i) {
        lemma_replace_from_len(s, pat, rep, i + pat.len());
        let m = matches_from(s, pat, i + pat.len()).len() as int;
        let d = rep.len() - pat.len();
        assert(matches_from(s, pat, i).len() == m + 1);
        assert((m + 1) * d == m * d + d) by (nonlinear_arith);
    } else {
        lemma_replace_from_len(s, pat, rep, i + 1);
        if i + pat.len() <= s.len() {
            assert(matches_from(s, pat, i) == matches_from(s, pat, i + 1));
        } else {
            assert(matches_from(s, pat, i + 1).len() == 0);
        }
    }
}

/// The length of the replaced text: each of the `n` replaced occurrences
/// changes the length by `new.len() - old.len()`.
pub proof fn law_replacement_length(orig: Seq<char>, old: Seq<char>, new: Seq<char>, occurrence: int)
    requires
        old.len() > 0,
        replacement(orig, old, new, occurrence) is Some,
    ensures
        ({
            let (text, n) = replacement(orig, old, new, occurrence)->0;
            &&& occurrence == -1 ==> text.len() == orig.len() + n * (new.len() - old.len())
            &&& occurrence != -1 ==> text.len() == orig.len() + new.len() - old.len()
        }),
{
    lemma_matches_in_bounds(orig, old, 0);
    let ms = match_positions(orig, old);
    if occurrence == -1 {
        lemma_replace_from_len(orig, old, new, 0);
    } else {
        let p = if occurrence == 0 { ms[0] } else { ms[occurrence - 1] };
        assert(is_match_at(orig, old, p));
    }
}

/// The explanation for a failed match is empty or starts with `" Hint: "`.
pub proof fn law_diagnosis_is_empty_or_hint(hay: Seq<char>, needle: Seq<char>)
    ensures
        diagnosis(hay, needle).len() == 0 || (diagnosis(hay, needle).len() >= 7
            && diagnosis(hay, needle).subrange(0, 7) == " Hint: "@),
{
    reveal_strlit(" Hint: ");
    reveal_strlit(" Hint: your old_str uses TABS but the file uses ");
    reveal_strlit(" Hint: your old_str uses ");
    reveal_strlit(" Hint: your old_str uses CRLF line endings but the file uses LF.");
    reveal_strlit(" Hint: your old_str uses LF line endings but the file uses CRLF.");
    reveal_strlit(" Hint: trailing whitespace on one or more lines differs between old_str and the file.");
    reveal_strlit(" Hint: the file has trailing whitespace on one or more lines that your old_str does not.");
    let d = diagnosis(hay, needle);
    if d.len() != 0 {
        assert(d.subrange(0, 7) =~= " Hint: "@);
    }
}

/// Each hint is given only when its substitution really matches: the
/// needle rewritten as the hint says occurs in the file (for the trailing
/// whitespace hints, in the file with line ends trimmed).
pub proof fn law_diagnosis_hints_are_sound(hay: Seq<char>, needle: Seq<char>)
    ensures
        diagnosis(hay, needle) == hint_tabs_vs_spaces(8) ==> tabs_widened_match(hay, needle, 8),
        diagnosis(hay, needle) == hint_tabs_vs_spaces(4) ==> tabs_widened_match(hay, needle, 4),
        diagnosis(hay, needle) == hint_tabs_vs_spaces(2) ==> tabs_widened_match(hay, needle, 2),
        diagnosis(hay, needle) == hint_spaces_vs_tabs(8) ==> spaces_narrowed_match(hay, needle, 8),
        diagnosis(hay, needle) == hint_spaces_vs_tabs(4) ==> spaces_narrowed_match(hay, needle, 4),
        diagnosis(hay, needle) == hint_spaces_vs_tabs(2) ==> spaces_narrowed_match(hay, needle, 2),
        diagnosis(hay, needle) == hint_crlf() ==> contains_seq(
            hay,
            replace_all(needle, crlf_seq(), lf_seq()),
        ),
        diagnosis(hay, needle) == hint_lf() ==> contains_seq(
            hay,
            replace_all(needle, lf_seq(), crlf_seq()),
        ),
        diagnosis(hay, needle) == hint_needle_trailing() ==> contains_seq(
            trim_line_ends(hay),
            trim_line_ends(needle),
        ),
        diagnosis(hay, needle) == hint_file_trailing() ==> contains_seq(trim_line_ends(hay), needle),
{
    reveal_strlit(" Hint: your old_str uses TABS but the file uses ");
    reveal_strlit(" Hint: your old_str uses ");
    reveal_strlit(" Hint: your old_str uses CRLF line endings but the file uses LF.");
    reveal_strlit(" Hint: your old_str uses LF line endings but the file uses CRLF.");
    reveal_strlit(" Hint: trailing whitespace on one or more lines differs between old_str and the file.");
    reveal_strlit(" Hint: the file has trailing whitespace on one or more lines that your old_str does not.");
    assert(decimal(8) =~= seq!['8'] && decimal(4) =~= seq!['4'] && decimal(2) =~= seq!['2']);
    // Characters at positions 7, 8, 25 and 48 tell the hints apart.
    assert(hint_tabs_vs_spaces(8)[7] == 'y' && hint_tabs_vs_spaces(8)[25] == 'T'
        && hint_tabs_vs_spaces(8)[48] == '8');
    assert(hint_tabs_vs_spaces(4)[7] == 'y' && hint_tabs_vs_spaces(4)[25] == 'T'
        && hint_tabs_vs_spaces(4)[48] == '4');
    assert(hint_tabs_vs_spaces(2)[7] == 'y' && hint_tabs_vs_spaces(2)[25] == 'T'
        && hint_tabs_vs_spaces(2)[48] == '2');
    assert(hint_spaces_vs_tabs(8)[7] == 'y' && hint_spaces_vs_tabs(8)[25] == '8');
    assert(hint_spaces_vs_tabs(4)[7] == 'y' && hint_spaces_vs_tabs(4)[25] == '4');
    assert(hint_spaces_vs_tabs(2)[7] == 'y' && hint_spaces_vs_tabs(2)[25] == '2');
    assert(hint_crlf()[7] == 'y' && hint_crlf()[25] == 'C');
    assert(hint_lf()[7] == 'y' && hint_lf()[25] == 'L');
    assert(hint_needle_trailing()[7] == 't' && hint_needle_trailing()[8] == 'r');
    assert(hint_file_trailing()[7] == 't' && hint_file_trailing()[8] == 'h');
}

} // verus!

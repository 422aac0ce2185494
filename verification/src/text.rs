//! Character-level text operations: searching, replacing, trimming and
//! decimal formatting, each specified over `Seq<char>`.

use vstd::prelude::*;

verus! {

// ── specifications ──────────────────────────────────────────────────────────

/// `pat` occurs in `s` starting at character index `i`.
pub open spec fn is_match_at(s: Seq<char>, pat: Seq<char>, i: int) -> bool {
    0 <= i && i + pat.len() <= s.len() && s.subrange(i, i + pat.len()) == pat
}

/// `pat` occurs somewhere in `s` (the empty pattern occurs everywhere).
pub open spec fn contains_seq(s: Seq<char>, pat: Seq<char>) -> bool {
    exists|i: int| is_match_at(s, pat, i)
}

/// Start indices of the leftmost, non-overlapping occurrences of a non-empty
/// `pat` in `s`, searching from index `i` on.
pub open spec fn matches_from(s: Seq<char>, pat: Seq<char>, i: int) -> Seq<int>
    decreases s.len() - i,
{
    if pat.len() == 0 || i < 0 || i + pat.len() > s.len() {
        Seq::empty()
    } else if is_match_at(s, pat, i) {
        seq![i] + matches_from(s, pat, i + pat.len())
    } else {
        matches_from(s, pat, i + 1)
    }
}

/// Start indices of the leftmost, non-overlapping occurrences of `pat` in `s`.
pub open spec fn match_positions(s: Seq<char>, pat: Seq<char>) -> Seq<int> {
    matches_from(s, pat, 0)
}

/// `s` from index `i` on, with every leftmost non-overlapping occurrence of a
/// non-empty `pat` replaced by `rep`.
pub open spec fn replace_from(s: Seq<char>, pat: Seq<char>, rep: Seq<char>, i: int) -> Seq<char>
    decreases s.len() - i,
{
    if i < 0 || i >= s.len() {
        Seq::empty()
    } else if pat.len() > 0 && is_match_at(s, pat, i) {
        rep + replace_from(s, pat, rep, i + pat.len())
    } else {
        seq![s[i]] + replace_from(s, pat, rep, i + 1)
    }
}

/// `s` with every leftmost non-overlapping occurrence of `pat` replaced by `rep`.
pub open spec fn replace_all(s: Seq<char>, pat: Seq<char>, rep: Seq<char>) -> Seq<char> {
    replace_from(s, pat, rep, 0)
}

/// `s` with the occurrence of `pat` at index `p` replaced by `rep`.
pub open spec fn splice(s: Seq<char>, p: int, pat_len: int, rep: Seq<char>) -> Seq<char> {
    s.subrange(0, p) + rep + s.subrange(p + pat_len, s.len() as int)
}

/// `n` copies of `c`.
pub open spec fn repeat_char(c: char, n: nat) -> Seq<char> {
    Seq::new(n, |_i: int| c)
}

/// A space or a tab.
pub open spec fn is_blank(c: char) -> bool {
    c == ' ' || c == '\t'
}

/// Everything in `s` up to its first line break (or its end) is blank.
pub open spec fn blank_to_eol(s: Seq<char>) -> bool
    decreases s.len(),
{
    if s.len() == 0 {
        true
    } else if s[0] == '\n' {
        true
    } else if is_blank(s[0]) {
        blank_to_eol(s.drop_first())
    } else {
        false
    }
}

/// `s` with the spaces and tabs at the end of every line removed; lines are
/// separated by `'\n'`, which is kept.
pub open spec fn trim_line_ends(s: Seq<char>) -> Seq<char>
    decreases s.len(),
{
    if s.len() == 0 {
        s
    } else if is_blank(s[0]) && blank_to_eol(s.drop_first()) {
        trim_line_ends(s.drop_first())
    } else {
        seq![s[0]] + trim_line_ends(s.drop_first())
    }
}

/// The decimal digit for `d < 10`.
pub open spec fn digit_char(d: nat) -> char {
    if d == 0 { '0' }
    else if d == 1 { '1' }
    else if d == 2 { '2' }
    else if d == 3 { '3' }
    else if d == 4 { '4' }
    else if d == 5 { '5' }
    else if d == 6 { '6' }
    else if d == 7 { '7' }
    else if d == 8 { '8' }
    else { '9' }
}

/// The decimal notation of `n`, without leading zeros.
pub open spec fn decimal(n: nat) -> Seq<char>
    decreases n,
{
    if n < 10 {
        seq![digit_char(n)]
    } else {
        decimal(n / 10).push(digit_char(n % 10))
    }
}

/// The decimal notation of a signed integer, with a leading `-` when negative.
pub open spec fn decimal_int(n: int) -> Seq<char> {
    if n < 0 {
        seq!['-'] + decimal((-n) as nat)
    } else {
        decimal(n as nat)
    }
}

/// Number of bytes of the UTF-8 encoding of `c`.
pub open spec fn utf8_width(c: char) -> nat {
    if (c as u32) < 0x80 {
        1
    } else if (c as u32) < 0x800 {
        2
    } else if (c as u32) < 0x10000 {
        3
    } else {
        4
    }
}

/// Number of bytes of the UTF-8 encoding of `s`.
pub open spec fn utf8_len(s: Seq<char>) -> nat
    decreases s.len(),
{
    if s.len() == 0 {
        0
    } else {
        utf8_len(s.drop_last()) + utf8_width(s.last())
    }
}

/// The longest prefix of `s` whose UTF-8 encoding fits in `max` bytes.
pub open spec fn utf8_prefix(s: Seq<char>, max: nat) -> Seq<char>
    decreases s.len(),
{
    if utf8_len(s) <= max {
        s
    } else {
        utf8_prefix(s.drop_last(), max)
    }
}

/// The pieces of `s` between occurrences of `sep` (empty pieces included;
/// the empty text has one empty piece).
pub open spec fn split_on(s: Seq<char>, sep: char) -> Seq<Seq<char>>
    decreases s.len(),
{
    if s.len() == 0 {
        seq![Seq::<char>::empty()]
    } else if s.last() == sep {
        split_on(s.drop_last(), sep).push(Seq::<char>::empty())
    } else {
        let r = split_on(s.drop_last(), sep);
        r.update(r.len() - 1, r.last().push(s.last()))
    }
}

/// The non-empty pieces of `parts`, in order.
pub open spec fn non_empty(parts: Seq<Seq<char>>) -> Seq<Seq<char>>
    decreases parts.len(),
{
    if parts.len() == 0 {
        parts
    } else if parts.last().len() > 0 {
        non_empty(parts.drop_last()).push(parts.last())
    } else {
        non_empty(parts.drop_last())
    }
}

/// The pieces of `parts` joined with `sep` between neighbours.
pub open spec fn join(parts: Seq<Seq<char>>, sep: Seq<char>) -> Seq<char>
    decreases parts.len(),
{
    if parts.len() == 0 {
        Seq::empty()
    } else if parts.len() == 1 {
        parts[0]
    } else {
        join(parts.drop_last(), sep) + sep + parts.last()
    }
}

/// The piece lengths of `split_on` are never negative: `split_on` is never
/// empty.
pub proof fn lemma_split_on_nonempty(s: Seq<char>, sep: char)
    ensures
        split_on(s, sep).len() >= 1,
    decreases s.len(),
{
    if s.len() > 0 {
        lemma_split_on_nonempty(s.drop_last(), sep);
    }
}

/// Splits `s` at every `sep`, keeping empty pieces.
pub fn split_chars(s: &Vec<char>, sep: char) -> (r: Vec<Vec<char>>)
    ensures
        r@.len() == split_on(s@, sep).len(),
        forall|k: int| 0 <= k < r@.len() ==> #[trigger] r@[k]@ == split_on(s@, sep)[k],
{
    let mut done: Vec<Vec<char>> = Vec::new();
    let mut cur: Vec<char> = Vec::new();
    let mut i: usize = 0;
    assert(s@.take(0) =~= Seq::<char>::empty());
    while i < s.len()
        invariant
            i <= s.len(),
            done@.len() + 1 == split_on(s@.take(i as int), sep).len(),
            forall|k: int|
                0 <= k < done@.len() ==> #[trigger] done@[k]@ == split_on(s@.take(i as int), sep)[k],
            cur@ == split_on(s@.take(i as int), sep).last(),
        decreases s.len() - i,
    {
        let c = s[i];
        let ghost prev = split_on(s@.take(i as int), sep);
        assert(s@.take(i + 1).drop_last() =~= s@.take(i as int));
        assert(s@.take(i + 1).last() == c);
        if c == sep {
            done.push(cur);
            cur = Vec::new();
        } else {
            cur.push(c);
        }
        i = i + 1;
    }
    assert(s@.take(s.len() as int) =~= s@);
    done.push(cur);
    done
}

/// The non-empty pieces of `parts`, in order.
pub fn non_empty_parts(parts: &Vec<Vec<char>>) -> (r: Vec<Vec<char>>)
    ensures
        r@.len() == non_empty(parts@.map_values(|p: Vec<char>| p@)).len(),
        forall|k: int|
            0 <= k < r@.len() ==> #[trigger] r@[k]@ == non_empty(
                parts@.map_values(|p: Vec<char>| p@),
            )[k],
{
    let ghost views = parts@.map_values(|p: Vec<char>| p@);
    let mut out: Vec<Vec<char>> = Vec::new();
    let mut i: usize = 0;
    assert(views.take(0) =~= Seq::<Seq<char>>::empty());
    while i < parts.len()
        invariant
            i <= parts.len(),
            views == parts@.map_values(|p: Vec<char>| p@),
            out@.len() == non_empty(views.take(i as int)).len(),
            forall|k: int|
                0 <= k < out@.len() ==> #[trigger] out@[k]@ == non_empty(views.take(i as int))[k],
        decreases parts.len() - i,
    {
        assert(views.take(i + 1).drop_last() =~= views.take(i as int));
        assert(views.take(i + 1).last() == parts@[i as int]@);
        if parts[i].len() > 0 {
            out.push(parts[i].clone());
        }
        i = i + 1;
    }
    assert(views.take(parts.len() as int) =~= views);
    out
}

/// The pieces of `parts` joined with `sep` between neighbours.
pub fn join_parts(parts: &Vec<Vec<char>>, sep: &Vec<char>) -> (r: Vec<char>)
    ensures
        r@ == join(parts@.map_values(|p: Vec<char>| p@), sep@),
{
    let ghost views = parts@.map_values(|p: Vec<char>| p@);
    let mut out: Vec<char> = Vec::new();
    let mut i: usize = 0;
    assert(views.take(0) =~= Seq::<Seq<char>>::empty());
    while i < parts.len()
        invariant
            i <= parts.len(),
            views == parts@.map_values(|p: Vec<char>| p@),
            out@ == join(views.take(i as int), sep@),
        decreases parts.len() - i,
    {
        assert(views.take(i + 1).drop_last() =~= views.take(i as int));
        assert(views.take(i + 1).last() == parts@[i as int]@);
        if i > 0 {
            push_chars(&mut out, sep);
        } else {
            assert(views.take(1) =~= seq![parts@[0]@]);
        }
        push_chars(&mut out, &parts[i]);
        i = i + 1;
    }
    assert(views.take(parts.len() as int) =~= views);
    out
}

/// The longest prefix of `s` whose UTF-8 encoding fits in `max` bytes,
/// found by scanning from the front.
pub fn utf8_prefix_chars(s: &Vec<char>, max: usize) -> (r: Vec<char>)
    requires
        max < usize::MAX - 4,
    ensures
        r@ == utf8_prefix(s@, max as nat),
{
    let mut out: Vec<char> = Vec::new();
    let mut acc: usize = 0;
    let mut i: usize = 0;
    assert(s@.take(0) =~= Seq::<char>::empty());
    while i < s.len()
        invariant
            max < usize::MAX - 4,
            i <= s.len(),
            acc == utf8_len(s@.take(i as int)),
            acc <= max,
            out@ == s@.take(i as int),
        decreases s.len() - i,
    {
        let w = char_width(s[i]);
        assert(s@.take(i + 1).drop_last() =~= s@.take(i as int));
        if acc + w > max {
            proof {
                lemma_utf8_prefix_cut(s@, max as nat, i as int);
            }
            return out;
        }
        acc = acc + w;
        out.push(s[i]);
        i = i + 1;
        assert(out@ =~= s@.take(i as int));
    }
    assert(s@.take(s.len() as int) =~= s@);
    proof {
        lemma_utf8_prefix_cut(s@, max as nat, s.len() as int);
    }
    out
}

/// The encoded length of a prefix never exceeds that of a longer prefix.
pub proof fn lemma_utf8_len_monotone(s: Seq<char>, i: int, j: int)
    requires
        0 <= i <= j <= s.len(),
    ensures
        utf8_len(s.take(i)) <= utf8_len(s.take(j)),
    decreases j - i,
{
    if i < j {
        lemma_utf8_len_monotone(s, i, j - 1);
        assert(s.take(j).drop_last() =~= s.take(j - 1));
    }
}

/// A prefix that fits while the next longer one does not is the longest
/// prefix that fits.
pub proof fn lemma_utf8_prefix_cut(s: Seq<char>, max: nat, k: int)
    requires
        0 <= k <= s.len(),
        utf8_len(s.take(k)) <= max,
        k == s.len() || utf8_len(s.take(k + 1)) > max,
    ensures
        utf8_prefix(s, max) == s.take(k),
    decreases s.len(),
{
    if utf8_len(s) <= max {
        if k < s.len() {
            assert(s.take(s.len() as int) =~= s);
            lemma_utf8_len_monotone(s, k + 1, s.len() as int);
        }
        assert(s.take(k) =~= s);
    } else {
        if k == s.len() {
            assert(s.take(k) =~= s);
        }
        let t = s.drop_last();
        assert(t.take(k) =~= s.take(k));
        if k < t.len() {
            assert(t.take(k + 1) =~= s.take(k + 1));
        }
        lemma_utf8_prefix_cut(t, max, k);
    }
}

/// A property that every character of `s` has, every piece of
/// `split_on(s, sep)` has too; no piece holds `sep`.
pub proof fn lemma_split_pieces(s: Seq<char>, sep: char, p: spec_fn(char) -> bool)
    requires
        forall|i: int| 0 <= i < s.len() ==> p(s[i]),
    ensures
        forall|k: int, i: int|
            0 <= k < split_on(s, sep).len() && 0 <= i < split_on(s, sep)[k].len() ==> p(
                split_on(s, sep)[k][i],
            ) && split_on(s, sep)[k][i] != sep,
    decreases s.len(),
{
    if s.len() > 0 {
        lemma_split_pieces(s.drop_last(), sep, p);
        lemma_split_on_nonempty(s.drop_last(), sep);
        let r = split_on(s.drop_last(), sep);
        let q = split_on(s, sep);
        assert forall|k: int, i: int| 0 <= k < q.len() && 0 <= i < q[k].len() implies p(q[k][i])
            && q[k][i] != sep by {
            if s.last() != sep && k == r.len() - 1 {
                assert(q[k] == r.last().push(s.last()));
                if i < r.last().len() {
                    assert(q[k][i] == r[k][i]);
                } else {
                    assert(q[k][i] == s[s.len() - 1]);
                }
            } else if k < r.len() {
                assert(q[k] == r[k]);
            }
        }
    }
}

/// The pieces `non_empty` keeps come from its input and are non-empty.
pub proof fn lemma_non_empty_from(parts: Seq<Seq<char>>)
    ensures
        forall|k: int|
            0 <= k < non_empty(parts).len() ==> non_empty(parts)[k].len() > 0 && exists|j: int|
                0 <= j < parts.len() && parts[j] == non_empty(parts)[k],
    decreases parts.len(),
{
    if parts.len() > 0 {
        lemma_non_empty_from(parts.drop_last());
        let r = non_empty(parts.drop_last());
        let q = non_empty(parts);
        assert forall|k: int| 0 <= k < q.len() implies q[k].len() > 0 && exists|j: int|
            0 <= j < parts.len() && parts[j] == q[k] by {
            if k < r.len() {
                assert(q[k] == r[k]);
                let j = choose|j: int| 0 <= j < parts.drop_last().len() && parts.drop_last()[j] == r[k];
                assert(parts[j] == q[k]);
            } else {
                assert(parts[parts.len() - 1] == q[k]);
            }
        }
    }
}

/// A property that every character of the pieces and of the separator has,
/// every character of the joined text has too.
pub proof fn lemma_join_chars(parts: Seq<Seq<char>>, sep: Seq<char>, p: spec_fn(char) -> bool)
    requires
        forall|k: int, i: int| 0 <= k < parts.len() && 0 <= i < parts[k].len() ==> p(parts[k][i]),
        forall|i: int| 0 <= i < sep.len() ==> p(sep[i]),
    ensures
        forall|i: int| 0 <= i < join(parts, sep).len() ==> p(join(parts, sep)[i]),
    decreases parts.len(),
{
    if parts.len() > 1 {
        let a = join(parts.drop_last(), sep);
        lemma_join_chars(parts.drop_last(), sep, p);
        let j = join(parts, sep);
        assert forall|i: int| 0 <= i < j.len() implies p(j[i]) by {
            if i < a.len() {
                assert(j[i] == a[i]);
            } else if i < a.len() + sep.len() {
                assert(j[i] == sep[i - a.len()]);
            } else {
                assert(j[i] == parts[parts.len() - 1][i - a.len() - sep.len()]);
            }
        }
    } else if parts.len() == 1 {
        assert forall|i: int| 0 <= i < join(parts, sep).len() implies p(join(parts, sep)[i]) by {
            assert(join(parts, sep)[i] == parts[0][i]);
        }
    }
}

// ── trusted conversions ─────────────────────────────────────────────────────

/// Every character of `s` is ASCII.
pub open spec fn is_ascii_text(s: Seq<char>) -> bool {
    forall|i: int| 0 <= i < s.len() ==> (#[trigger] s[i] as u32) < 128
}

/// `c` with `A`..=`Z` turned into `a`..=`z`.
pub open spec fn ascii_lower_char(c: char) -> char {
    if 'A' <= c && c <= 'Z' {
        ((c as u32) + 32) as char
    } else {
        c
    }
}

/// `c` with `a`..=`z` turned into `A`..=`Z`.
pub open spec fn ascii_upper_char(c: char) -> char {
    if 'a' <= c && c <= 'z' {
        ((c as u32) - 32) as char
    } else {
        c
    }
}

/// `s` with its ASCII upper-case letters turned into lower case.
pub open spec fn ascii_lower(s: Seq<char>) -> Seq<char> {
    s.map_values(|c: char| ascii_lower_char(c))
}

/// Lower-casing ASCII text gives ASCII text that lower-casing again leaves
/// unchanged.
pub proof fn law_ascii_lower_is_idempotent(s: Seq<char>)
    requires
        is_ascii_text(s),
    ensures
        is_ascii_text(ascii_lower(s)),
        ascii_lower(ascii_lower(s)) == ascii_lower(s),
{
    assert forall|i: int| 0 <= i < s.len() implies (#[trigger] ascii_lower(s)[i] as u32) < 128 by {
        assert((s[i] as u32) < 128);
    }
    assert(ascii_lower(ascii_lower(s)) =~= ascii_lower(s));
}

/// The lower-case form of a text, as std's `str::to_lowercase` computes it
/// (Unicode lower-case mapping; the result depends on the text alone).
pub uninterp spec fn lowercase_of(s: Seq<char>) -> Seq<char>;

/// The rendering of a list of characters that std's `Debug` for `[char]`
/// produces, such as `['@', ' ']`; it depends on the characters alone.
pub uninterp spec fn debug_of_chars(v: Seq<char>) -> Seq<char>;

/// The text that std's `String::from_utf8_lossy` decodes from `bytes`
/// (invalid sequences become U+FFFD); it depends on the bytes alone.
pub uninterp spec fn lossy_decode(bytes: Seq<u8>) -> Seq<char>;

/// Whether std's `char::is_alphanumeric` holds of `c` (the Unicode
/// Alphabetic or Numeric property); it depends on the character alone.
pub uninterp spec fn alphanumeric(c: char) -> bool;

/// The characters std's `char::to_uppercase` yields for `c` (its Unicode
/// upper-case mapping, one to three characters); it depends on `c` alone.
pub uninterp spec fn uppercase_of(c: char) -> Seq<char>;

/// Whether `c` has the Unicode White_Space property, which is what std's
/// `char::is_whitespace` tests: tab through carriage return, space, NEL,
/// no-break space, ogham space mark, the spaces U+2000..=U+200A, line and
/// paragraph separators, narrow no-break space, medium mathematical space
/// and ideographic space.
pub open spec fn whitespace(c: char) -> bool {
    let n = c as u32;
    (0x09 <= n && n <= 0x0D) || n == 0x20 || n == 0x85 || n == 0xA0 || n == 0x1680 || (0x2000 <= n
        && n <= 0x200A) || n == 0x2028 || n == 0x2029 || n == 0x202F || n == 0x205F || n == 0x3000
}

/// Calls std's `char::is_alphanumeric`; the result is `alphanumeric(c)`.
/// An ASCII character is alphanumeric exactly when it is a letter or a
/// digit, which is stated.
#[verifier::external_body]
pub(crate) fn is_alphanumeric(c: char) -> (r: bool)
    ensures
        r == alphanumeric(c),
        (c as u32) < 128 ==> r == (('a' <= c && c <= 'z') || ('A' <= c && c <= 'Z') || ('0' <= c
            && c <= '9')),
{
    c.is_alphanumeric()
}

/// Calls std's `char::to_uppercase` and collects the characters it yields;
/// the result is `uppercase_of(c)`. An ASCII character maps to the one
/// character `ascii_upper_char(c)` (`a`..=`z` to `A`..=`Z`, any other to
/// itself), which is stated.
#[verifier::external_body]
pub(crate) fn to_uppercase(c: char) -> (r: Vec<char>)
    ensures
        r@ == uppercase_of(c),
        (c as u32) < 128 ==> r@ == seq![ascii_upper_char(c)],
{
    c.to_uppercase().collect()
}

/// Whether `c` is white space (see `whitespace`).
pub(crate) fn is_whitespace(c: char) -> (r: bool)
    ensures
        r == whitespace(c),
{
    let n = c as u32;
    (0x09 <= n && n <= 0x0D) || n == 0x20 || n == 0x85 || n == 0xA0 || n == 0x1680 || (0x2000 <= n
        && n <= 0x200A) || n == 0x2028 || n == 0x2029 || n == 0x202F || n == 0x205F || n == 0x3000
}

/// Calls std's `str::to_lowercase`; the result is `lowercase_of` the text.
/// On ASCII text the Unicode lower-case mapping turns `A`..=`Z` into
/// `a`..=`z` and leaves every other character as it is, which is stated.
#[verifier::external_body]
pub(crate) fn lowercase(s: &str) -> (r: String)
    ensures
        r@ == lowercase_of(s@),
        is_ascii_text(s@) ==> r@ == ascii_lower(s@),
{
    s.to_lowercase()
}

/// Renders a list of characters with std's `Debug` (`format!("{:?}", ..)`);
/// the result is `debug_of_chars` of the list.
#[verifier::external_body]
pub(crate) fn debug_chars(v: &Vec<char>) -> (r: String)
    ensures
        r@ == debug_of_chars(v@),
{
    format!("{:?}", v)
}

/// Calls std's `String::from_utf8_lossy`. The result is `lossy_decode` of the
/// bytes; on valid UTF-8 input std documents that nothing is replaced, so
/// the result is then the decoding of the bytes.
#[verifier::external_body]
pub(crate) fn utf8_lossy(bytes: &[u8]) -> (r: String)
    ensures
        r@ == lossy_decode(bytes@),
        vstd::utf8::valid_utf8(bytes@) ==> r@ == vstd::utf8::decode_utf8(bytes@),
{
    String::from_utf8_lossy(bytes).into_owned()
}

/// Builds a `String` from its characters (std's `FromIterator<char> for
/// String`); the string holds exactly the characters of `v`, in order.
#[verifier::external_body]
pub(crate) fn string_of(v: &Vec<char>) -> (s: String)
    ensures
        s@ == v@,
{
    v.iter().collect()
}

// ── executable operations ───────────────────────────────────────────────────

/// The characters of `s`, in order.
pub fn chars_of(s: &str) -> (v: Vec<char>)
    ensures
        v@ == s@,
{
    let mut v: Vec<char> = Vec::new();
    for c in it: s.chars()
        invariant
            v@ == it.seq().take(it.index() as int),
    {
        v.push(c);
    }
    v
}

/// Appends the characters of `s` to `v`.
pub fn push_str(v: &mut Vec<char>, s: &str)
    ensures
        final(v)@ == old(v)@ + s@,
{
    let ghost start = v@;
    for c in it: s.chars()
        invariant
            v@ == start + it.seq().take(it.index() as int),
    {
        v.push(c);
    }
}

/// Appends the characters of `w` to `v`.
pub fn push_chars(v: &mut Vec<char>, w: &Vec<char>)
    ensures
        final(v)@ == old(v)@ + w@,
{
    let ghost start = v@;
    let mut i: usize = 0;
    while i < w.len()
        invariant
            i <= w.len(),
            v@ == start + w@.subrange(0, i as int),
        decreases w.len() - i,
    {
        v.push(w[i]);
        i = i + 1;
        assert(w@.subrange(0, i as int) == w@.subrange(0, i - 1) + seq![w@[i - 1]]);
    }
    assert(w@.subrange(0, w.len() as int) == w@);
}

/// Whether `a` and `b` hold the same characters.
pub fn chars_eq(a: &Vec<char>, b: &Vec<char>) -> (r: bool)
    ensures
        r == (a@ == b@),
{
    if a.len() != b.len() {
        return false;
    }
    let mut i: usize = 0;
    while i < a.len()
        invariant
            a.len() == b.len(),
            i <= a.len(),
            forall|k: int| 0 <= k < i ==> a@[k] == b@[k],
        decreases a.len() - i,
    {
        if a[i] != b[i] {
            return false;
        }
        i = i + 1;
    }
    assert(a@ =~= b@);
    true
}

/// Whether `a` holds exactly the characters of `b`.
pub fn str_eq(a: &str, b: &str) -> (r: bool)
    ensures
        r == (a@ == b@),
{
    let x = chars_of(a);
    let y = chars_of(b);
    chars_eq(&x, &y)
}

/// Whether `pat` occurs in `s` at index `i`.
pub fn match_at(s: &Vec<char>, pat: &Vec<char>, i: usize) -> (r: bool)
    ensures
        r == is_match_at(s@, pat@, i as int),
{
    if i > s.len() || pat.len() > s.len() - i {
        return false;
    }
    let mut j: usize = 0;
    while j < pat.len()
        invariant
            i + pat.len() <= s.len(),
            j <= pat.len(),
            forall|k: int| 0 <= k < j ==> s@[i + k] == pat@[k],
        decreases pat.len() - j,
    {
        if s[i + j] != pat[j] {
            assert(s@.subrange(i as int, i + pat.len())[j as int] != pat@[j as int]);
            return false;
        }
        j = j + 1;
    }
    assert(s@.subrange(i as int, i + pat.len()) =~= pat@);
    true
}

/// Whether `pat` occurs somewhere in `s`.
pub fn contains(s: &Vec<char>, pat: &Vec<char>) -> (r: bool)
    ensures
        r == contains_seq(s@, pat@),
{
    if pat.len() > s.len() {
        assert(forall|i: int| !is_match_at(s@, pat@, i));
        return false;
    }
    let last = s.len() - pat.len();
    let mut i: usize = 0;
    while i <= last
        invariant
            last == s.len() - pat.len(),
            pat.len() <= s.len(),
            forall|k: int| 0 <= k < i ==> !is_match_at(s@, pat@, k),
        decreases last + 1 - i,
    {
        if match_at(s, pat, i) {
            return true;
        }
        if i == last {
            assert(forall|k: int| !is_match_at(s@, pat@, k));
            return false;
        }
        i = i + 1;
    }
    assert(forall|k: int| !is_match_at(s@, pat@, k));
    false
}

/// Whether the single character `c` occurs in `s`.
pub fn contains_char(s: &Vec<char>, c: char) -> (r: bool)
    ensures
        r == contains_seq(s@, seq![c]),
{
    let pat = vec![c];
    assert(pat@ =~= seq![c]);
    contains(s, &pat)
}

/// Index just past the matches `matches_from` finds from `i`: unfolding one
/// step of the search when there is no match at `i`.
proof fn lemma_matches_step(s: Seq<char>, pat: Seq<char>, i: int)
    requires
        pat.len() > 0,
        0 <= i,
    ensures
        i + pat.len() <= s.len() && is_match_at(s, pat, i) ==> matches_from(s, pat, i)
            == seq![i] + matches_from(s, pat, i + pat.len()),
        i + pat.len() <= s.len() && !is_match_at(s, pat, i) ==> matches_from(s, pat, i)
            == matches_from(s, pat, i + 1),
        i + pat.len() > s.len() ==> matches_from(s, pat, i) == Seq::<int>::empty(),
{
}

/// Start indices of the leftmost, non-overlapping occurrences of a non-empty
/// `pat` in `s`.
pub fn find_matches(s: &Vec<char>, pat: &Vec<char>) -> (v: Vec<usize>)
    requires
        pat@.len() > 0,
    ensures
        v@.len() == match_positions(s@, pat@).len(),
        forall|k: int| 0 <= k < v@.len() ==> v@[k] as int == match_positions(s@, pat@)[k],
{
    let mut v: Vec<usize> = Vec::new();
    let mut i: usize = 0;
    let ghost whole = match_positions(s@, pat@);
    while i <= s.len() && pat.len() <= s.len() - i
        invariant
            pat@.len() > 0,
            i <= s.len() + 1,
            whole == match_positions(s@, pat@),
            v@.len() + matches_from(s@, pat@, i as int).len() == whole.len(),
            forall|k: int| 0 <= k < v@.len() ==> v@[k] as int == whole[k],
            forall|k: int|
                0 <= k < matches_from(s@, pat@, i as int).len() ==> matches_from(
                    s@,
                    pat@,
                    i as int,
                )[k] == whole[v@.len() + k],
        decreases s.len() + 1 - i,
    {
        proof {
            lemma_matches_step(s@, pat@, i as int);
        }
        if match_at(s, pat, i) {
            let ghost rest = matches_from(s@, pat@, i + pat.len());
            assert(matches_from(s@, pat@, i as int) == seq![i as int] + rest);
            assert(whole[v@.len() as int] == i as int) by {
                assert(matches_from(s@, pat@, i as int)[0] == i as int);
            }
            assert forall|k: int| 0 <= k < rest.len() implies rest[k] == whole[v@.len() + 1 + k] by {
                assert(rest[k] == matches_from(s@, pat@, i as int)[k + 1]);
            }
            v.push(i);
            i = i + pat.len();
        } else {
            i = i + 1;
        }
    }
    proof {
        if i <= s.len() {
            lemma_matches_step(s@, pat@, i as int);
        }
    }
    v
}

/// `s` with every leftmost non-overlapping occurrence of a non-empty `pat`
/// replaced by `rep`.
pub fn replace_chars(s: &Vec<char>, pat: &Vec<char>, rep: &Vec<char>) -> (r: Vec<char>)
    requires
        pat@.len() > 0,
    ensures
        r@ == replace_all(s@, pat@, rep@),
{
    let mut out: Vec<char> = Vec::new();
    let mut i: usize = 0;
    while i < s.len()
        invariant
            pat@.len() > 0,
            i <= s.len(),
            out@ + replace_from(s@, pat@, rep@, i as int) == replace_all(s@, pat@, rep@),
        decreases s.len() - i,
    {
        if match_at(s, pat, i) {
            let ghost before = out@;
            push_chars(&mut out, rep);
            assert(replace_from(s@, pat@, rep@, i as int) == rep@ + replace_from(
                s@,
                pat@,
                rep@,
                i + pat.len(),
            ));
            assert(before + (rep@ + replace_from(s@, pat@, rep@, i + pat.len())) == out@
                + replace_from(s@, pat@, rep@, i + pat.len()));
            i = i + pat.len();
        } else {
            let ghost before = out@;
            out.push(s[i]);
            assert(replace_from(s@, pat@, rep@, i as int) == seq![s@[i as int]] + replace_from(
                s@,
                pat@,
                rep@,
                i + 1,
            ));
            assert(before + (seq![s@[i as int]] + replace_from(s@, pat@, rep@, i + 1)) == out@
                + replace_from(s@, pat@, rep@, i + 1));
            i = i + 1;
        }
    }
    assert(replace_from(s@, pat@, rep@, i as int) == Seq::<char>::empty());
    assert(out@ + Seq::<char>::empty() == out@);
    out
}

/// `s` with the occurrence of a pattern of length `pat_len` at index `p`
/// replaced by `rep`.
pub fn splice_chars(s: &Vec<char>, p: usize, pat_len: usize, rep: &Vec<char>) -> (r: Vec<char>)
    requires
        p + pat_len <= s.len(),
    ensures
        r@ == splice(s@, p as int, pat_len as int, rep@),
{
    let mut out: Vec<char> = Vec::new();
    let mut i: usize = 0;
    while i < p
        invariant
            p + pat_len <= s@.len(),
            i <= p,
            out@ == s@.subrange(0, i as int),
        decreases p - i,
    {
        out.push(s[i]);
        i = i + 1;
        assert(out@ =~= s@.subrange(0, i as int));
    }
    push_chars(&mut out, rep);
    let mut j: usize = p + pat_len;
    let ghost mid = out@;
    while j < s.len()
        invariant
            p + pat_len <= j <= s@.len(),
            mid == s@.subrange(0, p as int) + rep@,
            out@ == mid + s@.subrange(p + pat_len, j as int),
        decreases s.len() - j,
    {
        out.push(s[j]);
        j = j + 1;
        assert(out@ =~= mid + s@.subrange(p + pat_len, j as int));
    }
    out
}

/// `n` copies of `c`.
pub fn repeat(c: char, n: usize) -> (r: Vec<char>)
    ensures
        r@ == repeat_char(c, n as nat),
{
    let mut out: Vec<char> = Vec::new();
    let mut i: usize = 0;
    while i < n
        invariant
            i <= n,
            out@ == repeat_char(c, i as nat),
        decreases n - i,
    {
        out.push(c);
        i = i + 1;
        assert(out@ =~= repeat_char(c, i as nat));
    }
    out
}

/// `s` with the spaces and tabs at the end of every line removed.
pub fn trim_line_ends_chars(s: &Vec<char>) -> (r: Vec<char>)
    ensures
        r@ == trim_line_ends(s@),
{
    // eol[m] records whether s[m + 1..] is blank up to its first line break.
    let n = s.len();
    let mut eol: Vec<bool> = Vec::new();
    let mut k: usize = 0;
    while k < n
        invariant
            n == s.len(),
            k <= n,
            eol@.len() == k,
        decreases n - k,
    {
        eol.push(true);
        k = k + 1;
    }
    let mut j: usize = n;
    let mut cur = true;
    assert(s@.skip(n as int) =~= Seq::<char>::empty());
    while j > 0
        invariant
            n == s.len(),
            j <= n,
            eol@.len() == n,
            cur == blank_to_eol(s@.skip(j as int)),
            forall|m: int| j <= m < n ==> eol@[m] == blank_to_eol(s@.skip(m + 1)),
        decreases j,
    {
        j = j - 1;
        assert(s@.skip(j as int).drop_first() =~= s@.skip(j + 1));
        eol.set(j, cur);
        let c = s[j];
        cur = if c == '\n' {
            true
        } else if c == ' ' || c == '\t' {
            cur
        } else {
            false
        };
    }
    assert(s@.skip(0) =~= s@);
    let mut out: Vec<char> = Vec::new();
    let mut i: usize = 0;
    while i < n
        invariant
            n == s.len(),
            i <= n,
            eol@.len() == n,
            forall|m: int| 0 <= m < n ==> eol@[m] == blank_to_eol(s@.skip(m + 1)),
            out@ + trim_line_ends(s@.skip(i as int)) == trim_line_ends(s@),
        decreases n - i,
    {
        let ghost rest = s@.skip(i as int);
        assert(rest.drop_first() =~= s@.skip(i + 1));
        assert(rest[0] == s@[i as int]);
        let c = s[i];
        if (c == ' ' || c == '\t') && eol[i] {
        } else {
            let ghost before = out@;
            out.push(c);
            assert(before + (seq![c] + trim_line_ends(s@.skip(i + 1))) == out@ + trim_line_ends(
                s@.skip(i + 1),
            ));
        }
        i = i + 1;
    }
    assert(s@.skip(n as int) =~= Seq::<char>::empty());
    assert(trim_line_ends(s@.skip(n as int)) == Seq::<char>::empty());
    assert(out@ + Seq::<char>::empty() == out@);
    out
}

/// The decimal digit for `d < 10`.
fn digit(d: u128) -> (c: char)
    requires
        d < 10,
    ensures
        c == digit_char(d as nat),
{
    if d == 0 { '0' }
    else if d == 1 { '1' }
    else if d == 2 { '2' }
    else if d == 3 { '3' }
    else if d == 4 { '4' }
    else if d == 5 { '5' }
    else if d == 6 { '6' }
    else if d == 7 { '7' }
    else if d == 8 { '8' }
    else { '9' }
}

/// Appends the decimal notation of `n` to `v`.
pub fn push_decimal(v: &mut Vec<char>, n: u128)
    ensures
        final(v)@ == old(v)@ + decimal(n as nat),
    decreases n,
{
    if n >= 10 {
        push_decimal(v, n / 10);
    }
    v.push(digit(n % 10));
    assert(decimal(n as nat) == if n < 10 {
        seq![digit_char(n as nat)]
    } else {
        decimal((n / 10) as nat).push(digit_char((n % 10) as nat))
    });
}

/// Appends the decimal notation of the signed `n` to `v`.
pub fn push_decimal_i64(v: &mut Vec<char>, n: i64)
    ensures
        final(v)@ == old(v)@ + decimal_int(n as int),
{
    if n < 0 {
        v.push('-');
        let m: u128 = (0i128 - n as i128) as u128;
        push_decimal(v, m);
    } else {
        push_decimal(v, n as u128);
    }
}

/// The UTF-8 width of `c` in bytes.
pub fn char_width(c: char) -> (w: usize)
    ensures
        w == utf8_width(c),
{
    let u = c as u32;
    if u < 0x80 {
        1
    } else if u < 0x800 {
        2
    } else if u < 0x10000 {
        3
    } else {
        4
    }
}

} // verus!

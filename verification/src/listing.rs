//! What the read-only tools show: pages of directory listings, lines of a
//! tree, and the window of lines `get` returns from a file.

use vstd::prelude::*;
use crate::constants::{MAX_DEPTH_HARD_CAP, MAX_TREE_LINES, PAGE_SIZE};
use crate::text::{
    char_width, chars_of, decimal, join, join_parts, push_chars, push_decimal, push_str,
    string_of, utf8_len, utf8_width,
};

verus! {

// ── pages ───────────────────────────────────────────────────────────────────

/// The entries of the page that starts at `offset`: at most `PAGE_SIZE` of
/// them.
pub open spec fn page_of(entries: Seq<Seq<char>>, offset: nat) -> Seq<Seq<char>> {
    if offset >= entries.len() {
        Seq::empty()
    } else if offset + PAGE_SIZE >= entries.len() {
        entries.subrange(offset as int, entries.len() as int)
    } else {
        entries.subrange(offset as int, offset + PAGE_SIZE)
    }
}

/// Paging on from where a page ends walks through every entry once: a page
/// holds at most `PAGE_SIZE` entries, and the page at `offset` followed by
/// the entries after it is everything from `offset` on.
pub proof fn law_pages_follow_on(entries: Seq<Seq<char>>, offset: nat)
    requires
        offset <= entries.len(),
    ensures
        page_of(entries, offset).len() <= PAGE_SIZE,
        page_of(entries, offset) + entries.skip(offset + page_of(entries, offset).len() as int)
            == entries.skip(offset as int),
{
    let page = page_of(entries, offset);
    assert(page + entries.skip(offset + page.len() as int) =~= entries.skip(offset as int));
}

/// The listing text: a header naming the tool, the path and the range shown
/// (1-based, with a hint when more entries follow), then the page's entries,
/// one per line.
pub open spec fn page_text(tool: Seq<char>, path: Seq<char>, entries: Seq<Seq<char>>, offset: nat) -> Seq<
    char,
> {
    let page = page_of(entries, offset);
    let end = offset + page.len();
    tool + " '"@ + path + "'  ["@ + decimal(offset + 1) + "-"@ + decimal(end) + " of "@ + decimal(
        entries.len(),
    ) + (if end < entries.len() {
        ", use offset to page"@
    } else {
        Seq::empty()
    }) + "]"@ + "\n"@ + join(page, "\n"@)
}

/// Renders the page of `entries` that starts at `offset` for `ls` or `tree`
/// (see `page_text`).
pub fn page_listing(tool: &str, path: &str, entries: &Vec<String>, offset: usize) -> (r: String)
    ensures
        r@ == page_text(tool@, path@, entries@.map_values(|s: String| s@), offset as nat),
{
    let ghost all = entries@.map_values(|s: String| s@);
    let total = entries.len();
    let mut page: Vec<Vec<char>> = Vec::new();
    let mut i: usize = offset;
    let stop: usize = if offset >= total {
        offset
    } else if total - offset <= PAGE_SIZE {
        total
    } else {
        offset + PAGE_SIZE
    };
    let ghost expected = page_of(all, offset as nat);
    assert(expected.len() == stop - offset);
    while i < stop
        invariant
            offset <= i <= stop,
            stop <= total || stop == offset,
            total == entries@.len(),
            all == entries@.map_values(|s: String| s@),
            expected == page_of(all, offset as nat),
            expected.len() == stop - offset,
            page@.len() == i - offset,
            forall|k: int| 0 <= k < page@.len() ==> #[trigger] page@[k]@ == expected[k],
        decreases stop - i,
    {
        page.push(chars_of(entries[i].as_str()));
        assert(expected[i - offset] == all[i as int]);
        i = i + 1;
    }
    assert(page@.map_values(|p: Vec<char>| p@) =~= expected);
    let end = offset + page.len();
    let mut out: Vec<char> = Vec::new();
    push_str(&mut out, tool);
    push_str(&mut out, " '");
    push_str(&mut out, path);
    push_str(&mut out, "'  [");
    push_decimal(&mut out, offset as u128 + 1);
    push_str(&mut out, "-");
    push_decimal(&mut out, end as u128);
    push_str(&mut out, " of ");
    push_decimal(&mut out, total as u128);
    if end < total {
        push_str(&mut out, ", use offset to page");
    }
    push_str(&mut out, "]");
    push_str(&mut out, "\n");
    let nl = chars_of("\n");
    let body = join_parts(&page, &nl);
    push_chars(&mut out, &body);
    string_of(&out)
}

/// What `get` shows for a directory: a header naming the path, then the
/// entries, one per line.
pub open spec fn dir_listing_text(path: Seq<char>, entries: Seq<Seq<char>>) -> Seq<char> {
    "Directory listing for '"@ + path + "':\n"@ + join(entries, "\n"@)
}

/// Renders what `get` shows for the directory `path` holding `entries` (see
/// `dir_listing_text`).
pub fn dir_listing(path: &str, entries: &Vec<String>) -> (r: String)
    ensures
        r@ == dir_listing_text(path@, entries@.map_values(|s: String| s@)),
{
    let mut parts: Vec<Vec<char>> = Vec::new();
    let mut i: usize = 0;
    while i < entries.len()
        invariant
            i <= entries@.len(),
            parts@.len() == i,
            forall|k: int| 0 <= k < i ==> #[trigger] parts@[k]@ == entries@[k]@,
        decreases entries.len() - i,
    {
        parts.push(chars_of(entries[i].as_str()));
        i = i + 1;
    }
    assert(parts@.map_values(|p: Vec<char>| p@) =~= entries@.map_values(|s: String| s@));
    let mut out: Vec<char> = Vec::new();
    push_str(&mut out, "Directory listing for '");
    push_str(&mut out, path);
    push_str(&mut out, "':\n");
    let nl = chars_of("\n");
    let body = join_parts(&parts, &nl);
    push_chars(&mut out, &body);
    string_of(&out)
}

// ── tree lines ──────────────────────────────────────────────────────────────

/// One line of a tree: the prefix, a connector (`└── ` for the last entry
/// of a directory, `├── ` otherwise), the name, and `/` after a directory.
pub open spec fn tree_line_text(prefix: Seq<char>, is_last: bool, name: Seq<char>, is_dir: bool) -> Seq<
    char,
> {
    prefix + (if is_last {
        "└── "@
    } else {
        "├── "@
    }) + name + (if is_dir {
        "/"@
    } else {
        Seq::empty()
    })
}

/// Renders one entry of a tree (see `tree_line_text`).
pub fn tree_line(prefix: &str, is_last: bool, name: &str, is_dir: bool) -> (r: String)
    ensures
        r@ == tree_line_text(prefix@, is_last, name@, is_dir),
{
    let mut out = chars_of(prefix);
    if is_last {
        push_str(&mut out, "└── ");
    } else {
        push_str(&mut out, "├── ");
    }
    push_str(&mut out, name);
    if is_dir {
        push_str(&mut out, "/");
    }
    string_of(&out)
}

/// The prefix of the entries inside a directory listed after `prefix`:
/// blank under the last entry, a vertical bar otherwise.
pub fn child_prefix(prefix: &str, is_last: bool) -> (r: String)
    ensures
        r@ == prefix@ + (if is_last {
            "    "@
        } else {
            "│   "@
        }),
{
    let mut out = chars_of(prefix);
    if is_last {
        push_str(&mut out, "    ");
    } else {
        push_str(&mut out, "│   ");
    }
    string_of(&out)
}

// ── the line window of `get` ────────────────────────────────────────────────

/// The state of a ranged read after some lines: the number of lines seen,
/// the text collected, its length in bytes, whether the byte cap cut it
/// short, and whether reading has stopped.
pub struct WindowState {
    pub lineno: nat,
    pub out: Seq<char>,
    pub out_bytes: nat,
    pub truncated: bool,
    pub stopped: bool,
}

/// One line read: lines before `start` are skipped, a line past `end`
/// stops the read, a line that would take the text past `max` bytes stops
/// it as truncated, and any other line is kept with its line break.
pub open spec fn window_step(st: WindowState, line: Seq<char>, start: nat, end: nat, max: nat) -> WindowState {
    if st.stopped {
        st
    } else {
        let n = st.lineno + 1;
        if n < start {
            WindowState { lineno: n, ..st }
        } else if n > end {
            WindowState { lineno: n, stopped: true, ..st }
        } else if st.out_bytes + utf8_len(line) + 1 > max {
            WindowState { lineno: n, truncated: true, stopped: true, ..st }
        } else {
            WindowState {
                lineno: n,
                out: st.out + line + seq!['\n'],
                out_bytes: st.out_bytes + utf8_len(line) + 1,
                ..st
            }
        }
    }
}

/// The state after reading `lines` from the start of a file.
pub open spec fn window_after(lines: Seq<Seq<char>>, start: nat, end: nat, max: nat) -> WindowState
    decreases lines.len(),
{
    if lines.len() == 0 {
        WindowState { lineno: 0, out: Seq::empty(), out_bytes: 0, truncated: false, stopped: false }
    } else {
        window_step(window_after(lines.drop_last(), start, end, max), lines.last(), start, end, max)
    }
}

/// What a ranged read returns once reading has ended: an error when the
/// file ends before `start`, otherwise the collected lines, with a note
/// when the byte cap cut them short.
pub open spec fn window_result(st: WindowState, start: nat, max: nat) -> Result<Seq<char>, Seq<char>> {
    if st.lineno < start {
        Err(
            "404: start_line "@ + decimal(start) + " is past end of file (file has "@ + decimal(
                st.lineno,
            ) + " line(s))."@,
        )
    } else if st.truncated {
        Ok(st.out + "... (truncated at "@ + decimal(max) + " bytes; shorten the range)\n"@)
    } else {
        Ok(st.out)
    }
}

/// Lines joined as a file holds them: each followed by a newline.
pub open spec fn lines_text(ls: Seq<Seq<char>>) -> Seq<char>
    decreases ls.len(),
{
    if ls.len() == 0 {
        Seq::empty()
    } else {
        lines_text(ls.drop_last()) + ls.last() + seq!['\n']
    }
}

/// The number of UTF-8 bytes of `lines_text(ls)`, counted line by line.
pub open spec fn lines_bytes(ls: Seq<Seq<char>>) -> nat
    decreases ls.len(),
{
    if ls.len() == 0 {
        0
    } else {
        lines_bytes(ls.drop_last()) + utf8_len(ls.last()) + 1
    }
}

/// The lines of `ls` that a read of `start..=end` selects, as far as `ls`
/// reaches.
pub open spec fn selected(ls: Seq<Seq<char>>, start: nat, end: nat) -> Seq<Seq<char>> {
    let lo = if ls.len() < start - 1 {
        ls.len() as int
    } else {
        start - 1
    };
    let hi = if ls.len() < end {
        ls.len() as int
    } else {
        end as int
    };
    ls.subrange(lo, hi)
}

/// How a ranged read stands after the lines `ls`, when the selected lines
/// fit in `max` bytes.
proof fn lemma_window_fits(ls: Seq<Seq<char>>, start: nat, end: nat, max: nat)
    requires
        1 <= start <= end,
        lines_bytes(selected(ls, start, end)) <= max,
    ensures
        ({
            let w = window_after(ls, start, end, max);
            let k = ls.len();
            &&& !w.truncated
            &&& k < start ==> w.lineno == k && w.out == Seq::<char>::empty() && w.out_bytes == 0
                && !w.stopped
            &&& start <= k <= end ==> w.lineno == k && w.out == lines_text(selected(ls, start, end))
                && w.out_bytes == lines_bytes(selected(ls, start, end)) && !w.stopped
            &&& k > end ==> w.stopped && w.lineno == end + 1 && w.out == lines_text(
                selected(ls, start, end),
            )
        }),
    decreases ls.len(),
{
    let k = ls.len();
    if k > 0 {
        let p = ls.drop_last();
        let sel = selected(ls, start, end);
        let psel = selected(p, start, end);
        if k <= end {
            if k >= start {
                assert(sel.drop_last() =~= psel);
                assert(sel.last() == ls.last());
            } else {
                assert(psel =~= Seq::<Seq<char>>::empty());
            }
        } else {
            assert(psel =~= sel);
        }
        lemma_window_fits(p, start, end, max);
        if k >= start && k <= end && k - 1 < start {
            assert(psel =~= Seq::<Seq<char>>::empty());
            assert(sel.drop_last() =~= psel);
            assert(sel.last() == ls.last());
            assert(lines_text(psel) == Seq::<char>::empty());
            assert(lines_bytes(psel) == 0);
            assert(lines_bytes(sel) == lines_bytes(psel) + utf8_len(ls.last()) + 1);
            assert(lines_text(sel) =~= Seq::<char>::empty() + ls.last() + seq!['\n']);
        }
        if k >= start && k <= end && k - 1 >= start {
            assert(lines_text(sel) =~= lines_text(psel) + ls.last() + seq!['\n']);
            assert(lines_bytes(sel) == lines_bytes(psel) + utf8_len(ls.last()) + 1);
        }
    } else {
        assert(selected(ls, start, end) =~= Seq::<Seq<char>>::empty());
    }
}

/// A ranged read of `start..=end` that starts within the file returns
/// exactly the selected lines, each with its newline, when they fit in the
/// byte cap.
pub proof fn law_window_returns_selected_lines(lines: Seq<Seq<char>>, start: nat, end: nat, max: nat)
    requires
        1 <= start <= end,
        start <= lines.len(),
        lines_bytes(selected(lines, start, end)) <= max,
    ensures
        window_result(window_after(lines, start, end, max), start, max) == Ok::<
            Seq<char>,
            Seq<char>,
        >(lines_text(selected(lines, start, end))),
{
    lemma_window_fits(lines, start, end, max);
}

/// A ranged read that starts past the end of the file is refused, naming
/// the number of lines the file has.
pub proof fn law_window_past_end(lines: Seq<Seq<char>>, start: nat, end: nat, max: nat)
    requires
        1 <= start <= end,
        lines.len() < start,
    ensures
        window_result(window_after(lines, start, end, max), start, max) == Err::<
            Seq<char>,
            Seq<char>,
        >(
            "404: start_line "@ + decimal(start) + " is past end of file (file has "@ + decimal(
                lines.len(),
            ) + " line(s))."@,
        ),
{
    assert(selected(lines, start, end) =~= Seq::<Seq<char>>::empty());
    lemma_window_fits(lines, start, end, max);
}

/// The lines `start..=end` (1-based) of a file, read one line at a time so
/// that the file's size does not matter; only the returned text is capped
/// at `max_bytes` bytes.
pub struct LineWindow {
    start: u64,
    end: u64,
    max_bytes: usize,
    lineno: u64,
    out: Vec<char>,
    out_bytes: usize,
    truncated: bool,
    stopped: bool,
}

impl LineWindow {
    /// The state the window is in.
    pub closed spec fn state(&self) -> WindowState {
        WindowState {
            lineno: self.lineno as nat,
            out: self.out@,
            out_bytes: self.out_bytes as nat,
            truncated: self.truncated,
            stopped: self.stopped,
        }
    }

    pub closed spec fn start(&self) -> nat {
        self.start as nat
    }

    pub closed spec fn end(&self) -> nat {
        self.end as nat
    }

    pub closed spec fn max_bytes(&self) -> nat {
        self.max_bytes as nat
    }

    /// The window's own consistency: the collected text fits in the cap.
    pub closed spec fn wf(&self) -> bool {
        self.out_bytes <= self.max_bytes && self.max_bytes < usize::MAX
    }

    /// A window over lines `start..=end`, capped at `max_bytes`, before any
    /// line is read.
    pub fn new(start: u64, end: u64, max_bytes: usize) -> (r: LineWindow)
        requires
            max_bytes < usize::MAX,
        ensures
            r.wf(),
            r.state() == window_after(Seq::empty(), start as nat, end as nat, max_bytes as nat),
            r.start() == start,
            r.end() == end,
            r.max_bytes() == max_bytes,
    {
        LineWindow {
            start,
            end,
            max_bytes,
            lineno: 0,
            out: Vec::new(),
            out_bytes: 0,
            truncated: false,
            stopped: false,
        }
    }

    /// Whether the read has ended; no further line changes the window.
    pub fn is_done(&self) -> (r: bool)
        ensures
            r == self.state().stopped,
    {
        self.stopped
    }

    /// The number of lines read so far.
    pub fn lines_read(&self) -> (r: u64)
        ensures
            r == self.state().lineno,
    {
        self.lineno
    }

    /// Reads one more line (without its line break).
    pub fn feed(&mut self, line: &str)
        requires
            old(self).wf(),
            old(self).state().lineno < u64::MAX,
        ensures
            final(self).wf(),
            final(self).state() == window_step(
                old(self).state(),
                line@,
                old(self).start(),
                old(self).end(),
                old(self).max_bytes(),
            ),
            final(self).start() == old(self).start(),
            final(self).end() == old(self).end(),
            final(self).max_bytes() == old(self).max_bytes(),
    {
        if self.stopped {
            return;
        }
        self.lineno = self.lineno + 1;
        if self.lineno < self.start {
            return;
        }
        if self.lineno > self.end {
            self.stopped = true;
            return;
        }
        let chars = chars_of(line);
        // The line fits when its length is below max_bytes - out_bytes.
        let room = self.max_bytes - self.out_bytes;
        match utf8_len_within(&chars, room) {
            Some(n) if n < room => {
                let ghost before = self.out@;
                push_chars(&mut self.out, &chars);
                self.out.push('\n');
                assert(self.out@ =~= before + line@ + seq!['\n']);
                self.out_bytes = self.out_bytes + n + 1;
            },
            _ => {
                self.truncated = true;
                self.stopped = true;
            },
        }
    }

    /// What the read returns (see `window_result`).
    pub fn finish(self) -> (r: Result<String, String>)
        ensures
            match window_result(self.state(), self.start(), self.max_bytes()) {
                Ok(t) => r matches Ok(s) && s@ == t,
                Err(e) => r matches Err(m) && m@ == e,
            },
    {
        if self.lineno < self.start {
            let mut msg: Vec<char> = Vec::new();
            push_str(&mut msg, "404: start_line ");
            push_decimal(&mut msg, self.start as u128);
            push_str(&mut msg, " is past end of file (file has ");
            push_decimal(&mut msg, self.lineno as u128);
            push_str(&mut msg, " line(s)).");
            return Err(string_of(&msg));
        }
        let mut out = self.out;
        if self.truncated {
            push_str(&mut out, "... (truncated at ");
            push_decimal(&mut out, self.max_bytes as u128);
            push_str(&mut out, " bytes; shorten the range)\n");
        }
        Ok(string_of(&out))
    }
}

/// The UTF-8 length of `s` in bytes when it is at most `limit`.
fn utf8_len_within(s: &Vec<char>, limit: usize) -> (r: Option<usize>)
    ensures
        match r {
            Some(n) => n == utf8_len(s@) && n <= limit,
            None => utf8_len(s@) > limit,
        },
{
    let mut acc: usize = 0;
    let mut i: usize = 0;
    assert(s@.take(0) =~= Seq::<char>::empty());
    while i < s.len()
        invariant
            i <= s.len(),
            acc == utf8_len(s@.take(i as int)),
            acc <= limit,
        decreases s.len() - i,
    {
        let w = char_width(s[i]);
        assert(s@.take(i + 1).drop_last() =~= s@.take(i as int));
        if w > limit - acc {
            proof {
                crate::text::lemma_utf8_len_monotone(s@, i + 1, s@.len() as int);
                assert(s@.take(s@.len() as int) =~= s@);
            }
            return None;
        }
        acc = acc + w;
        i = i + 1;
    }
    assert(s@.take(s.len() as int) =~= s@);
    Some(acc)
}

// ── trees ───────────────────────────────────────────────────────────────────

/// A directory entry as `tree` shows it, with the entries inside it when it
/// is a directory that was read.
pub struct DirNode {
    pub name: String,
    pub is_dir: bool,
    pub children: Vec<DirNode>,
}

/// The lines of `n` and, when it is a directory less than `max_depth` deep,
/// of the entries inside it.
pub open spec fn node_lines(n: DirNode, prefix: Seq<char>, is_last: bool, depth: nat, max_depth: nat) -> Seq<
    Seq<char>,
>
    decreases n, n.children@.len() + 1,
{
    seq![tree_line_text(prefix, is_last, n.name@, n.is_dir)] + if n.is_dir && depth < max_depth {
        level_lines(
            n,
            0,
            prefix + (if is_last {
                "    "@
            } else {
                "│   "@
            }),
            depth + 1,
            max_depth,
        )
    } else {
        Seq::empty()
    }
}

/// The lines of the entries of `parent` from index `i` on.
pub open spec fn level_lines(parent: DirNode, i: nat, prefix: Seq<char>, depth: nat, max_depth: nat) -> Seq<
    Seq<char>,
>
    decreases parent, parent.children@.len() - i,
{
    if i >= parent.children@.len() {
        Seq::empty()
    } else {
        node_lines(
            parent.children@[i as int],
            prefix,
            i + 1 == parent.children@.len(),
            depth,
            max_depth,
        ) + level_lines(parent, i + 1, prefix, depth, max_depth)
    }
}

/// `lines` cut to at most `MAX_TREE_LINES` lines.
pub open spec fn capped(lines: Seq<Seq<char>>) -> Seq<Seq<char>> {
    if lines.len() <= MAX_TREE_LINES {
        lines
    } else {
        lines.take(MAX_TREE_LINES as int)
    }
}

/// The texts of a list of lines.
pub open spec fn line_texts(v: Seq<String>) -> Seq<Seq<char>> {
    v.map_values(|s: String| s@)
}

/// The lines `tree` shows for the entries of `root`, entering directories
/// to `max_depth` levels below it, cut at `MAX_TREE_LINES`.
pub open spec fn tree_text(root: DirNode, max_depth: nat) -> Seq<Seq<char>> {
    capped(level_lines(root, 0, Seq::empty(), 0, max_depth))
}

proof fn lemma_capped_absorbs(a: Seq<Seq<char>>, b: Seq<Seq<char>>)
    ensures
        capped(capped(a) + b) == capped(a + b),
{
    if a.len() > MAX_TREE_LINES {
        assert((a.take(MAX_TREE_LINES as int) + b).take(MAX_TREE_LINES as int) =~= (a + b).take(
            MAX_TREE_LINES as int,
        ));
    }
}

/// Appends to `out` the lines of the entries of `parent` (see `level_lines`),
/// stopping once `out` holds `MAX_TREE_LINES` lines.
fn push_level(parent: &DirNode, prefix: &str, depth: usize, max_depth: usize, out: &mut Vec<String>)
    requires
        old(out)@.len() <= MAX_TREE_LINES,
        depth <= max_depth,
    ensures
        final(out)@.len() <= MAX_TREE_LINES,
        line_texts(final(out)@) == capped(
            line_texts(old(out)@) + level_lines(*parent, 0, prefix@, depth as nat, max_depth as nat),
        ),
    decreases parent,
{
    let n = parent.children.len();
    let ghost whole = level_lines(*parent, 0, prefix@, depth as nat, max_depth as nat);
    let mut i: usize = 0;
    assert(line_texts(old(out)@) + level_lines(*parent, 0, prefix@, depth as nat, max_depth as nat)
        =~= line_texts(out@) + whole);
    while i < n
        invariant
            n == parent.children@.len(),
            i <= n,
            depth <= max_depth,
            out@.len() <= MAX_TREE_LINES,
            whole == level_lines(*parent, 0, prefix@, depth as nat, max_depth as nat),
            capped(
                line_texts(out@) + level_lines(*parent, i as nat, prefix@, depth as nat, max_depth as nat),
            ) == capped(line_texts(old(out)@) + whole),
        decreases n - i,
    {
        if out.len() >= MAX_TREE_LINES {
            proof {
                let rest = level_lines(*parent, i as nat, prefix@, depth as nat, max_depth as nat);
                assert((line_texts(out@) + rest).take(MAX_TREE_LINES as int) =~= line_texts(out@));
            }
            return;
        }
        let child = &parent.children[i];
        let is_last = i + 1 == n;
        let ghost before = line_texts(out@);
        let ghost node = node_lines(*child, prefix@, is_last, depth as nat, max_depth as nat);
        let ghost rest = level_lines(*parent, (i + 1) as nat, prefix@, depth as nat, max_depth as nat);
        let line = tree_line(prefix, is_last, child.name.as_str(), child.is_dir);
        out.push(line);
        let ghost with_line = line_texts(out@);
        assert(with_line =~= before.push(tree_line_text(prefix@, is_last, child.name@, child.is_dir)));
        if child.is_dir && depth < max_depth {
            let cp = child_prefix(prefix, is_last);
            push_level(child, cp.as_str(), depth + 1, max_depth, out);
            proof {
                let sub = level_lines(*child, 0, cp@, (depth + 1) as nat, max_depth as nat);
                assert(node =~= seq![tree_line_text(prefix@, is_last, child.name@, child.is_dir)] + sub);
                lemma_capped_absorbs(with_line + sub, rest);
                assert(with_line + sub + rest =~= before + (node + rest));
            }
        } else {
            proof {
                assert(node =~= seq![tree_line_text(prefix@, is_last, child.name@, child.is_dir)]);
                assert(capped(with_line) == with_line);
                assert(with_line + rest =~= before + (node + rest));
            }
        }
        i = i + 1;
    }
    proof {
        assert(line_texts(out@) + level_lines(*parent, n as nat, prefix@, depth as nat, max_depth as nat)
            =~= line_texts(out@));
    }
}

/// The lines of the tree below `root` (see `tree_text`).
pub fn tree_lines(root: &DirNode, max_depth: usize) -> (r: Vec<String>)
    ensures
        line_texts(r@) == tree_text(*root, max_depth as nat),
{
    let mut out: Vec<String> = Vec::new();
    assert(line_texts(out@) =~= Seq::<Seq<char>>::empty());
    push_level(root, "", 0, max_depth, &mut out);
    proof {
        reveal_strlit("");
        assert(""@ =~= Seq::<char>::empty());
        assert(Seq::<Seq<char>>::empty() + level_lines(*root, 0, ""@, 0, max_depth as nat)
            =~= level_lines(*root, 0, Seq::empty(), 0, max_depth as nat));
    }
    out
}

/// The depth `tree` descends to: the requested depth, or the project's
/// `max_depth` when none is given, at most `MAX_DEPTH_HARD_CAP`.
pub fn tree_depth(requested: Option<u64>, max_depth: usize) -> (r: usize)
    ensures
        r == (match requested {
            Some(d) => if d > MAX_DEPTH_HARD_CAP {
                MAX_DEPTH_HARD_CAP as int
            } else {
                d as int
            },
            None => if max_depth > MAX_DEPTH_HARD_CAP {
                MAX_DEPTH_HARD_CAP as int
            } else {
                max_depth as int
            },
        }),
{
    match requested {
        Some(d) => if d > MAX_DEPTH_HARD_CAP as u64 {
            MAX_DEPTH_HARD_CAP
        } else {
            d as usize
        },
        None => if max_depth > MAX_DEPTH_HARD_CAP {
            MAX_DEPTH_HARD_CAP
        } else {
            max_depth
        },
    }
}

// ── ordering ────────────────────────────────────────────────────────────────

/// `a` comes no later than `b` when texts are compared character by
/// character by code point, which is the order of their UTF-8 bytes and so
/// the order of `String`.
pub open spec fn lex_le(a: Seq<char>, b: Seq<char>) -> bool
    decreases a.len(),
{
    if a.len() == 0 {
        true
    } else if b.len() == 0 {
        false
    } else if a[0] != b[0] {
        (a[0] as int) < (b[0] as int)
    } else {
        lex_le(a.drop_first(), b.drop_first())
    }
}

proof fn lemma_lex_total(a: Seq<char>, b: Seq<char>)
    ensures
        lex_le(a, b) || lex_le(b, a),
    decreases a.len(),
{
    if a.len() > 0 && b.len() > 0 && a[0] == b[0] {
        lemma_lex_total(a.drop_first(), b.drop_first());
    }
}

proof fn lemma_lex_transitive(a: Seq<char>, b: Seq<char>, c: Seq<char>)
    requires
        lex_le(a, b),
        lex_le(b, c),
    ensures
        lex_le(a, c),
    decreases a.len(),
{
    if a.len() > 0 && b.len() > 0 && c.len() > 0 && a[0] == b[0] && b[0] == c[0] {
        lemma_lex_transitive(a.drop_first(), b.drop_first(), c.drop_first());
    }
}

/// Compares two texts (see `lex_le`).
pub fn text_le(a: &str, b: &str) -> (r: bool)
    ensures
        r == lex_le(a@, b@),
{
    let x = chars_of(a);
    let y = chars_of(b);
    let mut i: usize = 0;
    assert(x@.skip(0) =~= x@ && y@.skip(0) =~= y@);
    while i < x.len() && i < y.len()
        invariant
            i <= x@.len(),
            i <= y@.len(),
            x@ == a@,
            y@ == b@,
            lex_le(a@, b@) == lex_le(x@.skip(i as int), y@.skip(i as int)),
        decreases x.len() - i,
    {
        if x[i] != y[i] {
            proof {
                assert(x@.skip(i as int)[0] == x@[i as int]);
                assert(y@.skip(i as int)[0] == y@[i as int]);
            }
            return x[i] < y[i];
        }
        proof {
            assert(x@.skip(i as int).drop_first() =~= x@.skip(i + 1));
            assert(y@.skip(i as int).drop_first() =~= y@.skip(i + 1));
        }
        i = i + 1;
    }
    i == x.len()
}

/// Sorts texts into the order of `lex_le`, keeping every one of them.
pub fn sort_texts(v: Vec<String>) -> (r: Vec<String>)
    ensures
        r@.to_multiset() == v@.to_multiset(),
        forall|i: int, j: int| 0 <= i < j < r@.len() ==> lex_le(#[trigger] r@[i]@, #[trigger] r@[j]@),
{
    broadcast use vstd::seq_lib::group_to_multiset_ensures;

    let ghost orig = v@;
    let mut rest = v;
    let mut out: Vec<String> = Vec::new();
    assert(out@.to_multiset() =~= vstd::multiset::Multiset::<String>::empty());
    while rest.len() > 0
        invariant
            out@.to_multiset().add(rest@.to_multiset()) == orig.to_multiset(),
            forall|i: int, j: int| 0 <= i < j < out@.len() ==> lex_le(#[trigger] out@[i]@, #[trigger] out@[j]@),
        decreases rest.len(),
    {
        let ghost before = rest@;
        let x = rest.pop().unwrap();
        proof {
            assert(before =~= rest@.push(x));
            vstd::seq_lib::to_multiset_build(rest@, x);
        }
        let mut j: usize = 0;
        while j < out.len() && text_le(out[j].as_str(), x.as_str())
            invariant
                j <= out@.len(),
                forall|k: int| 0 <= k < j ==> lex_le(#[trigger] out@[k]@, x@),
            decreases out.len() - j,
        {
            j = j + 1;
        }
        let ghost old_out = out@;
        proof {
            if j < old_out.len() {
                lemma_lex_total(old_out[j as int]@, x@);
            }
        }
        out.insert(j, x);
        proof {
            vstd::seq_lib::to_multiset_insert(old_out, j as int, x);
            assert(out@.to_multiset().add(rest@.to_multiset()) =~= orig.to_multiset());
            assert forall|a: int, b: int| 0 <= a < b < out@.len() implies lex_le(
                #[trigger] out@[a]@,
                #[trigger] out@[b]@,
            ) by {
                if a < j && b == j {
                    assert(out@[a] == old_out[a]);
                } else if a < j && b > j {
                    assert(out@[a] == old_out[a] && out@[b] == old_out[b - 1]);
                } else if a == j {
                    assert(out@[b] == old_out[b - 1]);
                    if b - 1 > j {
                        lemma_lex_transitive(x@, old_out[j as int]@, old_out[b - 1]@);
                    }
                } else if a > j {
                    assert(out@[a] == old_out[a - 1] && out@[b] == old_out[b - 1]);
                } else {
                    assert(out@[a] == old_out[a] && out@[b] == old_out[b]);
                }
            }
        }
    }
    proof {
        assert(rest@ =~= Seq::<String>::empty());
        assert(rest@.to_multiset() =~= vstd::multiset::Multiset::<String>::empty());
        assert(out@.to_multiset().add(vstd::multiset::Multiset::empty()) =~= out@.to_multiset());
    }
    out
}

} // verus!

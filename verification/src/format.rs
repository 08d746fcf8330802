//! Formatting and layout helpers of the navigator UI: width-aware
//! truncation, search-hit segmentation, tab labels and the size guard.

use unicode_width::{UnicodeWidthChar, UnicodeWidthStr};
use vstd::prelude::*;
use crate::models::{CategoryTab, label_of};
use crate::mru::{fuzzy_indices, match_indices, positions};
use crate::text::{chars_of, decimal, decimal_chars, extend_chars, string_of, sub_chars};

verus! {

// ── Display widths ──

/// The display width `unicode_width` gives a character (`None` for a
/// control character).
pub uninterp spec fn char_width(c: char) -> Option<usize>;

/// The display width `unicode_width` gives a string.
pub uninterp spec fn str_width(s: Seq<char>) -> usize;

/// The display width of a character by `UnicodeWidthChar::width`: printable
/// ASCII is one column wide, the C0 and C1 control characters have none.
#[verifier::external_body]
fn char_width_of(c: char) -> (res: Option<usize>)
    ensures
        res == char_width(c),
        ' ' <= c < '\u{7F}' ==> res == Some(1usize),
        c < ' ' || ('\u{7F}' <= c < '\u{A0}') ==> res is None,
{
    UnicodeWidthChar::width(c)
}

/// The display width of a string by `UnicodeWidthStr::width`; the empty
/// string has width 0.
#[verifier::external_body]
fn str_width_of(s: &str) -> (res: usize)
    ensures
        res == str_width(s@),
        s@.len() == 0 ==> res == 0,
{
    UnicodeWidthStr::width(s)
}

/// The width a character counts for when truncating: control characters
/// count as zero.
pub open spec fn cw(c: char) -> int {
    match char_width(c) {
        Some(w) => w as int,
        None => 0,
    }
}

/// The ellipsis marking a cut.
pub open spec fn ellipsis() -> char {
    '…'
}

/// Truncation from position `i` with `w` columns used: characters are kept
/// while they leave room for the ellipsis.
pub open spec fn cut_back(s: Seq<char>, i: int, w: int, max: int) -> Seq<char>
    decreases s.len() - i,
{
    if i >= s.len() {
        s
    } else if w + cw(s[i]) + 1 > max {
        s.take(i).push(ellipsis())
    } else {
        cut_back(s, i + 1, w + cw(s[i]), max)
    }
}

/// `s` cut to `max` columns: unchanged when it fits, otherwise its longest
/// prefix that leaves a column for a trailing `…`, then `…`.
pub open spec fn truncated(s: Seq<char>, max: usize) -> Seq<char> {
    if max == 0 {
        seq![]
    } else if str_width(s) <= max {
        s
    } else {
        cut_back(s, 0, 0, max as int)
    }
}

/// Truncation from the end, before position `j`, with `w` columns used.
pub open spec fn cut_front(s: Seq<char>, j: int, w: int, budget: int) -> Seq<char>
    decreases j,
{
    if j <= 0 {
        s
    } else if w + cw(s[j - 1]) > budget {
        s.subrange(j, s.len() as int)
    } else {
        cut_front(s, j - 1, w + cw(s[j - 1]), budget)
    }
}

/// `s` cut to `max` columns keeping its tail: unchanged when it fits,
/// otherwise `…` followed by the longest suffix that fits in the remaining
/// columns.
pub open spec fn truncated_front(s: Seq<char>, max: usize) -> Seq<char> {
    if max == 0 {
        seq![]
    } else if str_width(s) <= max {
        s
    } else {
        seq![ellipsis()] + cut_front(s, s.len() as int, 0, max - 1)
    }
}

/// Truncates a string to the given display width, appending `…` when it
/// does not fit.
pub fn truncate_to(s: &str, max_width: usize) -> (res: String)
    ensures
        res@ == truncated(s@, max_width),
{
    if max_width == 0 {
        return String::new();
    }
    if str_width_of(s) <= max_width {
        return s.to_owned();
    }
    let c = chars_of(s);
    let mut i: usize = 0;
    let mut w: usize = 0;
    while i < c.len()
        invariant
            c@ == s@,
            i <= c@.len(),
            w < max_width,
            str_width(s@) > max_width,
            cut_back(s@, 0, 0, max_width as int) == cut_back(s@, i as int, w as int, max_width as int),
        decreases c@.len() - i,
    {
        let cwid: usize = match char_width_of(c[i]) {
            Some(x) => x,
            None => 0,
        };
        if cwid >= max_width - w {
            assert(cut_back(s@, i as int, w as int, max_width as int) == s@.take(i as int).push(ellipsis()));
            let mut out = sub_chars(c.as_slice(), 0, i);
            out.push('…');
            assert(out@ =~= s@.take(i as int).push(ellipsis()));
            return string_of(out.as_slice());
        }
        w = w + cwid;
        i = i + 1;
    }
    s.to_owned()
}

/// Truncates a string to the given display width keeping its tail,
/// prefixing `…` when it does not fit; suits file paths, where the base
/// name matters more than the leading directories.
pub fn truncate_front(s: &str, max_width: usize) -> (res: String)
    ensures
        res@ == truncated_front(s@, max_width),
{
    if max_width == 0 {
        return String::new();
    }
    if str_width_of(s) <= max_width {
        return s.to_owned();
    }
    let budget = max_width - 1;
    let c = chars_of(s);
    let mut j: usize = c.len();
    let mut w: usize = 0;
    let mut stop = false;
    while j > 0 && !stop
        invariant
            c@ == s@,
            j <= c@.len(),
            w <= budget,
            cut_front(s@, s@.len() as int, 0, budget as int) == cut_front(s@, j as int, w as int, budget as int),
            stop ==> j > 0 && w + cw(s@[j - 1]) > budget,
        decreases j as int + (if stop { 0int } else { 1int }),
    {
        let cwid: usize = match char_width_of(c[j - 1]) {
            Some(x) => x,
            None => 0,
        };
        if cwid > budget - w {
            stop = true;
        } else {
            w = w + cwid;
            j = j - 1;
        }
    }
    let mut out: Vec<char> = Vec::new();
    out.push('…');
    let tail = sub_chars(c.as_slice(), j, c.len());
    let mut k: usize = 0;
    while k < tail.len()
        invariant
            k <= tail@.len(),
            out@ == seq![ellipsis()] + tail@.take(k as int),
        decreases tail@.len() - k,
    {
        out.push(tail[k]);
        assert(out@ =~= seq![ellipsis()] + tail@.take(k + 1));
        k = k + 1;
    }
    assert(tail@.take(tail@.len() as int) =~= tail@);
    proof {
        if j > 0 {
            assert(cut_front(s@, j as int, w as int, budget as int) == s@.subrange(j as int, s@.len() as int));
        } else {
            assert(s@.subrange(0, s@.len() as int) =~= s@);
        }
    }
    string_of(out.as_slice())
}

// ── Search highlighting ──

/// The runs of the first `k` characters of `text` that are matched (in
/// `hits`) or not: each run is maximal, and the first run's flag is whether
/// position 0 is matched.
pub open spec fn runs(text: Seq<char>, hits: Set<usize>, k: int) -> Seq<(Seq<char>, bool)>
    decreases k,
{
    if k <= 0 {
        seq![(seq![], hits.contains(0usize))]
    } else {
        let prev = runs(text, hits, k - 1);
        let m = hits.contains((k - 1) as usize);
        let last = prev.last();
        if m == last.1 {
            prev.update(prev.len() - 1, (last.0.push(text[k - 1]), m))
        } else {
            prev.push((seq![text[k - 1]], m))
        }
    }
}

/// The views of text segments.
pub open spec fn segment_views(v: Seq<(String, bool)>) -> Seq<(Seq<char>, bool)> {
    v.map_values(|p: (String, bool)| (p.0@, p.1))
}

proof fn lemma_runs_nonempty(text: Seq<char>, hits: Set<usize>, k: int)
    ensures
        runs(text, hits, k).len() >= 1,
        k >= 0 ==> runs(text, hits, k).len() <= k + 1,
    decreases k,
{
    if k > 0 {
        lemma_runs_nonempty(text, hits, k - 1);
    }
}

/// Splits `text` into runs of characters that are at `matched` positions
/// (flag `true`) or not (flag `false`), merging neighbours of the same kind.
pub fn highlight_segments(text: &str, matched: &[usize]) -> (res: Vec<(String, bool)>)
    ensures
        segment_views(res@) == runs(text@, matched@.to_set(), text@.len() as int),
{
    let c = chars_of(text);
    let ghost hits = matched@.to_set();
    let first = contains_pos(matched, 0);
    let mut done: Vec<(Vec<char>, bool)> = Vec::new();
    let mut cur: Vec<char> = Vec::new();
    let mut flag: bool = first;
    let mut i: usize = 0;
    proof {
        lemma_runs_nonempty(text@, hits, 0);
    }
    while i < c.len()
        invariant
            c@ == text@,
            i <= c@.len(),
            hits == matched@.to_set(),
            runs(text@, hits, i as int).len() == done@.len() + 1,
            forall|j: int| 0 <= j < done@.len() ==> (#[trigger] done@[j]).0@ == runs(text@, hits, i as int)[j].0
                && done@[j].1 == runs(text@, hits, i as int)[j].1,
            runs(text@, hits, i as int).last() == (cur@, flag),
        decreases c@.len() - i,
    {
        let m = contains_pos(matched, i);
        let ghost prev = runs(text@, hits, i as int);
        if m == flag {
            cur.push(c[i]);
            proof {
                let next = runs(text@, hits, i + 1);
                assert(next == prev.update(prev.len() - 1, (prev.last().0.push(text@[i as int]), m)));
            }
        } else {
            let seg = cur;
            done.push((seg, flag));
            cur = Vec::new();
            cur.push(c[i]);
            flag = m;
            proof {
                let next = runs(text@, hits, i + 1);
                assert(next == prev.push((seq![text@[i as int]], m)));
                assert(cur@ =~= seq![text@[i as int]]);
            }
        }
        i = i + 1;
    }
    done.push((cur, flag));
    let mut out: Vec<(String, bool)> = Vec::new();
    let mut k: usize = 0;
    let ghost r = runs(text@, hits, text@.len() as int);
    while k < done.len()
        invariant
            k <= done@.len(),
            done@.len() == r.len(),
            forall|j: int| 0 <= j < done@.len() ==> (#[trigger] done@[j]).0@ == r[j].0 && done@[j].1 == r[j].1,
            segment_views(out@) == r.take(k as int),
        decreases done@.len() - k,
    {
        let s = string_of(done[k].0.as_slice());
        let ghost before = out@;
        out.push((s, done[k].1));
        assert(segment_views(out@) =~= segment_views(before).push((s@, done@[k as int].1)));
        assert(r.take(k + 1) =~= r.take(k as int).push(r[k as int]));
        k = k + 1;
    }
    assert(r.take(r.len() as int) =~= r);
    out
}

fn contains_pos(v: &[usize], x: usize) -> (res: bool)
    ensures
        res == v@.to_set().contains(x),
{
    let mut i: usize = 0;
    while i < v.len()
        invariant
            i <= v@.len(),
            forall|j: int| 0 <= j < i ==> v@[j] != x,
        decreases v@.len() - i,
    {
        if v[i] == x {
            assert(v@.contains(x));
            return true;
        }
        i = i + 1;
    }
    assert(!v@.contains(x));
    false
}

/// The segments `highlight_text` gives when `matched` are the hit positions:
/// the whole text unmarked when there are none, its runs otherwise.
pub open spec fn highlighted(text: Seq<char>, hits: Set<usize>) -> Seq<(Seq<char>, bool)> {
    if hits.is_empty() {
        seq![(text, false)]
    } else {
        runs(text, hits, text.len() as int)
    }
}

/// Splits `text` into segments to draw plainly (`false`) or highlighted
/// (`true`) for the search `query`: the characters fuzzy-matching the query
/// (case-insensitively, see `match_indices`) are highlighted, neighbours of
/// the same kind merged. Without a query or a match the whole text is one
/// plain segment.
pub fn highlight_text(text: &str, query: &str) -> (res: Vec<(String, bool)>)
    ensures
        query@.len() == 0 ==> segment_views(res@) == seq![(text@, false)],
        query@.len() > 0 ==> segment_views(res@) == match fuzzy_indices(query@, text@) {
            Some(raw) => highlighted(text@, positions(raw).to_set()),
            None => seq![(text@, false)],
        },
{
    if query.is_empty() {
        let mut v: Vec<(String, bool)> = Vec::new();
        v.push((text.to_owned(), false));
        assert(segment_views(v@) =~= seq![(text@, false)]);
        return v;
    }
    let matched = match_indices(text, query);
    proof {
        match fuzzy_indices(query@, text@) {
            Some(raw) => {
                assert(matched@.to_set() == positions(raw).to_set());
                if matched@.len() > 0 {
                    assert(matched@.to_set().contains(matched@[0]));
                } else {
                    assert(matched@.to_set() =~= Set::<usize>::empty());
                }
            },
            None => {},
        }
    }
    if matched.len() == 0 {
        let mut v: Vec<(String, bool)> = Vec::new();
        v.push((text.to_owned(), false));
        assert(segment_views(v@) =~= seq![(text@, false)]);
        return v;
    }
    highlight_segments(text, matched.as_slice())
}

// ── Tab labels ──

/// The label of a category tab; narrow terminals abbreviate Workspaces.
pub open spec fn tab_label_of(tab: CategoryTab, narrow: bool) -> Seq<char> {
    if narrow && tab == CategoryTab::Workspaces {
        "WS"@
    } else {
        label_of(tab)
    }
}

/// The label shown for a category tab, abbreviated when `narrow`.
pub fn tab_label(tab: &CategoryTab, narrow: bool) -> (res: &'static str)
    ensures
        res@ == tab_label_of(*tab, narrow),
{
    if narrow {
        match tab {
            CategoryTab::Workspaces => "WS",
            CategoryTab::Tabs => "Tabs",
            CategoryTab::Panes => "Panes",
            CategoryTab::Agents => "Agents",
            CategoryTab::Others => "Others",
            CategoryTab::All => "All",
        }
    } else {
        tab.label()
    }
}

// ── Column header and search bar ──

/// The views of a list of string slices.
pub open spec fn strs_view(v: Seq<&'static str>) -> Seq<Seq<char>> {
    v.map_values(|s: &'static str| s@)
}

/// The column labels of a category's list.
pub open spec fn header_labels_of(cat: CategoryTab) -> Seq<Seq<char>> {
    match cat {
        CategoryTab::Panes => seq!["Pane"@, "Tab"@, "Workspace"@, "Agent"@],
        CategoryTab::Tabs => seq!["Tab"@, "Workspace"@, "Agent"@],
        CategoryTab::Agents => seq!["Agent"@, "Tab"@, "Workspace"@],
        CategoryTab::Others => seq!["Type"@, "Detail"@, "Context"@, "Pane"@],
        CategoryTab::Workspaces | CategoryTab::All => seq!["Workspace"@, "Agent"@],
    }
}

/// The layout column the first label stands in: after the row number, and
/// for agents after the status icon too.
pub open spec fn header_start_of(cat: CategoryTab) -> usize {
    if cat == CategoryTab::Agents {
        2
    } else {
        1
    }
}

/// The column header of a category's list: its labels and the layout
/// column of the first one.
pub fn column_header(cat: &CategoryTab) -> (res: (Vec<&'static str>, usize))
    ensures
        strs_view(res.0@) == header_labels_of(*cat),
        res.1 == header_start_of(*cat),
{
    let mut v: Vec<&'static str> = Vec::new();
    match cat {
        CategoryTab::Panes => {
            v.push("Pane");
            v.push("Tab");
            v.push("Workspace");
            v.push("Agent");
        },
        CategoryTab::Tabs => {
            v.push("Tab");
            v.push("Workspace");
            v.push("Agent");
        },
        CategoryTab::Agents => {
            v.push("Agent");
            v.push("Tab");
            v.push("Workspace");
        },
        CategoryTab::Others => {
            v.push("Type");
            v.push("Detail");
            v.push("Context");
            v.push("Pane");
        },
        CategoryTab::Workspaces | CategoryTab::All => {
            v.push("Workspace");
            v.push("Agent");
        },
    }
    assert(strs_view(v@) =~= header_labels_of(*cat));
    let start: usize = match cat {
        CategoryTab::Agents => 2,
        _ => 1,
    };
    (v, start)
}

/// The count at the right of the search bar: the number of rows while the
/// query is empty, else `matched/total`.
pub open spec fn search_count_of(query_empty: bool, matched: nat, total: nat) -> Seq<char> {
    if query_empty {
        decimal(total)
    } else {
        decimal(matched) + seq!['/'] + decimal(total)
    }
}

/// The search bar's count for `query` with `matched` of `total` rows shown.
pub fn search_count(query: &str, matched: usize, total: usize) -> (res: String)
    ensures
        res@ == search_count_of(query@.len() == 0, matched as nat, total as nat),
{
    let t = decimal_chars(total as u64);
    if query.is_empty() {
        string_of(t.as_slice())
    } else {
        let mut out = decimal_chars(matched as u64);
        out.push('/');
        extend_chars(&mut out, t.as_slice());
        string_of(out.as_slice())
    }
}

// ── Terminal size guard ──

/// Whether a terminal area of `width` × `height` cells is large enough to
/// draw the navigator: at least 20 columns and 4 rows.
pub fn min_terminal_size(width: u16, height: u16) -> (res: bool)
    ensures
        res == (width >= 20 && height >= 4),
{
    width >= 20 && height >= 4
}

// ── List scrolling ──

/// The first row shown of a list of `len` rows in a window of `visible`
/// rows: the selection is kept near the middle, and the window never runs
/// past the end.
pub open spec fn scroll_offset_of(len: usize, visible: usize, selected: usize) -> int {
    if visible == 0 || len <= visible {
        0
    } else {
        let target = if selected >= visible / 2 {
            selected - visible / 2
        } else {
            0
        };
        if target <= len - visible {
            target
        } else {
            len - visible
        }
    }
}

/// The scroll offset of a list (see [`scroll_offset_of`]); a selected row
/// of the list is always within the window.
pub fn scroll_offset(len: usize, visible: usize, selected: usize) -> (res: usize)
    ensures
        res == scroll_offset_of(len, visible, selected),
        selected < len && visible > 0 ==> res <= selected < res + visible,
{
    if visible == 0 || len <= visible {
        0
    } else {
        let target = if selected >= visible / 2 {
            selected - visible / 2
        } else {
            0
        };
        let max_offset = len - visible;
        if target <= max_offset {
            target
        } else {
            max_offset
        }
    }
}

} // verus!

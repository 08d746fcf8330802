//! Character-level string helpers used throughout the library.
//!
//! Strings are modelled by their `Seq<char>` views; the helpers here turn
//! `&str` values into character vectors and back, and give executable,
//! verified versions of the small text operations the rest of the crate
//! needs (whitespace splitting, trimming, substring search, ordering).

use vstd::prelude::*;
use vstd::std_specs::iter::IteratorSpec;

verus! {

/// The characters of `s`, in order.
pub fn chars_of(s: &str) -> (res: Vec<char>)
    ensures
        res@ == s@,
{
    let mut out: Vec<char> = Vec::new();
    let it = s.chars();
    for c in iter: it
        invariant
            iter.seq() == s@,
            out@ == iter.seq().take(iter.index() as int),
    {
        out.push(c);
    }
    out
}

/// Appends one character to a string (`String::push`).
#[verifier::external_body]
pub(crate) fn push_char(s: &mut String, c: char)
    ensures
        final(s)@ == old(s)@.push(c),
{
    s.push(c);
}

/// Builds a string holding exactly the characters of `v`.
pub fn string_of(v: &[char]) -> (res: String)
    ensures
        res@ == v@,
{
    let mut out = String::new();
    let mut i: usize = 0;
    while i < v.len()
        invariant
            i <= v.len(),
            out@ == v@.take(i as int),
        decreases v.len() - i,
    {
        push_char(&mut out, v[i]);
        i = i + 1;
        assert(out@ == v@.take(i as int));
    }
    assert(v@.take(v@.len() as int) == v@);
    out
}

/// Unicode `White_Space`, the property behind `char::is_whitespace`.
pub open spec fn is_ws(c: char) -> bool {
    let u = c as u32;
    ||| 0x09 <= u <= 0x0D
    ||| u == 0x20
    ||| u == 0x85
    ||| u == 0xA0
    ||| u == 0x1680
    ||| 0x2000 <= u <= 0x200A
    ||| u == 0x2028
    ||| u == 0x2029
    ||| u == 0x202F
    ||| u == 0x205F
    ||| u == 0x3000
}

/// Whether `c` is Unicode white space (the same set as `char::is_whitespace`).
pub fn is_whitespace(c: char) -> (res: bool)
    ensures
        res == is_ws(c),
{
    let u = c as u32;
    (0x09 <= u && u <= 0x0D) || u == 0x20 || u == 0x85 || u == 0xA0 || u == 0x1680 || (0x2000 <= u
        && u <= 0x200A) || u == 0x2028 || u == 0x2029 || u == 0x202F || u == 0x205F || u == 0x3000
}

/// General category `Cc`, the set behind `char::is_control`.
pub open spec fn is_ctrl(c: char) -> bool {
    let u = c as u32;
    u <= 0x1F || (0x7F <= u && u <= 0x9F)
}

/// Whether `c` is a control character (the same set as `char::is_control`).
pub fn is_control(c: char) -> (res: bool)
    ensures
        res == is_ctrl(c),
{
    let u = c as u32;
    u <= 0x1F || (0x7F <= u && u <= 0x9F)
}

/// The lowercase form `str::to_lowercase` gives a string.
pub uninterp spec fn lowercase_str(s: Seq<char>) -> Seq<char>;

/// Lowercases a whole string with `str::to_lowercase`, which follows
/// Unicode's case mapping with its context rules (a final capital sigma
/// becomes `ς`) and may change a character into several. The result is
/// `lowercase_str` of the text; nothing more is stated of the mapping.
#[verifier::external_body]
pub(crate) fn to_lowercase_str(s: &str) -> (res: String)
    ensures
        res@ == lowercase_str(s@),
{
    s.to_lowercase()
}

// ── UTF-8 byte offsets ──

/// The number of bytes UTF-8 spends on `c`.
pub open spec fn utf8_len(c: char) -> nat {
    if (c as u32) < 0x80 {
        1
    } else if (c as u32) < 0x800 {
        2
    } else if (c as u32) < 0x10000 {
        3
    } else {
        4
    }
}

/// The number of bytes of `s` in UTF-8.
pub open spec fn byte_len(s: Seq<char>) -> nat
    decreases s.len(),
{
    if s.len() == 0 {
        0
    } else {
        byte_len(s.drop_last()) + utf8_len(s.last())
    }
}

/// The index of the character of `s` that starts at byte offset `b` (the
/// length of `s` for its end); `None` when no character boundary of `s` is
/// at `b`.
pub open spec fn char_at_byte(s: Seq<char>, b: int) -> Option<int> {
    if exists|j: int| 0 <= j <= s.len() && #[trigger] byte_len(s.take(j)) == b {
        Some(choose|j: int| 0 <= j <= s.len() && #[trigger] byte_len(s.take(j)) == b)
    } else {
        None
    }
}

/// Each character adds its own bytes to a prefix.
pub proof fn lemma_byte_len_step(s: Seq<char>, i: int)
    requires
        0 <= i < s.len(),
    ensures
        byte_len(s.take(i + 1)) == byte_len(s.take(i)) + utf8_len(s[i]),
        byte_len(s.take(i)) <= 4 * i,
{
    assert(s.take(i + 1).drop_last() =~= s.take(i));
    lemma_byte_len_bound(s, i);
}

/// A prefix of `i` characters has at most `4 * i` bytes.
pub proof fn lemma_byte_len_bound(s: Seq<char>, i: int)
    requires
        0 <= i <= s.len(),
    ensures
        byte_len(s.take(i)) <= 4 * i,
    decreases i,
{
    if i > 0 {
        lemma_byte_len_bound(s, i - 1);
        assert(s.take(i).drop_last() =~= s.take(i - 1));
    }
}

/// Longer prefixes have strictly more bytes.
pub proof fn lemma_byte_len_strict(s: Seq<char>, i: int, j: int)
    requires
        0 <= i < j <= s.len(),
    ensures
        byte_len(s.take(i)) < byte_len(s.take(j)),
    decreases j - i,
{
    assert(s.take(j).drop_last() =~= s.take(j - 1));
    if i < j - 1 {
        lemma_byte_len_strict(s, i, j - 1);
    }
}

fn utf8_width(c: char) -> (res: u128)
    ensures
        res == utf8_len(c),
{
    let u = c as u32;
    if u < 0x80 {
        1
    } else if u < 0x800 {
        2
    } else if u < 0x10000 {
        3
    } else {
        4
    }
}

/// The number of bytes of the first `k` characters of `s`.
pub fn prefix_bytes(s: &[char], k: usize) -> (res: u128)
    requires
        k <= s.len(),
    ensures
        res == byte_len(s@.take(k as int)),
{
    let mut acc: u128 = 0;
    let mut i: usize = 0;
    assert(s@.take(0) =~= Seq::<char>::empty());
    while i < k
        invariant
            i <= k <= s.len(),
            acc == byte_len(s@.take(i as int)),
            acc <= 4 * i,
        decreases k - i,
    {
        proof {
            lemma_byte_len_step(s@, i as int);
        }
        acc = acc + utf8_width(s[i]);
        i = i + 1;
    }
    acc
}

/// The index of the character of `s` that starts at byte offset `b`, if any
/// (see [`char_at_byte`]).
pub fn char_index_at_byte(s: &[char], b: u128) -> (res: Option<usize>)
    ensures
        match res {
            Some(j) => char_at_byte(s@, b as int) == Some(j as int) && j <= s.len(),
            None => char_at_byte(s@, b as int) is None,
        },
{
    let mut acc: u128 = 0;
    let mut j: usize = 0;
    assert(s@.take(0) =~= Seq::<char>::empty());
    while j < s.len() && acc < b
        invariant
            j <= s.len(),
            acc == byte_len(s@.take(j as int)),
            acc <= 4 * j,
            forall|k: int| 0 <= k < j ==> #[trigger] byte_len(s@.take(k)) < b,
        decreases s.len() - j,
    {
        proof {
            lemma_byte_len_step(s@, j as int);
            assert forall|k: int| 0 <= k < j + 1 implies #[trigger] byte_len(s@.take(k)) < b by {
                if k == j {
                } else {
                    lemma_byte_len_strict(s@, k, j as int);
                }
            }
        }
        acc = acc + utf8_width(s[j]);
        j = j + 1;
    }
    if acc == b {
        proof {
            assert(byte_len(s@.take(j as int)) == b);
            let c = choose|c: int| 0 <= c <= s@.len() && #[trigger] byte_len(s@.take(c)) == b;
            if c < j {
                lemma_byte_len_strict(s@, c, j as int);
            } else if c > j {
                lemma_byte_len_strict(s@, j as int, c);
            }
        }
        Some(j)
    } else {
        proof {
            assert forall|c: int| 0 <= c <= s@.len() implies #[trigger] byte_len(s@.take(c)) != b by {
                if c < j {
                } else if c > j {
                    lemma_byte_len_strict(s@, j as int, c);
                }
            }
        }
        None
    }
}

/// Appends the characters of `more` to `out`.
pub fn extend_chars(out: &mut Vec<char>, more: &[char])
    ensures
        final(out)@ == old(out)@ + more@,
{
    let mut i: usize = 0;
    let ghost start = out@;
    while i < more.len()
        invariant
            i <= more.len(),
            out@ == start + more@.take(i as int),
        decreases more.len() - i,
    {
        out.push(more[i]);
        i = i + 1;
        assert(out@ =~= start + more@.take(i as int));
    }
    assert(more@.take(more@.len() as int) =~= more@);
}

/// Appends the characters of `s` to `out`.
pub fn extend_str(out: &mut Vec<char>, s: &str)
    ensures
        final(out)@ == old(out)@ + s@,
{
    let c = chars_of(s);
    extend_chars(out, c.as_slice());
}

/// Whether `v` holds exactly the characters of `s`.
pub fn eq_str(v: &[char], s: &str) -> (res: bool)
    ensures
        res == (v@ == s@),
{
    let w = chars_of(s);
    eq_chars(v, w.as_slice())
}

/// Whether two strings hold the same characters.
pub fn str_eq(a: &str, b: &str) -> (res: bool)
    ensures
        res == (a@ == b@),
{
    let x = chars_of(a);
    eq_str(x.as_slice(), b)
}

/// Whether two character slices are equal.
pub fn eq_chars(a: &[char], b: &[char]) -> (res: bool)
    ensures
        res == (a@ == b@),
{
    if a.len() != b.len() {
        return false;
    }
    let mut i: usize = 0;
    while i < a.len()
        invariant
            a.len() == b.len(),
            i <= a.len(),
            forall|j: int| 0 <= j < i ==> a@[j] == b@[j],
        decreases a.len() - i,
    {
        if a[i] != b[i] {
            return false;
        }
        i = i + 1;
    }
    assert(a@ =~= b@);
    true
}

// ── Whitespace splitting ──

/// The views of a sequence of character vectors.
pub open spec fn views(s: Seq<Vec<char>>) -> Seq<Seq<char>> {
    s.map_values(|w: Vec<char>| w@)
}

/// Length of the leading run of non-whitespace characters of `s`.
pub open spec fn run_len(s: Seq<char>) -> nat
    decreases s.len(),
{
    if s.len() == 0 || is_ws(s[0]) {
        0
    } else {
        1 + run_len(s.drop_first())
    }
}

/// The whitespace-separated words of `s` (what `str::split_whitespace` yields).
pub open spec fn words(s: Seq<char>) -> Seq<Seq<char>>
    decreases s.len(),
{
    if s.len() == 0 {
        seq![]
    } else if is_ws(s[0]) {
        words(s.drop_first())
    } else {
        let n = run_len(s);
        proof {
            lemma_run_len_bounds(s);
        }
        seq![s.take(n as int)] + words(s.skip(n as int))
    }
}

pub proof fn lemma_run_len_bounds(s: Seq<char>)
    ensures
        run_len(s) <= s.len(),
        s.len() > 0 && !is_ws(s[0]) ==> run_len(s) >= 1,
        forall|i: int| 0 <= i < run_len(s) ==> !is_ws(#[trigger] s[i]),
        run_len(s) < s.len() ==> is_ws(s[run_len(s) as int]),
    decreases s.len(),
{
    if s.len() > 0 && !is_ws(s[0]) {
        lemma_run_len_bounds(s.drop_first());
        assert forall|i: int| 0 <= i < run_len(s) implies !is_ws(#[trigger] s[i]) by {
            if i > 0 {
                assert(s[i] == s.drop_first()[i - 1]);
            }
        }
    }
}

/// A run of non-whitespace characters from `i` to `j` ending at whitespace or
/// the end has `run_len` equal to its length.
proof fn lemma_run_len_of(s: Seq<char>, i: int, j: int)
    requires
        0 <= i <= j <= s.len(),
        forall|k: int| i <= k < j ==> !is_ws(#[trigger] s[k]),
        j == s.len() || is_ws(s[j]),
    ensures
        run_len(s.skip(i)) == j - i,
    decreases j - i,
{
    if i < j {
        lemma_run_len_of(s, i + 1, j);
        assert(s.skip(i).drop_first() =~= s.skip(i + 1));
    } else {
        if j < s.len() {
            assert(s.skip(i)[0] == s[j]);
        }
    }
}

/// The whitespace-separated words of `s`.
pub fn split_words(s: &[char]) -> (res: Vec<Vec<char>>)
    ensures
        views(res@) == words(s@),
{
    let mut out: Vec<Vec<char>> = Vec::new();
    let mut i: usize = 0;
    assert(s@.skip(0) =~= s@);
    while i < s.len()
        invariant
            i <= s.len(),
            words(s@) == views(out@) + words(s@.skip(i as int)),
        decreases s.len() - i,
    {
        if is_whitespace(s[i]) {
            assert(s@.skip(i as int).drop_first() =~= s@.skip(i + 1));
            i = i + 1;
        } else {
            let start = i;
            let mut word: Vec<char> = Vec::new();
            while i < s.len() && !is_whitespace(s[i])
                invariant
                    start < s.len(),
                    start <= i <= s.len(),
                    word@ == s@.subrange(start as int, i as int),
                    forall|k: int| start <= k < i ==> !is_ws(#[trigger] s@[k]),
                decreases s.len() - i,
            {
                word.push(s[i]);
                i = i + 1;
                assert(word@ =~= s@.subrange(start as int, i as int));
            }
            proof {
                lemma_run_len_of(s@, start as int, i as int);
                let rest = s@.skip(start as int);
                assert(rest.take((i - start) as int) =~= word@);
                assert(rest.skip((i - start) as int) =~= s@.skip(i as int));
                assert(!is_ws(rest[0]));
            }
            let ghost before = views(out@);
            out.push(word);
            assert(views(out@) =~= before.push(word@));
            assert(before.push(word@) + words(s@.skip(i as int)) =~= before + (seq![word@] + words(s@.skip(i as int))));
        }
    }
    assert(words(s@.skip(i as int)) == Seq::<Seq<char>>::empty());
    assert(views(out@) + Seq::<Seq<char>>::empty() =~= views(out@));
    out
}


// ── Slicing, trimming, searching ──

/// The characters `v[from..to]` as a new vector.
pub fn sub_chars(v: &[char], from: usize, to: usize) -> (res: Vec<char>)
    requires
        from <= to <= v.len(),
    ensures
        res@ == v@.subrange(from as int, to as int),
{
    let mut out: Vec<char> = Vec::new();
    let mut i = from;
    while i < to
        invariant
            from <= i <= to <= v.len(),
            out@ == v@.subrange(from as int, i as int),
        decreases to - i,
    {
        out.push(v[i]);
        i = i + 1;
        assert(out@ =~= v@.subrange(from as int, i as int));
    }
    out
}

/// `s` without leading white space (`str::trim_start`).
pub open spec fn trim_start(s: Seq<char>) -> Seq<char>
    decreases s.len(),
{
    if s.len() > 0 && is_ws(s[0]) {
        trim_start(s.drop_first())
    } else {
        s
    }
}

/// `s` without trailing white space (`str::trim_end`).
pub open spec fn trim_end(s: Seq<char>) -> Seq<char>
    decreases s.len(),
{
    if s.len() > 0 && is_ws(s.last()) {
        trim_end(s.drop_last())
    } else {
        s
    }
}

/// `s` without leading and trailing white space (`str::trim`).
pub open spec fn trim(s: Seq<char>) -> Seq<char> {
    trim_end(trim_start(s))
}

proof fn lemma_trim_start_skip(s: Seq<char>, i: int)
    requires
        0 <= i <= s.len(),
        forall|k: int| 0 <= k < i ==> is_ws(#[trigger] s[k]),
    ensures
        trim_start(s) == trim_start(s.skip(i)),
    decreases i,
{
    if i > 0 {
        assert(s.skip(1) =~= s.drop_first());
        lemma_trim_start_skip(s.drop_first(), i - 1);
        assert(s.drop_first().skip(i - 1) =~= s.skip(i));
    } else {
        assert(s.skip(0) =~= s);
    }
}

proof fn lemma_trim_end_take(s: Seq<char>, j: int)
    requires
        0 <= j <= s.len(),
        forall|k: int| j <= k < s.len() ==> is_ws(#[trigger] s[k]),
    ensures
        trim_end(s) == trim_end(s.take(j)),
    decreases s.len() - j,
{
    if j < s.len() {
        assert(s.take(s.len() - 1) =~= s.drop_last());
        lemma_trim_end_take(s.drop_last(), j);
        assert(s.drop_last().take(j) =~= s.take(j));
    } else {
        assert(s.take(j) =~= s);
    }
}

/// `s` without leading white space.
pub fn trim_start_chars(s: &[char]) -> (res: Vec<char>)
    ensures
        res@ == trim_start(s@),
{
    let mut i: usize = 0;
    while i < s.len() && is_whitespace(s[i])
        invariant
            i <= s.len(),
            forall|k: int| 0 <= k < i ==> is_ws(#[trigger] s@[k]),
        decreases s.len() - i,
    {
        i = i + 1;
    }
    proof {
        lemma_trim_start_skip(s@, i as int);
        let t = s@.skip(i as int);
        assert(trim_start(t) == t);
        assert(t =~= s@.subrange(i as int, s@.len() as int));
    }
    sub_chars(s, i, s.len())
}

/// Whether some character of `s` is white space.
pub open spec fn has_ws(s: Seq<char>) -> bool {
    exists|i: int| 0 <= i < s.len() && is_ws(#[trigger] s[i])
}

/// Whether some character of `v[from..to]` is white space.
pub fn has_whitespace(v: &[char], from: usize, to: usize) -> (res: bool)
    requires
        from <= to <= v.len(),
    ensures
        res == has_ws(v@.subrange(from as int, to as int)),
{
    let mut i = from;
    while i < to
        invariant
            from <= i <= to <= v.len(),
            forall|k: int| from <= k < i ==> !is_ws(#[trigger] v@[k]),
        decreases to - i,
    {
        if is_whitespace(v[i]) {
            assert(v@.subrange(from as int, to as int)[i - from] == v@[i as int]);
            return true;
        }
        i = i + 1;
    }
    assert forall|k: int| 0 <= k < to - from implies !is_ws(#[trigger] v@.subrange(from as int, to as int)[k]) by {
        assert(v@.subrange(from as int, to as int)[k] == v@[k + from]);
    }
    false
}

/// `s` without leading and trailing white space.
pub fn trim_chars(s: &[char]) -> (res: Vec<char>)
    ensures
        res@ == trim(s@),
{
    let mut i: usize = 0;
    while i < s.len() && is_whitespace(s[i])
        invariant
            i <= s.len(),
            forall|k: int| 0 <= k < i ==> is_ws(#[trigger] s@[k]),
        decreases s.len() - i,
    {
        i = i + 1;
    }
    proof {
        lemma_trim_start_skip(s@, i as int);
    }
    let mut j: usize = s.len();
    while j > i && is_whitespace(s[j - 1])
        invariant
            i <= j <= s.len(),
            forall|k: int| j <= k < s.len() ==> is_ws(#[trigger] s@[k]),
        decreases j,
    {
        j = j - 1;
    }
    proof {
        let t = s@.skip(i as int);
        assert(trim_start(t) == t);
        assert forall|k: int| (j - i) <= k < t.len() implies is_ws(#[trigger] t[k]) by {
            assert(t[k] == s@[k + i]);
        }
        lemma_trim_end_take(t, (j - i) as int);
        let u = t.take((j - i) as int);
        if u.len() > 0 {
            assert(u.last() == s@[j - 1]);
        }
        assert(trim_end(u) == u);
        assert(u =~= s@.subrange(i as int, j as int));
    }
    sub_chars(s, i, j)
}

/// Whether `needle` occurs in `hay` starting at index `i`.
pub open spec fn matches_at(hay: Seq<char>, needle: Seq<char>, i: int) -> bool {
    0 <= i && i + needle.len() <= hay.len() && hay.subrange(i, i + needle.len()) == needle
}

/// The first index at or after `i` where `needle` occurs in `hay`.
pub open spec fn find_from(hay: Seq<char>, needle: Seq<char>, i: int) -> Option<int>
    decreases hay.len() + 1 - i,
{
    if i < 0 || i + needle.len() > hay.len() {
        None
    } else if matches_at(hay, needle, i) {
        Some(i)
    } else {
        find_from(hay, needle, i + 1)
    }
}

/// The first index where `needle` occurs in `hay` (`str::find`, by characters).
pub open spec fn find(hay: Seq<char>, needle: Seq<char>) -> Option<int> {
    find_from(hay, needle, 0)
}

/// Whether `needle` occurs in `hay` at index `i`.
pub fn chars_match_at(hay: &[char], needle: &[char], i: usize) -> (res: bool)
    requires
        i + needle.len() <= hay.len(),
    ensures
        res == matches_at(hay@, needle@, i as int),
{
    let mut k: usize = 0;
    while k < needle.len()
        invariant
            i + needle.len() <= hay.len(),
            k <= needle.len(),
            forall|m: int| 0 <= m < k ==> hay@[i + m] == needle@[m],
        decreases needle.len() - k,
    {
        if hay[i + k] != needle[k] {
            assert(hay@.subrange(i as int, i + needle.len())[k as int] != needle@[k as int]);
            return false;
        }
        k = k + 1;
    }
    assert(hay@.subrange(i as int, i + needle.len()) =~= needle@);
    true
}

/// The first index where `needle` occurs in `hay`.
pub fn find_chars(hay: &[char], needle: &[char]) -> (res: Option<usize>)
    ensures
        match res {
            Some(i) => find(hay@, needle@) == Some(i as int),
            None => find(hay@, needle@) is None,
        },
{
    if needle.len() > hay.len() {
        return None;
    }
    let mut i: usize = 0;
    let last = hay.len() - needle.len();
    while i <= last
        invariant
            last == hay.len() - needle.len(),
            needle.len() <= hay.len(),
            i <= hay.len() - needle.len() + 1,
            find(hay@, needle@) == find_from(hay@, needle@, i as int),
        decreases last - i,
    {
        if chars_match_at(hay, needle, i) {
            return Some(i);
        }
        if i == last {
            assert(find_from(hay@, needle@, i + 1) is None);
            assert(find_from(hay@, needle@, i as int) is None);
            return None;
        }
        i = i + 1;
    }
    None
}

/// The part of `s` after the last `c` (what `s.rsplit(c).next()` yields).
pub open spec fn after_last(s: Seq<char>, c: char) -> Seq<char>
    decreases s.len(),
{
    if s.len() == 0 {
        s
    } else if s.last() == c {
        seq![]
    } else {
        after_last(s.drop_last(), c).push(s.last())
    }
}

/// The part of `s` after the last `c`, or all of `s` when `c` does not occur.
pub fn after_last_char(s: &[char], c: char) -> (res: Vec<char>)
    ensures
        res@ == after_last(s@, c),
{
    let mut j: usize = s.len();
    assert(s@.take(j as int) =~= s@);
    assert(after_last(s@, c) + s@.skip(j as int) =~= after_last(s@, c));
    while j > 0 && s[j - 1] != c
        invariant
            j <= s.len(),
            after_last(s@, c) == after_last(s@.take(j as int), c) + s@.skip(j as int),
        decreases j,
    {
        proof {
            let t = s@.take(j as int);
            assert(t.drop_last() =~= s@.take(j - 1));
            assert(s@.skip(j - 1) =~= seq![t.last()] + s@.skip(j as int));
            assert(after_last(t, c) == after_last(t.drop_last(), c).push(t.last()));
            assert(after_last(t.drop_last(), c).push(t.last()) + s@.skip(j as int) =~= after_last(
                s@.take(j - 1),
                c,
            ) + s@.skip(j - 1));
        }
        j = j - 1;
    }
    proof {
        if j > 0 {
            let t = s@.take(j as int);
            assert(t.last() == c);
        }
        assert(after_last(s@.take(j as int), c) =~= seq![]);
        assert(Seq::<char>::empty() + s@.skip(j as int) =~= s@.subrange(j as int, s@.len() as int));
    }
    sub_chars(s, j, s.len())
}

// ── Ordering ──

/// Lexicographic "strictly less" on character sequences, comparing code
/// points; the same order as `Ord` on `str` (UTF-8 preserves code point order).
pub open spec fn lex_lt(a: Seq<char>, b: Seq<char>) -> bool
    decreases a.len(),
{
    if a.len() == 0 {
        b.len() > 0
    } else if b.len() == 0 {
        false
    } else if a[0] < b[0] {
        true
    } else if a[0] == b[0] {
        lex_lt(a.drop_first(), b.drop_first())
    } else {
        false
    }
}

pub proof fn lemma_lex_lt_irreflexive(a: Seq<char>)
    ensures
        !lex_lt(a, a),
    decreases a.len(),
{
    if a.len() > 0 {
        lemma_lex_lt_irreflexive(a.drop_first());
    }
}

pub proof fn lemma_lex_lt_transitive(a: Seq<char>, b: Seq<char>, c: Seq<char>)
    requires
        lex_lt(a, b),
        lex_lt(b, c),
    ensures
        lex_lt(a, c),
    decreases a.len(),
{
    if a.len() > 0 && b.len() > 0 && c.len() > 0 {
        if a[0] == b[0] && b[0] == c[0] {
            lemma_lex_lt_transitive(a.drop_first(), b.drop_first(), c.drop_first());
        }
    }
}

/// Two different sequences are ordered one way or the other.
pub proof fn lemma_lex_lt_total(a: Seq<char>, b: Seq<char>)
    requires
        a != b,
    ensures
        lex_lt(a, b) || lex_lt(b, a),
    decreases a.len(),
{
    if a.len() > 0 && b.len() > 0 && a[0] == b[0] {
        if a.drop_first() == b.drop_first() {
            assert(a =~= seq![a[0]] + a.drop_first());
            assert(b =~= seq![b[0]] + b.drop_first());
        }
        lemma_lex_lt_total(a.drop_first(), b.drop_first());
    } else if a.len() > 0 && b.len() > 0 {
    } else if a.len() == 0 && b.len() == 0 {
        assert(a =~= b);
    }
}

/// Whether `a` sorts strictly before `b`.
pub fn chars_lt(a: &[char], b: &[char]) -> (res: bool)
    ensures
        res == lex_lt(a@, b@),
{
    let mut i: usize = 0;
    assert(a@.skip(0) =~= a@);
    assert(b@.skip(0) =~= b@);
    while i < a.len() && i < b.len() && a[i] == b[i]
        invariant
            i <= a.len(),
            i <= b.len(),
            lex_lt(a@, b@) == lex_lt(a@.skip(i as int), b@.skip(i as int)),
        decreases a.len() - i,
    {
        proof {
            assert(a@.skip(i as int).drop_first() =~= a@.skip(i + 1));
            assert(b@.skip(i as int).drop_first() =~= b@.skip(i + 1));
        }
        i = i + 1;
    }
    if i == a.len() {
        i < b.len()
    } else if i == b.len() {
        false
    } else {
        proof {
            assert(a@.skip(i as int)[0] == a@[i as int]);
            assert(b@.skip(i as int)[0] == b@[i as int]);
        }
        a[i] < b[i]
    }
}

// ── Decimal numbers ──

/// The ASCII digit for `d < 10`.
pub open spec fn digit_char(d: nat) -> char {
    if d == 0 { '0' } else if d == 1 { '1' } else if d == 2 { '2' } else if d == 3 { '3' }
    else if d == 4 { '4' } else if d == 5 { '5' } else if d == 6 { '6' } else if d == 7 { '7' }
    else if d == 8 { '8' } else { '9' }
}

/// The decimal representation of `n`, without leading zeros.
pub open spec fn decimal(n: nat) -> Seq<char>
    decreases n,
{
    if n < 10 {
        seq![digit_char(n)]
    } else {
        decimal(n / 10).push(digit_char(n % 10))
    }
}

fn digit(d: u64) -> (c: char)
    requires
        d < 10,
    ensures
        c == digit_char(d as nat),
{
    if d == 0 { '0' } else if d == 1 { '1' } else if d == 2 { '2' } else if d == 3 { '3' }
    else if d == 4 { '4' } else if d == 5 { '5' } else if d == 6 { '6' } else if d == 7 { '7' }
    else if d == 8 { '8' } else { '9' }
}

/// The decimal characters of `n`.
pub fn decimal_chars(n: u64) -> (res: Vec<char>)
    ensures
        res@ == decimal(n as nat),
    decreases n,
{
    if n < 10 {
        let mut v = Vec::new();
        v.push(digit(n));
        v
    } else {
        let mut v = decimal_chars(n / 10);
        v.push(digit(n % 10));
        v
    }
}

/// Whether `c` is an ASCII digit.
pub open spec fn is_digit(c: char) -> bool {
    '0' <= c <= '9'
}

/// The value of a string of ASCII digits.
pub open spec fn digits_value(s: Seq<char>) -> nat
    decreases s.len(),
{
    if s.len() == 0 {
        0
    } else {
        digits_value(s.drop_last()) * 10 + ((s.last() as u32) - ('0' as u32)) as nat
    }
}

/// Parses a non-empty run of ASCII digits whose value fits in a `u32`.
pub fn parse_u32(s: &[char]) -> (res: Option<u32>)
    ensures
        match res {
            Some(n) => s@.len() > 0 && (forall|i: int| 0 <= i < s@.len() ==> is_digit(#[trigger] s@[i]))
                && n == digits_value(s@),
            None => !(s@.len() > 0 && (forall|i: int| 0 <= i < s@.len() ==> is_digit(#[trigger] s@[i]))
                && digits_value(s@) <= u32::MAX),
        },
{
    if s.len() == 0 {
        return None;
    }
    let mut acc: u64 = 0;
    let mut i: usize = 0;
    while i < s.len()
        invariant
            i <= s.len(),
            forall|k: int| 0 <= k < i ==> is_digit(#[trigger] s@[k]),
            acc == digits_value(s@.take(i as int)),
            acc <= u32::MAX,
        decreases s.len() - i,
    {
        let c = s[i];
        if !('0' <= c && c <= '9') {
            return None;
        }
        let d = (c as u32 - '0' as u32) as u64;
        assert(s@.take(i + 1).drop_last() =~= s@.take(i as int));
        if acc > (u32::MAX as u64 - d) / 10 {
            proof {
                lemma_digits_value_prefix_mono(s@, (i + 1) as int);
            }
            return None;
        }
        acc = acc * 10 + d;
        i = i + 1;
    }
    assert(s@.take(s@.len() as int) =~= s@);
    Some(acc as u32)
}

/// A digit string's value is at least that of any of its prefixes.
proof fn lemma_digits_value_prefix_mono(s: Seq<char>, j: int)
    requires
        0 <= j <= s.len(),
    ensures
        digits_value(s.take(j)) <= digits_value(s),
    decreases s.len() - j,
{
    if j < s.len() {
        lemma_digits_value_prefix_mono(s.drop_last(), j);
        assert(s.drop_last().take(j) =~= s.take(j));
        assert(s.take(s.len() as int) =~= s);
    } else {
        assert(s.take(j) =~= s);
    }
}

} // verus!

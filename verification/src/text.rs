//! Character-level text operations: conversion between strings and character
//! vectors, whitespace runs, words, trimming, splitting, searching.
//!
//! Every operation is stated over `Seq<char>`, the view of a string.

use vstd::prelude::*;

verus! {

/// Whether `c` has the Unicode property `White_Space`.
pub uninterp spec fn unicode_whitespace(c: char) -> bool;

/// Whether `c` is in one of the Unicode general categories for numbers.
pub uninterp spec fn unicode_numeric(c: char) -> bool;

/// The lowercase form of `s` under the Unicode default case mapping.
pub uninterp spec fn unicode_lowercase(s: Seq<char>) -> Seq<char>;

/// `char::is_whitespace`. Trusted: the result is the `White_Space` property of
/// `c`, which depends on `c` alone.
#[verifier::external_body]
pub(crate) fn is_whitespace(c: char) -> (r: bool)
    ensures
        r == unicode_whitespace(c),
{
    c.is_whitespace()
}

/// `char::is_numeric`. Trusted: the result is whether `c` is in a numeric
/// general category, which depends on `c` alone.
#[verifier::external_body]
pub(crate) fn is_numeric_char(c: char) -> (r: bool)
    ensures
        r == unicode_numeric(c),
{
    c.is_numeric()
}

/// `str::to_lowercase`. Trusted: the result is the lowercase form of `s`,
/// which depends on the characters of `s` alone.
#[verifier::external_body]
pub(crate) fn lowercase(s: &str) -> (r: String)
    ensures
        r@ == unicode_lowercase(s@),
{
    s.to_lowercase()
}

/// `String::push`. Trusted: the string afterwards is the string before with
/// `c` added at the end.
#[verifier::external_body]
pub(crate) fn push_char(s: &mut String, c: char)
    ensures
        final(s)@ == old(s)@.push(c),
{
    s.push(c)
}

/// The characters of `s`, in order.
pub fn to_chars(s: &str) -> (r: Vec<char>)
    ensures
        r@ == s@,
{
    let mut out: Vec<char> = Vec::new();
    for c in it: s.chars()
        invariant
            out@ == it.seq().take(it.index() as int),
            it.seq() == s@,
    {
        out.push(c);
    }
    out
}

/// The string made of the characters of `v`, in order.
pub fn to_string(v: &Vec<char>) -> (r: String)
    ensures
        r@ == v@,
{
    let mut out = String::new();
    let mut i: usize = 0;
    while i < v.len()
        invariant
            i <= v.len(),
            out@ == v@.take(i as int),
        decreases v.len() - i,
    {
        push_char(&mut out, v[i]);
        i += 1;
        assert(v@.take(i as int) == v@.take(i - 1).push(v@[i - 1]));
    }
    assert(v@.take(v.len() as int) == v@);
    out
}

/// The characters of `s` from index `from` up to, not including, `to`.
pub fn copy_range(s: &Vec<char>, from: usize, to: usize) -> (r: Vec<char>)
    requires
        from <= to <= s.len(),
    ensures
        r@ == s@.subrange(from as int, to as int),
{
    let mut out: Vec<char> = Vec::new();
    let mut i: usize = from;
    while i < to
        invariant
            from <= i <= to <= s.len(),
            out@ == s@.subrange(from as int, i as int),
        decreases to - i,
    {
        out.push(s[i]);
        i += 1;
        assert(s@.subrange(from as int, i as int) == s@.subrange(from as int, i - 1).push(
            s@[i - 1],
        ));
    }
    out
}

/// Whether `a` and `b` hold the same characters.
pub fn same_chars(a: &Vec<char>, b: &Vec<char>) -> (r: bool)
    ensures
        r == (a@ == b@),
{
    if a.len() != b.len() {
        return false;
    }
    let mut i: usize = 0;
    while i < a.len()
        invariant
            i <= a.len(),
            a.len() == b.len(),
            a@.take(i as int) == b@.take(i as int),
        decreases a.len() - i,
    {
        if a[i] != b[i] {
            return false;
        }
        i += 1;
        assert(a@.take(i as int) == a@.take(i - 1).push(a@[i - 1]));
        assert(b@.take(i as int) == b@.take(i - 1).push(b@[i - 1]));
    }
    assert(a@.take(a.len() as int) == a@);
    assert(b@.take(b.len() as int) == b@);
    true
}

/// Where the run that starts at `from` ends: the first index at or after
/// `from` whose character is whitespace exactly when `space` is false, or the
/// length of `s` when the run reaches the end.
pub open spec fn run_end(s: Seq<char>, from: int, space: bool) -> int
    decreases s.len() - from,
{
    if 0 <= from < s.len() && unicode_whitespace(s[from]) == space {
        run_end(s, from + 1, space)
    } else {
        from
    }
}

/// A run ends inside the text, holds only characters of its kind, and stops
/// at a character of the other kind or at the end.
pub proof fn lemma_run_end(s: Seq<char>, from: int, space: bool)
    requires
        0 <= from <= s.len(),
    ensures
        from <= run_end(s, from, space) <= s.len(),
        forall|k: int| from <= k < run_end(s, from, space) ==> unicode_whitespace(#[trigger] s[k]) == space,
        run_end(s, from, space) < s.len() ==> unicode_whitespace(s[run_end(s, from, space)])
            != space,
        from < s.len() && unicode_whitespace(s[from]) == space ==> from < run_end(s, from, space),
    decreases s.len() - from,
{
    if from < s.len() && unicode_whitespace(s[from]) == space {
        lemma_run_end(s, from + 1, space);
    }
}

/// The end of the run of whitespace (`space`) or of other characters that
/// starts at `from`.
pub fn skip_run(s: &Vec<char>, from: usize, space: bool) -> (r: usize)
    requires
        from <= s.len(),
    ensures
        r == run_end(s@, from as int, space),
        from <= r <= s.len(),
{
    let mut i: usize = from;
    while i < s.len() && is_whitespace(s[i]) == space
        invariant
            from <= i <= s.len(),
            run_end(s@, from as int, space) == run_end(s@, i as int, space),
        decreases s.len() - i,
    {
        i += 1;
    }
    i
}

/// Where the whitespace that ends at `to` begins: the least index such that
/// every character from it up to `to` is whitespace.
pub open spec fn trailing_start(s: Seq<char>, to: int) -> int
    decreases to,
{
    if 0 < to <= s.len() && unicode_whitespace(s[to - 1]) {
        trailing_start(s, to - 1)
    } else {
        to
    }
}

/// `s` without its leading and trailing whitespace.
pub open spec fn trim(s: Seq<char>) -> Seq<char> {
    let a = run_end(s, 0, true);
    let b = trailing_start(s, s.len() as int);
    if a < b {
        s.subrange(a, b)
    } else {
        Seq::empty()
    }
}

/// `s` without its leading and trailing whitespace.
pub fn trimmed(s: &Vec<char>) -> (r: Vec<char>)
    ensures
        r@ == trim(s@),
{
    let a = skip_run(s, 0, true);
    let mut b: usize = s.len();
    while b > 0 && is_whitespace(s[b - 1])
        invariant
            b <= s.len(),
            trailing_start(s@, s.len() as int) == trailing_start(s@, b as int),
        decreases b,
    {
        b -= 1;
    }
    if a < b {
        copy_range(s, a, b)
    } else {
        Vec::new()
    }
}

/// The words of `s` that begin at or after `from`: the maximal runs of
/// characters that are not whitespace, in order.
pub open spec fn words_from(s: Seq<char>, from: int) -> Seq<Seq<char>>
    decreases s.len() - from,
{
    let a = run_end(s, from, true);
    let b = run_end(s, a, false);
    if from <= a < b <= s.len() {
        seq![s.subrange(a, b)] + words_from(s, b)
    } else {
        Seq::empty()
    }
}

/// The words of `s`: its maximal runs of characters that are not whitespace.
pub open spec fn words(s: Seq<char>) -> Seq<Seq<char>> {
    words_from(s, 0)
}

/// The view of each element of `v`.
pub open spec fn views(v: Seq<Vec<char>>) -> Seq<Seq<char>> {
    v.map_values(|x: Vec<char>| x@)
}

/// The words of `s`, in order.
pub fn split_whitespace(s: &Vec<char>) -> (r: Vec<Vec<char>>)
    ensures
        views(r@) == words(s@),
{
    let mut out: Vec<Vec<char>> = Vec::new();
    let mut i: usize = 0;
    loop
        invariant
            i <= s.len(),
            views(out@) + words_from(s@, i as int) == words(s@),
        decreases s.len() - i,
    {
        let a = skip_run(s, i, true);
        if a >= s.len() {
            assert(words_from(s@, i as int) == Seq::<Seq<char>>::empty());
            assert(views(out@) + Seq::<Seq<char>>::empty() == views(out@));
            return out;
        }
        let b = skip_run(s, a, false);
        proof {
            lemma_run_end(s@, i as int, true);
            lemma_run_end(s@, a as int, false);
        }
        let word = copy_range(s, a, b);
        let ghost before = out@;
        out.push(word);
        proof {
            assert(views(out@) == views(before).push(word@));
            assert(views(before).push(word@) + words_from(s@, b as int) == views(before) + (
            seq![word@] + words_from(s@, b as int)));
        }
        i = b;
    }
}

/// The first index at or after `from` that holds `c`, or the length of `s`
/// when there is none.
pub open spec fn index_of(s: Seq<char>, c: char, from: int) -> int
    decreases s.len() - from,
{
    if 0 <= from < s.len() && s[from] != c {
        index_of(s, c, from + 1)
    } else {
        from
    }
}

/// The first index at or after `from` that holds `c`, or the length of `s`.
pub fn position(s: &Vec<char>, c: char, from: usize) -> (r: usize)
    requires
        from <= s.len(),
    ensures
        r == index_of(s@, c, from as int),
        from <= r <= s.len(),
{
    let mut i: usize = from;
    while i < s.len() && s[i] != c
        invariant
            from <= i <= s.len(),
            index_of(s@, c, from as int) == index_of(s@, c, i as int),
        decreases s.len() - i,
    {
        i += 1;
    }
    i
}

/// The pieces of `s`, from index `from` on, that lie between occurrences of
/// `c`. Empty pieces are kept: a text with n occurrences has n + 1 pieces.
pub open spec fn split_from(s: Seq<char>, c: char, from: int) -> Seq<Seq<char>>
    decreases s.len() - from,
{
    let e = index_of(s, c, from);
    if 0 <= from <= e < s.len() {
        seq![s.subrange(from, e)] + split_from(s, c, e + 1)
    } else {
        seq![s.subrange(from, s.len() as int)]
    }
}

/// The pieces of `s` that lie between occurrences of `c`.
pub open spec fn split(s: Seq<char>, c: char) -> Seq<Seq<char>> {
    split_from(s, c, 0)
}

/// The pieces of `s` that lie between occurrences of `c`, in order.
pub fn split_on(s: &Vec<char>, c: char) -> (r: Vec<Vec<char>>)
    ensures
        views(r@) == split(s@, c),
{
    let mut out: Vec<Vec<char>> = Vec::new();
    let mut i: usize = 0;
    loop
        invariant
            i <= s.len(),
            views(out@) + split_from(s@, c, i as int) == split(s@, c),
        decreases s.len() - i,
    {
        let e = position(s, c, i);
        let piece = copy_range(s, i, e);
        let ghost before = out@;
        out.push(piece);
        assert(views(out@) == views(before).push(piece@));
        if e >= s.len() {
            assert(views(before).push(piece@) == views(before) + seq![piece@]);
            return out;
        }
        assert(views(before).push(piece@) + split_from(s@, c, e + 1) == views(before) + (
        seq![piece@] + split_from(s@, c, e + 1)));
        i = e + 1;
    }
}

/// `line` without a carriage return at its end.
pub open spec fn strip_cr(line: Seq<char>) -> Seq<char> {
    if line.len() > 0 && line.last() == '\r' {
        line.drop_last()
    } else {
        line
    }
}

/// The lines of `s` from index `from` on. A line ends at a line feed, or at a
/// carriage return directly followed by a line feed; the terminator is not
/// part of the line. The last line needs no terminator.
pub open spec fn lines_from(s: Seq<char>, from: int) -> Seq<Seq<char>>
    decreases s.len() - from,
{
    let e = index_of(s, '\n', from);
    if 0 <= from <= e < s.len() {
        seq![strip_cr(s.subrange(from, e))] + lines_from(s, e + 1)
    } else if 0 <= from < s.len() {
        seq![s.subrange(from, s.len() as int)]
    } else {
        Seq::empty()
    }
}

/// The lines of `s`.
pub open spec fn lines(s: Seq<char>) -> Seq<Seq<char>> {
    lines_from(s, 0)
}

/// Whether each pair of `ranges` is a range of indices of a text of `len`
/// characters.
pub open spec fn ranges_within(ranges: Seq<(usize, usize)>, len: nat) -> bool {
    forall|k: int| 0 <= k < ranges.len() ==> (#[trigger] ranges[k]).0 <= ranges[k].1 <= len
}

/// The pieces of `s` that `ranges` mark.
pub open spec fn pieces(s: Seq<char>, ranges: Seq<(usize, usize)>) -> Seq<Seq<char>> {
    ranges.map_values(|r: (usize, usize)| s.subrange(r.0 as int, r.1 as int))
}

/// Where the lines of `s` stand: for each line, the index of its first
/// character and the index behind its last.
pub fn line_bounds(s: &Vec<char>) -> (r: Vec<(usize, usize)>)
    ensures
        ranges_within(r@, s@.len()),
        pieces(s@, r@) == lines(s@),
{
    let mut out: Vec<(usize, usize)> = Vec::new();
    let mut i: usize = 0;
    loop
        invariant
            i <= s.len(),
            ranges_within(out@, s@.len()),
            pieces(s@, out@) + lines_from(s@, i as int) == lines(s@),
        decreases s.len() - i,
    {
        if i >= s.len() {
            assert(pieces(s@, out@) + Seq::<Seq<char>>::empty() == pieces(s@, out@));
            return out;
        }
        let e = position(s, '\n', i);
        let ghost before = out@;
        if e >= s.len() {
            out.push((i, e));
            let ghost piece = s@.subrange(i as int, e as int);
            assert(pieces(s@, out@) == pieces(s@, before).push(piece));
            assert(pieces(s@, before).push(piece) == pieces(s@, before) + seq![piece]);
            return out;
        }
        let end: usize = if e > i && s[e - 1] == '\r' {
            e - 1
        } else {
            e
        };
        let ghost piece = s@.subrange(i as int, end as int);
        proof {
            let whole = s@.subrange(i as int, e as int);
            if e > i && s[e - 1] == '\r' {
                assert(whole.last() == '\r');
                assert(whole.drop_last() == s@.subrange(i as int, e - 1));
            }
            assert(piece == strip_cr(whole));
        }
        out.push((i, end));
        assert(pieces(s@, out@) == pieces(s@, before).push(piece));
        assert(pieces(s@, before).push(piece) + lines_from(s@, e + 1) == pieces(s@, before) + (
        seq![piece] + lines_from(s@, e + 1)));
        i = e + 1;
    }
}

/// The lines of `s`, in order.
pub fn split_lines(s: &Vec<char>) -> (r: Vec<Vec<char>>)
    ensures
        views(r@) == lines(s@),
{
    let bounds = line_bounds(s);
    let mut out: Vec<Vec<char>> = Vec::new();
    let mut k: usize = 0;
    while k < bounds.len()
        invariant
            k <= bounds.len(),
            ranges_within(bounds@, s@.len()),
            views(out@) == pieces(s@, bounds@).take(k as int),
        decreases bounds.len() - k,
    {
        let ghost before = out@;
        let piece = copy_range(s, bounds[k].0, bounds[k].1);
        out.push(piece);
        assert(views(out@) == views(before).push(piece@));
        assert(pieces(s@, bounds@).take(k + 1) == pieces(s@, bounds@).take(k as int).push(
            piece@,
        ));
        k += 1;
    }
    assert(pieces(s@, bounds@).take(bounds.len() as int) == pieces(s@, bounds@));
    out
}

/// Whether `pat` occurs in `s` starting at index `i`.
pub open spec fn matches_at(s: Seq<char>, pat: Seq<char>, i: int) -> bool {
    0 <= i && i + pat.len() <= s.len() && s.subrange(i, i + pat.len()) == pat
}

/// The least index at or after `from` at which `pat` occurs in `s`.
pub open spec fn find_from(s: Seq<char>, pat: Seq<char>, from: int) -> Option<int>
    decreases s.len() + 1 - from,
{
    if from < 0 || from + pat.len() > s.len() {
        None
    } else if matches_at(s, pat, from) {
        Some(from)
    } else {
        find_from(s, pat, from + 1)
    }
}

/// The least index at which `pat` occurs in `s`.
pub open spec fn find(s: Seq<char>, pat: Seq<char>) -> Option<int> {
    find_from(s, pat, 0)
}

/// Whether `pat` occurs somewhere in `s`.
pub open spec fn contains(s: Seq<char>, pat: Seq<char>) -> bool {
    exists|i: int| matches_at(s, pat, i)
}

/// `find_from` gives the first occurrence at or after `from`, and `None`
/// exactly when there is no occurrence there.
pub proof fn lemma_find_from(s: Seq<char>, pat: Seq<char>, from: int)
    requires
        0 <= from,
    ensures
        match find_from(s, pat, from) {
            Some(i) => from <= i && matches_at(s, pat, i) && forall|j: int|
                from <= j < i ==> !matches_at(s, pat, j),
            None => forall|j: int| from <= j ==> !matches_at(s, pat, j),
        },
    decreases s.len() + 1 - from,
{
    if from + pat.len() > s.len() {
    } else if matches_at(s, pat, from) {
    } else {
        lemma_find_from(s, pat, from + 1);
    }
}

/// `pat` occurs in `s` exactly when `find` gives an index.
pub proof fn lemma_contains_find(s: Seq<char>, pat: Seq<char>)
    ensures
        contains(s, pat) <==> find(s, pat) is Some,
{
    lemma_find_from(s, pat, 0);
}

/// Whether `pat` occurs in `s` starting at index `i`.
pub fn matches_here(s: &Vec<char>, pat: &Vec<char>, i: usize) -> (r: bool)
    ensures
        r == matches_at(s@, pat@, i as int),
{
    if i > s.len() || pat.len() > s.len() - i {
        return false;
    }
    let mut k: usize = 0;
    while k < pat.len()
        invariant
            k <= pat.len(),
            i + pat.len() <= s.len(),
            s@.subrange(i as int, i + k) == pat@.take(k as int),
        decreases pat.len() - k,
    {
        if s[i + k] != pat[k] {
            assert(s@.subrange(i as int, i + pat.len())[k as int] != pat@[k as int]);
            return false;
        }
        k += 1;
        assert(s@.subrange(i as int, i + k) == s@.subrange(i as int, i + k - 1).push(
            s@[i + k - 1],
        ));
        assert(pat@.take(k as int) == pat@.take(k - 1).push(pat@[k - 1]));
    }
    assert(pat@.take(pat.len() as int) == pat@);
    true
}

/// The least index at which `pat` occurs in `s`.
pub fn find_first(s: &Vec<char>, pat: &Vec<char>) -> (r: Option<usize>)
    ensures
        match r {
            Some(i) => find(s@, pat@) == Some(i as int),
            None => find(s@, pat@) is None,
        },
{
    if pat.len() > s.len() {
        return None;
    }
    let last: usize = s.len() - pat.len();
    let mut i: usize = 0;
    loop
        invariant
            i <= last,
            last == s.len() - pat.len(),
            find(s@, pat@) == find_from(s@, pat@, i as int),
        decreases last - i,
    {
        if matches_here(s, pat, i) {
            return Some(i);
        }
        if i >= last {
            assert(find_from(s@, pat@, i + 1) is None);
            return None;
        }
        i += 1;
    }
}

/// Whether `pat` occurs somewhere in `s`.
pub fn has_match(s: &Vec<char>, pat: &Vec<char>) -> (r: bool)
    ensures
        r == contains(s@, pat@),
{
    proof {
        lemma_contains_find(s@, pat@);
    }
    find_first(s, pat).is_some()
}

/// `s` from index `from` on, without the occurrences of `pat`, which are
/// taken from left to right and do not overlap. An empty `pat` removes
/// nothing.
pub open spec fn remove_all_from(s: Seq<char>, pat: Seq<char>, from: int) -> Seq<char>
    decreases s.len() - from,
{
    if from < 0 || from >= s.len() {
        Seq::empty()
    } else if pat.len() > 0 && matches_at(s, pat, from) {
        remove_all_from(s, pat, from + pat.len())
    } else {
        seq![s[from]] + remove_all_from(s, pat, from + 1)
    }
}

/// `s` without the occurrences of `pat`.
pub open spec fn remove_all(s: Seq<char>, pat: Seq<char>) -> Seq<char> {
    remove_all_from(s, pat, 0)
}

/// `s` without the occurrences of `pat`.
pub fn without(s: &Vec<char>, pat: &Vec<char>) -> (r: Vec<char>)
    ensures
        r@ == remove_all(s@, pat@),
{
    let mut out: Vec<char> = Vec::new();
    let mut i: usize = 0;
    while i < s.len()
        invariant
            i <= s.len(),
            out@ + remove_all_from(s@, pat@, i as int) == remove_all(s@, pat@),
        decreases s.len() - i,
    {
        if pat.len() > 0 && matches_here(s, pat, i) {
            i += pat.len();
        } else {
            let ghost before = out@;
            out.push(s[i]);
            assert(before.push(s@[i as int]) + remove_all_from(s@, pat@, i + 1) == before + (
            seq![s@[i as int]] + remove_all_from(s@, pat@, i + 1)));
            i += 1;
        }
    }
    assert(out@ + Seq::<char>::empty() == out@);
    out
}

} // verus!

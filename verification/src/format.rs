//! Fixed-width text cells and the `HH:MM:SS` form of a duration.

use vstd::prelude::*;
use crate::number::{decimal, decimal_text};
use crate::text::to_string;

verus! {

pub const SECONDS_PER_HOURS: u64 = 3600;

pub const SECONDS_PER_MINUTES: u64 = 60;

/// `count` copies of `fill`.
pub open spec fn filler(count: nat, fill: char) -> Seq<char> {
    Seq::new(count, |i: int| fill)
}

/// `s` brought to at least `width` characters by `fill` before it.
pub open spec fn pad_left(s: Seq<char>, width: nat, fill: char) -> Seq<char> {
    if s.len() >= width {
        s
    } else {
        filler((width - s.len()) as nat, fill) + s
    }
}

/// `s` brought to at least `width` characters by `fill` after it.
pub open spec fn pad_right(s: Seq<char>, width: nat, fill: char) -> Seq<char> {
    if s.len() >= width {
        s
    } else {
        s + filler((width - s.len()) as nat, fill)
    }
}

/// Adds the characters of `more` to the end of `out`.
pub fn append_chars(out: &mut Vec<char>, more: &Vec<char>)
    ensures
        final(out)@ == old(out)@ + more@,
{
    let ghost before = out@;
    let mut i: usize = 0;
    while i < more.len()
        invariant
            i <= more.len(),
            out@ == before + more@.take(i as int),
        decreases more.len() - i,
    {
        out.push(more[i]);
        i += 1;
        assert(more@.take(i as int) == more@.take(i - 1).push(more@[i - 1]));
        assert(before + more@.take(i - 1).push(more@[i - 1]) == (before + more@.take(i - 1)).push(
            more@[i - 1],
        ));
    }
    assert(more@.take(more.len() as int) == more@);
}

/// Adds `count` copies of `fill` to the end of `out`.
pub fn append_filler(out: &mut Vec<char>, count: usize, fill: char)
    ensures
        final(out)@ == old(out)@ + filler(count as nat, fill),
{
    let ghost before = out@;
    let mut i: usize = 0;
    while i < count
        invariant
            i <= count,
            out@ == before + filler(i as nat, fill),
        decreases count - i,
    {
        out.push(fill);
        i += 1;
        assert(before + filler(i as nat, fill) == (before + filler((i - 1) as nat, fill)).push(
            fill,
        ));
    }
}

/// `s` brought to at least `width` characters by `fill` before it.
pub fn padded_left(s: &Vec<char>, width: usize, fill: char) -> (r: Vec<char>)
    ensures
        r@ == pad_left(s@, width as nat, fill),
{
    let mut out: Vec<char> = Vec::new();
    if s.len() < width {
        append_filler(&mut out, width - s.len(), fill);
    }
    append_chars(&mut out, s);
    assert(Seq::<char>::empty() + s@ == s@);
    assert(Seq::<char>::empty() + filler((width - s.len()) as nat, fill) == filler(
        (width - s.len()) as nat,
        fill,
    ));
    out
}

/// `s` brought to at least `width` characters by `fill` after it.
pub fn padded_right(s: &Vec<char>, width: usize, fill: char) -> (r: Vec<char>)
    ensures
        r@ == pad_right(s@, width as nat, fill),
{
    let mut out: Vec<char> = Vec::new();
    append_chars(&mut out, s);
    assert(Seq::<char>::empty() + s@ == s@);
    if s.len() < width {
        append_filler(&mut out, width - s.len(), fill);
    }
    out
}

/// `n` in decimal, with a zero before it when it has one digit.
pub open spec fn two_digits(n: nat) -> Seq<char> {
    pad_left(decimal_text(n), 2, '0')
}

/// `seconds` as hours, minutes and seconds, each of at least two digits,
/// with colons between them. The hours are not wrapped at 24.
pub open spec fn seconds_text(seconds: nat) -> Seq<char> {
    two_digits(seconds / 3600) + seq![':'] + two_digits(seconds % 3600 / 60) + seq![':']
        + two_digits(seconds % 3600 % 60)
}

/// The characters of `seconds` in the form `HH:MM:SS`.
pub fn seconds_chars(seconds: u64) -> (r: Vec<char>)
    ensures
        r@ == seconds_text(seconds as nat),
{
    let hours = seconds / SECONDS_PER_HOURS;
    let seconds = seconds % SECONDS_PER_HOURS;
    let minutes = seconds / SECONDS_PER_MINUTES;
    let seconds = seconds % SECONDS_PER_MINUTES;
    let mut out = padded_left(&decimal(hours), 2, '0');
    out.push(':');
    append_chars(&mut out, &padded_left(&decimal(minutes), 2, '0'));
    out.push(':');
    append_chars(&mut out, &padded_left(&decimal(seconds), 2, '0'));
    assert(two_digits(hours as nat).push(':') == two_digits(hours as nat) + seq![':']);
    assert((two_digits(hours as nat) + seq![':'] + two_digits(minutes as nat)).push(':') == 
        two_digits(hours as nat) + seq![':'] + two_digits(minutes as nat) + seq![':']);
    out
}

/// `seconds` in the form `HH:MM:SS`; the hours may exceed 24.
pub fn format_seconds(seconds: u64) -> (r: String)
    ensures
        r@ == seconds_text(seconds as nat),
{
    to_string(&seconds_chars(seconds))
}

} // verus!

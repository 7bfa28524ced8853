//! Unsigned decimal numbers as text: reading them and writing them.

use vstd::prelude::*;
use crate::text::{copy_range, index_of, position};

verus! {

/// Whether `c` is one of the ten ASCII decimal digits.
pub open spec fn is_digit(c: char) -> bool {
    '0' <= c && c <= '9'
}

/// The number that the digit `c` stands for.
pub open spec fn digit_value(c: char) -> nat {
    (c as int - '0' as int) as nat
}

/// Whether `s` holds decimal digits only.
pub open spec fn all_digits(s: Seq<char>) -> bool {
    forall|i: int| 0 <= i < s.len() ==> is_digit(#[trigger] s[i])
}

/// The number that the digits of `s` write in base ten; 0 for the empty text.
pub open spec fn decimal_value(s: Seq<char>) -> nat
    decreases s.len(),
{
    if s.len() == 0 {
        0
    } else {
        10 * decimal_value(s.drop_last()) + digit_value(s.last())
    }
}

/// `s` without a plus sign at its start.
pub open spec fn unsigned_body(s: Seq<char>) -> Seq<char> {
    if s.len() > 0 && s[0] == '+' {
        s.drop_first()
    } else {
        s
    }
}

/// The number that `s` writes, when `s` is an optional plus sign followed by
/// one or more decimal digits and the number is at most `max`.
pub open spec fn parse_unsigned(s: Seq<char>, max: nat) -> Option<nat> {
    let body = unsigned_body(s);
    if body.len() > 0 && all_digits(body) && decimal_value(body) <= max {
        Some(decimal_value(body))
    } else {
        None
    }
}

/// A prefix of a digit text writes a number no greater than the whole text.
pub proof fn lemma_prefix_value(s: Seq<char>, k: int)
    requires
        all_digits(s),
        0 <= k <= s.len(),
    ensures
        decimal_value(s.take(k)) <= decimal_value(s),
    decreases s.len(),
{
    if k == s.len() {
        assert(s.take(k) == s);
    } else {
        let front = s.drop_last();
        assert(all_digits(front)) by {
            assert forall|i: int| 0 <= i < front.len() implies is_digit(#[trigger] front[i]) by {
                assert(front[i] == s[i]);
            }
        }
        lemma_prefix_value(front, k);
        assert(front.take(k) == s.take(k));
    }
}

/// The number that the digit `c` stands for, if `c` is a decimal digit.
pub fn digit_of(c: char) -> (r: Option<u8>)
    ensures
        match r {
            Some(d) => is_digit(c) && d == digit_value(c),
            None => !is_digit(c),
        },
{
    if '0' <= c && c <= '9' {
        Some((c as u32 - '0' as u32) as u8)
    } else {
        None
    }
}

/// Reads `s` as an unsigned number that fits in 64 bits.
pub fn parse_u64(s: &Vec<char>) -> (r: Option<u64>)
    ensures
        match r {
            Some(v) => parse_unsigned(s@, u64::MAX as nat) == Some(v as nat),
            None => parse_unsigned(s@, u64::MAX as nat) is None,
        },
{
    let start: usize = if s.len() > 0 && s[0] == '+' {
        1
    } else {
        0
    };
    let ghost body = unsigned_body(s@);
    assert(body == s@.subrange(start as int, s.len() as int));
    if start == s.len() {
        return None;
    }
    let mut acc: u64 = 0;
    let mut i: usize = start;
    while i < s.len()
        invariant
            start <= i <= s.len(),
            start < s.len(),
            body == unsigned_body(s@),
            body == s@.subrange(start as int, s.len() as int),
            all_digits(body.take(i - start)),
            acc == decimal_value(body.take(i - start)),
        decreases s.len() - i,
    {
        let ghost k = i - start;
        let d = match digit_of(s[i]) {
            Some(d) => d,
            None => {
                assert(!is_digit(body[k]));
                return None;
            },
        };
        proof {
            let next = body.take(k + 1);
            assert(next.drop_last() == body.take(k));
            assert(next.last() == body[k]);
            assert(all_digits(next)) by {
                assert forall|j: int| 0 <= j < next.len() implies is_digit(#[trigger] next[j]) by {
                    if j < k {
                        assert(next[j] == body.take(k)[j]);
                    }
                }
            }
            if all_digits(body) {
                lemma_prefix_value(body, k + 1);
            }
        }
        let tens = match acc.checked_mul(10) {
            Some(t) => t,
            None => {
                return None;
            },
        };
        acc = match tens.checked_add(d as u64) {
            Some(t) => t,
            None => {
                return None;
            },
        };
        i += 1;
    }
    assert(body.take(s.len() - start) == body);
    Some(acc)
}

/// Reads `s` as an unsigned number that fits in 32 bits.
pub fn parse_u32(s: &Vec<char>) -> (r: Option<u32>)
    ensures
        match r {
            Some(v) => parse_unsigned(s@, u32::MAX as nat) == Some(v as nat),
            None => parse_unsigned(s@, u32::MAX as nat) is None,
        },
{
    match parse_u64(s) {
        Some(v) => if v <= 0xffff_ffff {
            Some(v as u32)
        } else {
            None
        },
        None => None,
    }
}

/// The character that writes the digit `d`.
pub open spec fn digit_char(d: nat) -> char {
    ('0' as int + d) as char
}

/// The shortest decimal text that writes `n`.
pub open spec fn decimal_text(n: nat) -> Seq<char>
    decreases n,
{
    if n < 10 {
        seq![digit_char(n)]
    } else {
        decimal_text(n / 10).push(digit_char(n % 10))
    }
}

/// The character that writes the digit `d`.
pub fn digit_to_char(d: u8) -> (r: char)
    requires
        d < 10,
    ensures
        r == digit_char(d as nat),
{
    (48u8 + d) as char
}

/// The shortest decimal text that writes `n`.
pub fn decimal(n: u64) -> (r: Vec<char>)
    ensures
        r@ == decimal_text(n as nat),
    decreases n,
{
    if n < 10 {
        let mut out: Vec<char> = Vec::new();
        out.push(digit_to_char(n as u8));
        assert(out@ == seq![digit_char(n as nat)]);
        out
    } else {
        let mut out = decimal(n / 10);
        out.push(digit_to_char((n % 10) as u8));
        out
    }
}

/// What the first two digits of the fraction `frac` count in hundredths;
/// a digit that is not there counts as zero, later digits are dropped.
pub open spec fn hundredths(frac: Seq<char>) -> nat {
    (if frac.len() > 0 {
        10 * digit_value(frac[0])
    } else {
        0
    }) + (if frac.len() > 1 {
        digit_value(frac[1])
    } else {
        0
    })
}

/// The whole part of the decimal number `s`: what stands before its point.
pub open spec fn whole_part(s: Seq<char>) -> Seq<char> {
    s.take(index_of(s, '.', 0))
}

/// The fraction of the decimal number `s`: what stands after its point.
pub open spec fn fraction_part(s: Seq<char>) -> Seq<char> {
    if index_of(s, '.', 0) < s.len() {
        s.skip(index_of(s, '.', 0) + 1)
    } else {
        Seq::empty()
    }
}

/// The decimal number `s` in hundredths, when `s` is an unsigned number,
/// optionally followed by a point and digits, and the result is at most
/// `max`. Digits after the second place of the fraction are dropped.
pub open spec fn parse_hundredths(s: Seq<char>, max: nat) -> Option<nat> {
    match parse_unsigned(whole_part(s), max) {
        Some(w) => if all_digits(fraction_part(s)) && w * 100 + hundredths(fraction_part(s))
            <= max {
            Some(w * 100 + hundredths(fraction_part(s)))
        } else {
            None
        },
        None => None,
    }
}

/// Whether `s` holds decimal digits only.
pub fn only_digits(s: &Vec<char>) -> (r: bool)
    ensures
        r == all_digits(s@),
{
    let mut i: usize = 0;
    while i < s.len()
        invariant
            i <= s.len(),
            forall|j: int| 0 <= j < i ==> is_digit(#[trigger] s@[j]),
        decreases s.len() - i,
    {
        if digit_of(s[i]).is_none() {
            return false;
        }
        i += 1;
    }
    true
}

/// Reads `s` as a decimal number and gives it in hundredths.
pub fn parse_hundredths_u64(s: &Vec<char>) -> (r: Option<u64>)
    ensures
        match r {
            Some(v) => parse_hundredths(s@, u64::MAX as nat) == Some(v as nat),
            None => parse_hundredths(s@, u64::MAX as nat) is None,
        },
{
    let dot = position(s, '.', 0);
    let whole = copy_range(s, 0, dot);
    let frac = if dot < s.len() {
        copy_range(s, dot + 1, s.len())
    } else {
        Vec::new()
    };
    assert(whole@ == whole_part(s@));
    assert(frac@ == fraction_part(s@));
    let w = match parse_u64(&whole) {
        Some(w) => w,
        None => {
            return None;
        },
    };
    if !only_digits(&frac) {
        return None;
    }
    let tens: u64 = if frac.len() > 0 {
        match digit_of(frac[0]) {
            Some(d) => 10 * (d as u64),
            None => 0,
        }
    } else {
        0
    };
    let ones: u64 = if frac.len() > 1 {
        match digit_of(frac[1]) {
            Some(d) => d as u64,
            None => 0,
        }
    } else {
        0
    };
    assert(tens + ones == hundredths(frac@));
    match w.checked_mul(100) {
        Some(scaled) => scaled.checked_add(tens + ones),
        None => None,
    }
}

} // verus!

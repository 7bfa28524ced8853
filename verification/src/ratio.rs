//! Exact fractions, in which every utilization is stated.

use vstd::prelude::*;

verus! {

/// 2 to the power 64.
pub const WORD: u128 = 0x1_0000_0000_0000_0000;

/// A fraction: a signed numerator over a positive denominator. Nothing is
/// rounded: two fractions compare as the numbers they stand for.
#[derive(Clone, Copy, Debug)]
pub struct Ratio {
    negative: bool,
    num: u64,
    den: u128,
}

/// The product of a 64-bit and a 128-bit number, in two parts: `hi` counts
/// multiples of `WORD`, `lo` is less than `WORD`.
pub struct Wide {
    pub hi: u128,
    pub lo: u128,
}

impl Wide {
    /// The number held.
    pub open spec fn value(&self) -> int {
        self.hi * WORD + self.lo
    }

    /// The product `n * d`.
    pub fn product(n: u64, d: u128) -> (r: Wide)
        ensures
            r.value() == n * d,
            r.lo < WORD,
    {
        let d_hi: u128 = d / WORD;
        let d_lo: u128 = d % WORD;
        assert(d_hi < WORD && d_lo < WORD);
        assert(n * d_hi <= (WORD - 1) * (WORD - 1)) by (nonlinear_arith)
            requires
                0 <= n < WORD,
                0 <= d_hi < WORD,
        ;
        assert(n * d_lo <= (WORD - 1) * (WORD - 1)) by (nonlinear_arith)
            requires
                0 <= n < WORD,
                0 <= d_lo < WORD,
        ;
        let x: u128 = (n as u128) * d_hi;
        let y: u128 = (n as u128) * d_lo;
        assert(n * d == x * WORD + y) by (nonlinear_arith)
            requires
                d == d_hi * WORD + d_lo,
                x == n * d_hi,
                y == n * d_lo,
        ;
        Wide { hi: x + y / WORD, lo: y % WORD }
    }

    /// Whether the number held is at most that of `other`.
    pub fn le(&self, other: &Wide) -> (r: bool)
        requires
            self.lo < WORD,
            other.lo < WORD,
        ensures
            r == (self.value() <= other.value()),
    {
        self.hi < other.hi || (self.hi == other.hi && self.lo <= other.lo)
    }

    /// Whether the number held is zero.
    pub fn is_zero(&self) -> (r: bool)
        ensures
            r == (self.value() == 0),
    {
        self.hi == 0 && self.lo == 0
    }
}

impl Ratio {
    #[verifier::type_invariant]
    pub closed spec fn wf(&self) -> bool {
        self.den > 0
    }

    /// The numerator.
    pub closed spec fn numer(&self) -> int {
        if self.negative {
            -(self.num as int)
        } else {
            self.num as int
        }
    }

    /// The denominator, which is positive.
    pub closed spec fn denom(&self) -> int {
        self.den as int
    }

    /// Whether the fraction is at most `other`.
    pub open spec fn le_spec(&self, other: &Ratio) -> bool {
        self.numer() * other.denom() <= other.numer() * self.denom()
    }

    /// Whether the fraction lies between 0 and 1, both included.
    pub open spec fn in_unit_interval(&self) -> bool {
        0 <= self.numer() <= self.denom()
    }

    /// The fraction `num / den`.
    pub fn new(num: u64, den: u128) -> (r: Ratio)
        requires
            den > 0,
        ensures
            r.wf(),
            r.numer() == num,
            r.denom() == den,
    {
        Ratio { negative: false, num, den }
    }

    /// The fraction `-num / den`.
    pub fn negative(num: u64, den: u128) -> (r: Ratio)
        requires
            den > 0,
        ensures
            r.wf(),
            r.numer() == -(num as int),
            r.denom() == den,
    {
        Ratio { negative: true, num, den }
    }

    /// The fraction 0.
    pub fn zero() -> (r: Ratio)
        ensures
            r.wf(),
            r.numer() == 0,
            r.denom() == 1,
    {
        Ratio { negative: false, num: 0, den: 1 }
    }

    /// Whether the numerator is below zero.
    pub fn is_negative(&self) -> (r: bool)
        ensures
            r == (self.numer() < 0),
    {
        self.negative && self.num > 0
    }

    /// The size of the numerator, without its sign.
    pub fn numerator(&self) -> (r: u64)
        ensures
            r == if self.numer() < 0 {
                -self.numer()
            } else {
                self.numer()
            },
    {
        self.num
    }

    /// The denominator.
    pub fn denominator(&self) -> (r: u128)
        ensures
            r == self.denom(),
            r > 0,
    {
        proof {
            use_type_invariant(self);
        }
        self.den
    }

    /// Whether the fraction is at most `other`.
    pub fn le(&self, other: &Ratio) -> (r: bool)
        ensures
            r == self.le_spec(other),
    {
        proof {
            use_type_invariant(self);
            use_type_invariant(other);
        }
        let mine = Wide::product(self.num, other.den);
        let theirs = Wide::product(other.num, self.den);
        proof {
            let (n, d) = (self.num as int, self.den as int);
            let (m, e) = (other.num as int, other.den as int);
            assert(n * e >= 0 && m * d >= 0 && (-n) * e == -(n * e) && (-m) * d == -(m * d))
                by (nonlinear_arith)
                requires
                    n >= 0,
                    m >= 0,
                    d > 0,
                    e > 0,
            ;
        }
        if self.negative {
            if other.negative {
                theirs.le(&mine)
            } else {
                true
            }
        } else {
            if other.negative {
                mine.is_zero() && theirs.is_zero()
            } else {
                mine.le(&theirs)
            }
        }
    }

    /// Whether the fraction is below `other`.
    pub fn lt(&self, other: &Ratio) -> (r: bool)
        ensures
            r == !other.le_spec(self),
    {
        !other.le(self)
    }
}

} // verus!

//! Exact rational scale factors.
//!
//! Every conversion factor in the engine is linear and exact: a ratio of two
//! integers with a positive denominator, rather than a floating-point
//! number. Composing prefixes and unit factors therefore introduces no
//! rounding anywhere, and the conversion laws hold exactly.

use vstd::prelude::*;

verus! {

/// The mathematical value of a ratio: a pair of unbounded integers.
pub struct Rat {
    pub n: int,
    pub d: int,
}

impl Rat {
    /// A well-formed rational has a positive denominator.
    pub open spec fn wf(self) -> bool {
        self.d > 0
    }

    /// Numerator and denominator both positive: a positive number, safe to
    /// divide by.
    pub open spec fn pos(self) -> bool {
        self.n > 0 && self.d > 0
    }

    /// Two ratios stand for the same number.
    pub open spec fn same(self, other: Rat) -> bool {
        self.n * other.d == other.n * self.d
    }

    /// The product of two rationals.
    pub open spec fn times(self, other: Rat) -> Rat {
        Rat { n: self.n * other.n, d: self.d * other.d }
    }

    /// The reciprocal: dividing by a positive rational is multiplying by
    /// its reciprocal.
    pub open spec fn inv(self) -> Rat {
        Rat { n: self.d, d: self.n }
    }

    /// The number one.
    pub open spec fn unit() -> Rat {
        Rat { n: 1, d: 1 }
    }
}

/// Whether both parts of a rational fit the engine's 128-bit integers.
pub open spec fn rat_in_bounds(r: Rat) -> bool {
    &&& -0x80000000000000000000000000000000 <= r.n
    &&& r.n <= 0x7fffffffffffffffffffffffffffffff
    &&& -0x80000000000000000000000000000000 <= r.d
    &&& r.d <= 0x7fffffffffffffffffffffffffffffff
}

/// A factor of a bounded product is itself within the bounds, as long as
/// the other factor is at least one.
pub proof fn lemma_bound_by_product(p: int, q: int, lo: int, hi: int)
    requires
        1 <= q,
        lo <= p * q,
        p * q <= hi,
        lo <= 0,
        0 <= hi,
    ensures
        lo <= p,
        p <= hi,
{
    assert(lo <= p && p <= hi) by (nonlinear_arith)
        requires 1 <= q, lo <= p * q, p * q <= hi, lo <= 0, 0 <= hi;
}

/// Standing for the same number is transitive, through any rational whose
/// denominator is not zero.
pub proof fn lemma_same_transitive(a: Rat, b: Rat, c: Rat)
    requires
        b.d != 0,
        a.same(b),
        b.same(c),
    ensures
        a.same(c),
{
    assert(a.n * c.d == c.n * a.d) by (nonlinear_arith)
        requires
            b.d != 0,
            a.n * b.d == b.n * a.d,
            b.n * c.d == c.n * b.d;
}

/// The product of two well-formed rationals is well formed.
pub proof fn lemma_rat_times_wf(a: Rat, b: Rat)
    requires
        a.wf(),
        b.wf(),
    ensures
        a.times(b).wf(),
{
    assert(a.d * b.d > 0) by (nonlinear_arith)
        requires a.d > 0, b.d > 0;
}

/// The product of two positive rationals is positive.
pub proof fn lemma_rat_times_pos(a: Rat, b: Rat)
    requires
        a.pos(),
        b.pos(),
    ensures
        a.times(b).pos(),
{
    assert(a.n * b.n > 0 && a.d * b.d > 0) by (nonlinear_arith)
        requires a.n > 0, a.d > 0, b.n > 0, b.d > 0;
}

/// An exact scale factor held at run time.
#[derive(Clone, Copy, Debug)]
pub struct Ratio {
    pub num: i128,
    pub den: i128,
}

impl View for Ratio {
    type V = Rat;

    open spec fn view(&self) -> Rat {
        Rat { n: self.num as int, d: self.den as int }
    }
}

impl Ratio {
    /// The denominator is positive, so the ratio stands for a number.
    pub open spec fn wf(self) -> bool {
        self@.wf()
    }

    /// Numerator and denominator both positive.
    pub open spec fn pos(self) -> bool {
        self@.pos()
    }

    /// A ratio from a numerator and a positive denominator.
    pub fn new(num: i128, den: i128) -> (r: Ratio)
        requires
            den > 0,
        ensures
            r@ == (Rat { n: num as int, d: den as int }),
            r.wf(),
    {
        Ratio { num, den }
    }

    /// A whole number as a ratio.
    pub fn from_int(num: i128) -> (r: Ratio)
        ensures
            r@ == (Rat { n: num as int, d: 1 }),
            r.wf(),
    {
        Ratio { num, den: 1 }
    }

    /// The factor one: scaling by it changes nothing.
    pub fn one() -> (r: Ratio)
        ensures
            r@ == Rat::unit(),
            r.pos(),
    {
        Ratio { num: 1, den: 1 }
    }

    /// Whether this ratio equals one exactly.
    pub fn is_one(&self) -> (r: bool)
        ensures
            r == (self@ == Rat::unit()),
    {
        self.num == 1 && self.den == 1
    }

    /// Whether two ratios stand for the same number.
    pub fn same_number(&self, other: &Ratio) -> (r: bool)
        requires
            -0x8000000000000000 < self.num < 0x8000000000000000,
            -0x8000000000000000 < self.den < 0x8000000000000000,
            -0x8000000000000000 < other.num < 0x8000000000000000,
            -0x8000000000000000 < other.den < 0x8000000000000000,
        ensures
            r == self@.same(other@),
    {
        proof {
            let b: int = 0x8000000000000000;
            let p: int = self.num as int * other.den as int;
            let q: int = other.num as int * self.den as int;
            assert(-(b * b) < p && p < b * b && -(b * b) < q && q < b * b) by (nonlinear_arith)
                requires
                    p == self.num as int * other.den as int,
                    q == other.num as int * self.den as int,
                    -b < self.num as int && (self.num as int) < b,
                    -b < self.den as int && (self.den as int) < b,
                    -b < other.num as int && (other.num as int) < b,
                    -b < other.den as int && (other.den as int) < b;
        }
        self.num * other.den == other.num * self.den
    }

    /// The product of two ratios.
    pub fn times(&self, other: &Ratio) -> (r: Ratio)
        requires
            rat_in_bounds(self@.times(other@)),
        ensures
            r@ == self@.times(other@),
    {
        Ratio { num: self.num * other.num, den: self.den * other.den }
    }
}

} // verus!

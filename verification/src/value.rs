//! Values and the conversion engine.
//!
//! A value is a scalar magnitude paired with a unit. Conversion moves the
//! magnitude from a source unit to a target unit of the same quantity in
//! exactly four multiplicative steps: undo the source prefix, move into the
//! quantity's canonical base, move out into the target's raw base, and
//! re-apply the target prefix in reverse. Compatibility is nothing but
//! equality of the two quantities' dimension codes; an incompatible target
//! is refused before any arithmetic happens.

use vstd::prelude::*;

use crate::dimension::DIMENSIONS;
use crate::dimension::dim_add;
use crate::dimension::exp_in_range;
use crate::ratio::Rat;
use crate::ratio::Ratio;
use crate::ratio::lemma_bound_by_product;
use crate::ratio::lemma_rat_times_wf;
use crate::ratio::lemma_same_transitive;
use crate::ratio::rat_in_bounds;
use crate::unit::Unit;

verus! {

/// The four-step conversion: multiply by the source's prefix factor, then
/// by the source's raw-base factor, then divide by the target's raw-base
/// factor, then by the target's prefix factor.
pub open spec fn convert_spec(v: Rat, source: Unit, target: Unit) -> Rat {
    v.times(source.factor_to_unit_base@).times(source.factor_to_quantity_base@).times(
        target.factor_to_quantity_base@.inv(),
    ).times(target.factor_to_unit_base@.inv())
}

/// The first two steps alone: the magnitude in the quantity's canonical
/// base representation.
pub open spec fn to_base_spec(v: Rat, u: Unit) -> Rat {
    v.times(u.factor_to_unit_base@).times(u.factor_to_quantity_base@)
}

/// The exact conversion result fits the engine's 128-bit integers; since
/// every factor part is a positive integer, so does each of the four
/// intermediate steps.
pub open spec fn convert_in_bounds(v: Rat, source: Unit, target: Unit) -> bool {
    rat_in_bounds(convert_spec(v, source, target))
}

/// The canonical-base magnitude fits the engine's 128-bit integers.
pub open spec fn to_base_in_bounds(v: Rat, u: Unit) -> bool {
    rat_in_bounds(to_base_spec(v, u))
}

/// Every partial product along a chain of multiplications by integers that
/// are at least one is bounded by the bounds of the whole chain.
proof fn lemma_chain_bounds(v: int, a: int, b: int, c: int, d: int, lo: int, hi: int)
    requires
        1 <= a,
        1 <= b,
        1 <= c,
        1 <= d,
        lo <= 0,
        0 <= hi,
        lo <= (((v * a) * b) * c) * d,
        (((v * a) * b) * c) * d <= hi,
    ensures
        lo <= v * a && v * a <= hi,
        lo <= (v * a) * b && (v * a) * b <= hi,
        lo <= ((v * a) * b) * c && ((v * a) * b) * c <= hi,
{
    lemma_bound_by_product(((v * a) * b) * c, d, lo, hi);
    lemma_bound_by_product((v * a) * b, c, lo, hi);
    lemma_bound_by_product(v * a, b, lo, hi);
}

/// Every partial product of integers that are at least one is itself at
/// least one.
proof fn lemma_chain_pos(v: int, a: int, b: int, c: int, d: int)
    requires
        1 <= v,
        1 <= a,
        1 <= b,
        1 <= c,
        1 <= d,
    ensures
        1 <= v * a,
        1 <= (v * a) * b,
        1 <= ((v * a) * b) * c,
        1 <= (((v * a) * b) * c) * d,
{
    assert(1 <= v * a && 1 <= (v * a) * b && 1 <= ((v * a) * b) * c && 1 <= (((v * a) * b) * c)
        * d) by (nonlinear_arith)
        requires 1 <= v, 1 <= a, 1 <= b, 1 <= c, 1 <= d;
}

/// Converting a value to its own unit is the identity transform: the four
/// factors cancel exactly, and the result stands for exactly the number the
/// value started with.
pub proof fn lemma_convert_identity(v: Rat, u: Unit)
    requires
        v.wf(),
        u.wf(),
    ensures
        convert_spec(v, u, u).same(v),
        convert_spec(v, u, u).wf(),
{
    let a = u.factor_to_unit_base@;
    let b = u.factor_to_quantity_base@;
    let c = convert_spec(v, u, u);
    assert((((v.n * a.n) * b.n) * b.d) * a.d * v.d == v.n * ((((v.d * a.d) * b.d) * b.n) * a.n))
        by (nonlinear_arith);
    assert((((v.d * a.d) * b.d) * b.n) * a.n > 0) by (nonlinear_arith)
        requires v.d > 0, a.d > 0, b.d > 0, b.n > 0, a.n > 0;
}

/// The conversion result stands for a number: its denominator is positive.
pub proof fn lemma_convert_wf(v: Rat, source: Unit, target: Unit)
    requires
        v.wf(),
        source.wf(),
        target.wf(),
    ensures
        convert_spec(v, source, target).wf(),
{
    let s1 = source.factor_to_unit_base@;
    let s2 = source.factor_to_quantity_base@;
    let t1 = target.factor_to_unit_base@;
    let t2 = target.factor_to_quantity_base@;
    assert(((((v.d * s1.d) * s2.d) * t2.n) * t1.n) > 0) by (nonlinear_arith)
        requires v.d > 0, s1.d > 0, s2.d > 0, t2.n > 0, t1.n > 0;
}

/// Two magnitudes with the same canonical-base representation under one
/// unit stand for the same number: the base chain cancels.
proof fn lemma_base_cancel(x: Rat, y: Rat, u: Unit)
    requires
        u.wf(),
        to_base_spec(x, u).same(to_base_spec(y, u)),
    ensures
        x.same(y),
{
    let a = u.factor_to_unit_base@;
    let b = u.factor_to_quantity_base@;
    let k = ((a.n * b.n) * a.d) * b.d;
    assert(((x.n * a.n) * b.n) * ((y.d * a.d) * b.d) == (x.n * y.d) * (((a.n * b.n) * a.d)
        * b.d)) by (nonlinear_arith);
    assert(((y.n * a.n) * b.n) * ((x.d * a.d) * b.d) == (y.n * x.d) * (((a.n * b.n) * a.d)
        * b.d)) by (nonlinear_arith);
    assert(k > 0) by (nonlinear_arith)
        requires k == ((a.n * b.n) * a.d) * b.d, a.n > 0, a.d > 0, b.n > 0, b.d > 0;
    assert(x.n * y.d == y.n * x.d) by (nonlinear_arith)
        requires (x.n * y.d) * k == (y.n * x.d) * k, k > 0;
}

/// Converting to any unit of the same quantity and back returns exactly the
/// number the value started with: the round trip loses nothing.
pub proof fn lemma_convert_round_trip(v: Rat, source: Unit, target: Unit)
    requires
        v.wf(),
        source.wf(),
        target.wf(),
    ensures
        convert_spec(convert_spec(v, source, target), target, source).same(v),
        convert_spec(convert_spec(v, source, target), target, source).wf(),
{
    let c1 = convert_spec(v, source, target);
    let c2 = convert_spec(c1, target, source);
    lemma_convert_wf(v, source, target);
    lemma_convert_wf(c1, target, source);
    lemma_convert_preserves_base(v, source, target);
    lemma_convert_preserves_base(c1, target, source);
    let mid = to_base_spec(c1, target);
    assert(mid.d != 0) by (nonlinear_arith)
        requires
            c1.d > 0,
            target.factor_to_unit_base@.d > 0,
            target.factor_to_quantity_base@.d > 0,
            mid.d == (c1.d * target.factor_to_unit_base@.d) * target.factor_to_quantity_base@.d;
    lemma_same_transitive(to_base_spec(c2, source), mid, to_base_spec(v, source));
    lemma_base_cancel(c2, v, source);
}

/// What conversion preserves: the converted value stands for exactly the
/// same magnitude in the quantity's canonical base as the original value.
pub proof fn lemma_convert_preserves_base(v: Rat, source: Unit, target: Unit)
    requires
        v.wf(),
        source.wf(),
        target.wf(),
    ensures
        to_base_spec(convert_spec(v, source, target), target).same(to_base_spec(v, source)),
{
    let s1 = source.factor_to_unit_base@;
    let s2 = source.factor_to_quantity_base@;
    let t1 = target.factor_to_unit_base@;
    let t2 = target.factor_to_quantity_base@;
    assert(((((((v.n * s1.n) * s2.n) * t2.d) * t1.d) * t1.n) * t2.n) * ((v.d * s1.d) * s2.d)
        == ((v.n * s1.n) * s2.n) * ((((((v.d * s1.d) * s2.d) * t2.n) * t1.n) * t1.d) * t2.d))
        by (nonlinear_arith);
}

/// A scalar magnitude tagged with a unit. Arithmetic happens only here:
/// construction and conversion produce new values and never mutate.
#[derive(Clone, Debug)]
pub struct Value {
    pub magnitude: Ratio,
    pub unit: Unit,
}

impl Value {
    /// The magnitude stands for a number and the unit is well formed.
    pub open spec fn wf(self) -> bool {
        self.magnitude.wf() && self.unit.wf()
    }

    /// A new value of the given unit.
    pub fn new(magnitude: Ratio, unit: Unit) -> (r: Value)
        ensures
            r.magnitude == magnitude,
            r.unit == unit,
    {
        Value { magnitude, unit }
    }

    /// The magnitude of this value in its quantity's canonical base
    /// representation: the source half of the conversion chain.
    pub fn to_si(&self) -> (r: Ratio)
        requires
            self.wf(),
            to_base_in_bounds(self.magnitude@, self.unit),
        ensures
            r@ == to_base_spec(self.magnitude@, self.unit),
            r.wf(),
    {
        self.unit.to_si(&self.magnitude)
    }

    /// Converts this value to the unit `target` of the same quantity, in
    /// the four exact multiplicative steps of the conversion chain.
    pub fn convert(&self, target: &Unit) -> (r: Value)
        requires
            self.wf(),
            target.wf(),
            self.unit.quantity.code == target.quantity.code,
            convert_in_bounds(self.magnitude@, self.unit, *target),
        ensures
            r.unit == *target,
            r.magnitude@ == convert_spec(self.magnitude@, self.unit, *target),
            r.wf(),
    {
        let lo: i128 = -0x80000000000000000000000000000000;
        let hi: i128 = 0x7fffffffffffffffffffffffffffffff;
        proof {
            let vn = self.magnitude@.n;
            let vd = self.magnitude@.d;
            let sa = self.unit.factor_to_unit_base@;
            let sb = self.unit.factor_to_quantity_base@;
            let tc = target.factor_to_quantity_base@;
            let td = target.factor_to_unit_base@;
            lemma_chain_bounds(vn, sa.n, sb.n, tc.d, td.d, lo as int, hi as int);
            lemma_chain_bounds(vd, sa.d, sb.d, tc.n, td.n, lo as int, hi as int);
            lemma_chain_pos(vd, sa.d, sb.d, tc.n, td.n);
        }
        // Step 1: undo the source prefix, into the source's raw base.
        let n1: i128 = self.magnitude.num * self.unit.factor_to_unit_base.num;
        let d1: i128 = self.magnitude.den * self.unit.factor_to_unit_base.den;
        // Step 2: from the raw base into the quantity's canonical base.
        let n2: i128 = n1 * self.unit.factor_to_quantity_base.num;
        let d2: i128 = d1 * self.unit.factor_to_quantity_base.den;
        // Step 3: out of the canonical base into the target's raw base.
        let n3: i128 = n2 * target.factor_to_quantity_base.den;
        let d3: i128 = d2 * target.factor_to_quantity_base.num;
        // Step 4: re-apply the target's prefix factor in reverse.
        let n4: i128 = n3 * target.factor_to_unit_base.den;
        let d4: i128 = d3 * target.factor_to_unit_base.num;
        Value {
            magnitude: Ratio { num: n4, den: d4 },
            unit: Unit {
                quantity: target.quantity,
                factor_to_unit_base: target.factor_to_unit_base,
                factor_to_quantity_base: target.factor_to_quantity_base,
                symbol: target.symbol.clone(),
            },
        }
    }

    /// Converts this value to the unit `target` when the two units share a
    /// quantity, and reports an incompatible target instead of converting:
    /// the only failure mode of the engine.
    pub fn convert_to(&self, target: &Unit) -> (r: Option<Value>)
        requires
            self.wf(),
            target.wf(),
            self.unit.quantity.code == target.quantity.code ==> convert_in_bounds(
                self.magnitude@,
                self.unit,
                *target,
            ),
        ensures
            match r {
                Option::Some(v) => {
                    &&& self.unit.quantity.code == target.quantity.code
                    &&& v.unit == *target
                    &&& v.magnitude@ == convert_spec(self.magnitude@, self.unit, *target)
                    &&& v.wf()
                },
                Option::None => self.unit.quantity.code != target.quantity.code,
            },
    {
        if self.unit.quantity.same_quantity(&target.quantity) {
            Option::Some(self.convert(target))
        } else {
            Option::None
        }
    }

    /// The product of two values: magnitudes multiply, and the units
    /// multiply into a unit of the product quantity.
    pub fn mul(&self, other: &Value) -> (r: Value)
        requires
            self.wf(),
            other.wf(),
            forall|j: int| 0 <= j < DIMENSIONS ==> exp_in_range(
                #[trigger] self.unit.quantity.dims()[j] as int
                    + other.unit.quantity.dims()[j] as int,
            ),
            rat_in_bounds(self.unit.total_factor()),
            rat_in_bounds(other.unit.total_factor()),
            rat_in_bounds(self.unit.total_factor().times(other.unit.total_factor())),
            rat_in_bounds(self.magnitude@.times(other.magnitude@)),
        ensures
            r.wf(),
            r.magnitude@ == self.magnitude@.times(other.magnitude@),
            r.unit.quantity.dims() == dim_add(
                self.unit.quantity.dims(),
                other.unit.quantity.dims(),
            ),
            r.unit.factor_to_unit_base@ == Rat::unit(),
            r.unit.factor_to_quantity_base@ == self.unit.total_factor().times(
                other.unit.total_factor(),
            ),
    {
        proof {
            lemma_rat_times_wf(self.magnitude@, other.magnitude@);
        }
        Value {
            magnitude: self.magnitude.times(&other.magnitude),
            unit: self.unit.mul(&other.unit),
        }
    }

    /// The quotient of two values: magnitudes divide, and the units divide
    /// into a unit of the quotient quantity. The divisor's magnitude must
    /// not be zero.
    pub fn div(&self, other: &Value) -> (r: Value)
        requires
            self.wf(),
            other.wf(),
            other.magnitude@.n != 0,
            -0x7fffffffffffffffffffffffffffffff <= other.magnitude.num,
            forall|j: int| 0 <= j < DIMENSIONS ==> exp_in_range(
                -(#[trigger] other.unit.quantity.dims()[j] as int),
            ),
            forall|j: int| 0 <= j < DIMENSIONS ==> exp_in_range(
                #[trigger] self.unit.quantity.dims()[j] as int
                    - other.unit.quantity.dims()[j] as int,
            ),
            rat_in_bounds(self.unit.total_factor()),
            rat_in_bounds(other.unit.total_factor()),
            rat_in_bounds(self.unit.total_factor().times(other.unit.total_factor().inv())),
            -0x7fffffffffffffffffffffffffffffff <= self.magnitude@.n * other.magnitude@.d,
            self.magnitude@.n * other.magnitude@.d <= 0x7fffffffffffffffffffffffffffffff,
            -0x7fffffffffffffffffffffffffffffff <= self.magnitude@.d * other.magnitude@.n,
            self.magnitude@.d * other.magnitude@.n <= 0x7fffffffffffffffffffffffffffffff,
        ensures
            r.wf(),
            r.magnitude@.same(self.magnitude@.times(other.magnitude@.inv())),
            forall|j: int| 0 <= j < DIMENSIONS ==> #[trigger] r.unit.quantity.dims()[j] as int
                == self.unit.quantity.dims()[j] as int - other.unit.quantity.dims()[j] as int,
            r.unit.factor_to_unit_base@ == Rat::unit(),
            r.unit.factor_to_quantity_base@ == self.unit.total_factor().times(
                other.unit.total_factor().inv(),
            ),
    {
        let n2 = other.magnitude.num;
        let d2 = other.magnitude.den;
        proof {
            assert(self.magnitude@.n * -(d2 as int) == -(self.magnitude@.n * (d2 as int)))
                by (nonlinear_arith);
            assert(self.magnitude@.d * -(n2 as int) == -(self.magnitude@.d * (n2 as int)))
                by (nonlinear_arith);
            let qa = self.magnitude@.n * other.magnitude@.d;
            let qb = self.magnitude@.d * other.magnitude@.n;
            assert((-qa) * qb == qa * (-qb)) by (nonlinear_arith);
            if n2 < 0 {
                assert(self.magnitude@.d * -(n2 as int) > 0) by (nonlinear_arith)
                    requires self.magnitude@.d > 0, (n2 as int) < 0;
            } else {
                assert(self.magnitude@.d * (n2 as int) > 0) by (nonlinear_arith)
                    requires self.magnitude@.d > 0, (n2 as int) > 0;
            }
        }
        let magnitude = if n2 < 0 {
            Ratio { num: self.magnitude.num * -d2, den: self.magnitude.den * -n2 }
        } else {
            Ratio { num: self.magnitude.num * d2, den: self.magnitude.den * n2 }
        };
        Value { magnitude, unit: self.unit.div(&other.unit) }
    }
}

impl Unit {
    /// The magnitude `value` of this unit moved into the quantity's
    /// canonical base: multiply by the prefix factor, then by the raw-base
    /// factor.
    pub fn to_si(&self, value: &Ratio) -> (r: Ratio)
        requires
            self.wf(),
            value.wf(),
            to_base_in_bounds(value@, *self),
        ensures
            r@ == to_base_spec(value@, *self),
            r.wf(),
    {
        let lo: i128 = -0x80000000000000000000000000000000;
        let hi: i128 = 0x7fffffffffffffffffffffffffffffff;
        proof {
            let sa = self.factor_to_unit_base@;
            let sb = self.factor_to_quantity_base@;
            lemma_bound_by_product(value@.n * sa.n, sb.n, lo as int, hi as int);
            lemma_bound_by_product(value@.d * sa.d, sb.d, lo as int, hi as int);
            assert(1 <= value@.d * sa.d && 1 <= (value@.d * sa.d) * sb.d) by (nonlinear_arith)
                requires 1 <= value@.d, 1 <= sa.d, 1 <= sb.d;
        }
        let n1: i128 = value.num * self.factor_to_unit_base.num;
        let d1: i128 = value.den * self.factor_to_unit_base.den;
        Ratio { num: n1 * self.factor_to_quantity_base.num, den: d1 * self.factor_to_quantity_base.den }
    }
}

} // verus!

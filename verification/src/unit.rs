//! Unit descriptors.
//!
//! A unit is a named, scaled measure of exactly one quantity. It carries two
//! positive factors: `factor_to_unit_base` undoes any prefix, moving a
//! magnitude into the unit's raw base, and `factor_to_quantity_base` moves
//! that raw base into the quantity's single canonical representation. Every
//! declared unit carries this flattened one-hop form of its base chain, so
//! converting between any two units of a quantity is always exactly four
//! multiplicative steps, however the units were built.

use vstd::prelude::*;
use vstd::string::StringExecFns;

use crate::dimension::DIMENSIONS;
use crate::dimension::dim_add;
use crate::dimension::exp_in_range;
use crate::prefix::Prefix;
use crate::quantity::Quantity;
use crate::ratio::Rat;
use crate::ratio::Ratio;
use crate::ratio::lemma_rat_times_pos;
use crate::ratio::rat_in_bounds;

verus! {

/// A unit: a quantity, the two factors of its flattened base chain, and a
/// display symbol.
#[derive(Clone, Debug)]
pub struct Unit {
    pub quantity: Quantity,
    pub factor_to_unit_base: Ratio,
    pub factor_to_quantity_base: Ratio,
    pub symbol: String,
}

impl Unit {
    /// The quantity's code is valid and both factors are positive.
    pub open spec fn wf(self) -> bool {
        &&& self.quantity.wf()
        &&& self.factor_to_unit_base.pos()
        &&& self.factor_to_quantity_base.pos()
    }

    /// The unit's whole scale into the quantity's canonical base: prefix
    /// factor times raw-base factor.
    pub open spec fn total_factor(self) -> Rat {
        self.factor_to_unit_base@.times(self.factor_to_quantity_base@)
    }

    /// The display symbol of this unit.
    pub fn symbol(&self) -> (r: &str)
        ensures
            r@ == self.symbol@,
    {
        self.symbol.as_str()
    }
}

impl Unit {
    /// The product of two units: the product quantity, and the product of
    /// the two whole scales as the new unit's factor into the product
    /// quantity's canonical base.
    pub fn mul(&self, other: &Unit) -> (u: Unit)
        requires
            self.wf(),
            other.wf(),
            forall|j: int| 0 <= j < DIMENSIONS ==> exp_in_range(
                #[trigger] self.quantity.dims()[j] as int + other.quantity.dims()[j] as int,
            ),
            rat_in_bounds(self.total_factor()),
            rat_in_bounds(other.total_factor()),
            rat_in_bounds(self.total_factor().times(other.total_factor())),
        ensures
            u.wf(),
            u.quantity.dims() == dim_add(self.quantity.dims(), other.quantity.dims()),
            u.factor_to_unit_base@ == Rat::unit(),
            u.factor_to_quantity_base@ == self.total_factor().times(other.total_factor()),
    {
        let t1 = self.factor_to_unit_base.times(&self.factor_to_quantity_base);
        let t2 = other.factor_to_unit_base.times(&other.factor_to_quantity_base);
        proof {
            lemma_rat_times_pos(self.factor_to_unit_base@, self.factor_to_quantity_base@);
            lemma_rat_times_pos(other.factor_to_unit_base@, other.factor_to_quantity_base@);
            lemma_rat_times_pos(t1@, t2@);
        }
        Unit {
            quantity: self.quantity.mul(&other.quantity),
            factor_to_unit_base: Ratio::one(),
            factor_to_quantity_base: t1.times(&t2),
            symbol: String::from_str("product_unit"),
        }
    }

    /// The quotient of two units: the quotient quantity, and the ratio of
    /// the two whole scales as the new unit's factor into the quotient
    /// quantity's canonical base.
    pub fn div(&self, other: &Unit) -> (u: Unit)
        requires
            self.wf(),
            other.wf(),
            forall|j: int| 0 <= j < DIMENSIONS ==> exp_in_range(
                -(#[trigger] other.quantity.dims()[j] as int),
            ),
            forall|j: int| 0 <= j < DIMENSIONS ==> exp_in_range(
                #[trigger] self.quantity.dims()[j] as int - other.quantity.dims()[j] as int,
            ),
            rat_in_bounds(self.total_factor()),
            rat_in_bounds(other.total_factor()),
            rat_in_bounds(self.total_factor().times(other.total_factor().inv())),
        ensures
            u.wf(),
            forall|j: int| 0 <= j < DIMENSIONS ==> #[trigger] u.quantity.dims()[j] as int
                == self.quantity.dims()[j] as int - other.quantity.dims()[j] as int,
            u.factor_to_unit_base@ == Rat::unit(),
            u.factor_to_quantity_base@ == self.total_factor().times(other.total_factor().inv()),
    {
        let t1 = self.factor_to_unit_base.times(&self.factor_to_quantity_base);
        let t2 = other.factor_to_unit_base.times(&other.factor_to_quantity_base);
        proof {
            lemma_rat_times_pos(self.factor_to_unit_base@, self.factor_to_quantity_base@);
            lemma_rat_times_pos(other.factor_to_unit_base@, other.factor_to_quantity_base@);
        }
        let t2_inv = Ratio::new(t2.den, t2.num);
        proof {
            lemma_rat_times_pos(t1@, t2_inv@);
        }
        Unit {
            quantity: self.quantity.div(&other.quantity),
            factor_to_unit_base: Ratio::one(),
            factor_to_quantity_base: t1.times(&t2_inv),
            symbol: String::from_str("quotient_unit"),
        }
    }
}

/// Declares the canonical base unit of a quantity: it is its own base, and
/// both of its factors are one.
pub fn declare_base_unit(quantity: &Quantity, symbol: String) -> (u: Unit)
    requires
        quantity.wf(),
    ensures
        u.wf(),
        u.quantity == *quantity,
        u.factor_to_unit_base@ == Rat::unit(),
        u.factor_to_quantity_base@ == Rat::unit(),
        u.total_factor().same(Rat::unit()),
        u.symbol == symbol,
{
    Unit {
        quantity: *quantity,
        factor_to_unit_base: Ratio::one(),
        factor_to_quantity_base: Ratio::one(),
        symbol,
    }
}

/// Declares a derived unit of an existing quantity. The factor states how
/// many canonical base units one of this unit is worth; the unit is its own
/// raw base, so its prefix factor is one.
pub fn declare_unit(quantity: &Quantity, factor_to_quantity_base: Ratio, symbol: String) -> (u:
    Unit)
    requires
        quantity.wf(),
        factor_to_quantity_base.pos(),
    ensures
        u.wf(),
        u.quantity == *quantity,
        u.factor_to_unit_base@ == Rat::unit(),
        u.factor_to_quantity_base == factor_to_quantity_base,
        u.symbol == symbol,
{
    Unit {
        quantity: *quantity,
        factor_to_unit_base: Ratio::one(),
        factor_to_quantity_base,
        symbol,
    }
}

/// Composes a prefix with a raw (unprefixed) unit: the same quantity, the
/// same factor into the quantity's canonical base, the prefix's factor to
/// the unit base, and the concatenated symbol. A prefixed unit has a factor
/// to its unit base other than one, so it cannot be prefixed again.
pub fn compose_prefix(prefix: &Prefix, unit: &Unit) -> (u: Unit)
    requires
        prefix.factor.pos(),
        unit.wf(),
        unit.factor_to_unit_base@ == Rat::unit(),
    ensures
        u.wf(),
        u.quantity == unit.quantity,
        u.factor_to_unit_base == prefix.factor,
        u.factor_to_quantity_base == unit.factor_to_quantity_base,
        u.symbol@ == prefix.symbol@ + unit.symbol@,
{
    Unit {
        quantity: unit.quantity,
        factor_to_unit_base: prefix.factor,
        factor_to_quantity_base: unit.factor_to_quantity_base,
        symbol: prefix.symbol.clone().concat(unit.symbol.as_str()),
    }
}

} // verus!

//! Quantity identities and their algebra.
//!
//! A quantity is identified solely by its packed dimension code: two
//! quantities are the same physical quantity exactly when their codes are
//! equal, however and wherever they were declared. Multiplying quantities
//! adds codes lane-wise, raising to a power scales the code, and a quantity
//! declared from components carries the code of the componentwise linear
//! combination of its parts.

use vstd::prelude::*;

use crate::dimension::DIMENSIONS;
use crate::dimension::Dimension;
use crate::dimension::DimensionCode;
use crate::dimension::DimensionVector;
use crate::dimension::code_in_range;
use crate::dimension::dim_add;
use crate::dimension::dim_scale;
use crate::dimension::dims_in_range;
use crate::dimension::exp_in_range;
use crate::dimension::lemma_pack_injective;
use crate::dimension::lemma_pack_unpack;
use crate::dimension::lemma_unpack_pack;
use crate::dimension::lemma_unpack_shape;
use crate::dimension::pack;
use crate::dimension::pack_spec;
use crate::dimension::scale;
use crate::dimension::unpack;
use crate::dimension::unpack_spec;
use crate::dimension::zero_code;
use crate::dimension::zero_dims;

verus! {

/// A quantity identity: nothing but a dimension code.
#[derive(Clone, Copy, Debug, PartialEq, Eq, Structural)]
pub struct Quantity {
    pub code: DimensionCode,
}

impl Quantity {
    /// The code stands for a full vector of in-range exponents.
    pub open spec fn wf(self) -> bool {
        code_in_range(self.code as int)
    }

    /// The dimension exponents this quantity stands for.
    pub open spec fn dims(self) -> Seq<Dimension> {
        unpack_spec(self.code as int, DIMENSIONS as nat)
    }

    /// Declares a quantity from a literal dimension vector.
    pub fn new(dimension: &DimensionVector) -> (q: Quantity)
        requires
            dims_in_range(dimension@),
        ensures
            q.wf(),
            q.code as int == pack_spec(dimension@),
            q.dims() == dimension@,
    {
        proof {
            lemma_unpack_pack(dimension@);
        }
        Quantity { code: pack(dimension) }
    }

    /// The dimensionless quantity: every exponent zero, the identity of
    /// quantity multiplication.
    pub fn dimensionless() -> (q: Quantity)
        ensures
            q.wf(),
            q.dims() == zero_dims(),
    {
        proof {
            lemma_unpack_pack(zero_dims());
        }
        Quantity { code: zero_code() }
    }

    /// The dimension vector of this quantity, for inspection.
    pub fn dimension_vector(&self) -> (dv: DimensionVector)
        requires
            self.wf(),
        ensures
            dv@ == self.dims(),
    {
        unpack(self.code)
    }

    /// Whether this is the same physical quantity as `other`: the sole
    /// compatibility test used wherever conversions are checked.
    pub fn same_quantity(&self, other: &Quantity) -> (r: bool)
        ensures
            r == (self.code == other.code),
    {
        self.code == other.code
    }

    /// The product of two quantities: dimension exponents add.
    pub fn mul(&self, other: &Quantity) -> (q: Quantity)
        requires
            self.wf(),
            other.wf(),
            forall|j: int| 0 <= j < DIMENSIONS ==> exp_in_range(
                #[trigger] self.dims()[j] as int + other.dims()[j] as int,
            ),
        ensures
            q.wf(),
            q.dims() == dim_add(self.dims(), other.dims()),
    {
        proof {
            lemma_unpack_shape(self.code as int, DIMENSIONS as nat);
            lemma_unpack_shape(other.code as int, DIMENSIONS as nat);
            assert forall|j: int| 0 <= j < DIMENSIONS implies exp_in_range(
                #[trigger] unpack_spec(self.code as int, DIMENSIONS as nat)[j] as int
                    + unpack_spec(other.code as int, DIMENSIONS as nat)[j] as int,
            ) by {
                assert(exp_in_range(self.dims()[j] as int + other.dims()[j] as int));
            }
            assert(crate::dimension::sums_in_range(self.code as int, other.code as int));
        }
        Quantity { code: crate::dimension::add(self.code, other.code) }
    }

    /// The quotient of two quantities: dimension exponents subtract.
    pub fn div(&self, other: &Quantity) -> (q: Quantity)
        requires
            self.wf(),
            other.wf(),
            forall|j: int| 0 <= j < DIMENSIONS ==> exp_in_range(
                -(#[trigger] other.dims()[j] as int),
            ),
            forall|j: int| 0 <= j < DIMENSIONS ==> exp_in_range(
                #[trigger] self.dims()[j] as int - other.dims()[j] as int,
            ),
        ensures
            q.wf(),
            forall|j: int| 0 <= j < DIMENSIONS ==> #[trigger] q.dims()[j] as int
                == self.dims()[j] as int - other.dims()[j] as int,
    {
        let rec = other.powi(-1);
        proof {
            lemma_unpack_shape(self.code as int, DIMENSIONS as nat);
            lemma_unpack_shape(rec.code as int, DIMENSIONS as nat);
        }
        let q = self.mul(&rec);
        q
    }

    /// This quantity raised to the integer power `n`; `n` may be negative,
    /// giving reciprocal dimensions.
    pub fn powi(&self, n: Dimension) -> (q: Quantity)
        requires
            self.wf(),
            forall|j: int| 0 <= j < DIMENSIONS ==> exp_in_range(
                #[trigger] self.dims()[j] as int * n as int,
            ),
        ensures
            q.wf(),
            q.dims() == dim_scale(self.dims(), n as int),
    {
        proof {
            lemma_unpack_shape(self.code as int, DIMENSIONS as nat);
            assert forall|j: int| 0 <= j < DIMENSIONS implies exp_in_range(
                #[trigger] unpack_spec(self.code as int, DIMENSIONS as nat)[j] as int * n as int,
            ) by {
                assert(exp_in_range(self.dims()[j] as int * n as int));
            }
            assert(crate::dimension::scaled_in_range(self.code as int, n as int));
        }
        Quantity { code: scale(self.code, n) }
    }

    /// The reciprocal quantity: every dimension exponent negated.
    pub fn recip(&self) -> (q: Quantity)
        requires
            self.wf(),
            forall|j: int| 0 <= j < DIMENSIONS ==> exp_in_range(
                -(#[trigger] self.dims()[j] as int),
            ),
        ensures
            q.wf(),
            forall|j: int| 0 <= j < DIMENSIONS ==> #[trigger] q.dims()[j] as int
                == -(self.dims()[j] as int),
    {
        proof {
            lemma_unpack_shape(self.code as int, DIMENSIONS as nat);
        }
        self.powi(-1)
    }
}

/// Dimension exponent `j` of the combination of the first `m` components:
/// each component contributes its dimensions scaled by its exponent.
pub open spec fn combo_dim(s: Seq<(Quantity, Dimension)>, m: int, j: int) -> int
    decreases m,
{
    if m <= 0 {
        0
    } else {
        combo_dim(s, m - 1, j) + s[m - 1].0.dims()[j] as int * s[m - 1].1 as int
    }
}

impl Quantity {
    /// Declares a quantity as a product of existing quantities raised to
    /// integer powers: the code of the componentwise linear combination of
    /// the components' dimension vectors.
    #[verifier::loop_isolation(false)]
    pub fn combine(components: &[(Quantity, Dimension)]) -> (q: Quantity)
        requires
            forall|m: int| 0 <= m < components@.len() ==> (#[trigger] components@[m].0).wf(),
            forall|m: int, j: int|
                0 <= m < components@.len() && 0 <= j < DIMENSIONS ==> exp_in_range(
                    #[trigger] (components@[m].0.dims()[j] as int * components@[m].1 as int),
                ),
            forall|m: int, j: int|
                0 <= m <= components@.len() && 0 <= j < DIMENSIONS ==> exp_in_range(
                    #[trigger] combo_dim(components@, m, j),
                ),
        ensures
            q.wf(),
            forall|j: int| 0 <= j < DIMENSIONS ==> #[trigger] q.dims()[j] as int
                == combo_dim(components@, components@.len() as int, j),
    {
        let mut acc = Quantity::dimensionless();
        let mut i: usize = 0;
        while i < components.len()
            invariant
                i <= components@.len(),
                acc.wf(),
                forall|j: int| 0 <= j < DIMENSIONS ==> #[trigger] acc.dims()[j] as int
                    == combo_dim(components@, i as int, j),
            decreases components@.len() - i,
        {
            let part = components[i].0.powi(components[i].1);
            proof {
                lemma_unpack_shape(acc.code as int, DIMENSIONS as nat);
                lemma_unpack_shape(part.code as int, DIMENSIONS as nat);
                assert forall|j: int| 0 <= j < DIMENSIONS implies exp_in_range(
                    #[trigger] acc.dims()[j] as int + part.dims()[j] as int,
                ) by {
                    assert(exp_in_range(
                        components@[i as int].0.dims()[j] as int * components@[i as int].1 as int,
                    ));
                    assert(part.dims()[j] as int
                        == components@[i as int].0.dims()[j] as int
                            * components@[i as int].1 as int);
                    assert(acc.dims()[j] as int + part.dims()[j] as int
                        == combo_dim(components@, i as int + 1, j));
                    assert(exp_in_range(combo_dim(components@, i as int + 1, j)));
                }
            }
            acc = acc.mul(&part);
            i = i + 1;
        }
        acc
    }
}

/// An owned name table for quantities: a mapping from a dimension vector's
/// packed code to a display name. The first writer of a code wins; a
/// conflicting re-registration is reported to the caller and not applied.
pub struct QuantityRegistry {
    entries: Vec<(DimensionCode, String)>,
}

impl View for QuantityRegistry {
    type V = Seq<(int, Seq<char>)>;

    closed spec fn view(&self) -> Seq<(int, Seq<char>)> {
        self.entries@.map_values(|e: (DimensionCode, String)| (e.0 as int, e.1@))
    }
}

impl QuantityRegistry {
    /// No code is registered twice.
    pub open spec fn wf(self) -> bool {
        forall|i: int, j: int|
            0 <= i < j < self@.len() ==> (#[trigger] self@[i]).0 != (#[trigger] self@[j]).0
    }

    /// Whether some name is registered under the code `c`.
    pub open spec fn has_key(self, c: int) -> bool {
        exists|i: int| 0 <= i < self@.len() && (#[trigger] self@[i]).0 == c
    }

    /// The name registered under the code `c`, if any.
    pub open spec fn spec_get(self, c: int) -> Option<Seq<char>> {
        if self.has_key(c) {
            let i = choose|i: int| 0 <= i < self@.len() && (#[trigger] self@[i]).0 == c;
            Option::Some(self@[i].1)
        } else {
            Option::None
        }
    }

    /// An empty registry.
    pub fn new() -> (r: QuantityRegistry)
        ensures
            r@ =~= Seq::<(int, Seq<char>)>::empty(),
            r.wf(),
    {
        QuantityRegistry { entries: Vec::new() }
    }

    /// The name registered for the dimension vector `dim`, if any.
    #[verifier::loop_isolation(false)]
    pub fn get_name(&self, dim: &DimensionVector) -> (r: Option<String>)
        requires
            dims_in_range(dim@),
            self.wf(),
        ensures
            match r {
                Option::Some(name) => self.spec_get(pack_spec(dim@))
                    == Option::Some(name@),
                Option::None => self.spec_get(pack_spec(dim@)) is None,
            },
    {
        let code = pack(dim);
        let mut i: usize = 0;
        while i < self.entries.len()
            invariant
                i <= self@.len(),
                forall|j: int| 0 <= j < i ==> (#[trigger] self@[j]).0 != code as int,
            decreases self@.len() - i,
        {
            if self.entries[i].0 == code {
                proof {
                    assert(self@[i as int]
                        == (self.entries@[i as int].0 as int, self.entries@[i as int].1@));
                    assert(self.has_key(code as int));
                    let k = choose|k: int|
                        0 <= k < self@.len() && (#[trigger] self@[k]).0 == code as int;
                    assert(k == i as int);
                }
                return Option::Some(self.entries[i].1.clone());
            }
            proof {
                assert(self@[i as int]
                    == (self.entries@[i as int].0 as int, self.entries@[i as int].1@));
            }
            i = i + 1;
        }
        Option::None
    }

    /// Registers `name` for the dimension vector `dim`. Returns whether the
    /// code was fresh: when a name is already present the table is left as
    /// it was, and the caller learns of the conflict from the result.
    #[verifier::loop_isolation(false)]
    pub fn register(&mut self, dim: &DimensionVector, name: String) -> (fresh: bool)
        requires
            dims_in_range(dim@),
            old(self).wf(),
        ensures
            final(self).wf(),
            fresh == !old(self).has_key(pack_spec(dim@)),
            fresh ==> final(self)@ == old(self)@.push((pack_spec(dim@), name@)),
            !fresh ==> final(self)@ == old(self)@,
    {
        let code = pack(dim);
        let mut i: usize = 0;
        while i < self.entries.len()
            invariant
                i <= self@.len(),
                forall|j: int| 0 <= j < i ==> (#[trigger] self@[j]).0 != code as int,
            decreases self@.len() - i,
        {
            if self.entries[i].0 == code {
                proof {
                    assert(self@[i as int]
                        == (self.entries@[i as int].0 as int, self.entries@[i as int].1@));
                    assert(self.has_key(code as int));
                }
                return false;
            }
            proof {
                assert(self@[i as int]
                    == (self.entries@[i as int].0 as int, self.entries@[i as int].1@));
            }
            i = i + 1;
        }
        self.entries.push((code, name));
        proof {
            assert(self@ =~= old(self)@.push((pack_spec(dim@), name@)));
        }
        true
    }
}

/// Quantity equality is structural: two quantities, however independently
/// declared, are the same physical quantity exactly when their dimension
/// vectors agree, and that is exactly when their codes agree. Conversion
/// compatibility tests nothing but the code.
pub proof fn lemma_structural_identity(q1: Quantity, q2: Quantity)
    requires
        q1.wf(),
        q2.wf(),
    ensures
        (q1.dims() == q2.dims()) <==> (q1.code == q2.code),
{
    lemma_unpack_shape(q1.code as int, DIMENSIONS as nat);
    lemma_unpack_shape(q2.code as int, DIMENSIONS as nat);
    lemma_pack_injective(q1.dims(), q2.dims());
    lemma_pack_unpack(q1.code as int, DIMENSIONS as nat);
    lemma_pack_unpack(q2.code as int, DIMENSIONS as nat);
}

} // verus!

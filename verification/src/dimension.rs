//! Dimension vectors and their packed codes.
//!
//! A quantity's physical dimensions are a fixed-length vector of signed
//! exponents, one per base dimension. The vector is packed into one signed
//! 64-bit code made of `DIMENSIONS` base-512 lanes: lane `i` holds exponent
//! `i` plus a bias of 256, so exponents from -256 through 255 round-trip
//! exactly. Multiplying two quantities adds their codes lane-wise; raising a
//! quantity to a power scales every lane. Exponents outside the lane range
//! are a caller obligation: they are excluded by precondition here rather
//! than detected at run time.

use vstd::prelude::*;
use vstd::arithmetic::div_mod::lemma_fundamental_div_mod_converse;
use vstd::arithmetic::div_mod::lemma_fundamental_div_mod;

verus! {

/// Number of base dimensions (length, mass, time, electric current,
/// temperature, amount of substance, luminous intensity).
pub const DIMENSIONS: usize = 7;

/// One dimension exponent.
pub type Dimension = i16;

/// The exponents of a quantity, one per base dimension.
pub type DimensionVector = [Dimension; DIMENSIONS];

/// The packed form of a dimension vector: seven biased base-512 lanes.
pub type DimensionCode = i64;

/// An exponent that one lane can hold exactly.
pub open spec fn exp_in_range(e: int) -> bool {
    -256 <= e <= 255
}

/// Every exponent of the vector fits its lane.
pub open spec fn dims_in_range(s: Seq<Dimension>) -> bool {
    forall|i: int| 0 <= i < s.len() ==> exp_in_range(#[trigger] s[i] as int)
}

/// The code of a vector: lane 0 in the least significant position.
pub open spec fn pack_spec(s: Seq<Dimension>) -> int
    decreases s.len(),
{
    if s.len() == 0 {
        0
    } else {
        (s[0] as int + 256) + 512 * pack_spec(s.drop_first())
    }
}

/// The first `n` lanes of a code, unbiased back into exponents.
pub open spec fn unpack_spec(code: int, n: nat) -> Seq<Dimension>
    decreases n,
{
    if n == 0 {
        Seq::empty()
    } else {
        seq![(code % 512 - 256) as Dimension] + unpack_spec(code / 512, (n - 1) as nat)
    }
}

/// Exclusive upper bound of a code of `n` in-range lanes: 512 to the `n`th.
pub open spec fn code_bound(n: nat) -> int
    decreases n,
{
    if n == 0 {
        1
    } else {
        512 * code_bound((n - 1) as nat)
    }
}

/// A code that stands for a full vector of in-range exponents.
pub open spec fn code_in_range(code: int) -> bool {
    0 <= code < code_bound(DIMENSIONS as nat)
}

/// Seven full lanes use exactly the 63 value bits of the signed code.
proof fn lemma_code_bound_fits()
    ensures
        code_bound(DIMENSIONS as nat) == 0x8000000000000000,
{
    reveal_with_fuel(code_bound, 8);
}

pub proof fn lemma_pack_bounds(s: Seq<Dimension>)
    requires
        dims_in_range(s),
    ensures
        0 <= pack_spec(s) < code_bound(s.len()),
    decreases s.len(),
{
    if s.len() > 0 {
        let rest = s.drop_first();
        lemma_pack_bounds(rest);
        let q = pack_spec(rest);
        let bb = code_bound(rest.len());
        assert(512 * q <= 512 * (bb - 1) && 0 <= 512 * q) by (nonlinear_arith)
            requires 0 <= q <= bb - 1;
    }
}

/// Lanes read back from any code are in range, and `n` of them are read.
pub proof fn lemma_unpack_shape(code: int, n: nat)
    ensures
        unpack_spec(code, n).len() == n,
        dims_in_range(unpack_spec(code, n)),
    decreases n,
{
    if n > 0 {
        lemma_unpack_shape(code / 512, (n - 1) as nat);
    }
}

/// Unpacking a packed vector gives the vector back: packing is lossless
/// over the lane range.
pub proof fn lemma_unpack_pack(s: Seq<Dimension>)
    requires
        dims_in_range(s),
    ensures
        unpack_spec(pack_spec(s), s.len()) == s,
    decreases s.len(),
{
    if s.len() == 0 {
        assert(unpack_spec(pack_spec(s), s.len()) =~= s);
    } else {
        let rest = s.drop_first();
        let b = s[0] as int + 256;
        let q = pack_spec(rest);
        lemma_pack_bounds(rest);
        lemma_fundamental_div_mod_converse(pack_spec(s), 512, q, b);
        lemma_unpack_pack(rest);
        assert(unpack_spec(pack_spec(s), s.len()) =~= s);
    }
}

/// Packing the lanes read from an in-range code gives the code back: every
/// such code stands for exactly one vector.
pub proof fn lemma_pack_unpack(code: int, n: nat)
    requires
        0 <= code < code_bound(n),
    ensures
        pack_spec(unpack_spec(code, n)) == code,
    decreases n,
{
    if n == 0 {
        assert(unpack_spec(code, 0) =~= Seq::<Dimension>::empty());
    } else {
        let q = code / 512;
        let r = code % 512;
        lemma_fundamental_div_mod(code, 512);
        assert(q < code_bound((n - 1) as nat)) by (nonlinear_arith)
            requires
                code < 512 * code_bound((n - 1) as nat),
                code == 512 * q + r,
                0 <= r < 512,
                0 <= code;
        lemma_pack_unpack(q, (n - 1) as nat);
        let s = unpack_spec(code, n);
        assert(s.drop_first() =~= unpack_spec(q, (n - 1) as nat));
        assert(s[0] as int + 256 == r);
    }
}

/// Packing is injective over in-range vectors: equal codes mean equal
/// vectors.
pub proof fn lemma_pack_injective(a: Seq<Dimension>, b: Seq<Dimension>)
    requires
        dims_in_range(a),
        dims_in_range(b),
        a.len() == b.len(),
    ensures
        pack_spec(a) == pack_spec(b) <==> a == b,
{
    if pack_spec(a) == pack_spec(b) {
        lemma_unpack_pack(a);
        lemma_unpack_pack(b);
    }
}

/// Packs a dimension vector into its code.
#[verifier::loop_isolation(false)]
pub fn pack(e: &DimensionVector) -> (code: DimensionCode)
    requires
        dims_in_range(e@),
    ensures
        code as int == pack_spec(e@),
        code_in_range(code as int),
{
    proof {
        lemma_code_bound_fits();
    }
    let mut code: i64 = 0;
    let mut i: usize = DIMENSIONS;
    while i > 0
        invariant
            i <= DIMENSIONS,
            dims_in_range(e@),
            code as int == pack_spec(e@.skip(i as int)),
            0 <= code,
            (code as int) < code_bound((DIMENSIONS - i) as nat),
        decreases i,
    {
        i = i - 1;
        proof {
            assert(e@.skip(i as int).drop_first() =~= e@.skip(i as int + 1));
            let bb = code_bound((DIMENSIONS - i - 1) as nat);
            lemma_code_bound_positive((DIMENSIONS - i - 1) as nat);
            assert(512 * code <= 512 * (bb - 1) && 0 <= 512 * code) by (nonlinear_arith)
                requires 0 <= code <= bb - 1;
            lemma_code_bound_grows(DIMENSIONS as nat, (DIMENSIONS - i) as nat);
        }
        code = (e[i] as i64 + 256) + 512 * code;
    }
    proof {
        assert(e@.skip(0) =~= e@);
        lemma_pack_bounds(e@);
    }
    code
}

/// The lane bound only grows with the number of lanes.
proof fn lemma_code_bound_grows(n: nat, m: nat)
    requires
        m <= n,
    ensures
        code_bound(m) <= code_bound(n),
    decreases n,
{
    if m < n {
        lemma_code_bound_grows((n - 1) as nat, m);
        lemma_code_bound_positive((n - 1) as nat);
        assert(code_bound((n - 1) as nat) <= 512 * code_bound((n - 1) as nat)) by (nonlinear_arith)
            requires code_bound((n - 1) as nat) >= 1;
    }
}

proof fn lemma_code_bound_positive(n: nat)
    ensures
        code_bound(n) >= 1,
    decreases n,
{
    if n > 0 {
        lemma_code_bound_positive((n - 1) as nat);
    }
}

/// Reads the dimension vector back out of a code.
#[verifier::loop_isolation(false)]
pub fn unpack(code: DimensionCode) -> (dv: DimensionVector)
    requires
        0 <= code,
    ensures
        dv@ == unpack_spec(code as int, DIMENSIONS as nat),
{
    let ghost full = unpack_spec(code as int, DIMENSIONS as nat);
    proof {
        lemma_unpack_shape(code as int, DIMENSIONS as nat);
        assert(full.skip(0) =~= full);
    }
    let mut dv: DimensionVector = [0, 0, 0, 0, 0, 0, 0];
    let mut c: i64 = code;
    let mut i: usize = 0;
    while i < DIMENSIONS
        invariant
            i <= DIMENSIONS,
            0 <= c,
            unpack_spec(c as int, (DIMENSIONS - i) as nat) == full.skip(i as int),
            forall|j: int| 0 <= j < i ==> dv@[j] == full[j],
        decreases DIMENSIONS - i,
    {
        proof {
            lemma_unpack_shape(code as int, DIMENSIONS as nat);
            lemma_unpack_shape(c as int, (DIMENSIONS - i) as nat);
            assert(full.skip(i as int)[0] == full[i as int]);
            assert(full.skip(i as int).drop_first() =~= full.skip(i as int + 1));
        }
        dv[i] = ((c % 512) - 256) as i16;
        c = c / 512;
        i = i + 1;
    }
    proof {
        lemma_unpack_shape(code as int, DIMENSIONS as nat);
        assert(dv@ =~= full);
    }
    dv
}

/// Componentwise sum of two dimension vectors.
pub open spec fn dim_add(x: Seq<Dimension>, y: Seq<Dimension>) -> Seq<Dimension> {
    Seq::new(x.len(), |i: int| (x[i] as int + y[i] as int) as Dimension)
}

/// Every dimension of the vector scaled by the same exponent.
pub open spec fn dim_scale(x: Seq<Dimension>, k: int) -> Seq<Dimension> {
    Seq::new(x.len(), |i: int| (x[i] as int * k) as Dimension)
}

/// The code of the componentwise sum of what two codes stand for.
pub open spec fn code_add(a: int, b: int) -> int {
    pack_spec(dim_add(unpack_spec(a, DIMENSIONS as nat), unpack_spec(b, DIMENSIONS as nat)))
}

/// The code of a code's vector with every exponent scaled by `k`.
pub open spec fn code_scale(a: int, k: int) -> int {
    pack_spec(dim_scale(unpack_spec(a, DIMENSIONS as nat), k))
}

/// The componentwise sums of the lanes of two codes all fit their lanes.
pub open spec fn sums_in_range(a: int, b: int) -> bool {
    forall|j: int| 0 <= j < DIMENSIONS ==> exp_in_range(
        #[trigger] unpack_spec(a, DIMENSIONS as nat)[j] as int
            + unpack_spec(b, DIMENSIONS as nat)[j] as int,
    )
}

/// The lanes of a code scaled by `k` all fit their lanes.
pub open spec fn scaled_in_range(a: int, k: int) -> bool {
    forall|j: int| 0 <= j < DIMENSIONS ==> exp_in_range(
        #[trigger] unpack_spec(a, DIMENSIONS as nat)[j] as int * k,
    )
}

/// Adds two codes lane by lane: the code of the product of two quantities.
#[verifier::loop_isolation(false)]
pub fn add(a: DimensionCode, b: DimensionCode) -> (r: DimensionCode)
    requires
        0 <= a,
        0 <= b,
        sums_in_range(a as int, b as int),
    ensures
        r as int == code_add(a as int, b as int),
        code_in_range(r as int),
        unpack_spec(r as int, DIMENSIONS as nat) == dim_add(
            unpack_spec(a as int, DIMENSIONS as nat),
            unpack_spec(b as int, DIMENSIONS as nat),
        ),
{
    let ghost sum = dim_add(
        unpack_spec(a as int, DIMENSIONS as nat),
        unpack_spec(b as int, DIMENSIONS as nat),
    );
    proof {
        lemma_unpack_shape(a as int, DIMENSIONS as nat);
        lemma_unpack_shape(b as int, DIMENSIONS as nat);
    }
    let va = unpack(a);
    let vb = unpack(b);
    let mut vr: DimensionVector = [0, 0, 0, 0, 0, 0, 0];
    let mut i: usize = 0;
    while i < DIMENSIONS
        invariant
            i <= DIMENSIONS,
            forall|j: int| 0 <= j < i ==> vr@[j] == sum[j],
        decreases DIMENSIONS - i,
    {
        vr[i] = va[i] + vb[i];
        i = i + 1;
    }
    proof {
        assert(vr@ =~= sum);
        lemma_unpack_pack(sum);
    }
    pack(&vr)
}

/// Scales every lane of a code by `k`: the code of a quantity raised to the
/// power `k` (negative `k` gives reciprocal dimensions).
#[verifier::loop_isolation(false)]
pub fn scale(a: DimensionCode, k: Dimension) -> (r: DimensionCode)
    requires
        0 <= a,
        scaled_in_range(a as int, k as int),
    ensures
        r as int == code_scale(a as int, k as int),
        code_in_range(r as int),
        unpack_spec(r as int, DIMENSIONS as nat) == dim_scale(
            unpack_spec(a as int, DIMENSIONS as nat),
            k as int,
        ),
{
    let ghost scaled = dim_scale(unpack_spec(a as int, DIMENSIONS as nat), k as int);
    proof {
        lemma_unpack_shape(a as int, DIMENSIONS as nat);
    }
    let va = unpack(a);
    let mut vr: DimensionVector = [0, 0, 0, 0, 0, 0, 0];
    let mut i: usize = 0;
    while i < DIMENSIONS
        invariant
            i <= DIMENSIONS,
            forall|j: int| 0 <= j < i ==> vr@[j] == scaled[j],
        decreases DIMENSIONS - i,
    {
        let p: i32 = (va[i] as i32) * (k as i32);
        vr[i] = p as i16;
        i = i + 1;
    }
    proof {
        assert(vr@ =~= scaled);
        lemma_unpack_pack(scaled);
    }
    pack(&vr)
}

/// Packing, then adding codes, then unpacking is exactly componentwise
/// addition of the vectors, whenever the exponents and their sums fit the
/// lanes.
pub proof fn lemma_add_codes(x: Seq<Dimension>, y: Seq<Dimension>)
    requires
        x.len() == DIMENSIONS,
        y.len() == DIMENSIONS,
        dims_in_range(x),
        dims_in_range(y),
        forall|j: int| 0 <= j < DIMENSIONS ==> exp_in_range(#[trigger] x[j] as int + y[j] as int),
    ensures
        unpack_spec(code_add(pack_spec(x), pack_spec(y)), DIMENSIONS as nat) == dim_add(x, y),
{
    lemma_unpack_pack(x);
    lemma_unpack_pack(y);
    lemma_unpack_pack(dim_add(x, y));
}

/// Packing, then scaling the code, then unpacking is exactly componentwise
/// scaling of the vector, whenever the exponents and their multiples fit
/// the lanes.
pub proof fn lemma_scale_codes(x: Seq<Dimension>, k: int)
    requires
        x.len() == DIMENSIONS,
        dims_in_range(x),
        forall|j: int| 0 <= j < DIMENSIONS ==> exp_in_range(#[trigger] x[j] as int * k),
    ensures
        unpack_spec(code_scale(pack_spec(x), k), DIMENSIONS as nat) == dim_scale(x, k),
{
    lemma_unpack_pack(x);
    lemma_unpack_pack(dim_scale(x, k));
}

/// The all-zero vector: the dimensions of a dimensionless quantity.
pub open spec fn zero_dims() -> Seq<Dimension> {
    Seq::new(DIMENSIONS as nat, |i: int| 0i16)
}

/// The code of the dimensionless quantity.
pub fn zero_code() -> (r: DimensionCode)
    ensures
        r as int == pack_spec(zero_dims()),
        code_in_range(r as int),
{
    let z: DimensionVector = [0, 0, 0, 0, 0, 0, 0];
    proof {
        assert(z@ =~= zero_dims());
    }
    pack(&z)
}

/// The dimensionless code is the identity of code addition.
pub proof fn lemma_add_zero(c: int)
    requires
        code_in_range(c),
    ensures
        code_add(pack_spec(zero_dims()), c) == c,
        code_add(c, pack_spec(zero_dims())) == c,
{
    let z = zero_dims();
    let u = unpack_spec(c, DIMENSIONS as nat);
    lemma_unpack_pack(z);
    lemma_unpack_shape(c, DIMENSIONS as nat);
    assert(dim_add(z, u) =~= u);
    assert(dim_add(u, z) =~= u);
    lemma_pack_unpack(c, DIMENSIONS as nat);
}

} // verus!

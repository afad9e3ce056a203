use vstd::prelude::*;

verus! {

/// One more than the largest value a `U256` holds.
pub open spec fn modulus() -> nat {
    limb_base() * limb_base() * limb_base() * limb_base()
}

pub open spec fn limb_base() -> nat {
    0x1_0000_0000_0000_0000
}

/// An unsigned 256-bit integer held as four 64-bit limbs, least significant first.
#[derive(Clone, Copy, Debug, PartialEq, Eq, Structural)]
pub struct U256 {
    pub l0: u64,
    pub l1: u64,
    pub l2: u64,
    pub l3: u64,
}

impl View for U256 {
    type V = nat;

    open spec fn view(&self) -> nat {
        self.l0 as nat + limb_base() * (self.l1 as nat + limb_base() * (self.l2 as nat
            + limb_base() * self.l3 as nat))
    }
}

pub proof fn lemma_view_bounded(x: U256)
    ensures
        x@ < modulus(),
{
    let b = limb_base();
    let (a0, a1, a2, a3) = (x.l0 as nat, x.l1 as nat, x.l2 as nat, x.l3 as nat);
    assert(a2 + b * a3 <= b * b - 1) by (nonlinear_arith)
        requires a2 < b, a3 < b;
    assert(a1 + b * (a2 + b * a3) <= b * b * b - 1) by (nonlinear_arith)
        requires a1 < b, a2 + b * a3 <= b * b - 1;
    assert(a0 + b * (a1 + b * (a2 + b * a3)) <= b * b * b * b - 1) by (nonlinear_arith)
        requires a0 < b, a1 + b * (a2 + b * a3) <= b * b * b - 1;
}

impl U256 {
    pub fn from_limbs(limbs: [u64; 4]) -> (r: U256)
        ensures
            r.l0 == limbs[0],
            r.l1 == limbs[1],
            r.l2 == limbs[2],
            r.l3 == limbs[3],
    {
        U256 { l0: limbs[0], l1: limbs[1], l2: limbs[2], l3: limbs[3] }
    }

    pub fn into_limbs(self) -> (r: [u64; 4])
        ensures
            r[0] == self.l0,
            r[1] == self.l1,
            r[2] == self.l2,
            r[3] == self.l3,
    {
        [self.l0, self.l1, self.l2, self.l3]
    }

    pub fn from_u64(n: u64) -> (r: U256)
        ensures
            r@ == n as nat,
    {
        U256 { l0: n, l1: 0, l2: 0, l3: 0 }
    }

    pub fn zero() -> (r: U256)
        ensures
            r@ == 0,
    {
        U256::from_u64(0)
    }

    /// The largest value, `2^256 - 1`.
    pub fn max_value() -> (r: U256)
        ensures
            r@ == modulus() - 1,
    {
        let m: u64 = 0xffff_ffff_ffff_ffff;
        let r = U256 { l0: m, l1: m, l2: m, l3: m };
        assert(r@ == modulus() - 1);
        r
    }
}

/// Relies on ruint's `Uint::checked_mul`: the product, or `None` when it is `2^256` or more.
#[verifier::external_body]
pub(crate) fn checked_mul(a: U256, b: U256) -> (r: Option<U256>)
    ensures
        r matches Some(p) ==> a@ * b@ < modulus() && p@ == a@ * b@,
        r is None ==> a@ * b@ >= modulus(),
{
    let x = stylus_sdk::alloy_primitives::U256::from_limbs(a.into_limbs());
    let y = stylus_sdk::alloy_primitives::U256::from_limbs(b.into_limbs());
    x.checked_mul(y).map(|p| U256::from_limbs(p.into_limbs()))
}

/// Relies on ruint's `Uint::checked_sub`: the difference, or `None` when `b` exceeds `a`.
#[verifier::external_body]
pub(crate) fn checked_sub(a: U256, b: U256) -> (r: Option<U256>)
    ensures
        r matches Some(d) ==> b@ <= a@ && d@ == a@ - b@,
        r is None ==> b@ > a@,
{
    let x = stylus_sdk::alloy_primitives::U256::from_limbs(a.into_limbs());
    let y = stylus_sdk::alloy_primitives::U256::from_limbs(b.into_limbs());
    x.checked_sub(y).map(|d| U256::from_limbs(d.into_limbs()))
}

/// Relies on ruint's `Uint::checked_div`: the quotient rounded down, `None` for a zero divisor.
#[verifier::external_body]
pub(crate) fn checked_div(a: U256, b: U256) -> (r: Option<U256>)
    ensures
        r matches Some(q) ==> b@ != 0 && q@ == a@ / b@,
        r is None ==> b@ == 0,
{
    let x = stylus_sdk::alloy_primitives::U256::from_limbs(a.into_limbs());
    let y = stylus_sdk::alloy_primitives::U256::from_limbs(b.into_limbs());
    x.checked_div(y).map(|q| U256::from_limbs(q.into_limbs()))
}

/// Relies on ruint's `PartialOrd::lt` for `Uint`, which orders by numeric value.
#[verifier::external_body]
pub(crate) fn less_than(a: U256, b: U256) -> (r: bool)
    ensures
        r == (a@ < b@),
{
    let x = stylus_sdk::alloy_primitives::U256::from_limbs(a.into_limbs());
    let y = stylus_sdk::alloy_primitives::U256::from_limbs(b.into_limbs());
    x < y
}

} // verus!

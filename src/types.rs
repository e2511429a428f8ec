//! Values shared by every component: account addresses and 256-bit amounts.
use vstd::prelude::*;

verus! {

/// One more than the largest value of a 128-bit limb.
pub open spec fn limb_base() -> nat {
    0x1_0000_0000_0000_0000_0000_0000_0000_0000nat
}

/// A 160-bit account address, held as its high 32 bits and its low 128 bits.
#[derive(Clone, Copy, Debug, PartialEq, Eq, Structural)]
pub struct Addr {
    pub hi: u32,
    pub lo: u128,
}

impl Addr {
    /// The all-zero address, which no transaction is ever sent from.
    pub fn zero() -> (r: Addr)
        ensures
            r == (Addr { hi: 0, lo: 0 }),
            r.is_zero_spec(),
    {
        Addr { hi: 0, lo: 0 }
    }

    pub fn new(hi: u32, lo: u128) -> (r: Addr)
        ensures
            r.hi == hi,
            r.lo == lo,
    {
        Addr { hi, lo }
    }

    pub open spec fn is_zero_spec(self) -> bool {
        self.hi == 0 && self.lo == 0
    }

    pub fn is_zero(&self) -> (r: bool)
        ensures
            r == self.is_zero_spec(),
    {
        self.hi == 0 && self.lo == 0
    }
}

/// An unsigned 256-bit amount of tokens, held as two 128-bit limbs.
#[derive(Clone, Copy, Debug, PartialEq, Eq, Structural)]
pub struct Amount {
    pub hi: u128,
    pub lo: u128,
}

impl Amount {
    /// The number this amount stands for.
    pub open spec fn value(self) -> nat {
        self.hi as nat * limb_base() + self.lo as nat
    }

    pub fn zero() -> (r: Amount)
        ensures
            r == (Amount { hi: 0, lo: 0 }),
            r.value() == 0,
    {
        Amount { hi: 0, lo: 0 }
    }

    pub fn from_u128(v: u128) -> (r: Amount)
        ensures
            r.value() == v,
    {
        Amount { hi: 0, lo: v }
    }

    pub fn from_limbs(hi: u128, lo: u128) -> (r: Amount)
        ensures
            r.hi == hi,
            r.lo == lo,
            r.value() == hi * limb_base() + lo,
    {
        Amount { hi, lo }
    }

    pub fn is_zero(&self) -> (r: bool)
        ensures
            r == (self.value() == 0),
    {
        self.hi == 0 && self.lo == 0
    }

    /// Strictly less than.
    pub fn lt(&self, other: &Amount) -> (r: bool)
        ensures
            r == (self.value() < other.value()),
    {
        self.hi < other.hi || (self.hi == other.hi && self.lo < other.lo)
    }

    /// Less than or equal.
    pub fn le(&self, other: &Amount) -> (r: bool)
        ensures
            r == (self.value() <= other.value()),
    {
        self.hi < other.hi || (self.hi == other.hi && self.lo <= other.lo)
    }

    /// The difference `self - other`, which must not be negative.
    pub fn sub(&self, other: &Amount) -> (r: Amount)
        requires
            other.value() <= self.value(),
        ensures
            r.value() == self.value() - other.value(),
    {
        if self.lo >= other.lo {
            Amount { hi: self.hi - other.hi, lo: self.lo - other.lo }
        } else {
            Amount { hi: self.hi - other.hi - 1, lo: self.lo + (u128::MAX - other.lo) + 1 }
        }
    }
}

/// A token movement that the host carries out, in the same transaction, once
/// the entry point that asked for it has succeeded.
#[derive(Clone, Copy, Debug, PartialEq, Eq, Structural)]
pub struct Transfer {
    /// The token contract.
    pub token: Addr,
    pub from: Addr,
    pub to: Addr,
    pub amount: Amount,
}

/// The amount that stands for `v`, which must be below 2^256.
pub open spec fn amount_of(v: nat) -> Amount {
    Amount { hi: (v / limb_base()) as u128, lo: (v % limb_base()) as u128 }
}

/// A number below 2^256 is what its amount stands for.
pub proof fn lemma_value_of_amount(v: nat)
    requires
        v < limb_base() * limb_base(),
    ensures
        amount_of(v).value() == v,
{
    let b = limb_base() as int;
    vstd::arithmetic::div_mod::lemma_fundamental_div_mod(v as int, b);
    vstd::arithmetic::div_mod::lemma_mod_pos_bound(v as int, b);
    vstd::arithmetic::div_mod::lemma_multiply_divide_lt(v as int, b, b);
    vstd::arithmetic::div_mod::lemma_div_pos_is_pos(v as int, b);
    assert(b * (v as int / b) == (v as int / b) * b) by (nonlinear_arith);
}

/// An amount is the amount of the number it stands for.
pub proof fn lemma_amount_of_value(a: Amount)
    ensures
        amount_of(a.value()) == a,
{
    vstd::arithmetic::div_mod::lemma_fundamental_div_mod_converse(
        a.value() as int,
        limb_base() as int,
        a.hi as int,
        a.lo as int,
    );
}

} // verus!

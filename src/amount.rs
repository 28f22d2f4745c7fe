//! Amounts of the chain's native value in base units, held as the four
//! little-endian 64-bit limbs of a 256-bit unsigned integer.

use ethers::types::U256;
use ethers::utils::format_units;
use vstd::prelude::*;

verus! {

/// 2^64.
pub open spec fn limb_base() -> nat {
    0x1_0000_0000_0000_0000nat
}

/// 2^256, one more than the largest amount.
pub open spec fn amount_bound() -> nat {
    limb_base() * limb_base() * limb_base() * limb_base()
}

/// An amount in base units.
#[derive(Clone, Copy, Debug, PartialEq, Eq)]
pub struct Amount {
    /// Limbs of the integer, least significant first.
    pub limbs: [u64; 4],
}

impl Amount {
    /// The integer this amount stands for.
    pub open spec fn value(self) -> nat {
        self.limbs[0] as nat + limb_base() * (self.limbs[1] as nat + limb_base() * (
        self.limbs[2] as nat + limb_base() * self.limbs[3] as nat))
    }

    pub fn zero() -> (r: Amount)
        ensures
            r.value() == 0,
    {
        Amount { limbs: [0u64, 0u64, 0u64, 0u64] }
    }

    pub fn from_u64(v: u64) -> (r: Amount)
        ensures
            r.value() == v,
    {
        Amount { limbs: [v, 0u64, 0u64, 0u64] }
    }

    /// Product of two amounts, or `None` where it does not fit in 256 bits.
    pub fn checked_mul(&self, other: &Amount) -> (r: Option<Amount>)
        ensures
            match r {
                Some(p) => p.value() == self.value() * other.value()
                    && self.value() * other.value() < amount_bound(),
                None => self.value() * other.value() >= amount_bound(),
            },
    {
        u256_checked_mul(self, other)
    }

    /// Difference of two amounts, or `None` where `other` is the larger.
    pub fn checked_sub(&self, other: &Amount) -> (r: Option<Amount>)
        ensures
            match r {
                Some(d) => self.value() >= other.value() && d.value() == self.value()
                    - other.value(),
                None => self.value() < other.value(),
            },
    {
        u256_checked_sub(self, other)
    }

    /// The amount in display units, with all 18 decimals.
    pub fn to_display(&self) -> (r: String)
        ensures
            r@ == display_text(self.value()),
    {
        format_ether(self)
    }

    /// Whether this amount is strictly greater than `other`.
    pub fn gt(&self, other: &Amount) -> (r: bool)
        ensures
            r == (self.value() > other.value()),
    {
        u256_gt(self, other)
    }
}

/// Base units in one display unit: 10^18.
pub open spec fn base_per_display() -> nat {
    1_000_000_000_000_000_000nat
}

/// The decimal digit `d`.
pub open spec fn digit_char(d: nat) -> char {
    seq!['0', '1', '2', '3', '4', '5', '6', '7', '8', '9'][d as int]
}

/// The decimal numeral of `n`, without leading zeros.
pub open spec fn decimal(n: nat) -> Seq<char>
    decreases n,
{
    if n < 10 {
        seq![digit_char(n)]
    } else {
        decimal(n / 10).push(digit_char(n % 10))
    }
}

/// `s` with zeros put in front up to `width` characters.
pub open spec fn pad_zeros(s: Seq<char>, width: nat) -> Seq<char> {
    if s.len() >= width {
        s
    } else {
        Seq::new((width - s.len()) as nat, |i: int| '0') + s
    }
}

/// An amount in display units: the whole part, a point, and the 18 decimals
/// of the fraction.
pub open spec fn display_text(v: nat) -> Seq<char> {
    decimal(v / base_per_display()) + seq!['.'] + pad_zeros(decimal(v % base_per_display()), 18)
}

/// Relies on `format_units(.., "ether")` of ethers: for an unsigned amount it
/// writes `{v / 10^18}.{v % 10^18:0>18}`, and with 18 decimals it never fails.
#[verifier::external_body]
fn format_ether(a: &Amount) -> (r: String)
    ensures
        r@ == display_text(a.value()),
{
    format_units(U256(a.limbs), "ether").unwrap()
}

/// Relies on `U256::checked_mul` of the uint crate: the exact product, or
/// `None` when it overflows 256 bits.
#[verifier::external_body]
fn u256_checked_mul(a: &Amount, b: &Amount) -> (r: Option<Amount>)
    ensures
        match r {
            Some(p) => p.value() == a.value() * b.value() && a.value() * b.value()
                < amount_bound(),
            None => a.value() * b.value() >= amount_bound(),
        },
{
    U256(a.limbs).checked_mul(U256(b.limbs)).map(|p| Amount { limbs: p.0 })
}

/// Relies on `U256::checked_sub` of the uint crate: the exact difference, or
/// `None` when `b` is larger than `a`.
#[verifier::external_body]
fn u256_checked_sub(a: &Amount, b: &Amount) -> (r: Option<Amount>)
    ensures
        match r {
            Some(d) => a.value() >= b.value() && d.value() == a.value() - b.value(),
            None => a.value() < b.value(),
        },
{
    U256(a.limbs).checked_sub(U256(b.limbs)).map(|d| Amount { limbs: d.0 })
}

/// Relies on the `Ord` of `U256` in the uint crate, which compares the
/// limbs from the most significant down, that is, the integers.
#[verifier::external_body]
fn u256_gt(a: &Amount, b: &Amount) -> (r: bool)
    ensures
        r == (a.value() > b.value()),
{
    U256(a.limbs) > U256(b.limbs)
}

} // verus!

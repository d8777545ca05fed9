use vstd::prelude::*;
use crate::operand::Operand;
use vstd::arithmetic::power2::pow2;

verus! {

#[verifier::external_type_specification]
#[verifier::external_body]
pub struct ExBigUint(num_bigint::BigUint);

/// The natural number that a `BigUint` holds.
pub uninterp spec fn big_val(b: num_bigint::BigUint) -> nat;

/// Relies on `Clone for BigUint`: a clone holds the same value.
pub assume_specification[ <num_bigint::BigUint as Clone>::clone ](a: &num_bigint::BigUint) -> (r:
    num_bigint::BigUint)
    ensures
        big_val(r) == big_val(*a),
;

/// Relies on `BigUint: From<usize>`: the constructed value is the index.
#[verifier::external_body]
fn biguint_from_usize(n: usize) -> (r: num_bigint::BigUint)
    ensures
        big_val(r) == n,
{
    num_bigint::BigUint::from(n)
}

/// Relies on `BigUint: From<u128>`: the constructed value is the argument.
#[verifier::external_body]
fn biguint_from_u128(v: u128) -> (r: num_bigint::BigUint)
    ensures
        big_val(r) == v,
{
    num_bigint::BigUint::from(v)
}

/// Relies on `Mul for &BigUint`: arbitrary-precision multiplication is
/// exact and total.
#[verifier::external_body]
fn biguint_mul(a: &num_bigint::BigUint, b: &num_bigint::BigUint) -> (r: num_bigint::BigUint)
    ensures
        big_val(r) == big_val(*a) * big_val(*b),
{
    a * b
}

/// Relies on `Add for &BigUint`: arbitrary-precision addition is exact
/// and total.
#[verifier::external_body]
fn biguint_add(a: &num_bigint::BigUint, b: &num_bigint::BigUint) -> (r: num_bigint::BigUint)
    ensures
        big_val(r) == big_val(*a) + big_val(*b),
{
    a + b
}

/// Relies on `Ord for BigUint`: comparison follows the numeric values.
#[verifier::external_body]
fn biguint_le(a: &num_bigint::BigUint, b: &num_bigint::BigUint) -> (r: bool)
    ensures
        r <==> big_val(*a) <= big_val(*b),
{
    a <= b
}

/// Relies on `BigUint::bit`: bit 0 is set exactly on the odd values.
#[verifier::external_body]
fn biguint_bit0(a: &num_bigint::BigUint) -> (r: bool)
    ensures
        r <==> big_val(*a) % 2 == 1,
{
    a.bit(0)
}

/// Relies on `TryFrom<&BigUint> for usize`: the conversion succeeds, with
/// the exact value, precisely when the value fits a `usize`.
#[verifier::external_body]
fn biguint_to_usize(a: &num_bigint::BigUint) -> (r: Option<usize>)
    ensures
        r matches Some(m) ==> m == big_val(*a),
        r is Some <==> big_val(*a) <= usize::MAX,
{
    usize::try_from(a).ok()
}

/// Relies on `Shl<usize> for &BigUint`: shifting left by `e` multiplies
/// the value by `2^e`.
#[verifier::external_body]
fn biguint_shl(a: &num_bigint::BigUint, e: usize) -> (r: num_bigint::BigUint)
    ensures
        big_val(r) == big_val(*a) * pow2(e as nat),
{
    a << e
}

/// An arbitrary-precision operand backed by `num_bigint::BigUint`. Every
/// natural number is representable in it, so for this operand the checked
/// factorial operations never report overflow.
#[derive(Clone, Debug, PartialEq, Eq)]
pub struct BigNat {
    inner: num_bigint::BigUint,
}

impl Operand for BigNat {
    closed spec fn val(&self) -> nat {
        big_val(self.inner)
    }

    open spec fn representable(v: nat) -> bool {
        true
    }

    proof fn lemma_val_representable(&self) {
    }

    proof fn lemma_representable_down(v: nat, w: nat) {
    }

    fn one() -> (r: Self) {
        BigNat { inner: biguint_from_usize(1) }
    }

    fn from_index(n: usize) -> (r: Option<Self>) {
        Some(BigNat { inner: biguint_from_usize(n) })
    }

    fn from_wide(v: u128) -> (r: Option<Self>) {
        Some(BigNat { inner: biguint_from_u128(v) })
    }

    fn to_index(&self) -> (r: Option<usize>) {
        biguint_to_usize(&self.inner)
    }

    fn le(&self, other: &Self) -> (r: bool) {
        biguint_le(&self.inner, &other.inner)
    }

    fn is_even(&self) -> (r: bool) {
        !biguint_bit0(&self.inner)
    }

    fn checked_mul_by(&self, other: &Self) -> (r: Option<Self>) {
        Some(BigNat { inner: biguint_mul(&self.inner, &other.inner) })
    }

    fn checked_add_to(&self, other: &Self) -> (r: Option<Self>) {
        Some(BigNat { inner: biguint_add(&self.inner, &other.inner) })
    }

    fn checked_mul_pow2(&self, e: usize) -> (r: Option<Self>) {
        Some(BigNat { inner: biguint_shl(&self.inner, e) })
    }
}

} // verus!

//! The arbitrary-precision unsigned integers that the protocol computes
//! with. The type and its operations come from the `num_bigint` crate; each
//! operation the protocol uses stands here behind a contract over the
//! number a `BigUint` holds.

use vstd::prelude::*;
use num_bigint::BigUint;
use crate::arith::{pow_mod, bytes_be_to_nat, be_repr};

verus! {

#[verifier::external_type_specification]
#[verifier::external_body]
pub struct ExBigUint(BigUint);

/// The number a `BigUint` holds.
pub uninterp spec fn big_value(b: BigUint) -> nat;

/// Relies on `BigUint: From<u64>`: the value converted losslessly.
#[verifier::external_body]
pub(crate) fn big_from_u64(n: u64) -> (r: BigUint)
    ensures
        big_value(r) == n as nat,
{
    BigUint::from(n)
}

/// Relies on `Add for &BigUint`: exact integer addition.
#[verifier::external_body]
pub(crate) fn big_add(a: &BigUint, b: &BigUint) -> (r: BigUint)
    ensures
        big_value(r) == big_value(*a) + big_value(*b),
{
    a + b
}

/// Relies on `Mul for &BigUint`: exact integer multiplication.
#[verifier::external_body]
pub(crate) fn big_mul(a: &BigUint, b: &BigUint) -> (r: BigUint)
    ensures
        big_value(r) == big_value(*a) * big_value(*b),
{
    a * b
}

/// Relies on `Rem for &BigUint`: the remainder of integer division,
/// which panics on a zero divisor.
#[verifier::external_body]
pub(crate) fn big_rem(a: &BigUint, b: &BigUint) -> (r: BigUint)
    requires
        big_value(*b) > 0,
    ensures
        big_value(r) == big_value(*a) % big_value(*b),
{
    a % b
}

/// Relies on `Sub<u32> for &BigUint`: exact subtraction, which panics
/// on underflow.
#[verifier::external_body]
pub(crate) fn big_sub_one(a: &BigUint) -> (r: BigUint)
    requires
        big_value(*a) >= 1,
    ensures
        big_value(r) == big_value(*a) - 1,
{
    a - 1u32
}

/// Relies on `PartialEq for BigUint`: equality of the numbers held.
#[verifier::external_body]
pub(crate) fn big_eq(a: &BigUint, b: &BigUint) -> (r: bool)
    ensures
        r == (big_value(*a) == big_value(*b)),
{
    a == b
}

/// Relies on `BigUint::modpow`: `(self ^ exponent) % modulus`, which
/// panics on a zero modulus.
#[verifier::external_body]
pub(crate) fn big_modpow(base: &BigUint, exponent: &BigUint, modulus: &BigUint) -> (r: BigUint)
    requires
        big_value(*modulus) > 0,
    ensures
        big_value(r) == pow_mod(big_value(*base), big_value(*exponent), big_value(*modulus)),
{
    base.modpow(exponent, modulus)
}

/// Relies on `BigUint::to_bytes_be`: the minimal big-endian byte form,
/// a single zero byte for zero.
#[verifier::external_body]
pub(crate) fn big_to_bytes_be(a: &BigUint) -> (r: Vec<u8>)
    ensures
        r@ == be_repr(big_value(*a)),
{
    a.to_bytes_be()
}

/// Relies on `BigUint::from_bytes_be`: the number the big-endian bytes
/// stand for, zero for an empty slice.
#[verifier::external_body]
pub(crate) fn big_from_bytes_be(bytes: &Vec<u8>) -> (r: BigUint)
    ensures
        big_value(r) == bytes_be_to_nat(bytes@),
{
    BigUint::from_bytes_be(bytes)
}

} // verus!

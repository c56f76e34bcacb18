//! The secure random source that key generation and proving draw from.
//! Nothing is assumed of the values drawn beyond their range: every
//! contract downstream holds for every outcome.

use vstd::prelude::*;
use num_bigint::{BigUint, RandBigInt};
use crate::bignum::big_value;

verus! {

#[verifier::external_type_specification]
#[verifier::external_body]
pub struct ExThreadRng(rand::rngs::ThreadRng);

/// Relies on `rand::thread_rng`: a handle to the thread-local
/// cryptographically secure generator.
#[verifier::external_body]
pub(crate) fn fresh_rng() -> rand::rngs::ThreadRng {
    rand::thread_rng()
}

/// Relies on `RandBigInt::gen_biguint_range`: a value drawn uniformly
/// from `[low, high)`, which panics unless `low < high`.
#[verifier::external_body]
pub(crate) fn gen_biguint_in_range(
    rng: &mut rand::rngs::ThreadRng,
    low: &BigUint,
    high: &BigUint,
) -> (r: BigUint)
    requires
        big_value(*low) < big_value(*high),
    ensures
        big_value(*low) <= big_value(r) < big_value(*high),
{
    rng.gen_biguint_range(low, high)
}

} // verus!

//! The hash behind the Fiat-Shamir challenge. The digest itself is the
//! `blake3` crate's work; here it only gets a name, so that both sides of
//! the protocol can be proved to derive the challenge from the same bytes.

use vstd::prelude::*;

verus! {

/// The BLAKE3 digest of a byte string: a fixed function of the input alone.
pub uninterp spec fn blake3_of(input: Seq<u8>) -> Seq<u8>;

/// Relies on `blake3::hash`: the 32-byte BLAKE3 digest of the input,
/// depending on the input bytes alone.
#[verifier::external_body]
pub(crate) fn blake3_digest(input: &Vec<u8>) -> (r: Vec<u8>)
    ensures
        r@ == blake3_of(input@),
        r@.len() == 32,
{
    blake3::hash(input).as_bytes().to_vec()
}

} // verus!

//! The cryptographic digest the identity layer is built on.
use vstd::prelude::*;

use sha3::Digest;

verus! {

/// The SHA3-256 digest of a byte sequence. The digest is a function of the
/// bytes alone; what it is on given bytes is not stated here.
pub uninterp spec fn sha3_256_of(bytes: Seq<u8>) -> Seq<u8>;

/// Relies on `sha3::Sha3_256` (SHA3-256, FIPS 202): the digest depends on
/// the input bytes alone and is always 32 bytes long.
#[verifier::external_body]
pub(crate) fn sha3_256(bytes: &Vec<u8>) -> (r: Vec<u8>)
    ensures
        r@ == sha3_256_of(bytes@),
        r@.len() == 32,
{
    sha3::Sha3_256::digest(bytes.as_slice()).to_vec()
}

} // verus!

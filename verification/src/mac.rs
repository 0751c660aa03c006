//! The keyed hash of the safe-cookie handshake, a comparison that does not
//! leak where two hashes differ, and the source of nonces. All three are the
//! work of outside crates; this file states what is relied on.

use crate::hexadecimal::Bytes32;
use crypto::mac::Mac;
use rand::Rng;
use vstd::prelude::*;

verus! {

/// The HMAC-SHA-256 code of `message` under `key`.
pub uninterp spec fn hmac_sha256(key: Seq<u8>, message: Seq<u8>) -> Seq<u8>;

/// `crypto::hmac::Hmac` over `crypto::sha2::Sha256`, fed `message` in one
/// piece: the result is the HMAC-SHA-256 code of `message` under `key`, which
/// is 32 bytes long.
#[verifier::external_body]
pub(crate) fn compute_hmac_sha256(key: &[u8], message: &[u8]) -> (code: Vec<u8>)
    ensures
        code@ == hmac_sha256(key@, message@),
        code@.len() == 32,
{
    let mut hmac = crypto::hmac::Hmac::new(crypto::sha2::Sha256::new(), key);
    hmac.input(message);
    hmac.result().code().to_vec()
}

/// `crypto::util::fixed_time_eq`: whether the two slices hold the same bytes,
/// found in a number of steps that depends on their lengths alone.
#[verifier::external_body]
pub(crate) fn fixed_time_eq(lhs: &[u8], rhs: &[u8]) -> (same: bool)
    requires
        lhs@.len() > 0,
    ensures
        same == (lhs@ == rhs@),
{
    crypto::util::fixed_time_eq(lhs, rhs)
}

/// `rand::thread_rng` and `rand::Rng::gen`: 32 bytes from the thread's
/// generator. Nothing is claimed of them.
#[verifier::external_body]
pub(crate) fn random_nonce() -> Bytes32 {
    rand::thread_rng().gen::<[u8; 32]>()
}

} // verus!

use rand::Rng;
use vstd::prelude::*;

verus! {

/// Bytes of randomness in a challenge nonce.
pub const NONCE_BYTES: usize = 16;

/// Relies on rand's thread-local generator (`rand::rng().random()`) for 16 random bytes.
#[verifier::external_body]
pub(crate) fn random_nonce_bytes() -> (r: Vec<u8>)
    ensures
        r@.len() == NONCE_BYTES,
{
    let bytes: [u8; 16] = rand::rng().random();
    bytes.to_vec()
}

/// Relies on `uuid::Uuid::new_v4` (and `as_u128`) for a random identifier. Nothing is promised
/// of the value.
#[verifier::external_body]
pub(crate) fn new_uuid() -> (r: u128) {
    uuid::Uuid::new_v4().as_u128()
}

} // verus!

//! The draw of a bet: the first 32-bit output of a ChaCha20 generator (from
//! the `rand_chacha` crate) keyed by the SHA-256 digest of the house seed and
//! the bet's entropy, taken modulo the number of faces.
use rand_chacha::ChaChaRng;
use rand_core::{RngCore, SeedableRng};
use vstd::prelude::*;
use crate::hash::{sha256, sha256_digest, append_bytes};

verus! {

/// The first 32-bit output of ChaCha20 keyed by a 32-byte key.
pub uninterp spec fn chacha20_first_u32(key: Seq<u8>) -> u32;

/// Seeds `rand_chacha::ChaChaRng` (ChaCha20) with `key` through
/// `SeedableRng::from_seed` and takes one `RngCore::next_u32` from it.
/// Trusted: the result is a function of `key` alone (the generator is
/// deterministic, with a zero stream number). `key` must be 32 bytes, the
/// seed size of ChaCha20.
#[verifier::external_body]
fn chacha20_next_u32(key: &[u8]) -> (r: u32)
    requires
        key@.len() == 32,
    ensures
        r == chacha20_first_u32(key@),
{
    let mut seed = [0u8; 32];
    seed.copy_from_slice(key);
    ChaChaRng::from_seed(seed).next_u32()
}

/// How many numbers a draw chooses from: 0 to 58.
pub const FACES: u32 = 59;

/// The number drawn for a bet whose entropy is `entropy`, by a house whose
/// seed is `seed`.
pub open spec fn drawn_number(seed: Seq<u8>, entropy: Seq<u8>) -> u64 {
    (chacha20_first_u32(sha256(seed + entropy)) % FACES) as u64
}

/// Draws the lucky number of a bet.
pub fn draw_lucky_number(seed: &Vec<u8>, entropy: &Vec<u8>) -> (n: u64)
    ensures
        n == drawn_number(seed@, entropy@),
        n < FACES,
{
    let mut input: Vec<u8> = Vec::new();
    append_bytes(&mut input, seed.as_slice());
    append_bytes(&mut input, entropy.as_slice());
    assert(input@ =~= seed@ + entropy@);
    let key = sha256_digest(input.as_slice());
    let r = chacha20_next_u32(key.as_slice());
    (r % FACES) as u64
}

} // verus!

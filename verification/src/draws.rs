//! The two outside computations the game relies on: the ChaCha12 stream that
//! drives shuffles and the BLAKE3 digest that separates seeds.
use rand_chacha::ChaCha12Rng;
use rand_core::{RngCore, SeedableRng};
use vstd::prelude::*;

verus! {

/// The 64-bit value a ChaCha12 generator seeded with `seed` yields when it
/// reads two consecutive 32-bit words starting at word offset `word_pos` of its
/// stream.
pub uninterp spec fn chacha12_u64_at(seed: Seq<u8>, word_pos: u128) -> u64;

/// Calls `rand_chacha::ChaCha12Rng::next_u64` on a generator made by
/// `ChaCha12Rng::from_seed(seed)` and moved to `word_pos` with
/// `ChaCha12Rng::set_word_pos`. The contract claims only that the value is
/// determined by the seed and the position: the stream itself is not stated.
#[verifier::external_body]
pub(crate) fn chacha12_draw(seed: [u8; 32], word_pos: u128) -> (value: u64)
    ensures
        value == chacha12_u64_at(seed@, word_pos),
{
    let mut rng = ChaCha12Rng::from_seed(seed);
    rng.set_word_pos(word_pos);
    rng.next_u64()
}

/// The 32-byte BLAKE3 digest of `input`.
pub uninterp spec fn blake3_digest(input: Seq<u8>) -> Seq<u8>;

/// Calls `blake3::hash`. The contract claims that the digest is determined by
/// the input bytes; the hash function itself is not stated.
#[verifier::external_body]
pub(crate) fn blake3_hash(input: &[u8]) -> (digest: [u8; 32])
    ensures
        digest@ == blake3_digest(input@),
{
    *blake3::hash(input).as_bytes()
}

} // verus!

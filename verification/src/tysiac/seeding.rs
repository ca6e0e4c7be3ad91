//! Seeds: one per round from a room's base seed, and one per deal attempt.
use vstd::prelude::*;
use vstd::bytes::{spec_u64_to_le_bytes, u64_from_le_bytes, u64_to_le_bytes};

use crate::draws::{blake3_digest, blake3_hash};
use crate::tysiac::Match;
use crate::tysiac::spec::{deal_retry_tag, deal_seed_bytes, round_seed, round_seed_tag};

verus! {

fn append_bytes(out: &mut Vec<u8>, extra: &[u8])
    ensures
        final(out)@ == old(out)@ + extra@,
{
    let mut i: usize = 0;
    while i < extra.len()
        invariant
            i <= extra@.len(),
            out@ == old(out)@ + extra@.take(i as int),
        decreases extra@.len() - i,
    {
        assert(extra@.take(i as int + 1) == extra@.take(i as int).push(extra@[i as int]));
        out.push(extra[i]);
        i = i + 1;
    }
    assert(extra@.take(extra@.len() as int) =~= extra@);
}

fn append_le(out: &mut Vec<u8>, n: u64)
    ensures
        final(out)@ == old(out)@ + spec_u64_to_le_bytes(n),
{
    let bytes = u64_to_le_bytes(n);
    append_bytes(out, bytes.as_slice());
}

/// The shuffle seed of deal attempt `attempt` for round seed `seed`.
pub fn deal_shuffle_seed(seed: u64, attempt: u64) -> (bytes: [u8; 32])
    ensures
        bytes@ == deal_seed_bytes(seed, attempt),
{
    if attempt == 0 {
        let le = u64_to_le_bytes(seed);
        let mut expanded: [u8; 32] = [0u8; 32];
        let mut i: usize = 0;
        while i < 8
            invariant
                i <= 8,
                le@ == spec_u64_to_le_bytes(seed),
                le@.len() == 8,
                forall|j: int| 0 <= j < i ==> expanded@[j] == le@[j],
                forall|j: int| 8 <= j < 32 ==> expanded@[j] == 0u8,
            decreases 8 - i,
        {
            expanded[i] = le[i];
            i = i + 1;
        }
        assert(expanded@ =~= spec_u64_to_le_bytes(seed) + Seq::new(24, |i: int| 0u8));
        return expanded;
    }
    let tag: [u8; 24] = [
        109, 105, 108, 108, 101, 47, 100, 101, 97, 108, 45, 114, 101, 116, 114, 121, 45, 115, 101,
        101, 100, 47, 118, 49,
    ];
    let mut input: Vec<u8> = Vec::new();
    append_bytes(&mut input, tag.as_slice());
    assert(tag@ =~= deal_retry_tag());
    append_le(&mut input, seed);
    append_le(&mut input, attempt);
    assert(input@ =~= deal_retry_tag() + spec_u64_to_le_bytes(seed) + spec_u64_to_le_bytes(attempt));
    blake3_hash(input.as_slice())
}

impl Match {
    /// Derives an independent seed without exposing the room's base seed.
    pub fn derive_round_seed(base_seed: u64, match_index: u64, round_index: u64) -> (seed: u64)
        ensures
            seed == round_seed(base_seed, match_index, round_index),
    {
        let tag: [u8; 19] = [
            109, 105, 108, 108, 101, 47, 114, 111, 117, 110, 100, 45, 115, 101, 101, 100, 47, 118,
            49,
        ];
        let mut input: Vec<u8> = Vec::new();
        append_bytes(&mut input, tag.as_slice());
        assert(tag@ =~= round_seed_tag());
        append_le(&mut input, base_seed);
        append_le(&mut input, match_index);
        append_le(&mut input, round_index);
        let ghost whole = round_seed_tag() + spec_u64_to_le_bytes(base_seed) + spec_u64_to_le_bytes(
            match_index,
        ) + spec_u64_to_le_bytes(round_index);
        assert(input@ =~= whole);
        let digest = blake3_hash(input.as_slice());
        let mut first: Vec<u8> = Vec::new();
        let mut i: usize = 0;
        while i < 8
            invariant
                i <= 8,
                digest@ == blake3_digest(whole),
                digest@.len() == 32,
                first@ == digest@.take(i as int),
            decreases 8 - i,
        {
            assert(digest@.take(i as int + 1) == digest@.take(i as int).push(digest@[i as int]));
            first.push(digest[i]);
            i = i + 1;
        }
        u64_from_le_bytes(first.as_slice())
    }
}

} // verus!

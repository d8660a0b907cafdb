//! The ChaCha20 keystream that every sampler draws from.
use rand::RngCore;
use rand::SeedableRng;
use rand_chacha::ChaCha20Rng;
use vstd::prelude::*;

verus! {

#[verifier::external_type_specification]
#[verifier::external_body]
pub struct ExChaCha20Rng(ChaCha20Rng);

/// The 32-bit word at offset `pos` of stream `stream` of the ChaCha20
/// keystream keyed by the 32-byte `seed`.
pub uninterp spec fn chacha20_word(seed: Seq<u8>, stream: u64, pos: nat) -> u32;

/// The key of a ChaCha20 generator, as `ChaCha20Rng::get_seed` returns it.
pub uninterp spec fn rng_seed(rng: ChaCha20Rng) -> Seq<u8>;

/// The offset of a ChaCha20 generator in its keystream, in 32-bit words, as
/// `ChaCha20Rng::get_word_pos` returns it.
pub uninterp spec fn rng_word_pos(rng: ChaCha20Rng) -> nat;

/// The stream id of a ChaCha20 generator, as `ChaCha20Rng::get_stream`
/// returns it.
pub uninterp spec fn rng_stream(rng: ChaCha20Rng) -> u64;

/// The offset at which a ChaCha20 keystream cycles (a 64-bit block counter
/// over 16-word blocks).
pub open spec fn chacha20_period() -> nat {
    0x10_0000_0000_0000_0000
}

/// The 64-bit word that `next_u64` reads at offset `pos` of stream `stream`:
/// the 32-bit words `pos` (low half) and `pos + 1` (high half).
pub open spec fn stream_u64_at(seed: Seq<u8>, stream: u64, pos: nat) -> u64 {
    (chacha20_word(seed, stream, pos) as int + chacha20_word(seed, stream, pos + 1) as int * 0x1_0000_0000) as u64
}

/// Relies on `SeedableRng::from_seed` of rand_chacha's `ChaCha20Rng`: the
/// generator is keyed by `seed` and starts at offset 0 of stream 0.
#[verifier::external_body]
pub(crate) fn chacha_from_seed(seed: [u8; 32]) -> (r: ChaCha20Rng)
    ensures
        rng_seed(r) == seed@,
        rng_word_pos(r) == 0,
        rng_stream(r) == 0,
{
    ChaCha20Rng::from_seed(seed)
}

/// A fresh generator keyed by `seed`, at offset 0 of stream 0.
pub fn seeded_generator(seed: [u8; 32]) -> (r: ChaCha20Rng)
    ensures
        rng_seed(r) == seed@,
        rng_word_pos(r) == 0,
        rng_stream(r) == 0,
{
    chacha_from_seed(seed)
}

/// Relies on `RngCore::next_u64` of rand_chacha's `ChaCha20Rng` (through
/// rand_core's `BlockRng`): it reads the two keystream words at the current
/// offset, the first as the low half, and moves the offset on by two; the
/// stream id is left as it is.
#[verifier::external_body]
pub(crate) fn chacha_next_u64(rng: &mut ChaCha20Rng) -> (r: u64)
    requires
        rng_word_pos(*old(rng)) + 2 < chacha20_period(),
    ensures
        rng_seed(*final(rng)) == rng_seed(*old(rng)),
        rng_stream(*final(rng)) == rng_stream(*old(rng)),
        rng_word_pos(*final(rng)) == rng_word_pos(*old(rng)) + 2,
        r == (chacha20_word(rng_seed(*old(rng)), rng_stream(*old(rng)), rng_word_pos(*old(rng))) as int
            + chacha20_word(rng_seed(*old(rng)), rng_stream(*old(rng)), rng_word_pos(*old(rng)) + 1) as int
            * 0x1_0000_0000) as u64,
{
    rng.next_u64()
}

} // verus!

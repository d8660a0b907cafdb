//! Draws keystream words and decodes them into coefficients.
use crate::keystream::{chacha20_period, chacha_next_u64, rng_seed, rng_stream, rng_word_pos};
use crate::model::{
    decode_masked, decode_reduced, decode_trits, keystream_words, quarter_of, signed_view, trit_of, unsigned_view,
};
use rand_chacha::ChaCha20Rng;
use vstd::prelude::*;

verus! {

/// Coefficients drawn from one 64-bit keystream word, two bits each.
pub const TRITS_PER_WORD: usize = 32;

/// Coefficients drawn from one 64-bit keystream word, 16 bits each.
pub const QUARTERS_PER_WORD: usize = 4;

/// Draws the next `m` 64-bit words from `prng`.
pub(crate) fn draw_words(prng: &mut ChaCha20Rng, m: usize) -> (words: Vec<u64>)
    requires
        rng_word_pos(*old(prng)) + 2 * m < chacha20_period(),
    ensures
        rng_stream(*final(prng)) == rng_stream(*old(prng)),
        words@ == keystream_words(rng_seed(*old(prng)), rng_stream(*old(prng)), rng_word_pos(*old(prng)), m as nat),
        rng_seed(*final(prng)) == rng_seed(*old(prng)),
        rng_word_pos(*final(prng)) == rng_word_pos(*old(prng)) + 2 * m,
{
    let ghost seed = rng_seed(*prng);
    let ghost stream = rng_stream(*prng);
    let ghost pos = rng_word_pos(*prng);
    let mut words: Vec<u64> = Vec::new();
    for k in 0..m
        invariant
            pos + 2 * m < chacha20_period(),
            rng_seed(*prng) == seed,
            rng_stream(*prng) == stream,
            rng_word_pos(*prng) == pos + 2 * k,
            words@ == keystream_words(seed, stream, pos, k as nat),
    {
        let w = chacha_next_u64(prng);
        words.push(w);
        assert(words@ =~= keystream_words(seed, stream, pos, (k + 1) as nat));
    }
    words
}

/// Decodes `n` trinary coefficients from keystream words: coefficient
/// `i < n - 2` is bit `2j + 1` minus bit `2j` of `words[i / 32]`, where
/// `j = i % 32`; the top two coefficients are zero.
pub fn trits_from_words(words: &Vec<u64>, n: usize) -> (r: Vec<i16>)
    requires
        2 <= n,
        (n - 2) / 32 < words.len(),
    ensures
        r.len() == n,
        signed_view(r@) == decode_trits(words@, n as nat),
{
    let ghost target = decode_trits(words@, n as nat);
    let mut coefficient: Vec<i16> = Vec::new();
    for i in 0..n - 2
        invariant
            2 <= n,
            (n - 2) / 32 < words.len(),
            target == decode_trits(words@, n as nat),
            coefficient.len() == i,
            forall|k: int| 0 <= k < i ==> coefficient@[k] as int == #[trigger] target[k],
    {
        let w = words[i / TRITS_PER_WORD];
        let j = i % TRITS_PER_WORD;
        let high = (w >> ((2 * j + 1) as u64)) & 1;
        let low = (w >> ((2 * j) as u64)) & 1;
        proof {
            crate::model::lemma_low_bit(w >> ((2 * j + 1) as u64));
            crate::model::lemma_low_bit(w >> ((2 * j) as u64));
            assert(target[i as int] == trit_of(w, j as int));
        }
        coefficient.push(high as i16 - low as i16);
    }
    coefficient.push(0);
    coefficient.push(0);
    assert(signed_view(coefficient@) =~= target);
    coefficient
}

/// Decodes `n` coefficients from keystream words, four 16-bit quarters per
/// word from the lowest up, each masked with `q - 1` (a reduction modulo `q`
/// when `q` is a power of two).
pub fn masked_from_words(words: &Vec<u64>, n: usize, q: u16) -> (r: Vec<u16>)
    requires
        q > 0,
        n / 4 < words.len(),
    ensures
        r.len() == n,
        unsigned_view(r@) == decode_masked(words@, n as nat, q),
{
    let ghost target = decode_masked(words@, n as nat, q);
    let q_minus_one: u16 = q - 1;
    let mut coefficient: Vec<u16> = Vec::new();
    for i in 0..n
        invariant
            q > 0,
            q_minus_one == q - 1,
            n / 4 < words.len(),
            target == decode_masked(words@, n as nat, q),
            coefficient.len() == i,
            forall|k: int| 0 <= k < i ==> coefficient@[k] as int == #[trigger] target[k],
    {
        let w = words[i / QUARTERS_PER_WORD];
        let quarter = #[verifier::truncate] ((w >> ((16 * (i % QUARTERS_PER_WORD)) as u64)) as u16);
        assert(quarter == quarter_of(words@, i as int));
        coefficient.push(quarter & q_minus_one);
    }
    assert(unsigned_view(coefficient@) =~= target);
    coefficient
}

/// Decodes `n` coefficients from keystream words, four 16-bit quarters per
/// word from the lowest up, each reduced modulo `m`.
pub fn reduced_from_words(words: &Vec<u64>, n: usize, m: u16) -> (r: Vec<u16>)
    requires
        m > 0,
        n / 4 < words.len(),
    ensures
        r.len() == n,
        unsigned_view(r@) == decode_reduced(words@, n as nat, m),
{
    let ghost target = decode_reduced(words@, n as nat, m);
    let mut coefficient: Vec<u16> = Vec::new();
    for i in 0..n
        invariant
            m > 0,
            n / 4 < words.len(),
            target == decode_reduced(words@, n as nat, m),
            coefficient.len() == i,
            forall|k: int| 0 <= k < i ==> coefficient@[k] as int == #[trigger] target[k],
    {
        let w = words[i / QUARTERS_PER_WORD];
        let quarter = #[verifier::truncate] ((w >> ((16 * (i % QUARTERS_PER_WORD)) as u64)) as u16);
        assert(quarter == quarter_of(words@, i as int));
        coefficient.push(quarter % m);
    }
    assert(unsigned_view(coefficient@) =~= target);
    coefficient
}

} // verus!

//! The mathematical model: coefficient sequences as integers, their
//! statistics, the distributions the samplers draw, and the laws they obey.
use crate::keystream::stream_u64_at;
use vstd::prelude::*;

verus! {

/// Coefficients of a centred polynomial, as integers.
pub open spec fn signed_view(c: Seq<i16>) -> Seq<int> {
    c.map_values(|x: i16| x as int)
}

/// Coefficients of a polynomial in residue form, as integers.
pub open spec fn unsigned_view(c: Seq<u16>) -> Seq<int> {
    c.map_values(|x: u16| x as int)
}

/// Every entry is -1, 0 or 1.
pub open spec fn is_trinary_seq(s: Seq<int>) -> bool {
    forall|i: int| 0 <= i < s.len() ==> -1 <= #[trigger] s[i] <= 1
}

/// The number of nonzero entries among the first `k`.
pub open spec fn count_nonzero_to(s: Seq<int>, k: int) -> nat
    decreases k,
{
    if k <= 0 {
        0
    } else {
        count_nonzero_to(s, k - 1) + if s[k - 1] != 0 { 1nat } else { 0nat }
    }
}

/// The Hamming weight: the number of nonzero entries.
pub open spec fn count_nonzero(s: Seq<int>) -> nat {
    count_nonzero_to(s, s.len() as int)
}

/// The sum of the first `k` entries.
pub open spec fn sum_to(s: Seq<int>, k: int) -> int
    decreases k,
{
    if k <= 0 {
        0
    } else {
        sum_to(s, k - 1) + s[k - 1]
    }
}

/// The signed sum of all entries.
pub open spec fn sum(s: Seq<int>) -> int {
    sum_to(s, s.len() as int)
}

/// `s[0]*s[1] + s[1]*s[2] + ... + s[k-1]*s[k]`.
pub open spec fn adjacent_sum_to(s: Seq<int>, k: int) -> int
    decreases k,
{
    if k <= 0 {
        0
    } else {
        adjacent_sum_to(s, k - 1) + s[k - 1] * s[k]
    }
}

/// Every partial sum of the entries, the whole sum included, fits in an `i16`.
pub open spec fn prefix_sums_fit_i16(s: Seq<int>) -> bool {
    forall|k: int| 0 <= k <= s.len() ==> i16::MIN <= #[trigger] sum_to(s, k) <= i16::MAX
}

/// Over the first `m` adjacent pairs, every product and every partial sum of
/// the products fits in an `i16`.
pub open spec fn adjacent_sums_fit_i16(s: Seq<int>, m: int) -> bool {
    &&& forall|i: int| 0 <= i < m ==> i16::MIN <= #[trigger] s[i] * s[i + 1] <= i16::MAX
    &&& forall|k: int| 0 <= k <= m ==> i16::MIN <= #[trigger] adjacent_sum_to(s, k) <= i16::MAX
}

/// The trinary value that the bit pair `2j, 2j + 1` of `w` encodes: the
/// higher bit minus the lower one.
pub open spec fn trit_of(w: u64, j: int) -> int {
    ((w >> ((2 * j + 1) as u64)) & 1u64) as int - ((w >> ((2 * j) as u64)) & 1u64) as int
}

/// The first `m` 64-bit words that `next_u64` draws from a generator keyed
/// by `seed` on stream `stream`, starting at keystream offset `pos`.
pub open spec fn keystream_words(seed: Seq<u8>, stream: u64, pos: nat, m: nat) -> Seq<u64> {
    Seq::new(m, |k: int| stream_u64_at(seed, stream, pos + 2 * k as nat))
}

/// The number of keystream words that a T sample of degree `n` draws.
pub open spec fn t_words_needed(n: nat) -> nat {
    ((n - 2) / 32 + 1) as nat
}

/// The `n` coefficients that `words` encode two bits each: entry `i` below
/// `n - 2` is the trit of bit pair `i % 32` of `words[i / 32]`; the top two
/// entries are zero.
pub open spec fn decode_trits(words: Seq<u64>, n: nat) -> Seq<int> {
    Seq::new(n, |i: int| if i + 2 < n { trit_of(words[i / 32], i % 32) } else { 0 })
}

/// The T-distributed polynomial of degree `n` drawn from `seed`.
pub open spec fn t_sample(seed: Seq<u8>, n: nat) -> Seq<int> {
    decode_trits(keystream_words(seed, 0, 0, t_words_needed(n)), n)
}

/// `s` with every entry at an even index negated.
pub open spec fn negate_even(s: Seq<int>) -> Seq<int> {
    Seq::new(s.len(), |i: int| if i % 2 == 0 { -s[i] } else { s[i] })
}

/// The T+-distributed polynomial of degree `n` drawn from `seed`: the
/// T sample, with its even entries negated when its adjacent correlation
/// sum is negative.
pub open spec fn t_plus_sample(seed: Seq<u8>, n: nat) -> Seq<int> {
    let c = t_sample(seed, n);
    if adjacent_sum_to(c, n - 2) < 0 {
        negate_even(c)
    } else {
        c
    }
}

/// The number of keystream words that `n` coefficients of 16 bits draw.
pub open spec fn quarter_words_needed(n: nat) -> nat {
    n / 4 + 1
}

/// The 16-bit quarter `i % 4` of `words[i / 4]`.
pub open spec fn quarter_of(words: Seq<u64>, i: int) -> u16 {
    (#[verifier::truncate] ((words[i / 4] >> ((16 * (i % 4)) as u64)) as u16))
}

/// `n` coefficients, each a 16-bit quarter of `words` masked with `q - 1`.
pub open spec fn decode_masked(words: Seq<u64>, n: nat, q: u16) -> Seq<int> {
    Seq::new(n, |i: int| (quarter_of(words, i) & ((q - 1) as u16)) as int)
}

/// `n` coefficients, each a 16-bit quarter of `words` reduced modulo `m`.
pub open spec fn decode_reduced(words: Seq<u64>, n: nat, m: u16) -> Seq<int> {
    Seq::new(n, |i: int| (quarter_of(words, i) % m) as int)
}

/// `n` coefficients in `[0, q)` for a power of two `q`, masked from stream
/// `stream` of the keystream of `seed`, read from offset `pos`.
pub open spec fn masked_uniform_sample(seed: Seq<u8>, stream: u64, pos: nat, n: nat, q: u16) -> Seq<int> {
    decode_masked(keystream_words(seed, stream, pos, quarter_words_needed(n)), n, q)
}

/// `n` coefficients reduced modulo `m`, from the keystream of `seed`.
pub open spec fn modular_uniform_sample(seed: Seq<u8>, n: nat, m: u16) -> Seq<int> {
    decode_reduced(keystream_words(seed, 0, 0, quarter_words_needed(n)), n, m)
}

pub proof fn lemma_count_nonzero_monotone(s: Seq<int>, i: int, j: int)
    requires
        0 <= i <= j <= s.len(),
    ensures
        count_nonzero_to(s, i) <= count_nonzero_to(s, j),
    decreases j - i,
{
    if i < j {
        lemma_count_nonzero_monotone(s, i, j - 1);
    }
}

pub proof fn lemma_trinary_sum_bound(s: Seq<int>, k: int)
    requires
        is_trinary_seq(s),
        0 <= k <= s.len(),
    ensures
        -k <= sum_to(s, k) <= k,
    decreases k,
{
    if k > 0 {
        lemma_trinary_sum_bound(s, k - 1);
    }
}

pub proof fn lemma_trinary_adjacent_bound(s: Seq<int>, k: int)
    requires
        is_trinary_seq(s),
        0 <= k < s.len(),
    ensures
        -k <= adjacent_sum_to(s, k) <= k,
        forall|i: int| 0 <= i < k ==> -1 <= #[trigger] (s[i] * s[i + 1]) <= 1,
    decreases k,
{
    if k > 0 {
        lemma_trinary_adjacent_bound(s, k - 1);
        let a = s[k - 1];
        let b = s[k];
        assert(-1 <= a * b <= 1) by (nonlinear_arith)
            requires
                -1 <= a <= 1,
                -1 <= b <= 1,
        ;
    }
}

/// A trinary sequence of length below 2^15 has all its partial sums and
/// adjacent correlation sums within `i16`.
pub proof fn lemma_trinary_fits_i16(s: Seq<int>, m: int)
    requires
        is_trinary_seq(s),
        s.len() <= i16::MAX,
        0 <= m < s.len(),
    ensures
        prefix_sums_fit_i16(s),
        adjacent_sums_fit_i16(s, m),
{
    assert forall|k: int| 0 <= k <= s.len() implies i16::MIN <= #[trigger] sum_to(s, k) <= i16::MAX by {
        lemma_trinary_sum_bound(s, k);
    }
    {
        lemma_trinary_adjacent_bound(s, m);
        assert forall|k: int| 0 <= k <= m implies i16::MIN <= #[trigger] adjacent_sum_to(s, k) <= i16::MAX by {
            lemma_trinary_adjacent_bound(s, k);
        }
    }
}

/// Negating the even entries negates every adjacent correlation sum.
pub proof fn lemma_negate_even_adjacent(s: Seq<int>, k: int)
    requires
        0 <= k < s.len(),
    ensures
        adjacent_sum_to(negate_even(s), k) == -adjacent_sum_to(s, k),
    decreases k,
{
    if k > 0 {
        lemma_negate_even_adjacent(s, k - 1);
        let n = negate_even(s);
        let a = s[k - 1];
        let b = s[k];
        assert(n[k - 1] * n[k] == -(a * b)) by {
            if (k - 1) % 2 == 0 {
                assert(n[k - 1] == -a && n[k] == b);
                assert((-a) * b == -(a * b)) by (nonlinear_arith);
            } else {
                assert(n[k - 1] == a && n[k] == -b);
                assert(a * (-b) == -(a * b)) by (nonlinear_arith);
            }
        }
    }
}

pub proof fn lemma_mask_below(x: u16, q: u16)
    by (bit_vector)
    requires
        q == 0x2000u16,
    ensures
        x & ((q - 1) as u16) < q,
{
}

pub proof fn lemma_low_bit(x: u64)
    by (bit_vector)
    ensures
        (x & 1u64) == 0u64 || (x & 1u64) == 1u64,
{
}

/// Every coefficient decoded from bit pairs is -1, 0 or 1.
pub proof fn lemma_decode_trits_trinary(words: Seq<u64>, n: nat)
    requires
        n < 2 || (n - 2) / 32 < words.len(),
    ensures
        is_trinary_seq(decode_trits(words, n)),
{
    let c = decode_trits(words, n);
    assert forall|i: int| 0 <= i < c.len() implies -1 <= #[trigger] c[i] <= 1 by {
        if i + 2 < n {
            let w = words[i / 32];
            let j = i % 32;
            lemma_low_bit(w >> ((2 * j + 1) as u64));
            lemma_low_bit(w >> ((2 * j) as u64));
        }
    }
}

/// Every coefficient of a T sample is -1, 0 or 1.
pub proof fn lemma_t_sample_trinary(seed: Seq<u8>, n: nat)
    ensures
        is_trinary_seq(t_sample(seed, n)),
{
    lemma_decode_trits_trinary(keystream_words(seed, 0, 0, t_words_needed(n)), n);
}

/// The correlation sum of a T+ sample over its first `n - 2` adjacent
/// pairs is never negative.
pub proof fn lemma_t_plus_correlation_nonnegative(seed: Seq<u8>, n: nat)
    requires
        n >= 2,
    ensures
        adjacent_sum_to(t_plus_sample(seed, n), n - 2) >= 0,
{
    let c = t_sample(seed, n);
    if adjacent_sum_to(c, n - 2) < 0 {
        lemma_negate_even_adjacent(c, n - 2);
    }
}

} // verus!

//! Polynomials in residue form, the coefficient conversions `lift` and
//! `down`, and the masking uniform sampler.
use crate::ipoly::{SignedPolyArith, SignedPolynomial};
use crate::keystream::{chacha20_period, rng_seed, rng_stream, rng_word_pos};
use crate::model::{
    count_nonzero, count_nonzero_to, is_trinary_seq, lemma_mask_below, masked_uniform_sample, prefix_sums_fit_i16,
    quarter_of, signed_view, sum, t_plus_sample, t_sample, unsigned_view,
};
use crate::param::{Param, SUPPORTED_N};
use crate::sampler::{draw_words, masked_from_words, QUARTERS_PER_WORD};
use rand_chacha::ChaCha20Rng;
use vstd::prelude::*;

verus! {

/// The centred value of the residue `a` modulo `q`: `a` when `a <= q / 2`,
/// else `a - q`.
pub open spec fn lift_spec(a: int, q: int) -> int {
    if a > q / 2 {
        a - q
    } else {
        a
    }
}

/// The non-negative residue of the centred value `a` modulo `q`: `a` when
/// `a >= 0`, else `a + q`.
pub open spec fn down_spec(a: int, q: int) -> int {
    if a < 0 {
        a + q
    } else {
        a
    }
}

/// `lift_spec` applied to every entry.
pub open spec fn lift_seq(s: Seq<int>, q: int) -> Seq<int> {
    s.map_values(|a: int| lift_spec(a, q))
}

/// `down_spec` applied to every entry.
pub open spec fn down_seq(s: Seq<int>, q: int) -> Seq<int> {
    s.map_values(|a: int| down_spec(a, q))
}

/// Every entry lifts to a value that fits in an `i16`.
pub open spec fn liftable(s: Seq<int>, q: int) -> bool {
    forall|i: int| 0 <= i < s.len() ==> #[trigger] s[i] - q <= i16::MAX
}

/// Every entry goes down to a value that is not negative.
pub open spec fn downable(s: Seq<int>, q: int) -> bool {
    forall|i: int| 0 <= i < s.len() ==> #[trigger] s[i] + q >= 0
}

/// Lifting then going down gives back every residue in `[0, q)`.
pub proof fn lemma_down_lift(x: int, q: int)
    requires
        0 <= x < q,
    ensures
        down_spec(lift_spec(x, q), q) == x,
{
}

/// Going down then lifting gives back every centred value in `(-q/2, q/2]`.
pub proof fn lemma_lift_down(y: int, q: int)
    requires
        -q < 2 * y <= q,
    ensures
        lift_spec(down_spec(y, q), q) == y,
{
}

/// Converting the coefficients of a zero polynomial (modulus unset, so 0)
/// to residue form and back, or to centred form and back, gives them back
/// exactly, whatever the degree.
pub proof fn lemma_zero_conversion_identity(degree: nat)
    ensures
        lift_seq(down_seq(Seq::new(degree, |i: int| 0int), 0), 0) == Seq::new(degree, |i: int| 0int),
        down_seq(lift_seq(Seq::new(degree, |i: int| 0int), 0), 0) == Seq::new(degree, |i: int| 0int),
{
    let z = Seq::new(degree, |i: int| 0int);
    assert(lift_seq(down_seq(z, 0), 0) =~= z);
    assert(down_seq(lift_seq(z, 0), 0) =~= z);
}

/// Coefficient-wise round trips: centred coefficients in `(-q/2, q/2]` survive
/// going down and lifting back; residues in `[0, q)` survive lifting and going
/// back down.
pub proof fn lemma_seq_round_trip(s: Seq<int>, t: Seq<int>, q: int)
    requires
        forall|i: int| 0 <= i < s.len() ==> -q < 2 * #[trigger] s[i] <= q,
        forall|i: int| 0 <= i < t.len() ==> 0 <= #[trigger] t[i] < q,
    ensures
        lift_seq(down_seq(s, q), q) == s,
        down_seq(lift_seq(t, q), q) == t,
{
    assert(lift_seq(down_seq(s, q), q) =~= s);
    assert(down_seq(lift_seq(t, q), q) =~= t);
}

/// The residues of a trinary sequence modulo 8192 lift back to it.
proof fn lemma_trinary_residues(c: Seq<int>)
    requires
        is_trinary_seq(c),
    ensures
        liftable(down_seq(c, 8192), 8192),
        lift_seq(down_seq(c, 8192), 8192) == c,
{
    lemma_seq_round_trip(c, Seq::<int>::empty(), 8192);
}

/// Maps a residue in `[0, q)` to its centred representative in `(-q/2, q/2]`.
pub fn lift(a: u16, q: u16) -> (r: i16)
    requires
        a - q <= i16::MAX,
    ensures
        r == lift_spec(a as int, q as int),
{
    if a > q / 2 {
        (a as i32 - q as i32) as i16
    } else {
        a as i16
    }
}

/// Maps a centred value in `(-q/2, q/2]` to its residue in `[0, q)`.
pub fn down(a: i16, q: u16) -> (r: u16)
    requires
        a + q >= 0,
    ensures
        r == down_spec(a as int, q as int),
{
    if a < 0 {
        (a as i32 + q as i32) as u16
    } else {
        a as u16
    }
}

/// A ring element in non-negative residue form: `degree` coefficients, each
/// meant to lie in `[0, modulus)`.
#[derive(Clone, Debug)]
pub struct UnsignedPolynomial {
    pub coefficient: Vec<u16>,
    pub degree: usize,
    pub modulus: u16,
}

impl PartialEq for UnsignedPolynomial {
    fn eq(&self, other: &UnsignedPolynomial) -> (r: bool) {
        if self.degree != other.degree {
            return false;
        } else if self.modulus != other.modulus {
            return false;
        } else if self.coefficient.len() != other.coefficient.len() {
            return false;
        }
        let compared = if self.degree < self.coefficient.len() {
            self.degree
        } else {
            self.coefficient.len()
        };
        for i in 0..compared
            invariant
                self.degree == other.degree,
                self.modulus == other.modulus,
                self.coefficient.len() == other.coefficient.len(),
                compared == (if self.degree < self.coefficient.len() {
                    self.degree
                } else {
                    self.coefficient.len()
                }),
                forall|k: int| 0 <= k < i ==> self.coefficient@[k] == other.coefficient@[k],
        {
            if self.coefficient[i] != other.coefficient[i] {
                return false;
            }
        }
        true
    }
}

impl vstd::std_specs::cmp::PartialEqSpecImpl for UnsignedPolynomial {
    open spec fn obeys_eq_spec() -> bool {
        true
    }

    open spec fn eq_spec(&self, other: &UnsignedPolynomial) -> bool {
        &&& self.degree == other.degree
        &&& self.modulus == other.modulus
        &&& self.coefficient.len() == other.coefficient.len()
        &&& forall|i: int|
            0 <= i < self.degree && i < self.coefficient.len() ==> self.coefficient@[i] == other.coefficient@[i]
    }
}

pub trait UnsignedPolyArith: Sized {
    /// The coefficient buffer holds exactly `degree` entries.
    spec fn well_formed(&self) -> bool;

    /// The coefficients, as integers.
    spec fn coeffs(&self) -> Seq<int>;

    spec fn spec_degree(&self) -> nat;

    spec fn spec_modulus(&self) -> int;

    /// The unpopulated polynomial: degree 0, no coefficient.
    fn init() -> (r: Self)
        ensures
            r.well_formed(),
            r.spec_degree() == 0,
            r.spec_modulus() == 0,
            r.coeffs() == Seq::<int>::empty(),
    ;

    /// The zero polynomial of the given degree, with the modulus unset (0).
    fn zero(degree: usize) -> (r: Self)
        ensures
            r.well_formed(),
            r.spec_degree() == degree,
            r.spec_modulus() == 0,
            r.coeffs() == Seq::new(degree as nat, |i: int| 0int),
    ;

    /// Refills the polynomial with `n` coefficients uniform over `[0, q)`,
    /// four per 64-bit word drawn from `prng`, by masking with `q - 1`.
    fn rand(&mut self, p: Param, prng: &mut ChaCha20Rng)
        requires
            p.spec_n() == SUPPORTED_N,
            rng_word_pos(*old(prng)) + 2 * (SUPPORTED_N / 4 + 1) < chacha20_period(),
        ensures
            rng_stream(*final(prng)) == rng_stream(*old(prng)),
            final(self).well_formed(),
            final(self).spec_degree() == SUPPORTED_N,
            final(self).spec_modulus() == 8192,
            final(self).coeffs() == masked_uniform_sample(
                rng_seed(*old(prng)),
                rng_stream(*old(prng)),
                rng_word_pos(*old(prng)),
                SUPPORTED_N as nat,
                8192,
            ),
            forall|i: int| 0 <= i < SUPPORTED_N ==> 0 <= #[trigger] final(self).coeffs()[i] < 8192,
            rng_seed(*final(prng)) == rng_seed(*old(prng)),
            rng_word_pos(*final(prng)) == rng_word_pos(*old(prng)) + 2 * (SUPPORTED_N / 4 + 1),
    ;

    /// The T sample of `seed`, in residue form; `domain` is not used.
    fn sample_t(p: Param, seed: [u8; 32], domain: String) -> (r: Self)
        requires
            p.spec_n() == SUPPORTED_N,
        ensures
            r.well_formed(),
            r.spec_degree() == SUPPORTED_N,
            r.spec_modulus() == 8192,
            r.coeffs() == down_seq(t_sample(seed@, SUPPORTED_N as nat), 8192),
            liftable(r.coeffs(), 8192),
            lift_seq(r.coeffs(), 8192) == t_sample(seed@, SUPPORTED_N as nat),
            is_trinary_seq(lift_seq(r.coeffs(), 8192)),
            prefix_sums_fit_i16(lift_seq(r.coeffs(), 8192)),
    ;

    /// The T+ sample of `seed`, in residue form; `domain` is not used.
    fn sample_t_plus(p: Param, seed: [u8; 32], domain: String) -> (r: Self)
        requires
            p.spec_n() == SUPPORTED_N,
        ensures
            r.well_formed(),
            r.spec_degree() == SUPPORTED_N,
            r.spec_modulus() == 8192,
            r.coeffs() == down_seq(t_plus_sample(seed@, SUPPORTED_N as nat), 8192),
            liftable(r.coeffs(), 8192),
            lift_seq(r.coeffs(), 8192) == t_plus_sample(seed@, SUPPORTED_N as nat),
            is_trinary_seq(lift_seq(r.coeffs(), 8192)),
            prefix_sums_fit_i16(lift_seq(r.coeffs(), 8192)),
    ;

    /// The same ring element in centred form.
    fn into_signed(&self) -> (r: SignedPolynomial)
        requires
            self.well_formed(),
            liftable(self.coeffs(), self.spec_modulus()),
        ensures
            r.coefficient.len() == r.degree,
            r.degree == self.spec_degree(),
            r.modulus == self.spec_modulus(),
            signed_view(r.coefficient@) == lift_seq(self.coeffs(), self.spec_modulus()),
    ;

    /// The residue form of a centred polynomial.
    fn from_signed(s: SignedPolynomial) -> (r: Self)
        requires
            s.coefficient.len() == s.degree,
            downable(signed_view(s.coefficient@), s.modulus as int),
        ensures
            r.well_formed(),
            r.spec_degree() == s.degree,
            r.spec_modulus() == s.modulus,
            r.coeffs() == down_seq(signed_view(s.coefficient@), s.modulus as int),
    ;

    /// Whether every coefficient, in centred form, is -1, 0 or 1.
    fn is_trinary(&self) -> (r: bool)
        requires
            self.well_formed(),
            liftable(self.coeffs(), self.spec_modulus()),
        ensures
            r == is_trinary_seq(lift_seq(self.coeffs(), self.spec_modulus())),
    ;

    /// The number of nonzero coefficients.
    fn hamming(&self) -> (r: usize)
        requires
            self.well_formed(),
        ensures
            r == count_nonzero(self.coeffs()),
    ;

    /// The signed sum of the coefficients in centred form.
    fn norm_one(&self) -> (r: i16)
        requires
            self.well_formed(),
            liftable(self.coeffs(), self.spec_modulus()),
            prefix_sums_fit_i16(lift_seq(self.coeffs(), self.spec_modulus())),
        ensures
            r == sum(lift_seq(self.coeffs(), self.spec_modulus())),
    ;
}

impl UnsignedPolyArith for UnsignedPolynomial {
    open spec fn well_formed(&self) -> bool {
        self.coefficient.len() == self.degree
    }

    open spec fn coeffs(&self) -> Seq<int> {
        unsigned_view(self.coefficient@)
    }

    open spec fn spec_degree(&self) -> nat {
        self.degree as nat
    }

    open spec fn spec_modulus(&self) -> int {
        self.modulus as int
    }

    fn init() -> (r: Self) {
        let r = UnsignedPolynomial { degree: 0, coefficient: Vec::new(), modulus: 0 };
        assert(r.coeffs() =~= Seq::<int>::empty());
        r
    }

    fn zero(degree: usize) -> (r: Self) {
        let r = UnsignedPolynomial { degree: degree, coefficient: vec![0; degree], modulus: 0 };
        assert(r.coeffs() =~= Seq::new(degree as nat, |i: int| 0int));
        r
    }

    fn rand(&mut self, p: Param, prng: &mut ChaCha20Rng) {
        let modulus = p.get_q();
        let degree = p.get_param_n();
        let words = draw_words(prng, degree / QUARTERS_PER_WORD + 1);
        let coefficient = masked_from_words(&words, degree, modulus);
        proof {
            assert forall|i: int| 0 <= i < degree implies 0 <= #[trigger] unsigned_view(coefficient@)[i] < 8192 by {
                lemma_mask_below(quarter_of(words@, i), modulus);
            }
        }
        self.coefficient = coefficient;
        self.degree = degree;
        self.modulus = modulus;
    }

    fn sample_t(p: Param, seed: [u8; 32], domain: String) -> (r: Self) {
        let t = SignedPolynomial::sample_t(p, seed, domain);
        let r = Self::from_signed(t);
        proof {
            lemma_trinary_residues(t.coeffs());
        }
        r
    }

    fn sample_t_plus(p: Param, seed: [u8; 32], domain: String) -> (r: Self) {
        let t = SignedPolynomial::sample_t_plus(p, seed, domain);
        let r = Self::from_signed(t);
        proof {
            lemma_trinary_residues(t.coeffs());
        }
        r
    }

    fn into_signed(&self) -> (r: SignedPolynomial) {
        let mut coefficient: Vec<i16> = Vec::new();
        for i in 0..self.degree
            invariant
                self.well_formed(),
                liftable(self.coeffs(), self.spec_modulus()),
                coefficient.len() == i,
                forall|k: int| 0 <= k < i ==> coefficient@[k] as int
                    == #[trigger] lift_seq(self.coeffs(), self.spec_modulus())[k],
        {
            assert(self.coeffs()[i as int] - self.modulus <= i16::MAX);
            coefficient.push(lift(self.coefficient[i], self.modulus));
        }
        let r = SignedPolynomial { coefficient, degree: self.degree, modulus: self.modulus };
        assert(signed_view(r.coefficient@) =~= lift_seq(self.coeffs(), self.spec_modulus()));
        r
    }

    fn from_signed(s: SignedPolynomial) -> (r: Self) {
        let mut coefficient: Vec<u16> = Vec::new();
        for i in 0..s.degree
            invariant
                s.coefficient.len() == s.degree,
                downable(signed_view(s.coefficient@), s.modulus as int),
                coefficient.len() == i,
                forall|k: int| 0 <= k < i ==> coefficient@[k] as int
                    == #[trigger] down_seq(signed_view(s.coefficient@), s.modulus as int)[k],
        {
            assert(signed_view(s.coefficient@)[i as int] + s.modulus >= 0);
            coefficient.push(down(s.coefficient[i], s.modulus));
        }
        let r = UnsignedPolynomial { coefficient, degree: s.degree, modulus: s.modulus };
        assert(r.coeffs() =~= down_seq(signed_view(s.coefficient@), s.modulus as int));
        r
    }

    fn is_trinary(&self) -> (r: bool) {
        self.into_signed().is_trinary()
    }

    fn hamming(&self) -> (r: usize) {
        let mut hm: usize = self.degree;
        for i in 0..self.degree
            invariant
                self.well_formed(),
                hm == self.degree - i + count_nonzero_to(self.coeffs(), i as int),
        {
            if self.coefficient[i] == 0 {
                hm -= 1;
            }
        }
        hm
    }

    fn norm_one(&self) -> (r: i16) {
        self.into_signed().norm_one()
    }
}

} // verus!

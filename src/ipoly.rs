//! Polynomials in centred form, and the T and T+ samplers.
use crate::keystream::chacha_from_seed;
use crate::model::{
    adjacent_sum_to, adjacent_sums_fit_i16, count_nonzero, count_nonzero_to, is_trinary_seq,
    lemma_t_plus_correlation_nonnegative, lemma_t_sample_trinary, lemma_trinary_fits_i16, prefix_sums_fit_i16,
    signed_view, sum, sum_to, t_plus_sample, t_sample, unsigned_view,
};
use crate::param::{Param, SUPPORTED_N};
use crate::sampler::{draw_words, trits_from_words, TRITS_PER_WORD};
use crate::upoly::{down, down_seq, downable, lift, lift_seq, liftable, UnsignedPolyArith, UnsignedPolynomial};
use vstd::prelude::*;
use vstd::std_specs::cmp::PartialEqSpec;

verus! {

/// A ring element in centred form: `degree` coefficients, each meant to lie
/// in `(-modulus/2, modulus/2]`.
#[derive(Clone, Debug)]
pub struct SignedPolynomial {
    pub coefficient: Vec<i16>,
    pub degree: usize,
    pub modulus: u16,
}

impl SignedPolynomial {
    /// What `sample_t` returns for these inputs.
    pub open spec fn is_t_sample_of(&self, p: Param, seed: [u8; 32]) -> bool {
        &&& self.well_formed()
        &&& self.degree == p.spec_n()
        &&& self.modulus == 8192
        &&& self.coeffs() == t_sample(seed@, p.spec_n() as nat)
    }

    /// What `sample_t_plus` returns for these inputs.
    pub open spec fn is_t_plus_sample_of(&self, p: Param, seed: [u8; 32]) -> bool {
        &&& self.well_formed()
        &&& self.degree == p.spec_n()
        &&& self.modulus == 8192
        &&& self.coeffs() == t_plus_sample(seed@, p.spec_n() as nat)
    }
}

/// Sampling is deterministic: two polynomials that are each what
/// `sample_t` returns for the same parameters and seed are equal, and so are
/// two that are each what `sample_t_plus` returns.
pub proof fn lemma_sampling_deterministic(p: Param, seed: [u8; 32], a: SignedPolynomial, b: SignedPolynomial)
    requires
        (a.is_t_sample_of(p, seed) && b.is_t_sample_of(p, seed)) || (a.is_t_plus_sample_of(p, seed)
            && b.is_t_plus_sample_of(p, seed)),
    ensures
        a.eq_spec(&b),
{
    assert forall|i: int| 0 <= i < a.coefficient.len() implies a.coefficient@[i] == b.coefficient@[i] by {
        assert(a.coeffs()[i] == b.coeffs()[i]);
    }
    assert(a.coefficient@ =~= b.coefficient@);
}

impl PartialEq for SignedPolynomial {
    fn eq(&self, other: &SignedPolynomial) -> (r: bool) {
        if self.degree != other.degree {
            return false;
        } else if self.modulus != other.modulus {
            return false;
        } else if self.coefficient.len() != other.coefficient.len() {
            return false;
        }
        let compared = if self.degree < self.coefficient.len() {
            self.degree
        } else {
            self.coefficient.len()
        };
        for i in 0..compared
            invariant
                self.degree == other.degree,
                self.modulus == other.modulus,
                self.coefficient.len() == other.coefficient.len(),
                compared == (if self.degree < self.coefficient.len() {
                    self.degree
                } else {
                    self.coefficient.len()
                }),
                forall|k: int| 0 <= k < i ==> self.coefficient@[k] == other.coefficient@[k],
        {
            if self.coefficient[i] != other.coefficient[i] {
                return false;
            }
        }
        true
    }
}

impl vstd::std_specs::cmp::PartialEqSpecImpl for SignedPolynomial {
    open spec fn obeys_eq_spec() -> bool {
        true
    }

    open spec fn eq_spec(&self, other: &SignedPolynomial) -> bool {
        &&& self.degree == other.degree
        &&& self.modulus == other.modulus
        &&& self.coefficient.len() == other.coefficient.len()
        &&& forall|i: int|
            0 <= i < self.degree && i < self.coefficient.len() ==> self.coefficient@[i] == other.coefficient@[i]
    }
}

pub trait SignedPolyArith: Sized {
    /// The coefficient buffer holds exactly `degree` entries.
    spec fn well_formed(&self) -> bool;

    /// The coefficients, as integers.
    spec fn coeffs(&self) -> Seq<int>;

    spec fn spec_degree(&self) -> nat;

    spec fn spec_modulus(&self) -> int;

    /// The unpopulated polynomial: degree 0, no coefficient.
    fn init() -> (r: Self)
        ensures
            r.well_formed(),
            r.spec_degree() == 0,
            r.spec_modulus() == 0,
            r.coeffs() == Seq::<int>::empty(),
    ;

    /// The zero polynomial of the given degree, with the modulus unset (0).
    fn zero(degree: usize) -> (r: Self)
        ensures
            r.well_formed(),
            r.spec_degree() == degree,
            r.spec_modulus() == 0,
            r.coeffs() == Seq::new(degree as nat, |i: int| 0int),
    ;

    /// Whether every coefficient is -1, 0 or 1.
    fn is_trinary(&self) -> (r: bool)
        requires
            self.well_formed(),
        ensures
            r == is_trinary_seq(self.coeffs()),
    ;

    /// The same ring element in residue form.
    fn into_unsigned(&self) -> (r: UnsignedPolynomial)
        requires
            self.well_formed(),
            downable(self.coeffs(), self.spec_modulus()),
        ensures
            r.coefficient.len() == r.degree,
            r.degree == self.spec_degree(),
            r.modulus == self.spec_modulus(),
            unsigned_view(r.coefficient@) == down_seq(self.coeffs(), self.spec_modulus()),
    ;

    /// The centred form of a polynomial in residue form.
    fn from_unsigned(s: UnsignedPolynomial) -> (r: Self)
        requires
            s.coefficient.len() == s.degree,
            liftable(unsigned_view(s.coefficient@), s.modulus as int),
        ensures
            r.well_formed(),
            r.spec_degree() == s.degree,
            r.spec_modulus() == s.modulus,
            r.coeffs() == lift_seq(unsigned_view(s.coefficient@), s.modulus as int),
    ;

    /// The T sample of `seed`: degree `n`, modulus 8192, entry `i < n - 2`
    /// read from bit pair `i % 32` of keystream word `i / 32`, the top two
    /// entries zero. `domain` is not used.
    fn sample_t(p: Param, seed: [u8; 32], domain: String) -> (r: Self)
        requires
            p.spec_n() == SUPPORTED_N,
        ensures
            r.well_formed(),
            r.spec_degree() == SUPPORTED_N,
            r.spec_modulus() == 8192,
            r.coeffs() == t_sample(seed@, SUPPORTED_N as nat),
            is_trinary_seq(r.coeffs()),
            r.coeffs()[SUPPORTED_N - 1] == 0,
            r.coeffs()[SUPPORTED_N - 2] == 0,
            prefix_sums_fit_i16(r.coeffs()),
            adjacent_sums_fit_i16(r.coeffs(), SUPPORTED_N - 2),
    ;

    /// The T+ sample of `seed`: the T sample with its even entries negated
    /// when its adjacent correlation sum is negative. `domain` is not used.
    fn sample_t_plus(p: Param, seed: [u8; 32], domain: String) -> (r: Self)
        requires
            p.spec_n() == SUPPORTED_N,
        ensures
            r.well_formed(),
            r.spec_degree() == SUPPORTED_N,
            r.spec_modulus() == 8192,
            r.coeffs() == t_plus_sample(seed@, SUPPORTED_N as nat),
            is_trinary_seq(r.coeffs()),
            r.coeffs()[SUPPORTED_N - 1] == 0,
            r.coeffs()[SUPPORTED_N - 2] == 0,
            prefix_sums_fit_i16(r.coeffs()),
            adjacent_sums_fit_i16(r.coeffs(), SUPPORTED_N - 2),
            adjacent_sum_to(r.coeffs(), SUPPORTED_N - 2) >= 0,
    ;

    /// The adjacent correlation sum `c[0]*c[1] + ... + c[degree-3]*c[degree-2]`.
    fn get_t(&self) -> (r: i16)
        requires
            self.well_formed(),
            self.spec_degree() >= 2,
            adjacent_sums_fit_i16(self.coeffs(), self.spec_degree() - 2),
        ensures
            r == adjacent_sum_to(self.coeffs(), self.spec_degree() - 2),
    ;

    /// The number of nonzero coefficients.
    fn hamming(&self) -> (r: usize)
        requires
            self.well_formed(),
        ensures
            r == count_nonzero(self.coeffs()),
    ;

    /// The signed sum of the coefficients.
    fn norm_one(&self) -> (r: i16)
        requires
            self.well_formed(),
            prefix_sums_fit_i16(self.coeffs()),
        ensures
            r == sum(self.coeffs()),
    ;

    /// Hands back a trinary polynomial unchanged.
    fn s3_to_zx(a: Self) -> (r: Self)
        requires
            a.well_formed(),
            is_trinary_seq(a.coeffs()),
        ensures
            r == a,
    ;

    /// Hands back a trinary polynomial unchanged.
    fn mod_s3(a: Self) -> (r: Self)
        requires
            a.well_formed(),
            is_trinary_seq(a.coeffs()),
        ensures
            r == a,
    ;
}

impl SignedPolyArith for SignedPolynomial {
    open spec fn well_formed(&self) -> bool {
        self.coefficient.len() == self.degree
    }

    open spec fn coeffs(&self) -> Seq<int> {
        signed_view(self.coefficient@)
    }

    open spec fn spec_degree(&self) -> nat {
        self.degree as nat
    }

    open spec fn spec_modulus(&self) -> int {
        self.modulus as int
    }

    fn init() -> (r: Self) {
        let r = SignedPolynomial { degree: 0, coefficient: Vec::new(), modulus: 0 };
        assert(r.coeffs() =~= Seq::<int>::empty());
        r
    }

    fn zero(degree: usize) -> (r: Self) {
        let r = SignedPolynomial { degree: degree, coefficient: vec![0; degree], modulus: 0 };
        assert(r.coeffs() =~= Seq::new(degree as nat, |i: int| 0int));
        r
    }

    fn is_trinary(&self) -> (r: bool) {
        let mut result = true;
        for i in 0..self.degree
            invariant
                self.well_formed(),
                result == (forall|k: int| 0 <= k < i ==> -1 <= #[trigger] self.coeffs()[k] <= 1),
        {
            let c = self.coefficient[i];
            assert(self.coeffs()[i as int] == c as int);
            if !(c == -1 || c == 0 || c == 1) {
                result = false;
            }
        }
        result
    }

    fn into_unsigned(&self) -> (r: UnsignedPolynomial) {
        let mut coefficient: Vec<u16> = Vec::new();
        for i in 0..self.degree
            invariant
                self.well_formed(),
                downable(self.coeffs(), self.spec_modulus()),
                coefficient.len() == i,
                forall|k: int| 0 <= k < i ==> coefficient@[k] as int
                    == #[trigger] down_seq(self.coeffs(), self.spec_modulus())[k],
        {
            assert(self.coeffs()[i as int] + self.modulus >= 0);
            coefficient.push(down(self.coefficient[i], self.modulus));
        }
        let r = UnsignedPolynomial { coefficient, degree: self.degree, modulus: self.modulus };
        assert(unsigned_view(r.coefficient@) =~= down_seq(self.coeffs(), self.spec_modulus()));
        r
    }

    fn from_unsigned(s: UnsignedPolynomial) -> (r: Self) {
        let mut coefficient: Vec<i16> = Vec::new();
        for i in 0..s.degree
            invariant
                s.coefficient.len() == s.degree,
                liftable(unsigned_view(s.coefficient@), s.modulus as int),
                coefficient.len() == i,
                forall|k: int| 0 <= k < i ==> coefficient@[k] as int
                    == #[trigger] lift_seq(unsigned_view(s.coefficient@), s.modulus as int)[k],
        {
            assert(unsigned_view(s.coefficient@)[i as int] - s.modulus <= i16::MAX);
            coefficient.push(lift(s.coefficient[i], s.modulus));
        }
        let r = SignedPolynomial { coefficient, degree: s.degree, modulus: s.modulus };
        assert(r.coeffs() =~= lift_seq(unsigned_view(s.coefficient@), s.modulus as int));
        r
    }

    fn sample_t(p: Param, seed: [u8; 32], _domain: String) -> (r: Self) {
        let modulus = p.get_q();
        let n = p.get_param_n();
        // The domain label is accepted but not mixed into the seed expansion.
        let mut prng = chacha_from_seed(seed);
        let words = draw_words(&mut prng, (n - 2) / TRITS_PER_WORD + 1);
        let coefficient = trits_from_words(&words, n);
        let r = SignedPolynomial { coefficient, degree: n, modulus };
        proof {
            lemma_t_sample_trinary(seed@, n as nat);
            lemma_trinary_fits_i16(r.coeffs(), SUPPORTED_N - 2);
        }
        r
    }

    fn sample_t_plus(p: Param, seed: [u8; 32], domain: String) -> (r: Self) {
        let mut res = Self::sample_t(p, seed, domain);
        let ghost c = res.coeffs();
        let s: i16 = if res.get_t() < 0 {
            -1
        } else {
            1
        };
        let ghost negate = adjacent_sum_to(c, SUPPORTED_N - 2) < 0;
        let half = res.degree / 2;
        for i in 0..half
            invariant
                half == SUPPORTED_N / 2,
                res.degree == SUPPORTED_N,
                res.modulus == 8192,
                res.coefficient.len() == SUPPORTED_N,
                is_trinary_seq(c),
                c.len() == SUPPORTED_N,
                s == (if negate { -1int } else { 1int }),
                forall|k: int| 0 <= k < 2 * i && k % 2 == 0 ==> #[trigger] res.coeffs()[k] == s * c[k],
                forall|k: int|
                    0 <= k < SUPPORTED_N && !(0 <= k < 2 * i && k % 2 == 0) ==> #[trigger] res.coeffs()[k]
                        == c[k],
        {
            let k = 2 * i;
            assert(res.coeffs()[k as int] == c[k as int]);
            let v = res.coefficient[k];
            let ghost before = res.coeffs();
            res.coefficient.set(k, v * s);
            assert(res.coeffs() =~= before.update(k as int, (v * s) as int));
        }
        proof {
            let target = t_plus_sample(seed@, SUPPORTED_N as nat);
            assert(c[SUPPORTED_N - 1] == 0);
            assert(res.coeffs() =~= target);
            lemma_t_sample_trinary(seed@, SUPPORTED_N as nat);
            lemma_t_plus_correlation_nonnegative(seed@, SUPPORTED_N as nat);
            assert(is_trinary_seq(target));
            lemma_trinary_fits_i16(target, SUPPORTED_N - 2);
        }
        res
    }

    fn get_t(&self) -> (r: i16) {
        let mut t: i16 = 0;
        for i in 0..self.degree - 2
            invariant
                self.well_formed(),
                self.degree >= 2,
                adjacent_sums_fit_i16(self.coeffs(), self.degree - 2),
                t == adjacent_sum_to(self.coeffs(), i as int),
        {
            assert(self.coeffs()[i as int] * self.coeffs()[i + 1] == adjacent_sum_to(self.coeffs(), i + 1)
                - adjacent_sum_to(self.coeffs(), i as int));
            t += self.coefficient[i] * self.coefficient[i + 1];
        }
        t
    }

    fn hamming(&self) -> (r: usize) {
        let mut hm: usize = self.degree;
        for i in 0..self.degree
            invariant
                self.well_formed(),
                hm == self.degree - i + count_nonzero_to(self.coeffs(), i as int),
        {
            if self.coefficient[i] == 0 {
                hm -= 1;
            }
        }
        hm
    }

    fn norm_one(&self) -> (r: i16) {
        let mut norm: i16 = 0;
        for i in 0..self.degree
            invariant
                self.well_formed(),
                prefix_sums_fit_i16(self.coeffs()),
                norm == sum_to(self.coeffs(), i as int),
        {
            assert(i16::MIN <= sum_to(self.coeffs(), i + 1) <= i16::MAX);
            norm += self.coefficient[i];
        }
        norm
    }

    fn s3_to_zx(a: Self) -> (r: Self) {
        Self::mod_s3(a)
    }

    fn mod_s3(a: Self) -> (r: Self) {
        a
    }
}

} // verus!

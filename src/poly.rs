//! Ring elements filled by the general-modulus uniform sampler, and
//! polynomials with small coefficients.
use crate::keystream::chacha_from_seed;
use crate::model::{count_nonzero, count_nonzero_to, lemma_count_nonzero_monotone, modular_uniform_sample, unsigned_view};
use crate::sampler::{draw_words, reduced_from_words, QUARTERS_PER_WORD};
use vstd::prelude::*;

verus! {

/// A ring element in residue form, filled by the general-modulus uniform
/// sampler.
#[derive(Clone, PartialEq, Eq, Debug)]
pub struct RingElement {
    coefficient: Vec<u16>,
    degree: usize,
    modulus: u16,
}

pub trait RingArith: Sized {
    /// The coefficient buffer holds exactly `degree` entries.
    spec fn well_formed(&self) -> bool;

    /// The coefficients, as integers.
    spec fn coeffs(&self) -> Seq<int>;

    spec fn spec_degree(&self) -> nat;

    spec fn spec_modulus(&self) -> int;

    /// The unpopulated element: degree 0, no coefficient, modulus unset.
    fn new() -> (r: Self)
        ensures
            r.well_formed(),
            r.spec_degree() == 0,
            r.spec_modulus() == 0,
            r.coeffs() == Seq::<int>::empty(),
    ;

    /// The zero element of the given degree, with the modulus unset (0).
    fn zero(degree: usize) -> (r: Self)
        ensures
            r.well_formed(),
            r.spec_degree() == degree,
            r.spec_modulus() == 0,
            r.coeffs() == Seq::new(degree as nat, |i: int| 0int),
    ;

    /// Refills every coefficient from the keystream of `seed`, four per
    /// 64-bit word, each 16-bit quarter reduced modulo `modulus`, and sets
    /// the modulus.
    fn rand(&mut self, seed: [u8; 32], modulus: u16)
        requires
            modulus > 0,
        ensures
            final(self).well_formed(),
            final(self).spec_degree() == old(self).spec_degree(),
            final(self).spec_modulus() == modulus,
            final(self).coeffs() == modular_uniform_sample(seed@, old(self).spec_degree(), modulus),
            forall|i: int| 0 <= i < final(self).spec_degree() ==> 0 <= #[trigger] final(self).coeffs()[i] < modulus,
    ;
}

impl RingArith for RingElement {
    closed spec fn well_formed(&self) -> bool {
        self.coefficient.len() == self.degree
    }

    closed spec fn coeffs(&self) -> Seq<int> {
        unsigned_view(self.coefficient@)
    }

    closed spec fn spec_degree(&self) -> nat {
        self.degree as nat
    }

    closed spec fn spec_modulus(&self) -> int {
        self.modulus as int
    }

    fn new() -> (r: Self) {
        let r = RingElement { degree: 0, coefficient: Vec::new(), modulus: 0 };
        assert(r.coeffs() =~= Seq::<int>::empty());
        r
    }

    fn zero(degree: usize) -> (r: Self) {
        let r = RingElement { degree: degree, coefficient: vec![0; degree], modulus: 0 };
        assert(r.coeffs() =~= Seq::new(degree as nat, |i: int| 0int));
        r
    }

    fn rand(&mut self, seed: [u8; 32], modulus: u16) {
        let mut prng = chacha_from_seed(seed);
        let words = draw_words(&mut prng, self.degree / QUARTERS_PER_WORD + 1);
        self.coefficient = reduced_from_words(&words, self.degree, modulus);
        self.modulus = modulus;
    }
}

/// A polynomial with small signed coefficients.
#[derive(Clone, PartialEq, Eq, Debug)]
pub struct TernaryPoly {
    coefficient: Vec<i8>,
    degree: usize,
}

pub trait TernaryArith: Sized {
    /// The coefficient buffer holds exactly `degree` entries.
    spec fn well_formed(&self) -> bool;

    /// The coefficients, as integers.
    spec fn coeffs(&self) -> Seq<int>;

    spec fn spec_degree(&self) -> nat;

    /// The unpopulated polynomial: degree 0, no coefficient.
    fn new() -> (r: Self)
        ensures
            r.well_formed(),
            r.spec_degree() == 0,
            r.coeffs() == Seq::<int>::empty(),
    ;

    /// The zero polynomial of the given degree.
    fn zero(degree: usize) -> (r: Self)
        ensures
            r.well_formed(),
            r.spec_degree() == degree,
            r.coeffs() == Seq::new(degree as nat, |i: int| 0int),
    ;

    /// The number of nonzero coefficients.
    fn hamming(self) -> (r: u16)
        requires
            self.well_formed(),
            count_nonzero(self.coeffs()) <= u16::MAX,
        ensures
            r == count_nonzero(self.coeffs()),
    ;
}

impl TernaryArith for TernaryPoly {
    closed spec fn well_formed(&self) -> bool {
        self.coefficient.len() == self.degree
    }

    closed spec fn coeffs(&self) -> Seq<int> {
        self.coefficient@.map_values(|c: i8| c as int)
    }

    closed spec fn spec_degree(&self) -> nat {
        self.degree as nat
    }

    fn new() -> (r: Self) {
        let r = TernaryPoly { degree: 0, coefficient: Vec::new() };
        assert(r.coeffs() =~= Seq::<int>::empty());
        r
    }

    fn zero(degree: usize) -> (r: Self) {
        let r = TernaryPoly { degree: degree, coefficient: vec![0; degree] };
        assert(r.coeffs() =~= Seq::new(degree as nat, |i: int| 0int));
        r
    }

    fn hamming(self) -> (r: u16) {
        let mut counter: u16 = 0;
        for i in 0..self.degree
            invariant
                self.well_formed(),
                count_nonzero(self.coeffs()) <= u16::MAX,
                counter == count_nonzero_to(self.coeffs(), i as int),
        {
            proof {
                lemma_count_nonzero_monotone(self.coeffs(), i + 1, self.degree as int);
            }
            if self.coefficient[i] != 0 {
                counter = counter + 1;
            }
        }
        counter
    }
}

} // verus!

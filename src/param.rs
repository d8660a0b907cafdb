//! The parameter set of the supported ring instantiation.
use vstd::prelude::*;

verus! {

/// The parameter set of one ring instantiation: the ring degree `n`, the
/// module rank `k`, and the bit widths of seeds, coins and shared keys.
/// Only the instantiation with `n == 701` is supported by the derived
/// quantities (modulus, packed sizes).
#[derive(Clone, Copy, Debug)]
pub struct Param {
    pub param_n: usize,
    pub param_k: usize,
    pub param_seed_bits: usize,
    pub param_coin_bits: usize,
    pub param_shared_key_bits: usize,
}

/// The only ring degree whose derived quantities are supported.
pub const SUPPORTED_N: usize = 701;

impl Param {
    /// True of the parameter set that `init` builds.
    pub open spec fn is_default(&self) -> bool {
        &&& self.spec_n() == 701
        &&& self.spec_k() == 2
        &&& self.spec_seed_bits() == 256
        &&& self.spec_coin_bits() == 256
        &&& self.spec_shared_key_bits() == 256
    }

    pub open spec fn spec_n(&self) -> usize {
        self.param_n
    }

    pub open spec fn spec_k(&self) -> usize {
        self.param_k
    }

    pub open spec fn spec_seed_bits(&self) -> usize {
        self.param_seed_bits
    }

    pub open spec fn spec_coin_bits(&self) -> usize {
        self.param_coin_bits
    }

    pub open spec fn spec_shared_key_bits(&self) -> usize {
        self.param_shared_key_bits
    }

    /// The default instantiation: `n = 701`, `k = 2`, 256-bit seeds, coins
    /// and shared keys.
    pub fn init() -> (r: Self)
        ensures
            r.is_default(),
    {
        Param {
            param_n: 701,
            param_k: 2,
            param_seed_bits: 256,
            param_coin_bits: 256,
            param_shared_key_bits: 256,
        }
    }

    pub fn get_param_n(&self) -> (r: usize)
        ensures
            r == self.spec_n(),
    {
        self.param_n
    }

    pub fn get_param_k(&self) -> (r: usize)
        ensures
            r == self.spec_k(),
    {
        self.param_k
    }

    pub fn get_param_seed_bits(&self) -> (r: usize)
        ensures
            r == self.spec_seed_bits(),
    {
        self.param_seed_bits
    }

    pub fn get_param_coin_bits(&self) -> (r: usize)
        ensures
            r == self.spec_coin_bits(),
    {
        self.param_coin_bits
    }

    pub fn get_param_shared_key_bits(&self) -> (r: usize)
        ensures
            r == self.spec_shared_key_bits(),
    {
        self.param_shared_key_bits
    }

    /// The base-two logarithm of the modulus `q`; only `n == 701` is
    /// supported.
    pub fn get_log_q(&self) -> (r: u16)
        requires
            self.spec_n() == SUPPORTED_N,
        ensures
            r == 13,
    {
        13
    }

    /// The coefficient modulus `q = 2^13`; only `n == 701` is supported.
    pub fn get_q(&self) -> (r: u16)
        requires
            self.spec_n() == SUPPORTED_N,
        ensures
            r == 8192,
    {
        0x2000
    }

    /// Bits of a packed trinary polynomial, `8 * ceil((n - 1) / 5)`.
    pub fn get_s3_packed_bits(&self) -> (r: u16)
        requires
            self.spec_n() == SUPPORTED_N,
        ensures
            r == 1120,
            r == 8 * ((self.spec_n() - 1 + 4) / 5),
    {
        1120
    }

    /// Bits of a packed public key, `(n - 1) * log2(q)`.
    pub fn get_owcpa_public_key_bits(&self) -> (r: u16)
        requires
            self.spec_n() == SUPPORTED_N,
        ensures
            r == 9100,
            r == (self.spec_n() - 1) * 13,
    {
        9100
    }

    /// Bits of a packed secret key, twice the packed trinary size.
    pub fn get_owcpa_secret_key_bits(&self) -> (r: u16)
        requires
            self.spec_n() == SUPPORTED_N,
        ensures
            r == 2240,
            r == 2 * (8 * ((self.spec_n() - 1 + 4) / 5)),
    {
        2240
    }

    /// Bits of a packed ciphertext, the same as a packed public key.
    pub fn get_owcpa_ciphertext_bits(&self) -> (r: u16)
        requires
            self.spec_n() == SUPPORTED_N,
        ensures
            r == 9100,
            r == (self.spec_n() - 1) * 13,
    {
        9100
    }
}

} // verus!

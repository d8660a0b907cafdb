//! Polynomial representation and deterministic trinary sampling for an
//! NTRU-style ring with degree 701 and modulus 8192.
pub mod ipoly;
pub mod keystream;
pub mod model;
pub mod param;
pub mod poly;
pub mod sampler;
pub mod upoly;

pub use ipoly::{SignedPolyArith, SignedPolynomial};
pub use param::Param;
pub use poly::{RingArith, RingElement, TernaryArith, TernaryPoly};
pub use upoly::{down, lift, UnsignedPolyArith, UnsignedPolynomial};

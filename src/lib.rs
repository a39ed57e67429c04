//! Non-interactive Schnorr proof of knowledge of a discrete logarithm on
//! secp256k1, made non-interactive with the Fiat-Shamir transform.
//!
//! Curve and scalar arithmetic come from `curv`, hashing from `sha2`. The
//! library models a scalar by its 32-byte big-endian encoding and a point by
//! its uncompressed encoding together with its discrete logarithm with
//! respect to the curve generator, which exists only in specifications.

pub mod challenge;
pub mod point;
pub mod schnorr;
pub mod scalar;

pub use challenge::ChallengeError;
pub use point::Point;
pub use schnorr::DLogProof;
pub use scalar::Scalar;

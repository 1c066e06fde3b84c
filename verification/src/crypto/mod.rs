//! Algorithm identifiers and the parameter blocks of public keys.

pub mod ecc_curve;
pub mod hash;
pub mod public_key;
pub mod sym;

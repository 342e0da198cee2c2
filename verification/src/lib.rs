//! Succinct proofs that a BLS aggregate public key is the sum of a subset of
//! a committed signer set, with an accountability witness (bitmask or count).
//!
//! The scalar field of BW6-761 is modelled at the byte level: every field
//! element is carried as its 48-byte canonical little-endian encoding, and
//! every contract speaks of the integer value of those bytes modulo the group
//! order. Group elements are carried as their compressed encodings and stay
//! opaque; the pairing side of verification is delegated to arkworks behind
//! trusted wrappers.

pub mod errors;
pub mod labels;
pub mod fe;
pub mod bitmask;
pub mod points;
pub mod domain;
pub mod keyset;
pub mod public_input;
pub mod proofs;
pub mod transcript;
pub mod utils;
pub mod piop;
pub mod kzg;
pub mod fsrng;
pub mod verification;
pub mod gen;
pub mod laws;

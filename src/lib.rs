//! Zero-knowledge proofs that a hidden pair of field elements multiplies to a
//! disclosed product, with the canonical encodings that carry keys, proofs and
//! public inputs across a process boundary.

pub mod circuit;
pub mod error;
pub mod field;
pub mod hexcode;
pub mod snark;

//! An RC4 stream cipher engine: key scheduling, keystream generation, and
//! in-place keystream application, with a mathematical model of the cipher
//! state and proofs that the internal table stays a permutation of the byte
//! values.
//!
//! RC4 is a legacy cipher with well-known statistical biases; this crate makes
//! no cryptographic strength claims.

pub mod cipher;
pub mod laws;
pub mod model;
pub mod printable;

pub use cipher::Rc4;
pub use cipher::Rc4Error;

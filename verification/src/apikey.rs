//! API key tokens: generation, parsing and verification.
//!
//! Tokens have the shape `{prefix}_v{version}_{base32(id || secret)}`. The
//! stored credential is a SHA3-512 hash binding the key id, the algorithm
//! version, an optional context and the secret; verification compares it in
//! constant time.

pub mod codec;
pub mod config;
pub mod data;
pub mod error;
pub mod hash;
pub mod parse;
pub mod token;
pub mod verify;

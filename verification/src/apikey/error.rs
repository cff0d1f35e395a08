//! Errors of API key parsing and verification.

use vstd::prelude::*;

verus! {

/// Why a token was rejected.
#[derive(Debug)]
pub enum ApiKeyError {
    /// The token's shape is wrong: not three parts, a malformed version
    /// number, or a payload of the wrong size.
    InvalidFormat,
    /// The token's prefix is not the expected one.
    InvalidPrefix { expected: String, got: String },
    /// The version number is not supported.
    UnsupportedVersion(i16),
    /// The payload is not valid base32.
    InvalidEncoding,
    /// The identifier bytes could not be read.
    InvalidUuid,
}

} // verus!

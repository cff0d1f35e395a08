//! Data stored for an API key: the hash and metadata, never the secret.

use crate::hashing::{hex_of, to_hex};
use vstd::prelude::*;

verus! {

/// What the database keeps for one key.
#[derive(Debug)]
pub struct ApiKeyData {
    /// Unique identifier (16 bytes, extracted from the token).
    pub id: Vec<u8>,
    /// SHA3-512 hash of the secret (64 bytes).
    pub secret_hash: Vec<u8>,
    /// Algorithm version used to generate this key.
    pub version: i16,
}

impl ApiKeyData {
    /// Bundle the stored fields.
    pub fn new(id: Vec<u8>, secret_hash: Vec<u8>, version: i16) -> (r: Self)
        ensures
            r.id == id,
            r.secret_hash == secret_hash,
            r.version == version,
    {
        ApiKeyData { id, secret_hash, version }
    }

    /// The secret hash as a lower-case hex string.
    pub fn secret_hash_hex(&self) -> (r: String)
        ensures
            r@ == hex_of(self.secret_hash@),
    {
        to_hex(self.secret_hash.as_slice())
    }
}

} // verus!

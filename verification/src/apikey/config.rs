//! Configuration for API key generation and validation.

use vstd::prelude::*;

verus! {

/// Configuration for API key generation and validation.
#[derive(Debug)]
pub struct ApiKeyConfig {
    /// Prefix for token strings (a prefix `lb` produces `lb_v1_...`).
    pub prefix: String,
    /// Optional context bound into the hash (an organisation or account
    /// identifier), carried as its 16 bytes. It prevents hashes from being
    /// swapped between contexts.
    pub context_id: Option<Vec<u8>>,
}

impl Default for ApiKeyConfig {
    /// The default configuration: prefix `key`, no context.
    fn default() -> (r: Self)
        ensures
            r.prefix@ == "key"@,
            r.context_id is None,
    {
        ApiKeyConfig { prefix: "key".to_owned(), context_id: None }
    }
}

impl ApiKeyConfig {
    /// A config with the given prefix and no context.
    pub fn new(prefix: &str) -> (r: Self)
        ensures
            r.prefix@ == prefix@,
            r.context_id is None,
    {
        ApiKeyConfig { prefix: prefix.to_owned(), context_id: None }
    }

    /// Bind a context identifier into the hash.
    pub fn with_context(self, context_id: Vec<u8>) -> (r: Self)
        ensures
            r.prefix == self.prefix,
            r.context_id == Some(context_id),
    {
        ApiKeyConfig { context_id: Some(context_id), ..self }
    }
}

} // verus!

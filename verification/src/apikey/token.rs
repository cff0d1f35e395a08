//! Token generation: a fresh identifier and secret, encoded for the user,
//! hashed for storage.

use crate::apikey::codec::{
    ascii_lower, base32_nopad_encode, base32_nopad_of, is_base32_symbol, to_ascii_lower,
};
use crate::apikey::config::ApiKeyConfig;
use crate::apikey::data::ApiKeyData;
use crate::apikey::hash::{compute_hash, sha3_512_of, spec_hash_message, CURRENT_VERSION};
use crate::strutil::{ascii_to_string, chars_of_ascii};
use vstd::prelude::*;
use vstd::string::StringExecFns;

verus! {

/// The API key token given to the user.
#[derive(Debug)]
pub struct ApiKeyToken {
    /// The full token string.
    pub token: String,
    /// The 16-byte identifier, for storage and lookup.
    pub id: Vec<u8>,
}

/// Relies on uuid's `Uuid::now_v7`: a fresh time-ordered identifier of 16
/// bytes. The value depends on the clock and on randomness; nothing else
/// is assumed of it.
#[verifier::external_body]
fn new_key_id() -> (r: Vec<u8>)
    ensures
        r@.len() == 16,
{
    uuid::Uuid::now_v7().as_bytes().to_vec()
}

/// Relies on rand's `OsRng`: 32 bytes from the operating system's secure
/// generator. Nothing is assumed of the value.
#[verifier::external_body]
fn random_secret() -> (r: Vec<u8>)
    ensures
        r@.len() == 32,
{
    let mut secret = [0u8; 32];
    rand::RngCore::fill_bytes(&mut rand::rngs::OsRng, &mut secret);
    secret.to_vec()
}

/// The token string spelled by an id and secret under a prefix: the
/// prefix, the version tag, and the lower-cased base32 payload.
pub open spec fn spec_token_string(prefix: Seq<char>, id: Seq<u8>, secret: Seq<u8>) -> Seq<char> {
    prefix + "_v1_"@ + chars_of_ascii(ascii_lower(base32_nopad_of(id + secret)))
}

/// Generate a new API key token.
pub fn generate(config: &ApiKeyConfig) -> (r: ApiKeyToken)
    ensures
        r.id@.len() == 16,
        exists|secret: Seq<u8>|
            secret.len() == 32 && r.token@ == spec_token_string(config.prefix@, r.id@, secret),
{
    let (token, _) = generate_with_data(config);
    token
}

/// Generate a new API key and return both the user token and the data to
/// store: the same secret is spelled into the token and hashed, with the
/// configured context bound in.
pub fn generate_with_data(config: &ApiKeyConfig) -> (r: (ApiKeyToken, ApiKeyData))
    ensures
        r.0.id@.len() == 16,
        r.1.id@ == r.0.id@,
        r.1.version == CURRENT_VERSION,
        r.1.secret_hash@.len() == 64,
        exists|secret: Seq<u8>|
            secret.len() == 32 && r.0.token@ == spec_token_string(config.prefix@, r.0.id@, secret)
                && r.1.secret_hash@ == sha3_512_of(
                spec_hash_message(
                    r.0.id@,
                    CURRENT_VERSION,
                    match config.context_id {
                        Some(c) => Some(c@),
                        None => None,
                    },
                    secret,
                ),
            ),
{
    let id = new_key_id();
    let secret = random_secret();
    let mut payload: Vec<u8> = Vec::new();
    crate::apikey::hash::extend_bytes(&mut payload, id.as_slice());
    crate::apikey::hash::extend_bytes(&mut payload, secret.as_slice());
    proof {
        assert(payload@ =~= id@ + secret@);
    }
    let encoded = base32_nopad_encode(payload.as_slice());
    let lowered = to_ascii_lower(encoded.as_slice());
    proof {
        assert forall|i: int| 0 <= i < lowered@.len() implies lowered@[i] < 128 by {
            assert(is_base32_symbol(encoded@[i]));
        }
    }
    let payload_text = ascii_to_string(lowered);
    let mut token = config.prefix.as_str().to_owned();
    token.append("_v1_");
    token.append(payload_text.as_str());
    proof {
        assert(payload_text@ =~= chars_of_ascii(ascii_lower(base32_nopad_of(id@ + secret@))));
        assert(token@ =~= spec_token_string(config.prefix@, id@, secret@));
    }
    let secret_hash = compute_hash(&id, CURRENT_VERSION, &config.context_id, &secret);
    let id_copy = vstd::slice::slice_to_vec(id.as_slice());
    let api_key_token = ApiKeyToken { token, id };
    let api_key_data = ApiKeyData::new(id_copy, secret_hash, CURRENT_VERSION);
    proof {
        assert(api_key_data.id@ =~= api_key_token.id@);
    }
    (api_key_token, api_key_data)
}

} // verus!

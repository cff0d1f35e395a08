//! Token verification against stored data, with constant-time hash
//! comparison.

use crate::apikey::config::ApiKeyConfig;
use crate::apikey::data::ApiKeyData;
use crate::apikey::error::ApiKeyError;
use crate::apikey::hash::{compute_hash, sha3_512_of, spec_hash_message};
use crate::apikey::parse::{
    parse, spec_parse_encoding_error, spec_parse_format_error, spec_parse_ok,
    spec_parse_prefix_error, spec_parse_version_error, spec_parsed_payload, ParsedToken,
};
use crate::strutil::bytes_eq;
use vstd::prelude::*;
use vstd::string::StringSliceAdditionalSpecFns;

verus! {

/// Relies on subtle's `ConstantTimeEq` for byte slices: the comparison
/// runs in time independent of the contents and returns whether the
/// slices are equal.
#[verifier::external_body]
fn hashes_equal(a: &[u8], b: &[u8]) -> (r: bool)
    ensures
        r == (a@ == b@),
{
    subtle::ConstantTimeEq::ct_eq(a, b).into()
}

/// A parsed token matches the stored data: same id, same version, and the
/// recomputed context-bound hash equals the stored one.
pub open spec fn spec_verify_parsed(
    id: Seq<u8>,
    version: i16,
    secret: Seq<u8>,
    stored: ApiKeyData,
    context_id: Option<Seq<u8>>,
) -> bool {
    &&& id == stored.id@
    &&& version == stored.version
    &&& sha3_512_of(spec_hash_message(id, version, context_id, secret)) == stored.secret_hash@
}

/// The configured context as a byte sequence.
pub open spec fn spec_context_of(config: ApiKeyConfig) -> Option<Seq<u8>> {
    match config.context_id {
        Some(c) => Some(c@),
        None => None,
    }
}

/// Verify a pre-parsed token against stored data.
pub fn verify_parsed(parsed: &ParsedToken, stored: &ApiKeyData, config: &ApiKeyConfig) -> (r:
    bool)
    ensures
        r == spec_verify_parsed(
            parsed.spec_id(),
            parsed.spec_version(),
            parsed.spec_secret(),
            *stored,
            spec_context_of(*config),
        ),
{
    if !bytes_eq(parsed.id.as_slice(), stored.id.as_slice()) {
        return false;
    }
    if parsed.version != stored.version {
        return false;
    }
    let computed = compute_hash(&parsed.id, parsed.version, &config.context_id, parsed.secret());
    hashes_equal(computed.as_slice(), stored.secret_hash.as_slice())
}

/// Verify a token string against stored data.
///
/// Parsing errors are returned as they are; a parsed token yields whether
/// it matches the stored hash.
pub fn verify(token: &str, stored: &ApiKeyData, config: &ApiKeyConfig) -> (r: Result<
    bool,
    ApiKeyError,
>)
    ensures
        ({
            let t = token.spec_bytes();
            let e = config.prefix@;
            match r {
                Ok(b) => spec_parse_ok(t, vstd::utf8::encode_utf8(e)) && b == spec_verify_parsed(
                    spec_parsed_payload(t).take(16),
                    crate::apikey::hash::CURRENT_VERSION,
                    spec_parsed_payload(t).skip(16),
                    *stored,
                    spec_context_of(*config),
                ),
                Err(err) => {
                    let eb = vstd::utf8::encode_utf8(e);
                    match err {
                        ApiKeyError::InvalidFormat => spec_parse_format_error(t, eb),
                        ApiKeyError::InvalidPrefix { .. } => spec_parse_prefix_error(t, eb),
                        ApiKeyError::UnsupportedVersion(v) => spec_parse_version_error(t, eb)
                            == Some(v),
                        ApiKeyError::InvalidEncoding => spec_parse_encoding_error(t, eb),
                        ApiKeyError::InvalidUuid => false,
                    }
                },
            }
        }),
{
    let parsed = match parse(token, config.prefix.as_str()) {
        Ok(p) => p,
        Err(e) => {
            return Err(e);
        },
    };
    Ok(verify_parsed(&parsed, stored, config))
}

} // verus!

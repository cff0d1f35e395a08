//! API-key hashing: SHA-256, hex-encoded.
//!
//! The digest itself comes from the `sha2` crate behind a trusted wrapper;
//! the hex encoding is verified here against an exact specification.

use crate::strutil::ascii_to_string;
use sha2::Digest;
use vstd::prelude::*;
use vstd::string::StringSliceAdditionalSpecFns;

verus! {

/// The SHA-256 digest of a byte sequence; a function of the bytes alone.
pub uninterp spec fn sha256_of(bytes: Seq<u8>) -> Seq<u8>;

/// Relies on sha2's `Sha256`: the digest depends on the input bytes alone
/// and is 32 bytes long.
#[verifier::external_body]
fn sha256_digest(bytes: &[u8]) -> (r: Vec<u8>)
    ensures
        r@ == sha256_of(bytes@),
        r@.len() == 32,
{
    let mut hasher = sha2::Sha256::new();
    hasher.update(bytes);
    hasher.finalize().to_vec()
}

/// The ASCII code of one lower-case hex digit.
pub open spec fn hex_digit(v: u8) -> u8
    recommends
        v < 16,
{
    if v < 10 {
        (v + 48) as u8
    } else {
        (v + 87) as u8
    }
}

/// Lower-case hex encoding: two digits for each byte, high nibble first.
pub open spec fn hex_of(bytes: Seq<u8>) -> Seq<char> {
    Seq::new(
        bytes.len() * 2,
        |i: int|
            (if i % 2 == 0 {
                hex_digit((bytes[i / 2] / 16) as u8)
            } else {
                hex_digit((bytes[i / 2] % 16) as u8)
            }) as char,
    )
}

/// One hex digit, as its ASCII code.
fn hex_digit_code(v: u8) -> (r: u8)
    requires
        v < 16,
    ensures
        r == hex_digit(v),
        r < 128,
{
    if v < 10 {
        v + 48
    } else {
        v + 87
    }
}

/// Hex-encode a byte slice, lower case.
pub fn to_hex(bytes: &[u8]) -> (r: String)
    ensures
        r@ == hex_of(bytes@),
        r@.len() == bytes@.len() * 2,
{
    let n = bytes.len();
    let mut out: Vec<u8> = Vec::new();
    let mut i: usize = 0;
    while i < n
        invariant
            n == bytes@.len(),
            i <= n,
            out@.len() == 2 * i,
            forall|j: int|
                0 <= j < 2 * i ==> #[trigger] out@[j] == (if j % 2 == 0 {
                    hex_digit((bytes@[j / 2] / 16) as u8)
                } else {
                    hex_digit((bytes@[j / 2] % 16) as u8)
                }) && out@[j] < 128,
        decreases n - i,
    {
        let b = bytes[i];
        out.push(hex_digit_code(b / 16));
        out.push(hex_digit_code(b % 16));
        i += 1;
    }
    let r = ascii_to_string(out);
    proof {
        assert(r@ =~= hex_of(bytes@));
    }
    r
}

/// Hash an API key with SHA-256 and hex-encode it: the lookup hash that the
/// account store keys on.
pub fn hash_api_key(api_key: &str) -> (r: String)
    ensures
        r@ == hex_of(sha256_of(api_key.spec_bytes())),
        r@.len() == 64,
{
    let digest = sha256_digest(api_key.as_bytes());
    to_hex(digest.as_slice())
}

} // verus!

//! SHA3-512 hashing of API key secrets with context binding.

use sha3::Digest;
use vstd::prelude::*;

verus! {

/// Current version of the hashing algorithm.
pub const CURRENT_VERSION: i16 = 1;

/// The SHA3-512 digest of a byte sequence; a function of the bytes alone.
pub uninterp spec fn sha3_512_of(bytes: Seq<u8>) -> Seq<u8>;

/// Relies on sha3's `Sha3_512`: the digest depends on the input bytes alone
/// and is 64 bytes long.
#[verifier::external_body]
fn sha3_512_digest(bytes: &[u8]) -> (r: Vec<u8>)
    ensures
        r@ == sha3_512_of(bytes@),
        r@.len() == 64,
{
    let mut hasher = sha3::Sha3_512::new();
    hasher.update(bytes);
    hasher.finalize().to_vec()
}

/// The two little-endian bytes of a version number.
pub open spec fn spec_version_le(version: i16) -> Seq<u8> {
    seq![(version as u16 % 256) as u8, (version as u16 / 256) as u8]
}

/// The message whose digest is stored for a key: the id, the version in
/// little-endian bytes, the optional context, and the secret last.
pub open spec fn spec_hash_message(
    id: Seq<u8>,
    version: i16,
    context_id: Option<Seq<u8>>,
    secret: Seq<u8>,
) -> Seq<u8> {
    id + spec_version_le(version) + (match context_id {
        Some(c) => c,
        None => Seq::<u8>::empty(),
    }) + secret
}

/// Append a byte slice to a buffer.
pub(crate) fn extend_bytes(out: &mut Vec<u8>, src: &[u8])
    ensures
        final(out)@ == old(out)@ + src@,
{
    let n = src.len();
    let mut i: usize = 0;
    while i < n
        invariant
            n == src@.len(),
            i <= n,
            out@ == old(out)@ + src@.take(i as int),
        decreases n - i,
    {
        out.push(src[i]);
        proof {
            assert(out@ =~= old(out)@ + src@.take(i as int + 1));
        }
        i += 1;
    }
    proof {
        assert(out@ =~= old(out)@ + src@);
    }
}

/// Compute the stored hash for an API key.
///
/// The digest covers the key id (so hashes cannot be swapped between
/// keys), the algorithm version, the optional context, and the secret
/// last.
pub fn compute_hash(
    id: &Vec<u8>,
    version: i16,
    context_id: &Option<Vec<u8>>,
    secret: &Vec<u8>,
) -> (r: Vec<u8>)
    ensures
        r@ == sha3_512_of(
            spec_hash_message(
                id@,
                version,
                match context_id {
                    Some(c) => Some(c@),
                    None => None,
                },
                secret@,
            ),
        ),
        r@.len() == 64,
{
    let mut message: Vec<u8> = Vec::new();
    extend_bytes(&mut message, id.as_slice());
    let version_bits = version as u16;
    message.push((version_bits % 256) as u8);
    message.push((version_bits / 256) as u8);
    match context_id {
        Some(c) => extend_bytes(&mut message, c.as_slice()),
        None => {},
    }
    extend_bytes(&mut message, secret.as_slice());
    proof {
        assert(message@ =~= spec_hash_message(
            id@,
            version,
            match context_id {
                Some(c) => Some(c@),
                None => None,
            },
            secret@,
        ));
    }
    sha3_512_digest(message.as_slice())
}

} // verus!

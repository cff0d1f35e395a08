//! The token payload codec: base32 without padding, and the ASCII case
//! folding applied around it. Tokens are written lower case; the base32
//! alphabet is upper case.

use vstd::prelude::*;

verus! {

/// The base32 (RFC 4648, no padding) encoding of a byte sequence, as the
/// ASCII codes of its upper-case symbols; a function of the bytes alone.
pub uninterp spec fn base32_nopad_of(bytes: Seq<u8>) -> Seq<u8>;

/// What the base32 decoder accepts, and the bytes it returns; a function
/// of the input alone.
pub uninterp spec fn base32_nopad_decoded(symbols: Seq<u8>) -> Option<Seq<u8>>;

/// An upper-case base32 symbol.
pub open spec fn is_base32_symbol(b: u8) -> bool {
    (65 <= b <= 90) || (50 <= b <= 55)
}

/// Relies on data_encoding's `BASE32_NOPAD.encode`: the output length is
/// `ceil(8n/5)`, every output byte is an upper-case base32 symbol, and
/// decoding the output returns the input (the crate's encodings are
/// correct and canonical).
#[verifier::external_body]
pub(crate) fn base32_nopad_encode(bytes: &[u8]) -> (r: Vec<u8>)
    ensures
        r@ == base32_nopad_of(bytes@),
        r@.len() == (bytes@.len() * 8 + 4) / 5,
        forall|i: int| 0 <= i < r@.len() ==> is_base32_symbol(#[trigger] r@[i]),
        base32_nopad_decoded(r@) == Some(bytes@),
{
    data_encoding::BASE32_NOPAD.encode(bytes).into_bytes()
}

/// Relies on data_encoding's `BASE32_NOPAD.decode`: it returns bytes
/// exactly when the input is a valid encoding, and which bytes depends on
/// the input alone.
#[verifier::external_body]
pub(crate) fn base32_nopad_decode(symbols: &[u8]) -> (r: Option<Vec<u8>>)
    ensures
        match r {
            Some(v) => base32_nopad_decoded(symbols@) == Some(v@),
            None => base32_nopad_decoded(symbols@) is None,
        },
{
    match data_encoding::BASE32_NOPAD.decode(symbols) {
        Ok(v) => Some(v),
        Err(_) => None,
    }
}

/// ASCII lower-casing of one byte.
pub open spec fn ascii_lower_byte(b: u8) -> u8 {
    if 65 <= b <= 90 {
        (b + 32) as u8
    } else {
        b
    }
}

/// ASCII upper-casing of one byte.
pub open spec fn ascii_upper_byte(b: u8) -> u8 {
    if 97 <= b <= 122 {
        (b - 32) as u8
    } else {
        b
    }
}

/// ASCII lower-casing of a byte sequence.
pub open spec fn ascii_lower(s: Seq<u8>) -> Seq<u8> {
    Seq::new(s.len(), |i: int| ascii_lower_byte(s[i]))
}

/// ASCII upper-casing of a byte sequence.
pub open spec fn ascii_upper(s: Seq<u8>) -> Seq<u8> {
    Seq::new(s.len(), |i: int| ascii_upper_byte(s[i]))
}

/// Lower-case a byte string, ASCII-wise.
pub fn to_ascii_lower(s: &[u8]) -> (r: Vec<u8>)
    ensures
        r@ == ascii_lower(s@),
{
    let n = s.len();
    let mut out: Vec<u8> = Vec::new();
    let mut i: usize = 0;
    while i < n
        invariant
            n == s@.len(),
            i <= n,
            out@ == ascii_lower(s@).take(i as int),
        decreases n - i,
    {
        let b = s[i];
        if 65 <= b && b <= 90 {
            out.push(b + 32);
        } else {
            out.push(b);
        }
        proof {
            assert(out@ =~= ascii_lower(s@).take(i as int + 1));
        }
        i += 1;
    }
    proof {
        assert(out@ =~= ascii_lower(s@));
    }
    out
}

/// Upper-case a byte string, ASCII-wise.
pub fn to_ascii_upper(s: &[u8]) -> (r: Vec<u8>)
    ensures
        r@ == ascii_upper(s@),
{
    let n = s.len();
    let mut out: Vec<u8> = Vec::new();
    let mut i: usize = 0;
    while i < n
        invariant
            n == s@.len(),
            i <= n,
            out@ == ascii_upper(s@).take(i as int),
        decreases n - i,
    {
        let b = s[i];
        if 97 <= b && b <= 122 {
            out.push(b - 32);
        } else {
            out.push(b);
        }
        proof {
            assert(out@ =~= ascii_upper(s@).take(i as int + 1));
        }
        i += 1;
    }
    proof {
        assert(out@ =~= ascii_upper(s@));
    }
    out
}

} // verus!

//! Token parsing: `{prefix}_v{version}_{base32(id || secret)}`.

use crate::apikey::codec::{ascii_upper, base32_nopad_decode, base32_nopad_decoded, to_ascii_upper};
use crate::apikey::error::ApiKeyError;
use crate::apikey::hash::CURRENT_VERSION;
use crate::strutil::{bytes_eq, lemma_ascii_char_boundary};
use vstd::prelude::*;
use vstd::slice::slice_to_vec;
use vstd::string::StringSliceAdditionalSpecFns;
use vstd::utf8::{decode_utf8, encode_utf8_decode_utf8, encode_utf8_valid_utf8};

verus! {

/// Parsed components of a token string.
#[derive(Debug)]
pub struct ParsedToken {
    /// The 16-byte identifier.
    pub id: Vec<u8>,
    /// Algorithm version.
    pub version: i16,
    pub secret: Vec<u8>,
}

impl ParsedToken {
    /// The identifier bytes.
    pub open spec fn spec_id(&self) -> Seq<u8> {
        self.id@
    }

    /// The parsed version number.
    pub open spec fn spec_version(&self) -> i16 {
        self.version
    }

    /// The 32 secret bytes.
    pub open spec fn spec_secret(&self) -> Seq<u8> {
        self.secret@
    }

    /// A reference to the secret bytes.
    pub fn secret(&self) -> (r: &Vec<u8>)
        ensures
            r@ == self.spec_secret(),
    {
        &self.secret
    }
}

/// The number of occurrences of a byte.
pub open spec fn spec_count_byte(s: Seq<u8>, b: u8) -> int
    decreases s.len(),
{
    if s.len() == 0 {
        0
    } else {
        spec_count_byte(s.drop_last(), b) + (if s.last() == b {
            1int
        } else {
            0
        })
    }
}

/// The first position of a byte.
pub open spec fn spec_find_byte(s: Seq<u8>, b: u8) -> Option<int>
    decreases s.len(),
{
    if s.len() == 0 {
        None
    } else if s[0] == b {
        Some(0 as int)
    } else {
        match spec_find_byte(s.drop_first(), b) {
            Some(i) => Some(i + 1),
            None => None,
        }
    }
}

/// What the first position is: an occurrence with none before it, or no
/// occurrence at all.
pub proof fn lemma_find_byte_first(s: Seq<u8>, b: u8)
    ensures
        match spec_find_byte(s, b) {
            Some(i) => 0 <= i < s.len() && s[i] == b && forall|j: int|
                0 <= j < i ==> s[j] != b,
            None => forall|j: int| 0 <= j < s.len() ==> s[j] != b,
        },
    decreases s.len(),
{
    if s.len() > 0 && s[0] != b {
        let t = s.drop_first();
        lemma_find_byte_first(t, b);
        assert(forall|j: int| 0 <= j < t.len() ==> t[j] == s[j + 1]);
        match spec_find_byte(t, b) {
            Some(i) => {
                assert forall|j: int| 0 <= j < i + 1 implies s[j] != b by {
                    if j > 0 {
                        assert(t[j - 1] == s[j]);
                    }
                }
            },
            None => {
                assert forall|j: int| 0 <= j < s.len() implies s[j] != b by {
                    if j > 0 {
                        assert(t[j - 1] == s[j]);
                    }
                }
            },
        }
    }
}

/// The three `_`-separated parts of a token that holds exactly two
/// separators.
pub open spec fn spec_token_parts(t: Seq<u8>) -> Option<(Seq<u8>, Seq<u8>, Seq<u8>)> {
    if spec_count_byte(t, 95) == 2 {
        let p1 = spec_find_byte(t, 95).unwrap();
        let p2 = p1 + 1 + spec_find_byte(t.skip(p1 + 1), 95).unwrap();
        Some((t.take(p1), t.subrange(p1 + 1, p2), t.skip(p2 + 1)))
    } else {
        None
    }
}

/// An ASCII decimal digit.
pub open spec fn is_ascii_digit(b: u8) -> bool {
    48 <= b <= 57
}

/// Every byte is a digit.
pub open spec fn all_digits(s: Seq<u8>) -> bool {
    forall|i: int| 0 <= i < s.len() ==> is_ascii_digit(#[trigger] s[i])
}

/// The value of a digit string.
pub open spec fn spec_digits_val(s: Seq<u8>) -> int
    decreases s.len(),
{
    if s.len() == 0 {
        0
    } else {
        spec_digits_val(s.drop_last()) * 10 + (s.last() - 48)
    }
}

/// Digit strings have non-negative values that only grow with more digits.
pub proof fn lemma_digits_val_monotone(s: Seq<u8>)
    requires
        all_digits(s),
    ensures
        spec_digits_val(s) >= 0,
        forall|i: int| 0 <= i <= s.len() ==> spec_digits_val(#[trigger] s.take(i)) <= spec_digits_val(s),
    decreases s.len(),
{
    if s.len() > 0 {
        let t = s.drop_last();
        assert(all_digits(t));
        lemma_digits_val_monotone(t);
        assert forall|i: int| 0 <= i <= s.len() implies spec_digits_val(#[trigger] s.take(i))
            <= spec_digits_val(s) by {
            if i < s.len() {
                assert(s.take(i) =~= t.take(i));
            } else {
                assert(s.take(i) =~= s);
            }
        }
    }
}

/// How `i16` reads a decimal string: an optional sign, at least one digit,
/// and a range check.
pub open spec fn spec_parse_i16(s: Seq<u8>) -> Option<i16> {
    let has_sign = s.len() > 0 && (s[0] == 43 || s[0] == 45);
    let negative = s.len() > 0 && s[0] == 45;
    let digits = if has_sign {
        s.drop_first()
    } else {
        s
    };
    if digits.len() == 0 || !all_digits(digits) {
        None
    } else {
        let v = if negative {
            -spec_digits_val(digits)
        } else {
            spec_digits_val(digits)
        };
        if -32768 <= v <= 32767 {
            Some(v as i16)
        } else {
            None
        }
    }
}

/// The version part of a token: a `v` followed by a decimal number.
pub open spec fn spec_version_of(s: Seq<u8>) -> Option<i16> {
    if s.len() >= 1 && s[0] == 118 {
        spec_parse_i16(s.drop_first())
    } else {
        None
    }
}

/// Read an `i16` from decimal bytes, as `str::parse` would.
fn parse_i16_bytes(s: &[u8]) -> (r: Option<i16>)
    ensures
        r == spec_parse_i16(s@),
{
    let n = s.len();
    if n == 0 {
        return None;
    }
    let first = s[0];
    let negative = first == 45;
    let start: usize = if first == 43 || first == 45 {
        1
    } else {
        0
    };
    if n == start {
        return None;
    }
    let ghost digits = if start == 1 {
        s@.drop_first()
    } else {
        s@
    };
    proof {
        assert(digits =~= s@.subrange(start as int, n as int));
    }
    let mut acc: i64 = 0;
    let mut i: usize = start;
    while i < n
        invariant
            n == s@.len(),
            start <= i <= n,
            start <= 1,
            n > start,
            negative == (s@[0] == 45),
            (start == 1) == (s@[0] == 43 || s@[0] == 45),
            digits == s@.subrange(start as int, n as int),
            forall|j: int| start <= j < i ==> is_ascii_digit(#[trigger] s@[j]),
            acc == spec_digits_val(s@.subrange(start as int, i as int)),
            0 <= acc <= 32768,
        decreases n - i,
    {
        let b = s[i];
        if b < 48 || b > 57 {
            proof {
                assert(digits[i - start] == s@[i as int]);
                assert(!all_digits(digits));
            }
            return None;
        }
        acc = acc * 10 + (b - 48) as i64;
        proof {
            assert(s@.subrange(start as int, i as int + 1).drop_last() =~= s@.subrange(
                start as int,
                i as int,
            ));
        }
        i += 1;
        if acc > 32768 {
            proof {
                if all_digits(digits) {
                    lemma_digits_val_monotone(digits);
                    assert(digits.take(i as int - start as int) =~= s@.subrange(
                        start as int,
                        i as int,
                    ));
                    assert(spec_digits_val(digits) >= spec_digits_val(
                        digits.take(i as int - start as int),
                    ));
                    assert(spec_digits_val(digits) > 32768);
                }
                if start == 1 {
                    assert(s@.drop_first() =~= s@.subrange(1 as int, n as int));
                } else {
                    assert(s@ =~= s@.subrange(0 as int, n as int));
                }
                assert(spec_parse_i16(s@) is None);
            }
            return None;
        }
    }
    proof {
        assert(digits =~= s@.subrange(start as int, n as int));
        assert(forall|j: int|
            0 <= j < digits.len() ==> digits[j] == s@[j + start] && is_ascii_digit(
                #[trigger] digits[j],
            ));
    }
    let v: i64 = if negative {
        -acc
    } else {
        acc
    };
    if v < -32768 || v > 32767 {
        return None;
    }
    Some(v as i16)
}

/// The token is well formed with the expected prefix, a supported version
/// and a 48-byte payload.
pub open spec fn spec_parse_ok(t: Seq<u8>, e: Seq<u8>) -> bool {
    &&& spec_token_parts(t) matches Some(parts)
    &&& spec_token_parts(t).unwrap().0 == e
    &&& spec_version_of(spec_token_parts(t).unwrap().1) == Some(CURRENT_VERSION)
    &&& base32_nopad_decoded(ascii_upper(spec_token_parts(t).unwrap().2)) matches Some(pl)
    &&& base32_nopad_decoded(ascii_upper(spec_token_parts(t).unwrap().2)).unwrap().len() == 48
}

/// The decoded 48-byte payload of a well-formed token.
pub open spec fn spec_parsed_payload(t: Seq<u8>) -> Seq<u8> {
    base32_nopad_decoded(ascii_upper(spec_token_parts(t).unwrap().2)).unwrap()
}

/// The token's shape is wrong: not three parts, a bad version number after
/// a correct prefix, or a payload of the wrong size.
pub open spec fn spec_parse_format_error(t: Seq<u8>, e: Seq<u8>) -> bool {
    ||| spec_token_parts(t) is None
    ||| (spec_token_parts(t) matches Some(parts) && parts.0 == e && spec_version_of(parts.1)
        is None)
    ||| ({
        &&& spec_token_parts(t) matches Some(parts)
        &&& parts.0 == e
        &&& spec_version_of(parts.1) == Some(CURRENT_VERSION)
        &&& base32_nopad_decoded(ascii_upper(parts.2)) matches Some(pl)
        &&& pl.len() != 48
    })
}

/// The token splits but its prefix is not the expected one.
pub open spec fn spec_parse_prefix_error(t: Seq<u8>, e: Seq<u8>) -> bool {
    spec_token_parts(t) matches Some(parts) && parts.0 != e
}

/// The version that parsed but is unsupported, if that is the failure.
pub open spec fn spec_parse_version_error(t: Seq<u8>, e: Seq<u8>) -> Option<i16> {
    if ({
        &&& spec_token_parts(t) matches Some(parts)
        &&& parts.0 == e
        &&& spec_version_of(parts.1) matches Some(v)
        &&& v != CURRENT_VERSION
    }) {
        spec_version_of(spec_token_parts(t).unwrap().1)
    } else {
        None
    }
}

/// Everything before the payload is fine but the payload is not base32.
pub open spec fn spec_parse_encoding_error(t: Seq<u8>, e: Seq<u8>) -> bool {
    spec_token_parts(t) matches Some(parts) && parts.0 == e && spec_version_of(parts.1) == Some(
        CURRENT_VERSION,
    ) && base32_nopad_decoded(ascii_upper(parts.2)) is None
}

/// Parse a token string into its components.
///
/// The token must split into exactly three `_`-separated parts; the prefix
/// must match; the version must read as the supported one; the payload,
/// upper-cased, must decode as base32 into 16 identifier bytes followed by
/// 32 secret bytes.
pub fn parse(token: &str, expected_prefix: &str) -> (r: Result<ParsedToken, ApiKeyError>)
    ensures
        ({
            let t = token.spec_bytes();
            let e = expected_prefix.spec_bytes();
            match r {
                Ok(p) => spec_parse_ok(t, e) && p.spec_version() == CURRENT_VERSION
                    && p.spec_id() == spec_parsed_payload(t).take(16) && p.spec_secret()
                    == spec_parsed_payload(t).skip(16),
                Err(err) => match err {
                    ApiKeyError::InvalidFormat => spec_parse_format_error(t, e),
                    ApiKeyError::InvalidPrefix { expected, got } => spec_parse_prefix_error(t, e)
                        && expected@ == expected_prefix@ && got@ == decode_utf8(
                        spec_token_parts(t).unwrap().0,
                    ),
                    ApiKeyError::UnsupportedVersion(v) => spec_parse_version_error(t, e) == Some(
                        v,
                    ),
                    ApiKeyError::InvalidEncoding => spec_parse_encoding_error(t, e),
                    ApiKeyError::InvalidUuid => false,
                },
            }
        }),
{
    let tb = token.as_bytes();
    let n = tb.len();
    let mut count: usize = 0;
    let mut p1: usize = 0;
    let mut p2: usize = 0;
    let mut i: usize = 0;
    while i < n
        invariant
            tb@ == token.spec_bytes(),
            n == tb@.len(),
            i <= n,
            count <= i,
            count == spec_count_byte(tb@.take(i as int), 95),
            count == 0 ==> forall|j: int| 0 <= j < i ==> tb@[j] != 95,
            count >= 1 ==> p1 < i && tb@[p1 as int] == 95 && forall|j: int|
                0 <= j < p1 ==> tb@[j] != 95,
            count == 1 ==> forall|j: int| p1 < j < i ==> tb@[j] != 95,
            count >= 2 ==> p1 < p2 < i && tb@[p2 as int] == 95 && forall|j: int|
                p1 < j < p2 ==> tb@[j] != 95,
        decreases n - i,
    {
        proof {
            assert(tb@.take(i as int + 1).drop_last() =~= tb@.take(i as int));
        }
        if tb[i] == 95 {
            if count == 0 {
                p1 = i;
            } else if count == 1 {
                p2 = i;
            }
            count = count + 1;
        }
        i += 1;
    }
    proof {
        assert(tb@.take(n as int) =~= tb@);
    }
    if count != 2 {
        return Err(ApiKeyError::InvalidFormat);
    }
    proof {
        lemma_find_byte_first(tb@, 95);
        assert(spec_find_byte(tb@, 95) == Some(p1 as int));
        let t2 = tb@.skip(p1 as int + 1);
        lemma_find_byte_first(t2, 95);
        assert(t2[p2 as int - p1 - 1] == tb@[p2 as int]);
        assert forall|j: int| 0 <= j < p2 as int - p1 - 1 implies t2[j] != 95 by {
            assert(t2[j] == tb@[p1 + 1 + j]);
        }
        assert(spec_find_byte(t2, 95) == Some(p2 as int - p1 - 1));
    }
    let ghost parts = spec_token_parts(token.spec_bytes()).unwrap();
    proof {
        assert(parts.0 =~= tb@.take(p1 as int));
        assert(parts.1 =~= tb@.subrange(p1 as int + 1, p2 as int));
        assert(parts.2 =~= tb@.skip(p2 as int + 1));
    }
    let prefix_bytes = &tb[0..p1];
    if !bytes_eq(prefix_bytes, expected_prefix.as_bytes()) {
        proof {
            encode_utf8_valid_utf8(token@);
            lemma_ascii_char_boundary(token.spec_bytes(), p1 as int);
        }
        let pieces = token.split_at(p1);
        proof {
            encode_utf8_decode_utf8(pieces.0@);
            assert(pieces.0.spec_bytes() == parts.0);
            assert(pieces.0@ == decode_utf8(parts.0));
        }
        return Err(
            ApiKeyError::InvalidPrefix {
                expected: expected_prefix.to_owned(),
                got: pieces.0.to_owned(),
            },
        );
    }
    let version_bytes = &tb[p1 + 1..p2];
    if version_bytes.len() == 0 || version_bytes[0] != 118 {
        return Err(ApiKeyError::InvalidFormat);
    }
    let number_bytes = &tb[p1 + 2..p2];
    proof {
        assert(number_bytes@ =~= parts.1.drop_first());
    }
    let version = match parse_i16_bytes(number_bytes) {
        Some(v) => v,
        None => {
            return Err(ApiKeyError::InvalidFormat);
        },
    };
    if version != CURRENT_VERSION {
        return Err(ApiKeyError::UnsupportedVersion(version));
    }
    let payload_bytes = &tb[p2 + 1..n];
    let upper = to_ascii_upper(payload_bytes);
    let payload = match base32_nopad_decode(upper.as_slice()) {
        Some(p) => p,
        None => {
            return Err(ApiKeyError::InvalidEncoding);
        },
    };
    if payload.len() != 48 {
        return Err(ApiKeyError::InvalidFormat);
    }
    let id = slice_to_vec(&payload.as_slice()[0..16]);
    let secret = slice_to_vec(&payload.as_slice()[16..48]);
    proof {
        assert(id@ =~= spec_parsed_payload(token.spec_bytes()).take(16));
        assert(secret@ =~= spec_parsed_payload(token.spec_bytes()).skip(16));
    }
    Ok(ParsedToken { id, version, secret })
}

} // verus!

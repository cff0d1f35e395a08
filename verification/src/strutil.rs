//! Verified string primitives: equality and byte-prefix tests.
//!
//! Verus specifies `String == String`, but comparisons between `&str` values
//! and literals are needed throughout (change-log table names, route
//! prefixes). They are done here over the UTF-8 bytes, with the conclusions
//! lifted to the character view where that is sound.

use vstd::prelude::*;
use vstd::string::StringSliceAdditionalSpecFns;
use vstd::string::StringExecFns;
use vstd::utf8::encode_utf8_decode_utf8;

verus! {

/// One byte sequence starts with another.
pub open spec fn bytes_prefix_of(prefix: Seq<u8>, s: Seq<u8>) -> bool {
    prefix.len() <= s.len() && s.take(prefix.len() as int) == prefix
}

/// Byte-for-byte slice equality.
pub fn bytes_eq(a: &[u8], b: &[u8]) -> (r: bool)
    ensures
        r == (a@ == b@),
{
    if a.len() != b.len() {
        assert(a@.len() != b@.len());
        return false;
    }
    let n = a.len();
    let mut i: usize = 0;
    while i < n
        invariant
            n == a@.len() == b@.len(),
            i <= n,
            forall|j: int| 0 <= j < i ==> a@[j] == b@[j],
        decreases n - i,
    {
        if a[i] != b[i] {
            return false;
        }
        i += 1;
    }
    proof {
        assert(a@ =~= b@);
    }
    true
}

/// String equality over the character view.
pub fn str_eq(a: &str, b: &str) -> (r: bool)
    ensures
        r == (a@ == b@),
{
    let r = bytes_eq(a.as_bytes(), b.as_bytes());
    proof {
        encode_utf8_decode_utf8(a@);
        encode_utf8_decode_utf8(b@);
    }
    r
}

/// Whether the UTF-8 bytes of `s` start with those of `prefix`.
pub fn str_starts_with(s: &str, prefix: &str) -> (r: bool)
    ensures
        r == bytes_prefix_of(prefix.spec_bytes(), s.spec_bytes()),
{
    let sb = s.as_bytes();
    let pb = prefix.as_bytes();
    if pb.len() > sb.len() {
        return false;
    }
    let n = pb.len();
    let mut i: usize = 0;
    while i < n
        invariant
            sb@ == s.spec_bytes(),
            pb@ == prefix.spec_bytes(),
            n == pb@.len(),
            n <= sb@.len(),
            i <= n,
            forall|j: int| 0 <= j < i ==> sb@[j] == pb@[j],
        decreases n - i,
    {
        if sb[i] != pb[i] {
            assert(s.spec_bytes().take(n as int)[i as int] != prefix.spec_bytes()[i as int]);
            return false;
        }
        i += 1;
    }
    proof {
        assert(sb@.take(n as int) =~= pb@);
    }
    true
}

/// Relies on `String::from_utf8`: bytes below 128 are valid UTF-8 and decode
/// to the code points they spell.
#[verifier::external_body]
pub(crate) fn ascii_to_string(bytes: Vec<u8>) -> (r: String)
    requires
        forall|i: int| 0 <= i < bytes@.len() ==> bytes@[i] < 128,
    ensures
        r@.len() == bytes@.len(),
        forall|i: int| 0 <= i < bytes@.len() ==> r@[i] == bytes@[i] as char,
{
    String::from_utf8(bytes).unwrap()
}

/// A byte sequence read as the characters its ASCII codes spell.
pub open spec fn chars_of_ascii(s: Seq<u8>) -> Seq<char> {
    Seq::new(s.len(), |i: int| s[i] as char)
}

/// The minimal decimal digits of a number, as ASCII codes.
pub open spec fn spec_dec_bytes(v: nat) -> Seq<u8>
    decreases v,
{
    if v < 10 {
        seq![(48 + v) as u8]
    } else {
        spec_dec_bytes((v / 10) as nat).push((48 + v % 10) as u8)
    }
}

/// Decimal digits are ASCII.
pub proof fn lemma_dec_bytes_ascii(v: nat)
    ensures
        spec_dec_bytes(v).len() >= 1,
        forall|i: int| 0 <= i < spec_dec_bytes(v).len() ==> 48 <= #[trigger] spec_dec_bytes(v)[i] <= 57,
    decreases v,
{
    if v >= 10 {
        lemma_dec_bytes_ascii((v / 10) as nat);
    }
}

/// A number written in decimal.
pub open spec fn spec_nat_string(v: nat) -> Seq<char> {
    chars_of_ascii(spec_dec_bytes(v))
}

/// A signed number written in decimal.
pub open spec fn spec_int_string(v: int) -> Seq<char> {
    if v < 0 {
        "-"@ + spec_nat_string((-v) as nat)
    } else {
        spec_nat_string(v as nat)
    }
}

/// Append the minimal decimal form of `v` to a byte buffer.
fn push_dec_bytes(out: &mut Vec<u8>, v: u64)
    ensures
        final(out)@ == old(out)@ + spec_dec_bytes(v as nat),
    decreases v,
{
    if v < 10 {
        out.push(48 + v as u8);
        proof {
            assert(final(out)@ =~= old(out)@ + spec_dec_bytes(v as nat));
        }
    } else {
        push_dec_bytes(out, v / 10);
        out.push(48 + (v % 10) as u8);
        proof {
            assert(final(out)@ =~= old(out)@ + spec_dec_bytes(v as nat));
        }
    }
}

/// A number written in decimal.
pub fn u64_to_string(v: u64) -> (r: String)
    ensures
        r@ == spec_nat_string(v as nat),
{
    let mut digits: Vec<u8> = Vec::new();
    push_dec_bytes(&mut digits, v);
    proof {
        lemma_dec_bytes_ascii(v as nat);
    }
    let r = ascii_to_string(digits);
    proof {
        assert(r@ =~= spec_nat_string(v as nat));
    }
    r
}

/// A signed number written in decimal.
pub fn isize_to_string(v: isize) -> (r: String)
    ensures
        r@ == spec_int_string(v as int),
{
    if v >= 0 {
        u64_to_string(v as u64)
    } else {
        let magnitude = (-(v as i128)) as u64;
        let mut r = "-".to_owned();
        r.append(u64_to_string(magnitude).as_str());
        proof {
            assert(r@ =~= spec_int_string(v as int));
        }
        r
    }
}

/// In valid UTF-8, the end of the bytes and any position holding an ASCII
/// byte lie on character boundaries.
pub proof fn lemma_ascii_char_boundary(bytes: Seq<u8>, i: int)
    requires
        vstd::utf8::valid_utf8(bytes),
        0 <= i <= bytes.len(),
        i == bytes.len() || bytes[i] < 128,
    ensures
        vstd::utf8::is_char_boundary(bytes, i),
    decreases bytes.len(),
{
    if i > 0 {
        let k = vstd::utf8::length_of_first_scalar(bytes);
        assert(vstd::utf8::valid_first_scalar(bytes));
        assert(1 <= k <= 4);
        if i >= k {
            let rest = vstd::utf8::pop_first_scalar(bytes);
            assert(rest =~= bytes.subrange(k, bytes.len() as int));
            if i < bytes.len() {
                assert(rest[i - k] == bytes[i]);
            }
            lemma_ascii_char_boundary(rest, i - k);
        } else {
            assert(vstd::utf8::is_continuation_byte(bytes[i]));
            assert(false);
        }
    }
}

} // verus!

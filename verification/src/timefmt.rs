//! Wall-clock access and the UTC hour label used in snapshot file names.
//!
//! The calendar arithmetic comes from `chrono` behind a trusted wrapper; the
//! digit formatting of `usage-YYYYMMDDHH.db` is verified here.

use crate::strutil::chars_of_ascii;
use chrono::{Datelike, Timelike};
use vstd::prelude::*;
use vstd::string::StringExecFns;

verus! {

/// Timestamps strictly below this bound (the first second of the year
/// 10000) have a four-digit UTC year, so their hour has a snapshot file
/// name.
pub const MAX_NAMED_SECOND: i64 = 253402300800;

/// Relies on std::time::SystemTime: seconds since the Unix epoch. Nothing
/// is assumed of the value except that it is clamped into the range whose
/// hours can be named.
#[verifier::external_body]
pub fn now_unix_secs() -> (r: i64)
    ensures
        0 <= r < 253402300800,
{
    let secs = std::time::SystemTime::now()
        .duration_since(std::time::UNIX_EPOCH)
        .map(|d| d.as_secs())
        .unwrap_or(0);
    i64::try_from(secs.min(253402300799)).unwrap_or(0)
}

/// The UTC calendar parts `(year, month, day, hour)` of a Unix timestamp; a
/// function of the timestamp alone.
pub uninterp spec fn utc_parts_of(ts: int) -> (int, int, int, int);

/// Relies on chrono's `DateTime::<Utc>::from_timestamp` and the `Datelike` /
/// `Timelike` accessors: timestamps through the year 9999 are in range, the
/// epoch is 1970-01-01, months run 1 to 12, days 1 to 31, hours 0 to 23.
#[verifier::external_body]
fn utc_calendar(ts: i64) -> (r: (i32, u32, u32, u32))
    requires
        0 <= ts < MAX_NAMED_SECOND,
    ensures
        (r.0 as int, r.1 as int, r.2 as int, r.3 as int) == utc_parts_of(ts as int),
        1970 <= r.0 <= 9999,
        1 <= r.1 <= 12,
        1 <= r.2 <= 31,
        r.3 <= 23,
{
    let dt = chrono::DateTime::<chrono::Utc>::from_timestamp(ts, 0).unwrap();
    (dt.year(), dt.month(), dt.day(), dt.hour())
}

/// The last `width` decimal digits of `v`, zero-padded, as ASCII codes.
pub open spec fn dec_digits(v: int, width: nat) -> Seq<u8>
    decreases width,
{
    if width == 0 {
        Seq::empty()
    } else {
        dec_digits(v / 10, (width - 1) as nat).push((48 + (v % 10)) as u8)
    }
}

/// Decimal digits are ASCII.
pub proof fn lemma_dec_digits_ascii(v: int, width: nat)
    requires
        v >= 0,
    ensures
        dec_digits(v, width).len() == width,
        forall|i: int| 0 <= i < width ==> 48 <= #[trigger] dec_digits(v, width)[i] <= 57,
    decreases width,
{
    if width > 0 {
        lemma_dec_digits_ascii(v / 10, (width - 1) as nat);
    }
}

/// Append the zero-padded decimal form of `v` to a byte buffer.
fn push_dec(out: &mut Vec<u8>, v: u64, width: usize)
    ensures
        final(out)@ == old(out)@ + dec_digits(v as int, width as nat),
    decreases width,
{
    if width == 0 {
        proof {
            assert(final(out)@ =~= old(out)@ + dec_digits(v as int, 0));
        }
    } else {
        push_dec(out, v / 10, width - 1);
        out.push(48 + (v % 10) as u8);
        proof {
            assert(final(out)@ =~= old(out)@ + dec_digits(v as int, width as nat));
        }
    }
}

/// The `YYYYMMDDHH` label of the hour containing `ts`, in UTC.
pub open spec fn spec_hour_label(ts: int) -> Seq<char> {
    let (y, mo, d, h) = utc_parts_of(ts);
    chars_of_ascii(
        dec_digits(y, 4) + dec_digits(mo, 2) + dec_digits(d, 2) + dec_digits(h, 2),
    )
}

/// The snapshot file name for the hour containing `ts`: `usage-YYYYMMDDHH.db`.
pub open spec fn spec_db_filename(ts: int) -> Seq<char> {
    "usage-"@ + spec_hour_label(ts) + ".db"@
}

/// Format the snapshot file name for the hour containing `ts`.
pub fn db_filename(ts: i64) -> (r: String)
    requires
        0 <= ts < MAX_NAMED_SECOND,
    ensures
        r@ == spec_db_filename(ts as int),
{
    let (y, mo, d, h) = utc_calendar(ts);
    let mut digits: Vec<u8> = Vec::new();
    push_dec(&mut digits, y as u64, 4);
    push_dec(&mut digits, mo as u64, 2);
    push_dec(&mut digits, d as u64, 2);
    push_dec(&mut digits, h as u64, 2);
    proof {
        lemma_dec_digits_ascii(y as int, 4);
        lemma_dec_digits_ascii(mo as int, 2);
        lemma_dec_digits_ascii(d as int, 2);
        lemma_dec_digits_ascii(h as int, 2);
    }
    let label = crate::strutil::ascii_to_string(digits);
    let mut name = "usage-".to_owned();
    name.append(label.as_str());
    name.append(".db");
    proof {
        assert(label@ =~= spec_hour_label(ts as int));
        assert(name@ =~= spec_db_filename(ts as int));
    }
    name
}

} // verus!

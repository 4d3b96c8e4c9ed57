//! The text of a UTCTime, read as an instant.

use vstd::prelude::*;

verus! {

/// Year, month, day, hour, minute and second, each of two digits, then `Z`.
pub const UTC_WITH_SECONDS: &'static str = "%y%m%d%H%M%SZ";

/// As `UTC_WITH_SECONDS`, without the seconds.
pub const UTC_WITHOUT_SECONDS: &'static str = "%y%m%d%H%MZ";

/// Date and time with seconds, then an offset from UTC of a sign and four digits.
pub const TZ_WITH_SECONDS: &'static str = "%y%m%d%H%M%S%z";

/// As `TZ_WITH_SECONDS`, without the seconds.
pub const TZ_WITHOUT_SECONDS: &'static str = "%y%m%d%H%M%z";

/// What `chrono::NaiveDateTime::parse_from_str` makes of `text` under `format`:
/// the date and time it reads, taken as UTC and counted in seconds since the
/// epoch, or `None` where it refuses the text.
pub uninterp spec fn naive_timestamp(text: Seq<char>, format: Seq<char>) -> Option<i64>;

/// What `chrono::DateTime::parse_from_str` makes of `text` under `format`: the
/// instant it reads, offset applied, in seconds since the epoch, or `None`
/// where it refuses the text.
pub uninterp spec fn offset_timestamp(text: Seq<char>, format: Seq<char>) -> Option<i64>;

/// Calls `chrono::NaiveDateTime::parse_from_str`, and hands the result on as
/// the seconds since the epoch of that date and time in UTC. The contract only
/// gives the result its name: it is a function of the two texts alone.
#[verifier::external_body]
fn parse_naive(text: &str, format: &str) -> (r: Option<i64>)
    ensures
        r == naive_timestamp(text@, format@),
{
    match chrono::NaiveDateTime::parse_from_str(text, format) {
        Ok(t) => Some(t.and_utc().timestamp()),
        Err(_) => None,
    }
}

/// Calls `chrono::DateTime::parse_from_str`, and hands the result on as the
/// seconds since the epoch of that instant. The contract only gives the result
/// its name: it is a function of the two texts alone.
#[verifier::external_body]
fn parse_with_offset(text: &str, format: &str) -> (r: Option<i64>)
    ensures
        r == offset_timestamp(text@, format@),
{
    match chrono::DateTime::parse_from_str(text, format) {
        Ok(t) => Some(t.timestamp()),
        Err(_) => None,
    }
}

/// The first of two readings that succeeded.
pub open spec fn or_else(first: Option<i64>, second: Option<i64>) -> Option<i64> {
    if first is Some {
        first
    } else {
        second
    }
}

/// The instant that the text of a UTCTime stands for: the four formats are
/// tried in turn, and the first that reads the text decides.
pub open spec fn utc_timestamp(text: Seq<char>) -> Option<i64> {
    or_else(
        naive_timestamp(text, UTC_WITH_SECONDS@),
        or_else(
            naive_timestamp(text, UTC_WITHOUT_SECONDS@),
            or_else(
                offset_timestamp(text, TZ_WITH_SECONDS@),
                offset_timestamp(text, TZ_WITHOUT_SECONDS@),
            ),
        ),
    )
}

/// Reads the text of a UTCTime in the first format that fits.
pub fn try_parse_all_variants(text: &str) -> (r: Option<i64>)
    ensures
        r == utc_timestamp(text@),
{
    if let Some(t) = parse_naive(text, UTC_WITH_SECONDS) {
        return Some(t);
    }
    if let Some(t) = parse_naive(text, UTC_WITHOUT_SECONDS) {
        return Some(t);
    }
    if let Some(t) = parse_with_offset(text, TZ_WITH_SECONDS) {
        return Some(t);
    }
    parse_with_offset(text, TZ_WITHOUT_SECONDS)
}

} // verus!

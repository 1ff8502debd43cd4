//! Times and identifiers from outside.
//!
//! The calendar arithmetic is that of `chrono`, the identifiers are those of
//! `ulid`. What such a call returns depends on when it is made, so only the
//! shape of a time or an identifier is known; the functions that use one take
//! it as an argument.

use vstd::prelude::*;

verus! {

/// The characters of an identifier.
pub open spec fn is_crockford(c: char) -> bool {
    ('0' <= c <= '9') || ('A' <= c <= 'Z' && c != 'I' && c != 'L' && c != 'O' && c != 'U')
}

/// Whether a character is a decimal digit.
pub open spec fn is_digit(c: char) -> bool {
    '0' <= c <= '9'
}

/// Whether two digits at a place of a text are a number within bounds.
pub open spec fn two_digits(s: Seq<char>, at: int, low: int, high: int) -> bool {
    &&& 0 <= at && at + 2 <= s.len()
    &&& is_digit(s[at]) && is_digit(s[at + 1])
    &&& low <= 10 * (s[at] as int - '0' as int) + (s[at + 1] as int - '0' as int) <= high
}

/// Whether a text is a year: four digits, or a sign and five digits or more.
pub open spec fn is_year(s: Seq<char>) -> bool {
    ||| s.len() == 4 && forall|i: int| 0 <= i < s.len() ==> is_digit(#[trigger] s[i])
    ||| {
        &&& s.len() >= 6 && s[0] == '+'
        &&& forall|i: int| 1 <= i < s.len() ==> is_digit(#[trigger] s[i])
    }
}

/// Whether a text holds `-MM-DDTHH:MM:SS` at a place.
pub open spec fn has_date_and_time(s: Seq<char>, at: int) -> bool {
    &&& 0 <= at && at + 15 <= s.len()
    &&& s[at] == '-' && two_digits(s, at + 1, 1, 12)
    &&& s[at + 3] == '-' && two_digits(s, at + 4, 1, 31)
    &&& s[at + 6] == 'T' && two_digits(s, at + 7, 0, 23)
    &&& s[at + 9] == ':' && two_digits(s, at + 10, 0, 59)
    &&& s[at + 12] == ':' && two_digits(s, at + 13, 0, 59)
}

/// Whether a text is written like a time in UTC to the second:
/// `YYYY-MM-DDTHH:MM:SSZ`.
pub open spec fn like_utc_time(s: Seq<char>) -> bool {
    &&& s.len() >= 20
    &&& is_year(s.take(s.len() - 16))
    &&& has_date_and_time(s, s.len() - 16)
    &&& s.last() == 'Z'
}

/// Whether a text is nothing, or a point with three, six or nine digits.
pub open spec fn is_fraction(s: Seq<char>) -> bool {
    ||| s.len() == 0
    ||| {
        &&& s.len() == 4 || s.len() == 7 || s.len() == 10
        &&& s[0] == '.'
        &&& forall|i: int| 1 <= i < s.len() ==> is_digit(#[trigger] s[i])
    }
}

/// Whether a text is written like a time in UTC with fractions of a second:
/// `YYYY-MM-DDTHH:MM:SS.FFF+00:00`, the fraction left out where it is zero.
/// `years` is how many characters the year takes.
pub open spec fn like_utc_instant(s: Seq<char>, years: int) -> bool {
    &&& 4 <= years && years + 21 <= s.len()
    &&& is_year(s.take(years))
    &&& has_date_and_time(s, years)
    &&& is_fraction(s.subrange(years + 15, s.len() - 6))
    &&& s.skip(s.len() - 6) == "+00:00"@
}

/// Whether a text is written like a time in UTC to the second without
/// separators: `YYYYMMDDHHMMSS`.
pub open spec fn like_utc_stamp(s: Seq<char>) -> bool {
    &&& s.len() >= 14
    &&& is_year(s.take(s.len() - 10))
    &&& two_digits(s, s.len() - 10, 1, 12)
    &&& two_digits(s, s.len() - 8, 1, 31)
    &&& two_digits(s, s.len() - 6, 0, 23)
    &&& two_digits(s, s.len() - 4, 0, 59)
    &&& two_digits(s, s.len() - 2, 0, 59)
}

/// Whether a text is written like an identifier: twenty-six characters of
/// Crockford's base 32.
pub open spec fn like_ulid(s: Seq<char>) -> bool {
    s.len() == 26 && forall|i: int| 0 <= i < s.len() ==> is_crockford(#[trigger] s[i])
}

/// The current time in UTC to the second, from `chrono::Utc::now` and
/// `chrono::DateTime::to_rfc3339_opts` with whole seconds and `Z` for the zone.
///
/// Claimed is that the text is written `YYYY-MM-DDTHH:MM:SSZ`, with a sign and
/// further digits for a year after 9999. Which time it names is not said; `now`
/// panics where the clock of the host stands before 1970 or beyond the years
/// that `chrono` knows.
#[verifier::external_body]
pub(crate) fn now_iso8601() -> (r: String)
    ensures
        like_utc_time(r@),
{
    chrono::Utc::now().to_rfc3339_opts(chrono::SecondsFormat::Secs, true)
}

/// The current time in UTC with fractions of a second, from `chrono::Utc::now`
/// and `chrono::DateTime::to_rfc3339`.
///
/// Claimed is that the text is written `YYYY-MM-DDTHH:MM:SS.FFF+00:00`, with a
/// sign and further digits for a year after 9999, and with no fraction or one of
/// three, six or nine digits. Which time it names is not said; `now` panics
/// where the clock of the host stands before 1970 or beyond the years that
/// `chrono` knows.
#[verifier::external_body]
pub(crate) fn now_rfc3339() -> (r: String)
    ensures
        exists|years: int| #[trigger] like_utc_instant(r@, years),
{
    chrono::Utc::now().to_rfc3339()
}

/// The current time in UTC as a run of digits down to the second, and the
/// nanoseconds in it, from one `chrono::Utc::now`, `chrono::DateTime::format`
/// and `chrono::DateTime::timestamp_subsec_nanos`.
///
/// Claimed is that the text is written `YYYYMMDDHHMMSS`, with a sign and further
/// digits for a year after 9999, and that the nanoseconds are fewer than those
/// of a second. Which time it is is not said; `now` panics where the clock of
/// the host stands before 1970 or beyond the years that `chrono` knows.
#[verifier::external_body]
pub(crate) fn now_stamp() -> (r: (String, u32))
    ensures
        like_utc_stamp(r.0@),
        r.1 < 1_000_000_000,
{
    let now = chrono::Utc::now();
    (now.format("%Y%m%d%H%M%S").to_string(), now.timestamp_subsec_nanos())
}

/// Whole seconds from one RFC 3339 time to another; none where one of the
/// texts is not such a time.
pub uninterp spec fn rfc3339_seconds(before: Seq<char>, after: Seq<char>) -> Option<i64>;

/// Whole seconds from `before` to `after`, by
/// `chrono::DateTime::parse_from_rfc3339` of both,
/// `chrono::DateTime::signed_duration_since` and
/// `chrono::TimeDelta::num_seconds`; none where a text cannot be parsed.
///
/// Claimed is only that the result depends on the two texts alone.
#[verifier::external_body]
pub(crate) fn seconds_between(before: &str, after: &str) -> (r: Option<i64>)
    ensures
        r == rfc3339_seconds(before@, after@),
{
    let a = chrono::DateTime::parse_from_rfc3339(before).ok()?;
    let b = chrono::DateTime::parse_from_rfc3339(after).ok()?;
    Some(b.signed_duration_since(a).num_seconds())
}

/// A fresh identifier, from `ulid::Ulid::new` and `ulid::Ulid::to_string`.
///
/// Claimed is its shape: twenty-six characters of Crockford's base 32. That no
/// two are equal is not said.
#[verifier::external_body]
pub(crate) fn new_ulid() -> (r: String)
    ensures
        like_ulid(r@),
{
    ulid::Ulid::new().to_string()
}

} // verus!

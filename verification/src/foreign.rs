//! Trusted, contract-only bridges to the outside crates that perform the
//! semantic conversions the grammar cannot express over plain text: calendar
//! date validation, semantic-version validation, and byte-quantity parsing.

use chrono::Datelike;
use vstd::prelude::*;

use crate::text::{dec_val, is_digit_char};

verus! {

/// The calendar date, as (year, month, day), that the date library reads
/// from a text of the fixed form `<month name>-<day>-<year>`, or `None` when
/// the text does not denote a valid date in that form.
pub uninterp spec fn date_of(s: Seq<char>) -> Option<(i32, u8, u8)>;

/// Relies on chrono's `NaiveDate::parse_from_str` with the fixed format
/// string `"%b-%d-%Y"` (abbreviated month name, day of month, year), and on
/// the `Datelike` accessors `year`, `month` and `day`. The result depends on
/// the text alone; chrono documents `month()` as `1..=12` and `day()` as
/// `1..=31`.
#[verifier::external_body]
pub(crate) fn parse_month_day_year(s: &str) -> (r: Option<(i32, u8, u8)>)
    ensures
        r == date_of(s@),
        r matches Some(d) ==> 1 <= d.1 <= 12 && 1 <= d.2 <= 31,
{
    match chrono::NaiveDate::parse_from_str(s, "%b-%d-%Y") {
        Ok(d) => Some((d.year(), d.month() as u8, d.day() as u8)),
        Err(_) => None,
    }
}

/// The digit run `s` has no leading zero (a lone `0` is allowed).
pub open spec fn no_leading_zero(s: Seq<char>) -> bool {
    s.len() == 1 || s[0] != '0'
}

/// Relies on semver's `Version::parse`: on input of the exact shape
/// `<digits>.<digits>.<digits>` it succeeds precisely when each component is
/// free of leading zeros and its decimal value fits `u64`, and then yields
/// the three decimal values.
#[verifier::external_body]
pub(crate) fn parse_version_triple(major: &str, minor: &str, patch: &str) -> (r: Option<
    (u64, u64, u64),
>)
    requires
        major@.len() >= 1 && forall|k: int| 0 <= k < major@.len() ==> is_digit_char(major@[k]),
        minor@.len() >= 1 && forall|k: int| 0 <= k < minor@.len() ==> is_digit_char(minor@[k]),
        patch@.len() >= 1 && forall|k: int| 0 <= k < patch@.len() ==> is_digit_char(patch@[k]),
    ensures
        (r is Some) == (no_leading_zero(major@) && no_leading_zero(minor@) && no_leading_zero(
            patch@,
        ) && dec_val(major@) <= u64::MAX && dec_val(minor@) <= u64::MAX && dec_val(patch@)
            <= u64::MAX),
        r matches Some(v) ==> v.0 == dec_val(major@) && v.1 == dec_val(minor@) && v.2 == dec_val(
            patch@,
        ),
{
    let joined = format!("{}.{}.{}", major, minor, patch);
    match semver::Version::parse(&joined) {
        Ok(v) => Some((v.major, v.minor, v.patch)),
        Err(_) => None,
    }
}

/// The number of whole bytes that the byte-quantity library reads from a
/// captured `<number> <unit>` text, or `None` when it rejects the text.
pub uninterp spec fn byte_quantity_of(s: Seq<char>) -> Option<u128>;

/// Relies on byte_unit's `Byte::parse_str` with case-sensitive units (the
/// same entry point as its `FromStr` impl) and on `Byte::as_u128`. The
/// result depends on the text alone.
#[verifier::external_body]
pub(crate) fn parse_byte_quantity(s: &str) -> (r: Option<u128>)
    ensures
        r == byte_quantity_of(s@),
{
    match byte_unit::Byte::parse_str(s, false) {
        Ok(b) => Some(b.as_u128()),
        Err(_) => None,
    }
}

} // verus!

//! The task timestamp. A `Date` holds the count of non-leap seconds
//! since 1970-01-01 00:00:00; chronological order is the order of that
//! count. Parsing from text is delegated to chrono and tried against a
//! fixed list of accepted formats, in priority order.

use vstd::prelude::*;

verus! {

/// What chrono's `NaiveDateTime::parse_from_str` yields on the given
/// input and format, as seconds since 1970-01-01 00:00:00 (`None` when
/// the input does not match the format).
pub uninterp spec fn chrono_parse(s: Seq<char>, fmt: Seq<char>) -> Option<i64>;

/// Relies on chrono's `NaiveDateTime::parse_from_str` and
/// `DateTime::timestamp`: parsing depends on the two strings alone, and
/// the timestamp is the count of non-leap seconds since the epoch.
#[verifier::external_body]
fn parse_timestamp(s: &str, fmt: &str) -> (r: Option<i64>)
    ensures
        r == chrono_parse(s@, fmt@),
{
    match chrono::NaiveDateTime::parse_from_str(s, fmt) {
        Ok(dt) => Some(dt.and_utc().timestamp()),
        Err(_) => None,
    }
}

/// A timestamp without timezone, as seconds since 1970-01-01 00:00:00.
#[derive(Clone, Copy, Debug, PartialEq, Eq, Structural, Hash)]
pub struct Date(pub i64);

impl Default for Date {
    /// The epoch itself, 1970-01-01 00:00:00.
    fn default() -> (r: Self)
        ensures
            r == (Date(0)),
    {
        Date(0)
    }
}

/// The result of parsing a date from text: the accepted formats are
/// tried in priority order and the first match wins.
pub open spec fn date_from_str(s: Seq<char>) -> Option<i64> {
    if chrono_parse(s, "%Y-%m-%d %H:%M:%S"@).is_some() {
        chrono_parse(s, "%Y-%m-%d %H:%M:%S"@)
    } else if chrono_parse(s, "%Y-%m-%d %H:%M"@).is_some() {
        chrono_parse(s, "%Y-%m-%d %H:%M"@)
    } else if chrono_parse(s, "%Y-%m-%d"@).is_some() {
        chrono_parse(s, "%Y-%m-%d"@)
    } else if chrono_parse(s, "%Y-%m-%dT%H:%M:%S"@).is_some() {
        chrono_parse(s, "%Y-%m-%dT%H:%M:%S"@)
    } else if chrono_parse(s, "%Y/%m/%d %H:%M:%S"@).is_some() {
        chrono_parse(s, "%Y/%m/%d %H:%M:%S"@)
    } else {
        None
    }
}

/// The error text reported when no format matches.
pub open spec fn date_format_error() -> Seq<char> {
    "Ожидается формат: %Y-%m-%d %H:%M:%S | %Y-%m-%d %H:%M | %Y-%m-%d | %Y-%m-%dT%H:%M:%S | %Y/%m/%d %H:%M:%S"@
}

impl Date {
    /// Parse a date from one of the accepted textual formats.
    pub fn parse(s: &str) -> (r: Result<Date, String>)
        ensures
            match r {
                Ok(d) => date_from_str(s@) == Some(d.0),
                Err(e) => date_from_str(s@) is None && e@ == date_format_error(),
            },
    {
        if let Some(t) = parse_timestamp(s, "%Y-%m-%d %H:%M:%S") {
            return Ok(Date(t));
        }
        if let Some(t) = parse_timestamp(s, "%Y-%m-%d %H:%M") {
            return Ok(Date(t));
        }
        if let Some(t) = parse_timestamp(s, "%Y-%m-%d") {
            return Ok(Date(t));
        }
        if let Some(t) = parse_timestamp(s, "%Y-%m-%dT%H:%M:%S") {
            return Ok(Date(t));
        }
        if let Some(t) = parse_timestamp(s, "%Y/%m/%d %H:%M:%S") {
            return Ok(Date(t));
        }
        Err(
            "Ожидается формат: %Y-%m-%d %H:%M:%S | %Y-%m-%d %H:%M | %Y-%m-%d | %Y-%m-%dT%H:%M:%S | %Y/%m/%d %H:%M:%S".to_owned(),
        )
    }
}

impl core::str::FromStr for Date {
    type Err = String;

    fn from_str(s: &str) -> Result<Self, String> {
        Date::parse(s)
    }
}

} // verus!

//! Timestamps as the listing writes them: years to seconds in UTC, with a `T`
//! between date and time and nothing behind the seconds.

use chrono::{DateTime, TimeZone, Utc};
use std::fmt::Write;
use vstd::prelude::*;
use crate::model::DecodeError;

verus! {

/// The pattern of a timestamp, in `chrono`'s notation.
pub const FORMAT: &'static str = "%Y-%m-%dT%H:%M:%S";

/// `chrono::ParseError`, carried as it is.
#[verifier::external_type_specification]
#[verifier::external_body]
pub struct ExParseError(chrono::ParseError);

/// The seconds since 1970-01-01T00:00:00 UTC of the instant that `chrono` reads
/// out of `text` by `pattern`; `None` where it reads none.
pub uninterp spec fn parsed_timestamp(text: Seq<char>, pattern: Seq<char>) -> Option<i64>;

/// What `chrono` writes by `pattern` for the instant `seconds` after
/// 1970-01-01T00:00:00 UTC; `None` where it cannot hold the instant or cannot
/// write by the pattern.
pub uninterp spec fn formatted_timestamp(seconds: i64, pattern: Seq<char>) -> Option<Seq<char>>;

/// Calls `TimeZone::datetime_from_str` on `Utc`, and `DateTime::timestamp` on
/// what it returns. Trusted: whether the text is read, and as which instant,
/// depends on the text and the pattern alone.
#[allow(deprecated)]
#[verifier::external_body]
fn parse_utc(text: &str, pattern: &str) -> (parsed: Result<i64, chrono::ParseError>)
    ensures
        parsed is Ok <==> parsed_timestamp(text@, pattern@) is Some,
        parsed is Ok ==> parsed_timestamp(text@, pattern@) == Some(parsed->Ok_0),
{
    Utc.datetime_from_str(text, pattern).map(|instant| instant.timestamp())
}

/// Calls `to_string` on a `chrono::ParseError`: the parser's own words, of
/// which nothing is claimed.
#[verifier::external_body]
fn error_text(error: &chrono::ParseError) -> (message: String) {
    error.to_string()
}

/// Calls `DateTime::from_timestamp` and `DateTime::format`, and writes what the
/// latter returns. Trusted: whether the instant can be held and written, and
/// what is written for it, depends on the number and the pattern alone.
#[verifier::external_body]
fn format_utc(seconds: i64, pattern: &str) -> (text: Option<String>)
    ensures
        text is Some <==> formatted_timestamp(seconds, pattern@) is Some,
        text is Some ==> formatted_timestamp(seconds, pattern@) == Some(text->Some_0@),
{
    let instant = DateTime::<Utc>::from_timestamp(seconds, 0)?;
    let mut text = String::new();
    write!(text, "{}", instant.format(pattern)).ok()?;
    Some(text)
}

/// Writes a timestamp as the listing does. `None` where the instant is outside
/// the years that `chrono` can hold.
pub fn serialize(date: &i64) -> (text: Option<String>)
    ensures
        text is Some <==> formatted_timestamp(*date, FORMAT@) is Some,
        text is Some ==> formatted_timestamp(*date, FORMAT@) == Some(text->Some_0@),
{
    format_utc(*date, FORMAT)
}

/// Reads a timestamp of the listing. A text that is none comes back in the
/// error, beside what the parser said of it.
pub fn deserialize(text: &str) -> (date: Result<i64, DecodeError>)
    ensures
        date is Ok <==> parsed_timestamp(text@, FORMAT@) is Some,
        date is Ok ==> parsed_timestamp(text@, FORMAT@) == Some(date->Ok_0),
        date is Err ==> date->Err_0.payload@ == text@,
{
    match parse_utc(text, FORMAT) {
        Ok(seconds) => Ok(seconds),
        Err(error) => Err(DecodeError { message: error_text(&error), payload: String::from_str(text) }),
    }
}

} // verus!

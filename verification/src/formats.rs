//! The textual formats of identifiers, dates and binary data, read and
//! written by the crates that define them.
//!
//! Each function here is trusted: its contract is taken from the crate's
//! documentation and source, not proved. A reader hands back the canonical
//! text of what it read, or the crate's own description of the failure.

use vstd::prelude::*;
use crate::query::datetime_patterns;
use crate::value::OffsetDateTime;

verus! {

/// The standard base64 text, with padding, of a byte string.
pub uninterp spec fn base64_text(bytes: Seq<u8>) -> Seq<char>;

/// The bytes that a standard base64 text stands for, where it is well formed.
pub uninterp spec fn base64_bytes(text: Seq<char>) -> Option<Seq<u8>>;

/// The reason given for refusing a text as base64. It has a meaning only for a
/// text that is refused.
pub uninterp spec fn base64_refusal(text: Seq<char>) -> Seq<char>;

/// The hyphenated lower-case form of the UUID that a text denotes, where it
/// denotes one.
pub uninterp spec fn uuid_text(text: Seq<char>) -> Option<Seq<char>>;

/// The reason given for refusing a text as a UUID. It has a meaning only for
/// a text that is refused.
pub uninterp spec fn uuid_refusal(text: Seq<char>) -> Seq<char>;

/// The ISO 8601 form (`YYYY-MM-DD`, the year with a sign where it has more
/// than four digits) of the calendar date that a text denotes, where it
/// denotes one.
pub uninterp spec fn date_text(text: Seq<char>) -> Option<Seq<char>>;

/// The reason given for refusing a text as a calendar date. It has a meaning
/// only for a text that is refused.
pub uninterp spec fn date_refusal(text: Seq<char>) -> Seq<char>;

/// The `HH:MM:SS[.fraction]` form of the time of day that a text denotes,
/// where it denotes one.
pub uninterp spec fn time_text(text: Seq<char>) -> Option<Seq<char>>;

/// The reason given for refusing a text as a time of day. It has a meaning
/// only for a text that is refused.
pub uninterp spec fn time_refusal(text: Seq<char>) -> Seq<char>;

/// The `YYYY-MM-DD HH:MM:SS[.fraction]` form of the date and time that a text
/// denotes when read by a `strftime` pattern, where the text fits the pattern.
pub uninterp spec fn datetime_text(text: Seq<char>, pattern: Seq<char>) -> Option<Seq<char>>;

/// The `YYYY-MM-DD HH:MM:SS[.fraction]` form of the date and time that an
/// RFC 3339 text writes, where it is one: the date and the time of day as
/// they stand in the text, without the offset.
pub uninterp spec fn rfc3339_local_text(text: Seq<char>) -> Option<Seq<char>>;

/// The two forms of the date and time with offset that a text denotes, where
/// it denotes one: first the form with spaces, then the RFC 3339 form.
pub uninterp spec fn offset_datetime_text(text: Seq<char>) -> Option<(Seq<char>, Seq<char>)>;

/// The reason given for refusing a text as a date and time with offset. It
/// has a meaning only for a text that is refused.
pub uninterp spec fn offset_datetime_refusal(text: Seq<char>) -> Seq<char>;

/// Whether a reader's outcome is the one that `expected` and `refusal` name:
/// the canonical text on success; a failure exactly where `expected` is
/// `None`, with `refusal` as its reason.
pub open spec fn outcome_is(
    outcome: Result<String, String>,
    expected: Option<Seq<char>>,
    refusal: Seq<char>,
) -> bool {
    match outcome {
        Ok(t) => expected == Some(t@),
        Err(reason) => expected is None && reason@ == refusal,
    }
}

/// Whether a reader's outcome is the one that `expected` names, for a reader
/// that gives no reason.
pub open spec fn found_is(outcome: Option<String>, expected: Option<Seq<char>>) -> bool {
    match outcome {
        Some(t) => expected == Some(t@),
        None => expected is None,
    }
}

/// Encodes bytes as base64.
///
/// Trusted: this is `Engine::encode` of the `base64` crate on its `STANDARD`
/// engine, whose output is determined by the input bytes alone.
#[verifier::external_body]
pub(crate) fn base64_encode(bytes: &Vec<u8>) -> (s: String)
    ensures
        s@ == base64_text(bytes@),
{
    base64::Engine::encode(&base64::engine::general_purpose::STANDARD, bytes)
}

/// Decodes base64 text.
///
/// Trusted: this is `Engine::decode` of the `base64` crate on its `STANDARD`
/// engine. It returns the bytes, or the `Display` of the crate's error; both
/// depend on the text alone.
#[verifier::external_body]
pub(crate) fn base64_decode(text: &str) -> (r: Result<Vec<u8>, String>)
    ensures
        match r {
            Ok(b) => base64_bytes(text@) == Some(b@),
            Err(reason) => base64_bytes(text@) is None && reason@ == base64_refusal(text@),
        },
{
    base64::Engine::decode(&base64::engine::general_purpose::STANDARD, text).map_err(
        |e| e.to_string(),
    )
}

/// Reads a UUID and prints it back in its hyphenated lower-case form.
///
/// Trusted: this is `Uuid::parse_str` of the `uuid` crate followed by the
/// `Display` of the value it returns; on failure, the `Display` of its error.
#[verifier::external_body]
pub(crate) fn parse_uuid(text: &str) -> (r: Result<String, String>)
    ensures
        outcome_is(r, uuid_text(text@), uuid_refusal(text@)),
{
    uuid::Uuid::parse_str(text).map(|u| u.to_string()).map_err(|e| e.to_string())
}

/// Reads a calendar date and prints it back in its ISO 8601 form.
///
/// Trusted: this is `FromStr` for `chrono::NaiveDate` followed by the `Display`
/// of the value it returns; on failure, the `Display` of its error.
#[verifier::external_body]
pub(crate) fn parse_date(text: &str) -> (r: Result<String, String>)
    ensures
        outcome_is(r, date_text(text@), date_refusal(text@)),
{
    text.parse::<chrono::NaiveDate>().map(|d| d.to_string()).map_err(|e| e.to_string())
}

/// Reads a time of day and prints it back as `HH:MM:SS[.fraction]`.
///
/// Trusted: this is `FromStr` for `chrono::NaiveTime` followed by the `Display`
/// of the value it returns; on failure, the `Display` of its error.
#[verifier::external_body]
pub(crate) fn parse_time(text: &str) -> (r: Result<String, String>)
    ensures
        outcome_is(r, time_text(text@), time_refusal(text@)),
{
    text.parse::<chrono::NaiveTime>().map(|t| t.to_string()).map_err(|e| e.to_string())
}

/// Reads a date and time by one of the `strftime` patterns that this crate
/// reads by, and prints it back with a space between date and time.
///
/// Trusted: this is `chrono::NaiveDateTime::parse_from_str` followed by the
/// `Display` of the value it returns. Why a text was refused is dropped.
#[verifier::external_body]
pub(crate) fn parse_datetime_as(text: &str, pattern: &str) -> (r: Option<String>)
    requires
        datetime_patterns().contains(pattern@),
    ensures
        found_is(r, datetime_text(text@, pattern@)),
{
    chrono::NaiveDateTime::parse_from_str(text, pattern).map(|d| d.to_string()).ok()
}

/// Reads an RFC 3339 date and time and prints its date and time of day as the
/// text writes them, without its offset.
///
/// Trusted: this is `chrono::DateTime::parse_from_rfc3339`, then
/// `naive_local`, then the `Display` of that value. `naive_local` does not
/// fail here: the reader takes a year of four digits only, so what the text
/// writes is within the range of dates. Why a text was refused is dropped.
#[verifier::external_body]
pub(crate) fn parse_rfc3339_local(text: &str) -> (r: Option<String>)
    ensures
        found_is(r, rfc3339_local_text(text@)),
{
    chrono::DateTime::parse_from_rfc3339(text).map(|d| d.naive_local().to_string()).ok()
}

/// Reads a date and time with an offset from UTC and prints it back in both of
/// its forms.
///
/// Trusted: this is `FromStr` for `chrono::DateTime<FixedOffset>`, followed by
/// the `Display` of the value and by its `to_rfc3339`; on failure, the
/// `Display` of the error.
#[verifier::external_body]
pub(crate) fn parse_offset_datetime(text: &str) -> (r: Result<OffsetDateTime, String>)
    ensures
        match r {
            Ok(d) => offset_datetime_text(text@) == Some((d.display@, d.rfc3339@)),
            Err(reason) => offset_datetime_text(text@) is None && reason@
                == offset_datetime_refusal(text@),
        },
{
    text.parse::<chrono::DateTime<chrono::FixedOffset>>().map(
        |d| OffsetDateTime { display: d.to_string(), rfc3339: d.to_rfc3339() },
    ).map_err(|e| e.to_string())
}

} // verus!

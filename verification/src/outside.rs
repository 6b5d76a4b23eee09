//! Calls into other crates and into parts of the standard library, with the contracts that
//! the rest of the library relies on without proof, and the same calls on the library's types.

use crate::duration::duration_text_in_range;
use crate::instant::{Instant, Span, Timestamp, NANOS_PER_SEC};
use crate::text::text_result;
use vstd::prelude::*;
use vstd::utf8::{decode_utf8, valid_utf8};

verus! {

/// What `humantime::parse_duration` makes of a text: nanoseconds, or the text of its error.
pub uninterp spec fn duration_parse(text: Seq<char>) -> Result<nat, Seq<char>>;

/// The nanoseconds in whole seconds and a rest.
pub open spec fn total_nanos(secs: u64, nanos: u32) -> nat {
    (secs * NANOS_PER_SEC + nanos) as nat
}

/// The view of a parsed duration in whole seconds and a rest.
pub open spec fn duration_result(r: Result<(u64, u32), String>) -> Result<nat, Seq<char>> {
    match r {
        Ok((secs, nanos)) => Ok(total_nanos(secs, nanos)),
        Err(e) => Err(e@),
    }
}

/// Calls `humantime::parse_duration`.
///
/// Trusted: the duration, or the error as a text, depends on the text alone; the nanoseconds
/// that come beside whole seconds are less than a second; and the call returns on every text
/// within [`duration_text_in_range`].
#[verifier::external_body]
fn humantime_parse(text: &str) -> (r: Result<(u64, u32), String>)
    requires
        duration_text_in_range(text@),
    ensures
        duration_result(r) == duration_parse(text@),
        r matches Ok((_, nanos)) ==> nanos < NANOS_PER_SEC,
{
    match humantime::parse_duration(text) {
        Ok(d) => Ok((d.as_secs(), d.subsec_nanos())),
        Err(e) => Err(e.to_string()),
    }
}

/// The view of a parsed span.
pub open spec fn span_result(r: Result<Span, String>) -> Result<nat, Seq<char>> {
    match r {
        Ok(s) => Ok(s@),
        Err(e) => Err(e@),
    }
}

/// The span that a text spells, or why it spells none.
pub(crate) fn parse_duration(text: &str) -> (r: Result<Span, String>)
    requires
        duration_text_in_range(text@),
    ensures
        span_result(r) == duration_parse(text@),
{
    match humantime_parse(text) {
        Ok((secs, nanos)) => Ok(Span::from_parts(secs, nanos).unwrap()),
        Err(e) => Err(e),
    }
}

/// The text that `humantime::format_duration` displays for that many nanoseconds.
pub uninterp spec fn duration_text(nanos: nat) -> Seq<char>;

/// Calls `humantime::format_duration` and renders the result.
///
/// Trusted: the text depends on the duration alone.
#[verifier::external_body]
fn humantime_format(secs: u64, nanos: u32) -> (r: String)
    requires
        nanos < NANOS_PER_SEC,
    ensures
        r@ == duration_text(total_nanos(secs, nanos)),
{
    humantime::format_duration(std::time::Duration::new(secs, nanos)).to_string()
}

/// A span in words.
pub(crate) fn format_duration(span: &Span) -> (r: String)
    ensures
        r@ == duration_text(span@),
{
    humantime_format(span.secs(), span.nanos())
}

/// Whether `croner::Cron::from_str` accepts an expression, or else the text of its error.
pub uninterp spec fn cron_syntax(expression: Seq<char>) -> Result<(), Seq<char>>;

/// Calls `croner::Cron::from_str` and drops the schedule.
///
/// Trusted: acceptance, and the text of the error otherwise, depend on the expression alone.
#[verifier::external_body]
pub(crate) fn parse_cron(expression: &str) -> (r: Result<(), String>)
    ensures
        text_result(r) == cron_syntax(expression@),
{
    match expression.parse::<croner::Cron>() {
        Ok(_) => Ok(()),
        Err(e) => Err(e.to_string()),
    }
}

/// Whether the schedule of an expression matches a point in time in UTC, as
/// `croner::Cron::is_time_matching` tells, or else the text of its error.
pub uninterp spec fn cron_match(expression: Seq<char>, secs: int, nanos: int) -> Result<
    bool,
    Seq<char>,
>;

/// Calls `croner::Cron::is_time_matching` on the schedule of an accepted expression.
///
/// Trusted: the verdict, and the text of the error otherwise, depend on the expression and on
/// the point in time alone.
#[verifier::external_body]
fn croner_matches(expression: &str, secs: i64, nanos: u32) -> (r: Result<bool, String>)
    requires
        cron_syntax(expression@) is Ok,
        (Instant { secs: secs as int, nanos: nanos as int }).in_range(),
    ensures
        text_result(r) == cron_match(expression@, secs as int, nanos as int),
{
    let schedule = expression.parse::<croner::Cron>().unwrap();
    let at = chrono::DateTime::<chrono::Utc>::from_timestamp(secs, nanos).unwrap();
    match schedule.is_time_matching(&at) {
        Ok(matching) => Ok(matching),
        Err(e) => Err(e.to_string()),
    }
}

/// Whether the schedule of an accepted expression matches a point in time.
pub(crate) fn cron_matches(expression: &str, at: &Timestamp) -> (r: Result<bool, String>)
    requires
        cron_syntax(expression@) is Ok,
    ensures
        text_result(r) == cron_match(expression@, at@.secs, at@.nanos),
{
    croner_matches(expression, at.secs(), at.nanos())
}

/// A point in time in UTC, as `chrono::DateTime::format` writes it with the format
/// `%Y-%m-%d %H:%M:%S`.
pub uninterp spec fn instant_text(secs: int, nanos: int) -> Seq<char>;

/// Calls `chrono::DateTime::format` with the format `%Y-%m-%d %H:%M:%S`.
///
/// Trusted: the text depends on the point in time alone.
#[verifier::external_body]
fn chrono_format(secs: i64, nanos: u32) -> (r: String)
    requires
        (Instant { secs: secs as int, nanos: nanos as int }).in_range(),
    ensures
        r@ == instant_text(secs as int, nanos as int),
{
    let at = chrono::DateTime::<chrono::Utc>::from_timestamp(secs, nanos).unwrap();
    at.format("%Y-%m-%d %H:%M:%S").to_string()
}

/// A point in time by date and time of day.
pub(crate) fn format_instant(at: &Timestamp) -> (r: String)
    ensures
        r@ == instant_text(at@.secs, at@.nanos),
{
    chrono_format(at.secs(), at.nanos())
}

/// A point in time in UTC, as `chrono::DateTime::to_rfc3339` writes it.
pub uninterp spec fn rfc3339_text(secs: int, nanos: int) -> Seq<char>;

/// The point in time, as seconds and nanoseconds in UTC, that
/// `chrono::DateTime::parse_from_rfc3339` reads from a text, if it accepts the text.
pub uninterp spec fn rfc3339_instant(text: Seq<char>) -> Option<(int, int)>;

/// The second 0000-01-01T00:00:00Z, from which on a year is written with four digits.
pub const FIRST_RFC3339_SECS: i64 = -62_167_219_200;

/// The second 9999-12-31T23:59:59Z, up to which a year is written with four digits.
pub const LAST_RFC3339_SECS: i64 = 253_402_300_799;

/// Calls `chrono::DateTime::to_rfc3339`.
///
/// Trusted: the text depends on the point in time alone, and for the years 0 to 9999
/// `parse_from_rfc3339` reads the same point back from it, a leap second included.
#[verifier::external_body]
fn chrono_to_rfc3339(secs: i64, nanos: u32) -> (r: String)
    requires
        (Instant { secs: secs as int, nanos: nanos as int }).in_range(),
    ensures
        r@ == rfc3339_text(secs as int, nanos as int),
        FIRST_RFC3339_SECS <= secs <= LAST_RFC3339_SECS ==> rfc3339_instant(r@) == Some(
            (secs as int, nanos as int),
        ),
{
    let at = chrono::DateTime::<chrono::Utc>::from_timestamp(secs, nanos).unwrap();
    at.to_rfc3339()
}

/// A point in time as a text that can be read back.
pub(crate) fn to_rfc3339(at: &Timestamp) -> (r: String)
    ensures
        r@ == rfc3339_text(at@.secs, at@.nanos),
        FIRST_RFC3339_SECS <= at@.secs <= LAST_RFC3339_SECS ==> rfc3339_instant(r@) == Some(
            (at@.secs, at@.nanos),
        ),
{
    chrono_to_rfc3339(at.secs(), at.nanos())
}

/// The view of an optional point in time in seconds and nanoseconds.
pub open spec fn int_parts(t: Option<(i64, u32)>) -> Option<(int, int)> {
    match t {
        Some((secs, nanos)) => Some((secs as int, nanos as int)),
        None => None,
    }
}

/// Calls `chrono::DateTime::parse_from_rfc3339` and takes the result in UTC.
///
/// Trusted: the point in time, or the refusal of the text, depends on the text alone, and a
/// point in time that is read lies in the calendar's range.
#[verifier::external_body]
fn chrono_from_rfc3339(text: &str) -> (r: Option<(i64, u32)>)
    ensures
        int_parts(r) == rfc3339_instant(text@),
        r matches Some((secs, nanos)) ==> (Instant { secs: secs as int, nanos: nanos as int })
            .in_range(),
{
    match chrono::DateTime::parse_from_rfc3339(text) {
        Ok(d) => Some((d.timestamp(), d.timestamp_subsec_nanos())),
        Err(_) => None,
    }
}

/// The view of an optional point in time as seconds and nanoseconds.
pub open spec fn parts_opt(t: Option<Timestamp>) -> Option<(int, int)> {
    match t {
        Some(t) => Some((t@.secs, t@.nanos)),
        None => None,
    }
}

/// The point in time that a text spells, if it spells one.
pub(crate) fn from_rfc3339(text: &str) -> (r: Option<Timestamp>)
    ensures
        parts_opt(r) == rfc3339_instant(text@),
{
    match chrono_from_rfc3339(text) {
        Some((secs, nanos)) => Timestamp::from_parts(secs, nanos),
        None => None,
    }
}

/// The text that `String::from_utf8_lossy` makes of bytes.
pub uninterp spec fn utf8_lossy(bytes: Seq<u8>) -> Seq<char>;

/// Calls `String::from_utf8_lossy`.
///
/// Trusted: the text depends on the bytes alone, and bytes that are valid UTF-8 are decoded
/// as they stand.
#[verifier::external_body]
pub(crate) fn decode_lossy(bytes: &[u8]) -> (r: String)
    ensures
        r@ == utf8_lossy(bytes@),
        valid_utf8(bytes@) ==> r@ == decode_utf8(bytes@),
{
    String::from_utf8_lossy(bytes).into_owned()
}

/// Seconds and nanoseconds make up a span as they are, and results of calls are seen as they
/// are.
pub proof fn law_outside_views(
    secs: u64,
    nanos: u32,
    span: Span,
    error: String,
    whole: i64,
    at: Timestamp,
)
    ensures
        total_nanos(secs, nanos) == secs * 1_000_000_000 + nanos,
        duration_result(Ok((secs, nanos))) == Ok::<nat, Seq<char>>(total_nanos(secs, nanos)),
        duration_result(Err(error)) == Err::<nat, Seq<char>>(error@),
        span_result(Ok(span)) == Ok::<nat, Seq<char>>(span@),
        span_result(Err(error)) == Err::<nat, Seq<char>>(error@),
        int_parts(Some((whole, nanos))) == Some((whole as int, nanos as int)),
        int_parts(None) is None,
        parts_opt(Some(at)) == Some((at@.secs, at@.nanos)),
        parts_opt(None) is None,
{
}

} // verus!

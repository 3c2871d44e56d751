//! Dates, times and time zones in source text.

use crate::hir::tree::{CivilDateTimeLiteral, IanaTimeZoneId, OffsetDateTimeLiteral, TimeScale};
use jiff::civil::DateTime;
use jiff::tz::{AmbiguousOffset, TimeZoneDatabase};
use vstd::prelude::*;

verus! {

/// The civil date and time that a text denotes, or the message that it is
/// refused with: what parsing the text as a `jiff::civil::DateTime` gives.
pub uninterp spec fn civil_datetime(text: Seq<char>) -> Result<CivilDateTimeLiteral, Seq<char>>;

/// The instant that a text with an offset denotes, or the message that it is
/// refused with: what parsing the text as a `jiff::Timestamp` gives.
pub uninterp spec fn offset_datetime(text: Seq<char>) -> Result<OffsetDateTimeLiteral, Seq<char>>;

/// The name that the bundled time zone database has for a time zone, if it
/// knows one of the given name.
pub uninterp spec fn time_zone_name(name: Seq<char>) -> Option<Seq<char>>;

/// What a civil date and time is in a time zone of the bundled database.
pub uninterp spec fn zoned_datetime(datetime: CivilDateTimeLiteral, zone: Seq<char>) -> ZonedResult;

/// How a civil date and time is written: what formatting it as a
/// `jiff::civil::DateTime` gives, or jiff's message where it is none.
pub uninterp spec fn civil_text(datetime: CivilDateTimeLiteral) -> Seq<char>;

/// What a civil date and time is in a time zone.
#[derive(Clone, Copy, Debug, PartialEq, Eq, Structural)]
pub enum ZonedResult {
    /// One instant: its second since 1970 in UTC, and the nanoseconds.
    Instant(i64, i32),
    /// No instant: the clock is put forward over it, from one offset to another, in
    /// seconds.
    Gap(i32, i32),
    /// Two instants: the clock is put back over it.
    Fold(i32, i32),
    /// The database does not know the time zone.
    NoZone,
    /// The parts are no date and time, or the instant is too far away to be
    /// represented.
    OutOfRange,
}

/// Trusted: `str::parse` into a `jiff::civil::DateTime`. The result is the
/// parts of the date and time, or jiff's message; it depends on the text alone.
#[verifier::external_body]
fn jiff_civil_datetime(text: &str) -> (r: Result<CivilDateTimeLiteral, String>)
    ensures
        match r {
            Ok(literal) => civil_datetime(text@) == Ok::<CivilDateTimeLiteral, Seq<char>>(literal),
            Err(message) => civil_datetime(text@) == Err::<CivilDateTimeLiteral, Seq<char>>(message@),
        },
{
    match text.parse::<DateTime>() {
        Ok(d) => Ok(
            CivilDateTimeLiteral {
                year: d.year(),
                month: d.month(),
                day: d.day(),
                hour: d.hour(),
                minute: d.minute(),
                second: d.second(),
                nanosecond: d.subsec_nanosecond(),
            },
        ),
        Err(error) => Err(error.to_string()),
    }
}

/// Trusted: `str::parse` into a `jiff::Timestamp`. The result is the instant,
/// or jiff's message; it depends on the text alone.
#[verifier::external_body]
fn jiff_timestamp(text: &str) -> (r: Result<OffsetDateTimeLiteral, String>)
    ensures
        match r {
            Ok(literal) => offset_datetime(text@) == Ok::<OffsetDateTimeLiteral, Seq<char>>(literal),
            Err(message) => offset_datetime(text@) == Err::<OffsetDateTimeLiteral, Seq<char>>(message@),
        },
{
    match text.parse::<jiff::Timestamp>() {
        Ok(t) => Ok(
            OffsetDateTimeLiteral { second: t.as_second(), nanosecond: t.subsec_nanosecond() },
        ),
        Err(error) => Err(error.to_string()),
    }
}

/// Trusted: `TimeZoneDatabase::get` on the bundled database. The result is the
/// database's own spelling of the name; it depends on the name alone.
#[verifier::external_body]
fn jiff_time_zone_name(name: &str) -> (r: Option<String>)
    ensures
        match r {
            Some(zone) => time_zone_name(name@) == Some(zone@),
            None => time_zone_name(name@) is None,
        },
{
    match TimeZoneDatabase::bundled().get(name) {
        Ok(zone) => zone.iana_name().map(|known| known.to_string()),
        Err(_) => None,
    }
}

/// Trusted: `TimeZone::to_ambiguous_timestamp` with a time zone of the bundled
/// database. The result says which of the cases holds; it depends on the date
/// and time and on the name alone.
#[verifier::external_body]
fn jiff_zoned_datetime(d: CivilDateTimeLiteral, zone: &str) -> (r: ZonedResult)
    ensures
        r == zoned_datetime(d, zone@),
{
    let Ok(tz) = TimeZoneDatabase::bundled().get(zone) else { return ZonedResult::NoZone };
    let Ok(civil) = DateTime::new(d.year, d.month, d.day, d.hour, d.minute, d.second, d.nanosecond) else {
        return ZonedResult::OutOfRange;
    };
    let found = tz.to_ambiguous_timestamp(civil);
    match (found.offset(), found.unambiguous()) {
        (AmbiguousOffset::Gap { before, after }, _) => ZonedResult::Gap(before.seconds(), after.seconds()),
        (AmbiguousOffset::Fold { before, after }, _) => ZonedResult::Fold(before.seconds(), after.seconds()),
        (_, Ok(t)) => ZonedResult::Instant(t.as_second(), t.subsec_nanosecond()),
        _ => ZonedResult::OutOfRange,
    }
}

/// Trusted: formatting a `jiff::civil::DateTime` made of these parts. The
/// result is jiff's text, or its message where `DateTime::new` refuses the
/// parts; it depends on the parts alone.
#[verifier::external_body]
fn jiff_civil_text(d: CivilDateTimeLiteral) -> (r: String)
    ensures
        r@ == civil_text(d),
{
    match DateTime::new(d.year, d.month, d.day, d.hour, d.minute, d.second, d.nanosecond) {
        Ok(civil) => civil.to_string(),
        Err(error) => error.to_string(),
    }
}

impl CivilDateTimeLiteral {
    /// The date and time in messages.
    pub fn display(&self) -> (r: String)
        ensures
            r@ == civil_text(*self),
    {
        jiff_civil_text(*self)
    }

    pub fn parse(text: &String) -> (r: Result<CivilDateTimeLiteral, String>)
        ensures
            match r {
                Ok(literal) => civil_datetime(text@) == Ok::<CivilDateTimeLiteral, Seq<char>>(literal),
                Err(message) => civil_datetime(text@) == Err::<CivilDateTimeLiteral, Seq<char>>(message@),
            },
    {
        jiff_civil_datetime(text.as_str())
    }

    /// What this date and time is in a time zone.
    pub fn in_zone(self, zone: &IanaTimeZoneId) -> (r: ZonedResult)
        ensures
            r == zoned_datetime(self, zone.name@),
    {
        jiff_zoned_datetime(self, zone.name.as_str())
    }
}

impl OffsetDateTimeLiteral {
    pub fn parse(text: &String) -> (r: Result<OffsetDateTimeLiteral, String>)
        ensures
            match r {
                Ok(literal) => offset_datetime(text@) == Ok::<OffsetDateTimeLiteral, Seq<char>>(literal),
                Err(message) => offset_datetime(text@) == Err::<OffsetDateTimeLiteral, Seq<char>>(message@),
            },
    {
        jiff_timestamp(text.as_str())
    }
}

/// Where time zones are looked up.
#[derive(Debug)]
pub struct TimeZoneRegistry {
    pub version: Option<String>,
}

impl TimeZoneRegistry {
    /// The database that comes with the program.
    pub fn bundled() -> (r: TimeZoneRegistry)
        ensures
            r.version is None,
    {
        TimeZoneRegistry { version: None }
    }

    /// What the version is called in messages.
    pub open spec fn version_text(self) -> Seq<char> {
        match self.version {
            Some(version) => version@,
            None => "unknown"@,
        }
    }

    pub fn version_string(&self) -> (r: String)
        ensures
            r@ == self.version_text(),
    {
        match &self.version {
            Some(version) => version.clone(),
            None => "unknown".to_owned(),
        }
    }

    pub fn parse_iana_id(&self, name: &String) -> (r: Option<IanaTimeZoneId>)
        ensures
            match r {
                Some(zone) => time_zone_name(name@) == Some(zone.name@),
                None => time_zone_name(name@) is None,
            },
    {
        match jiff_time_zone_name(name.as_str()) {
            Some(name) => Some(IanaTimeZoneId { name }),
            None => None,
        }
    }
}

/// What a date and time literal has to be where it stands.
#[derive(Clone, Copy, Debug, PartialEq, Eq, Structural)]
pub enum DatetimeLiteralExpectation {
    OffsetDateTime,
    ZonedCivilDateTime,
    Epoch(TimeScale),
}

} // verus!

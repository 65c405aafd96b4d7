//! Instants and their local readings. An instant is a count of nanoseconds
//! since the Unix epoch; the calendar and the time zone rules come from `jiff`
//! with its bundled time zone database.

use vstd::prelude::*;

use jiff::tz::TimeZone;
use jiff::{RoundMode, Timestamp, Unit, ZonedRound};

verus! {

/// Nanoseconds in a millisecond.
pub const MILLISECOND: i128 = 1_000_000;

/// Nanoseconds in a second.
pub const SECOND: i128 = 1_000_000_000;

/// Nanoseconds in a minute.
pub const MINUTE: i128 = 60_000_000_000;

/// The earliest instant that `jiff::Timestamp` can hold.
pub const FIRST_INSTANT: i128 = -377_705_023_201_000_000_000;

/// The latest instant that `jiff::Timestamp` can hold.
pub const LAST_INSTANT: i128 = 253_402_207_200_999_999_999;

/// The start of the year 0. From here on a year is written with four digits, as
/// timestamps are read; `jiff` writes an earlier one with a sign and four digits
/// and does not read that.
pub const YEAR_ZERO: i128 = -62_167_219_200_000_000_000;

/// Whether an instant is one that a timestamp can hold.
pub open spec fn valid_instant(at: int) -> bool {
    FIRST_INSTANT <= at <= LAST_INSTANT
}

/// What a clock on the wall shows, to the minute. Sunday is weekday 0.
#[derive(Debug, Clone, Copy, PartialEq, Eq)]
pub struct LocalTime {
    pub month: u8,
    pub day: u8,
    pub hour: u8,
    pub minute: u8,
    pub weekday: u8,
}

/// The instant that a timestamp text denotes, as `jiff` parses it.
pub uninterp spec fn instant_of(text: Seq<char>) -> Option<int>;

/// `<jiff::Timestamp as FromStr>::from_str`: the instant is a function of the
/// text alone, and lies in the range of a timestamp.
#[verifier::external_body]
pub(crate) fn parse_instant(text: &str) -> (r: Option<i128>)
    ensures
        match r {
            Some(at) => instant_of(text@) == Some(at as int) && valid_instant(at as int),
            None => instant_of(text@) is None,
        },
{
    text.parse::<Timestamp>().ok().map(|at| at.as_nanosecond())
}

/// The start of the local minute of an instant in a time zone.
pub uninterp spec fn minute_start(at: int, zone: Seq<char>) -> Option<int>;

/// `jiff::Zoned::round` to the minute with `RoundMode::Trunc`, in the zone that
/// `jiff::tz::TimeZone::get` finds: a function of the instant and the zone's
/// name. There is none where the instant is out of range or the zone unknown;
/// in other zones than UTC it is left open for which instants rounding fails.
/// In UTC it is the multiple of a minute at or before the instant.
#[verifier::external_body]
pub(crate) fn floor_to_minute(at: i128, zone: &str) -> (r: Option<i128>)
    ensures
        match r {
            Some(start) => minute_start(at as int, zone@) == Some(start as int) && valid_instant(
                start as int,
            ),
            None => minute_start(at as int, zone@) is None,
        },
        r is Some ==> (valid_instant(at as int) && known_zone(zone@)),
        zone@ == "UTC"@ && 0 <= at <= LAST_INSTANT ==> r == Some((at - at % MINUTE) as i128),
{
    let tz = TimeZone::get(zone).ok()?;
    let zoned = Timestamp::from_nanosecond(at).ok()?.to_zoned(tz);
    let rule = ZonedRound::new().smallest(Unit::Minute).mode(RoundMode::Trunc);
    zoned.round(rule).ok().map(|start| start.timestamp().as_nanosecond())
}

/// Whether the time zone database has a zone of the given name.
pub uninterp spec fn known_zone(zone: Seq<char>) -> bool;

/// `jiff::tz::TimeZone::get`, whether it finds a zone: a function of the name.
/// It finds UTC.
#[verifier::external_body]
pub(crate) fn zone_exists(zone: &str) -> (r: bool)
    ensures
        r == known_zone(zone@),
        zone@ == "UTC"@ ==> r,
{
    TimeZone::get(zone).is_ok()
}

/// What a clock in a time zone shows at an instant.
pub uninterp spec fn local_time_of(at: int, zone: Seq<char>) -> Option<LocalTime>;

/// `jiff::Timestamp::to_zoned` in the zone that `jiff::tz::TimeZone::get` finds,
/// then `month`, `day`, `hour`, `minute` and `weekday`: a function of the
/// instant and the zone's name, each field in its calendar range. There is none
/// where the instant is out of range or the zone is unknown.
#[verifier::external_body]
pub(crate) fn local_time(at: i128, zone: &str) -> (r: Option<LocalTime>)
    ensures
        r == local_time_of(at as int, zone@),
        (r is Some) == (valid_instant(at as int) && known_zone(zone@)),
        r matches Some(t) ==> 1 <= t.month <= 12 && 1 <= t.day <= 31 && t.hour <= 23 && t.minute
            <= 59 && t.weekday <= 6,
{
    let tz = TimeZone::get(zone).ok()?;
    let zoned = Timestamp::from_nanosecond(at).ok()?.to_zoned(tz);
    Some(LocalTime {
        month: u8::try_from(zoned.month()).unwrap_or(0),
        day: u8::try_from(zoned.day()).unwrap_or(0),
        hour: u8::try_from(zoned.hour()).unwrap_or(0),
        minute: u8::try_from(zoned.minute()).unwrap_or(0),
        weekday: u8::try_from(zoned.weekday().to_sunday_zero_offset()).unwrap_or(0),
    })
}

/// The text of an instant as stored timestamps write it, to the second.
pub uninterp spec fn utc_stamp_of(at: int) -> Option<Seq<char>>;

/// `jiff::Timestamp::strftime` with `%Y-%m-%dT%H:%M:%S.000Z`: a function of the
/// instant, and none where the instant is out of range. From the year 0 on,
/// parsing the text gives the instant back, cut to its second.
#[verifier::external_body]
pub(crate) fn utc_stamp(at: i128) -> (r: Option<String>)
    ensures
        match r {
            Some(text) => utc_stamp_of(at as int) == Some(text@),
            None => utc_stamp_of(at as int) is None,
        },
        r is Some <==> valid_instant(at as int),
        r matches Some(text) ==> at >= YEAR_ZERO ==> instant_of(text@) == Some(at - at % SECOND),
{
    let stamp = Timestamp::from_nanosecond(at).ok()?;
    Some(stamp.strftime("%Y-%m-%dT%H:%M:%S.000Z").to_string())
}

/// The text of an instant as stored timestamps write it, to the millisecond.
pub uninterp spec fn utc_millis_of(at: int) -> Option<Seq<char>>;

/// `jiff::Timestamp::strftime` with `%Y-%m-%dT%H:%M:%S.%3fZ`: a function of the
/// instant, and none where the instant is out of range. From the year 0 on,
/// parsing the text gives the instant back, cut to its millisecond.
#[verifier::external_body]
pub(crate) fn utc_millis(at: i128) -> (r: Option<String>)
    ensures
        match r {
            Some(text) => utc_millis_of(at as int) == Some(text@),
            None => utc_millis_of(at as int) is None,
        },
        r is Some <==> valid_instant(at as int),
        r matches Some(text) ==> at >= YEAR_ZERO ==> instant_of(text@) == Some(
            at - at % MILLISECOND,
        ),
{
    let stamp = Timestamp::from_nanosecond(at).ok()?;
    Some(stamp.strftime("%Y-%m-%dT%H:%M:%S.%3fZ").to_string())
}

/// The local date and time of an instant, as prompts show it.
pub uninterp spec fn local_stamp_of(at: int, zone: Seq<char>) -> Option<Seq<char>>;

/// `jiff::Zoned::strftime` with `%Y-%m-%d %H:%M`, in the zone that
/// `jiff::tz::TimeZone::get` finds: a function of the instant and the zone's
/// name. There is none where the instant is out of range or the zone is unknown.
#[verifier::external_body]
pub(crate) fn local_stamp(at: i128, zone: &str) -> (r: Option<String>)
    ensures
        match r {
            Some(text) => local_stamp_of(at as int, zone@) == Some(text@),
            None => local_stamp_of(at as int, zone@) is None,
        },
        (r is Some) == (valid_instant(at as int) && known_zone(zone@)),
{
    let tz = TimeZone::get(zone).ok()?;
    let zoned = Timestamp::from_nanosecond(at).ok()?.to_zoned(tz);
    Some(zoned.strftime("%Y-%m-%d %H:%M").to_string())
}

} // verus!

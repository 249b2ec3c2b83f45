//! Instants in UTC, and the calls into `chrono` that read, write, shift and subtract them.
use crate::clock::{clock_showed, zone_gave_earliest, zone_gave_single, zone_showed_day};
use crate::text::text_lt;
use chrono::{Datelike, Local, NaiveDate, TimeZone, Utc};
use vstd::prelude::*;

verus! {

/// The timestamp of the first second that `chrono` can hold.
pub const MIN_SECS: i64 = -8_334_601_228_800;

/// The timestamp of the last second that `chrono` can hold.
pub const MAX_SECS: i64 = 8_210_266_876_799;

/// The timestamp of the first second of the year 0.
pub const FIRST_PLAIN_YEAR_SECS: i64 = -62_167_219_200;

/// The timestamp of the last second of the year 9999.
pub const LAST_PLAIN_YEAR_SECS: i64 = 253_402_300_799;

/// The day number, counted from the start of the common era, of the first day of `chrono`.
pub const MIN_DAY: i32 = -95_746_129;

/// The day number, counted from the start of the common era, of the last day of `chrono`.
pub const MAX_DAY: i32 = 95_745_399;

/// The day number of 1 January 1970.
pub const EPOCH_DAY: i32 = 719_163;

pub const SECS_PER_HOUR: i64 = 3_600;

pub const SECS_PER_DAY: i64 = 86_400;

/// An instant: the seconds since the Unix epoch and the nanoseconds within that second. Within
/// a leap second `nanos` is one billion or more, and the second is the last of its minute.
#[derive(Clone, Copy, Debug, PartialEq, Eq, Structural)]
pub struct UtcTime {
    pub secs: i64,
    pub nanos: u32,
}

/// `secs` and `nanos` make an instant that `chrono` can hold.
pub open spec fn instant_ok(secs: i64, nanos: u32) -> bool {
    &&& MIN_SECS <= secs <= MAX_SECS
    &&& nanos < 2_000_000_000
    &&& nanos >= 1_000_000_000 ==> secs as int % 60 == 59
}

/// The year of the second `secs` has four digits and no sign.
pub open spec fn plain_year(secs: i64) -> bool {
    FIRST_PLAIN_YEAR_SECS <= secs <= LAST_PLAIN_YEAR_SECS
}

/// The second `secs` is in a year before 10000.
pub open spec fn before_year_10000(secs: i64) -> bool {
    secs <= LAST_PLAIN_YEAR_SECS
}

impl UtcTime {
    pub open spec fn valid(self) -> bool {
        instant_ok(self.secs, self.nanos)
    }

    /// What the system clock can show: no instant before the epoch and no leap second.
    pub open spec fn from_clock(self) -> bool {
        &&& 0 <= self.secs <= MAX_SECS
        &&& self.nanos < 1_000_000_000
    }

    /// The clock was read, and showed this instant.
    pub open spec fn shown_by_clock(self) -> bool {
        self.from_clock() && clock_showed(self.secs, self.nanos)
    }

    pub open spec fn before(self, other: UtcTime) -> bool {
        self.secs < other.secs || (self.secs == other.secs && self.nanos < other.nanos)
    }

    /// The instant `delta` seconds later; before, if `delta` is negative.
    pub open spec fn plus_seconds(self, delta: int) -> UtcTime {
        UtcTime { secs: (self.secs + delta) as i64, nanos: self.nanos }
    }

    /// The instant `delta` seconds later is one that `chrono` can hold.
    pub open spec fn can_shift(self, delta: int) -> bool {
        MIN_SECS <= self.secs + delta <= MAX_SECS
    }

    /// The instant `hours` hours earlier.
    pub open spec fn hours_back(self, hours: i64) -> UtcTime {
        self.plus_seconds(-(hours * 3_600))
    }

    /// The instant `hours` hours earlier is one that `chrono` can hold.
    pub open spec fn reaches_back(self, hours: i64) -> bool {
        self.can_shift(-(hours * 3_600))
    }

    /// The text of the instant can be read back, in a year of four digits.
    pub open spec fn reads_back(self) -> bool {
        plain_year(self.secs) ==> instant_of(self.text()) == Some(self)
    }

    /// The RFC 3339 text of the instant.
    pub open spec fn text(self) -> Seq<char> {
        rfc3339_text(self.secs, self.nanos)
    }
}

impl View for UtcTime {
    type V = UtcTime;

    open spec fn view(&self) -> UtcTime {
        *self
    }
}

/// The instant that an RFC 3339 text names, if it is one.
pub open spec fn instant_of(text: Seq<char>) -> Option<UtcTime> {
    match rfc3339_instant(text) {
        Some((secs, nanos)) if instant_ok(secs, nanos) => Some(UtcTime { secs, nanos }),
        _ => None,
    }
}

/// The text is the one that is written for the instant, in a year of four digits.
pub open spec fn written_at(text: Seq<char>, t: UtcTime) -> bool {
    t.valid() && plain_year(t.secs) && text == t.text()
}

/// The instant that a text names, or `default` where it names none.
pub open spec fn instant_or(text: Seq<char>, default: UtcTime) -> UtcTime {
    match instant_of(text) {
        Some(t) => t,
        None => default,
    }
}

/// `n / d` rounded toward zero.
pub open spec fn div_toward_zero(n: int, d: int) -> int {
    if n >= 0 {
        n / d
    } else {
        -((-n) / d)
    }
}

/// The nanoseconds from `b` to `a`. A leap second is counted where the later of the two times
/// of day lies beyond it.
pub open spec fn nanos_between(a: UtcTime, b: UtcTime) -> int {
    let a_of_day = a.secs as int % 86_400;
    let b_of_day = b.secs as int % 86_400;
    let leap: int = if a_of_day > b_of_day && b.nanos >= 1_000_000_000 {
        1
    } else if a_of_day < b_of_day && a.nanos >= 1_000_000_000 {
        -1
    } else {
        0
    };
    (a.secs - b.secs + leap) * 1_000_000_000 + a.nanos - b.nanos
}

/// The whole seconds from `b` to `a`, rounded toward zero.
pub open spec fn seconds_between(a: UtcTime, b: UtcTime) -> int {
    div_toward_zero(nanos_between(a, b), 1_000_000_000)
}

/// The whole hours from `b` to `a`, rounded toward zero.
pub open spec fn hours_between(a: UtcTime, b: UtcTime) -> int {
    div_toward_zero(seconds_between(a, b), 3_600)
}

/// The distance of two instants in whole seconds.
pub open spec fn distance(a: UtcTime, b: UtcTime) -> int {
    if seconds_between(a, b) >= 0 {
        seconds_between(a, b)
    } else {
        -seconds_between(a, b)
    }
}

/// What `chrono::DateTime::parse_from_rfc3339` reads from a text: the timestamp and the
/// nanoseconds of the second, or nothing where it fails.
pub uninterp spec fn rfc3339_instant(text: Seq<char>) -> Option<(i64, u32)>;

/// What `chrono::DateTime::to_rfc3339` writes for the instant in UTC.
pub uninterp spec fn rfc3339_text(secs: i64, nanos: u32) -> Seq<char>;

/// Reads the clock with `chrono::Utc::now`, which gives no instant before the epoch, none
/// beyond its own range and no leap second.
#[verifier::external_body]
fn chrono_now() -> (res: (i64, u32))
    ensures
        0 <= res.0 <= MAX_SECS,
        res.1 < 1_000_000_000,
        clock_showed(res.0, res.1),
{
    let now = Utc::now();
    (now.timestamp(), now.timestamp_subsec_nanos())
}

/// Calls `chrono::DateTime::parse_from_rfc3339`. What it reads is a function of the text, and
/// an instant in `chrono`'s range.
#[verifier::external_body]
fn chrono_parse(text: &str) -> (res: Option<(i64, u32)>)
    ensures
        res == rfc3339_instant(text@),
        res matches Some(t) ==> instant_ok(t.0, t.1),
{
    match chrono::DateTime::parse_from_rfc3339(text) {
        Ok(dt) => Some((dt.timestamp(), dt.timestamp_subsec_nanos())),
        Err(_) => None,
    }
}

/// Calls `chrono::DateTime::to_rfc3339` on the instant in UTC. Within the years 0 to 9999
/// `parse_from_rfc3339` reads the text back as the same instant, and the texts are in the order
/// of the instants: date and time have fixed width, and the fraction has 0, 3, 6 or 9 digits
/// before a `+`, which comes before `.` and before the digits. A year before 0 is written with a
/// `-` in front, which comes before the digits too, so that its text comes before all of these.
#[verifier::external_body]
fn chrono_format(secs: i64, nanos: u32) -> (res: String)
    requires
        instant_ok(secs, nanos),
    ensures
        res@ == rfc3339_text(secs, nanos),
        plain_year(secs) ==> rfc3339_instant(res@) == Some((secs, nanos)),
        before_year_10000(secs) ==> forall|s: i64, n: u32|
            instant_ok(s, n) && plain_year(s) ==> (#[trigger] text_lt(res@, rfc3339_text(s, n))
                <==> (secs < s || (secs == s && nanos < n))),
        before_year_10000(secs) ==> forall|s: i64, n: u32|
            instant_ok(s, n) && plain_year(s) ==> (#[trigger] text_lt(rfc3339_text(s, n), res@)
                <==> (s < secs || (s == secs && n < nanos))),
{
    chrono::DateTime::from_timestamp(secs, nanos).expect("instant in range").to_rfc3339()
}

/// Calls `TimeDelta::try_seconds` and `DateTime::checked_add_signed` of `chrono`: the sum, or
/// nothing where it is out of `chrono`'s range.
#[verifier::external_body]
fn chrono_add(secs: i64, nanos: u32, delta: i64) -> (res: Option<(i64, u32)>)
    requires
        instant_ok(secs, nanos),
        nanos < 1_000_000_000,
    ensures
        res == if MIN_SECS <= secs + delta <= MAX_SECS {
            Some(((secs + delta) as i64, nanos))
        } else {
            None
        },
{
    let delta = chrono::TimeDelta::try_seconds(delta)?;
    let sum = chrono::DateTime::from_timestamp(secs, nanos)?.checked_add_signed(delta)?;
    Some((sum.timestamp(), sum.timestamp_subsec_nanos()))
}

/// Calls `TimeDelta::num_seconds` of `chrono` on the difference of two instants in UTC.
#[verifier::external_body]
fn chrono_seconds_between(a: UtcTime, b: UtcTime) -> (res: i64)
    requires
        a.valid(),
        b.valid(),
    ensures
        res == seconds_between(a, b),
{
    let a = chrono::DateTime::from_timestamp(a.secs, a.nanos).expect("instant in range");
    let b = chrono::DateTime::from_timestamp(b.secs, b.nanos).expect("instant in range");
    (a - b).num_seconds()
}

/// Calls `TimeDelta::num_hours` of `chrono` on the difference of two instants in UTC.
#[verifier::external_body]
fn chrono_hours_between(a: UtcTime, b: UtcTime) -> (res: i64)
    requires
        a.valid(),
        b.valid(),
    ensures
        res == hours_between(a, b),
{
    let a = chrono::DateTime::from_timestamp(a.secs, a.nanos).expect("instant in range");
    let b = chrono::DateTime::from_timestamp(b.secs, b.nanos).expect("instant in range");
    (a - b).num_hours()
}

/// Compares, with the order of `chrono::TimeDelta`, the difference of two instants in UTC with
/// `TimeDelta::hours`, which takes any number of hours whose milliseconds fit in an `i64`.
#[verifier::external_body]
fn chrono_less_than_hours(a: UtcTime, b: UtcTime, hours: i64) -> (res: bool)
    requires
        a.valid(),
        b.valid(),
        -i64::MAX <= hours * 3_600_000 <= i64::MAX,
    ensures
        res == (nanos_between(a, b) < hours * 3_600 * 1_000_000_000),
{
    let a = chrono::DateTime::from_timestamp(a.secs, a.nanos).expect("instant in range");
    let b = chrono::DateTime::from_timestamp(b.secs, b.nanos).expect("instant in range");
    a - b < chrono::TimeDelta::hours(hours)
}

/// Calls `TimeZone::timestamp_opt` of `chrono::Utc`: the instant of a timestamp, or nothing
/// where it is out of `chrono`'s range.
#[verifier::external_body]
fn chrono_from_timestamp(secs: i64) -> (res: Option<(i64, u32)>)
    ensures
        res == if MIN_SECS <= secs <= MAX_SECS {
            Some((secs, 0u32))
        } else {
            None
        },
{
    Utc.timestamp_opt(secs, 0).single().map(|dt| (dt.timestamp(), dt.timestamp_subsec_nanos()))
}

/// Reads the clock once with `chrono::Local::now`: today's day number in the machine's time zone
/// and the timestamp of the reading. Which they are depends on the clock and the zone; an offset
/// from UTC is less than a day, so that the day is the one of the timestamp or next to it.
#[verifier::external_body]
fn local_today() -> (res: (i32, i64))
    ensures
        MIN_DAY <= res.0 <= MAX_DAY,
        0 <= res.1 <= MAX_SECS,
        is_day_of(res.0, res.1),
        zone_showed_day(res.0, res.1),
{
    let now = Local::now();
    (now.date_naive().num_days_from_ce(), now.timestamp())
}

/// The timestamp of the full hour `hour` of a day in the machine's time zone, from `single` of
/// `chrono::Local::from_local_datetime`: nothing where that local time does not exist or occurs
/// twice. An offset from UTC is less than a day, and the zone says no more.
#[verifier::external_body]
fn local_single(day: i32, hour: u32) -> (res: Option<i64>)
    requires
        MIN_DAY <= day <= MAX_DAY,
        hour < 24,
    ensures
        res matches Some(ts) ==> near_hour(ts, day, hour),
        zone_gave_single(day, hour, res),
{
    let date = NaiveDate::from_num_days_from_ce_opt(day).expect("day in range");
    let local = date.and_hms_opt(hour, 0, 0).expect("hour in range");
    Local.from_local_datetime(&local).single().map(|dt| dt.timestamp())
}

/// As `local_single`, from `earliest`, which gives an instant also where the local time occurs
/// twice.
#[verifier::external_body]
fn local_earliest(day: i32, hour: u32) -> (res: Option<i64>)
    requires
        MIN_DAY <= day <= MAX_DAY,
        hour < 24,
    ensures
        res matches Some(ts) ==> near_hour(ts, day, hour),
        zone_gave_earliest(day, hour, res),
{
    let date = NaiveDate::from_num_days_from_ce_opt(day).expect("day in range");
    let local = date.and_hms_opt(hour, 0, 0).expect("hour in range");
    Local.from_local_datetime(&local).earliest().map(|dt| dt.timestamp())
}

/// `ts` is less than a day away from the full hour `hour` of the day in UTC.
pub open spec fn near_hour(ts: i64, day: i32, hour: u32) -> bool {
    let utc = (day - EPOCH_DAY) * 86_400 + hour * 3_600;
    -86_400 < ts - utc < 86_400
}

/// `ts` may lie in the day in some time zone: it is less than a day away from that day in UTC.
pub open spec fn is_day_of(day: i32, ts: i64) -> bool {
    let utc = (day - EPOCH_DAY) * 86_400;
    -86_400 < ts - utc < 2 * 86_400
}

/// The start of a day: midnight where it occurs exactly once, else one o'clock, else now.
pub open spec fn start_among(midnight: Option<i64>, one_o_clock: Option<i64>, now: i64) -> i64 {
    match midnight {
        Some(ts) => ts,
        None => match one_o_clock {
            Some(ts) => ts,
            None => now,
        },
    }
}

/// `midnight` and `one_o_clock` are what a time zone may say of those hours of the day.
pub open spec fn hours_of_day(
    day: i32,
    midnight: Option<i64>,
    one_o_clock: Option<i64>,
) -> bool {
    &&& MIN_DAY <= day <= MAX_DAY
    &&& midnight matches Some(ts) ==> near_hour(ts, day, 0)
    &&& one_o_clock matches Some(ts) ==> near_hour(ts, day, 1)
}

/// The current instant.
pub fn utc_now() -> (now: UtcTime)
    ensures
        now.from_clock(),
        now.shown_by_clock(),
        now.valid(),
{
    let (secs, nanos) = chrono_now();
    UtcTime { secs, nanos }
}

/// Picks the start of a day: midnight where it occurs exactly once, else one o'clock, else now.
pub fn day_start(midnight: Option<i64>, one_o_clock: Option<i64>, now: i64) -> (res: i64)
    ensures
        res == start_among(midnight, one_o_clock, now),
{
    match midnight {
        Some(ts) => ts,
        None => match one_o_clock {
            Some(ts) => ts,
            None => now,
        },
    }
}

/// Returns the UTC timestamp of today's 0:00 in the local time zone. Where midnight does not
/// exist or occurs twice, because clocks are put forward or back, it is that of 1:00, and where
/// that does not exist either, it is now. Today is the day of one reading of the clock, `asked_at`,
/// and now is another reading, `now`. Which timestamps they are depends on the clock and the zone.
pub fn today_0am_utc() -> (res: i64)
    ensures
        exists|
            day: i32,
            asked_at: i64,
            midnight: Option<i64>,
            one_o_clock: Option<i64>,
            now: UtcTime,
        |
            0 <= asked_at <= MAX_SECS && #[trigger] is_day_of(day, asked_at) && zone_showed_day(
                day,
                asked_at,
            ) && #[trigger] hours_of_day(day, midnight, one_o_clock) && zone_gave_single(
                day,
                0,
                midnight,
            ) && zone_gave_earliest(day, 1, one_o_clock)
                && #[trigger] now.shown_by_clock() && res == start_among(
                midnight,
                one_o_clock,
                now.secs,
            ),
{
    let (day, asked_at) = local_today();
    let midnight = local_single(day, 0);
    let one_o_clock = local_earliest(day, 1);
    let now = utc_now();
    proof {
        assert(is_day_of(day, asked_at));
        assert(hours_of_day(day, midnight, one_o_clock));
    }
    day_start(midnight, one_o_clock, now.secs)
}

impl UtcTime {
    /// The instant that an RFC 3339 text names, if it is one.
    pub fn parse(text: &str) -> (res: Option<UtcTime>)
        ensures
            res == instant_of(text@),
            res matches Some(t) ==> t.valid(),
    {
        match chrono_parse(text) {
            Some((secs, nanos)) => Some(UtcTime { secs, nanos }),
            None => None,
        }
    }

    /// The instant that an RFC 3339 text names, or `default` where it names none.
    pub fn parse_or(text: &str, default: UtcTime) -> (res: UtcTime)
        ensures
            res == instant_or(text@, default),
    {
        match UtcTime::parse(text) {
            Some(t) => t,
            None => default,
        }
    }

    /// The instant as an RFC 3339 text with the offset `+00:00`.
    pub fn to_rfc3339(&self) -> (res: String)
        requires
            self.valid(),
        ensures
            res@ == self.text(),
            self.reads_back(),
            before_year_10000(self.secs) ==> forall|other: UtcTime|
                other.valid() && plain_year(other.secs) ==> {
                    &&& text_lt(res@, #[trigger] other.text()) <==> self.before(other)
                    &&& text_lt(other.text(), res@) <==> other.before(*self)
                },
    {
        let res = chrono_format(self.secs, self.nanos);
        proof {
            if before_year_10000(self.secs) {
                assert forall|other: UtcTime| other.valid() && plain_year(other.secs) implies {
                    &&& text_lt(res@, #[trigger] other.text()) <==> self.before(other)
                    &&& text_lt(other.text(), res@) <==> other.before(*self)
                } by {
                    let (s, n) = (other.secs, other.nanos);
                    assert(text_lt(res@, rfc3339_text(s, n)) <==> self.before(other));
                    assert(text_lt(rfc3339_text(s, n), res@) <==> other.before(*self));
                }
            }
        }
        res
    }

    /// The instant `delta` seconds later, if it is in range.
    pub fn checked_add(&self, delta: i64) -> (res: Option<UtcTime>)
        requires
            self.valid(),
            self.nanos < 1_000_000_000,
        ensures
            res == if self.can_shift(delta as int) {
                Some(self.plus_seconds(delta as int))
            } else {
                None
            },
            res matches Some(t) ==> t.valid() && t.nanos < 1_000_000_000,
    {
        match chrono_add(self.secs, self.nanos, delta) {
            Some((secs, nanos)) => Some(UtcTime { secs, nanos }),
            None => None,
        }
    }

    /// The instant `count` units of `unit` seconds earlier, if it is in range.
    pub fn checked_back(&self, count: i64, unit: i64) -> (res: Option<UtcTime>)
        requires
            self.valid(),
            self.nanos < 1_000_000_000,
            0 < unit,
        ensures
            res == if self.can_shift(-(count * unit)) {
                Some(self.plus_seconds(-(count * unit)))
            } else {
                None
            },
            res matches Some(t) ==> t.valid() && t.nanos < 1_000_000_000,
    {
        match count.checked_mul(unit) {
            Some(secs) => {
                if secs == i64::MIN {
                    None
                } else {
                    self.checked_add(-secs)
                }
            },
            None => None,
        }
    }

    /// The instant `hours` hours later, if it is in range.
    pub fn ahead_hours(&self, hours: i64) -> (res: Option<UtcTime>)
        requires
            self.valid(),
            self.nanos < 1_000_000_000,
        ensures
            res == if self.can_shift(hours * 3_600) {
                Some(self.plus_seconds(hours * 3_600))
            } else {
                None
            },
            res matches Some(t) ==> t.valid() && t.nanos < 1_000_000_000,
    {
        match hours.checked_mul(SECS_PER_HOUR) {
            Some(secs) => self.checked_add(secs),
            None => None,
        }
    }

    /// The instant `hours` hours earlier, if it is in range.
    pub fn back_hours(&self, hours: i64) -> (res: Option<UtcTime>)
        requires
            self.valid(),
            self.nanos < 1_000_000_000,
        ensures
            res == if self.reaches_back(hours) {
                Some(self.hours_back(hours))
            } else {
                None
            },
            res matches Some(t) ==> t.valid() && t.nanos < 1_000_000_000,
    {
        self.checked_back(hours, SECS_PER_HOUR)
    }

    /// The whole seconds from `earlier` to this instant, rounded toward zero.
    pub fn seconds_since(&self, earlier: UtcTime) -> (res: i64)
        requires
            self.valid(),
            earlier.valid(),
        ensures
            res == seconds_between(*self, earlier),
    {
        chrono_seconds_between(*self, earlier)
    }

    /// The whole hours from `earlier` to this instant, rounded toward zero.
    pub fn hours_since(&self, earlier: UtcTime) -> (res: i64)
        requires
            self.valid(),
            earlier.valid(),
        ensures
            res == hours_between(*self, earlier),
    {
        chrono_hours_between(*self, earlier)
    }

    /// Whether less than `hours` hours have gone from `earlier` to this instant.
    pub fn is_within_hours_of(&self, earlier: UtcTime, hours: i64) -> (res: bool)
        requires
            self.valid(),
            earlier.valid(),
            -i64::MAX <= hours * 3_600_000 <= i64::MAX,
        ensures
            res == (nanos_between(*self, earlier) < hours * 3_600 * 1_000_000_000),
    {
        chrono_less_than_hours(*self, earlier, hours)
    }

    /// The distance to another instant in whole seconds.
    pub fn distance_to(&self, other: UtcTime) -> (res: u64)
        requires
            self.valid(),
            other.valid(),
        ensures
            res == distance(*self, other),
    {
        let secs: i64 = chrono_seconds_between(*self, other);
        if secs >= 0 {
            secs as u64
        } else {
            proof {
                distance_bounded(*self, other);
            }
            (-secs) as u64
        }
    }

    /// The instant of a timestamp, if it is in range.
    pub fn from_timestamp(secs: i64) -> (res: Option<UtcTime>)
        ensures
            res == if MIN_SECS <= secs <= MAX_SECS {
                Some(UtcTime { secs, nanos: 0 })
            } else {
                None
            },
    {
        match chrono_from_timestamp(secs) {
            Some((secs, nanos)) => Some(UtcTime { secs, nanos }),
            None => None,
        }
    }

    /// Whether this instant comes before another.
    pub fn is_before(&self, other: UtcTime) -> (res: bool)
        ensures
            res == self.before(other),
    {
        self.secs < other.secs || (self.secs == other.secs && self.nanos < other.nanos)
    }
}

/// Two instants are less than 2^45 seconds apart.
proof fn distance_bounded(a: UtcTime, b: UtcTime)
    requires
        a.valid(),
        b.valid(),
    ensures
        -35_184_372_088_832 < seconds_between(a, b) < 35_184_372_088_832,
{
}

} // verus!

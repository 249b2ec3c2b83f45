//! Instants, and the clock.
use crate::calls::plain::{
    comes_before, differences_are_in_nanoseconds, epoch_nanos, ordinary, read_instant,
    texts_are_compared_by_first_difference, whole_units, written,
};
use crate::clock::{clock_showed, zone_gave_earliest, zone_gave_single, zone_showed_day};
use crate::time::{
    day_start, hours_of_day, is_day_of, start_among, today_0am_utc, utc_now, UtcTime, MAX_SECS,
    MIN_SECS,
};
use vstd::prelude::*;

verus! {

/// The current instant is one that the clock shows when it is asked.
pub proof fn now_is_read_from_the_clock(now: UtcTime)
    requires
        call_ensures(utc_now, (), now),
    ensures
        clock_showed(now.secs, now.nanos),
        now.secs >= 0,
        ordinary(now),
{
}

/// The day starts at midnight where the zone gives one, at one o'clock where it gives only that,
/// and now where it gives neither.
pub proof fn day_starts_at_the_first_known_hour(
    midnight: Option<i64>,
    one_o_clock: Option<i64>,
    now: i64,
    res: i64,
)
    requires
        call_ensures(day_start, (midnight, one_o_clock, now), res),
    ensures
        midnight is Some ==> Some(res) == midnight,
        midnight is None && one_o_clock is Some ==> Some(res) == one_o_clock,
        midnight is None && one_o_clock is None ==> res == now,
{
}

/// The start of today is what the zone says of midnight, or else of one o'clock, of the day that
/// it puts the clock in, or else a reading of the clock.
pub proof fn today_is_the_day_of_the_clock(res: i64)
    requires
        call_ensures(today_0am_utc, (), res),
    ensures
        exists|day: i32, asked_at: i64, midnight: Option<i64>, one: Option<i64>, now: UtcTime|
            #[trigger] zone_showed_day(day, asked_at) && #[trigger] zone_gave_single(
                day,
                0,
                midnight,
            ) && #[trigger] zone_gave_earliest(day, 1, one) && #[trigger] now.shown_by_clock()
                && (midnight is Some ==> Some(res) == midnight) && (midnight is None && one is Some
                ==> Some(res) == one) && (midnight is None && one is None ==> res == now.secs),
{
    let (day, asked_at, midnight, one, now) = choose|
        day: i32,
        asked_at: i64,
        midnight: Option<i64>,
        one: Option<i64>,
        now: UtcTime,
    |
        0 <= asked_at <= MAX_SECS && #[trigger] is_day_of(day, asked_at) && zone_showed_day(
            day,
            asked_at,
        ) && #[trigger] hours_of_day(day, midnight, one) && zone_gave_single(day, 0, midnight)
            && zone_gave_earliest(day, 1, one) && #[trigger] now.shown_by_clock() && res
            == start_among(midnight, one, now.secs);
    assert(zone_showed_day(day, asked_at) && zone_gave_single(day, 0, midnight)
        && zone_gave_earliest(day, 1, one) && now.shown_by_clock());
}

/// An instant comes before another where fewer seconds have gone, or as many and fewer
/// nanoseconds.
pub proof fn instants_are_in_order(a: &UtcTime, b: UtcTime, res: bool)
    requires
        call_ensures(UtcTime::is_before, (a, b), res),
    ensures
        a.secs != b.secs ==> res == (a.secs < b.secs),
        a.secs == b.secs ==> res == (a.nanos < b.nanos),
        ordinary(*a) && ordinary(b) ==> res == (epoch_nanos(*a) < epoch_nanos(b)),
{
}

/// Seconds and hours since an instant are counted whole, and a distance is the same both ways.
pub proof fn spans_are_counted_whole(
    a: &UtcTime,
    b: &UtcTime,
    seconds: i64,
    hours: i64,
    distance: u64,
    back: u64,
)
    requires
        ordinary(*a),
        ordinary(*b),
        call_ensures(UtcTime::seconds_since, (a, *b), seconds),
        call_ensures(UtcTime::hours_since, (a, *b), hours),
        call_ensures(UtcTime::distance_to, (a, *b), distance),
        call_ensures(UtcTime::distance_to, (b, *a), back),
    ensures
        whole_units(seconds as int, epoch_nanos(*a) - epoch_nanos(*b), 1_000_000_000),
        whole_units(hours as int, epoch_nanos(*a) - epoch_nanos(*b), 3_600_000_000_000),
        distance == if seconds >= 0 {
            seconds as int
        } else {
            -seconds
        },
        distance == back,
{
    differences_are_in_nanoseconds(*a, *b);
    differences_are_in_nanoseconds(*b, *a);
}

/// Less than some hours have gone where the nanoseconds say so.
pub proof fn within_hours_is_exact(a: &UtcTime, b: UtcTime, hours: i64, res: bool)
    requires
        ordinary(*a),
        ordinary(b),
        call_ensures(UtcTime::is_within_hours_of, (a, b, hours), res),
    ensures
        res == (epoch_nanos(*a) - epoch_nanos(b) < hours * 3_600_000_000_000),
{
    differences_are_in_nanoseconds(*a, b);
}

/// The instant is `seconds` seconds after another.
pub open spec fn seconds_later(later: UtcTime, t: UtcTime, seconds: int) -> bool {
    later.secs == t.secs + seconds && later.nanos == t.nanos
}

/// The calendar reaches as far as `seconds` seconds after the instant.
pub open spec fn in_calendar(t: UtcTime, seconds: int) -> bool {
    MIN_SECS <= t.secs + seconds <= MAX_SECS
}

/// An instant is shifted by exactly as many seconds or hours as are given, if the calendar reaches
/// that far.
pub proof fn shifts_are_exact(
    t: &UtcTime,
    n: i64,
    unit: i64,
    added: Option<UtcTime>,
    back: Option<UtcTime>,
    ahead_hours: Option<UtcTime>,
    back_hours: Option<UtcTime>,
)
    requires
        call_ensures(UtcTime::checked_add, (t, n), added),
        call_ensures(UtcTime::checked_back, (t, n, unit), back),
        call_ensures(UtcTime::ahead_hours, (t, n), ahead_hours),
        call_ensures(UtcTime::back_hours, (t, n), back_hours),
    ensures
        added is Some <==> in_calendar(*t, n as int),
        added matches Some(later) ==> seconds_later(later, *t, n as int),
        back is Some <==> in_calendar(*t, -(n * unit)),
        back matches Some(earlier) ==> seconds_later(earlier, *t, -(n * unit)),
        ahead_hours is Some <==> in_calendar(*t, 3_600 * n),
        ahead_hours matches Some(later) ==> seconds_later(later, *t, 3_600 * n),
        back_hours is Some <==> in_calendar(*t, -3_600 * n),
        back_hours matches Some(earlier) ==> seconds_later(earlier, *t, -3_600 * n),
{
}

/// A timestamp is read as its whole second, if the calendar has it.
pub proof fn timestamps_are_whole_seconds(secs: i64, res: Option<UtcTime>)
    requires
        call_ensures(UtcTime::from_timestamp, (secs,), res),
    ensures
        res matches Some(t) ==> t.secs == secs && t.nanos == 0,
        res is Some <==> MIN_SECS <= secs <= MAX_SECS,
{
}

/// The instant is in a year of four digits: 0000-01-01T00:00:00 to 9999-12-31T23:59:60.
pub open spec fn four_digit_year(t: UtcTime) -> bool {
    -62_167_219_200 <= t.secs <= 253_402_300_799
}

/// The text of an instant is read as that instant, also where a default stands by, and of two
/// instants the earlier has the text that comes first.
pub proof fn texts_stand_for_instants(
    a: &UtcTime,
    b: &UtcTime,
    of_a: String,
    of_b: String,
    text: &str,
    default: UtcTime,
    read: Option<UtcTime>,
    read_or: UtcTime,
)
    requires
        a.valid(),
        b.valid(),
        four_digit_year(*a),
        four_digit_year(*b),
        call_ensures(UtcTime::to_rfc3339, (a,), of_a),
        call_ensures(UtcTime::to_rfc3339, (b,), of_b),
        text@ == of_a@,
        call_ensures(UtcTime::parse, (text,), read),
        call_ensures(UtcTime::parse_or, (text, default), read_or),
    ensures
        of_a@ == written(*a),
        read == Some(*a),
        read_or == *a,
        comes_before(of_a@, of_b@) <==> a.secs < b.secs || (a.secs == b.secs && a.nanos < b.nanos),
        of_a@ == of_b@ ==> *a == *b,
{
    assert(b.text() == of_b@);
    texts_are_compared_by_first_difference(of_a@, of_b@);
}

/// Every instant has its text.
pub proof fn every_instant_has_its_text(t: &UtcTime, res: String)
    requires
        call_ensures(UtcTime::to_rfc3339, (t,), res),
    ensures
        res@ == written(*t),
{
}

/// A text is read the same with and without a default, which counts only where the text names no
/// instant.
pub proof fn default_counts_where_nothing_is_read(
    text: &str,
    default: UtcTime,
    read: Option<UtcTime>,
    read_or: UtcTime,
)
    requires
        call_ensures(UtcTime::parse, (text,), read),
        call_ensures(UtcTime::parse_or, (text, default), read_or),
    ensures
        read == read_instant(text@),
        read matches Some(t) ==> read_or == t,
        read is None ==> read_or == default,
{
}

} // verus!

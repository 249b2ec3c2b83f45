//! What is known only from outside: readings of the clock and of the machine's time zone, and
//! numbers that chance has drawn.
//!
//! What such a value has to be like is known in this module alone. Everywhere else it takes the
//! reading or the drawing itself to vouch for it: no value that was made up, computed or kept from
//! before will do.
use crate::time::{is_day_of, near_hour, MAX_SECS};
use vstd::prelude::*;

verus! {

/// The clock was read, and showed this instant.
pub closed spec fn clock_showed(secs: i64, nanos: u32) -> bool {
    0 <= secs <= MAX_SECS && nanos < 1_000_000_000
}

/// The clock was read at the timestamp, and the machine's time zone put it in this day.
pub closed spec fn zone_showed_day(day: i32, ts: i64) -> bool {
    is_day_of(day, ts)
}

/// The machine's time zone was asked for the one instant at which a full hour of a day begins, and
/// gave this answer.
pub closed spec fn zone_gave_single(day: i32, hour: u32, answer: Option<i64>) -> bool {
    answer matches Some(ts) ==> near_hour(ts, day, hour)
}

/// The machine's time zone was asked for the first instant at which a full hour of a day begins,
/// and gave this answer.
pub closed spec fn zone_gave_earliest(day: i32, hour: u32, answer: Option<i64>) -> bool {
    answer matches Some(ts) ==> near_hour(ts, day, hour)
}

/// Chance was asked for a number below the bound, and drew this one.
pub closed spec fn chance_drew(bound: u8, number: u8) -> bool {
    number < bound
}

} // verus!

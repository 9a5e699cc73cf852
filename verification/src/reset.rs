//! When a limit window is reset.

use vstd::prelude::*;

verus! {

/// Nanoseconds in a second.
pub const NANOS: u32 = 1_000_000_000;

/// A moment in UTC: seconds since the Unix epoch, and nanoseconds since that second
/// began. In a leap second the nanoseconds run on past a whole second.
#[derive(Debug, Clone, Copy, PartialEq, Eq, Structural)]
pub struct UtcInstant {
    pub secs: i64,
    pub nanos: u32,
}

impl UtcInstant {
    /// The moment lies in the years -262143 to 262142, and only the last second of
    /// a minute may be a leap second.
    pub open spec fn valid(self) -> bool {
        &&& -8_334_601_228_800 <= self.secs <= 8_210_266_876_799
        &&& self.nanos < 2_000_000_000
        &&& self.nanos >= NANOS ==> self.secs as int % 60 == 59
    }

    /// Whether the moment is one that calendars can hold.
    pub fn is_valid(&self) -> (valid: bool)
        ensures
            valid == self.valid(),
    {
        if self.secs < -8_334_601_228_800 || self.secs > 8_210_266_876_799 {
            return false;
        }
        self.nanos < NANOS || (self.nanos < 2_000_000_000 && self.secs.checked_rem_euclid(
            60,
        ).unwrap() == 59)
    }
}

/// The leap second to add when going from `from` to `to`. It goes by the times of
/// day alone: one that `from` lies in counts when `to` is later in the day, and one
/// that `to` lies in counts backwards when `to` is earlier in the day.
pub open spec fn leap_second_between(to: UtcInstant, from: UtcInstant) -> int {
    let to_of_day = to.secs as int % 86_400;
    let from_of_day = from.secs as int % 86_400;
    if to_of_day > from_of_day && from.nanos >= NANOS {
        1
    } else if to_of_day < from_of_day && to.nanos >= NANOS {
        -1
    } else {
        0
    }
}

/// The time from `from` to `to` in nanoseconds.
pub open spec fn nanos_between(to: UtcInstant, from: UtcInstant) -> int {
    (to.secs - from.secs + leap_second_between(to, from)) * 1_000_000_000 + (to.nanos - from.nanos)
}

/// The whole seconds in a number of nanoseconds, rounded towards zero.
pub open spec fn whole_seconds(nanos: int) -> int {
    if nanos >= 0 {
        nanos / 1_000_000_000
    } else {
        -(-nanos / 1_000_000_000)
    }
}

/// The moment that a text in RFC 3339 form denotes; nothing for any other text.
pub uninterp spec fn rfc3339_instant(text: Seq<char>) -> Option<UtcInstant>;

/// Calls `chrono::DateTime::parse_from_rfc3339` and takes the timestamp and the
/// nanoseconds of its result. The contract gives the result a name, a function of
/// the text alone, and claims that the moment is one that chrono can hold. What the
/// name is on a given text is not stated.
#[verifier::external_body]
fn parse_rfc3339(text: &str) -> (instant: Option<UtcInstant>)
    ensures
        instant == rfc3339_instant(text@),
        instant matches Some(instant) ==> instant.valid(),
{
    match chrono::DateTime::parse_from_rfc3339(text) {
        Ok(time) => Some(UtcInstant { secs: time.timestamp(), nanos: time.timestamp_subsec_nanos() }),
        Err(_) => None,
    }
}

/// Calls `chrono::DateTime::signed_duration_since` and `chrono::TimeDelta::num_seconds`
/// on the moments that `chrono::DateTime::from_timestamp` makes of its arguments.
/// The contract claims that the result is the difference in whole seconds, rounded
/// towards zero, with chrono's reading of leap seconds.
#[verifier::external_body]
fn seconds_between(to: &UtcInstant, from: &UtcInstant) -> (seconds: i64)
    requires
        to.valid(),
        from.valid(),
    ensures
        seconds == whole_seconds(nanos_between(*to, *from)),
{
    let to = chrono::DateTime::from_timestamp(to.secs, to.nanos).unwrap();
    let from = chrono::DateTime::from_timestamp(from.secs, from.nanos).unwrap();
    to.signed_duration_since(from).num_seconds()
}

/// The whole seconds left until `reset`, if any are.
pub open spec fn seconds_left(reset: Option<UtcInstant>, now: UtcInstant) -> Option<int> {
    match reset {
        Some(reset) => {
            let seconds = whole_seconds(nanos_between(reset, now));
            if seconds > 0 {
                Some(seconds)
            } else {
                None
            }
        },
        None => None,
    }
}

/// The whole seconds left until a moment, if any are.
pub fn seconds_until(reset: &Option<UtcInstant>, now: &UtcInstant) -> (seconds: Option<i64>)
    requires
        now.valid(),
        reset matches Some(reset) ==> reset.valid(),
    ensures
        match seconds {
            Some(seconds) => seconds_left(*reset, *now) == Some(seconds as int),
            None => seconds_left(*reset, *now) is None,
        },
{
    match reset {
        Some(reset) => {
            let seconds: i64 = seconds_between(reset, now);
            if seconds > 0 {
                Some(seconds)
            } else {
                None
            }
        },
        None => None,
    }
}

/// The whole seconds left until the reset time that the service reported. There are
/// none without a reset time, when it is not in RFC 3339 form, and when it has
/// passed.
pub fn parse_resets_at_secs(resets_at: Option<&str>, now: &UtcInstant) -> (seconds: Option<i64>)
    requires
        now.valid(),
    ensures
        match resets_at {
            Some(text) => match seconds {
                Some(seconds) => seconds_left(rfc3339_instant(text@), *now) == Some(seconds as int),
                None => seconds_left(rfc3339_instant(text@), *now) is None,
            },
            None => seconds is None,
        },
{
    match resets_at {
        Some(text) => seconds_until(&parse_rfc3339(text), now),
        None => None,
    }
}

/// Apart from leap seconds, the seconds left are the difference of the two
/// moments, rounded towards zero.
pub proof fn law_difference_without_leap_seconds(reset: UtcInstant, now: UtcInstant)
    requires
        reset.nanos < NANOS,
        now.nanos < NANOS,
    ensures
        nanos_between(reset, now) == (reset.secs * 1_000_000_000 + reset.nanos) - (now.secs
            * 1_000_000_000 + now.nanos),
{
}

/// As time passes without leap seconds, the seconds left never grow.
pub proof fn law_seconds_left_shrink(reset: UtcInstant, now: UtcInstant, later: UtcInstant)
    requires
        reset.nanos < NANOS,
        now.nanos < NANOS,
        later.nanos < NANOS,
        now.secs < later.secs || (now.secs == later.secs && now.nanos <= later.nanos),
    ensures
        seconds_left(Some(reset), later) matches Some(left) ==> seconds_left(
            Some(reset),
            now,
        ) matches Some(before) && left <= before,
{
}

/// The nanoseconds from one moment to another, where a leap second that either moment
/// lies in is counted if the other one is later, or earlier, in the day.
pub proof fn law_nanoseconds_between(to: UtcInstant, from: UtcInstant)
    ensures
        ({
            let later_in_day = to.secs as int % 86_400 > from.secs as int % 86_400;
            let earlier_in_day = to.secs as int % 86_400 < from.secs as int % 86_400;
            let plain = (to.secs * 1_000_000_000 + to.nanos) - (from.secs * 1_000_000_000
                + from.nanos);
            let between = nanos_between(to, from);
            &&& later_in_day && from.nanos >= 1_000_000_000 ==> between == plain + 1_000_000_000
            &&& earlier_in_day && to.nanos >= 1_000_000_000 ==> between == plain - 1_000_000_000
            &&& !(later_in_day && from.nanos >= 1_000_000_000) && !(earlier_in_day && to.nanos
                >= 1_000_000_000) ==> between == plain
        }),
{
}

/// Seconds are left exactly if a whole one is, and as many as there are whole ones;
/// none are left until no moment at all.
pub proof fn law_whole_seconds_are_left(reset: UtcInstant, now: UtcInstant)
    ensures
        seconds_left(None, now) is None,
        seconds_left(Some(reset), now) is Some <==> nanos_between(reset, now) >= 1_000_000_000,
        seconds_left(Some(reset), now) matches Some(seconds) ==> seconds * 1_000_000_000
            <= nanos_between(reset, now) < (seconds + 1) * 1_000_000_000,
{
}

/// A moment is valid exactly if its second lies between the first of the year -262143
/// and the last of the year 262142, and its nanoseconds stay within that second, or
/// within the next one at the end of a minute.
pub proof fn law_valid_moments(instant: UtcInstant)
    ensures
        instant.valid() <==> {
            &&& -8_334_601_228_800 <= instant.secs <= 8_210_266_876_799
            &&& instant.nanos < if instant.secs as int % 60 == 59 {
                2_000_000_000int
            } else {
                1_000_000_000
            }
        },
{
}

} // verus!

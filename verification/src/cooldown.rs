use vstd::prelude::*;

use crate::post::Timestamp;

verus! {

/// Nanoseconds in a second, a minute and an hour.
pub open spec fn nanos_per_sec() -> int { 1_000_000_000 }
pub open spec fn nanos_per_min() -> int { 60_000_000_000 }
pub open spec fn nanos_per_hour() -> int { 3_600_000_000_000 }

/// The largest length of time chrono can hold, in nanoseconds: `i64::MAX` milliseconds.
pub open spec fn max_delta_nanos() -> int {
    i64::MAX as int * 1_000_000
}

/// The largest number of minutes chrono can turn into a length of time.
pub open spec fn max_cooldown_minutes() -> int {
    153_722_867_280_912
}

/// The second of its day at which `t` falls.
pub open spec fn second_of_day(t: Timestamp) -> int {
    (t.secs as int) % 86_400
}

/// The leap second that the difference from `from` to `to` still has to count: a time
/// of day that is inside a leap second (a second's worth of nanoseconds or more) and
/// lies earlier in its day than the other time adds that second.
pub open spec fn leap_correction(from: Timestamp, to: Timestamp) -> int {
    if second_of_day(to) > second_of_day(from) && from.nanos >= nanos_per_sec() {
        1
    } else if second_of_day(to) < second_of_day(from) && to.nanos >= nanos_per_sec() {
        -1
    } else {
        0
    }
}

/// The time from `from` to `to`, in nanoseconds, as chrono measures it between two
/// instants of UTC.
pub open spec fn nanos_between(from: Timestamp, to: Timestamp) -> int {
    (to.secs - from.secs + leap_correction(from, to)) * nanos_per_sec() + (to.nanos - from.nanos)
}

/// The cooldown taken as a signed number of minutes: a `u64` above `i64::MAX` wraps
/// round to a negative one.
pub open spec fn signed_minutes(cooldown_minutes: u64) -> int {
    if cooldown_minutes <= i64::MAX {
        cooldown_minutes as int
    } else {
        cooldown_minutes - 0x1_0000_0000_0000_0000
    }
}

/// `a / b` rounded toward zero.
pub open spec fn div_toward_zero(a: int, b: int) -> int {
    if a >= 0 { a / b } else { -((-a) / b) }
}

/// Why the reader refuses to open: the cooldown left, in whole hours and the minutes past
/// them, and how many whole minutes ago it was last opened.
#[derive(Clone, Copy, Debug, PartialEq, Eq, Structural)]
pub struct CooldownNotice {
    pub hours: i64,
    pub minutes: i64,
    pub ago_minutes: i64,
}

/// The notice for a reader opened at `now`, last opened at `last_opened`, with a cooldown
/// of `cooldown_minutes`: one exactly when the cooldown is set, the reader was opened
/// before, and less time than the cooldown has passed since.
pub open spec fn cooldown_spec(now: Timestamp, last_opened: Option<Timestamp>, cooldown_minutes: u64) -> Option<CooldownNotice> {
    match last_opened {
        Some(last) => {
            let elapsed = nanos_between(last, now);
            let cooldown = signed_minutes(cooldown_minutes) * nanos_per_min();
            if cooldown_minutes > 0 && elapsed < cooldown {
                let remaining = cooldown - elapsed;
                Some(CooldownNotice {
                    hours: (remaining / nanos_per_hour()) as i64,
                    minutes: ((remaining / nanos_per_min()) % 60) as i64,
                    ago_minutes: div_toward_zero(elapsed, nanos_per_min()) as i64,
                })
            } else {
                None
            }
        },
        None => None,
    }
}

/// The cooldown can be computed: the cooldown, taken as signed minutes, and the time
/// since the last opening fit in chrono's lengths of time, and so does the cooldown left.
pub open spec fn cooldown_defined(now: Timestamp, last_opened: Option<Timestamp>, cooldown_minutes: u64) -> bool {
    match last_opened {
        Some(last) => cooldown_minutes > 0 ==> {
            let elapsed = nanos_between(last, now);
            &&& -max_cooldown_minutes() <= signed_minutes(cooldown_minutes) <= max_cooldown_minutes()
            &&& -max_delta_nanos() <= elapsed <= max_delta_nanos()
            &&& signed_minutes(cooldown_minutes) * nanos_per_min() - elapsed <= max_delta_nanos()
        },
        None => true,
    }
}

fn second_of_day_exec(t: Timestamp) -> (r: i64)
    ensures
        r == second_of_day(t),
{
    t.secs.checked_rem_euclid(86_400).unwrap()
}

fn minutes_exec(cooldown_minutes: u64) -> (r: i128)
    ensures
        r == signed_minutes(cooldown_minutes),
{
    if cooldown_minutes <= 9_223_372_036_854_775_807 {
        cooldown_minutes as i128
    } else {
        cooldown_minutes as i128 - 0x1_0000_0000_0000_0000
    }
}

fn nanos_between_exec(from: Timestamp, to: Timestamp) -> (r: i128)
    ensures
        r == nanos_between(from, to),
{
    let from_day = second_of_day_exec(from);
    let to_day = second_of_day_exec(to);
    let correction: i128 = if to_day > from_day && from.nanos >= 1_000_000_000 {
        1
    } else if to_day < from_day && to.nanos >= 1_000_000_000 {
        -1
    } else {
        0
    };
    (to.secs as i128 - from.secs as i128 + correction) * 1_000_000_000 + (to.nanos as i128
        - from.nanos as i128)
}

/// Whether the cooldown can be computed (see [`cooldown_defined`]).
pub fn cooldown_computable(now: Timestamp, last_opened: Option<Timestamp>, cooldown_minutes: u64) -> (r: bool)
    ensures
        r == cooldown_defined(now, last_opened, cooldown_minutes),
{
    match last_opened {
        Some(last) => {
            if cooldown_minutes == 0 {
                return true;
            }
            let elapsed = nanos_between_exec(last, now);
            let minutes = minutes_exec(cooldown_minutes);
            let max: i128 = 9_223_372_036_854_775_807 * 1_000_000;
            -153_722_867_280_912 <= minutes && minutes <= 153_722_867_280_912 && -max <= elapsed
                && elapsed <= max && minutes * 60_000_000_000 - elapsed <= max
        },
        None => true,
    }
}

/// The notice to give when the reader is opened at `now` within the cooldown of
/// `cooldown_minutes` after it was last opened at `last_opened`; `None` when it may open.
pub fn cooldown_notice(now: Timestamp, last_opened: Option<Timestamp>, cooldown_minutes: u64) -> (r: Option<CooldownNotice>)
    requires
        cooldown_defined(now, last_opened, cooldown_minutes),
    ensures
        r == cooldown_spec(now, last_opened, cooldown_minutes),
{
    if cooldown_minutes == 0 {
        return None;
    }
    match last_opened {
        Some(last) => {
            let elapsed = nanos_between_exec(last, now);
            let cooldown = minutes_exec(cooldown_minutes) * 60_000_000_000;
            if elapsed < cooldown {
                let remaining = cooldown - elapsed;
                let hours = remaining / 3_600_000_000_000;
                let minutes = (remaining / 60_000_000_000) % 60;
                let ago = if elapsed >= 0 {
                    elapsed / 60_000_000_000
                } else {
                    -((-elapsed) / 60_000_000_000)
                };
                Some(CooldownNotice { hours: hours as i64, minutes: minutes as i64, ago_minutes: ago as i64 })
            } else {
                None
            }
        },
        None => None,
    }
}

/// A notice is given exactly when a cooldown is set, the reader was opened before, and
/// less than the cooldown has passed since; the cooldown left is then positive.
pub proof fn law_cooldown_notice(now: Timestamp, last: Timestamp, cooldown_minutes: u64)
    requires
        cooldown_defined(now, Some(last), cooldown_minutes),
    ensures
        cooldown_spec(now, Some(last), cooldown_minutes) is Some <==> (cooldown_minutes > 0
            && nanos_between(last, now) < signed_minutes(cooldown_minutes) * nanos_per_min()),
        cooldown_spec(now, Some(last), cooldown_minutes) matches Some(n) ==> 0 <= n.minutes < 60
            && n.hours >= 0,
{
}

} // verus!

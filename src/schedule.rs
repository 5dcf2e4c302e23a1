//! The nightly sleep of the display: whether a time of day falls in the
//! sleep window, and how long to sleep until the wake time.
use vstd::prelude::*;
use chrono::Timelike;

verus! {

/// Seconds in a day.
pub const DAY_SECS: u32 = 86400;

/// The hour and minute that chrono reads from a text in `HH:MM` form.
pub uninterp spec fn hour_minute_of(s: Seq<char>) -> Option<(u32, u32)>;

/// Relies on `chrono::NaiveTime::parse_from_str` with the format `%H:%M`,
/// and on `Timelike::hour` (0 to 23) and `Timelike::minute` (0 to 59) of
/// what it parsed; the result depends on the text alone.
#[verifier::external_body]
fn parse_hour_minute(s: &str) -> (r: Option<(u32, u32)>)
    ensures
        r == hour_minute_of(s@),
        r matches Some(hm) ==> hm.0 < 24 && hm.1 < 60,
{
    chrono::NaiveTime::parse_from_str(s, "%H:%M").ok().map(|t| (t.hour(), t.minute()))
}

/// The second of the day at which `hm` begins.
pub open spec fn secs_of(hm: (u32, u32)) -> int {
    hm.0 * 3600 + hm.1 * 60
}

/// Whether the second of the day `now` falls in the window from `start` to
/// `end`; a window whose start is not before its end runs over midnight.
pub open spec fn in_window(start: (u32, u32), end: (u32, u32), now: int) -> bool {
    if secs_of(start) < secs_of(end) {
        secs_of(start) <= now && now < secs_of(end)
    } else {
        now >= secs_of(start) || now < secs_of(end)
    }
}

/// Whether `now` falls in the sleep window from `start` to `end`.
pub fn in_sleep_window(start: (u32, u32), end: (u32, u32), now_secs: u32) -> (r: bool)
    requires
        start.0 < 24 && start.1 < 60,
        end.0 < 24 && end.1 < 60,
    ensures
        r == in_window(start, end, now_secs as int),
{
    let s = start.0 * 3600 + start.1 * 60;
    let e = end.0 * 3600 + end.1 * 60;
    if s < e {
        now_secs >= s && now_secs < e
    } else {
        now_secs >= s || now_secs < e
    }
}

/// Whether the display sleeps at `now`: both times are given, both read as
/// `HH:MM`, and `now` falls in the window between them.
pub open spec fn sleeping(start: Seq<char>, end: Seq<char>, now: int) -> bool {
    if start.len() == 0 || end.len() == 0 {
        false
    } else {
        match (hour_minute_of(start), hour_minute_of(end)) {
            (Some(s), Some(e)) => in_window(s, e, now),
            _ => false,
        }
    }
}

/// Whether the display sleeps at the second of the day `now_secs`, for the
/// window from `start_str` to `end_str`; an empty or unreadable time means
/// no sleep.
pub fn is_sleep_time(start_str: &str, end_str: &str, now_secs: u32) -> (r: bool)
    ensures
        r == sleeping(start_str@, end_str@, now_secs as int),
{
    if start_str.is_empty() || end_str.is_empty() {
        return false;
    }
    match (parse_hour_minute(start_str), parse_hour_minute(end_str)) {
        (Some(s), Some(e)) => in_sleep_window(s, e, now_secs),
        _ => false,
    }
}

/// The seconds to sleep until `wake`, from the time of day `now` (whole
/// seconds) and `now_nanos` past it: to the next `wake`, today or tomorrow,
/// in whole seconds, plus two; a minute when that comes to nothing.
pub open spec fn wake_delay(wake: (u32, u32), now: int, now_nanos: int) -> int {
    let target = if secs_of(wake) <= now {
        secs_of(wake) + DAY_SECS
    } else {
        secs_of(wake)
    };
    let whole = if now_nanos > 0 {
        target - now - 1
    } else {
        target - now
    };
    if whole > 0 {
        whole + 2
    } else {
        60
    }
}

/// The seconds to sleep until `wake` at `now`; a minute when the wake time
/// cannot be read.
pub open spec fn seconds_until(wake: Seq<char>, now: int, now_nanos: int) -> int {
    match hour_minute_of(wake) {
        Some(w) => wake_delay(w, now, now_nanos),
        None => 60,
    }
}

/// How long the display sleeps, at the local time of day `now_secs` and
/// `now_nanos` past it, before the wake time `wake_time_str` (`HH:MM`), on
/// a day without a change of clock.
pub fn get_seconds_until_wake(wake_time_str: &str, now_secs: u32, now_nanos: u32) -> (r: u64)
    requires
        now_secs < DAY_SECS,
    ensures
        r == seconds_until(wake_time_str@, now_secs as int, now_nanos as int),
{
    match parse_hour_minute(wake_time_str) {
        Some(w) => {
            let t = w.0 * 3600 + w.1 * 60;
            let target: u32 = if t <= now_secs {
                t + DAY_SECS
            } else {
                t
            };
            let whole: u32 = if now_nanos > 0 {
                target - now_secs - 1
            } else {
                target - now_secs
            };
            if whole > 0 {
                (whole as u64) + 2
            } else {
                60
            }
        },
        None => 60,
    }
}

} // verus!

//! The schedule: cycles start on fixed minutes of the local clock.

use vstd::prelude::*;
use vstd::string::*;

use crate::calendar;
use crate::calendar::{format_time, local_at, local_now};
use crate::config;
use crate::text;
use crate::text::push_decimal;
use crate::time;
use crate::time::{LocalTime, Span};

verus! {

/// The seconds since the current interval of `interval` minutes began, where intervals are
/// counted from the start of the hour.
pub open spec fn seconds_into_interval(now: LocalTime, interval: u32) -> int {
    now.minute() % (interval as int) * 60 + now.second()
}

/// The second, since the start of 1970 in universal time, at which the current interval of
/// `interval` minutes ends.
pub open spec fn boundary(now: LocalTime, interval: u32) -> int {
    now.seconds + interval * 60 - seconds_into_interval(now, interval)
}

/// The second, since the start of 1970 in universal time, at which the current interval of
/// `interval_minutes` minutes ends.
#[verifier::spinoff_prover]
pub fn boundary_after(now: &LocalTime, interval_minutes: u32) -> (r: i64)
    requires
        now.wf(),
        interval_minutes > 0,
        interval_minutes * 60 <= u32::MAX,
    ensures
        r == boundary(*now, interval_minutes),
{
    let local: u64 = (now.seconds + now.offset as i64 + 10_800_000_000_000) as u64;
    let minute: u32 = (local % 3600 / 60) as u32;
    let second: u32 = (local % 60) as u32;
    assert(local % 3600 == now.local_seconds() % 3600);
    assert(local % 60 == now.local_seconds() % 60);
    let into: u32 = (minute % interval_minutes) * 60 + second;
    now.seconds + interval_minutes as i64 * 60 - into as i64
}

/// The time at which the next cycle starts: the end of the current interval of
/// `interval_minutes` minutes. A cycle that would start now starts at the end of the interval
/// that begins. What the local clock will show then is up to the time zone.
pub fn next_boundary(now: LocalTime, interval_minutes: u32) -> (r: LocalTime)
    requires
        now.wf(),
        interval_minutes > 0,
        interval_minutes * 60 <= u32::MAX,
        boundary(now, interval_minutes) <= time::LAST_SECOND,
    ensures
        r.wf(),
        r.seconds == boundary(now, interval_minutes),
        r.nanosecond == 0,
        calendar::zone_gave_at(r.seconds, r),
{
    proof {
        lemma_boundary_is_ahead(now, interval_minutes);
    }
    let next = local_at(boundary_after(&now, interval_minutes));
    proof {
        calendar::law_zone_is_asked_at(next.seconds, next);
    }
    next
}

/// The time from `now` to `instant`, in nanoseconds; none where `instant` has passed.
pub open spec fn nanos_until(instant: LocalTime, now: LocalTime) -> int {
    if now.instant() < instant.instant() {
        instant.instant() - now.instant()
    } else {
        0
    }
}

/// The time from `now` to `instant`; none where `instant` has passed.
pub fn duration_between(instant: &LocalTime, now: &LocalTime) -> (r: Span)
    requires
        instant.wf(),
        now.wf(),
    ensures
        r.nanos == nanos_until(*instant, *now),
{
    let nanos = instant.nanos_since(now);
    if nanos > 0 {
        Span { nanos: nanos as u128 }
    } else {
        Span { nanos: 0 }
    }
}

/// The time from now to `instant`, by the wall clock; none where `instant` has passed.
pub fn duration_until(instant: LocalTime) -> (r: Span)
    requires
        instant.wf(),
    ensures
        exists|now: LocalTime|
            calendar::clock_gave(now) && now.wf() && r.nanos == #[trigger] nanos_until(
                instant,
                now,
            ),
{
    let now = local_now();
    proof {
        calendar::law_clock_is_read(now);
    }
    duration_between(&instant, &now)
}

/// Reads the wall clock.
pub fn wall_clock() -> (r: LocalTime)
    ensures
        r.wf(),
        calendar::clock_gave(r),
{
    let now = local_now();
    proof {
        calendar::law_clock_is_read(now);
    }
    now
}

/// What is told when the monitor starts to run on its schedule.
pub fn started_notice(config_path: &str, interval_minutes: u32) -> (r: String)
    ensures
        r@ == "codex-monitor started; using "@ + config_path@ + " and a "@ + text::decimal(
            interval_minutes as nat,
        ) + "-minute wall-clock schedule"@,
{
    let mut notice = "codex-monitor started; using ".to_owned();
    notice.append(config_path);
    notice.append(" and a ");
    push_decimal(&mut notice, interval_minutes as u128);
    notice.append("-minute wall-clock schedule");
    notice
}

/// What is told before the monitor waits for `next`.
pub fn next_cycle_notice(next: &LocalTime) -> (r: String)
    requires
        next.wf(),
    ensures
        r@ == "next monitoring cycle at "@ + calendar::formatted_time(
            next.seconds,
            next.nanosecond,
            next.offset,
            "%Y-%m-%d %H:%M:%S %Z"@,
        ),
{
    let mut notice = "next monitoring cycle at ".to_owned();
    let shown = format_time(next, "%Y-%m-%d %H:%M:%S %Z");
    notice.append(shown.as_str());
    notice
}

proof fn lemma_boundary_is_ahead(now: LocalTime, interval: u32)
    requires
        now.wf(),
        interval > 0,
    ensures
        0 <= seconds_into_interval(now, interval) < interval * 60,
        now.seconds < boundary(now, interval) <= now.seconds + interval * 60,
{
    let within = now.minute() % (interval as int);
    assert(0 <= within < interval) by (nonlinear_arith)
        requires
            within == now.minute() % (interval as int),
            interval > 0,
    ;
}

/// The next cycle starts after now, and no later than one interval from now.
pub proof fn law_next_cycle_is_ahead(now: LocalTime, interval: u32)
    requires
        now.wf(),
        interval > 0,
    ensures
        now.instant() < boundary(now, interval) * 1_000_000_000,
        boundary(now, interval) * 1_000_000_000 <= now.instant() + interval * 60 * 1_000_000_000,
{
    lemma_boundary_is_ahead(now, interval);
}

/// A second of the local clock, as the number of intervals before it and the seconds into the
/// interval that it lies in.
#[verifier::spinoff_prover]
proof fn lemma_whole_intervals(local: int, interval: int) -> (whole: int)
    requires
        1 <= interval <= 60,
        60int % interval == 0,
    ensures
        local == 60 * (interval * whole) + (local % 3600 / 60 % interval * 60 + local % 60),
        0 <= local % 3600 / 60 % interval * 60 + local % 60 < 60 * interval,
{
    let hours = local / 3600;
    let minute = local % 3600 / 60;
    let per_hour = 60int / interval;
    vstd::arithmetic::div_mod::lemma_fundamental_div_mod(60, interval);
    vstd::arithmetic::div_mod::lemma_fundamental_div_mod(minute, interval);
    vstd::arithmetic::div_mod::lemma_mod_bound(minute, interval);
    let earlier = minute / interval;
    let whole = per_hour * hours + earlier;
    assert(interval * whole == (interval * per_hour) * hours + interval * earlier)
        by (nonlinear_arith)
        requires
            whole == per_hour * hours + earlier,
    ;
    whole
}

proof fn lemma_same_interval(interval: int, a: int, b: int)
    requires
        1 <= interval,
        interval * a < interval * (b + 1),
        interval * b < interval * (a + 1),
    ensures
        a == b,
{
    assert(a < b + 1) by (nonlinear_arith)
        requires
            interval * a < interval * (b + 1),
            1 <= interval,
    ;
    assert(b < a + 1) by (nonlinear_arith)
        requires
            interval * b < interval * (a + 1),
            1 <= interval,
    ;
}

proof fn lemma_full_minutes(minutes: int)
    ensures
        (60 * minutes) % 60 == 0,
        (60 * minutes) % 3600 / 60 == minutes % 60,
{
}

proof fn lemma_multiple_on_the_clock(interval: int, count: int)
    requires
        1 <= interval <= 60,
        60int % interval == 0,
    ensures
        interval * count % 60 % interval == 0,
{
    let per_hour = 60int / interval;
    vstd::arithmetic::div_mod::lemma_fundamental_div_mod(60, interval);
    assert(per_hour > 0) by (nonlinear_arith)
        requires
            interval * per_hour == 60,
            interval >= 1,
    ;
    vstd::arithmetic::div_mod::lemma_mod_mod(interval * count, interval, per_hour);
    assert(interval * count == count * interval) by (nonlinear_arith);
    vstd::arithmetic::div_mod::lemma_mod_multiples_basic(count, interval);
}

/// With an interval that divides the hour, cycles start on the full minutes that are multiples
/// of it, as long as the clock is not put forward or back on the way.
#[verifier::spinoff_prover]
pub proof fn law_cycles_start_on_the_clock(now: LocalTime, interval: u32, next: LocalTime)
    requires
        now.wf(),
        config::divides_the_hour(interval),
        next.seconds == boundary(now, interval),
        next.offset == now.offset,
    ensures
        next.second() == 0,
        next.minute() % (interval as int) == 0,
{
    let k = interval as int;
    let whole = lemma_whole_intervals(now.local_seconds(), k);
    let minutes = k * (whole + 1);
    assert(minutes == k * whole + k) by (nonlinear_arith)
        requires
            minutes == k * (whole + 1),
    ;
    assert(next.local_seconds() == 60 * minutes);
    lemma_full_minutes(minutes);
    lemma_multiple_on_the_clock(k, whole + 1);
}

/// The schedule does not drift: whenever in an interval the clock is read, the next cycle starts
/// at the same time, as long as the clock is not put forward or back in it.
#[verifier::spinoff_prover]
pub proof fn law_schedule_does_not_drift(now: LocalTime, later: LocalTime, interval: u32)
    requires
        now.wf(),
        later.wf(),
        config::divides_the_hour(interval),
        later.offset == now.offset,
        now.seconds <= later.seconds < boundary(now, interval),
    ensures
        boundary(later, interval) == boundary(now, interval),
{
    let k = interval as int;
    let a = lemma_whole_intervals(now.local_seconds(), k);
    let b = lemma_whole_intervals(later.local_seconds(), k);
    assert(k * (a + 1) == k * a + k) by (nonlinear_arith);
    assert(k * (b + 1) == k * b + k) by (nonlinear_arith);
    lemma_same_interval(k, a, b);
}

/// A wait from a known time ends at the instant that is waited for, and at once where that has
/// passed.
pub proof fn law_wait_reaches_the_instant(instant: LocalTime, now: LocalTime, wait: Span)
    requires
        call_ensures(duration_between, (&instant, &now), wait),
    ensures
        ({
            let start = now.seconds * 1_000_000_000 + now.nanosecond;
            let end = instant.seconds * 1_000_000_000 + instant.nanosecond;
            &&& start + wait.nanos >= end
            &&& start <= end ==> start + wait.nanos == end
            &&& start >= end ==> wait.nanos == 0
        }),
{
}

/// A wait that starts now ends at the instant that is waited for, by the wall clock as it was read,
/// and at once where that has passed.
pub proof fn law_wait_from_now_reaches_the_instant(instant: LocalTime, wait: Span)
    requires
        call_ensures(duration_until, (instant,), wait),
    ensures
        exists|now: LocalTime| #[trigger]
            calendar::clock_gave(now) && ({
                let start = now.seconds * 1_000_000_000 + now.nanosecond;
                let end = instant.seconds * 1_000_000_000 + instant.nanosecond;
                &&& start + wait.nanos >= end
                &&& start <= end ==> start + wait.nanos == end
                &&& start >= end ==> wait.nanos == 0
            }),
{
    let now = choose|now: LocalTime|
        calendar::clock_gave(now) && now.wf() && wait.nanos == #[trigger] nanos_until(instant, now);
    assert(calendar::clock_gave(now));
}

/// The time that the monitor goes by is what the wall clock shows.
pub proof fn law_wall_clock_is_read(t: LocalTime)
    requires
        call_ensures(wall_clock, (), t),
    ensures
        calendar::clock_gave(t),
{
}

/// The next cycle starts where the current interval ends. Intervals are counted from the start of
/// the hour on the local clock, and the current one holds the time now.
#[verifier::spinoff_prover]
pub proof fn law_next_cycle_ends_the_interval(now: LocalTime, interval: u32, next: LocalTime) -> (
    earlier: int)
    requires
        interval > 0,
        call_ensures(next_boundary, (now, interval), next),
    ensures
        ({
            let local = now.seconds + now.offset;
            let hour = local - local % 3600;
            let start = hour + earlier * (interval * 60);
            &&& earlier >= 0
            &&& start <= local < start + interval * 60
            &&& next.seconds + now.offset == start + interval * 60
            &&& next.nanosecond == 0
            &&& calendar::zone_gave_at(next.seconds, next)
        }),
{
    let local = now.seconds + now.offset;
    let minute = local % 3600 / 60;
    let k = interval as int;
    vstd::arithmetic::div_mod::lemma_fundamental_div_mod(minute, k);
    vstd::arithmetic::div_mod::lemma_mod_bound(minute, k);
    let earlier = minute / k;
    assert(earlier >= 0) by (nonlinear_arith)
        requires
            earlier == minute / k,
            minute >= 0,
            k > 0,
    ;
    assert(earlier * (k * 60) == 60 * (k * earlier)) by (nonlinear_arith);
    assert(local % 3600 == minute * 60 + local % 60);
    earlier
}

/// The second at which the next cycle starts is the one that is told apart from the time zone.
pub proof fn law_boundary_second(now: LocalTime, interval: u32, second: i64, next: LocalTime)
    requires
        call_ensures(boundary_after, (&now, interval), second),
        call_ensures(next_boundary, (now, interval), next),
    ensures
        next.seconds == second,
{
}

/// What the user is told of the schedule, and of the next cycle.
pub proof fn law_schedule_is_told(
    path: &str,
    interval: u32,
    started: String,
    next: LocalTime,
    told: String,
)
    requires
        call_ensures(started_notice, (path, interval), started),
        call_ensures(next_cycle_notice, (&next,), told),
    ensures
        started@ == "codex-monitor started; using "@ + path@ + " and a "@ + text::decimal(
            interval as nat,
        ) + "-minute wall-clock schedule"@,
        told@ == "next monitoring cycle at "@ + calendar::formatted_time(
            next.seconds,
            next.nanosecond,
            next.offset,
            "%Y-%m-%d %H:%M:%S %Z"@,
        ),
{
}

} // verus!

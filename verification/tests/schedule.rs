use chrono::{TimeZone, Timelike};
use codex_monitor::scheduler::{
    boundary_after, duration_between, duration_until, next_boundary, next_cycle_notice,
    started_notice, wall_clock,
};
use codex_monitor::time::LocalTime;

fn local(hour: u32, minute: u32, second: u32) -> LocalTime {
    let t = chrono::Local.with_ymd_and_hms(2026, 9, 7, hour, minute, second).unwrap();
    LocalTime {
        seconds: t.timestamp(),
        nanosecond: t.timestamp_subsec_nanos(),
        offset: t.offset().local_minus_utc(),
    }
}

fn clock(t: &LocalTime) -> (u32, u32, u32) {
    let shown = chrono::DateTime::from_timestamp(t.seconds, t.nanosecond)
        .unwrap()
        .with_timezone(&chrono::FixedOffset::east_opt(t.offset).unwrap());
    (shown.hour(), shown.minute(), shown.second())
}

#[test]
fn advances_to_next_half_hour() {
    let now = local(20, 17, 42);
    let next = next_boundary(now, 30);
    assert_eq!(clock(&next), (20, 30, 0));
}

#[test]
fn an_exact_boundary_advances() {
    let now = local(21, 30, 0);
    let next = next_boundary(now, 30);
    assert_eq!(clock(&next), (22, 0, 0));
}

#[test]
fn supports_configured_wall_clock_intervals() {
    let now = local(20, 17, 42);
    let next = next_boundary(now, 15);
    assert_eq!(clock(&next), (20, 30, 0));
}

#[test]
fn fractions_of_a_second_are_dropped() {
    let now = LocalTime { nanosecond: 999_999_999, ..local(20, 29, 59) };
    let next = next_boundary(now, 30);
    assert_eq!((clock(&next), next.nanosecond), ((20, 30, 0), 0));
    let now = LocalTime { nanosecond: 1, ..local(20, 30, 0) };
    assert_eq!(clock(&next_boundary(now, 30)), (21, 0, 0));
}

#[test]
fn intervals_are_counted_on_the_local_clock() {
    let now = LocalTime { seconds: 0, nanosecond: 0, offset: 5 * 3600 + 45 * 60 };
    assert_eq!(boundary_after(&now, 30), 15 * 60);
    assert_eq!(boundary_after(&now, 60), 15 * 60);
    assert_eq!(boundary_after(&now, 7), 4 * 60);
    let now = LocalTime { seconds: -1, nanosecond: 0, offset: 0 };
    assert_eq!(boundary_after(&now, 30), 0);
}

#[test]
fn cycles_do_not_drift() {
    let start = local(20, 0, 0);
    for second in 0..1800 {
        let now = LocalTime { seconds: start.seconds + second, ..start };
        assert_eq!(boundary_after(&now, 30), start.seconds + 1800);
    }
}

#[test]
fn waiting_time_is_never_negative() {
    let earlier = LocalTime { nanosecond: 5, ..local(20, 0, 0) };
    let later = LocalTime { nanosecond: 3, ..local(20, 0, 2) };
    assert_eq!(duration_between(&later, &earlier).nanos, 1_999_999_998);
    assert_eq!(duration_between(&earlier, &later).nanos, 0);
    let now = wall_clock();
    assert_eq!(duration_until(LocalTime { seconds: now.seconds - 60, ..now }).nanos, 0);
    let wait = duration_until(LocalTime { seconds: now.seconds + 3600, ..now }).nanos;
    assert!(wait <= 3_600_000_000_000 && wait > 3_500_000_000_000);
    assert!(now.is_dated());
}

#[test]
fn notices_tell_the_schedule() {
    assert_eq!(
        started_notice("config.toml", 30),
        "codex-monitor started; using config.toml and a 30-minute wall-clock schedule"
    );
    let next = LocalTime { seconds: 86_400, nanosecond: 0, offset: 28_800 };
    assert_eq!(
        next_cycle_notice(&next),
        "next monitoring cycle at 1970-01-02 08:00:00 +08:00"
    );
}

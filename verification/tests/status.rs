use chrono::{Datelike, TimeZone, Timelike};
use codex_monitor::card::{extract_last_complete_card, parse_percent_left};
use codex_monitor::codex::{
    appears_dormant, build_status, update_account_state, AccountResult, AccountState,
    AnchorOutcome, CodexStatus, MonitorSettings,
};
use codex_monitor::reset::{
    chosen_reading, find_candidate, find_reset_text, local_datetime, parse_five_hour_reset, settle,
    settle_by, Candidate,
};
use codex_monitor::calendar::LocalReading;
use codex_monitor::terminal::TerminalState;
use codex_monitor::time::{CivilDate, CivilMinute, LocalTime, Moment};

fn plain(t: chrono::DateTime<chrono::Local>) -> LocalTime {
    LocalTime {
        seconds: t.timestamp(),
        nanosecond: t.timestamp_subsec_nanos(),
        offset: t.offset().local_minus_utc(),
    }
}

fn local(year: i32, month: u32, day: u32, hour: u32, minute: u32) -> LocalTime {
    plain(chrono::Local.with_ymd_and_hms(year, month, day, hour, minute, 0).unwrap())
}

fn shown(t: &LocalTime) -> chrono::DateTime<chrono::FixedOffset> {
    chrono::DateTime::from_timestamp(t.seconds, t.nanosecond)
        .unwrap()
        .with_timezone(&chrono::FixedOffset::east_opt(t.offset).unwrap())
}

fn card(percent: u8, reset: &str, marker: &str) -> String {
    format!("╭────╮\n│ Marker: {marker} │\n│ 5h limit: {percent}% left (resets {reset}) │\n╰────╯")
}

fn full_status(reset_at: Option<LocalTime>) -> CodexStatus {
    CodexStatus {
        account_name: "Main".to_owned(),
        rendered_status: String::new(),
        five_hour_percent_left: Some(100),
        weekly_percent_left: None,
        five_hour_reset_at: reset_at,
        anchor_outcome: AnchorOutcome::NotNeeded,
    }
}

#[test]
fn extracts_the_last_complete_box_and_preserves_unknown_rows() {
    let screen = "old\n╭────╮\n│ Old│\n╰────╯\n  ╭────────────────────╮\n  │ Model: x           │\n  │ Future field: yes  │\n  │ Weekly limit: 72% left │\n  ╰────────────────────╯\nprompt";
    let card = extract_last_complete_card(screen).unwrap();
    assert!(card.starts_with('╭'));
    assert!(card.contains("Future field: yes"));
    assert!(card.contains("Weekly limit: 72% left"));
    assert!(!card.contains("Old"));
}

#[test]
fn card_is_cropped_row_by_row() {
    let screen = "  ╭──╮  \r\n  │a │ \n  │  \n\n  ╰──╯ x \n";
    assert_eq!(
        extract_last_complete_card(screen),
        Some("╭──╮\n│a │\n│\n\n╰──╯ x".to_owned())
    );
}

#[test]
fn incomplete_boxes_are_no_cards() {
    assert_eq!(extract_last_complete_card(""), None);
    assert_eq!(extract_last_complete_card("╭──╮\n│ a│"), None);
    assert_eq!(extract_last_complete_card("╭──\n│ a│\n╰──╯"), None);
    assert_eq!(extract_last_complete_card("╮╭──\n╰──╯"), None);
    assert_eq!(extract_last_complete_card("╭──╮\n ╰──╯"), None);
    assert_eq!(extract_last_complete_card("╭──╮\n╰───"), None);
}

#[test]
fn a_box_below_an_open_one_is_found() {
    let screen = "╭─╮\n│1│\n╰─╯\n╭─╮\n│2│";
    assert_eq!(extract_last_complete_card(screen), Some("╭─╮\n│1│\n╰─╯".to_owned()));
}

#[test]
fn terminal_emulation_applies_control_sequences_before_extraction() {
    let mut terminal = TerminalState::new(10, 40, Moment { nanos: 0 });
    terminal.feed(b"raw-looking-old-text\x1b[2J\x1b[H", Moment { nanos: 1 });
    terminal.feed(
        "╭──────╮\r\n│ New  │\r\n╰──────╯".as_bytes(),
        Moment { nanos: 2 },
    );
    let screen = terminal.snapshot().unwrap().screen;
    let card = extract_last_complete_card(&screen).unwrap();
    assert_eq!(card, "╭──────╮\n│ New  │\n╰──────╯");
    assert!(!screen.contains("raw-looking-old-text"));
}

#[test]
fn terminal_counts_its_output() {
    let mut terminal = TerminalState::new(20, 60, Moment { nanos: 5 });
    assert_eq!(terminal.snapshot().unwrap().revision, 0);
    assert_eq!(terminal.snapshot().unwrap().last_update, Moment { nanos: 5 });
    terminal.feed(b"one", Moment { nanos: 7 });
    terminal.feed(b" two", Moment { nanos: 9 });
    let seen = terminal.snapshot().unwrap();
    assert_eq!(seen.screen, "one two");
    assert_eq!(seen.revision, 2);
    assert_eq!(seen.last_update, Moment { nanos: 9 });
}

#[test]
fn narrow_terminals_take_wide_characters() {
    let mut terminal = TerminalState::new(2, 3, Moment { nanos: 0 });
    terminal.feed(&[0x61, 0xe1, 0x9f, 0x98], Moment { nanos: 1 });
    assert!(terminal.snapshot().unwrap().screen.contains('\u{17d8}'));
}

#[test]
fn broken_terminals_are_reported() {
    let mut closed = TerminalState::new(20, 60, Moment { nanos: 0 });
    closed.close();
    assert_eq!(
        closed.snapshot().unwrap_err().message(),
        "Codex PTY closed unexpectedly"
    );
    let mut broken = TerminalState::new(20, 60, Moment { nanos: 0 });
    broken.fail("no such device".to_owned());
    assert_eq!(
        broken.snapshot().unwrap_err().message(),
        "PTY reader failed: no such device"
    );
}

#[test]
fn parses_optional_known_percentages() {
    let status = "│ 5h limit: [████░░] 61% left │\n│ Weekly limit: 7% left │";
    assert_eq!(parse_percent_left(status, "5h limit:"), Some(61));
    assert_eq!(parse_percent_left(status, "Weekly limit:"), Some(7));
    assert_eq!(parse_percent_left(status, "Credits:"), None);
}

#[test]
fn percentages_must_be_small_numbers() {
    assert_eq!(parse_percent_left("5h limit: 255% left", "5h limit:"), Some(255));
    assert_eq!(parse_percent_left("5h limit: 256% left", "5h limit:"), None);
    assert_eq!(parse_percent_left("5h limit: 0007% left", "5h limit:"), Some(7));
    assert_eq!(parse_percent_left("5h limit: none % left", "5h limit:"), None);
    assert_eq!(parse_percent_left("5h limit: 12", "5h limit:"), Some(12));
    assert_eq!(parse_percent_left("5h limit: 1%\n5h limit: 2%", "5h limit:"), Some(1));
}

#[test]
fn parses_reset_time_and_handles_year_rollover() {
    let december = local(2026, 12, 31, 22, 0);
    let parsed =
        parse_five_hour_reset("│ 5h limit: 100% left (resets 03:00 on 1 Jan) │", &december)
            .unwrap();
    assert_eq!(shown(&parsed).year(), 2027);
    assert_eq!(shown(&parsed).month(), 1);
    assert_eq!(shown(&parsed).day(), 1);
}

#[test]
fn reset_time_of_last_december_is_in_the_last_year() {
    let january = local(2027, 1, 1, 1, 0);
    let parsed =
        parse_five_hour_reset("│ 5h limit: 100% left (resets 11:30 PM on 31 Dec) │", &january)
            .unwrap();
    assert_eq!(parsed, local(2026, 12, 31, 23, 30));
}

#[test]
fn parses_same_day_reset_without_a_date() {
    let morning = local(2026, 9, 8, 8, 30);
    let parsed =
        parse_five_hour_reset("│ 5h limit: 100% left (resets 13:30) │", &morning).unwrap();
    assert_eq!(parsed, local(2026, 9, 8, 13, 30));
}

#[test]
fn undated_reset_moves_to_the_next_day() {
    let evening = local(2026, 9, 8, 22, 0);
    let status = "│ 5h limit: 100% left (resets 02:15) │";
    assert_eq!(parse_five_hour_reset(status, &evening), Some(local(2026, 9, 9, 2, 15)));
    let status = "│ 5h limit: 100% left (resets 9:54 PM) │";
    assert_eq!(parse_five_hour_reset(status, &evening), Some(local(2026, 9, 9, 21, 54)));
    let status = "│ 5h limit: 100% left (resets 21:55 │";
    assert_eq!(parse_five_hour_reset(status, &evening), Some(local(2026, 9, 8, 21, 55)));
}

#[test]
fn cards_without_a_reset_time_have_none() {
    let now = local(2026, 9, 8, 8, 0);
    assert_eq!(parse_five_hour_reset("│ Weekly limit: (resets 13:30) │", &now), None);
    assert_eq!(parse_five_hour_reset("│ 5h limit: 80% left │", &now), None);
    assert_eq!(parse_five_hour_reset("│ 5h limit: (resets soon) │", &now), None);
}

#[test]
fn reset_text_ends_at_the_edge_of_the_card() {
    assert_eq!(
        find_reset_text("│ 5h limit: 1% (resets 13:30 on 8 Sep) x │"),
        Some("13:30 on 8 Sep".to_owned())
    );
    assert_eq!(
        find_reset_text("│ 5h limit: 1% resets  13:30  │ (a)"),
        Some("13:30".to_owned())
    );
    assert_eq!(find_reset_text("5h limit: resets later"), Some("later".to_owned()));
    assert_eq!(find_reset_text("5h limit: later"), None);
}

#[test]
fn guesses_take_the_day_from_the_card_or_from_today() {
    let today = CivilDate { year: 2026, month: 9, day: 8 };
    assert_eq!(
        find_candidate("13:30 on 9 Oct", today),
        Some(Candidate::Dated(CivilMinute {
            date: CivilDate { year: 2026, month: 10, day: 9 },
            hour: 13,
            minute: 30,
        }))
    );
    assert_eq!(
        find_candidate("1:05 PM", today),
        Some(Candidate::Undated(CivilMinute { date: today, hour: 13, minute: 5 }))
    );
    assert_eq!(find_candidate("13:30 on 31 Sep", today), None);
}

#[test]
fn a_leap_day_that_does_not_exist_is_no_guess() {
    let today = CivilDate { year: 2028, month: 12, day: 31 };
    let leap_day = CivilMinute {
        date: CivilDate { year: 2028, month: 2, day: 29 },
        hour: 3,
        minute: 0,
    };
    let initial = local(2028, 2, 29, 3, 0);
    let observed_at = local(2028, 12, 31, 22, 0);
    assert_eq!(settle(Candidate::Dated(leap_day), &initial, &observed_at, today), None);
}

#[test]
fn the_first_reading_of_a_minute_is_taken() {
    let one = local(2026, 9, 8, 8, 0);
    let other = local(2026, 9, 8, 9, 0);
    assert_eq!(chosen_reading(LocalReading::Never), None);
    assert_eq!(chosen_reading(LocalReading::Once(one)), Some(one));
    assert_eq!(chosen_reading(LocalReading::Twice(one, other)), Some(one));
    let minute = CivilMinute {
        date: CivilDate { year: 2026, month: 9, day: 8 },
        hour: 8,
        minute: 0,
    };
    assert_eq!(local_datetime(minute), Some(one));
    assert_eq!(shown(&one).hour(), 8);
}

#[test]
fn guesses_are_settled_by_the_reading_of_the_clock() {
    let today = CivilDate { year: 2026, month: 9, day: 8 };
    let evening = local(2026, 9, 8, 22, 0);
    let minute = CivilMinute { date: today, hour: 2, minute: 15 };
    let next = CivilMinute { date: CivilDate { day: 9, ..today }, ..minute };
    let guess = Candidate::Undated(minute);
    let past = local(2026, 9, 8, 2, 15);
    assert_eq!(settle_by(guess, LocalReading::Never, &evening, today), None);
    assert_eq!(settle_by(guess, LocalReading::Once(past), &evening, today), Some(next));
    assert_eq!(settle_by(guess, LocalReading::Twice(past, past), &evening, today), Some(next));
    assert_eq!(settle_by(guess, LocalReading::Once(past), &past, today), Some(minute));
}

#[test]
fn dormant_heuristic_requires_full_capacity_for_primary_signal() {
    let now = local(2026, 9, 8, 8, 0);
    let dormant = build_status(
        "Main",
        card(100, "13:00 on 8 Sep", "dormant"),
        &now,
        AnchorOutcome::NotNeeded,
    );
    let active = build_status(
        "Main",
        card(99, "13:00 on 8 Sep", "active"),
        &now,
        AnchorOutcome::NotNeeded,
    );
    assert!(appears_dormant(&dormant, &now, &AccountState::default()));
    assert!(!appears_dormant(&active, &now, &AccountState::default()));
}

#[test]
fn reset_drift_is_additional_dormant_evidence() {
    let previous_observed = local(2026, 9, 8, 8, 0);
    let now = local(2026, 9, 8, 8, 30);
    let status = build_status(
        "Main",
        card(100, "13:20 on 8 Sep", "drifting"),
        &now,
        AnchorOutcome::NotNeeded,
    );
    let state = AccountState {
        previous_five_hour_reset: Some(local(2026, 9, 8, 12, 50)),
        previous_observed_at: Some(previous_observed),
    };
    assert!(appears_dormant(&status, &now, &state));
}

#[test]
fn dormant_window_lies_five_minutes_around_five_hours() {
    let now = local(2026, 9, 8, 8, 0);
    let state = AccountState::default();
    let after = |seconds: i64| LocalTime { seconds: now.seconds + seconds, ..now };
    assert!(appears_dormant(&full_status(Some(after(295 * 60))), &now, &state));
    assert!(appears_dormant(&full_status(Some(after(305 * 60))), &now, &state));
    assert!(!appears_dormant(&full_status(Some(after(295 * 60 - 1))), &now, &state));
    assert!(!appears_dormant(&full_status(Some(after(305 * 60 + 1))), &now, &state));
    assert!(!appears_dormant(&full_status(None), &now, &state));
}

#[test]
fn drift_is_measured_to_ten_minutes() {
    let now = local(2026, 9, 8, 9, 0);
    let earlier = local(2026, 9, 8, 8, 0);
    let reset = local(2026, 9, 8, 12, 0);
    let with = |seconds: i64, nanosecond: u32| AccountState {
        previous_five_hour_reset: Some(LocalTime {
            seconds: reset.seconds - 3600 - seconds,
            nanosecond,
            ..reset
        }),
        previous_observed_at: Some(earlier),
    };
    let status = full_status(Some(reset));
    assert!(appears_dormant(&status, &now, &with(0, 0)));
    assert!(appears_dormant(&status, &now, &with(600, 0)));
    assert!(appears_dormant(&status, &now, &with(601, 1)));
    assert!(!appears_dormant(&status, &now, &with(601, 0)));
    assert!(appears_dormant(&status, &now, &with(-600, 0)));
    assert!(!appears_dormant(&status, &now, &with(-601, 0)));
    assert!(!appears_dormant(&status, &now, &with(-3600, 0)));
}

#[test]
fn state_remembers_the_last_observation() {
    let now = local(2026, 9, 8, 8, 0);
    let mut state = AccountState::default();
    let reset = local(2026, 9, 8, 12, 50);
    update_account_state(&mut state, &full_status(Some(reset)), &now);
    assert_eq!(state.previous_five_hour_reset, Some(reset));
    assert_eq!(state.previous_observed_at, Some(now));
    update_account_state(&mut state, &full_status(None), &now);
    assert_eq!(state.previous_five_hour_reset, None);
}

#[test]
fn results_have_the_name_of_their_account() {
    assert_eq!(AccountResult::Success(full_status(None)).account_name(), "Main");
    let failure = AccountResult::Failure {
        account_name: "Alt".to_owned(),
        error: "startup timeout".to_owned(),
    };
    assert_eq!(failure.account_name(), "Alt");
    assert_eq!(AnchorOutcome::NotNeeded.failure_message(), None);
    assert_eq!(AnchorOutcome::AnchoredAutomatically.failure_message(), None);
    assert_eq!(AnchorOutcome::Failed("late".to_owned()).failure_message(), Some("late"));
}

#[test]
fn settings_have_defaults() {
    let settings = MonitorSettings::default();
    assert_eq!((settings.terminal_rows, settings.terminal_cols), (80, 120));
    assert_eq!(settings.startup.nanos, 45_000_000_000);
    assert_eq!(settings.status.nanos, 25_000_000_000);
    assert_eq!(settings.model_turn.nanos, 90_000_000_000);
    assert_eq!(settings.refresh_pause.nanos, 4_000_000_000);
    assert_eq!(settings.overall.nanos, 300_000_000_000);
}

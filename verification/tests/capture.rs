use std::collections::VecDeque;

use codex_monitor::codex::{AccountState, AnchorOutcome, CodexStatus, MonitorSettings};
use codex_monitor::interaction::{Action, Event, Interaction};
use codex_monitor::scheduler::wall_clock;
use codex_monitor::session::{
    deadline_for, ensure_before, sleep_until, terminate_process_group, wait_until_ready,
    ChildState, EndSignal, Purpose, Request, RequestAction, RequestEvent, SessionError, Shutdown,
    ShutdownAction, Snapshot, Startup,
};
use codex_monitor::time::{Moment, Span};

struct FakeInteraction {
    cards: VecDeque<String>,
    status_calls: usize,
    anchor_calls: usize,
    anchor_error: bool,
}

impl FakeInteraction {
    fn new(cards: impl IntoIterator<Item = String>) -> Self {
        Self { cards: cards.into_iter().collect(), status_calls: 0, anchor_calls: 0, anchor_error: false }
    }

    fn run(
        &mut self,
        settings: &MonitorSettings,
        state: &mut AccountState,
    ) -> Result<CodexStatus, SessionError> {
        let now = Moment { nanos: 0 };
        let deadline = Moment { nanos: 10_000_000_000 };
        let (mut capture, mut action) =
            Interaction::start("Main", settings, *state, deadline, wall_clock(), now);
        loop {
            let event = match action {
                Action::RequestStatus { timeout, overall_deadline, .. } => {
                    assert_eq!((timeout, overall_deadline), (settings.status, deadline));
                    self.status_calls += 1;
                    Event::Captured(
                        self.cards
                            .pop_front()
                            .ok_or_else(|| SessionError::Other("no fake card".to_owned())),
                    )
                }
                Action::Pause(_) => Event::Paused,
                Action::RequestAnchor { timeout, overall_deadline } => {
                    assert_eq!((timeout, overall_deadline), (settings.model_turn, deadline));
                    self.anchor_calls += 1;
                    Event::Replied(if self.anchor_error {
                        Err(SessionError::Other("fake anchor failure".to_owned()))
                    } else {
                        Ok(())
                    })
                }
                Action::Finish(result) => {
                    *state = capture.state;
                    return result;
                }
            };
            action = capture.step(event, now, &wall_clock());
        }
    }
}

fn card(percent: u8, reset: &str, marker: &str) -> String {
    format!("╭────╮\n│ Marker: {marker} │\n│ 5h limit: {percent}% left (resets {reset}) │\n╰────╯")
}

fn in_five_hours() -> String {
    (chrono::Local::now() + chrono::Duration::hours(5)).format("%H:%M on %-d %b").to_string()
}

fn test_settings() -> MonitorSettings {
    MonitorSettings {
        refresh_pause: Span { nanos: 0 },
        overall: Span::from_secs(10),
        ..MonitorSettings::default()
    }
}

fn seen(screen: &str, revision: u64, last_update: u128) -> Snapshot {
    Snapshot { screen: screen.to_owned(), revision, last_update: at(last_update) }
}

fn at(millis: u128) -> Moment {
    Moment { nanos: millis * 1_000_000 }
}

#[test]
fn active_window_uses_three_statuses_without_anchor() {
    let cards = (1..=3).map(|index| card(80, "12:00 on 8 Sep", &index.to_string()));
    let mut fake = FakeInteraction::new(cards);
    let mut state = AccountState::default();
    let status = fake.run(&test_settings(), &mut state).unwrap();
    assert_eq!(fake.status_calls, 3);
    assert_eq!(fake.anchor_calls, 0);
    assert!(status.rendered_status.contains("Marker: 3"));
    assert!(matches!(status.anchor_outcome, AnchorOutcome::NotNeeded));
}

#[test]
fn dormant_window_anchors_once_and_reports_post_anchor_third_status() {
    let reset = in_five_hours();
    let cards = (1..=6).map(|index| card(100, &reset, &index.to_string()));
    let mut fake = FakeInteraction::new(cards);
    let mut state = AccountState::default();
    let status = fake.run(&test_settings(), &mut state).unwrap();
    assert_eq!(fake.status_calls, 6);
    assert_eq!(fake.anchor_calls, 1);
    assert!(status.rendered_status.contains("Marker: 6"));
    assert!(matches!(status.anchor_outcome, AnchorOutcome::AnchoredAutomatically));
    assert_eq!(state.previous_five_hour_reset, status.five_hour_reset_at);
}

#[test]
fn anchor_failure_returns_best_pre_anchor_status() {
    let reset = in_five_hours();
    let mut fake = FakeInteraction::new((1..=3).map(|index| card(100, &reset, &index.to_string())));
    fake.anchor_error = true;
    let status = fake.run(&test_settings(), &mut AccountState::default()).unwrap();
    assert_eq!(fake.status_calls, 3);
    assert_eq!(fake.anchor_calls, 1);
    assert!(status.rendered_status.contains("Marker: 3"));
    assert!(matches!(status.anchor_outcome, AnchorOutcome::Failed(_)));
    assert_eq!(
        status.anchor_outcome.failure_message(),
        Some("anchor model turn failed: fake anchor failure")
    );
}

#[test]
fn refresh_failure_after_the_anchor_returns_the_earlier_status() {
    let reset = in_five_hours();
    let mut fake = FakeInteraction::new((1..=5).map(|index| card(100, &reset, &index.to_string())));
    let mut state = AccountState::default();
    let status = fake.run(&test_settings(), &mut state).unwrap();
    assert_eq!(fake.status_calls, 6);
    assert!(status.rendered_status.contains("Marker: 3"));
    assert_eq!(status.five_hour_percent_left, Some(100));
    assert!(status.five_hour_reset_at.is_some());
    assert_eq!(state.previous_five_hour_reset, status.five_hour_reset_at);
    assert_eq!(
        status.anchor_outcome.failure_message(),
        Some("post-anchor status refresh failed: no fake card")
    );
}

#[test]
fn failure_before_the_third_card_fails_the_capture() {
    let mut fake = FakeInteraction::new((1..=2).map(|index| card(80, "12:00", &index.to_string())));
    let mut state = AccountState::default();
    let error = fake.run(&test_settings(), &mut state).unwrap_err();
    assert_eq!(error.message(), "no fake card");
    assert_eq!(fake.status_calls, 3);
    assert_eq!(state, AccountState::default());
}

#[test]
fn pause_must_end_before_the_deadline() {
    let settings = MonitorSettings { refresh_pause: Span::from_secs(11), ..test_settings() };
    let mut fake = FakeInteraction::new((1..=3).map(|index| card(80, "12:00", &index.to_string())));
    let error = fake.run(&settings, &mut AccountState::default()).unwrap_err();
    assert_eq!(
        error.message(),
        "overall account timeout expired while waiting for rate-limit refresh"
    );
    assert_eq!(fake.status_calls, 1);
}

#[test]
fn deadlines_are_bounded_by_the_whole() {
    assert_eq!(deadline_for(Span::from_secs(5), at(1_000), at(60_000)), at(6_000));
    assert_eq!(deadline_for(Span::from_secs(5), at(1_000), at(3_000)), at(3_000));
    assert_eq!(deadline_for(Span::from_secs(5), at(9_000), at(3_000)), at(3_000));
    assert!(ensure_before(at(1), at(2)).is_ok());
    assert_eq!(
        ensure_before(at(2), at(2)).unwrap_err().message(),
        "timed out during overall account monitoring"
    );
    assert_eq!(sleep_until(Span::from_secs(1), at(0), at(1_000)).unwrap(), Span::from_secs(1));
    assert!(sleep_until(Span::from_secs(1), at(1), at(1_000)).is_err());
}

#[test]
fn startup_waits_for_a_quiet_prompt() {
    let ready = seen("Ask Codex to do anything", 1, 0);
    assert!(matches!(wait_until_ready(&ready, at(750), at(1_000)), Startup::Ready));
    assert!(matches!(
        wait_until_ready(&ready, at(749), at(1_000)),
        Startup::Wait(Span { nanos: 50_000_000 })
    ));
    let waiting = seen("loading", 1, 0);
    match wait_until_ready(&waiting, at(1_000), at(1_000)) {
        Startup::Failed(error) => {
            assert_eq!(
                error.message(),
                "timed out waiting for Codex TUI readiness marker \"Ask Codex to do anything\""
            );
            assert_eq!(
                error.debug_screen("Main", "loading").unwrap(),
                "[Main] reconstructed screen while waiting for TUI readiness:\n--- screen ---\nloading\n--- end screen ---"
            );
        }
        _ => panic!("startup went on"),
    }
    assert_eq!(SessionError::Closed.debug_screen("Main", ""), None);
}

const HINT: &str = "show current session configuration and token usage";

fn typed(request: &mut Request, first: RequestAction, now: Moment) -> (String, RequestAction) {
    let mut keys = String::new();
    let mut action = first;
    while let RequestAction::Type { key, .. } = action {
        keys.push(key);
        action = request.step(RequestEvent::Typed, now);
    }
    (keys, action)
}

#[test]
fn status_request_runs_to_its_card() {
    let before = seen("Ask Codex to do anything", 3, 0);
    let (mut request, first) =
        Request::start(Purpose::Status, Span::from_secs(25), at(300_000), &before, at(1_000));
    assert!(matches!(&first, RequestAction::Type { key: '/', pause: Span { nanos: 20_000_000 } }));
    let (keys, action) = typed(&mut request, first, at(1_140));
    assert_eq!(keys, "/status");
    assert!(matches!(action, RequestAction::Look { pause: Span { nanos: 0 } }));
    assert_eq!(request.deadline, at(26_140));
    let action = request.step(RequestEvent::Seen(seen(HINT, 4, 1_100)), at(1_199));
    assert!(matches!(action, RequestAction::Look { pause: Span { nanos: 25_000_000 } }));
    let action = request.step(RequestEvent::Seen(seen(HINT, 4, 1_100)), at(1_200));
    assert!(matches!(action, RequestAction::Submit));
    let action = request.step(RequestEvent::Submitted, at(1_201));
    assert!(matches!(action, RequestAction::Look { pause: Span { nanos: 0 } }));
    let shown = "╭─╮\n╰─╯\nAsk Codex to do anything";
    let action = request.step(RequestEvent::Seen(seen(shown, 5, 1_500)), at(2_149));
    assert!(matches!(action, RequestAction::Look { pause: Span { nanos: 50_000_000 } }));
    match request.step(RequestEvent::Seen(seen(shown, 5, 1_500)), at(2_150)) {
        RequestAction::ShowCard(card) => assert_eq!(card, "╭─╮\n╰─╯"),
        _ => panic!("no card"),
    }
}

#[test]
fn keys_are_written_as_bytes() {
    let pause = Span { nanos: 0 };
    assert_eq!(RequestAction::Type { key: '/', pause }.bytes(), b"/");
    assert_eq!(RequestAction::Type { key: 'é', pause }.bytes(), "é".as_bytes());
    assert_eq!(RequestAction::Submit.bytes(), b"\x1b[13u");
    assert!(RequestAction::Look { pause }.bytes().is_empty());
    assert!(RequestAction::TurnCompleted.bytes().is_empty());
    assert_eq!(Shutdown::interrupt(), b"\x03\x03");
}

#[test]
fn requests_time_out() {
    let before = seen("Ask Codex to do anything", 3, 0);
    let (mut request, first) =
        Request::start(Purpose::Status, Span::from_secs(1), at(300_000), &before, at(0));
    typed(&mut request, first, at(0));
    match request.step(RequestEvent::Seen(before.clone()), at(1_000)) {
        RequestAction::Fail(error) => assert_eq!(
            error.message(),
            "timed out waiting for Codex to accept /status input"
        ),
        _ => panic!("request went on"),
    }
    let (mut request, first) =
        Request::start(Purpose::Status, Span::from_secs(1), at(300_000), &before, at(0));
    typed(&mut request, first, at(0));
    request.step(RequestEvent::Seen(seen(HINT, 4, 0)), at(500));
    request.step(RequestEvent::Submitted, at(500));
    match request.step(RequestEvent::Seen(before.clone()), at(1_000)) {
        RequestAction::Fail(error) => assert_eq!(
            error.message(),
            "timed out waiting for a complete rendered /status card"
        ),
        _ => panic!("request went on"),
    }
}

#[test]
fn anchor_request_runs_to_the_reply() {
    let before = seen("Ask Codex to do anything", 3, 0);
    let (mut request, first) =
        Request::start(Purpose::Anchor, Span::from_secs(90), at(300_000), &before, at(0));
    assert!(matches!(&first, RequestAction::Type { key: 'R', pause: Span { nanos: 12_000_000 } }));
    let (keys, _) = typed(&mut request, first, at(100));
    assert_eq!(keys, "Reply only OK. Do not use tools.");
    let prompt = "Reply only OK. Do not use tools.";
    let action = request.step(RequestEvent::Seen(seen(prompt, 4, 100)), at(100));
    assert!(matches!(action, RequestAction::Submit));
    request.step(RequestEvent::Submitted, at(200));
    let reply = seen("OK\nAsk Codex to do anything", 5, 400);
    let action = request.step(RequestEvent::Seen(reply.clone()), at(1_199));
    assert!(matches!(action, RequestAction::Look { .. }));
    let action = request.step(RequestEvent::Seen(reply), at(1_200));
    assert!(matches!(action, RequestAction::TurnCompleted));
}

#[test]
fn anchor_request_times_out() {
    let before = seen("Ask Codex to do anything", 3, 0);
    let (mut request, first) =
        Request::start(Purpose::Anchor, Span::from_secs(1), at(300_000), &before, at(0));
    typed(&mut request, first, at(0));
    match request.step(RequestEvent::Seen(before.clone()), at(1_000)) {
        RequestAction::Fail(error) => {
            assert_eq!(error.message(), "timed out waiting for Codex to accept anchor input")
        }
        _ => panic!("request went on"),
    }
    let (mut request, first) =
        Request::start(Purpose::Anchor, Span::from_secs(1), at(300_000), &before, at(0));
    typed(&mut request, first, at(0));
    request.step(RequestEvent::Seen(seen("Reply only OK. Do not use tools.", 4, 0)), at(10));
    request.step(RequestEvent::Submitted, at(10));
    match request.step(RequestEvent::Seen(before.clone()), at(1_000)) {
        RequestAction::Fail(error) => {
            assert_eq!(error.message(), "timed out waiting for anchor model turn completion")
        }
        _ => panic!("request went on"),
    }
}

#[test]
fn process_groups_are_signalled_only_where_they_exist() {
    assert_eq!(terminate_process_group(Some(42), false), Some((42, EndSignal::Terminate)));
    assert_eq!(terminate_process_group(Some(42), true), Some((42, EndSignal::Kill)));
    assert_eq!(terminate_process_group(Some(1), true), None);
    assert_eq!(terminate_process_group(Some(-5), true), None);
    assert_eq!(terminate_process_group(None, true), None);
}

#[test]
fn shutdown_gets_harder_step_by_step() {
    let mut shutdown = Shutdown::start(at(0));
    assert_eq!(shutdown, Shutdown::Graceful { deadline: at(2_000) });
    let pause = Span::from_millis(50);
    assert_eq!(
        shutdown.step(ChildState::Running, at(1_999)),
        ShutdownAction::Check { pause }
    );
    let look = ShutdownAction::Check { pause: Span { nanos: 0 } };
    assert_eq!(shutdown.step(ChildState::Running, at(2_000)), look);
    assert_eq!(
        shutdown.step(ChildState::Running, at(2_000)),
        ShutdownAction::Terminate { pause: Span::from_millis(250) }
    );
    assert_eq!(shutdown.step(ChildState::Running, at(2_300)), ShutdownAction::KillAndReap);
    assert_eq!(shutdown.step(ChildState::Exited, at(2_300)), ShutdownAction::Reap);

    let mut shutdown = Shutdown::start(at(0));
    assert_eq!(shutdown.step(ChildState::Exited, at(10)), look);
    assert_eq!(shutdown.step(ChildState::Exited, at(10)), look);
    assert_eq!(shutdown.step(ChildState::Exited, at(10)), ShutdownAction::Reap);
}

use codex_monitor::accounts::Account;
use codex_monitor::codex::{AccountState, AnchorOutcome, CodexStatus};
use codex_monitor::config::{AppConfig, DiscordConfig, MonitorConfig, ScheduleConfig};
use codex_monitor::cycle::{Cycle, CycleAction, CycleEvent, Outcome};
use codex_monitor::discord::{webhook_payload, WebhookRequest};
use codex_monitor::names::NameMap;
use codex_monitor::time::LocalTime;

const STAMP: LocalTime = LocalTime { seconds: 0, nanosecond: 0, offset: 0 };

fn config(names: &[&str]) -> AppConfig {
    AppConfig {
        accounts: names
            .iter()
            .map(|name| Account {
                name: (*name).to_owned(),
                executable: "codex".to_owned(),
                environment: NameMap::new(),
            })
            .collect(),
        monitor: MonitorConfig::default(),
        schedule: ScheduleConfig::default(),
        discord: DiscordConfig::default(),
    }
}

fn state(seconds: i64) -> AccountState {
    AccountState {
        previous_five_hour_reset: None,
        previous_observed_at: Some(LocalTime { seconds, ..STAMP }),
    }
}

fn captured(name: &str, card: &str, seconds: i64) -> Outcome {
    Outcome::Captured {
        status: CodexStatus {
            account_name: name.to_owned(),
            rendered_status: card.to_owned(),
            five_hour_percent_left: None,
            weekly_percent_left: None,
            five_hour_reset_at: None,
            anchor_outcome: AnchorOutcome::NotNeeded,
        },
        state: state(seconds),
    }
}

struct Run {
    outcomes: Vec<Outcome>,
    webhook: Option<String>,
    rendered: Result<Vec<u8>, String>,
    sent: Result<(), String>,
    notices: Vec<String>,
    report: String,
    monitored: Vec<(usize, AccountState, u128)>,
    drawn: Vec<String>,
    requests: Vec<WebhookRequest>,
}

impl Run {
    fn new(outcomes: Vec<Outcome>) -> Run {
        Run {
            outcomes,
            webhook: Some("https://example.invalid/hook".to_owned()),
            rendered: Ok(vec![7]),
            sent: Ok(()),
            notices: Vec::new(),
            report: String::new(),
            monitored: Vec::new(),
            drawn: Vec::new(),
            requests: Vec::new(),
        }
    }

    fn go(
        &mut self,
        config: &AppConfig,
        no_discord: bool,
        states: NameMap<AccountState>,
    ) -> NameMap<AccountState> {
        let (mut cycle, mut action) = Cycle::start(config, no_discord, states);
        loop {
            let event = match action {
                CycleAction::Monitor { index, state, limit } => {
                    self.monitored.push((index, state, limit.nanos));
                    CycleEvent::Monitored(self.outcomes.remove(0))
                }
                CycleAction::ReadClock => CycleEvent::Clock(STAMP),
                CycleAction::Print(report) => {
                    self.report = report;
                    CycleEvent::Printed
                }
                CycleAction::FindWebhook(variable) => {
                    assert_eq!(variable, "DISCORD_WEBHOOK_URL");
                    CycleEvent::Webhook(self.webhook.clone())
                }
                CycleAction::Render(card) => {
                    self.drawn.push(card);
                    CycleEvent::Rendered(self.rendered.clone())
                }
                CycleAction::Send(request) => {
                    self.requests.push(request);
                    CycleEvent::Sent(self.sent.clone())
                }
                CycleAction::Finish => return cycle.states,
            };
            let step = cycle.step(event);
            self.notices.extend(step.notice);
            action = step.action;
        }
    }
}

#[test]
fn every_account_is_reported_whatever_happens_to_the_others() {
    let mut run = Run::new(vec![
        Outcome::Failed { error: "startup timeout".to_owned(), state: state(5) },
        Outcome::WorkerFailed("panicked".to_owned()),
        Outcome::TimedOut,
        captured("D", "card D", 9),
    ]);
    let mut states = NameMap::new();
    states.insert("A".to_owned(), state(1));
    states.insert("B".to_owned(), state(2));
    states.insert("C".to_owned(), state(3));
    states.insert("Z".to_owned(), state(4));
    let states = run.go(&config(&["A", "B", "C", "D"]), false, states);
    assert_eq!(
        run.report,
        "**Codex Usage Monitor**\nTimestamp: 1970-01-01 00:00 +00:00\n\n**A**\n```text\nERROR: startup timeout\n```\n\n**B**\n```text\nERROR: monitor worker failed: panicked\n```\n\n**C**\n```text\nERROR: overall monitoring timeout after 300s\n```\n\n**D**\n```text\ncard D\n```"
    );
    assert_eq!(
        run.notices,
        [
            "[A] failed: startup timeout",
            "[B] monitor worker failed: panicked",
            "[C] overall monitoring timeout after 300s",
            "[A] Discord report sent",
            "[B] Discord report sent",
            "[C] Discord report sent",
            "[D] Discord report sent",
        ]
    );
    let limit = 305_000_000_000;
    assert_eq!(
        run.monitored,
        [(0, state(1), limit), (1, state(2), limit), (2, state(3), limit), (3, AccountState::default(), limit)]
    );
    assert_eq!(states.get("A"), Some(&state(5)));
    assert_eq!(states.get("B"), None);
    assert_eq!(states.get("C"), None);
    assert_eq!(states.get("D"), Some(&state(9)));
    assert_eq!(states.get("Z"), Some(&state(4)));
}

#[test]
fn a_limit_of_no_time_is_told() {
    let mut config = config(&["Main"]);
    config.monitor.overall_timeout_seconds = 0;
    let mut run = Run::new(vec![Outcome::TimedOut]);
    run.go(&config, true, NameMap::new());
    assert_eq!(run.notices[0], "[Main] overall monitoring timeout after 0ns");
}

#[test]
fn cards_are_sent_with_their_picture() {
    let mut run = Run::new(vec![captured("Main", "the card", 0)]);
    run.go(&config(&["Main"]), false, NameMap::new());
    assert_eq!(run.drawn, ["the card"]);
    assert_eq!(run.requests.len(), 1);
    match &run.requests[0] {
        WebhookRequest::Form { payload_json, files } => {
            assert_eq!(*payload_json, webhook_payload("**Codex Usage Monitor — Main**"));
            assert_eq!(files[0].bytes, [7]);
            assert_eq!(files[1].bytes, b"the card\n");
        }
        _ => panic!("no form"),
    }
}

#[test]
fn pictures_that_fail_are_replaced_by_text() {
    let card = "0123456789\n".repeat(300);
    let mut run = Run::new(vec![captured("Main", &card, 0), captured("Alt", "short", 0)]);
    run.rendered = Err("no font".to_owned());
    run.sent = Err("HTTP 500".to_owned());
    run.go(&config(&["Main", "Alt"]), false, NameMap::new());
    assert_eq!(
        run.notices,
        [
            "could not render Discord status image: no font; using text fallback",
            "[Main] Discord fallback message 1 failed: HTTP 500",
            "[Main] Discord fallback message 2 failed: HTTP 500",
            "could not render Discord status image: no font; using text fallback",
            "[Alt] Discord fallback message 3 failed: HTTP 500",
        ]
    );
    assert_eq!(run.requests.len(), 3);
    match &run.requests[2] {
        WebhookRequest::Json(json) => assert_eq!(
            *json,
            webhook_payload("**Codex Usage Monitor**\nTimestamp: 1970-01-01 00:00 +00:00\n\n**Alt**\n```text\nshort\n```")
        ),
        _ => panic!("a form"),
    }
}

#[test]
fn failed_messages_do_not_stop_the_next() {
    let mut run = Run::new(vec![
        captured("A", "a", 0),
        Outcome::TimedOut,
        captured("C", "c", 0),
    ]);
    run.sent = Err("refused".to_owned());
    run.go(&config(&["A", "B", "C"]), false, NameMap::new());
    assert_eq!(
        run.notices[1..],
        [
            "[A] Discord message 1 failed: refused",
            "[B] Discord message 2 failed: refused",
            "[C] Discord message 3 failed: refused",
        ]
    );
    assert_eq!(run.requests.len(), 3);
}

#[test]
fn disabled_delivery_prints_only() {
    let mut run = Run::new(vec![captured("Main", "card", 0)]);
    run.go(&config(&["Main"]), true, NameMap::new());
    assert!(run.report.contains("card"));
    assert_eq!(run.notices, ["Discord delivery disabled by --no-discord"]);
    assert!(run.requests.is_empty() && run.drawn.is_empty());
}

#[test]
fn missing_webhooks_are_told() {
    for webhook in [None, Some(String::new()), Some(" \n".to_owned())] {
        let mut run = Run::new(vec![captured("Main", "card", 0)]);
        run.webhook = webhook;
        run.go(&config(&["Main"]), false, NameMap::new());
        assert_eq!(
            run.notices,
            ["DISCORD_WEBHOOK_URL is not set; report was only printed locally"]
        );
        assert!(run.requests.is_empty());
    }
}

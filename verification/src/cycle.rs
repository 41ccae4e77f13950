//! One cycle of the monitor: every account in turn, the report, and its delivery.
//!
//! The cycle decides; its caller acts. Each step takes what came of the last action and gives the
//! next one.

use vstd::prelude::*;
use vstd::string::*;

use crate::codex::{AccountResult, AccountState, CodexStatus};
use crate::config;
use crate::config::{blank, AppConfig};
use crate::discord;
use crate::discord::{
    format_account_report, format_report, prepare_account_webhook, webhook_payload, WebhookRequest,
};
use crate::markup;
use crate::names::NameMap;
use crate::split;
use crate::split::split_report;
use crate::text;
use crate::text::push_decimal;
use crate::time::{LocalTime, Span};

verus! {

/// How a time limit in full seconds is shown; none at all is shown in nanoseconds.
pub open spec fn shown_seconds(seconds: u64) -> Seq<char> {
    if seconds == 0 {
        "0ns"@
    } else {
        text::decimal(seconds as nat) + "s"@
    }
}

/// What came of monitoring an account.
#[derive(Debug)]
pub enum Outcome {
    /// Its status was captured.
    Captured { status: CodexStatus, state: AccountState },
    /// It could not be captured.
    Failed { error: String, state: AccountState },
    /// The worker did not finish its work.
    WorkerFailed(String),
    /// The worker did not finish in time.
    TimedOut,
}

impl Outcome {
    pub open spec fn wf(self) -> bool {
        match self {
            Outcome::Captured { state, .. } => state.wf(),
            Outcome::Failed { state, .. } => state.wf(),
            _ => true,
        }
    }

    /// What is remembered of the account, where the worker gave it back.
    pub open spec fn kept_state(self) -> Option<AccountState> {
        match self {
            Outcome::Captured { state, .. } => Some(state),
            Outcome::Failed { state, .. } => Some(state),
            _ => None,
        }
    }

    /// Why there is no status, where there is none.
    pub open spec fn failure(self, timeout_seconds: u64) -> Option<Seq<char>> {
        match self {
            Outcome::Captured { .. } => None,
            Outcome::Failed { error, .. } => Some(error@),
            Outcome::WorkerFailed(cause) => Some("monitor worker failed: "@ + cause@),
            Outcome::TimedOut => Some(
                "overall monitoring timeout after "@ + shown_seconds(timeout_seconds),
            ),
        }
    }

    /// Whether `result` is what is reported of the account `name`.
    pub open spec fn gives(
        self,
        name: Seq<char>,
        timeout_seconds: u64,
        result: AccountResult,
    ) -> bool {
        match self {
            Outcome::Captured { status, .. } => result == AccountResult::Success(status),
            _ => result matches AccountResult::Failure { account_name, error } && account_name@
                == name && Some(error@) == self.failure(timeout_seconds),
        }
    }

    /// What is told of the account `name`.
    pub open spec fn notice(self, name: Seq<char>, timeout_seconds: u64) -> Option<Seq<char>> {
        match self {
            Outcome::Captured { .. } => None,
            Outcome::Failed { error, .. } => Some("["@ + name + "] failed: "@ + error@),
            _ => Some("["@ + name + "] "@ + self.failure(timeout_seconds)->0),
        }
    }
}

/// Where a cycle stands: what its caller is doing.
#[derive(Debug, Clone, Copy, PartialEq, Eq, Structural)]
pub enum Phase {
    /// Monitoring the account at `index`.
    Monitoring { index: usize },
    /// Reading the wall clock.
    ReadingClock,
    /// Printing the report.
    Printing,
    /// Looking up the address of the webhook.
    FindingWebhook,
    /// Drawing the card of the account at `index`.
    Rendering { index: usize },
    /// Sending a message on the account at `index`: the one at `position` of its text, or the
    /// only one.
    Sending { index: usize, position: usize },
    /// Nothing: the cycle is over.
    Over,
}

/// What came of an action.
#[derive(Debug)]
pub enum CycleEvent {
    Monitored(Outcome),
    Clock(LocalTime),
    Printed,
    Webhook(Option<String>),
    Rendered(Result<Vec<u8>, String>),
    Sent(Result<(), String>),
}

/// What is to be done next.
#[derive(Debug)]
pub enum CycleAction {
    /// Monitor the account at `index`, of which `state` is remembered, for no longer than
    /// `limit`.
    Monitor { index: usize, state: AccountState, limit: Span },
    /// Read the wall clock.
    ReadClock,
    /// Print a report.
    Print(String),
    /// Look up the address of the webhook in this environment variable.
    FindWebhook(String),
    /// Draw this card.
    Render(String),
    /// Send this to the webhook.
    Send(WebhookRequest),
    /// Nothing: the cycle is over.
    Finish,
}

/// What a step tells the user, and what is to be done next.
#[derive(Debug)]
pub struct CycleStep {
    pub notice: Option<String>,
    pub action: CycleAction,
}

/// A cycle under way.
#[derive(Debug)]
pub struct Cycle {
    /// The names of the accounts.
    pub names: Vec<String>,
    pub overall_timeout_seconds: u64,
    pub webhook_env: String,
    pub no_discord: bool,
    pub phase: Phase,
    /// What is remembered of the accounts that are not being monitored.
    pub states: NameMap<AccountState>,
    /// What is reported of the accounts that have been monitored.
    pub results: Vec<AccountResult>,
    /// When the report was made.
    pub timestamp: Option<LocalTime>,
    /// The messages on an account whose card could not be drawn.
    pub fallback: Vec<String>,
    /// How many messages have been sent.
    pub message_number: u128,
}

/// What is remembered of the account `name`, where `states` are remembered.
pub open spec fn recalled(states: Map<Seq<char>, AccountState>, name: Seq<char>) -> AccountState {
    if states.dom().contains(name) {
        states[name]
    } else {
        AccountState { previous_five_hour_reset: None, previous_observed_at: None }
    }
}

/// The text of a notice.
pub open spec fn told(notice: Option<String>) -> Option<Seq<char>> {
    match notice {
        Some(text) => Some(text@),
        None => None,
    }
}

/// Whether `request` carries `content` and nothing else.
pub open spec fn posts_text(request: WebhookRequest, content: Seq<char>) -> bool {
    request matches WebhookRequest::Json(json) && json@ == discord::payload(content)
}

/// Whether `request` carries the card of `status`, as the picture `png` and as text.
pub open spec fn posts_card(request: WebhookRequest, status: CodexStatus, png: Seq<u8>) -> bool {
    let slug = markup::slug(status.account_name@);
    &&& request matches WebhookRequest::Form { payload_json, files }
    &&& payload_json@ == discord::payload(discord::message_title(status))
    &&& files@.len() == 2
    &&& discord::is_part(files@[0], "files[0]"@, slug + "-status.png"@, "image/png"@, png)
    &&& discord::is_part(
        files@[1],
        "files[1]"@,
        slug + "-status.txt"@,
        "text/plain; charset=utf-8"@,
        vstd::utf8::encode_utf8(status.rendered_status@ + "\n"@),
    )
}

impl Cycle {
    /// Whether all that is remembered is well-formed.
    pub open spec fn states_wf(self) -> bool {
        &&& self.states.wf()
        &&& forall|name: Seq<char>|
            #![trigger self.states@.dom().contains(name)]
            self.states@.dom().contains(name) ==> self.states@[name].wf()
    }

    /// Whether the report is on its way to the webhook.
    pub open spec fn is_delivering(self) -> bool {
        self.phase is FindingWebhook || self.phase is Rendering || self.phase is Sending
    }

    /// The invariant of a cycle.
    pub open spec fn wf(self) -> bool {
        let limit = 0xffff_ffff_ffff_ffffint;
        &&& self.states_wf()
        &&& self.names@.len() <= usize::MAX <= limit
        &&& self.no_discord ==> !self.is_delivering()
        &&& match self.phase {
            Phase::Monitoring { index } => index < self.names@.len() && self.results@.len()
                == index && self.message_number == 0,
            Phase::ReadingClock => self.results@.len() == self.names@.len() && self.message_number
                == 0,
            _ => self.results@.len() == self.names@.len() && (self.timestamp matches Some(t)
                && t.wf()),
        }
        &&& match self.phase {
            Phase::Printing | Phase::FindingWebhook => self.message_number == 0,
            Phase::Rendering { index } => index < self.results@.len()
                && self.results@[index as int] is Success && self.message_number <= index * limit,
            Phase::Sending { index, position } => index < self.results@.len() && (
            self.fallback@.len() == 0 && position == 0 || position < self.fallback@.len())
                && 1 <= self.message_number <= index * limit + position + 1,
            _ => true,
        }
    }

    /// Whether the cycle waits for `event`.
    pub open spec fn expects(self, event: CycleEvent) -> bool {
        match self.phase {
            Phase::Monitoring { .. } => event matches CycleEvent::Monitored(outcome)
                && outcome.wf(),
            Phase::ReadingClock => event matches CycleEvent::Clock(t) && t.wf(),
            Phase::Printing => event is Printed,
            Phase::FindingWebhook => event is Webhook,
            Phase::Rendering { .. } => event is Rendered,
            Phase::Sending { .. } => event is Sent,
            Phase::Over => false,
        }
    }

    /// Whether `self` has the settings of `other`.
    pub open spec fn same_settings(self, other: Cycle) -> bool {
        &&& self.names == other.names
        &&& self.overall_timeout_seconds == other.overall_timeout_seconds
        &&& self.webhook_env == other.webhook_env
        &&& self.no_discord == other.no_discord
    }

    /// Whether `self` differs from `other` in nothing but what concerns the delivery.
    pub open spec fn same_report(self, other: Cycle) -> bool {
        &&& self.same_settings(other)
        &&& self.states == other.states
        &&& self.results == other.results
        &&& self.timestamp == other.timestamp
    }

    /// Whether the cycle, where it remembered `states`, goes on to monitor the account at `index`,
    /// or to the report where there is none.
    pub open spec fn monitors(
        self,
        states: Map<Seq<char>, AccountState>,
        index: int,
        action: CycleAction,
    ) -> bool {
        if index < self.names@.len() {
            let name = self.names@[index]@;
            &&& self.phase == (Phase::Monitoring { index: index as usize })
            &&& self.states@ == states.remove(name)
            &&& action matches CycleAction::Monitor { index: asked, state, limit }
            &&& asked == index
            &&& state == recalled(states, name)
            &&& limit.nanos == (self.overall_timeout_seconds + 5) * 1_000_000_000
        } else {
            &&& self.phase == Phase::ReadingClock
            &&& self.states@ == states
            &&& action is ReadClock
        }
    }

    /// Whether the cycle, where `number` messages have been sent, goes on to deliver the result
    /// at `index`, or is over where there is none.
    pub open spec fn delivers(self, number: u128, index: int, action: CycleAction) -> bool {
        if index < self.results@.len() {
            match self.results@[index] {
                AccountResult::Success(status) => {
                    &&& self.phase == (Phase::Rendering { index: index as usize })
                    &&& self.message_number == number
                    &&& action matches CycleAction::Render(card)
                    &&& card@ == status.rendered_status@
                },
                AccountResult::Failure { .. } => {
                    &&& self.phase == (Phase::Sending { index: index as usize, position: 0 })
                    &&& self.fallback@.len() == 0
                    &&& self.message_number == number + 1
                    &&& action matches CycleAction::Send(request)
                    &&& posts_text(
                        request,
                        discord::account_report(self.timestamp->0, self.results@[index]),
                    )
                },
            }
        } else {
            &&& self.phase == Phase::Over
            &&& self.message_number == number
            &&& action is Finish
        }
    }

    /// Whether the cycle, where `number` messages have been sent, goes on to send the text at
    /// `position`, or to the result behind `index` where there is none.
    pub open spec fn sends_text(
        self,
        number: u128,
        index: int,
        position: int,
        action: CycleAction,
    ) -> bool {
        if position < self.fallback@.len() {
            &&& self.phase == (Phase::Sending {
                index: index as usize,
                position: position as usize,
            })
            &&& self.message_number == number + 1
            &&& action matches CycleAction::Send(request)
            &&& posts_text(request, self.fallback@[position]@)
        } else {
            self.delivers(number, index + 1, action)
        }
    }

    /// What is told of a message that was sent, or could not be.
    pub open spec fn sent_notice(self, index: int, sent: Result<(), String>) -> Seq<char> {
        let label = "["@ + self.results@[index].name() + "] Discord "@;
        match sent {
            Ok(()) => label + "report sent"@,
            Err(error) => label + (if self.fallback@.len() > 0 {
                "fallback message "@
            } else {
                "message "@
            }) + text::decimal(self.message_number as nat) + " failed: "@ + error@,
        }
    }

    /// Whether the cycle becomes `after` and answers with `step` when `event` comes.
    pub open spec fn steps(self, event: CycleEvent, after: Cycle, step: CycleStep) -> bool {
        match (self.phase, event) {
            (Phase::Monitoring { index }, CycleEvent::Monitored(outcome)) => {
                let name = self.names@[index as int]@;
                let states = match outcome.kept_state() {
                    Some(state) => self.states@.insert(name, state),
                    None => self.states@,
                };
                &&& after.same_settings(self)
                &&& after.timestamp == self.timestamp
                &&& after.message_number == self.message_number
                &&& after.results@.len() == index + 1
                &&& after.results@.drop_last() == self.results@
                &&& outcome.gives(name, self.overall_timeout_seconds, after.results@.last())
                &&& told(step.notice) == outcome.notice(name, self.overall_timeout_seconds)
                &&& after.monitors(states, index + 1, step.action)
            },
            (Phase::ReadingClock, CycleEvent::Clock(now)) => {
                &&& after.same_settings(self)
                &&& after.states == self.states
                &&& after.results == self.results
                &&& after.timestamp == Some(now)
                &&& after.message_number == self.message_number
                &&& after.phase == Phase::Printing
                &&& step.notice is None
                &&& step.action matches CycleAction::Print(report)
                &&& report@ == discord::report(now, self.results@)
            },
            (Phase::Printing, CycleEvent::Printed) => {
                &&& after.same_report(self)
                &&& after.message_number == self.message_number
                &&& if self.no_discord {
                    &&& after.phase == Phase::Over
                    &&& told(step.notice) == Some("Discord delivery disabled by --no-discord"@)
                    &&& step.action is Finish
                } else {
                    &&& after.phase == Phase::FindingWebhook
                    &&& step.notice is None
                    &&& step.action matches CycleAction::FindWebhook(variable)
                    &&& variable@ == self.webhook_env@
                }
            },
            (Phase::FindingWebhook, CycleEvent::Webhook(address)) => {
                &&& after.same_report(self)
                &&& if address matches Some(url) && !config::is_blank(url@) {
                    &&& step.notice is None
                    &&& after.delivers(self.message_number, 0, step.action)
                } else {
                    &&& after.phase == Phase::Over
                    &&& after.message_number == self.message_number
                    &&& told(step.notice) == Some(
                        self.webhook_env@ + " is not set; report was only printed locally"@,
                    )
                    &&& step.action is Finish
                }
            },
            (Phase::Rendering { index }, CycleEvent::Rendered(rendered)) => {
                &&& after.same_report(self)
                &&& match rendered {
                    Ok(png) => {
                        &&& after.phase == (Phase::Sending { index, position: 0 })
                        &&& after.fallback@.len() == 0
                        &&& after.message_number == self.message_number + 1
                        &&& step.notice is None
                        &&& step.action matches CycleAction::Send(request)
                        &&& posts_card(request, self.results@[index as int]->Success_0, png@)
                    },
                    Err(error) => {
                        &&& told(step.notice) == Some(
                            "could not render Discord status image: "@ + error@
                                + "; using text fallback"@,
                        )
                        &&& text::texts(after.fallback@) == split::report_messages(
                            discord::account_report(
                                self.timestamp->0,
                                self.results@[index as int],
                            ),
                        )
                        &&& after.sends_text(self.message_number, index as int, 0, step.action)
                    },
                }
            },
            (Phase::Sending { index, position }, CycleEvent::Sent(sent)) => {
                &&& after.same_report(self)
                &&& told(step.notice) == Some(self.sent_notice(index as int, sent))
                &&& if position + 1 < self.fallback@.len() {
                    &&& after.fallback == self.fallback
                    &&& after.sends_text(
                        self.message_number,
                        index as int,
                        position + 1,
                        step.action,
                    )
                } else {
                    after.delivers(self.message_number, index + 1, step.action)
                }
            },
            _ => false,
        }
    }
}

/// A line on the account `name`: `label` and `message` behind its name.
fn labelled(name: &str, label: &str, message: &str) -> (r: String)
    ensures
        r@ == "["@ + name@ + label@ + message@,
{
    let mut notice = "[".to_owned();
    notice.append(name);
    notice.append(label);
    notice.append(message);
    notice
}

impl Cycle {
    /// Starts a cycle over the accounts of `config`, of which `states` are remembered.
    pub fn start(config: &AppConfig, no_discord: bool, states: NameMap<AccountState>) -> (r: (
        Cycle,
        CycleAction,
    ))
        requires
            states.wf(),
            forall|name: Seq<char>|
                #![trigger states@.dom().contains(name)]
                states@.dom().contains(name) ==> states@[name].wf(),
        ensures
            r.0.wf(),
            r.0.names@.len() == config.accounts@.len(),
            forall|i: int|
                0 <= i < r.0.names@.len() ==> (#[trigger] r.0.names@[i])@
                    == config.accounts@[i].name@,
            r.0.overall_timeout_seconds == config.monitor.overall_timeout_seconds,
            r.0.webhook_env@ == config.discord.webhook_env@,
            r.0.no_discord == no_discord,
            r.0.results@.len() == 0,
            r.0.monitors(states@, 0, r.1),
    {
        let mut names: Vec<String> = Vec::new();
        let mut i: usize = 0;
        while i < config.accounts.len()
            invariant
                i <= config.accounts.len(),
                names@.len() == i,
                forall|j: int|
                    0 <= j < i ==> (#[trigger] names@[j])@ == config.accounts@[j].name@,
            decreases config.accounts.len() - i,
        {
            names.push(config.accounts[i].name.clone());
            i = i + 1;
        }
        let mut cycle = Cycle {
            names,
            overall_timeout_seconds: config.monitor.overall_timeout_seconds,
            webhook_env: config.discord.webhook_env.clone(),
            no_discord,
            phase: Phase::Over,
            states,
            results: Vec::new(),
            timestamp: None,
            fallback: Vec::new(),
            message_number: 0,
        };
        let action = cycle.monitor(0);
        (cycle, action)
    }

    /// Goes on to monitor the account at `index`, or to the report where there is none.
    fn monitor(&mut self, index: usize) -> (r: CycleAction)
        requires
            old(self).states_wf(),
            index <= old(self).names@.len(),
            old(self).results@.len() == index,
            old(self).message_number == 0,
        ensures
            final(self).wf(),
            final(self).same_settings(*old(self)),
            final(self).results == old(self).results,
            final(self).timestamp == old(self).timestamp,
            final(self).message_number == old(self).message_number,
            final(self).monitors(old(self).states@, index as int, r),
    {
        assert(self.names.len() <= usize::MAX);
        if index < self.names.len() {
            let ghost before = self.states@;
            let ghost name = self.names@[index as int]@;
            let state = match self.states.remove(self.names[index].as_str()) {
                Some(state) => state,
                None => AccountState::default(),
            };
            self.phase = Phase::Monitoring { index };
            proof {
                assert forall|other: Seq<char>|
                    #![trigger self.states@.dom().contains(other)]
                    self.states@.dom().contains(other) implies self.states@[other].wf() by {
                    assert(before.dom().contains(other));
                }
            }
            let limit = Span {
                nanos: (self.overall_timeout_seconds as u128 + 5) * 1_000_000_000,
            };
            CycleAction::Monitor { index, state, limit }
        } else {
            self.phase = Phase::ReadingClock;
            CycleAction::ReadClock
        }
    }

    /// Takes down what came of monitoring the account at `index`.
    fn record(&mut self, index: usize, outcome: Outcome) -> (r: Option<String>)
        requires
            old(self).states_wf(),
            index < old(self).names@.len(),
            outcome.wf(),
        ensures
            final(self).states_wf(),
            final(self).same_settings(*old(self)),
            final(self).timestamp == old(self).timestamp,
            final(self).message_number == old(self).message_number,
            final(self).states@ == (match outcome.kept_state() {
                Some(state) => old(self).states@.insert(old(self).names@[index as int]@, state),
                None => old(self).states@,
            }),
            final(self).results@.len() == old(self).results@.len() + 1,
            final(self).results@.drop_last() == old(self).results@,
            outcome.gives(
                old(self).names@[index as int]@,
                old(self).overall_timeout_seconds,
                final(self).results@.last(),
            ),
            told(r) == outcome.notice(
                old(self).names@[index as int]@,
                old(self).overall_timeout_seconds,
            ),
    {
        let name = self.names[index].clone();
        let ghost before = self.states@;
        match outcome {
            Outcome::Captured { status, state } => {
                self.states.insert(name, state);
                self.results.push(AccountResult::Success(status));
                None
            },
            Outcome::Failed { error, state } => {
                self.states.insert(name.clone(), state);
                let notice = labelled(name.as_str(), "] failed: ", error.as_str());
                self.results.push(AccountResult::Failure { account_name: name, error });
                Some(notice)
            },
            Outcome::WorkerFailed(cause) => {
                let mut error = "monitor worker failed: ".to_owned();
                error.append(cause.as_str());
                let notice = labelled(name.as_str(), "] ", error.as_str());
                self.results.push(AccountResult::Failure { account_name: name, error });
                Some(notice)
            },
            Outcome::TimedOut => {
                let mut error = "overall monitoring timeout after ".to_owned();
                let ghost before = error@;
                if self.overall_timeout_seconds == 0 {
                    error.append("0ns");
                } else {
                    push_decimal(&mut error, self.overall_timeout_seconds as u128);
                    error.append("s");
                }
                assert(error@ =~= before + shown_seconds(self.overall_timeout_seconds));
                let notice = labelled(name.as_str(), "] ", error.as_str());
                self.results.push(AccountResult::Failure { account_name: name, error });
                Some(notice)
            },
        }
    }

    /// Goes on to deliver the result at `index`, or ends the cycle where there is none.
    fn deliver(&mut self, index: usize) -> (r: CycleAction)
        requires
            old(self).states_wf(),
            old(self).results@.len() == old(self).names@.len(),
            index <= old(self).results@.len(),
            old(self).timestamp matches Some(t) && t.wf(),
            old(self).message_number <= index * 0xffff_ffff_ffff_ffff,
            !old(self).no_discord,
        ensures
            final(self).wf(),
            final(self).same_report(*old(self)),
            final(self).fallback@.len() == 0,
            final(self).delivers(old(self).message_number, index as int, r),
    {
        assert(self.names.len() <= usize::MAX);
        self.fallback = Vec::new();
        if index >= self.results.len() {
            self.phase = Phase::Over;
            return CycleAction::Finish;
        }
        match &self.results[index] {
            AccountResult::Success(status) => {
                self.phase = Phase::Rendering { index };
                CycleAction::Render(status.rendered_status.clone())
            },
            AccountResult::Failure { .. } => {
                let timestamp = self.timestamp.unwrap();
                let report = format_account_report(&timestamp, &self.results[index]);
                self.phase = Phase::Sending { index, position: 0 };
                self.message_number = self.message_number + 1;
                CycleAction::Send(WebhookRequest::Json(webhook_payload(report.as_str())))
            },
        }
    }

    /// Goes on to send the text at `position`, or to the result behind `index` where there is
    /// none.
    fn send_text(&mut self, index: usize, position: usize) -> (r: CycleAction)
        requires
            old(self).states_wf(),
            old(self).results@.len() == old(self).names@.len(),
            index < old(self).results@.len(),
            old(self).timestamp matches Some(t) && t.wf(),
            position <= old(self).fallback@.len(),
            old(self).message_number <= index * 0xffff_ffff_ffff_ffff + position,
            !old(self).no_discord,
        ensures
            final(self).wf(),
            final(self).same_report(*old(self)),
            position < old(self).fallback@.len() ==> final(self).fallback == old(self).fallback
                && final(self).sends_text(
                old(self).message_number,
                index as int,
                position as int,
                r,
            ),
            position == old(self).fallback@.len() ==> final(self).fallback@.len() == 0,
            position == old(self).fallback@.len() ==> final(self).delivers(
                old(self).message_number,
                index + 1,
                r,
            ),
    {
        assert(self.names.len() <= usize::MAX);
        assert(self.fallback.len() <= usize::MAX);
        if position >= self.fallback.len() {
            return self.deliver(index + 1);
        }
        self.phase = Phase::Sending { index, position };
        self.message_number = self.message_number + 1;
        CycleAction::Send(WebhookRequest::Json(webhook_payload(self.fallback[position].as_str())))
    }

    /// What is told of a message that was sent, or could not be.
    fn tell_sent(&self, index: usize, sent: Result<(), String>) -> (r: String)
        requires
            index < self.results@.len(),
        ensures
            r@ == self.sent_notice(index as int, sent),
    {
        let name = self.results[index].account_name();
        let mut notice = labelled(name, "] Discord ", "");
        proof {
            reveal_strlit("");
            assert(notice@ =~= "["@ + name@ + "] Discord "@);
        }
        match sent {
            Ok(()) => {
                notice.append("report sent");
            },
            Err(error) => {
                if self.fallback.len() > 0 {
                    notice.append("fallback message ");
                } else {
                    notice.append("message ");
                }
                push_decimal(&mut notice, self.message_number);
                notice.append(" failed: ");
                notice.append(error.as_str());
            },
        }
        notice
    }

    /// Goes on with the cycle when `event` has come.
    pub fn step(&mut self, event: CycleEvent) -> (r: CycleStep)
        requires
            old(self).wf(),
            old(self).expects(event),
        ensures
            final(self).wf(),
            old(self).steps(event, *final(self), r),
    {
        match event {
            CycleEvent::Monitored(outcome) => {
                let index: usize = match self.phase {
                    Phase::Monitoring { index } => index,
                    _ => 0,
                };
                assert(self.names.len() <= usize::MAX);
                let notice = self.record(index, outcome);
                let action = self.monitor(index + 1);
                CycleStep { notice, action }
            },
            CycleEvent::Clock(now) => {
                self.timestamp = Some(now);
                self.phase = Phase::Printing;
                let report = format_report(&now, self.results.as_slice());
                CycleStep { notice: None, action: CycleAction::Print(report) }
            },
            CycleEvent::Printed => {
                if self.no_discord {
                    self.phase = Phase::Over;
                    let notice = "Discord delivery disabled by --no-discord".to_owned();
                    CycleStep { notice: Some(notice), action: CycleAction::Finish }
                } else {
                    self.phase = Phase::FindingWebhook;
                    let variable = self.webhook_env.clone();
                    CycleStep { notice: None, action: CycleAction::FindWebhook(variable) }
                }
            },
            CycleEvent::Webhook(address) => {
                let found = match address {
                    Some(url) => !blank(url.as_str()),
                    None => false,
                };
                if found {
                    let action = self.deliver(0);
                    CycleStep { notice: None, action }
                } else {
                    self.phase = Phase::Over;
                    let mut notice = self.webhook_env.clone();
                    notice.append(" is not set; report was only printed locally");
                    CycleStep { notice: Some(notice), action: CycleAction::Finish }
                }
            },
            CycleEvent::Rendered(rendered) => {
                let index: usize = match self.phase {
                    Phase::Rendering { index } => index,
                    _ => 0,
                };
                let timestamp = self.timestamp.unwrap();
                match prepare_account_webhook(&timestamp, &self.results[index], rendered) {
                    Ok(message) => {
                        self.phase = Phase::Sending { index, position: 0 };
                        self.fallback = Vec::new();
                        self.message_number = self.message_number + 1;
                        let action = CycleAction::Send(WebhookRequest::new(message));
                        CycleStep { notice: None, action }
                    },
                    Err(error) => {
                        let mut notice = "could not render Discord status image: ".to_owned();
                        notice.append(error.as_str());
                        notice.append("; using text fallback");
                        let report = format_account_report(&timestamp, &self.results[index]);
                        self.fallback = split_report(report.as_str());
                        let action = self.send_text(index, 0);
                        assert(text::texts(self.fallback@) =~= split::report_messages(report@));
                        CycleStep { notice: Some(notice), action }
                    },
                }
            },
            CycleEvent::Sent(sent) => {
                let (index, position): (usize, usize) = match self.phase {
                    Phase::Sending { index, position } => (index, position),
                    _ => (0, 0),
                };
                let notice = self.tell_sent(index, sent);
                assert(self.names.len() <= usize::MAX);
                assert(self.fallback.len() <= usize::MAX);
                let action = if position + 1 < self.fallback.len() {
                    self.send_text(index, position + 1)
                } else {
                    self.deliver(index + 1)
                };
                CycleStep { notice: Some(notice), action }
            },
        }
    }
}

/// Every account has one result when the report is made, and what is reported of an account
/// stays as it is to the end of the cycle.
pub proof fn law_every_account_is_reported(
    cycle: Cycle,
    event: CycleEvent,
    after: Cycle,
    step: CycleStep,
)
    requires
        cycle.wf(),
        after.wf(),
        cycle.steps(event, after, step),
    ensures
        !(cycle.phase is Monitoring) ==> cycle.results@.len() == cycle.names@.len(),
        after.names == cycle.names,
        cycle.results@.len() <= after.results@.len(),
        forall|i: int|
            0 <= i < cycle.results@.len() ==> #[trigger] after.results@[i] == cycle.results@[i],
{
    if cycle.phase is Monitoring {
        assert forall|i: int| 0 <= i < cycle.results@.len() implies #[trigger] after.results@[i]
            == cycle.results@[i] by {
            assert(after.results@.drop_last()[i] == cycle.results@[i]);
        }
    }
}

/// Whatever comes of monitoring an account, the same account is monitored next.
pub proof fn law_failures_are_isolated(
    cycle: Cycle,
    one: CycleEvent,
    other: CycleEvent,
    after_one: Cycle,
    after_other: Cycle,
    step_one: CycleStep,
    step_other: CycleStep,
)
    requires
        cycle.wf(),
        cycle.phase is Monitoring,
        cycle.steps(one, after_one, step_one),
        cycle.steps(other, after_other, step_other),
    ensures
        after_one.phase == after_other.phase,
        after_one.results@.len() == after_other.results@.len(),
{
}

/// What is remembered of an account is replaced where the worker gave it back, and forgotten
/// where it did not. What is remembered of an account that is neither this one nor the next stays.
pub proof fn law_states_are_kept(
    cycle: Cycle,
    index: usize,
    outcome: Outcome,
    after: Cycle,
    step: CycleStep,
    name: Seq<char>,
)
    requires
        cycle.wf(),
        cycle.phase == (Phase::Monitoring { index }),
        cycle.steps(CycleEvent::Monitored(outcome), after, step),
        index + 1 < cycle.names@.len() ==> name != cycle.names@[index + 1]@,
    ensures
        name == cycle.names@[index as int]@ && outcome.kept_state() is Some
            ==> after.states@.dom().contains(name) && Some(after.states@[name])
            == outcome.kept_state(),
        name != cycle.names@[index as int]@ || outcome.kept_state() is None
            ==> after.states@.dom().contains(name) == cycle.states@.dom().contains(name) && (
        cycle.states@.dom().contains(name) ==> after.states@[name] == cycle.states@[name]),
{
}

/// While an account is monitored, nothing is remembered of it; its worker has it.
pub proof fn law_worker_has_the_state(
    states: Map<Seq<char>, AccountState>,
    cycle: Cycle,
    index: int,
    action: CycleAction,
)
    requires
        0 <= index < cycle.names@.len(),
        cycle.monitors(states, index, action),
    ensures
        !cycle.states@.dom().contains(cycle.names@[index]@),
        action matches CycleAction::Monitor { state, .. } && (states.dom().contains(
            cycle.names@[index]@,
        ) ==> state == states[cycle.names@[index]@]),
{
}

/// Where the delivery is disabled, nothing is drawn, looked up or sent.
pub proof fn law_disabled_delivery_sends_nothing(
    cycle: Cycle,
    event: CycleEvent,
    after: Cycle,
    step: CycleStep,
)
    requires
        cycle.wf(),
        after.wf(),
        cycle.no_discord,
        cycle.steps(event, after, step),
    ensures
        !(step.action is FindWebhook) && !(step.action is Render) && !(step.action is Send),
{
}

/// A cycle monitors the accounts in the same way whether or not the delivery is disabled.
pub proof fn law_disabled_delivery_monitors_alike(
    cycle: Cycle,
    no_discord: bool,
    event: CycleEvent,
    after: Cycle,
    step: CycleStep,
)
    requires
        cycle.wf(),
        cycle.phase is Monitoring || cycle.phase is ReadingClock,
        cycle.steps(event, after, step),
    ensures
        (Cycle { no_discord, ..cycle }).steps(event, Cycle { no_discord, ..after }, step),
{
}

/// The card of an account takes one message: once it is sent, the next account is delivered.
pub proof fn law_card_takes_one_message(
    cycle: Cycle,
    index: usize,
    png: Vec<u8>,
    sending: Cycle,
    first: CycleStep,
    sent: Result<(), String>,
    after: Cycle,
    second: CycleStep,
)
    requires
        cycle.wf(),
        cycle.phase == (Phase::Rendering { index }),
        cycle.steps(CycleEvent::Rendered(Ok(png)), sending, first),
        sending.steps(CycleEvent::Sent(sent), after, second),
    ensures
        first.action matches CycleAction::Send(request) && posts_card(
            request,
            cycle.results@[index as int]->Success_0,
            png@,
        ),
        after.delivers(sending.message_number, index + 1, second.action),
{
}

/// Where the card of an account cannot be drawn, every line of its report that is not too long
/// for one message stands whole in one of the messages that take its place.
pub proof fn law_fallback_carries_every_line(
    cycle: Cycle,
    index: usize,
    error: String,
    after: Cycle,
    step: CycleStep,
    i: int,
)
    requires
        cycle.wf(),
        cycle.phase == (Phase::Rendering { index }),
        cycle.steps(CycleEvent::Rendered(Err(error)), after, step),
        0 <= i < text::lines(
            discord::account_report(cycle.timestamp->0, cycle.results@[index as int]),
        ).len(),
        text::lines(
            discord::account_report(cycle.timestamp->0, cycle.results@[index as int]),
        )[i].len() <= split::LONGEST_LINE,
    ensures
        exists|k: int|
            0 <= k < after.fallback@.len() && text::contains(
                (#[trigger] after.fallback@[k])@,
                text::lines(
                    discord::account_report(cycle.timestamp->0, cycle.results@[index as int]),
                )[i],
            ),
{
    let report = discord::account_report(cycle.timestamp->0, cycle.results@[index as int]);
    let line = text::lines(report)[i];
    split::law_every_line_reaches_a_message(report, i);
    let messages = split::report_messages(report);
    let k = choose|k: int|
        0 <= k < messages.len() && text::contains(#[trigger] messages[k], line);
    assert(text::texts(after.fallback@)[k] == messages[k]);
    assert(after.fallback@[k]@ == messages[k]);
}

/// A message that could not be sent does not keep the next one from being sent.
pub proof fn law_failed_messages_are_isolated(
    cycle: Cycle,
    one: Result<(), String>,
    other: Result<(), String>,
    after_one: Cycle,
    after_other: Cycle,
    step_one: CycleStep,
    step_other: CycleStep,
)
    requires
        cycle.wf(),
        cycle.phase is Sending,
        cycle.steps(CycleEvent::Sent(one), after_one, step_one),
        cycle.steps(CycleEvent::Sent(other), after_other, step_other),
    ensures
        after_one.phase == after_other.phase,
        after_one.message_number == after_other.message_number,
        step_one.action is Send <==> step_other.action is Send,
        step_one.action is Render <==> step_other.action is Render,
{
}

/// Every message gets the number behind that of the message before it.
pub proof fn law_messages_are_numbered(
    cycle: Cycle,
    event: CycleEvent,
    after: Cycle,
    step: CycleStep,
)
    requires
        cycle.wf(),
        cycle.steps(event, after, step),
    ensures
        after.message_number == cycle.message_number + (if step.action is Send {
            1int
        } else {
            0int
        }),
{
}

impl Cycle {
    /// How much of the cycle is left: its stages, the results in a stage, and the texts of a
    /// result.
    pub open spec fn left(self) -> (nat, nat, nat) {
        match self.phase {
            Phase::Monitoring { index } => (5, (self.names@.len() - index) as nat, 0),
            Phase::ReadingClock => (4, 0, 0),
            Phase::Printing => (3, 0, 0),
            Phase::FindingWebhook => (2, 0, 0),
            Phase::Rendering { index } => (1, (2 * (self.results@.len() - index)) as nat, 0),
            Phase::Sending { index, position } => (
                1,
                (2 * (self.results@.len() - index) - 1) as nat,
                (self.fallback@.len() - position) as nat,
            ),
            Phase::Over => (0, 0, 0),
        }
    }
}

/// A cycle comes to an end: every step leaves less of it.
pub proof fn law_cycle_ends(cycle: Cycle, event: CycleEvent, after: Cycle, step: CycleStep)
    requires
        cycle.wf(),
        after.wf(),
        cycle.steps(event, after, step),
    ensures
        ({
            let (stages, results, texts) = cycle.left();
            let (stages_after, results_after, texts_after) = after.left();
            ||| stages_after < stages
            ||| stages_after == stages && results_after < results
            ||| stages_after == stages && results_after == results && texts_after < texts
        }),
        after.phase is Over <==> step.action is Finish,
{
    let count = cycle.results@.len();
    match cycle.phase {
        Phase::Rendering { index } => {
            assert(after.results@.len() == count);
            assert(cycle.left().1 == 2 * (count - index));
            assert(cycle.left().0 == 1);
        },
        Phase::Sending { index, position } => {
            assert(after.results@.len() == count);
            assert(cycle.left().1 == 2 * (count - index) - 1);
            assert(cycle.fallback.len() <= usize::MAX);
            if position + 1 < cycle.fallback@.len() {
                assert(after.phase == (Phase::Sending {
                    index,
                    position: (position + 1) as usize,
                }));
                assert(after.left().2 < cycle.left().2);
            } else if index + 1 < count {
                assert(after.left().1 < cycle.left().1);
            }
        },
        Phase::Monitoring { index } => {
            assert(after.left().0 == 4 || after.left().1 == cycle.left().1 - 1);
        },
        _ => {},
    }
}

/// The result of an account is its status, or why there is none, and what went wrong is told.
pub proof fn law_result_of_an_account(
    cycle: Cycle,
    index: usize,
    outcome: Outcome,
    after: Cycle,
    step: CycleStep,
)
    requires
        cycle.wf(),
        cycle.phase == (Phase::Monitoring { index }),
        cycle.steps(CycleEvent::Monitored(outcome), after, step),
    ensures
        after.results@.len() == cycle.results@.len() + 1,
        ({
            let name = cycle.names@[index as int]@;
            let result = after.results@[index as int];
            let limit = if cycle.overall_timeout_seconds == 0 {
                "0ns"@
            } else {
                text::decimal(cycle.overall_timeout_seconds as nat) + "s"@
            };
            match outcome {
                Outcome::Captured { status, state } => {
                    &&& result == AccountResult::Success(status)
                    &&& step.notice is None
                },
                Outcome::Failed { error, state } => {
                    &&& fails(result, name, error@)
                    &&& says(step, "["@ + name + "] failed: "@ + error@)
                },
                Outcome::WorkerFailed(cause) => {
                    &&& fails(result, name, "monitor worker failed: "@ + cause@)
                    &&& says(step, "["@ + name + "] "@ + ("monitor worker failed: "@ + cause@))
                },
                Outcome::TimedOut => {
                    &&& fails(result, name, "overall monitoring timeout after "@ + limit)
                    &&& says(
                        step,
                        "["@ + name + "] "@ + ("overall monitoring timeout after "@ + limit),
                    )
                },
            }
        }),
{
    assert(after.results@[index as int] == after.results@.last());
}

/// Whether `result` says that the account `name` failed, for the reason `cause`.
pub open spec fn fails(result: AccountResult, name: Seq<char>, cause: Seq<char>) -> bool {
    result matches AccountResult::Failure { account_name, error } && account_name@ == name && error@
        == cause
}

/// Whether `step` tells the user `said`.
pub open spec fn says(step: CycleStep, said: Seq<char>) -> bool {
    step.notice matches Some(notice) && notice@ == said
}

/// The accounts are monitored in their order, each with what is remembered of it, or with nothing
/// where nothing is, and each for five seconds longer than its own time. Behind the last one the
/// clock is read.
pub proof fn law_accounts_are_monitored_in_order(
    cycle: Cycle,
    index: usize,
    outcome: Outcome,
    after: Cycle,
    step: CycleStep,
)
    requires
        cycle.wf(),
        cycle.phase == (Phase::Monitoring { index }),
        cycle.steps(CycleEvent::Monitored(outcome), after, step),
    ensures
        ({
            let name = cycle.names@[index as int]@;
            let known = match outcome {
                Outcome::Captured { status, state } => cycle.states@.insert(name, state),
                Outcome::Failed { error, state } => cycle.states@.insert(name, state),
                _ => cycle.states@,
            };
            &&& index + 1 < cycle.names@.len() ==> is_monitored_next(
                cycle.names@[index + 1]@,
                known,
                cycle.overall_timeout_seconds,
                index + 1,
                after,
                step.action,
            )
            &&& index + 1 == cycle.names@.len() ==> after.phase == Phase::ReadingClock
                && after.states@ == known && step.action is ReadClock
        }),
        after.names@ == cycle.names@,
        after.overall_timeout_seconds == cycle.overall_timeout_seconds,
        after.webhook_env@ == cycle.webhook_env@,
        after.no_discord == cycle.no_discord,
{
}

/// Whether the account `name`, the one at `index`, is monitored next, with what is known of it.
pub open spec fn is_monitored_next(
    name: Seq<char>,
    known: Map<Seq<char>, AccountState>,
    timeout_seconds: u64,
    index: int,
    cycle: Cycle,
    action: CycleAction,
) -> bool {
    &&& cycle.phase is Monitoring
    &&& cycle.phase->Monitoring_index == index
    &&& cycle.states@ == known.remove(name)
    &&& action is Monitor
    &&& action->index == index
    &&& action->limit.nanos == timeout_seconds * 1_000_000_000 + 5_000_000_000
    &&& known.dom().contains(name) ==> action->state == known[name]
    &&& !known.dom().contains(name) ==> action->state.previous_five_hour_reset is None
        && action->state.previous_observed_at is None
}

/// A cycle starts with the first account, with what is remembered of it, and goes by the
/// configuration.
pub proof fn law_cycles_start_with_the_first_account(
    config: AppConfig,
    no_discord: bool,
    states: NameMap<AccountState>,
    started: (Cycle, CycleAction),
)
    requires
        call_ensures(Cycle::start, (&config, no_discord, states), started),
    ensures
        started.0.names@.len() == config.accounts@.len(),
        forall|i: int|
            0 <= i < config.accounts@.len() ==> (#[trigger] started.0.names@[i])@
                == config.accounts@[i].name@,
        started.0.overall_timeout_seconds == config.monitor.overall_timeout_seconds,
        started.0.webhook_env@ == config.discord.webhook_env@,
        started.0.no_discord == no_discord,
        config.accounts@.len() > 0 ==> is_monitored_next(
            config.accounts@[0].name@,
            states@,
            config.monitor.overall_timeout_seconds,
            0,
            started.0,
            started.1,
        ),
        config.accounts@.len() == 0 ==> started.1 is ReadClock,
{
}

/// The report that is printed is the one on all results, at the time of the clock.
pub proof fn law_report_is_printed(
    cycle: Cycle,
    now: LocalTime,
    after: Cycle,
    step: CycleStep,
    results: &[AccountResult],
    report: String,
)
    requires
        cycle.phase == Phase::ReadingClock,
        cycle.steps(CycleEvent::Clock(now), after, step),
        results@ == cycle.results@,
        call_ensures(format_report, (&now, results), report),
    ensures
        step.action matches CycleAction::Print(printed) && printed@ == report@,
        step.notice is None,
        after.timestamp == Some(now),
        after.results@ == cycle.results@,
        after.states@ == cycle.states@,
        after.phase == Phase::Printing,
{
}

/// A printed report is delivered to the webhook of the configuration, unless that is disabled.
pub proof fn law_printed_report_is_delivered(cycle: Cycle, after: Cycle, step: CycleStep)
    requires
        cycle.phase == Phase::Printing,
        cycle.steps(CycleEvent::Printed, after, step),
    ensures
        cycle.no_discord ==> step.action is Finish && says(
            step,
            "Discord delivery disabled by --no-discord"@,
        ) && after.phase == Phase::Over,
        !cycle.no_discord ==> (step.action matches CycleAction::FindWebhook(variable) && variable@
            == cycle.webhook_env@) && step.notice is None && after.phase == Phase::FindingWebhook,
        after.results@ == cycle.results@,
        after.timestamp == cycle.timestamp,
        after.states@ == cycle.states@,
{
}

/// Whether the result at `index` is delivered next: the card of a status is drawn, and of a failure
/// the report is sent. Behind the last result the cycle is over.
pub open spec fn is_delivered_next(cycle: Cycle, index: int, action: CycleAction) -> bool {
    if index < cycle.results@.len() {
        match cycle.results@[index] {
            AccountResult::Success(status) => {
                &&& cycle.phase is Rendering
                &&& cycle.phase->Rendering_index == index
                &&& action matches CycleAction::Render(card) && card@ == status.rendered_status@
            },
            AccountResult::Failure { account_name, error } => {
                &&& cycle.phase is Sending
                &&& cycle.phase->Sending_index == index
                &&& cycle.timestamp is Some
                &&& sends_the_text(
                    action,
                    discord::account_report(cycle.timestamp->0, cycle.results@[index]),
                )
            },
        }
    } else {
        cycle.phase == Phase::Over && action is Finish
    }
}

/// Whether `action` sends the text `content`, and nothing else.
pub open spec fn sends_the_text(action: CycleAction, content: Seq<char>) -> bool {
    action matches CycleAction::Send(request) && (request matches WebhookRequest::Json(json) && json@
        == discord::payload(content))
}

/// With the address of a webhook the first result is delivered. Without one, or with white space in
/// its place, the report is not delivered, and that is told.
pub proof fn law_webhook_is_needed(
    cycle: Cycle,
    address: Option<String>,
    after: Cycle,
    step: CycleStep,
    k: int,
)
    requires
        cycle.wf(),
        cycle.phase == Phase::FindingWebhook,
        cycle.steps(CycleEvent::Webhook(address), after, step),
    ensures
        address matches Some(url) ==> (0 <= k < url@.len() && !text::is_white_space(url@[k])
            ==> is_delivered_next(after, 0, step.action) && step.notice is None),
        (address is None || forall|i: int|
            0 <= i < address->0@.len() ==> text::is_white_space(#[trigger] address->0@[i]))
            ==> step.action is Finish && says(
            step,
            cycle.webhook_env@ + " is not set; report was only printed locally"@,
        ) && after.phase == Phase::Over,
        after.results@ == cycle.results@,
        after.timestamp == cycle.timestamp,
        after.states@ == cycle.states@,
{
    if let Some(url) = address {
        config::lemma_blank_is_white_space(url@);
    }
}

/// A card that was drawn is sent under the title of its account: the picture first, then the card as
/// text.
pub proof fn law_drawn_card_is_sent(
    cycle: Cycle,
    index: usize,
    status: CodexStatus,
    png: Vec<u8>,
    after: Cycle,
    step: CycleStep,
)
    requires
        cycle.wf(),
        cycle.phase == (Phase::Rendering { index }),
        cycle.results@[index as int] == AccountResult::Success(status),
        cycle.steps(CycleEvent::Rendered(Ok(png)), after, step),
    ensures
        step.notice is None,
        after.phase == (Phase::Sending { index, position: 0 }),
        after.results@ == cycle.results@,
        step.action matches CycleAction::Send(request) && (
        request matches WebhookRequest::Form { payload_json, files } && {
            let slug = markup::slug(status.account_name@);
            &&& payload_json@ == discord::payload(discord::message_title(status))
            &&& files@.len() == 2
            &&& files@[0].field@ == "files[0]"@
            &&& files@[0].file_name@ == slug + "-status.png"@
            &&& files@[0].media_type@ == "image/png"@
            &&& files@[0].bytes@ == png@
            &&& files@[1].field@ == "files[1]"@
            &&& files@[1].file_name@ == slug + "-status.txt"@
            &&& files@[1].media_type@ == "text/plain; charset=utf-8"@
            &&& files@[1].bytes@ == vstd::utf8::encode_utf8(status.rendered_status@ + "\n"@)
        }),
{
}

/// Where a card cannot be drawn, that is told, and the messages that the report on the account is
/// split into are sent, from the first on.
pub proof fn law_undrawn_card_is_sent_as_text(
    cycle: Cycle,
    index: usize,
    error: String,
    after: Cycle,
    step: CycleStep,
    report: &str,
    messages: Vec<String>,
)
    requires
        cycle.wf(),
        cycle.phase == (Phase::Rendering { index }),
        cycle.steps(CycleEvent::Rendered(Err(error)), after, step),
        report@ == discord::account_report(cycle.timestamp->0, cycle.results@[index as int]),
        call_ensures(split_report, (report,), messages),
    ensures
        says(
            step,
            "could not render Discord status image: "@ + error@ + "; using text fallback"@,
        ),
        after.fallback@.len() == messages@.len(),
        forall|i: int|
            0 <= i < messages@.len() ==> (#[trigger] after.fallback@[i])@ == messages@[i]@,
        messages@.len() > 0 ==> after.phase == (Phase::Sending { index, position: 0 })
            && sends_the_text(step.action, messages@[0]@),
        messages@.len() == 0 ==> is_delivered_next(after, index + 1, step.action),
        after.results@ == cycle.results@,
{
    let all = split::report_messages(report@);
    assert(text::texts(after.fallback@) == all);
    assert(text::texts(messages@) == all);
    assert forall|i: int| 0 <= i < messages@.len() implies (#[trigger] after.fallback@[i])@
        == messages@[i]@ by {
        assert(text::texts(after.fallback@)[i] == all[i]);
        assert(text::texts(messages@)[i] == all[i]);
    }
}

/// A message that was sent, or could not be, is followed by the next one on the account, and behind
/// the last by the next result. What came of it is told.
pub proof fn law_messages_follow_each_other(
    cycle: Cycle,
    index: usize,
    position: usize,
    sent: Result<(), String>,
    after: Cycle,
    step: CycleStep,
    name: &str,
)
    requires
        cycle.wf(),
        cycle.phase == (Phase::Sending { index, position }),
        cycle.steps(CycleEvent::Sent(sent), after, step),
        call_ensures(AccountResult::account_name, (&cycle.results@[index as int],), name),
    ensures
        sent is Ok ==> says(step, "["@ + name@ + "] Discord "@ + "report sent"@),
        sent matches Err(error) ==> says(
            step,
            "["@ + name@ + "] Discord "@ + (if cycle.fallback@.len() > 0 {
                "fallback message "@
            } else {
                "message "@
            }) + text::decimal(cycle.message_number as nat) + " failed: "@ + error@,
        ),
        position + 1 < cycle.fallback@.len() ==> after.phase is Sending
            && after.phase->Sending_index == index && after.phase->Sending_position == position + 1
            && after.fallback@ == cycle.fallback@ && sends_the_text(
            step.action,
            cycle.fallback@[position + 1]@,
        ),
        position + 1 >= cycle.fallback@.len() ==> is_delivered_next(after, index + 1, step.action),
        after.results@ == cycle.results@,
        after.timestamp == cycle.timestamp,
        after.states@ == cycle.states@,
{
    assert(cycle.fallback.len() <= usize::MAX);
}

/// A cycle takes whatever comes of what it asked for, as long as the calendar covers the times in it.
pub proof fn law_cycles_take_what_comes(cycle: Cycle, event: CycleEvent)
    ensures
        cycle.phase is Monitoring ==> (event matches CycleEvent::Monitored(outcome) ==> (
        match outcome {
            Outcome::Captured { status, state } => state.wf(),
            Outcome::Failed { error, state } => state.wf(),
            _ => true,
        } ==> cycle.expects(event))),
        cycle.phase == Phase::ReadingClock ==> (event matches CycleEvent::Clock(t) ==> (t.wf()
            ==> cycle.expects(event))),
        cycle.phase == Phase::Printing && event is Printed ==> cycle.expects(event),
        cycle.phase == Phase::FindingWebhook && event is Webhook ==> cycle.expects(event),
        cycle.phase is Rendering && event is Rendered ==> cycle.expects(event),
        cycle.phase is Sending && event is Sent ==> cycle.expects(event),
{
}

/// A cycle goes on as its steps say.
pub proof fn law_cycles_step(cycle: &mut Cycle, event: CycleEvent, step: CycleStep)
    requires
        call_ensures(Cycle::step, (cycle, event), step),
    ensures
        old(cycle).steps(event, *final(cycle), step),
        final(cycle).wf(),
{
}

} // verus!

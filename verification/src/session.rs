//! A Codex session in a terminal: what is typed into it, what is waited for on its screen, and
//! how it is ended.

use vstd::prelude::*;
use vstd::string::*;

use crate::card;
use crate::card::extract_last_complete_card;
use crate::text;
use crate::text::{chars_of, contains_text};
use crate::time::{Moment, Span};

verus! {

/// What Codex shows when it waits for input.
pub open spec fn ready_marker() -> Seq<char> {
    "Ask Codex to do anything"@
}

/// What Codex shows when `/status` is typed.
pub open spec fn status_hint() -> Seq<char> {
    "show current session configuration and token usage"@
}

/// What is typed to have the model reply.
pub open spec fn anchor_prompt() -> Seq<char> {
    "Reply only OK. Do not use tools."@
}

/// Why a session failed.
#[derive(Debug, Clone)]
pub enum SessionError {
    /// The terminal could not be read.
    ReaderFailed(String),
    /// The terminal was closed.
    Closed,
    /// Codex did not get ready in time.
    NotReady,
    /// Codex did not take `/status` in time.
    StatusNotAccepted,
    /// Codex did not show a status card in time.
    NoStatusCard,
    /// Codex did not take the prompt in time.
    AnchorNotAccepted,
    /// The model did not reply in time.
    AnchorNotCompleted,
    /// The time for the whole account was up.
    OutOfTime,
    /// The time for the whole account would be up before the next status request.
    NoTimeToRefresh,
    /// Something outside of the session failed.
    Other(String),
}

impl SessionError {
    /// The message of the error.
    pub open spec fn text(self) -> Seq<char> {
        match self {
            SessionError::ReaderFailed(error) => "PTY reader failed: "@ + error@,
            SessionError::Closed => "Codex PTY closed unexpectedly"@,
            SessionError::NotReady =>
                "timed out waiting for Codex TUI readiness marker \"Ask Codex to do anything\""@,
            SessionError::StatusNotAccepted =>
                "timed out waiting for Codex to accept /status input"@,
            SessionError::NoStatusCard =>
                "timed out waiting for a complete rendered /status card"@,
            SessionError::AnchorNotAccepted =>
                "timed out waiting for Codex to accept anchor input"@,
            SessionError::AnchorNotCompleted =>
                "timed out waiting for anchor model turn completion"@,
            SessionError::OutOfTime => "timed out during overall account monitoring"@,
            SessionError::NoTimeToRefresh =>
                "overall account timeout expired while waiting for rate-limit refresh"@,
            SessionError::Other(error) => error@,
        }
    }

    /// The message of the error.
    pub fn message(&self) -> (r: String)
        ensures
            r@ == self.text(),
    {
        match self {
            SessionError::ReaderFailed(error) => {
                let mut message = "PTY reader failed: ".to_owned();
                message.append(error.as_str());
                message
            },
            SessionError::Closed => "Codex PTY closed unexpectedly".to_owned(),
            SessionError::NotReady =>
                "timed out waiting for Codex TUI readiness marker \"Ask Codex to do anything\"".to_owned(),
            SessionError::StatusNotAccepted =>
                "timed out waiting for Codex to accept /status input".to_owned(),
            SessionError::NoStatusCard =>
                "timed out waiting for a complete rendered /status card".to_owned(),
            SessionError::AnchorNotAccepted =>
                "timed out waiting for Codex to accept anchor input".to_owned(),
            SessionError::AnchorNotCompleted =>
                "timed out waiting for anchor model turn completion".to_owned(),
            SessionError::OutOfTime => "timed out during overall account monitoring".to_owned(),
            SessionError::NoTimeToRefresh =>
                "overall account timeout expired while waiting for rate-limit refresh".to_owned(),
            SessionError::Other(error) => error.clone(),
        }
    }

    /// What was waited for when the time was up.
    pub open spec fn awaited(self) -> Option<Seq<char>> {
        match self {
            SessionError::NotReady => Some("waiting for TUI readiness"@),
            SessionError::StatusNotAccepted => Some("waiting for Codex to accept /status input"@),
            SessionError::NoStatusCard => Some("waiting for rendered /status card"@),
            SessionError::AnchorNotAccepted => Some("waiting for Codex to accept anchor input"@),
            SessionError::AnchorNotCompleted => Some("waiting for anchor model turn completion"@),
            _ => None,
        }
    }

    /// What to print of the screen of an account when the time was up.
    pub fn debug_screen(&self, account_name: &str, screen: &str) -> (r: Option<String>)
        ensures
            match (self.awaited(), r) {
                (Some(operation), Some(shown)) => shown@ == "["@ + account_name@
                    + "] reconstructed screen while "@ + operation + ":\n--- screen ---\n"@ + screen@
                    + "\n--- end screen ---"@,
                (None, None) => true,
                _ => false,
            },
    {
        let operation = match self {
            SessionError::NotReady => "waiting for TUI readiness",
            SessionError::StatusNotAccepted => "waiting for Codex to accept /status input",
            SessionError::NoStatusCard => "waiting for rendered /status card",
            SessionError::AnchorNotAccepted => "waiting for Codex to accept anchor input",
            SessionError::AnchorNotCompleted => "waiting for anchor model turn completion",
            _ => {
                return None;
            },
        };
        let mut shown = "[".to_owned();
        shown.append(account_name);
        shown.append("] reconstructed screen while ");
        shown.append(operation);
        shown.append(":\n--- screen ---\n");
        shown.append(screen);
        shown.append("\n--- end screen ---");
        Some(shown)
    }
}

/// The terminal at one moment.
#[derive(Debug, Clone)]
pub struct Snapshot {
    pub screen: String,
    /// How often output has changed the terminal.
    pub revision: u64,
    /// When output last changed the terminal.
    pub last_update: Moment,
}

impl Snapshot {
    /// Whether the terminal has not changed for `millis` milliseconds.
    pub open spec fn quiet(self, now: Moment, millis: int) -> bool {
        elapsed(self.last_update, now) >= millis * 1_000_000
    }

    /// Whether the terminal has not changed for `millis` milliseconds.
    fn is_quiet(&self, now: Moment, millis: u64) -> (r: bool)
        ensures
            r == self.quiet(now, millis as int),
    {
        now.since(self.last_update).nanos >= Span::from_millis(millis).nanos
    }
}

/// The nanoseconds from `start` to `now`.
pub open spec fn elapsed(start: Moment, now: Moment) -> int {
    if start.nanos <= now.nanos {
        now.nanos - start.nanos
    } else {
        0
    }
}

/// The end of a stage that may take `stage_timeout`, but not longer than to `overall_deadline`.
pub open spec fn stage_end(stage_timeout: Span, now: Moment, overall_deadline: Moment) -> int {
    if now.nanos + stage_timeout.nanos <= overall_deadline.nanos {
        now.nanos + stage_timeout.nanos
    } else {
        overall_deadline.nanos as int
    }
}

/// The end of a stage that may take `stage_timeout`, but not longer than to `overall_deadline`.
pub fn deadline_for(stage_timeout: Span, now: Moment, overall_deadline: Moment) -> (r: Moment)
    ensures
        r.nanos == stage_end(stage_timeout, now, overall_deadline),
{
    if overall_deadline.nanos >= now.nanos && stage_timeout.nanos <= overall_deadline.nanos
        - now.nanos {
        Moment { nanos: now.nanos + stage_timeout.nanos }
    } else {
        overall_deadline
    }
}

/// Whether there is still time for the account.
pub fn ensure_before(now: Moment, deadline: Moment) -> (r: Result<(), SessionError>)
    ensures
        match r {
            Ok(_) => now.nanos < deadline.nanos,
            Err(error) => now.nanos >= deadline.nanos && error is OutOfTime,
        },
{
    if now.nanos >= deadline.nanos {
        return Err(SessionError::OutOfTime);
    }
    Ok(())
}

/// How long to pause before the next status request: `duration`, if the account's time is not
/// up before that.
pub fn sleep_until(duration: Span, now: Moment, overall_deadline: Moment) -> (r: Result<
    Span,
    SessionError,
>)
    ensures
        match r {
            Ok(pause) => pause == duration && now.nanos + duration.nanos <= overall_deadline.nanos,
            Err(error) => now.nanos + duration.nanos > overall_deadline.nanos
                && error is NoTimeToRefresh,
        },
{
    if now.nanos > overall_deadline.nanos || duration.nanos > overall_deadline.nanos - now.nanos {
        return Err(SessionError::NoTimeToRefresh);
    }
    Ok(duration)
}

/// What to do while Codex starts.
#[derive(Debug, Clone)]
pub enum Startup {
    /// Codex is ready.
    Ready,
    /// Look again after a while.
    Wait(Span),
    /// Codex took too long.
    Failed(SessionError),
}

/// Whether Codex waits for input: it shows its prompt, and has been quiet for a while.
pub open spec fn is_ready(seen: Snapshot, now: Moment) -> bool {
    text::contains(seen.screen@, ready_marker()) && seen.quiet(now, 750)
}

/// What to do while Codex starts.
pub fn wait_until_ready(seen: &Snapshot, now: Moment, deadline: Moment) -> (r: Startup)
    ensures
        match r {
            Startup::Ready => is_ready(*seen, now),
            Startup::Failed(error) => !is_ready(*seen, now) && now.nanos >= deadline.nanos
                && error is NotReady,
            Startup::Wait(pause) => !is_ready(*seen, now) && now.nanos < deadline.nanos
                && pause.nanos == 50 * 1_000_000,
        },
{
    if contains_text(seen.screen.as_str(), "Ask Codex to do anything") && seen.is_quiet(now, 750) {
        Startup::Ready
    } else if now.nanos >= deadline.nanos {
        Startup::Failed(SessionError::NotReady)
    } else {
        Startup::Wait(Span::from_millis(50))
    }
}

/// What is asked of Codex.
#[derive(Debug, Clone, Copy, PartialEq, Eq, Structural)]
pub enum Purpose {
    /// To show its status card.
    Status,
    /// To have the model reply, so that a dormant window starts.
    Anchor,
}

impl Purpose {
    /// What is typed.
    pub open spec fn typed(self) -> Seq<char> {
        match self {
            Purpose::Status => "/status"@,
            Purpose::Anchor => anchor_prompt(),
        }
    }

    /// The milliseconds to pause after each key.
    pub open spec fn key_pause(self) -> int {
        match self {
            Purpose::Status => 20,
            Purpose::Anchor => 12,
        }
    }

    /// Whether Codex has taken what was typed.
    pub open spec fn accepted(self, seen: Snapshot, now: Moment) -> bool {
        match self {
            Purpose::Status => text::contains(seen.screen@, status_hint()) && seen.quiet(now, 100),
            Purpose::Anchor => text::contains(seen.screen@, anchor_prompt()),
        }
    }

    /// The error for input that Codex does not take.
    pub open spec fn not_accepted(self) -> SessionError {
        match self {
            Purpose::Status => SessionError::StatusNotAccepted,
            Purpose::Anchor => SessionError::AnchorNotAccepted,
        }
    }

    /// The error for a request that Codex does not complete.
    pub open spec fn not_completed(self) -> SessionError {
        match self {
            Purpose::Status => SessionError::NoStatusCard,
            Purpose::Anchor => SessionError::AnchorNotCompleted,
        }
    }
}

/// How far a request has come.
#[derive(Debug, Clone, Copy, PartialEq, Eq, Structural)]
pub enum Stage {
    /// A key is being typed; so many were typed before it.
    Typing { typed: usize },
    /// Codex is to take what was typed.
    Accepting,
    /// The request is being submitted.
    Submitting,
    /// Codex is to complete the request.
    Completing,
    /// The request is over.
    Over,
}

/// What happened to a request.
#[derive(Debug, Clone)]
pub enum RequestEvent {
    /// The key was typed, and the pause after it is over.
    Typed,
    /// The request was submitted.
    Submitted,
    /// The terminal was looked at.
    Seen(Snapshot),
}

/// What to do next for a request.
#[derive(Debug, Clone)]
pub enum RequestAction {
    /// Type a key, then pause.
    Type { key: char, pause: Span },
    /// Pause, then look at the terminal.
    Look { pause: Span },
    /// Submit what was typed.
    Submit,
    /// Nothing: Codex shows the status card.
    ShowCard(String),
    /// Nothing: the model has replied.
    TurnCompleted,
    /// Nothing: the request has failed.
    Fail(SessionError),
}

impl RequestAction {
    /// What is written to the terminal: a key, or the Enter key as the CSI-u protocol encodes it.
    pub fn bytes(&self) -> (r: Vec<u8>)
        ensures
            match *self {
                RequestAction::Type { key, .. } => r@ == vstd::utf8::encode_utf8(seq![key]),
                RequestAction::Submit => r@ == seq![0x1bu8, 0x5b, 0x31, 0x33, 0x75],
                _ => r@.len() == 0,
            },
    {
        match self {
            RequestAction::Type { key, .. } => {
                let mut typed = String::new();
                typed.push(*key);
                assert(typed@ =~= seq![*key]);
                typed.as_str().as_bytes_vec()
            },
            RequestAction::Submit => vec![0x1b, 0x5b, 0x31, 0x33, 0x75],
            _ => Vec::new(),
        }
    }
}

/// A request to Codex that is under way.
#[derive(Debug, Clone)]
pub struct Request {
    pub purpose: Purpose,
    pub keys: Vec<char>,
    pub stage: Stage,
    pub timeout: Span,
    pub overall_deadline: Moment,
    /// The screen before the request.
    pub before: String,
    /// The revision of the terminal before the request.
    pub starting_revision: u64,
    /// When the status was asked for, or the prompt was submitted.
    pub sent_at: Moment,
    /// When Codex is to have completed the request. Set once all is typed.
    pub deadline: Moment,
}

impl Request {
    pub open spec fn wf(self) -> bool {
        &&& self.keys@ == self.purpose.typed()
        &&& self.stage matches Stage::Typing { typed } ==> typed < self.keys@.len()
    }

    /// Whether `event` can happen at this stage.
    pub open spec fn expects(self, event: RequestEvent) -> bool {
        match self.stage {
            Stage::Typing { typed } => event is Typed,
            Stage::Submitting => event is Submitted,
            Stage::Accepting | Stage::Completing => event is Seen,
            Stage::Over => false,
        }
    }

    /// Whether Codex has completed the request: the terminal has changed, waits for input again
    /// and has been quiet for a while, and enough time has passed.
    pub open spec fn completed(self, seen: Snapshot, now: Moment) -> bool {
        &&& seen.revision > self.starting_revision
        &&& seen.screen@ != self.before@
        &&& text::contains(seen.screen@, ready_marker())
        &&& match self.purpose {
            Purpose::Status => elapsed(self.sent_at, now) >= 750 * 1_000_000 && seen.quiet(now, 650)
                && card::last_complete_card(seen.screen@) is Some,
            Purpose::Anchor => elapsed(self.sent_at, now) >= 1_000 * 1_000_000 && seen.quiet(
                now,
                750,
            ),
        }
    }

    /// Whether `action` types the key at `index`.
    pub open spec fn types(self, index: int, action: RequestAction) -> bool {
        action matches RequestAction::Type { key, pause } && key == self.purpose.typed()[index]
            && pause.nanos == self.purpose.key_pause() * 1_000_000
    }

    /// Whether nothing but the stage differs between this request and `other`.
    pub open spec fn same_but_stage(self, other: Request) -> bool {
        &&& self.purpose == other.purpose
        &&& self.keys@ == other.keys@
        &&& self.timeout == other.timeout
        &&& self.overall_deadline == other.overall_deadline
        &&& self.before@ == other.before@
        &&& self.starting_revision == other.starting_revision
    }

    /// Whether the request becomes `after`, and `action` is next, when `event` happens at `now`.
    pub open spec fn steps(
        self,
        event: RequestEvent,
        now: Moment,
        after: Request,
        action: RequestAction,
    ) -> bool {
        &&& self.same_but_stage(after)
        &&& match (self.stage, event) {
            (Stage::Typing { typed }, RequestEvent::Typed) => {
                &&& after.sent_at == self.sent_at
                &&& if typed + 1 < self.keys@.len() {
                    &&& after.stage == (Stage::Typing { typed: (typed + 1) as usize })
                    &&& after.deadline == self.deadline
                    &&& self.types(typed + 1, action)
                } else {
                    &&& after.stage == Stage::Accepting
                    &&& after.deadline.nanos == stage_end(self.timeout, now, self.overall_deadline)
                    &&& action matches RequestAction::Look { pause } && pause.nanos == 0
                }
            },
            (Stage::Accepting, RequestEvent::Seen(seen)) => {
                &&& after.sent_at == self.sent_at
                &&& after.deadline == self.deadline
                &&& if self.purpose.accepted(seen, now) {
                    after.stage == Stage::Submitting && action is Submit
                } else if now.nanos >= self.deadline.nanos {
                    after.stage == Stage::Over && action == RequestAction::Fail(
                        self.purpose.not_accepted(),
                    )
                } else {
                    after.stage == Stage::Accepting && (action matches RequestAction::Look { pause }
                        && pause.nanos == 25 * 1_000_000)
                }
            },
            (Stage::Submitting, RequestEvent::Submitted) => {
                &&& after.stage == Stage::Completing
                &&& after.deadline == self.deadline
                &&& after.sent_at == (match self.purpose {
                    Purpose::Status => self.sent_at,
                    Purpose::Anchor => now,
                })
                &&& action matches RequestAction::Look { pause } && pause.nanos == 0
            },
            (Stage::Completing, RequestEvent::Seen(seen)) => {
                &&& after.sent_at == self.sent_at
                &&& after.deadline == self.deadline
                &&& if self.completed(seen, now) {
                    &&& after.stage == Stage::Over
                    &&& match self.purpose {
                        Purpose::Status => action matches RequestAction::ShowCard(card)
                            && card::last_complete_card(seen.screen@) == Some(card@),
                        Purpose::Anchor => action is TurnCompleted,
                    }
                } else if now.nanos >= self.deadline.nanos {
                    after.stage == Stage::Over && action == RequestAction::Fail(
                        self.purpose.not_completed(),
                    )
                } else {
                    after.stage == Stage::Completing && (
                    action matches RequestAction::Look { pause } && pause.nanos == 50 * 1_000_000)
                }
            },
            _ => false,
        }
    }

    /// Starts a request, with the first key to type.
    pub fn start(
        purpose: Purpose,
        timeout: Span,
        overall_deadline: Moment,
        seen: &Snapshot,
        now: Moment,
    ) -> (r: (Request, RequestAction))
        ensures
            r.0.wf(),
            r.0.purpose == purpose,
            r.0.stage == (Stage::Typing { typed: 0 }),
            r.0.timeout == timeout,
            r.0.overall_deadline == overall_deadline,
            r.0.before@ == seen.screen@,
            r.0.starting_revision == seen.revision,
            r.0.sent_at == now,
            r.0.types(0, r.1),
    {
        proof {
            reveal_strlit("/status");
            reveal_strlit("Reply only OK. Do not use tools.");
        }
        let (keys, pause) = match purpose {
            Purpose::Status => (chars_of("/status"), Span::from_millis(20)),
            Purpose::Anchor => (
                chars_of("Reply only OK. Do not use tools."),
                Span::from_millis(12),
            ),
        };
        let key = keys[0];
        let request = Request {
            purpose,
            keys,
            stage: Stage::Typing { typed: 0 },
            timeout,
            overall_deadline,
            before: seen.screen.clone(),
            starting_revision: seen.revision,
            sent_at: now,
            deadline: overall_deadline,
        };
        (request, RequestAction::Type { key, pause })
    }

    /// What comes next when `event` happens.
    pub fn step(&mut self, event: RequestEvent, now: Moment) -> (r: RequestAction)
        requires
            old(self).wf(),
            old(self).expects(event),
        ensures
            final(self).wf(),
            old(self).steps(event, now, *final(self), r),
    {
        match event {
            RequestEvent::Typed => self.after_key(now),
            RequestEvent::Submitted => {
                self.stage = Stage::Completing;
                if self.purpose == Purpose::Anchor {
                    self.sent_at = now;
                }
                RequestAction::Look { pause: Span { nanos: 0 } }
            },
            RequestEvent::Seen(seen) => {
                if self.stage == Stage::Accepting {
                    self.check_accepted(&seen, now)
                } else {
                    self.check_completed(&seen, now)
                }
            },
        }
    }

    fn after_key(&mut self, now: Moment) -> (r: RequestAction)
        requires
            old(self).wf(),
            old(self).stage is Typing,
        ensures
            final(self).wf(),
            old(self).steps(RequestEvent::Typed, now, *final(self), r),
    {
        let typed: usize = match self.stage {
            Stage::Typing { typed } => typed,
            _ => 0,
        };
        let total: usize = self.keys.len();
        if typed + 1 < total {
            self.stage = Stage::Typing { typed: typed + 1 };
            let pause = match self.purpose {
                Purpose::Status => Span::from_millis(20),
                Purpose::Anchor => Span::from_millis(12),
            };
            RequestAction::Type { key: self.keys[typed + 1], pause }
        } else {
            self.stage = Stage::Accepting;
            self.deadline = deadline_for(self.timeout, now, self.overall_deadline);
            RequestAction::Look { pause: Span { nanos: 0 } }
        }
    }

    fn check_accepted(&mut self, seen: &Snapshot, now: Moment) -> (r: RequestAction)
        requires
            old(self).wf(),
            old(self).stage == Stage::Accepting,
        ensures
            final(self).wf(),
            old(self).steps(RequestEvent::Seen(*seen), now, *final(self), r),
    {
        let accepted = match self.purpose {
            Purpose::Status => contains_text(
                seen.screen.as_str(),
                "show current session configuration and token usage",
            ) && seen.is_quiet(now, 100),
            Purpose::Anchor => contains_text(
                seen.screen.as_str(),
                "Reply only OK. Do not use tools.",
            ),
        };
        if accepted {
            self.stage = Stage::Submitting;
            RequestAction::Submit
        } else if now.nanos >= self.deadline.nanos {
            self.stage = Stage::Over;
            RequestAction::Fail(
                match self.purpose {
                    Purpose::Status => SessionError::StatusNotAccepted,
                    Purpose::Anchor => SessionError::AnchorNotAccepted,
                },
            )
        } else {
            RequestAction::Look { pause: Span::from_millis(25) }
        }
    }

    fn check_completed(&mut self, seen: &Snapshot, now: Moment) -> (r: RequestAction)
        requires
            old(self).wf(),
            old(self).stage == Stage::Completing,
        ensures
            final(self).wf(),
            old(self).steps(RequestEvent::Seen(*seen), now, *final(self), r),
    {
        let (sent, quiet): (u64, u64) = match self.purpose {
            Purpose::Status => (750, 650),
            Purpose::Anchor => (1_000, 750),
        };
        let settled = seen.revision > self.starting_revision && seen.screen != self.before
            && contains_text(seen.screen.as_str(), "Ask Codex to do anything") && now.since(
            self.sent_at,
        ).nanos >= Span::from_millis(sent).nanos && seen.is_quiet(now, quiet);
        if settled {
            match self.purpose {
                Purpose::Status => {
                    if let Some(card) = extract_last_complete_card(seen.screen.as_str()) {
                        self.stage = Stage::Over;
                        return RequestAction::ShowCard(card);
                    }
                },
                Purpose::Anchor => {
                    self.stage = Stage::Over;
                    return RequestAction::TurnCompleted;
                },
            }
        }
        if now.nanos >= self.deadline.nanos {
            self.stage = Stage::Over;
            RequestAction::Fail(
                match self.purpose {
                    Purpose::Status => SessionError::NoStatusCard,
                    Purpose::Anchor => SessionError::AnchorNotCompleted,
                },
            )
        } else {
            RequestAction::Look { pause: Span::from_millis(50) }
        }
    }
}

/// A signal that ends processes.
#[derive(Debug, Clone, Copy, PartialEq, Eq, Structural)]
pub enum EndSignal {
    /// Asks a process to end.
    Terminate,
    /// Ends a process.
    Kill,
}

/// The process group to signal, and the signal. None where the leader of the group is not
/// known, or cannot be that of a group of its own.
pub fn terminate_process_group(process_group_leader: Option<i32>, force: bool) -> (r: Option<
    (i32, EndSignal),
>)
    ensures
        r == (match process_group_leader {
            Some(pid) => if pid > 1 {
                Some(
                    (
                        pid,
                        if force {
                            EndSignal::Kill
                        } else {
                            EndSignal::Terminate
                        },
                    ),
                )
            } else {
                None
            },
            None => None,
        }),
{
    match process_group_leader {
        Some(pid) => {
            if pid > 1 {
                let signal = if force {
                    EndSignal::Kill
                } else {
                    EndSignal::Terminate
                };
                Some((pid, signal))
            } else {
                None
            }
        },
        None => None,
    }
}

/// What is known of the Codex process.
#[derive(Debug, Clone, Copy, PartialEq, Eq, Structural)]
pub enum ChildState {
    Running,
    Exited,
    /// It could not be found out.
    Unknown,
}

/// How far the end of a session has come.
#[derive(Debug, Clone, Copy, PartialEq, Eq, Structural)]
pub enum Shutdown {
    /// Codex may still exit by itself.
    Graceful { deadline: Moment },
    /// Codex is asked to end if it still runs.
    Terminating,
    /// Codex is ended if it still runs.
    Killing,
    /// All that is left is to wait for the process.
    Reaping,
}

/// What to do next to end a session.
#[derive(Debug, Clone, Copy, PartialEq, Eq, Structural)]
pub enum ShutdownAction {
    /// Pause, then look at the process.
    Check { pause: Span },
    /// Ask the process group to end, pause, then look at the process.
    Terminate { pause: Span },
    /// End the process group and the process, then wait for the process.
    KillAndReap,
    /// Wait for the process.
    Reap,
}

impl Shutdown {
    /// Starts to end a session: Codex is told to exit, and has two seconds for it.
    pub fn start(now: Moment) -> (r: Shutdown)
        requires
            now.nanos + 2_000_000_000 <= u128::MAX,
        ensures
            r == (Shutdown::Graceful { deadline: Moment { nanos: (now.nanos + 2_000_000_000) as u128 } }),
    {
        Shutdown::Graceful { deadline: Moment { nanos: now.nanos + 2_000_000_000 } }
    }

    /// What is written to the terminal first: Ctrl-C twice, on which an idle Codex exits.
    pub fn interrupt() -> (r: Vec<u8>)
        ensures
            r@ == seq![3u8, 3u8],
    {
        vec![3, 3]
    }

    /// What comes next when the process is found in the state `child`.
    pub open spec fn next(self, child: ChildState, now: Moment) -> (Shutdown, ShutdownAction) {
        match self {
            Shutdown::Graceful { deadline } => if now.nanos < deadline.nanos && child
                == ChildState::Running {
                (self, ShutdownAction::Check { pause: Span { nanos: 50_000_000 } })
            } else {
                (Shutdown::Terminating, ShutdownAction::Check { pause: Span { nanos: 0 } })
            },
            Shutdown::Terminating => if child == ChildState::Running {
                (Shutdown::Killing, ShutdownAction::Terminate { pause: Span { nanos: 250_000_000 } })
            } else {
                (Shutdown::Killing, ShutdownAction::Check { pause: Span { nanos: 0 } })
            },
            Shutdown::Killing => if child == ChildState::Running {
                (Shutdown::Reaping, ShutdownAction::KillAndReap)
            } else {
                (Shutdown::Reaping, ShutdownAction::Reap)
            },
            Shutdown::Reaping => (self, ShutdownAction::Reap),
        }
    }

    /// What comes next when the process is found in the state `child`.
    pub fn step(&mut self, child: ChildState, now: Moment) -> (r: ShutdownAction)
        ensures
            (*final(self), r) == old(self).next(child, now),
    {
        match *self {
            Shutdown::Graceful { deadline } => {
                if now.nanos < deadline.nanos && child == ChildState::Running {
                    ShutdownAction::Check { pause: Span { nanos: 50_000_000 } }
                } else {
                    *self = Shutdown::Terminating;
                    ShutdownAction::Check { pause: Span { nanos: 0 } }
                }
            },
            Shutdown::Terminating => {
                *self = Shutdown::Killing;
                if child == ChildState::Running {
                    ShutdownAction::Terminate { pause: Span { nanos: 250_000_000 } }
                } else {
                    ShutdownAction::Check { pause: Span { nanos: 0 } }
                }
            },
            Shutdown::Killing => {
                *self = Shutdown::Reaping;
                if child == ChildState::Running {
                    ShutdownAction::KillAndReap
                } else {
                    ShutdownAction::Reap
                }
            },
            Shutdown::Reaping => ShutdownAction::Reap,
        }
    }
}

/// Once the time to exit by itself is over, a process is waited for after three more looks. It is
/// asked to end where the second finds it running, and ended where the third does.
pub proof fn law_shutdown_ends(
    deadline: Moment,
    first: ChildState,
    second: ChildState,
    third: ChildState,
    now: Moment,
)
    requires
        now.nanos >= deadline.nanos,
    ensures
        ({
            let a = (Shutdown::Graceful { deadline }).next(first, now);
            let b = a.0.next(second, now);
            let c = b.0.next(third, now);
            &&& c.0 == Shutdown::Reaping
            &&& c.1 == (if third == ChildState::Running {
                ShutdownAction::KillAndReap
            } else {
                ShutdownAction::Reap
            })
            &&& (b.1 is Terminate <==> second == ChildState::Running)
        }),
{
}

/// No stage lasts beyond the time for the whole account.
pub proof fn law_stages_end_with_the_account(
    stage_timeout: Span,
    now: Moment,
    overall_deadline: Moment,
)
    ensures
        stage_end(stage_timeout, now, overall_deadline) <= overall_deadline.nanos,
        stage_end(stage_timeout, now, overall_deadline) <= now.nanos + stage_timeout.nanos,
{
}

/// Once the time for a request is up, it is not waited for any longer: it goes on at once, is
/// over, or fails.
pub proof fn law_no_waiting_past_the_deadline(
    request: Request,
    seen: Snapshot,
    now: Moment,
    after: Request,
    action: RequestAction,
)
    requires
        request.wf(),
        request.stage == Stage::Accepting || request.stage == Stage::Completing,
        request.steps(RequestEvent::Seen(seen), now, after, action),
        now.nanos >= request.deadline.nanos,
    ensures
        !(action is Look),
        request.stage == Stage::Completing ==> after.stage == Stage::Over,
{
}

/// Whether at least `millis` milliseconds have passed from `start` to `now`.
pub open spec fn has_passed(start: Moment, now: Moment, millis: int) -> bool {
    now.nanos >= start.nanos + millis * 1_000_000
}

/// Codex is ready once its prompt stands anywhere on the screen and the screen has not changed for
/// 750 milliseconds, however late that is.
pub proof fn law_prompt_makes_ready(
    seen: Snapshot,
    now: Moment,
    deadline: Moment,
    next: Startup,
    before: Seq<char>,
    behind: Seq<char>,
)
    requires
        call_ensures(wait_until_ready, (&seen, now, deadline), next),
        seen.screen@ == before + "Ask Codex to do anything"@ + behind,
        has_passed(seen.last_update, now, 750),
    ensures
        next is Ready,
{
    text::law_text_is_found_between(before, "Ask Codex to do anything"@, behind);
}

/// Codex is taken for ready only where its prompt stands on the screen, and the screen has not
/// changed for 750 milliseconds.
pub proof fn law_ready_shows_the_prompt(seen: Snapshot, now: Moment, deadline: Moment) -> (around: (
    Seq<char>,
    Seq<char>,
))
    requires
        call_ensures(wait_until_ready, (&seen, now, deadline), Startup::Ready),
    ensures
        seen.screen@ == around.0 + "Ask Codex to do anything"@ + around.1,
        has_passed(seen.last_update, now, 750),
{
    text::law_found_text_stands_between(seen.screen@, "Ask Codex to do anything"@)
}

/// While Codex is not ready, its screen is looked at every 50 milliseconds until the time is up, and
/// then no more.
pub proof fn law_startup_is_bounded(seen: Snapshot, now: Moment, deadline: Moment, next: Startup)
    requires
        call_ensures(wait_until_ready, (&seen, now, deadline), next),
        !(next is Ready),
    ensures
        now.nanos < deadline.nanos ==> (next matches Startup::Wait(pause) && pause.nanos
            == 50_000_000),
        now.nanos >= deadline.nanos ==> (next matches Startup::Failed(error) && error is NotReady),
{
}

/// A stage ends when its own time is up or that of the whole account, whichever is first.
pub proof fn law_stage_ends_first(
    stage_timeout: Span,
    now: Moment,
    overall_deadline: Moment,
    end: Moment,
)
    requires
        call_ensures(deadline_for, (stage_timeout, now, overall_deadline), end),
    ensures
        end.nanos <= overall_deadline.nanos,
        end.nanos <= now.nanos + stage_timeout.nanos,
        end.nanos == overall_deadline.nanos || end.nanos == now.nanos + stage_timeout.nanos,
{
}

/// There is time for the account exactly until its deadline.
pub proof fn law_time_is_up_at_the_deadline(
    now: Moment,
    deadline: Moment,
    answer: Result<(), SessionError>,
)
    requires
        call_ensures(ensure_before, (now, deadline), answer),
    ensures
        answer is Ok <==> now.nanos < deadline.nanos,
        answer matches Err(error) ==> error is OutOfTime,
{
}

/// A pause is made in full, or not at all where it would end after the deadline.
pub proof fn law_pauses_are_whole(
    duration: Span,
    now: Moment,
    overall_deadline: Moment,
    answer: Result<Span, SessionError>,
)
    requires
        call_ensures(sleep_until, (duration, now, overall_deadline), answer),
    ensures
        answer is Ok <==> now.nanos + duration.nanos <= overall_deadline.nanos,
        answer matches Ok(pause) ==> pause.nanos == duration.nanos,
        answer matches Err(error) ==> error is NoTimeToRefresh,
{
}

/// What is typed to ask for the status is `/status`, and the model is asked to reply with as little
/// as it can. The keys follow each other, after 20 milliseconds each or after 12, and the last one
/// is followed by a look at the screen.
pub proof fn law_keys_are_typed_in_order(
    request: Request,
    typed: usize,
    now: Moment,
    after: Request,
    action: RequestAction,
)
    requires
        request.wf(),
        request.stage == (Stage::Typing { typed }),
        request.steps(RequestEvent::Typed, now, after, action),
    ensures
        ({
            let keys = if request.purpose == Purpose::Status {
                "/status"@
            } else {
                "Reply only OK. Do not use tools."@
            };
            let pause_millis: int = if request.purpose == Purpose::Status {
                20
            } else {
                12
            };
            &&& typed < keys.len()
            &&& typed + 1 < keys.len() ==> after.stage == (Stage::Typing {
                typed: (typed + 1) as usize,
            }) && (action matches RequestAction::Type { key, pause } && key == keys[typed + 1]
                && pause.nanos == pause_millis * 1_000_000)
            &&& typed + 1 == keys.len() ==> after.stage == Stage::Accepting && (
            action matches RequestAction::Look { pause } && pause.nanos == 0)
        }),
        after.purpose == request.purpose,
        after.keys@ == request.keys@,
{
}

/// A request starts with its first key, and remembers the screen before it.
pub proof fn law_requests_start_with_the_first_key(
    purpose: Purpose,
    timeout: Span,
    overall_deadline: Moment,
    seen: Snapshot,
    now: Moment,
    started: (Request, RequestAction),
)
    requires
        call_ensures(Request::start, (purpose, timeout, overall_deadline, &seen, now), started),
    ensures
        ({
            let (keys, pause_millis) = if purpose == Purpose::Status {
                ("/status"@, 20int)
            } else {
                ("Reply only OK. Do not use tools."@, 12int)
            };
            &&& started.0.purpose == purpose
            &&& started.0.keys@ == keys
            &&& started.0.stage == (Stage::Typing { typed: 0 })
            &&& started.1 matches RequestAction::Type { key, pause } && key == keys[0] && pause.nanos
                == pause_millis * 1_000_000
        }),
        started.0.before@ == seen.screen@,
        started.0.starting_revision == seen.revision,
        started.0.sent_at == now,
        started.0.timeout == timeout,
        started.0.overall_deadline == overall_deadline,
{
}

/// The time for a request runs from its last key, and ends with the time for the account if that is
/// earlier.
pub proof fn law_time_of_a_request(
    request: Request,
    event: RequestEvent,
    now: Moment,
    after: Request,
    action: RequestAction,
)
    requires
        request.wf(),
        request.steps(event, now, after, action),
    ensures
        ({
            let last_key = request.stage is Typing && after.stage == Stage::Accepting;
            &&& last_key && now.nanos + request.timeout.nanos <= request.overall_deadline.nanos
                ==> after.deadline.nanos == now.nanos + request.timeout.nanos
            &&& last_key && now.nanos + request.timeout.nanos > request.overall_deadline.nanos
                ==> after.deadline == request.overall_deadline
            &&& !last_key ==> after.deadline == request.deadline
        }),
        after.timeout == request.timeout,
        after.overall_deadline == request.overall_deadline,
        after.before@ == request.before@,
        after.starting_revision == request.starting_revision,
        after.sent_at == (if request.stage == Stage::Submitting && request.purpose
            == Purpose::Anchor {
            now
        } else {
            request.sent_at
        }),
{
}

/// The status request is submitted once Codex explains it anywhere on a screen that has not changed
/// for 100 milliseconds, and not before.
pub proof fn law_status_request_is_submitted(
    request: Request,
    seen: Snapshot,
    now: Moment,
    after: Request,
    action: RequestAction,
    before: Seq<char>,
    behind: Seq<char>,
)
    requires
        request.purpose == Purpose::Status,
        request.stage == Stage::Accepting,
        request.steps(RequestEvent::Seen(seen), now, after, action),
        seen.screen@ == before + "show current session configuration and token usage"@ + behind,
        has_passed(seen.last_update, now, 100),
    ensures
        action is Submit,
        after.stage == Stage::Submitting,
{
    text::law_text_is_found_between(
        before,
        "show current session configuration and token usage"@,
        behind,
    );
}

/// The prompt is submitted once it stands anywhere on the screen.
pub proof fn law_prompt_is_submitted(
    request: Request,
    seen: Snapshot,
    now: Moment,
    after: Request,
    action: RequestAction,
    before: Seq<char>,
    behind: Seq<char>,
)
    requires
        request.purpose == Purpose::Anchor,
        request.stage == Stage::Accepting,
        request.steps(RequestEvent::Seen(seen), now, after, action),
        seen.screen@ == before + "Reply only OK. Do not use tools."@ + behind,
    ensures
        action is Submit,
        after.stage == Stage::Submitting,
{
    text::law_text_is_found_between(before, "Reply only OK. Do not use tools."@, behind);
}

/// Nothing is submitted that Codex has not taken. Until it has, its screen is looked at every 25
/// milliseconds, and once the time is up the request fails.
pub proof fn law_nothing_is_submitted_early(
    request: Request,
    seen: Snapshot,
    now: Moment,
    after: Request,
    action: RequestAction,
) -> (around: (Seq<char>, Seq<char>))
    requires
        request.stage == Stage::Accepting,
        request.steps(RequestEvent::Seen(seen), now, after, action),
    ensures
        action is Submit && request.purpose == Purpose::Status ==> has_passed(
            seen.last_update,
            now,
            100,
        ) && seen.screen@ == around.0 + "show current session configuration and token usage"@
            + around.1,
        action is Submit && request.purpose == Purpose::Anchor ==> seen.screen@ == around.0
            + "Reply only OK. Do not use tools."@ + around.1,
        action is Submit ==> after.stage == Stage::Submitting,
        !(action is Submit) && now.nanos < request.deadline.nanos ==> after.stage
            == Stage::Accepting && (action matches RequestAction::Look { pause } && pause.nanos
            == 25_000_000),
        !(action is Submit) && now.nanos >= request.deadline.nanos ==> after.stage == Stage::Over
            && (action matches RequestAction::Fail(error) && if request.purpose == Purpose::Status {
            error is StatusNotAccepted
        } else {
            error is AnchorNotAccepted
        }),
{
    if action is Submit && request.purpose == Purpose::Status {
        text::law_found_text_stands_between(
            seen.screen@,
            "show current session configuration and token usage"@,
        )
    } else if action is Submit {
        text::law_found_text_stands_between(seen.screen@, "Reply only OK. Do not use tools."@)
    } else {
        (Seq::empty(), Seq::empty())
    }
}

/// What was submitted is looked for on the screen at once.
pub proof fn law_submitted_requests_are_watched(
    request: Request,
    now: Moment,
    after: Request,
    action: RequestAction,
)
    requires
        request.stage == Stage::Submitting,
        request.steps(RequestEvent::Submitted, now, after, action),
    ensures
        after.stage == Stage::Completing,
        action matches RequestAction::Look { pause } && pause.nanos == 0,
{
}

/// The card that is taken is the last complete one on the screen. It is taken once the prompt stands
/// anywhere on the screen again, the screen is another one than before the request, has changed
/// since and not for 650 milliseconds, and the request is 750 milliseconds old.
pub proof fn law_status_card_is_taken(
    request: Request,
    seen: Snapshot,
    now: Moment,
    after: Request,
    action: RequestAction,
    before: Seq<char>,
    behind: Seq<char>,
    card: String,
)
    requires
        request.purpose == Purpose::Status,
        request.stage == Stage::Completing,
        request.steps(RequestEvent::Seen(seen), now, after, action),
        seen.revision > request.starting_revision,
        seen.screen@ != request.before@,
        seen.screen@ == before + "Ask Codex to do anything"@ + behind,
        has_passed(request.sent_at, now, 750),
        has_passed(seen.last_update, now, 650),
        card::last_complete_card(seen.screen@) == Some(card@),
    ensures
        after.stage == Stage::Over,
        action matches RequestAction::ShowCard(taken) && taken@ == card@,
{
    text::law_text_is_found_between(before, "Ask Codex to do anything"@, behind);
}

/// The turn of the model is over once the prompt stands anywhere on the screen again, the screen is
/// another one than before the request, has changed since and not for 750 milliseconds, and the
/// prompt was submitted a second ago.
pub proof fn law_model_turn_is_over(
    request: Request,
    seen: Snapshot,
    now: Moment,
    after: Request,
    action: RequestAction,
    before: Seq<char>,
    behind: Seq<char>,
)
    requires
        request.purpose == Purpose::Anchor,
        request.stage == Stage::Completing,
        request.steps(RequestEvent::Seen(seen), now, after, action),
        seen.revision > request.starting_revision,
        seen.screen@ != request.before@,
        seen.screen@ == before + "Ask Codex to do anything"@ + behind,
        has_passed(request.sent_at, now, 1_000),
        has_passed(seen.last_update, now, 750),
    ensures
        after.stage == Stage::Over,
        action is TurnCompleted,
{
    text::law_text_is_found_between(before, "Ask Codex to do anything"@, behind);
}

/// No request is taken for completed early: the screen has changed and shows the prompt, and has
/// been quiet. Until then it is looked at every 50 milliseconds, and once the time is up the request
/// fails.
pub proof fn law_nothing_is_completed_early(
    request: Request,
    seen: Snapshot,
    now: Moment,
    after: Request,
    action: RequestAction,
) -> (around: (Seq<char>, Seq<char>))
    requires
        request.stage == Stage::Completing,
        request.steps(RequestEvent::Seen(seen), now, after, action),
    ensures
        action is ShowCard || action is TurnCompleted ==> {
            &&& seen.revision > request.starting_revision
            &&& seen.screen@ != request.before@
            &&& seen.screen@ == around.0 + "Ask Codex to do anything"@ + around.1
            &&& after.stage == Stage::Over
        },
        action matches RequestAction::ShowCard(taken) ==> {
            &&& request.purpose == Purpose::Status
            &&& has_passed(request.sent_at, now, 750)
            &&& has_passed(seen.last_update, now, 650)
            &&& card::last_complete_card(seen.screen@) == Some(taken@)
        },
        action is TurnCompleted ==> {
            &&& request.purpose == Purpose::Anchor
            &&& has_passed(request.sent_at, now, 1_000)
            &&& has_passed(seen.last_update, now, 750)
        },
        !(action is ShowCard || action is TurnCompleted) && now.nanos < request.deadline.nanos
            ==> after.stage == Stage::Completing && (action matches RequestAction::Look { pause }
            && pause.nanos == 50_000_000),
        !(action is ShowCard || action is TurnCompleted) && now.nanos >= request.deadline.nanos
            ==> after.stage == Stage::Over && (action matches RequestAction::Fail(error)
            && if request.purpose == Purpose::Status {
            error is NoStatusCard
        } else {
            error is AnchorNotCompleted
        }),
{
    if action is ShowCard || action is TurnCompleted {
        text::law_found_text_stands_between(seen.screen@, "Ask Codex to do anything"@)
    } else {
        (Seq::empty(), Seq::empty())
    }
}

/// What is typed for a key is the key itself, and a request is submitted with the Enter key as the
/// CSI-u protocol encodes it.
pub proof fn law_bytes_of_an_action(action: RequestAction, bytes: Vec<u8>)
    requires
        call_ensures(RequestAction::bytes, (&action,), bytes),
    ensures
        action matches RequestAction::Type { key, pause } ==> bytes@ == vstd::utf8::encode_utf8(
            seq![key],
        ),
        action is Submit ==> bytes@ == seq![0x1bu8, 0x5b, 0x31, 0x33, 0x75],
        !(action is Type || action is Submit) ==> bytes@.len() == 0,
{
}

/// While it may still exit by itself, a running process is looked at every 50 milliseconds.
pub proof fn law_processes_may_exit(deadline: Moment, child: ChildState, now: Moment)
    ensures
        ({
            let (next, action) = (Shutdown::Graceful { deadline }).next(child, now);
            &&& now.nanos < deadline.nanos && child == ChildState::Running ==> next == (
            Shutdown::Graceful { deadline }) && (action matches ShutdownAction::Check { pause }
                && pause.nanos == 50_000_000)
            &&& now.nanos >= deadline.nanos || child != ChildState::Running ==> next
                == Shutdown::Terminating && (action matches ShutdownAction::Check { pause }
                && pause.nanos == 0)
        }),
{
}

/// A process that still runs is asked to end and then has 250 milliseconds, and one that runs on is
/// ended. One that does not run is left alone.
pub proof fn law_processes_are_ended(child: ChildState, now: Moment)
    ensures
        ({
            let (next, action) = Shutdown::Terminating.next(child, now);
            &&& next == Shutdown::Killing
            &&& child == ChildState::Running ==> (action matches ShutdownAction::Terminate { pause }
                && pause.nanos == 250_000_000)
            &&& child != ChildState::Running ==> (action matches ShutdownAction::Check { pause }
                && pause.nanos == 0)
        }),
        ({
            let (next, action) = Shutdown::Killing.next(child, now);
            &&& next == Shutdown::Reaping
            &&& child == ChildState::Running ==> action is KillAndReap
            &&& child != ChildState::Running ==> action is Reap
        }),
        Shutdown::Reaping.next(child, now) == (Shutdown::Reaping, ShutdownAction::Reap),
{
}

/// A process has two seconds to exit by itself.
pub proof fn law_processes_have_two_seconds(now: Moment, started: Shutdown)
    requires
        now.nanos + 2_000_000_000 <= u128::MAX,
        call_ensures(Shutdown::start, (now,), started),
    ensures
        started matches Shutdown::Graceful { deadline } && deadline.nanos == now.nanos
            + 2_000_000_000,
{
}

/// Only the group of a process of its own is signalled: it is asked to end, or ended where that is
/// forced.
pub proof fn law_group_of_its_own_is_signalled(
    leader: Option<i32>,
    force: bool,
    signalled: Option<(i32, EndSignal)>,
)
    requires
        call_ensures(terminate_process_group, (leader, force), signalled),
    ensures
        signalled is Some <==> (leader matches Some(pid) && pid > 1),
        signalled matches Some((pid, signal)) ==> leader == Some(pid) && (signal == EndSignal::Kill
            <==> force),
{
}

/// What each error of a session says.
pub proof fn law_session_errors_say(error: SessionError, said: String)
    requires
        call_ensures(SessionError::message, (&error,), said),
    ensures
        error matches SessionError::ReaderFailed(cause) ==> said@ == "PTY reader failed: "@ + cause@,
        error is Closed ==> said@ == "Codex PTY closed unexpectedly"@,
        error is NotReady ==> said@
            == "timed out waiting for Codex TUI readiness marker \"Ask Codex to do anything\""@,
        error is StatusNotAccepted ==> said@
            == "timed out waiting for Codex to accept /status input"@,
        error is NoStatusCard ==> said@ == "timed out waiting for a complete rendered /status card"@,
        error is AnchorNotAccepted ==> said@ == "timed out waiting for Codex to accept anchor input"@,
        error is AnchorNotCompleted ==> said@ == "timed out waiting for anchor model turn completion"@,
        error is OutOfTime ==> said@ == "timed out during overall account monitoring"@,
        error is NoTimeToRefresh ==> said@
            == "overall account timeout expired while waiting for rate-limit refresh"@,
        error matches SessionError::Other(cause) ==> said@ == cause@,
{
}

/// The screen is shown, whole and under the name of the account, where something was waited for on
/// it in vain.
pub proof fn law_screen_is_shown(error: SessionError, name: &str, screen: &str, shown: Option<String>)
    requires
        call_ensures(SessionError::debug_screen, (&error, name, screen), shown),
    ensures
        shown is Some <==> error is NotReady || error is StatusNotAccepted || error is NoStatusCard
            || error is AnchorNotAccepted || error is AnchorNotCompleted,
        shown matches Some(shown) ==> shown@ == "["@ + name@ + "] reconstructed screen while "@
            + (match error {
            SessionError::NotReady => "waiting for TUI readiness"@,
            SessionError::StatusNotAccepted => "waiting for Codex to accept /status input"@,
            SessionError::NoStatusCard => "waiting for rendered /status card"@,
            SessionError::AnchorNotAccepted => "waiting for Codex to accept anchor input"@,
            _ => "waiting for anchor model turn completion"@,
        }) + ":\n--- screen ---\n"@ + screen@ + "\n--- end screen ---"@,
{
}

/// A request takes whatever is seen of the terminal while it waits for Codex, and goes on from each
/// key and from its submission.
pub proof fn law_requests_take_what_comes(request: Request, event: RequestEvent)
    ensures
        request.stage is Typing && event is Typed ==> request.expects(event),
        request.stage == Stage::Submitting && event is Submitted ==> request.expects(event),
        (request.stage == Stage::Accepting || request.stage == Stage::Completing) && event is Seen
            ==> request.expects(event),
{
}

/// What is written first to end a session is Ctrl-C, twice.
pub proof fn law_sessions_are_interrupted(bytes: Vec<u8>)
    requires
        call_ensures(Shutdown::interrupt, (), bytes),
    ensures
        bytes@.len() == 2,
        bytes@[0] == 3,
        bytes@[1] == 3,
{
}

/// A request goes on as its steps say.
pub proof fn law_requests_step(
    request: &mut Request,
    event: RequestEvent,
    now: Moment,
    action: RequestAction,
)
    requires
        call_ensures(Request::step, (request, event, now), action),
    ensures
        old(request).steps(event, now, *final(request), action),
        final(request).wf(),
{
}

/// The end of a session goes on as its steps say.
pub proof fn law_shutdown_steps(
    shutdown: &mut Shutdown,
    child: ChildState,
    now: Moment,
    action: ShutdownAction,
)
    requires
        call_ensures(Shutdown::step, (shutdown, child, now), action),
    ensures
        (*final(shutdown), action) == old(shutdown).next(child, now),
{
}

} // verus!

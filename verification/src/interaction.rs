//! The capture of an account's status: three status cards, and for a dormant window one request
//! to the model and three cards more.

use vstd::prelude::*;
use vstd::string::*;

use crate::codex;
use crate::codex::{
    appears_dormant, build_status, update_account_state, AccountState, AnchorOutcome, CodexStatus,
    MonitorSettings,
};
use crate::session::{ensure_before, sleep_until, SessionError};
use crate::time::{LocalTime, Moment, Span};

verus! {

/// How far a capture has come.
#[derive(Debug, Clone, Copy, PartialEq, Eq, Structural)]
pub enum Phase {
    /// A status card is asked for: the first, second or third before the request to the model,
    /// or after it.
    Requesting { anchored: bool, refresh: u8 },
    /// A pause between two status cards, of which the first was `refresh`.
    Pausing { anchored: bool, refresh: u8 },
    /// The model is asked for a reply.
    Anchoring,
    /// The capture is over.
    Over,
}

/// What happened in a capture.
#[derive(Debug)]
pub enum Event {
    /// The status card was asked for.
    Captured(Result<String, SessionError>),
    /// The pause is over.
    Paused,
    /// The model was asked for a reply.
    Replied(Result<(), SessionError>),
}

/// What to do next in a capture.
#[derive(Debug)]
pub enum Action {
    /// Ask for a status card, for no longer than `timeout` and not beyond `overall_deadline`.
    RequestStatus { refresh: u8, timeout: Span, overall_deadline: Moment },
    /// Pause.
    Pause(Span),
    /// Ask the model for a reply, for no longer than `timeout` and not beyond `overall_deadline`.
    RequestAnchor { timeout: Span, overall_deadline: Moment },
    /// Nothing: the capture is over.
    Finish(Result<CodexStatus, SessionError>),
}

/// A capture that is under way.
pub struct Interaction {
    pub account_name: String,
    /// How long a status card may take.
    pub status_timeout: Span,
    /// How long a reply of the model may take.
    pub model_turn_timeout: Span,
    pub refresh_pause: Span,
    pub overall_deadline: Moment,
    /// When the capture started.
    pub observed_at: LocalTime,
    /// What is remembered of the account.
    pub state: AccountState,
    pub phase: Phase,
    /// The status before the model was asked for a reply.
    pub pre_anchor: Option<CodexStatus>,
    /// How many status cards were asked for.
    pub status_requests: u8,
    /// How many replies the model was asked for.
    pub anchor_requests: u8,
    /// The status cards that were shown.
    pub cards: Ghost<Seq<Seq<char>>>,
}

/// Whether `status` is what the card `rendered` of the account `name` shows, whatever its outcome.
pub open spec fn reports(
    status: CodexStatus,
    name: Seq<char>,
    rendered: Seq<char>,
    observed_at: LocalTime,
) -> bool {
    status.wf() && codex::reads_card(status, name, rendered, observed_at)
}

/// What is remembered of an account after `status` was seen at `observed_at`.
pub open spec fn remembered(status: CodexStatus, observed_at: LocalTime) -> AccountState {
    AccountState {
        previous_five_hour_reset: status.five_hour_reset_at,
        previous_observed_at: Some(observed_at),
    }
}

impl Interaction {
    /// The number of status cards that were shown before the card `refresh` of the round before
    /// or after the request to the model.
    pub open spec fn earlier_cards(anchored: bool, refresh: u8) -> int {
        (if anchored {
            3int
        } else {
            0int
        }) + refresh - 1
    }

    /// Whether the numbers of requests and cards fit the phase, and the status before the
    /// request to the model is the one of the third card.
    pub open spec fn wf(self) -> bool {
        &&& self.observed_at.has_date()
        &&& self.state.wf()
        &&& self.status_requests <= 6
        &&& self.anchor_requests <= 1
        &&& match self.phase {
            Phase::Requesting { anchored, refresh } => {
                &&& 1 <= refresh <= 3
                &&& self.anchored_wf(anchored)
                &&& self.cards@.len() == Self::earlier_cards(anchored, refresh)
                &&& self.status_requests == self.cards@.len() + 1
            },
            Phase::Pausing { anchored, refresh } => {
                &&& 1 <= refresh <= 2
                &&& self.anchored_wf(anchored)
                &&& self.cards@.len() == Self::earlier_cards(anchored, refresh) + 1
                &&& self.status_requests == self.cards@.len()
            },
            Phase::Anchoring => {
                &&& self.anchored_wf(true)
                &&& self.cards@.len() == 3
                &&& self.status_requests == 3
            },
            Phase::Over => true,
        }
    }

    /// Whether the status before the request to the model, and the number of such requests, are
    /// right for a capture that has come to that request if `anchored`.
    pub open spec fn anchored_wf(self, anchored: bool) -> bool {
        if anchored {
            &&& self.anchor_requests == 1
            &&& self.cards@.len() >= 3
            &&& self.pre_anchor matches Some(status) && reports(
                status,
                self.account_name@,
                self.cards@[2],
                self.observed_at,
            ) && status.anchor_outcome is NotNeeded
        } else {
            self.anchor_requests == 0 && self.pre_anchor is None
        }
    }

    /// Whether `event` can happen in this phase.
    pub open spec fn expects(self, event: Event) -> bool {
        match self.phase {
            Phase::Requesting { anchored, refresh } => event is Captured,
            Phase::Pausing { anchored, refresh } => event is Paused,
            Phase::Anchoring => event is Replied,
            Phase::Over => false,
        }
    }

    /// Whether this capture and `other` are of the same account, and started alike.
    pub open spec fn same_capture(self, other: Interaction) -> bool {
        &&& self.account_name@ == other.account_name@
        &&& self.status_timeout == other.status_timeout
        &&& self.model_turn_timeout == other.model_turn_timeout
        &&& self.refresh_pause == other.refresh_pause
        &&& self.overall_deadline == other.overall_deadline
        &&& self.observed_at == other.observed_at
    }

    /// The request for the card `refresh`.
    pub open spec fn status_request(self, refresh: u8) -> Action {
        Action::RequestStatus {
            refresh,
            timeout: self.status_timeout,
            overall_deadline: self.overall_deadline,
        }
    }

    /// The request to the model.
    pub open spec fn anchor_request(self) -> Action {
        Action::RequestAnchor {
            timeout: self.model_turn_timeout,
            overall_deadline: self.overall_deadline,
        }
    }

    /// Whether the card `refresh` is asked for next, or the capture fails for want of time.
    pub open spec fn requests(
        self,
        anchored: bool,
        refresh: u8,
        now: Moment,
        after: Interaction,
        action: Action,
    ) -> bool {
        if now.nanos < self.overall_deadline.nanos {
            &&& after.phase == (Phase::Requesting { anchored, refresh })
            &&& after.pre_anchor == self.pre_anchor
            &&& after.state == self.state
            &&& after.cards@ == self.cards@
            &&& after.status_requests == self.status_requests + 1
            &&& after.anchor_requests == self.anchor_requests
            &&& action == self.status_request(refresh)
        } else {
            self.round_fails(anchored, SessionError::OutOfTime, after, action)
        }
    }

    /// Whether a round of three cards ends in `error`. Before the request to the model the
    /// capture fails; behind it the status of the third card is reported, with the error.
    pub open spec fn round_fails(
        self,
        anchored: bool,
        error: SessionError,
        after: Interaction,
        action: Action,
    ) -> bool {
        if anchored {
            self.reports_pre_anchor(
                "post-anchor status refresh failed: "@ + error.text(),
                after,
                action,
            )
        } else {
            &&& after.phase == Phase::Over
            &&& after.state == self.state
            &&& after.status_requests == self.status_requests
            &&& after.anchor_requests == self.anchor_requests
            &&& action matches Action::Finish(Err(reported)) && reported.text() == error.text()
        }
    }

    /// Whether the capture ends with the status of the third card as it was read, and `message` as
    /// the reason why the window was not started.
    pub open spec fn reports_pre_anchor(
        self,
        message: Seq<char>,
        after: Interaction,
        action: Action,
    ) -> bool {
        &&& after.phase == Phase::Over
        &&& after.status_requests == self.status_requests
        &&& after.anchor_requests == self.anchor_requests
        &&& action matches Action::Finish(Ok(status)) && {
            &&& reports(status, self.account_name@, self.cards@[2], self.observed_at)
            &&& status.anchor_outcome.failure() == Some(message)
            &&& after.state == remembered(status, self.observed_at)
            &&& self.pre_anchor matches Some(before) && status == (CodexStatus {
                anchor_outcome: status.anchor_outcome,
                ..before
            })
        }
    }

    /// Whether the capture becomes `after`, and `action` is next, when `event` happens at `now`,
    /// by the wall clock at `wall`.
    pub open spec fn steps(
        self,
        event: Event,
        now: Moment,
        wall: LocalTime,
        after: Interaction,
        action: Action,
    ) -> bool {
        &&& self.same_capture(after)
        &&& match (self.phase, event) {
            (Phase::Requesting { anchored, refresh }, Event::Captured(Err(error))) => {
                self.round_fails(anchored, error, after, action)
            },
            (Phase::Requesting { anchored, refresh }, Event::Captured(Ok(card))) => {
                if refresh < 3 {
                    if now.nanos + self.refresh_pause.nanos <= self.overall_deadline.nanos {
                        &&& after.phase == (Phase::Pausing { anchored, refresh })
                        &&& after.pre_anchor == self.pre_anchor
                        &&& after.state == self.state
                        &&& after.cards@ == self.cards@.push(card@)
                        &&& after.status_requests == self.status_requests
                        &&& after.anchor_requests == self.anchor_requests
                        &&& action == Action::Pause(self.refresh_pause)
                    } else {
                        self.round_fails(anchored, SessionError::NoTimeToRefresh, after, action)
                    }
                } else if anchored {
                    &&& after.phase == Phase::Over
                    &&& after.status_requests == self.status_requests
                    &&& after.anchor_requests == self.anchor_requests
                    &&& action matches Action::Finish(Ok(status)) && {
                        &&& reports(status, self.account_name@, card@, wall)
                        &&& status.anchor_outcome is AnchoredAutomatically
                        &&& after.state == remembered(status, wall)
                    }
                } else {
                    self.third_card(card@, after, action)
                }
            },
            (Phase::Pausing { anchored, refresh }, Event::Paused) => {
                self.requests(anchored, (refresh + 1) as u8, now, after, action)
            },
            (Phase::Anchoring, Event::Replied(Ok(_))) => {
                self.requests(true, 1, now, after, action)
            },
            (Phase::Anchoring, Event::Replied(Err(error))) => {
                self.reports_pre_anchor(
                    "anchor model turn failed: "@ + error.text(),
                    after,
                    action,
                )
            },
            _ => false,
        }
    }

    /// Whether the third card is followed by a request to the model where the window appears
    /// dormant by it, and reported where it does not.
    pub open spec fn third_card(self, card: Seq<char>, after: Interaction, action: Action) -> bool {
        ||| {
            &&& after.phase == Phase::Anchoring
            &&& after.state == self.state
            &&& after.cards@ == self.cards@.push(card)
            &&& after.status_requests == self.status_requests
            &&& after.anchor_requests == 1
            &&& action == self.anchor_request()
            &&& after.pre_anchor matches Some(status) && {
                &&& reports(status, self.account_name@, card, self.observed_at)
                &&& status.anchor_outcome is NotNeeded
                &&& codex::dormant(
                    status.five_hour_percent_left,
                    status.five_hour_reset_at,
                    self.observed_at,
                    self.state,
                )
            }
        }
        ||| {
            &&& after.phase == Phase::Over
            &&& after.status_requests == self.status_requests
            &&& after.anchor_requests == self.anchor_requests
            &&& action matches Action::Finish(Ok(status)) && {
                &&& reports(status, self.account_name@, card, self.observed_at)
                &&& status.anchor_outcome is NotNeeded
                &&& !codex::dormant(
                    status.five_hour_percent_left,
                    status.five_hour_reset_at,
                    self.observed_at,
                    self.state,
                )
                &&& after.state == remembered(status, self.observed_at)
            }
        }
    }

    /// Starts a capture.
    pub fn start(
        account_name: &str,
        settings: &MonitorSettings,
        state: AccountState,
        overall_deadline: Moment,
        observed_at: LocalTime,
        now: Moment,
    ) -> (r: (Interaction, Action))
        requires
            state.wf(),
            observed_at.has_date(),
        ensures
            r.0.wf(),
            r.0.account_name@ == account_name@,
            r.0.status_timeout == settings.status,
            r.0.model_turn_timeout == settings.model_turn,
            r.0.refresh_pause == settings.refresh_pause,
            r.0.overall_deadline == overall_deadline,
            r.0.observed_at == observed_at,
            r.0.state == state,
            r.0.cards@ == Seq::<Seq<char>>::empty(),
            r.0.anchor_requests == 0,
            if now.nanos < overall_deadline.nanos {
                &&& r.0.phase == (Phase::Requesting { anchored: false, refresh: 1 })
                &&& r.0.status_requests == 1
                &&& r.1 == (Action::RequestStatus {
                    refresh: 1,
                    timeout: settings.status,
                    overall_deadline,
                })
            } else {
                &&& r.0.phase == Phase::Over
                &&& r.0.status_requests == 0
                &&& r.1 matches Action::Finish(Err(error)) && error is OutOfTime
            },
    {
        let mut capture = Interaction {
            account_name: account_name.to_owned(),
            status_timeout: settings.status,
            model_turn_timeout: settings.model_turn,
            refresh_pause: settings.refresh_pause,
            overall_deadline,
            observed_at,
            state,
            phase: Phase::Over,
            pre_anchor: None,
            status_requests: 0,
            anchor_requests: 0,
            cards: Ghost(Seq::empty()),
        };
        match ensure_before(now, overall_deadline) {
            Ok(_) => {
                capture.phase = Phase::Requesting { anchored: false, refresh: 1 };
                capture.status_requests = 1;
                let timeout = settings.status;
                (capture, Action::RequestStatus { refresh: 1, timeout, overall_deadline })
            },
            Err(error) => (capture, Action::Finish(Err(error))),
        }
    }
}

impl Interaction {
    /// What comes next when `event` happens at `now`, by the wall clock at `wall`.
    pub fn step(&mut self, event: Event, now: Moment, wall: &LocalTime) -> (r: Action)
        requires
            old(self).wf(),
            old(self).expects(event),
            wall.has_date(),
        ensures
            final(self).wf(),
            old(self).steps(event, now, *wall, *final(self), r),
    {
        match event {
            Event::Captured(Ok(card)) => {
                let (anchored, refresh): (bool, u8) = match self.phase {
                    Phase::Requesting { anchored, refresh } => (anchored, refresh),
                    _ => (false, 1),
                };
                if refresh < 3 {
                    match sleep_until(self.refresh_pause, now, self.overall_deadline) {
                        Ok(pause) => {
                            self.phase = Phase::Pausing { anchored, refresh };
                            self.cards = Ghost(self.cards@.push(card@));
                            Action::Pause(pause)
                        },
                        Err(error) => self.end_round(anchored, error),
                    }
                } else if anchored {
                    let status = build_status(
                        self.account_name.as_str(),
                        card,
                        wall,
                        AnchorOutcome::AnchoredAutomatically,
                    );
                    self.finish(status, wall)
                } else {
                    let ghost shown = card@;
                    let observed_at = self.observed_at;
                    let status = build_status(
                        self.account_name.as_str(),
                        card,
                        &observed_at,
                        AnchorOutcome::NotNeeded,
                    );
                    self.cards = Ghost(self.cards@.push(shown));
                    self.decide(status)
                }
            },
            Event::Captured(Err(error)) => {
                let anchored = match self.phase {
                    Phase::Requesting { anchored, refresh } => anchored,
                    _ => false,
                };
                self.end_round(anchored, error)
            },
            Event::Paused => {
                let (anchored, refresh): (bool, u8) = match self.phase {
                    Phase::Pausing { anchored, refresh } => (anchored, refresh),
                    _ => (false, 1),
                };
                self.request(anchored, refresh + 1, now)
            },
            Event::Replied(Ok(_)) => self.request(true, 1, now),
            Event::Replied(Err(error)) => {
                let mut message = "anchor model turn failed: ".to_owned();
                message.append(error.message().as_str());
                self.finish_pre_anchor(message)
            },
        }
    }

    /// Asks the model for a reply where the window appears dormant by `status`, the one of the
    /// third card, and reports that status where it does not.
    pub fn decide(&mut self, status: CodexStatus) -> (r: Action)
        requires
            status.wf(),
            old(self).observed_at.wf(),
            old(self).state.wf(),
        ensures
            final(self).same_capture(*old(self)),
            final(self).cards == old(self).cards,
            final(self).status_requests == old(self).status_requests,
            if codex::dormant(
                status.five_hour_percent_left,
                status.five_hour_reset_at,
                old(self).observed_at,
                old(self).state,
            ) {
                &&& final(self).phase == Phase::Anchoring
                &&& final(self).pre_anchor == Some(status)
                &&& final(self).state == old(self).state
                &&& final(self).anchor_requests == 1
                &&& r == old(self).anchor_request()
            } else {
                &&& final(self).phase == Phase::Over
                &&& final(self).state == remembered(status, old(self).observed_at)
                &&& final(self).anchor_requests == old(self).anchor_requests
                &&& r == Action::Finish(Ok(status))
            },
    {
        let observed_at = self.observed_at;
        if appears_dormant(&status, &observed_at, &self.state) {
            self.pre_anchor = Some(status);
            self.phase = Phase::Anchoring;
            self.anchor_requests = 1;
            Action::RequestAnchor {
                timeout: self.model_turn_timeout,
                overall_deadline: self.overall_deadline,
            }
        } else {
            self.finish(status, &observed_at)
        }
    }

    /// Asks for the card `refresh`, if there is time for it.
    fn request(&mut self, anchored: bool, refresh: u8, now: Moment) -> (r: Action)
        requires
            old(self).observed_at.has_date(),
            old(self).state.wf(),
            1 <= refresh <= 3,
            old(self).anchored_wf(anchored),
            old(self).cards@.len() == Self::earlier_cards(anchored, refresh),
            old(self).status_requests == old(self).cards@.len(),
        ensures
            final(self).wf(),
            final(self).same_capture(*old(self)),
            old(self).requests(anchored, refresh, now, *final(self), r),
    {
        match ensure_before(now, self.overall_deadline) {
            Ok(_) => {
                self.phase = Phase::Requesting { anchored, refresh };
                self.status_requests = self.status_requests + 1;
                Action::RequestStatus {
                    refresh,
                    timeout: self.status_timeout,
                    overall_deadline: self.overall_deadline,
                }
            },
            Err(error) => self.end_round(anchored, error),
        }
    }

    /// Ends a round of three cards that failed.
    fn end_round(&mut self, anchored: bool, error: SessionError) -> (r: Action)
        requires
            old(self).observed_at.has_date(),
            old(self).state.wf(),
            old(self).status_requests <= 6,
            old(self).anchored_wf(anchored),
        ensures
            final(self).wf(),
            final(self).same_capture(*old(self)),
            old(self).round_fails(anchored, error, *final(self), r),
    {
        if anchored {
            let mut message = "post-anchor status refresh failed: ".to_owned();
            message.append(error.message().as_str());
            self.finish_pre_anchor(message)
        } else {
            self.phase = Phase::Over;
            Action::Finish(Err(error))
        }
    }

    /// Ends the capture with the status of the third card.
    fn finish_pre_anchor(&mut self, message: String) -> (r: Action)
        requires
            old(self).observed_at.has_date(),
            old(self).status_requests <= 6,
            old(self).anchored_wf(true),
        ensures
            final(self).wf(),
            final(self).same_capture(*old(self)),
            old(self).reports_pre_anchor(message@, *final(self), r),
    {
        let observed_at = self.observed_at;
        let mut status = self.pre_anchor.take().unwrap();
        status.anchor_outcome = AnchorOutcome::Failed(message);
        self.finish(status, &observed_at)
    }

    /// Ends the capture with `status`.
    fn finish(&mut self, status: CodexStatus, observed_at: &LocalTime) -> (r: Action)
        requires
            status.wf(),
            observed_at.wf(),
        ensures
            *final(self) == (Interaction {
                phase: Phase::Over,
                state: remembered(status, *observed_at),
                ..*old(self)
            }),
            final(self).state.wf(),
            r == Action::Finish(Ok(status)),
    {
        update_account_state(&mut self.state, &status, observed_at);
        self.phase = Phase::Over;
        Action::Finish(Ok(status))
    }
}

/// A capture that ends with a status has asked for three cards and not for a reply where the
/// window was active, and for six cards and one reply where it started the window. Where it
/// failed to, it has asked for one reply.
pub proof fn law_requests_of_a_capture(
    before: Interaction,
    event: Event,
    now: Moment,
    wall: LocalTime,
    after: Interaction,
    status: CodexStatus,
)
    requires
        before.wf(),
        before.expects(event),
        before.steps(event, now, wall, after, Action::Finish(Ok(status))),
    ensures
        match status.anchor_outcome {
            AnchorOutcome::NotNeeded => after.status_requests == 3 && after.anchor_requests == 0,
            AnchorOutcome::AnchoredAutomatically => after.status_requests == 6
                && after.anchor_requests == 1,
            AnchorOutcome::Failed(message) => 3 <= after.status_requests <= 6
                && after.anchor_requests == 1,
        },
{
}

/// The status that a capture ends with is the one of a third card: the one after the reply where
/// the window was started, else the one before it.
pub proof fn law_third_card_is_reported(
    before: Interaction,
    event: Event,
    now: Moment,
    wall: LocalTime,
    after: Interaction,
    status: CodexStatus,
)
    requires
        before.wf(),
        before.expects(event),
        before.steps(event, now, wall, after, Action::Finish(Ok(status))),
    ensures
        ({
            let cards = match event {
                Event::Captured(Ok(card)) => before.cards@.push(card@),
                _ => before.cards@,
            };
            match status.anchor_outcome {
                AnchorOutcome::NotNeeded => cards.len() == 3 && status.rendered_status@ == cards[2],
                AnchorOutcome::AnchoredAutomatically => cards.len() == 6
                    && status.rendered_status@ == cards[5],
                AnchorOutcome::Failed(message) => cards.len() >= 3 && status.rendered_status@
                    == cards[2],
            }
        }),
{
}

/// A capture that has come to the request to the model does not fail: whatever happens then, a
/// status is reported, and where something fails it is the one before the request.
pub proof fn law_anchor_failure_keeps_the_status(
    before: Interaction,
    event: Event,
    now: Moment,
    wall: LocalTime,
    after: Interaction,
    action: Action,
)
    requires
        before.wf(),
        before.expects(event),
        before.steps(event, now, wall, after, action),
        before.anchor_requests == 1,
    ensures
        !(action matches Action::Finish(Err(_))),
        action matches Action::Finish(Ok(status)) ==> (status.anchor_outcome.failure() is Some
            ==> (before.pre_anchor matches Some(earlier) && status == (CodexStatus {
            anchor_outcome: status.anchor_outcome,
            ..earlier
        }))),
{
}

/// The model is asked for a reply only where the window appears dormant by the third card.
pub proof fn law_only_dormant_windows_are_anchored(
    before: Interaction,
    event: Event,
    now: Moment,
    wall: LocalTime,
    after: Interaction,
    action: Action,
)
    requires
        before.wf(),
        before.expects(event),
        before.steps(event, now, wall, after, action),
        action is RequestAnchor,
    ensures
        before.anchor_requests == 0,
        before.status_requests == 3,
        after.pre_anchor matches Some(status) && codex::dormant(
            status.five_hour_percent_left,
            status.five_hour_reset_at,
            before.observed_at,
            before.state,
        ),
{
}

/// Every status card may take the time that the capture was started with for cards, the reply of
/// the model the time for replies, and neither goes beyond the deadline for the whole account.
pub proof fn law_requests_have_their_time(
    before: Interaction,
    event: Event,
    now: Moment,
    wall: LocalTime,
    after: Interaction,
    action: Action,
)
    requires
        before.wf(),
        before.expects(event),
        before.steps(event, now, wall, after, action),
    ensures
        after.status_timeout == before.status_timeout,
        after.model_turn_timeout == before.model_turn_timeout,
        after.overall_deadline == before.overall_deadline,
        action matches Action::RequestStatus { timeout, overall_deadline, .. } ==> timeout
            == before.status_timeout && overall_deadline == before.overall_deadline,
        action matches Action::RequestAnchor { timeout, overall_deadline } ==> timeout
            == before.model_turn_timeout && overall_deadline == before.overall_deadline,
{
}

/// Whether `after` remembers of the account what `status` says, and that it was seen at `seen_at`.
pub open spec fn keeps(after: Interaction, status: CodexStatus, seen_at: LocalTime) -> bool {
    &&& after.state.previous_five_hour_reset == status.five_hour_reset_at
    &&& after.state.previous_observed_at == Some(seen_at)
}

/// The first and the second card of a round are followed by a pause, where there is time for it.
/// Without it the round fails.
pub proof fn law_cards_are_followed_by_pauses(
    before: Interaction,
    card: String,
    anchored: bool,
    refresh: u8,
    now: Moment,
    wall: LocalTime,
    after: Interaction,
    action: Action,
)
    requires
        before.wf(),
        before.phase == (Phase::Requesting { anchored, refresh }),
        refresh < 3,
        before.steps(Event::Captured(Ok(card)), now, wall, after, action),
    ensures
        ({
            let in_time = now.nanos + before.refresh_pause.nanos <= before.overall_deadline.nanos;
            &&& in_time ==> action == Action::Pause(before.refresh_pause) && after.phase == (
            Phase::Pausing { anchored, refresh }) && after.state == before.state
                && after.pre_anchor == before.pre_anchor
            &&& !in_time && !anchored ==> (action matches Action::Finish(Err(error)) && error.text()
                == "overall account timeout expired while waiting for rate-limit refresh"@)
                && after.state == before.state
            &&& !in_time && anchored ==> (action matches Action::Finish(Ok(status))
                && status.anchor_outcome.failure() == Some(
                "post-anchor status refresh failed: "@
                    + "overall account timeout expired while waiting for rate-limit refresh"@,
            ) && keeps(after, status, before.observed_at)) && after.phase == Phase::Over
        }),
{
}

/// A pause is followed by the next card of the round, and the reply of the model by the first card of
/// the second round, where there is time for it. Without it the round fails.
pub proof fn law_cards_are_asked_for_in_order(
    before: Interaction,
    event: Event,
    anchored: bool,
    refresh: u8,
    now: Moment,
    wall: LocalTime,
    after: Interaction,
    action: Action,
)
    requires
        before.wf(),
        (event is Paused && refresh > 1 && before.phase == (Phase::Pausing {
            anchored,
            refresh: (refresh - 1) as u8,
        })) || (event matches Event::Replied(Ok(_)) && before.phase == Phase::Anchoring && anchored
            && refresh == 1),
        before.steps(event, now, wall, after, action),
    ensures
        ({
            let in_time = now.nanos < before.overall_deadline.nanos;
            &&& in_time ==> {
                &&& action == (Action::RequestStatus {
                    refresh,
                    timeout: before.status_timeout,
                    overall_deadline: before.overall_deadline,
                })
                &&& after.phase == (Phase::Requesting { anchored, refresh })
                &&& after.state == before.state
                &&& after.pre_anchor == before.pre_anchor
            }
            &&& !in_time && !anchored ==> (action matches Action::Finish(Err(error)) && error.text()
                == "timed out during overall account monitoring"@) && after.state == before.state
            &&& !in_time && anchored ==> (action matches Action::Finish(Ok(status))
                && status.anchor_outcome.failure() == Some(
                "post-anchor status refresh failed: "@
                    + "timed out during overall account monitoring"@,
            ) && keeps(after, status, before.observed_at)) && after.phase == Phase::Over
        }),
{
}

/// A card that cannot be had ends the capture with that error, and nothing is remembered, unless the
/// model was asked before. Then the status before that is reported, with the error.
pub proof fn law_missing_cards_end_the_capture(
    before: Interaction,
    error: SessionError,
    anchored: bool,
    refresh: u8,
    now: Moment,
    wall: LocalTime,
    after: Interaction,
    action: Action,
    said: String,
)
    requires
        before.wf(),
        before.phase == (Phase::Requesting { anchored, refresh }),
        before.steps(Event::Captured(Err(error)), now, wall, after, action),
        call_ensures(SessionError::message, (&error,), said),
    ensures
        after.phase == Phase::Over,
        !anchored ==> (action matches Action::Finish(Err(reported)) && reported.text() == said@)
            && after.state == before.state,
        anchored ==> (action matches Action::Finish(Ok(status)) && {
            &&& before.pre_anchor matches Some(earlier) && status.rendered_status@
                == earlier.rendered_status@
            &&& status.anchor_outcome.failure() == Some(
                "post-anchor status refresh failed: "@ + said@,
            )
            &&& keeps(after, status, before.observed_at)
        }),
{
}

/// Where the model does not reply, the status before it was asked is reported and remembered, with
/// the error.
pub proof fn law_missing_reply_ends_the_capture(
    before: Interaction,
    error: SessionError,
    now: Moment,
    wall: LocalTime,
    after: Interaction,
    action: Action,
    said: String,
)
    requires
        before.wf(),
        before.phase == Phase::Anchoring,
        before.steps(Event::Replied(Err(error)), now, wall, after, action),
        call_ensures(SessionError::message, (&error,), said),
    ensures
        after.phase == Phase::Over,
        action matches Action::Finish(Ok(status)) && {
            &&& before.pre_anchor matches Some(earlier) && status == (CodexStatus {
                anchor_outcome: status.anchor_outcome,
                ..earlier
            })
            &&& status.anchor_outcome.failure() == Some("anchor model turn failed: "@ + said@)
            &&& keeps(after, status, before.observed_at)
        },
{
}

/// Whether a window is full and its reset time is about five hours ahead, or has moved on by as much
/// as the clock since it was last seen.
pub open spec fn is_full_and_unanchored(
    status: CodexStatus,
    observed_at: LocalTime,
    state: AccountState,
) -> bool {
    &&& status.five_hour_percent_left == Some(100u8)
    &&& status.five_hour_reset_at matches Some(reset) && {
        let ahead = codex::nanos_of(reset) - codex::nanos_of(observed_at);
        ||| 295 * 60 * 1_000_000_000 <= ahead <= 305 * 60 * 1_000_000_000
        ||| (state.previous_five_hour_reset is Some && state.previous_observed_at is Some && {
            let moved = codex::nanos_of(reset) - codex::nanos_of(
                state.previous_five_hour_reset->0,
            );
            let passed = codex::nanos_of(observed_at) - codex::nanos_of(
                state.previous_observed_at->0,
            );
            moved > 0 && passed > 0 && passed - 601 * 1_000_000_000 < moved < passed + 601
                * 1_000_000_000
        })
    }
}

/// The third card tells whether the window is dormant. Where it is, the model is asked once, and
/// nothing is remembered yet; where it is not, the card is reported and remembered.
pub proof fn law_third_card_decides(
    before: Interaction,
    card: String,
    now: Moment,
    wall: LocalTime,
    after: Interaction,
    action: Action,
)
    requires
        before.wf(),
        before.phase == (Phase::Requesting { anchored: false, refresh: 3 }),
        before.steps(Event::Captured(Ok(card)), now, wall, after, action),
    ensures
        action is RequestAnchor || action matches Action::Finish(Ok(_)),
        action matches Action::RequestAnchor { timeout, overall_deadline } ==> {
            &&& timeout == before.model_turn_timeout
            &&& overall_deadline == before.overall_deadline
            &&& after.phase == Phase::Anchoring
            &&& after.state == before.state
            &&& after.pre_anchor matches Some(status) && codex::says_what_the_card_shows(
                status,
                before.account_name@,
                card@,
                before.observed_at,
            ) && status.anchor_outcome is NotNeeded && is_full_and_unanchored(
                status,
                before.observed_at,
                before.state,
            )
        },
        action matches Action::Finish(Ok(status)) ==> {
            &&& after.phase == Phase::Over
            &&& codex::says_what_the_card_shows(
                status,
                before.account_name@,
                card@,
                before.observed_at,
            )
            &&& status.anchor_outcome is NotNeeded
            &&& !is_full_and_unanchored(status, before.observed_at, before.state)
            &&& keeps(after, status, before.observed_at)
        },
{
}

/// The sixth card is reported and remembered as it is seen then.
pub proof fn law_sixth_card_is_reported(
    before: Interaction,
    card: String,
    now: Moment,
    wall: LocalTime,
    after: Interaction,
    action: Action,
)
    requires
        before.wf(),
        before.phase == (Phase::Requesting { anchored: true, refresh: 3 }),
        before.steps(Event::Captured(Ok(card)), now, wall, after, action),
    ensures
        after.phase == Phase::Over,
        action matches Action::Finish(Ok(status)) && {
            &&& codex::says_what_the_card_shows(status, before.account_name@, card@, wall)
            &&& status.anchor_outcome is AnchoredAutomatically
            &&& keeps(after, status, wall)
        },
{
}

/// What a capture was started with stays with it.
pub proof fn law_captures_keep_their_settings(
    before: Interaction,
    event: Event,
    now: Moment,
    wall: LocalTime,
    after: Interaction,
    action: Action,
)
    requires
        before.steps(event, now, wall, after, action),
    ensures
        after.account_name@ == before.account_name@,
        after.refresh_pause == before.refresh_pause,
        after.observed_at == before.observed_at,
{
}

/// A capture starts with the first card, if there is time for it.
pub proof fn law_captures_start_with_the_first_card(
    name: &str,
    settings: MonitorSettings,
    state: AccountState,
    overall_deadline: Moment,
    observed_at: LocalTime,
    now: Moment,
    started: (Interaction, Action),
)
    requires
        call_ensures(
            Interaction::start,
            (name, &settings, state, overall_deadline, observed_at, now),
            started,
        ),
    ensures
        started.0.account_name@ == name@,
        started.0.state == state,
        started.0.observed_at == observed_at,
        started.0.refresh_pause == settings.refresh_pause,
        started.0.status_timeout == settings.status,
        started.0.model_turn_timeout == settings.model_turn,
        started.0.overall_deadline == overall_deadline,
        now.nanos < overall_deadline.nanos ==> started.0.phase == (Phase::Requesting {
            anchored: false,
            refresh: 1,
        }) && started.1 == (Action::RequestStatus {
            refresh: 1,
            timeout: settings.status,
            overall_deadline,
        }),
        now.nanos >= overall_deadline.nanos ==> started.0.phase == Phase::Over && (
        started.1 matches Action::Finish(Err(error)) && error is OutOfTime),
{
}

/// A capture takes whatever comes of what it asked for.
pub proof fn law_captures_take_what_comes(capture: Interaction, event: Event)
    ensures
        capture.phase is Requesting && event is Captured ==> capture.expects(event),
        capture.phase is Pausing && event is Paused ==> capture.expects(event),
        capture.phase == Phase::Anchoring && event is Replied ==> capture.expects(event),
{
}

/// A capture goes on as its steps say.
pub proof fn law_captures_step(
    capture: &mut Interaction,
    event: Event,
    now: Moment,
    wall: LocalTime,
    action: Action,
)
    requires
        call_ensures(Interaction::step, (capture, event, now, &wall), action),
    ensures
        old(capture).steps(event, now, wall, *final(capture), action),
        final(capture).wf(),
{
}

/// The model is asked where the window of a status is full and unanchored, and the status is reported
/// and remembered where it is not.
pub proof fn law_status_decides(capture: &mut Interaction, status: CodexStatus, action: Action)
    requires
        call_ensures(Interaction::decide, (capture, status), action),
    ensures
        ({
            let before = *old(capture);
            let after = *final(capture);
            if is_full_and_unanchored(status, before.observed_at, before.state) {
                &&& after.phase == Phase::Anchoring
                &&& after.pre_anchor == Some(status)
                &&& after.state == before.state
                &&& action == (Action::RequestAnchor {
                    timeout: before.model_turn_timeout,
                    overall_deadline: before.overall_deadline,
                })
            } else {
                &&& after.phase == Phase::Over
                &&& action == Action::Finish(Ok(status))
                &&& keeps(after, status, before.observed_at)
            }
        }),
{
}

} // verus!

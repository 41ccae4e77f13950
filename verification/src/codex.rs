//! What the monitor knows of an account: the captured status, and whether its 5-hour window
//! appears dormant.

use vstd::prelude::*;

use crate::card;
use crate::card::parse_percent_left;
use crate::reset;
use crate::reset::parse_five_hour_reset;
use crate::time::{LocalTime, Span};

verus! {

/// The size of the virtual terminal, and how long each stage of a capture may take.
#[derive(Debug, Clone)]
pub struct MonitorSettings {
    pub terminal_rows: u16,
    pub terminal_cols: u16,
    pub startup: Span,
    pub status: Span,
    pub model_turn: Span,
    pub refresh_pause: Span,
    pub overall: Span,
}

impl Default for MonitorSettings {
    fn default() -> (r: Self)
        ensures
            r.terminal_rows == 80,
            r.terminal_cols == 120,
            r.startup.nanos == 45 * 1_000_000_000,
            r.status.nanos == 25 * 1_000_000_000,
            r.model_turn.nanos == 90 * 1_000_000_000,
            r.refresh_pause.nanos == 4 * 1_000_000_000,
            r.overall.nanos == 300 * 1_000_000_000,
    {
        MonitorSettings {
            terminal_rows: 80,
            terminal_cols: 120,
            startup: Span::from_secs(45),
            status: Span::from_secs(25),
            model_turn: Span::from_secs(90),
            refresh_pause: Span::from_secs(4),
            overall: Span::from_secs(300),
        }
    }
}

/// What is remembered of an account from one cycle to the next.
#[derive(Debug, Clone, Copy, PartialEq, Eq, Structural)]
pub struct AccountState {
    pub previous_five_hour_reset: Option<LocalTime>,
    pub previous_observed_at: Option<LocalTime>,
}

impl AccountState {
    pub open spec fn wf(self) -> bool {
        &&& self.previous_five_hour_reset matches Some(t) ==> t.wf()
        &&& self.previous_observed_at matches Some(t) ==> t.wf()
    }
}

impl Default for AccountState {
    fn default() -> (r: Self)
        ensures
            r.previous_five_hour_reset is None,
            r.previous_observed_at is None,
    {
        AccountState { previous_five_hour_reset: None, previous_observed_at: None }
    }
}

/// What became of the request that starts a dormant window.
#[derive(Debug, Clone)]
pub enum AnchorOutcome {
    NotNeeded,
    AnchoredAutomatically,
    Failed(String),
}

impl AnchorOutcome {
    /// Why the request failed, where it did.
    pub open spec fn failure(self) -> Option<Seq<char>> {
        match self {
            AnchorOutcome::Failed(message) => Some(message@),
            _ => None,
        }
    }

    /// Why the request failed, where it did.
    pub fn failure_message(&self) -> (r: Option<&str>)
        ensures
            match r {
                Some(message) => self.failure() == Some(message@),
                None => self.failure() is None,
            },
    {
        match self {
            AnchorOutcome::Failed(message) => Some(message.as_str()),
            AnchorOutcome::NotNeeded | AnchorOutcome::AnchoredAutomatically => None,
        }
    }
}

/// The status of an account, as its card shows it.
#[derive(Debug, Clone)]
pub struct CodexStatus {
    pub account_name: String,
    pub rendered_status: String,
    pub five_hour_percent_left: Option<u8>,
    pub weekly_percent_left: Option<u8>,
    pub five_hour_reset_at: Option<LocalTime>,
    pub anchor_outcome: AnchorOutcome,
}

impl CodexStatus {
    pub open spec fn wf(self) -> bool {
        self.five_hour_reset_at matches Some(t) ==> t.wf()
    }
}

/// The outcome of one account in a cycle.
#[derive(Debug, Clone)]
pub enum AccountResult {
    Success(CodexStatus),
    Failure { account_name: String, error: String },
}

impl AccountResult {
    /// The name of the account.
    pub open spec fn name(self) -> Seq<char> {
        match self {
            AccountResult::Success(status) => status.account_name@,
            AccountResult::Failure { account_name, error } => account_name@,
        }
    }

    /// The name of the account.
    pub fn account_name(&self) -> (r: &str)
        ensures
            r@ == self.name(),
    {
        match self {
            AccountResult::Success(status) => status.account_name.as_str(),
            AccountResult::Failure { account_name, .. } => account_name.as_str(),
        }
    }
}

/// Whether `status` is what the card `rendered` of the account `name`, seen at `observed_at`,
/// says.
pub open spec fn reads_card(
    status: CodexStatus,
    name: Seq<char>,
    rendered: Seq<char>,
    observed_at: LocalTime,
) -> bool {
    &&& status.account_name@ == name
    &&& status.rendered_status@ == rendered
    &&& status.five_hour_percent_left == card::percent_left(rendered, "5h limit:"@)
    &&& status.weekly_percent_left == card::percent_left(rendered, "Weekly limit:"@)
    &&& reset::may_reset_at(rendered, observed_at, status.five_hour_reset_at)
}

/// The status that the card `rendered_status`, seen at `observed_at`, shows.
pub fn build_status(
    account_name: &str,
    rendered_status: String,
    observed_at: &LocalTime,
    anchor_outcome: AnchorOutcome,
) -> (r: CodexStatus)
    requires
        observed_at.has_date(),
    ensures
        r.wf(),
        reads_card(r, account_name@, rendered_status@, *observed_at),
        r.anchor_outcome == anchor_outcome,
{
    CodexStatus {
        account_name: account_name.to_owned(),
        five_hour_percent_left: parse_percent_left(rendered_status.as_str(), "5h limit:"),
        weekly_percent_left: parse_percent_left(rendered_status.as_str(), "Weekly limit:"),
        five_hour_reset_at: parse_five_hour_reset(rendered_status.as_str(), observed_at),
        anchor_outcome,
        rendered_status,
    }
}

/// Whether the reset time `reset_at` lies between 4:55 and 5:05 hours ahead of `observed_at`.
pub open spec fn near_five_hours(reset_at: LocalTime, observed_at: LocalTime) -> bool {
    let ahead = reset_at.instant() - observed_at.instant();
    295 * 60 * 1_000_000_000 <= ahead <= 305 * 60 * 1_000_000_000
}

/// Whether the reset time moved on with the wall clock since the last cycle: both advanced, and
/// by the same time but for ten minutes, fractions of a second aside.
pub open spec fn reset_is_drifting(
    reset_at: LocalTime,
    observed_at: LocalTime,
    state: AccountState,
) -> bool {
    match (state.previous_five_hour_reset, state.previous_observed_at) {
        (Some(previous_reset), Some(previous_observed)) => {
            let clock_advance = observed_at.instant() - previous_observed.instant();
            let reset_advance = reset_at.instant() - previous_reset.instant();
            &&& clock_advance > 0
            &&& reset_advance > 0
            &&& -601 * 1_000_000_000 < reset_advance - clock_advance < 601 * 1_000_000_000
        },
        _ => false,
    }
}

/// Whether a 5-hour window appears dormant: all of it is left, and its reset time is about five
/// hours ahead or moves on with the wall clock.
pub open spec fn dormant(
    percent_left: Option<u8>,
    reset_at: Option<LocalTime>,
    observed_at: LocalTime,
    state: AccountState,
) -> bool {
    &&& percent_left == Some(100u8)
    &&& reset_at matches Some(reset) && (near_five_hours(reset, observed_at) || reset_is_drifting(
        reset,
        observed_at,
        state,
    ))
}

/// Whether the 5-hour window of an account appears dormant.
pub fn appears_dormant(status: &CodexStatus, observed_at: &LocalTime, state: &AccountState) -> (r:
    bool)
    requires
        status.wf(),
        observed_at.wf(),
        state.wf(),
    ensures
        r == dormant(
            status.five_hour_percent_left,
            status.five_hour_reset_at,
            *observed_at,
            *state,
        ),
{
    match status.five_hour_percent_left {
        Some(percent) => {
            if percent != 100 {
                return false;
            }
        },
        None => {
            return false;
        },
    }
    let reset_at = match status.five_hour_reset_at {
        Some(reset_at) => reset_at,
        None => {
            return false;
        },
    };
    let ahead = reset_at.nanos_since(observed_at);
    let near = 295 * 60 * 1_000_000_000 <= ahead && ahead <= 305 * 60 * 1_000_000_000;
    let drifting = match (state.previous_five_hour_reset, state.previous_observed_at) {
        (Some(previous_reset), Some(previous_observed)) => {
            let clock_advance = observed_at.nanos_since(&previous_observed);
            let reset_advance = reset_at.nanos_since(&previous_reset);
            clock_advance > 0 && reset_advance > 0 && reset_advance - clock_advance < 601
                * 1_000_000_000 && reset_advance - clock_advance > -601 * 1_000_000_000
        },
        _ => false,
    };
    near || drifting
}

/// Remembers when a window resets, and when that was seen.
pub fn update_account_state(
    state: &mut AccountState,
    status: &CodexStatus,
    observed_at: &LocalTime,
)
    ensures
        final(state).previous_five_hour_reset == status.five_hour_reset_at,
        final(state).previous_observed_at == Some(*observed_at),
{
    state.previous_five_hour_reset = status.five_hour_reset_at;
    state.previous_observed_at = Some(*observed_at);
}

/// A window of which some has been used is never taken for dormant.
pub proof fn law_used_windows_are_not_dormant(
    percent_left: Option<u8>,
    reset_at: Option<LocalTime>,
    observed_at: LocalTime,
    state: AccountState,
)
    requires
        percent_left != Some(100u8) || reset_at is None,
    ensures
        !dormant(percent_left, reset_at, observed_at, state),
{
}

/// A full window whose reset time stays five hours ahead is taken for dormant, whatever is
/// remembered of the account.
pub proof fn law_full_window_five_hours_ahead_is_dormant(
    reset_at: LocalTime,
    observed_at: LocalTime,
    state: AccountState,
)
    requires
        reset_at.instant() == observed_at.instant() + 5 * 3600 * 1_000_000_000,
    ensures
        dormant(Some(100u8), Some(reset_at), observed_at, state),
{
}

/// A full window whose reset time moves on exactly as the clock does is taken for dormant,
/// however far ahead it lies.
pub proof fn law_full_window_that_moves_on_is_dormant(
    earlier_status: CodexStatus,
    earlier: LocalTime,
    state: AccountState,
    reset_at: LocalTime,
    observed_at: LocalTime,
)
    requires
        state.previous_five_hour_reset == earlier_status.five_hour_reset_at,
        state.previous_observed_at == Some(earlier),
        earlier_status.five_hour_reset_at is Some,
        earlier.instant() < observed_at.instant(),
        reset_at.instant() - observed_at.instant() == earlier_status.five_hour_reset_at->0.instant()
            - earlier.instant(),
    ensures
        dormant(Some(100u8), Some(reset_at), observed_at, state),
{
}

/// A full window whose reset time lies anywhere from 4:55 to 5:05 hours ahead is taken for dormant,
/// whatever is remembered of the account.
pub proof fn law_full_window_about_five_hours_ahead_is_dormant(
    status: CodexStatus,
    reset: LocalTime,
    observed_at: LocalTime,
    state: AccountState,
    answer: bool,
)
    requires
        call_ensures(appears_dormant, (&status, &observed_at, &state), answer),
        status.five_hour_percent_left == Some(100u8),
        status.five_hour_reset_at == Some(reset),
        295 * 60 * 1_000_000_000 <= nanos_of(reset) - nanos_of(observed_at) <= 305 * 60
            * 1_000_000_000,
    ensures
        answer,
{
}

/// A full window whose reset time has moved on since the last cycle, and by as much as the clock
/// but for ten minutes, is taken for dormant, however far ahead it lies.
pub proof fn law_full_window_that_drifts_is_dormant(
    status: CodexStatus,
    reset: LocalTime,
    observed_at: LocalTime,
    state: AccountState,
    previous_reset: LocalTime,
    previous_observed: LocalTime,
    answer: bool,
)
    requires
        call_ensures(appears_dormant, (&status, &observed_at, &state), answer),
        status.five_hour_percent_left == Some(100u8),
        status.five_hour_reset_at == Some(reset),
        state.previous_five_hour_reset == Some(previous_reset),
        state.previous_observed_at == Some(previous_observed),
        nanos_of(previous_reset) < nanos_of(reset),
        nanos_of(previous_observed) < nanos_of(observed_at),
        ({
            let moved = nanos_of(reset) - nanos_of(previous_reset);
            let passed = nanos_of(observed_at) - nanos_of(previous_observed);
            passed - 601 * 1_000_000_000 < moved < passed + 601 * 1_000_000_000
        }),
    ensures
        answer,
{
}

/// A window is taken for dormant only where all of it is left, and its reset time is about five
/// hours ahead or has moved on since the last cycle by as much as the clock has.
pub proof fn law_dormant_windows_are_full_and_unanchored(
    status: CodexStatus,
    observed_at: LocalTime,
    state: AccountState,
)
    requires
        call_ensures(appears_dormant, (&status, &observed_at, &state), true),
    ensures
        status.five_hour_percent_left == Some(100u8),
        status.five_hour_reset_at matches Some(reset) && {
            let ahead = nanos_of(reset) - nanos_of(observed_at);
            ||| 295 * 60 * 1_000_000_000 <= ahead <= 305 * 60 * 1_000_000_000
            ||| (state.previous_five_hour_reset is Some && state.previous_observed_at is Some && {
                let moved = nanos_of(reset) - nanos_of(state.previous_five_hour_reset->0);
                let passed = nanos_of(observed_at) - nanos_of(state.previous_observed_at->0);
                moved > 0 && passed > 0 && passed - 601 * 1_000_000_000 < moved < passed + 601
                    * 1_000_000_000
            })
        },
{
}

/// The nanoseconds from the start of 1970 to `t`.
pub open spec fn nanos_of(t: LocalTime) -> int {
    t.seconds * 1_000_000_000 + t.nanosecond
}

/// Whether `status` is of the account `name` and says what its card `rendered` shows, where the card
/// was seen at `observed_at`.
pub open spec fn says_what_the_card_shows(
    status: CodexStatus,
    name: Seq<char>,
    rendered: Seq<char>,
    observed_at: LocalTime,
) -> bool {
    &&& status.account_name@ == name
    &&& status.rendered_status@ == rendered
    &&& status.five_hour_percent_left == card::percent_left(rendered, "5h limit:"@)
    &&& status.weekly_percent_left == card::percent_left(rendered, "Weekly limit:"@)
    &&& reset::may_reset_at(rendered, observed_at, status.five_hour_reset_at)
}

/// A status holds the card whole, and what is read from its lines for the 5-hour and for the weekly
/// window.
pub proof fn law_status_says_what_the_card_shows(
    name: &str,
    rendered: String,
    observed_at: LocalTime,
    outcome: AnchorOutcome,
    status: CodexStatus,
    card: &str,
    five_hour_label: &str,
    weekly_label: &str,
    five_hour: Option<u8>,
    weekly: Option<u8>,
)
    requires
        call_ensures(build_status, (name, rendered, &observed_at, outcome), status),
        card@ == rendered@,
        five_hour_label@ == "5h limit:"@,
        weekly_label@ == "Weekly limit:"@,
        call_ensures(parse_percent_left, (card, five_hour_label), five_hour),
        call_ensures(parse_percent_left, (card, weekly_label), weekly),
    ensures
        says_what_the_card_shows(status, name@, rendered@, observed_at),
        status.five_hour_percent_left == five_hour,
        status.weekly_percent_left == weekly,
        status.anchor_outcome == outcome,
{
}

/// The reset time that a status may have is that of its card: what may be read from a card is what
/// reading it gives.
pub proof fn law_reset_of_a_status(card: &str, observed_at: LocalTime, reset: Option<LocalTime>)
    requires
        call_ensures(parse_five_hour_reset, (card, &observed_at), reset),
    ensures
        reset::may_reset_at(card@, observed_at, reset),
{
}

/// Only a request that failed has a reason for it.
pub proof fn law_failures_have_a_reason(outcome: AnchorOutcome, reason: Option<&str>)
    requires
        call_ensures(AnchorOutcome::failure_message, (&outcome,), reason),
    ensures
        outcome matches AnchorOutcome::Failed(message) ==> (reason matches Some(said) && said@
            == message@),
        !(outcome is Failed) ==> reason is None,
{
}

/// A result is that of the account that it names.
pub proof fn law_results_name_their_account(result: AccountResult, name: &str)
    requires
        call_ensures(AccountResult::account_name, (&result,), name),
    ensures
        result matches AccountResult::Success(status) ==> name@ == status.account_name@,
        result matches AccountResult::Failure { account_name, error } ==> name@ == account_name@,
{
}

/// What is asked of a status and of what is remembered is that the calendar covers their times.
pub proof fn law_times_are_covered(status: CodexStatus, state: AccountState)
    ensures
        status.wf() <==> (status.five_hour_reset_at is Some ==> status.five_hour_reset_at->0.wf()),
        state.wf() <==> (state.previous_five_hour_reset is Some
            ==> state.previous_five_hour_reset->0.wf()) && (state.previous_observed_at is Some
            ==> state.previous_observed_at->0.wf()),
{
}

/// What is remembered of an account is its last reset time, and when that was seen.
pub proof fn law_last_status_is_remembered(
    state: &mut AccountState,
    status: CodexStatus,
    observed_at: LocalTime,
)
    requires
        call_ensures(update_account_state, (state, &status, &observed_at), ()),
    ensures
        final(state).previous_five_hour_reset == status.five_hour_reset_at,
        final(state).previous_observed_at == Some(observed_at),
{
}

} // verus!

//! The time at which a status card says that the 5-hour window resets.

use vstd::prelude::*;
use vstd::string::*;

use crate::calendar;
use crate::calendar::{
    add_days, local_date, local_readings, parse_minute, parse_time, with_year, LocalReading,
};
use crate::text;
use crate::text::{
    chars_of, copy_range, find, find_row, index_of, lines_of, push_signed_decimal, text_of, trimmed,
};
use crate::time::{CivilDate, CivilMinute, LocalTime};

verus! {

/// The text between `resets ` and the next closing parenthesis or edge of the card, in the
/// first line of `status` for the 5-hour window.
pub open spec fn reset_text(status: Seq<char>) -> Option<Seq<char>> {
    match text::first_row_with(text::lines(status), "5h limit:"@) {
        Some(row) => match text::find_from(row, "resets "@, 0) {
            Some(at) => {
                let rest = row.skip(at + "resets "@.len());
                let parenthesis = text::first_index(rest, ')') as int;
                let edge = text::first_index(rest, '│') as int;
                Some(text::trim(rest.take(if parenthesis <= edge {
                    parenthesis
                } else {
                    edge
                })))
            },
            None => None,
        },
        None => None,
    }
}

/// A first guess at when the window resets.
#[derive(Debug, Clone, Copy, PartialEq, Eq, Structural)]
pub enum Candidate {
    /// The card gives the day. The year is that of the observation.
    Dated(CivilMinute),
    /// The card gives no day. It is that of the observation.
    Undated(CivilMinute),
}

impl Candidate {
    /// The guessed minute.
    pub open spec fn guess(self) -> CivilMinute {
        match self {
            Candidate::Dated(minute) => minute,
            Candidate::Undated(minute) => minute,
        }
    }
}

/// The first guess for the text `shown` of a card that was seen on `today`. A text with a day is
/// looked for first, and in each case a clock with 24 hours before one with 12.
pub open spec fn candidate_on(shown: Seq<char>, today: CivilDate) -> Option<Candidate> {
    let dated = text::signed_decimal(today.year as int) + seq![' '] + shown;
    if let Some(minute) = calendar::parsed_minute(dated, "%Y %H:%M on %e %b"@) {
        Some(Candidate::Dated(minute))
    } else if let Some(minute) = calendar::parsed_minute(dated, "%Y %I:%M %p on %e %b"@) {
        Some(Candidate::Dated(minute))
    } else if let Some(time) = calendar::parsed_time(shown, "%H:%M"@) {
        Some(Candidate::Undated(CivilMinute { date: today, hour: time.0, minute: time.1 }))
    } else if let Some(time) = calendar::parsed_time(shown, "%I:%M %p"@) {
        Some(Candidate::Undated(CivilMinute { date: today, hour: time.0, minute: time.1 }))
    } else {
        None
    }
}

/// The first guess from a card that was seen at `observed_at`.
pub open spec fn reset_candidate(status: Seq<char>, observed_at: LocalTime) -> Option<Candidate> {
    match reset_text(status) {
        Some(shown) => candidate_on(shown, choose|today: CivilDate| observed_at.falls_on(today)),
        None => None,
    }
}

/// Whether `settled` is what a guess becomes that the local clock shows at `initial`. A guess
/// with a day moves by a year where it is more than 183 days off. A guess without one moves to
/// the next day where it is more than five minutes past.
pub open spec fn settles_to(
    candidate: Candidate,
    initial: LocalTime,
    observed_at: LocalTime,
    today: CivilDate,
    settled: Option<CivilMinute>,
) -> bool {
    let ahead = initial.instant() - observed_at.instant();
    match candidate {
        Candidate::Dated(minute) => settled == (if ahead < -183 * 86_400 * 1_000_000_000 {
            calendar::in_year(minute, (today.year + 1) as i32)
        } else if ahead > 183 * 86_400 * 1_000_000_000 {
            calendar::in_year(minute, (today.year - 1) as i32)
        } else {
            Some(minute)
        }),
        Candidate::Undated(minute) => if ahead < -5 * 60 * 1_000_000_000 {
            match settled {
                Some(next) => next.wf() && next.hour == minute.hour && next.minute == minute.minute
                    && next.date.days() == minute.date.days() + 1,
                None => minute.seconds() + 86_400 > crate::time::LAST_SECOND,
            }
        } else {
            settled == Some(minute)
        },
    }
}

/// Whether `reading` may be how the local clock shows `minute`: each time in it does show it.
pub open spec fn reads(reading: LocalReading, minute: CivilMinute) -> bool {
    match reading {
        LocalReading::Never => true,
        LocalReading::Once(only) => only.shows(minute),
        LocalReading::Twice(first, second) => first.shows(minute) && second.shows(minute),
    }
}

/// The time that stands for a minute that the local clock shows as `reading`: the only one, or the
/// first that the calendar gives where the clock shows the minute twice.
pub open spec fn chosen(reading: LocalReading) -> Option<LocalTime> {
    match reading {
        LocalReading::Never => None,
        LocalReading::Once(only) => Some(only),
        LocalReading::Twice(first, second) => Some(first),
    }
}

/// Whether `settled` is what a guess becomes that the local clock shows as `reading`. A guess that
/// it never shows becomes nothing.
pub open spec fn settles_by(
    candidate: Candidate,
    reading: LocalReading,
    observed_at: LocalTime,
    today: CivilDate,
    settled: Option<CivilMinute>,
) -> bool {
    match chosen(reading) {
        Some(initial) => settles_to(candidate, initial, observed_at, today, settled),
        None => settled is None,
    }
}

/// Whether `reset_at` is the time of the settled guess, which the time zone shows as `reading`.
pub open spec fn is_time_of(
    settled: Option<CivilMinute>,
    reading: LocalReading,
    reset_at: Option<LocalTime>,
) -> bool {
    match settled {
        Some(minute) => calendar::zone_gave(minute, reading) && reads(reading, minute) && reset_at
            == chosen(reading),
        None => reset_at is None,
    }
}

/// Whether `reset_at` is the reset time on a card that was seen at `observed_at`: there is none
/// where the card gives no time, and else it is settled by how the local clock shows the first
/// guess, and then by how it shows the settled one.
pub open spec fn may_reset_at(
    status: Seq<char>,
    observed_at: LocalTime,
    reset_at: Option<LocalTime>,
) -> bool {
    match reset_candidate(status, observed_at) {
        Some(candidate) => exists|
            first: LocalReading,
            today: CivilDate,
            settled: Option<CivilMinute>,
            last: LocalReading,
        |
            {
                &&& calendar::zone_gave(candidate.guess(), first)
                &&& reads(first, candidate.guess())
                &&& observed_at.falls_on(today)
                &&& #[trigger] settles_by(candidate, first, observed_at, today, settled)
                &&& #[trigger] is_time_of(settled, last, reset_at)
            },
        None => reset_at is None,
    }
}

/// The text of a status card that tells when the 5-hour window resets.
pub fn find_reset_text(status: &str) -> (r: Option<String>)
    ensures
        match r {
            Some(shown) => reset_text(status@) == Some(shown@),
            None => reset_text(status@) is None,
        },
{
    let rows = lines_of(chars_of(status).as_slice());
    let k = match find_row(&rows, chars_of("5h limit:").as_slice()) {
        Some(k) => k,
        None => {
            return None;
        },
    };
    let row = rows[k].as_slice();
    let mark = chars_of("resets ");
    let at = match find(row, mark.as_slice()) {
        Some(at) => at,
        None => {
            return None;
        },
    };
    let width: usize = row.len();
    proof {
        text::lemma_find_from(row@, mark@, 0);
    }
    let rest = copy_range(row, at + mark.len(), width);
    assert(rest@ == row@.skip(at + "resets "@.len()));
    let parenthesis = index_of(rest.as_slice(), ')');
    let edge = index_of(rest.as_slice(), '│');
    proof {
        text::lemma_first_index(rest@, ')');
        text::lemma_first_index(rest@, '│');
    }
    let stop: usize = if parenthesis <= edge {
        parenthesis
    } else {
        edge
    };
    let shown = copy_range(rest.as_slice(), 0, stop);
    assert(shown@ == rest@.take(stop as int));
    Some(text_of(trimmed(shown.as_slice()).as_slice()))
}

/// The first guess for the text `shown` of a card that was seen on `today`.
pub fn find_candidate(shown: &str, today: CivilDate) -> (r: Option<Candidate>)
    requires
        today.wf(),
    ensures
        r == candidate_on(shown@, today),
        r matches Some(candidate) ==> candidate.guess().wf(),
{
    let mut dated = String::new();
    push_signed_decimal(&mut dated, today.year);
    dated.push(' ');
    dated.append(shown);
    assert(dated@ == text::signed_decimal(today.year as int) + seq![' '] + shown@);
    if let Some(minute) = parse_minute(dated.as_str(), "%Y %H:%M on %e %b") {
        return Some(Candidate::Dated(minute));
    }
    if let Some(minute) = parse_minute(dated.as_str(), "%Y %I:%M %p on %e %b") {
        return Some(Candidate::Dated(minute));
    }
    if let Some((hour, minute)) = parse_time(shown, "%H:%M") {
        return Some(Candidate::Undated(CivilMinute { date: today, hour, minute }));
    }
    if let Some((hour, minute)) = parse_time(shown, "%I:%M %p") {
        return Some(Candidate::Undated(CivilMinute { date: today, hour, minute }));
    }
    None
}

/// What a guess becomes that the local clock shows at `initial`.
pub fn settle(
    candidate: Candidate,
    initial: &LocalTime,
    observed_at: &LocalTime,
    today: CivilDate,
) -> (r: Option<CivilMinute>)
    requires
        candidate.guess().wf(),
        initial.wf(),
        observed_at.wf(),
        today.wf(),
    ensures
        settles_to(candidate, *initial, *observed_at, today, r),
        r matches Some(minute) ==> minute.wf(),
{
    let ahead = initial.nanos_since(observed_at);
    match candidate {
        Candidate::Dated(minute) => {
            if ahead < -183 * 86_400 * 1_000_000_000 {
                with_year(minute, today.year + 1)
            } else if ahead > 183 * 86_400 * 1_000_000_000 {
                with_year(minute, today.year - 1)
            } else {
                Some(minute)
            }
        },
        Candidate::Undated(minute) => {
            if ahead < -5 * 60 * 1_000_000_000 {
                proof {
                    crate::time::lemma_minutes_are_covered(minute);
                }
                add_days(minute, 1)
            } else {
                Some(minute)
            }
        },
    }
}

/// The reading of the local clock that stands for a minute: the only one, or the first that the
/// calendar gives where the clock shows the minute twice.
pub fn chosen_reading(reading: LocalReading) -> (r: Option<LocalTime>)
    ensures
        r == chosen(reading),
{
    match reading {
        LocalReading::Never => None,
        LocalReading::Once(only) => Some(only),
        LocalReading::Twice(first, _) => Some(first),
    }
}

/// A reading of the local clock that shows `minute`. Whether there is one, and which, is up to the
/// time zone.
pub fn local_datetime(minute: CivilMinute) -> (r: Option<LocalTime>)
    requires
        minute.wf(),
    ensures
        exists|reading: LocalReading| #[trigger]
            reads(reading, minute) && calendar::zone_gave(minute, reading) && r == chosen(reading),
{
    let reading = local_readings(minute);
    proof {
        calendar::law_zone_is_asked(minute, reading);
        assert(reads(reading, minute));
    }
    chosen_reading(reading)
}

/// What a guess becomes that the local clock shows as `reading`.
pub fn settle_by(
    candidate: Candidate,
    reading: LocalReading,
    observed_at: &LocalTime,
    today: CivilDate,
) -> (r: Option<CivilMinute>)
    requires
        candidate.guess().wf(),
        reads(reading, candidate.guess()),
        observed_at.wf(),
        today.wf(),
    ensures
        settles_by(candidate, reading, *observed_at, today, r),
        r matches Some(minute) ==> minute.wf(),
{
    match chosen_reading(reading) {
        Some(initial) => settle(candidate, &initial, observed_at, today),
        None => None,
    }
}

/// When the 5-hour window resets, by a card that was seen at `observed_at`.
pub fn parse_five_hour_reset(status: &str, observed_at: &LocalTime) -> (r: Option<LocalTime>)
    requires
        observed_at.has_date(),
    ensures
        may_reset_at(status@, *observed_at, r),
        r matches Some(t) ==> t.wf(),
{
    let today = local_date(observed_at);
    proof {
        let known = choose|today: CivilDate| observed_at.falls_on(today);
        crate::time::lemma_days_tell_dates_apart(known, today);
    }
    let shown = match find_reset_text(status) {
        Some(shown) => shown,
        None => {
            return None;
        },
    };
    let candidate = match find_candidate(shown.as_str(), today) {
        Some(candidate) => candidate,
        None => {
            return None;
        },
    };
    let guess = match candidate {
        Candidate::Dated(minute) => minute,
        Candidate::Undated(minute) => minute,
    };
    let first = local_readings(guess);
    proof {
        calendar::law_zone_is_asked(guess, first);
    }
    let settled = settle_by(candidate, first, observed_at, today);
    assert(settles_by(candidate, first, *observed_at, today, settled));
    match settled {
        Some(minute) => {
            let reset = local_datetime(minute);
            proof {
                let last = choose|reading: LocalReading| #[trigger]
                    reads(reading, minute) && calendar::zone_gave(minute, reading) && reset == chosen(
                        reading,
                    );
                assert(is_time_of(settled, last, reset));
            }
            reset
        },
        None => {
            assert(is_time_of(settled, LocalReading::Never, None));
            None
        },
    }
}

/// A reset time without a day lies less than a day ahead, and no more than five minutes back, as
/// long as the clock is not put forward or back on the way.
#[verifier::spinoff_prover]
pub proof fn law_undated_reset_is_within_a_day(
    minute: CivilMinute,
    initial: LocalTime,
    observed_at: LocalTime,
    today: CivilDate,
    settled: CivilMinute,
    reset: LocalTime,
)
    requires
        observed_at.wf(),
        observed_at.falls_on(today),
        minute.wf(),
        minute.date == today,
        initial.shows(minute),
        settles_to(Candidate::Undated(minute), initial, observed_at, today, Some(settled)),
        reset.shows(settled),
        initial.offset == observed_at.offset,
        reset.offset == observed_at.offset,
    ensures
        -5 * 60 * 1_000_000_000 <= reset.instant() - observed_at.instant() < 86_400 * 1_000_000_000,
{
    assert(today.days() * 86_400 <= observed_at.local_seconds() < (today.days() + 1) * 86_400);
}

/// A reset time with a day lies within half a year, as long as the clock is not put forward or
/// back on the way.
#[verifier::spinoff_prover]
pub proof fn law_dated_reset_is_within_half_a_year(
    minute: CivilMinute,
    initial: LocalTime,
    observed_at: LocalTime,
    today: CivilDate,
    settled: CivilMinute,
    reset: LocalTime,
)
    requires
        observed_at.wf(),
        observed_at.falls_on(today),
        minute.wf(),
        minute.date.year == today.year,
        initial.shows(minute),
        settles_to(Candidate::Dated(minute), initial, observed_at, today, Some(settled)),
        reset.shows(settled),
        initial.offset == observed_at.offset,
        reset.offset == observed_at.offset,
    ensures
        -184 * 86_400 * 1_000_000_000 <= reset.instant() - observed_at.instant() <= 184 * 86_400
            * 1_000_000_000,
{
    crate::time::lemma_same_year(minute.date, today);
    let ahead = initial.instant() - observed_at.instant();
    if ahead < -183 * 86_400 * 1_000_000_000 {
        crate::time::lemma_next_year(minute.date, settled.date);
    } else if ahead > 183 * 86_400 * 1_000_000_000 {
        crate::time::lemma_next_year(settled.date, minute.date);
    }
    let time = minute.hour * 3600 + minute.minute * 60;
    assert(initial.local_seconds() == minute.date.days() * 86_400 + time);
    assert(reset.local_seconds() == settled.date.days() * 86_400 + time);
    lemma_half_a_year(
        observed_at.local_seconds(),
        observed_at.nanosecond as int,
        today.days(),
        minute.date.days(),
        settled.date.days(),
        time,
    );
}

/// How far a day lies ahead that was moved by a year where it was more than 183 days off: counted
/// in nanoseconds, where the days are counted from 1970.
proof fn lemma_half_a_year(
    now: int,
    nanos: int,
    today: int,
    guessed: int,
    settled: int,
    time: int,
)
    requires
        today == now / 86_400,
        0 <= nanos < 1_000_000_000,
        0 <= time < 86_400,
        -366 < guessed - today < 366,
        ({
            let ahead = (guessed * 86_400 + time - now) * 1_000_000_000 - nanos;
            if ahead < -183 * 86_400 * 1_000_000_000 {
                364 <= settled - guessed <= 367
            } else if ahead > 183 * 86_400 * 1_000_000_000 {
                364 <= guessed - settled <= 367
            } else {
                settled == guessed
            }
        }),
    ensures
        -184 * 86_400 * 1_000_000_000 <= (settled * 86_400 + time - now) * 1_000_000_000 - nanos
            <= 184 * 86_400 * 1_000_000_000,
{
    let off = guessed * 86_400 + time - now;
    assert(-366 * 86_400 < off < 367 * 86_400);
    assert(settled * 86_400 + time - now == off + (settled - guessed) * 86_400);
}

/// The text of the reset time is what stands behind `resets ` in the line of the 5-hour window, up
/// to a closing parenthesis or the edge of the card, without white space at its ends.
pub proof fn law_reset_text_is_found(
    status: &str,
    found: Option<String>,
    row: int,
    before: Seq<char>,
    shown: Seq<char>,
    behind: Seq<char>,
) -> (blanks: (Seq<char>, Seq<char>))
    requires
        call_ensures(find_reset_text, (status,), found),
        0 <= row < text::lines(status@).len(),
        text::contains(text::lines(status@)[row], "5h limit:"@),
        forall|k: int|
            0 <= k < row ==> !text::contains(#[trigger] text::lines(status@)[k], "5h limit:"@),
        text::lines(status@)[row] == before + "resets "@ + shown + behind,
        forall|i: int|
            0 <= i < before.len() ==> !#[trigger] text::occurs_at(
                text::lines(status@)[row],
                "resets "@,
                i,
            ),
        forall|i: int| 0 <= i < shown.len() ==> #[trigger] shown[i] != ')' && shown[i] != '│',
        behind.len() > 0 ==> behind[0] == ')' || behind[0] == '│',
    ensures
        found matches Some(found) && shown == blanks.0 + found@ + blanks.1 && (found@.len() > 0
            ==> !text::is_white_space(found@[0]) && !text::is_white_space(found@.last())),
        forall|i: int| 0 <= i < blanks.0.len() ==> text::is_white_space(#[trigger] blanks.0[i]),
        forall|i: int| 0 <= i < blanks.1.len() ==> text::is_white_space(#[trigger] blanks.1[i]),
{
    let rows = text::lines(status@);
    let line = rows[row];
    text::lemma_first_row_is(rows, "5h limit:"@, row);
    let at = before.len() as int;
    let mark = "resets "@;
    assert(line.subrange(at, at + mark.len()) =~= mark);
    assert(text::occurs_at(line, mark, at));
    text::lemma_find_from(line, mark, 0);
    assert(text::find_from(line, mark, 0) == Some(at));
    let rest = line.skip(at + mark.len());
    assert(rest =~= shown + behind);
    let stop = shown.len() as int;
    assert forall|i: int| 0 <= i < stop implies rest[i] != ')' && rest[i] != '│' by {
        assert(rest[i] == shown[i]);
    }
    if behind.len() > 0 {
        assert(rest[stop] == behind[0]);
    }
    text::lemma_first_index(rest, ')');
    text::lemma_first_index(rest, '│');
    let parenthesis = text::first_index(rest, ')') as int;
    let edge = text::first_index(rest, '│') as int;
    let end = if parenthesis <= edge {
        parenthesis
    } else {
        edge
    };
    assert(end == stop) by {
        if end < stop {
            assert(rest[end] != ')' && rest[end] != '│');
        }
        if behind.len() > 0 && end > stop {
            assert(rest[stop] == ')' || rest[stop] == '│');
        }
    }
    assert(rest.take(end) =~= shown);
    text::law_trimming_takes_white_space(shown)
}

/// There is no text of a reset time where no line is for the 5-hour window, or the first that is does
/// not say when it resets.
pub proof fn law_no_reset_text(status: &str, found: Option<String>, row: int)
    requires
        call_ensures(find_reset_text, (status,), found),
        ({
            let rows = text::lines(status@);
            &&& 0 <= row <= rows.len()
            &&& forall|k: int| 0 <= k < row ==> !text::contains(#[trigger] rows[k], "5h limit:"@)
            &&& row < rows.len() ==> text::contains(rows[row], "5h limit:"@) && !text::contains(
                rows[row],
                "resets "@,
            )
        }),
    ensures
        found is None,
{
    let rows = text::lines(status@);
    if row < rows.len() {
        text::lemma_first_row_is(rows, "5h limit:"@, row);
        text::lemma_find_from(rows[row], "resets "@, 0);
    } else {
        text::lemma_no_row_has(rows, "5h limit:"@);
    }
}

/// A text is read with a day before without, and each time with a clock of 24 hours before one of
/// 12. The year of a day, and the day of a time, are those of the observation.
pub proof fn law_reset_text_is_read(shown: &str, today: CivilDate, read: Option<Candidate>)
    requires
        call_ensures(find_candidate, (shown, today), read),
    ensures
        ({
            let dated = text::signed_decimal(today.year as int) + seq![' '] + shown@;
            let long = calendar::parsed_minute(dated, "%Y %H:%M on %e %b"@);
            let long_half = calendar::parsed_minute(dated, "%Y %I:%M %p on %e %b"@);
            let short = calendar::parsed_time(shown@, "%H:%M"@);
            let short_half = calendar::parsed_time(shown@, "%I:%M %p"@);
            &&& long matches Some(minute) ==> read == Some(Candidate::Dated(minute))
            &&& long is None ==> (long_half matches Some(minute) ==> read == Some(
                Candidate::Dated(minute),
            ))
            &&& long is None && long_half is None ==> (short matches Some(time) ==> read == Some(
                Candidate::Undated(CivilMinute { date: today, hour: time.0, minute: time.1 }),
            ))
            &&& long is None && long_half is None && short is None ==> (
            short_half matches Some(time) ==> read == Some(
                Candidate::Undated(CivilMinute { date: today, hour: time.0, minute: time.1 }),
            ))
            &&& long is None && long_half is None && short is None && short_half is None ==> read
                is None
        }),
{
}

/// A time without a day is one of the day of the observation, or of the next day where it would be
/// more than five minutes past.
pub proof fn law_undated_guess_settles(
    minute: CivilMinute,
    initial: LocalTime,
    observed_at: LocalTime,
    today: CivilDate,
    settled: Option<CivilMinute>,
)
    requires
        call_ensures(settle, (Candidate::Undated(minute), &initial, &observed_at, today), settled),
    ensures
        ({
            let ahead = (initial.seconds - observed_at.seconds) * 1_000_000_000
                + initial.nanosecond - observed_at.nanosecond;
            &&& ahead >= -300 * 1_000_000_000 ==> settled == Some(minute)
            &&& ahead < -300 * 1_000_000_000 ==> match settled {
                Some(next) => next.hour == minute.hour && next.minute == minute.minute
                    && next.date.wf() && next.date.days() == minute.date.days() + 1,
                None => minute.seconds() + 86_400 > crate::time::LAST_SECOND,
            }
        }),
{
}

/// A time with a day is one of the year of the observation, or of the next or the last one where it
/// would be more than 183 days past or ahead. There is none where that year lacks the day.
pub proof fn law_dated_guess_settles(
    minute: CivilMinute,
    initial: LocalTime,
    observed_at: LocalTime,
    today: CivilDate,
    settled: Option<CivilMinute>,
)
    requires
        today.wf(),
        call_ensures(settle, (Candidate::Dated(minute), &initial, &observed_at, today), settled),
    ensures
        ({
            let ahead = (initial.seconds - observed_at.seconds) * 1_000_000_000
                + initial.nanosecond - observed_at.nanosecond;
            let half_a_year = 183 * 86_400 * 1_000_000_000;
            let year = if ahead < -half_a_year {
                today.year + 1
            } else {
                today.year - 1
            };
            &&& -half_a_year <= ahead <= half_a_year ==> settled == Some(minute)
            &&& ahead < -half_a_year || ahead > half_a_year ==> match settled {
                Some(moved) => {
                    &&& moved.date.wf()
                    &&& moved.date.year == year
                    &&& moved.date.month == minute.date.month
                    &&& moved.date.day == minute.date.day
                    &&& moved.hour == minute.hour
                    &&& moved.minute == minute.minute
                },
                None => !(CivilDate { year: year as i32, ..minute.date }).wf(),
            }
        }),
{
}

/// The first time at which the local clock shows a minute stands for it.
pub proof fn law_first_reading_counts(reading: LocalReading, time: Option<LocalTime>)
    requires
        call_ensures(chosen_reading, (reading,), time),
    ensures
        reading is Never <==> time is None,
        reading matches LocalReading::Once(only) ==> time == Some(only),
        reading matches LocalReading::Twice(first, second) ==> time == Some(first),
{
}

/// Whether `time` is the first at which the local clock shows `minute`, as the time zone gave it, and
/// none where it gave none.
pub open spec fn is_zone_time(minute: CivilMinute, time: Option<LocalTime>) -> bool {
    match time {
        Some(t) => calendar::zone_gave(minute, LocalReading::Once(t)) || exists|later: LocalTime|
            #[trigger] calendar::zone_gave(minute, LocalReading::Twice(t, later)),
        None => calendar::zone_gave(minute, LocalReading::Never),
    }
}

/// The local time of a minute is what the time zone gives for it.
pub proof fn law_local_time_is_that_of_the_zone(minute: CivilMinute, time: Option<LocalTime>)
    requires
        call_ensures(local_datetime, (minute,), time),
    ensures
        is_zone_time(minute, time),
        time matches Some(t) ==> t.shows(minute),
{
    let reading = choose|reading: LocalReading| #[trigger]
        reads(reading, minute) && calendar::zone_gave(minute, reading) && time == chosen(reading);
    assert(calendar::zone_gave(minute, reading));
}

/// Where a card gives a reset time, it is what the time zone gives for some minute.
pub proof fn law_reset_time_is_that_of_the_zone(
    status: &str,
    observed_at: LocalTime,
    reset: Option<LocalTime>,
)
    requires
        call_ensures(parse_five_hour_reset, (status, &observed_at), reset),
    ensures
        reset matches Some(t) ==> exists|minute: CivilMinute| #[trigger]
            is_zone_time(minute, Some(t)) && t.shows(minute),
{
    if let Some(t) = reset {
        let candidate = reset_candidate(status@, observed_at)->0;
        let (first, today, settled, last) = choose|
            first: LocalReading,
            today: CivilDate,
            settled: Option<CivilMinute>,
            last: LocalReading,
        |
            {
                &&& calendar::zone_gave(candidate.guess(), first)
                &&& reads(first, candidate.guess())
                &&& observed_at.falls_on(today)
                &&& #[trigger] settles_by(candidate, first, observed_at, today, settled)
                &&& #[trigger] is_time_of(settled, last, reset)
            };
        assert(calendar::zone_gave(settled->0, last));
        assert(is_zone_time(settled->0, Some(t)));
    }
}

/// The reset time of a card is what the time zone gives for the settled guess, and the guess is
/// settled by what the time zone gives for it. There is none only where the time zone does not show
/// the one or the other, or the day that the guess moves to does not exist.
pub proof fn law_reset_time_is_settled_by_the_zone(
    status: &str,
    observed_at: LocalTime,
    shown: String,
    shown_text: &str,
    today: CivilDate,
    candidate: Candidate,
    reset: Option<LocalTime>,
) -> (steps: (Option<LocalTime>, Option<CivilMinute>))
    requires
        call_ensures(parse_five_hour_reset, (status, &observed_at), reset),
        call_ensures(find_reset_text, (status,), Some(shown)),
        shown_text@ == shown@,
        call_ensures(find_candidate, (shown_text, today), Some(candidate)),
        observed_at.falls_on(today),
    ensures
        match candidate {
            Candidate::Dated(minute) => is_zone_time(minute, steps.0),
            Candidate::Undated(minute) => is_zone_time(minute, steps.0),
        },
        match steps.0 {
            Some(initial) => {
                let ahead = (initial.seconds - observed_at.seconds) * 1_000_000_000
                    + initial.nanosecond - observed_at.nanosecond;
                match candidate {
                    Candidate::Dated(minute) => if ahead < -183 * 86_400 * 1_000_000_000 {
                        steps.1 == calendar::in_year(minute, (today.year + 1) as i32)
                    } else if ahead > 183 * 86_400 * 1_000_000_000 {
                        steps.1 == calendar::in_year(minute, (today.year - 1) as i32)
                    } else {
                        steps.1 == Some(minute)
                    },
                    Candidate::Undated(minute) => if ahead < -300 * 1_000_000_000 {
                        match steps.1 {
                            Some(next) => next.wf() && next.seconds() == minute.seconds() + 86_400,
                            None => minute.seconds() + 86_400 > crate::time::LAST_SECOND,
                        }
                    } else {
                        steps.1 == Some(minute)
                    },
                }
            },
            None => steps.1 is None,
        },
        match steps.1 {
            Some(minute) => is_zone_time(minute, reset),
            None => reset is None,
        },
{
    let known = choose|today: CivilDate| observed_at.falls_on(today);
    crate::time::lemma_days_tell_dates_apart(known, today);
    let (first, day, settled, last) = choose|
        first: LocalReading,
        day: CivilDate,
        settled: Option<CivilMinute>,
        last: LocalReading,
    |
        {
            &&& calendar::zone_gave(candidate.guess(), first)
            &&& reads(first, candidate.guess())
            &&& observed_at.falls_on(day)
            &&& #[trigger] settles_by(candidate, first, observed_at, day, settled)
            &&& #[trigger] is_time_of(settled, last, reset)
        };
    crate::time::lemma_days_tell_dates_apart(day, today);
    (chosen(first), settled)
}

/// Whether the local clock is always `offset` seconds ahead of universal time.
pub open spec fn zone_has_one_offset(offset: i32) -> bool {
    forall|minute: CivilMinute, reading: LocalReading| #[trigger]
        calendar::zone_gave(minute, reading) ==> reading is Once && reading->Once_0.offset == offset
}

/// The steps from a card to its reset time, where the clock is always equally far ahead.
proof fn lemma_reset_by_one_offset(
    status: &str,
    observed_at: LocalTime,
    shown: String,
    shown_text: &str,
    today: CivilDate,
    candidate: Candidate,
    reset: Option<LocalTime>,
) -> (steps: (LocalTime, Option<CivilMinute>))
    requires
        call_ensures(parse_five_hour_reset, (status, &observed_at), reset),
        call_ensures(find_reset_text, (status,), Some(shown)),
        shown_text@ == shown@,
        call_ensures(find_candidate, (shown_text, today), Some(candidate)),
        observed_at.falls_on(today),
        zone_has_one_offset(observed_at.offset),
    ensures
        steps.0.shows(candidate.guess()),
        steps.0.offset == observed_at.offset,
        settles_to(candidate, steps.0, observed_at, today, steps.1),
        match steps.1 {
            Some(minute) => reset matches Some(t) && t.shows(minute) && t.offset
                == observed_at.offset,
            None => reset is None,
        },
{
    let known = choose|today: CivilDate| observed_at.falls_on(today);
    crate::time::lemma_days_tell_dates_apart(known, today);
    let (first, day, settled, last) = choose|
        first: LocalReading,
        day: CivilDate,
        settled: Option<CivilMinute>,
        last: LocalReading,
    |
        {
            &&& calendar::zone_gave(candidate.guess(), first)
            &&& reads(first, candidate.guess())
            &&& observed_at.falls_on(day)
            &&& #[trigger] settles_by(candidate, first, observed_at, day, settled)
            &&& #[trigger] is_time_of(settled, last, reset)
        };
    crate::time::lemma_days_tell_dates_apart(day, today);
    assert(first is Once);
    (first->Once_0, settled)
}

/// Where the clock is always equally far ahead, a card with a time but no day gives a reset at that
/// time of the day of the observation, or of the next day where that would be more than five minutes
/// past. It is found as long as the calendar covers that day.
pub proof fn law_undated_reset_time(
    status: &str,
    observed_at: LocalTime,
    shown: String,
    shown_text: &str,
    today: CivilDate,
    minute: CivilMinute,
    reset: Option<LocalTime>,
)
    requires
        call_ensures(parse_five_hour_reset, (status, &observed_at), reset),
        call_ensures(find_reset_text, (status,), Some(shown)),
        shown_text@ == shown@,
        call_ensures(find_candidate, (shown_text, today), Some(Candidate::Undated(minute))),
        observed_at.falls_on(today),
        zone_has_one_offset(observed_at.offset),
    ensures
        ({
            let now = observed_at.seconds * 1_000_000_000 + observed_at.nanosecond;
            let due = (today.days() * 86_400 + minute.hour * 3600 + minute.minute * 60
                - observed_at.offset) * 1_000_000_000;
            let day = 86_400 * 1_000_000_000;
            &&& due >= now - 300 * 1_000_000_000 ==> (reset matches Some(t) && t.offset
                == observed_at.offset && t.seconds * 1_000_000_000 + t.nanosecond == due)
            &&& due < now - 300 * 1_000_000_000 ==> match reset {
                Some(t) => t.offset == observed_at.offset && t.seconds * 1_000_000_000
                    + t.nanosecond == due + day,
                None => minute.seconds() + 86_400 > crate::time::LAST_SECOND,
            }
        }),
{
    let (initial, settled) = lemma_reset_by_one_offset(
        status,
        observed_at,
        shown,
        shown_text,
        today,
        Candidate::Undated(minute),
        reset,
    );
    assert(minute.date == today);
    assert(initial.seconds == minute.seconds() - observed_at.offset);
}

/// Where the clock is always equally far ahead, a card with a day gives a reset at that time of that
/// day in the year of the observation, as long as that is no more than 183 days off.
pub proof fn law_dated_reset_time(
    status: &str,
    observed_at: LocalTime,
    shown: String,
    shown_text: &str,
    today: CivilDate,
    minute: CivilMinute,
    reset: Option<LocalTime>,
)
    requires
        call_ensures(parse_five_hour_reset, (status, &observed_at), reset),
        call_ensures(find_reset_text, (status,), Some(shown)),
        shown_text@ == shown@,
        call_ensures(find_candidate, (shown_text, today), Some(Candidate::Dated(minute))),
        observed_at.falls_on(today),
        zone_has_one_offset(observed_at.offset),
    ensures
        ({
            let now = observed_at.seconds * 1_000_000_000 + observed_at.nanosecond;
            let due = (minute.date.days() * 86_400 + minute.hour * 3600 + minute.minute * 60
                - observed_at.offset) * 1_000_000_000;
            let half_a_year = 183 * 86_400 * 1_000_000_000;
            let year = if due < now - half_a_year {
                today.year + 1
            } else {
                today.year - 1
            };
            let moved = CivilDate { year: year as i32, ..minute.date };
            &&& now - half_a_year <= due <= now + half_a_year ==> (reset matches Some(t) && t.offset
                == observed_at.offset && t.seconds * 1_000_000_000 + t.nanosecond == due)
            &&& due < now - half_a_year || due > now + half_a_year ==> {
                &&& reset is Some <==> moved.wf()
                &&& reset matches Some(t) ==> t.offset == observed_at.offset && t.nanosecond == 0
                    && t.seconds + t.offset == moved.days() * 86_400 + minute.hour * 3600
                    + minute.minute * 60
            }
        }),
{
    let (initial, settled) = lemma_reset_by_one_offset(
        status,
        observed_at,
        shown,
        shown_text,
        today,
        Candidate::Dated(minute),
        reset,
    );
    assert(initial.seconds == minute.seconds() - observed_at.offset);
}

/// A card that gives no time, or one that cannot be read, has no reset time.
pub proof fn law_no_reset_time(
    status: &str,
    observed_at: LocalTime,
    shown: Option<String>,
    shown_text: &str,
    today: CivilDate,
    reset: Option<LocalTime>,
)
    requires
        call_ensures(parse_five_hour_reset, (status, &observed_at), reset),
        call_ensures(find_reset_text, (status,), shown),
        observed_at.falls_on(today),
        shown is None || (shown_text@ == shown->0@ && call_ensures(
            find_candidate,
            (shown_text, today),
            None::<Candidate>,
        )),
    ensures
        reset is None,
{
    let known = choose|today: CivilDate| observed_at.falls_on(today);
    crate::time::lemma_days_tell_dates_apart(known, today);
}

} // verus!

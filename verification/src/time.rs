//! Lengths of time, readings of the monotonic clock, and readings of the local wall clock.

use vstd::prelude::*;

verus! {

/// A length of time.
#[derive(Debug, Clone, Copy, PartialEq, Eq, Structural)]
pub struct Span {
    pub nanos: u128,
}

impl Span {
    /// The length of `seconds` seconds.
    pub fn from_secs(seconds: u64) -> (r: Span)
        ensures
            r.nanos == seconds * 1_000_000_000,
    {
        assert(seconds * 1_000_000_000 <= u64::MAX * 1_000_000_000);
        Span { nanos: seconds as u128 * 1_000_000_000 }
    }

    /// The length of `millis` milliseconds.
    pub fn from_millis(millis: u64) -> (r: Span)
        ensures
            r.nanos == millis * 1_000_000,
    {
        assert(millis * 1_000_000 <= u64::MAX * 1_000_000);
        Span { nanos: millis as u128 * 1_000_000 }
    }
}

/// A reading of the monotonic clock: the time since some fixed moment.
#[derive(Debug, Clone, Copy, PartialEq, Eq, Structural)]
pub struct Moment {
    pub nanos: u128,
}

impl Moment {
    /// The time from `earlier` to this reading; none where `earlier` is the later one.
    pub fn since(self, earlier: Moment) -> (r: Span)
        ensures
            r.nanos == (if earlier.nanos <= self.nanos {
                self.nanos - earlier.nanos
            } else {
                0
            }),
    {
        if earlier.nanos <= self.nanos {
            Span { nanos: self.nanos - earlier.nanos }
        } else {
            Span { nanos: 0 }
        }
    }
}

/// The first second that the calendar covers, counted from the start of 1970.
pub const FIRST_SECOND: i64 = -8_334_601_228_800;

/// The last second that the calendar covers, counted from the start of 1970.
pub const LAST_SECOND: i64 = 8_210_266_876_799;

/// A reading of the local wall clock.
#[derive(Debug, Clone, Copy, PartialEq, Eq, Structural)]
pub struct LocalTime {
    /// The seconds since the start of 1970 in universal time.
    pub seconds: i64,
    /// The nanoseconds since the last full second.
    pub nanosecond: u32,
    /// The seconds by which local time is ahead of universal time.
    pub offset: i32,
}

impl LocalTime {
    /// Whether the calendar covers the reading, and its parts are in range.
    pub open spec fn wf(self) -> bool {
        &&& FIRST_SECOND <= self.seconds <= LAST_SECOND
        &&& self.nanosecond < 1_000_000_000
        &&& -86_400 < self.offset < 86_400
    }

    /// The instant of the reading, in nanoseconds since the start of 1970 in universal time.
    pub open spec fn instant(self) -> int {
        self.seconds * 1_000_000_000 + self.nanosecond
    }

    /// The seconds since the start of 1970 on the local clock.
    pub open spec fn local_seconds(self) -> int {
        self.seconds + self.offset
    }

    /// The minute of the hour on the local clock.
    pub open spec fn minute(self) -> int {
        self.local_seconds() % 3600 / 60
    }

    /// The second of the minute on the local clock.
    pub open spec fn second(self) -> int {
        self.local_seconds() % 60
    }

    /// The instant of the reading, in nanoseconds since the start of 1970 in universal time.
    pub fn nanos(&self) -> (r: i128)
        requires
            self.wf(),
        ensures
            r == self.instant(),
    {
        self.seconds as i128 * 1_000_000_000 + self.nanosecond as i128
    }

    /// The time from `earlier` to this reading, in nanoseconds; negative where `earlier` is the
    /// later one.
    pub fn nanos_since(&self, earlier: &LocalTime) -> (r: i128)
        requires
            self.wf(),
            earlier.wf(),
        ensures
            r == self.instant() - earlier.instant(),
    {
        self.nanos() - earlier.nanos()
    }
}

/// A day of the calendar.
#[derive(Debug, Clone, Copy, PartialEq, Eq, Structural)]
pub struct CivilDate {
    pub year: i32,
    pub month: u32,
    pub day: u32,
}

/// Whether `year` has a 29th of February.
pub open spec fn is_leap(year: int) -> bool {
    year % 4 == 0 && (year % 100 != 0 || year % 400 == 0)
}

/// The number of days in a month.
pub open spec fn days_in_month(year: int, month: int) -> int {
    if month == 2 {
        if is_leap(year) {
            29
        } else {
            28
        }
    } else if month == 4 || month == 6 || month == 9 || month == 11 {
        30
    } else {
        31
    }
}

/// The number of days in the months of `year` before `month`.
pub open spec fn days_before_month(year: int, month: int) -> int
    decreases month,
{
    if month <= 1 {
        0
    } else {
        days_before_month(year, month - 1) + days_in_month(year, month - 1)
    }
}

/// The number of days from the start of the year 1 to the start of `year`.
#[verifier::opaque]
pub open spec fn days_before_year(year: int) -> int {
    365 * (year - 1) + (year - 1) / 4 - (year - 1) / 100 + (year - 1) / 400
}

impl CivilDate {
    /// Whether the day exists, and the calendar covers it.
    pub open spec fn wf(self) -> bool {
        &&& -262_143 <= self.year <= 262_142
        &&& 1 <= self.month <= 12
        &&& 1 <= self.day <= days_in_month(self.year as int, self.month as int)
    }

    /// The number of days from the start of 1970 to this day.
    pub open spec fn days(self) -> int {
        days_before_year(self.year as int) + days_before_month(self.year as int, self.month as int)
            + self.day - 1 - 719_162
    }
}

/// A minute of the calendar.
#[derive(Debug, Clone, Copy, PartialEq, Eq, Structural)]
pub struct CivilMinute {
    pub date: CivilDate,
    pub hour: u32,
    pub minute: u32,
}

impl CivilMinute {
    /// Whether the minute exists, and the calendar covers it.
    pub open spec fn wf(self) -> bool {
        self.date.wf() && self.hour < 24 && self.minute < 60
    }

    /// The seconds from the start of 1970 to the start of the minute, on the clock that shows
    /// it.
    pub open spec fn seconds(self) -> int {
        self.date.days() * 86_400 + self.hour * 3600 + self.minute * 60
    }
}

impl LocalTime {
    /// Whether the reading is the start of `minute` on the local clock.
    pub open spec fn shows(self, minute: CivilMinute) -> bool {
        self.wf() && self.nanosecond == 0 && self.local_seconds() == minute.seconds()
    }

    /// Whether `date` is the day of the reading on the local clock.
    pub open spec fn falls_on(self, date: CivilDate) -> bool {
        date.wf() && date.days() == self.local_seconds() / 86_400
    }

    /// Whether the calendar covers the day of the reading on the local clock.
    pub open spec fn has_date(self) -> bool {
        self.wf() && FIRST_SECOND <= self.local_seconds() <= LAST_SECOND
    }

    /// Whether the calendar covers the reading, and its day on the local clock.
    pub fn is_dated(&self) -> (r: bool)
        ensures
            r == self.has_date(),
    {
        if self.seconds < FIRST_SECOND || self.seconds > LAST_SECOND || self.nanosecond
            >= 1_000_000_000 || self.offset <= -86_400 || self.offset >= 86_400 {
            return false;
        }
        let local: i64 = self.seconds + self.offset as i64;
        FIRST_SECOND <= local && local <= LAST_SECOND
    }
}

proof fn lemma_month_starts(year: int, month: int, later: int)
    requires
        1 <= month < later <= 12,
    ensures
        days_before_month(year, month) + days_in_month(year, month) <= days_before_month(
            year,
            later,
        ),
    decreases later,
{
    if month + 1 < later {
        lemma_month_starts(year, month, later - 1);
    }
}

#[verifier::spinoff_prover]
proof fn lemma_year_holds_day(date: CivilDate)
    requires
        date.wf(),
    ensures
        days_before_year(date.year as int) <= date.days() + 719_162 < days_before_year(
            date.year + 1,
        ),
{
    let year = date.year as int;
    reveal(days_before_year);
    reveal_with_fuel(days_before_month, 13);
    assert(days_before_month(year, 12) + 31 == (if is_leap(year) {
        366int
    } else {
        365int
    }));
    assert(days_before_month(year, date.month as int) >= 0);
    if date.month < 12 {
        lemma_month_starts(year, date.month as int, 12);
    }
    assert(days_before_year(year + 1) - days_before_year(year) == (if is_leap(year) {
        366int
    } else {
        365int
    }));
}

proof fn lemma_years_ordered(year: int, later: int)
    requires
        year <= later,
    ensures
        days_before_year(year) <= days_before_year(later),
    decreases later - year,
{
    if year < later {
        reveal(days_before_year);
        lemma_years_ordered(year, later - 1);
    }
}

/// Two days of the same year are less than 366 days apart.
pub proof fn lemma_same_year(a: CivilDate, b: CivilDate)
    requires
        a.wf(),
        b.wf(),
        a.year == b.year,
    ensures
        -366 < a.days() - b.days() < 366,
{
    reveal(days_before_year);
    lemma_year_holds_day(a);
    lemma_year_holds_day(b);
}

/// The same day of the next year is a year away.
#[verifier::spinoff_prover]
pub proof fn lemma_next_year(date: CivilDate, next: CivilDate)
    requires
        date.wf(),
        next.wf(),
        next.year == date.year + 1,
        next.month == date.month,
        next.day == date.day,
    ensures
        364 <= next.days() - date.days() <= 367,
{
    let year = date.year as int;
    let month = date.month as int;
    reveal(days_before_year);
    reveal_with_fuel(days_before_month, 13);
    assert(-1 <= days_before_month(year + 1, month) - days_before_month(year, month) <= 1);
    assert(365 <= days_before_year(year + 1) - days_before_year(year) <= 366);
}

/// Two days of the calendar that are equally far from the start of 1970 are the same.
pub proof fn lemma_days_tell_dates_apart(a: CivilDate, b: CivilDate)
    requires
        a.wf(),
        b.wf(),
        a.days() == b.days(),
    ensures
        a == b,
{
    lemma_year_holds_day(a);
    lemma_year_holds_day(b);
    if a.year < b.year {
        lemma_years_ordered(a.year + 1, b.year as int);
    } else if b.year < a.year {
        lemma_years_ordered(b.year + 1, a.year as int);
    } else if a.month < b.month {
        lemma_month_starts(a.year as int, a.month as int, b.month as int);
    } else if b.month < a.month {
        lemma_month_starts(a.year as int, b.month as int, a.month as int);
    }
}

/// The calendar's days lie between its first and its last second.
pub proof fn lemma_minutes_are_covered(minute: CivilMinute)
    requires
        minute.wf(),
    ensures
        FIRST_SECOND <= minute.seconds() <= LAST_SECOND,
{
    reveal(days_before_year);
    lemma_year_holds_day(minute.date);
    lemma_years_ordered(-262_143, minute.date.year as int);
    lemma_years_ordered(minute.date.year + 1, 262_143);
}

/// Lengths of time in seconds and in milliseconds.
pub proof fn law_lengths_of_time(seconds: u64, a: Span, millis: u64, b: Span)
    requires
        call_ensures(Span::from_secs, (seconds,), a),
        call_ensures(Span::from_millis, (millis,), b),
    ensures
        a.nanos == 1_000_000_000 * seconds,
        b.nanos == 1_000_000 * millis,
{
}

/// The time between two readings leads from the earlier to the later one, and there is none where
/// they come the other way round.
pub proof fn law_time_between_readings(later: Moment, earlier: Moment, passed: Span)
    requires
        call_ensures(Moment::since, (later, earlier), passed),
    ensures
        earlier.nanos <= later.nanos ==> earlier.nanos + passed.nanos == later.nanos,
        earlier.nanos >= later.nanos ==> passed.nanos == 0,
{
}

/// The instant of a reading does not depend on the time zone, and the time between two is counted in
/// nanoseconds.
pub proof fn law_instants(t: LocalTime, earlier: LocalTime, nanos: i128)
    requires
        call_ensures(LocalTime::nanos_since, (&t, &earlier), nanos),
    ensures
        nanos == (t.seconds - earlier.seconds) * 1_000_000_000 + t.nanosecond - earlier.nanosecond,
        t.instant() == t.seconds * 1_000_000_000 + t.nanosecond,
{
}

/// The local clock shows the seconds of universal time and the offset, as hours, minutes and seconds.
#[verifier::spinoff_prover]
pub proof fn law_local_clock(t: LocalTime) -> (hours: int)
    ensures
        t.seconds + t.offset == 3600 * hours + 60 * t.minute() + t.second(),
        0 <= t.minute() < 60,
        0 <= t.second() < 60,
{
    let local = t.local_seconds();
    let hours = local / 3600;
    let within = local % 3600;
    vstd::arithmetic::div_mod::lemma_fundamental_div_mod(local, 3600);
    assert(within / 60 * 60 + within % 60 == within);
    assert(local % 60 == within % 60) by {
        vstd::arithmetic::div_mod::lemma_mod_mod(local, 60, 60);
    }
    hours
}

/// A reading shows a minute at its very start on the local clock, and falls on the day that the local
/// clock shows.
pub proof fn law_shown_minutes(t: LocalTime, minute: CivilMinute, date: CivilDate)
    ensures
        t.shows(minute) ==> t.nanosecond == 0 && t.seconds + t.offset == 86_400
            * minute.date.days() + 3600 * minute.hour + 60 * minute.minute,
        t.falls_on(date) ==> 86_400 * date.days() <= t.seconds + t.offset < 86_400 * date.days()
            + 86_400,
{
}

/// Days are counted from the first of January 1970, one after the other: within a month, from the end
/// of a month to the next, and from the end of a year to the next.
#[verifier::spinoff_prover]
pub proof fn law_days_are_counted(year: int, month: int, day: int)
    requires
        -262_143 <= year < 262_142,
        1 <= month <= 12,
        1 <= day <= days_in_month(year, month),
    ensures
        (CivilDate { year: 1970, month: 1, day: 1 }).days() == 0,
        ({
            let date = CivilDate { year: year as i32, month: month as u32, day: day as u32 };
            let next = CivilDate { day: (day + 1) as u32, ..date };
            let month_start = CivilDate { month: (month + 1) as u32, day: 1, ..date };
            let year_start = CivilDate { year: (year + 1) as i32, month: 1, day: 1 };
            &&& day < days_in_month(year, month) ==> next.days() == date.days() + 1
            &&& day == days_in_month(year, month) && month < 12 ==> month_start.days() == date.days()
                + 1
            &&& day == 31 && month == 12 ==> year_start.days() == date.days() + 1
        }),
{
    reveal(days_before_year);
    reveal_with_fuel(days_before_month, 13);
    if day == 31 && month == 12 {
        let date = CivilDate { year: year as i32, month: 12, day: 31 };
        lemma_year_holds_day(date);
        assert(days_before_month(year, 12) + 31 == (if is_leap(year) {
            366int
        } else {
            365int
        }));
        assert(days_before_year(year + 1) - days_before_year(year) == (if is_leap(year) {
            366int
        } else {
            365int
        }));
    }
}

/// The lengths of the months. February has a day more in a year that four divides, unless a hundred
/// does and four hundred does not.
pub proof fn law_lengths_of_months(year: int)
    ensures
        days_in_month(year, 1) == 31,
        days_in_month(year, 2) == (if year % 4 != 0 || (year % 100 == 0 && year % 400 != 0) {
            28int
        } else {
            29int
        }),
        days_in_month(year, 3) == 31,
        days_in_month(year, 4) == 30,
        days_in_month(year, 5) == 31,
        days_in_month(year, 6) == 30,
        days_in_month(year, 7) == 31,
        days_in_month(year, 8) == 31,
        days_in_month(year, 9) == 30,
        days_in_month(year, 10) == 31,
        days_in_month(year, 11) == 30,
        days_in_month(year, 12) == 31,
{
}

/// The readings that the calendar covers, and those whose day on the local clock it covers too.
pub proof fn law_covered_readings(t: LocalTime, dated: bool)
    requires
        call_ensures(LocalTime::is_dated, (&t,), dated),
    ensures
        t.wf() <==> -8_334_601_228_800 <= t.seconds <= 8_210_266_876_799 && t.nanosecond
            < 1_000_000_000 && -86_400 < t.offset < 86_400,
        dated <==> t.wf() && -8_334_601_228_800 <= t.seconds + t.offset <= 8_210_266_876_799,
        dated <==> t.has_date(),
{
}

} // verus!

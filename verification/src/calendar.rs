//! Calendar dates, timestamps and the platform's daily cutoff.
//!
//! A business day does not end at midnight: it ends at a fixed hour of the
//! UTC clock. A timestamp at or after that hour belongs to the next calendar
//! date's bucket.

use vstd::prelude::*;

verus! {

/// The smallest year a [`Date`] can hold.
pub const MIN_YEAR: i32 = -9999;

/// The largest year a [`Date`] can hold.
pub const MAX_YEAR: i32 = 9999;

/// The hour of the UTC clock at which a business day ends.
pub const CUTOFF_HOUR: u8 = 3;

/// Whether `year` is a leap year of the proleptic Gregorian calendar.
pub open spec fn is_leap_year(year: int) -> bool {
    year % 4 == 0 && (year % 100 != 0 || year % 400 == 0)
}

/// The number of days of `month` (1 to 12) in `year`; 0 for any other month.
pub open spec fn days_in_month(year: int, month: int) -> int {
    if month == 2 {
        if is_leap_year(year) {
            29
        } else {
            28
        }
    } else if month == 4 || month == 6 || month == 9 || month == 11 {
        30
    } else if 1 <= month <= 12 {
        31
    } else {
        0
    }
}

/// Whether year, month and day name a calendar date that a [`Date`] can hold.
pub open spec fn valid_ymd(year: int, month: int, day: int) -> bool {
    &&& MIN_YEAR <= year <= MAX_YEAR
    &&& 1 <= month <= 12
    &&& 1 <= day <= days_in_month(year, month)
}

/// Whether the date `(y1, m1, d1)` lies before `(y2, m2, d2)`.
pub open spec fn ymd_before(y1: int, m1: int, d1: int, y2: int, m2: int, d2: int) -> bool {
    y1 < y2 || (y1 == y2 && (m1 < m2 || (m1 == m2 && d1 < d2)))
}

/// Leap-year test on machine integers.
pub fn leap_year(year: i32) -> (r: bool)
    ensures
        r == is_leap_year(year as int),
{
    year % 4 == 0 && (year % 100 != 0 || year % 400 == 0)
}

/// The number of days of a month, on machine integers.
pub fn month_length(year: i32, month: u8) -> (r: u8)
    ensures
        r == days_in_month(year as int, month as int),
{
    if month == 2 {
        if leap_year(year) {
            29
        } else {
            28
        }
    } else if month == 4 || month == 6 || month == 9 || month == 11 {
        30
    } else if 1 <= month && month <= 12 {
        31
    } else {
        0
    }
}

/// A date of the proleptic Gregorian calendar, from 1 January of
/// [`MIN_YEAR`] to 31 December of [`MAX_YEAR`].
#[derive(Clone, Copy, Debug, PartialEq, Eq, Structural, Hash)]
pub struct Date {
    year: i32,
    month: u8,
    day: u8,
}

impl Date {
    #[verifier::type_invariant]
    spec fn well_formed(self) -> bool {
        valid_ymd(self.year as int, self.month as int, self.day as int)
    }

    /// The year.
    pub closed spec fn year(self) -> int {
        self.year as int
    }

    /// The month, 1 for January to 12 for December.
    pub closed spec fn month(self) -> int {
        self.month as int
    }

    /// The day of the month, from 1.
    pub closed spec fn day(self) -> int {
        self.day as int
    }

    /// Whether the three components name a calendar date. Every date that
    /// executable code holds is valid; a date quantified over in a
    /// specification has to be assumed so.
    pub open spec fn is_valid(self) -> bool {
        valid_ymd(self.year(), self.month(), self.day())
    }

    /// Whether `self` lies before `other`.
    pub open spec fn before(self, other: Date) -> bool {
        ymd_before(self.year(), self.month(), self.day(), other.year(), other.month(), other.day())
    }

    /// Whether `self` is `other` or lies before it.
    pub open spec fn not_after(self, other: Date) -> bool {
        self == other || self.before(other)
    }

    /// Whether both dates lie in the same month of the same year.
    pub open spec fn same_month(self, other: Date) -> bool {
        self.year() == other.year() && self.month() == other.month()
    }

    /// Whether a calendar date follows `self`.
    pub open spec fn has_next(self) -> bool {
        !(self.year() == MAX_YEAR && self.month() == 12 && self.day() == 31)
    }

    /// Whether a calendar date precedes `self`.
    pub open spec fn has_previous(self) -> bool {
        !(self.year() == MIN_YEAR && self.month() == 1 && self.day() == 1)
    }

    /// The date with the given components.
    pub closed spec fn of(year: int, month: int, day: int) -> Date {
        Date { year: year as i32, month: month as u8, day: day as u8 }
    }

    /// The calendar date that follows `self`.
    pub open spec fn next(self) -> Date {
        if self.day() < days_in_month(self.year(), self.month()) {
            Date::of(self.year(), self.month(), self.day() + 1)
        } else if self.month() < 12 {
            Date::of(self.year(), self.month() + 1, 1)
        } else {
            Date::of(self.year() + 1, 1, 1)
        }
    }

    /// The calendar date that precedes `self`.
    pub open spec fn previous(self) -> Date {
        if self.day() > 1 {
            Date::of(self.year(), self.month(), self.day() - 1)
        } else if self.month() > 1 {
            Date::of(self.year(), self.month() - 1, days_in_month(self.year(), self.month() - 1))
        } else {
            Date::of(self.year() - 1, 12, 31)
        }
    }

    /// The first day of the month of `self`.
    pub open spec fn month_start(self) -> Date {
        Date::of(self.year(), self.month(), 1)
    }

    /// The date `days` days after `self`.
    pub open spec fn plus_days(self, days: nat) -> Date
        decreases days,
    {
        if days == 0 {
            self
        } else {
            self.plus_days((days - 1) as nat).next()
        }
    }

    /// The components of a date built by [`Date::of`] are the ones given.
    pub broadcast proof fn lemma_of_components(year: int, month: int, day: int)
        requires
            valid_ymd(year, month, day),
        ensures
            (#[trigger] Date::of(year, month, day)).year() == year,
            Date::of(year, month, day).month() == month,
            Date::of(year, month, day).day() == day,
    {
    }

    /// Two dates with the same components are the same date.
    pub proof fn lemma_same_components(self, other: Date)
        requires
            self.year() == other.year(),
            self.month() == other.month(),
            self.day() == other.day(),
        ensures
            self == other,
    {
    }

    /// Builds a date from its components; `None` where they name no
    /// calendar date between the two bounds.
    pub fn from_calendar_date(year: i32, month: u8, day: u8) -> (r: Option<Date>)
        ensures
            r is Some <==> valid_ymd(year as int, month as int, day as int),
            r matches Some(d) ==> d == Date::of(year as int, month as int, day as int)
                && d.year() == year && d.month() == month && d.day() == day,
    {
        if MIN_YEAR <= year && year <= MAX_YEAR && 1 <= month && month <= 12 && 1 <= day && day
            <= month_length(year, month) {
            Some(Date { year, month, day })
        } else {
            None
        }
    }

    /// The year.
    pub fn get_year(&self) -> (r: i32)
        ensures
            r == self.year(),
            MIN_YEAR <= r <= MAX_YEAR,
    {
        proof {
            use_type_invariant(self);
        }
        self.year
    }

    /// The month, 1 for January to 12 for December.
    pub fn get_month(&self) -> (r: u8)
        ensures
            r == self.month(),
            1 <= r <= 12,
    {
        proof {
            use_type_invariant(self);
        }
        self.month
    }

    /// The day of the month, from 1.
    pub fn get_day(&self) -> (r: u8)
        ensures
            r == self.day(),
            1 <= r <= days_in_month(self.year(), self.month()),
            self.is_valid(),
    {
        proof {
            use_type_invariant(self);
        }
        self.day
    }

    /// Whether `self` lies before `other`.
    pub fn is_before(&self, other: &Date) -> (r: bool)
        ensures
            r == self.before(*other),
            self.is_valid(),
            other.is_valid(),
    {
        proof {
            use_type_invariant(self);
            use_type_invariant(other);
        }
        self.year < other.year || (self.year == other.year && (self.month < other.month || (
        self.month == other.month && self.day < other.day)))
    }

    /// Whether `self` is `other` or lies after it.
    pub fn is_on_or_after(&self, other: &Date) -> (r: bool)
        ensures
            r == !self.before(*other),
            r == other.not_after(*self),
    {
        !self.is_before(other)
    }

    /// The following calendar date; `None` on the last date there is.
    pub fn next_day(&self) -> (r: Option<Date>)
        ensures
            self.is_valid(),
            r is Some <==> self.has_next(),
            r matches Some(d) ==> d == self.next() && d.is_valid(),
    {
        proof {
            use_type_invariant(self);
        }
        if self.day < month_length(self.year, self.month) {
            Some(Date { year: self.year, month: self.month, day: self.day + 1 })
        } else if self.month < 12 {
            Some(Date { year: self.year, month: self.month + 1, day: 1 })
        } else if self.year < MAX_YEAR {
            Some(Date { year: self.year + 1, month: 1, day: 1 })
        } else {
            None
        }
    }

    /// The preceding calendar date; `None` on the first date there is.
    pub fn previous_day(&self) -> (r: Option<Date>)
        ensures
            self.is_valid(),
            r is Some <==> self.has_previous(),
            r matches Some(d) ==> d == self.previous() && d.is_valid(),
    {
        proof {
            use_type_invariant(self);
        }
        if self.day > 1 {
            Some(Date { year: self.year, month: self.month, day: self.day - 1 })
        } else if self.month > 1 {
            let month: u8 = self.month - 1;
            Some(Date { year: self.year, month, day: month_length(self.year, month) })
        } else if self.year > MIN_YEAR {
            Some(Date { year: self.year - 1, month: 12, day: 31 })
        } else {
            None
        }
    }

    /// The first day of the month of `self`.
    pub fn first_of_month(&self) -> (r: Date)
        ensures
            self.is_valid(),
            r == self.month_start(),
            r.is_valid(),
            r.year() == self.year(),
            r.month() == self.month(),
            r.day() == 1,
    {
        proof {
            use_type_invariant(self);
        }
        Date { year: self.year, month: self.month, day: 1 }
    }
}

/// Whether the month after that of `date` exists and has the day of `date`.
pub open spec fn month_can_follow(date: Date) -> bool {
    if date.month() == 12 {
        date.year() < MAX_YEAR
    } else {
        date.day() <= days_in_month(date.year(), date.month() + 1)
    }
}

/// What [`add_month`] gives: the first of January after a December date, the
/// same day of the following month after any other.
pub open spec fn month_added(date: Date) -> Date {
    if date.month() == 12 {
        Date::of(date.year() + 1, 1, 1)
    } else {
        Date::of(date.year(), date.month() + 1, date.day())
    }
}

/// Whether a month precedes that of `date`.
pub open spec fn month_can_precede(date: Date) -> bool {
    !(date.month() == 1 && date.year() == MIN_YEAR)
}

/// What [`subtract_one_month`] gives: the first day of the preceding month.
pub open spec fn month_subtracted(date: Date) -> Date {
    if date.month() == 1 {
        Date::of(date.year() - 1, 12, 1)
    } else {
        Date::of(date.year(), date.month() - 1, 1)
    }
}

/// Moves a date into the following month. A December date becomes the first
/// of January; any other date keeps its day.
pub fn add_month(date: Date) -> (r: Date)
    requires
        month_can_follow(date),
    ensures
        r == month_added(date),
        r.is_valid(),
        date.before(r),
        !date.same_month(r),
{
    let year: i32 = date.get_year();
    let month: u8 = date.get_month();
    let day: u8 = date.get_day();
    if month == 12 {
        Date { year: year + 1, month: 1, day: 1 }
    } else {
        Date { year, month: month + 1, day }
    }
}

/// The first day of the month before that of `date`.
pub fn subtract_one_month(date: Date) -> (r: Date)
    requires
        month_can_precede(date),
    ensures
        r == month_subtracted(date),
        r.is_valid(),
        r.day() == 1,
        r.before(date.month_start()),
        r.before(date),
        month_index(r) == month_index(date) - 1,
{
    let year: i32 = date.get_year();
    let month: u8 = date.get_month();
    let day: u8 = date.get_day();
    if month == 1 {
        Date { year: year - 1, month: 12, day: 1 }
    } else {
        Date { year, month: month - 1, day: 1 }
    }
}

/// A point of the UTC clock: a calendar date and a time of day, to the
/// nanosecond.
#[derive(Clone, Copy, Debug, PartialEq, Eq, Structural, Hash)]
pub struct Timestamp {
    date: Date,
    hour: u8,
    minute: u8,
    second: u8,
    nanosecond: u32,
}

/// Whether the four components name a time of day.
pub open spec fn valid_time(hour: int, minute: int, second: int, nanosecond: int) -> bool {
    &&& 0 <= hour < 24
    &&& 0 <= minute < 60
    &&& 0 <= second < 60
    &&& 0 <= nanosecond < 1_000_000_000
}

impl Timestamp {
    #[verifier::type_invariant]
    spec fn well_formed(self) -> bool {
        valid_time(
            self.hour as int,
            self.minute as int,
            self.second as int,
            self.nanosecond as int,
        )
    }

    /// The calendar date.
    pub closed spec fn date(self) -> Date {
        self.date
    }

    /// The hour of the day, 0 to 23.
    pub closed spec fn hour(self) -> int {
        self.hour as int
    }

    /// The minute of the hour, 0 to 59.
    pub closed spec fn minute(self) -> int {
        self.minute as int
    }

    /// The second of the minute, 0 to 59.
    pub closed spec fn second(self) -> int {
        self.second as int
    }

    /// The nanosecond of the second.
    pub closed spec fn nanosecond(self) -> int {
        self.nanosecond as int
    }

    /// Whether date and time of day are both valid.
    pub open spec fn is_valid(self) -> bool {
        self.date().is_valid() && valid_time(
            self.hour(),
            self.minute(),
            self.second(),
            self.nanosecond(),
        )
    }

    /// The nanoseconds since midnight.
    pub open spec fn nanos_of_day(self) -> int {
        ((self.hour() * 60 + self.minute()) * 60 + self.second()) * 1_000_000_000
            + self.nanosecond()
    }

    /// Whether `self` is an earlier point of the clock than `other`.
    pub open spec fn before(self, other: Timestamp) -> bool {
        self.date().before(other.date()) || (self.date() == other.date() && self.nanos_of_day()
            < other.nanos_of_day())
    }

    /// The timestamp with the given components.
    pub closed spec fn of(date: Date, hour: int, minute: int, second: int, nanosecond: int)
        -> Timestamp {
        Timestamp {
            date,
            hour: hour as u8,
            minute: minute as u8,
            second: second as u8,
            nanosecond: nanosecond as u32,
        }
    }

    /// The business day's cutoff on the given date: [`CUTOFF_HOUR`] o'clock
    /// sharp.
    pub open spec fn cutoff_on(date: Date) -> Timestamp {
        Timestamp::of(date, CUTOFF_HOUR as int, 0, 0, 0)
    }

    /// The components of a timestamp built by [`Timestamp::of`] are the ones
    /// given.
    pub broadcast proof fn lemma_of_components(
        date: Date,
        hour: int,
        minute: int,
        second: int,
        nanosecond: int,
    )
        requires
            valid_time(hour, minute, second, nanosecond),
        ensures
            (#[trigger] Timestamp::of(date, hour, minute, second, nanosecond)).date() == date,
            Timestamp::of(date, hour, minute, second, nanosecond).hour() == hour,
            Timestamp::of(date, hour, minute, second, nanosecond).minute() == minute,
            Timestamp::of(date, hour, minute, second, nanosecond).second() == second,
            Timestamp::of(date, hour, minute, second, nanosecond).nanosecond() == nanosecond,
    {
    }

    /// Builds a timestamp from a date and a time of day; `None` where the
    /// four components name no time of day.
    pub fn new(date: Date, hour: u8, minute: u8, second: u8, nanosecond: u32) -> (r: Option<
        Timestamp,
    >)
        ensures
            r is Some <==> valid_time(
                hour as int,
                minute as int,
                second as int,
                nanosecond as int,
            ),
            r matches Some(t) ==> t == Timestamp::of(
                date,
                hour as int,
                minute as int,
                second as int,
                nanosecond as int,
            ) && t.date() == date && t.hour() == hour && t.minute() == minute && t.second()
                == second && t.nanosecond() == nanosecond,
    {
        if hour < 24 && minute < 60 && second < 60 && nanosecond < 1_000_000_000 {
            Some(Timestamp { date, hour, minute, second, nanosecond })
        } else {
            None
        }
    }

    /// The calendar date.
    pub fn get_date(&self) -> (r: Date)
        ensures
            r == self.date(),
            r.is_valid(),
    {
        let date = self.date;
        let day: u8 = date.get_day();
        date
    }

    /// The hour of the day.
    pub fn get_hour(&self) -> (r: u8)
        ensures
            r == self.hour(),
            r < 24,
    {
        proof {
            use_type_invariant(self);
        }
        self.hour
    }

    /// The minute of the hour.
    pub fn get_minute(&self) -> (r: u8)
        ensures
            r == self.minute(),
            r < 60,
    {
        proof {
            use_type_invariant(self);
        }
        self.minute
    }

    /// The second of the minute.
    pub fn get_second(&self) -> (r: u8)
        ensures
            r == self.second(),
            r < 60,
    {
        proof {
            use_type_invariant(self);
        }
        self.second
    }

    /// The nanosecond of the second.
    pub fn get_nanosecond(&self) -> (r: u32)
        ensures
            r == self.nanosecond(),
            r < 1_000_000_000,
    {
        proof {
            use_type_invariant(self);
        }
        self.nanosecond
    }

    /// Whether `self` is an earlier point of the clock than `other`.
    pub fn is_before(&self, other: &Timestamp) -> (r: bool)
        ensures
            r == self.before(*other),
    {
        proof {
            use_type_invariant(self);
            use_type_invariant(other);
        }
        if self.date.is_before(&other.date) {
            true
        } else if self.date == other.date {
            let mine: u64 = ((self.hour as u64 * 60 + self.minute as u64) * 60
                + self.second as u64) * 1_000_000_000 + self.nanosecond as u64;
            let theirs: u64 = ((other.hour as u64 * 60 + other.minute as u64) * 60
                + other.second as u64) * 1_000_000_000 + other.nanosecond as u64;
            mine < theirs
        } else {
            false
        }
    }

    /// The same date at [`CUTOFF_HOUR`] o'clock sharp.
    pub fn at_cutoff(&self) -> (r: Timestamp)
        ensures
            r == Timestamp::cutoff_on(self.date()),
    {
        get_hong_kong_11_hours_from_date(self.date)
    }
}

/// The business day's cutoff on the given date: 03:00 UTC, which is 11:00 on
/// the clocks of Hong Kong.
pub fn get_hong_kong_11_hours_from_date(date: Date) -> (r: Timestamp)
    ensures
        r == Timestamp::cutoff_on(date),
        r.date() == date,
        r.hour() == CUTOFF_HOUR,
        r.minute() == 0,
        r.second() == 0,
        r.nanosecond() == 0,
{
    Timestamp { date, hour: CUTOFF_HOUR, minute: 0, second: 0, nanosecond: 0 }
}

/// Reads the system clock through `time::OffsetDateTime::now_utc` and hands
/// its date and time of day over, component by component. Which point of
/// time comes back is open. What is claimed is that it is a date between
/// the two bounds and a time of day, as every value is that `time` gives
/// out.
#[verifier::external_body]
fn now_utc() -> (now: Timestamp)
    ensures
        now.is_valid(),
{
    let t = time::OffsetDateTime::now_utc();
    Timestamp {
        date: Date { year: t.year(), month: u8::from(t.month()), day: t.day() },
        hour: t.hour(),
        minute: t.minute(),
        second: t.second(),
        nanosecond: t.nanosecond(),
    }
}

/// Today's cutoff: the date of the system clock at [`CUTOFF_HOUR`] o'clock
/// sharp.
pub fn get_hong_kong_11_hours() -> (r: Timestamp)
    ensures
        r == Timestamp::cutoff_on(r.date()),
        r.date().is_valid(),
{
    let now = now_utc();
    let date = now.get_date();
    get_hong_kong_11_hours_from_date(date)
}

/// The settlement day of a timestamp: the following calendar date where the
/// time of day has reached the cutoff, the date itself where it has not.
pub open spec fn figures_date(at: Timestamp) -> Date {
    if at.hour() >= CUTOFF_HOUR {
        at.date().next()
    } else {
        at.date()
    }
}

/// Whether a timestamp has a settlement day: it has none on the last date
/// there is, from the cutoff on.
pub open spec fn has_figures_date(at: Timestamp) -> bool {
    at.hour() >= CUTOFF_HOUR ==> at.date().has_next()
}

/// The settlement day of a bet whose status last changed at `bet_date`.
pub fn get_figures_date(bet_date: Timestamp) -> (r: Date)
    requires
        has_figures_date(bet_date),
    ensures
        r == figures_date(bet_date),
        r.is_valid(),
        !bet_date.before(Timestamp::cutoff_on(bet_date.date())) ==> r == bet_date.date().next(),
        bet_date.before(Timestamp::cutoff_on(bet_date.date())) ==> r == bet_date.date(),
{
    match checked_figures_date(bet_date) {
        Some(day) => day,
        None => bet_date.get_date(),
    }
}

/// The settlement day of a timestamp, or `None` where it has none.
pub fn checked_figures_date(at: Timestamp) -> (r: Option<Date>)
    ensures
        r is Some <==> has_figures_date(at),
        r matches Some(day) ==> day == figures_date(at) && day.is_valid(),
        !at.before(Timestamp::cutoff_on(at.date())) <==> at.hour() >= CUTOFF_HOUR,
{
    let date = at.get_date();
    let hour: u8 = at.get_hour();
    let minute: u8 = at.get_minute();
    let second: u8 = at.get_second();
    let nanosecond: u32 = at.get_nanosecond();
    proof {
        Timestamp::lemma_of_components(date, CUTOFF_HOUR as int, 0, 0, 0);
        lemma_before_is_total_order(date, date, date);
        assert(Timestamp::cutoff_on(date).nanos_of_day() == 3 * 3600 * 1_000_000_000int);
        if hour >= CUTOFF_HOUR {
            assert(at.nanos_of_day() >= 3 * 3600 * 1_000_000_000int) by (nonlinear_arith)
                requires
                    at.nanos_of_day() == ((hour * 60 + minute) * 60 + second) * 1_000_000_000
                        + nanosecond,
                    hour >= 3,
            ;
        } else {
            assert(at.nanos_of_day() < 3 * 3600 * 1_000_000_000int) by (nonlinear_arith)
                requires
                    at.nanos_of_day() == ((hour * 60 + minute) * 60 + second) * 1_000_000_000
                        + nanosecond,
                    hour <= 2,
                    minute <= 59,
                    second <= 59,
                    nanosecond < 1_000_000_000,
            ;
        }
    }
    if hour >= CUTOFF_HOUR {
        date.next_day()
    } else {
        Some(date)
    }
}

/// The months of a date, counted from the month before January of the
/// year 0.
pub open spec fn month_index(date: Date) -> int {
    date.year() * 12 + date.month()
}

/// The first day of the month that lies `months` months after the month
/// of `start`.
pub open spec fn month_after(start: Date, months: int) -> Date {
    Date::of(
        (month_index(start) - 1 + months) / 12,
        (month_index(start) - 1 + months) % 12 + 1,
        1,
    )
}

/// The first days of the months from that of `start` through that of
/// `last`, in order. Where the month of `start` lies after that of `last`,
/// it stands alone.
pub open spec fn months_through(start: Date, last: Date) -> Seq<Date> {
    Seq::new(
        (if month_index(start) < month_index(last) {
            month_index(last) - month_index(start) + 1
        } else {
            1
        }) as nat,
        |k: int| month_after(start, k),
    )
}

/// Whether the month of `a` lies before that of `b`.
pub fn month_is_before(a: Date, b: Date) -> (r: bool)
    ensures
        r == (month_index(a) < month_index(b)),
{
    let ya: i32 = a.get_year();
    let yb: i32 = b.get_year();
    let ma: u8 = a.get_month();
    let mb: u8 = b.get_month();
    ya < yb || (ya == yb && ma < mb)
}

/// The first days of the months from that of `start` through that of
/// `last`.
pub fn months_from_through(start: Date, last: Date) -> (months: Vec<Date>)
    ensures
        months@ == months_through(start, last),
        forall|k: int| 0 <= k < months@.len() ==> (#[trigger] months@[k]).is_valid(),
{
    let mut months: Vec<Date> = Vec::new();
    let mut cursor = start.first_of_month();
    proof {
        use_type_invariant(&last);
        Date::lemma_of_components(start.year(), start.month(), 1);
        cursor.lemma_same_components(month_after(start, 0));
    }
    loop
        invariant_except_break
            cursor.is_valid(),
            cursor.day() == 1,
            months@.len() < months_through(start, last).len(),
            cursor == month_after(start, months@.len() as int),
            month_index(cursor) == month_index(start) + months@.len(),
        invariant
            start.is_valid(),
            last.is_valid(),
            forall|k: int| 0 <= k < months@.len() ==> months@[k] == month_after(start, k),
            forall|k: int| 0 <= k < months@.len() ==> (#[trigger] months@[k]).is_valid(),
        ensures
            months@.len() == months_through(start, last).len(),
            forall|k: int| 0 <= k < months@.len() ==> months@[k] == month_after(start, k),
            forall|k: int| 0 <= k < months@.len() ==> (#[trigger] months@[k]).is_valid(),
        decreases months_through(start, last).len() - months@.len(),
    {
        months.push(cursor);
        if !month_is_before(cursor, last) {
            break;
        }
        let next = add_month(cursor);
        proof {
            if cursor.month() == 12 {
                Date::lemma_of_components(cursor.year() + 1, 1, 1);
            } else {
                Date::lemma_of_components(cursor.year(), cursor.month() + 1, 1);
            }
            let k = months@.len() as int;
            let target = month_after(start, k);
            Date::lemma_of_components(
                (month_index(start) - 1 + k) / 12,
                (month_index(start) - 1 + k) % 12 + 1,
                1,
            );
            next.lemma_same_components(target);
        }
        cursor = next;
    }
    assert(months@ =~= months_through(start, last));
    months
}

/// The date after `date` is the least date after it: nothing lies between.
pub proof fn lemma_next_is_successor(date: Date, later: Date)
    requires
        date.is_valid(),
        later.is_valid(),
        date.before(later),
    ensures
        date.has_next(),
        date.next().is_valid(),
        date.before(date.next()),
        date.next().not_after(later),
{
    let n = date.next();
    if date.day() < days_in_month(date.year(), date.month()) {
        Date::lemma_of_components(date.year(), date.month(), date.day() + 1);
    } else if date.month() < 12 {
        Date::lemma_of_components(date.year(), date.month() + 1, 1);
    } else {
        Date::lemma_of_components(date.year() + 1, 1, 1);
    }
    if !n.before(later) {
        n.lemma_same_components(later);
    }
}

/// The date after the last date there is has a year beyond the bounds.
pub proof fn lemma_no_date_after_last(date: Date)
    requires
        date.is_valid(),
        !date.has_next(),
    ensures
        !date.next().is_valid(),
{
    assert(date.next() == Date::of(MAX_YEAR + 1, 1, 1));
    assert(date.next().year() == MAX_YEAR + 1);
}

/// A date that is not the last date there is has a date after it.
pub proof fn lemma_next_exists(date: Date)
    requires
        date.is_valid(),
        date.has_next(),
    ensures
        date.next().is_valid(),
{
    if date.day() < days_in_month(date.year(), date.month()) {
        Date::lemma_of_components(date.year(), date.month(), date.day() + 1);
    } else if date.month() < 12 {
        Date::lemma_of_components(date.year(), date.month() + 1, 1);
    } else {
        Date::lemma_of_components(date.year() + 1, 1, 1);
    }
}

/// The date after a date lies after it, where both exist.
pub proof fn lemma_next_is_later(date: Date)
    requires
        date.is_valid(),
        date.next().is_valid(),
    ensures
        date.before(date.next()),
{
    if date.day() < days_in_month(date.year(), date.month()) {
        Date::lemma_of_components(date.year(), date.month(), date.day() + 1);
    } else if date.month() < 12 {
        Date::lemma_of_components(date.year(), date.month() + 1, 1);
    } else if date.year() < MAX_YEAR {
        Date::lemma_of_components(date.year() + 1, 1, 1);
    } else {
        lemma_no_date_after_last(date);
    }
}

/// The order of dates is strict and total.
pub proof fn lemma_before_is_total_order(a: Date, b: Date, c: Date)
    ensures
        !a.before(a),
        a.before(b) && b.before(c) ==> a.before(c),
        a.before(b) ==> !b.before(a),
        a.before(b) || b.before(a) || a == b,
{
    if !a.before(b) && !b.before(a) {
        a.lemma_same_components(b);
    }
}

} // verus!

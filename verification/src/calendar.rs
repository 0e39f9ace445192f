//! Calendar dates of the proleptic Gregorian calendar, their `YYYY-MM-DD`
//! text, and the number of whole days between two of them.
//!
//! The arithmetic and the text conversions are done by `chrono`; this module
//! states what they yield over a plain model of year, month and day.

use crate::text::{digit_char, digit_value, is_digit, two_digits};
use chrono::Datelike;
use std::cmp::Ordering;
use vstd::std_specs::cmp::PartialOrdSpecImpl;
use vstd::pervasive::unreached;
use vstd::prelude::*;
use vstd::string::StrSliceExecFns;

verus! {

/// Whether `year` has a 29th of February.
pub open spec fn is_leap_year(year: int) -> bool {
    year % 4 == 0 && (year % 100 != 0 || year % 400 == 0)
}

/// The number of days of `year`.
pub open spec fn days_in_year(year: int) -> int {
    if is_leap_year(year) {
        366
    } else {
        365
    }
}

/// The number of days of month `month` (1 to 12) of `year`.
pub open spec fn days_in_month(year: int, month: int) -> int {
    if month == 2 {
        if is_leap_year(year) {
            29
        } else {
            28
        }
    } else if month == 4 || month == 6 || month == 9 || month == 11 {
        30
    } else {
        31
    }
}

/// The days of the years 0 up to, and without, `year`.
pub open spec fn days_before_year(year: int) -> int
    decreases year,
{
    if year <= 0 {
        0
    } else {
        days_before_year(year - 1) + days_in_year(year - 1)
    }
}

/// The days of the months of `year` before `month`.
pub open spec fn days_before_month(year: int, month: int) -> int
    decreases month,
{
    if month <= 1 {
        0
    } else {
        days_before_month(year, month - 1) + days_in_month(year, month - 1)
    }
}

/// Whether `text` has the shape `YYYY-MM-DD`: ten characters, a hyphen as
/// the fifth and as the eighth, and a decimal digit everywhere else.
pub open spec fn is_date_pattern(text: Seq<char>) -> bool {
    &&& text.len() == 10
    &&& forall|i: int| 0 <= i < 10 ==> pattern_holds_at(text, i)
}

/// What the shape `YYYY-MM-DD` asks of the character at position `i`.
pub open spec fn pattern_holds_at(text: Seq<char>, i: int) -> bool {
    if i == 4 || i == 7 {
        #[trigger] text[i] == '-'
    } else {
        is_digit(text[i])
    }
}

/// The number written by the two digits of `text` at `at` and `at + 1`.
pub open spec fn two_digit_value(text: Seq<char>, at: int) -> int {
    10 * digit_value(text[at]) + digit_value(text[at + 1])
}

/// A day of the calendar as three numbers: the model of a [`Date`].
pub struct Ymd {
    pub year: int,
    pub month: int,
    pub day: int,
}

impl Ymd {
    /// The day of these three numbers.
    pub open spec fn of(year: int, month: int, day: int) -> Ymd {
        Ymd { year, month, day }
    }

    /// Whether the three numbers name a day of the calendar whose year can
    /// be written with four digits.
    pub open spec fn is_date(self) -> bool {
        &&& 0 <= self.year <= 9999
        &&& 1 <= self.month <= 12
        &&& 1 <= self.day <= days_in_month(self.year, self.month)
    }

    /// The days from the first of January of the year 0 to this day.
    pub open spec fn day_number(self) -> int {
        days_before_year(self.year) + days_before_month(self.year, self.month) + self.day - 1
    }

    /// Whether this day comes before `other` in the calendar.
    pub open spec fn is_before(self, other: Ymd) -> bool {
        ||| self.year < other.year
        ||| self.year == other.year && self.month < other.month
        ||| self.year == other.year && self.month == other.month && self.day < other.day
    }

    /// Whether `other` is the day after this one.
    pub open spec fn is_eve_of(self, other: Ymd) -> bool {
        if self.day < days_in_month(self.year, self.month) {
            other == (Ymd { day: self.day + 1, ..self })
        } else if self.month < 12 {
            other == (Ymd { year: self.year, month: self.month + 1, day: 1 })
        } else {
            other == (Ymd { year: self.year + 1, month: 1, day: 1 })
        }
    }

    /// The text `YYYY-MM-DD` of this day.
    pub open spec fn text(self) -> Seq<char> {
        two_digits(self.year / 100) + two_digits(self.year % 100) + seq!['-'] + two_digits(
            self.month,
        ) + seq!['-'] + two_digits(self.day)
    }

    /// The three numbers that a text of the shape `YYYY-MM-DD` writes.
    pub open spec fn of_pattern(text: Seq<char>) -> Ymd {
        Ymd {
            year: 100 * two_digit_value(text, 0) + two_digit_value(text, 2),
            month: two_digit_value(text, 5),
            day: two_digit_value(text, 8),
        }
    }

    /// The day that `text` names: it has the shape `YYYY-MM-DD` and its
    /// numbers are a day of the calendar, or there is none.
    pub open spec fn parse(text: Seq<char>) -> Option<Ymd> {
        if is_date_pattern(text) && Ymd::of_pattern(text).is_date() {
            Some(Ymd::of_pattern(text))
        } else {
            None
        }
    }
}

/// The signed number of days from `from` to `to`: negative where `to` is
/// the earlier day.
pub open spec fn days_from_to(from: Ymd, to: Ymd) -> int {
    to.day_number() - from.day_number()
}

/// A later year begins at least 365 days after each earlier one.
proof fn lemma_days_before_year_grows(earlier: int, later: int)
    requires
        0 <= earlier <= later,
    ensures
        days_before_year(later) >= days_before_year(earlier) + 365 * (later - earlier),
    decreases later,
{
    if earlier < later {
        lemma_days_before_year_grows(earlier, later - 1);
    }
}

/// A later month begins at least 28 days after each earlier one.
proof fn lemma_days_before_month_grows(year: int, earlier: int, later: int)
    requires
        1 <= earlier <= later,
    ensures
        days_before_month(year, later) >= days_before_month(year, earlier) + 28 * (later
            - earlier),
    decreases later,
{
    if earlier < later {
        lemma_days_before_month_grows(year, earlier, later - 1);
    }
}

/// The twelve months of a year are the whole year.
proof fn lemma_months_fill_year(year: int)
    ensures
        days_before_month(year, 13) == days_in_year(year),
{
    reveal_with_fuel(days_before_month, 14);
}

/// Two days of the calendar are as far apart as the calendar says: the
/// earlier one has the smaller day number, and only the same day has the
/// same.
pub proof fn lemma_day_number_orders_dates(a: Ymd, b: Ymd)
    requires
        a.is_date(),
        b.is_date(),
    ensures
        a.is_before(b) <==> a.day_number() < b.day_number(),
        a == b <==> a.day_number() == b.day_number(),
{
    if a.is_before(b) {
        lemma_before_is_fewer_days(a, b);
    } else if b.is_before(a) {
        lemma_before_is_fewer_days(b, a);
    }
}

proof fn lemma_before_is_fewer_days(a: Ymd, b: Ymd)
    requires
        a.is_date(),
        b.is_date(),
        a.is_before(b),
    ensures
        a.day_number() < b.day_number(),
{
    if a.year < b.year {
        lemma_days_before_year_grows(a.year + 1, b.year);
        lemma_days_before_month_grows(a.year, a.month + 1, 13);
        lemma_months_fill_year(a.year);
        lemma_days_before_month_grows(b.year, 1, b.month);
    } else if a.month < b.month {
        lemma_days_before_month_grows(a.year, a.month + 1, b.month);
    }
}

/// The day after a day of the calendar has the next day number, also
/// across the end of a month and of a year.
pub proof fn lemma_next_day_is_one_more(day: Ymd, next: Ymd)
    requires
        day.is_date(),
        day.is_eve_of(next),
    ensures
        next.day_number() == day.day_number() + 1,
        days_from_to(day, next) == 1,
        days_from_to(next, day) == -1,
{
    if day.day < days_in_month(day.year, day.month) {
    } else if day.month < 12 {
    } else {
        lemma_months_fill_year(day.year);
    }
}

/// Two days of the calendar are less than 3 660 000 days apart, so that
/// their distance is far from the ends of `i64`.
pub proof fn lemma_distance_is_bounded(from: Ymd, to: Ymd)
    requires
        from.is_date(),
        to.is_date(),
    ensures
        -3_660_000 < days_from_to(from, to) < 3_660_000,
{
    lemma_day_number_bounds(from);
    lemma_day_number_bounds(to);
}

proof fn lemma_day_number_bounds(day: Ymd)
    requires
        day.is_date(),
    ensures
        0 <= day.day_number() < 3_660_000,
{
    lemma_days_before_year_grows(0, day.year);
    lemma_days_before_year_at_most(day.year);
    lemma_days_before_month_grows(day.year, 1, day.month);
    lemma_days_before_month_grows(day.year, day.month + 1, 13);
    lemma_months_fill_year(day.year);
}

proof fn lemma_days_before_year_at_most(year: int)
    requires
        0 <= year,
    ensures
        days_before_year(year) <= 366 * year,
    decreases year,
{
    if 0 < year {
        lemma_days_before_year_at_most(year - 1);
    }
}

/// The text of a day of the calendar has the shape `YYYY-MM-DD` and names
/// that day again.
pub proof fn lemma_text_names_the_day(day: Ymd)
    requires
        day.is_date(),
    ensures
        is_date_pattern(day.text()),
        Ymd::of_pattern(day.text()) == day,
        Ymd::parse(day.text()) == Some(day),
{
    let text = day.text();
    let century = day.year / 100;
    let rest = day.year % 100;
}

/// A text of the shape `YYYY-MM-DD` is the text of the numbers it writes:
/// no two texts of that shape write the same.
pub proof fn lemma_pattern_is_its_own_text(text: Seq<char>)
    requires
        is_date_pattern(text),
    ensures
        Ymd::of_pattern(text).text() == text,
{
    assert forall|i: int| 0 <= i < 10 && i != 4 && i != 7 implies digit_char(
        digit_value(#[trigger] text[i]),
    ) == text[i] && 0 <= digit_value(text[i]) <= 9 by {
        assert(pattern_holds_at(text, i));
    }
    assert(pattern_holds_at(text, 4));
    assert(pattern_holds_at(text, 7));
    assert(Ymd::of_pattern(text).text() =~= text);
}

/// A calendar date without a time of day, from 0000-01-01 to 9999-12-31.
#[derive(Clone, Copy, Debug, PartialEq, Eq, Structural, Ord, Hash)]
pub struct Date {
    year: i32,
    month: u32,
    day: u32,
}

impl View for Date {
    type V = Ymd;

    closed spec fn view(&self) -> Ymd {
        Ymd { year: self.year as int, month: self.month as int, day: self.day as int }
    }
}

impl PartialOrd for Date {
    fn partial_cmp(&self, other: &Date) -> (order: Option<Ordering>) {
        if self.year < other.year {
            Some(Ordering::Less)
        } else if self.year > other.year {
            Some(Ordering::Greater)
        } else if self.month < other.month {
            Some(Ordering::Less)
        } else if self.month > other.month {
            Some(Ordering::Greater)
        } else if self.day < other.day {
            Some(Ordering::Less)
        } else if self.day > other.day {
            Some(Ordering::Greater)
        } else {
            Some(Ordering::Equal)
        }
    }
}

impl PartialOrdSpecImpl for Date {
    open spec fn obeys_partial_cmp_spec() -> bool {
        true
    }

    /// Dates compare as the calendar has them: the earlier day is the
    /// lesser.
    open spec fn partial_cmp_spec(&self, other: &Date) -> Option<Ordering> {
        if self@.is_before(other@) {
            Some(Ordering::Less)
        } else if other@.is_before(self@) {
            Some(Ordering::Greater)
        } else {
            Some(Ordering::Equal)
        }
    }
}

/// `chrono::ParseError`: why `chrono` could not read a text. Nothing is
/// said of what it holds.
#[verifier::external_type_specification]
#[verifier::external_body]
pub struct ExParseError(chrono::ParseError);

/// `chrono::NaiveDate::from_ymd_opt`, for a year of four digits: the date of
/// these three numbers where the calendar has that day, and nothing where
/// it has not.
#[verifier::external_body]
fn chrono_from_ymd(year: i32, month: u32, day: u32) -> (r: Option<Date>)
    requires
        0 <= year <= 9999,
    ensures
        r is Some <==> Ymd::of(year as int, month as int, day as int).is_date(),
        r matches Some(d) ==> d@ == Ymd::of(year as int, month as int, day as int),
{
    match chrono::NaiveDate::from_ymd_opt(year, month, day) {
        Some(date) => Some(Date { year: date.year(), month: date.month(), day: date.day() }),
        None => None,
    }
}

/// `chrono::NaiveDate::parse_from_str` with the format `%Y-%m-%d`, on a text
/// of the shape `YYYY-MM-DD`: the date of the three numbers written where
/// the calendar has that day, and an error where it has not.
#[verifier::external_body]
fn chrono_parse(text: &str) -> (r: Result<Date, chrono::ParseError>)
    requires
        is_date_pattern(text@),
    ensures
        r is Ok <==> Ymd::of_pattern(text@).is_date(),
        r matches Ok(d) ==> d@ == Ymd::of_pattern(text@),
{
    match chrono::NaiveDate::parse_from_str(text, "%Y-%m-%d") {
        Ok(date) => Ok(Date { year: date.year(), month: date.month(), day: date.day() }),
        Err(e) => Err(e),
    }
}

/// `chrono::NaiveDate`'s `to_string`: for a year of four digits, the year in
/// four digits, the month in two and the day in two, with a hyphen between
/// them.
#[verifier::external_body]
fn chrono_format(date: &Date) -> (r: Option<String>)
    requires
        date@.is_date(),
    ensures
        r is Some,
        r matches Some(s) ==> s@ == date@.text(),
{
    let date = chrono::NaiveDate::from_ymd_opt(date.year, date.month, date.day)?;
    Some(date.to_string())
}

/// `chrono::NaiveDate::signed_duration_since` and `chrono::TimeDelta::num_days`:
/// the whole days from `from` to `to`, counted in the proleptic Gregorian
/// calendar.
#[verifier::external_body]
fn chrono_days_between(from: &Date, to: &Date) -> (r: Option<i64>)
    requires
        from@.is_date(),
        to@.is_date(),
    ensures
        r is Some,
        r matches Some(n) ==> n == days_from_to(from@, to@),
{
    let start = chrono::NaiveDate::from_ymd_opt(from.year, from.month, from.day)?;
    let end = chrono::NaiveDate::from_ymd_opt(to.year, to.month, to.day)?;
    Some(end.signed_duration_since(start).num_days())
}

/// Whether `text` has the shape `YYYY-MM-DD`.
pub fn has_date_pattern(text: &str) -> (b: bool)
    ensures
        b == is_date_pattern(text@),
{
    if text.unicode_len() != 10 {
        return false;
    }
    let mut i: usize = 0;
    while i < 10
        invariant
            i <= 10,
            text@.len() == 10,
            forall|j: int| 0 <= j < i ==> pattern_holds_at(text@, j),
        decreases 10 - i,
    {
        let c = text.get_char(i);
        let fits = if i == 4 || i == 7 {
            c == '-'
        } else {
            '0' <= c && c <= '9'
        };
        if !fits {
            assert(!pattern_holds_at(text@, i as int));
            return false;
        }
        i += 1;
    }
    true
}

impl Date {
    /// Every date is a day of the calendar.
    #[verifier::type_invariant]
    pub open spec fn well_formed(self) -> bool {
        self@.is_date()
    }

    /// The date of these three numbers, where the calendar has that day and
    /// the year is one of 0 to 9999.
    pub fn new(year: i32, month: u32, day: u32) -> (r: Option<Date>)
        ensures
            r is Some <==> Ymd::of(year as int, month as int, day as int).is_date(),
            r matches Some(d) ==> d@ == Ymd::of(year as int, month as int, day as int),
    {
        if year < 0 || year > 9999 {
            return None;
        }
        chrono_from_ymd(year, month, day)
    }

    /// The date that `text` names, where it has the shape `YYYY-MM-DD` and
    /// the calendar has that day.
    pub fn parse(text: &str) -> (r: Option<Date>)
        ensures
            r is Some <==> Ymd::parse(text@) is Some,
            r matches Some(d) ==> Some(d@) == Ymd::parse(text@),
    {
        if !has_date_pattern(text) {
            return None;
        }
        match chrono_parse(text) {
            Ok(date) => Some(date),
            Err(_) => None,
        }
    }

    /// The text `YYYY-MM-DD` of this date.
    pub fn to_text(&self) -> (s: String)
        ensures
            s@ == self@.text(),
    {
        proof {
            use_type_invariant(self);
        }
        match chrono_format(self) {
            Some(s) => s,
            None => unreached(),
        }
    }

    /// The signed number of whole days from this date to `other`.
    pub fn days_until(&self, other: &Date) -> (n: i64)
        ensures
            n == days_from_to(self@, other@),
    {
        proof {
            use_type_invariant(self);
            use_type_invariant(other);
        }
        match chrono_days_between(self, other) {
            Some(n) => n,
            None => unreached(),
        }
    }

    /// Two dates are the same where they are the same day of the calendar.
    pub proof fn lemma_same_day_same_date(self, other: Date)
        ensures
            self@ == other@ <==> self == other,
    {
    }

    /// The year, from 0 to 9999.
    pub fn year(&self) -> (year: i32)
        ensures
            year == self@.year,
    {
        self.year
    }

    /// The month, from 1 to 12.
    pub fn month(&self) -> (month: u32)
        ensures
            month == self@.month,
    {
        self.month
    }

    /// The day of the month, from 1.
    pub fn day(&self) -> (day: u32)
        ensures
            day == self@.day,
    {
        self.day
    }
}

} // verus!

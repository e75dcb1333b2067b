//! Calendar dates, and reading one out of loosely written text.

use vstd::prelude::*;
use vstd::string::*;
use crate::errors::{failed, BotError, ErrorKind};
use crate::patterns::{all_matches, regex_find_iter};
use crate::text::{decimal_text, parse_u32, texts, u32_of_text};

verus! {

/// The first year that a date can lie in.
pub const MIN_YEAR: i32 = -262143;

/// The last year that a date can lie in.
pub const MAX_YEAR: i32 = 262142;

/// The regular expression for one run of digits.
pub const DIGIT_RUN: &'static str = "[0-9]+";

/// What is said of a text that holds no date, before the text itself.
pub const NO_DATE: &'static str = "Could not parse a date from ";

/// Whether `year` has a 29th of February in the proleptic Gregorian calendar.
pub open spec fn is_leap_year(year: int) -> bool {
    year % 4 == 0 && (year % 100 != 0 || year % 400 == 0)
}

/// The number of days of the month `month` of `year`.
pub open spec fn days_in_month(year: int, month: int) -> int {
    if month == 2 {
        if is_leap_year(year) {
            29
        } else {
            28
        }
    } else if month == 4 || month == 6 || month == 9 || month == 11 {
        30
    } else {
        31
    }
}

/// Whether the day `day` of the month `month` of `year` exists, in a year
/// that a date can lie in.
pub open spec fn is_calendar_date(year: int, month: int, day: int) -> bool {
    &&& MIN_YEAR <= year <= MAX_YEAR
    &&& 1 <= month <= 12
    &&& 1 <= day <= days_in_month(year, month)
}

/// `n` in base ten, with zeros in front up to `width` digits.
pub open spec fn zero_padded(n: nat, width: nat) -> Seq<char> {
    let digits = decimal_text(n);
    if digits.len() >= width {
        digits
    } else {
        Seq::new((width - digits.len()) as nat, |i: int| '0') + digits
    }
}

/// A year as it is written in a date: four digits from 0 to 9999; beyond
/// that a sign, and at least four digits.
pub open spec fn year_text(year: int) -> Seq<char> {
    if 0 <= year <= 9999 {
        zero_padded(year as nat, 4)
    } else if year > 9999 {
        seq!['+'] + decimal_text(year as nat)
    } else {
        seq!['-'] + zero_padded((-year) as nat, 4)
    }
}

/// A date as it is written: the year, the month in two digits and the day in
/// two digits, with `-` between them.
pub open spec fn date_text(year: int, month: int, day: int) -> Seq<char> {
    year_text(year) + seq!['-'] + zero_padded(month as nat, 2) + seq!['-'] + zero_padded(
        day as nat,
        2,
    )
}

/// A year, a month and a day as numbers.
pub struct Ymd {
    pub year: int,
    pub month: int,
    pub day: int,
}

/// A day of the proleptic Gregorian calendar.
#[derive(Debug, Clone, Copy, PartialEq, Eq)]
pub struct Date {
    year: i32,
    month: u32,
    day: u32,
}

impl View for Date {
    type V = Ymd;

    closed spec fn view(&self) -> Ymd {
        Ymd { year: self.year as int, month: self.month as int, day: self.day as int }
    }
}

/// Asks `chrono::NaiveDate::from_ymd_opt` whether it makes a date of the
/// three numbers. It makes none where the year is out of range, where the
/// month or the day is out of range, and where the month has no such day.
#[verifier::external_body]
fn naive_date_exists(year: i32, month: u32, day: u32) -> (found: bool)
    ensures
        found == is_calendar_date(year as int, month as int, day as int),
{
    chrono::NaiveDate::from_ymd_opt(year, month, day).is_some()
}

/// Makes the date with `chrono::NaiveDate::from_ymd_opt` and writes it with
/// `to_string`, which for a `NaiveDate` gives the year, the month and the day
/// with `-` between them: the year in four digits, or with a sign where it
/// is not from 0 to 9999; month and day in two digits.
#[verifier::external_body]
fn naive_date_text(year: i32, month: u32, day: u32) -> (text: String)
    requires
        is_calendar_date(year as int, month as int, day as int),
    ensures
        text@ == date_text(year as int, month as int, day as int),
{
    chrono::NaiveDate::from_ymd_opt(year, month, day).unwrap().to_string()
}

impl Date {
    #[verifier::type_invariant]
    closed spec fn on_calendar(self) -> bool {
        is_calendar_date(self.year as int, self.month as int, self.day as int)
    }

    /// The date of the given year, month and day, if there is such a day.
    pub fn from_ymd_opt(year: i32, month: u32, day: u32) -> (date: Option<Date>)
        ensures
            date is Some <==> is_calendar_date(year as int, month as int, day as int),
            date matches Some(d) ==> d@ == (Ymd {
                year: year as int,
                month: month as int,
                day: day as int,
            }),
    {
        if naive_date_exists(year, month, day) {
            Some(Date { year, month, day })
        } else {
            None
        }
    }

    /// The year, from `MIN_YEAR` to `MAX_YEAR`.
    pub fn year(&self) -> (year: i32)
        ensures
            year == self@.year,
            MIN_YEAR <= year <= MAX_YEAR,
    {
        proof {
            use_type_invariant(self);
        }
        self.year
    }

    /// The month, from 1 to 12.
    pub fn month(&self) -> (month: u32)
        ensures
            month == self@.month,
            1 <= month <= 12,
    {
        proof {
            use_type_invariant(self);
        }
        self.month
    }

    /// The day of the month, from 1 to the last day of that month.
    pub fn day(&self) -> (day: u32)
        ensures
            day == self@.day,
            1 <= day <= days_in_month(self@.year, self@.month),
    {
        proof {
            use_type_invariant(self);
        }
        self.day
    }

    /// The date as it is written, such as `1990-04-15`.
    pub fn to_string(&self) -> (text: String)
        ensures
            text@ == date_text(self@.year, self@.month, self@.day),
    {
        proof {
            use_type_invariant(self);
        }
        naive_date_text(self.year, self.month, self.day)
    }
}

/// The date that a row of digit runs stands for: there are exactly three,
/// each is a number that fits a `u32`, and read as month, day and year they
/// name a day that exists.
pub open spec fn date_of_runs(runs: Seq<Seq<char>>) -> Option<Ymd> {
    if runs.len() == 3 && u32_of_text(runs[0]) is Some && u32_of_text(runs[1]) is Some
        && u32_of_text(runs[2]) is Some {
        let month = u32_of_text(runs[0])->0 as int;
        let day = u32_of_text(runs[1])->0 as int;
        let year = u32_of_text(runs[2])->0 as int;
        if is_calendar_date(year, month, day) {
            Some(Ymd { year, month, day })
        } else {
            None
        }
    } else {
        None
    }
}

/// The date that `runs` stands for: the month, the day and the year, in this
/// order.
pub fn date_from_runs(runs: &Vec<String>) -> (date: Option<Date>)
    ensures
        match date_of_runs(texts(runs@)) {
            Some(ymd) => date matches Some(d) && d@ == ymd,
            None => date is None,
        },
{
    if runs.len() != 3 {
        return None;
    }
    let month = match parse_u32(runs[0].as_str()) {
        Some(n) => n,
        None => {
            return None;
        },
    };
    let day = match parse_u32(runs[1].as_str()) {
        Some(n) => n,
        None => {
            return None;
        },
    };
    let year = match parse_u32(runs[2].as_str()) {
        Some(n) => n,
        None => {
            return None;
        },
    };
    if year > 0x7fff_ffff {
        return None;
    }
    Date::from_ymd_opt(year as i32, month, day)
}

/// Reads a date out of `s`: the runs of digits in it, taken as month, day
/// and year. Whatever stands between the runs is passed over.
pub fn parse(s: &str) -> (date: Result<Date, BotError>)
    ensures
        match date_of_runs(regex_find_iter(DIGIT_RUN@, s@)) {
            Some(ymd) => date matches Ok(d) && d@ == ymd,
            None => failed(date, ErrorKind::ParseError, NO_DATE@ + s@),
        },
{
    let runs = all_matches(DIGIT_RUN, s);
    match date_from_runs(&runs) {
        Some(date) => Ok(date),
        None => {
            let mut message = String::from_str(NO_DATE);
            message.append(s);
            Err(BotError { kind: ErrorKind::ParseError, message })
        },
    }
}

/// A text with fewer or more than three runs of digits holds no date.
pub proof fn lemma_three_runs_or_none(s: Seq<char>)
    requires
        regex_find_iter(DIGIT_RUN@, s).len() != 3,
    ensures
        date_of_runs(regex_find_iter(DIGIT_RUN@, s)) is None,
{
}

} // verus!

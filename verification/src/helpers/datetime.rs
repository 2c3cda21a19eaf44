//! Calendar timestamps for the deletion-record helper: plain year, month,
//! day, hour, minute and second, exchanged with text of the fixed shape
//! `YYYY-MM-DDThh:mm:ss` through the `time` crate.

use vstd::prelude::*;

use crate::error::Error;

verus! {

/// Whether `y` is a leap year of the proleptic Gregorian calendar.
pub open spec fn is_leap_year(y: int) -> bool {
    (y % 4 == 0 && y % 100 != 0) || y % 400 == 0
}

/// How many days the given month of the given year has.
pub open spec fn days_in_month(y: int, m: int) -> int {
    if m == 2 {
        if is_leap_year(y) {
            29
        } else {
            28
        }
    } else if m == 4 || m == 6 || m == 9 || m == 11 {
        30
    } else {
        31
    }
}

/// A valid point in time: a calendar date and a time of day, in the ranges
/// the `time` crate supports.
pub open spec fn valid_date(y: int, mo: int, d: int, h: int, mi: int, s: int) -> bool {
    -9999 <= y <= 9999 && 1 <= mo <= 12 && 1 <= d <= days_in_month(y, mo) && 0 <= h < 24 && 0 <= mi
        < 60 && 0 <= s < 60
}

/// The decimal digit `d` as a character.
pub open spec fn digit_char(d: int) -> char {
    if d == 0 {
        '0'
    } else if d == 1 {
        '1'
    } else if d == 2 {
        '2'
    } else if d == 3 {
        '3'
    } else if d == 4 {
        '4'
    } else if d == 5 {
        '5'
    } else if d == 6 {
        '6'
    } else if d == 7 {
        '7'
    } else if d == 8 {
        '8'
    } else {
        '9'
    }
}

/// `n`, zero-padded to two decimal digits.
pub open spec fn two_digits(n: int) -> Seq<char> {
    seq![digit_char(n / 10), digit_char(n % 10)]
}

/// `n`, zero-padded to four decimal digits.
pub open spec fn four_digits(n: int) -> Seq<char> {
    two_digits(n / 100) + two_digits(n % 100)
}

/// The canonical text of a timestamp: `YYYY-MM-DDThh:mm:ss`, the year signed
/// only when negative.
pub open spec fn date_string_of(y: int, mo: int, d: int, h: int, mi: int, s: int) -> Seq<char> {
    (if y < 0 {
        seq!['-'] + four_digits(-y)
    } else {
        four_digits(y)
    }) + seq!['-'] + two_digits(mo) + seq!['-'] + two_digits(d) + seq!['T'] + two_digits(h)
        + seq![':'] + two_digits(mi) + seq![':'] + two_digits(s)
}

/// Whether a parse outcome honours every canonical timestamp text: if `s`
/// is the canonical text of a valid timestamp, the outcome is a success
/// carrying exactly that timestamp's components.
pub open spec fn accepts_canonical_text(
    s: Seq<char>,
    r: Result<(i16, u8, u8, u8, u8, u8), time::error::Parse>,
) -> bool {
    forall|y: int, mo: int, d: int, h: int, mi: int, sec: int|
        valid_date(y, mo, d, h, mi, sec) && s == #[trigger] date_string_of(y, mo, d, h, mi, sec)
            ==> (r matches Ok(c) && c.0 == y && c.1 == mo && c.2 == d && c.3 == h && c.4 == mi
            && c.5 == sec)
}

/// The `time` crate's parse error, carried opaquely in [`Error`].
#[verifier::external_type_specification]
#[verifier::external_body]
pub struct ExTimeParseError(time::error::Parse);

/// The `time` crate's format error, carried opaquely in [`Error`].
#[verifier::external_type_specification]
#[verifier::external_body]
pub struct ExTimeFormatError(time::error::Format);

/// Relies on time's `PrimitiveDateTime::parse` with the fixed description
/// `[year]-[month]-[day]T[hour repr:24]:[minute]:[second]` (built by
/// `time::format_description::parse`, which accepts this fixed text): a
/// success carries components that form a valid calendar date and time of
/// day in time's supported ranges, the whole input is consumed, and the
/// canonical text of any valid timestamp parses to exactly its components.
#[verifier::external_body]
fn parse_datetime_raw(s: &str) -> (r: Result<(i16, u8, u8, u8, u8, u8), time::error::Parse>)
    ensures
        r matches Ok(c) ==> valid_date(
            c.0 as int,
            c.1 as int,
            c.2 as int,
            c.3 as int,
            c.4 as int,
            c.5 as int,
        ),
        accepts_canonical_text(s@, r),
{
    let format = time::format_description::parse(
        "[year]-[month]-[day]T[hour repr:24]:[minute]:[second]",
    ).expect("the format description is fixed and well-formed");
    match time::PrimitiveDateTime::parse(s, &format) {
        Ok(dt) => Ok((
            dt.year() as i16,
            u8::from(dt.month()),
            dt.day(),
            dt.hour(),
            dt.minute(),
            dt.second(),
        )),
        Err(e) => Err(e),
    }
}

/// Relies on time's `Date::from_calendar_date`, `Time::from_hms`,
/// `PrimitiveDateTime::new` and `PrimitiveDateTime::format` with the same
/// fixed description: formatting a valid timestamp always succeeds — the
/// constructors accept the range-checked components, every component the
/// description mentions is present, and the output goes into an in-memory
/// buffer whose writes cannot fail — and the text is the canonical
/// `YYYY-MM-DDThh:mm:ss` form of the components.
#[verifier::external_body]
fn format_datetime_raw(
    year: i16,
    month: u8,
    day: u8,
    hour: u8,
    minute: u8,
    second: u8,
) -> (r: Result<String, time::error::Format>)
    requires
        valid_date(
            year as int,
            month as int,
            day as int,
            hour as int,
            minute as int,
            second as int,
        ),
    ensures
        r is Ok,
        r matches Ok(t) ==> t@ == date_string_of(
            year as int,
            month as int,
            day as int,
            hour as int,
            minute as int,
            second as int,
        ),
{
    let month = time::Month::try_from(month).expect("the month is in range");
    let date = time::Date::from_calendar_date(year as i32, month, day).expect("the date is valid");
    let tod = time::Time::from_hms(hour, minute, second).expect("the time of day is valid");
    let format = time::format_description::parse(
        "[year]-[month]-[day]T[hour repr:24]:[minute]:[second]",
    ).expect("the format description is fixed and well-formed");
    time::PrimitiveDateTime::new(date, tod).format(&format)
}

/// A point in time: a calendar date and a time of day.  Always valid: the
/// month, day, hour, minute and second are in range, the day fits the month
/// and the leap-year rule, and the year is in the range `time` supports.
#[derive(Debug, PartialEq, Eq, Structural, Clone, Copy)]
pub struct DateTime {
    year: i16,
    month: u8,
    day: u8,
    hour: u8,
    minute: u8,
    second: u8,
}

impl DateTime {
    /// The parts of the timestamp: year, month, day, hour, minute, second.
    pub closed spec fn parts(self) -> (int, int, int, int, int, int) {
        (
            self.year as int,
            self.month as int,
            self.day as int,
            self.hour as int,
            self.minute as int,
            self.second as int,
        )
    }

    /// The validity of a timestamp, as a predicate on the parts.
    #[verifier::type_invariant]
    pub closed spec fn wf(self) -> bool {
        valid_date(
            self.year as int,
            self.month as int,
            self.day as int,
            self.hour as int,
            self.minute as int,
            self.second as int,
        )
    }

    /// Builds a timestamp from its parts; `None` when they do not form a
    /// valid calendar date and time of day.
    pub fn new(year: i16, month: u8, day: u8, hour: u8, minute: u8, second: u8) -> (r: Option<
        DateTime,
    >)
        ensures
            match r {
                Some(dt) => valid_date(
                    year as int,
                    month as int,
                    day as int,
                    hour as int,
                    minute as int,
                    second as int,
                ) && dt.parts() == (
                    year as int,
                    month as int,
                    day as int,
                    hour as int,
                    minute as int,
                    second as int,
                ),
                None => !valid_date(
                    year as int,
                    month as int,
                    day as int,
                    hour as int,
                    minute as int,
                    second as int,
                ),
            },
    {
        if -9999 <= year && year <= 9999 && 1 <= month && month <= 12 && hour < 24 && minute < 60
            && second < 60 && 1 <= day && day <= days_in_month_exec(year, month) {
            Some(DateTime { year, month, day, hour, minute, second })
        } else {
            None
        }
    }

    /// The year.
    pub fn year(&self) -> (r: i16)
        ensures
            r as int == self.parts().0,
    {
        self.year
    }

    /// The month, `1` to `12`.
    pub fn month(&self) -> (r: u8)
        ensures
            r as int == self.parts().1,
    {
        self.month
    }

    /// The day of the month.
    pub fn day(&self) -> (r: u8)
        ensures
            r as int == self.parts().2,
    {
        self.day
    }

    /// The hour, on the 24-hour clock.
    pub fn hour(&self) -> (r: u8)
        ensures
            r as int == self.parts().3,
    {
        self.hour
    }

    /// The minute.
    pub fn minute(&self) -> (r: u8)
        ensures
            r as int == self.parts().4,
    {
        self.minute
    }

    /// The second.
    pub fn second(&self) -> (r: u8)
        ensures
            r as int == self.parts().5,
    {
        self.second
    }

    /// The canonical text of this timestamp, as a mathematical value.
    pub open spec fn spec_text(self) -> Seq<char> {
        date_string_of(
            self.parts().0,
            self.parts().1,
            self.parts().2,
            self.parts().3,
            self.parts().4,
            self.parts().5,
        )
    }

    /// Parses a timestamp of the fixed shape `YYYY-MM-DDThh:mm:ss`.  The
    /// canonical text of any valid timestamp is accepted and yields exactly
    /// that timestamp; a failure of the underlying parser is surfaced
    /// opaquely as a date-parse error.
    pub fn parse(s: &str) -> (r: Result<DateTime, Error>)
        ensures
            r matches Err(e) ==> e is DateParsing,
            forall|y: int, mo: int, d: int, h: int, mi: int, sec: int|
                valid_date(y, mo, d, h, mi, sec) && s@ == #[trigger] date_string_of(
                    y,
                    mo,
                    d,
                    h,
                    mi,
                    sec,
                ) ==> (r matches Ok(dt) && dt.parts() == (y, mo, d, h, mi, sec)),
    {
        match parse_datetime_raw(s) {
            Ok(c) => Ok(
                DateTime { year: c.0, month: c.1, day: c.2, hour: c.3, minute: c.4, second: c.5 },
            ),
            Err(e) => Err(Error::DateParsing(e)),
        }
    }

    /// Formats this timestamp as `YYYY-MM-DDThh:mm:ss`.  Formatting a valid
    /// timestamp cannot fail, so the result is always the canonical text.
    pub fn format(&self) -> (r: Result<String, Error>)
        ensures
            r matches Ok(t) && t@ == self.spec_text(),
    {
        proof {
            use_type_invariant(self);
        }
        match format_datetime_raw(
            self.year,
            self.month,
            self.day,
            self.hour,
            self.minute,
            self.second,
        ) {
            Ok(t) => Ok(t),
            Err(e) => Err(Error::DateFormat(e)),
        }
    }
}

/// How many days the given month of the given year has, executably.
fn days_in_month_exec(year: i16, month: u8) -> (r: u8)
    requires
        1 <= month <= 12,
    ensures
        r as int == days_in_month(year as int, month as int),
{
    if month == 2 {
        if leap_year(year) {
            29
        } else {
            28
        }
    } else if month == 4 || month == 6 || month == 9 || month == 11 {
        30
    } else {
        31
    }
}

/// Whether `year` is a leap year, executably.
fn leap_year(year: i16) -> (r: bool)
    ensures
        r == is_leap_year(year as int),
{
    let y: i32 = year as i32;
    (y % 4 == 0 && y % 100 != 0) || y % 400 == 0
}

} // verus!

use crate::digits::{
    all_digits, digits_value, fixed_digits, fixed_digits_spec, is_digit, lemma_digits_bound,
    lemma_fixed_digits_len, lemma_fixed_digits_value, pow10,
};
use crate::error::TaskError;
use crate::text::{trim_of, trimmed};
use chrono::Datelike;
use chrono::TimeZone;
use chrono::Timelike;
use vstd::prelude::*;

verus! {

/// A day of the proleptic Gregorian calendar.
#[derive(Debug, Clone, Copy, PartialEq, Eq, Structural)]
pub struct Date {
    pub year: i32,
    pub month: u32,
    pub day: u32,
}

/// A day together with an hour and a minute of it.
#[derive(Debug, Clone, Copy, PartialEq, Eq, Structural)]
pub struct Timestamp {
    pub date: Date,
    pub hour: u32,
    pub minute: u32,
}

pub open spec fn is_leap_year(y: int) -> bool {
    y % 4 == 0 && (y % 100 != 0 || y % 400 == 0)
}

pub open spec fn days_in_month(y: int, m: int) -> int {
    if m == 2 {
        if is_leap_year(y) {
            29
        } else {
            28
        }
    } else if m == 4 || m == 6 || m == 9 || m == 11 {
        30
    } else {
        31
    }
}

/// Whether year, month and day name a day of the calendar.
pub open spec fn valid_ymd(y: int, m: int, d: int) -> bool {
    1 <= m <= 12 && 1 <= d <= days_in_month(y, m)
}

impl Date {
    /// A real day whose year has four digits.
    pub open spec fn wf(self) -> bool {
        0 <= self.year <= 9999 && valid_ymd(self.year as int, self.month as int, self.day as int)
    }

    /// Whether this is a real day with a four-digit year.
    pub fn is_valid(&self) -> (r: bool)
        ensures
            r == self.wf(),
    {
        match Date::new(self.year, self.month, self.day) {
            Some(_) => true,
            None => false,
        }
    }

    /// The day of the given year, month and day, where there is one with a
    /// four-digit year.
    pub fn new(year: i32, month: u32, day: u32) -> (r: Option<Date>)
        ensures
            r == (if 0 <= year <= 9999 && valid_ymd(year as int, month as int, day as int) {
                Some(Date { year, month, day })
            } else {
                None
            }),
    {
        if year < 0 || year > 9999 || month < 1 || month > 12 || day < 1 {
            return None;
        }
        let leap = year % 4 == 0 && (year % 100 != 0 || year % 400 == 0);
        let last: u32 = if month == 2 {
            if leap {
                29
            } else {
                28
            }
        } else if month == 4 || month == 6 || month == 9 || month == 11 {
            30
        } else {
            31
        };
        if day > last {
            None
        } else {
            Some(Date { year, month, day })
        }
    }
}

impl Timestamp {
    /// A real day and a clock time of it.
    pub open spec fn wf(self) -> bool {
        self.date.wf() && self.hour < 24 && self.minute < 60
    }
}

/// `YYYY-MM-DD`: four digits, a dash, two digits, a dash, two digits.
pub open spec fn is_date_shape(s: Seq<char>) -> bool {
    &&& s.len() == 10
    &&& s[4] == '-'
    &&& s[7] == '-'
    &&& all_digits(s.subrange(0, 4))
    &&& all_digits(s.subrange(5, 7))
    &&& all_digits(s.subrange(8, 10))
}

/// The day that a text of the shape `YYYY-MM-DD` names, if it names one.
pub open spec fn date_of_text(s: Seq<char>) -> Option<Date> {
    let y = digits_value(s.subrange(0, 4));
    let m = digits_value(s.subrange(5, 7));
    let d = digits_value(s.subrange(8, 10));
    if is_date_shape(s) && valid_ymd(y, m, d) {
        Some(Date { year: y as i32, month: m as u32, day: d as u32 })
    } else {
        None
    }
}

/// The text `YYYY-MM-DD` of a day.
pub open spec fn date_text_spec(d: Date) -> Seq<char> {
    fixed_digits_spec(d.year as nat, 4) + seq!['-'] + fixed_digits_spec(d.month as nat, 2)
        + seq!['-'] + fixed_digits_spec(d.day as nat, 2)
}

/// The text `HH:MM` of a clock time.
pub open spec fn clock_text_spec(t: Timestamp) -> Seq<char> {
    fixed_digits_spec(t.hour as nat, 2) + seq![':'] + fixed_digits_spec(t.minute as nat, 2)
}

/// `HH:MM`: two digits, a colon, two digits.
pub open spec fn is_clock_shape(s: Seq<char>) -> bool {
    &&& s.len() == 5
    &&& s[2] == ':'
    &&& all_digits(s.subrange(0, 2))
    &&& all_digits(s.subrange(3, 5))
}

/// The clock time on the day `date` that a text `HH:MM` names, if it names one.
pub open spec fn clock_of_text(date: Date, s: Seq<char>) -> Option<Timestamp> {
    let h = digits_value(s.subrange(0, 2));
    let m = digits_value(s.subrange(3, 5));
    if is_clock_shape(s) && h < 24 && m < 60 {
        Some(Timestamp { date, hour: h as u32, minute: m as u32 })
    } else {
        None
    }
}

/// What chrono's `Utc.datetime_from_str(s, "%Y-%m-%d %H:%M")` reads from a text.
pub uninterp spec fn utc_parse_of(s: Seq<char>) -> Option<Timestamp>;

/// Relies on chrono's `NaiveDate::parse_from_str` with the pattern `%Y-%m-%d`:
/// on four digits, a dash, two digits, a dash and two digits it reads the
/// three numbers and accepts them exactly when they name a real day.
#[verifier::external_body]
fn chrono_date(s: &str) -> (r: Option<Date>)
    requires
        is_date_shape(s@),
    ensures
        r == date_of_text(s@),
{
    match chrono::NaiveDate::parse_from_str(s, "%Y-%m-%d") {
        Ok(d) => Some(Date { year: d.year(), month: d.month(), day: d.day() }),
        Err(_) => None,
    }
}

/// Relies on chrono's `TimeZone::datetime_from_str` for `Utc` with the
/// pattern `%Y-%m-%d %H:%M`: the date and clock time it reads from the text.
/// On a real day `YYYY-MM-DD`, a space and `HH:MM` with the hour below 24 and
/// the minute below 60, that is the day and clock time the digits spell.
#[verifier::external_body]
#[allow(deprecated)]
fn chrono_utc_date_time(s: &str) -> (r: Option<Timestamp>)
    ensures
        r == utc_parse_of(s@),
        s@.len() == 16 && s@[10] == ' ' ==> match date_of_text(s@.subrange(0, 10)) {
            Some(d) => clock_of_text(d, s@.subrange(11, 16)) is Some ==> r == clock_of_text(
                d,
                s@.subrange(11, 16),
            ),
            None => true,
        },
{
    match chrono::Utc.datetime_from_str(s, "%Y-%m-%d %H:%M") {
        Ok(t) => {
            let date = Date { year: t.year(), month: t.month(), day: t.day() };
            Some(Timestamp { date, hour: t.hour(), minute: t.minute() })
        },
        Err(_) => None,
    }
}

fn is_digit_at(s: &str, i: usize) -> (r: bool)
    requires
        i < s@.len(),
    ensures
        r == is_digit(s@[i as int]),
{
    let c = s.get_char(i);
    '0' <= c && c <= '9'
}

/// Whether a text has the shape `YYYY-MM-DD`.
pub fn has_date_shape(s: &str) -> (r: bool)
    ensures
        r == is_date_shape(s@),
{
    if s.unicode_len() != 10 {
        return false;
    }
    let ok = s.get_char(4) == '-' && s.get_char(7) == '-' && is_digit_at(s, 0) && is_digit_at(s, 1)
        && is_digit_at(s, 2) && is_digit_at(s, 3) && is_digit_at(s, 5) && is_digit_at(s, 6)
        && is_digit_at(s, 8) && is_digit_at(s, 9);
    proof {
        let v = s@;
        if ok {
            assert(all_digits(v.subrange(0, 4)));
            assert(all_digits(v.subrange(5, 7)));
            assert(all_digits(v.subrange(8, 10)));
        } else if v[4] == '-' && v[7] == '-' {
            if all_digits(v.subrange(0, 4)) && all_digits(v.subrange(5, 7)) && all_digits(
                v.subrange(8, 10),
            ) {
                assert(is_digit(v.subrange(0, 4)[0]) && is_digit(v.subrange(0, 4)[1]));
                assert(is_digit(v.subrange(0, 4)[2]) && is_digit(v.subrange(0, 4)[3]));
                assert(is_digit(v.subrange(5, 7)[0]) && is_digit(v.subrange(5, 7)[1]));
                assert(is_digit(v.subrange(8, 10)[0]) && is_digit(v.subrange(8, 10)[1]));
            }
        }
    }
    ok
}

/// The day that a line of input names in the form `YYYY-MM-DD`, white space
/// around it aside.
pub fn parse_date(text: &str) -> (r: Result<Date, TaskError>)
    ensures
        r == (match date_of_text(trim_of(text@)) {
            Some(d) => Ok(d),
            None => Err(TaskError::InvalidFormat),
        }),
        r matches Ok(d) ==> d.wf(),
{
    date_from_text(trimmed(text))
}

/// The day that a text names in the form `YYYY-MM-DD`, and nothing else.
pub fn date_from_text(s: &str) -> (r: Result<Date, TaskError>)
    ensures
        r == (match date_of_text(s@) {
            Some(d) => Ok(d),
            None => Err(TaskError::InvalidFormat),
        }),
        r matches Ok(d) ==> d.wf(),
{
    if !has_date_shape(s) {
        return Err(TaskError::InvalidFormat);
    }
    proof {
        lemma_digits_bound(s@.subrange(0, 4));
        assert(pow10(0) == 1);
        assert(pow10(1) == 10);
        assert(pow10(2) == 100);
        assert(pow10(3) == 1000);
        assert(pow10(4) == 10000);
    }
    match chrono_date(s) {
        Some(d) => Ok(d),
        None => Err(TaskError::InvalidFormat),
    }
}

/// The text `YYYY-MM-DD` of a day.
pub fn date_text(d: &Date) -> (r: String)
    requires
        d.wf(),
    ensures
        r@ == date_text_spec(*d),
{
    proof {
        reveal_strlit("-");
    }
    let mut r = fixed_digits(d.year as u32, 4);
    r.append("-");
    let m = fixed_digits(d.month, 2);
    r.append(m.as_str());
    r.append("-");
    let dd = fixed_digits(d.day, 2);
    r.append(dd.as_str());
    r
}

/// The text `HH:MM` of a clock time.
pub fn clock_text(t: &Timestamp) -> (r: String)
    ensures
        r@ == clock_text_spec(*t),
{
    proof {
        reveal_strlit(":");
    }
    let mut r = fixed_digits(t.hour, 2);
    r.append(":");
    let m = fixed_digits(t.minute, 2);
    r.append(m.as_str());
    r
}

/// The clock time read from a line `HH:MM`, anchored to the day `date`:
/// the text chrono is given is that day, a space and the trimmed line.
pub open spec fn time_text(date: Date, line: Seq<char>) -> Seq<char> {
    date_text_spec(date) + seq![' '] + trim_of(line)
}

/// What a clock time read on the day `date` becomes: accepted only where it
/// falls on that day and names a real hour and minute.
pub open spec fn time_outcome(date: Date, parsed: Option<Timestamp>) -> Result<Timestamp, TaskError> {
    match parsed {
        Some(t) => if t.date == date && t.hour < 24 && t.minute < 60 {
            Ok(t)
        } else {
            Err(TaskError::InvalidFormat)
        },
        None => Err(TaskError::InvalidFormat),
    }
}

/// Judges what was read for a clock time on the day `date`.
pub fn time_from_parsed(date: &Date, parsed: Option<Timestamp>) -> (r: Result<Timestamp, TaskError>)
    ensures
        r == time_outcome(*date, parsed),
        r matches Ok(t) ==> (date.wf() ==> t.wf()),
{
    match parsed {
        Some(t) => {
            if t.date == *date && t.hour < 24 && t.minute < 60 {
                Ok(t)
            } else {
                Err(TaskError::InvalidFormat)
            }
        },
        None => Err(TaskError::InvalidFormat),
    }
}

/// Reading a day's own text back gives the day.
pub proof fn lemma_date_text_round_trip(d: Date)
    requires
        d.wf(),
    ensures
        date_of_text(date_text_spec(d)) == Some(d),
{
    assert(pow10(0) == 1);
    assert(pow10(1) == 10);
    assert(pow10(2) == 100);
    assert(pow10(3) == 1000);
    assert(pow10(4) == 10000);
    let y = fixed_digits_spec(d.year as nat, 4);
    let m = fixed_digits_spec(d.month as nat, 2);
    let dd = fixed_digits_spec(d.day as nat, 2);
    lemma_fixed_digits_len(d.year as nat, 4);
    lemma_fixed_digits_len(d.month as nat, 2);
    lemma_fixed_digits_len(d.day as nat, 2);
    lemma_fixed_digits_value(d.year as nat, 4);
    lemma_fixed_digits_value(d.month as nat, 2);
    lemma_fixed_digits_value(d.day as nat, 2);
    let s = date_text_spec(d);
    assert(s.subrange(0, 4) =~= y);
    assert(s.subrange(5, 7) =~= m);
    assert(s.subrange(8, 10) =~= dd);
}

/// The clock time that a text `HH:MM`, with nothing around it, names on the
/// day `date`: chrono reads the day's text, a space and the text.
pub fn time_from_text(date: &Date, s: &str) -> (r: Result<Timestamp, TaskError>)
    requires
        date.wf(),
    ensures
        r == time_outcome(*date, utc_parse_of(date_text_spec(*date) + seq![' '] + s@)),
        clock_of_text(*date, s@) matches Some(t) ==> r == Ok::<Timestamp, TaskError>(t),
        r matches Ok(t) ==> t.wf() && t.date == *date,
{
    proof {
        reveal_strlit(" ");
    }
    let mut c = date_text(date);
    c.append(" ");
    c.append(s);
    let ghost full = date_text_spec(*date) + seq![' '] + s@;
    assert(c@ =~= full);
    proof {
        lemma_date_text_round_trip(*date);
        lemma_fixed_digits_len(date.year as nat, 4);
        lemma_fixed_digits_len(date.month as nat, 2);
        lemma_fixed_digits_len(date.day as nat, 2);
        assert(full.subrange(0, 10) =~= date_text_spec(*date));
        assert(full.subrange(11, full.len() as int) =~= s@);
        if clock_of_text(*date, s@) is Some {
            assert(full.len() == 16);
            assert(full[10] == ' ');
            assert(full.subrange(11, 16) == s@);
        }
    }
    let parsed = chrono_utc_date_time(c.as_str());
    proof {
        if clock_of_text(*date, s@) is Some {
            lemma_digits_bound(s@.subrange(0, 2));
            lemma_digits_bound(s@.subrange(3, 5));
        }
    }
    time_from_parsed(date, parsed)
}

/// The clock time that a line `HH:MM` names on the day `date`.
pub fn parse_time(date: &Date, text: &str) -> (r: Result<Timestamp, TaskError>)
    requires
        date.wf(),
    ensures
        r == time_outcome(*date, utc_parse_of(time_text(*date, text@))),
        clock_of_text(*date, trim_of(text@)) matches Some(t) ==> r == Ok::<Timestamp, TaskError>(t),
        r matches Ok(t) ==> t.wf() && t.date == *date,
{
    time_from_text(date, trimmed(text))
}

} // verus!

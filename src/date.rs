//! Service dates (`MM-DD-YYYY`) and the calendar dates that reports compare them to.

use vstd::prelude::*;

verus! {

/// A calendar date: year, month (1 to 12) and day of month (1 to 31).
#[derive(Clone, Copy, Debug)]
pub struct CalendarDate {
    pub year: i32,
    pub month: u32,
    pub day: u32,
}

impl CalendarDate {
    /// Month and day lie in their calendar ranges.
    pub open spec fn wf(self) -> bool {
        1 <= self.month <= 12 && 1 <= self.day <= 31
    }

    /// A number that orders well-formed dates chronologically: by year, then
    /// month, then day.
    pub open spec fn ordinal(self) -> int {
        self.year as int * 10000 + self.month as int * 100 + self.day as int
    }

    /// The chronological ordinal of this date.
    pub fn ordinal_value(&self) -> (r: i64)
        ensures
            r == self.ordinal(),
    {
        self.year as i64 * 10000 + self.month as i64 * 100 + self.day as i64
    }
}

/// An ASCII decimal digit.
pub open spec fn is_digit(c: char) -> bool {
    '0' <= c && c <= '9'
}

/// The value of a decimal digit.
pub open spec fn digit_value(c: char) -> int {
    c as u32 - '0' as u32
}

/// The number written by the two digits at `i` and `i + 1`.
pub open spec fn two_digit_value(s: Seq<char>, i: int) -> int {
    10 * digit_value(s[i]) + digit_value(s[i + 1])
}

/// `s` is a service date `MM-DD-YYYY`: a zero-padded month from 01 to 12, a
/// zero-padded day from 01 to 31 and a year of four digits, separated by dashes.
pub open spec fn is_service_date(s: Seq<char>) -> bool {
    &&& s.len() == 10
    &&& is_digit(s[0]) && is_digit(s[1]) && s[2] == '-'
    &&& is_digit(s[3]) && is_digit(s[4]) && s[5] == '-'
    &&& is_digit(s[6]) && is_digit(s[7]) && is_digit(s[8]) && is_digit(s[9])
    &&& 1 <= two_digit_value(s, 0) <= 12
    &&& 1 <= two_digit_value(s, 3) <= 31
}

/// The calendar date that a service date names.
pub open spec fn service_date_of(s: Seq<char>) -> CalendarDate {
    CalendarDate {
        year: (100 * two_digit_value(s, 6) + two_digit_value(s, 8)) as i32,
        month: two_digit_value(s, 0) as u32,
        day: two_digit_value(s, 3) as u32,
    }
}

fn digit_at(s: &str, i: usize) -> (r: Option<u32>)
    requires
        i < s@.len(),
    ensures
        r is Some <==> is_digit(s@[i as int]),
        r matches Some(d) ==> d == digit_value(s@[i as int]) && d < 10,
{
    let c = s.get_char(i);
    if '0' <= c && c <= '9' {
        Some(c as u32 - '0' as u32)
    } else {
        None
    }
}

/// Reads a service date `MM-DD-YYYY`; `None` when `s` does not have that form.
pub fn parse_service_date(s: &str) -> (r: Option<CalendarDate>)
    ensures
        r is Some <==> is_service_date(s@),
        r matches Some(d) ==> d == service_date_of(s@) && d.wf(),
{
    if s.unicode_len() != 10 {
        return None;
    }
    if s.get_char(2) != '-' || s.get_char(5) != '-' {
        return None;
    }
    let m0 = match digit_at(s, 0) { Some(d) => d, None => return None };
    let m1 = match digit_at(s, 1) { Some(d) => d, None => return None };
    let d0 = match digit_at(s, 3) { Some(d) => d, None => return None };
    let d1 = match digit_at(s, 4) { Some(d) => d, None => return None };
    let y0 = match digit_at(s, 6) { Some(d) => d, None => return None };
    let y1 = match digit_at(s, 7) { Some(d) => d, None => return None };
    let y2 = match digit_at(s, 8) { Some(d) => d, None => return None };
    let y3 = match digit_at(s, 9) { Some(d) => d, None => return None };
    let month = 10 * m0 + m1;
    let day = 10 * d0 + d1;
    if month < 1 || month > 12 || day < 1 || day > 31 {
        return None;
    }
    let year = (1000 * y0 + 100 * y1 + 10 * y2 + y3) as i32;
    Some(CalendarDate { year, month, day })
}

/// Relies on chrono: `Local::now()`, moved back by `days` whole days with
/// `DateTime::checked_sub_signed` (`None` outside chrono's range of dates), and
/// read through `Datelike`, whose `month` lies in 1 to 12 and `day` in 1 to 31.
#[verifier::external_body]
pub(crate) fn local_date_days_ago(days: u32) -> (r: Option<CalendarDate>)
    ensures
        r matches Some(d) ==> d.wf(),
{
    match chrono::Local::now().checked_sub_signed(chrono::Duration::days(days as i64)) {
        Some(t) => Some(CalendarDate {
            year: chrono::Datelike::year(&t),
            month: chrono::Datelike::month(&t),
            day: chrono::Datelike::day(&t),
        }),
        None => None,
    }
}

} // verus!

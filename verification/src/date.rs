//! Calendar dates of the Gregorian calendar, their ordering and weekdays,
//! and the two string forms the engine accepts: plain `YYYY-MM-DD` dates and
//! RFC 3339 timestamps (read through an outside parser and reduced to the
//! civil date of the instant in UTC).

use vstd::prelude::*;
use vstd::string::StringExecFns;

use crate::text::{append_two_digits, digit_val, is_digit_char, spec_digit, str_chars};
use crate::weekday::{weekday_from_index, Weekday};

verus! {

/// Gregorian leap-year rule.
pub open spec fn is_leap_year(y: int) -> bool {
    y % 4 == 0 && (y % 100 != 0 || y % 400 == 0)
}

/// Length of month `m` of year `y`, for `m` in `[1, 12]`.
pub open spec fn days_in_month(y: int, m: int) -> int {
    if m == 2 {
        if is_leap_year(y) {
            29
        } else {
            28
        }
    } else if m == 4 || m == 6 || m == 9 || m == 11 {
        30
    } else {
        31
    }
}

/// Length of year `y` in days.
pub open spec fn days_in_year(y: int) -> int {
    if is_leap_year(y) {
        366
    } else {
        365
    }
}

/// Days in all years before year `y`, counted from year 0.
pub open spec fn days_before_year(y: int) -> int
    decreases y when y >= 0
{
    if y <= 0 {
        0
    } else {
        days_before_year(y - 1) + days_in_year(y - 1)
    }
}

/// Days of year `y` that precede month `m`.
pub open spec fn days_before_month(y: int, m: int) -> int
    decreases m when m >= 1
{
    if m <= 1 {
        0
    } else {
        days_before_month(y, m - 1) + days_in_month(y, m - 1)
    }
}

/// A calendar date. Valid values satisfy [`Date::wf`].
#[derive(Clone, Copy, PartialEq, Eq, Structural, Debug)]
pub struct Date {
    pub year: u16,
    pub month: u8,
    pub day: u8,
}

/// Exact length of year `y` in days-before-month terms: the twelve months
/// together make up the year.
pub proof fn lemma_months_total(y: int)
    ensures
        days_before_month(y, 13) == days_in_year(y),
{
    reveal_with_fuel(days_before_month, 13);
    if is_leap_year(y) {
        assert(days_before_month(y, 13) == 366);
    } else {
        assert(days_before_month(y, 13) == 365);
    }
}

/// `days_before_month` grows with the month.
pub proof fn lemma_days_before_month_mono(y: int, m1: int, m2: int)
    requires
        1 <= m1 <= m2 <= 13,
    ensures
        days_before_month(y, m1) <= days_before_month(y, m2),
    decreases m2 - m1,
{
    if m1 < m2 {
        lemma_days_before_month_mono(y, m1, m2 - 1);
    }
}

/// `days_before_year` grows with the year, by at least 365 days a year.
pub proof fn lemma_days_before_year_mono(y1: int, y2: int)
    requires
        0 <= y1 <= y2,
    ensures
        days_before_year(y1) <= days_before_year(y2),
        days_before_year(y1) + 365 * (y2 - y1) <= days_before_year(y2),
    decreases y2 - y1,
{
    if y1 < y2 {
        lemma_days_before_year_mono(y1, y2 - 1);
    }
}

/// An upper bound on `days_before_year`, used to bound the accumulator when
/// it is computed by a loop.
pub proof fn lemma_days_before_year_bound(y: int)
    requires
        0 <= y,
    ensures
        days_before_year(y) <= 366 * y,
    decreases y,
{
    if y > 0 {
        lemma_days_before_year_bound(y - 1);
    }
}

/// The day number of a valid date lies within the span of its year.
pub proof fn lemma_day_number_range(d: Date)
    requires
        d.valid_md(),
    ensures
        days_before_year(d.year as int) <= d.spec_day_number(),
        d.spec_day_number() < days_before_year(d.year as int + 1),
{
    lemma_days_before_month_mono(d.year as int, 1, d.month as int);
    lemma_days_before_month_mono(d.year as int, d.month as int + 1, 13);
    lemma_months_total(d.year as int);
}

/// Day-number order respects year order for valid dates.
pub proof fn lemma_year_of_day_number_le(d1: Date, d2: Date)
    requires
        d1.valid_md(),
        d2.valid_md(),
        d1.spec_day_number() <= d2.spec_day_number(),
    ensures
        d1.year <= d2.year,
{
    if d1.year > d2.year {
        lemma_day_number_range(d1);
        lemma_day_number_range(d2);
        lemma_days_before_year_mono(d2.year as int + 1, d1.year as int);
    }
}

/// The next calendar day.
pub open spec fn spec_succ(d: Date) -> Date {
    if d.day < days_in_month(d.year as int, d.month as int) {
        Date { year: d.year, month: d.month, day: (d.day + 1) as u8 }
    } else if d.month < 12 {
        Date { year: d.year, month: (d.month + 1) as u8, day: 1 }
    } else {
        Date { year: (d.year + 1) as u16, month: 1, day: 1 }
    }
}

/// Taking the next calendar day of a valid date gives a valid date whose day
/// number is one greater.
pub proof fn lemma_succ(d: Date)
    requires
        d.valid_md(),
        d.year < 65535,
    ensures
        spec_succ(d).valid_md(),
        spec_succ(d).year <= d.year + 1,
        spec_succ(d).spec_day_number() == d.spec_day_number() + 1,
{
    let y = d.year as int;
    let m = d.month as int;
    if d.day < days_in_month(y, m) {
    } else if d.month < 12 {
        assert(days_before_month(y, m + 1) == days_before_month(y, m) + days_in_month(y, m));
    } else {
        lemma_months_total(y);
        assert(days_before_month(y, 13) == days_before_month(y, 12) + days_in_month(y, 12));
        assert(days_before_year(y + 1) == days_before_year(y) + days_in_year(y));
    }
}

/// Whether year `y` is a leap year.
pub fn leap_year(y: u16) -> (b: bool)
    ensures
        b == is_leap_year(y as int),
{
    y % 4 == 0 && (y % 100 != 0 || y % 400 == 0)
}

/// The number of days of month `m` of year `y`.
pub fn month_length(y: u16, m: u8) -> (n: u8)
    ensures
        n == days_in_month(y as int, m as int),
{
    if m == 2 {
        if leap_year(y) {
            29
        } else {
            28
        }
    } else if m == 4 || m == 6 || m == 9 || m == 11 {
        30
    } else {
        31
    }
}

impl Date {
    /// The month and day denote a real day of the year.
    pub open spec fn valid_md(self) -> bool {
        &&& 1 <= self.month <= 12
        &&& 1 <= self.day <= days_in_month(self.year as int, self.month as int)
    }

    /// Well-formed date: a real day of a four-digit year.
    pub open spec fn wf(self) -> bool {
        self.valid_md() && self.year <= 9999
    }

    /// Days since the first day of year 0; the order on dates is the order on
    /// this number.
    pub open spec fn spec_day_number(self) -> int {
        days_before_year(self.year as int) + days_before_month(
            self.year as int,
            self.month as int,
        ) + self.day - 1
    }

    /// Whether this value is a well-formed date.
    pub fn is_wf(&self) -> (r: bool)
        ensures
            r == self.wf(),
    {
        1 <= self.month && self.month <= 12 && 1 <= self.day && self.day <= month_length(
            self.year,
            self.month,
        ) && self.year <= 9999
    }

    /// The day number of this date, as a machine integer.
    pub fn day_number(&self) -> (n: u32)
        requires
            self.valid_md(),
        ensures
            n == self.spec_day_number(),
    {
        let mut acc: u32 = 0;
        let mut i: u16 = 0;
        while i < self.year
            invariant
                i <= self.year,
                acc == days_before_year(i as int),
                acc <= 366 * (i as int),
            decreases self.year - i,
        {
            proof {
                lemma_days_before_year_bound(i as int + 1);
            }
            if leap_year(i) {
                acc = acc + 366;
            } else {
                acc = acc + 365;
            }
            i = i + 1;
        }
        let mut m: u8 = 1;
        while m < self.month
            invariant
                1 <= m <= self.month,
                self.valid_md(),
                acc == days_before_year(self.year as int) + days_before_month(
                    self.year as int,
                    m as int,
                ),
                acc <= 366 * (self.year as int) + 31 * (m as int),
            decreases self.month - m,
        {
            acc = acc + month_length(self.year, m) as u32;
            m = m + 1;
        }
        acc + self.day as u32 - 1
    }

    /// The next calendar day.
    pub fn succ(&self) -> (r: Date)
        requires
            self.valid_md(),
            self.year <= 9999,
        ensures
            r == spec_succ(*self),
            r.valid_md(),
            r.year <= self.year + 1,
            r.spec_day_number() == self.spec_day_number() + 1,
    {
        proof {
            lemma_succ(*self);
        }
        if self.day < month_length(self.year, self.month) {
            Date { year: self.year, month: self.month, day: self.day + 1 }
        } else if self.month < 12 {
            Date { year: self.year, month: self.month + 1, day: 1 }
        } else {
            Date { year: self.year + 1, month: 1, day: 1 }
        }
    }

    /// Whether this date is on or before `other`.
    pub fn le(&self, other: &Date) -> (r: bool)
        requires
            self.valid_md(),
            other.valid_md(),
        ensures
            r == (self.spec_day_number() <= other.spec_day_number()),
    {
        self.day_number() <= other.day_number()
    }

    /// The position of this date's weekday in the week, Monday first.
    pub open spec fn spec_weekday_index(self) -> int {
        (self.spec_day_number() + 5) % 7
    }

    /// The weekday of this date.
    pub open spec fn spec_weekday(self) -> Weekday {
        weekday_from_index(self.spec_weekday_index())
    }

    /// Computes the weekday of this date.
    pub fn weekday(&self) -> (w: Weekday)
        requires
            self.valid_md(),
        ensures
            w == self.spec_weekday(),
    {
        let n: u32 = self.day_number();
        let i: u32 = (n % 7 + 5) % 7;
        proof {
            vstd::arithmetic::div_mod::lemma_add_mod_noop(n as int, 5, 7);
            assert(5int % 7 == 5);
        }
        if i == 0 {
            Weekday::Monday
        } else if i == 1 {
            Weekday::Tuesday
        } else if i == 2 {
            Weekday::Wednesday
        } else if i == 3 {
            Weekday::Thursday
        } else if i == 4 {
            Weekday::Friday
        } else if i == 5 {
            Weekday::Saturday
        } else {
            Weekday::Sunday
        }
    }

    /// The date a string of the form `YYYY-MM-DD` denotes, or `None` when the
    /// string does not match that form or names no real calendar day.
    /// Malformed dates are rejected here, never silently replaced.
    pub fn parse(s: &str) -> (r: Option<Date>)
        ensures
            r is Some <==> valid_date_chars(s@),
            r matches Some(d) ==> d == date_of_chars(s@) && d.wf(),
    {
        let cs = str_chars(s);
        if cs.len() != 10 {
            return None;
        }
        if cs[4] != '-' || cs[7] != '-' {
            return None;
        }
        let c0: u32 = cs[0] as u32;
        let c1: u32 = cs[1] as u32;
        let c2: u32 = cs[2] as u32;
        let c3: u32 = cs[3] as u32;
        let c5: u32 = cs[5] as u32;
        let c6: u32 = cs[6] as u32;
        let c8: u32 = cs[8] as u32;
        let c9: u32 = cs[9] as u32;
        if !(48 <= c0 && c0 <= 57 && 48 <= c1 && c1 <= 57 && 48 <= c2 && c2 <= 57 && 48 <= c3
            && c3 <= 57 && 48 <= c5 && c5 <= 57 && 48 <= c6 && c6 <= 57 && 48 <= c8 && c8 <= 57
            && 48 <= c9 && c9 <= 57) {
            return None;
        }
        let year: u32 = (c0 - 48) * 1000 + (c1 - 48) * 100 + (c2 - 48) * 10 + (c3 - 48);
        let month: u32 = (c5 - 48) * 10 + (c6 - 48);
        let day: u32 = (c8 - 48) * 10 + (c9 - 48);
        let d = Date { year: year as u16, month: month as u8, day: day as u8 };
        if month < 1 || month > 12 {
            return None;
        }
        if day < 1 || day > month_length(d.year, d.month) as u32 {
            return None;
        }
        Some(d)
    }

    /// The `YYYY-MM-DD` rendering of a valid date, zero-padded. Parsing the
    /// result gives the date back.
    pub fn format(&self) -> (r: String)
        requires
            self.wf(),
        ensures
            r@ == spec_format_date(*self),
            valid_date_chars(r@),
            date_of_chars(r@) == *self,
    {
        let mut out = String::new();
        append_two_digits(&mut out, (self.year / 100) as u8);
        append_two_digits(&mut out, (self.year % 100) as u8);
        out.append("-");
        append_two_digits(&mut out, self.month);
        out.append("-");
        append_two_digits(&mut out, self.day);
        proof {
            reveal_strlit("-");
            assert(out@ =~= spec_format_date(*self));
            lemma_format_date_valid(*self);
        }
        out
    }
}

/// The `YYYY-MM-DD` grammar: ten characters, all three fields zero-padded
/// decimal, naming a real day of a four-digit year.
pub open spec fn valid_date_chars(s: Seq<char>) -> bool {
    &&& s.len() == 10
    &&& is_digit_char(s[0])
    &&& is_digit_char(s[1])
    &&& is_digit_char(s[2])
    &&& is_digit_char(s[3])
    &&& s[4] == '-'
    &&& is_digit_char(s[5])
    &&& is_digit_char(s[6])
    &&& s[7] == '-'
    &&& is_digit_char(s[8])
    &&& is_digit_char(s[9])
    &&& date_of_chars(s).valid_md()
}

/// The date denoted by a string matching the `YYYY-MM-DD` grammar.
pub open spec fn date_of_chars(s: Seq<char>) -> Date {
    Date {
        year: (digit_val(s[0]) * 1000 + digit_val(s[1]) * 100 + digit_val(s[2]) * 10 + digit_val(
            s[3],
        )) as u16,
        month: (digit_val(s[5]) * 10 + digit_val(s[6])) as u8,
        day: (digit_val(s[8]) * 10 + digit_val(s[9])) as u8,
    }
}

/// What chrono's RFC 3339 parser yields for a string: the civil date
/// `(year, month, day)` of the denoted instant in UTC, or `None` when the
/// string is not a valid RFC 3339 date-time. A function of the characters
/// alone.
pub uninterp spec fn utc_date_of_rfc3339(s: Seq<char>) -> Option<(int, int, int)>;

/// Relies on chrono's `DateTime::parse_from_rfc3339` and `naive_utc`: the
/// parser accepts exactly the RFC 3339 date-time grammar (four-digit year,
/// real calendar day, offset of at most a day), applies the offset written in
/// the string, and its result depends on the input characters alone.
/// [`utc_date_of_rfc3339`] names the civil date of the parsed instant in UTC;
/// chrono only ever holds real calendar days, so the month and day are valid.
#[verifier::external_body]
fn parse_rfc3339_utc_date(s: &str) -> (r: Option<(i32, u8, u8)>)
    ensures
        r is Some <==> utc_date_of_rfc3339(s@) is Some,
        r matches Some((y, m, d)) ==> {
            &&& utc_date_of_rfc3339(s@) == Some((y as int, m as int, d as int))
            &&& 1 <= m <= 12
            &&& 1 <= d <= days_in_month(y as int, m as int)
        },
{
    match chrono::DateTime::parse_from_rfc3339(s) {
        Ok(dt) => {
            let date = dt.naive_utc().date();
            Some((
                chrono::Datelike::year(&date),
                chrono::Datelike::month(&date) as u8,
                chrono::Datelike::day(&date) as u8,
            ))
        },
        Err(_) => None,
    }
}

/// The engine's reading of an RFC 3339 timestamp: the civil date of the
/// denoted instant in UTC, accepted when it falls in years 0 through 9999.
pub open spec fn spec_timestamp_date(s: Seq<char>) -> Option<Date> {
    match utc_date_of_rfc3339(s) {
        Some((y, m, d)) => if 0 <= y <= 9999 {
            Some(Date { year: y as u16, month: m as u8, day: d as u8 })
        } else {
            None
        },
        None => None,
    }
}

impl Date {
    /// The date an RFC 3339 timestamp denotes, in UTC, or `None` when the
    /// string does not parse or its date falls outside years 0 through 9999.
    pub fn parse_timestamp(s: &str) -> (r: Option<Date>)
        ensures
            r == spec_timestamp_date(s@),
            r matches Some(d) ==> d.wf(),
    {
        match parse_rfc3339_utc_date(s) {
            Some((y, m, d)) => {
                if 0 <= y && y <= 9999 {
                    Some(Date { year: y as u16, month: m, day: d })
                } else {
                    None
                }
            },
            None => None,
        }
    }
}

/// The ten characters of the `YYYY-MM-DD` rendering of `d`.
pub open spec fn spec_format_date(d: Date) -> Seq<char> {
    seq![
        spec_digit((d.year as int / 100) / 10),
        spec_digit((d.year as int / 100) % 10),
        spec_digit((d.year as int % 100) / 10),
        spec_digit((d.year as int % 100) % 10),
        '-',
        spec_digit(d.month as int / 10),
        spec_digit(d.month as int % 10),
        '-',
        spec_digit(d.day as int / 10),
        spec_digit(d.day as int % 10),
    ]
}

/// Formatting a valid date yields a valid `YYYY-MM-DD` string denoting that
/// date.
pub proof fn lemma_format_date_valid(d: Date)
    requires
        d.wf(),
    ensures
        valid_date_chars(spec_format_date(d)),
        date_of_chars(spec_format_date(d)) == d,
{
    let y = d.year as int;
    crate::text::lemma_spec_digit_val((y / 100) / 10);
    crate::text::lemma_spec_digit_val((y / 100) % 10);
    crate::text::lemma_spec_digit_val((y % 100) / 10);
    crate::text::lemma_spec_digit_val((y % 100) % 10);
    crate::text::lemma_spec_digit_val(d.month as int / 10);
    crate::text::lemma_spec_digit_val(d.month as int % 10);
    crate::text::lemma_spec_digit_val(d.day as int / 10);
    crate::text::lemma_spec_digit_val(d.day as int % 10);
    assert(((y / 100) / 10) * 1000 + ((y / 100) % 10) * 100 + ((y % 100) / 10) * 10 + ((y % 100)
        % 10) == y) by {
        assert((y / 100) * 100 + y % 100 == y);
        assert(((y / 100) / 10) * 10 + (y / 100) % 10 == y / 100);
        assert(((y % 100) / 10) * 10 + (y % 100) % 10 == y % 100);
    }
}

} // verus!

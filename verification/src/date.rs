//! Calendar dates, held as their day number in the proleptic Gregorian
//! calendar (January 1 of year 1 is day 1), with the calendar arithmetic
//! delegated to `chrono`.
use vstd::prelude::*;
use chrono::{DateTime, Datelike, NaiveDate, TimeDelta};
use std::time::{SystemTime, UNIX_EPOCH};
use std::fmt::Write;

verus! {

/// First year that `chrono::NaiveDate` can represent.
pub const MIN_YEAR: i32 = -262143;

/// Last year that `chrono::NaiveDate` can represent.
pub const MAX_YEAR: i32 = 262142;

/// Day number of January 1 of `MIN_YEAR`.
pub const MIN_DAYS: i32 = -95746129;

/// Day number of December 31 of `MAX_YEAR`.
pub const MAX_DAYS: i32 = 95745399;

/// Gregorian leap years: multiples of 4, except multiples of 100 that are
/// not multiples of 400.
pub open spec fn is_leap_year(year: int) -> bool {
    (year % 4 == 0 && year % 100 != 0) || year % 400 == 0
}

/// Number of days of `month` (1 to 12) in `year`.
pub open spec fn days_in_month(year: int, month: int) -> int {
    if month == 2 {
        if is_leap_year(year) { 29 } else { 28 }
    } else if month == 4 || month == 6 || month == 9 || month == 11 {
        30
    } else {
        31
    }
}

/// Number of days in `year` before the first day of `month`.
pub open spec fn days_before_month(year: int, month: int) -> int
    decreases month,
{
    if month <= 1 {
        0
    } else {
        days_before_month(year, month - 1) + days_in_month(year, month - 1)
    }
}

/// Whether `year-month-day` is a calendar date that `chrono::NaiveDate`
/// can represent.
pub open spec fn is_valid_ymd(year: int, month: int, day: int) -> bool {
    &&& MIN_YEAR <= year <= MAX_YEAR
    &&& 1 <= month <= 12
    &&& 1 <= day <= days_in_month(year, month)
}

/// Day number of `year-month-day` in the proleptic Gregorian calendar,
/// January 1 of year 1 being day 1 (`/` rounds down).
pub open spec fn ymd_to_days(year: int, month: int, day: int) -> int {
    let y = year - 1;
    365 * y + y / 4 - y / 100 + y / 400 + days_before_month(year, month) + day
}

/// The calendar date that follows `year-month-day`.
pub open spec fn following_ymd(year: int, month: int, day: int) -> (int, int, int) {
    if day < days_in_month(year, month) {
        (year, month, day + 1)
    } else if month < 12 {
        (year, month + 1, 1)
    } else {
        (year + 1, 1, 1)
    }
}

/// Law: day numbers count calendar days, so the date that follows a
/// calendar date has the next day number.
pub proof fn lemma_following_day_number(year: int, month: int, day: int)
    requires
        1 <= month <= 12,
        1 <= day <= days_in_month(year, month),
    ensures
        ({
            let (y, m, d) = following_ymd(year, month, day);
            ymd_to_days(y, m, d) == ymd_to_days(year, month, day) + 1
        }),
{
    if day < days_in_month(year, month) {
    } else if month < 12 {
        assert(days_before_month(year, month + 1) == days_before_month(year, month)
            + days_in_month(year, month));
    } else {
        reveal_with_fuel(days_before_month, 12);
        assert(days_before_month(year, 12) == if is_leap_year(year) { 335int } else { 334int });
        let y = year - 1;
        assert(year / 4 - y / 4 == if year % 4 == 0 { 1int } else { 0int });
        assert(year / 100 - y / 100 == if year % 100 == 0 { 1int } else { 0int });
        assert(year / 400 - y / 400 == if year % 400 == 0 { 1int } else { 0int });
    }
}

/// A calendar date, held as its day number (see `ymd_to_days`).
/// Every value lies in the range that `chrono::NaiveDate` covers.
#[derive(Clone, Copy, Debug, PartialEq, Eq, Hash)]
pub struct Date {
    days: i32,
}

impl Date {
    #[verifier::type_invariant]
    spec fn in_range(self) -> bool {
        MIN_DAYS <= self.days <= MAX_DAYS
    }
}

impl View for Date {
    type V = int;

    /// The day number of the date.
    closed spec fn view(&self) -> int {
        self.days as int
    }
}

/// The text that `chrono` writes for the date with day number `days` under
/// the strftime-style format `fmt`, or `None` where `chrono` reports the
/// format as invalid for a date.
pub uninterp spec fn chrono_date_text(days: int, fmt: Seq<char>) -> Option<Seq<char>>;

/// Calls `chrono::NaiveDate::from_ymd_opt` and takes the day number of the
/// result (`Datelike::num_days_from_ce`). chrono documents that the date
/// exists exactly for a real calendar date within its year range, and that
/// the day number counts days in the proleptic Gregorian calendar from
/// January 1 of year 1 as day 1.
#[verifier::external_body]
fn chrono_from_ymd(year: i32, month: u32, day: u32) -> (r: Option<Date>)
    ensures
        r is Some <==> is_valid_ymd(year as int, month as int, day as int),
        r matches Some(d) ==> d@ == ymd_to_days(year as int, month as int, day as int),
{
    NaiveDate::from_ymd_opt(year, month, day).map(|d| Date { days: d.num_days_from_ce() })
}

/// Calls `NaiveDate::checked_add_signed` with `TimeDelta::days(1)`: the next
/// calendar day, or `None` past the last date chrono can represent.
#[verifier::external_body]
fn chrono_add_one_day(date: Date) -> (r: Option<Date>)
    ensures
        r is Some <==> date@ < MAX_DAYS,
        r matches Some(d) ==> d@ == date@ + 1,
{
    let naive = NaiveDate::from_num_days_from_ce_opt(date.days).expect("date in chrono's range");
    naive.checked_add_signed(TimeDelta::days(1)).map(|d| Date { days: d.num_days_from_ce() })
}

/// A format made of literal text and the specifiers `%Y` (year), `%m`
/// (month), `%d` (day) and `%b` (short month name): every `%` is followed by
/// one of those four letters.
pub open spec fn is_plain_date_format(fmt: Seq<char>) -> bool {
    forall|i: int|
        0 <= i < fmt.len() && #[trigger] fmt[i] == '%' ==> i + 1 < fmt.len() && (fmt[i + 1] == 'Y'
            || fmt[i + 1] == 'm' || fmt[i + 1] == 'd' || fmt[i + 1] == 'b')
}

/// The character of the decimal digit `n` (0 to 9).
pub open spec fn digit_char(n: int) -> char {
    (48 + n) as char
}

/// `n` (0 to 99) as two decimal digits, with a leading zero.
pub open spec fn two_digits(n: int) -> Seq<char> {
    seq![digit_char(n / 10), digit_char(n % 10)]
}

/// `n` (0 to 9999) as four decimal digits, with leading zeros.
pub open spec fn four_digits(n: int) -> Seq<char> {
    seq![digit_char(n / 1000), digit_char(n / 100 % 10), digit_char(n / 10 % 10), digit_char(n % 10)]
}

/// The English three-letter name of `month` (1 to 12).
pub open spec fn short_month_name(month: int) -> Seq<char> {
    if month == 1 {
        seq!['J', 'a', 'n']
    } else if month == 2 {
        seq!['F', 'e', 'b']
    } else if month == 3 {
        seq!['M', 'a', 'r']
    } else if month == 4 {
        seq!['A', 'p', 'r']
    } else if month == 5 {
        seq!['M', 'a', 'y']
    } else if month == 6 {
        seq!['J', 'u', 'n']
    } else if month == 7 {
        seq!['J', 'u', 'l']
    } else if month == 8 {
        seq!['A', 'u', 'g']
    } else if month == 9 {
        seq!['S', 'e', 'p']
    } else if month == 10 {
        seq!['O', 'c', 't']
    } else if month == 11 {
        seq!['N', 'o', 'v']
    } else {
        seq!['D', 'e', 'c']
    }
}

/// The text of a plain date format (see `is_plain_date_format`) for the
/// date `year-month-day` with a year of at most four digits: literal text
/// as it stands, `%Y` the year in four digits, `%m` and `%d` the month and
/// the day in two, `%b` the month's short English name.
pub open spec fn plain_date_text(fmt: Seq<char>, year: int, month: int, day: int) -> Seq<char>
    decreases fmt.len(),
{
    if fmt.len() == 0 {
        seq![]
    } else if fmt[0] == '%' && fmt.len() >= 2 {
        let field = if fmt[1] == 'Y' {
            four_digits(year)
        } else if fmt[1] == 'm' {
            two_digits(month)
        } else if fmt[1] == 'd' {
            two_digits(day)
        } else {
            short_month_name(month)
        };
        field + plain_date_text(fmt.skip(2), year, month, day)
    } else {
        seq![fmt[0]] + plain_date_text(fmt.drop_first(), year, month, day)
    }
}

/// Text without `%` stands as it is in front of the rest of a format.
pub proof fn lemma_plain_text_literal(text: Seq<char>, rest: Seq<char>, year: int, month: int, day: int)
    requires
        forall|i: int| 0 <= i < text.len() ==> text[i] != '%',
    ensures
        plain_date_text(text + rest, year, month, day) == text + plain_date_text(rest, year, month, day),
    decreases text.len(),
{
    if text.len() > 0 {
        lemma_plain_text_literal(text.drop_first(), rest, year, month, day);
        assert((text + rest).drop_first() =~= text.drop_first() + rest);
        assert(text =~= seq![text[0]] + text.drop_first());
    } else {
        assert(text + rest =~= rest);
    }
}

/// A specifier `%c` in front of the rest of a format gives its field.
pub proof fn lemma_plain_text_field(c: char, rest: Seq<char>, year: int, month: int, day: int)
    ensures
        plain_date_text(seq!['%', c] + rest, year, month, day) == (if c == 'Y' {
            four_digits(year)
        } else if c == 'm' {
            two_digits(month)
        } else if c == 'd' {
            two_digits(day)
        } else {
            short_month_name(month)
        }) + plain_date_text(rest, year, month, day),
{
    assert((seq!['%', c] + rest).skip(2) =~= rest);
}

/// Writes the date with `NaiveDate::format(fmt)` into a `String`; `None`
/// where chrono's formatter reports an error (an unknown or time-of-day
/// specifier). chrono reads text other than `%` as literal, and the four
/// specifiers of `is_plain_date_format` always have a value for a date, so
/// such a format never fails; for a year from 0 to 9999 its text is
/// `plain_date_text` of the date's year, month and day (chrono writes `%Y`
/// zero-padded to four digits there, `%m` and `%d` to two, and `%b` from its
/// English month names). Other text is named, not stated: `chrono_date_text`.
#[verifier::external_body]
pub(crate) fn chrono_format(date: Date, fmt: &str) -> (r: Option<String>)
    ensures
        opt_string_view(r) == chrono_date_text(date@, fmt@),
        is_plain_date_format(fmt@) ==> r is Some,
        forall|year: int, month: int, day: int|
            #![trigger ymd_to_days(year, month, day)]
            is_plain_date_format(fmt@) && is_valid_ymd(year, month, day) && 0 <= year <= 9999
                && ymd_to_days(year, month, day) == date@ ==> opt_string_view(r) == Some(
                plain_date_text(fmt@, year, month, day),
            ),
{
    let naive = NaiveDate::from_num_days_from_ce_opt(date.days).expect("date in chrono's range");
    let mut text = String::new();
    match write!(text, "{}", naive.format(fmt)) {
        Ok(()) => Some(text),
        Err(_) => None,
    }
}

/// The time of the system clock as seconds and nanoseconds since the Unix
/// epoch: `SystemTime::now().duration_since(UNIX_EPOCH)`, or `None` when the
/// clock reads a time before the epoch. Which time comes back is not stated;
/// the nanoseconds are below one second, as `Duration::subsec_nanos` says.
#[verifier::external_body]
pub(crate) fn system_time_since_epoch() -> (r: Option<(u64, u32)>)
    ensures
        r matches Some((_, nanos)) ==> nanos < 1_000_000_000,
{
    match SystemTime::now().duration_since(UNIX_EPOCH) {
        Ok(elapsed) => Some((elapsed.as_secs(), elapsed.subsec_nanos())),
        Err(_) => None,
    }
}

/// Day number of the Unix epoch, January 1, 1970.
pub open spec fn epoch_day() -> int {
    ymd_to_days(1970, 1, 1)
}

/// Whether chrono's `DateTime::from_timestamp(secs, nanos)` accepts the
/// timestamp: its day lies in chrono's range, and the nanoseconds are below
/// one second, or below two in the last second of a minute (a leap second).
pub open spec fn is_valid_timestamp(secs: int, nanos: int) -> bool {
    &&& MIN_DAYS <= epoch_day() + secs / 86400 <= MAX_DAYS
    &&& (nanos < 1_000_000_000 || (nanos < 2_000_000_000 && secs % 60 == 59))
}

/// The UTC date of a Unix timestamp: `DateTime::from_timestamp(secs, nanos)`
/// and its date. The day is the epoch's day plus the whole days of `secs`
/// (rounded down); `None` exactly where chrono refuses the timestamp.
#[verifier::external_body]
pub(crate) fn chrono_date_of_timestamp(secs: i64, nanos: u32) -> (r: Option<Date>)
    ensures
        r is Some <==> is_valid_timestamp(secs as int, nanos as int),
        r matches Some(d) ==> d@ == epoch_day() + secs / 86400,
{
    match DateTime::from_timestamp(secs, nanos) {
        Some(time) => Some(Date { days: time.date_naive().num_days_from_ce() }),
        None => None,
    }
}

impl Date {
    /// The UTC date of the time `secs` seconds and `nanos` nanoseconds after
    /// the Unix epoch: the epoch's day plus the whole days of `secs`; `None`
    /// where the time is beyond what chrono represents, or the nanoseconds
    /// are not a valid fraction of a second.
    pub fn from_unix_time(secs: u64, nanos: u32) -> (r: Option<Date>)
        ensures
            r is Some <==> (secs <= i64::MAX && is_valid_timestamp(secs as int, nanos as int)),
            r matches Some(d) ==> d@ == epoch_day() + secs / 86400,
    {
        if secs > i64::MAX as u64 {
            None
        } else {
            chrono_date_of_timestamp(secs as i64, nanos)
        }
    }

    /// Today's date in UTC, as the system clock gives it: `from_unix_time`
    /// of the clock's reading. Which day that is depends on the clock; it is
    /// never before 1970. `None` when the clock reads a time before 1970 or
    /// one chrono cannot represent.
    pub fn today() -> (r: Option<Date>)
        ensures
            r matches Some(d) ==> d@ >= epoch_day(),
    {
        match system_time_since_epoch() {
            Some((secs, nanos)) => Date::from_unix_time(secs, nanos),
            None => None,
        }
    }
}

/// The view of an optional string.
pub open spec fn opt_string_view(s: Option<String>) -> Option<Seq<char>> {
    match s {
        Some(s) => Some(s@),
        None => None,
    }
}

impl Date {
    /// The date `year-month-day`, or `None` if there is no such calendar date
    /// in chrono's range.
    pub fn from_ymd_opt(year: i32, month: u32, day: u32) -> (r: Option<Date>)
        ensures
            r is Some <==> is_valid_ymd(year as int, month as int, day as int),
            r matches Some(d) ==> d@ == ymd_to_days(year as int, month as int, day as int),
    {
        chrono_from_ymd(year, month, day)
    }

    /// The day number of the date (January 1 of year 1 is day 1).
    pub fn days_from_ce(&self) -> (r: i32)
        ensures
            r == self@,
            MIN_DAYS <= r <= MAX_DAYS,
    {
        proof {
            use_type_invariant(self);
        }
        self.days
    }

    /// The next calendar day, or `None` for the last date chrono represents.
    pub fn next_day(&self) -> (r: Option<Date>)
        ensures
            r is Some <==> self@ < MAX_DAYS,
            r matches Some(d) ==> d@ == self@ + 1,
    {
        chrono_add_one_day(*self)
    }

    /// Two dates with the same day number are the same date.
    pub proof fn lemma_same_day(a: Date, b: Date)
        ensures
            a@ == b@ ==> a == b,
    {
    }
}

} // verus!

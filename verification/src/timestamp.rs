//! Stored timestamps: `YYYY-MM-DD HH:MM:SS`, read with chrono and compared and
//! rendered here.
use chrono::{Datelike, Timelike};
use vstd::prelude::*;

use crate::text::{dec_seq, digit_char, push_char, push_dec2};

verus! {

/// A date and time of day as chrono's `NaiveDateTime` holds it. A leap second
/// is second 59 with `nanosecond` of one billion or more.
#[derive(Debug, Clone, Copy, PartialEq, Eq, Structural)]
pub struct DateTimeParts {
    pub year: i32,
    pub month: u32,
    pub day: u32,
    pub hour: u32,
    pub minute: u32,
    pub second: u32,
    pub nanosecond: u32,
}

pub open spec fn is_leap_year(y: int) -> bool {
    (y % 4 == 0 && y % 100 != 0) || y % 400 == 0
}

/// The number of days in month `m` (1 to 12) of year `y`.
pub open spec fn days_in_month_spec(y: int, m: int) -> int {
    if m == 2 {
        if is_leap_year(y) {
            29
        } else {
            28
        }
    } else if m == 4 || m == 6 || m == 9 || m == 11 {
        30
    } else {
        31
    }
}

impl DateTimeParts {
    /// The ranges chrono guarantees for a parsed date and time.
    pub open spec fn valid(self) -> bool {
        &&& 1 <= self.month <= 12
        &&& 1 <= self.day <= days_in_month_spec(self.year as int, self.month as int)
        &&& self.hour < 24
        &&& self.minute < 60
        &&& self.second < 60
        &&& self.nanosecond < 2_000_000_000
        &&& self.nanosecond >= 1_000_000_000 ==> self.second == 59
    }
}

/// What `chrono::NaiveDateTime::parse_from_str(s, "%Y-%m-%d %H:%M:%S")` gives for
/// `s`, taken apart; `None` when it rejects `s`.
pub uninterp spec fn storage_timestamp(s: Seq<char>) -> Option<DateTimeParts>;

/// Calls `chrono::NaiveDateTime::parse_from_str` with the storage format and
/// reads the fields of the result with chrono's getters. The result is named by
/// `storage_timestamp`; chrono documents that a value it returns is a valid
/// date and time within its years, with leap seconds carried in the
/// nanoseconds. Its parser (`format/parse.rs`) reads back the storage
/// rendering of such a value: a year of four digits, or of any number of
/// digits after a sign, two-digit fields, and a second of 60 as a leap second
/// of 59; so the rendering parses to the same fields. The format has no
/// fraction of a second: the nanoseconds are 0, or a whole second for `:60`.
#[verifier::external_body]
pub(crate) fn parse_storage_timestamp(s: &str) -> (res: Option<DateTimeParts>)
    ensures
        res == storage_timestamp(s@),
        res matches Some(p) ==> p.valid() && MIN_YEAR <= p.year <= MAX_YEAR,
        res matches Some(p) ==> storage_timestamp(storage_text(p)) == Some(p),
        res matches Some(p) ==> p.nanosecond == 0 || p.nanosecond == 1_000_000_000,
{
    match chrono::NaiveDateTime::parse_from_str(s, "%Y-%m-%d %H:%M:%S") {
        Ok(dt) => Some(
            DateTimeParts {
                year: dt.year(),
                month: dt.month(),
                day: dt.day(),
                hour: dt.hour(),
                minute: dt.minute(),
                second: dt.second(),
                nanosecond: dt.nanosecond(),
            },
        ),
        Err(_) => None,
    }
}

/// `a` is earlier than `b` (chrono's order on `NaiveDateTime`).
pub open spec fn parts_before(a: DateTimeParts, b: DateTimeParts) -> bool {
    ||| a.year < b.year
    ||| a.year == b.year && a.month < b.month
    ||| a.year == b.year && a.month == b.month && a.day < b.day
    ||| a.year == b.year && a.month == b.month && a.day == b.day && a.hour < b.hour
    ||| a.year == b.year && a.month == b.month && a.day == b.day && a.hour == b.hour && a.minute
        < b.minute
    ||| a.year == b.year && a.month == b.month && a.day == b.day && a.hour == b.hour && a.minute
        == b.minute && a.second < b.second
    ||| a.year == b.year && a.month == b.month && a.day == b.day && a.hour == b.hour && a.minute
        == b.minute && a.second == b.second && a.nanosecond < b.nanosecond
}

/// True when `a` is earlier than `b`.
pub fn is_before(a: &DateTimeParts, b: &DateTimeParts) -> (res: bool)
    ensures
        res == parts_before(*a, *b),
{
    if a.year != b.year {
        return a.year < b.year;
    }
    if a.month != b.month {
        return a.month < b.month;
    }
    if a.day != b.day {
        return a.day < b.day;
    }
    if a.hour != b.hour {
        return a.hour < b.hour;
    }
    if a.minute != b.minute {
        return a.minute < b.minute;
    }
    if a.second != b.second {
        return a.second < b.second;
    }
    a.nanosecond < b.nanosecond
}

/// `n` zero-padded on the left to at least four digits.
pub open spec fn dec4_seq(n: nat) -> Seq<char> {
    if n < 10 {
        seq!['0', '0', '0'] + dec_seq(n)
    } else if n < 100 {
        seq!['0', '0'] + dec_seq(n)
    } else if n < 1000 {
        seq!['0'] + dec_seq(n)
    } else {
        dec_seq(n)
    }
}

/// The year as `%Y` renders it: four digits from 0 to 9999, otherwise a sign and
/// at least four digits.
pub open spec fn year_seq(y: int) -> Seq<char> {
    if 0 <= y <= 9999 {
        dec4_seq(y as nat)
    } else if y < 0 {
        seq!['-'] + dec4_seq((-y) as nat)
    } else {
        seq!['+'] + dec4_seq(y as nat)
    }
}

/// Two digits.
pub open spec fn two_seq(n: nat) -> Seq<char> {
    if n < 10 {
        seq!['0', digit_char(n)]
    } else {
        dec_seq(n)
    }
}

/// A date and time rendered with the storage format.
pub open spec fn storage_text(p: DateTimeParts) -> Seq<char> {
    let sec = if p.nanosecond >= 1_000_000_000 {
        p.second + 1
    } else {
        p.second as int
    };
    year_seq(p.year as int) + seq!['-'] + two_seq(p.month as nat) + seq!['-'] + two_seq(
        p.day as nat,
    ) + seq![' '] + two_seq(p.hour as nat) + seq![':'] + two_seq(p.minute as nat) + seq![':']
        + two_seq(sec as nat)
}

fn push_dec4(out: &mut String, n: u64)
    ensures
        final(out)@ == old(out)@ + dec4_seq(n as nat),
{
    let ghost start = out@;
    if n < 10 {
        push_char(out, '0');
        push_char(out, '0');
        push_char(out, '0');
    } else if n < 100 {
        push_char(out, '0');
        push_char(out, '0');
    } else if n < 1000 {
        push_char(out, '0');
    }
    let ghost mid = out@;
    crate::text::push_dec(out, n);
    assert(out@ =~= start + dec4_seq(n as nat));
}

/// Renders a date and time with the storage format `%Y-%m-%d %H:%M:%S`.
pub fn format_storage(p: &DateTimeParts) -> (res: String)
    requires
        p.valid(),
    ensures
        res@ == storage_text(*p),
{
    let mut out = String::new();
    if 0 <= p.year && p.year <= 9999 {
        push_dec4(&mut out, p.year as u64);
    } else if p.year < 0 {
        push_char(&mut out, '-');
        push_dec4(&mut out, (0i64 - p.year as i64) as u64);
    } else {
        push_char(&mut out, '+');
        push_dec4(&mut out, p.year as u64);
    }
    assert(out@ =~= year_seq(p.year as int));
    push_char(&mut out, '-');
    push_dec2(&mut out, p.month as u64);
    push_char(&mut out, '-');
    push_dec2(&mut out, p.day as u64);
    push_char(&mut out, ' ');
    push_dec2(&mut out, p.hour as u64);
    push_char(&mut out, ':');
    push_dec2(&mut out, p.minute as u64);
    push_char(&mut out, ':');
    let sec: u64 = if p.nanosecond >= 1_000_000_000 {
        p.second as u64 + 1
    } else {
        p.second as u64
    };
    push_dec2(&mut out, sec);
    assert(out@ =~= storage_text(*p));
    out
}

/// The earliest and latest years chrono's `NaiveDate` holds.
pub const MIN_YEAR: i32 = -262143;

pub const MAX_YEAR: i32 = 262142;

/// A calendar date as chrono's `NaiveDate` holds it.
#[derive(Debug, Clone, Copy, PartialEq, Eq, Structural)]
pub struct CivilDate {
    pub year: i32,
    pub month: u32,
    pub day: u32,
}

impl CivilDate {
    /// A date that chrono can hold.
    pub open spec fn valid(self) -> bool {
        &&& MIN_YEAR <= self.year <= MAX_YEAR
        &&& 1 <= self.month <= 12
        &&& 1 <= self.day <= days_in_month_spec(self.year as int, self.month as int)
    }
}

/// `NaiveDate::default()`: 1970-01-01.
pub open spec fn epoch_date() -> CivilDate {
    CivilDate { year: 1970, month: 1, day: 1 }
}

/// The day before `d` (`NaiveDate::pred_opt`); `None` before the first day
/// chrono holds.
pub open spec fn prev_date(d: CivilDate) -> Option<CivilDate> {
    if d.day > 1 {
        Some(CivilDate { day: (d.day - 1) as u32, ..d })
    } else if d.month > 1 {
        Some(
            CivilDate {
                month: (d.month - 1) as u32,
                day: days_in_month_spec(d.year as int, d.month - 1) as u32,
                ..d
            },
        )
    } else if d.year > MIN_YEAR {
        Some(CivilDate { year: (d.year - 1) as i32, month: 12, day: 31 })
    } else {
        None
    }
}

/// The number of days in a month (1 to 12).
pub fn days_in_month_of(year: i32, month: u32) -> (res: u32)
    requires
        1 <= month <= 12,
    ensures
        res == days_in_month_spec(year as int, month as int),
{
    if month == 2 {
        if (year % 4 == 0 && year % 100 != 0) || year % 400 == 0 {
            29
        } else {
            28
        }
    } else if month == 4 || month == 6 || month == 9 || month == 11 {
        30
    } else {
        31
    }
}

/// The day before `d`; `None` before the first day chrono holds.
pub fn pred_date(d: CivilDate) -> (res: Option<CivilDate>)
    requires
        d.valid(),
    ensures
        res == prev_date(d),
        res matches Some(p) ==> p.valid(),
{
    if d.day > 1 {
        Some(CivilDate { day: d.day - 1, ..d })
    } else if d.month > 1 {
        Some(CivilDate { month: d.month - 1, day: days_in_month_of(d.year, d.month - 1), ..d })
    } else if d.year > MIN_YEAR {
        Some(CivilDate { year: d.year - 1, month: 12, day: 31 })
    } else {
        None
    }
}

/// The date as `NaiveDate`'s `Display` writes it: `YYYY-MM-DD`, with a sign
/// and at least four digits for a year outside 0 to 9999.
pub open spec fn date_text(d: CivilDate) -> Seq<char> {
    year_seq(d.year as int) + seq!['-'] + two_seq(d.month as nat) + seq!['-'] + two_seq(d.day as nat)
}

/// Appends a year as `%Y` writes it.
pub fn push_year(out: &mut String, year: i32)
    ensures
        final(out)@ == old(out)@ + year_seq(year as int),
{
    let ghost start = out@;
    if 0 <= year && year <= 9999 {
        push_dec4(out, year as u64);
    } else if year < 0 {
        push_char(out, '-');
        push_dec4(out, (0i64 - year as i64) as u64);
    } else {
        push_char(out, '+');
        push_dec4(out, year as u64);
    }
    assert(out@ =~= start + year_seq(year as int));
}

/// Writes a date as `YYYY-MM-DD`.
pub fn format_date(d: &CivilDate) -> (res: String)
    requires
        d.valid(),
    ensures
        res@ == date_text(*d),
{
    let mut out = String::new();
    if 0 <= d.year && d.year <= 9999 {
        push_dec4(&mut out, d.year as u64);
    } else if d.year < 0 {
        push_char(&mut out, '-');
        push_dec4(&mut out, (0i64 - d.year as i64) as u64);
    } else {
        push_char(&mut out, '+');
        push_dec4(&mut out, d.year as u64);
    }
    assert(out@ =~= year_seq(d.year as int));
    push_char(&mut out, '-');
    push_dec2(&mut out, d.month as u64);
    push_char(&mut out, '-');
    push_dec2(&mut out, d.day as u64);
    assert(out@ =~= date_text(*d));
    out
}

/// The day after `d`; `None` after the last day chrono holds.
pub open spec fn next_date(d: CivilDate) -> Option<CivilDate> {
    if d.day < days_in_month_spec(d.year as int, d.month as int) {
        Some(CivilDate { day: (d.day + 1) as u32, ..d })
    } else if d.month < 12 {
        Some(CivilDate { month: (d.month + 1) as u32, day: 1, ..d })
    } else if d.year < MAX_YEAR {
        Some(CivilDate { year: (d.year + 1) as i32, month: 1, day: 1 })
    } else {
        None
    }
}

/// `d` moved by `n` days (`NaiveDate + TimeDelta::days(n)`); `None` when
/// that leaves the dates chrono holds.
pub open spec fn shift_days(d: CivilDate, n: int) -> Option<CivilDate>
    decreases (if n >= 0 {
        n
    } else {
        -n
    }),
{
    if n == 0 {
        Some(d)
    } else if n > 0 {
        match next_date(d) {
            Some(e) => shift_days(e, n - 1),
            None => None,
        }
    } else {
        match prev_date(d) {
            Some(e) => shift_days(e, n + 1),
            None => None,
        }
    }
}

/// The day after `d`; `None` after the last day chrono holds.
pub fn succ_date(d: CivilDate) -> (res: Option<CivilDate>)
    requires
        d.valid(),
    ensures
        res == next_date(d),
        res matches Some(p) ==> p.valid(),
{
    if d.day < days_in_month_of(d.year, d.month) {
        Some(CivilDate { day: d.day + 1, ..d })
    } else if d.month < 12 {
        Some(CivilDate { month: d.month + 1, day: 1, ..d })
    } else if d.year < MAX_YEAR {
        Some(CivilDate { year: d.year + 1, month: 1, day: 1 })
    } else {
        None
    }
}

/// `d` moved by `n` days; `None` when that leaves the dates chrono holds.
pub fn add_days(d: CivilDate, n: i64) -> (res: Option<CivilDate>)
    requires
        d.valid(),
    ensures
        res == shift_days(d, n as int),
        res matches Some(p) ==> p.valid(),
{
    let mut cur = d;
    let mut left: i64 = n;
    while left != 0
        invariant
            cur.valid(),
            shift_days(d, n as int) == shift_days(cur, left as int),
        decreases (if left >= 0 {
            left as int
        } else {
            -(left as int)
        }),
    {
        if left > 0 {
            match succ_date(cur) {
                Some(e) => {
                    cur = e;
                    left = left - 1;
                },
                None => return None,
            }
        } else {
            match pred_date(cur) {
                Some(e) => {
                    cur = e;
                    left = left + 1;
                },
                None => return None,
            }
        }
    }
    Some(cur)
}

/// `a` is not later than `b`.
pub open spec fn date_le(a: CivilDate, b: CivilDate) -> bool {
    a.year < b.year || (a.year == b.year && (a.month < b.month || (a.month == b.month && a.day
        <= b.day)))
}

/// True when `a` is not later than `b`.
pub fn date_not_after(a: &CivilDate, b: &CivilDate) -> (res: bool)
    ensures
        res == date_le(*a, *b),
{
    a.year < b.year || (a.year == b.year && (a.month < b.month || (a.month == b.month && a.day
        <= b.day)))
}

/// The days from 1970-01-01 to `d` in the proleptic Gregorian calendar,
/// negative before it.
pub open spec fn days_from_epoch(d: CivilDate) -> int {
    let y = if d.month <= 2 {
        d.year - 1
    } else {
        d.year as int
    };
    let era = y / 400;
    let yoe = y - era * 400;
    let mp = if d.month > 2 {
        d.month - 3
    } else {
        d.month + 9
    };
    let doy = (153 * mp + 2) / 5 + d.day - 1;
    let doe = yoe * 365 + yoe / 4 - yoe / 100 + doy;
    era * 146097 + doe - 719468
}

proof fn lemma_year_step(a: int)
    ensures
        ({
            let y = a + 1;
            let era_a = a / 400;
            let yoe_a = a - era_a * 400;
            let era_y = y / 400;
            let yoe_y = y - era_y * 400;
            era_y * 146097 + yoe_y * 365 + yoe_y / 4 - yoe_y / 100 == era_a * 146097 + yoe_a * 365
                + yoe_a / 4 - yoe_a / 100 + if is_leap_year(y) {
                366int
            } else {
                365int
            }
        }),
{
    let y = a + 1;
    let era_a = a / 400;
    let yoe_a = a - era_a * 400;
    assert(0 <= yoe_a < 400) by (nonlinear_arith)
        requires
            era_a == a / 400,
            yoe_a == a - era_a * 400,
    ;
    if yoe_a == 399 {
        assert(y / 400 == era_a + 1 && y % 400 == 0) by (nonlinear_arith)
            requires
                y == era_a * 400 + 400,
        ;
    } else {
        assert(y / 400 == era_a && y % 400 == yoe_a + 1) by (nonlinear_arith)
            requires
                y == era_a * 400 + yoe_a + 1,
                0 <= yoe_a < 399,
        ;
        assert(y % 4 == (yoe_a + 1) % 4 && y % 100 == (yoe_a + 1) % 100) by (nonlinear_arith)
            requires
                y == era_a * 400 + yoe_a + 1,
        ;
    }
}

/// The day after a date comes one day later in the count of days from
/// 1970-01-01, which the weekdays follow.
pub proof fn law_next_date_one_day_later(d: CivilDate)
    requires
        d.valid(),
        next_date(d) is Some,
    ensures
        days_from_epoch(next_date(d).unwrap()) == days_from_epoch(d) + 1,
{
    let e = next_date(d).unwrap();
    if d.day < days_in_month_spec(d.year as int, d.month as int) {
    } else if d.month < 12 {
        if d.month == 2 {
            lemma_year_step(d.year - 1);
        }
    } else {
    }
}

/// The seconds from 1970-01-01 00:00:00 to the whole second of `p`.
pub open spec fn epoch_seconds(p: DateTimeParts) -> int {
    days_from_epoch(date_of(p)) * 86400 + p.hour * 3600 + p.minute * 60 + p.second
}

/// `n` divided by `d` and rounded toward zero, as Rust's `/` on integers.
pub open spec fn div_toward_zero(n: int, d: int) -> int {
    if n >= 0 {
        n / d
    } else {
        -((-n) / d)
    }
}

/// The date part of a date and time.
pub open spec fn date_of(p: DateTimeParts) -> CivilDate {
    CivilDate { year: p.year, month: p.month, day: p.day }
}

/// The day before the day after `d` is `d`.
pub proof fn law_next_then_prev_date(d: CivilDate)
    requires
        d.valid(),
        next_date(d) is Some,
    ensures
        prev_date(next_date(d).unwrap()) == Some(d),
{
    if d.day < days_in_month_spec(d.year as int, d.month as int) {
    } else if d.month < 12 {
        assert(d.day == days_in_month_spec(d.year as int, d.month as int));
    } else {
        assert(d.day == 31);
    }
}

/// Moving a valid date one day forward and one day back returns it.
pub proof fn law_shift_day_round_trip(d: CivilDate)
    requires
        d.valid(),
        shift_days(d, 1) is Some,
    ensures
        shift_days(shift_days(d, 1).unwrap(), -1) == Some(d),
{
    let e = next_date(d).unwrap();
    assert(shift_days(e, 0) == Some(e));
    assert(shift_days(d, 1) == Some(e));
    law_next_then_prev_date(d);
    assert(shift_days(d, 0) == Some(d));
    assert(shift_days(e, -1) == Some(d));
}

/// What chrono gives for `(end - start).num_minutes()` on two date-times.
pub uninterp spec fn minutes_between(start: DateTimeParts, end: DateTimeParts) -> i64;

/// Subtracts two date-times with chrono and counts the whole minutes between
/// them; the result is named by `minutes_between`. Between two whole seconds
/// chrono's difference is the difference of their seconds from the epoch
/// (days times 86400 plus the time of day), and `num_minutes` divides it by
/// 60 toward zero; where a leap second is involved the name alone stands.
#[verifier::external_body]
pub(crate) fn minutes_from_to(start: &DateTimeParts, end: &DateTimeParts) -> (res: i64)
    requires
        start.valid(),
        end.valid(),
        MIN_YEAR <= start.year <= MAX_YEAR,
        MIN_YEAR <= end.year <= MAX_YEAR,
    ensures
        res == minutes_between(*start, *end),
        start.nanosecond == 0 && end.nanosecond == 0 ==> res == div_toward_zero(
            epoch_seconds(*end) - epoch_seconds(*start),
            60,
        ),
{
    let at = |p: &DateTimeParts| chrono::NaiveDate::from_ymd_opt(p.year, p.month, p.day)
        .and_then(|d| d.and_hms_nano_opt(p.hour, p.minute, p.second, p.nanosecond))
        .unwrap_or_default();
    (at(end) - at(start)).num_minutes()
}

} // verus!

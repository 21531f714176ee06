//! Formatting helpers for the views.
use ratatui::layout::Constraint::Percentage as pct;
use vstd::prelude::*;

use crate::text::{
    dec2_seq, dec_seq, int_dec_seq, push_char, push_dec, push_dec2, push_int_dec, to_owned_string,
};
use crate::timestamp::{
    add_days, days_from_epoch, law_next_date_one_day_later, next_date, shift_days, CivilDate,
};

verus! {

/// `minutes` as `Xm` below one hour, else `Xh` or `Xh Ym`.
pub open spec fn duration_text(minutes: int) -> Seq<char> {
    if minutes < 60 {
        int_dec_seq(minutes) + seq!['m']
    } else {
        let h = minutes / 60;
        let m = minutes % 60;
        if m == 0 {
            dec_seq(h as nat) + seq!['h']
        } else {
            dec_seq(h as nat) + seq!['h', ' '] + dec_seq(m as nat) + seq!['m']
        }
    }
}

/// Formats a duration in minutes as `Xh Ym`, `Xh` or `Xm`.
pub fn format_duration(minutes: i64) -> (res: String)
    ensures
        res@ == duration_text(minutes as int),
{
    let mut out = String::new();
    if minutes < 60 {
        push_int_dec(&mut out, minutes);
        push_char(&mut out, 'm');
    } else {
        let h = minutes / 60;
        let m = minutes % 60;
        push_dec(&mut out, h as u64);
        push_char(&mut out, 'h');
        if m != 0 {
            push_char(&mut out, ' ');
            push_dec(&mut out, m as u64);
            push_char(&mut out, 'm');
        }
    }
    assert(out@ =~= duration_text(minutes as int));
    out
}

/// Formats a time of day as `HH:MM`.
pub fn format_time_hhmm(hour: u32, minute: u32) -> (res: String)
    ensures
        res@ == dec2_seq(hour as nat) + seq![':'] + dec2_seq(minute as nat),
{
    let mut out = String::new();
    push_dec2(&mut out, hour as u64);
    push_char(&mut out, ':');
    push_dec2(&mut out, minute as u64);
    assert(out@ =~= dec2_seq(hour as nat) + seq![':'] + dec2_seq(minute as nat));
    out
}

/// The English name of month `month` (1 to 12), `?` otherwise.
pub open spec fn month_name_text(month: u32) -> Seq<char> {
    if month == 1 {
        "January"@
    } else if month == 2 {
        "February"@
    } else if month == 3 {
        "March"@
    } else if month == 4 {
        "April"@
    } else if month == 5 {
        "May"@
    } else if month == 6 {
        "June"@
    } else if month == 7 {
        "July"@
    } else if month == 8 {
        "August"@
    } else if month == 9 {
        "September"@
    } else if month == 10 {
        "October"@
    } else if month == 11 {
        "November"@
    } else if month == 12 {
        "December"@
    } else {
        "?"@
    }
}

/// The English month name for `month`.
pub fn month_name(month: u32) -> (res: &'static str)
    ensures
        res@ == month_name_text(month),
{
    match month {
        1 => "January",
        2 => "February",
        3 => "March",
        4 => "April",
        5 => "May",
        6 => "June",
        7 => "July",
        8 => "August",
        9 => "September",
        10 => "October",
        11 => "November",
        12 => "December",
        _ => "?",
    }
}

/// What `UnicodeWidthStr::width` gives for `s`: its width in terminal
/// columns.
pub uninterp spec fn display_width(s: Seq<char>) -> nat;

/// What `UnicodeWidthChar::width` gives for `c`: its width in columns, or
/// `None` for a control character.
pub uninterp spec fn char_display_width(c: char) -> Option<nat>;

/// Calls `UnicodeWidthStr::width`; the result is named by `display_width`.
#[verifier::external_body]
fn str_width(s: &str) -> (res: usize)
    ensures
        res == display_width(s@),
{
    unicode_width::UnicodeWidthStr::width(s)
}

/// Calls `UnicodeWidthChar::width`; the result is named by
/// `char_display_width`. The crate documents widths of 0 to 3 columns.
#[verifier::external_body]
fn char_width(c: char) -> (res: Option<usize>)
    ensures
        match char_display_width(c) {
            Some(w) => res == Some(w as usize) && w <= 3,
            None => res is None,
        },
{
    unicode_width::UnicodeWidthChar::width(c)
}

/// The columns a character takes while truncating: a control character
/// counts as one.
pub open spec fn columns(c: char) -> nat {
    match char_display_width(c) {
        Some(w) => w,
        None => 1,
    }
}

/// The longest prefix of `s` that leaves one column free within `room`
/// columns, taken character by character.
pub open spec fn fitting_prefix(s: Seq<char>, room: int) -> Seq<char>
    decreases s.len(),
{
    if s.len() == 0 || columns(s[0]) + 1 > room {
        Seq::empty()
    } else {
        seq![s[0]] + fitting_prefix(s.drop_first(), room - columns(s[0]))
    }
}

/// `s` cut to fit within `max_width` columns, with `…` where it was cut.
pub open spec fn truncated(s: Seq<char>, max_width: int) -> Seq<char> {
    if max_width == 0 {
        Seq::empty()
    } else if display_width(s) <= max_width {
        s
    } else if max_width <= 1 {
        seq!['\u{2026}']
    } else {
        fitting_prefix(s, max_width).push('\u{2026}')
    }
}

/// Cuts `s` to fit within `max_width` terminal columns, ending it with `…`
/// where it was cut.
pub fn truncate(s: &str, max_width: usize) -> (res: String)
    ensures
        res@ == truncated(s@, max_width as int),
{
    if max_width == 0 {
        return String::new();
    }
    let width = str_width(s);
    if width <= max_width {
        return to_owned_string(s);
    }
    if max_width <= 1 {
        let mut out = String::new();
        push_char(&mut out, '\u{2026}');
        assert(out@ =~= seq!['\u{2026}']);
        return out;
    }
    let n = s.unicode_len();
    let mut out = String::new();
    let mut current: usize = 0;
    let mut i: usize = 0;
    let mut stop = false;
    assert(s@.skip(0) =~= s@);
    while i < n && !stop
        invariant
            n == s@.len(),
            i <= n,
            current <= max_width,
            fitting_prefix(s@, max_width as int) == out@ + fitting_prefix(
                s@.skip(i as int),
                max_width - current,
            ),
            stop ==> fitting_prefix(s@.skip(i as int), max_width - current) == Seq::<char>::empty(),
        decreases n - i, (if stop {
            0int
        } else {
            1int
        }),
    {
        let c = s.get_char(i);
        let ghost t = s@.skip(i as int);
        assert(t[0] == c);
        assert(t.drop_first() =~= s@.skip(i as int + 1));
        let w: usize = match char_width(c) {
            Some(w) => w,
            None => 1,
        };
        if w + 1 > max_width - current {
            stop = true;
        } else {
            let ghost o0 = out@;
            push_char(&mut out, c);
            assert(o0 + (seq![c] + fitting_prefix(s@.skip(i as int + 1), max_width - current - w))
                =~= out@ + fitting_prefix(s@.skip(i as int + 1), max_width - (current + w)));
            current = current + w;
            i += 1;
        }
    }
    proof {
        if !stop {
            assert(s@.skip(n as int).len() == 0);
        }
        assert(out@ + Seq::<char>::empty() =~= out@);
    }
    push_char(&mut out, '\u{2026}');
    out
}

/// The English abbreviation of month `month` (1 to 12), as `%b` writes it.
pub open spec fn month_abbrev_text(month: u32) -> Seq<char> {
    if month == 1 {
        "Jan"@
    } else if month == 2 {
        "Feb"@
    } else if month == 3 {
        "Mar"@
    } else if month == 4 {
        "Apr"@
    } else if month == 5 {
        "May"@
    } else if month == 6 {
        "Jun"@
    } else if month == 7 {
        "Jul"@
    } else if month == 8 {
        "Aug"@
    } else if month == 9 {
        "Sep"@
    } else if month == 10 {
        "Oct"@
    } else if month == 11 {
        "Nov"@
    } else {
        "Dec"@
    }
}

fn month_abbrev(month: u32) -> (res: &'static str)
    ensures
        res@ == month_abbrev_text(month),
{
    match month {
        1 => "Jan",
        2 => "Feb",
        3 => "Mar",
        4 => "Apr",
        5 => "May",
        6 => "Jun",
        7 => "Jul",
        8 => "Aug",
        9 => "Sep",
        10 => "Oct",
        11 => "Nov",
        _ => "Dec",
    }
}

/// The English name of weekday `i` (0 is Monday).
pub open spec fn weekday_full_text(i: int) -> Seq<char> {
    if i == 0 {
        "Monday"@
    } else if i == 1 {
        "Tuesday"@
    } else if i == 2 {
        "Wednesday"@
    } else if i == 3 {
        "Thursday"@
    } else if i == 4 {
        "Friday"@
    } else if i == 5 {
        "Saturday"@
    } else {
        "Sunday"@
    }
}

/// The short English name of weekday `i` (0 is Monday), for the month grid.
pub open spec fn weekday_short_text(i: int) -> Seq<char> {
    weekday_full_text(i).take(3)
}

/// The English name of weekday `i` (0 is Monday; 6 and above is Sunday).
pub fn weekday_full(i: usize) -> (res: &'static str)
    ensures
        res@ == weekday_full_text(i as int),
{
    if i == 0 {
        "Monday"
    } else if i == 1 {
        "Tuesday"
    } else if i == 2 {
        "Wednesday"
    } else if i == 3 {
        "Thursday"
    } else if i == 4 {
        "Friday"
    } else if i == 5 {
        "Saturday"
    } else {
        "Sunday"
    }
}

/// The short English name of weekday `i` (0 is Monday; 6 and above is
/// Sunday).
pub fn weekday_short(i: usize) -> (res: &'static str)
    ensures
        res@ == weekday_short_text(i as int),
{
    proof {
        reveal_strlit("Monday");
        reveal_strlit("Tuesday");
        reveal_strlit("Wednesday");
        reveal_strlit("Thursday");
        reveal_strlit("Friday");
        reveal_strlit("Saturday");
        reveal_strlit("Sunday");
        reveal_strlit("Mon");
        reveal_strlit("Tue");
        reveal_strlit("Wed");
        reveal_strlit("Thu");
        reveal_strlit("Fri");
        reveal_strlit("Sat");
        reveal_strlit("Sun");
    }
    let r = if i == 0 {
        "Mon"
    } else if i == 1 {
        "Tue"
    } else if i == 2 {
        "Wed"
    } else if i == 3 {
        "Thu"
    } else if i == 4 {
        "Fri"
    } else if i == 5 {
        "Sat"
    } else {
        "Sun"
    };
    assert(r@ =~= weekday_short_text(i as int));
    r
}

/// The weekday of `d`, counted from Monday as 0: 1970-01-01 was a Thursday,
/// and the weekdays repeat every seven days.
pub open spec fn weekday_from_monday(d: CivilDate) -> nat {
    ((days_from_epoch(d) + 3) % 7) as nat
}

/// The day after a date falls on the next weekday, Sunday being followed by
/// Monday.
pub proof fn law_next_date_next_weekday(d: CivilDate)
    requires
        d.valid(),
        next_date(d) is Some,
    ensures
        weekday_from_monday(next_date(d).unwrap()) == (weekday_from_monday(d) + 1) % 7,
{
    law_next_date_one_day_later(d);
}

/// Calls chrono's `NaiveDate::from_ymd_opt` and `weekday`, then
/// `num_days_from_monday`: the day of the week of the date in chrono's
/// proleptic Gregorian calendar, Monday being 0, as `weekday_from_monday`
/// counts it.
#[verifier::external_body]
fn weekday_of(d: &CivilDate) -> (res: usize)
    requires
        d.valid(),
    ensures
        res == weekday_from_monday(*d),
        res < 7,
{
    chrono::NaiveDate::from_ymd_opt(d.year, d.month, d.day)
        .map(|n| chrono::Datelike::weekday(&n).num_days_from_monday() as usize)
        .unwrap_or_default()
}

/// A date relative to `today`: `Today`, `Tomorrow`, `Yesterday`, or the
/// weekday, short month and day, as in `Friday, Mar 6`.
pub open spec fn friendly_date_text(date: CivilDate, today: CivilDate) -> Seq<char> {
    if date == today {
        "Today"@
    } else if shift_days(today, 1) == Some(date) {
        "Tomorrow"@
    } else if shift_days(today, -1) == Some(date) {
        "Yesterday"@
    } else {
        weekday_full_text(weekday_from_monday(date) as int) + ", "@ + month_abbrev_text(date.month)
            + " "@ + dec_seq(date.day as nat)
    }
}

/// Names `date` relative to `today`.
pub fn friendly_date(date: CivilDate, today: CivilDate) -> (res: String)
    requires
        date.valid(),
        today.valid(),
    ensures
        res@ == friendly_date_text(date, today),
{
    if date == today {
        return to_owned_string("Today");
    }
    if add_days(today, 1) == Some(date) {
        return to_owned_string("Tomorrow");
    }
    if add_days(today, -1) == Some(date) {
        return to_owned_string("Yesterday");
    }
    let mut out = to_owned_string(weekday_full(weekday_of(&date)));
    out.append(", ");
    out.append(month_abbrev(date.month));
    out.append(" ");
    push_dec(&mut out, date.day as u64);
    out
}

/// A rectangle of the terminal, as ratatui's `Rect` holds it.
#[derive(Debug, Clone, Copy, PartialEq, Eq, Structural)]
pub struct Area {
    pub x: u16,
    pub y: u16,
    pub width: u16,
    pub height: u16,
}

/// The middle part when ratatui's `Layout::vertical` splits `area` into three
/// rows of `a`, `b` and `c` percent.
pub uninterp spec fn middle_row(area: Area, a: u16, b: u16, c: u16) -> Area;

/// The middle part when ratatui's `Layout::horizontal` splits `area` into
/// three columns of `a`, `b` and `c` percent.
pub uninterp spec fn middle_column(area: Area, a: u16, b: u16, c: u16) -> Area;

/// Splits `area` with `Layout::vertical` and three `Constraint::Percentage`s
/// and gives the middle row, named by `middle_row`.
#[verifier::external_body]
fn split_middle_row(area: Area, a: u16, b: u16, c: u16) -> (res: Area)
    ensures
        res == middle_row(area, a, b, c),
{
    let rect = ratatui::layout::Rect { x: area.x, y: area.y, width: area.width, height: area.height };
    let parts = ratatui::layout::Layout::vertical([pct(a), pct(b), pct(c)]).split(rect);
    Area { x: parts[1].x, y: parts[1].y, width: parts[1].width, height: parts[1].height }
}

/// Splits `area` with `Layout::horizontal` and three `Constraint::Percentage`s
/// and gives the middle column, named by `middle_column`.
#[verifier::external_body]
fn split_middle_column(area: Area, a: u16, b: u16, c: u16) -> (res: Area)
    ensures
        res == middle_column(area, a, b, c),
{
    let rect = ratatui::layout::Rect { x: area.x, y: area.y, width: area.width, height: area.height };
    let parts = ratatui::layout::Layout::horizontal([pct(a), pct(b), pct(c)]).split(rect);
    Area { x: parts[1].x, y: parts[1].y, width: parts[1].width, height: parts[1].height }
}

/// A rectangle of `percent_x` by `percent_y` percent of `area`, centred in
/// it.
pub fn centered_rect(percent_x: u16, percent_y: u16, area: Area) -> (res: Area)
    requires
        percent_x <= 100,
        percent_y <= 100,
    ensures
        res == middle_column(
            middle_row(
                area,
                ((100 - percent_y) / 2) as u16,
                percent_y,
                ((100 - percent_y) / 2) as u16,
            ),
            ((100 - percent_x) / 2) as u16,
            percent_x,
            ((100 - percent_x) / 2) as u16,
        ),
{
    let vertical = split_middle_row(area, (100 - percent_y) / 2, percent_y, (100 - percent_y) / 2);
    split_middle_column(vertical, (100 - percent_x) / 2, percent_x, (100 - percent_x) / 2)
}

} // verus!

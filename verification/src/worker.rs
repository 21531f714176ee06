//! The work the interface hands to the background: which events to load for
//! a month.
use vstd::prelude::*;

use crate::app::WorkerResult;
use crate::models::Calendar;
use crate::text::to_owned_string;

use crate::timestamp::{
    add_days, date_text, epoch_date, format_date, shift_days, CivilDate, MAX_YEAR, MIN_YEAR,
};

verus! {

/// The first day of month `month` of `year`, when chrono can hold it.
pub open spec fn first_of_month(year: int, month: int) -> Option<CivilDate> {
    if MIN_YEAR <= year <= MAX_YEAR && 1 <= month <= 12 {
        Some(CivilDate { year: year as i32, month: month as u32, day: 1 })
    } else {
        None
    }
}

/// The first day of month `month` of `year`, or 1970-01-01 where chrono has
/// no such date.
pub open spec fn month_start(year: i32, month: u32) -> CivilDate {
    match first_of_month(year as int, month as int) {
        Some(d) => d,
        None => epoch_date(),
    }
}

/// The first day of the window loaded for a month: a week before the month's
/// first day; 1970-01-01 stands in wherever chrono has no date.
pub open spec fn window_start(year: i32, month: u32) -> CivilDate {
    match shift_days(month_start(year, month), -7) {
        Some(d) => d,
        None => epoch_date(),
    }
}

/// The last day of the window: 37 days after the month's first day, so that
/// the five-week grid and the next month are covered; 1970-01-01 where chrono
/// has no such date.
pub open spec fn window_end(year: i32, month: u32) -> CivilDate {
    match shift_days(month_start(year, month), 37) {
        Some(d) => d,
        None => epoch_date(),
    }
}

fn first_of(year: i32, month: u32) -> (res: CivilDate)
    ensures
        res == match first_of_month(year as int, month as int) {
            Some(d) => d,
            None => epoch_date(),
        },
        res.valid(),
{
    if MIN_YEAR <= year && year <= MAX_YEAR && 1 <= month && month <= 12 {
        CivilDate { year, month, day: 1 }
    } else {
        CivilDate { year: 1970, month: 1, day: 1 }
    }
}

fn shifted_or_epoch(d: CivilDate, n: i64) -> (res: CivilDate)
    requires
        d.valid(),
    ensures
        res == match shift_days(d, n as int) {
            Some(p) => p,
            None => epoch_date(),
        },
        res.valid(),
{
    match add_days(d, n) {
        Some(p) => p,
        None => CivilDate { year: 1970, month: 1, day: 1 },
    }
}

/// The range of stored times loaded for month `month` of `year`: from
/// midnight a week before the month to the end of the 37th day after its
/// first day.
pub fn event_window(year: i32, month: u32) -> (res: (String, String))
    ensures
        res.0@ == date_text(window_start(year, month)) + " 00:00:00"@,
        res.1@ == date_text(window_end(year, month)) + " 23:59:59"@,
{
    let first = first_of(year, month);
    let start = shifted_or_epoch(first, -7);
    let end = shifted_or_epoch(first, 37);
    let mut from = format_date(&start);
    from.append(" 00:00:00");
    let mut to = format_date(&end);
    to.append(" 23:59:59");
    (from, to)
}

/// The report of the sync of one calendar: its counts, or the failure.
pub fn sync_outcome(calendar: &Calendar, result: Result<(usize, usize), String>) -> (res: WorkerResult)
    ensures
        match result {
            Ok((added, updated)) => res matches WorkerResult::GoogleSyncComplete {
                calendar_id,
                events_added,
                events_updated,
            } && calendar_id == calendar.id && events_added == added && events_updated == updated,
            Err(e) => res matches WorkerResult::Error(m) && m@ == "Google sync failed for '"@
                + calendar.name@ + "': "@ + e@,
        },
{
    match result {
        Ok((added, updated)) => WorkerResult::GoogleSyncComplete {
            calendar_id: calendar.id.clone(),
            events_added: added,
            events_updated: updated,
        },
        Err(e) => {
            let mut m = to_owned_string("Google sync failed for '");
            m.append(calendar.name.as_str());
            m.append("': ");
            m.append(e.as_str());
            WorkerResult::Error(m)
        },
    }
}

} // verus!

//! Google Calendar API records turned into local ones.
use chrono::{Datelike, Timelike};
use vstd::prelude::*;

use crate::cli::opt_view;
use crate::models::{Calendar, CalendarSource, Event};
use crate::stamp::{new_record_id, timestamp_now};
use crate::text::{str_eq, to_owned_string};
use crate::timestamp::{format_storage, storage_text, DateTimeParts};

verus! {

/// A new visible Google calendar at position 99 with a fresh id and the
/// current time as both timestamps.
pub fn google_calendar_to_local(google_id: &str, name: &str, color_hex: &str) -> (res: Calendar)
    ensures
        res.name@ == name@,
        res.color@ == color_hex@,
        res.source == CalendarSource::Google,
        res.google_id matches Some(g) && g@ == google_id@,
        res.visible,
        res.position == 99,
        res.id@.len() == 36,
        res.created_at == res.updated_at,
        res.deleted_at is None,
{
    let now = timestamp_now();
    Calendar {
        id: new_record_id(),
        name: to_owned_string(name),
        color: to_owned_string(color_hex),
        source: CalendarSource::Google,
        google_id: Some(to_owned_string(google_id)),
        visible: true,
        position: 99,
        created_at: now.clone(),
        updated_at: now,
        deleted_at: None,
    }
}

/// The `start` or `end` object of an API event; a field that is absent or not
/// a string is `None`.
#[derive(Debug, Clone)]
pub struct GoogleEventTime {
    pub date_time: Option<String>,
    pub date: Option<String>,
    pub time_zone: Option<String>,
}

/// The fields of an API event that a sync reads; a field that is absent or
/// not a string is `None`, and so is an entry of `recurrence` that is not a
/// string.
#[derive(Debug, Clone)]
pub struct GoogleEvent {
    pub id: Option<String>,
    pub status: Option<String>,
    pub summary: Option<String>,
    pub description: Option<String>,
    pub location: Option<String>,
    pub etag: Option<String>,
    pub start: GoogleEventTime,
    pub end: GoogleEventTime,
    pub recurrence: Vec<Option<String>>,
}

/// What chrono's `DateTime::parse_from_rfc3339` gives for `s`, moved to UTC
/// and taken apart; `None` when it rejects `s`.
pub uninterp spec fn rfc3339_utc(s: Seq<char>) -> Option<DateTimeParts>;

/// Calls `chrono::DateTime::parse_from_rfc3339`, converts the result to UTC
/// and reads its fields with chrono's getters. The result is named by
/// `rfc3339_utc`; chrono documents that the date and time of a value it
/// returns are valid, with leap seconds carried in the nanoseconds.
#[verifier::external_body]
fn parse_rfc3339_utc(s: &str) -> (res: Option<DateTimeParts>)
    ensures
        res == rfc3339_utc(s@),
        res matches Some(p) ==> p.valid(),
{
    let u = chrono::DateTime::parse_from_rfc3339(s).ok()?.naive_utc();
    Some(DateTimeParts {
        year: u.year(), month: u.month(), day: u.day(),
        hour: u.hour(), minute: u.minute(), second: u.second(), nanosecond: u.nanosecond(),
    })
}

/// An RFC 3339 time in the storage format, in UTC; text that is not RFC 3339
/// is kept as it is.
pub open spec fn google_datetime_text(s: Seq<char>) -> Seq<char> {
    match rfc3339_utc(s) {
        Some(p) => storage_text(p),
        None => s,
    }
}

/// Turns an RFC 3339 time into the storage format, in UTC; text that is not
/// RFC 3339 is kept as it is.
pub fn parse_google_datetime(s: &str) -> (res: String)
    ensures
        res@ == google_datetime_text(s@),
{
    match parse_rfc3339_utc(s) {
        Some(p) => format_storage(&p),
        None => to_owned_string(s),
    }
}

/// The stored time of a `start` or `end` object and whether it is a whole
/// day: its `dateTime` when there is one, else its `date` at midnight.
pub open spec fn google_time(t: GoogleEventTime) -> Option<(Seq<char>, bool)> {
    match t.date_time {
        Some(dt) => Some((google_datetime_text(dt@), false)),
        None => match t.date {
            Some(d) => Some((d@ + " 00:00:00"@, true)),
            None => None,
        },
    }
}

fn read_google_time(t: &GoogleEventTime) -> (res: Option<(String, bool)>)
    ensures
        match google_time(*t) {
            Some(x) => res matches Some(r) && r.0@ == x.0 && r.1 == x.1,
            None => res is None,
        },
{
    match &t.date_time {
        Some(dt) => Some((parse_google_datetime(dt.as_str()), false)),
        None => match &t.date {
            Some(d) => {
                let mut s = d.clone();
                s.append(" 00:00:00");
                Some((s, true))
            },
            None => None,
        },
    }
}

/// `s` begins with `RRULE:`.
pub open spec fn is_rrule_line(s: Seq<char>) -> bool {
    s.len() >= 6 && s.subrange(0, 6) == "RRULE:"@
}

/// The first string of the recurrence list that is an RRULE line.
pub open spec fn first_rrule(r: Seq<Option<String>>) -> Option<Seq<char>>
    decreases r.len(),
{
    if r.len() == 0 {
        None
    } else if (r[0] matches Some(s) && is_rrule_line(s@)) {
        Some(r[0].unwrap()@)
    } else {
        first_rrule(r.drop_first())
    }
}

fn starts_with_rrule(s: &str) -> (res: bool)
    ensures
        res == is_rrule_line(s@),
{
    if s.unicode_len() < 6 {
        return false;
    }
    let head = s.substring_char(0, 6);
    str_eq(head, "RRULE:")
}

fn find_rrule(r: &Vec<Option<String>>) -> (res: Option<String>)
    ensures
        opt_view(res) == first_rrule(r@),
{
    let mut i: usize = 0;
    assert(r@.skip(0) =~= r@);
    while i < r.len()
        invariant
            i <= r.len(),
            first_rrule(r@) == first_rrule(r@.skip(i as int)),
        decreases r.len() - i,
    {
        assert(r@.skip(i as int).drop_first() =~= r@.skip(i as int + 1));
        assert(r@.skip(i as int)[0] == r@[i as int]);
        if let Some(s) = &r[i] {
            if starts_with_rrule(s.as_str()) {
                return Some(s.clone());
            }
        }
        i += 1;
    }
    assert(r@.skip(i as int).len() == 0);
    None
}

pub open spec fn no_start_text() -> Seq<char> {
    "event has no start time"@
}

pub open spec fn no_end_text() -> Seq<char> {
    "event has no end time"@
}

/// The id of an API event; empty when it has none.
pub open spec fn google_event_id(gev: GoogleEvent) -> Seq<char> {
    match gev.id {
        Some(i) => i@,
        None => Seq::empty(),
    }
}

/// `ev` is the local event made from the API event `gev` for the calendar
/// `calendar_id`: its title (`(no title)` when absent), texts, times, first
/// RRULE line, Google id (empty when absent), etag and time zone (`UTC` when
/// absent), with no project and no reminder.
pub open spec fn converted_event(calendar_id: Seq<char>, gev: GoogleEvent, ev: Event) -> bool {
    &&& ev.calendar_id@ == calendar_id
    &&& ev.project_id is None
    &&& ev.title@ == match gev.summary {
        Some(s) => s@,
        None => "(no title)"@,
    }
    &&& opt_view(ev.description) == opt_view(gev.description)
    &&& opt_view(ev.location) == opt_view(gev.location)
    &&& ev.start_at@ == google_time(gev.start).unwrap().0
    &&& ev.all_day == google_time(gev.start).unwrap().1
    &&& ev.end_at@ == google_time(gev.end).unwrap().0
    &&& opt_view(ev.rrule) == first_rrule(gev.recurrence@)
    &&& ev.google_id matches Some(g) && g@ == google_event_id(gev)
    &&& opt_view(ev.google_etag) == opt_view(gev.etag)
    &&& ev.reminder_minutes is None
    &&& ev.timezone@ == match gev.start.time_zone {
        Some(z) => z@,
        None => "UTC"@,
    }
    &&& ev.created_at == ev.updated_at
    &&& ev.deleted_at is None
}

/// The local event for an API event of the calendar `calendar_id`, with a
/// fresh id and the current time as both timestamps. Fails when the event has
/// no start, or no end.
pub fn google_event_to_local(calendar_id: &str, gev: &GoogleEvent) -> (res: Result<Event, String>)
    ensures
        google_time(gev.start) is None ==> (res matches Err(m) && m@ == no_start_text()),
        google_time(gev.start) is Some && google_time(gev.end) is None ==> (res matches Err(m) && m@
            == no_end_text()),
        google_time(gev.start) is Some && google_time(gev.end) is Some ==> (res matches Ok(ev) && converted_event(calendar_id@, *gev, ev) && ev.id@.len() == 36),
        res matches Ok(ev) ==> {
            &&& ev.calendar_id@ == calendar_id@
            &&& opt_view(gev.location) == opt_view(ev.location)
            &&& opt_view(gev.description) == opt_view(ev.description)
            &&& gev.summary matches Some(t) ==> ev.title@ == t@
            &&& opt_view(ev.google_etag) == opt_view(gev.etag)
            &&& gev.id matches Some(g) ==> (ev.google_id matches Some(x) && x@ == g@)
            &&& gev.start.time_zone matches Some(z) ==> ev.timezone@ == z@
            &&& gev.start.date_time is None ==> (gev.start.date matches Some(d) ==> ev.all_day
                && ev.start_at@ == d@ + " 00:00:00"@)
            &&& gev.start.date_time is Some ==> !ev.all_day
            &&& google_time(gev.start) matches Some(st) ==> ev.start_at@ == st.0
            &&& google_time(gev.end) matches Some(en) ==> ev.end_at@ == en.0
            &&& ev.project_id is None
            &&& ev.reminder_minutes is None
            &&& ev.deleted_at is None
        },
{
    let google_id = match &gev.id {
        Some(i) => i.clone(),
        None => String::new(),
    };
    let title = match &gev.summary {
        Some(s) => s.clone(),
        None => to_owned_string("(no title)"),
    };
    let timezone = match &gev.start.time_zone {
        Some(z) => z.clone(),
        None => to_owned_string("UTC"),
    };
    let (start_at, all_day) = match read_google_time(&gev.start) {
        Some(t) => t,
        None => return Err(to_owned_string("event has no start time")),
    };
    let end_at = match read_google_time(&gev.end) {
        Some(t) => t.0,
        None => return Err(to_owned_string("event has no end time")),
    };
    let rrule = find_rrule(&gev.recurrence);
    let now = timestamp_now();
    Ok(
        Event {
            id: new_record_id(),
            calendar_id: to_owned_string(calendar_id),
            project_id: None,
            title,
            description: gev.description.clone(),
            location: gev.location.clone(),
            start_at,
            end_at,
            all_day,
            rrule,
            google_id: Some(google_id),
            google_etag: gev.etag.clone(),
            reminder_minutes: None,
            timezone,
            created_at: now.clone(),
            updated_at: now,
            deleted_at: None,
        },
    )
}

/// A synced event keeps what the API event says: it lands in the calendar
/// being synced, with the API event's location, description, summary, etag,
/// Google id and time zone, and it is a whole-day event exactly when the API
/// gives a date rather than a date and time.
pub proof fn law_synced_event_keeps_api_fields(calendar_id: Seq<char>, gev: GoogleEvent, ev: Event)
    requires
        converted_event(calendar_id, gev, ev),
    ensures
        ({
            &&& ev.calendar_id@ == calendar_id
            &&& opt_view(gev.location) == opt_view(ev.location)
            &&& opt_view(gev.description) == opt_view(ev.description)
            &&& gev.summary matches Some(t) ==> ev.title@ == t@
            &&& opt_view(ev.google_etag) == opt_view(gev.etag)
            &&& gev.id matches Some(g) ==> (ev.google_id matches Some(x) && x@ == g@)
            &&& gev.start.time_zone matches Some(z) ==> ev.timezone@ == z@
            &&& gev.start.date_time is None ==> (gev.start.date matches Some(d) ==> ev.all_day
                && ev.start_at@ == d@ + " 00:00:00"@)
            &&& gev.start.date_time is Some ==> !ev.all_day
            &&& google_time(gev.start) matches Some(st) ==> ev.start_at@ == st.0
            &&& google_time(gev.end) matches Some(en) ==> ev.end_at@ == en.0
            &&& ev.project_id is None
            &&& ev.reminder_minutes is None
            &&& ev.deleted_at is None
        }),
{
}

/// The hex colour of a Google colour id.
pub open spec fn google_color_hex(id: Seq<char>) -> Seq<char> {
    if id == "1"@ {
        "#7986CB"@
    } else if id == "2"@ {
        "#33B679"@
    } else if id == "3"@ {
        "#8E24AA"@
    } else if id == "4"@ {
        "#E67C73"@
    } else if id == "5"@ {
        "#F6BF26"@
    } else if id == "6"@ {
        "#F4511E"@
    } else if id == "7"@ {
        "#039BE5"@
    } else if id == "8"@ {
        "#616161"@
    } else if id == "9"@ {
        "#3F51B5"@
    } else if id == "10"@ {
        "#0B8043"@
    } else if id == "11"@ {
        "#D50000"@
    } else {
        "#82FB9C"@
    }
}

/// The hex colour of a Google colour id: the eleven event colours by name
/// (lavender to tomato), and the accent green for any other id.
pub fn google_color_id_to_hex(color_id: &str) -> (res: &'static str)
    ensures
        res@ == google_color_hex(color_id@),
{
    if str_eq(color_id, "1") {
        "#7986CB"
    } else if str_eq(color_id, "2") {
        "#33B679"
    } else if str_eq(color_id, "3") {
        "#8E24AA"
    } else if str_eq(color_id, "4") {
        "#E67C73"
    } else if str_eq(color_id, "5") {
        "#F6BF26"
    } else if str_eq(color_id, "6") {
        "#F4511E"
    } else if str_eq(color_id, "7") {
        "#039BE5"
    } else if str_eq(color_id, "8") {
        "#616161"
    } else if str_eq(color_id, "9") {
        "#3F51B5"
    } else if str_eq(color_id, "10") {
        "#0B8043"
    } else if str_eq(color_id, "11") {
        "#D50000"
    } else {
        "#82FB9C"
    }
}

} // verus!

//! iCalendar (.ics) import and export; the `icalendar` crate reads and writes
//! the text, and this module decides what goes in and what comes out.
use chrono::Datelike;
use icalendar::{Component, EventLike};
use vstd::prelude::*;

use crate::cli::opt_view;
use crate::ics::{
    calendar_events, calendar_properties, calendar_text, event_properties, utc_value_text,
    ical_calendar_new, ical_calendar_push, ical_calendar_text, ical_event_description, ical_event_ends,
    ical_event_location, ical_event_new, ical_event_property, ical_event_starts,
};
use crate::models::Event;
use crate::stamp::{new_record_id, timestamp_now};
use crate::text::{
    byte_slice, byte_slice_str, lemma_boundary_end, lemma_boundary_zero, on_char_boundary, to_owned_string, utf8_len, utf8_len_at_least,
};
use crate::timestamp::{
    parse_storage_timestamp, push_year, storage_timestamp, two_seq, year_seq, CivilDate,
    DateTimeParts, MAX_YEAR, MIN_YEAR,
};

verus! {

/// The properties of one `VEVENT` that an import reads; each is `None` when
/// the event does not have it.
#[derive(Debug, Clone)]
pub struct IcalEventFields {
    pub summary: Option<String>,
    pub uid: Option<String>,
    pub description: Option<String>,
    pub location: Option<String>,
    pub dtstart: Option<String>,
    pub dtend: Option<String>,
    pub rrule: Option<String>,
}

/// The properties in the order summary, uid, description, location,
/// DTSTART, DTEND, RRULE.
pub open spec fn fields_view(f: IcalEventFields) -> Seq<Option<Seq<char>>> {
    seq![
        opt_view(f.summary),
        opt_view(f.uid),
        opt_view(f.description),
        opt_view(f.location),
        opt_view(f.dtstart),
        opt_view(f.dtend),
        opt_view(f.rrule),
    ]
}

/// The properties of each event.
pub open spec fn fields_views(s: Seq<IcalEventFields>) -> Seq<Seq<Option<Seq<char>>>> {
    s.map_values(|f: IcalEventFields| fields_view(f))
}

/// What parsing `content` with `icalendar`'s `Calendar::from_str` gives: the
/// properties of each `VEVENT` component in order, or the parser's error.
pub uninterp spec fn ical_events(content: Seq<char>) -> Result<Seq<Seq<Option<Seq<char>>>>, Seq<char>>;

/// Parses `content` with `icalendar::Calendar::from_str` and reads, from each
/// event component, the properties an import uses; other components are
/// passed over. The result is named by `ical_events`.
#[verifier::external_body]
fn read_ical_events(content: &str) -> (res: Result<Vec<IcalEventFields>, String>)
    ensures
        match ical_events(content@) {
            Ok(evs) => res matches Ok(v) && fields_views(v@) == evs,
            Err(e) => res matches Err(m) && m@ == e,
        },
{
    let cal: icalendar::Calendar = content.parse()?;
    let owned = |v: Option<&str>| v.map(|s| s.to_string());
    let read = |e: &icalendar::Event| IcalEventFields {
        summary: owned(e.get_summary()), uid: owned(e.get_uid()),
        description: owned(e.get_description()), location: owned(e.get_location()),
        dtstart: owned(e.property_value("DTSTART")), dtend: owned(e.property_value("DTEND")),
        rrule: owned(e.property_value("RRULE")),
    };
    Ok(cal.components.iter().filter_map(|c| match c {
        icalendar::CalendarComponent::Event(e) => Some(read(e)),
        _ => None,
    }).collect())
}

/// Every character of `v` is an ASCII digit.
pub open spec fn all_digits(v: Seq<char>) -> bool {
    forall|i: int| 0 <= i < v.len() ==> '0' <= #[trigger] v[i] <= '9'
}

/// `v` is a whole-day value such as `20260217`.
pub open spec fn is_date_value(v: Seq<char>) -> bool {
    v.len() == 8 && all_digits(v)
}

/// `v` is read as a date and time such as `20260217T090000Z`.
pub open spec fn is_datetime_value(v: Seq<char>) -> bool {
    !is_date_value(v) && utf8_len(v) >= 15 && v.len() > 8 && v[8] == 'T'
}

/// Reading a date-and-time value slices it between characters only: bytes
/// 8, 9 and 15 of the value, bytes 4 and 6 of its date part and bytes 2 and 4
/// of its time part start characters.
pub open spec fn prop_sliceable(v: Seq<char>) -> bool {
    is_datetime_value(v) ==> {
        &&& on_char_boundary(v, 8)
        &&& on_char_boundary(v, 9)
        &&& on_char_boundary(v, 15)
        &&& on_char_boundary(byte_slice(v, 0, 8), 4)
        &&& on_char_boundary(byte_slice(v, 0, 8), 6)
        &&& on_char_boundary(byte_slice(v, 9, 15), 2)
        &&& on_char_boundary(byte_slice(v, 9, 15), 4)
    }
}

/// The stored time a DTSTART or DTEND value reads as, and whether it is a
/// whole day; `None` when the value is absent or of no known shape, in which
/// case the current time stands in.
pub open spec fn prop_datetime(v: Option<Seq<char>>) -> Option<(Seq<char>, bool)> {
    match v {
        None => None,
        Some(v) => if is_date_value(v) {
            Some(
                (
                    v.subrange(0, 4) + "-"@ + v.subrange(4, 6) + "-"@ + v.subrange(6, 8)
                        + " 00:00:00"@,
                    true,
                ),
            )
        } else if is_datetime_value(v) {
            let d = byte_slice(v, 0, 8);
            let t = byte_slice(v, 9, 15);
            Some(
                (
                    byte_slice(d, 0, 4) + "-"@ + byte_slice(d, 4, 6) + "-"@ + byte_slice(d, 6, 8)
                        + " "@ + byte_slice(t, 0, 2) + ":"@ + byte_slice(t, 2, 4) + ":"@
                        + byte_slice(t, 4, 6),
                    false,
                ),
            )
        } else {
            None
        },
    }
}

fn is_date_str(v: &str) -> (res: bool)
    ensures
        res == is_date_value(v@),
{
    let n = v.unicode_len();
    if n != 8 {
        return false;
    }
    let mut i: usize = 0;
    while i < n
        invariant
            n == v@.len(),
            i <= n,
            forall|k: int| 0 <= k < i ==> '0' <= #[trigger] v@[k] <= '9',
        decreases n - i,
    {
        let c = v.get_char(i);
        if !('0' <= c && c <= '9') {
            return false;
        }
        i += 1;
    }
    true
}

fn is_datetime_str(v: &str) -> (res: bool)
    ensures
        res == is_datetime_value(v@),
{
    !is_date_str(v) && utf8_len_at_least(v, 15) && v.unicode_len() > 8 && v.get_char(8) == 'T'
}

/// Reads a DTSTART or DTEND value (`None` when the property is absent); the
/// current time stands in when the value has no known shape.
pub fn parse_prop_datetime(value: Option<&str>) -> (res: (String, bool))
    requires
        value matches Some(v) ==> prop_sliceable(v@),
    ensures
        match prop_datetime(match value {
            Some(v) => Some(v@),
            None => None,
        }) {
            Some((t, day)) => res.0@ == t && res.1 == day,
            None => !res.1,
        },
{
    let fallback = timestamp_now();
    let v = match value {
        Some(v) => v,
        None => return (fallback, false),
    };
    if is_date_str(v) {
        let mut out = to_owned_string(v.substring_char(0, 4));
        out.append("-");
        out.append(v.substring_char(4, 6));
        out.append("-");
        out.append(v.substring_char(6, 8));
        out.append(" 00:00:00");
        return (out, true);
    }
    if is_datetime_str(v) {
        proof {
            lemma_boundary_zero(v@);
        }
        let d = byte_slice_str(v, 0, 8);
        let t = byte_slice_str(v, 9, 15);
        proof {
            lemma_boundary_zero(d@);
            lemma_boundary_zero(t@);
            lemma_boundary_end(d@);
            lemma_boundary_end(t@);
        }
        let mut out = byte_slice_str(d.as_str(), 0, 4);
        out.append("-");
        out.append(byte_slice_str(d.as_str(), 4, 6).as_str());
        out.append("-");
        out.append(byte_slice_str(d.as_str(), 6, 8).as_str());
        out.append(" ");
        out.append(byte_slice_str(t.as_str(), 0, 2).as_str());
        out.append(":");
        out.append(byte_slice_str(t.as_str(), 2, 4).as_str());
        out.append(":");
        out.append(byte_slice_str(t.as_str(), 4, 6).as_str());
        return (out, false);
    }
    (fallback, false)
}

/// `ev` is the event imported from an event with the properties `f`, for the
/// calendar `calendar_id`: its uid (a fresh id when there is none), its
/// summary (`(no title)` when there is none), texts, times, and RRULE with
/// its `RRULE:` prefix put back.
pub open spec fn imported_event(f: Seq<Option<Seq<char>>>, calendar_id: Seq<char>, ev: Event) -> bool {
    &&& f[1] matches Some(u) ==> ev.id@ == u
    &&& f[1] is None ==> ev.id@.len() == 36
    &&& ev.calendar_id@ == calendar_id
    &&& ev.project_id is None
    &&& ev.title@ == match f[0] {
        Some(s) => s,
        None => "(no title)"@,
    }
    &&& opt_view(ev.description) == f[2]
    &&& opt_view(ev.location) == f[3]
    &&& match prop_datetime(f[4]) {
        Some((t, day)) => ev.start_at@ == t && ev.all_day == day,
        None => !ev.all_day,
    }
    &&& prop_datetime(f[5]) matches Some((t, _)) ==> ev.end_at@ == t
    &&& opt_view(ev.rrule) == match f[6] {
        Some(r) => Some("RRULE:"@ + r),
        None => None,
    }
    &&& ev.google_id is None
    &&& ev.google_etag is None
    &&& ev.reminder_minutes is None
    &&& ev.timezone@ == "UTC"@
    &&& ev.created_at == ev.updated_at
    &&& ev.deleted_at is None
}

/// An imported event keeps the properties of its VEVENT: the DESCRIPTION and
/// LOCATION as they stand, the SUMMARY as its title and the UID as its id
/// where the VEVENT has them, and it lands in the calendar imported into.
pub proof fn law_imported_event_keeps_properties(f: IcalEventFields, calendar_id: Seq<char>, ev: Event)
    requires
        imported_event(fields_view(f), calendar_id, ev),
    ensures
        opt_view(ev.description) == opt_view(f.description),
        opt_view(ev.location) == opt_view(f.location),
        ev.calendar_id@ == calendar_id,
        f.summary matches Some(t) ==> ev.title@ == t@,
        f.uid matches Some(u) ==> ev.id@ == u@,
        f.rrule matches Some(r) ==> (ev.rrule matches Some(x) && x@ == "RRULE:"@ + r@),
        f.rrule is None ==> ev.rrule is None,
{
}

/// Reading the DTSTART and DTEND values of every event slices them between
/// characters only.
pub open spec fn events_sliceable(evs: Seq<Seq<Option<Seq<char>>>>) -> bool {
    forall|i: int|
        0 <= i < evs.len() ==> (#[trigger] evs[i][4] matches Some(v) ==> prop_sliceable(v)) && (
        evs[i][5] matches Some(v) ==> prop_sliceable(v))
}

fn sliceable_value(v: &Option<String>) -> (res: bool)
    ensures
        res == (opt_view(*v) matches Some(x) ==> prop_sliceable(x)),
{
    match v {
        None => true,
        Some(s) => {
            let s = s.as_str();
            if !is_datetime_str(s) {
                return true;
            }
            let b8 = crate::text::char_index_of_byte(s, 8).is_some();
            let b9 = crate::text::char_index_of_byte(s, 9).is_some();
            let b15 = crate::text::char_index_of_byte(s, 15).is_some();
            if !(b8 && b9 && b15) {
                return false;
            }
            proof {
                lemma_boundary_zero(s@);
            }
            let d = byte_slice_str(s, 0, 8);
            let t = byte_slice_str(s, 9, 15);
            crate::text::char_index_of_byte(d.as_str(), 4).is_some()
                && crate::text::char_index_of_byte(d.as_str(), 6).is_some()
                && crate::text::char_index_of_byte(t.as_str(), 2).is_some()
                && crate::text::char_index_of_byte(t.as_str(), 4).is_some()
        },
    }
}

fn import_one(f: &IcalEventFields, calendar_id: &str, now: &String) -> (res: Event)
    requires
        opt_view(f.dtstart) matches Some(v) ==> prop_sliceable(v),
        opt_view(f.dtend) matches Some(v) ==> prop_sliceable(v),
    ensures
        imported_event(fields_view(*f), calendar_id@, res),
        res.created_at == *now,
        opt_view(res.description) == opt_view(f.description),
        opt_view(res.location) == opt_view(f.location),
        res.calendar_id@ == calendar_id@,
        f.summary matches Some(t) ==> res.title@ == t@,
        f.uid matches Some(u) ==> res.id@ == u@,
{
    let title = match &f.summary {
        Some(s) => s.clone(),
        None => to_owned_string("(no title)"),
    };
    let id = match &f.uid {
        Some(u) => u.clone(),
        None => new_record_id(),
    };
    let start_value: Option<&str> = match &f.dtstart {
        Some(v) => Some(v.as_str()),
        None => None,
    };
    let end_value: Option<&str> = match &f.dtend {
        Some(v) => Some(v.as_str()),
        None => None,
    };
    let (start_at, all_day) = parse_prop_datetime(start_value);
    let (end_at, _) = parse_prop_datetime(end_value);
    let rrule = match &f.rrule {
        Some(r) => {
            let mut s = to_owned_string("RRULE:");
            s.append(r.as_str());
            Some(s)
        },
        None => None,
    };
    Event {
        id,
        calendar_id: to_owned_string(calendar_id),
        project_id: None,
        title,
        description: f.description.clone(),
        location: f.location.clone(),
        start_at,
        end_at,
        all_day,
        rrule,
        google_id: None,
        google_etag: None,
        reminder_minutes: None,
        timezone: to_owned_string("UTC"),
        created_at: now.clone(),
        updated_at: now.clone(),
        deleted_at: None,
    }
}

/// Reads the events of an .ics text for the calendar `default_calendar_id`;
/// `None` when a DTSTART or DTEND value would have to be cut inside a
/// character.
fn read_ical(content: &str, default_calendar_id: &str) -> (res: Option<Result<Vec<Event>, String>>)
    ensures
        match ical_events(content@) {
            Err(e) => res matches Some(Err(m)) && m@ == "iCal parse error: "@ + e,
            Ok(evs) => if events_sliceable(evs) {
                res matches Some(Ok(v)) && v@.len() == evs.len() && forall|i: int|
                    0 <= i < evs.len() ==> imported_event(evs[i], default_calendar_id@, #[trigger] v@[i])
            } else {
                res is None
            },
        },
{
    let fields = match read_ical_events(content) {
        Ok(f) => f,
        Err(e) => {
            let mut m = to_owned_string("iCal parse error: ");
            m.append(e.as_str());
            return Some(Err(m));
        },
    };
    let ghost evs = fields_views(fields@);
    assert(ical_events(content@) == Ok::<Seq<Seq<Option<Seq<char>>>>, Seq<char>>(evs));
    let mut i: usize = 0;
    while i < fields.len()
        invariant
            i <= fields.len(),
            evs == fields_views(fields@),
            ical_events(content@) == Ok::<Seq<Seq<Option<Seq<char>>>>, Seq<char>>(evs),
            forall|k: int| 0 <= k < i ==> (#[trigger] evs[k][4] matches Some(v) ==> prop_sliceable(v)) && (
            evs[k][5] matches Some(v) ==> prop_sliceable(v)),
        decreases fields.len() - i,
    {
        assert(evs[i as int] == fields_view(fields@[i as int]));
        assert(evs[i as int][4] == opt_view(fields@[i as int].dtstart));
        assert(evs[i as int][5] == opt_view(fields@[i as int].dtend));
        if !sliceable_value(&fields[i].dtstart) || !sliceable_value(&fields[i].dtend) {
            assert(!events_sliceable(evs)) by {
                assert(!((evs[i as int][4] matches Some(v) ==> prop_sliceable(v)) && (evs[i as int][5] matches Some(v) ==> prop_sliceable(v))));
            }
            return None;
        }
        i += 1;
    }
    let now = timestamp_now();
    let mut events: Vec<Event> = Vec::new();
    let mut j: usize = 0;
    while j < fields.len()
        invariant
            j <= fields.len(),
            events@.len() == j,
            evs == fields_views(fields@),
            ical_events(content@) == Ok::<Seq<Seq<Option<Seq<char>>>>, Seq<char>>(evs),
            events_sliceable(evs),
            forall|k: int| 0 <= k < j ==> imported_event(evs[k], default_calendar_id@, #[trigger] events@[k]),
        decreases fields.len() - j,
    {
        assert(evs[j as int] == fields_view(fields@[j as int]));
        assert(evs[j as int][4] == opt_view(fields@[j as int].dtstart));
        let ev = import_one(&fields[j], default_calendar_id, &now);
        events.push(ev);
        j += 1;
    }
    Some(Ok(events))
}

/// Reads the events of an .ics text for the calendar `default_calendar_id`.
pub fn import_from_str(content: &str, default_calendar_id: &str) -> (res: Result<Vec<Event>, String>)
    requires
        ical_events(content@) matches Ok(evs) ==> events_sliceable(evs),
    ensures
        match ical_events(content@) {
            Err(e) => res matches Err(m) && m@ == "iCal parse error: "@ + e,
            Ok(evs) => res matches Ok(v) && v@.len() == evs.len() && forall|i: int|
                0 <= i < evs.len() ==> imported_event(evs[i], default_calendar_id@, #[trigger] v@[i]),
        },
        ical_events(content@) matches Ok(evs) ==> (res matches Ok(v) ==> forall|i: int|
            0 <= i < evs.len() && i < v@.len() ==> {
                &&& opt_view(v@[i].description) == evs[i][2]
                &&& opt_view(v@[i].location) == evs[i][3]
                &&& v@[i].calendar_id@ == default_calendar_id@
                &&& evs[i][0] matches Some(t) ==> v@[i].title@ == t
                &&& evs[i][1] matches Some(u) ==> v@[i].id@ == u
            }),
{
    match read_ical(content, default_calendar_id) {
        Some(r) => r,
        None => Err(String::new()),
    }
}

/// As [`import_from_str`], or `None` where a DTSTART or DTEND value would
/// have to be cut inside a character.
pub fn try_import_from_str(content: &str, default_calendar_id: &str) -> (res: Option<Result<Vec<Event>, String>>)
    ensures
        match ical_events(content@) {
            Err(e) => res matches Some(Err(m)) && m@ == "iCal parse error: "@ + e,
            Ok(evs) => if events_sliceable(evs) {
                res matches Some(Ok(v)) && v@.len() == evs.len() && forall|i: int|
                    0 <= i < evs.len() ==> imported_event(evs[i], default_calendar_id@, #[trigger] v@[i])
            } else {
                res is None
            },
        },
        ical_events(content@) matches Ok(evs) ==> (res matches Some(Ok(v)) ==> forall|i: int|
            0 <= i < evs.len() && i < v@.len() ==> {
                &&& opt_view(v@[i].description) == evs[i][2]
                &&& opt_view(v@[i].location) == evs[i][3]
                &&& v@[i].calendar_id@ == default_calendar_id@
                &&& evs[i][0] matches Some(t) ==> v@[i].title@ == t
                &&& evs[i][1] matches Some(u) ==> v@[i].id@ == u
            }),
{
    match read_ical(content, default_calendar_id) {
        None => None,
        Some(_) => Some(import_from_str(content, default_calendar_id)),
    }
}

/// What chrono's `NaiveDate::parse_from_str(s, "%Y-%m-%d")` gives for `s`;
/// `None` when it rejects `s`.
pub uninterp spec fn naive_date(s: Seq<char>) -> Option<CivilDate>;

/// Calls `chrono::NaiveDate::parse_from_str` with `%Y-%m-%d` and reads the
/// fields of the result. The result is named by `naive_date`; chrono documents
/// that a date it returns is valid.
#[verifier::external_body]
fn parse_naive_date(s: &str) -> (res: Option<CivilDate>)
    ensures
        res == naive_date(s@),
        res matches Some(d) ==> d.valid(),
{
    match chrono::NaiveDate::parse_from_str(s, "%Y-%m-%d") {
        Ok(d) => Some(CivilDate { year: d.year(), month: d.month(), day: d.day() }),
        Err(_) => None,
    }
}

/// A date as `%Y%m%d` writes it.
pub open spec fn compact_date_text(d: CivilDate) -> Seq<char> {
    year_seq(d.year as int) + two_seq(d.month as nat) + two_seq(d.day as nat)
}

fn format_compact_date(d: &CivilDate) -> (res: String)
    ensures
        res@ == compact_date_text(*d),
{
    let mut out = String::new();
    push_year(&mut out, d.year);
    crate::text::push_dec2(&mut out, d.month as u64);
    crate::text::push_dec2(&mut out, d.day as u64);
    assert(out@ =~= compact_date_text(*d));
    out
}

/// The value of a whole-day DTSTART or DTEND: the date of the first ten bytes
/// of the stored time, in `%Y%m%d`; `None` when they are not a date.
pub open spec fn all_day_value(stored: Seq<char>) -> Option<Seq<char>> {
    match naive_date(byte_slice(stored, 0, 10)) {
        Some(d) => Some(compact_date_text(d)),
        None => None,
    }
}

/// The RRULE value written out: the stored rule without its `RRULE:` prefix.
pub open spec fn rrule_value(r: Seq<char>) -> Seq<char> {
    if r.len() >= 6 && r.take(6) == "RRULE:"@ {
        r.skip(6)
    } else {
        r
    }
}

/// When an exported event starts or ends.
#[derive(Debug, Clone)]
pub enum IcalTime {
    /// A whole day, written `YYYYMMDD`.
    Date(String),
    /// A moment, written in UTC.
    Utc(DateTimeParts),
    /// The stored time could not be read; nothing is written.
    Unset,
}

/// What is written for one event.
#[derive(Debug, Clone)]
pub struct IcalExport {
    pub uid: String,
    pub summary: String,
    pub description: Option<String>,
    pub location: Option<String>,
    pub start: IcalTime,
    pub end: IcalTime,
    pub rrule: Option<String>,
}

/// What is written for a stored start or end time.
pub open spec fn export_time(stored: Seq<char>, all_day: bool, t: IcalTime) -> bool {
    if all_day {
        match all_day_value(stored) {
            Some(v) => t matches IcalTime::Date(s) && s@ == v,
            None => t is Unset,
        }
    } else {
        match storage_timestamp(stored) {
            Some(p) => t == IcalTime::Utc(p),
            None => t is Unset,
        }
    }
}

/// The first ten bytes of a whole-day event's times can be cut off.
pub open spec fn exportable(ev: Event) -> bool {
    ev.all_day ==> on_char_boundary(ev.start_at@, 10) && on_char_boundary(ev.end_at@, 10)
}

fn export_time_of(stored: &String, all_day: bool) -> (res: IcalTime)
    requires
        all_day ==> on_char_boundary(stored@, 10),
    ensures
        export_time(stored@, all_day, res),
        res matches IcalTime::Utc(p) ==> p.valid() && MIN_YEAR <= p.year <= MAX_YEAR,
{
    if all_day {
        proof {
            lemma_boundary_zero(stored@);
        }
        let head = byte_slice_str(stored.as_str(), 0, 10);
        match parse_naive_date(head.as_str()) {
            Some(d) => IcalTime::Date(format_compact_date(&d)),
            None => IcalTime::Unset,
        }
    } else {
        match parse_storage_timestamp(stored.as_str()) {
            Some(p) => IcalTime::Utc(p),
            None => IcalTime::Unset,
        }
    }
}

fn strip_rrule_prefix(r: &String) -> (res: String)
    ensures
        res@ == rrule_value(r@),
{
    let s = r.as_str();
    let n = s.unicode_len();
    if n >= 6 {
        let head = s.substring_char(0, 6);
        assert(head@ =~= r@.take(6));
        if crate::text::str_eq(head, "RRULE:") {
            let rest = s.substring_char(6, n);
            assert(rest@ =~= r@.skip(6));
            return to_owned_string(rest);
        }
    }
    r.clone()
}

/// What is written for `ev`.
pub fn export_plan(ev: &Event) -> (res: IcalExport)
    requires
        exportable(*ev),
    ensures
        res.uid == ev.id,
        res.summary == ev.title,
        res.description == ev.description,
        res.location == ev.location,
        export_time(ev.start_at@, ev.all_day, res.start),
        export_time(ev.end_at@, ev.all_day, res.end),
        res.start matches IcalTime::Utc(p) ==> p.valid() && MIN_YEAR <= p.year <= MAX_YEAR,
        res.end matches IcalTime::Utc(p) ==> p.valid() && MIN_YEAR <= p.year <= MAX_YEAR,
        opt_view(res.rrule) == match ev.rrule {
            Some(r) => Some(rrule_value(r@)),
            None => None,
        },
{
    let rrule = match &ev.rrule {
        Some(r) => Some(strip_rrule_prefix(r)),
        None => None,
    };
    IcalExport {
        uid: ev.id.clone(),
        summary: ev.title.clone(),
        description: ev.description.clone(),
        location: ev.location.clone(),
        start: export_time_of(&ev.start_at, ev.all_day),
        end: export_time_of(&ev.end_at, ev.all_day),
        rrule,
    }
}

/// The properties of an event after a start or end time `t` was written:
/// a whole day under `date_key`, a moment under DTSTART or DTEND.
pub open spec fn with_time(m: Map<Seq<char>, Seq<char>>, t: IcalTime, date_key: Seq<char>, is_start: bool) -> Map<Seq<char>, Seq<char>> {
    match t {
        IcalTime::Date(v) => m.insert(date_key, v@),
        IcalTime::Utc(p) => if MIN_YEAR <= p.year <= MAX_YEAR {
            m.insert(
                if is_start {
                    "DTSTART"@
                } else {
                    "DTEND"@
                },
                utc_value_text(p),
            )
        } else {
            m
        },
        IcalTime::Unset => m,
    }
}

fn write_time(e: &mut icalendar::Event, t: &IcalTime, date_key: &str, is_start: bool)
    requires
        t matches IcalTime::Utc(p) ==> p.valid(),
    ensures
        event_properties(*final(e)) == with_time(event_properties(*old(e)), *t, date_key@, is_start),
{
    match t {
        IcalTime::Date(v) => ical_event_property(e, date_key, v.as_str()),
        IcalTime::Utc(p) => if is_start {
            ical_event_starts(e, p)
        } else {
            ical_event_ends(e, p)
        },
        IcalTime::Unset => {},
    }
}

/// The properties written for a stored start or end time.
pub open spec fn time_properties(
    m: Map<Seq<char>, Seq<char>>,
    stored: Seq<char>,
    all_day: bool,
    date_key: Seq<char>,
    key: Seq<char>,
) -> Map<Seq<char>, Seq<char>> {
    if all_day {
        match all_day_value(stored) {
            Some(v) => m.insert(date_key, v),
            None => m,
        }
    } else {
        match storage_timestamp(stored) {
            Some(p) => m.insert(key, utc_value_text(p)),
            None => m,
        }
    }
}

/// The properties of the .ics event written for `ev`: its id as UID, its
/// title as SUMMARY, its description and location, its times, and its RRULE
/// without the prefix.
pub open spec fn planned_properties(ev: Event) -> Map<Seq<char>, Seq<char>> {
    let base = Map::<Seq<char>, Seq<char>>::empty().insert("UID"@, ev.id@).insert(
        "SUMMARY"@,
        ev.title@,
    );
    let with_description = match ev.description {
        Some(d) => base.insert("DESCRIPTION"@, d@),
        None => base,
    };
    let with_location = match ev.location {
        Some(l) => with_description.insert("LOCATION"@, l@),
        None => with_description,
    };
    let with_start = time_properties(
        with_location,
        ev.start_at@,
        ev.all_day,
        "DTSTART;VALUE=DATE"@,
        "DTSTART"@,
    );
    let with_end = time_properties(with_start, ev.end_at@, ev.all_day, "DTEND;VALUE=DATE"@, "DTEND"@);
    match ev.rrule {
        Some(r) => with_end.insert("RRULE"@, rrule_value(r@)),
        None => with_end,
    }
}

/// The .ics events written for `evs`, in order.
pub open spec fn planned_events(evs: Seq<Event>) -> Seq<Map<Seq<char>, Seq<char>>> {
    evs.map_values(|e: Event| planned_properties(e))
}

/// The top-level properties of an exported calendar named `name`.
pub open spec fn export_header(name: Seq<char>) -> Seq<(Seq<char>, Seq<char>)> {
    seq![
        ("VERSION"@, "2.0"@),
        ("PRODID"@, "ICALENDAR-RS"@),
        ("CALSCALE"@, "GREGORIAN"@),
        ("NAME"@, name),
        ("X-WR-CALNAME"@, name),
        ("DESCRIPTION"@, "Exported from SolverForge Calendar"@),
        ("X-WR-CALDESC"@, "Exported from SolverForge Calendar"@),
    ]
}

/// The .ics text of `events`, as a calendar named `calendar_name`.
pub fn export_events(events: &Vec<Event>, calendar_name: &str) -> (res: String)
    requires
        forall|i: int| 0 <= i < events@.len() ==> exportable(#[trigger] events@[i]),
    ensures
        exists|stamps: Seq<Seq<char>>, uids: Seq<Seq<char>>|
            res@ == calendar_text(export_header(calendar_name@), planned_events(events@), stamps, uids),
{
    let mut cal = ical_calendar_new(calendar_name, "Exported from SolverForge Calendar");
    let mut i: usize = 0;
    while i < events.len()
        invariant
            i <= events.len(),
            forall|k: int| 0 <= k < events@.len() ==> exportable(#[trigger] events@[k]),
            calendar_properties(cal) == export_header(calendar_name@),
            calendar_events(cal) == planned_events(events@.take(i as int)),
        decreases events.len() - i,
    {
        let ghost ev = events@[i as int];
        let plan = export_plan(&events[i]);
        let mut e = ical_event_new(plan.uid.as_str(), plan.summary.as_str());
        if let Some(d) = &plan.description {
            ical_event_description(&mut e, d.as_str());
        }
        if let Some(l) = &plan.location {
            ical_event_location(&mut e, l.as_str());
        }
        write_time(&mut e, &plan.start, "DTSTART;VALUE=DATE", true);
        write_time(&mut e, &plan.end, "DTEND;VALUE=DATE", false);
        if let Some(r) = &plan.rrule {
            ical_event_property(&mut e, "RRULE", r.as_str());
        }
        assert(event_properties(e) =~= planned_properties(ev));
        ical_calendar_push(&mut cal, &mut e);
        assert(planned_events(events@.take(i as int + 1)) =~= planned_events(events@.take(i as int)).push(planned_properties(ev)));
        i += 1;
    }
    assert(events@.take(events@.len() as int) =~= events@);
    ical_calendar_text(&cal)
}

} // verus!

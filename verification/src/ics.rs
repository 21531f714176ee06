//! The `icalendar` calls that write an .ics text.
use icalendar::Calendar as VCalendar;
use icalendar::Event as VEvent;
use icalendar::{Component, EventLike};
use vstd::prelude::*;

use crate::timestamp::{two_seq, year_seq, DateTimeParts, MAX_YEAR, MIN_YEAR};

verus! {

#[verifier::external_type_specification]
#[verifier::external_body]
pub struct ExIcalEvent(VEvent);

#[verifier::external_type_specification]
#[verifier::external_body]
pub struct ExIcalCalendar(VCalendar);

#[verifier::external_type_specification]
#[verifier::external_body]
pub struct ExIcalComponent(icalendar::CalendarComponent);

/// The properties of an icalendar event, each key with its value (the event
/// keeps them in a map keyed by the property's key).
pub uninterp spec fn event_properties(e: VEvent) -> Map<Seq<char>, Seq<char>>;

/// The top-level properties of an icalendar calendar, in order.
pub uninterp spec fn calendar_properties(c: VCalendar) -> Seq<(Seq<char>, Seq<char>)>;

/// The components of an icalendar calendar, each an event given by its
/// properties, in order.
pub uninterp spec fn calendar_events(c: VCalendar) -> Seq<Map<Seq<char>, Seq<char>>>;

/// What `Calendar`'s `Display` writes for a calendar with the top-level
/// properties `header` and the events `events`, where `stamps[i]` is the
/// current time it writes as the DTSTAMP of an event that has none, and
/// `uids[i]` the fresh id it writes as the UID of an event that has none.
pub uninterp spec fn calendar_text(
    header: Seq<(Seq<char>, Seq<char>)>,
    events: Seq<Map<Seq<char>, Seq<char>>>,
    stamps: Seq<Seq<char>>,
    uids: Seq<Seq<char>>,
) -> Seq<char>;

/// An event without properties.
pub open spec fn no_properties() -> Map<Seq<char>, Seq<char>> {
    Map::empty()
}

/// A calendar without components.
pub open spec fn no_events() -> Seq<Map<Seq<char>, Seq<char>>> {
    Seq::empty()
}

/// A UTC date and time as icalendar writes it with chrono's
/// `%Y%m%dT%H%M%SZ` (a leap second shows as second 60).
pub open spec fn utc_value_text(p: DateTimeParts) -> Seq<char> {
    let sec = if p.nanosecond >= 1_000_000_000 {
        p.second + 1
    } else {
        p.second as int
    };
    year_seq(p.year as int) + two_seq(p.month as nat) + two_seq(p.day as nat) + seq!['T']
        + two_seq(p.hour as nat) + two_seq(p.minute as nat) + two_seq(sec as nat) + seq!['Z']
}

/// Calls `icalendar::Event::new`, which starts with no property, then `uid`
/// and `summary`, which set the UID and SUMMARY properties.
#[verifier::external_body]
pub(crate) fn ical_event_new(uid: &str, summary: &str) -> (res: VEvent)
    ensures
        event_properties(res) == no_properties().insert("UID"@, uid@).insert(
            "SUMMARY"@,
            summary@,
        ),
{
    let mut e = VEvent::new();
    e.uid(uid);
    e.summary(summary);
    e
}

/// Calls `EventLike::description` on the event, which sets its DESCRIPTION
/// property.
#[verifier::external_body]
pub(crate) fn ical_event_description(e: &mut VEvent, text: &str)
    ensures
        event_properties(*final(e)) == event_properties(*old(e)).insert("DESCRIPTION"@, text@),
{
    e.description(text);
}

/// Calls `EventLike::location` on the event, which sets its LOCATION
/// property.
#[verifier::external_body]
pub(crate) fn ical_event_location(e: &mut VEvent, text: &str)
    ensures
        event_properties(*final(e)) == event_properties(*old(e)).insert("LOCATION"@, text@),
{
    e.location(text);
}

/// Calls `Component::add_property` on the event, which sets the property
/// `key` to `value`, replacing one of the same key.
#[verifier::external_body]
pub(crate) fn ical_event_property(e: &mut VEvent, key: &str, value: &str)
    ensures
        event_properties(*final(e)) == event_properties(*old(e)).insert(key@, value@),
{
    e.add_property(key, value);
}

/// Calls `EventLike::starts` on the event with the UTC date and time `p`,
/// built with chrono, which sets the DTSTART property to `p` in
/// `%Y%m%dT%H%M%SZ`; chrono has no such date outside its years, and then
/// nothing is set.
#[verifier::external_body]
pub(crate) fn ical_event_starts(e: &mut VEvent, p: &DateTimeParts)
    requires
        p.valid(),
    ensures
        event_properties(*final(e)) == if MIN_YEAR <= p.year <= MAX_YEAR {
            event_properties(*old(e)).insert("DTSTART"@, utc_value_text(*p))
        } else {
            event_properties(*old(e))
        },
{
    if let Some(dt) = chrono::NaiveDate::from_ymd_opt(p.year, p.month, p.day)
        .and_then(|d| d.and_hms_nano_opt(p.hour, p.minute, p.second, p.nanosecond)) {
        e.starts(dt.and_utc());
    }
}

/// Calls `EventLike::ends` on the event with the UTC date and time `p`,
/// built with chrono, which sets the DTEND property to `p` in
/// `%Y%m%dT%H%M%SZ`; chrono has no such date outside its years, and then
/// nothing is set.
#[verifier::external_body]
pub(crate) fn ical_event_ends(e: &mut VEvent, p: &DateTimeParts)
    requires
        p.valid(),
    ensures
        event_properties(*final(e)) == if MIN_YEAR <= p.year <= MAX_YEAR {
            event_properties(*old(e)).insert("DTEND"@, utc_value_text(*p))
        } else {
            event_properties(*old(e))
        },
{
    if let Some(dt) = chrono::NaiveDate::from_ymd_opt(p.year, p.month, p.day)
        .and_then(|d| d.and_hms_nano_opt(p.hour, p.minute, p.second, p.nanosecond)) {
        e.ends(dt.and_utc());
    }
}

/// Calls `icalendar::Calendar::new`, which starts with the VERSION, PRODID and
/// CALSCALE properties and no component, then `name` and `description`,
/// which append NAME and X-WR-CALNAME, then DESCRIPTION and X-WR-CALDESC.
#[verifier::external_body]
pub(crate) fn ical_calendar_new(name: &str, description: &str) -> (res: VCalendar)
    ensures
        calendar_properties(res) == seq![
            ("VERSION"@, "2.0"@),
            ("PRODID"@, "ICALENDAR-RS"@),
            ("CALSCALE"@, "GREGORIAN"@),
            ("NAME"@, name@),
            ("X-WR-CALNAME"@, name@),
            ("DESCRIPTION"@, description@),
            ("X-WR-CALDESC"@, description@),
        ],
        calendar_events(res) == no_events(),
{
    let mut cal = VCalendar::new();
    cal.name(name);
    cal.description(description);
    cal
}

/// Calls `Event::done`, which moves the event's properties out and leaves it
/// with none, and `Calendar::push`, which appends the finished event.
#[verifier::external_body]
pub(crate) fn ical_calendar_push(cal: &mut VCalendar, e: &mut VEvent)
    ensures
        calendar_properties(*final(cal)) == calendar_properties(*old(cal)),
        calendar_events(*final(cal)) == calendar_events(*old(cal)).push(event_properties(*old(e))),
        event_properties(*final(e)) == no_properties(),
{
    cal.push(e.done());
}

/// The calendar's text, from its `Display`: named by `calendar_text` for the
/// calendar's properties and events, with the current time (and a fresh id)
/// written for each event that lacks a DTSTAMP (or a UID). Which times and
/// ids those are is not said.
#[verifier::external_body]
pub(crate) fn ical_calendar_text(cal: &VCalendar) -> (res: String)
    ensures
        exists|stamps: Seq<Seq<char>>, uids: Seq<Seq<char>>|
            res@ == calendar_text(calendar_properties(*cal), calendar_events(*cal), stamps, uids),
{
    cal.to_string()
}

} // verus!

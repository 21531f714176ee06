//! The records stored in the calendar database.
use vstd::prelude::*;

use crate::stamp::{new_record_id, timestamp_now};
use crate::timestamp::{
    date_le, date_not_after, date_of, div_toward_zero, epoch_seconds, minutes_between, minutes_from_to, parse_storage_timestamp,
    storage_timestamp, CivilDate, DateTimeParts, MAX_YEAR, MIN_YEAR,
};

verus! {

/// A calendar, local or synced with Google.
#[derive(Debug, Clone)]
pub struct Calendar {
    /// UUID v4.
    pub id: String,
    pub name: String,
    /// Hex colour such as `#50f872`.
    pub color: String,
    pub source: CalendarSource,
    pub google_id: Option<String>,
    pub visible: bool,
    /// Display order.
    pub position: i64,
    pub created_at: String,
    pub updated_at: String,
    pub deleted_at: Option<String>,
}

#[derive(Debug, Clone, Copy, PartialEq, Eq, Structural)]
pub enum CalendarSource {
    Local,
    Google,
}

impl CalendarSource {
    /// The lowercase name used in storage and output.
    pub fn as_str(&self) -> (res: &'static str)
        ensures
            res@ == (match *self {
                CalendarSource::Local => "local"@,
                CalendarSource::Google => "google"@,
            }),
    {
        match self {
            CalendarSource::Local => "local",
            CalendarSource::Google => "google",
        }
    }
}

/// A copy of an optional text.
pub fn clone_text(o: &Option<String>) -> (res: Option<String>)
    ensures
        res == *o,
{
    match o {
        Some(s) => Some(s.clone()),
        None => None,
    }
}

impl Calendar {
    /// A copy of the calendar.
    pub fn clone_calendar(&self) -> (res: Calendar)
        ensures
            res == *self,
    {
        Calendar {
            id: self.id.clone(),
            name: self.name.clone(),
            color: self.color.clone(),
            source: self.source,
            google_id: clone_text(&self.google_id),
            visible: self.visible,
            position: self.position,
            created_at: self.created_at.clone(),
            updated_at: self.updated_at.clone(),
            deleted_at: clone_text(&self.deleted_at),
        }
    }

    /// A new visible local calendar at position 0 with a fresh id and the
    /// current time as both timestamps.
    pub fn new_local(name: String, color: String) -> (res: Calendar)
        ensures
            res.name == name,
            res.color == color,
            res.source == CalendarSource::Local,
            res.google_id is None,
            res.visible,
            res.position == 0,
            res.id@.len() == 36,
            res.created_at == res.updated_at,
            res.deleted_at is None,
    {
        let now = timestamp_now();
        Calendar {
            id: new_record_id(),
            name,
            color,
            source: CalendarSource::Local,
            google_id: None,
            visible: true,
            position: 0,
            created_at: now.clone(),
            updated_at: now,
            deleted_at: None,
        }
    }
}

/// A project groups events that depend on each other.
#[derive(Debug, Clone)]
pub struct Project {
    pub id: String,
    pub name: String,
    pub color: String,
    pub description: Option<String>,
    pub created_at: String,
    pub updated_at: String,
    pub deleted_at: Option<String>,
}

impl Project {
    /// A new project without description, with a fresh id and the current time.
    pub fn new(name: String, color: String) -> (res: Project)
        ensures
            res.name == name,
            res.color == color,
            res.description is None,
            res.id@.len() == 36,
            res.created_at == res.updated_at,
            res.deleted_at is None,
    {
        let now = timestamp_now();
        Project {
            id: new_record_id(),
            name,
            color,
            description: None,
            created_at: now.clone(),
            updated_at: now,
            deleted_at: None,
        }
    }
}

/// A calendar event. Times are stored as `YYYY-MM-DD HH:MM:SS`.
#[derive(Debug, Clone)]
pub struct Event {
    pub id: String,
    pub calendar_id: String,
    pub project_id: Option<String>,
    pub title: String,
    pub description: Option<String>,
    pub location: Option<String>,
    pub start_at: String,
    pub end_at: String,
    pub all_day: bool,
    /// RFC 5545 RRULE.
    pub rrule: Option<String>,
    pub google_id: Option<String>,
    pub google_etag: Option<String>,
    pub reminder_minutes: Option<i64>,
    /// IANA time zone name.
    pub timezone: String,
    pub created_at: String,
    pub updated_at: String,
    pub deleted_at: Option<String>,
}

impl Event {
    /// A new timed event with a fresh id and the current time; every optional
    /// field is empty.
    pub fn new(
        calendar_id: String,
        title: String,
        start_at: String,
        end_at: String,
        timezone: String,
    ) -> (res: Event)
        ensures
            res.calendar_id == calendar_id,
            res.title == title,
            res.start_at == start_at,
            res.end_at == end_at,
            res.timezone == timezone,
            res.project_id is None,
            res.description is None,
            res.location is None,
            !res.all_day,
            res.rrule is None,
            res.google_id is None,
            res.google_etag is None,
            res.reminder_minutes is None,
            res.id@.len() == 36,
            res.created_at == res.updated_at,
            res.deleted_at is None,
    {
        let now = timestamp_now();
        Event {
            id: new_record_id(),
            calendar_id,
            project_id: None,
            title,
            description: None,
            location: None,
            start_at,
            end_at,
            all_day: false,
            rrule: None,
            google_id: None,
            google_etag: None,
            reminder_minutes: None,
            timezone,
            created_at: now.clone(),
            updated_at: now,
            deleted_at: None,
        }
    }

    /// A copy of the event.
    pub fn clone_event(&self) -> (res: Event)
        ensures
            res == *self,
    {
        Event {
            id: self.id.clone(),
            calendar_id: self.calendar_id.clone(),
            project_id: clone_text(&self.project_id),
            title: self.title.clone(),
            description: clone_text(&self.description),
            location: clone_text(&self.location),
            start_at: self.start_at.clone(),
            end_at: self.end_at.clone(),
            all_day: self.all_day,
            rrule: clone_text(&self.rrule),
            google_id: clone_text(&self.google_id),
            google_etag: clone_text(&self.google_etag),
            reminder_minutes: self.reminder_minutes,
            timezone: self.timezone.clone(),
            created_at: self.created_at.clone(),
            updated_at: self.updated_at.clone(),
            deleted_at: clone_text(&self.deleted_at),
        }
    }

    /// The start time, read with the storage format.
    pub fn start_dt(&self) -> (res: Option<DateTimeParts>)
        ensures
            res == storage_timestamp(self.start_at@),
            res matches Some(p) ==> p.valid() && MIN_YEAR <= p.year <= MAX_YEAR,
    {
        parse_storage_timestamp(self.start_at.as_str())
    }

    /// The end time, read with the storage format.
    pub fn end_dt(&self) -> (res: Option<DateTimeParts>)
        ensures
            res == storage_timestamp(self.end_at@),
            res matches Some(p) ==> p.valid() && MIN_YEAR <= p.year <= MAX_YEAR,
    {
        parse_storage_timestamp(self.end_at.as_str())
    }

    /// The event falls on `date`: between the dates of its start and end,
    /// both included. An event whose times cannot be read falls on no date.
    pub open spec fn occurs_on_spec(self, date: CivilDate) -> bool {
        match (storage_timestamp(self.start_at@), storage_timestamp(self.end_at@)) {
            (Some(s), Some(e)) => date_le(date_of(s), date) && date_le(date, date_of(e)),
            _ => false,
        }
    }

    /// True when the event falls on `date` (UTC).
    pub fn occurs_on(&self, date: CivilDate) -> (res: bool)
        ensures
            res == self.occurs_on_spec(date),
    {
        match (self.start_dt(), self.end_dt()) {
            (Some(s), Some(e)) => {
                let sd = CivilDate { year: s.year, month: s.month, day: s.day };
                let ed = CivilDate { year: e.year, month: e.month, day: e.day };
                date_not_after(&sd, &date) && date_not_after(&date, &ed)
            },
            _ => false,
        }
    }

    /// The length of the event in whole minutes; `None` when a time cannot be
    /// read.
    pub fn duration_minutes(&self) -> (res: Option<i64>)
        ensures
            res == match (storage_timestamp(self.start_at@), storage_timestamp(self.end_at@)) {
                (Some(s), Some(e)) => Some(minutes_between(s, e)),
                _ => None,
            },
            match (storage_timestamp(self.start_at@), storage_timestamp(self.end_at@)) {
                (Some(s), Some(e)) => s.nanosecond == 0 && e.nanosecond == 0 ==> res == Some(
                    div_toward_zero(epoch_seconds(e) - epoch_seconds(s), 60) as i64,
                ),
                _ => true,
            },
    {
        match (self.start_dt(), self.end_dt()) {
            (Some(s), Some(e)) => Some(minutes_from_to(&s, &e)),
            _ => None,
        }
    }

    pub fn is_recurring(&self) -> (res: bool)
        ensures
            res == self.rrule is Some,
    {
        self.rrule.is_some()
    }
}

/// A directed link between two events.
#[derive(Debug, Clone)]
pub struct EventDependency {
    pub id: String,
    /// The blocking event.
    pub from_event_id: String,
    /// The blocked event.
    pub to_event_id: String,
    pub dependency_type: DependencyType,
    pub created_at: String,
    pub updated_at: String,
}

#[derive(Debug, Clone, Copy, PartialEq, Eq, Structural)]
pub enum DependencyType {
    /// `from` must finish before `to` can start.
    Blocks,
    /// A soft, informational link.
    Related,
}

impl DependencyType {
    /// The lowercase name used in storage and output.
    pub fn as_str(&self) -> (res: &'static str)
        ensures
            res@ == (match *self {
                DependencyType::Blocks => "blocks"@,
                DependencyType::Related => "related"@,
            }),
    {
        match self {
            DependencyType::Blocks => "blocks",
            DependencyType::Related => "related",
        }
    }
}

impl EventDependency {
    /// A new dependency with a fresh id and the current time.
    pub fn new(from_event_id: String, to_event_id: String, dep_type: DependencyType) -> (res:
        EventDependency)
        ensures
            res.from_event_id == from_event_id,
            res.to_event_id == to_event_id,
            res.dependency_type == dep_type,
            res.id@.len() == 36,
            res.created_at == res.updated_at,
    {
        let now = timestamp_now();
        EventDependency {
            id: new_record_id(),
            from_event_id,
            to_event_id,
            dependency_type: dep_type,
            created_at: now.clone(),
            updated_at: now,
        }
    }
}

/// Changes or removes one occurrence of a recurring event.
#[derive(Debug, Clone)]
pub struct RecurrenceException {
    pub id: String,
    pub event_id: String,
    /// The occurrence being overridden.
    pub original_start: String,
    /// `None` means the occurrence is deleted.
    pub replacement_event_id: Option<String>,
    pub created_at: String,
    pub updated_at: String,
}

/// Incremental sync state of a Google calendar.
#[derive(Debug, Clone)]
pub struct SyncToken {
    pub id: String,
    pub calendar_id: String,
    pub sync_token: String,
    pub synced_at: String,
}

/// Progress of a project, derived from its events.
#[derive(Debug, Clone)]
pub struct ProjectProgress {
    pub project: Project,
    pub total_events: usize,
    pub completed_events: usize,
    /// The next event whose blockers are all complete.
    pub next_actionable: Option<Event>,
    pub critical_path_length: usize,
}

} // verus!

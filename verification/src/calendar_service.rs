//! The rules for creating, editing and importing calendars, shared by the
//! terminal interface and the command line. The caller reads the stored
//! calendars and writes back what these functions return.
use vstd::prelude::*;

use crate::cli::{normalize_optional, normalized, opt_view};
use crate::google::discovery::DiscoveredGoogleCalendar;
use crate::models::{Calendar, CalendarSource};
use crate::stamp::{new_record_id, timestamp_now};
use crate::text::{contains_seq, str_contains, str_eq, to_owned_string, trim, trim_seq};

verus! {

/// What a new calendar is made from.
#[derive(Debug, Clone)]
pub struct CreateCalendarInput {
    pub name: String,
    pub color: String,
    pub source: CalendarSource,
    pub google_id: Option<String>,
    pub visible: bool,
    /// `None` puts the calendar after the others.
    pub position: Option<i64>,
}

/// A change to a stored calendar; each `None` keeps a field as it is.
#[derive(Debug, Clone)]
pub struct UpdateCalendarInput {
    pub id: String,
    pub name: Option<String>,
    pub color: Option<String>,
    pub source: Option<CalendarSource>,
    /// `Some(None)` clears the Google id.
    pub google_id: Option<Option<String>>,
    pub visible: Option<bool>,
    pub position: Option<i64>,
}

#[derive(Debug, Clone, PartialEq, Eq)]
pub enum CalendarServiceError {
    NotFound { resource: &'static str, id: String },
    Validation(String),
    Conflict(String),
    Internal(String),
}

/// The kind of an error and its text.
pub open spec fn service_err_view(e: CalendarServiceError) -> (Seq<char>, Seq<char>) {
    match e {
        CalendarServiceError::NotFound { resource, id } => (
            "not_found"@,
            resource@ + " '"@ + id@ + "' not found"@,
        ),
        CalendarServiceError::Validation(m) => ("validation"@, m@),
        CalendarServiceError::Conflict(m) => ("conflict"@, m@),
        CalendarServiceError::Internal(m) => ("internal"@, m@),
    }
}

pub open spec fn validation_failure(msg: Seq<char>) -> (Seq<char>, Seq<char>) {
    ("validation"@, msg)
}

/// `<field> cannot be empty`.
pub open spec fn empty_failure(field: Seq<char>) -> (Seq<char>, Seq<char>) {
    validation_failure(field + " cannot be empty"@)
}

pub open spec fn conflict_failure(msg: Seq<char>) -> (Seq<char>, Seq<char>) {
    ("conflict"@, msg)
}

/// `res` failed with exactly `e`.
pub open spec fn fails_as<T>(res: Result<T, CalendarServiceError>, e: (Seq<char>, Seq<char>)) -> bool {
    res matches Err(x) && service_err_view(x) == e
}

impl CalendarServiceError {
    /// The error's text, as it is shown to the user.
    pub fn to_string(&self) -> (res: String)
        ensures
            res@ == service_err_view(*self).1,
    {
        match self {
            CalendarServiceError::NotFound { resource, id } => {
                let mut m = to_owned_string(resource);
                m.append(" '");
                m.append(id.as_str());
                m.append("' not found");
                m
            },
            CalendarServiceError::Validation(m) => m.clone(),
            CalendarServiceError::Conflict(m) => m.clone(),
            CalendarServiceError::Internal(m) => m.clone(),
        }
    }
}

fn validation(message: &str) -> (res: CalendarServiceError)
    ensures
        service_err_view(res) == validation_failure(message@),
{
    CalendarServiceError::Validation(to_owned_string(message))
}

/// The trimmed value; fails with `<field> cannot be empty` when it is blank.
pub fn normalize_required(value: String, field: &str) -> (res: Result<String, CalendarServiceError>)
    ensures
        trim_seq(value@).len() == 0 ==> fails_as(res, empty_failure(field@)),
        trim_seq(value@).len() != 0 ==> (res matches Ok(s) && s@ == trim_seq(value@)),
{
    let t = trim(value.as_str());
    if t.as_str().is_empty() {
        let mut m = to_owned_string(field);
        m.append(" cannot be empty");
        return Err(CalendarServiceError::Validation(m));
    }
    Ok(t)
}

/// The message of the rule that ties a source to a Google id, when it is
/// broken.
pub open spec fn source_rule_error(source: CalendarSource, google_id: Option<Seq<char>>) -> Option<Seq<char>> {
    if source == CalendarSource::Google && google_id is None {
        Some("google calendars require a google_id"@)
    } else if source == CalendarSource::Local && google_id is Some {
        Some("local calendars cannot set a google_id"@)
    } else {
        None
    }
}

/// A Google calendar needs a Google id; a local one may not have one.
pub fn validate_calendar_source(source: CalendarSource, google_id: Option<&str>) -> (res: Result<(), CalendarServiceError>)
    ensures
        match source_rule_error(source, match google_id {
            Some(g) => Some(g@),
            None => None,
        }) {
            Some(m) => fails_as(res, validation_failure(m)),
            None => res is Ok,
        },
{
    match source {
        CalendarSource::Google => {
            if google_id.is_none() {
                return Err(validation("google calendars require a google_id"));
            }
        },
        CalendarSource::Local => {
            if google_id.is_some() {
                return Err(validation("local calendars cannot set a google_id"));
            }
        },
    }
    Ok(())
}

/// The stored calendar `c` is the Google calendar imported under `google_id`.
pub open spec fn holds_google_id(c: Calendar, google_id: Seq<char>) -> bool {
    c.source == CalendarSource::Google && (c.google_id matches Some(g) && g@ == google_id)
}

/// Some stored calendar other than `current` already holds `google_id`.
pub open spec fn google_id_taken(stored: Seq<Calendar>, google_id: Seq<char>, current: Option<Seq<char>>) -> bool {
    exists|i: int|
        0 <= i < stored.len() && #[trigger] holds_google_id(stored[i], google_id) && current != Some(
            stored[i].id@,
        )
}

pub open spec fn already_imported_text(google_id: Seq<char>) -> Seq<char> {
    "google calendar '"@ + google_id + "' is already imported"@
}

/// Fails with a conflict when a stored calendar other than
/// `current_calendar_id` already holds `google_id`.
pub fn ensure_google_calendar_not_imported(
    stored: &[Calendar],
    google_id: &str,
    current_calendar_id: Option<&str>,
) -> (res: Result<(), CalendarServiceError>)
    ensures
        google_id_taken(
            stored@,
            google_id@,
            match current_calendar_id {
                Some(c) => Some(c@),
                None => None,
            },
        ) ==> fails_as(res, conflict_failure(already_imported_text(google_id@))),
        !google_id_taken(
            stored@,
            google_id@,
            match current_calendar_id {
                Some(c) => Some(c@),
                None => None,
            },
        ) ==> res is Ok,
{
    let ghost current = match current_calendar_id {
        Some(c) => Some(c@),
        None => None,
    };
    let mut i: usize = 0;
    while i < stored.len()
        invariant
            i <= stored.len(),
            current == match current_calendar_id {
                Some(c) => Some(c@),
                None => None,
            },
            forall|k: int|
                0 <= k < i ==> !(#[trigger] holds_google_id(stored@[k], google_id@) && current != Some(
                    stored@[k].id@,
                )),
        decreases stored.len() - i,
    {
        let c = &stored[i];
        let holds = match c.source {
            CalendarSource::Google => match &c.google_id {
                Some(g) => str_eq(g.as_str(), google_id),
                None => false,
            },
            CalendarSource::Local => false,
        };
        if holds {
            let other = match current_calendar_id {
                Some(cur) => !str_eq(cur, c.id.as_str()),
                None => true,
            };
            if other {
                assert(holds_google_id(stored@[i as int], google_id@));
                let mut m = to_owned_string("google calendar '");
                m.append(google_id);
                m.append("' is already imported");
                return Err(CalendarServiceError::Conflict(m));
            }
        }
        i += 1;
    }
    Ok(())
}

/// The first rule that a new calendar breaks.
pub open spec fn create_error(input: CreateCalendarInput, stored: Seq<Calendar>) -> Option<(Seq<char>, Seq<char>)> {
    let gid = normalized(input.google_id);
    if source_rule_error(input.source, gid) is Some {
        Some(validation_failure(source_rule_error(input.source, gid).unwrap()))
    } else if (gid matches Some(g) && google_id_taken(stored, g, None)) {
        Some(conflict_failure(already_imported_text(gid.unwrap())))
    } else if trim_seq(input.name@).len() == 0 {
        Some(empty_failure("name"@))
    } else if trim_seq(input.color@).len() == 0 {
        Some(empty_failure("color"@))
    } else {
        None
    }
}

/// The calendar to store for `input`, given the calendars already stored and
/// the position after the last of them.
pub fn create_calendar(input: CreateCalendarInput, stored: &[Calendar], next_position: i64) -> (res: Result<Calendar, CalendarServiceError>)
    ensures
        match create_error(input, stored@) {
            Some(e) => fails_as(res, e),
            None => res matches Ok(c) && {
                &&& c.name@ == trim_seq(input.name@)
                &&& c.color@ == trim_seq(input.color@)
                &&& c.source == input.source
                &&& opt_view(c.google_id) == normalized(input.google_id)
                &&& c.visible == input.visible
                &&& c.position == match input.position {
                    Some(p) => p,
                    None => next_position,
                }
                &&& c.id@.len() == 36
                &&& c.created_at == c.updated_at
                &&& c.deleted_at is None
            },
        },
{
    let source = input.source;
    let google_id = normalize_optional(input.google_id);
    let gid_ref: Option<&str> = match &google_id {
        Some(g) => Some(g.as_str()),
        None => None,
    };
    if let Err(e) = validate_calendar_source(source, gid_ref) {
        return Err(e);
    }
    if let Some(g) = gid_ref {
        if let Err(e) = ensure_google_calendar_not_imported(stored, g, None) {
            return Err(e);
        }
    }
    let position = match input.position {
        Some(p) => p,
        None => next_position,
    };
    let name = match normalize_required(input.name, "name") {
        Ok(v) => v,
        Err(e) => return Err(e),
    };
    let color = match normalize_required(input.color, "color") {
        Ok(v) => v,
        Err(e) => return Err(e),
    };
    let now = timestamp_now();
    Ok(
        Calendar {
            id: new_record_id(),
            name,
            color,
            source,
            google_id,
            visible: input.visible,
            position,
            created_at: now.clone(),
            updated_at: now,
            deleted_at: None,
        },
    )
}

/// The calendar to store when a discovered Google calendar is imported.
pub fn import_google_calendar(
    calendar: &DiscoveredGoogleCalendar,
    position: Option<i64>,
    stored: &[Calendar],
    next_position: i64,
) -> (res: Result<Calendar, CalendarServiceError>)
    ensures
        match create_error(
            (CreateCalendarInput {
                name: calendar.name,
                color: calendar.color,
                source: CalendarSource::Google,
                google_id: Some(calendar.google_id),
                visible: true,
                position,
            }),
            stored@,
        ) {
            Some(e) => fails_as(res, e),
            None => res matches Ok(c) && {
                &&& c.name@ == trim_seq(calendar.name@)
                &&& c.color@ == trim_seq(calendar.color@)
                &&& c.source == CalendarSource::Google
                &&& c.google_id matches Some(g) && g@ == trim_seq(calendar.google_id@)
                &&& c.visible
                &&& c.position == match position {
                    Some(p) => p,
                    None => next_position,
                }
                &&& c.id@.len() == 36
                &&& c.created_at == c.updated_at
                &&& c.deleted_at is None
            },
        },
{
    let input = CreateCalendarInput {
        name: calendar.name.clone(),
        color: calendar.color.clone(),
        source: CalendarSource::Google,
        google_id: Some(calendar.google_id.clone()),
        visible: true,
        position,
    };
    create_calendar(input, stored, next_position)
}

/// The source of a calendar after an update.
pub open spec fn source_after(c: Calendar, input: UpdateCalendarInput) -> CalendarSource {
    match input.source {
        Some(s) => s,
        None => c.source,
    }
}

/// The Google id of a calendar after an update: a local calendar has none.
pub open spec fn google_id_after(c: Calendar, input: UpdateCalendarInput) -> Option<Seq<char>> {
    if source_after(c, input) == CalendarSource::Local {
        None
    } else {
        match input.google_id {
            Some(g) => normalized(g),
            None => opt_view(c.google_id),
        }
    }
}

pub open spec fn google_id_change_text() -> Seq<char> {
    "changing google_id on an existing google calendar is not supported"@
}

/// The first rule that an update of the stored calendar `c` breaks.
pub open spec fn update_error(c: Calendar, input: UpdateCalendarInput, stored: Seq<Calendar>) -> Option<(Seq<char>, Seq<char>)> {
    let source = source_after(c, input);
    let gid = google_id_after(c, input);
    if (input.name matches Some(n) && trim_seq(n@).len() == 0) {
        Some(empty_failure("name"@))
    } else if (input.color matches Some(n) && trim_seq(n@).len() == 0) {
        Some(empty_failure("color"@))
    } else if c.source == CalendarSource::Google && source == CalendarSource::Google && opt_view(
        c.google_id,
    ) != gid {
        Some(validation_failure(google_id_change_text()))
    } else if source_rule_error(source, gid) is Some {
        Some(validation_failure(source_rule_error(source, gid).unwrap()))
    } else if (gid matches Some(g) && google_id_taken(stored, g, Some(c.id@))) {
        Some(conflict_failure(already_imported_text(gid.unwrap())))
    } else {
        None
    }
}

fn same_optional(a: &Option<String>, b: &Option<String>) -> (res: bool)
    ensures
        res == (opt_view(*a) == opt_view(*b)),
{
    match (a, b) {
        (Some(x), Some(y)) => *x == *y,
        (None, None) => true,
        _ => false,
    }
}

/// The calendar as an update leaves it, given the stored calendar with the
/// update's id (`None` when there is none) and all stored calendars.
pub fn update_calendar(input: UpdateCalendarInput, current: Option<Calendar>, stored: &[Calendar]) -> (res: Result<Calendar, CalendarServiceError>)
    ensures
        match current {
            None => fails_as(res, ("not_found"@, "calendar"@ + " '"@ + input.id@ + "' not found"@)),
            Some(c) => match update_error(c, input, stored@) {
                Some(e) => fails_as(res, e),
                None => res matches Ok(u) && {
                    &&& u.id == c.id
                    &&& u.name@ == match input.name {
                        Some(n) => trim_seq(n@),
                        None => c.name@,
                    }
                    &&& u.color@ == match input.color {
                        Some(n) => trim_seq(n@),
                        None => c.color@,
                    }
                    &&& u.source == source_after(c, input)
                    &&& opt_view(u.google_id) == google_id_after(c, input)
                    &&& u.visible == match input.visible {
                        Some(v) => v,
                        None => c.visible,
                    }
                    &&& u.position == match input.position {
                        Some(p) => p,
                        None => c.position,
                    }
                    &&& u.created_at == c.created_at
                    &&& u.updated_at == c.updated_at
                    &&& u.deleted_at == c.deleted_at
                },
            },
        },
{
    let mut calendar = match current {
        Some(c) => c,
        None => {
            return Err(CalendarServiceError::NotFound { resource: "calendar", id: input.id });
        },
    };
    let original_source = calendar.source;
    let original_google_id = calendar.google_id.clone();
    if let Some(name) = input.name {
        calendar.name = match normalize_required(name, "name") {
            Ok(v) => v,
            Err(e) => return Err(e),
        };
    }
    if let Some(color) = input.color {
        calendar.color = match normalize_required(color, "color") {
            Ok(v) => v,
            Err(e) => return Err(e),
        };
    }
    if let Some(source) = input.source {
        calendar.source = source;
    }
    if let Some(visible) = input.visible {
        calendar.visible = visible;
    }
    if let Some(position) = input.position {
        calendar.position = position;
    }
    if let Some(google_id) = input.google_id {
        calendar.google_id = normalize_optional(google_id);
    }
    if calendar.source == CalendarSource::Local {
        calendar.google_id = None;
    }
    if original_source == CalendarSource::Google && calendar.source == CalendarSource::Google
        && !same_optional(&original_google_id, &calendar.google_id) {
        return Err(validation("changing google_id on an existing google calendar is not supported"));
    }
    let gid_ref: Option<&str> = match &calendar.google_id {
        Some(g) => Some(g.as_str()),
        None => None,
    };
    if let Err(e) = validate_calendar_source(calendar.source, gid_ref) {
        return Err(e);
    }
    if let Some(g) = gid_ref {
        if let Err(e) = ensure_google_calendar_not_imported(stored, g, Some(calendar.id.as_str())) {
            return Err(e);
        }
    }
    Ok(calendar)
}

/// An update that turns a Google calendar into a local one also detaches its
/// events from Google and drops its sync token.
pub fn detaches_google_sync(before: &Calendar, after: &Calendar) -> (res: bool)
    ensures
        res == (before.source == CalendarSource::Google && after.source == CalendarSource::Local),
{
    before.source == CalendarSource::Google && after.source == CalendarSource::Local
}

/// The discovered calendars that no stored Google calendar holds yet, in
/// their order.
pub fn filter_unimported_google_calendars(
    stored: &[Calendar],
    discovered: Vec<DiscoveredGoogleCalendar>,
) -> (res: Vec<DiscoveredGoogleCalendar>)
    ensures
        res@ == discovered@.filter(
            |d: DiscoveredGoogleCalendar| !google_id_taken(stored@, d.google_id@, None),
        ),
{
    let ghost pred = |d: DiscoveredGoogleCalendar| !google_id_taken(stored@, d.google_id@, None);
    let mut out: Vec<DiscoveredGoogleCalendar> = Vec::new();
    let mut rest = discovered;
    let ghost all = rest@;
    let mut i: usize = 0;
    let n = rest.len();
    while i < n
        invariant
            n == all.len(),
            i <= n,
            rest@ == all.skip(i as int),
            out@ == all.take(i as int).filter(pred),
            pred == (|d: DiscoveredGoogleCalendar| !google_id_taken(stored@, d.google_id@, None)),
        decreases n - i,
    {
        let ghost r0 = rest@;
        let d = rest.remove(0);
        assert(rest@ =~= all.skip(i as int + 1));
        assert(all.take(i as int + 1) =~= all.take(i as int).push(d));
        proof {
            all.take(i as int).lemma_filter_push(d, pred);
        }
        let taken = ensure_google_calendar_not_imported(stored, d.google_id.as_str(), None).is_err();
        if !taken {
            out.push(d);
        }
        i += 1;
    }
    assert(all.take(n as int) =~= all);
    out
}

/// What a failed write of a calendar is reported as: a conflict when it broke
/// the uniqueness of Google ids, otherwise an internal error with the
/// failure's text.
pub fn map_write_error(google_id_unique_violation: bool, message: String, google_id: Option<&str>) -> (res: CalendarServiceError)
    ensures
        google_id_unique_violation ==> service_err_view(res) == conflict_failure(
            match google_id {
                Some(g) => already_imported_text(g@),
                None => "google calendar is already imported"@,
            },
        ),
        !google_id_unique_violation ==> service_err_view(res) == ("internal"@, message@),
{
    if google_id_unique_violation {
        if let Some(g) = google_id {
            let mut m = to_owned_string("google calendar '");
            m.append(g);
            m.append("' is already imported");
            return CalendarServiceError::Conflict(m);
        }
        return CalendarServiceError::Conflict(to_owned_string("google calendar is already imported"));
    }
    CalendarServiceError::Internal(message)
}

/// A database failure breaks the uniqueness of Google ids when it is a
/// constraint violation whose message names that index or column, or that
/// has no message.
pub fn is_google_id_unique_violation(constraint_violation: bool, message: Option<&str>) -> (res: bool)
    ensures
        res == (constraint_violation && match message {
            Some(m) => contains_seq(m@, "idx_calendars_google_id_unique"@) || contains_seq(
                m@,
                "calendars.google_id"@,
            ),
            None => true,
        }),
{
    if !constraint_violation {
        return false;
    }
    match message {
        Some(m) => str_contains(m, "idx_calendars_google_id_unique") || str_contains(
            m,
            "calendars.google_id",
        ),
        None => true,
    }
}

/// A Google calendar is imported once: after a calendar was created with a
/// Google id, creating another calendar with the same id (whose source and id
/// agree) fails with a conflict.
pub proof fn law_google_calendar_imported_once(
    first: CreateCalendarInput,
    stored: Seq<Calendar>,
    created: Calendar,
    second: CreateCalendarInput,
)
    requires
        create_error(first, stored) is None,
        created.source == first.source,
        opt_view(created.google_id) == normalized(first.google_id),
        normalized(first.google_id) is Some,
        normalized(second.google_id) == normalized(first.google_id),
        source_rule_error(second.source, normalized(second.google_id)) is None,
    ensures
        create_error(second, stored.push(created)) == Some(
            conflict_failure(already_imported_text(normalized(first.google_id).unwrap())),
        ),
{
    let g = normalized(first.google_id).unwrap();
    let all = stored.push(created);
    assert(created.source == CalendarSource::Google);
    assert(holds_google_id(all[stored.len() as int], g));
    assert(google_id_taken(all, g, None));
}

} // verus!

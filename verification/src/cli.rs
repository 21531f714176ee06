//! The command-line companion: its commands and arguments, and every rule it
//! applies before it reads or writes the database.
use vstd::prelude::*;

use crate::dag::{contains_str, dag_from, str_views, EventDag};
use crate::models::{Calendar, CalendarSource, DependencyType, Event, EventDependency, Project};
use crate::reach::{
    acyclic, is_path, lemma_insert_keeps_acyclic, lemma_path_mono, lemma_path_push, path_from_to,
    reachable,
};
use crate::stamp::{new_record_id, timestamp_now};
use crate::text::{is_blank, to_owned_string, trim, trim_seq};
use crate::timestamp::{
    format_storage, is_before, parse_storage_timestamp, parts_before, storage_text,
    storage_timestamp,
};

verus! {

/// The parsed command line.
#[derive(Debug)]
pub struct Cli {
    pub command: Command,
}

#[derive(Debug)]
pub enum Command {
    Calendars { action: CalendarCommand },
    Projects { action: ProjectCommand },
    Events { action: EventCommand },
    Dependencies { action: DependencyCommand },
    Google { action: GoogleCommand },
}

#[derive(Debug)]
pub enum CalendarCommand {
    List,
    Get { id: String },
    Create(CalendarCreateArgs),
    Update(CalendarUpdateArgs),
    Delete(CalendarDeleteArgs),
}

#[derive(Debug)]
pub enum ProjectCommand {
    List,
    Get { id: String },
    Create(ProjectCreateArgs),
    Update(ProjectUpdateArgs),
    Delete(ProjectDeleteArgs),
}

#[derive(Debug)]
pub enum EventCommand {
    List(EventListArgs),
    Get { id: String },
    Create(EventCreateArgs),
    Update(EventUpdateArgs),
    Delete { id: String },
}

#[derive(Debug)]
pub enum DependencyCommand {
    List,
    Get { id: String },
    Create(DependencyCreateArgs),
    Update(DependencyUpdateArgs),
    Delete { id: String },
}

#[derive(Debug)]
pub enum GoogleCommand {
    Sync(GoogleSyncArgs),
}

#[derive(Debug, Clone, Copy, PartialEq, Eq, Structural)]
pub enum CalendarSourceArg {
    Local,
    Google,
}

#[derive(Debug, Clone, Copy, PartialEq, Eq, Structural)]
pub enum DependencyTypeArg {
    Blocks,
    Related,
}

#[derive(Debug)]
pub struct CalendarCreateArgs {
    pub name: String,
    pub color: String,
    pub source: CalendarSourceArg,
    pub google_id: Option<String>,
    pub visible: bool,
    pub position: i64,
}

#[derive(Debug)]
pub struct CalendarUpdateArgs {
    pub id: String,
    pub name: Option<String>,
    pub color: Option<String>,
    pub source: Option<CalendarSourceArg>,
    pub google_id: Option<String>,
    pub visible: Option<bool>,
    pub position: Option<i64>,
}

#[derive(Debug)]
pub struct CalendarDeleteArgs {
    pub id: String,
    pub cascade_events: bool,
}

#[derive(Debug)]
pub struct ProjectCreateArgs {
    pub name: String,
    pub color: String,
    pub description: Option<String>,
}

#[derive(Debug)]
pub struct ProjectUpdateArgs {
    pub id: String,
    pub name: Option<String>,
    pub color: Option<String>,
    pub description: Option<String>,
}

#[derive(Debug)]
pub struct ProjectDeleteArgs {
    pub id: String,
    pub detach_events: bool,
}

#[derive(Debug)]
pub struct EventListArgs {
    pub from: Option<String>,
    pub to: Option<String>,
}

#[derive(Debug)]
pub struct EventCreateArgs {
    pub calendar_id: String,
    pub title: String,
    pub project_id: Option<String>,
    pub description: Option<String>,
    pub location: Option<String>,
    pub start_at: String,
    pub end_at: String,
    pub all_day: bool,
    pub rrule: Option<String>,
    pub reminder_minutes: Option<i64>,
    pub timezone: String,
}

#[derive(Debug)]
pub struct EventUpdateArgs {
    pub id: String,
    pub calendar_id: Option<String>,
    pub title: Option<String>,
    pub project_id: Option<String>,
    pub clear_project_id: bool,
    pub description: Option<String>,
    pub clear_description: bool,
    pub location: Option<String>,
    pub clear_location: bool,
    pub start_at: Option<String>,
    pub end_at: Option<String>,
    pub all_day: Option<bool>,
    pub rrule: Option<String>,
    pub clear_rrule: bool,
    pub reminder_minutes: Option<i64>,
    pub clear_reminder_minutes: bool,
    pub timezone: Option<String>,
}

#[derive(Debug)]
pub struct DependencyCreateArgs {
    pub from_event_id: String,
    pub to_event_id: String,
    pub dependency_type: DependencyTypeArg,
}

#[derive(Debug)]
pub struct DependencyUpdateArgs {
    pub id: String,
    pub from_event_id: Option<String>,
    pub to_event_id: Option<String>,
    pub dependency_type: Option<DependencyTypeArg>,
}

#[derive(Debug)]
pub struct GoogleSyncArgs {
    pub calendar_id: Option<String>,
}

/// A failure, reported as a JSON error object with a machine-readable code.
#[derive(Debug)]
pub struct CliError {
    pub code: &'static str,
    pub message: String,
}

/// The code and message of an error.
pub open spec fn err_view(e: CliError) -> (Seq<char>, Seq<char>) {
    (e.code@, e.message@)
}

pub open spec fn validation_err(msg: Seq<char>) -> (Seq<char>, Seq<char>) {
    ("validation_error"@, msg)
}

/// `<field> cannot be empty`.
pub open spec fn empty_field_err(field: Seq<char>) -> (Seq<char>, Seq<char>) {
    validation_err(field + " cannot be empty"@)
}

pub open spec fn conflict_err(msg: Seq<char>) -> (Seq<char>, Seq<char>) {
    ("conflict"@, msg)
}

pub open spec fn not_found_text(resource: Seq<char>, id: Seq<char>) -> Seq<char> {
    resource + " '"@ + id + "' not found"@
}

pub open spec fn not_found_err(resource: Seq<char>, id: Seq<char>) -> (Seq<char>, Seq<char>) {
    ("not_found"@, not_found_text(resource, id))
}

/// `res` failed with exactly `e`.
pub open spec fn fails_with<T>(res: Result<T, CliError>, e: (Seq<char>, Seq<char>)) -> bool {
    res matches Err(x) && err_view(x) == e
}

impl CliError {
    pub fn validation(message: String) -> (res: CliError)
        ensures
            err_view(res) == validation_err(message@),
    {
        CliError { code: "validation_error", message }
    }

    pub fn not_found(resource: &str, id: &str) -> (res: CliError)
        ensures
            err_view(res) == not_found_err(resource@, id@),
    {
        let mut message = to_owned_string(resource);
        message.append(" '");
        message.append(id);
        message.append("' not found");
        CliError { code: "not_found", message }
    }

    pub fn conflict(message: String) -> (res: CliError)
        ensures
            err_view(res) == conflict_err(message@),
    {
        CliError { code: "conflict", message }
    }

    pub fn external(message: String) -> (res: CliError)
        ensures
            err_view(res) == ("external_error"@, message@),
    {
        CliError { code: "external_error", message }
    }

    pub fn internal(message: String) -> (res: CliError)
        ensures
            err_view(res) == ("internal_error"@, message@),
    {
        CliError { code: "internal_error", message }
    }

    pub fn invalid_arguments(message: String) -> (res: CliError)
        ensures
            err_view(res) == ("invalid_arguments"@, message@),
    {
        CliError { code: "invalid_arguments", message }
    }
}

fn validation_str(message: &str) -> (res: CliError)
    ensures
        err_view(res) == validation_err(message@),
{
    CliError::validation(to_owned_string(message))
}

fn conflict_str(message: &str) -> (res: CliError)
    ensures
        err_view(res) == conflict_err(message@),
{
    CliError::conflict(to_owned_string(message))
}

/// The views of an optional string.
pub open spec fn opt_view(o: Option<String>) -> Option<Seq<char>> {
    match o {
        Some(s) => Some(s@),
        None => None,
    }
}

/// An optional value trimmed, with a blank value dropped.
pub open spec fn normalized(o: Option<String>) -> Option<Seq<char>> {
    match o {
        Some(s) => if trim_seq(s@).len() == 0 {
            None
        } else {
            Some(trim_seq(s@))
        },
        None => None,
    }
}

/// Trims an optional value; a blank one becomes `None`.
pub fn normalize_optional(value: Option<String>) -> (res: Option<String>)
    ensures
        opt_view(res) == normalized(value),
{
    match value {
        Some(v) => {
            let t = trim(v.as_str());
            if t.as_str().is_empty() {
                None
            } else {
                Some(t)
            }
        },
        None => None,
    }
}

/// Fails with `<field> cannot be empty` when `value` is blank; otherwise the
/// trimmed value.
pub fn non_empty(value: String, field: &str) -> (res: Result<String, CliError>)
    ensures
        trim_seq(value@).len() == 0 ==> fails_with(res, empty_field_err(field@)),
        trim_seq(value@).len() != 0 ==> (res matches Ok(s) && s@ == trim_seq(value@)),
{
    let t = trim(value.as_str());
    if t.as_str().is_empty() {
        let mut message = to_owned_string(field);
        message.append(" cannot be empty");
        return Err(CliError::validation(message));
    }
    Ok(t)
}

/// Fails when the title is blank.
pub fn ensure_title(title: &str) -> (res: Result<(), CliError>)
    ensures
        trim_seq(title@).len() == 0 ==> fails_with(res, validation_err("title cannot be empty"@)),
        trim_seq(title@).len() != 0 ==> res is Ok,
{
    if is_blank(title) {
        return Err(validation_str("title cannot be empty"));
    }
    Ok(())
}

/// The first rule that a pair of stored start and end times breaks.
pub open spec fn datetime_error(start_at: Seq<char>, end_at: Seq<char>) -> Option<(Seq<char>, Seq<char>)> {
    match (storage_timestamp(start_at), storage_timestamp(end_at)) {
        (None, _) => Some(validation_err("invalid start_at timestamp"@)),
        (Some(_), None) => Some(validation_err("invalid end_at timestamp"@)),
        (Some(s), Some(e)) => if parts_before(e, s) {
            Some(validation_err("end_at must be greater than or equal to start_at"@))
        } else {
            None
        },
    }
}

/// Both times must parse, and the end must not come before the start.
pub fn validate_event_datetime(start_at: &str, end_at: &str) -> (res: Result<(), CliError>)
    ensures
        match datetime_error(start_at@, end_at@) {
            Some(e) => fails_with(res, e),
            None => res is Ok,
        },
{
    let start = match parse_storage_timestamp(start_at) {
        Some(p) => p,
        None => return Err(validation_str("invalid start_at timestamp")),
    };
    let end = match parse_storage_timestamp(end_at) {
        Some(p) => p,
        None => return Err(validation_str("invalid end_at timestamp")),
    };
    if is_before(&end, &start) {
        return Err(validation_str("end_at must be greater than or equal to start_at"));
    }
    Ok(())
}

/// Reads a `YYYY-MM-DD HH:MM:SS` argument and writes it back in that form.
/// What it writes reads back as the same time, so it is its own canonical
/// form: given it again, the function returns it unchanged.
pub fn parse_timestamp_arg(value: &str) -> (res: Result<String, String>)
    ensures
        match storage_timestamp(value@) {
            Some(p) => res matches Ok(s) && s@ == storage_text(p),
            None => res matches Err(m) && m@ == "invalid timestamp '"@ + value@
                + "'; expected YYYY-MM-DD HH:MM:SS"@,
        },
        res matches Ok(s) ==> storage_timestamp(s@) == storage_timestamp(value@),
{
    match parse_storage_timestamp(value) {
        Some(p) => Ok(format_storage(&p)),
        None => {
            let mut m = to_owned_string("invalid timestamp '");
            m.append(value);
            m.append("'; expected YYYY-MM-DD HH:MM:SS");
            Err(m)
        },
    }
}

/// The rule that ties a calendar's source to its Google id.
pub open spec fn source_error(source: CalendarSource, google_id: Option<Seq<char>>) -> Option<(Seq<char>, Seq<char>)> {
    if source == CalendarSource::Google && google_id is None {
        Some(validation_err("google calendars require --google-id"@))
    } else if source == CalendarSource::Local && google_id is Some {
        Some(validation_err("local calendars cannot set --google-id"@))
    } else {
        None
    }
}

/// A Google calendar needs a Google id; a local one may not have one.
pub fn validate_calendar_source(source: &CalendarSource, google_id: &Option<String>) -> (res: Result<(), CliError>)
    ensures
        match source_error(*source, opt_view(*google_id)) {
            Some(e) => fails_with(res, e),
            None => res is Ok,
        },
{
    match source {
        CalendarSource::Google => if google_id.is_none() {
            return Err(validation_str("google calendars require --google-id"));
        },
        CalendarSource::Local => if google_id.is_some() {
            return Err(validation_str("local calendars cannot set --google-id"));
        },
    }
    Ok(())
}

/// The value, or `<name> '<id>' not found`.
pub fn require_resource<T>(resource: Option<T>, name: &str, id: &str) -> (res: Result<T, CliError>)
    ensures
        match resource {
            Some(x) => res == Ok::<T, CliError>(x),
            None => fails_with(res, not_found_err(name@, id@)),
        },
{
    match resource {
        Some(x) => Ok(x),
        None => Err(CliError::not_found(name, id)),
    }
}

pub open spec fn source_of(arg: CalendarSourceArg) -> CalendarSource {
    match arg {
        CalendarSourceArg::Local => CalendarSource::Local,
        CalendarSourceArg::Google => CalendarSource::Google,
    }
}

pub fn calendar_source_from_arg(source: CalendarSourceArg) -> (res: CalendarSource)
    ensures
        res == source_of(source),
{
    match source {
        CalendarSourceArg::Local => CalendarSource::Local,
        CalendarSourceArg::Google => CalendarSource::Google,
    }
}

pub open spec fn dependency_type_of(arg: DependencyTypeArg) -> DependencyType {
    match arg {
        DependencyTypeArg::Blocks => DependencyType::Blocks,
        DependencyTypeArg::Related => DependencyType::Related,
    }
}

pub fn dependency_type_from_arg(dependency_type: DependencyTypeArg) -> (res: DependencyType)
    ensures
        res == dependency_type_of(dependency_type),
{
    match dependency_type {
        DependencyTypeArg::Blocks => DependencyType::Blocks,
        DependencyTypeArg::Related => DependencyType::Related,
    }
}

/// The views of an optional string slice.
pub open spec fn opt_str_view(o: Option<&str>) -> Option<Seq<char>> {
    match o {
        Some(s) => Some(s@),
        None => None,
    }
}

/// The dependency with this id is the one being edited, so it does not count.
pub open spec fn excluded(d: EventDependency, excl: Option<Seq<char>>) -> bool {
    excl == Some(d.id@)
}

/// Another stored dependency already links `from` to `to`.
pub open spec fn duplicate_edge(
    deps: Seq<EventDependency>,
    from: Seq<char>,
    to: Seq<char>,
    excl: Option<Seq<char>>,
) -> bool {
    exists|i: int|
        0 <= i < deps.len() && !excluded(#[trigger] deps[i], excl) && deps[i].from_event_id@ == from
            && deps[i].to_event_id@ == to
}

/// The stored `Blocks` links other than the excluded one, in order.
pub open spec fn blocks_except(deps: Seq<EventDependency>, excl: Option<Seq<char>>) -> Seq<EventDependency>
    decreases deps.len(),
{
    if deps.len() == 0 {
        Seq::empty()
    } else {
        let r = blocks_except(deps.drop_last(), excl);
        let d = deps.last();
        if d.dependency_type == DependencyType::Blocks && !excluded(d, excl) {
            r.push(d)
        } else {
            r
        }
    }
}

/// The rule a new or edited link breaks, if any: it may not repeat a stored
/// link, and a `Blocks` link may not close a cycle among the stored `Blocks`
/// links.
pub open spec fn edge_error(
    deps: Seq<EventDependency>,
    from: Seq<char>,
    to: Seq<char>,
    ty: DependencyType,
    excl: Option<Seq<char>>,
) -> Option<(Seq<char>, Seq<char>)> {
    if duplicate_edge(deps, from, to, excl) {
        Some(conflict_err("dependency edge already exists"@))
    } else if ty != DependencyType::Blocks {
        None
    } else if reachable(dag_from(blocks_except(deps, excl)), to, from) {
        Some(conflict_err("dependency would create a cycle in blocks edges"@))
    } else {
        None
    }
}

/// The rule the endpoints of a link break, if any.
pub open spec fn endpoints_error(from: Seq<char>, to: Seq<char>, event_ids: Set<Seq<char>>) -> Option<(Seq<char>, Seq<char>)> {
    if from == to {
        Some(validation_err("dependency endpoints must reference two distinct events"@))
    } else if !event_ids.contains(from) {
        Some(not_found_err("event"@, from))
    } else if !event_ids.contains(to) {
        Some(not_found_err("event"@, to))
    } else {
        None
    }
}

/// The two endpoints must differ and both name stored events.
pub fn validate_dependency_endpoints(
    from_event_id: &str,
    to_event_id: &str,
    event_ids: &Vec<String>,
) -> (res: Result<(), CliError>)
    ensures
        match endpoints_error(from_event_id@, to_event_id@, str_views(event_ids@).to_set()) {
            Some(e) => fails_with(res, e),
            None => res is Ok,
        },
{
    let f = to_owned_string(from_event_id);
    let t = to_owned_string(to_event_id);
    if f == t {
        return Err(validation_str("dependency endpoints must reference two distinct events"));
    }
    if !contains_str(event_ids, &f) {
        return Err(CliError::not_found("event", from_event_id));
    }
    if !contains_str(event_ids, &t) {
        return Err(CliError::not_found("event", to_event_id));
    }
    Ok(())
}

/// A link may not repeat a stored link, and a `Blocks` link may not close a
/// cycle; `exclude_dependency_id` names the link being edited.
pub fn validate_dependency_edge(
    dependencies: &[EventDependency],
    from_event_id: &str,
    to_event_id: &str,
    dependency_type: DependencyType,
    exclude_dependency_id: Option<&str>,
) -> (res: Result<(), CliError>)
    ensures
        match edge_error(
            dependencies@,
            from_event_id@,
            to_event_id@,
            dependency_type,
            opt_str_view(exclude_dependency_id),
        ) {
            Some(e) => fails_with(res, e),
            None => res is Ok,
        },
{
    let ghost deps = dependencies@;
    let ghost excl = opt_str_view(exclude_dependency_id);
    let excl_s: Option<String> = match exclude_dependency_id {
        Some(x) => Some(to_owned_string(x)),
        None => None,
    };
    let f = to_owned_string(from_event_id);
    let t = to_owned_string(to_event_id);
    let mut i: usize = 0;
    while i < dependencies.len()
        invariant
            i <= dependencies.len(),
            deps == dependencies@,
            opt_view(excl_s) == excl,
            excl == opt_str_view(exclude_dependency_id),
            f@ == from_event_id@,
            t@ == to_event_id@,
            forall|k: int|
                0 <= k < i ==> !(!excluded(#[trigger] deps[k], excl) && deps[k].from_event_id@ == f@
                    && deps[k].to_event_id@ == t@),
        decreases dependencies.len() - i,
    {
        let d = &dependencies[i];
        let is_excluded = match &excl_s {
            Some(x) => d.id == *x,
            None => false,
        };
        if !is_excluded && d.from_event_id == f && d.to_event_id == t {
            assert(!excluded(deps[i as int], excl));
            assert(deps[i as int].from_event_id@ == from_event_id@ && deps[i as int].to_event_id@
                == to_event_id@);
            assert(duplicate_edge(deps, from_event_id@, to_event_id@, excl));
            return Err(conflict_str("dependency edge already exists"));
        }
        i += 1;
    }
    if dependency_type != DependencyType::Blocks {
        return Ok(());
    }
    let mut dag = EventDag::new();
    let mut j: usize = 0;
    assert(deps.take(0) =~= Seq::<EventDependency>::empty());
    while j < dependencies.len()
        invariant
            j <= dependencies.len(),
            deps == dependencies@,
            opt_view(excl_s) == excl,
            excl == opt_str_view(exclude_dependency_id),
            dag.well_formed(),
            dag@ == dag_from(blocks_except(deps.take(j as int), excl)),
        decreases dependencies.len() - j,
    {
        let d = &dependencies[j];
        let is_excluded = match &excl_s {
            Some(x) => d.id == *x,
            None => false,
        };
        assert(deps.take(j as int + 1).drop_last() =~= deps.take(j as int));
        assert(deps.take(j as int + 1).last() == deps[j as int]);
        if d.dependency_type == DependencyType::Blocks && !is_excluded {
            let ghost prev = blocks_except(deps.take(j as int), excl);
            assert(blocks_except(deps.take(j as int + 1), excl) == prev.push(*d));
            assert(prev.push(*d).drop_last() =~= prev);
            let _ = dag.add_edge(d.from_event_id.as_str(), d.to_event_id.as_str());
        }
        j += 1;
    }
    assert(deps.take(dependencies.len() as int) =~= deps);
    if dag.add_edge(from_event_id, to_event_id).is_err() {
        return Err(conflict_str("dependency would create a cycle in blocks edges"));
    }
    Ok(())
}

/// `o` holds a value that is blank.
pub open spec fn blank_some(o: Option<String>) -> bool {
    o matches Some(v) && trim_seq(v@).len() == 0
}

/// The first rule that `calendars create` breaks.
pub open spec fn calendar_create_error(args: CalendarCreateArgs) -> Option<(Seq<char>, Seq<char>)> {
    if trim_seq(args.name@).len() == 0 {
        Some(empty_field_err("name"@))
    } else if trim_seq(args.color@).len() == 0 {
        Some(empty_field_err("color"@))
    } else {
        source_error(source_of(args.source), normalized(args.google_id))
    }
}

/// The calendar that `calendars create` stores: trimmed name and colour, the
/// normalized Google id, a fresh id and the current time.
pub fn new_calendar(args: CalendarCreateArgs) -> (res: Result<Calendar, CliError>)
    ensures
        match calendar_create_error(args) {
            Some(e) => fails_with(res, e),
            None => res matches Ok(c) && {
                &&& c.name@ == trim_seq(args.name@)
                &&& c.color@ == trim_seq(args.color@)
                &&& c.source == source_of(args.source)
                &&& opt_view(c.google_id) == normalized(args.google_id)
                &&& c.visible == args.visible
                &&& c.position == args.position
                &&& c.id@.len() == 36
                &&& c.created_at == c.updated_at
                &&& c.deleted_at is None
            },
        },
{
    let now = timestamp_now();
    let name = match non_empty(args.name, "name") {
        Ok(v) => v,
        Err(e) => return Err(e),
    };
    let color = match non_empty(args.color, "color") {
        Ok(v) => v,
        Err(e) => return Err(e),
    };
    let source = calendar_source_from_arg(args.source);
    let google_id = normalize_optional(args.google_id);
    if let Err(e) = validate_calendar_source(&source, &google_id) {
        return Err(e);
    }
    Ok(
        Calendar {
            id: new_record_id(),
            name,
            color,
            source,
            google_id,
            visible: args.visible,
            position: args.position,
            created_at: now.clone(),
            updated_at: now,
            deleted_at: None,
        },
    )
}

/// The source after an update.
pub open spec fn updated_source(cal: Calendar, args: CalendarUpdateArgs) -> CalendarSource {
    match args.source {
        Some(s) => source_of(s),
        None => cal.source,
    }
}

/// The Google id after an update: cleared for a local calendar.
pub open spec fn updated_google_id(cal: Calendar, args: CalendarUpdateArgs) -> Option<Seq<char>> {
    if updated_source(cal, args) == CalendarSource::Local {
        None
    } else if args.google_id is Some {
        normalized(args.google_id)
    } else {
        opt_view(cal.google_id)
    }
}

/// The first rule that `calendars update` breaks.
pub open spec fn calendar_update_error(cal: Calendar, args: CalendarUpdateArgs) -> Option<(Seq<char>, Seq<char>)> {
    if blank_some(args.name) {
        Some(empty_field_err("name"@))
    } else if blank_some(args.color) {
        Some(empty_field_err("color"@))
    } else {
        source_error(updated_source(cal, args), updated_google_id(cal, args))
    }
}

/// The calendar as `calendars update` leaves it.
pub fn apply_calendar_update(calendar: Calendar, args: CalendarUpdateArgs) -> (res: Result<Calendar, CliError>)
    ensures
        match calendar_update_error(calendar, args) {
            Some(e) => fails_with(res, e),
            None => res matches Ok(c) && {
                &&& c.id == calendar.id
                &&& c.name@ == (match args.name {
                    Some(n) => trim_seq(n@),
                    None => calendar.name@,
                })
                &&& c.color@ == (match args.color {
                    Some(n) => trim_seq(n@),
                    None => calendar.color@,
                })
                &&& c.source == updated_source(calendar, args)
                &&& opt_view(c.google_id) == updated_google_id(calendar, args)
                &&& c.visible == (match args.visible {
                    Some(v) => v,
                    None => calendar.visible,
                })
                &&& c.position == (match args.position {
                    Some(p) => p,
                    None => calendar.position,
                })
                &&& c.created_at == calendar.created_at
                &&& c.updated_at == calendar.updated_at
                &&& c.deleted_at == calendar.deleted_at
            },
        },
{
    let mut calendar = calendar;
    if let Some(name) = args.name {
        calendar.name = match non_empty(name, "name") {
            Ok(v) => v,
            Err(e) => return Err(e),
        };
    }
    if let Some(color) = args.color {
        calendar.color = match non_empty(color, "color") {
            Ok(v) => v,
            Err(e) => return Err(e),
        };
    }
    if let Some(source) = args.source {
        calendar.source = calendar_source_from_arg(source);
    }
    if let Some(visible) = args.visible {
        calendar.visible = visible;
    }
    if let Some(position) = args.position {
        calendar.position = position;
    }
    if args.google_id.is_some() {
        calendar.google_id = normalize_optional(args.google_id);
    }
    if calendar.source == CalendarSource::Local {
        calendar.google_id = None;
    }
    if let Err(e) = validate_calendar_source(&calendar.source, &calendar.google_id) {
        return Err(e);
    }
    Ok(calendar)
}

/// The rule that `calendars delete` breaks: the last active calendar stays, and
/// a calendar with active events goes only with `--cascade-events`.
pub open spec fn calendar_delete_error(active_events: u64, cascade_events: bool, active_calendars: u64) -> Option<(Seq<char>, Seq<char>)> {
    if active_calendars <= 1 {
        Some(conflict_err("cannot delete the last active calendar"@))
    } else if active_events > 0 && !cascade_events {
        Some(
            conflict_err(
                "calendar has active events; rerun with --cascade-events to delete them too"@,
            ),
        )
    } else {
        None
    }
}

pub fn check_calendar_delete(active_events: u64, cascade_events: bool, active_calendars: u64) -> (res: Result<(), CliError>)
    ensures
        match calendar_delete_error(active_events, cascade_events, active_calendars) {
            Some(e) => fails_with(res, e),
            None => res is Ok,
        },
{
    if active_calendars <= 1 {
        return Err(conflict_str("cannot delete the last active calendar"));
    }
    if active_events > 0 && !cascade_events {
        return Err(
            conflict_str(
                "calendar has active events; rerun with --cascade-events to delete them too",
            ),
        );
    }
    Ok(())
}

/// The first rule that `projects create` breaks.
pub open spec fn project_create_error(args: ProjectCreateArgs) -> Option<(Seq<char>, Seq<char>)> {
    if trim_seq(args.name@).len() == 0 {
        Some(empty_field_err("name"@))
    } else if trim_seq(args.color@).len() == 0 {
        Some(empty_field_err("color"@))
    } else {
        None
    }
}

/// The project that `projects create` stores.
pub fn new_project(args: ProjectCreateArgs) -> (res: Result<Project, CliError>)
    ensures
        match project_create_error(args) {
            Some(e) => fails_with(res, e),
            None => res matches Ok(p) && {
                &&& p.name@ == trim_seq(args.name@)
                &&& p.color@ == trim_seq(args.color@)
                &&& opt_view(p.description) == normalized(args.description)
                &&& p.id@.len() == 36
                &&& p.created_at == p.updated_at
                &&& p.deleted_at is None
            },
        },
{
    let now = timestamp_now();
    let name = match non_empty(args.name, "name") {
        Ok(v) => v,
        Err(e) => return Err(e),
    };
    let color = match non_empty(args.color, "color") {
        Ok(v) => v,
        Err(e) => return Err(e),
    };
    Ok(
        Project {
            id: new_record_id(),
            name,
            color,
            description: normalize_optional(args.description),
            created_at: now.clone(),
            updated_at: now,
            deleted_at: None,
        },
    )
}

/// The first rule that `projects update` breaks.
pub open spec fn project_update_error(args: ProjectUpdateArgs) -> Option<(Seq<char>, Seq<char>)> {
    if blank_some(args.name) {
        Some(empty_field_err("name"@))
    } else if blank_some(args.color) {
        Some(empty_field_err("color"@))
    } else {
        None
    }
}

/// The project as `projects update` leaves it.
pub fn apply_project_update(project: Project, args: ProjectUpdateArgs) -> (res: Result<Project, CliError>)
    ensures
        match project_update_error(args) {
            Some(e) => fails_with(res, e),
            None => res matches Ok(p) && {
                &&& p.id == project.id
                &&& p.name@ == (match args.name {
                    Some(n) => trim_seq(n@),
                    None => project.name@,
                })
                &&& p.color@ == (match args.color {
                    Some(n) => trim_seq(n@),
                    None => project.color@,
                })
                &&& opt_view(p.description) == (if args.description is Some {
                    normalized(args.description)
                } else {
                    opt_view(project.description)
                })
                &&& p.created_at == project.created_at
                &&& p.updated_at == project.updated_at
                &&& p.deleted_at == project.deleted_at
            },
        },
{
    let mut project = project;
    if let Some(name) = args.name {
        project.name = match non_empty(name, "name") {
            Ok(v) => v,
            Err(e) => return Err(e),
        };
    }
    if let Some(color) = args.color {
        project.color = match non_empty(color, "color") {
            Ok(v) => v,
            Err(e) => return Err(e),
        };
    }
    if args.description.is_some() {
        project.description = normalize_optional(args.description);
    }
    Ok(project)
}

/// A project with active events goes only with `--detach-events`.
pub fn check_project_delete(active_events: u64, detach_events: bool) -> (res: Result<(), CliError>)
    ensures
        active_events > 0 && !detach_events ==> fails_with(
            res,
            conflict_err(
                "project has active events; rerun with --detach-events to clear project_id first"@,
            ),
        ),
        !(active_events > 0 && !detach_events) ==> res is Ok,
{
    if active_events > 0 && !detach_events {
        return Err(
            conflict_str(
                "project has active events; rerun with --detach-events to clear project_id first",
            ),
        );
    }
    Ok(())
}

/// The first rule that `events create` breaks, given the stored calendar and
/// project ids.
pub open spec fn event_create_error(
    args: EventCreateArgs,
    calendar_ids: Set<Seq<char>>,
    project_ids: Set<Seq<char>>,
) -> Option<(Seq<char>, Seq<char>)> {
    if !calendar_ids.contains(args.calendar_id@) {
        Some(not_found_err("calendar"@, args.calendar_id@))
    } else if (args.project_id matches Some(p) && !project_ids.contains(p@)) {
        Some(not_found_err("project"@, args.project_id.unwrap()@))
    } else if trim_seq(args.title@).len() == 0 {
        Some(validation_err("title cannot be empty"@))
    } else if datetime_error(args.start_at@, args.end_at@) is Some {
        datetime_error(args.start_at@, args.end_at@)
    } else if trim_seq(args.timezone@).len() == 0 {
        Some(empty_field_err("timezone"@))
    } else {
        None
    }
}

/// Fails with `<resource> '<id>' not found` unless `id` is one of `ids`.
fn ensure_exists(ids: &Vec<String>, resource: &str, id: &String) -> (res: Result<(), CliError>)
    ensures
        str_views(ids@).contains(id@) ==> res is Ok,
        !str_views(ids@).contains(id@) ==> fails_with(res, not_found_err(resource@, id@)),
{
    if contains_str(ids, id) {
        Ok(())
    } else {
        Err(CliError::not_found(resource, id.as_str()))
    }
}

/// The event that `events create` stores.
pub fn new_event(args: EventCreateArgs, calendar_ids: &Vec<String>, project_ids: &Vec<String>) -> (res: Result<Event, CliError>)
    ensures
        match event_create_error(args, str_views(calendar_ids@).to_set(), str_views(project_ids@).to_set()) {
            Some(e) => fails_with(res, e),
            None => res matches Ok(ev) && {
                &&& ev.calendar_id == args.calendar_id
                &&& opt_view(ev.project_id) == normalized(args.project_id)
                &&& ev.title@ == trim_seq(args.title@)
                &&& opt_view(ev.description) == normalized(args.description)
                &&& opt_view(ev.location) == normalized(args.location)
                &&& ev.start_at == args.start_at
                &&& ev.end_at == args.end_at
                &&& ev.all_day == args.all_day
                &&& opt_view(ev.rrule) == normalized(args.rrule)
                &&& ev.google_id is None
                &&& ev.google_etag is None
                &&& ev.reminder_minutes == args.reminder_minutes
                &&& ev.timezone@ == trim_seq(args.timezone@)
                &&& ev.id@.len() == 36
                &&& ev.created_at == ev.updated_at
                &&& ev.deleted_at is None
            },
        },
{
    if let Err(e) = ensure_exists(calendar_ids, "calendar", &args.calendar_id) {
        return Err(e);
    }
    if let Some(project_id) = &args.project_id {
        if let Err(e) = ensure_exists(project_ids, "project", project_id) {
            return Err(e);
        }
    }
    if let Err(e) = ensure_title(args.title.as_str()) {
        return Err(e);
    }
    if let Err(e) = validate_event_datetime(args.start_at.as_str(), args.end_at.as_str()) {
        return Err(e);
    }
    let now = timestamp_now();
    let title = trim(args.title.as_str());
    let timezone = match non_empty(args.timezone, "timezone") {
        Ok(v) => v,
        Err(e) => return Err(e),
    };
    Ok(
        Event {
            id: new_record_id(),
            calendar_id: args.calendar_id,
            project_id: normalize_optional(args.project_id),
            title,
            description: normalize_optional(args.description),
            location: normalize_optional(args.location),
            start_at: args.start_at,
            end_at: args.end_at,
            all_day: args.all_day,
            rrule: normalize_optional(args.rrule),
            google_id: None,
            google_etag: None,
            reminder_minutes: args.reminder_minutes,
            timezone,
            created_at: now.clone(),
            updated_at: now,
            deleted_at: None,
        },
    )
}

/// The start time after an update.
pub open spec fn updated_start(ev: Event, args: EventUpdateArgs) -> Seq<char> {
    match args.start_at {
        Some(s) => s@,
        None => ev.start_at@,
    }
}

/// The end time after an update.
pub open spec fn updated_end(ev: Event, args: EventUpdateArgs) -> Seq<char> {
    match args.end_at {
        Some(s) => s@,
        None => ev.end_at@,
    }
}

/// The first rule that `events update` breaks, given the stored calendar and
/// project ids.
pub open spec fn event_update_error(
    ev: Event,
    args: EventUpdateArgs,
    calendar_ids: Set<Seq<char>>,
    project_ids: Set<Seq<char>>,
) -> Option<(Seq<char>, Seq<char>)> {
    if args.clear_project_id && args.project_id is Some {
        Some(set_and_clear_err("project_id"@))
    } else if args.clear_description && args.description is Some {
        Some(set_and_clear_err("description"@))
    } else if args.clear_location && args.location is Some {
        Some(set_and_clear_err("location"@))
    } else if args.clear_rrule && args.rrule is Some {
        Some(set_and_clear_err("rrule"@))
    } else if args.clear_reminder_minutes && args.reminder_minutes is Some {
        Some(set_and_clear_err("reminder_minutes"@))
    } else if (args.calendar_id matches Some(c) && !calendar_ids.contains(c@)) {
        Some(not_found_err("calendar"@, args.calendar_id.unwrap()@))
    } else if blank_some(args.title) {
        Some(validation_err("title cannot be empty"@))
    } else if !args.clear_project_id && (args.project_id matches Some(p) && !project_ids.contains(p@)) {
        Some(not_found_err("project"@, args.project_id.unwrap()@))
    } else if blank_some(args.timezone) {
        Some(empty_field_err("timezone"@))
    } else {
        datetime_error(updated_start(ev, args), updated_end(ev, args))
    }
}

/// `<field> cannot be set and cleared at once`: an update gives a value for a
/// field together with the flag that clears it.
pub open spec fn set_and_clear_err(field: Seq<char>) -> (Seq<char>, Seq<char>) {
    validation_err(field + " cannot be set and cleared at once"@)
}

/// Fails when an update both gives `field` a value and clears it.
fn ensure_not_set_and_cleared(clear: bool, given: bool, field: &str) -> (res: Result<(), CliError>)
    ensures
        clear && given ==> fails_with(res, set_and_clear_err(field@)),
        !(clear && given) ==> res is Ok,
{
    if clear && given {
        let mut message = to_owned_string(field);
        message.append(" cannot be set and cleared at once");
        return Err(CliError::validation(message));
    }
    Ok(())
}

/// An optional field after an update that does not both set and clear it:
/// cleared by its flag, else replaced by a normalized new value when one is
/// given.
pub open spec fn updated_optional(old: Option<String>, clear: bool, new: Option<String>) -> Option<Seq<char>> {
    if clear {
        None
    } else if new is Some {
        normalized(new)
    } else {
        opt_view(old)
    }
}

/// Applies the update of one optional text field.
fn update_optional(old: Option<String>, clear: bool, new: Option<String>) -> (res: Option<String>)
    ensures
        opt_view(res) == updated_optional(old, clear, new),
{
    if clear {
        None
    } else if new.is_some() {
        normalize_optional(new)
    } else {
        old
    }
}

/// The event as `events update` leaves it.
#[verifier::rlimit(30)]
pub fn apply_event_update(
    event: Event,
    args: EventUpdateArgs,
    calendar_ids: &Vec<String>,
    project_ids: &Vec<String>,
) -> (res: Result<Event, CliError>)
    ensures
        match event_update_error(event, args, str_views(calendar_ids@).to_set(), str_views(project_ids@).to_set()) {
            Some(e) => fails_with(res, e),
            None => res matches Ok(ev) && {
                &&& ev.id == event.id
                &&& ev.calendar_id == (match args.calendar_id {
                    Some(c) => c,
                    None => event.calendar_id,
                })
                &&& ev.title@ == (match args.title {
                    Some(t) => trim_seq(t@),
                    None => event.title@,
                })
                &&& ev.project_id == (if args.clear_project_id {
                    None
                } else if args.project_id is Some {
                    args.project_id
                } else {
                    event.project_id
                })
                &&& opt_view(ev.description) == updated_optional(event.description, args.clear_description, args.description)
                &&& opt_view(ev.location) == updated_optional(event.location, args.clear_location, args.location)
                &&& ev.start_at@ == updated_start(event, args)
                &&& ev.end_at@ == updated_end(event, args)
                &&& ev.all_day == (match args.all_day {
                    Some(a) => a,
                    None => event.all_day,
                })
                &&& opt_view(ev.rrule) == updated_optional(event.rrule, args.clear_rrule, args.rrule)
                &&& ev.reminder_minutes == (if args.clear_reminder_minutes {
                    None
                } else if args.reminder_minutes is Some {
                    args.reminder_minutes
                } else {
                    event.reminder_minutes
                })
                &&& ev.timezone@ == (match args.timezone {
                    Some(t) => trim_seq(t@),
                    None => event.timezone@,
                })
                &&& ev.google_id == event.google_id
                &&& ev.google_etag == event.google_etag
                &&& ev.created_at == event.created_at
                &&& ev.updated_at == event.updated_at
                &&& ev.deleted_at == event.deleted_at
            },
        },
{
    if let Err(e) = ensure_not_set_and_cleared(args.clear_project_id, args.project_id.is_some(), "project_id") {
        return Err(e);
    }
    if let Err(e) = ensure_not_set_and_cleared(args.clear_description, args.description.is_some(), "description") {
        return Err(e);
    }
    if let Err(e) = ensure_not_set_and_cleared(args.clear_location, args.location.is_some(), "location") {
        return Err(e);
    }
    if let Err(e) = ensure_not_set_and_cleared(args.clear_rrule, args.rrule.is_some(), "rrule") {
        return Err(e);
    }
    if let Err(e) = ensure_not_set_and_cleared(
        args.clear_reminder_minutes,
        args.reminder_minutes.is_some(),
        "reminder_minutes",
    ) {
        return Err(e);
    }
    let mut event = event;
    if let Some(calendar_id) = args.calendar_id {
        if let Err(e) = ensure_exists(calendar_ids, "calendar", &calendar_id) {
            return Err(e);
        }
        event.calendar_id = calendar_id;
    }
    if let Some(title) = args.title {
        if let Err(e) = ensure_title(title.as_str()) {
            return Err(e);
        }
        event.title = trim(title.as_str());
    }
    if args.clear_project_id {
        event.project_id = None;
    } else if let Some(project_id) = args.project_id {
        if let Err(e) = ensure_exists(project_ids, "project", &project_id) {
            return Err(e);
        }
        event.project_id = Some(project_id);
    }
    event.description = update_optional(event.description, args.clear_description, args.description);
    event.location = update_optional(event.location, args.clear_location, args.location);
    if let Some(start_at) = args.start_at {
        event.start_at = start_at;
    }
    if let Some(end_at) = args.end_at {
        event.end_at = end_at;
    }
    if let Some(all_day) = args.all_day {
        event.all_day = all_day;
    }
    event.rrule = update_optional(event.rrule, args.clear_rrule, args.rrule);
    if args.clear_reminder_minutes {
        event.reminder_minutes = None;
    } else if let Some(reminder_minutes) = args.reminder_minutes {
        event.reminder_minutes = Some(reminder_minutes);
    }
    if let Some(timezone) = args.timezone {
        event.timezone = match non_empty(timezone, "timezone") {
            Ok(v) => v,
            Err(e) => return Err(e),
        };
    }
    if let Err(e) = validate_event_datetime(event.start_at.as_str(), event.end_at.as_str()) {
        return Err(e);
    }
    Ok(event)
}

/// The first rule that a new link breaks.
pub open spec fn dependency_create_error(
    args: DependencyCreateArgs,
    event_ids: Set<Seq<char>>,
    deps: Seq<EventDependency>,
) -> Option<(Seq<char>, Seq<char>)> {
    if endpoints_error(args.from_event_id@, args.to_event_id@, event_ids) is Some {
        endpoints_error(args.from_event_id@, args.to_event_id@, event_ids)
    } else {
        edge_error(
            deps,
            args.from_event_id@,
            args.to_event_id@,
            dependency_type_of(args.dependency_type),
            None,
        )
    }
}

/// The link that `dependencies create` stores, given the stored event ids and
/// links.
pub fn new_dependency(
    args: DependencyCreateArgs,
    event_ids: &Vec<String>,
    dependencies: &[EventDependency],
) -> (res: Result<EventDependency, CliError>)
    ensures
        match dependency_create_error(args, str_views(event_ids@).to_set(), dependencies@) {
            Some(e) => fails_with(res, e),
            None => res matches Ok(d) && {
                &&& d.from_event_id == args.from_event_id
                &&& d.to_event_id == args.to_event_id
                &&& d.dependency_type == dependency_type_of(args.dependency_type)
                &&& d.id@.len() == 36
                &&& d.created_at == d.updated_at
            },
        },
{
    if let Err(e) = validate_dependency_endpoints(
        args.from_event_id.as_str(),
        args.to_event_id.as_str(),
        event_ids,
    ) {
        return Err(e);
    }
    if let Err(e) = validate_dependency_edge(
        dependencies,
        args.from_event_id.as_str(),
        args.to_event_id.as_str(),
        dependency_type_from_arg(args.dependency_type),
        None,
    ) {
        return Err(e);
    }
    let now = timestamp_now();
    Ok(
        EventDependency {
            id: new_record_id(),
            from_event_id: args.from_event_id,
            to_event_id: args.to_event_id,
            dependency_type: dependency_type_from_arg(args.dependency_type),
            created_at: now.clone(),
            updated_at: now,
        },
    )
}

pub open spec fn updated_from(d: EventDependency, args: DependencyUpdateArgs) -> Seq<char> {
    match args.from_event_id {
        Some(f) => f@,
        None => d.from_event_id@,
    }
}

pub open spec fn updated_to(d: EventDependency, args: DependencyUpdateArgs) -> Seq<char> {
    match args.to_event_id {
        Some(t) => t@,
        None => d.to_event_id@,
    }
}

pub open spec fn updated_type(d: EventDependency, args: DependencyUpdateArgs) -> DependencyType {
    match args.dependency_type {
        Some(t) => dependency_type_of(t),
        None => d.dependency_type,
    }
}

/// The first rule that an edited link breaks; the link itself does not count.
pub open spec fn dependency_update_error(
    d: EventDependency,
    args: DependencyUpdateArgs,
    event_ids: Set<Seq<char>>,
    deps: Seq<EventDependency>,
) -> Option<(Seq<char>, Seq<char>)> {
    let f = updated_from(d, args);
    let t = updated_to(d, args);
    if endpoints_error(f, t, event_ids) is Some {
        endpoints_error(f, t, event_ids)
    } else {
        edge_error(deps, f, t, updated_type(d, args), Some(d.id@))
    }
}

/// The link as `dependencies update` leaves it.
pub fn apply_dependency_update(
    dependency: EventDependency,
    args: DependencyUpdateArgs,
    event_ids: &Vec<String>,
    dependencies: &[EventDependency],
) -> (res: Result<EventDependency, CliError>)
    ensures
        match dependency_update_error(dependency, args, str_views(event_ids@).to_set(), dependencies@) {
            Some(e) => fails_with(res, e),
            None => res matches Ok(d) && {
                &&& d.id == dependency.id
                &&& d.from_event_id@ == updated_from(dependency, args)
                &&& d.to_event_id@ == updated_to(dependency, args)
                &&& d.dependency_type == updated_type(dependency, args)
                &&& d.created_at == dependency.created_at
                &&& d.updated_at == dependency.updated_at
            },
        },
{
    let mut dependency = dependency;
    if let Some(from_event_id) = args.from_event_id {
        dependency.from_event_id = from_event_id;
    }
    if let Some(to_event_id) = args.to_event_id {
        dependency.to_event_id = to_event_id;
    }
    if let Some(dependency_type) = args.dependency_type {
        dependency.dependency_type = dependency_type_from_arg(dependency_type);
    }
    if let Err(e) = validate_dependency_endpoints(
        dependency.from_event_id.as_str(),
        dependency.to_event_id.as_str(),
        event_ids,
    ) {
        return Err(e);
    }
    if let Err(e) = validate_dependency_edge(
        dependencies,
        dependency.from_event_id.as_str(),
        dependency.to_event_id.as_str(),
        dependency.dependency_type,
        Some(dependency.id.as_str()),
    ) {
        return Err(e);
    }
    Ok(dependency)
}

/// The Google calendars to sync, in order: every Google calendar, or only the
/// one with the given id.
pub open spec fn sync_selection(cals: Seq<Calendar>, id: Option<Seq<char>>) -> Seq<Calendar>
    decreases cals.len(),
{
    if cals.len() == 0 {
        Seq::empty()
    } else {
        let rest = sync_selection(cals.drop_first(), id);
        let c = cals[0];
        if c.source == CalendarSource::Google && (id is None || id == Some(c.id@)) {
            seq![c] + rest
        } else {
            rest
        }
    }
}

/// The calendars a sync works on are Google calendars of the given list; with
/// an id, only those with that id; and every Google calendar of the list
/// with that id (every Google calendar, without one) is among them.
pub proof fn law_sync_selects_matching_google_calendars(cals: Seq<Calendar>, id: Option<Seq<char>>)
    ensures
        forall|i: int|
            0 <= i < sync_selection(cals, id).len() ==> {
                let c = #[trigger] sync_selection(cals, id)[i];
                &&& c.source == CalendarSource::Google
                &&& cals.contains(c)
                &&& id matches Some(w) ==> c.id@ == w
            },
        forall|j: int|
            0 <= j < cals.len() && (#[trigger] cals[j]).source == CalendarSource::Google && (
            id matches Some(w) ==> cals[j].id@ == w) ==> sync_selection(cals, id).contains(cals[j]),
    decreases cals.len(),
{
    if cals.len() > 0 {
        let rest = cals.drop_first();
        law_sync_selects_matching_google_calendars(rest, id);
        let sel = sync_selection(cals, id);
        let rsel = sync_selection(rest, id);
        assert forall|i: int| 0 <= i < sel.len() implies {
            let c = #[trigger] sel[i];
            &&& c.source == CalendarSource::Google
            &&& cals.contains(c)
            &&& id matches Some(w) ==> c.id@ == w
        } by {
            if sel.len() == rsel.len() + 1 && sel =~= seq![cals[0]] + rsel {
                if i == 0 {
                    assert(cals[0] == sel[i]);
                } else {
                    assert(sel[i] == rsel[i - 1]);
                    let k = choose|k: int| 0 <= k < rest.len() && rest[k] == rsel[i - 1];
                    assert(cals[k + 1] == rest[k]);
                }
            } else {
                assert(sel =~= rsel);
                let k = choose|k: int| 0 <= k < rest.len() && rest[k] == sel[i];
                assert(cals[k + 1] == rest[k]);
            }
        }
        assert forall|j: int|
            0 <= j < cals.len() && (#[trigger] cals[j]).source == CalendarSource::Google && (
            id matches Some(w) ==> cals[j].id@ == w) implies sel.contains(cals[j]) by {
            if j == 0 {
                assert(sel[0] == cals[0]);
            } else {
                assert(rest[j - 1] == cals[j]);
                assert(rsel.contains(cals[j]));
                let k = choose|k: int| 0 <= k < rsel.len() && rsel[k] == cals[j];
                if cals[0].source == CalendarSource::Google && (id is None || id == Some(cals[0].id@)) {
                    assert(sel[k + 1] == rsel[k]);
                } else {
                    assert(sel[k] == rsel[k]);
                }
            }
        }
    }
}

/// Picks the calendars that `google sync` works on; fails when there is none.
pub fn select_sync_calendars(calendars: Vec<Calendar>, calendar_id: Option<&str>) -> (res: Result<Vec<Calendar>, CliError>)
    ensures
        sync_selection(calendars@, opt_str_view(calendar_id)).len() > 0 ==> (res matches Ok(v) && v@
            == sync_selection(calendars@, opt_str_view(calendar_id))),
        sync_selection(calendars@, opt_str_view(calendar_id)).len() == 0 ==> match calendar_id {
            Some(c) => fails_with(res, not_found_err("google calendar"@, c@)),
            None => fails_with(res, conflict_err("no google calendars found to sync"@)),
        },
        res matches Ok(v) ==> forall|i: int|
            0 <= i < v@.len() ==> {
                &&& (#[trigger] v@[i]).source == CalendarSource::Google
                &&& calendars@.contains(v@[i])
                &&& calendar_id matches Some(c) ==> v@[i].id@ == c@
            },
        forall|j: int|
            0 <= j < calendars@.len() && (#[trigger] calendars@[j]).source == CalendarSource::Google
                && (calendar_id matches Some(c) ==> calendars@[j].id@ == c@) ==> (res matches Ok(v)
                && v@.contains(calendars@[j])),
{
    let ghost target = sync_selection(calendars@, opt_str_view(calendar_id));
    let wanted: Option<String> = match calendar_id {
        Some(c) => Some(to_owned_string(c)),
        None => None,
    };
    let mut rest = calendars;
    let mut out: Vec<Calendar> = Vec::new();
    while rest.len() > 0
        invariant
            opt_view(wanted) == opt_str_view(calendar_id),
            target == sync_selection(calendars@, opt_str_view(calendar_id)),
            out@ + sync_selection(rest@, opt_str_view(calendar_id)) == target,
        decreases rest.len(),
    {
        let ghost r0 = rest@;
        let c = rest.remove(0);
        assert(rest@ =~= r0.drop_first());
        let keep = c.source == CalendarSource::Google && match &wanted {
            Some(w) => c.id == *w,
            None => true,
        };
        if keep {
            let ghost o0 = out@;
            out.push(c);
            assert(out@ + sync_selection(rest@, opt_str_view(calendar_id)) =~= o0 + (seq![c]
                + sync_selection(rest@, opt_str_view(calendar_id))));
        }
    }
    assert(out@ =~= target);
    proof {
        law_sync_selects_matching_google_calendars(calendars@, opt_str_view(calendar_id));
    }
    if out.len() == 0 {
        return match calendar_id {
            Some(c) => Err(CliError::not_found("google calendar", c)),
            None => Err(conflict_str("no google calendars found to sync")),
        };
    }
    Ok(out)
}

/// The `Blocks` links of `deps`, as edges.
pub open spec fn blocks_edges(deps: Seq<EventDependency>) -> Set<(Seq<char>, Seq<char>)>
    decreases deps.len(),
{
    if deps.len() == 0 {
        Set::empty()
    } else {
        let g = blocks_edges(deps.drop_last());
        let d = deps.last();
        if d.dependency_type == DependencyType::Blocks {
            g.insert((d.from_event_id@, d.to_event_id@))
        } else {
            g
        }
    }
}

proof fn lemma_acyclic_subset(g: Set<(Seq<char>, Seq<char>)>, h: Set<(Seq<char>, Seq<char>)>)
    requires
        acyclic(h),
        g.subset_of(h),
    ensures
        acyclic(g),
{
    assert forall|p: Seq<Seq<char>>| #[trigger] is_path(g, p) && p.len() >= 2 implies p[0] != p.last() by {
        lemma_path_mono(g, h, p);
    }
}

/// When the `Blocks` links form no cycle, building the graph keeps every one
/// of them.
proof fn lemma_dag_from_keeps_all(deps: Seq<EventDependency>)
    requires
        acyclic(blocks_edges(deps)),
    ensures
        dag_from(deps) == blocks_edges(deps),
    decreases deps.len(),
{
    if deps.len() > 0 {
        let rest = deps.drop_last();
        let d = deps.last();
        let full = blocks_edges(deps);
        assert(blocks_edges(rest).subset_of(full));
        lemma_acyclic_subset(blocks_edges(rest), full);
        lemma_dag_from_keeps_all(rest);
        if d.dependency_type == DependencyType::Blocks {
            let f = d.from_event_id@;
            let t = d.to_event_id@;
            if reachable(blocks_edges(rest), t, f) {
                let p = choose|p: Seq<Seq<char>>| #[trigger] path_from_to(blocks_edges(rest), p, t, f);
                lemma_path_mono(blocks_edges(rest), full, p);
                assert(full.contains((p.last(), t)));
                lemma_path_push(full, p, t);
                assert(is_path(full, p.push(t)) && p.push(t).len() >= 2);
                assert(p.push(t)[0] == p.push(t).last());
            }
        }
    }
}

proof fn lemma_blocks_except_none(deps: Seq<EventDependency>)
    ensures
        blocks_edges(blocks_except(deps, None)) == blocks_edges(deps),
    decreases deps.len(),
{
    if deps.len() > 0 {
        lemma_blocks_except_none(deps.drop_last());
        let b = blocks_except(deps.drop_last(), None);
        let d = deps.last();
        if d.dependency_type == DependencyType::Blocks {
            assert(b.push(d).drop_last() =~= b);
        }
    }
}

/// A `Blocks` link that passes the checks of `dependencies create` keeps the
/// `Blocks` links free of cycles: if they formed no cycle before, they form
/// none with the new link added.
pub proof fn law_validated_blocks_link_keeps_acyclic(deps: Seq<EventDependency>, d: EventDependency)
    requires
        acyclic(blocks_edges(deps)),
        d.dependency_type == DependencyType::Blocks,
        edge_error(deps, d.from_event_id@, d.to_event_id@, DependencyType::Blocks, None) is None,
    ensures
        acyclic(blocks_edges(deps.push(d))),
{
    lemma_blocks_except_none(deps);
    lemma_dag_from_keeps_all(blocks_except(deps, None));
    assert(deps.push(d).drop_last() =~= deps);
    lemma_insert_keeps_acyclic(blocks_edges(deps), d.from_event_id@, d.to_event_id@);
}

} // verus!

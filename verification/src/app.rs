//! The state of the terminal interface and what each action does to it. The
//! work that leaves the process (the database, Google, files) is handed back
//! as an [`AppEffect`] for the caller to perform.
use vstd::prelude::*;
use vstd::view::View as _;

use crate::cli::opt_view;
use crate::dag::{dag_from, EventDag};
use crate::google::auth::GoogleClient;
use crate::keys::{Action, View};
use crate::models::{Calendar, CalendarSource, Event, EventDependency, Project};
use crate::recurrence::{preset_label, RecurrencePreset};
use crate::text::{
    byte_slice, dec_seq, int_dec_seq, is_blank, on_char_boundary, push_dec, parse_i64, parsed_i64, push_char, push_int_dec,
    to_owned_string, trim, trim_seq, utf8_len,
};
use crate::timestamp::{
    add_days, date_text, days_in_month_of, days_in_month_spec, format_date, law_shift_day_round_trip,
    pred_date, prev_date,
    shift_days, CivilDate, MAX_YEAR, MIN_YEAR,
};
use crate::worker::first_of_month;

verus! {

/// The fields of the event form.
#[derive(Debug, Clone, Copy, PartialEq, Eq, Structural)]
pub enum FormField {
    Title,
    Date,
    StartTime,
    EndTime,
    Calendar,
    Location,
    Description,
    Recurrence,
    Reminder,
    Project,
    AllDay,
}

/// The fields in the order the form shows them.
pub open spec fn form_field_order() -> Seq<FormField> {
    seq![
        FormField::Title,
        FormField::Date,
        FormField::StartTime,
        FormField::EndTime,
        FormField::AllDay,
        FormField::Calendar,
        FormField::Location,
        FormField::Description,
        FormField::Recurrence,
        FormField::Reminder,
        FormField::Project,
    ]
}

/// The label shown before a field.
pub open spec fn form_field_label(f: FormField) -> Seq<char> {
    match f {
        FormField::Title => "Title"@,
        FormField::Date => "Date"@,
        FormField::StartTime => "Start"@,
        FormField::EndTime => "End"@,
        FormField::Calendar => "Calendar"@,
        FormField::Location => "Location"@,
        FormField::Description => "Description"@,
        FormField::Recurrence => "Repeats"@,
        FormField::Reminder => "Reminder"@,
        FormField::Project => "Project"@,
        FormField::AllDay => "All day"@,
    }
}

impl FormField {
    /// Every field, in the order the form shows them.
    pub fn all() -> (res: Vec<FormField>)
        ensures
            res@ == form_field_order(),
    {
        let v = vec![
            FormField::Title,
            FormField::Date,
            FormField::StartTime,
            FormField::EndTime,
            FormField::AllDay,
            FormField::Calendar,
            FormField::Location,
            FormField::Description,
            FormField::Recurrence,
            FormField::Reminder,
            FormField::Project,
        ];
        assert(v@ =~= form_field_order());
        v
    }

    /// The label shown before the field.
    pub fn label(&self) -> (res: &'static str)
        ensures
            res@ == form_field_label(*self),
    {
        match self {
            FormField::Title => "Title",
            FormField::Date => "Date",
            FormField::StartTime => "Start",
            FormField::EndTime => "End",
            FormField::Calendar => "Calendar",
            FormField::Location => "Location",
            FormField::Description => "Description",
            FormField::Recurrence => "Repeats",
            FormField::Reminder => "Reminder",
            FormField::Project => "Project",
            FormField::AllDay => "All day",
        }
    }
}

/// Work for the caller to perform on the application's behalf.
#[derive(Debug)]
pub enum AppEffect {
    LoadCalendars,
    LoadProjects,
    LoadDependencies,
    /// Load the events around month `month` of `year`.
    LoadEvents { year: i32, month: u32 },
    /// Store a new (`is_new`) or edited event.
    SaveEvent { event: Event, is_new: bool },
    DeleteEvent { id: String },
    /// Sync these Google calendars with these credentials.
    GoogleSync { calendars: Vec<Calendar>, client: GoogleClient },
    /// Keep the client credentials in the keyring; the outcome comes back
    /// through [`App::google_credentials_saved`].
    SaveGoogleCredentials { client_id: String, client_secret: String },
    /// Run the browser authorization with these credentials.
    RunOauth { client_id: String, client_secret: String },
    /// Write the loaded events to an .ics file; the outcome comes back through
    /// [`App::export_finished`].
    ExportIcal { events: Vec<Event> },
    /// Hand the loaded events to the reminder task.
    PublishEvents { events: Vec<Event> },
}

/// What background work reports back.
#[derive(Debug)]
pub enum WorkerResult {
    CalendarsLoaded(Vec<Calendar>),
    ProjectsLoaded(Vec<Project>),
    EventsLoaded { from: String, to: String, events: Vec<Event> },
    DependenciesLoaded(Vec<EventDependency>),
    EventSaved(Event),
    EventDeleted(String),
    GoogleSyncComplete { calendar_id: String, events_added: usize, events_updated: usize },
    NotificationScheduled { event_id: String, title: String, minutes_before: i64 },
    Error(String),
    StatusMessage(String),
}

/// The state of the interface.
#[derive(Debug)]
pub struct App {
    pub running: bool,
    pub view: View,
    /// The selected date.
    pub focused_date: CivilDate,
    /// The month whose events are loaded.
    pub view_month: u32,
    pub view_year: i32,
    /// The first hour shown in the week and day views.
    pub week_scroll: i16,
    /// Index into the visible events.
    pub selected_event_index: usize,
    pub calendars: Vec<Calendar>,
    pub projects: Vec<Project>,
    pub events: Vec<Event>,
    pub dependencies: Vec<EventDependency>,
    pub dag: EventDag,
    pub completed_event_ids: Vec<String>,
    pub sidebar_focused: bool,
    pub calendar_list_index: usize,
    /// The event being edited; `None` while creating one.
    pub form_editing_event: Option<Event>,
    pub form_is_new: bool,
    pub form_field_index: usize,
    pub form_fields: Vec<FormField>,
    pub form_title: String,
    pub form_date: String,
    pub form_start_time: String,
    pub form_end_time: String,
    pub form_location: String,
    pub form_description: String,
    pub form_rrule: String,
    pub form_reminder: String,
    pub form_calendar_index: usize,
    /// 0 is no project; `i + 1` is project `i`.
    pub form_project_index: usize,
    pub form_all_day: bool,
    pub form_recurrence_index: usize,
    pub quick_add_input: String,
    pub agenda_scroll: u16,
    pub help_scroll: u16,
    pub google_auth_client_id: String,
    pub google_auth_client_secret: String,
    /// 0 edits the client id, 1 the client secret.
    pub google_auth_field: usize,
    pub google_client: Option<GoogleClient>,
    pub status_message: String,
    pub status_is_error: bool,
    pub loading: bool,
    pub tick_count: u64,
}

/// The frames of the loading spinner.
pub open spec fn spinner_text(i: int) -> Seq<char> {
    if i == 0 {
        "\u{2801}"@
    } else if i == 1 {
        "\u{2809}"@
    } else if i == 2 {
        "\u{2819}"@
    } else if i == 3 {
        "\u{281b}"@
    } else if i == 4 {
        "\u{281e}"@
    } else if i == 5 {
        "\u{2836}"@
    } else if i == 6 {
        "\u{2834}"@
    } else {
        "\u{2824}"@
    }
}

/// The events shown: those of visible calendars that are not deleted, in
/// their order.
pub open spec fn is_shown(cals: Seq<Calendar>, e: Event) -> bool {
    e.deleted_at is None && exists|i: int|
        0 <= i < cals.len() && #[trigger] cals[i].visible && cals[i].id@ == e.calendar_id@
}

/// The position of the first calendar with id `id`, or 0.
pub open spec fn calendar_position(cals: Seq<Calendar>, id: Seq<char>) -> int
    decreases cals.len(),
{
    if cals.len() == 0 {
        0
    } else if cals.last().id@ == id && (forall|k: int|
        0 <= k < cals.len() - 1 ==> #[trigger] cals[k].id@ != id) {
        cals.len() - 1
    } else {
        calendar_position(cals.drop_last(), id)
    }
}

impl App {
    /// The state at start-up on the day `today`, with the stored Google
    /// credentials if there are any; the three loads it starts.
    pub fn new(today: CivilDate, google_client: Option<GoogleClient>) -> (res: (App, Vec<AppEffect>))
        requires
            today.valid(),
        ensures
            res.0.running,
            res.0.view == View::Month,
            res.0.focused_date == today,
            res.0.view_month == today.month,
            res.0.view_year == today.year,
            res.0.week_scroll == 8,
            res.0.form_fields@ == form_field_order(),
            res.0.form_date@ == date_text(today),
            res.0.form_start_time@ == "09:00"@,
            res.0.form_end_time@ == "10:00"@,
            res.0.google_client == google_client,
            res.0.loading,
            res.0.tick_count == 0,
            res.0.selected_event_index == 0,
            res.0.calendars@.len() == 0,
            res.0.projects@.len() == 0,
            res.0.events@.len() == 0,
            res.0.dependencies@.len() == 0,
            res.0.dag.well_formed(),
            res.0.dag@ == Set::<(Seq<char>, Seq<char>)>::empty(),
            res.0.completed_event_ids@.len() == 0,
            !res.0.sidebar_focused,
            res.0.calendar_list_index == 0,
            res.0.form_editing_event is None,
            res.0.form_is_new,
            res.0.form_field_index == 0,
            res.0.form_title@.len() == 0,
            res.0.form_location@.len() == 0,
            res.0.form_description@.len() == 0,
            res.0.form_rrule@.len() == 0,
            res.0.form_reminder@.len() == 0,
            res.0.form_calendar_index == 0,
            res.0.form_project_index == 0,
            !res.0.form_all_day,
            res.0.form_recurrence_index == 0,
            res.0.quick_add_input@.len() == 0,
            res.0.agenda_scroll == 0,
            res.0.help_scroll == 0,
            res.0.google_auth_client_id@.len() == 0,
            res.0.google_auth_client_secret@.len() == 0,
            res.0.google_auth_field == 0,
            res.0.status_message@.len() == 0,
            !res.0.status_is_error,
            res.0.wf(),
            res.1@.len() == 3,
            res.1@[0] is LoadCalendars,
            res.1@[1] is LoadProjects,
            res.1@[2] is LoadDependencies,
    {
        let app = App {
            running: true,
            view: View::Month,
            focused_date: today,
            view_month: today.month,
            view_year: today.year,
            week_scroll: 8,
            selected_event_index: 0,
            calendars: Vec::new(),
            projects: Vec::new(),
            events: Vec::new(),
            dependencies: Vec::new(),
            dag: EventDag::new(),
            completed_event_ids: Vec::new(),
            sidebar_focused: false,
            calendar_list_index: 0,
            form_editing_event: None,
            form_is_new: true,
            form_field_index: 0,
            form_fields: FormField::all(),
            form_title: String::new(),
            form_date: format_date(&today),
            form_start_time: to_owned_string("09:00"),
            form_end_time: to_owned_string("10:00"),
            form_location: String::new(),
            form_description: String::new(),
            form_rrule: String::new(),
            form_reminder: String::new(),
            form_calendar_index: 0,
            form_project_index: 0,
            form_all_day: false,
            form_recurrence_index: 0,
            quick_add_input: String::new(),
            agenda_scroll: 0,
            help_scroll: 0,
            google_auth_client_id: String::new(),
            google_auth_client_secret: String::new(),
            google_auth_field: 0,
            google_client,
            status_message: String::new(),
            status_is_error: false,
            loading: true,
            tick_count: 0,
        };
        (app, vec![AppEffect::LoadCalendars, AppEffect::LoadProjects, AppEffect::LoadDependencies])
    }

    /// Shows `msg` in the status bar.
    pub fn set_status(&mut self, msg: String, is_error: bool)
        ensures
            *final(self) == (App { status_message: msg, status_is_error: is_error, ..*old(self) }),
    {
        self.status_message = msg;
        self.status_is_error = is_error;
    }

    /// The spinner frame for the current tick.
    pub fn spinner_frame(&self) -> (res: &'static str)
        ensures
            res@ == spinner_text((self.tick_count % 8) as int),
    {
        let i = self.tick_count % 8;
        if i == 0 {
            "\u{2801}"
        } else if i == 1 {
            "\u{2809}"
        } else if i == 2 {
            "\u{2819}"
        } else if i == 3 {
            "\u{281b}"
        } else if i == 4 {
            "\u{281e}"
        } else if i == 5 {
            "\u{2836}"
        } else if i == 6 {
            "\u{2834}"
        } else {
            "\u{2824}"
        }
    }

    /// The cursor blinks: shown for two ticks, hidden for two.
    pub fn cursor_visible(&self) -> (res: bool)
        ensures
            res == (self.tick_count % 4 < 2),
    {
        self.tick_count % 4 < 2
    }

    /// The position of the calendar `calendar_id` in the list, or 0.
    pub fn calendar_index_for(&self, calendar_id: &str) -> (res: usize)
        ensures
            res as int == calendar_position(self.calendars@, calendar_id@),
    {
        let mut i: usize = 0;
        while i < self.calendars.len()
            invariant
                i <= self.calendars.len(),
                forall|k: int| 0 <= k < i ==> #[trigger] self.calendars@[k].id@ != calendar_id@,
            decreases self.calendars.len() - i,
        {
            if crate::text::str_eq(self.calendars[i].id.as_str(), calendar_id) {
                proof {
                    lemma_calendar_position(self.calendars@, calendar_id@, i as int);
                }
                return i;
            }
            i += 1;
        }
        proof {
            lemma_calendar_position_absent(self.calendars@, calendar_id@);
        }
        0
    }
}

proof fn lemma_calendar_position(cals: Seq<Calendar>, id: Seq<char>, i: int)
    requires
        0 <= i < cals.len(),
        cals[i].id@ == id,
        forall|k: int| 0 <= k < i ==> #[trigger] cals[k].id@ != id,
    ensures
        calendar_position(cals, id) == i,
    decreases cals.len(),
{
    if i < cals.len() - 1 {
        assert(!(forall|k: int| 0 <= k < cals.len() - 1 ==> #[trigger] cals[k].id@ != id));
        lemma_calendar_position(cals.drop_last(), id, i);
    }
}

proof fn lemma_calendar_position_absent(cals: Seq<Calendar>, id: Seq<char>)
    requires
        forall|k: int| 0 <= k < cals.len() ==> #[trigger] cals[k].id@ != id,
    ensures
        calendar_position(cals, id) == 0,
    decreases cals.len(),
{
    if cals.len() > 0 {
        lemma_calendar_position_absent(cals.drop_last(), id);
    }
}

/// The events behind a sequence of references.
pub open spec fn derefs(s: Seq<&Event>) -> Seq<Event> {
    s.map_values(|e: &Event| *e)
}

/// The events shown, in their order.
pub open spec fn shown_events(cals: Seq<Calendar>, evs: Seq<Event>) -> Seq<Event> {
    evs.filter(|e: Event| is_shown(cals, e))
}

fn is_shown_event(cals: &Vec<Calendar>, e: &Event) -> (res: bool)
    ensures
        res == is_shown(cals@, *e),
{
    if e.deleted_at.is_some() {
        return false;
    }
    let mut i: usize = 0;
    while i < cals.len()
        invariant
            i <= cals.len(),
            e.deleted_at is None,
            forall|k: int| 0 <= k < i ==> !(#[trigger] cals@[k].visible && cals@[k].id@ == e.calendar_id@),
        decreases cals.len() - i,
    {
        if cals[i].visible && cals[i].id == e.calendar_id {
            return true;
        }
        i += 1;
    }
    false
}

impl App {
    /// The events of visible calendars that are not deleted, in order.
    pub fn visible_events(&self) -> (res: Vec<&Event>)
        ensures
            derefs(res@) == shown_events(self.calendars@, self.events@),
    {
        let ghost pred = |e: Event| is_shown(self.calendars@, e);
        let mut out: Vec<&Event> = Vec::new();
        let mut i: usize = 0;
        while i < self.events.len()
            invariant
                i <= self.events.len(),
                pred == (|e: Event| is_shown(self.calendars@, e)),
                derefs(out@) == self.events@.take(i as int).filter(pred),
            decreases self.events.len() - i,
        {
            let e = &self.events[i];
            let ghost o0 = out@;
            assert(self.events@.take(i as int + 1) =~= self.events@.take(i as int).push(*e));
            proof {
                self.events@.take(i as int).lemma_filter_push(*e, pred);
            }
            if is_shown_event(&self.calendars, e) {
                out.push(e);
                assert(derefs(out@) =~= derefs(o0).push(*e));
            }
            i += 1;
        }
        assert(self.events@.take(self.events.len() as int) =~= self.events@);
        out
    }

    /// The selected event among the visible ones.
    pub fn selected_event(&self) -> (res: Option<&Event>)
        ensures
            match res {
                Some(e) => self.selected_event_index < shown_events(self.calendars@, self.events@).len()
                    && *e == shown_events(
                    self.calendars@,
                    self.events@,
                )[self.selected_event_index as int],
                None => self.selected_event_index >= shown_events(self.calendars@, self.events@).len(),
            },
    {
        let visible = self.visible_events();
        if self.selected_event_index < visible.len() {
            Some(visible[self.selected_event_index])
        } else {
            None
        }
    }

    /// The visible events that fall on `date`, in order.
    pub fn events_on_date(&self, date: CivilDate) -> (res: Vec<&Event>)
        ensures
            derefs(res@) == shown_events(self.calendars@, self.events@).filter(
                |e: Event| e.occurs_on_spec(date),
            ),
    {
        let visible = self.visible_events();
        let ghost pred = |e: Event| e.occurs_on_spec(date);
        let mut out: Vec<&Event> = Vec::new();
        let mut i: usize = 0;
        while i < visible.len()
            invariant
                i <= visible.len(),
                pred == (|e: Event| e.occurs_on_spec(date)),
                derefs(out@) == derefs(visible@).take(i as int).filter(pred),
            decreases visible.len() - i,
        {
            let e = visible[i];
            let ghost o0 = out@;
            assert(derefs(visible@).take(i as int + 1) =~= derefs(visible@).take(i as int).push(*e));
            proof {
                derefs(visible@).take(i as int).lemma_filter_push(*e, pred);
            }
            if e.occurs_on(date) {
                out.push(e);
                assert(derefs(out@) =~= derefs(o0).push(*e));
            }
            i += 1;
        }
        assert(derefs(visible@).take(visible.len() as int) =~= derefs(visible@));
        out
    }
}

/// The number of days of month `month` of `year` as chrono finds it: the day
/// before the first of the next month, or 30 where chrono has no such dates.
pub open spec fn month_length(year: i32, month: u32) -> int {
    let next = if month == 12 {
        first_of_month(year + 1, 1)
    } else {
        first_of_month(year as int, month + 1)
    };
    match next {
        Some(f) => match prev_date(f) {
            Some(p) => p.day as int,
            None => 30,
        },
        None => 30,
    }
}

/// The number of days in a month.
pub fn days_in_month(year: i32, month: u32) -> (res: u32)
    requires
        month == 12 ==> year < i32::MAX,
        month != 12 ==> month < u32::MAX,
    ensures
        res == month_length(year, month),
{
    let next_year = if month == 12 {
        year + 1
    } else {
        year
    };
    let next_month = if month == 12 {
        1
    } else {
        month + 1
    };
    if MIN_YEAR <= next_year && next_year <= MAX_YEAR && 1 <= next_month && next_month <= 12 {
        let first = CivilDate { year: next_year, month: next_month, day: 1 };
        match pred_date(first) {
            Some(p) => p.day,
            None => 30,
        }
    } else {
        30
    }
}

/// The calendar date `(year, month, day)`, when chrono holds it.
pub open spec fn ymd(year: int, month: int, day: int) -> Option<CivilDate> {
    if MIN_YEAR <= year <= MAX_YEAR && 1 <= month <= 12 && 1 <= day <= days_in_month_spec(year, month) {
        Some(CivilDate { year: year as i32, month: month as u32, day: day as u32 })
    } else {
        None
    }
}


/// The selected date's month is not the loaded one.
pub open spec fn needs_reload(a: App) -> bool {
    a.focused_date.month != a.view_month || a.focused_date.year != a.view_year
}

/// The state after the loaded month has been brought to the selected date.
pub open spec fn reloaded(a: App) -> App {
    if needs_reload(a) {
        App { view_month: a.focused_date.month, view_year: a.focused_date.year, loading: true, ..a }
    } else {
        a
    }
}

/// `res` is the load that bringing the loaded month to the selected date of
/// `a` starts, if any.
pub open spec fn loads_month(res: Option<AppEffect>, a: App) -> bool {
    if needs_reload(a) {
        res matches Some(AppEffect::LoadEvents { year, month }) && year == a.focused_date.year
            && month == a.focused_date.month
    } else {
        res is None
    }
}

/// The state after the loaded month moved by `delta` months: the selected
/// date keeps its day, cut to the new month's length, where chrono has that
/// date.
pub open spec fn month_shifted(a: App, delta: int) -> App {
    let t = a.view_month - 1 + delta;
    let year = a.view_year + t / 12;
    let month = t % 12 + 1;
    let len = month_length(year as i32, month as u32);
    let day = if a.focused_date.day <= len {
        a.focused_date.day as int
    } else {
        len
    };
    App {
        view_month: month as u32,
        view_year: year as i32,
        focused_date: match ymd(year, month, day) {
            Some(d) => d,
            None => a.focused_date,
        },
        ..a
    }
}

/// The state with the selected date moved by `n` days.
pub open spec fn days_moved(a: App, n: int) -> App {
    App { focused_date: shift_days(a.focused_date, n).unwrap(), ..a }
}

impl App {
    /// The invariant of the interface's state.
    pub open spec fn wf(self) -> bool {
        &&& self.focused_date.valid()
        &&& 1 <= self.view_month <= 12
        &&& self.form_fields@ == form_field_order()
    }

    /// Shows `view`, moving the focus off the sidebar.
    pub fn switch_view(&mut self, view: View)
        ensures
            *final(self) == (App { view, sidebar_focused: false, ..*old(self) }),
    {
        self.view = view;
        self.sidebar_focused = false;
    }

    /// Loads the month of the selected date when it is not the loaded one.
    pub fn reload_events_if_needed(&mut self) -> (res: Option<AppEffect>)
        ensures
            *final(self) == reloaded(*old(self)),
            loads_month(res, *old(self)),
    {
        if self.focused_date.month != self.view_month || self.focused_date.year != self.view_year {
            self.view_month = self.focused_date.month;
            self.view_year = self.focused_date.year;
            self.loading = true;
            return Some(AppEffect::LoadEvents { year: self.view_year, month: self.view_month });
        }
        None
    }

    /// Moves the loaded month by `delta` months, keeping the day of the
    /// selected date where the new month has it.
    pub fn shift_month(&mut self, delta: i32)
        requires
            old(self).wf(),
            old(self).view_month + delta <= i32::MAX,
            i32::MIN <= old(self).view_year + (old(self).view_month - 1 + delta) / 12,
            old(self).view_year + (old(self).view_month - 1 + delta) / 12 <= i32::MAX,
            (old(self).view_month - 1 + delta) % 12 == 11 ==> old(self).view_year + (old(
                self,
            ).view_month - 1 + delta) / 12 < i32::MAX,
        ensures
            final(self).wf(),
            *final(self) == month_shifted(*old(self), delta as int),
    {
        let t: i64 = self.view_month as i64 - 1 + delta as i64;
        let q: i64 = if t >= 0 {
            t / 12
        } else {
            0 - ((0 - t + 11) / 12)
        };
        let r: i64 = t - 12 * q;
        proof {
            let ti: int = t as int;
            let qi: int = q as int;
            if t < 0 {
                assert(0 <= ti - 12 * qi < 12) by (nonlinear_arith)
                    requires
                        ti < 0,
                        qi == 0 - ((0 - ti + 11) / 12),
                ;
            } else {
                assert(0 <= ti - 12 * qi < 12) by (nonlinear_arith)
                    requires
                        ti >= 0,
                        qi == ti / 12,
                ;
            }
            assert(qi == ti / 12) by (nonlinear_arith)
                requires
                    0 <= ti - 12 * qi < 12,
            ;
        }
        let month: i64 = r + 1;
        let year: i64 = self.view_year as i64 + q;
        let year = year as i32;
        let month = month as u32;
        self.view_month = month;
        self.view_year = year;
        let dim = days_in_month(year, month);
        let day = if self.focused_date.day <= dim {
            self.focused_date.day
        } else {
            dim
        };
        if MIN_YEAR <= year && year <= MAX_YEAR && 1 <= day && day <= days_in_month_of(year, month) {
            self.focused_date = CivilDate { year, month, day };
        }
    }
}

/// Moving the loaded month by `delta` months stays within chrono's years.
pub open spec fn month_shift_ok(a: App, delta: int) -> bool {
    let t = a.view_month - 1 + delta;
    &&& a.view_month + delta <= i32::MAX
    &&& i32::MIN <= a.view_year + t / 12 <= i32::MAX
    &&& t % 12 == 11 ==> a.view_year + t / 12 < i32::MAX
}

/// The state after moving to the previous (`forward` false) or next month,
/// week or day, before the loaded month follows.
pub open spec fn period_moved(a: App, forward: bool) -> App {
    let sign = if forward {
        1int
    } else {
        -1int
    };
    match a.view {
        View::Month => month_shifted(a, sign),
        View::Week => days_moved(a, 7 * sign),
        View::Day => days_moved(a, sign),
        _ => a,
    }
}

/// Moving by a period is defined: the dates stay within chrono's range.
pub open spec fn period_ok(a: App, forward: bool) -> bool {
    let sign = if forward {
        1int
    } else {
        -1int
    };
    match a.view {
        View::Month => month_shift_ok(a, sign),
        View::Week => shift_days(a.focused_date, 7 * sign) is Some,
        View::Day => shift_days(a.focused_date, sign) is Some,
        _ => true,
    }
}

/// The state after moving up (`forward` false) or down one unit: a week in
/// the month view, an event or an hour in the week and day views, a line in
/// the agenda; `shown` is the number of visible events.
pub open spec fn unit_moved(a: App, forward: bool, shown: int) -> App {
    match a.view {
        View::Month => days_moved(
            a,
            if forward {
                7
            } else {
                -7
            },
        ),
        View::Week | View::Day => if forward {
            if a.selected_event_index + 1 < shown {
                App { selected_event_index: (a.selected_event_index + 1) as usize, ..a }
            } else if a.week_scroll < 18 {
                App { week_scroll: (a.week_scroll + 1) as i16, ..a }
            } else {
                a
            }
        } else {
            if a.selected_event_index > 0 {
                App { selected_event_index: (a.selected_event_index - 1) as usize, ..a }
            } else if a.week_scroll > 0 {
                App { week_scroll: (a.week_scroll - 1) as i16, ..a }
            } else {
                a
            }
        },
        View::Agenda => App {
            agenda_scroll: if forward {
                if a.agenda_scroll < u16::MAX {
                    (a.agenda_scroll + 1) as u16
                } else {
                    u16::MAX
                }
            } else {
                if a.agenda_scroll > 0 {
                    (a.agenda_scroll - 1) as u16
                } else {
                    0
                }
            },
            ..a
        },
        _ => a,
    }
}

pub open spec fn unit_ok(a: App, forward: bool) -> bool {
    a.view == View::Month ==> shift_days(
        a.focused_date,
        if forward {
            7
        } else {
            -7
        },
    ) is Some
}

/// `x` moved by `d` and kept within 0 and `u16::MAX`.
pub open spec fn saturating_shift(x: u16, d: int) -> u16 {
    if x + d < 0 {
        0
    } else if x + d > u16::MAX {
        u16::MAX
    } else {
        (x + d) as u16
    }
}

/// The state after scrolling by `d` lines (`d` is 1, -1, 10 or -10 for the
/// wheel and the page keys; `page` marks the page keys, which leave the week
/// and day views alone).
pub open spec fn scrolled(a: App, d: int, page: bool) -> App {
    match a.view {
        View::Help => App { help_scroll: saturating_shift(a.help_scroll, d), ..a },
        View::Agenda => App { agenda_scroll: saturating_shift(a.agenda_scroll, d), ..a },
        View::Week | View::Day => if page {
            a
        } else if d < 0 {
            if a.week_scroll > 0 {
                App { week_scroll: (a.week_scroll - 1) as i16, ..a }
            } else {
                a
            }
        } else {
            if a.week_scroll < 20 {
                App { week_scroll: (a.week_scroll + 1) as i16, ..a }
            } else {
                a
            }
        },
        _ => a,
    }
}

/// The state after Escape: popups and the sidebar give way to the month view.
pub open spec fn escaped(a: App) -> App {
    match a.view {
        View::Help | View::EventForm | View::QuickAdd | View::GoogleAuth => App {
            view: View::Month,
            ..a
        },
        View::CalendarList => App { sidebar_focused: false, view: View::Month, ..a },
        _ => a,
    }
}

fn saturating_add_u16(x: u16, d: u16) -> (res: u16)
    ensures
        res == saturating_shift(x, d as int),
{
    if x as u32 + d as u32 > u16::MAX as u32 {
        u16::MAX
    } else {
        x + d
    }
}

fn saturating_sub_u16(x: u16, d: u16) -> (res: u16)
    ensures
        res == saturating_shift(x, -(d as int)),
{
    if x < d {
        0
    } else {
        x - d
    }
}

impl App {
    fn move_focused_days(&mut self, n: i64)
        requires
            old(self).wf(),
            shift_days(old(self).focused_date, n as int) is Some,
        ensures
            *final(self) == days_moved(*old(self), n as int),
            final(self).wf(),
    {
        match add_days(self.focused_date, n) {
            Some(d) => self.focused_date = d,
            None => {},
        }
    }

    /// Moves to the previous (`forward` false) or next month, week or day.
    fn move_period(&mut self, forward: bool) -> (res: Option<AppEffect>)
        requires
            old(self).wf(),
            period_ok(*old(self), forward),
        ensures
            final(self).wf(),
            *final(self) == reloaded(period_moved(*old(self), forward)),
            loads_month(res, period_moved(*old(self), forward)),
    {
        match self.view {
            View::Month => self.shift_month(if forward {
                1
            } else {
                -1
            }),
            View::Week => self.move_focused_days(if forward {
                7
            } else {
                -7
            }),
            View::Day => self.move_focused_days(if forward {
                1
            } else {
                -1
            }),
            _ => {},
        }
        self.reload_events_if_needed()
    }

    /// Moves up or down one unit in the current view.
    fn move_unit(&mut self, forward: bool)
        requires
            old(self).wf(),
            unit_ok(*old(self), forward),
        ensures
            final(self).wf(),
            *final(self) == unit_moved(
                *old(self),
                forward,
                shown_events(old(self).calendars@, old(self).events@).len() as int,
            ),
    {
        match self.view {
            View::Month => self.move_focused_days(if forward {
                7
            } else {
                -7
            }),
            View::Week | View::Day => {
                if forward {
                    let count = self.visible_events().len();
                    if self.selected_event_index < count && count - self.selected_event_index > 1 {
                        self.selected_event_index += 1;
                    } else if self.week_scroll < 18 {
                        self.week_scroll += 1;
                    }
                } else {
                    if self.selected_event_index > 0 {
                        self.selected_event_index -= 1;
                    } else if self.week_scroll > 0 {
                        self.week_scroll -= 1;
                    }
                }
            },
            View::Agenda => {
                self.agenda_scroll = if forward {
                    saturating_add_u16(self.agenda_scroll, 1)
                } else {
                    saturating_sub_u16(self.agenda_scroll, 1)
                };
            },
            _ => {},
        }
    }

    /// Scrolls by `d` lines.
    fn scroll(&mut self, d: i16, page: bool)
        requires
            d == 1 || d == -1 || d == 10 || d == -10,
        ensures
            *final(self) == scrolled(*old(self), d as int, page),
    {
        match self.view {
            View::Help => {
                self.help_scroll = if d > 0 {
                    saturating_add_u16(self.help_scroll, d as u16)
                } else {
                    saturating_sub_u16(self.help_scroll, (0 - d) as u16)
                };
            },
            View::Agenda => {
                self.agenda_scroll = if d > 0 {
                    saturating_add_u16(self.agenda_scroll, d as u16)
                } else {
                    saturating_sub_u16(self.agenda_scroll, (0 - d) as u16)
                };
            },
            View::Week | View::Day => {
                if !page {
                    if d < 0 {
                        if self.week_scroll > 0 {
                            self.week_scroll -= 1;
                        }
                    } else if self.week_scroll < 20 {
                        self.week_scroll += 1;
                    }
                }
            },
            _ => {},
        }
    }

    /// Escape: popups and the sidebar give way to the month view.
    pub fn handle_escape(&mut self)
        ensures
            *final(self) == escaped(*old(self)),
    {
        match self.view {
            View::Help | View::EventForm | View::QuickAdd | View::GoogleAuth => {
                self.view = View::Month;
            },
            View::CalendarList => {
                self.sidebar_focused = false;
                self.view = View::Month;
            },
            _ => {},
        }
    }

    /// Selects `today` and loads its month.
    fn jump_today(&mut self, today: CivilDate) -> (res: Option<AppEffect>)
        requires
            today.valid(),
        ensures
            *final(self) == (App {
                focused_date: today,
                view_month: today.month,
                view_year: today.year,
                ..*old(self)
            }),
            res is None,
    {
        self.focused_date = today;
        self.view_month = today.month;
        self.view_year = today.year;
        self.reload_events_if_needed()
    }
}

/// The text of a text field of the form (empty for the other fields).
pub open spec fn field_text(a: App, f: FormField) -> Seq<char> {
    match f {
        FormField::Title => a.form_title@,
        FormField::Date => a.form_date@,
        FormField::StartTime => a.form_start_time@,
        FormField::EndTime => a.form_end_time@,
        FormField::Location => a.form_location@,
        FormField::Description => a.form_description@,
        FormField::Recurrence => a.form_rrule@,
        FormField::Reminder => a.form_reminder@,
        _ => Seq::empty(),
    }
}

/// Fields typed as free text.
pub open spec fn is_text_field(f: FormField) -> bool {
    f == FormField::Title || f == FormField::Date || f == FormField::StartTime || f
        == FormField::EndTime || f == FormField::Location || f == FormField::Description || f
        == FormField::Recurrence || f == FormField::Reminder
}

/// `b` is `a` with the text of field `f` replaced by `t`.
pub open spec fn with_field_text(a: App, b: App, f: FormField, t: Seq<char>) -> bool {
    &&& field_text(b, f) == t
    &&& match f {
        FormField::Title => b == (App { form_title: b.form_title, ..a }),
        FormField::Date => b == (App { form_date: b.form_date, ..a }),
        FormField::StartTime => b == (App { form_start_time: b.form_start_time, ..a }),
        FormField::EndTime => b == (App { form_end_time: b.form_end_time, ..a }),
        FormField::Location => b == (App { form_location: b.form_location, ..a }),
        FormField::Description => b == (App { form_description: b.form_description, ..a }),
        FormField::Recurrence => b == (App { form_rrule: b.form_rrule, ..a }),
        FormField::Reminder => b == (App { form_reminder: b.form_reminder, ..a }),
        _ => b == a,
    }
}

/// The field that has the focus.
pub open spec fn active_field(a: App) -> Option<FormField> {
    if a.form_field_index < a.form_fields@.len() {
        Some(a.form_fields@[a.form_field_index as int])
    } else {
        None
    }
}

/// `b` is `a` after `c` was typed into the focused field: text fields grow
/// (the reminder takes digits only), `+`/`l` and `-`/`h` step through the
/// calendars and projects, and a space flips the all-day box.
pub open spec fn char_typed(a: App, b: App, c: char) -> bool {
    match active_field(a) {
        Some(f) => if is_text_field(f) {
            if f == FormField::Reminder && !('0' <= c <= '9') {
                b == a
            } else {
                with_field_text(a, b, f, field_text(a, f).push(c))
            }
        } else if f == FormField::Calendar {
            if (c == '+' || c == 'l') && a.form_calendar_index + 1 < a.calendars@.len() {
                b == (App { form_calendar_index: (a.form_calendar_index + 1) as usize, ..a })
            } else if (c == '-' || c == 'h') && !(c == '+' || c == 'l') && a.form_calendar_index > 0 {
                b == (App { form_calendar_index: (a.form_calendar_index - 1) as usize, ..a })
            } else {
                b == a
            }
        } else if f == FormField::Project {
            if (c == '+' || c == 'l') && a.form_project_index + 1 <= a.projects@.len() {
                b == (App { form_project_index: (a.form_project_index + 1) as usize, ..a })
            } else if (c == '-' || c == 'h') && !(c == '+' || c == 'l') && a.form_project_index > 0 {
                b == (App { form_project_index: (a.form_project_index - 1) as usize, ..a })
            } else {
                b == a
            }
        } else if f == FormField::AllDay && c == ' ' {
            b == (App { form_all_day: !a.form_all_day, ..a })
        } else {
            b == a
        },
        None => b == a,
    }
}

/// The text without its last character (unchanged when empty).
pub open spec fn popped(t: Seq<char>) -> Seq<char> {
    if t.len() > 0 {
        t.drop_last()
    } else {
        t
    }
}

/// `b` is `a` after Backspace in the focused field.
pub open spec fn char_erased(a: App, b: App) -> bool {
    match active_field(a) {
        Some(f) => if is_text_field(f) {
            with_field_text(a, b, f, popped(field_text(a, f)))
        } else {
            b == a
        },
        None => b == a,
    }
}

fn pop_last(s: &mut String)
    ensures
        final(s)@ == popped(old(s)@),
{
    let n = s.as_str().unicode_len();
    if n > 0 {
        let t = to_owned_string(s.as_str().substring_char(0, n - 1));
        assert(t@ =~= old(s)@.drop_last());
        *s = t;
    }
}

impl App {
    /// Types `c` into the focused field of the event form.
    pub fn form_active_field_push(&mut self, c: char)
        ensures
            char_typed(*old(self), *final(self), c),
    {
        let f = if self.form_field_index < self.form_fields.len() {
            Some(self.form_fields[self.form_field_index])
        } else {
            None
        };
        match f {
            Some(FormField::Title) => push_char(&mut self.form_title, c),
            Some(FormField::Date) => push_char(&mut self.form_date, c),
            Some(FormField::StartTime) => push_char(&mut self.form_start_time, c),
            Some(FormField::EndTime) => push_char(&mut self.form_end_time, c),
            Some(FormField::Location) => push_char(&mut self.form_location, c),
            Some(FormField::Description) => push_char(&mut self.form_description, c),
            Some(FormField::Recurrence) => push_char(&mut self.form_rrule, c),
            Some(FormField::Reminder) => {
                if '0' <= c && c <= '9' {
                    push_char(&mut self.form_reminder, c);
                }
            },
            Some(FormField::Calendar) => {
                if c == '+' || c == 'l' {
                    if self.form_calendar_index < self.calendars.len() && self.calendars.len()
                        - self.form_calendar_index > 1 {
                        self.form_calendar_index += 1;
                    }
                } else if c == '-' || c == 'h' {
                    if self.form_calendar_index > 0 {
                        self.form_calendar_index -= 1;
                    }
                }
            },
            Some(FormField::Project) => {
                if c == '+' || c == 'l' {
                    if self.form_project_index < self.projects.len() {
                        self.form_project_index += 1;
                    }
                } else if c == '-' || c == 'h' {
                    if self.form_project_index > 0 {
                        self.form_project_index -= 1;
                    }
                }
            },
            Some(FormField::AllDay) => {
                if c == ' ' {
                    self.form_all_day = !self.form_all_day;
                }
            },
            None => {},
        }
    }

    /// Erases the last character of the focused text field.
    pub fn form_active_field_pop(&mut self)
        ensures
            char_erased(*old(self), *final(self)),
    {
        let f = if self.form_field_index < self.form_fields.len() {
            Some(self.form_fields[self.form_field_index])
        } else {
            None
        };
        match f {
            Some(FormField::Title) => pop_last(&mut self.form_title),
            Some(FormField::Date) => pop_last(&mut self.form_date),
            Some(FormField::StartTime) => pop_last(&mut self.form_start_time),
            Some(FormField::EndTime) => pop_last(&mut self.form_end_time),
            Some(FormField::Location) => pop_last(&mut self.form_location),
            Some(FormField::Description) => pop_last(&mut self.form_description),
            Some(FormField::Recurrence) => pop_last(&mut self.form_rrule),
            Some(FormField::Reminder) => pop_last(&mut self.form_reminder),
            _ => {},
        }
    }

    /// Moves the focus to the next field of the form, stopping at the last.
    pub fn form_next_field(&mut self)
        ensures
            *final(self) == (App {
                form_field_index: if old(self).form_field_index + 1 < old(self).form_fields@.len() {
                    (old(self).form_field_index + 1) as usize
                } else {
                    old(self).form_field_index
                },
                ..*old(self)
            }),
    {
        if self.form_field_index < self.form_fields.len() && self.form_fields.len()
            - self.form_field_index > 1 {
            self.form_field_index += 1;
        }
    }

    /// Moves the focus to the previous field of the form, stopping at the
    /// first.
    pub fn form_prev_field(&mut self)
        ensures
            *final(self) == (App {
                form_field_index: if old(self).form_field_index > 0 {
                    (old(self).form_field_index - 1) as usize
                } else {
                    0
                },
                ..*old(self)
            }),
    {
        if self.form_field_index > 0 {
            self.form_field_index -= 1;
        }
    }
}

/// The position of the first project with id `id`, or -1.
pub open spec fn project_position(projs: Seq<Project>, id: Seq<char>) -> int
    decreases projs.len(),
{
    if projs.len() == 0 {
        -1
    } else if projs[0].id@ == id {
        0
    } else {
        let r = project_position(projs.drop_first(), id);
        if r < 0 {
            -1
        } else {
            r + 1
        }
    }
}

fn find_project(projs: &Vec<Project>, id: &String) -> (res: usize)
    ensures
        res == project_position(projs@, id@) + 1,
{
    let mut i: usize = 0;
    assert(projs@.skip(0) =~= projs@);
    while i < projs.len()
        invariant
            i <= projs.len(),
            project_position(projs@, id@) == if project_position(projs@.skip(i as int), id@) < 0 {
                -1
            } else {
                project_position(projs@.skip(i as int), id@) + i
            },
        decreases projs.len() - i,
    {
        assert(projs@.skip(i as int)[0] == projs@[i as int]);
        assert(projs@.skip(i as int).drop_first() =~= projs@.skip(i as int + 1));
        if projs[i].id == *id {
            return i + 1;
        }
        i += 1;
    }
    assert(projs@.skip(i as int).len() == 0);
    0
}

/// The event's times can be cut as the form reads them: bytes 0 to 10 of the
/// start for the date, and bytes 11 to 16 of the start and end for the times
/// where they are at least 16 bytes long.
pub open spec fn form_sliceable(ev: Event) -> bool {
    &&& on_char_boundary(ev.start_at@, 10)
    &&& utf8_len(ev.start_at@) >= 16 ==> on_char_boundary(ev.start_at@, 11) && on_char_boundary(
        ev.start_at@,
        16,
    )
    &&& utf8_len(ev.end_at@) >= 16 ==> on_char_boundary(ev.end_at@, 11) && on_char_boundary(
        ev.end_at@,
        16,
    )
}

/// The `HH:MM` part of a stored time, or `fallback` when it is shorter than 16
/// bytes.
pub open spec fn time_part(stored: Seq<char>, fallback: Seq<char>) -> Seq<char> {
    if utf8_len(stored) >= 16 {
        byte_slice(stored, 11, 16)
    } else {
        fallback
    }
}

/// An optional text, empty when absent.
pub open spec fn text_or_empty(o: Option<String>) -> Seq<char> {
    match o {
        Some(s) => s@,
        None => Seq::empty(),
    }
}

/// `b` is `a` with the event form opened: empty for a new event on the
/// selected date, or filled from `ev`.
pub open spec fn form_opened(a: App, b: App, ev: Option<Event>) -> bool {
    &&& b == (App {
        form_title: b.form_title,
        form_date: b.form_date,
        form_start_time: b.form_start_time,
        form_end_time: b.form_end_time,
        form_location: b.form_location,
        form_description: b.form_description,
        form_rrule: b.form_rrule,
        form_reminder: b.form_reminder,
        form_is_new: ev is None,
        form_editing_event: ev,
        form_all_day: b.form_all_day,
        form_calendar_index: b.form_calendar_index,
        form_project_index: b.form_project_index,
        form_recurrence_index: b.form_recurrence_index,
        form_field_index: 0,
        view: View::EventForm,
        ..a
    })
    &&& match ev {
        None => {
            &&& b.form_title@ == Seq::<char>::empty()
            &&& b.form_date@ == date_text(a.focused_date)
            &&& b.form_start_time@ == "09:00"@
            &&& b.form_end_time@ == "10:00"@
            &&& b.form_location@ == Seq::<char>::empty()
            &&& b.form_description@ == Seq::<char>::empty()
            &&& b.form_rrule@ == Seq::<char>::empty()
            &&& b.form_reminder@ == "15"@
            &&& !b.form_all_day
            &&& b.form_calendar_index == 0
            &&& b.form_project_index == 0
            &&& b.form_recurrence_index == 0
        },
        Some(e) => {
            &&& b.form_title == e.title
            &&& b.form_date@ == byte_slice(e.start_at@, 0, 10)
            &&& b.form_start_time@ == time_part(e.start_at@, "09:00"@)
            &&& b.form_end_time@ == time_part(e.end_at@, "10:00"@)
            &&& b.form_location@ == text_or_empty(e.location)
            &&& b.form_description@ == text_or_empty(e.description)
            &&& b.form_rrule@ == text_or_empty(e.rrule)
            &&& b.form_reminder@ == match e.reminder_minutes {
                Some(m) => int_dec_seq(m as int),
                None => Seq::empty(),
            }
            &&& b.form_all_day == e.all_day
            &&& b.form_calendar_index == calendar_position(a.calendars@, e.calendar_id@)
            &&& b.form_project_index == match e.project_id {
                Some(p) => project_position(a.projects@, p@) + 1,
                None => 0,
            }
            &&& b.form_recurrence_index == a.form_recurrence_index
        },
    }
}

fn clone_or_empty(o: &Option<String>) -> (res: String)
    ensures
        res@ == text_or_empty(*o),
{
    match o {
        Some(s) => s.clone(),
        None => String::new(),
    }
}

fn time_part_of(stored: &String, fallback: &str) -> (res: String)
    requires
        utf8_len(stored@) >= 16 ==> on_char_boundary(stored@, 11) && on_char_boundary(stored@, 16),
    ensures
        res@ == time_part(stored@, fallback@),
{
    if crate::text::utf8_len_at_least(stored.as_str(), 16) {
        crate::text::byte_slice_str(stored.as_str(), 11, 16)
    } else {
        to_owned_string(fallback)
    }
}

impl App {
    /// Opens the event form, empty for a new event or filled from `event`.
    pub fn open_event_form(&mut self, event: Option<&Event>)
        requires
            old(self).wf(),
            event matches Some(e) ==> form_sliceable(*e),
        ensures
            final(self).wf(),
            form_opened(
                *old(self),
                *final(self),
                match event {
                    Some(e) => Some(*e),
                    None => None,
                },
            ),
    {
        match event {
            None => {
                self.form_is_new = true;
                self.form_editing_event = None;
                self.form_title = String::new();
                self.form_date = format_date(&self.focused_date);
                self.form_start_time = to_owned_string("09:00");
                self.form_end_time = to_owned_string("10:00");
                self.form_location = String::new();
                self.form_description = String::new();
                self.form_rrule = String::new();
                self.form_reminder = to_owned_string("15");
                self.form_all_day = false;
                self.form_calendar_index = 0;
                self.form_project_index = 0;
                self.form_recurrence_index = 0;
            },
            Some(ev) => {
                self.form_is_new = false;
                self.form_editing_event = Some(ev.clone_event());
                self.form_title = ev.title.clone();
                proof {
                    crate::text::lemma_boundary_zero(ev.start_at@);
                }
                self.form_date = crate::text::byte_slice_str(ev.start_at.as_str(), 0, 10);
                self.form_start_time = time_part_of(&ev.start_at, "09:00");
                self.form_end_time = time_part_of(&ev.end_at, "10:00");
                self.form_location = clone_or_empty(&ev.location);
                self.form_description = clone_or_empty(&ev.description);
                self.form_rrule = clone_or_empty(&ev.rrule);
                self.form_reminder = match ev.reminder_minutes {
                    Some(m) => {
                        let mut t = String::new();
                        push_int_dec(&mut t, m);
                        assert(t@ =~= int_dec_seq(m as int));
                        t
                    },
                    None => String::new(),
                };
                self.form_all_day = ev.all_day;
                self.form_calendar_index = self.calendar_index_for(ev.calendar_id.as_str());
                self.form_project_index = match &ev.project_id {
                    Some(pid) => find_project(&self.projects, pid),
                    None => 0,
                };
            },
        }
        self.form_field_index = 0;
        self.view = View::EventForm;
    }
}

/// A text field as an optional value: `None` when empty.
pub open spec fn optional_text(t: Seq<char>) -> Option<Seq<char>> {
    if t.len() == 0 {
        None
    } else {
        Some(t)
    }
}

/// The id of the calendar the form has selected; empty when there is none.
pub open spec fn form_calendar_id(a: App) -> Seq<char> {
    if a.form_calendar_index < a.calendars@.len() {
        a.calendars@[a.form_calendar_index as int].id@
    } else {
        Seq::empty()
    }
}

/// `ev` is the event the form describes: the edited event, or a new one,
/// with every field the form shows taken from it.
pub open spec fn form_event(a: App, ev: Event) -> bool {
    &&& match a.form_editing_event {
        Some(e) => {
            &&& ev.id == e.id
            &&& ev.google_id == e.google_id
            &&& ev.google_etag == e.google_etag
            &&& ev.timezone == e.timezone
            &&& ev.created_at == e.created_at
            &&& ev.updated_at == e.updated_at
            &&& ev.deleted_at == e.deleted_at
        },
        None => {
            &&& ev.id@.len() == 36
            &&& ev.google_id is None
            &&& ev.google_etag is None
            &&& ev.timezone@ == "UTC"@
            &&& ev.created_at == ev.updated_at
            &&& ev.deleted_at is None
        },
    }
    &&& ev.calendar_id@ == form_calendar_id(a)
    &&& ev.title == a.form_title
    &&& ev.start_at@ == a.form_date@ + " "@ + a.form_start_time@ + ":00"@
    &&& ev.end_at@ == a.form_date@ + " "@ + a.form_end_time@ + ":00"@
    &&& ev.all_day == a.form_all_day
    &&& opt_view(ev.location) == optional_text(a.form_location@)
    &&& opt_view(ev.description) == optional_text(a.form_description@)
    &&& opt_view(ev.rrule) == optional_text(a.form_rrule@)
    &&& ev.reminder_minutes == match parsed_i64(a.form_reminder@) {
        Some(v) => Some(v as i64),
        None => None,
    }
    &&& opt_view(ev.project_id) == if a.form_project_index == 0 || a.form_project_index - 1
        >= a.projects@.len() {
        None
    } else {
        Some(a.projects@[a.form_project_index - 1].id@)
    }
}

/// `b` and `res` are what submitting the form of `a` gives: an error in the
/// status bar when the title is blank or no calendar is selected, else the
/// event to store.
pub open spec fn form_submitted(a: App, b: App, res: Option<AppEffect>) -> bool {
    if trim_seq(a.form_title@).len() == 0 {
        b == (App { status_message: b.status_message, status_is_error: true, ..a })
            && b.status_message@ == "Title cannot be empty."@ && res is None
    } else if form_calendar_id(a).len() == 0 {
        b == (App { status_message: b.status_message, status_is_error: true, ..a })
            && b.status_message@ == "No calendar selected."@ && res is None
    } else {
        b == (App { loading: true, ..a }) && (res matches Some(AppEffect::SaveEvent { event, is_new })
            && is_new == a.form_is_new && form_event(a, event))
    }
}

fn optional_of(t: &String) -> (res: Option<String>)
    ensures
        opt_view(res) == optional_text(t@),
{
    if t.as_str().unicode_len() == 0 {
        None
    } else {
        Some(t.clone())
    }
}

fn timestamp_text(date: &String, time: &String) -> (res: String)
    ensures
        res@ == date@ + " "@ + time@ + ":00"@,
{
    let mut out = date.clone();
    out.append(" ");
    out.append(time.as_str());
    out.append(":00");
    out
}

impl App {
    /// Stores the event the form describes.
    pub fn form_submit(&mut self) -> (res: Option<AppEffect>)
        ensures
            form_submitted(*old(self), *final(self), res),
    {
        if is_blank(self.form_title.as_str()) {
            self.set_status(to_owned_string("Title cannot be empty."), true);
            return None;
        }
        let cal_id = if self.form_calendar_index < self.calendars.len() {
            self.calendars[self.form_calendar_index].id.clone()
        } else {
            String::new()
        };
        if cal_id.as_str().unicode_len() == 0 {
            self.set_status(to_owned_string("No calendar selected."), true);
            return None;
        }
        let start_at = timestamp_text(&self.form_date, &self.form_start_time);
        let end_at = timestamp_text(&self.form_date, &self.form_end_time);
        let mut event = match &self.form_editing_event {
            Some(existing) => existing.clone_event(),
            None => Event::new(
                cal_id.clone(),
                self.form_title.clone(),
                start_at.clone(),
                end_at.clone(),
                to_owned_string("UTC"),
            ),
        };
        event.calendar_id = cal_id;
        event.title = self.form_title.clone();
        event.start_at = start_at;
        event.end_at = end_at;
        event.all_day = self.form_all_day;
        event.location = optional_of(&self.form_location);
        event.description = optional_of(&self.form_description);
        event.rrule = optional_of(&self.form_rrule);
        event.reminder_minutes = parse_i64(self.form_reminder.as_str());
        event.project_id = if self.form_project_index == 0 {
            None
        } else if self.form_project_index - 1 < self.projects.len() {
            Some(self.projects[self.form_project_index - 1].id.clone())
        } else {
            None
        };
        self.loading = true;
        Some(AppEffect::SaveEvent { event, is_new: self.form_is_new })
    }
}

proof fn lemma_time_text_injective(date: Seq<char>, x: Seq<char>, y: Seq<char>)
    requires
        date + " "@ + x + ":00"@ == date + " "@ + y + ":00"@,
    ensures
        x == y,
{
    let sx = date + " "@ + x + ":00"@;
    let sy = date + " "@ + y + ":00"@;
    assert(" "@.len() == 1 && ":00"@.len() == 3) by {
        reveal_strlit(" ");
        reveal_strlit(":00");
    }
    assert(sx.len() == date.len() + 1 + x.len() + 3);
    assert(sy.len() == date.len() + 1 + y.len() + 3);
    assert(x.len() == y.len());
    let k: int = date.len() as int + 1;
    assert(sx.subrange(k, k + x.len() as int) =~= x);
    assert(sy.subrange(k, k + y.len() as int) =~= y);
}

/// Submitting the event form with a title and a selected calendar saves an
/// event in that calendar, titled as the form, that starts at the form's
/// Start and ends at the form's End on the form's date; so when the two
/// fields differ, the event does not start and end at the same time.
pub proof fn law_form_saves_its_times(a: App, b: App, res: Option<AppEffect>)
    requires
        form_submitted(a, b, res),
        trim_seq(a.form_title@).len() > 0,
        a.form_calendar_index < a.calendars@.len(),
        a.calendars@[a.form_calendar_index as int].id@.len() > 0,
    ensures
        res matches Some(AppEffect::SaveEvent { event, is_new }) && {
            &&& event.start_at@ == a.form_date@ + " "@ + a.form_start_time@ + ":00"@
            &&& event.end_at@ == a.form_date@ + " "@ + a.form_end_time@ + ":00"@
            &&& (a.form_start_time@ != a.form_end_time@ ==> event.start_at@ != event.end_at@)
            &&& event.title == a.form_title
            &&& event.calendar_id@ == a.calendars@[a.form_calendar_index as int].id@
            &&& is_new == a.form_is_new
            &&& event.all_day == a.form_all_day
            &&& (a.form_location@.len() == 0 ==> event.location is None)
            &&& (a.form_location@.len() > 0 ==> (event.location matches Some(l) && l@ == a.form_location@))
            &&& (a.form_description@.len() == 0 ==> event.description is None)
            &&& (a.form_description@.len() > 0 ==> (event.description matches Some(d) && d@
                == a.form_description@))
        },
{
    if let Some(AppEffect::SaveEvent { event, is_new }) = res {
        if event.start_at@ == event.end_at@ {
            lemma_time_text_injective(a.form_date@, a.form_start_time@, a.form_end_time@);
        }
    }
}

/// `b` shows the error `msg` and is otherwise `a`.
pub open spec fn shows_error(a: App, b: App, msg: Seq<char>) -> bool {
    b == (App { status_message: b.status_message, status_is_error: true, ..a }) && b.status_message@
        == msg
}

/// `b` shows the note `msg` and is otherwise `a`.
pub open spec fn shows_note(a: App, b: App, msg: Seq<char>) -> bool {
    b == (App { status_message: b.status_message, status_is_error: false, ..a }) && b.status_message@
        == msg
}

/// `b` and `res` are what the quick-add text `input` gives: a one-hour event
/// at 09:00 on the selected date in the first calendar.
pub open spec fn quick_added(a: App, b: App, input: Seq<char>, res: Option<AppEffect>) -> bool {
    if a.calendars@.len() == 0 || a.calendars@[0].id@.len() == 0 {
        shows_error(a, b, "No calendar available."@) && res is None
    } else {
        b == (App { loading: true, ..a }) && (res matches Some(AppEffect::SaveEvent { event, is_new })
            && is_new && event.calendar_id == a.calendars@[0].id && event.title@ == input
            && event.start_at@ == date_text(a.focused_date) + " 09:00:00"@ && event.end_at@
            == date_text(a.focused_date) + " 10:00:00"@ && event.timezone@ == "UTC"@ && !event.all_day
            && event.project_id is None && event.reminder_minutes is None && event.rrule is None
            && event.google_id is None && event.deleted_at is None && event.id@.len() == 36)
    }
}

impl App {
    /// Creates a one-hour event at 09:00 on the selected date in the first
    /// calendar, titled `input`.
    pub fn parse_and_create_event(&mut self, input: &str) -> (res: Option<AppEffect>)
        requires
            old(self).wf(),
        ensures
            quick_added(*old(self), *final(self), input@, res),
    {
        let title = to_owned_string(input);
        let date = format_date(&self.focused_date);
        let mut start = date.clone();
        start.append(" 09:00:00");
        let mut end = date;
        end.append(" 10:00:00");
        let cal_id = if self.calendars.len() > 0 {
            self.calendars[0].id.clone()
        } else {
            String::new()
        };
        if cal_id.as_str().unicode_len() == 0 {
            self.set_status(to_owned_string("No calendar available."), true);
            return None;
        }
        let event = Event::new(cal_id, title, start, end, to_owned_string("UTC"));
        self.loading = true;
        Some(AppEffect::SaveEvent { event, is_new: true })
    }

    /// Checks the Google credentials typed in and asks for them to be kept.
    pub fn complete_google_auth(&mut self) -> (res: Option<AppEffect>)
        ensures
            if old(self).google_auth_client_id@.len() == 0
                || old(self).google_auth_client_secret@.len() == 0 {
                shows_error(*old(self), *final(self), "Client ID and Secret are required."@)
                    && res is None
            } else {
                *final(self) == *old(self) && (res matches Some(
                    AppEffect::SaveGoogleCredentials { client_id, client_secret },
                ) && client_id == old(self).google_auth_client_id && client_secret == old(
                    self,
                ).google_auth_client_secret)
            },
    {
        if self.google_auth_client_id.as_str().unicode_len() == 0
            || self.google_auth_client_secret.as_str().unicode_len() == 0 {
            self.set_status(to_owned_string("Client ID and Secret are required."), true);
            return None;
        }
        Some(
            AppEffect::SaveGoogleCredentials {
                client_id: self.google_auth_client_id.clone(),
                client_secret: self.google_auth_client_secret.clone(),
            },
        )
    }

    /// What follows the attempt to keep the credentials: on success the month
    /// view, a note, and the browser authorization; on failure the error.
    pub fn google_credentials_saved(&mut self, result: Result<(), String>) -> (res: Option<AppEffect>)
        ensures
            match result {
                Err(e) => shows_error(*old(self), *final(self), "Keyring error: "@ + e@) && res is None,
                Ok(_) => {
                    &&& shows_note(
                        (App { view: View::Month, ..*old(self) }),
                        *final(self),
                        "Waiting for browser authorization\u{2026}"@,
                    )
                    &&& res matches Some(AppEffect::RunOauth { client_id, client_secret })
                    &&& client_id == old(self).google_auth_client_id
                    &&& client_secret == old(self).google_auth_client_secret
                },
            },
    {
        match result {
            Err(e) => {
                let mut m = to_owned_string("Keyring error: ");
                m.append(e.as_str());
                self.set_status(m, true);
                None
            },
            Ok(()) => {
                self.set_status(to_owned_string("Opening browser for Google authorization\u{2026}"), false);
                self.view = View::Month;
                self.set_status(to_owned_string("Waiting for browser authorization\u{2026}"), false);
                Some(
                    AppEffect::RunOauth {
                        client_id: self.google_auth_client_id.clone(),
                        client_secret: self.google_auth_client_secret.clone(),
                    },
                )
            },
        }
    }

    /// Enter in a one-line input: the quick-add text becomes an event, the
    /// credentials form moves to its second field or finishes.
    pub fn handle_input_submit(&mut self) -> (res: Option<AppEffect>)
        requires
            old(self).wf(),
        ensures
            final(self).wf(),
            input_submitted(*old(self), *final(self), res),
    {
        match self.view {
            View::QuickAdd => {
                let input = trim(self.quick_add_input.as_str());
                let mut res = None;
                if input.as_str().unicode_len() > 0 {
                    res = self.parse_and_create_event(input.as_str());
                }
                self.view = View::Month;
                res
            },
            View::GoogleAuth => {
                if self.google_auth_field == 0 {
                    self.google_auth_field = 1;
                    None
                } else {
                    self.complete_google_auth()
                }
            },
            _ => None,
        }
    }

    /// Types `c` into the one-line input or the event form of the current
    /// view.
    pub fn form_input_char(&mut self, c: char)
        ensures
            input_typed(*old(self), *final(self), c),
    {
        match self.view {
            View::QuickAdd => push_char(&mut self.quick_add_input, c),
            View::GoogleAuth => {
                if self.google_auth_field == 0 {
                    push_char(&mut self.google_auth_client_id, c);
                } else {
                    push_char(&mut self.google_auth_client_secret, c);
                }
            },
            View::EventForm => self.form_active_field_push(c),
            _ => {},
        }
    }

    /// Backspace in the one-line input or the event form of the current view.
    pub fn form_input_backspace(&mut self)
        ensures
            input_erased(*old(self), *final(self)),
    {
        match self.view {
            View::QuickAdd => pop_last(&mut self.quick_add_input),
            View::GoogleAuth => {
                if self.google_auth_field == 0 {
                    pop_last(&mut self.google_auth_client_id);
                } else {
                    pop_last(&mut self.google_auth_client_secret);
                }
            },
            View::EventForm => self.form_active_field_pop(),
            _ => {},
        }
    }
}

/// The Google calendars among `cals`, in order.
pub open spec fn google_calendars(cals: Seq<Calendar>) -> Seq<Calendar> {
    cals.filter(|c: Calendar| c.source == CalendarSource::Google)
}

/// `b` and `res` are what asking for a Google sync in `a` gives: the
/// credentials form when there are no credentials, a note when no calendar is
/// a Google one, else the sync of the Google calendars.
pub open spec fn sync_requested(a: App, b: App, res: Option<AppEffect>) -> bool {
    match a.google_client {
        None => b == (App { view: View::GoogleAuth, ..a }) && res is None,
        Some(client) => if google_calendars(a.calendars@).len() == 0 {
            shows_note(
                (App { loading: false, ..a }),
                b,
                "No Google calendars configured. Press G to set up."@,
            ) && res is None
        } else {
            shows_note((App { loading: true, ..a }), b, "Syncing with Google Calendar\u{2026}"@) && (
            res matches Some(AppEffect::GoogleSync { calendars, client: c }) && calendars@
                == google_calendars(a.calendars@) && c == client)
        },
    }
}

fn clone_client(c: &GoogleClient) -> (res: GoogleClient)
    ensures
        res == *c,
{
    GoogleClient {
        client_id: c.client_id.clone(),
        client_secret: c.client_secret.clone(),
        refresh_token: c.refresh_token.clone(),
    }
}

/// A copy of a list of events.
pub fn clone_events(v: &Vec<Event>) -> (res: Vec<Event>)
    ensures
        res@ == v@,
{
    let mut out: Vec<Event> = Vec::new();
    let mut i: usize = 0;
    while i < v.len()
        invariant
            i <= v.len(),
            out@ == v@.take(i as int),
        decreases v.len() - i,
    {
        out.push(v[i].clone_event());
        assert(out@ =~= v@.take(i as int + 1));
        i += 1;
    }
    assert(v@.take(v.len() as int) =~= v@);
    out
}

impl App {
    /// Shows or hides the calendar under the sidebar cursor.
    pub fn toggle_calendar_visibility(&mut self)
        ensures
            visibility_toggled(*old(self), *final(self)),
    {
        if self.calendar_list_index < self.calendars.len() {
            let i = self.calendar_list_index;
            let mut cal = self.calendars[i].clone_calendar();
            cal.visible = !cal.visible;
            self.calendars.set(i, cal);
        }
    }

    /// Starts a sync of the Google calendars.
    pub fn google_sync(&mut self) -> (res: Option<AppEffect>)
        ensures
            sync_requested(*old(self), *final(self), res),
    {
        match &self.google_client {
            Some(client) => {
                let client = clone_client(client);
                self.loading = true;
                self.set_status(to_owned_string("Syncing with Google Calendar\u{2026}"), false);
                let ghost pred = |c: Calendar| c.source == CalendarSource::Google;
                let mut google_cals: Vec<Calendar> = Vec::new();
                let mut i: usize = 0;
                while i < self.calendars.len()
                    invariant
                        i <= self.calendars.len(),
                        pred == (|c: Calendar| c.source == CalendarSource::Google),
                        google_cals@ == self.calendars@.take(i as int).filter(pred),
                    decreases self.calendars.len() - i,
                {
                    let c = &self.calendars[i];
                    assert(self.calendars@.take(i as int + 1) =~= self.calendars@.take(i as int).push(*c));
                    proof {
                        self.calendars@.take(i as int).lemma_filter_push(*c, pred);
                    }
                    if c.source == CalendarSource::Google {
                        google_cals.push(c.clone_calendar());
                    }
                    i += 1;
                }
                assert(self.calendars@.take(self.calendars.len() as int) =~= self.calendars@);
                if google_cals.len() == 0 {
                    self.set_status(
                        to_owned_string("No Google calendars configured. Press G to set up."),
                        false,
                    );
                    self.loading = false;
                    None
                } else {
                    Some(AppEffect::GoogleSync { calendars: google_cals, client })
                }
            },
            None => {
                self.view = View::GoogleAuth;
                None
            },
        }
    }

    /// What follows writing the .ics file: its path, or the error.
    pub fn export_finished(&mut self, result: Result<String, String>)
        ensures
            match result {
                Ok(path) => shows_note(*old(self), *final(self), "Exported to "@ + path@),
                Err(e) => shows_error(*old(self), *final(self), "Export failed: "@ + e@),
            },
    {
        match result {
            Ok(path) => {
                let mut m = to_owned_string("Exported to ");
                m.append(path.as_str());
                self.set_status(m, false);
            },
            Err(e) => {
                let mut m = to_owned_string("Export failed: ");
                m.append(e.as_str());
                self.set_status(m, true);
            },
        }
    }

    /// Deletes the selected event.
    fn delete_selected_event(&self) -> (res: Option<AppEffect>)
        ensures
            if self.selected_event_index < shown_events(self.calendars@, self.events@).len() {
                res matches Some(AppEffect::DeleteEvent { id }) && id == shown_events(
                    self.calendars@,
                    self.events@,
                )[self.selected_event_index as int].id
            } else {
                res is None
            },
    {
        match self.selected_event() {
            Some(e) => Some(AppEffect::DeleteEvent { id: e.id.clone() }),
            None => None,
        }
    }

    /// Opens the selected event in the form, or says that none is selected.
    fn open_edit_form(&mut self)
        requires
            old(self).wf(),
            old(self).selected_event_index < shown_events(old(self).calendars@, old(self).events@).len()
                ==> form_sliceable(
                shown_events(old(self).calendars@, old(self).events@)[old(
                    self,
                ).selected_event_index as int],
            ),
        ensures
            final(self).wf(),
            if old(self).selected_event_index < shown_events(
                old(self).calendars@,
                old(self).events@,
            ).len() {
                form_opened(
                    *old(self),
                    *final(self),
                    Some(
                        shown_events(old(self).calendars@, old(self).events@)[old(
                            self,
                        ).selected_event_index as int],
                    ),
                )
            } else {
                shows_note(*old(self), *final(self), "No event selected."@)
            },
    {
        let selected = match self.selected_event() {
            Some(e) => Some(e.clone_event()),
            None => None,
        };
        match selected {
            Some(event) => self.open_event_form(Some(&event)),
            None => self.set_status(to_owned_string("No event selected."), false),
        }
    }
}

/// `b` is `a` after `c` was typed in the current view.
pub open spec fn input_typed(a: App, b: App, c: char) -> bool {
    match a.view {
        View::QuickAdd => b == (App {
            quick_add_input: b.quick_add_input,
            ..a
        }) && b.quick_add_input@ == a.quick_add_input@.push(c),
        View::GoogleAuth => if a.google_auth_field == 0 {
            b == (App {
                google_auth_client_id: b.google_auth_client_id,
                ..a
            }) && b.google_auth_client_id@ == a.google_auth_client_id@.push(c)
        } else {
            b == (App {
                google_auth_client_secret: b.google_auth_client_secret,
                ..a
            }) && b.google_auth_client_secret@ == a.google_auth_client_secret@.push(c)
        },
        View::EventForm => char_typed(a, b, c),
        _ => b == a,
    }
}

/// `b` is `a` after Backspace in the current view.
pub open spec fn input_erased(a: App, b: App) -> bool {
    match a.view {
        View::QuickAdd => b == (App {
            quick_add_input: b.quick_add_input,
            ..a
        }) && b.quick_add_input@ == popped(a.quick_add_input@),
        View::GoogleAuth => if a.google_auth_field == 0 {
            b == (App {
                google_auth_client_id: b.google_auth_client_id,
                ..a
            }) && b.google_auth_client_id@ == popped(
                a.google_auth_client_id@,
            )
        } else {
            b == (App {
                google_auth_client_secret: b.google_auth_client_secret,
                ..a
            }) && b.google_auth_client_secret@ == popped(
                a.google_auth_client_secret@,
            )
        },
        View::EventForm => char_erased(a, b),
        _ => b == a,
    }
}

/// `b` and `res` are what Enter in a one-line input of `a` gives.
pub open spec fn input_submitted(a: App, b: App, res: Option<AppEffect>) -> bool {
    match a.view {
        View::QuickAdd => if trim_seq(a.quick_add_input@).len() == 0 {
            b == (App { view: View::Month, ..a }) && res is None
        } else {
            exists|mid: App|
                quick_added(a, mid, trim_seq(a.quick_add_input@), res)
                    && b == (App { view: View::Month, ..mid })
        },
        View::GoogleAuth => if a.google_auth_field == 0 {
            b == (App { google_auth_field: 1, ..a }) && res is None
        } else {
            if a.google_auth_client_id@.len() == 0
                || a.google_auth_client_secret@.len() == 0 {
                shows_error(a, b, "Client ID and Secret are required."@)
                    && res is None
            } else {
                b == a && (res matches Some(
                    AppEffect::SaveGoogleCredentials { client_id, client_secret },
                ) && client_id == a.google_auth_client_id && client_secret == a.google_auth_client_secret)
            }
        },
        _ => b == a && res is None,
    }
}

/// `b` is `a` with the calendar under the sidebar cursor shown or hidden.
pub open spec fn visibility_toggled(a: App, b: App) -> bool {
    if a.calendar_list_index < a.calendars@.len() {
        let i = a.calendar_list_index as int;
        b == (App { calendars: b.calendars, ..a })
            && b.calendars@ == a.calendars@.update(
            i,
            (Calendar { visible: !a.calendars@[i].visible, ..a.calendars@[i] }),
        )
    } else {
        b == a
    }
}

/// The events without those with id `id`, in order.
pub open spec fn without_event(evs: Seq<Event>, id: Seq<char>) -> Seq<Event> {
    evs.filter(|e: Event| e.id@ != id)
}

/// `b` and `res` are what the background result `r` does to `a`.
pub open spec fn result_handled(a: App, r: WorkerResult, b: App, res: Option<AppEffect>) -> bool {
    match r {
        WorkerResult::CalendarsLoaded(cals) => b == (App { calendars: cals, loading: false, ..a })
            && (res matches Some(AppEffect::LoadEvents { year, month }) && year == a.view_year && month
            == a.view_month),
        WorkerResult::ProjectsLoaded(projs) => b == (App { projects: projs, ..a }) && res is None,
        WorkerResult::EventsLoaded { events, .. } => b == (App { events: events, loading: false, ..a })
            && (res matches Some(AppEffect::PublishEvents { events: e }) && e@ == events@),
        WorkerResult::DependenciesLoaded(deps) => b == (App { dag: b.dag, dependencies: deps, ..a })
            && b.dag@ == dag_from(deps@) && b.dag.well_formed() && res is None,
        WorkerResult::EventSaved(ev) => shows_note((App { view: View::Month, ..a }), b, "Saved: "@ + ev.title@)
            && (res matches Some(AppEffect::LoadEvents { year, month }) && year == a.view_year && month
            == a.view_month),
        WorkerResult::EventDeleted(id) => shows_note(
            (App { events: b.events, ..a }),
            b,
            "Event deleted."@,
        ) && b.events@ == without_event(a.events@, id@) && res is None,
        WorkerResult::GoogleSyncComplete { events_added, events_updated, .. } => shows_note(
            a,
            b,
            "Google sync: +"@ + dec_seq(events_added as nat) + " events, "@ + dec_seq(
                events_updated as nat,
            ) + " updated."@,
        ) && (res matches Some(AppEffect::LoadEvents { year, month }) && year == a.view_year && month
            == a.view_month),
        WorkerResult::StatusMessage(m) => shows_note((App { loading: false, ..a }), b, m@) && res is None,
        WorkerResult::Error(e) => shows_error((App { loading: false, ..a }), b, e@) && res is None,
        WorkerResult::NotificationScheduled { .. } => b == a && res is None,
    }
}

impl App {
    /// Counts a tick of the clock.
    pub fn handle_tick(&mut self)
        ensures
            *final(self) == (App {
                tick_count: (if old(self).tick_count == u64::MAX {
                    0
                } else {
                    old(self).tick_count + 1
                }) as u64,
                ..*old(self)
            }),
    {
        self.tick_count = if self.tick_count == u64::MAX {
            0
        } else {
            self.tick_count + 1
        };
    }

    /// Takes in what background work reported.
    pub fn handle_worker_result(&mut self, result: WorkerResult) -> (res: Option<AppEffect>)
        ensures
            result_handled(*old(self), result, *final(self), res),
    {
        match result {
            WorkerResult::CalendarsLoaded(cals) => {
                self.calendars = cals;
                self.loading = false;
                Some(AppEffect::LoadEvents { year: self.view_year, month: self.view_month })
            },
            WorkerResult::ProjectsLoaded(projs) => {
                self.projects = projs;
                None
            },
            WorkerResult::EventsLoaded { events, .. } => {
                let copy = clone_events(&events);
                self.events = events;
                self.loading = false;
                Some(AppEffect::PublishEvents { events: copy })
            },
            WorkerResult::DependenciesLoaded(deps) => {
                self.dag = EventDag::from_dependencies(deps.as_slice());
                self.dependencies = deps;
                None
            },
            WorkerResult::EventSaved(ev) => {
                let mut m = to_owned_string("Saved: ");
                m.append(ev.title.as_str());
                self.set_status(m, false);
                self.view = View::Month;
                Some(AppEffect::LoadEvents { year: self.view_year, month: self.view_month })
            },
            WorkerResult::EventDeleted(id) => {
                let ghost pred = |e: Event| e.id@ != id@;
                let mut kept: Vec<Event> = Vec::new();
                let mut rest = clone_events(&self.events);
                let ghost all = rest@;
                let n = rest.len();
                let mut i: usize = 0;
                while i < n
                    invariant
                        n == all.len(),
                        i <= n,
                        all == old(self).events@,
                        rest@ == all.skip(i as int),
                        kept@ == all.take(i as int).filter(pred),
                        pred == (|e: Event| e.id@ != id@),
                    decreases n - i,
                {
                    let e = rest.remove(0);
                    assert(rest@ =~= all.skip(i as int + 1));
                    assert(all.take(i as int + 1) =~= all.take(i as int).push(e));
                    proof {
                        all.take(i as int).lemma_filter_push(e, pred);
                    }
                    if e.id != id {
                        kept.push(e);
                    }
                    i += 1;
                }
                assert(all.take(n as int) =~= all);
                self.events = kept;
                self.set_status(to_owned_string("Event deleted."), false);
                None
            },
            WorkerResult::GoogleSyncComplete { events_added, events_updated, .. } => {
                let mut m = to_owned_string("Google sync: +");
                push_dec(&mut m, events_added as u64);
                m.append(" events, ");
                push_dec(&mut m, events_updated as u64);
                m.append(" updated.");
                self.set_status(m, false);
                Some(AppEffect::LoadEvents { year: self.view_year, month: self.view_month })
            },
            WorkerResult::StatusMessage(msg) => {
                self.set_status(msg, false);
                self.loading = false;
                None
            },
            WorkerResult::Error(e) => {
                self.set_status(e, true);
                self.loading = false;
                None
            },
            WorkerResult::NotificationScheduled { .. } => None,
        }
    }
}

/// What an action needs so that it is defined: dates that stay within
/// chrono's range, and an edited event whose times can be cut.
pub open spec fn dispatch_ok(a: App, action: Action) -> bool {
    match action {
        Action::PrevPeriod => period_ok(a, false),
        Action::NextPeriod => period_ok(a, true),
        Action::PrevUnit => unit_ok(a, false),
        Action::NextUnit => unit_ok(a, true),
        Action::PrevDay => shift_days(a.focused_date, -1) is Some,
        Action::NextDay => shift_days(a.focused_date, 1) is Some,
        Action::EditEvent => a.selected_event_index < shown_events(a.calendars@, a.events@).len()
            ==> form_sliceable(shown_events(a.calendars@, a.events@)[a.selected_event_index as int]),
        _ => true,
    }
}

/// `b` and `res` are what `action` does to `a` on the day `today`.
pub open spec fn dispatched(a: App, action: Action, today: CivilDate, b: App, res: Option<AppEffect>) -> bool {
    match action {
        Action::Quit => b == (App { running: false, ..a }) && res is None,
        Action::Help => b == (App { view: View::Help, ..a }) && res is None,
        Action::Escape | Action::FormCancel | Action::InputCancel => b == escaped(a) && res is None,
        Action::ViewMonth => b == (App { view: View::Month, sidebar_focused: false, ..a }) && res is None,
        Action::ViewWeek => b == (App { view: View::Week, sidebar_focused: false, ..a }) && res is None,
        Action::ViewDay => b == (App { view: View::Day, sidebar_focused: false, ..a }) && res is None,
        Action::ViewAgenda => b == (App { view: View::Agenda, sidebar_focused: false, ..a })
            && res is None,
        Action::FocusSidebar => b == (App { sidebar_focused: true, view: View::CalendarList, ..a })
            && res is None,
        Action::FocusMain => b == (App { sidebar_focused: false, view: View::Month, ..a })
            && res is None,
        Action::PrevPeriod => b == reloaded(period_moved(a, false)) && loads_month(
            res,
            period_moved(a, false),
        ),
        Action::NextPeriod => b == reloaded(period_moved(a, true)) && loads_month(
            res,
            period_moved(a, true),
        ),
        Action::PrevUnit => b == unit_moved(a, false, shown_events(a.calendars@, a.events@).len() as int)
            && res is None,
        Action::NextUnit => b == unit_moved(a, true, shown_events(a.calendars@, a.events@).len() as int)
            && res is None,
        Action::PrevDay => b == reloaded(days_moved(a, -1)) && loads_month(res, days_moved(a, -1)),
        Action::NextDay => b == reloaded(days_moved(a, 1)) && loads_month(res, days_moved(a, 1)),
        Action::JumpToday => b == (App {
            focused_date: today,
            view_month: today.month,
            view_year: today.year,
            ..a
        }) && res is None,
        Action::CreateEvent => form_opened(a, b, None) && res is None,
        Action::EditEvent => res is None && if a.selected_event_index < shown_events(
            a.calendars@,
            a.events@,
        ).len() {
            form_opened(
                a,
                b,
                Some(shown_events(a.calendars@, a.events@)[a.selected_event_index as int]),
            )
        } else {
            shows_note(a, b, "No event selected."@)
        },
        Action::DeleteEvent => b == a && if a.selected_event_index < shown_events(
            a.calendars@,
            a.events@,
        ).len() {
            res matches Some(AppEffect::DeleteEvent { id }) && id == shown_events(
                a.calendars@,
                a.events@,
            )[a.selected_event_index as int].id
        } else {
            res is None
        },
        Action::SelectEvent => res is None && b == if a.view == View::Month {
            App { view: View::Day, ..a }
        } else {
            a
        },
        Action::FormNextField => res is None && b == (App {
            form_field_index: if a.form_field_index + 1 < a.form_fields@.len() {
                (a.form_field_index + 1) as usize
            } else {
                a.form_field_index
            },
            ..a
        }),
        Action::FormPrevField => res is None && b == (App {
            form_field_index: if a.form_field_index > 0 {
                (a.form_field_index - 1) as usize
            } else {
                0
            },
            ..a
        }),
        Action::FormSubmit => form_submitted(a, b, res),
        Action::InputChar(c) => input_typed(a, b, c) && res is None,
        Action::InputBackspace => input_erased(a, b) && res is None,
        Action::InputSubmit => input_submitted(a, b, res),
        Action::CalendarUp => res is None && b == (App {
            calendar_list_index: if a.calendar_list_index > 0 {
                (a.calendar_list_index - 1) as usize
            } else {
                0
            },
            ..a
        }),
        Action::CalendarDown => res is None && b == (App {
            calendar_list_index: if a.calendar_list_index + 1 < a.calendars@.len() {
                (a.calendar_list_index + 1) as usize
            } else {
                a.calendar_list_index
            },
            ..a
        }),
        Action::ToggleCalendar => visibility_toggled(a, b) && res is None,
        Action::ScrollUp => b == scrolled(a, -1, false) && res is None,
        Action::ScrollDown => b == scrolled(a, 1, false) && res is None,
        Action::ScrollPageUp => b == scrolled(a, -10, true) && res is None,
        Action::ScrollPageDown => b == scrolled(a, 10, true) && res is None,
        Action::QuickAdd => res is None && b == (App {
            quick_add_input: b.quick_add_input,
            view: View::QuickAdd,
            ..a
        }) && b.quick_add_input@ == Seq::<char>::empty(),
        Action::GoogleSync => sync_requested(a, b, res),
        Action::GoogleAuthSetup => res is None && b == (App {
            google_auth_client_id: b.google_auth_client_id,
            google_auth_client_secret: b.google_auth_client_secret,
            google_auth_field: 0,
            view: View::GoogleAuth,
            ..a
        }) && b.google_auth_client_id@ == Seq::<char>::empty() && b.google_auth_client_secret@
            == Seq::<char>::empty(),
        Action::ImportIcal => shows_note(a, b, "iCal import: use `import <path>` in quick-add."@)
            && res is None,
        Action::ExportIcal => b == a && (res matches Some(AppEffect::ExportIcal { events }) && events@
            == a.events@),
        Action::JumpToDate | Action::Nothing => b == a && res is None,
    }
}

impl App {
    /// Carries out `action` on the day `today`.
    #[verifier::rlimit(100)]
    pub fn dispatch(&mut self, action: Action, today: CivilDate) -> (res: Option<AppEffect>)
        requires
            old(self).wf(),
            today.valid(),
            dispatch_ok(*old(self), action),
        ensures
            final(self).wf(),
            dispatched(*old(self), action, today, *final(self), res),
    {
        match action {
            Action::Quit => {
                self.running = false;
                None
            },
            Action::Help => {
                self.view = View::Help;
                None
            },
            Action::Escape | Action::FormCancel | Action::InputCancel => {
                self.handle_escape();
                None
            },
            Action::ViewMonth => {
                self.switch_view(View::Month);
                None
            },
            Action::ViewWeek => {
                self.switch_view(View::Week);
                None
            },
            Action::ViewDay => {
                self.switch_view(View::Day);
                None
            },
            Action::ViewAgenda => {
                self.switch_view(View::Agenda);
                None
            },
            Action::FocusSidebar => {
                self.sidebar_focused = true;
                self.view = View::CalendarList;
                None
            },
            Action::FocusMain => {
                self.sidebar_focused = false;
                self.view = View::Month;
                None
            },
            Action::PrevPeriod => self.move_period(false),
            Action::NextPeriod => self.move_period(true),
            Action::PrevUnit => {
                self.move_unit(false);
                None
            },
            Action::NextUnit => {
                self.move_unit(true);
                None
            },
            Action::PrevDay => {
                self.move_focused_days(-1);
                self.reload_events_if_needed()
            },
            Action::NextDay => {
                self.move_focused_days(1);
                self.reload_events_if_needed()
            },
            Action::JumpToday => self.jump_today(today),
            Action::CreateEvent => {
                self.open_event_form(None);
                None
            },
            Action::EditEvent => {
                self.open_edit_form();
                None
            },
            Action::DeleteEvent => self.delete_selected_event(),
            Action::SelectEvent => {
                if self.view == View::Month {
                    self.view = View::Day;
                }
                None
            },
            Action::FormNextField => {
                self.form_next_field();
                None
            },
            Action::FormPrevField => {
                self.form_prev_field();
                None
            },
            Action::FormSubmit => self.form_submit(),
            Action::InputChar(c) => {
                self.form_input_char(c);
                None
            },
            Action::InputBackspace => {
                self.form_input_backspace();
                None
            },
            Action::InputSubmit => self.handle_input_submit(),
            Action::CalendarUp => {
                if self.calendar_list_index > 0 {
                    self.calendar_list_index -= 1;
                }
                None
            },
            Action::CalendarDown => {
                if self.calendar_list_index < self.calendars.len() && self.calendars.len()
                    - self.calendar_list_index > 1 {
                    self.calendar_list_index += 1;
                }
                None
            },
            Action::ToggleCalendar => {
                self.toggle_calendar_visibility();
                None
            },
            Action::ScrollUp => {
                self.scroll(-1, false);
                None
            },
            Action::ScrollDown => {
                self.scroll(1, false);
                None
            },
            Action::ScrollPageUp => {
                self.scroll(-10, true);
                None
            },
            Action::ScrollPageDown => {
                self.scroll(10, true);
                None
            },
            Action::QuickAdd => {
                self.quick_add_input = String::new();
                self.view = View::QuickAdd;
                None
            },
            Action::GoogleSync => self.google_sync(),
            Action::GoogleAuthSetup => {
                self.google_auth_client_id = String::new();
                self.google_auth_client_secret = String::new();
                self.google_auth_field = 0;
                self.view = View::GoogleAuth;
                None
            },
            Action::ImportIcal => {
                self.set_status(
                    to_owned_string("iCal import: use `import <path>` in quick-add."),
                    false,
                );
                None
            },
            Action::ExportIcal => Some(AppEffect::ExportIcal { events: clone_events(&self.events) }),
            Action::JumpToDate | Action::Nothing => None,
        }
    }
}

/// The label of recurrence preset number `i` (`—` past the last).
pub open spec fn recurrence_label_at(i: int) -> Seq<char> {
    if i == 0 {
        preset_label(RecurrencePreset::DoesNotRepeat)
    } else if i == 1 {
        preset_label(RecurrencePreset::Daily)
    } else if i == 2 {
        preset_label(RecurrencePreset::WeeklyOnDay)
    } else if i == 3 {
        preset_label(RecurrencePreset::Weekdays)
    } else if i == 4 {
        preset_label(RecurrencePreset::Weekly)
    } else if i == 5 {
        preset_label(RecurrencePreset::BiWeekly)
    } else if i == 6 {
        preset_label(RecurrencePreset::Monthly)
    } else if i == 7 {
        preset_label(RecurrencePreset::Yearly)
    } else if i == 8 {
        "Custom\u{2026}"@
    } else {
        "\u{2014}"@
    }
}

/// The text shown for field `f` of the form, with `cursor` after the text
/// of the focused field.
pub open spec fn field_value_text(a: App, f: FormField, cursor: Seq<char>) -> Seq<char> {
    match f {
        FormField::Title => a.form_title@ + cursor,
        FormField::Date => a.form_date@ + cursor,
        FormField::StartTime => a.form_start_time@ + cursor,
        FormField::EndTime => a.form_end_time@ + cursor,
        FormField::Location => if a.form_location@.len() == 0 && cursor.len() == 0 {
            "(optional)"@
        } else {
            a.form_location@ + cursor
        },
        FormField::Description => if a.form_description@.len() == 0 && cursor.len() == 0 {
            "(optional)"@
        } else {
            a.form_description@ + cursor
        },
        FormField::Recurrence => recurrence_label_at(a.form_recurrence_index as int)
            + " (h/l to change)"@,
        FormField::Reminder => if a.form_reminder@.len() == 0 {
            "none"@
        } else {
            a.form_reminder@ + " min before"@ + cursor
        },
        FormField::Calendar => if a.form_calendar_index < a.calendars@.len() {
            a.calendars@[a.form_calendar_index as int].name@ + " \u{25cf} (h/l)"@
        } else {
            "no calendars"@
        },
        FormField::Project => if a.form_project_index == 0 {
            "\u{2014} (none)  (h/l to change)"@
        } else if a.form_project_index - 1 < a.projects@.len() {
            a.projects@[a.form_project_index - 1].name@ + " (h/l)"@
        } else {
            "\u{2014}"@
        },
        FormField::AllDay => if a.form_all_day {
            "[\u{2588}] Yes (Space to toggle)"@
        } else {
            "[ ] No  (Space to toggle)"@
        },
    }
}

fn text_then(t: &String, cursor: &str) -> (res: String)
    ensures
        res@ == t@ + cursor@,
{
    let mut out = t.clone();
    out.append(cursor);
    out
}

impl App {
    /// The text shown for field `field` of the event form.
    pub fn field_value(&self, field: FormField, cursor: &str) -> (res: String)
        ensures
            res@ == field_value_text(*self, field, cursor@),
    {
        match field {
            FormField::Title => text_then(&self.form_title, cursor),
            FormField::Date => text_then(&self.form_date, cursor),
            FormField::StartTime => text_then(&self.form_start_time, cursor),
            FormField::EndTime => text_then(&self.form_end_time, cursor),
            FormField::Location => {
                if self.form_location.as_str().unicode_len() == 0 && cursor.unicode_len() == 0 {
                    to_owned_string("(optional)")
                } else {
                    text_then(&self.form_location, cursor)
                }
            },
            FormField::Description => {
                if self.form_description.as_str().unicode_len() == 0 && cursor.unicode_len() == 0 {
                    to_owned_string("(optional)")
                } else {
                    text_then(&self.form_description, cursor)
                }
            },
            FormField::Recurrence => {
                let presets = RecurrencePreset::all();
                let label = if self.form_recurrence_index < presets.len() {
                    presets[self.form_recurrence_index].label()
                } else {
                    "\u{2014}"
                };
                let mut out = to_owned_string(label);
                out.append(" (h/l to change)");
                out
            },
            FormField::Reminder => {
                if self.form_reminder.as_str().unicode_len() == 0 {
                    to_owned_string("none")
                } else {
                    let mut out = self.form_reminder.clone();
                    out.append(" min before");
                    out.append(cursor);
                    out
                }
            },
            FormField::Calendar => {
                if self.form_calendar_index < self.calendars.len() {
                    let mut out = self.calendars[self.form_calendar_index].name.clone();
                    out.append(" \u{25cf} (h/l)");
                    out
                } else {
                    to_owned_string("no calendars")
                }
            },
            FormField::Project => {
                if self.form_project_index == 0 {
                    to_owned_string("\u{2014} (none)  (h/l to change)")
                } else if self.form_project_index - 1 < self.projects.len() {
                    let mut out = self.projects[self.form_project_index - 1].name.clone();
                    out.append(" (h/l)");
                    out
                } else {
                    to_owned_string("\u{2014}")
                }
            },
            FormField::AllDay => {
                if self.form_all_day {
                    to_owned_string("[\u{2588}] Yes (Space to toggle)")
                } else {
                    to_owned_string("[ ] No  (Space to toggle)")
                }
            },
        }
    }
}

/// Pressing the next-day key and then the previous-day key selects the date
/// that was selected before.
pub proof fn law_next_day_then_previous_day(
    a: App,
    b: App,
    c: App,
    today: CivilDate,
    first: Option<AppEffect>,
    second: Option<AppEffect>,
)
    requires
        a.wf(),
        dispatch_ok(a, Action::NextDay),
        dispatched(a, Action::NextDay, today, b, first),
        dispatched(b, Action::PrevDay, today, c, second),
    ensures
        c.focused_date == a.focused_date,
{
    law_shift_day_round_trip(a.focused_date);
}

proof fn lemma_month_length(y: i32, m: u32)
    requires
        1 <= m <= 12,
        MIN_YEAR <= y <= MAX_YEAR,
    ensures
        1 <= month_length(y, m) <= days_in_month_spec(y as int, m as int),
{
}

/// Moving the loaded month by one, forward or back, selects a date in the new
/// month when the new month's year is one chrono holds.
proof fn lemma_month_shift_lands(a: App, delta: int)
    requires
        a.wf(),
        delta == 1 || delta == -1,
        MIN_YEAR <= a.view_year + (a.view_month - 1 + delta) / 12 <= MAX_YEAR,
    ensures
        month_shifted(a, delta).focused_date.month == month_shifted(a, delta).view_month,
        month_shifted(a, delta).focused_date.year == month_shifted(a, delta).view_year,
        month_shifted(a, delta).focused_date.valid(),
        delta == 1 ==> (if a.view_month == 12 {
            month_shifted(a, delta).view_month == 1 && month_shifted(a, delta).view_year
                == a.view_year + 1
        } else {
            month_shifted(a, delta).view_month == a.view_month + 1 && month_shifted(
                a,
                delta,
            ).view_year == a.view_year
        }),
        delta == -1 ==> (if a.view_month == 1 {
            month_shifted(a, delta).view_month == 12 && month_shifted(a, delta).view_year
                == a.view_year - 1
        } else {
            month_shifted(a, delta).view_month == a.view_month - 1 && month_shifted(
                a,
                delta,
            ).view_year == a.view_year
        }),
{
    let t = a.view_month - 1 + delta;
    let year = a.view_year + t / 12;
    let month = t % 12 + 1;
    if delta == 1 {
        if a.view_month == 12 {
            assert(t / 12 == 1 && t % 12 == 0);
        } else {
            assert(t / 12 == 0 && t % 12 == t);
        }
    } else {
        if a.view_month == 1 {
            assert(t / 12 == -1 && t % 12 == 11);
        } else {
            assert(t / 12 == 0 && t % 12 == t);
        }
    }
    lemma_month_length(year as i32, month as u32);
}

/// In the month view, moving to the next month and back to the previous one
/// loads the month that was loaded before, where chrono holds the dates on the
/// way.
pub proof fn law_next_month_then_previous_month(
    a: App,
    b: App,
    c: App,
    today: CivilDate,
    first: Option<AppEffect>,
    second: Option<AppEffect>,
)
    requires
        a.wf(),
        a.view == View::Month,
        MIN_YEAR <= a.view_year <= MAX_YEAR,
        !(a.view_year == MAX_YEAR && a.view_month == 12),
        dispatched(a, Action::NextPeriod, today, b, first),
        dispatched(b, Action::PrevPeriod, today, c, second),
    ensures
        c.view_month == a.view_month,
        c.view_year == a.view_year,
{
    lemma_month_shift_lands(a, 1);
    let m = month_shifted(a, 1);
    assert(!needs_reload(m));
    assert(b == m);
    assert(b.wf());
    lemma_month_shift_lands(b, -1);
    let n = month_shifted(b, -1);
    assert(!needs_reload(n));
}

} // verus!

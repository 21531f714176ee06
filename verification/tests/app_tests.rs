use solverforge_calendar::app::{App, AppEffect, FormField, WorkerResult};
use solverforge_calendar::keys::{Action, View};
use solverforge_calendar::models::{Calendar, Event};
use solverforge_calendar::timestamp::CivilDate;
use solverforge_calendar::ui::views::{
    agenda_rows, day_cell_dots, day_cell_titles, day_events, hour_slot_events, AgendaRow,
};

fn day(year: i32, month: u32, day: u32) -> CivilDate {
    CivilDate { year, month, day }
}

fn app_on(d: CivilDate) -> App {
    let (app, effects) = App::new(d, None);
    assert_eq!(effects.len(), 3);
    app
}

fn calendar(id: &str, visible: bool) -> Calendar {
    let mut c = Calendar::new_local(format!("Cal {}", id), "#50f872".to_string());
    c.id = id.to_string();
    c.visible = visible;
    c
}

fn event(id: &str, cal: &str, start: &str, end: &str) -> Event {
    let mut e = Event::new(cal.to_string(), format!("Event {}", id), start.to_string(), end.to_string(), "UTC".to_string());
    e.id = id.to_string();
    e
}

#[test]
fn new_app_starts_on_month_view() {
    let app = app_on(day(2026, 3, 30));
    assert!(app.running);
    assert_eq!(app.view, View::Month);
    assert_eq!(app.form_date, "2026-03-30");
    assert_eq!(app.week_scroll, 8);
    assert_eq!(app.form_fields, FormField::all());
    assert_eq!(FormField::all().len(), 11);
    assert_eq!(FormField::AllDay.label(), "All day");
    assert_eq!(FormField::Recurrence.label(), "Repeats");
}

#[test]
fn next_day_then_previous_day_returns() {
    let mut app = app_on(day(2026, 3, 31));
    let eff = app.dispatch(Action::NextDay, day(2026, 3, 31));
    assert_eq!(app.focused_date, day(2026, 4, 1));
    assert!(matches!(eff, Some(AppEffect::LoadEvents { year: 2026, month: 4 })));
    assert_eq!(app.view_month, 4);
    let eff = app.dispatch(Action::PrevDay, day(2026, 3, 31));
    assert_eq!(app.focused_date, day(2026, 3, 31));
    assert!(matches!(eff, Some(AppEffect::LoadEvents { year: 2026, month: 3 })));
}

#[test]
fn month_navigation_clamps_day() {
    let mut app = app_on(day(2024, 1, 31));
    app.dispatch(Action::NextPeriod, day(2024, 1, 31));
    assert_eq!(app.focused_date, day(2024, 2, 29));
    assert_eq!((app.view_year, app.view_month), (2024, 2));
    app.dispatch(Action::PrevPeriod, day(2024, 1, 31));
    app.dispatch(Action::PrevPeriod, day(2024, 1, 31));
    assert_eq!(app.focused_date, day(2023, 12, 29));
    assert_eq!((app.view_year, app.view_month), (2023, 12));
}

#[test]
fn week_view_moves_by_seven_days() {
    let mut app = app_on(day(2026, 12, 28));
    app.dispatch(Action::ViewWeek, day(2026, 12, 28));
    app.dispatch(Action::NextPeriod, day(2026, 12, 28));
    assert_eq!(app.focused_date, day(2027, 1, 4));
    assert_eq!(app.view_year, 2027);
    app.dispatch(Action::JumpToday, day(2026, 12, 28));
    assert_eq!(app.focused_date, day(2026, 12, 28));
}

#[test]
fn quick_add_creates_event_in_first_calendar() {
    let mut app = app_on(day(2026, 3, 30));
    app.calendars = vec![calendar("c1", true)];
    app.dispatch(Action::QuickAdd, day(2026, 3, 30));
    assert_eq!(app.view, View::QuickAdd);
    for c in "  Lunch ".chars() {
        app.dispatch(Action::InputChar(c), day(2026, 3, 30));
    }
    app.dispatch(Action::InputBackspace, day(2026, 3, 30));
    let eff = app.dispatch(Action::InputSubmit, day(2026, 3, 30));
    assert_eq!(app.view, View::Month);
    match eff {
        Some(AppEffect::SaveEvent { event, is_new }) => {
            assert!(is_new);
            assert_eq!(event.title, "Lunch");
            assert_eq!(event.start_at, "2026-03-30 09:00:00");
            assert_eq!(event.end_at, "2026-03-30 10:00:00");
            assert_eq!(event.calendar_id, "c1");
        }
        other => panic!("unexpected {:?}", other),
    }
}

#[test]
fn quick_add_without_calendar_reports_error() {
    let mut app = app_on(day(2026, 3, 30));
    app.dispatch(Action::QuickAdd, day(2026, 3, 30));
    app.dispatch(Action::InputChar('x'), day(2026, 3, 30));
    let eff = app.dispatch(Action::InputSubmit, day(2026, 3, 30));
    assert!(eff.is_none());
    assert_eq!(app.status_message, "No calendar available.");
    assert!(app.status_is_error);
}

#[test]
fn form_submit_builds_event() {
    let mut app = app_on(day(2026, 3, 30));
    app.calendars = vec![calendar("c1", true)];
    app.dispatch(Action::CreateEvent, day(2026, 3, 30));
    assert_eq!(app.view, View::EventForm);
    assert_eq!(app.form_reminder, "15");
    let eff = app.dispatch(Action::FormSubmit, day(2026, 3, 30));
    assert!(eff.is_none());
    assert_eq!(app.status_message, "Title cannot be empty.");
    for c in "Retro".chars() {
        app.dispatch(Action::InputChar(c), day(2026, 3, 30));
    }
    // Reminder field only takes digits.
    while app.form_fields[app.form_field_index] != FormField::Reminder {
        app.dispatch(Action::FormNextField, day(2026, 3, 30));
    }
    app.dispatch(Action::InputChar('x'), day(2026, 3, 30));
    app.dispatch(Action::InputChar('0'), day(2026, 3, 30));
    assert_eq!(app.form_reminder, "150");
    assert_eq!(app.field_value(FormField::Reminder, "_"), "150 min before_");
    assert_eq!(app.field_value(FormField::Location, ""), "(optional)");
    let eff = app.dispatch(Action::FormSubmit, day(2026, 3, 30));
    match eff {
        Some(AppEffect::SaveEvent { event, is_new }) => {
            assert!(is_new);
            assert_eq!(event.title, "Retro");
            assert_eq!(event.start_at, "2026-03-30 09:00:00");
            assert_eq!(event.reminder_minutes, Some(150));
            assert_eq!(event.location, None);
            assert_eq!(event.project_id, None);
        }
        other => panic!("unexpected {:?}", other),
    }
    assert!(app.loading);
}

#[test]
fn edit_form_reads_event_times() {
    let mut app = app_on(day(2026, 3, 30));
    app.calendars = vec![calendar("c0", true), calendar("c1", true)];
    let mut ev = event("e1", "c1", "2026-03-30 14:15:00", "2026-03-30 15:45:00");
    ev.reminder_minutes = Some(-5);
    app.events = vec![ev];
    app.dispatch(Action::EditEvent, day(2026, 3, 30));
    assert_eq!(app.view, View::EventForm);
    assert!(!app.form_is_new);
    assert_eq!(app.form_date, "2026-03-30");
    assert_eq!(app.form_start_time, "14:15");
    assert_eq!(app.form_end_time, "15:45");
    assert_eq!(app.form_reminder, "-5");
    assert_eq!(app.form_calendar_index, 1);
}

#[test]
fn visible_events_follow_calendar_visibility() {
    let mut app = app_on(day(2026, 3, 30));
    app.calendars = vec![calendar("c1", true), calendar("c2", false)];
    let mut deleted = event("e3", "c1", "2026-03-30 09:00:00", "2026-03-30 10:00:00");
    deleted.deleted_at = Some("2026-03-30 11:00:00".to_string());
    app.events = vec![
        event("e1", "c1", "2026-03-30 09:00:00", "2026-03-31 10:00:00"),
        event("e2", "c2", "2026-03-30 09:00:00", "2026-03-30 10:00:00"),
        deleted,
    ];
    let ids: Vec<&str> = app.visible_events().iter().map(|e| e.id.as_str()).collect();
    assert_eq!(ids, vec!["e1"]);
    assert_eq!(app.events_on_date(day(2026, 3, 31)).len(), 1);
    assert_eq!(app.events_on_date(day(2026, 4, 1)).len(), 0);
    assert_eq!(app.selected_event().map(|e| e.id.as_str()), Some("e1"));
    assert_eq!(app.calendar_index_for("c2"), 1);
    assert_eq!(app.calendar_index_for("zz"), 0);
    app.calendar_list_index = 1;
    app.dispatch(Action::ToggleCalendar, day(2026, 3, 30));
    assert_eq!(app.visible_events().len(), 2);
    match app.dispatch(Action::DeleteEvent, day(2026, 3, 30)) {
        Some(AppEffect::DeleteEvent { id }) => assert_eq!(id, "e1"),
        other => panic!("unexpected {:?}", other),
    }
}

#[test]
fn scrolling_saturates() {
    let mut app = app_on(day(2026, 3, 30));
    app.dispatch(Action::Help, day(2026, 3, 30));
    app.dispatch(Action::ScrollUp, day(2026, 3, 30));
    assert_eq!(app.help_scroll, 0);
    app.dispatch(Action::ScrollPageDown, day(2026, 3, 30));
    assert_eq!(app.help_scroll, 10);
    app.dispatch(Action::Escape, day(2026, 3, 30));
    assert_eq!(app.view, View::Month);
    app.dispatch(Action::ViewDay, day(2026, 3, 30));
    for _ in 0..30 {
        app.dispatch(Action::ScrollDown, day(2026, 3, 30));
    }
    assert_eq!(app.week_scroll, 20);
}

#[test]
fn google_sync_without_credentials_opens_setup() {
    let mut app = app_on(day(2026, 3, 30));
    let eff = app.dispatch(Action::GoogleSync, day(2026, 3, 30));
    assert!(eff.is_none());
    assert_eq!(app.view, View::GoogleAuth);
    for c in "id".chars() {
        app.dispatch(Action::InputChar(c), day(2026, 3, 30));
    }
    app.dispatch(Action::InputSubmit, day(2026, 3, 30));
    assert_eq!(app.google_auth_field, 1);
    let eff = app.dispatch(Action::InputSubmit, day(2026, 3, 30));
    assert!(eff.is_none());
    assert_eq!(app.status_message, "Client ID and Secret are required.");
    app.dispatch(Action::InputChar('s'), day(2026, 3, 30));
    match app.dispatch(Action::InputSubmit, day(2026, 3, 30)) {
        Some(AppEffect::SaveGoogleCredentials { client_id, client_secret }) => {
            assert_eq!(client_id, "id");
            assert_eq!(client_secret, "s");
        }
        other => panic!("unexpected {:?}", other),
    }
    let eff = app.google_credentials_saved(Err("locked".to_string()));
    assert!(eff.is_none());
    assert_eq!(app.status_message, "Keyring error: locked");
    let eff = app.google_credentials_saved(Ok(()));
    assert!(matches!(eff, Some(AppEffect::RunOauth { .. })));
    assert_eq!(app.status_message, "Waiting for browser authorization\u{2026}");
}

#[test]
fn worker_results_update_state() {
    let mut app = app_on(day(2026, 3, 30));
    let eff = app.handle_worker_result(WorkerResult::CalendarsLoaded(vec![calendar("c1", true)]));
    assert!(matches!(eff, Some(AppEffect::LoadEvents { year: 2026, month: 3 })));
    assert!(!app.loading);
    app.events = vec![event("e1", "c1", "2026-03-30 09:00:00", "2026-03-30 10:00:00")];
    app.handle_worker_result(WorkerResult::EventDeleted("e1".to_string()));
    assert!(app.events.is_empty());
    assert_eq!(app.status_message, "Event deleted.");
    app.handle_worker_result(WorkerResult::GoogleSyncComplete {
        calendar_id: "c1".to_string(),
        events_added: 3,
        events_updated: 1,
    });
    assert_eq!(app.status_message, "Google sync: +3 events, 1 updated.");
    app.handle_worker_result(WorkerResult::Error("boom".to_string()));
    assert!(app.status_is_error);
    app.tick_count = u64::MAX;
    app.handle_tick();
    assert_eq!(app.tick_count, 0);
    assert_eq!(app.spinner_frame(), "\u{2801}");
    assert!(app.cursor_visible());
}

#[test]
fn quit_and_export() {
    let mut app = app_on(day(2026, 3, 30));
    assert!(matches!(app.dispatch(Action::ExportIcal, day(2026, 3, 30)), Some(AppEffect::ExportIcal { .. })));
    app.export_finished(Ok("/tmp/x.ics".to_string()));
    assert_eq!(app.status_message, "Exported to /tmp/x.ics");
    app.dispatch(Action::Quit, day(2026, 3, 30));
    assert!(!app.running);
}

#[test]
fn next_month_then_previous_month_returns() {
    let mut app = app_on(day(2025, 12, 31));
    app.dispatch(Action::NextPeriod, day(2025, 12, 31));
    assert_eq!((app.view_year, app.view_month), (2026, 1));
    assert_eq!(app.focused_date, day(2026, 1, 31));
    app.dispatch(Action::PrevPeriod, day(2025, 12, 31));
    assert_eq!((app.view_year, app.view_month), (2025, 12));
    assert_eq!(app.focused_date, day(2025, 12, 31));
}

#[test]
fn agenda_rows_group_upcoming_events_by_day() {
    let cals = vec![calendar("c1", true), calendar("c2", false)];
    let events = vec![
        event("past", "c1", "2026-03-29 09:00:00", "2026-03-29 10:00:00"),
        event("a", "c1", "2026-03-30 09:00:00", "2026-03-30 10:00:00"),
        event("hidden", "c2", "2026-03-30 11:00:00", "2026-03-30 12:00:00"),
        event("b", "c1", "2026-03-30 13:00:00", "2026-03-30 14:00:00"),
        event("c", "c1", "2026-04-02 09:00:00", "2026-04-02 10:00:00"),
    ];
    let rows = agenda_rows(&events, &cals, day(2026, 3, 30));
    assert_eq!(
        rows,
        vec![
            AgendaRow::Date(day(2026, 3, 30)),
            AgendaRow::Entry(1),
            AgendaRow::Entry(3),
            AgendaRow::Blank,
            AgendaRow::Date(day(2026, 4, 2)),
            AgendaRow::Entry(4),
        ]
    );
}

#[test]
fn hour_slots_and_day_cells() {
    let cals = vec![calendar("c1", true), calendar("c2", true)];
    let events = vec![
        event("a", "c1", "2026-03-30 09:15:00", "2026-03-30 10:45:00"),
        event("b", "c2", "2026-03-30 14:00:00", "2026-03-30 15:00:00"),
        event("c", "c1", "2026-03-30 10:00:00", "2026-03-30 10:30:00"),
        event("d", "c1", "2026-03-31 10:00:00", "2026-03-31 10:30:00"),
    ];
    assert_eq!(hour_slot_events(&events, day(2026, 3, 30), 10), vec![0, 2]);
    assert_eq!(hour_slot_events(&events, day(2026, 3, 30), 8), Vec::<usize>::new());
    assert_eq!(day_events(&events, &cals, day(2026, 3, 30)), vec![0, 1, 2]);
    let titles = day_cell_titles(&events, &cals, day(2026, 3, 30), 2, 4);
    assert_eq!(titles, vec![(0, "Eve\u{2026}".to_string()), (1, "Eve\u{2026}".to_string())]);
    assert_eq!(day_cell_dots(&events, &cals, day(2026, 3, 30), 5), (vec![0, 1], 1));
    assert_eq!(day_cell_dots(&events, &cals, day(2026, 3, 30), 1), (vec![0], 2));
}

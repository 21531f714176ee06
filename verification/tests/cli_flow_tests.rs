//! The command line's flows, with the stored rows kept in memory: each step
//! calls the rule the command applies, then stores what it returns.

use solverforge_calendar::cli::{
    apply_calendar_update, apply_dependency_update, apply_event_update, apply_project_update,
    check_calendar_delete, new_calendar, new_dependency, new_event, new_project,
    parse_timestamp_arg, CalendarCreateArgs, CalendarSourceArg, CalendarUpdateArgs, CliError,
    DependencyCreateArgs, DependencyTypeArg, DependencyUpdateArgs, EventCreateArgs,
    EventUpdateArgs, ProjectCreateArgs, ProjectUpdateArgs,
};
use solverforge_calendar::models::{
    Calendar, CalendarSource, DependencyType, Event, EventDependency, Project,
};

struct Store {
    calendars: Vec<Calendar>,
    projects: Vec<Project>,
    events: Vec<Event>,
    dependencies: Vec<EventDependency>,
}

impl Store {
    /// A fresh database: one local calendar, "Personal".
    fn new() -> Store {
        let mut personal = Calendar::new_local("Personal".to_string(), "#82FB9C".to_string());
        personal.position = 0;
        Store { calendars: vec![personal], projects: Vec::new(), events: Vec::new(), dependencies: Vec::new() }
    }

    fn first_calendar_id(&self) -> String {
        self.calendars[0].id.clone()
    }

    fn calendar_ids(&self) -> Vec<String> {
        self.calendars.iter().filter(|c| c.deleted_at.is_none()).map(|c| c.id.clone()).collect()
    }

    fn project_ids(&self) -> Vec<String> {
        self.projects.iter().filter(|p| p.deleted_at.is_none()).map(|p| p.id.clone()).collect()
    }

    fn event_ids(&self) -> Vec<String> {
        self.events.iter().filter(|e| e.deleted_at.is_none()).map(|e| e.id.clone()).collect()
    }

    fn live_events(&self) -> Vec<&Event> {
        self.events.iter().filter(|e| e.deleted_at.is_none()).collect()
    }

    fn create_event(&mut self, calendar_id: &str, title: &str, start: &str, end: &str) -> Result<Event, CliError> {
        let ev = new_event(
            EventCreateArgs {
                calendar_id: calendar_id.to_string(),
                title: title.to_string(),
                project_id: None,
                description: None,
                location: None,
                start_at: parse_timestamp_arg(start).unwrap(),
                end_at: parse_timestamp_arg(end).unwrap(),
                all_day: false,
                rrule: None,
                reminder_minutes: None,
                timezone: "UTC".to_string(),
            },
            &self.calendar_ids(),
            &self.project_ids(),
        )?;
        self.events.push(ev.clone());
        Ok(ev)
    }

    fn update_event(&mut self, args: EventUpdateArgs) -> Result<Event, CliError> {
        let pos = self.events.iter().position(|e| e.id == args.id).unwrap();
        let updated = apply_event_update(self.events[pos].clone(), args, &self.calendar_ids(), &self.project_ids())?;
        self.events[pos] = updated.clone();
        Ok(updated)
    }
}

fn event_update(id: &str) -> EventUpdateArgs {
    EventUpdateArgs {
        id: id.to_string(),
        calendar_id: None,
        title: None,
        project_id: None,
        clear_project_id: false,
        description: None,
        clear_description: false,
        location: None,
        clear_location: false,
        start_at: None,
        end_at: None,
        all_day: None,
        rrule: None,
        clear_rrule: false,
        reminder_minutes: None,
        clear_reminder_minutes: false,
        timezone: None,
    }
}

#[test]
fn event_crud_works_against_isolated_db() {
    let mut store = Store::new();
    let calendar_id = store.first_calendar_id();
    let created = store
        .create_event(&calendar_id, "Planning", "2026-03-30 09:00:00", "2026-03-30 10:00:00")
        .unwrap();

    let mut args = event_update(&created.id);
    args.location = Some("HQ".to_string());
    args.reminder_minutes = Some(30);
    let updated = store.update_event(args).unwrap();
    assert_eq!(updated.location.as_deref(), Some("HQ"));
    assert_eq!(updated.reminder_minutes, Some(30));

    assert_eq!(store.live_events().len(), 1);
}

#[test]
fn calendar_crud_and_source_validation_work() {
    let mut store = Store::new();
    let invalid_local = new_calendar(CalendarCreateArgs {
        name: "Local".to_string(),
        color: "#123456".to_string(),
        source: CalendarSourceArg::Local,
        google_id: Some("google-local".to_string()),
        visible: true,
        position: 0,
    })
    .unwrap_err();
    assert_eq!(invalid_local.code, "validation_error");

    let created = new_calendar(CalendarCreateArgs {
        name: "Work".to_string(),
        color: "#50f872".to_string(),
        source: CalendarSourceArg::Google,
        google_id: Some("work@example.com".to_string()),
        visible: true,
        position: 0,
    })
    .unwrap();
    store.calendars.push(created.clone());

    let fetched = store.calendars.iter().find(|c| c.id == created.id).unwrap();
    assert_eq!(fetched.google_id.as_deref(), Some("work@example.com"));

    let updated = apply_calendar_update(
        fetched.clone(),
        CalendarUpdateArgs {
            id: created.id.clone(),
            name: Some("Personal".to_string()),
            color: None,
            source: Some(CalendarSourceArg::Local),
            google_id: None,
            visible: None,
            position: None,
        },
    )
    .unwrap();
    assert_eq!(updated.source, CalendarSource::Local);
    assert!(updated.google_id.is_none());
    assert_eq!(updated.name, "Personal");
}

#[test]
fn project_crud_works() {
    let mut store = Store::new();
    let created = new_project(ProjectCreateArgs {
        name: "Launch".to_string(),
        color: "#ffaa00".to_string(),
        description: Some("Initial launch".to_string()),
    })
    .unwrap();
    store.projects.push(created.clone());

    let updated = apply_project_update(
        created.clone(),
        ProjectUpdateArgs {
            id: created.id.clone(),
            name: Some("Launch v2".to_string()),
            color: None,
            description: Some(String::new()),
        },
    )
    .unwrap();
    store.projects[0] = updated.clone();
    assert_eq!(updated.name, "Launch v2");
    assert!(updated.description.is_none());

    assert_eq!(store.project_ids().len(), 1);
}

#[test]
fn events_support_range_lists_and_clear_conflicts() {
    let mut store = Store::new();
    let calendar_id = store.first_calendar_id();
    let project = new_project(ProjectCreateArgs {
        name: "Launch".to_string(),
        color: "#ffaa00".to_string(),
        description: None,
    })
    .unwrap();
    store.projects.push(project.clone());

    let first = new_event(
        EventCreateArgs {
            calendar_id: calendar_id.clone(),
            title: "Planning".to_string(),
            project_id: Some(project.id.clone()),
            description: Some("Discuss plan".to_string()),
            location: None,
            start_at: parse_timestamp_arg("2026-03-30 09:00:00").unwrap(),
            end_at: parse_timestamp_arg("2026-03-30 10:00:00").unwrap(),
            all_day: false,
            rrule: None,
            reminder_minutes: None,
            timezone: "UTC".to_string(),
        },
        &store.calendar_ids(),
        &store.project_ids(),
    )
    .unwrap();
    store.events.push(first.clone());
    store
        .create_event(&calendar_id, "Retro", "2026-03-31 09:00:00", "2026-03-31 10:00:00")
        .unwrap();

    // The stored range query: start at or before `to`, end at or after `from`.
    let from = parse_timestamp_arg("2026-03-30 00:00:00").unwrap();
    let to = parse_timestamp_arg("2026-03-30 23:59:59").unwrap();
    let ranged: Vec<&Event> = store
        .live_events()
        .into_iter()
        .filter(|e| e.start_at <= to && e.end_at >= from)
        .collect();
    assert_eq!(ranged.len(), 1);

    let mut args = event_update(&first.id);
    args.clear_description = true;
    args.clear_project_id = true;
    let cleared = store.update_event(args).unwrap();
    assert!(cleared.description.is_none());
    assert!(cleared.project_id.is_none());

    let mut args = event_update(&first.id);
    args.description = Some("new".to_string());
    args.clear_description = true;
    let conflicting = store.update_event(args).unwrap_err();
    assert_eq!(conflicting.code, "validation_error");
    assert_eq!(conflicting.message, "description cannot be set and cleared at once");
    let stored = store.events.iter().find(|e| e.id == first.id).unwrap();
    assert!(stored.description.is_none());
}

#[test]
fn every_clearable_field_rejects_set_and_clear() {
    let mut store = Store::new();
    let calendar_id = store.first_calendar_id();
    let ev = store
        .create_event(&calendar_id, "A", "2026-03-30 09:00:00", "2026-03-30 10:00:00")
        .unwrap();
    let cases: [(&str, fn(&mut EventUpdateArgs)); 4] = [
        ("project_id", |a| {
            a.project_id = Some("p".to_string());
            a.clear_project_id = true;
        }),
        ("location", |a| {
            a.location = Some("x".to_string());
            a.clear_location = true;
        }),
        ("rrule", |a| {
            a.rrule = Some("FREQ=DAILY".to_string());
            a.clear_rrule = true;
        }),
        ("reminder_minutes", |a| {
            a.reminder_minutes = Some(5);
            a.clear_reminder_minutes = true;
        }),
    ];
    for (field, set) in cases {
        let mut args = event_update(&ev.id);
        set(&mut args);
        let err = store.update_event(args).unwrap_err();
        assert_eq!(err.code, "validation_error");
        assert_eq!(err.message, format!("{} cannot be set and cleared at once", field));
    }
}

#[test]
fn dependency_crud_and_validation_work() {
    let mut store = Store::new();
    let calendar_id = store.first_calendar_id();
    let event_a = store
        .create_event(&calendar_id, "A", "2026-03-30 09:00:00", "2026-03-30 10:00:00")
        .unwrap()
        .id;
    let event_b = store
        .create_event(&calendar_id, "B", "2026-03-30 11:00:00", "2026-03-30 12:00:00")
        .unwrap()
        .id;

    let related = || DependencyCreateArgs {
        from_event_id: event_a.clone(),
        to_event_id: event_b.clone(),
        dependency_type: DependencyTypeArg::Related,
    };
    let created = new_dependency(related(), &store.event_ids(), &store.dependencies).unwrap();
    store.dependencies.push(created.clone());

    let duplicate = new_dependency(related(), &store.event_ids(), &store.dependencies).unwrap_err();
    assert_eq!(duplicate.code, "conflict");

    let updated = apply_dependency_update(
        created.clone(),
        DependencyUpdateArgs {
            id: created.id.clone(),
            from_event_id: None,
            to_event_id: None,
            dependency_type: Some(DependencyTypeArg::Blocks),
        },
        &store.event_ids(),
        &store.dependencies,
    )
    .unwrap();
    assert_eq!(updated.dependency_type.as_str(), "blocks");
    assert_eq!(updated.dependency_type, DependencyType::Blocks);
    store.dependencies[0] = updated;
    assert_eq!(store.dependencies.len(), 1);

    store.dependencies.retain(|d| d.id != created.id);
    assert!(store.dependencies.is_empty());
}

#[test]
fn calendar_delete_requires_explicit_cascade_flag() {
    let mut store = Store::new();
    let work = new_calendar(CalendarCreateArgs {
        name: "Work".to_string(),
        color: "#50f872".to_string(),
        source: CalendarSourceArg::Local,
        google_id: None,
        visible: true,
        position: 0,
    })
    .unwrap();
    store.calendars.push(work.clone());
    store
        .create_event(&work.id, "Standup", "2026-03-30 09:00:00", "2026-03-30 09:30:00")
        .unwrap();

    let active_events = store.live_events().iter().filter(|e| e.calendar_id == work.id).count() as u64;
    let active_calendars = store.calendar_ids().len() as u64;
    let blocked = check_calendar_delete(active_events, false, active_calendars).unwrap_err();
    assert_eq!(blocked.code, "conflict");

    assert!(check_calendar_delete(active_events, true, active_calendars).is_ok());
    for e in store.events.iter_mut().filter(|e| e.calendar_id == work.id) {
        e.deleted_at = Some("2026-03-30 12:00:00".to_string());
    }
    assert!(store.live_events().is_empty());
}

use solverforge_calendar::calendar_service::{
    create_calendar, detaches_google_sync, filter_unimported_google_calendars,
    import_google_calendar, is_google_id_unique_violation, map_write_error, normalize_required,
    update_calendar, validate_calendar_source, CalendarServiceError, CreateCalendarInput,
    UpdateCalendarInput,
};
use solverforge_calendar::google::discovery::DiscoveredGoogleCalendar;
use solverforge_calendar::models::{Calendar, CalendarSource};

fn work_input(google_id: Option<&str>, source: CalendarSource) -> CreateCalendarInput {
    CreateCalendarInput {
        name: "Work".to_string(),
        color: "#50f872".to_string(),
        source,
        google_id: google_id.map(|g| g.to_string()),
        visible: true,
        position: Some(1),
    }
}

#[test]
fn create_google_calendar_requires_google_id() {
    let stored: Vec<Calendar> = Vec::new();
    let err = create_calendar(
        CreateCalendarInput {
            name: "Work".to_string(),
            color: "#50f872".to_string(),
            source: CalendarSource::Google,
            google_id: None,
            visible: true,
            position: None,
        },
        &stored,
        0,
    )
    .unwrap_err();

    assert_eq!(
        err,
        CalendarServiceError::Validation("google calendars require a google_id".to_string())
    );
}

#[test]
fn import_google_calendar_rejects_duplicate_google_id() {
    let discovered = DiscoveredGoogleCalendar {
        google_id: "work@example.com".to_string(),
        name: "Work".to_string(),
        color: "#50f872".to_string(),
        primary: false,
    };
    let mut stored: Vec<Calendar> = Vec::new();
    let first = import_google_calendar(&discovered, None, &stored, 0).unwrap();
    stored.push(first);
    let err = import_google_calendar(&discovered, None, &stored, 1).unwrap_err();
    assert_eq!(
        err,
        CalendarServiceError::Conflict(
            "google calendar 'work@example.com' is already imported".to_string()
        )
    );
}

#[test]
fn update_calendar_to_local_clears_google_id() {
    let created = create_calendar(
        work_input(Some("work@example.com"), CalendarSource::Google),
        &[],
        0,
    )
    .unwrap();
    let stored = vec![created.clone()];
    let updated = update_calendar(
        UpdateCalendarInput {
            id: created.id.clone(),
            name: Some("Personal".to_string()),
            color: None,
            source: Some(CalendarSource::Local),
            google_id: None,
            visible: None,
            position: None,
        },
        Some(created),
        &stored,
    )
    .unwrap();

    assert_eq!(updated.source, CalendarSource::Local);
    assert_eq!(updated.google_id, None);
    assert_eq!(updated.name, "Personal");
}

#[test]
fn update_calendar_to_local_detaches_event_sync_state() {
    let created = create_calendar(
        work_input(Some("work@example.com"), CalendarSource::Google),
        &[],
        0,
    )
    .unwrap();
    let stored = vec![created.clone()];
    let updated = update_calendar(
        UpdateCalendarInput {
            id: created.id.clone(),
            name: None,
            color: None,
            source: Some(CalendarSource::Local),
            google_id: None,
            visible: None,
            position: None,
        },
        Some(created.clone()),
        &stored,
    )
    .unwrap();
    assert_eq!(updated.source, CalendarSource::Local);
    assert_eq!(updated.google_id, None);
    assert!(detaches_google_sync(&created, &updated));
    assert!(!detaches_google_sync(&updated, &updated));
}

#[test]
fn update_calendar_rejects_google_id_changes_for_existing_google_calendar() {
    let created = create_calendar(
        work_input(Some("work@example.com"), CalendarSource::Google),
        &[],
        0,
    )
    .unwrap();
    let stored = vec![created.clone()];
    let err = update_calendar(
        UpdateCalendarInput {
            id: created.id.clone(),
            name: None,
            color: None,
            source: Some(CalendarSource::Google),
            google_id: Some(Some("personal@example.com".to_string())),
            visible: None,
            position: None,
        },
        Some(created),
        &stored,
    )
    .unwrap_err();

    assert_eq!(
        err,
        CalendarServiceError::Validation(
            "changing google_id on an existing google calendar is not supported".to_string()
        )
    );
}

#[test]
fn filter_unimported_google_calendars_excludes_existing_rows() {
    let imported = import_google_calendar(
        &DiscoveredGoogleCalendar {
            google_id: "work@example.com".to_string(),
            name: "Work".to_string(),
            color: "#50f872".to_string(),
            primary: false,
        },
        None,
        &[],
        0,
    )
    .unwrap();
    let stored = vec![imported];

    let filtered = filter_unimported_google_calendars(
        &stored,
        vec![
            DiscoveredGoogleCalendar {
                google_id: "work@example.com".to_string(),
                name: "Work".to_string(),
                color: "#50f872".to_string(),
                primary: false,
            },
            DiscoveredGoogleCalendar {
                google_id: "personal@example.com".to_string(),
                name: "Personal".to_string(),
                color: "#ffaa00".to_string(),
                primary: true,
            },
        ],
    );

    assert_eq!(filtered.len(), 1);
    assert_eq!(filtered[0].google_id, "personal@example.com");
}

#[test]
fn create_calendar_trims_and_takes_next_position() {
    let cal = create_calendar(
        CreateCalendarInput {
            name: "  Home ".to_string(),
            color: " #123456".to_string(),
            source: CalendarSource::Local,
            google_id: Some("   ".to_string()),
            visible: false,
            position: None,
        },
        &[],
        7,
    )
    .unwrap();
    assert_eq!(cal.name, "Home");
    assert_eq!(cal.color, "#123456");
    assert_eq!(cal.google_id, None);
    assert_eq!(cal.position, 7);
    assert!(!cal.visible);
    assert_eq!(cal.id.len(), 36);
    assert_eq!(cal.created_at, cal.updated_at);
}

#[test]
fn local_calendar_cannot_have_google_id() {
    let err = create_calendar(work_input(Some("x@example.com"), CalendarSource::Local), &[], 0)
        .unwrap_err();
    assert_eq!(
        err,
        CalendarServiceError::Validation("local calendars cannot set a google_id".to_string())
    );
}

#[test]
fn blank_name_is_rejected() {
    let mut input = work_input(None, CalendarSource::Local);
    input.name = "   ".to_string();
    assert_eq!(
        create_calendar(input, &[], 0).unwrap_err(),
        CalendarServiceError::Validation("name cannot be empty".to_string())
    );
    assert_eq!(
        normalize_required("\t".to_string(), "color").unwrap_err().to_string(),
        "color cannot be empty"
    );
}

#[test]
fn update_of_missing_calendar_is_not_found() {
    let err = update_calendar(
        UpdateCalendarInput {
            id: "nope".to_string(),
            name: None,
            color: None,
            source: None,
            google_id: None,
            visible: None,
            position: None,
        },
        None,
        &[],
    )
    .unwrap_err();
    assert_eq!(err.to_string(), "calendar 'nope' not found");
}

#[test]
fn update_keeps_own_google_id() {
    let created = create_calendar(
        work_input(Some("work@example.com"), CalendarSource::Google),
        &[],
        0,
    )
    .unwrap();
    let stored = vec![created.clone()];
    let updated = update_calendar(
        UpdateCalendarInput {
            id: created.id.clone(),
            name: None,
            color: Some("#000000".to_string()),
            source: None,
            google_id: None,
            visible: Some(false),
            position: Some(3),
        },
        Some(created),
        &stored,
    )
    .unwrap();
    assert_eq!(updated.google_id.as_deref(), Some("work@example.com"));
    assert_eq!(updated.color, "#000000");
    assert!(!updated.visible);
    assert_eq!(updated.position, 3);
}

#[test]
fn source_rule_and_write_errors() {
    assert!(validate_calendar_source(CalendarSource::Google, Some("g")).is_ok());
    assert!(validate_calendar_source(CalendarSource::Local, None).is_ok());
    assert_eq!(
        map_write_error(true, "boom".to_string(), Some("g@example.com")),
        CalendarServiceError::Conflict("google calendar 'g@example.com' is already imported".to_string())
    );
    assert_eq!(
        map_write_error(true, "boom".to_string(), None),
        CalendarServiceError::Conflict("google calendar is already imported".to_string())
    );
    assert_eq!(
        map_write_error(false, "boom".to_string(), None),
        CalendarServiceError::Internal("boom".to_string())
    );
    assert!(is_google_id_unique_violation(
        true,
        Some("UNIQUE constraint failed: calendars.google_id")
    ));
    assert!(is_google_id_unique_violation(true, None));
    assert!(!is_google_id_unique_violation(true, Some("UNIQUE constraint failed: events.id")));
    assert!(!is_google_id_unique_violation(false, None));
}

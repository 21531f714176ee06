use solverforge_calendar::cli::{
    apply_calendar_update, apply_dependency_update, apply_event_update, apply_project_update,
    calendar_source_from_arg, check_calendar_delete, check_project_delete,
    dependency_type_from_arg, ensure_title, new_calendar, new_dependency, new_event, new_project,
    non_empty, normalize_optional, parse_timestamp_arg, require_resource, select_sync_calendars,
    validate_dependency_edge, validate_dependency_endpoints, validate_event_datetime,
    CalendarCreateArgs, CalendarSourceArg, CalendarUpdateArgs, CliError, DependencyCreateArgs,
    DependencyTypeArg, DependencyUpdateArgs, EventCreateArgs, EventUpdateArgs, ProjectCreateArgs,
    ProjectUpdateArgs,
};
use solverforge_calendar::dag::EventDag;
use solverforge_calendar::models::{CalendarSource, DependencyType, EventDependency};

fn dep(id: &str, from: &str, to: &str, t: DependencyType) -> EventDependency {
    EventDependency {
        id: id.to_string(),
        from_event_id: from.to_string(),
        to_event_id: to.to_string(),
        dependency_type: t,
        created_at: "2026-03-30 10:00:00".to_string(),
        updated_at: "2026-03-30 10:00:00".to_string(),
    }
}

#[test]
fn blocks_cycle_is_rejected() {
    let deps = vec![dep("d1", "a", "b", DependencyType::Blocks)];
    let err = validate_dependency_edge(&deps, "b", "a", DependencyType::Blocks, None).unwrap_err();
    assert_eq!(err.code, "conflict");
    assert_eq!(err.message, "dependency would create a cycle in blocks edges");
    assert!(validate_dependency_edge(&deps, "b", "a", DependencyType::Related, None).is_ok());
}

#[test]
fn project_delete_requires_detach_flag() {
    let err = check_project_delete(1, false).unwrap_err();
    assert_eq!(err.code, "conflict");
}

#[test]
fn project_delete_with_detach_clears_project_id() {
    assert!(check_project_delete(1, true).is_ok());
    assert!(check_project_delete(0, false).is_ok());
}

#[test]
fn duplicate_edge_is_rejected_unless_it_is_the_edited_one() {
    let deps = vec![dep("d1", "a", "b", DependencyType::Related)];
    let err = validate_dependency_edge(&deps, "a", "b", DependencyType::Blocks, None).unwrap_err();
    assert_eq!(err.message, "dependency edge already exists");
    assert!(validate_dependency_edge(&deps, "a", "b", DependencyType::Blocks, Some("d1")).is_ok());
}

#[test]
fn dependency_endpoints_are_checked() {
    let ids = vec!["a".to_string(), "b".to_string()];
    assert_eq!(
        validate_dependency_endpoints("a", "a", &ids).unwrap_err().message,
        "dependency endpoints must reference two distinct events"
    );
    let err = validate_dependency_endpoints("a", "z", &ids).unwrap_err();
    assert_eq!(err.code, "not_found");
    assert_eq!(err.message, "event 'z' not found");
    assert!(validate_dependency_endpoints("a", "b", &ids).is_ok());
}

#[test]
fn new_dependency_and_update() {
    let ids = vec!["a".to_string(), "b".to_string(), "c".to_string()];
    let deps = vec![dep("d1", "a", "b", DependencyType::Blocks)];
    let d = new_dependency(
        DependencyCreateArgs {
            from_event_id: "b".to_string(),
            to_event_id: "c".to_string(),
            dependency_type: DependencyTypeArg::Blocks,
        },
        &ids,
        &deps,
    )
    .unwrap();
    assert_eq!(d.dependency_type, DependencyType::Blocks);
    assert_eq!(d.from_event_id, "b");
    let err = apply_dependency_update(
        deps[0].clone(),
        DependencyUpdateArgs {
            id: "d1".to_string(),
            from_event_id: Some("b".to_string()),
            to_event_id: Some("b".to_string()),
            dependency_type: None,
        },
        &ids,
        &deps,
    )
    .unwrap_err();
    assert_eq!(err.code, "validation_error");
    let updated = apply_dependency_update(
        deps[0].clone(),
        DependencyUpdateArgs {
            id: "d1".to_string(),
            from_event_id: None,
            to_event_id: None,
            dependency_type: Some(DependencyTypeArg::Related),
        },
        &ids,
        &deps,
    )
    .unwrap();
    assert_eq!(updated.dependency_type, DependencyType::Related);
    assert_eq!(dependency_type_from_arg(DependencyTypeArg::Blocks), DependencyType::Blocks);
}

#[test]
fn calendar_create_validates_source() {
    let err = new_calendar(CalendarCreateArgs {
        name: "Local".to_string(),
        color: "#123456".to_string(),
        source: CalendarSourceArg::Local,
        google_id: Some("google-local".to_string()),
        visible: true,
        position: 0,
    })
    .unwrap_err();
    assert_eq!(err.code, "validation_error");
    let cal = new_calendar(CalendarCreateArgs {
        name: " Work ".to_string(),
        color: "#50f872".to_string(),
        source: CalendarSourceArg::Google,
        google_id: Some("work@example.com".to_string()),
        visible: true,
        position: 2,
    })
    .unwrap();
    assert_eq!(cal.name, "Work");
    assert_eq!(cal.source, CalendarSource::Google);
    let updated = apply_calendar_update(
        cal,
        CalendarUpdateArgs {
            id: String::new(),
            name: Some("Personal".to_string()),
            color: None,
            source: Some(CalendarSourceArg::Local),
            google_id: None,
            visible: None,
            position: None,
        },
    )
    .unwrap();
    assert_eq!(updated.source, CalendarSource::Local);
    assert_eq!(updated.google_id, None);
    assert_eq!(updated.name, "Personal");
    assert_eq!(calendar_source_from_arg(CalendarSourceArg::Google), CalendarSource::Google);
}

#[test]
fn calendar_delete_rules() {
    assert_eq!(check_calendar_delete(0, false, 1).unwrap_err().message, "cannot delete the last active calendar");
    assert_eq!(check_calendar_delete(3, false, 2).unwrap_err().code, "conflict");
    assert!(check_calendar_delete(3, true, 2).is_ok());
    assert!(check_calendar_delete(0, false, 2).is_ok());
}

#[test]
fn project_create_and_update() {
    let p = new_project(ProjectCreateArgs {
        name: "Launch".to_string(),
        color: "#ffaa00".to_string(),
        description: Some("Initial launch".to_string()),
    })
    .unwrap();
    assert_eq!(p.description.as_deref(), Some("Initial launch"));
    let p2 = apply_project_update(
        p,
        ProjectUpdateArgs { id: String::new(), name: Some("Launch v2".to_string()), color: None, description: Some("  ".to_string()) },
    )
    .unwrap();
    assert_eq!(p2.name, "Launch v2");
    assert_eq!(p2.description, None);
    let err = new_project(ProjectCreateArgs { name: " ".to_string(), color: "#fff".to_string(), description: None }).unwrap_err();
    assert_eq!(err.message, "name cannot be empty");
}

fn create_args() -> EventCreateArgs {
    EventCreateArgs {
        calendar_id: "cal".to_string(),
        title: " Planning ".to_string(),
        project_id: None,
        description: Some("Discuss plan".to_string()),
        location: None,
        start_at: "2026-03-30 09:00:00".to_string(),
        end_at: "2026-03-30 10:00:00".to_string(),
        all_day: false,
        rrule: None,
        reminder_minutes: None,
        timezone: "UTC".to_string(),
    }
}

#[test]
fn event_create_and_update() {
    let cals = vec!["cal".to_string()];
    let projects = vec!["p1".to_string()];
    let ev = new_event(create_args(), &cals, &projects).unwrap();
    assert_eq!(ev.title, "Planning");
    let mut bad = create_args();
    bad.end_at = "2026-03-30 08:00:00".to_string();
    assert_eq!(
        new_event(bad, &cals, &projects).unwrap_err().message,
        "end_at must be greater than or equal to start_at"
    );
    let mut missing = create_args();
    missing.project_id = Some("nope".to_string());
    assert_eq!(new_event(missing, &cals, &projects).unwrap_err().message, "project 'nope' not found");

    let upd = EventUpdateArgs {
        id: ev.id.clone(),
        calendar_id: None,
        title: None,
        project_id: None,
        clear_project_id: true,
        description: None,
        clear_description: true,
        location: Some("HQ".to_string()),
        clear_location: false,
        start_at: None,
        end_at: None,
        all_day: None,
        rrule: None,
        clear_rrule: false,
        reminder_minutes: Some(30),
        clear_reminder_minutes: false,
        timezone: None,
    };
    let ev2 = apply_event_update(ev, upd, &cals, &projects).unwrap();
    assert_eq!(ev2.description, None);
    assert_eq!(ev2.location.as_deref(), Some("HQ"));
    assert_eq!(ev2.reminder_minutes, Some(30));
}

#[test]
fn small_validators() {
    assert!(ensure_title("  ").is_err());
    assert_eq!(non_empty(" UTC ".to_string(), "timezone").unwrap(), "UTC");
    assert_eq!(non_empty(" ".to_string(), "timezone").unwrap_err().message, "timezone cannot be empty");
    assert_eq!(normalize_optional(Some("  x ".to_string())), Some("x".to_string()));
    assert_eq!(normalize_optional(Some("  ".to_string())), None);
    assert_eq!(validate_event_datetime("bad", "2026-03-30 10:00:00").unwrap_err().message, "invalid start_at timestamp");
    assert_eq!(parse_timestamp_arg("2026-03-30 00:00:00").unwrap(), "2026-03-30 00:00:00");
    assert_eq!(
        parse_timestamp_arg("tomorrow").unwrap_err(),
        "invalid timestamp 'tomorrow'; expected YYYY-MM-DD HH:MM:SS"
    );
    let r: Result<u8, CliError> = require_resource(None, "event", "e1");
    assert_eq!(r.unwrap_err().message, "event 'e1' not found");
    assert_eq!(CliError::invalid_arguments("bad".to_string()).code, "invalid_arguments");
    assert_eq!(CliError::external("x".to_string()).code, "external_error");
    assert_eq!(CliError::internal("x".to_string()).code, "internal_error");
}

#[test]
fn sync_selection_needs_a_google_calendar() {
    let err = select_sync_calendars(Vec::new(), None).unwrap_err();
    assert_eq!(err.message, "no google calendars found to sync");
    let err = select_sync_calendars(Vec::new(), Some("c1")).unwrap_err();
    assert_eq!(err.message, "google calendar 'c1' not found");
}

#[test]
fn validated_blocks_links_never_form_a_cycle() {
    let mut deps: Vec<EventDependency> = Vec::new();
    let wanted = [("a", "b"), ("b", "c"), ("c", "a"), ("a", "c"), ("c", "d"), ("d", "b")];
    for (i, (from, to)) in wanted.iter().enumerate() {
        if validate_dependency_edge(&deps, from, to, DependencyType::Blocks, None).is_ok() {
            deps.push(dep(&format!("d{}", i), from, to, DependencyType::Blocks));
        }
    }
    assert_eq!(deps.len(), 4);
    let dag = EventDag::from_dependencies(&deps);
    let order = dag.topological_sort().unwrap();
    for d in &deps {
        let f = order.iter().position(|x| *x == d.from_event_id).unwrap();
        let t = order.iter().position(|x| *x == d.to_event_id).unwrap();
        assert!(f < t);
    }
}

#[test]
fn timestamp_argument_is_its_own_canonical_form() {
    let once = parse_timestamp_arg("2026-3-5 9:07:05").unwrap();
    assert_eq!(once, "2026-03-05 09:07:05");
    assert_eq!(parse_timestamp_arg(&once).unwrap(), once);
    let leap = parse_timestamp_arg("2016-12-31 23:59:60").unwrap();
    assert_eq!(parse_timestamp_arg(&leap).unwrap(), leap);
    assert_eq!(
        parse_timestamp_arg("2026-03-30T09:00:00").unwrap_err(),
        "invalid timestamp '2026-03-30T09:00:00'; expected YYYY-MM-DD HH:MM:SS"
    );
}

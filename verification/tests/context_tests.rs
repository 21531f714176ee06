use solverforge_calendar::dag::EventDag;
use solverforge_calendar::models::{Calendar, DependencyType, Event, EventDependency, Project};
use solverforge_calendar::ui::context::{project_context, project_progress};

fn calendar(id: &str, visible: bool) -> Calendar {
    let mut c = Calendar::new_local(format!("Cal {}", id), "#50f872".to_string());
    c.id = id.to_string();
    c.visible = visible;
    c
}

fn event(id: &str, cal: &str, project: Option<&str>) -> Event {
    let mut e = Event::new(
        cal.to_string(),
        format!("Event {}", id),
        "2026-03-30 09:00:00".to_string(),
        "2026-03-30 10:00:00".to_string(),
        "UTC".to_string(),
    );
    e.id = id.to_string();
    e.project_id = project.map(|p| p.to_string());
    e
}

fn fixture() -> (Vec<Calendar>, Vec<Event>, EventDag) {
    let cals = vec![calendar("c1", true), calendar("c2", false)];
    let events = vec![
        event("a", "c1", Some("P")),
        event("b", "c1", Some("P")),
        event("c", "c1", Some("P")),
        event("d", "c2", Some("P")),
        event("x", "c1", None),
        event("q", "c1", Some("Q")),
    ];
    let mut dag = EventDag::new();
    dag.add_edge("a", "b").unwrap();
    dag.add_edge("b", "c").unwrap();
    dag.add_edge("x", "c").unwrap();
    dag.add_edge("ghost", "c").unwrap();
    (cals, events, dag)
}

#[test]
fn project_progress_counts_shown_events_and_distinct_completions() {
    let (cals, events, _) = fixture();
    let completed = vec!["a".to_string(), "a".to_string(), "d".to_string(), "q".to_string()];
    assert_eq!(project_progress(&events, &cals, &completed, "P"), (3, 1));
    assert_eq!(project_progress(&events, &cals, &completed, "Q"), (1, 1));
    assert_eq!(project_progress(&events, &cals, &completed, "none"), (0, 0));
}

#[test]
fn project_context_names_next_event_and_blockers() {
    let (cals, events, dag) = fixture();
    let completed = vec!["a".to_string()];
    let ctx = project_context(&events, &cals, &dag, &completed, "c", "P");
    assert_eq!(ctx.total, 3);
    assert_eq!(ctx.completed, 1);
    assert_eq!(ctx.next, Some(1));
    let mut blockers = ctx.blockers.clone();
    blockers.sort();
    assert_eq!(blockers, vec![1, 4]);
}

#[test]
fn project_context_without_actionable_event_has_no_next() {
    let (cals, events, dag) = fixture();
    let completed = vec!["a".to_string(), "b".to_string(), "c".to_string()];
    let ctx = project_context(&events, &cals, &dag, &completed, "a", "P");
    assert_eq!(ctx.total, 3);
    assert_eq!(ctx.completed, 3);
    assert_eq!(ctx.next, None);
    assert!(ctx.blockers.is_empty());
}

#[test]
fn project_context_uses_first_event_with_a_blocker_id() {
    let cals = vec![calendar("c1", true)];
    let events = vec![event("t", "c1", Some("P")), event("b", "c1", None), event("b", "c1", None)];
    let mut dag = EventDag::new();
    dag.add_edge("b", "t").unwrap();
    let ctx = project_context(&events, &cals, &dag, &Vec::new(), "t", "P");
    assert_eq!(ctx.blockers, vec![1]);
    assert_eq!(ctx.next, None);
}

#[test]
fn new_records_get_hyphenated_uuid_ids() {
    let c = Calendar::new_local("Work".to_string(), "#fff".to_string());
    let p = Project::new("Launch".to_string(), "#000".to_string());
    let e = Event::new(
        c.id.clone(),
        "Meet".to_string(),
        "2026-03-30 09:00:00".to_string(),
        "2026-03-30 10:00:00".to_string(),
        "UTC".to_string(),
    );
    let d = EventDependency::new(e.id.clone(), "other".to_string(), DependencyType::Blocks);
    for id in [&c.id, &p.id, &e.id, &d.id] {
        assert_eq!(id.chars().count(), 36);
        assert_eq!(id.matches('-').count(), 4);
    }
    assert_ne!(c.id, p.id);
}

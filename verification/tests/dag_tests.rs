use solverforge_calendar::dag::EventDag;
use solverforge_calendar::models::{DependencyType, EventDependency};

#[test]
fn test_topological_sort() {
    let mut dag = EventDag::new();
    dag.add_edge("A", "B").unwrap();
    dag.add_edge("B", "C").unwrap();
    let sorted = dag.topological_sort().unwrap();
    let a_pos = sorted.iter().position(|x| x == "A").unwrap();
    let b_pos = sorted.iter().position(|x| x == "B").unwrap();
    let c_pos = sorted.iter().position(|x| x == "C").unwrap();
    assert!(a_pos < b_pos);
    assert!(b_pos < c_pos);
}

#[test]
fn test_cycle_detection() {
    let mut dag = EventDag::new();
    dag.add_edge("A", "B").unwrap();
    dag.add_edge("B", "C").unwrap();
    assert!(dag.add_edge("C", "A").is_err());
}

#[test]
fn test_critical_path() {
    let mut dag = EventDag::new();
    dag.add_edge("A", "B").unwrap();
    dag.add_edge("B", "C").unwrap();
    dag.add_edge("A", "D").unwrap();
    // A→B→C is length 2, A→D is length 1
    assert_eq!(dag.critical_path_from("A"), 2);
}

#[test]
fn test_next_actionable() {
    let mut dag = EventDag::new();
    dag.add_edge("A", "B").unwrap();
    dag.add_edge("B", "C").unwrap();
    let completed: Vec<String> = vec!["A".to_string()];
    let all = ["A", "B", "C"];
    let actionable = dag.next_actionable(&all, &completed);
    assert!(actionable.contains(&"B".to_string()));
    assert!(!actionable.contains(&"C".to_string()));
}

#[test]
fn self_loop_is_a_cycle() {
    let mut dag = EventDag::new();
    assert_eq!(dag.add_edge("A", "A"), Err("cycle detected"));
    assert_eq!(dag.topological_sort(), Some(Vec::new()));
}

#[test]
fn rejected_edge_leaves_graph_unchanged() {
    let mut dag = EventDag::new();
    dag.add_edge("A", "B").unwrap();
    assert!(dag.add_edge("B", "A").is_err());
    assert!(dag.can_reach("A", "B"));
    assert!(!dag.can_reach("B", "A"));
}

#[test]
fn reachability_is_transitive() {
    let mut dag = EventDag::new();
    dag.add_edge("A", "B").unwrap();
    dag.add_edge("B", "C").unwrap();
    assert!(dag.can_reach("A", "C"));
    assert!(!dag.can_reach("C", "A"));
    assert!(dag.can_reach("A", "A"));
}

#[test]
fn direct_blockers_are_one_hop() {
    let mut dag = EventDag::new();
    dag.add_edge("A", "C").unwrap();
    dag.add_edge("B", "C").unwrap();
    dag.add_edge("X", "A").unwrap();
    let mut blockers = dag.direct_blockers("C");
    blockers.sort();
    assert_eq!(blockers, vec!["A".to_string(), "B".to_string()]);
    assert!(dag.direct_blockers("X").is_empty());
}

#[test]
fn from_dependencies_skips_related_links() {
    let deps = vec![
        EventDependency::new("A".to_string(), "B".to_string(), DependencyType::Blocks),
        EventDependency::new("B".to_string(), "C".to_string(), DependencyType::Related),
    ];
    let dag = EventDag::from_dependencies(&deps);
    assert!(dag.can_reach("A", "B"));
    assert!(!dag.can_reach("B", "C"));
}

#[test]
fn topological_sort_of_empty_graph_is_empty() {
    let dag = EventDag::new();
    assert_eq!(dag.topological_sort(), Some(Vec::new()));
}

#[test]
fn critical_path_of_a_leaf_is_zero() {
    let mut dag = EventDag::new();
    dag.add_edge("A", "B").unwrap();
    assert_eq!(dag.critical_path_from("B"), 0);
    assert_eq!(dag.critical_path_from("unknown"), 0);
    assert_eq!(dag.longest_path("A"), 1);
}

#[test]
fn completed_events_are_not_actionable() {
    let mut dag = EventDag::new();
    dag.add_edge("A", "B").unwrap();
    let completed: Vec<String> = vec!["A".to_string(), "B".to_string()];
    let all = ["A", "B"];
    assert!(dag.next_actionable(&all, &completed).is_empty());
    let none: Vec<String> = Vec::new();
    assert_eq!(dag.next_actionable(&all, &none), vec!["A".to_string()]);
}

#[test]
fn default_graph_is_empty() {
    let dag = EventDag::default();
    assert_eq!(dag.topological_sort(), Some(Vec::new()));
    assert!(!dag.can_reach("A", "B"));
}

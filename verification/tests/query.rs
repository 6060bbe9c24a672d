use snark_coordinator::event::SnarkWorkerStatsPut;
use snark_coordinator::query::{selects, window_of};
use snark_coordinator::registry::WorkerRegistry;
use snark_coordinator::state::SnarkWorkerState;
use snark_coordinator::text::split_commas;
use std::collections::VecDeque;

fn job_get_success(time: u64, ids: &str) -> SnarkWorkerStatsPut {
    SnarkWorkerStatsPut::JobGetSuccess {
        time,
        job_get_node_received_t: None,
        job_get_node_request_work_init_t: None,
        job_get_node_request_work_success_t: None,
        ids: ids.to_string(),
    }
}

fn span(start: u64, end: u64) -> SnarkWorkerState {
    SnarkWorkerState::WorkCreatePending {
        job_get_init_t: start,
        job_get_node_received_t: None,
        job_get_node_request_work_init_t: None,
        job_get_node_request_work_success_t: None,
        job_get_success_t: end,
        ids: "a".to_string(),
    }
}

fn cycles(registry: &mut WorkerRegistry, id: &str, spans: &[(u64, u64)]) {
    for (start, end) in spans {
        registry.ensure_and_apply(id.to_string(), SnarkWorkerStatsPut::JobGetInit { time: *start }).unwrap();
        registry.ensure_and_apply(id.to_string(), job_get_success(*end, "a")).unwrap();
    }
}

fn two_workers() -> WorkerRegistry {
    let mut registry = WorkerRegistry::new();
    cycles(&mut registry, "w_1", &[(10, 19), (20, 29), (30, 39), (40, 49)]);
    cycles(&mut registry, "w_2", &[(15, 25), (35, 45)]);
    registry
}

fn owned(answers: Vec<(&String, Vec<&SnarkWorkerState>)>) -> Vec<(String, Vec<SnarkWorkerState>)> {
    answers
        .into_iter()
        .map(|(id, states)| (id.clone(), states.into_iter().cloned().collect()))
        .collect()
}

#[test]
fn query_without_bounds_returns_every_history_newest_first() {
    let registry = two_workers();
    assert_eq!(
        owned(registry.query(None, None, None)),
        vec![
            ("w_1".to_string(), vec![span(40, 49), span(30, 39), span(20, 29), span(10, 19)]),
            ("w_2".to_string(), vec![span(35, 45), span(15, 25)]),
        ]
    );
}

#[test]
fn query_window_for_one_worker() {
    let registry = two_workers();
    let filter = split_commas("w_1");
    assert_eq!(
        owned(registry.query(Some(&filter), Some(20), Some(39))),
        vec![("w_1".to_string(), vec![span(30, 39), span(20, 29)])]
    );
}

#[test]
fn query_bounds_are_inclusive() {
    let registry = two_workers();
    let filter = vec!["w_1".to_string()];
    assert_eq!(
        owned(registry.query(Some(&filter), Some(30), Some(39))),
        vec![("w_1".to_string(), vec![span(30, 39)])]
    );
    assert_eq!(
        owned(registry.query(Some(&filter), Some(31), Some(39))),
        vec![("w_1".to_string(), vec![])]
    );
    assert_eq!(
        owned(registry.query(Some(&filter), Some(30), Some(38))),
        vec![("w_1".to_string(), vec![])]
    );
    assert_eq!(
        owned(registry.query(Some(&filter), Some(20), Some(38))),
        vec![("w_1".to_string(), vec![span(20, 29)])]
    );
}

#[test]
fn query_with_lower_bound_only() {
    let registry = two_workers();
    assert_eq!(
        owned(registry.query(None, Some(30), None)),
        vec![
            ("w_1".to_string(), vec![span(40, 49), span(30, 39)]),
            ("w_2".to_string(), vec![span(35, 45)]),
        ]
    );
}

#[test]
fn query_with_upper_bound_only() {
    let registry = two_workers();
    assert_eq!(
        owned(registry.query(None, None, Some(29))),
        vec![
            ("w_1".to_string(), vec![span(20, 29), span(10, 19)]),
            ("w_2".to_string(), vec![span(15, 25)]),
        ]
    );
}

#[test]
fn query_outside_every_cycle_is_empty_per_worker() {
    let registry = two_workers();
    assert_eq!(
        owned(registry.query(None, Some(100), None)),
        vec![("w_1".to_string(), vec![]), ("w_2".to_string(), vec![])]
    );
    assert_eq!(
        owned(registry.query(None, None, Some(5))),
        vec![("w_1".to_string(), vec![]), ("w_2".to_string(), vec![])]
    );
    assert_eq!(
        owned(registry.query(None, Some(50), Some(10))),
        vec![("w_1".to_string(), vec![]), ("w_2".to_string(), vec![])]
    );
}

#[test]
fn query_filter_names_exact_identifiers() {
    let registry = two_workers();
    let filter = split_commas("w_2,w,W_1,w_1 ,nobody");
    assert_eq!(
        owned(registry.query(Some(&filter), None, None)),
        vec![("w_2".to_string(), vec![span(35, 45), span(15, 25)])]
    );
    let both = split_commas("w_2,w_1,w_2");
    assert_eq!(
        owned(registry.query(Some(&both), Some(40), None)),
        vec![("w_1".to_string(), vec![span(40, 49)]), ("w_2".to_string(), vec![])]
    );
    let none = split_commas("");
    assert_eq!(owned(registry.query(Some(&none), None, None)), vec![]);
}

#[test]
fn query_does_not_change_the_registry() {
    let registry = two_workers();
    let before = registry.history(&"w_1".to_string());
    let _ = registry.query(None, Some(20), Some(30));
    assert_eq!(registry.history(&"w_1".to_string()), before);
    assert_eq!(registry.workers(), vec!["w_1", "w_2"]);
}

#[test]
fn window_stops_at_the_first_snapshot_that_starts_too_early() {
    let history: VecDeque<SnarkWorkerState> =
        vec![span(50, 55), span(5, 45), span(30, 35)].into_iter().collect();
    let cut = window_of(&history, Some(10), None);
    assert_eq!(cut, vec![&span(50, 55)]);
}

#[test]
fn window_of_an_unordered_history_may_hold_later_ends() {
    let history: VecDeque<SnarkWorkerState> =
        vec![span(1, 5), span(2, 10), span(0, 3)].into_iter().collect();
    let cut = window_of(&history, Some(1), Some(7));
    assert_eq!(cut, vec![&span(1, 5), &span(2, 10)]);
}

#[test]
fn window_of_registered_snapshot_uses_the_registration_time() {
    let mut registry = WorkerRegistry::new();
    let id = registry.register("w", 50).unwrap();
    assert_eq!(
        owned(registry.query(None, Some(50), Some(50))),
        vec![(id.clone(), vec![SnarkWorkerState::Registered { registered_t: 50 }])]
    );
    assert_eq!(owned(registry.query(None, Some(51), None)), vec![(id.clone(), vec![])]);
    assert_eq!(owned(registry.query(None, None, Some(49))), vec![(id, vec![])]);
}

#[test]
fn window_of_empty_history_is_empty() {
    let history: VecDeque<SnarkWorkerState> = VecDeque::new();
    assert_eq!(window_of(&history, None, None), Vec::<&SnarkWorkerState>::new());
    assert_eq!(window_of(&history, Some(1), Some(2)), Vec::<&SnarkWorkerState>::new());
}

#[test]
fn selects_matches_exactly_or_everything() {
    let names = vec!["w_1".to_string(), "".to_string()];
    assert!(selects(None, &"anything".to_string()));
    assert!(selects(Some(&names), &"w_1".to_string()));
    assert!(selects(Some(&names), &"".to_string()));
    assert!(!selects(Some(&names), &"w_2".to_string()));
    assert!(!selects(Some(&names), &"W_1".to_string()));
    assert!(!selects(Some(&Vec::new()), &"w_1".to_string()));
}

#[test]
fn query_listed_splits_the_filter_at_commas() {
    let registry = two_workers();
    assert_eq!(
        owned(registry.query_listed(Some("w_2,w_1"), Some(40), None)),
        vec![("w_1".to_string(), vec![span(40, 49)]), ("w_2".to_string(), vec![])]
    );
    assert_eq!(
        owned(registry.query_listed(Some("w_1"), Some(20), Some(39))),
        vec![("w_1".to_string(), vec![span(30, 39), span(20, 29)])]
    );
    assert_eq!(owned(registry.query_listed(Some(""), None, None)), vec![]);
    assert_eq!(owned(registry.query_listed(Some("w_1 ,w_3"), None, None)), vec![]);
    assert_eq!(
        owned(registry.query_listed(None, None, None)),
        owned(registry.query(None, None, None))
    );
}

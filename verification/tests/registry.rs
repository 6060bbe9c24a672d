use snark_coordinator::encode::{string_list_json, written_or_refused, EncodeError};
use snark_coordinator::event::{SnarkWorkerJobGetError, SnarkWorkerStatsPut};
use snark_coordinator::registry::{PutReply, WorkerRegistry, WorkerStatsError, MAX_INSTANCES};
use snark_coordinator::reply::{put_reply_body, put_status_code};
use snark_coordinator::state::SnarkWorkerState;

fn job_get_success(time: u64, ids: &str) -> SnarkWorkerStatsPut {
    SnarkWorkerStatsPut::JobGetSuccess {
        time,
        job_get_node_received_t: None,
        job_get_node_request_work_init_t: None,
        job_get_node_request_work_success_t: None,
        ids: ids.to_string(),
    }
}

fn work_create_pending(init: u64, time: u64, ids: &str) -> SnarkWorkerState {
    SnarkWorkerState::WorkCreatePending {
        job_get_init_t: init,
        job_get_node_received_t: None,
        job_get_node_request_work_init_t: None,
        job_get_node_request_work_success_t: None,
        job_get_success_t: time,
        ids: ids.to_string(),
    }
}

fn job_get_error(time: u64) -> SnarkWorkerStatsPut {
    SnarkWorkerStatsPut::JobGetError {
        time,
        job_get_node_received_t: None,
        job_get_node_request_work_init_t: None,
        job_get_node_request_work_success_t: None,
        error: SnarkWorkerJobGetError::NoAvailableJob,
    }
}

#[test]
fn new_registry_is_empty() {
    let registry = WorkerRegistry::new();
    assert_eq!(registry.len(), 0);
    assert_eq!(registry.workers(), Vec::<String>::new());
    assert_eq!(registry.history(&"w_1".to_string()), None);
    assert_eq!(registry.workers_json(), Ok("[]".to_string()));
}

#[test]
fn register_twice_yields_w_1_then_w_2() {
    let mut registry = WorkerRegistry::new();
    assert_eq!(registry.register("w", 5), Ok("w_1".to_string()));
    assert_eq!(registry.register("w", 6), Ok("w_2".to_string()));
    assert_eq!(registry.workers(), vec!["w_1", "w_2"]);
    assert_eq!(
        registry.history(&"w_1".to_string()),
        Some(vec![SnarkWorkerState::Registered { registered_t: 5 }])
    );
    assert_eq!(
        registry.history(&"w_2".to_string()),
        Some(vec![SnarkWorkerState::Registered { registered_t: 6 }])
    );
}

#[test]
fn register_skips_identifiers_that_exist() {
    let mut registry = WorkerRegistry::new();
    registry
        .ensure_and_apply("w_1".to_string(), SnarkWorkerStatsPut::JobGetInit { time: 1 })
        .unwrap();
    assert_eq!(registry.register("w", 2), Ok("w_2".to_string()));
    registry
        .ensure_and_apply("w_4".to_string(), SnarkWorkerStatsPut::JobGetInit { time: 3 })
        .unwrap();
    assert_eq!(registry.register("w", 4), Ok("w_3".to_string()));
    assert_eq!(registry.register("w", 5), Ok("w_5".to_string()));
    assert_eq!(registry.workers(), vec!["w_1", "w_2", "w_4", "w_3", "w_5"]);
}

#[test]
fn register_keeps_names_apart() {
    let mut registry = WorkerRegistry::new();
    assert_eq!(registry.register("a", 1), Ok("a_1".to_string()));
    assert_eq!(registry.register("b", 1), Ok("b_1".to_string()));
    assert_eq!(registry.register("a", 1), Ok("a_2".to_string()));
    assert_eq!(registry.register("a_1", 1), Ok("a_1_1".to_string()));
    assert_eq!(registry.register("", 1), Ok("_1".to_string()));
}

#[test]
fn register_is_exhausted_after_the_last_identifier() {
    let mut registry = WorkerRegistry::new();
    for n in 1..MAX_INSTANCES {
        registry
            .ensure_and_apply(format!("w_{n}"), SnarkWorkerStatsPut::JobGetInit { time: 0 })
            .unwrap();
    }
    assert_eq!(registry.register("w", 9), Ok("w_4095".to_string()));
    assert_eq!(registry.len(), 4095);
    assert_eq!(
        registry.register("w", 10),
        Err(WorkerStatsError::RegistrationExhausted { name: "w".to_string() })
    );
    assert_eq!(registry.len(), 4095);
    assert_eq!(registry.history(&"w_4096".to_string()), None);
    assert_eq!(registry.register("v", 11), Ok("v_1".to_string()));
}

#[test]
fn registered_instance_must_start_a_cycle_first() {
    let mut registry = WorkerRegistry::new();
    let id = registry.register("w", 5).unwrap();
    assert_eq!(
        registry.ensure_and_apply(id.clone(), job_get_success(6, "a")),
        Err(WorkerStatsError::InvalidTransition {
            state: SnarkWorkerState::Registered { registered_t: 5 },
            event: job_get_success(6, "a"),
        })
    );
    assert_eq!(registry.ensure_and_apply(id.clone(), SnarkWorkerStatsPut::JobGetInit { time: 7 }), Ok(()));
    assert_eq!(
        registry.history(&id),
        Some(vec![SnarkWorkerState::init(7), SnarkWorkerState::Registered { registered_t: 5 }])
    );
}

#[test]
fn job_get_init_creates_an_unknown_instance() {
    let mut registry = WorkerRegistry::new();
    assert_eq!(
        registry.ensure_and_apply("solo".to_string(), SnarkWorkerStatsPut::JobGetInit { time: 3 }),
        Ok(())
    );
    assert_eq!(registry.workers(), vec!["solo"]);
    assert_eq!(registry.history(&"solo".to_string()), Some(vec![SnarkWorkerState::init(3)]));
}

#[test]
fn other_events_for_an_unknown_instance_are_refused() {
    let mut registry = WorkerRegistry::new();
    let events = vec![
        SnarkWorkerStatsPut::Register { time: 1 },
        job_get_error(1),
        job_get_success(1, "a"),
        SnarkWorkerStatsPut::WorkCreateError { time: 1, ids: "a".to_string(), error: "e".to_string() },
        SnarkWorkerStatsPut::WorkCreateSuccess { time: 1, ids: "a".to_string() },
        SnarkWorkerStatsPut::WorkSubmitError {
            time: 1,
            work_submit_node_received_t: None,
            work_submit_node_add_work_init_t: None,
            work_submit_node_add_work_success_t: None,
            ids: "a".to_string(),
            error: "e".to_string(),
        },
        SnarkWorkerStatsPut::WorkSubmitSuccess {
            time: 1,
            work_submit_node_received_t: None,
            work_submit_node_add_work_init_t: None,
            work_submit_node_add_work_success_t: None,
            ids: "a".to_string(),
        },
    ];
    for event in events {
        assert_eq!(
            registry.ensure_and_apply("ghost".to_string(), event.clone()),
            Err(WorkerStatsError::UnknownWorkerForEvent { event })
        );
    }
    assert_eq!(registry.len(), 0);
}

#[test]
fn events_advance_the_newest_snapshot_only() {
    let mut registry = WorkerRegistry::new();
    let id = "w".to_string();
    registry.ensure_and_apply(id.clone(), SnarkWorkerStatsPut::JobGetInit { time: 1 }).unwrap();
    registry.ensure_and_apply(id.clone(), job_get_error(2)).unwrap();
    registry.ensure_and_apply(id.clone(), SnarkWorkerStatsPut::JobGetInit { time: 3 }).unwrap();
    registry.ensure_and_apply(id.clone(), job_get_success(4, "a")).unwrap();
    let history = registry.history(&id).unwrap();
    assert_eq!(history.len(), 2);
    assert_eq!(history[0], work_create_pending(3, 4, "a"));
    assert_eq!(
        history[1],
        SnarkWorkerState::JobGetError {
            job_get_init_t: 1,
            job_get_node_received_t: None,
            job_get_node_request_work_init_t: None,
            job_get_node_request_work_success_t: None,
            job_get_error_t: 2,
            error: SnarkWorkerJobGetError::NoAvailableJob,
        }
    );
}

#[test]
fn rejected_event_leaves_history_unchanged_and_is_reported() {
    let mut registry = WorkerRegistry::new();
    let id = "w".to_string();
    registry.ensure_and_apply(id.clone(), SnarkWorkerStatsPut::JobGetInit { time: 1 }).unwrap();
    registry.ensure_and_apply(id.clone(), job_get_success(2, "a")).unwrap();
    let before = registry.history(&id).unwrap();
    let event = SnarkWorkerStatsPut::WorkSubmitSuccess {
        time: 3,
        work_submit_node_received_t: None,
        work_submit_node_add_work_init_t: None,
        work_submit_node_add_work_success_t: None,
        ids: "a".to_string(),
    };
    assert_eq!(
        registry.ensure_and_apply(id.clone(), event.clone()),
        Err(WorkerStatsError::InvalidTransition { state: work_create_pending(1, 2, "a"), event })
    );
    assert_eq!(registry.history(&id).unwrap(), before);
    assert_eq!(registry.workers(), vec!["w"]);
}

#[test]
fn job_get_init_is_accepted_in_every_state() {
    let mut registry = WorkerRegistry::new();
    let id = "w".to_string();
    registry.ensure_and_apply(id.clone(), SnarkWorkerStatsPut::JobGetInit { time: 1 }).unwrap();
    registry.ensure_and_apply(id.clone(), SnarkWorkerStatsPut::JobGetInit { time: 2 }).unwrap();
    registry.ensure_and_apply(id.clone(), job_get_success(3, "a")).unwrap();
    registry.ensure_and_apply(id.clone(), SnarkWorkerStatsPut::JobGetInit { time: 4 }).unwrap();
    registry.ensure_and_apply(id.clone(), job_get_error(5)).unwrap();
    registry.ensure_and_apply(id.clone(), SnarkWorkerStatsPut::JobGetInit { time: 6 }).unwrap();
    let history = registry.history(&id).unwrap();
    assert_eq!(history.len(), 4);
    assert_eq!(history[0], SnarkWorkerState::init(6));
    assert_eq!(history[2], work_create_pending(2, 3, "a"));
    assert_eq!(history[3], SnarkWorkerState::init(1));
    assert_eq!(registry.len(), 1);
}

#[test]
fn histories_of_other_instances_are_untouched() {
    let mut registry = WorkerRegistry::new();
    registry.ensure_and_apply("a".to_string(), SnarkWorkerStatsPut::JobGetInit { time: 1 }).unwrap();
    registry.ensure_and_apply("b".to_string(), SnarkWorkerStatsPut::JobGetInit { time: 2 }).unwrap();
    registry.ensure_and_apply("a".to_string(), job_get_success(3, "x")).unwrap();
    assert_eq!(registry.history(&"b".to_string()), Some(vec![SnarkWorkerState::init(2)]));
    assert_eq!(registry.history(&"a".to_string()), Some(vec![work_create_pending(1, 3, "x")]));
    assert_eq!(registry.history(&"A".to_string()), None);
}

#[test]
fn put_registers_or_applies() {
    let mut registry = WorkerRegistry::new();
    assert_eq!(
        registry.put("w".to_string(), SnarkWorkerStatsPut::Register { time: 1 }),
        Ok(PutReply::Registered { id: "w_1".to_string() })
    );
    assert_eq!(
        registry.put("w_1".to_string(), SnarkWorkerStatsPut::JobGetInit { time: 2 }),
        Ok(PutReply::Applied)
    );
    assert_eq!(
        registry.put("w".to_string(), job_get_success(3, "a")),
        Err(WorkerStatsError::UnknownWorkerForEvent { event: job_get_success(3, "a") })
    );
    assert_eq!(registry.workers(), vec!["w_1"]);
    assert_eq!(
        registry.history(&"w_1".to_string()),
        Some(vec![SnarkWorkerState::init(2), SnarkWorkerState::Registered { registered_t: 1 }])
    );
}

#[test]
fn put_replies_carry_status_and_body() {
    let mut registry = WorkerRegistry::new();
    let registered = registry.put("w".to_string(), SnarkWorkerStatsPut::Register { time: 1 });
    assert_eq!(put_status_code(&registered), 200);
    assert_eq!(put_reply_body(registered.unwrap()), "w_1");
    let applied = registry.put("w_1".to_string(), SnarkWorkerStatsPut::JobGetInit { time: 2 });
    assert_eq!(put_status_code(&applied), 200);
    assert_eq!(put_reply_body(applied.unwrap()), "");
    let refused = registry.put("w_1".to_string(), SnarkWorkerStatsPut::Register { time: 3 });
    assert_eq!(refused, Ok(PutReply::Registered { id: "w_1_1".to_string() }));
    let refused = registry.put("nobody".to_string(), job_get_error(3));
    assert_eq!(put_status_code(&refused), 400);
}

#[test]
fn worker_stats_scenario() {
    let mut registry = WorkerRegistry::new();
    let first = registry.put("w_1".to_string(), SnarkWorkerStatsPut::JobGetInit { time: 100 });
    assert_eq!(put_status_code(&first), 200);
    let second = registry.put("w_1".to_string(), job_get_success(101, "a"));
    assert_eq!(put_status_code(&second), 200);
    let third = registry
        .put("w_1".to_string(), SnarkWorkerStatsPut::WorkCreateSuccess { time: 102, ids: "b".to_string() });
    assert_eq!(put_status_code(&third), 400);
    assert_eq!(
        third,
        Err(WorkerStatsError::InvalidTransition {
            state: work_create_pending(100, 101, "a"),
            event: SnarkWorkerStatsPut::WorkCreateSuccess { time: 102, ids: "b".to_string() },
        })
    );
    assert_eq!(registry.history(&"w_1".to_string()), Some(vec![work_create_pending(100, 101, "a")]));
}

#[test]
fn workers_json_is_an_array_of_the_identifiers() {
    let mut registry = WorkerRegistry::new();
    registry.register("w", 1).unwrap();
    registry.register("w", 2).unwrap();
    registry
        .ensure_and_apply("quo\"te\\d\n".to_string(), SnarkWorkerStatsPut::JobGetInit { time: 3 })
        .unwrap();
    assert_eq!(registry.workers_json(), Ok("[\"w_1\",\"w_2\",\"quo\\\"te\\\\d\\n\"]".to_string()));
}

#[test]
fn string_list_json_round_trips_through_the_parser() {
    let items = vec!["a".to_string(), "".to_string(), "é,\u{1}\"".to_string()];
    let text = string_list_json(&items).unwrap();
    assert_eq!(text, "[\"a\",\"\",\"é,\\u0001\\\"\"]");
    let back: Vec<String> = serde_json::from_str(&text).unwrap();
    assert_eq!(back, items);
}

#[test]
fn written_or_refused_maps_the_encoder_outcome() {
    assert_eq!(written_or_refused(Ok("[]".to_string())), Ok("[]".to_string()));
    let failure = serde_json::from_str::<u8>("not json").unwrap_err();
    assert_eq!(written_or_refused(Err(failure)), Err(EncodeError));
}

use aether_proxy::control_plane::{
    bearer, classify_heartbeat, classify_plain, heartbeat_event, heartbeat_path, register_event,
    register_path, transport_failure, unregister_path, HeartbeatError, HeartbeatResult,
};
use aether_proxy::dynamic_config::{ApplyOutcome, DynamicConfig, RemoteConfig};
use aether_proxy::heartbeat::{HeartbeatAction, HeartbeatEvent, HeartbeatState, Phase};

fn live() -> DynamicConfig {
    DynamicConfig::new(30, vec![80, 443], 300, "info".to_string()).unwrap()
}

fn beating(node_id: &str, config: &mut DynamicConfig) -> HeartbeatState {
    let mut state = HeartbeatState::new(node_id.to_string()).unwrap();
    let t = state.step(config, HeartbeatEvent::WaitOver);
    assert!(matches!(t.action, HeartbeatAction::Beat { .. }));
    state
}

fn fail_once(state: &mut HeartbeatState, config: &mut DynamicConfig) {
    state.step(config, HeartbeatEvent::WaitOver);
    state.step(config, HeartbeatEvent::BeatFailed);
}

#[test]
fn a_loop_starts_by_waiting() {
    let config = live();
    let state = HeartbeatState::new("old".to_string()).unwrap();
    assert_eq!(state.phase(), Phase::Waiting);
    assert_eq!(state.node_id(), "old");
    assert_eq!(state.consecutive_failures(), 0);
    match state.first_action(&config) {
        HeartbeatAction::Wait { seconds } => assert_eq!(seconds, 30),
        _ => panic!("the loop must wait first"),
    }
}

#[test]
fn a_loop_needs_a_node_identifier() {
    assert!(HeartbeatState::new(String::new()).is_none());
}

#[test]
fn the_end_of_a_wait_sends_a_beat_for_the_current_identifier() {
    let mut config = live();
    let mut state = HeartbeatState::new("node-1".to_string()).unwrap();
    let t = state.step(&mut config, HeartbeatEvent::WaitOver);
    match t.action {
        HeartbeatAction::Beat { node_id } => assert_eq!(node_id, "node-1"),
        _ => panic!("a beat must be sent"),
    }
    assert_eq!(state.phase(), Phase::Beating);
    assert!(!t.node_id_changed);
    assert_eq!(t.pushed, None);
}

#[test]
fn heartbeat_recovery_after_node_not_found() {
    let mut config = live();
    let mut state = beating("old", &mut config);
    let t = state.step(&mut config, HeartbeatEvent::NodeNotFound);
    assert!(matches!(t.action, HeartbeatAction::Register));
    assert_eq!(state.phase(), Phase::Registering);
    let t = state.step(
        &mut config,
        HeartbeatEvent::Registered { node_id: "new".to_string() },
    );
    assert!(t.node_id_changed);
    assert!(matches!(t.action, HeartbeatAction::Wait { seconds: 30 }));
    assert_eq!(state.node_id(), "new");
    assert_eq!(state.consecutive_failures(), 0);
    let t = state.step(&mut config, HeartbeatEvent::WaitOver);
    match t.action {
        HeartbeatAction::Beat { node_id } => assert_eq!(node_id, "new"),
        _ => panic!("the next beat must be sent"),
    }
    let t = state.step(
        &mut config,
        HeartbeatEvent::Acknowledged { config_version: 0, remote_config: None },
    );
    assert!(matches!(t.action, HeartbeatAction::Wait { seconds: 30 }));
    assert_eq!(state.node_id(), "new");
    assert_eq!(state.consecutive_failures(), 0);
}

#[test]
fn recovery_clears_failures_counted_before() {
    let mut config = live();
    let mut state = HeartbeatState::new("old".to_string()).unwrap();
    fail_once(&mut state, &mut config);
    fail_once(&mut state, &mut config);
    assert_eq!(state.consecutive_failures(), 2);
    state.step(&mut config, HeartbeatEvent::WaitOver);
    state.step(&mut config, HeartbeatEvent::NodeNotFound);
    assert_eq!(state.consecutive_failures(), 2);
    state.step(&mut config, HeartbeatEvent::Registered { node_id: "new".to_string() });
    assert_eq!(state.consecutive_failures(), 0);
}

#[test]
fn failed_beats_and_registrations_are_counted() {
    let mut config = live();
    let mut state = HeartbeatState::new("n".to_string()).unwrap();
    fail_once(&mut state, &mut config);
    assert_eq!(state.consecutive_failures(), 1);
    assert_eq!(state.phase(), Phase::Waiting);
    state.step(&mut config, HeartbeatEvent::WaitOver);
    state.step(&mut config, HeartbeatEvent::NodeNotFound);
    let t = state.step(&mut config, HeartbeatEvent::RegisterFailed);
    assert!(matches!(t.action, HeartbeatAction::Wait { seconds: 30 }));
    assert!(!t.node_id_changed);
    assert_eq!(state.consecutive_failures(), 2);
    assert_eq!(state.node_id(), "n");
    state.step(&mut config, HeartbeatEvent::WaitOver);
    state.step(
        &mut config,
        HeartbeatEvent::Acknowledged { config_version: 0, remote_config: None },
    );
    assert_eq!(state.consecutive_failures(), 0);
}

#[test]
fn an_empty_new_identifier_counts_as_a_failed_registration() {
    let mut config = live();
    let mut state = beating("n", &mut config);
    state.step(&mut config, HeartbeatEvent::NodeNotFound);
    let t = state.step(&mut config, HeartbeatEvent::Registered { node_id: String::new() });
    assert!(!t.node_id_changed);
    assert_eq!(state.node_id(), "n");
    assert_eq!(state.consecutive_failures(), 1);
}

#[test]
fn pushed_policy_is_applied_and_sets_the_next_wait() {
    let mut config = live();
    let mut state = beating("n", &mut config);
    let remote = RemoteConfig {
        heartbeat_interval: Some(5),
        allowed_ports: Some(vec![8443]),
        timestamp_tolerance: Some(60),
        log_level: Some("debug".to_string()),
    };
    let t = state.step(
        &mut config,
        HeartbeatEvent::Acknowledged { config_version: 4, remote_config: Some(remote) },
    );
    assert_eq!(
        t.pushed,
        Some(ApplyOutcome::Applied { log_level_changed: true })
    );
    assert!(matches!(t.action, HeartbeatAction::Wait { seconds: 5 }));
    assert_eq!(config.config_version(), 4);
    assert_eq!(config.timestamp_tolerance(), 60);
    assert_eq!(config.heartbeat_interval(), 5);
}

#[test]
fn pushed_policy_that_would_empty_the_allow_list_is_refused() {
    let mut config = live();
    let mut state = beating("n", &mut config);
    let remote = RemoteConfig {
        heartbeat_interval: Some(5),
        allowed_ports: Some(Vec::new()),
        timestamp_tolerance: None,
        log_level: None,
    };
    let t = state.step(
        &mut config,
        HeartbeatEvent::Acknowledged { config_version: 4, remote_config: Some(remote) },
    );
    assert_eq!(t.pushed, Some(ApplyOutcome::Rejected));
    assert!(matches!(t.action, HeartbeatAction::Wait { seconds: 30 }));
    assert_eq!(config.config_version(), 0);
    assert_eq!(state.consecutive_failures(), 0);
}

#[test]
fn an_answer_without_a_version_stands_at_zero() {
    let r = HeartbeatResult::from_answer(None, None);
    assert_eq!(r.config_version, 0);
    assert!(r.remote_config.is_none());
    let r = HeartbeatResult::from_answer(Some(9), None);
    assert_eq!(r.config_version, 9);
}

#[test]
fn stale_pushed_policy_changes_nothing() {
    let mut config = live();
    config.apply(
        &RemoteConfig {
            heartbeat_interval: Some(10),
            allowed_ports: None,
            timestamp_tolerance: None,
            log_level: None,
        },
        8,
    );
    let mut state = beating("n", &mut config);
    let remote = RemoteConfig {
        heartbeat_interval: Some(99),
        allowed_ports: None,
        timestamp_tolerance: None,
        log_level: None,
    };
    let t = state.step(
        &mut config,
        HeartbeatEvent::Acknowledged { config_version: 8, remote_config: Some(remote) },
    );
    assert_eq!(t.pushed, Some(ApplyOutcome::Stale));
    assert!(matches!(t.action, HeartbeatAction::Wait { seconds: 10 }));
    assert_eq!(config.heartbeat_interval(), 10);
}

#[test]
fn shutdown_stops_the_loop_for_good() {
    let mut config = live();
    let mut state = HeartbeatState::new("n".to_string()).unwrap();
    let t = state.step(&mut config, HeartbeatEvent::Shutdown);
    assert!(matches!(t.action, HeartbeatAction::Stop));
    assert_eq!(state.phase(), Phase::Stopped);
    let t = state.step(&mut config, HeartbeatEvent::WaitOver);
    assert!(matches!(t.action, HeartbeatAction::Stop));
    assert_eq!(state.phase(), Phase::Stopped);
}

#[test]
fn an_event_out_of_turn_is_passed_over() {
    let mut config = live();
    let mut state = HeartbeatState::new("n".to_string()).unwrap();
    let t = state.step(&mut config, HeartbeatEvent::NodeNotFound);
    assert!(matches!(t.action, HeartbeatAction::Proceed));
    assert_eq!(state.phase(), Phase::Waiting);
    let t = state.step(&mut config, HeartbeatEvent::Registered { node_id: "x".to_string() });
    assert!(matches!(t.action, HeartbeatAction::Proceed));
    assert!(!t.node_id_changed);
    assert_eq!(state.node_id(), "n");
    state.step(&mut config, HeartbeatEvent::WaitOver);
    let t = state.step(&mut config, HeartbeatEvent::WaitOver);
    assert!(matches!(t.action, HeartbeatAction::Proceed));
    assert_eq!(state.phase(), Phase::Beating);
    let t = state.step(&mut config, HeartbeatEvent::RegisterFailed);
    assert!(matches!(t.action, HeartbeatAction::Proceed));
    assert_eq!(state.consecutive_failures(), 0);
}

#[test]
fn only_404_means_node_not_found() {
    assert_eq!(
        classify_heartbeat(404, "gone".to_string()),
        Err(HeartbeatError::NodeNotFound)
    );
    assert_eq!(classify_heartbeat(200, "{}".to_string()), Ok("{}".to_string()));
    assert_eq!(classify_heartbeat(204, String::new()), Ok(String::new()));
    assert_eq!(classify_heartbeat(299, "x".to_string()), Ok("x".to_string()));
    assert_eq!(
        classify_heartbeat(500, "boom".to_string()),
        Err(HeartbeatError::Other { status: Some(500), detail: "boom".to_string() })
    );
    assert_eq!(
        classify_heartbeat(300, "moved".to_string()),
        Err(HeartbeatError::Other { status: Some(300), detail: "moved".to_string() })
    );
    assert_eq!(
        classify_heartbeat(199, String::new()),
        Err(HeartbeatError::Other { status: Some(199), detail: String::new() })
    );
    assert_eq!(
        classify_heartbeat(403, "no".to_string()),
        Err(HeartbeatError::Other { status: Some(403), detail: "no".to_string() })
    );
    assert_eq!(
        transport_failure("timed out".to_string()),
        HeartbeatError::Other { status: None, detail: "timed out".to_string() }
    );
}

#[test]
fn plain_answers_succeed_on_2xx_only() {
    assert_eq!(classify_plain(200, "a".to_string()), Some("a".to_string()));
    assert_eq!(classify_plain(201, "b".to_string()), Some("b".to_string()));
    assert_eq!(classify_plain(404, "c".to_string()), None);
    assert_eq!(classify_plain(500, "d".to_string()), None);
}

#[test]
fn outcomes_become_events() {
    let ok = heartbeat_event(Ok(HeartbeatResult { config_version: 3, remote_config: None }));
    assert!(matches!(
        ok,
        HeartbeatEvent::Acknowledged { config_version: 3, remote_config: None }
    ));
    assert!(matches!(
        heartbeat_event(Err(HeartbeatError::NodeNotFound)),
        HeartbeatEvent::NodeNotFound
    ));
    assert!(matches!(
        heartbeat_event(Err(transport_failure("x".to_string()))),
        HeartbeatEvent::BeatFailed
    ));
    match register_event(Some("id-7".to_string())) {
        HeartbeatEvent::Registered { node_id } => assert_eq!(node_id, "id-7"),
        _ => panic!("a new identifier must be taken"),
    }
    assert!(matches!(register_event(None), HeartbeatEvent::RegisterFailed));
}

#[test]
fn paths_of_the_control_plane() {
    assert_eq!(register_path(), "/nodes/register");
    assert_eq!(heartbeat_path("abc"), "/nodes/abc/heartbeat");
    assert_eq!(unregister_path("abc"), "/nodes/abc/unregister");
    assert_eq!(bearer("ae_token"), "Bearer ae_token");
}

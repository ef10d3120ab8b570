use std::collections::HashSet;

use aether_proxy::dynamic_config::{
    ports_among, remote_config_from, ApplyOutcome, DynamicConfig, RemoteConfig, StaticConfig,
    MIN_HEARTBEAT_INTERVAL,
};

fn live() -> DynamicConfig {
    DynamicConfig::new(30, vec![80, 443, 8080, 8443], 300, "info".to_string()).unwrap()
}

fn nothing() -> RemoteConfig {
    RemoteConfig {
        heartbeat_interval: None,
        allowed_ports: None,
        timestamp_tolerance: None,
        log_level: None,
    }
}

fn set(ports: &[u16]) -> HashSet<u16> {
    ports.iter().copied().collect()
}

#[test]
fn a_fresh_configuration_is_at_version_zero() {
    let c = live();
    assert_eq!(c.config_version(), 0);
    assert_eq!(c.heartbeat_interval(), 30);
    assert_eq!(c.timestamp_tolerance(), 300);
    assert_eq!(c.log_level(), "info");
    assert_eq!(c.allowed_ports(), set(&[80, 443, 8080, 8443]));
}

#[test]
fn an_empty_allow_list_makes_no_configuration() {
    assert!(DynamicConfig::new(30, Vec::new(), 300, "info".to_string()).is_none());
}

#[test]
fn a_zero_interval_is_raised_to_the_minimum() {
    let c = DynamicConfig::new(0, vec![80], 300, "info".to_string()).unwrap();
    assert_eq!(c.heartbeat_interval(), MIN_HEARTBEAT_INTERVAL);
    assert_eq!(MIN_HEARTBEAT_INTERVAL, 1);
    let mut c = live();
    let remote = RemoteConfig { heartbeat_interval: Some(0), ..nothing() };
    assert_eq!(
        c.apply(&remote, 1),
        ApplyOutcome::Applied { log_level_changed: false }
    );
    assert_eq!(c.heartbeat_interval(), 1);
}

#[test]
fn a_newer_update_replaces_what_it_names() {
    let mut c = live();
    let remote = RemoteConfig {
        heartbeat_interval: Some(10),
        allowed_ports: Some(vec![443, 443, 22]),
        timestamp_tolerance: None,
        log_level: Some("debug".to_string()),
    };
    assert_eq!(
        c.apply(&remote, 7),
        ApplyOutcome::Applied { log_level_changed: true }
    );
    assert_eq!(c.config_version(), 7);
    assert_eq!(c.heartbeat_interval(), 10);
    assert_eq!(c.timestamp_tolerance(), 300);
    assert_eq!(c.log_level(), "debug");
    assert_eq!(c.allowed_ports(), set(&[22, 443]));
}

#[test]
fn an_update_that_names_nothing_raises_the_version_only() {
    let mut c = live();
    assert_eq!(
        c.apply(&nothing(), 3),
        ApplyOutcome::Applied { log_level_changed: false }
    );
    assert_eq!(c.config_version(), 3);
    assert_eq!(c.heartbeat_interval(), 30);
    assert_eq!(c.allowed_ports(), set(&[80, 443, 8080, 8443]));
}

#[test]
fn an_update_of_the_same_or_a_lower_version_is_stale() {
    let mut c = live();
    let first = RemoteConfig { timestamp_tolerance: Some(60), ..nothing() };
    assert_eq!(
        c.apply(&first, 5),
        ApplyOutcome::Applied { log_level_changed: false }
    );
    let later = RemoteConfig {
        heartbeat_interval: Some(1),
        allowed_ports: Some(vec![1]),
        timestamp_tolerance: Some(1),
        log_level: Some("trace".to_string()),
    };
    assert_eq!(c.apply(&later, 5), ApplyOutcome::Stale);
    assert_eq!(c.apply(&later, 4), ApplyOutcome::Stale);
    assert_eq!(c.apply(&later, 0), ApplyOutcome::Stale);
    assert_eq!(c.config_version(), 5);
    assert_eq!(c.heartbeat_interval(), 30);
    assert_eq!(c.timestamp_tolerance(), 60);
    assert_eq!(c.log_level(), "info");
    assert_eq!(c.allowed_ports(), set(&[80, 443, 8080, 8443]));
}

#[test]
fn an_update_at_version_zero_is_stale_for_a_fresh_configuration() {
    let mut c = live();
    let remote = RemoteConfig { heartbeat_interval: Some(5), ..nothing() };
    assert_eq!(c.apply(&remote, 0), ApplyOutcome::Stale);
    assert_eq!(c.heartbeat_interval(), 30);
}

#[test]
fn an_update_that_would_empty_the_allow_list_is_refused_whole() {
    let mut c = live();
    let remote = RemoteConfig {
        heartbeat_interval: Some(5),
        allowed_ports: Some(Vec::new()),
        timestamp_tolerance: Some(10),
        log_level: Some("debug".to_string()),
    };
    assert_eq!(c.apply(&remote, 2), ApplyOutcome::Rejected);
    assert_eq!(c.allowed_ports(), set(&[80, 443, 8080, 8443]));
    assert_eq!(c.timestamp_tolerance(), 300);
    assert_eq!(c.heartbeat_interval(), 30);
    assert_eq!(c.log_level(), "info");
    assert_eq!(c.config_version(), 0);
    // The version stayed, so the same version can still be taken.
    let mended = RemoteConfig { allowed_ports: Some(vec![443]), ..nothing() };
    assert_eq!(
        c.apply(&mended, 2),
        ApplyOutcome::Applied { log_level_changed: false }
    );
    assert_eq!(c.allowed_ports(), set(&[443]));
    assert_eq!(c.config_version(), 2);
    // A stale update is stale even where it would empty the list.
    assert_eq!(c.apply(&remote, 2), ApplyOutcome::Stale);
}

#[test]
fn pushed_values_become_an_update() {
    let remote = remote_config_from(
        Some(u64::from(u32::MAX) + 1),
        Some(vec![80, 70000, 443, 65535, 65536, 0]),
        Some(300),
        Some("warn".to_string()),
    );
    assert_eq!(remote.heartbeat_interval, Some(u32::MAX));
    assert_eq!(remote.allowed_ports, Some(vec![80, 443, 65535, 0]));
    assert_eq!(remote.timestamp_tolerance, Some(300));
    assert_eq!(remote.log_level, Some("warn".to_string()));
    let remote = remote_config_from(Some(u64::from(u32::MAX)), Some(vec![70000]), None, None);
    assert_eq!(remote.heartbeat_interval, Some(u32::MAX));
    assert_eq!(remote.allowed_ports, Some(Vec::new()));
    assert_eq!(remote.timestamp_tolerance, None);
    assert_eq!(remote.log_level, None);
    let mut c = live();
    assert_eq!(c.apply(&remote, 1), ApplyOutcome::Rejected);
    let remote = remote_config_from(None, None, Some(u64::MAX), None);
    assert_eq!(remote.allowed_ports, None);
    assert_eq!(remote.timestamp_tolerance, Some(u32::MAX));
    assert_eq!(ports_among(&vec![]), Vec::<u16>::new());
    assert_eq!(ports_among(&vec![1, u64::MAX, 2]), vec![1, 2]);
}

#[test]
fn the_same_log_level_is_no_change() {
    let mut c = live();
    let remote = RemoteConfig { log_level: Some("info".to_string()), ..nothing() };
    assert_eq!(
        c.apply(&remote, 1),
        ApplyOutcome::Applied { log_level_changed: false }
    );
}

#[test]
fn a_snapshot_holds_one_state() {
    let mut c = live();
    let before = c.snapshot();
    let remote = RemoteConfig {
        heartbeat_interval: Some(5),
        allowed_ports: Some(vec![22]),
        timestamp_tolerance: Some(1),
        log_level: None,
    };
    c.apply(&remote, 9);
    assert_eq!(before.allowed_ports, set(&[80, 443, 8080, 8443]));
    assert_eq!(before.timestamp_tolerance, 300);
    assert_eq!(before.heartbeat_interval, 30);
    assert_eq!(before.config_version, 0);
    let after = c.snapshot();
    assert_eq!(after.allowed_ports, set(&[22]));
    assert_eq!(after.timestamp_tolerance, 1);
    assert_eq!(after.heartbeat_interval, 5);
    assert_eq!(after.config_version, 9);
}

#[test]
fn the_live_configuration_starts_from_the_static_one() {
    let config = StaticConfig {
        aether_url: "https://aether.example.com".to_string(),
        management_token: "ae_x".to_string(),
        hmac_key: vec![1, 2, 3],
        listen_port: 18080,
        public_ip: None,
        node_name: "proxy-01".to_string(),
        node_region: None,
        heartbeat_interval: 45,
        allowed_ports: vec![80, 443],
        timestamp_tolerance: 120,
        enable_tls: false,
        tls_cert: String::new(),
        tls_key: String::new(),
        log_level: "warn".to_string(),
        log_json: false,
    };
    let c = DynamicConfig::from_config(&config).unwrap();
    assert_eq!(c.heartbeat_interval(), 45);
    assert_eq!(c.timestamp_tolerance(), 120);
    assert_eq!(c.log_level(), "warn");
    assert_eq!(c.allowed_ports(), set(&[80, 443]));
    assert_eq!(c.config_version(), 0);
    let none = StaticConfig { allowed_ports: Vec::new(), ..config };
    assert!(DynamicConfig::from_config(&none).is_none());
}

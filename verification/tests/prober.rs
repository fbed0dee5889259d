use orasrs_core_sdk::boundary::{orasrs_init, orasrs_update_nodes_at};
use orasrs_core_sdk::prober::{
    count_connected, endpoint_text, probe_targets, CONNECT_TIMEOUT_SECS, READ_TIMEOUT_SECS,
    WRITE_TIMEOUT_SECS,
};
use orasrs_core_sdk::{NodeInfo, ProcessState};

#[test]
fn every_timeout_is_five_seconds() {
    assert_eq!(CONNECT_TIMEOUT_SECS, 5);
    assert_eq!(READ_TIMEOUT_SECS, 5);
    assert_eq!(WRITE_TIMEOUT_SECS, 5);
}

#[test]
fn an_endpoint_is_address_colon_port() {
    assert_eq!(endpoint_text("10.0.0.1", 8080), "10.0.0.1:8080");
    assert_eq!(endpoint_text("[::1]", 443), "[::1]:443");
    assert_eq!(endpoint_text("", 0), ":0");
    assert_eq!(endpoint_text("host", 65535), "host:65535");
}

#[test]
fn there_is_nothing_to_probe_before_initialisation() {
    let state = ProcessState::new();
    assert!(probe_targets(&state).is_empty());
}

#[test]
fn the_targets_are_the_nodes_in_order() {
    let mut state = ProcessState::new();
    assert!(orasrs_init(&mut state, None, None));
    assert!(probe_targets(&state).is_empty());
    let nodes = vec![
        NodeInfo { ip: "10.0.0.1".to_string(), port: 8080, wallet: "a".to_string() },
        NodeInfo { ip: "10.0.0.2".to_string(), port: 8081, wallet: "b".to_string() },
        NodeInfo { ip: "10.0.0.1".to_string(), port: 8080, wallet: "c".to_string() },
    ];
    assert!(orasrs_update_nodes_at(&mut state, Ok::<_, ()>(nodes), 1));
    assert_eq!(
        probe_targets(&state),
        vec![
            ("10.0.0.1".to_string(), 8080),
            ("10.0.0.2".to_string(), 8081),
            ("10.0.0.1".to_string(), 8080),
        ]
    );
}

#[test]
fn the_count_is_that_of_the_successes() {
    assert_eq!(count_connected(&[]), 0);
    assert_eq!(count_connected(&[false]), 0);
    assert_eq!(count_connected(&[true]), 1);
    assert_eq!(count_connected(&[true, false, true, true, false]), 3);
    assert_eq!(count_connected(&[false; 100]), 0);
    assert_eq!(count_connected(&[true; 100]), 100);
}

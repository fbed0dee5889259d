use orasrs_core_sdk::boundary::{orasrs_check_domain_at, orasrs_check_ip, orasrs_init};
use orasrs_core_sdk::scheduler::{refresh_cycle, refresh_cycle_at, CycleReport, REFRESH_INTERVAL_SECS};
use orasrs_core_sdk::{NodeInfo, ProcessState, ThreatInfo};

fn threat(kind: &str, value: &str, timestamp: u64) -> ThreatInfo {
    ThreatInfo {
        threat_type: kind.to_string(),
        threat_value: value.to_string(),
        threat_level: 2,
        timestamp,
        expiration: 0,
        source: "upstream".to_string(),
        evidence: "digest".to_string(),
    }
}

fn node(ip: &str, port: u16) -> NodeInfo {
    NodeInfo { ip: ip.to_string(), port, wallet: "w".to_string() }
}

#[test]
fn a_pass_comes_every_five_minutes() {
    assert_eq!(REFRESH_INTERVAL_SECS, 300);
}

#[test]
fn a_pass_does_nothing_before_initialisation() {
    let mut state = ProcessState::new();
    let report = refresh_cycle_at(
        &mut state,
        Ok::<_, ()>(vec![threat("IP", "10.0.0.1", 0)]),
        Ok::<_, ()>(vec![node("10.0.0.9", 9)]),
        100,
    );
    assert_eq!(report, CycleReport { threats_refreshed: false, nodes_refreshed: false });
    assert!(!state.is_initialized());
}

#[test]
fn a_pass_prunes_merges_and_replaces() {
    let mut state = ProcessState::new();
    assert!(orasrs_init(&mut state, None, None));
    let first = refresh_cycle_at(
        &mut state,
        Ok::<_, ()>(vec![threat("DOMAIN", "old.example", 0), threat("IP", "10.0.0.1", 0)]),
        Ok::<_, ()>(vec![node("10.0.0.9", 9)]),
        100,
    );
    assert_eq!(first, CycleReport { threats_refreshed: true, nodes_refreshed: true });
    assert_eq!(state.cache().unwrap().domain_count(), 1);

    let second = refresh_cycle_at(
        &mut state,
        Ok::<_, ()>(vec![threat("DOMAIN", "new.example", 86400)]),
        Ok::<_, ()>(vec![node("10.0.0.8", 8), node("10.0.0.7", 7)]),
        86400,
    );
    assert_eq!(second, CycleReport { threats_refreshed: true, nodes_refreshed: true });
    let cache = state.cache().unwrap();
    assert_eq!(cache.domain_count(), 1);
    assert_eq!(cache.get_nodes().len(), 2);
    assert_eq!(cache.get_nodes()[0].ip, "10.0.0.8");
    assert_eq!(cache.last_update(), 86400);
    assert!(orasrs_check_ip(&state, Some("10.0.0.1")));
    assert!(orasrs_check_domain_at(&state, Some("new.example"), 86400));
    assert!(!orasrs_check_domain_at(&state, Some("old.example"), 86400));
}

#[test]
fn a_failed_fetch_does_not_stop_the_other() {
    let mut state = ProcessState::new();
    assert!(orasrs_init(&mut state, None, None));
    let report = refresh_cycle_at(
        &mut state,
        Err::<Vec<ThreatInfo>, _>("ledger down"),
        Ok::<_, ()>(vec![node("10.0.0.9", 9)]),
        100,
    );
    assert_eq!(report, CycleReport { threats_refreshed: false, nodes_refreshed: true });
    assert_eq!(state.cache().unwrap().get_nodes().len(), 1);
    assert_eq!(state.cache().unwrap().last_update(), 100);

    let report = refresh_cycle_at(
        &mut state,
        Ok::<_, ()>(vec![threat("IP", "10.0.0.1", 0)]),
        Err::<Vec<NodeInfo>, _>("registry down"),
        200,
    );
    assert_eq!(report, CycleReport { threats_refreshed: true, nodes_refreshed: false });
    assert_eq!(state.cache().unwrap().get_nodes().len(), 1);
    assert!(orasrs_check_ip(&state, Some("10.0.0.1")));
    assert_eq!(state.cache().unwrap().last_update(), 200);

    let report =
        refresh_cycle_at(&mut state, Err::<Vec<ThreatInfo>, _>(1), Err::<Vec<NodeInfo>, _>(2), 300);
    assert_eq!(report, CycleReport { threats_refreshed: false, nodes_refreshed: false });
    assert_eq!(state.cache().unwrap().last_update(), 200);
    assert!(orasrs_check_ip(&state, Some("10.0.0.1")));
}

#[test]
fn a_pass_is_dated_by_the_clock() {
    let before = std::time::SystemTime::now().duration_since(std::time::UNIX_EPOCH).unwrap().as_secs();
    let mut state = ProcessState::new();
    assert!(orasrs_init(&mut state, None, None));
    let report = refresh_cycle(
        &mut state,
        Ok::<_, ()>(vec![threat("DOMAIN", "stale.example", 1), threat("DOMAIN", "fresh.example", before)]),
        Ok::<_, ()>(Vec::new()),
    );
    assert_eq!(report, CycleReport { threats_refreshed: true, nodes_refreshed: true });
    assert!(state.cache().unwrap().last_update() >= before);
    assert_eq!(state.cache().unwrap().domain_count(), 2);
    let again = refresh_cycle(&mut state, Ok::<_, ()>(Vec::new()), Err::<Vec<NodeInfo>, _>(()));
    assert_eq!(again, CycleReport { threats_refreshed: true, nodes_refreshed: false });
    assert_eq!(state.cache().unwrap().domain_count(), 1);
}

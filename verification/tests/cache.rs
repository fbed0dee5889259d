use orasrs_core_sdk::address::InvalidAddress;
use orasrs_core_sdk::{NodeInfo, ThreatCache, ThreatInfo};

fn threat(kind: &str, value: &str, timestamp: u64) -> ThreatInfo {
    ThreatInfo {
        threat_type: kind.to_string(),
        threat_value: value.to_string(),
        threat_level: 3,
        timestamp,
        expiration: timestamp + 1000,
        source: "test".to_string(),
        evidence: "test".to_string(),
    }
}

fn node(ip: &str, port: u16, wallet: &str) -> NodeInfo {
    NodeInfo { ip: ip.to_string(), port, wallet: wallet.to_string() }
}

fn unix_now() -> u64 {
    std::time::SystemTime::now().duration_since(std::time::UNIX_EPOCH).unwrap().as_secs()
}

#[test]
fn test_ip_conversion() {
    let cache = ThreatCache::new("https://api.orasrs.net".to_string(), "".to_string());
    assert_eq!(cache.ip_str_to_u32("192.168.1.1").unwrap(), 0xC0A80101);
    assert_eq!(cache.ip_str_to_u32("8.8.8.8").unwrap(), 0x08080808);
}

#[test]
fn test_threat_cache() {
    let mut cache = ThreatCache::new("https://api.orasrs.net".to_string(), "".to_string());

    cache.add_ip_to_blacklist("192.168.1.100");
    assert!(cache.is_ip_blocked("192.168.1.100"));
    assert!(!cache.is_ip_blocked("192.168.1.101"));

    let threat = ThreatInfo {
        threat_type: "IP".to_string(),
        threat_value: "example.com".to_string(),
        threat_level: 3,
        timestamp: 1000,
        expiration: 2000,
        source: "test".to_string(),
        evidence: "test".to_string(),
    };

    cache.add_domain_threat(threat);
    assert!(cache.is_domain_threat_at("example.com", 1500));
}

#[test]
fn a_new_cache_is_empty_and_keeps_its_settings() {
    let cache = ThreatCache::new("https://rpc.example".to_string(), "0xabc".to_string());
    assert_eq!(cache.blocked_count(), 0);
    assert_eq!(cache.domain_count(), 0);
    assert!(cache.get_nodes().is_empty());
    assert_eq!(cache.last_update(), 0);
    assert_eq!(cache.ttl_seconds(), 86400);
    assert_eq!(cache.rpc_endpoint(), "https://rpc.example");
    assert_eq!(cache.contract_addr(), "0xabc");
    assert!(!cache.is_ip_blocked("1.2.3.4"));
    assert!(!cache.is_domain_threat_at("example.com", 0));
}

#[test]
fn with_ttl_sets_the_lifetime() {
    let cache = ThreatCache::with_ttl("e".to_string(), "c".to_string(), 1000);
    assert_eq!(cache.ttl_seconds(), 1000);
    assert_eq!(cache.rpc_endpoint(), "e");
    assert_eq!(cache.contract_addr(), "c");
}

#[test]
fn ip_str_to_u32_refuses_malformed_text() {
    let cache = ThreatCache::new("e".to_string(), "c".to_string());
    assert_eq!(cache.ip_str_to_u32("1.2.3"), Err(InvalidAddress));
    assert_eq!(cache.ip_str_to_u32("1.2.3.256"), Err(InvalidAddress));
    assert_eq!(cache.ip_str_to_u32("not an address"), Err(InvalidAddress));
}

#[test]
fn malformed_addresses_are_absent_and_change_nothing() {
    let mut cache = ThreatCache::new("e".to_string(), "c".to_string());
    for text in ["", "1.2.3", "1.2.3.4.5", "1.2.3.256", "a.b.c.d", "01.2.3.4", "1.2.3.4 "] {
        cache.add_ip_to_blacklist(text);
        assert!(!cache.is_ip_blocked(text));
    }
    assert_eq!(cache.blocked_count(), 0);
    cache.add_ip_to_blacklist("1.2.3.4");
    for text in ["", "1.2.3", "1.2.3.4.5", "1.2.3.256", "a.b.c.d", "01.2.3.4", "1.2.3.4 "] {
        assert!(!cache.is_ip_blocked(text));
    }
    assert_eq!(cache.blocked_count(), 1);
}

#[test]
fn blacklisting_twice_is_blacklisting_once() {
    let mut once = ThreatCache::new("e".to_string(), "c".to_string());
    let mut twice = ThreatCache::new("e".to_string(), "c".to_string());
    once.add_ip_to_blacklist("10.0.0.1");
    twice.add_ip_to_blacklist("10.0.0.1");
    twice.add_ip_to_blacklist("10.0.0.1");
    assert_eq!(once.blocked_count(), 1);
    assert_eq!(twice.blocked_count(), 1);
    for text in ["10.0.0.1", "10.0.0.2", "10.0.0.0", "1.0.0.10"] {
        assert_eq!(once.is_ip_blocked(text), twice.is_ip_blocked(text));
    }
}

#[test]
fn the_blacklist_counts_distinct_addresses() {
    let mut cache = ThreatCache::new("e".to_string(), "c".to_string());
    cache.add_ip_to_blacklist("10.0.0.1");
    cache.add_ip_to_blacklist("10.0.0.2");
    cache.add_ip_to_blacklist("10.0.0.1");
    cache.add_ip_to_blacklist("255.255.255.255");
    cache.add_ip_to_blacklist("0.0.0.0");
    assert_eq!(cache.blocked_count(), 4);
    assert!(cache.is_ip_blocked("0.0.0.0"));
    assert!(cache.is_ip_blocked("255.255.255.255"));
    assert!(!cache.is_ip_blocked("10.0.0.3"));
}

#[test]
fn end_to_end_scenario() {
    let mut cache = ThreatCache::with_ttl("https://api.orasrs.net".to_string(), "".to_string(), 1000);
    cache.add_ip_to_blacklist("192.168.1.100");
    assert!(cache.is_ip_blocked("192.168.1.100"));
    assert!(!cache.is_ip_blocked("192.168.1.101"));
    cache.add_domain_threat(threat("DOMAIN", "example.com", 1000));
    assert!(cache.is_domain_threat_at("example.com", 1500));
    assert!(!cache.is_domain_threat_at("example.com", 2500));
}

#[test]
fn a_domain_record_lives_for_one_lifetime() {
    let mut cache = ThreatCache::with_ttl("e".to_string(), "c".to_string(), 1000);
    cache.add_domain_threat(threat("DOMAIN", "example.com", 1000));
    assert!(cache.is_domain_threat_at("example.com", 0));
    assert!(cache.is_domain_threat_at("example.com", 1000));
    assert!(cache.is_domain_threat_at("example.com", 1999));
    assert!(!cache.is_domain_threat_at("example.com", 2000));
    assert!(!cache.is_domain_threat_at("example.com", 2001));
    assert!(!cache.is_domain_threat_at("example.com", u64::MAX));
    assert!(!cache.is_domain_threat_at("example.org", 1500));
}

#[test]
fn the_lifetime_law_holds_before_and_after_a_prune() {
    for pruned_at in [0u64, 999, 1000, 1500] {
        let mut cache = ThreatCache::with_ttl("e".to_string(), "c".to_string(), 1000);
        cache.add_domain_threat(threat("DOMAIN", "example.com", 1000));
        let before: Vec<bool> =
            [1500u64, 1999, 2000, 2500].iter().map(|now| cache.is_domain_threat_at("example.com", *now)).collect();
        cache.cleanup_expired_at(pruned_at);
        let after: Vec<bool> =
            [1500u64, 1999, 2000, 2500].iter().map(|now| cache.is_domain_threat_at("example.com", *now)).collect();
        assert_eq!(before, vec![true, true, false, false]);
        assert_eq!(after, before);
    }
}

#[test]
fn the_default_lifetime_is_one_day() {
    let mut cache = ThreatCache::new("e".to_string(), "c".to_string());
    cache.add_domain_threat(threat("DOMAIN", "example.com", 1000));
    assert!(cache.is_domain_threat_at("example.com", 1000 + 86400 - 1));
    assert!(!cache.is_domain_threat_at("example.com", 1000 + 86400));
}

#[test]
fn a_stale_record_is_expired_on_arrival() {
    let mut cache = ThreatCache::with_ttl("e".to_string(), "c".to_string(), 10);
    cache.add_domain_threat(threat("DOMAIN", "old.example", 5));
    assert_eq!(cache.domain_count(), 1);
    assert!(!cache.is_domain_threat_at("old.example", 100));
    cache.cleanup_expired_at(100);
    assert_eq!(cache.domain_count(), 0);
}

#[test]
fn a_lifetime_beyond_the_clock_never_ends() {
    let mut cache = ThreatCache::with_ttl("e".to_string(), "c".to_string(), u64::MAX);
    cache.add_domain_threat(threat("DOMAIN", "forever.example", u64::MAX - 1000));
    assert!(cache.is_domain_threat_at("forever.example", u64::MAX));
    cache.cleanup_expired_at(u64::MAX);
    assert!(cache.is_domain_threat_at("forever.example", u64::MAX));
    assert_eq!(cache.domain_count(), 1);
}

#[test]
fn a_later_record_replaces_an_earlier_one() {
    let mut cache = ThreatCache::with_ttl("e".to_string(), "c".to_string(), 1000);
    cache.add_domain_threat(threat("DOMAIN", "example.com", 1000));
    cache.add_domain_threat(threat("DOMAIN", "example.com", 5000));
    assert_eq!(cache.domain_count(), 1);
    assert!(cache.is_domain_threat_at("example.com", 5500));
    cache.add_domain_threat(threat("DOMAIN", "example.com", 100));
    assert_eq!(cache.domain_count(), 1);
    assert!(!cache.is_domain_threat_at("example.com", 5500));
    assert!(cache.is_domain_threat_at("example.com", 1099));
    assert!(!cache.is_domain_threat_at("example.com", 1100));
}

#[test]
fn prune_drops_exactly_the_expired_records() {
    let mut cache = ThreatCache::with_ttl("e".to_string(), "c".to_string(), 100);
    cache.add_domain_threat(threat("DOMAIN", "a.example", 0));
    cache.add_domain_threat(threat("DOMAIN", "b.example", 50));
    cache.add_domain_threat(threat("DOMAIN", "c.example", 100));
    cache.add_domain_threat(threat("DOMAIN", "d.example", 150));
    cache.add_ip_to_blacklist("10.0.0.1");
    let nodes = vec![node("10.0.0.9", 1, "w")];
    assert!(cache.update_nodes_at(Ok::<_, ()>(nodes.clone()), 7).is_ok());

    cache.cleanup_expired_at(150);
    assert_eq!(cache.domain_count(), 2);
    assert!(!cache.is_domain_threat_at("a.example", 0));
    assert!(!cache.is_domain_threat_at("b.example", 0));
    assert!(cache.is_domain_threat_at("c.example", 150));
    assert!(cache.is_domain_threat_at("d.example", 150));

    assert_eq!(cache.blocked_count(), 1);
    assert!(cache.is_ip_blocked("10.0.0.1"));
    assert_eq!(cache.get_nodes(), &nodes);
    assert_eq!(cache.last_update(), 7);
    assert_eq!(cache.ttl_seconds(), 100);

    cache.cleanup_expired_at(199);
    assert_eq!(cache.domain_count(), 2);
    cache.cleanup_expired_at(200);
    assert_eq!(cache.domain_count(), 1);
    cache.cleanup_expired_at(u64::MAX);
    assert_eq!(cache.domain_count(), 0);
    assert_eq!(cache.blocked_count(), 1);
}

#[test]
fn a_pruned_domain_can_come_back() {
    let mut cache = ThreatCache::with_ttl("e".to_string(), "c".to_string(), 100);
    cache.add_domain_threat(threat("DOMAIN", "a.example", 0));
    cache.cleanup_expired_at(100);
    assert_eq!(cache.domain_count(), 0);
    cache.add_domain_threat(threat("DOMAIN", "a.example", 200));
    assert_eq!(cache.domain_count(), 1);
    assert!(cache.is_domain_threat_at("a.example", 250));
    cache.cleanup_expired_at(250);
    assert_eq!(cache.domain_count(), 1);
}

#[test]
fn the_clock_dates_queries_and_prunes() {
    let now = unix_now();
    let mut cache = ThreatCache::with_ttl("e".to_string(), "c".to_string(), 3600);
    cache.add_domain_threat(threat("DOMAIN", "fresh.example", now));
    cache.add_domain_threat(threat("DOMAIN", "stale.example", 1000));
    assert!(cache.is_domain_threat("fresh.example"));
    assert!(!cache.is_domain_threat("stale.example"));
    assert!(!cache.is_domain_threat("absent.example"));
    cache.cleanup_expired();
    assert_eq!(cache.domain_count(), 1);
    assert!(cache.is_domain_threat("fresh.example"));
}

#[test]
fn ingest_sorts_threats_by_kind() {
    let mut cache = ThreatCache::with_ttl("e".to_string(), "c".to_string(), 1000);
    cache.ingest(threat("IP", "10.1.2.3", 1000));
    cache.ingest(threat("DOMAIN", "bad.example", 1000));
    cache.ingest(threat("URL", "https://bad.example/x", 1000));
    cache.ingest(threat("ip", "10.1.2.4", 1000));
    cache.ingest(threat("IP", "not an address", 1000));
    cache.ingest(threat("", "10.1.2.5", 1000));
    assert_eq!(cache.blocked_count(), 1);
    assert!(cache.is_ip_blocked("10.1.2.3"));
    assert!(!cache.is_ip_blocked("10.1.2.4"));
    assert_eq!(cache.domain_count(), 1);
    assert!(cache.is_domain_threat_at("bad.example", 1500));
    assert!(!cache.is_domain_threat_at("https://bad.example/x", 1500));
    assert!(!cache.is_domain_threat_at("10.1.2.3", 1500));
}

#[test]
fn a_successful_fetch_of_threats_is_merged_and_dated() {
    let mut cache = ThreatCache::with_ttl("e".to_string(), "c".to_string(), 1000);
    cache.add_ip_to_blacklist("1.1.1.1");
    let fetched = vec![
        threat("IP", "10.1.2.3", 1000),
        threat("DOMAIN", "bad.example", 1000),
        threat("DOMAIN", "bad.example", 3000),
    ];
    assert!(cache.fetch_latest_threats_at(Ok::<_, String>(fetched), 4242));
    assert_eq!(cache.last_update(), 4242);
    assert_eq!(cache.blocked_count(), 2);
    assert!(cache.is_ip_blocked("1.1.1.1"));
    assert!(cache.is_ip_blocked("10.1.2.3"));
    assert_eq!(cache.domain_count(), 1);
    assert!(cache.is_domain_threat_at("bad.example", 3999));
    assert!(!cache.is_domain_threat_at("bad.example", 4000));
}

#[test]
fn a_failed_fetch_of_threats_changes_nothing() {
    let mut cache = ThreatCache::with_ttl("e".to_string(), "c".to_string(), 1000);
    cache.add_ip_to_blacklist("1.1.1.1");
    cache.add_domain_threat(threat("DOMAIN", "bad.example", 1000));
    assert!(cache.fetch_latest_threats_at(Ok::<_, String>(Vec::new()), 5));
    assert!(!cache.fetch_latest_threats_at(Err("unreachable".to_string()), 4242));
    assert!(!cache.fetch_latest_threats(Err::<Vec<ThreatInfo>, _>("unreachable".to_string())));
    assert_eq!(cache.last_update(), 5);
    assert_eq!(cache.blocked_count(), 1);
    assert_eq!(cache.domain_count(), 1);
}

#[test]
fn a_fetch_of_threats_is_dated_by_the_clock() {
    let before = unix_now();
    let mut cache = ThreatCache::new("e".to_string(), "c".to_string());
    assert!(cache.fetch_latest_threats(Ok::<_, ()>(vec![threat("IP", "10.1.2.3", 1)])));
    assert!(cache.last_update() >= before);
    assert!(cache.last_update() <= unix_now());
    assert!(cache.is_ip_blocked("10.1.2.3"));
}

#[test]
fn nodes_are_replaced_as_a_whole() {
    let mut cache = ThreatCache::new("e".to_string(), "c".to_string());
    let first = vec![node("10.0.0.1", 8080, "0x01"), node("10.0.0.2", 8081, "0x02")];
    let second = vec![node("10.0.0.3", 9000, "0x03")];
    assert_eq!(cache.update_nodes_at(Ok::<_, String>(first.clone()), 100), Ok(()));
    assert_eq!(cache.get_nodes(), &first);
    assert_eq!(cache.last_update(), 100);
    assert_eq!(cache.update_nodes_at(Ok::<_, String>(second.clone()), 200), Ok(()));
    assert_eq!(cache.get_nodes(), &second);
    assert_eq!(cache.last_update(), 200);
    assert_eq!(cache.update_nodes_at(Ok::<_, String>(Vec::new()), 300), Ok(()));
    assert!(cache.get_nodes().is_empty());
    assert_eq!(cache.last_update(), 300);
}

#[test]
fn a_failed_fetch_of_nodes_is_handed_on_and_changes_nothing() {
    let mut cache = ThreatCache::new("e".to_string(), "c".to_string());
    let first = vec![node("10.0.0.1", 8080, "0x01")];
    assert_eq!(cache.update_nodes_at(Ok::<_, String>(first.clone()), 100), Ok(()));
    assert_eq!(cache.update_nodes_at(Err("timeout".to_string()), 200), Err("timeout".to_string()));
    assert_eq!(cache.update_nodes(Err::<Vec<NodeInfo>, _>(17u8)), Err(17u8));
    assert_eq!(cache.get_nodes(), &first);
    assert_eq!(cache.last_update(), 100);
}

#[test]
fn a_fetch_of_nodes_is_dated_by_the_clock() {
    let before = unix_now();
    let mut cache = ThreatCache::new("e".to_string(), "c".to_string());
    assert_eq!(cache.update_nodes(Ok::<_, ()>(vec![node("10.0.0.1", 1, "w")])), Ok(()));
    assert!(cache.last_update() >= before);
    assert!(cache.last_update() <= unix_now());
    assert_eq!(cache.get_nodes().len(), 1);
}

#[test]
fn refreshing_nodes_leaves_threats_alone() {
    let mut cache = ThreatCache::with_ttl("e".to_string(), "c".to_string(), 1000);
    cache.add_ip_to_blacklist("1.1.1.1");
    cache.add_domain_threat(threat("DOMAIN", "bad.example", 1000));
    assert_eq!(cache.update_nodes_at(Ok::<_, ()>(vec![node("10.0.0.1", 1, "w")]), 9), Ok(()));
    assert!(cache.is_ip_blocked("1.1.1.1"));
    assert!(cache.is_domain_threat_at("bad.example", 1500));
    assert_eq!(cache.rpc_endpoint(), "e");
    assert_eq!(cache.contract_addr(), "c");
}

#[test]
fn many_domains_are_kept_apart() {
    let mut cache = ThreatCache::with_ttl("e".to_string(), "c".to_string(), 10);
    for i in 0..200u64 {
        cache.add_domain_threat(threat("DOMAIN", &format!("d{}.example", i), i));
    }
    assert_eq!(cache.domain_count(), 200);
    cache.cleanup_expired_at(110);
    assert_eq!(cache.domain_count(), 99);
    for i in 0..200u64 {
        assert_eq!(cache.is_domain_threat_at(&format!("d{}.example", i), 110), i > 100);
    }
}

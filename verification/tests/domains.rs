use orasrs_core_sdk::domains::DomainTable;
use orasrs_core_sdk::ThreatInfo;

fn threat(value: &str, timestamp: u64) -> ThreatInfo {
    ThreatInfo {
        threat_type: "DOMAIN".to_string(),
        threat_value: value.to_string(),
        threat_level: 4,
        timestamp,
        expiration: 0,
        source: "s".to_string(),
        evidence: "e".to_string(),
    }
}

#[test]
fn a_new_table_is_empty() {
    let table = DomainTable::new();
    assert_eq!(table.len(), 0);
    assert_eq!(table.expiry_of("example.com"), None);
    assert_eq!(table.expiry_of(""), None);
}

#[test]
fn a_record_stands_under_its_value() {
    let mut table = DomainTable::new();
    table.insert(threat("example.com", 1), 100);
    table.insert(threat("example.org", 2), 200);
    table.insert(threat("", 3), 300);
    assert_eq!(table.len(), 3);
    assert_eq!(table.expiry_of("example.com"), Some(100));
    assert_eq!(table.expiry_of("example.org"), Some(200));
    assert_eq!(table.expiry_of(""), Some(300));
    assert_eq!(table.expiry_of("example.net"), None);
    assert_eq!(table.expiry_of("EXAMPLE.COM"), None);
}

#[test]
fn a_record_takes_the_place_of_an_earlier_one() {
    let mut table = DomainTable::new();
    table.insert(threat("example.com", 1), 100);
    table.insert(threat("example.com", 2), 50);
    assert_eq!(table.len(), 1);
    assert_eq!(table.expiry_of("example.com"), Some(50));
    table.prune(50);
    assert_eq!(table.len(), 0);
}

#[test]
fn an_expiry_can_lie_beyond_64_bits() {
    let mut table = DomainTable::new();
    let far = u64::MAX as u128 + u64::MAX as u128;
    table.insert(threat("example.com", u64::MAX), far);
    assert_eq!(table.expiry_of("example.com"), Some(far));
    table.prune(u64::MAX);
    assert_eq!(table.len(), 1);
}

#[test]
fn prune_drops_what_has_expired_by_then() {
    let mut table = DomainTable::new();
    for i in 0..10u64 {
        table.insert(threat(&format!("d{}", i), 0), (i * 10) as u128);
    }
    table.prune(0);
    assert_eq!(table.len(), 9);
    assert_eq!(table.expiry_of("d0"), None);
    table.prune(45);
    assert_eq!(table.len(), 5);
    for i in 0..10u64 {
        assert_eq!(table.expiry_of(&format!("d{}", i)), if i >= 5 { Some((i * 10) as u128) } else { None });
    }
    table.prune(45);
    assert_eq!(table.len(), 5);
    table.insert(threat("d1", 0), 1000);
    assert_eq!(table.len(), 6);
    table.prune(90);
    assert_eq!(table.len(), 1);
    assert_eq!(table.expiry_of("d1"), Some(1000));
    table.prune(1000);
    assert_eq!(table.len(), 0);
    table.prune(2000);
    assert_eq!(table.len(), 0);
}

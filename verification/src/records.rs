//! The records that travel through the cache: threats and peer nodes.

use vstd::prelude::*;

verus! {

/// One piece of threat intelligence, as the upstream source reports it.
#[derive(Debug, Clone, PartialEq, Eq)]
pub struct ThreatInfo {
    /// The kind of the threat: `"IP"`, `"DOMAIN"` or `"URL"`.
    pub threat_type: String,
    /// The address, domain or URL itself.
    pub threat_value: String,
    /// Severity, 1 to 5.
    pub threat_level: u8,
    /// When the threat was discovered, in seconds since the epoch.
    pub timestamp: u64,
    /// The expiry that the source suggests, in seconds since the epoch.
    pub expiration: u64,
    /// Who reported the threat.
    pub source: String,
    /// A digest of the evidence, carried as it came.
    pub evidence: String,
}

/// What a `ThreatInfo` holds, with its texts as sequences of characters.
pub struct ThreatRecord {
    pub threat_type: Seq<char>,
    pub threat_value: Seq<char>,
    pub threat_level: u8,
    pub timestamp: u64,
    pub expiration: u64,
    pub source: Seq<char>,
    pub evidence: Seq<char>,
}

impl View for ThreatInfo {
    type V = ThreatRecord;

    open spec fn view(&self) -> ThreatRecord {
        ThreatRecord {
            threat_type: self.threat_type@,
            threat_value: self.threat_value@,
            threat_level: self.threat_level,
            timestamp: self.timestamp,
            expiration: self.expiration,
            source: self.source@,
            evidence: self.evidence@,
        }
    }
}

/// The records of a list of threats, in order.
pub open spec fn threat_records(threats: Seq<ThreatInfo>) -> Seq<ThreatRecord> {
    Seq::new(threats.len(), |i: int| threats[i]@)
}

/// One peer of the network, as the registry lists it.
#[derive(Debug, Clone, PartialEq, Eq)]
pub struct NodeInfo {
    /// The peer's address.
    pub ip: String,
    /// The port it listens on.
    pub port: u16,
    /// The wallet that registered it.
    pub wallet: String,
}

/// What a `NodeInfo` holds, with its texts as sequences of characters.
pub struct NodeRecord {
    pub ip: Seq<char>,
    pub port: u16,
    pub wallet: Seq<char>,
}

impl View for NodeInfo {
    type V = NodeRecord;

    open spec fn view(&self) -> NodeRecord {
        NodeRecord { ip: self.ip@, port: self.port, wallet: self.wallet@ }
    }
}

/// The records of a list of nodes, in order.
pub open spec fn node_records(nodes: Seq<NodeInfo>) -> Seq<NodeRecord> {
    Seq::new(nodes.len(), |i: int| nodes[i]@)
}

} // verus!

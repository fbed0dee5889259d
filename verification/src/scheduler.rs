//! The background refresh: what one pass does to the state of the process.
//! The host's thread sleeps, fetches, and hands the outcomes to
//! `refresh_cycle`.

use vstd::prelude::*;

use crate::boundary::{
    after_node_refresh, after_threat_refresh, fetched_nodes, fetched_threats,
    orasrs_update_nodes_at, orasrs_update_threats_at, ProcessState,
};
use crate::cache::CacheState;
use crate::clock::now_secs;
use crate::records::{NodeInfo, NodeRecord, ThreatInfo, ThreatRecord};

verus! {

/// Seconds between two passes of the background refresh.
pub const REFRESH_INTERVAL_SECS: u64 = 300;

/// What one pass achieved. A failed fetch is retried by the next pass.
#[derive(Debug, Clone, Copy, PartialEq, Eq, Structural)]
pub struct CycleReport {
    /// Whether the threats were refreshed.
    pub threats_refreshed: bool,
    /// Whether the registry was refreshed.
    pub nodes_refreshed: bool,
}

/// The state after one pass at second `now`: the expired domain records
/// are dropped, then the threats that were fetched are ingested, then the
/// nodes that were fetched replace the earlier ones. A fetch that failed
/// leaves its part of the cache as it was.
pub open spec fn after_cycle(
    state: Option<CacheState>,
    threats: Option<Seq<ThreatRecord>>,
    nodes: Option<Seq<NodeRecord>>,
    now: u64,
) -> Option<CacheState> {
    after_node_refresh(after_threat_refresh(state, threats, now), nodes, now)
}

/// One pass of the refresh at second `now`, given the outcomes of its two
/// fetches.
pub fn refresh_cycle_at<E, F>(
    state: &mut ProcessState,
    threats: Result<Vec<ThreatInfo>, E>,
    nodes: Result<Vec<NodeInfo>, F>,
    now: u64,
) -> (report: CycleReport)
    ensures
        final(state)@ == after_cycle(
            old(state)@,
            fetched_threats(threats),
            fetched_nodes(nodes),
            now,
        ),
        report.threats_refreshed == (old(state)@ is Some && threats is Ok),
        report.nodes_refreshed == (old(state)@ is Some && nodes is Ok),
{
    let threats_refreshed = orasrs_update_threats_at(state, threats, now);
    let nodes_refreshed = orasrs_update_nodes_at(state, nodes, now);
    CycleReport { threats_refreshed, nodes_refreshed }
}

/// One pass of the refresh, dated by the clock, which is read once.
pub fn refresh_cycle<E, F>(
    state: &mut ProcessState,
    threats: Result<Vec<ThreatInfo>, E>,
    nodes: Result<Vec<NodeInfo>, F>,
) -> (report: CycleReport)
    ensures
        exists|now: u64|
            final(state)@ == after_cycle(
                old(state)@,
                fetched_threats(threats),
                fetched_nodes(nodes),
                now,
            ),
        report.threats_refreshed == (old(state)@ is Some && threats is Ok),
        report.nodes_refreshed == (old(state)@ is Some && nodes is Ok),
{
    let now: u64 = now_secs();
    refresh_cycle_at(state, threats, nodes, now)
}

} // verus!

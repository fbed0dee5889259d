//! The threat cache: a set of blacklisted addresses, a map of domain threats
//! that expire, and the list of peer nodes.

use roaring::RoaringBitmap;
use vstd::prelude::*;
use vstd::set_lib::*;

use crate::address::{encode, ipv4_key, InvalidAddress};
use crate::bitmap::{bitmap_values, lemma_key_set_finite};
use crate::clock::now_secs;
use crate::domains::{live_at, DomainState, DomainTable};
use crate::records::{
    node_records, threat_records, NodeInfo, NodeRecord, ThreatInfo, ThreatRecord,
};
use crate::text::same_text;

verus! {

/// The lifetime of a domain record where none is configured: one day.
pub const DEFAULT_TTL_SECONDS: u64 = 86400;

/// What a cache holds.
pub struct CacheState {
    /// The keys of the blacklisted addresses.
    pub blocked: Set<u32>,
    /// The domain threats, by domain.
    pub domains: Map<Seq<char>, DomainState>,
    /// The peer nodes, in the order of the registry.
    pub nodes: Seq<NodeRecord>,
    /// The second of the last successful refresh.
    pub last_update: u64,
    /// The lifetime of a domain record, in seconds.
    pub ttl_seconds: u64,
    /// The endpoint of the upstream source.
    pub rpc_endpoint: Seq<char>,
    /// The address of the upstream registry.
    pub contract_addr: Seq<char>,
}

impl CacheState {
    /// An empty cache for the given upstream source.
    pub open spec fn empty(
        rpc_endpoint: Seq<char>,
        contract_addr: Seq<char>,
        ttl_seconds: u64,
    ) -> CacheState {
        CacheState {
            blocked: Set::empty(),
            domains: Map::empty(),
            nodes: Seq::empty(),
            last_update: 0,
            ttl_seconds,
            rpc_endpoint,
            contract_addr,
        }
    }

    /// Whether `ip` names a blacklisted address. A text that names no
    /// address is not blocked.
    pub open spec fn is_ip_blocked(self, ip: Seq<char>) -> bool {
        match ipv4_key(ip) {
            Some(key) => self.blocked.contains(key),
            None => false,
        }
    }

    /// The cache after `ip` was blacklisted. A text that names no address
    /// changes nothing.
    pub open spec fn add_ip(self, ip: Seq<char>) -> CacheState {
        match ipv4_key(ip) {
            Some(key) => CacheState { blocked: self.blocked.insert(key), ..self },
            None => self,
        }
    }

    /// Whether `domain` is a threat at second `now`: it has a record, and
    /// the record has not expired.
    pub open spec fn is_domain_threat(self, domain: Seq<char>, now: u64) -> bool {
        self.domains.contains_key(domain) && now < self.domains[domain].expires_at
    }

    /// The cache after `threat` was ingested: the record stands under its
    /// value, in place of any earlier one, and expires one lifetime after
    /// its discovery.
    pub open spec fn add_domain(self, threat: ThreatRecord) -> CacheState {
        CacheState {
            domains: self.domains.insert(
                threat.threat_value,
                DomainState {
                    threat,
                    expires_at: (threat.timestamp + self.ttl_seconds) as nat,
                },
            ),
            ..self
        }
    }

    /// The cache after the records that have expired by second `now` were
    /// dropped.
    pub open spec fn prune(self, now: u64) -> CacheState {
        CacheState { domains: live_at(self.domains, now), ..self }
    }

    /// The cache after `threat` came in from upstream: an `"IP"` threat
    /// blacklists the address that its value names, a `"DOMAIN"` threat is
    /// ingested as a domain record, and any other kind has no place in the
    /// cache.
    pub open spec fn ingest(self, threat: ThreatRecord) -> CacheState {
        if threat.threat_type == "IP"@ {
            self.add_ip(threat.threat_value)
        } else if threat.threat_type == "DOMAIN"@ {
            self.add_domain(threat)
        } else {
            self
        }
    }

    /// The cache after `threats` came in from upstream, one after the other.
    pub open spec fn ingest_all(self, threats: Seq<ThreatRecord>) -> CacheState
        decreases threats.len(),
    {
        if threats.len() == 0 {
            self
        } else {
            self.ingest_all(threats.drop_last()).ingest(threats.last())
        }
    }

    /// The cache after the threats were refreshed at second `now`.
    pub open spec fn with_threats(self, threats: Seq<ThreatRecord>, now: u64) -> CacheState {
        CacheState { last_update: now, ..self.ingest_all(threats) }
    }

    /// The cache after the registry was refreshed at second `now`.
    pub open spec fn with_nodes(self, nodes: Seq<NodeRecord>, now: u64) -> CacheState {
        CacheState { nodes, last_update: now, ..self }
    }

    /// What holds of every cache: each domain record stands under its own
    /// value and expires one lifetime after its discovery.
    pub open spec fn valid(self) -> bool {
        &&& self.domains.dom().finite()
        &&& forall|domain: Seq<char>| #[trigger]
            self.domains.contains_key(domain) ==> {
                &&& self.domains[domain].threat.threat_value == domain
                &&& self.domains[domain].expires_at == self.domains[domain].threat.timestamp
                    + self.ttl_seconds
            }
    }
}

/// The threat cache.
pub struct ThreatCache {
    /// The blacklisted addresses, by key.
    ip_blacklist: RoaringBitmap,
    /// The domain threats, by domain.
    domain_threats: DomainTable,
    /// The peer nodes.
    nodes: Vec<NodeInfo>,
    /// The second of the last successful refresh.
    last_update: u64,
    /// The address of the upstream registry.
    contract_addr: String,
    /// The endpoint of the upstream source.
    rpc_endpoint: String,
    /// The lifetime of a domain record, in seconds.
    ttl_seconds: u64,
}

impl View for ThreatCache {
    type V = CacheState;

    closed spec fn view(&self) -> CacheState {
        CacheState {
            blocked: bitmap_values(self.ip_blacklist),
            domains: self.domain_threats@,
            nodes: node_records(self.nodes@),
            last_update: self.last_update,
            ttl_seconds: self.ttl_seconds,
            rpc_endpoint: self.rpc_endpoint@,
            contract_addr: self.contract_addr@,
        }
    }
}

impl ThreatCache {
    /// An empty cache for the given upstream source, with the default
    /// lifetime of domain records.
    pub fn new(rpc_endpoint: String, contract_addr: String) -> (cache: ThreatCache)
        ensures
            cache@ == CacheState::empty(rpc_endpoint@, contract_addr@, DEFAULT_TTL_SECONDS),
            cache@.valid(),
    {
        ThreatCache::with_ttl(rpc_endpoint, contract_addr, DEFAULT_TTL_SECONDS)
    }

    /// An empty cache whose domain records live for `ttl_seconds`.
    pub fn with_ttl(
        rpc_endpoint: String,
        contract_addr: String,
        ttl_seconds: u64,
    ) -> (cache: ThreatCache)
        ensures
            cache@ == CacheState::empty(rpc_endpoint@, contract_addr@, ttl_seconds),
            cache@.valid(),
    {
        let cache = ThreatCache {
            ip_blacklist: RoaringBitmap::new(),
            domain_threats: DomainTable::new(),
            nodes: Vec::new(),
            last_update: 0,
            contract_addr,
            rpc_endpoint,
            ttl_seconds,
        };
        assert(cache@.nodes =~= Seq::empty());
        cache
    }

    /// The key of the address that `ip_str` names.
    pub fn ip_str_to_u32(&self, ip_str: &str) -> (key: Result<u32, InvalidAddress>)
        ensures
            match key {
                Ok(k) => ipv4_key(ip_str@) == Some(k),
                Err(_) => ipv4_key(ip_str@) is None,
            },
    {
        encode(ip_str)
    }

    /// Whether `ip_str` names a blacklisted address. A malformed text is
    /// not blocked.
    pub fn is_ip_blocked(&self, ip_str: &str) -> (blocked: bool)
        ensures
            blocked == self@.is_ip_blocked(ip_str@),
    {
        match self.ip_str_to_u32(ip_str) {
            Ok(key) => self.ip_blacklist.contains(key),
            Err(_) => false,
        }
    }

    /// Blacklists the address that `ip_str` names. A malformed text changes
    /// nothing.
    pub fn add_ip_to_blacklist(&mut self, ip_str: &str)
        ensures
            final(self)@ == old(self)@.add_ip(ip_str@),
            old(self)@.valid() ==> final(self)@.valid(),
    {
        match self.ip_str_to_u32(ip_str) {
            Ok(key) => {
                self.ip_blacklist.insert(key);
            },
            Err(_) => {},
        }
    }

    /// Whether `domain` is a threat at second `now`.
    pub fn is_domain_threat_at(&self, domain: &str, now: u64) -> (threat: bool)
        ensures
            threat == self@.is_domain_threat(domain@, now),
    {
        match self.domain_threats.expiry_of(domain) {
            Some(expires_at) => (now as u128) < expires_at,
            None => false,
        }
    }

    /// Whether `domain` is a threat now. The clock is read once.
    pub fn is_domain_threat(&self, domain: &str) -> (threat: bool)
        ensures
            exists|now: u64| threat == self@.is_domain_threat(domain@, now),
    {
        let now: u64 = now_secs();
        self.is_domain_threat_at(domain, now)
    }

    /// Ingests a domain threat: it stands under its value, in place of any
    /// earlier record, and expires one lifetime after its discovery.
    pub fn add_domain_threat(&mut self, threat: ThreatInfo)
        ensures
            final(self)@ == old(self)@.add_domain(threat@),
            old(self)@.valid() ==> final(self)@.valid(),
    {
        let expires_at: u128 = threat.timestamp as u128 + self.ttl_seconds as u128;
        self.domain_threats.insert(threat, expires_at);
    }

    /// Drops the domain records that have expired by second `now`. The
    /// blacklist, the nodes and the settings stay as they are.
    pub fn cleanup_expired_at(&mut self, now: u64)
        ensures
            final(self)@ == old(self)@.prune(now),
            old(self)@.valid() ==> final(self)@.valid(),
    {
        proof {
            lemma_prune_scoped(self@, now);
        }
        self.domain_threats.prune(now);
    }

    /// Drops the domain records that have expired by now. The clock is read
    /// once.
    pub fn cleanup_expired(&mut self)
        ensures
            exists|now: u64| final(self)@ == old(self)@.prune(now),
            old(self)@.valid() ==> final(self)@.valid(),
    {
        let now: u64 = now_secs();
        self.cleanup_expired_at(now);
    }

    /// Takes in one threat from upstream.
    pub fn ingest(&mut self, threat: ThreatInfo)
        ensures
            final(self)@ == old(self)@.ingest(threat@),
            old(self)@.valid() ==> final(self)@.valid(),
    {
        if same_text(threat.threat_type.as_str(), "IP") {
            self.add_ip_to_blacklist(threat.threat_value.as_str());
        } else if same_text(threat.threat_type.as_str(), "DOMAIN") {
            self.add_domain_threat(threat);
        }
    }

    /// Takes in the outcome of a fetch of the latest threats at second
    /// `now`. On success every threat is ingested, in order, the refresh is
    /// dated `now`, and the result is `true`. A failed fetch leaves the
    /// cache as it was.
    pub fn fetch_latest_threats_at<E>(
        &mut self,
        fetched: Result<Vec<ThreatInfo>, E>,
        now: u64,
    ) -> (refreshed: bool)
        ensures
            match fetched {
                Ok(threats) => refreshed && final(self)@ == old(self)@.with_threats(
                    threat_records(threats@),
                    now,
                ),
                Err(_) => !refreshed && final(self)@ == old(self)@,
            },
            old(self)@.valid() ==> final(self)@.valid(),
    {
        match fetched {
            Ok(threats) => {
                let ghost all = threats@;
                let ghost records = threat_records(threats@);
                proof {
                    if self@.valid() {
                        lemma_threats_keep_valid(self@, records, now);
                    }
                }
                assert(records.take(0) =~= Seq::empty());
                for threat in it: threats.into_iter()
                    invariant
                        it.seq() == all,
                        records == threat_records(all),
                        self@ == old(self)@.ingest_all(records.take(it.index() as int)),
                {
                    assert(records.take(it.index() + 1).drop_last() =~= records.take(
                        it.index() as int,
                    ));
                    self.ingest(threat);
                }
                assert(records.take(records.len() as int) =~= records);
                self.last_update = now;
                true
            },
            Err(_) => false,
        }
    }

    /// Takes in the outcome of a fetch of the latest threats, dated by the
    /// clock, which is read only where the fetch succeeded.
    pub fn fetch_latest_threats<E>(
        &mut self,
        fetched: Result<Vec<ThreatInfo>, E>,
    ) -> (refreshed: bool)
        ensures
            match fetched {
                Ok(threats) => refreshed && exists|now: u64|
                    final(self)@ == old(self)@.with_threats(threat_records(threats@), now),
                Err(_) => !refreshed && final(self)@ == old(self)@,
            },
            old(self)@.valid() ==> final(self)@.valid(),
    {
        match fetched {
            Ok(threats) => {
                let now: u64 = now_secs();
                self.fetch_latest_threats_at(Ok::<Vec<ThreatInfo>, E>(threats), now)
            },
            Err(_) => false,
        }
    }

    /// Takes in the outcome of a fetch of the node registry at second `now`.
    /// On success the nodes replace the earlier ones as a whole and the
    /// refresh is dated `now`. A failure is handed on, and leaves the cache
    /// as it was.
    pub fn update_nodes_at<E>(
        &mut self,
        fetched: Result<Vec<NodeInfo>, E>,
        now: u64,
    ) -> (outcome: Result<(), E>)
        ensures
            match fetched {
                Ok(nodes) => outcome is Ok && final(self)@ == old(self)@.with_nodes(
                    node_records(nodes@),
                    now,
                ),
                Err(error) => outcome == Err::<(), E>(error) && final(self)@ == old(self)@,
            },
            old(self)@.valid() ==> final(self)@.valid(),
    {
        match fetched {
            Ok(nodes) => {
                self.nodes = nodes;
                self.last_update = now;
                Ok(())
            },
            Err(error) => Err(error),
        }
    }

    /// Takes in the outcome of a fetch of the node registry, dated by the
    /// clock, which is read only where the fetch succeeded.
    pub fn update_nodes<E>(&mut self, fetched: Result<Vec<NodeInfo>, E>) -> (outcome: Result<(), E>)
        ensures
            match fetched {
                Ok(nodes) => outcome is Ok && exists|now: u64|
                    final(self)@ == old(self)@.with_nodes(node_records(nodes@), now),
                Err(error) => outcome == Err::<(), E>(error) && final(self)@ == old(self)@,
            },
            old(self)@.valid() ==> final(self)@.valid(),
    {
        match fetched {
            Ok(nodes) => {
                let now: u64 = now_secs();
                self.update_nodes_at(Ok::<Vec<NodeInfo>, E>(nodes), now)
            },
            Err(error) => Err(error),
        }
    }

    /// The peer nodes, in the order of the registry.
    pub fn get_nodes(&self) -> (nodes: &Vec<NodeInfo>)
        ensures
            node_records(nodes@) == self@.nodes,
    {
        &self.nodes
    }

    /// How many addresses are blacklisted.
    pub fn blocked_count(&self) -> (count: u64)
        ensures
            count == self@.blocked.len(),
            self@.blocked.finite(),
    {
        proof {
            lemma_key_set_finite(self@.blocked);
        }
        self.ip_blacklist.len()
    }

    /// How many domains have a record, expired ones included until they
    /// are dropped.
    pub fn domain_count(&self) -> (count: usize)
        ensures
            count == self@.domains.len(),
            self@.domains.dom().finite(),
    {
        self.domain_threats.len()
    }

    /// The second of the last successful refresh, zero before the first.
    pub fn last_update(&self) -> (second: u64)
        ensures
            second == self@.last_update,
    {
        self.last_update
    }

    /// The lifetime of a domain record, in seconds.
    pub fn ttl_seconds(&self) -> (seconds: u64)
        ensures
            seconds == self@.ttl_seconds,
    {
        self.ttl_seconds
    }

    /// The endpoint of the upstream source.
    pub fn rpc_endpoint(&self) -> (endpoint: &str)
        ensures
            endpoint@ == self@.rpc_endpoint,
    {
        self.rpc_endpoint.as_str()
    }

    /// The address of the upstream registry.
    pub fn contract_addr(&self) -> (address: &str)
        ensures
            address@ == self@.contract_addr,
    {
        self.contract_addr.as_str()
    }
}

/// Blacklisting is idempotent: the second of two equal calls changes
/// nothing.
pub proof fn lemma_add_ip_idempotent(state: CacheState, ip: Seq<char>)
    ensures
        state.add_ip(ip).add_ip(ip) == state.add_ip(ip),
{
    if let Some(key) = ipv4_key(ip) {
        assert(state.blocked.insert(key).insert(key) =~= state.blocked.insert(key));
    }
}

/// A text that names no address is never blocked, and blacklisting it
/// changes nothing.
pub proof fn lemma_malformed_is_absent(state: CacheState, ip: Seq<char>)
    requires
        ipv4_key(ip) is None,
    ensures
        !state.is_ip_blocked(ip),
        state.add_ip(ip) == state,
{
}

/// A blacklisted address is blocked, and no other address becomes so.
pub proof fn lemma_add_ip_blocks(state: CacheState, ip: Seq<char>, other: Seq<char>)
    requires
        ipv4_key(ip) is Some,
    ensures
        state.add_ip(ip).is_ip_blocked(ip),
        ipv4_key(other) != ipv4_key(ip) ==> state.add_ip(ip).is_ip_blocked(other)
            == state.is_ip_blocked(other),
{
}

/// The lifetime law. A domain record discovered at second `t0`, ingested
/// into a cache whose records live `ttl` seconds, is a threat at every
/// second before `t0 + ttl` and at none from `t0 + ttl` on. A prune pass at
/// a second no later than the query changes no answer.
pub proof fn lemma_ttl_law(state: CacheState, threat: ThreatRecord, pruned_at: u64, now: u64)
    requires
        pruned_at <= now,
    ensures
        state.add_domain(threat).is_domain_threat(threat.threat_value, now) <==> now
            < threat.timestamp + state.ttl_seconds,
        state.add_domain(threat).prune(pruned_at).is_domain_threat(threat.threat_value, now)
            <==> now < threat.timestamp + state.ttl_seconds,
{
}

/// A prune pass changes no answer to a query that is no earlier than the
/// pass.
pub proof fn lemma_prune_keeps_answers(
    state: CacheState,
    pruned_at: u64,
    domain: Seq<char>,
    now: u64,
)
    requires
        pruned_at <= now,
    ensures
        state.prune(pruned_at).is_domain_threat(domain, now) == state.is_domain_threat(domain, now),
{
}

/// Pruning is scoped. After a pass at second `now` no domain record that
/// had expired by then is left, every other record stands as it was, and
/// the blacklist, the nodes and the settings are untouched.
pub proof fn lemma_prune_scoped(state: CacheState, now: u64)
    ensures
        forall|domain: Seq<char>| #[trigger]
            state.prune(now).domains.contains_key(domain) ==> state.prune(
                now,
            ).domains[domain].expires_at > now,
        forall|domain: Seq<char>|
            state.domains.contains_key(domain) && state.domains[domain].expires_at > now
                ==> #[trigger] state.prune(now).domains.contains_key(domain) && state.prune(
                now,
            ).domains[domain] == state.domains[domain],
        state.prune(now).blocked == state.blocked,
        state.prune(now).nodes == state.nodes,
        state.prune(now).last_update == state.last_update,
        state.prune(now).ttl_seconds == state.ttl_seconds,
        state.prune(now).rpc_endpoint == state.rpc_endpoint,
        state.prune(now).contract_addr == state.contract_addr,
        state.valid() ==> state.prune(now).valid(),
{
    if state.valid() {
        assert(state.prune(now).domains.dom().subset_of(state.domains.dom()));
        lemma_set_subset_finite(state.domains.dom(), state.prune(now).domains.dom());
    }
}

/// An empty cache is valid, and every step keeps a cache valid.
pub proof fn lemma_steps_keep_valid(
    state: CacheState,
    ip: Seq<char>,
    threat: ThreatRecord,
    nodes: Seq<NodeRecord>,
    now: u64,
)
    requires
        state.valid(),
    ensures
        CacheState::empty(state.rpc_endpoint, state.contract_addr, state.ttl_seconds).valid(),
        state.add_ip(ip).valid(),
        state.add_domain(threat).valid(),
        state.ingest(threat).valid(),
        state.prune(now).valid(),
        state.with_nodes(nodes, now).valid(),
{
    lemma_prune_scoped(state, now);
}

/// A refresh of the threats keeps a cache valid, and leaves its nodes and
/// its settings as they were.
pub proof fn lemma_threats_keep_valid(state: CacheState, threats: Seq<ThreatRecord>, now: u64)
    requires
        state.valid(),
    ensures
        state.ingest_all(threats).valid(),
        state.with_threats(threats, now).valid(),
        state.ingest_all(threats).nodes == state.nodes,
        state.ingest_all(threats).last_update == state.last_update,
        state.ingest_all(threats).ttl_seconds == state.ttl_seconds,
        state.ingest_all(threats).rpc_endpoint == state.rpc_endpoint,
        state.ingest_all(threats).contract_addr == state.contract_addr,
    decreases threats.len(),
{
    if threats.len() > 0 {
        lemma_threats_keep_valid(state, threats.drop_last(), now);
    }
}

} // verus!

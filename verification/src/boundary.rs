//! The boundary: the operations that a host process calls. Each works on
//! the one state of the process, takes texts that may be missing or
//! unreadable, and always returns; before initialisation each gives its
//! safe default.

use vstd::prelude::*;
use vstd::string::*;
use vstd::utf8::*;

use crate::buffer::{
    capacity_of, copy_terminated, has_nul, lemma_copy_stays_within, terminated_copy,
};
use crate::cache::{CacheState, ThreatCache, DEFAULT_TTL_SECONDS};
use crate::clock::now_secs;
use crate::records::{
    node_records, threat_records, NodeInfo, NodeRecord, ThreatInfo, ThreatRecord,
};
use crate::report::{lemma_status_text_plain, node_json, render_node, render_status, status_text};

verus! {

/// The endpoint that stands in where the host names none.
pub const DEFAULT_RPC_ENDPOINT: &'static str = "https://api.orasrs.net";

/// The state of the process: nothing before initialisation, one cache from
/// then on.
pub struct ProcessState {
    cache: Option<ThreatCache>,
}

impl View for ProcessState {
    type V = Option<CacheState>;

    closed spec fn view(&self) -> Option<CacheState> {
        match self.cache {
            Some(cache) => Some(cache@),
            None => None,
        }
    }
}

impl ProcessState {
    /// The state of a process that has not been initialised.
    pub fn new() -> (state: ProcessState)
        ensures
            state@ is None,
    {
        ProcessState { cache: None }
    }

    /// Whether the process has been initialised.
    pub fn is_initialized(&self) -> (initialized: bool)
        ensures
            initialized == (self@ is Some),
    {
        self.cache.is_some()
    }

    /// The cache, once the process has been initialised.
    pub fn cache(&self) -> (cache: Option<&ThreatCache>)
        ensures
            match cache {
                Some(c) => self@ == Some(c@),
                None => self@ is None,
            },
    {
        self.cache.as_ref()
    }
}

/// The text that a host handed over, or `default` where it handed none.
pub open spec fn text_or(text: Option<&str>, default: Seq<char>) -> Seq<char> {
    match text {
        Some(t) => t@,
        None => default,
    }
}

/// Initialises the process, once. The first call makes an empty cache for
/// the given endpoint and registry; a missing endpoint is replaced by the
/// default one, a missing registry address by the empty text. Every later
/// call changes nothing, whatever its arguments. The result is always
/// `true`.
pub fn orasrs_init(
    state: &mut ProcessState,
    rpc_url: Option<&str>,
    contract_addr: Option<&str>,
) -> (ready: bool)
    ensures
        ready,
        old(state)@ is Some ==> *final(state) == *old(state),
        old(state)@ is None ==> final(state)@ == Some(
            CacheState::empty(
                text_or(rpc_url, DEFAULT_RPC_ENDPOINT@),
                text_or(contract_addr, Seq::empty()),
                DEFAULT_TTL_SECONDS,
            ),
        ),
{
    if state.cache.is_some() {
        return true;
    }
    let endpoint = match rpc_url {
        Some(text) => String::from_str(text),
        None => String::from_str(DEFAULT_RPC_ENDPOINT),
    };
    let registry = match contract_addr {
        Some(text) => String::from_str(text),
        None => String::new(),
    };
    state.cache = Some(ThreatCache::new(endpoint, registry));
    true
}

/// What a host hands over where it hands over a text, or nothing where the
/// text is missing or unreadable.
pub open spec fn text_of(text: Option<&str>) -> Option<Seq<char>> {
    match text {
        Some(t) => Some(t@),
        None => None,
    }
}

/// The answer to "is this address blocked": `false` before initialisation,
/// for a missing text and for one that names no address.
pub open spec fn ip_answer(state: Option<CacheState>, ip: Option<Seq<char>>) -> bool {
    match (state, ip) {
        (Some(cache), Some(text)) => cache.is_ip_blocked(text),
        _ => false,
    }
}

/// The answer to "is this domain a threat at second `now`": `false` before
/// initialisation and for a missing text.
pub open spec fn domain_answer(
    state: Option<CacheState>,
    domain: Option<Seq<char>>,
    now: u64,
) -> bool {
    match (state, domain) {
        (Some(cache), Some(name)) => cache.is_domain_threat(name, now),
        _ => false,
    }
}

/// Whether `ip_str` names a blacklisted address. A missing or malformed
/// text, and a process that is not initialised, give `false`.
pub fn orasrs_check_ip(state: &ProcessState, ip_str: Option<&str>) -> (blocked: bool)
    ensures
        blocked == ip_answer(state@, text_of(ip_str)),
{
    match (&state.cache, ip_str) {
        (Some(cache), Some(ip)) => cache.is_ip_blocked(ip),
        _ => false,
    }
}

/// Whether `domain` is a threat at second `now`. A missing text and a
/// process that is not initialised give `false`.
pub fn orasrs_check_domain_at(
    state: &ProcessState,
    domain: Option<&str>,
    now: u64,
) -> (threat: bool)
    ensures
        threat == domain_answer(state@, text_of(domain), now),
{
    match (&state.cache, domain) {
        (Some(cache), Some(name)) => cache.is_domain_threat_at(name, now),
        _ => false,
    }
}

/// Whether `domain` is a threat now. The clock is read once.
pub fn orasrs_check_domain(state: &ProcessState, domain: Option<&str>) -> (threat: bool)
    ensures
        exists|now: u64| threat == domain_answer(state@, text_of(domain), now),
{
    let now: u64 = now_secs();
    orasrs_check_domain_at(state, domain, now)
}

/// What a fetch of threats brought: the records, or nothing where it
/// failed.
pub open spec fn fetched_threats<E>(fetched: Result<Vec<ThreatInfo>, E>) -> Option<
    Seq<ThreatRecord>,
> {
    match fetched {
        Ok(threats) => Some(threat_records(threats@)),
        Err(_) => None,
    }
}

/// What a fetch of the registry brought: the records, or nothing where it
/// failed.
pub open spec fn fetched_nodes<E>(fetched: Result<Vec<NodeInfo>, E>) -> Option<Seq<NodeRecord>> {
    match fetched {
        Ok(nodes) => Some(node_records(nodes@)),
        Err(_) => None,
    }
}

/// The state after a forced refresh of the threats at second `now`: the
/// expired domain records are dropped, whether or not the fetch succeeded,
/// and what a successful fetch brought is ingested.
pub open spec fn after_threat_refresh(
    state: Option<CacheState>,
    fetched: Option<Seq<ThreatRecord>>,
    now: u64,
) -> Option<CacheState> {
    match (state, fetched) {
        (Some(cache), Some(threats)) => Some(cache.prune(now).with_threats(threats, now)),
        (Some(cache), None) => Some(cache.prune(now)),
        (None, _) => None,
    }
}

/// The state after a refresh of the registry at second `now`: what a
/// successful fetch brought replaces the nodes; a failed one changes
/// nothing.
pub open spec fn after_node_refresh(
    state: Option<CacheState>,
    fetched: Option<Seq<NodeRecord>>,
    now: u64,
) -> Option<CacheState> {
    match (state, fetched) {
        (Some(cache), Some(nodes)) => Some(cache.with_nodes(nodes, now)),
        _ => state,
    }
}

/// Forces a refresh of the threats at second `now`, given the outcome of
/// the fetch. The result is `true` where the process is initialised and the
/// fetch succeeded.
pub fn orasrs_update_threats_at<E>(
    state: &mut ProcessState,
    fetched: Result<Vec<ThreatInfo>, E>,
    now: u64,
) -> (refreshed: bool)
    ensures
        refreshed == (old(state)@ is Some && fetched is Ok),
        final(state)@ == after_threat_refresh(old(state)@, fetched_threats(fetched), now),
{
    match &mut state.cache {
        Some(cache) => {
            cache.cleanup_expired_at(now);
            cache.fetch_latest_threats_at(fetched, now)
        },
        None => false,
    }
}

/// Forces a refresh of the threats, dated by the clock, which is read once.
pub fn orasrs_update_threats<E>(
    state: &mut ProcessState,
    fetched: Result<Vec<ThreatInfo>, E>,
) -> (refreshed: bool)
    ensures
        refreshed == (old(state)@ is Some && fetched is Ok),
        exists|now: u64|
            final(state)@ == after_threat_refresh(old(state)@, fetched_threats(fetched), now),
{
    let now: u64 = now_secs();
    orasrs_update_threats_at(state, fetched, now)
}

/// Refreshes the registry at second `now`, given the outcome of the fetch.
/// The result is `true` where the process is initialised and the fetch
/// succeeded.
pub fn orasrs_update_nodes_at<E>(
    state: &mut ProcessState,
    fetched: Result<Vec<NodeInfo>, E>,
    now: u64,
) -> (refreshed: bool)
    ensures
        refreshed == (old(state)@ is Some && fetched is Ok),
        final(state)@ == after_node_refresh(old(state)@, fetched_nodes(fetched), now),
{
    match &mut state.cache {
        Some(cache) => match cache.update_nodes_at(fetched, now) {
            Ok(()) => true,
            Err(_) => false,
        },
        None => false,
    }
}

/// Refreshes the registry, dated by the clock, which is read once.
pub fn orasrs_update_nodes<E>(
    state: &mut ProcessState,
    fetched: Result<Vec<NodeInfo>, E>,
) -> (refreshed: bool)
    ensures
        refreshed == (old(state)@ is Some && fetched is Ok),
        exists|now: u64|
            final(state)@ == after_node_refresh(old(state)@, fetched_nodes(fetched), now),
{
    let now: u64 = now_secs();
    orasrs_update_nodes_at(state, fetched, now)
}

/// The count of nodes as the boundary reports it: in 32 bits, so a count
/// beyond that range is reported modulo 2^32; zero before initialisation.
pub open spec fn node_count(state: Option<CacheState>) -> nat {
    match state {
        Some(cache) => cache.nodes.len() % 0x1_0000_0000,
        None => 0,
    }
}

/// How many nodes the registry lists.
pub fn orasrs_get_node_count(state: &ProcessState) -> (count: u32)
    ensures
        count == node_count(state@),
{
    match &state.cache {
        Some(cache) => {
            let len: u64 = cache.get_nodes().len() as u64;
            assert(len as u32 == len % 0x1_0000_0000) by (bit_vector);
            #[verifier::truncate]
            (len as u32)
        },
        None => 0,
    }
}

/// What a call that hands out `text` leaves in the buffer and returns: the
/// zero-terminated copy and `true`, or the buffer as it was and `false`
/// where the text holds a zero byte or the buffer has no room at all.
pub open spec fn handed_out(
    before: Seq<u8>,
    max_len: usize,
    text: Seq<char>,
    after: Seq<u8>,
    written: bool,
) -> bool {
    let capacity = capacity_of(before.len(), max_len);
    let bytes = encode_utf8(text);
    if capacity >= 1 && !has_nul(bytes) {
        written && after == terminated_copy(before, capacity, bytes)
    } else {
        !written && after == before
    }
}

/// Writes the status text into the caller's buffer, cut to fit and
/// zero-terminated. Before initialisation nothing is written and the result
/// is `false`.
pub fn orasrs_get_status(
    state: &ProcessState,
    buffer: &mut [u8],
    max_len: usize,
) -> (written: bool)
    ensures
        match state@ {
            Some(cache) => handed_out(
                old(buffer)@,
                max_len,
                status_text(cache),
                final(buffer)@,
                written,
            ),
            None => !written && final(buffer)@ == old(buffer)@,
        },
        state@ is Some ==> written == (capacity_of(old(buffer)@.len(), max_len) >= 1),
{
    match &state.cache {
        Some(cache) => {
            proof {
                lemma_status_text_plain(cache@);
            }
            let text = render_status(cache);
            copy_terminated(buffer, max_len, text.as_str().as_bytes())
        },
        None => false,
    }
}

/// Writes the JSON record of the node at `index` into the caller's buffer,
/// cut to fit and zero-terminated. Before initialisation and for an index
/// that is not below the reported count, nothing is written and the result
/// is `false`.
pub fn orasrs_get_node_info(
    state: &ProcessState,
    index: u32,
    buffer: &mut [u8],
    max_len: usize,
) -> (written: bool)
    ensures
        match state@ {
            Some(cache) if index < node_count(state@) => handed_out(
                old(buffer)@,
                max_len,
                node_json(cache.nodes[index as int]),
                final(buffer)@,
                written,
            ),
            _ => !written && final(buffer)@ == old(buffer)@,
        },
{
    match &state.cache {
        Some(cache) => {
            if index < orasrs_get_node_count(state) {
                let nodes = cache.get_nodes();
                let node = &nodes[index as usize];
                let text = render_node(node);
                copy_terminated(buffer, max_len, text.as_str().as_bytes())
            } else {
                false
            }
        },
        None => false,
    }
}

/// The buffer contract of the boundary. Whatever the text and however
/// small the declared size, a call that hands out a text keeps the buffer's
/// length and writes nothing at or behind the declared size; where it
/// reports success, a zero byte stands within the declared size.
pub proof fn lemma_handed_out_within(
    before: Seq<u8>,
    max_len: usize,
    text: Seq<char>,
    after: Seq<u8>,
    written: bool,
)
    requires
        handed_out(before, max_len, text, after, written),
    ensures
        after.len() == before.len(),
        forall|i: int| max_len <= i < before.len() ==> #[trigger] after[i] == before[i],
        written ==> max_len >= 1 && exists|k: int|
            0 <= k < max_len && k < after.len() && #[trigger] after[k] == 0,
{
    let capacity = capacity_of(before.len(), max_len);
    let bytes = encode_utf8(text);
    if written {
        lemma_copy_stays_within(before, capacity, bytes);
        let kept = if capacity - 1 <= bytes.len() {
            capacity - 1
        } else {
            bytes.len() as int
        };
        assert(after[kept] == 0);
    }
}

/// Initialisation is final: no refresh takes an initialised process back,
/// and none initialises a process.
pub proof fn lemma_initialisation_is_final(
    state: Option<CacheState>,
    threats: Option<Seq<ThreatRecord>>,
    nodes: Option<Seq<NodeRecord>>,
    now: u64,
)
    ensures
        after_threat_refresh(state, threats, now) is Some <==> state is Some,
        after_node_refresh(state, nodes, now) is Some <==> state is Some,
{
}

} // verus!

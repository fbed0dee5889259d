//! The peer prober: which endpoints to dial, and how the outcomes add up.
//! The dialling itself is the host's.

use vstd::prelude::*;
use vstd::string::*;

use crate::boundary::ProcessState;
use crate::records::NodeRecord;
use crate::text::{append_decimal, decimal};

verus! {

/// Seconds that a connection attempt may take.
pub const CONNECT_TIMEOUT_SECS: u64 = 5;

/// Seconds that a read on an open connection may take.
pub const READ_TIMEOUT_SECS: u64 = 5;

/// Seconds that a write on an open connection may take.
pub const WRITE_TIMEOUT_SECS: u64 = 5;

/// The text of a socket endpoint: the address, a colon, the port in
/// decimal notation.
pub open spec fn endpoint_of(ip: Seq<char>, port: u16) -> Seq<char> {
    ip + seq![':'] + decimal(port as nat)
}

/// Writes the text of the endpoint at `ip` and `port`.
pub fn endpoint_text(ip: &str, port: u16) -> (text: String)
    ensures
        text@ == endpoint_of(ip@, port),
{
    proof {
        reveal_strlit(":");
    }
    let mut text = String::from_str(ip);
    text.append(":");
    append_decimal(&mut text, port as u64);
    assert(text@ =~= endpoint_of(ip@, port));
    text
}

/// The endpoints of the nodes, in the order of the registry.
pub open spec fn targets_of(nodes: Seq<NodeRecord>) -> Seq<(Seq<char>, u16)> {
    Seq::new(nodes.len(), |i: int| (nodes[i].ip, nodes[i].port))
}

/// What a list of targets holds.
pub open spec fn target_records(targets: Seq<(String, u16)>) -> Seq<(Seq<char>, u16)> {
    Seq::new(targets.len(), |i: int| (targets[i].0@, targets[i].1))
}

/// A snapshot of the endpoints to probe: one for each node, in the order
/// of the registry; none before initialisation.
pub fn probe_targets(state: &ProcessState) -> (targets: Vec<(String, u16)>)
    ensures
        target_records(targets@) == match state@ {
            Some(cache) => targets_of(cache.nodes),
            None => Seq::empty(),
        },
{
    let mut targets: Vec<(String, u16)> = Vec::new();
    match state.cache() {
        Some(cache) => {
            let nodes = cache.get_nodes();
            let mut i: usize = 0;
            while i < nodes.len()
                invariant
                    i <= nodes.len(),
                    targets@.len() == i,
                    forall|k: int|
                        0 <= k < i ==> (#[trigger] targets@[k]).0@ == nodes@[k].ip@
                            && targets@[k].1 == nodes@[k].port,
                decreases nodes.len() - i,
            {
                targets.push((nodes[i].ip.clone(), nodes[i].port));
                i += 1;
            }
            assert(target_records(targets@) =~= targets_of(cache@.nodes));
        },
        None => {
            assert(target_records(targets@) =~= Seq::empty());
        },
    }
    targets
}

/// How many of the first `upto` outcomes are successes.
pub open spec fn successes(outcomes: Seq<bool>, upto: int) -> nat
    decreases upto,
{
    if upto <= 0 {
        0
    } else {
        successes(outcomes, upto - 1) + if outcomes[upto - 1] {
            1nat
        } else {
            0nat
        }
    }
}

/// The count of peers that accepted a connection, given the outcome of
/// each attempt. A node that refused counts for nothing and fails nothing.
/// The count is reported in 32 bits and stops at their largest value.
pub fn count_connected(outcomes: &[bool]) -> (count: u32)
    ensures
        count == if successes(outcomes@, outcomes@.len() as int) <= u32::MAX {
            successes(outcomes@, outcomes@.len() as int)
        } else {
            u32::MAX as nat
        },
{
    let mut count: usize = 0;
    let mut i: usize = 0;
    while i < outcomes.len()
        invariant
            i <= outcomes.len(),
            count == successes(outcomes@, i as int),
            count <= i,
        decreases outcomes.len() - i,
    {
        if outcomes[i] {
            count += 1;
        }
        i += 1;
    }
    if count > u32::MAX as usize {
        u32::MAX
    } else {
        count as u32
    }
}

} // verus!

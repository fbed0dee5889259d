//! The two texts that the boundary hands out: the status of the cache and
//! the record of one node.

use vstd::prelude::*;
use vstd::string::*;
use vstd::utf8::*;

use crate::buffer::has_nul;
use crate::cache::{CacheState, ThreatCache};
use crate::records::{NodeInfo, NodeRecord};
use crate::text::{append_decimal, decimal, is_plain, lemma_decimal_digits, lemma_plain_bytes};

verus! {

/// The status of a cache, in the fixed format that hosts read: the version
/// of the SDK, then how many addresses are blocked, how many domains have a
/// record, how many nodes are known, when the cache was last refreshed and
/// how long a domain record lives.
pub open spec fn status_text(state: CacheState) -> Seq<char> {
    "OraSRS Core SDK v0.1.0\nIPs Blocked: "@ + decimal(state.blocked.len())
        + "\nDomains Threats: "@ + decimal(state.domains.len()) + "\nNodes Available: "@ + decimal(
        state.nodes.len(),
    ) + "\nLast Update: "@ + decimal(state.last_update as nat) + "\nTTL: "@ + decimal(
        state.ttl_seconds as nat,
    ) + "s"@
}

/// Renders the status of `cache`.
pub fn render_status(cache: &ThreatCache) -> (text: String)
    ensures
        text@ == status_text(cache@),
{
    let mut text = String::from_str("OraSRS Core SDK v0.1.0\nIPs Blocked: ");
    append_decimal(&mut text, cache.blocked_count());
    text.append("\nDomains Threats: ");
    append_decimal(&mut text, cache.domain_count() as u64);
    text.append("\nNodes Available: ");
    append_decimal(&mut text, cache.get_nodes().len() as u64);
    text.append("\nLast Update: ");
    append_decimal(&mut text, cache.last_update());
    text.append("\nTTL: ");
    append_decimal(&mut text, cache.ttl_seconds());
    text.append("s");
    text
}

/// The status text is plain ASCII, so its bytes hold no zero: it can always
/// be handed out as a zero-terminated string.
pub proof fn lemma_status_text_plain(state: CacheState)
    ensures
        is_plain(status_text(state)),
        !has_nul(encode_utf8(status_text(state))),
{
    reveal_strlit("OraSRS Core SDK v0.1.0\nIPs Blocked: ");
    reveal_strlit("\nDomains Threats: ");
    reveal_strlit("\nNodes Available: ");
    reveal_strlit("\nLast Update: ");
    reveal_strlit("\nTTL: ");
    reveal_strlit("s");
    lemma_decimal_digits(state.blocked.len());
    lemma_decimal_digits(state.domains.len());
    lemma_decimal_digits(state.nodes.len());
    lemma_decimal_digits(state.last_update as nat);
    lemma_decimal_digits(state.ttl_seconds as nat);
    assert(is_plain("OraSRS Core SDK v0.1.0\nIPs Blocked: "@));
    assert(is_plain("\nDomains Threats: "@));
    assert(is_plain("\nNodes Available: "@));
    assert(is_plain("\nLast Update: "@));
    assert(is_plain("\nTTL: "@));
    assert(is_plain("s"@));
    lemma_plain_bytes(status_text(state));
}

/// `serde_json::Error`, the failure of a serialisation.
#[verifier::external_type_specification]
#[verifier::external_body]
pub struct ExJsonError(serde_json::Error);

/// The JSON string literal that `serde_json` writes for a text: the text
/// between double quotes, with its escapes. `None` stands for a failed
/// serialisation.
pub uninterp spec fn json_string(text: Seq<char>) -> Option<Seq<char>>;

/// `serde_json::to_string`, called on a `&str`. The outcome is a function of
/// the text alone, and is named `json_string`.
#[verifier::external_body]
fn to_json_string(text: &str) -> (written: Result<String, serde_json::Error>)
    ensures
        match written {
            Ok(literal) => json_string(text@) == Some(literal@),
            Err(_) => json_string(text@) is None,
        },
{
    serde_json::to_string(text)
}

/// The JSON object of a node, given the string literals of its two texts:
/// the fields `ip`, `port` and `wallet`, in this order, without spaces.
pub open spec fn node_json_object(
    ip_literal: Seq<char>,
    port: u16,
    wallet_literal: Seq<char>,
) -> Seq<char> {
    "{\"ip\":"@ + ip_literal + ",\"port\":"@ + decimal(port as nat) + ",\"wallet\":"@
        + wallet_literal + "}"@
}

/// The text that stands for a node: its JSON object, or nothing where one
/// of its texts cannot be serialised.
pub open spec fn node_json(node: NodeRecord) -> Seq<char> {
    match (json_string(node.ip), json_string(node.wallet)) {
        (Some(ip_literal), Some(wallet_literal)) => node_json_object(
            ip_literal,
            node.port,
            wallet_literal,
        ),
        _ => Seq::empty(),
    }
}

/// Writes the JSON object of a node from the string literals of its two
/// texts.
pub fn write_node_object(ip_literal: &str, port: u16, wallet_literal: &str) -> (text: String)
    ensures
        text@ == node_json_object(ip_literal@, port, wallet_literal@),
{
    let mut text = String::from_str("{\"ip\":");
    text.append(ip_literal);
    text.append(",\"port\":");
    append_decimal(&mut text, port as u64);
    text.append(",\"wallet\":");
    text.append(wallet_literal);
    text.append("}");
    text
}

/// Renders `node` as JSON.
pub fn render_node(node: &NodeInfo) -> (text: String)
    ensures
        text@ == node_json(node@),
{
    match to_json_string(node.ip.as_str()) {
        Ok(ip_literal) => match to_json_string(node.wallet.as_str()) {
            Ok(wallet_literal) => write_node_object(
                ip_literal.as_str(),
                node.port,
                wallet_literal.as_str(),
            ),
            Err(_) => String::new(),
        },
        Err(_) => String::new(),
    }
}

} // verus!

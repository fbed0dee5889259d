//! The table of domain threats: records by domain, each with the second at
//! which it expires.

use vstd::hash_map::StringHashMap;
use vstd::prelude::*;

use crate::records::{ThreatInfo, ThreatRecord};

verus! {

/// A domain threat as the table holds it.
pub struct DomainState {
    /// The record as it was ingested.
    pub threat: ThreatRecord,
    /// The first second at which the record no longer counts.
    pub expires_at: nat,
}

/// The records of `table` that have not expired by second `now`.
pub open spec fn live_at(table: Map<Seq<char>, DomainState>, now: u64) -> Map<
    Seq<char>,
    DomainState,
> {
    Map::new(
        |domain: Seq<char>| table.contains_key(domain) && table[domain].expires_at > now,
        |domain: Seq<char>| table[domain],
    )
}

/// A domain record with the second at which it expires. The second is held
/// in 128 bits, so that the sum of two 64-bit numbers is exact.
struct DomainEntry {
    threat: ThreatInfo,
    expires_at: u128,
}

impl View for DomainEntry {
    type V = DomainState;

    closed spec fn view(&self) -> DomainState {
        DomainState { threat: self.threat@, expires_at: self.expires_at as nat }
    }
}

/// The table of domain threats. Lookups go through a hash map; a list of
/// the domains, each once, is kept beside it for the prune pass.
pub struct DomainTable {
    entries: StringHashMap<DomainEntry>,
    names: Vec<String>,
}

/// Whether `names` lists the keys of `entries`, each once.
spec fn lists_keys(names: Seq<String>, entries: Map<Seq<char>, DomainEntry>) -> bool {
    &&& forall|i: int| 0 <= i < names.len() ==> entries.contains_key(#[trigger] names[i]@)
    &&& forall|i: int, j: int|
        0 <= i < j < names.len() ==> #[trigger] names[i]@ != #[trigger] names[j]@
    &&& forall|domain: Seq<char>| #[trigger]
        entries.contains_key(domain) ==> exists|i: int|
            0 <= i < names.len() && #[trigger] names[i]@ == domain
    &&& entries.dom().finite()
}

/// Whether `domain` is one of `names[from..]`.
spec fn listed_from(names: Seq<String>, from: int, domain: Seq<char>) -> bool {
    exists|j: int| from <= j < names.len() && #[trigger] names[j]@ == domain
}

/// Whether `domain` is one of `names[..upto]`.
spec fn listed_before(names: Seq<String>, upto: int, domain: Seq<char>) -> bool {
    exists|j: int| 0 <= j < upto && #[trigger] names[j]@ == domain
}

/// The entries of `entries` that have not expired by second `now`.
spec fn live_entries(entries: Map<Seq<char>, DomainEntry>, now: u64) -> Map<
    Seq<char>,
    DomainEntry,
> {
    Map::new(
        |domain: Seq<char>| entries.contains_key(domain) && entries[domain].expires_at > now,
        |domain: Seq<char>| entries[domain],
    )
}

/// What a map of entries holds.
spec fn states_of(entries: Map<Seq<char>, DomainEntry>) -> Map<Seq<char>, DomainState> {
    Map::new(
        |domain: Seq<char>| entries.contains_key(domain),
        |domain: Seq<char>| entries[domain]@,
    )
}

/// Drops from `entries` every entry that has expired by second `now`, and
/// gives the names of those that stay.
fn prune_entries(
    entries: &mut StringHashMap<DomainEntry>,
    names: Vec<String>,
    now: u64,
) -> (kept: Vec<String>)
    requires
        lists_keys(names@, old(entries)@),
    ensures
        final(entries)@ == live_entries(old(entries)@, now),
        lists_keys(kept@, final(entries)@),
{
    let ghost before = entries@;
    let mut kept: Vec<String> = Vec::new();
    let mut i: usize = 0;
    while i < names.len()
        invariant
            i <= names.len(),
            lists_keys(names@, before),
            entries@.dom().finite(),
            forall|domain: Seq<char>| #[trigger]
                entries@.contains_key(domain) <==> before.contains_key(domain) && (
                before[domain].expires_at > now || listed_from(names@, i as int, domain)),
            forall|domain: Seq<char>| #[trigger]
                entries@.contains_key(domain) ==> entries@[domain] == before[domain],
            forall|k: int|
                0 <= k < kept@.len() ==> before.contains_key(#[trigger] kept@[k]@)
                    && before[kept@[k]@].expires_at > now && listed_before(
                    names@,
                    i as int,
                    kept@[k]@,
                ),
            forall|k: int, l: int|
                0 <= k < l < kept@.len() ==> #[trigger] kept@[k]@ != #[trigger] kept@[l]@,
            forall|j: int|
                0 <= j < i && before[#[trigger] names@[j]@].expires_at > now ==> exists|k: int|
                    0 <= k < kept@.len() && #[trigger] kept@[k]@ == names@[j]@,
        decreases names.len() - i,
    {
        let name: &String = &names[i];
        let ghost kept_then = kept@;
        assert(listed_from(names@, i as int, name@));
        let expired: bool = match entries.get(name.as_str()) {
            Some(entry) => entry.expires_at <= now as u128,
            None => true,
        };
        if expired {
            entries.remove(name.as_str());
        } else {
            kept.push(name.clone());
        }
        proof {
            assert forall|domain: Seq<char>| #[trigger]
                entries@.contains_key(domain) <==> before.contains_key(domain) && (
                before[domain].expires_at > now || listed_from(
                    names@,
                    i as int + 1,
                    domain,
                )) by {
                if domain == name@ {
                    if listed_from(names@, i as int + 1, domain) {
                        let j = choose|j: int|
                            i as int + 1 <= j < names@.len() && #[trigger] names@[j]@ == domain;
                        assert(names@[i as int]@ != names@[j]@);
                    }
                } else {
                    if listed_from(names@, i as int, domain) {
                        let j = choose|j: int|
                            i as int <= j < names@.len() && #[trigger] names@[j]@ == domain;
                        assert(names@[j]@ == domain);
                        assert(listed_from(names@, i as int + 1, domain));
                    }
                    if listed_from(names@, i as int + 1, domain) {
                        let j = choose|j: int|
                            i as int + 1 <= j < names@.len() && #[trigger] names@[j]@ == domain;
                        assert(names@[j]@ == domain);
                        assert(listed_from(names@, i as int, domain));
                    }
                }
            }
            assert forall|k: int| 0 <= k < kept@.len() implies before.contains_key(
                #[trigger] kept@[k]@,
            ) && before[kept@[k]@].expires_at > now && listed_before(
                names@,
                i as int + 1,
                kept@[k]@,
            ) by {
                if k < kept_then.len() {
                    assert(kept@[k] == kept_then[k]);
                    let j = choose|j: int|
                        0 <= j < i as int && #[trigger] names@[j]@ == kept_then[k]@;
                    assert(names@[j]@ == kept@[k]@);
                } else {
                    assert(names@[i as int]@ == kept@[k]@);
                }
            }
            assert forall|k: int, l: int| 0 <= k < l < kept@.len() implies #[trigger] kept@[k]@
                != #[trigger] kept@[l]@ by {
                if l == kept_then.len() {
                    assert(kept@[k] == kept_then[k]);
                    let j = choose|j: int|
                        0 <= j < i as int && #[trigger] names@[j]@ == kept_then[k]@;
                    assert(names@[j]@ != names@[i as int]@);
                } else {
                    assert(kept@[k] == kept_then[k]);
                    assert(kept@[l] == kept_then[l]);
                }
            }
            assert forall|j: int|
                0 <= j < i + 1 && before[#[trigger] names@[j]@].expires_at > now implies exists|
                k: int,
            | 0 <= k < kept@.len() && #[trigger] kept@[k]@ == names@[j]@ by {
                if j < i {
                    let k = choose|k: int|
                        0 <= k < kept_then.len() && #[trigger] kept_then[k]@ == names@[j]@;
                    assert(kept@[k]@ == names@[j]@);
                } else {
                    assert(kept@[kept@.len() - 1]@ == names@[j]@);
                }
            }
        }
        i += 1;
    }
    proof {
        assert(entries@ =~= live_entries(before, now));
        assert forall|domain: Seq<char>| #[trigger] entries@.contains_key(domain) implies exists|
            k: int,
        | 0 <= k < kept@.len() && #[trigger] kept@[k]@ == domain by {
            let j = choose|j: int| 0 <= j < names@.len() && #[trigger] names@[j]@ == domain;
            assert(before[names@[j]@].expires_at > now);
        }
    }
    kept
}

impl View for DomainTable {
    type V = Map<Seq<char>, DomainState>;

    closed spec fn view(&self) -> Map<Seq<char>, DomainState> {
        states_of(self.entries@)
    }
}

impl DomainTable {
    /// The list of names is exact: it holds every domain of the table once,
    /// and nothing else.
    #[verifier::type_invariant]
    spec fn well_formed(self) -> bool {
        lists_keys(self.names@, self.entries@)
    }

    /// An empty table.
    pub fn new() -> (table: DomainTable)
        ensures
            table@ == Map::<Seq<char>, DomainState>::empty(),
    {
        let table = DomainTable { entries: StringHashMap::new(), names: Vec::new() };
        assert(table@ =~= Map::<Seq<char>, DomainState>::empty());
        table
    }

    /// Puts `threat` under its value, in place of any earlier record, to
    /// expire at second `expires_at`.
    pub fn insert(&mut self, threat: ThreatInfo, expires_at: u128)
        ensures
            final(self)@ == old(self)@.insert(
                threat@.threat_value,
                DomainState { threat: threat@, expires_at: expires_at as nat },
            ),
    {
        proof {
            use_type_invariant(&*self);
        }
        let mut taken = DomainTable::new();
        std::mem::swap(self, &mut taken);
        let DomainTable { mut entries, mut names } = taken;
        let ghost names_before = names@;
        let ghost entries_before = entries@;
        let domain = threat.threat_value.clone();
        if !entries.contains_key(domain.as_str()) {
            names.push(domain.clone());
        }
        entries.insert(domain, DomainEntry { threat, expires_at });
        proof {
            assert forall|i: int| 0 <= i < names@.len() implies entries@.contains_key(
                #[trigger] names@[i]@,
            ) by {
                if i < names_before.len() {
                    assert(entries_before.contains_key(names_before[i]@));
                }
            }
            assert forall|name: Seq<char>| #[trigger] entries@.contains_key(name) implies exists|
                i: int,
            | 0 <= i < names@.len() && #[trigger] names@[i]@ == name by {
                if entries_before.contains_key(name) {
                    let i = choose|i: int|
                        0 <= i < names_before.len() && #[trigger] names_before[i]@ == name;
                    assert(names@[i]@ == name);
                } else {
                    assert(names@[names@.len() - 1]@ == name);
                }
            }
        }
        *self = DomainTable { entries, names };
        assert(self@ =~= old(self)@.insert(
            threat@.threat_value,
            DomainState { threat: threat@, expires_at: expires_at as nat },
        ));
    }

    /// The second at which the record of `domain` expires, if it has one.
    pub fn expiry_of(&self, domain: &str) -> (expires_at: Option<u128>)
        ensures
            match expires_at {
                Some(second) => self@.contains_key(domain@) && self@[domain@].expires_at == second,
                None => !self@.contains_key(domain@),
            },
    {
        match self.entries.get(domain) {
            Some(entry) => Some(entry.expires_at),
            None => None,
        }
    }

    /// Drops every record that has expired by second `now`.
    pub fn prune(&mut self, now: u64)
        ensures
            final(self)@ == live_at(old(self)@, now),
    {
        proof {
            use_type_invariant(&*self);
        }
        let mut taken = DomainTable::new();
        std::mem::swap(self, &mut taken);
        let DomainTable { mut entries, names } = taken;
        let kept = prune_entries(&mut entries, names, now);
        *self = DomainTable { entries, names: kept };
        assert(self@ =~= live_at(old(self)@, now));
    }

    /// How many domains have a record.
    pub fn len(&self) -> (count: usize)
        ensures
            count == self@.len(),
            self@.dom().finite(),
    {
        proof {
            use_type_invariant(&*self);
            assert(self@.dom() =~= self.entries@.dom());
        }
        self.entries.len()
    }
}

} // verus!

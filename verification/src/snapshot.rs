//! A plain-valued copy of the registry's whole state, for persisting it
//! between invocations and for handing it to other code.

use vstd::prelude::*;

use crate::registry::{address_views, distinct_attesters, RegistryState};
use crate::types::{Address, VerificationPolicy, VerificationRecord, VerifierInfo};

verus! {

/// A registered verifier and its metadata.
#[derive(Clone, Debug, PartialEq, Eq)]
pub struct VerifierEntry {
    pub verifier: Address,
    pub info: VerifierInfo,
}

/// What the registry holds about one contract: each verifier's latest
/// attestation (in order of first attestation) and the canonical record,
/// if one is published.
#[derive(Clone, Debug, PartialEq, Eq)]
pub struct ContractEntry {
    pub contract: Address,
    pub attestations: Vec<VerificationRecord>,
    pub canonical: Option<VerificationRecord>,
}

/// The whole state of a registry as plain values.
#[derive(Clone, Debug, PartialEq, Eq)]
pub struct RegistrySnapshot {
    pub admin: Option<Address>,
    pub policy: VerificationPolicy,
    /// Every verifier ever registered, in order of first registration.
    pub verifiers: Vec<VerifierEntry>,
    /// Every contract ever attested.
    pub contracts: Vec<ContractEntry>,
}

/// The addresses of a sequence of verifier entries.
pub open spec fn verifier_keys(entries: Seq<VerifierEntry>) -> Seq<Seq<char>> {
    entries.map_values(|e: VerifierEntry| e.verifier@)
}

/// The addresses of a sequence of contract entries.
pub open spec fn contract_keys(entries: Seq<ContractEntry>) -> Seq<Seq<char>> {
    entries.map_values(|e: ContractEntry| e.contract@)
}

/// The metadata of each verifier listed in `entries`.
pub open spec fn verifier_map(entries: Seq<VerifierEntry>) -> Map<Seq<char>, VerifierInfo> {
    Map::new(
        |v: Seq<char>| verifier_keys(entries).contains(v),
        |v: Seq<char>| entries[verifier_keys(entries).index_of(v)].info,
    )
}

/// The attestations of each contract listed in `entries`.
pub open spec fn evidence_map(entries: Seq<ContractEntry>) -> Map<Seq<char>, Seq<VerificationRecord>> {
    Map::new(
        |c: Seq<char>| contract_keys(entries).contains(c),
        |c: Seq<char>| entries[contract_keys(entries).index_of(c)].attestations@,
    )
}

/// The canonical record of each contract listed in `entries` that has one.
pub open spec fn record_map(entries: Seq<ContractEntry>) -> Map<Seq<char>, VerificationRecord> {
    Map::new(
        |c: Seq<char>|
            contract_keys(entries).contains(c) && entries[contract_keys(entries).index_of(
                c,
            )].canonical is Some,
        |c: Seq<char>| entries[contract_keys(entries).index_of(c)].canonical.unwrap(),
    )
}

impl RegistrySnapshot {
    /// No verifier or contract is listed twice, and no verifier has two
    /// attestations of the same contract.
    pub open spec fn well_formed(&self) -> bool {
        &&& verifier_keys(self.verifiers@).no_duplicates()
        &&& contract_keys(self.contracts@).no_duplicates()
        &&& forall|i: int|
            0 <= i < self.contracts@.len() ==> distinct_attesters(
                #[trigger] self.contracts@[i].attestations@,
            )
    }

    /// The registry state that this snapshot describes.
    pub open spec fn model(&self) -> RegistryState {
        RegistryState {
            admin: match self.admin {
                Some(a) => Some(a@),
                None => None,
            },
            policy: self.policy,
            verifiers: verifier_map(self.verifiers@),
            verifier_list: verifier_keys(self.verifiers@),
            records: record_map(self.contracts@),
            evidence: evidence_map(self.contracts@),
        }
    }
}

/// Listing one more verifier, not yet listed, adds it to the metadata map.
pub proof fn lemma_verifier_map_push(entries: Seq<VerifierEntry>, e: VerifierEntry)
    requires
        verifier_keys(entries).no_duplicates(),
        !verifier_keys(entries).contains(e.verifier@),
    ensures
        verifier_keys(entries.push(e)) == verifier_keys(entries).push(e.verifier@),
        verifier_keys(entries.push(e)).no_duplicates(),
        verifier_map(entries.push(e)) == verifier_map(entries).insert(e.verifier@, e.info),
{
    let ks = verifier_keys(entries);
    let ks2 = verifier_keys(entries.push(e));
    assert(ks2 =~= ks.push(e.verifier@));
    assert forall|i: int, j: int| 0 <= i < ks2.len() && 0 <= j < ks2.len() && i != j implies ks2[i]
        != ks2[j] by {
        if i < ks.len() && j < ks.len() {
            assert(ks[i] != ks[j]);
        } else if i < ks.len() {
            assert(ks.contains(ks[i]));
        } else {
            assert(ks.contains(ks[j]));
        }
    }
    assert forall|v: Seq<char>| #[trigger] ks2.contains(v) <==> (ks.contains(v) || v == e.verifier@) by {
        if ks.contains(v) {
            let i = ks.index_of(v);
            assert(ks2[i] == v);
        }
        if v == e.verifier@ {
            assert(ks2[ks.len() as int] == v);
        }
    }
    assert forall|v: Seq<char>| #[trigger] ks.contains(v) implies ks2.index_of(v) == ks.index_of(v) by {
        let i = ks.index_of(v);
        assert(0 <= i < ks.len() && ks[i] == v);
        assert(ks2[i] == v);
        assert(ks2.contains(v));
        let j = ks2.index_of(v);
        assert(0 <= j < ks2.len() && ks2[j] == v);
        if j != i {
            assert(ks2[i] != ks2[j]);
        }
    }
    assert(ks2[ks.len() as int] == e.verifier@);
    assert(ks2.contains(e.verifier@));
    let last = ks2.index_of(e.verifier@);
    assert(0 <= last < ks2.len() && ks2[last] == e.verifier@);
    if last != ks.len() {
        assert(ks2[last] != ks2[ks.len() as int]);
    }
    assert(verifier_map(entries.push(e)) =~= verifier_map(entries).insert(e.verifier@, e.info));
}

/// Listing one more contract, not yet listed, adds its attestations and its
/// canonical record (if any) to the maps.
pub proof fn lemma_contract_maps_push(entries: Seq<ContractEntry>, e: ContractEntry)
    requires
        contract_keys(entries).no_duplicates(),
        !contract_keys(entries).contains(e.contract@),
    ensures
        contract_keys(entries.push(e)) == contract_keys(entries).push(e.contract@),
        contract_keys(entries.push(e)).no_duplicates(),
        evidence_map(entries.push(e)) == evidence_map(entries).insert(
            e.contract@,
            e.attestations@,
        ),
        record_map(entries.push(e)) == match e.canonical {
            Some(r) => record_map(entries).insert(e.contract@, r),
            None => record_map(entries),
        },
{
    let ks = contract_keys(entries);
    let ks2 = contract_keys(entries.push(e));
    assert(ks2 =~= ks.push(e.contract@));
    assert forall|i: int, j: int| 0 <= i < ks2.len() && 0 <= j < ks2.len() && i != j implies ks2[i]
        != ks2[j] by {
        if i < ks.len() && j < ks.len() {
            assert(ks[i] != ks[j]);
        } else if i < ks.len() {
            assert(ks.contains(ks[i]));
        } else {
            assert(ks.contains(ks[j]));
        }
    }
    assert forall|c: Seq<char>| #[trigger] ks2.contains(c) <==> (ks.contains(c) || c == e.contract@) by {
        if ks.contains(c) {
            let i = ks.index_of(c);
            assert(ks2[i] == c);
        }
        if c == e.contract@ {
            assert(ks2[ks.len() as int] == c);
        }
    }
    assert forall|c: Seq<char>| #[trigger] ks.contains(c) implies ks2.index_of(c) == ks.index_of(c) by {
        let i = ks.index_of(c);
        assert(0 <= i < ks.len() && ks[i] == c);
        assert(ks2[i] == c);
        assert(ks2.contains(c));
        let j = ks2.index_of(c);
        assert(0 <= j < ks2.len() && ks2[j] == c);
        if j != i {
            assert(ks2[i] != ks2[j]);
        }
    }
    assert(ks2[ks.len() as int] == e.contract@);
    assert(ks2.contains(e.contract@));
    let last = ks2.index_of(e.contract@);
    assert(0 <= last < ks2.len() && ks2[last] == e.contract@);
    if last != ks.len() {
        assert(ks2[last] != ks2[ks.len() as int]);
    }
    assert(evidence_map(entries.push(e)) =~= evidence_map(entries).insert(
        e.contract@,
        e.attestations@,
    ));
    match e.canonical {
        Some(r) => {
            assert(record_map(entries.push(e)) =~= record_map(entries).insert(e.contract@, r));
        },
        None => {
            assert(record_map(entries.push(e)) =~= record_map(entries));
        },
    }
}

} // verus!

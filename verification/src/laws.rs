//! Properties of the registry that span operations or hold of every state.

use vstd::prelude::*;

use crate::registry::{
    active_in, agreeing, distinct_attesters, failed, first_quorate, has_attested, lowest_active, put_attestation, slot, stamp,
    RegistryState,
};
use crate::types::{Address, TrustLevel, VerificationPolicy, VerificationRecord, VerifierInfo};

verus! {

/// Under last-write-wins, reading a contract's record right after an
/// attestation gives back exactly the attested record, stamped with the
/// attesting verifier and the ledger time, whatever was there before.
pub proof fn law_last_write_wins_reads_back(
    s: RegistryState,
    verifier: Address,
    contract: Seq<char>,
    record: VerificationRecord,
    now: u64,
)
    requires
        s.policy == VerificationPolicy::LastWriteWins,
    ensures
        ({
            let after = s.after_attest(contract, stamp(record, verifier, now));
            &&& after.records.contains_key(contract)
            &&& after.records[contract] == stamp(record, verifier, now)
            &&& after.records[contract].verifier == verifier
            &&& after.records[contract].timestamp == now
            &&& after.records[contract].wasm_hash == record.wasm_hash
            &&& after.records[contract].trust_level == record.trust_level
        }),
{
}

/// An attestation never changes the canonical record of any other contract.
pub proof fn law_attest_touches_one_contract(
    s: RegistryState,
    contract: Seq<char>,
    stamped: VerificationRecord,
    other: Seq<char>,
)
    requires
        other != contract,
    ensures
        s.after_attest(contract, stamped).records.contains_key(other) == s.records.contains_key(
            other,
        ),
        s.after_attest(contract, stamped).records[other] == s.records[other],
        s.after_attest(contract, stamped).attestations(other) == s.attestations(other),
{
}

/// Whatever the policy, an attestation is always kept as its verifier's
/// evidence for the contract, replacing only that verifier's earlier one.
pub proof fn law_attestation_always_recorded(
    s: RegistryState,
    contract: Seq<char>,
    stamped: VerificationRecord,
)
    ensures
        s.after_attest(contract, stamped).attestations(contract).contains(stamped),
        forall|i: int|
            0 <= i < s.attestations(contract).len() && s.attestations(contract)[i].verifier@
                != stamped.verifier@ ==> s.after_attest(contract, stamped).attestations(
                contract,
            ).contains(#[trigger] s.attestations(contract)[i]),
{
    let ev = s.attestations(contract);
    let ev2 = put_attestation(ev, stamped);
    assert(s.after_attest(contract, stamped).attestations(contract) == ev2);
    if has_attested(ev, stamped.verifier@) {
        let k = slot(ev, stamped.verifier@);
        assert(ev2[k] == stamped);
        assert forall|i: int|
            0 <= i < ev.len() && ev[i].verifier@ != stamped.verifier@ implies ev2.contains(
            #[trigger] ev[i],
        ) by {
            assert(i != k);
            assert(ev2[i] == ev[i]);
        }
    } else {
        assert(ev2[ev.len() as int] == stamped);
        assert forall|i: int|
            0 <= i < ev.len() && ev[i].verifier@ != stamped.verifier@ implies ev2.contains(
            #[trigger] ev[i],
        ) by {
            assert(ev2[i] == ev[i]);
        }
    }
}

/// An attestation adds exactly its own verifier to the attesters of a
/// contract: the verifiers with an attestation afterwards are those before,
/// plus the new record's verifier.
pub proof fn law_put_attesters(ev: Seq<VerificationRecord>, r: VerificationRecord, v: Seq<char>)
    ensures
        has_attested(put_attestation(ev, r), v) <==> (has_attested(ev, v) || v == r.verifier@),
{
    let ev2 = put_attestation(ev, r);
    if has_attested(ev, r.verifier@) {
        let k = slot(ev, r.verifier@);
        if has_attested(ev, v) {
            let i = choose|i: int| 0 <= i < ev.len() && #[trigger] ev[i].verifier@ == v;
            if i == k {
                assert(ev2[k].verifier@ == v);
            } else {
                assert(ev2[i].verifier@ == v);
            }
        }
        if v == r.verifier@ {
            assert(ev2[k].verifier@ == v);
        }
        if has_attested(ev2, v) {
            let j = choose|j: int| 0 <= j < ev2.len() && #[trigger] ev2[j].verifier@ == v;
            if j != k {
                assert(ev[j].verifier@ == v);
            }
        }
    } else {
        if has_attested(ev, v) {
            let i = choose|i: int| 0 <= i < ev.len() && #[trigger] ev[i].verifier@ == v;
            assert(ev2[i].verifier@ == v);
        }
        if v == r.verifier@ {
            assert(ev2[ev.len() as int].verifier@ == v);
        }
        if has_attested(ev2, v) {
            let j = choose|j: int| 0 <= j < ev2.len() && #[trigger] ev2[j].verifier@ == v;
            if j < ev.len() {
                assert(ev[j].verifier@ == v);
            }
        }
    }
}

/// What `first_quorate` finds: an active verifier's attestation whose hash
/// has the quorum; and nothing exactly when no active verifier's
/// attestation has a hash with the quorum.
pub proof fn law_first_quorate(
    verifiers: Map<Seq<char>, VerifierInfo>,
    all: Seq<VerificationRecord>,
    pre: Seq<VerificationRecord>,
    n: u32,
)
    ensures
        match first_quorate(verifiers, all, pre, n) {
            Some(r) => {
                &&& pre.contains(r)
                &&& active_in(verifiers, r.verifier@)
                &&& agreeing(verifiers, all, r.wasm_hash@) >= n
            },
            None => forall|i: int|
                0 <= i < pre.len() && active_in(verifiers, #[trigger] pre[i].verifier@) ==> agreeing(
                    verifiers,
                    all,
                    pre[i].wasm_hash@,
                ) < n,
        },
    decreases pre.len(),
{
    if pre.len() > 0 {
        let init = pre.drop_last();
        law_first_quorate(verifiers, all, init, n);
        match first_quorate(verifiers, all, init, n) {
            Some(r) => {
                let j = choose|j: int| 0 <= j < init.len() && init[j] == r;
                assert(pre[j] == r);
            },
            None => {
                if first_quorate(verifiers, all, pre, n) is Some {
                    assert(pre[pre.len() - 1] == pre.last());
                } else {
                    assert forall|i: int|
                        0 <= i < pre.len() && active_in(
                            verifiers,
                            #[trigger] pre[i].verifier@,
                        ) implies agreeing(verifiers, all, pre[i].wasm_hash@) < n by {
                        if i < init.len() {
                            assert(init[i] == pre[i]);
                        }
                    }
                }
            },
        }
    }
}

/// A hash with any agreeing attestation has an active verifier's
/// attestation naming it.
pub proof fn law_agreeing_has_witness(
    verifiers: Map<Seq<char>, VerifierInfo>,
    ev: Seq<VerificationRecord>,
    hash: Seq<u8>,
)
    requires
        agreeing(verifiers, ev, hash) > 0,
    ensures
        exists|i: int|
            0 <= i < ev.len() && active_in(verifiers, #[trigger] ev[i].verifier@)
                && ev[i].wasm_hash@ == hash,
    decreases ev.len(),
{
    let init = ev.drop_last();
    if active_in(verifiers, ev.last().verifier@) && ev.last().wasm_hash@ == hash {
        assert(ev[ev.len() - 1] == ev.last());
    } else {
        law_agreeing_has_witness(verifiers, init, hash);
        let i = choose|i: int|
            0 <= i < init.len() && active_in(verifiers, #[trigger] init[i].verifier@)
                && init[i].wasm_hash@ == hash;
        assert(ev[i] == init[i]);
    }
}

/// Under a quorum policy, an attestation publishes a canonical record only
/// when some hash has the backing of at least `n` of the contract's active
/// attestations (one per verifier): the published record is then an active
/// attestation with such a hash, the new attestation itself whenever its
/// hash has the quorum. When no hash has the quorum the canonical records
/// stay as they were (absent if none was ever published).
pub proof fn law_quorum_gates_publication(
    s: RegistryState,
    contract: Seq<char>,
    stamped: VerificationRecord,
    n: u32,
)
    requires
        s.policy == VerificationPolicy::MinQuorum(n),
        s.is_active(stamped.verifier@),
    ensures
        ({
            let after = s.after_attest(contract, stamped);
            let ev = after.attestations(contract);
            &&& agreeing(s.verifiers, ev, stamped.wasm_hash@) >= n ==> after.records.contains_key(
                contract,
            ) && after.records[contract] == stamped
            &&& after.records == s.records || ({
                &&& after.records == s.records.insert(contract, after.records[contract])
                &&& ev.contains(after.records[contract])
                &&& active_in(s.verifiers, after.records[contract].verifier@)
                &&& agreeing(s.verifiers, ev, after.records[contract].wasm_hash@) >= n
            })
            &&& (forall|i: int|
                0 <= i < ev.len() && active_in(s.verifiers, #[trigger] ev[i].verifier@)
                    ==> agreeing(s.verifiers, ev, ev[i].wasm_hash@) < n) ==> after.records
                == s.records
        }),
{
    let after = s.after_attest(contract, stamped);
    let ev = after.attestations(contract);
    law_attestation_always_recorded(s, contract, stamped);
    law_first_quorate(s.verifiers, ev, ev, n);
    if agreeing(s.verifiers, ev, stamped.wasm_hash@) < n {
        if first_quorate(s.verifiers, ev, ev, n) is None {
            assert(after.records == s.records);
        }
    } else {
        let k = choose|k: int| 0 <= k < ev.len() && ev[k] == stamped;
        assert(active_in(s.verifiers, ev[k].verifier@));
    }
}

/// Under a quorum policy of at least one, once any hash has the backing of
/// `n` active verifiers among a contract's attestations, the attestation
/// publishes a canonical record whose hash has that backing too, whichever
/// hash was just attested.
pub proof fn law_quorum_publishes_any_quorate_hash(
    s: RegistryState,
    contract: Seq<char>,
    stamped: VerificationRecord,
    n: u32,
    hash: Seq<u8>,
)
    requires
        s.policy == VerificationPolicy::MinQuorum(n),
        n >= 1,
        s.is_active(stamped.verifier@),
        agreeing(s.verifiers, s.after_attest(contract, stamped).attestations(contract), hash) >= n,
    ensures
        ({
            let after = s.after_attest(contract, stamped);
            let ev = after.attestations(contract);
            &&& after.records.contains_key(contract)
            &&& ev.contains(after.records[contract])
            &&& active_in(s.verifiers, after.records[contract].verifier@)
            &&& agreeing(s.verifiers, ev, after.records[contract].wasm_hash@) >= n
        }),
{
    let after = s.after_attest(contract, stamped);
    let ev = after.attestations(contract);
    law_quorum_gates_publication(s, contract, stamped, n);
    law_agreeing_has_witness(s.verifiers, ev, hash);
    let i = choose|i: int|
        0 <= i < ev.len() && active_in(s.verifiers, #[trigger] ev[i].verifier@)
            && ev[i].wasm_hash@ == hash;
    assert(agreeing(s.verifiers, ev, ev[i].wasm_hash@) >= n);
    law_first_quorate(s.verifiers, ev, ev, n);
    if agreeing(s.verifiers, ev, stamped.wasm_hash@) < n {
        assert(first_quorate(s.verifiers, ev, ev, n) is Some);
    }
}

/// The verifiers backing `hash` among `ev`: those active in `verifiers`
/// whose attestation there names `hash`.
pub open spec fn supporters(
    verifiers: Map<Seq<char>, VerifierInfo>,
    ev: Seq<VerificationRecord>,
    hash: Seq<u8>,
) -> Set<Seq<char>>
    decreases ev.len(),
{
    if ev.len() == 0 {
        Set::empty()
    } else {
        let earlier = supporters(verifiers, ev.drop_last(), hash);
        if active_in(verifiers, ev.last().verifier@) && ev.last().wasm_hash@ == hash {
            earlier.insert(ev.last().verifier@)
        } else {
            earlier
        }
    }
}

/// A quorum counts independent verifiers: when no verifier has two
/// attestations of a contract (which the registry maintains), the number of
/// agreeing attestations is the number of distinct active verifiers whose
/// attestation names the hash.
pub proof fn law_quorum_counts_distinct_verifiers(
    verifiers: Map<Seq<char>, VerifierInfo>,
    ev: Seq<VerificationRecord>,
    hash: Seq<u8>,
)
    requires
        distinct_attesters(ev),
    ensures
        supporters(verifiers, ev, hash).finite(),
        supporters(verifiers, ev, hash).len() == agreeing(verifiers, ev, hash),
        forall|v: Seq<char>|
            #[trigger] supporters(verifiers, ev, hash).contains(v) <==> exists|i: int|
                0 <= i < ev.len() && ev[i].verifier@ == v && active_in(verifiers, v)
                    && ev[i].wasm_hash@ == hash,
    decreases ev.len(),
{
    if ev.len() > 0 {
        let init = ev.drop_last();
        let last = ev.last();
        assert forall|i: int, j: int|
            0 <= i < init.len() && 0 <= j < init.len() && i != j implies #[trigger] init[i].verifier@
            != #[trigger] init[j].verifier@ by {
            assert(ev[i].verifier@ != ev[j].verifier@);
        }
        law_quorum_counts_distinct_verifiers(verifiers, init, hash);
        let earlier = supporters(verifiers, init, hash);
        if earlier.contains(last.verifier@) {
            let i = choose|i: int|
                0 <= i < init.len() && init[i].verifier@ == last.verifier@ && active_in(
                    verifiers,
                    last.verifier@,
                ) && init[i].wasm_hash@ == hash;
            assert(ev[i].verifier@ != ev[ev.len() - 1].verifier@);
        }
        assert forall|v: Seq<char>|
            #[trigger] supporters(verifiers, ev, hash).contains(v) <==> exists|i: int|
                0 <= i < ev.len() && ev[i].verifier@ == v && active_in(verifiers, v)
                    && ev[i].wasm_hash@ == hash by {
            if exists|i: int|
                0 <= i < ev.len() && ev[i].verifier@ == v && active_in(verifiers, v)
                    && ev[i].wasm_hash@ == hash {
                let i = choose|i: int|
                    0 <= i < ev.len() && ev[i].verifier@ == v && active_in(verifiers, v)
                        && ev[i].wasm_hash@ == hash;
                if i < init.len() {
                    assert(init[i] == ev[i]);
                }
            }
            if earlier.contains(v) {
                let i = choose|i: int|
                    0 <= i < init.len() && init[i].verifier@ == v && active_in(verifiers, v)
                        && init[i].wasm_hash@ == hash;
                assert(ev[i] == init[i]);
            }
        }
    }
}

/// What `lowest_active` picks: an active verifier's attestation whose trust
/// level is at most that of every attestation of an active verifier; and
/// nothing exactly when no active verifier has an attestation.
pub proof fn law_lowest_trust_is_minimum(
    verifiers: Map<Seq<char>, VerifierInfo>,
    ev: Seq<VerificationRecord>,
)
    ensures
        match lowest_active(verifiers, ev) {
            Some(r) => {
                &&& ev.contains(r)
                &&& active_in(verifiers, r.verifier@)
                &&& forall|i: int|
                    0 <= i < ev.len() && active_in(verifiers, #[trigger] ev[i].verifier@)
                        ==> r.trust_level.rank() <= ev[i].trust_level.rank()
            },
            None => forall|i: int|
                0 <= i < ev.len() ==> !active_in(verifiers, #[trigger] ev[i].verifier@),
        },
    decreases ev.len(),
{
    if ev.len() > 0 {
        let init = ev.drop_last();
        law_lowest_trust_is_minimum(verifiers, init);
        assert forall|i: int| 0 <= i < init.len() implies #[trigger] init[i] == ev[i] by {}
        match lowest_active(verifiers, ev) {
            Some(r) => {
                if r == ev.last() {
                    assert(ev[ev.len() - 1] == r);
                } else {
                    let j = choose|j: int| 0 <= j < init.len() && init[j] == r;
                    assert(ev[j] == r);
                }
                assert forall|i: int|
                    0 <= i < ev.len() && active_in(
                        verifiers,
                        #[trigger] ev[i].verifier@,
                    ) implies r.trust_level.rank() <= ev[i].trust_level.rank() by {
                    if i < init.len() {
                        assert(init[i] == ev[i]);
                    }
                }
            },
            None => {
                assert forall|i: int| 0 <= i < ev.len() implies !active_in(
                    verifiers,
                    #[trigger] ev[i].verifier@,
                ) by {
                    if i < init.len() {
                        assert(init[i] == ev[i]);
                    }
                }
            },
        }
    }
}

/// Under the lowest-trust policy, after an active verifier's attestation the
/// canonical record is an attestation of an active verifier carrying the
/// lowest trust level among the contract's active attestations.
pub proof fn law_lowest_trust_canonical(
    s: RegistryState,
    contract: Seq<char>,
    stamped: VerificationRecord,
)
    requires
        s.policy == VerificationPolicy::LowestTrust,
        s.is_active(stamped.verifier@),
    ensures
        ({
            let after = s.after_attest(contract, stamped);
            let ev = after.attestations(contract);
            &&& after.records.contains_key(contract)
            &&& ev.contains(after.records[contract])
            &&& after.is_active(after.records[contract].verifier@)
            &&& forall|i: int|
                0 <= i < ev.len() && after.is_active(#[trigger] ev[i].verifier@)
                    ==> after.records[contract].trust_level.rank() <= ev[i].trust_level.rank()
        }),
{
    let after = s.after_attest(contract, stamped);
    let ev = after.attestations(contract);
    law_attestation_always_recorded(s, contract, stamped);
    let k = choose|k: int| 0 <= k < ev.len() && ev[k] == stamped;
    law_lowest_trust_is_minimum(s.verifiers, ev);
    assert(active_in(s.verifiers, ev[k].verifier@));
}

/// Revocation is a safety hatch: whatever the policy, once `who` revoked a
/// contract's verification, the canonical record exists, is `Failed`, is
/// stamped with the revocation time, and keeps the provenance (Wasm hash,
/// repository, commit, attesting verifier) of the record it downgraded.
pub proof fn law_revocation_is_visible(s: RegistryState, who: Seq<char>, contract: Seq<char>, now: u64)
    requires
        s.revocation_base(who, contract) is Some,
    ensures
        ({
            let after = s.after_revoke(who, contract, now);
            let base = s.revocation_base(who, contract).unwrap();
            &&& after.records.contains_key(contract)
            &&& after.records[contract].trust_level == TrustLevel::Failed
            &&& after.records[contract].timestamp == now
            &&& after.records[contract].wasm_hash == base.wasm_hash
            &&& after.records[contract].repo_url == base.repo_url
            &&& after.records[contract].commit_sha == base.commit_sha
            &&& after.records[contract].verifier == base.verifier
            &&& s.records.contains_key(contract) ==> base == s.records[contract]
        }),
{
}

/// A revoking verifier's own attestation of the contract is downgraded to
/// `Failed` as well.
pub proof fn law_revocation_downgrades_own_attestation(
    s: RegistryState,
    who: Seq<char>,
    contract: Seq<char>,
    now: u64,
)
    requires
        has_attested(s.attestations(contract), who),
    ensures
        ({
            let ev = s.attestations(contract);
            let k = slot(ev, who);
            &&& s.after_revoke(who, contract, now).attestations(contract)[k] == failed(ev[k], now)
            &&& s.after_revoke(who, contract, now).attestations(contract)[k].trust_level
                == TrustLevel::Failed
        }),
{
    let ev = s.attestations(contract);
    assert(s.evidence.contains_key(contract));
}

/// Registering or updating a verifier never drops one from the history: the
/// earlier list is a prefix of the new one, the verifier is listed, the list
/// grows by at most one entry, and stays free of duplicates.
pub proof fn law_verifier_history_is_kept(s: RegistryState, v: Seq<char>, info: VerifierInfo)
    requires
        s.inv(),
    ensures
        ({
            let after = s.after_set_verifier(v, info);
            &&& s.verifier_list.is_prefix_of(after.verifier_list)
            &&& after.verifier_list.contains(v)
            &&& after.verifier_list.len() <= s.verifier_list.len() + 1
            &&& after.verifier_list.no_duplicates()
            &&& after.verifiers[v] == info
        }),
{
    let after = s.after_set_verifier(v, info);
    if s.verifiers.contains_key(v) {
        assert(s.verifier_list.contains(v));
    } else {
        assert(!s.verifier_list.contains(v));
        assert(after.verifier_list[s.verifier_list.len() as int] == v);
        assert forall|i: int, j: int|
            0 <= i < after.verifier_list.len() && 0 <= j < after.verifier_list.len() && i
                != j implies after.verifier_list[i] != after.verifier_list[j] by {
            if i < s.verifier_list.len() && j < s.verifier_list.len() {
                assert(s.verifier_list[i] != s.verifier_list[j]);
            } else if i < s.verifier_list.len() {
                assert(s.verifier_list[i] != v);
            } else {
                assert(s.verifier_list[j] != v);
            }
        }
    }
}

/// Only the lowest-trust policy lets a change of verifier metadata move a
/// canonical record, and only when the verifier is deactivated.
pub proof fn law_verifier_update_keeps_records(s: RegistryState, v: Seq<char>, info: VerifierInfo)
    requires
        s.policy != VerificationPolicy::LowestTrust || info.active,
    ensures
        s.after_set_verifier(v, info).records == s.records,
        s.after_set_verifier(v, info).evidence == s.evidence,
{
}

/// Under the lowest-trust policy, deactivating a verifier re-derives the
/// canonical record of each contract it attested from the remaining active
/// verifiers: the new record is never the deactivated verifier's, and its
/// trust level is the lowest among the remaining active attestations.
pub proof fn law_deactivation_recomputes_lowest_trust(
    s: RegistryState,
    v: Seq<char>,
    info: VerifierInfo,
    contract: Seq<char>,
)
    requires
        s.policy == VerificationPolicy::LowestTrust,
        !info.active,
        s.affected(v, contract),
        lowest_active(s.verifiers.insert(v, info), s.evidence[contract]) is Some,
    ensures
        ({
            let after = s.after_set_verifier(v, info);
            let ev = after.attestations(contract);
            &&& after.records.contains_key(contract)
            &&& after.records[contract].verifier@ != v
            &&& ev.contains(after.records[contract])
            &&& forall|i: int|
                0 <= i < ev.len() && after.is_active(#[trigger] ev[i].verifier@)
                    ==> after.records[contract].trust_level.rank() <= ev[i].trust_level.rank()
        }),
{
    let after = s.after_set_verifier(v, info);
    law_lowest_trust_is_minimum(after.verifiers, s.evidence[contract]);
    assert(after.verifiers == s.verifiers.insert(v, info));
}

/// After governance rotates the admin, the former admin can no longer
/// revoke (unless it is itself an active verifier).
pub proof fn law_rotated_admin_loses_revocation(
    s: RegistryState,
    former: Seq<char>,
    new_admin: Seq<char>,
)
    requires
        s.admin == Some(former),
        former != new_admin,
        !s.is_active(former),
    ensures
        s.may_revoke(former),
        !(RegistryState { admin: Some(new_admin), ..s }).may_revoke(former),
        (RegistryState { admin: Some(new_admin), ..s }).may_revoke(new_admin),
{
}

/// A fresh registry holds no record, so every record trivially traces back
/// to a registered verifier and the ledger time.
pub proof fn law_initial_records_traceable()
    ensures
        RegistryState::initial().stamped_within(0),
{
}

/// A bound on the stamped times stays a bound as the ledger time advances.
pub proof fn law_traceable_as_time_advances(s: RegistryState, t: u64, later: u64)
    requires
        s.stamped_within(t),
        t <= later,
    ensures
        s.stamped_within(later),
{
}

/// The records an attestation leaves behind are the records before it and
/// the new attestation itself.
proof fn lemma_put_elements(ev: Seq<VerificationRecord>, r: VerificationRecord)
    ensures
        forall|i: int|
            0 <= i < put_attestation(ev, r).len() ==> #[trigger] put_attestation(ev, r)[i] == r
                || ev.contains(put_attestation(ev, r)[i]),
{
    let ev2 = put_attestation(ev, r);
    assert forall|i: int| 0 <= i < ev2.len() implies #[trigger] ev2[i] == r || ev.contains(
        ev2[i],
    ) by {
        if ev2[i] != r {
            assert(ev[i] == ev2[i]);
        }
    }
}

/// An attestation at ledger time `now` by an active verifier keeps every
/// canonical record and attestation naming a registered verifier, stamped
/// no later than `now`.
pub proof fn law_attest_keeps_records_traceable(
    s: RegistryState,
    verifier: Address,
    contract: Seq<char>,
    record: VerificationRecord,
    t: u64,
    now: u64,
)
    requires
        s.stamped_within(t),
        t <= now,
        s.is_active(verifier@),
    ensures
        s.after_attest(contract, stamp(record, verifier, now)).stamped_within(now),
{
    let stamped = stamp(record, verifier, now);
    let after = s.after_attest(contract, stamped);
    let old_ev = s.attestations(contract);
    let ev = after.attestations(contract);
    lemma_put_elements(old_ev, stamped);
    assert forall|x: VerificationRecord| #[trigger] ev.contains(x) implies after.traceable(x, now) by {
        let j = choose|j: int| 0 <= j < ev.len() && ev[j] == x;
        if x != stamped {
            let k = choose|k: int| 0 <= k < old_ev.len() && old_ev[k] == x;
            assert(s.evidence.contains_key(contract));
            assert(s.traceable(s.evidence[contract][k], t));
        }
    }
    law_first_quorate(s.verifiers, ev, ev, 0);
    match s.policy {
        VerificationPolicy::MinQuorum(n) => {
            law_first_quorate(s.verifiers, ev, ev, n);
        },
        VerificationPolicy::LowestTrust => {
            law_lowest_trust_is_minimum(s.verifiers, ev);
        },
        _ => {},
    }
    law_attestation_always_recorded(s, contract, stamped);
    assert forall|c: Seq<char>| #[trigger]
        after.records.contains_key(c) implies after.traceable(after.records[c], now) by {
        if c != contract {
            assert(s.traceable(s.records[c], t));
        } else if s.records.contains_key(c) && after.records[c] == s.records[c] {
            assert(s.traceable(s.records[c], t));
        } else {
            assert(ev.contains(after.records[c]));
        }
    }
    assert forall|c: Seq<char>, i: int|
        after.evidence.contains_key(c) && 0 <= i < after.evidence[c].len() implies after.traceable(
        #[trigger] after.evidence[c][i],
        now,
    ) by {
        if c == contract {
            assert(ev.contains(ev[i]));
        } else {
            assert(s.traceable(s.evidence[c][i], t));
        }
    }
}

/// A revocation at ledger time `now` keeps every canonical record and
/// attestation naming a registered verifier, stamped no later than `now`.
pub proof fn law_revoke_keeps_records_traceable(
    s: RegistryState,
    who: Seq<char>,
    contract: Seq<char>,
    t: u64,
    now: u64,
)
    requires
        s.stamped_within(t),
        t <= now,
        s.revocation_base(who, contract) is Some,
    ensures
        s.after_revoke(who, contract, now).stamped_within(now),
{
    let after = s.after_revoke(who, contract, now);
    let ev = s.attestations(contract);
    if !s.records.contains_key(contract) {
        assert(s.evidence.contains_key(contract));
        if has_attested(ev, who) {
            assert(s.traceable(s.evidence[contract][slot(ev, who)], t));
        } else {
            assert(s.traceable(s.evidence[contract][0], t));
        }
    } else {
        assert(s.traceable(s.records[contract], t));
    }
    assert forall|c: Seq<char>| #[trigger]
        after.records.contains_key(c) implies after.traceable(after.records[c], now) by {
        if c != contract {
            assert(s.traceable(s.records[c], t));
        }
    }
    assert forall|c: Seq<char>, i: int|
        after.evidence.contains_key(c) && 0 <= i < after.evidence[c].len() implies after.traceable(
        #[trigger] after.evidence[c][i],
        now,
    ) by {
        assert(s.evidence.contains_key(c));
        assert(s.traceable(s.evidence[c][i], t));
    }
}

/// Registering, updating or deactivating a verifier keeps every canonical
/// record and attestation naming a registered verifier, stamped no later
/// than the bound that held before.
pub proof fn law_set_verifier_keeps_records_traceable(
    s: RegistryState,
    v: Seq<char>,
    info: VerifierInfo,
    t: u64,
)
    requires
        s.stamped_within(t),
    ensures
        s.after_set_verifier(v, info).stamped_within(t),
{
    let after = s.after_set_verifier(v, info);
    assert forall|c: Seq<char>| #[trigger]
        after.records.contains_key(c) implies after.traceable(after.records[c], t) by {
        if s.policy == VerificationPolicy::LowestTrust && !info.active && s.affected(v, c)
            && lowest_active(after.verifiers, s.evidence[c]) is Some {
            law_lowest_trust_is_minimum(after.verifiers, s.evidence[c]);
            let r = lowest_active(after.verifiers, s.evidence[c]).unwrap();
            let j = choose|j: int| 0 <= j < s.evidence[c].len() && s.evidence[c][j] == r;
            assert(s.traceable(s.evidence[c][j], t));
        } else {
            assert(s.traceable(s.records[c], t));
        }
    }
    assert forall|c: Seq<char>, i: int|
        after.evidence.contains_key(c) && 0 <= i < after.evidence[c].len() implies after.traceable(
        #[trigger] after.evidence[c][i],
        t,
    ) by {
        assert(s.traceable(s.evidence[c][i], t));
    }
}

/// Initializing, rotating the admin and changing the policy leave records,
/// attestations and verifiers as they are, so the bound still holds.
pub proof fn law_governance_keeps_records_traceable(
    s: RegistryState,
    admin: Option<Seq<char>>,
    policy: VerificationPolicy,
    t: u64,
)
    requires
        s.stamped_within(t),
    ensures
        (RegistryState { admin: admin, policy: policy, ..s }).stamped_within(t),
{
}

/// Changing a verifier's metadata (registering, updating, deactivating or
/// reactivating it) never touches the canonical record of a contract that
/// verifier has no attestation of: whether the contract has one, and which,
/// stays exactly as it was, under every policy. In particular a revoked
/// (`Failed`) record of such a contract stays revoked.
pub proof fn law_set_verifier_spares_unattested_contracts(
    s: RegistryState,
    v: Seq<char>,
    info: VerifierInfo,
    contract: Seq<char>,
)
    requires
        !has_attested(s.attestations(contract), v),
    ensures
        s.after_set_verifier(v, info).records.contains_key(contract) == s.records.contains_key(
            contract,
        ),
        s.records.contains_key(contract) ==> s.after_set_verifier(v, info).records[contract]
            == s.records[contract],
{
    assert(!s.affected(v, contract));
}

/// Whether `x` occurs before `y` in `list`.
pub open spec fn precedes(list: Seq<Seq<char>>, x: Seq<char>, y: Seq<char>) -> bool {
    exists|p: int, q: int| 0 <= p < q < list.len() && list[p] == x && list[q] == y
}

/// The active-verifier listing of a list of verifiers is exactly its active
/// members: each listed address is a registered, active verifier taken from
/// the list, and every active member of the list is listed; when the list
/// has no duplicates (as the registry's verifier list never has), none is
/// listed twice and they come in the list's order.
pub proof fn law_active_listing_is_exact(s: RegistryState, list: Seq<Seq<char>>)
    ensures
        ({
            let a = s.active_among(list);
            &&& forall|i: int|
                0 <= i < a.len() ==> s.is_active(#[trigger] a[i]) && s.verifiers.contains_key(a[i])
                    && list.contains(a[i])
            &&& forall|i: int| 0 <= i < list.len() && s.is_active(#[trigger] list[i]) ==> a.contains(
                list[i],
            )
            &&& list.no_duplicates() ==> a.no_duplicates()
            &&& list.no_duplicates() ==> forall|i: int, j: int|
                0 <= i < j < a.len() ==> precedes(list, #[trigger] a[i], #[trigger] a[j])
        }),
    decreases list.len(),
{
    let a = s.active_among(list);
    if list.len() == 0 {
        assert(a =~= Seq::<Seq<char>>::empty());
    } else {
        let init = list.drop_last();
        let x = list.last();
        assert(list =~= init.push(x));
        if list.no_duplicates() {
            assert forall|i: int, j: int|
                0 <= i < init.len() && 0 <= j < init.len() && i != j implies init[i] != init[j] by {
                assert(list[i] != list[j]);
            }
        }
        law_active_listing_is_exact(s, init);
        let a0 = s.active_among(init);
        init.lemma_filter_push(x, |w: Seq<char>| s.is_active(w));
        assert(a == if s.is_active(x) {
            a0.push(x)
        } else {
            a0
        });
        assert(list.no_duplicates() ==> !init.contains(x)) by {
            if list.no_duplicates() && init.contains(x) {
                let k = choose|k: int| 0 <= k < init.len() && init[k] == x;
                assert(list[k] == list[list.len() - 1]);
            }
        }
        assert forall|i: int| 0 <= i < a.len() implies s.is_active(#[trigger] a[i])
            && s.verifiers.contains_key(a[i]) && list.contains(a[i]) by {
            if i < a0.len() {
                assert(a[i] == a0[i]);
                let k = choose|k: int| 0 <= k < init.len() && init[k] == a0[i];
                assert(list[k] == a[i]);
            } else {
                assert(list[list.len() - 1] == a[i]);
            }
        }
        assert forall|i: int| 0 <= i < list.len() && s.is_active(#[trigger] list[i]) implies a.contains(
            list[i],
        ) by {
            if i < init.len() {
                assert(init[i] == list[i]);
                assert(a0.contains(init[i]));
                let k = choose|k: int| 0 <= k < a0.len() && a0[k] == init[i];
                assert(a[k] == a0[k]);
            } else {
                assert(a[a.len() - 1] == x);
            }
        }
        if s.is_active(x) && list.no_duplicates() {
            assert(!a0.contains(x)) by {
                if a0.contains(x) {
                    let k = choose|k: int| 0 <= k < a0.len() && a0[k] == x;
                    assert(init.contains(a0[k]));
                }
            }
            assert forall|i: int, j: int| 0 <= i < a.len() && 0 <= j < a.len() && i != j implies a[i]
                != a[j] by {
                if i < a0.len() && j < a0.len() {
                    assert(a0[i] != a0[j]);
                } else if i < a0.len() {
                    assert(a0.contains(a0[i]));
                } else {
                    assert(a0.contains(a0[j]));
                }
            }
        }
        assert forall|i: int, j: int|
            list.no_duplicates() && 0 <= i < j < a.len() implies precedes(
            list,
            #[trigger] a[i],
            #[trigger] a[j],
        ) by {
            if j < a0.len() {
                assert(a[i] == a0[i] && a[j] == a0[j]);
                assert(0 <= i < j < a0.len());
                assert(precedes(init, a0[i], a0[j]));
                let (p, q) = choose|p: int, q: int|
                    0 <= p < q < init.len() && init[p] == a0[i] && init[q] == a0[j];
                assert(list[p] == init[p] && list[q] == init[q]);
                assert(0 <= p < q < list.len() && list[p] == a[i] && list[q] == a[j]);
            } else {
                assert(a[i] == a0[i]);
                assert(init.contains(a0[i]));
                let p = choose|p: int| 0 <= p < init.len() && init[p] == a0[i];
                assert(s.is_active(x));
                assert(a[j] == x);
                let q = list.len() - 1;
                assert(list[p] == a[i]);
                assert(list[q] == a[j]);
                assert(0 <= p < q < list.len());
            }
        }
    }
}

/// Standing to act: only a registered verifier whose metadata says it is
/// active may attest, and only such a verifier or the admin may revoke.
pub proof fn law_only_active_verifiers_or_admin_act(s: RegistryState, who: Seq<char>)
    ensures
        s.is_active(who) <==> (s.verifiers.contains_key(who) && s.verifiers[who].active),
        !(s.verifiers.contains_key(who) && s.verifiers[who].active) && s.admin != Some(who)
            ==> !s.may_revoke(who),
        s.admin == Some(who) ==> s.may_revoke(who),
{
}

} // verus!

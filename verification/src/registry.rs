use vstd::hash_map::StringHashMap;
use vstd::prelude::*;

use crate::events::{AdminRotated, Attest, PolicyChanged, Revoke, VerifierSet};
use crate::laws::{law_active_listing_is_exact, law_set_verifier_spares_unattested_contracts, precedes};
use crate::snapshot::{
    contract_keys, evidence_map, lemma_contract_maps_push, lemma_verifier_map_push, record_map,
    verifier_keys, verifier_map, ContractEntry, RegistrySnapshot, VerifierEntry,
};
use crate::types::{
    same_hash, Address, Error, Outcome, TrustLevel, VerificationPolicy, VerificationRecord, VerifierInfo,
};

verus! {

/// The text of each address in a sequence of addresses.
pub open spec fn address_views(s: Seq<Address>) -> Seq<Seq<char>> {
    s.map_values(|a: Address| a@)
}

/// Whether `v` has an attestation among `ev`.
pub open spec fn has_attested(ev: Seq<VerificationRecord>, v: Seq<char>) -> bool {
    exists|i: int| 0 <= i < ev.len() && #[trigger] ev[i].verifier@ == v
}

/// The position of `v`'s attestation among `ev` (meaningful when `has_attested(ev, v)`).
pub open spec fn slot(ev: Seq<VerificationRecord>, v: Seq<char>) -> int {
    choose|i: int| 0 <= i < ev.len() && #[trigger] ev[i].verifier@ == v
}

/// No verifier has two attestations among `ev`.
pub open spec fn distinct_attesters(ev: Seq<VerificationRecord>) -> bool {
    forall|i: int, j: int|
        0 <= i < ev.len() && 0 <= j < ev.len() && i != j ==> #[trigger] ev[i].verifier@
            != #[trigger] ev[j].verifier@
}

/// `ev` with `r` as the attestation of `r`'s verifier: it replaces that
/// verifier's earlier attestation in place, or is appended.
pub open spec fn put_attestation(
    ev: Seq<VerificationRecord>,
    r: VerificationRecord,
) -> Seq<VerificationRecord> {
    if has_attested(ev, r.verifier@) {
        ev.update(slot(ev, r.verifier@), r)
    } else {
        ev.push(r)
    }
}

/// `record` as published by `verifier` at ledger time `now`: the registry
/// stamps the verifier and the timestamp itself.
pub open spec fn stamp(record: VerificationRecord, verifier: Address, now: u64) -> VerificationRecord {
    VerificationRecord { verifier: verifier, timestamp: now, ..record }
}

/// `record` downgraded to `Failed` at ledger time `now`, all else kept.
pub open spec fn failed(record: VerificationRecord, now: u64) -> VerificationRecord {
    VerificationRecord { trust_level: TrustLevel::Failed, timestamp: now, ..record }
}

/// Whether `v` is registered and active in `verifiers`.
pub open spec fn active_in(verifiers: Map<Seq<char>, VerifierInfo>, v: Seq<char>) -> bool {
    verifiers.contains_key(v) && verifiers[v].active
}

/// How many attestations among `ev` come from verifiers active in
/// `verifiers` and name `hash`.
pub open spec fn agreeing(
    verifiers: Map<Seq<char>, VerifierInfo>,
    ev: Seq<VerificationRecord>,
    hash: Seq<u8>,
) -> nat
    decreases ev.len(),
{
    if ev.len() == 0 {
        0
    } else {
        agreeing(verifiers, ev.drop_last(), hash) + if active_in(verifiers, ev.last().verifier@)
            && ev.last().wasm_hash@ == hash {
            1nat
        } else {
            0nat
        }
    }
}

/// The earliest attestation among `ev` from a verifier active in
/// `verifiers` whose trust level is the lowest among those of active
/// verifiers; `None` when no active verifier has an attestation there.
pub open spec fn lowest_active(
    verifiers: Map<Seq<char>, VerifierInfo>,
    ev: Seq<VerificationRecord>,
) -> Option<VerificationRecord>
    decreases ev.len(),
{
    if ev.len() == 0 {
        None
    } else {
        let rest = lowest_active(verifiers, ev.drop_last());
        let last = ev.last();
        if !active_in(verifiers, last.verifier@) {
            rest
        } else {
            match rest {
                None => Some(last),
                Some(r) => if last.trust_level.rank() < r.trust_level.rank() {
                    Some(last)
                } else {
                    Some(r)
                },
            }
        }
    }
}

/// The earliest attestation among `pre` from an active verifier whose Wasm
/// hash has the backing of at least `n` active verifiers' attestations
/// among `all`.
pub open spec fn first_quorate(
    verifiers: Map<Seq<char>, VerifierInfo>,
    all: Seq<VerificationRecord>,
    pre: Seq<VerificationRecord>,
    n: u32,
) -> Option<VerificationRecord>
    decreases pre.len(),
{
    if pre.len() == 0 {
        None
    } else {
        match first_quorate(verifiers, all, pre.drop_last(), n) {
            Some(r) => Some(r),
            None => if active_in(verifiers, pre.last().verifier@) && agreeing(
                verifiers,
                all,
                pre.last().wasm_hash@,
            ) >= n {
                Some(pre.last())
            } else {
                None
            },
        }
    }
}

/// What a quorum policy of `n` publishes after `stamped` joined the
/// attestations `ev`: `stamped` itself when its hash has the quorum;
/// otherwise the earliest active attestation of any hash that has it;
/// nothing when no hash has it.
pub open spec fn quorum_pick(
    verifiers: Map<Seq<char>, VerifierInfo>,
    ev: Seq<VerificationRecord>,
    stamped: VerificationRecord,
    n: u32,
) -> Option<VerificationRecord> {
    if agreeing(verifiers, ev, stamped.wasm_hash@) >= n {
        Some(stamped)
    } else {
        first_quorate(verifiers, ev, ev, n)
    }
}

/// The abstract state of the registry.
pub struct RegistryState {
    /// The governance address, once `init` has run.
    pub admin: Option<Seq<char>>,
    /// The policy that turns attestations into canonical records.
    pub policy: VerificationPolicy,
    /// Registered verifiers (active or not) and their metadata.
    pub verifiers: Map<Seq<char>, VerifierInfo>,
    /// Every verifier ever registered, in order of first registration.
    pub verifier_list: Seq<Seq<char>>,
    /// The canonical record of each contract: what `get_verification` reads.
    pub records: Map<Seq<char>, VerificationRecord>,
    /// Per contract, the latest attestation of each verifier that ever
    /// attested it, in order of each verifier's first attestation.
    pub evidence: Map<Seq<char>, Seq<VerificationRecord>>,
}

impl RegistryState {
    /// A freshly deployed, uninitialized registry.
    pub open spec fn initial() -> RegistryState {
        RegistryState {
            admin: None,
            policy: VerificationPolicy::LastWriteWins,
            verifiers: Map::empty(),
            verifier_list: Seq::empty(),
            records: Map::empty(),
            evidence: Map::empty(),
        }
    }

    /// The structural invariant of the abstract state.
    pub open spec fn inv(self) -> bool {
        &&& self.verifier_list.no_duplicates()
        &&& forall|v: Seq<char>| #[trigger]
            self.verifiers.contains_key(v) <==> self.verifier_list.contains(v)
        &&& forall|c: Seq<char>| #[trigger]
            self.evidence.contains_key(c) ==> distinct_attesters(self.evidence[c])
        &&& forall|c: Seq<char>| #[trigger]
            self.records.contains_key(c) ==> self.evidence.contains_key(c)
    }

    /// Whether `r` names a registered verifier and carries a time no later
    /// than `t`.
    pub open spec fn traceable(self, r: VerificationRecord, t: u64) -> bool {
        self.verifiers.contains_key(r.verifier@) && r.timestamp <= t
    }

    /// Every canonical record and every attestation names a registered
    /// verifier and carries a time no later than `t`.
    pub open spec fn stamped_within(self, t: u64) -> bool {
        &&& forall|c: Seq<char>| #[trigger]
            self.records.contains_key(c) ==> self.traceable(self.records[c], t)
        &&& forall|c: Seq<char>, i: int|
            self.evidence.contains_key(c) && 0 <= i < self.evidence[c].len() ==> self.traceable(
                #[trigger] self.evidence[c][i],
                t,
            )
    }

    /// Whether `v` is a registered, active verifier.
    pub open spec fn is_active(self, v: Seq<char>) -> bool {
        active_in(self.verifiers, v)
    }

    /// The attestations recorded for contract `c` (empty if none).
    pub open spec fn attestations(self, c: Seq<char>) -> Seq<VerificationRecord> {
        if self.evidence.contains_key(c) {
            self.evidence[c]
        } else {
            Seq::empty()
        }
    }

    /// The canonical record of `c` after `stamped` was attested, given the
    /// attestations `ev` of `c` that include it.
    pub open spec fn canonical_after_attest(
        self,
        c: Seq<char>,
        ev: Seq<VerificationRecord>,
        stamped: VerificationRecord,
    ) -> Map<Seq<char>, VerificationRecord> {
        match self.policy {
            VerificationPolicy::LastWriteWins => self.records.insert(c, stamped),
            VerificationPolicy::MinQuorum(n) => match quorum_pick(self.verifiers, ev, stamped, n) {
                Some(r) => self.records.insert(c, r),
                None => self.records,
            },
            VerificationPolicy::LowestTrust => match lowest_active(self.verifiers, ev) {
                Some(r) => self.records.insert(c, r),
                None => self.records,
            },
        }
    }

    /// The state after an active verifier attested `stamped` for contract `c`.
    pub open spec fn after_attest(self, c: Seq<char>, stamped: VerificationRecord) -> RegistryState {
        let ev = put_attestation(self.attestations(c), stamped);
        RegistryState {
            records: self.canonical_after_attest(c, ev, stamped),
            evidence: self.evidence.insert(c, ev),
            ..self
        }
    }

    /// Whether `who` may revoke: an active verifier, or the admin.
    pub open spec fn may_revoke(self, who: Seq<char>) -> bool {
        self.is_active(who) || self.admin == Some(who)
    }

    /// The record that a revocation of `c` by `who` downgrades: the canonical
    /// record; failing that, `who`'s own attestation; failing that, the
    /// earliest attestation of `c`.
    pub open spec fn revocation_base(self, who: Seq<char>, c: Seq<char>) -> Option<
        VerificationRecord,
    > {
        let ev = self.attestations(c);
        if self.records.contains_key(c) {
            Some(self.records[c])
        } else if has_attested(ev, who) {
            Some(ev[slot(ev, who)])
        } else if ev.len() > 0 {
            Some(ev[0])
        } else {
            None
        }
    }

    /// The state after `who` revoked the verification of `c` at time `now`.
    pub open spec fn after_revoke(self, who: Seq<char>, c: Seq<char>, now: u64) -> RegistryState {
        let ev = self.attestations(c);
        RegistryState {
            records: self.records.insert(c, failed(self.revocation_base(who, c).unwrap(), now)),
            evidence: if has_attested(ev, who) {
                self.evidence.insert(c, ev.update(slot(ev, who), failed(ev[slot(ev, who)], now)))
            } else {
                self.evidence
            },
            ..self
        }
    }

    /// Whether `v` has an attestation of contract `c`.
    pub open spec fn affected(self, v: Seq<char>, c: Seq<char>) -> bool {
        self.evidence.contains_key(c) && has_attested(self.evidence[c], v)
    }

    /// The canonical records after the lowest-trust recomputation for every
    /// contract that `v` attested.
    pub open spec fn recomputed_records(self, v: Seq<char>) -> Map<Seq<char>, VerificationRecord> {
        Map::new(
            |c: Seq<char>|
                self.records.contains_key(c) || (self.affected(v, c) && lowest_active(self.verifiers, 
                    self.evidence[c],
                ) is Some),
            |c: Seq<char>|
                if self.affected(v, c) && lowest_active(self.verifiers, self.evidence[c]) is Some {
                    lowest_active(self.verifiers, self.evidence[c]).unwrap()
                } else {
                    self.records[c]
                },
        )
    }

    /// The state after governance set the metadata of verifier `v` to `info`.
    pub open spec fn after_set_verifier(self, v: Seq<char>, info: VerifierInfo) -> RegistryState {
        let registered = RegistryState {
            verifiers: self.verifiers.insert(v, info),
            verifier_list: if self.verifiers.contains_key(v) {
                self.verifier_list
            } else {
                self.verifier_list.push(v)
            },
            ..self
        };
        if self.policy == VerificationPolicy::LowestTrust && !info.active {
            RegistryState { records: registered.recomputed_records(v), ..registered }
        } else {
            registered
        }
    }

    /// The verifiers of `list` that are active, in the same order.
    pub open spec fn active_among(self, list: Seq<Seq<char>>) -> Seq<Seq<char>> {
        list.filter(|v: Seq<char>| self.is_active(v))
    }
}


/// A copy of a sequence of records.
fn copy_records(ev: &Vec<VerificationRecord>) -> (r: Vec<VerificationRecord>)
    ensures
        r@ == ev@,
{
    let mut r: Vec<VerificationRecord> = Vec::new();
    let mut i: usize = 0;
    while i < ev.len()
        invariant
            i <= ev@.len(),
            r@ == ev@.take(i as int),
        decreases ev@.len() - i,
    {
        r.push(ev[i].clone());
        assert(ev@.take(i + 1) =~= ev@.take(i as int).push(ev@[i as int]));
        i = i + 1;
    }
    assert(ev@.take(ev@.len() as int) =~= ev@);
    r
}

/// A copy of a sequence of addresses.
fn copy_addresses(list: &Vec<Address>) -> (r: Vec<Address>)
    ensures
        r@ == list@,
{
    let mut r: Vec<Address> = Vec::new();
    let mut i: usize = 0;
    while i < list.len()
        invariant
            i <= list@.len(),
            r@ == list@.take(i as int),
        decreases list@.len() - i,
    {
        r.push(list[i].clone());
        assert(list@.take(i + 1) =~= list@.take(i as int).push(list@[i as int]));
        i = i + 1;
    }
    assert(list@.take(list@.len() as int) =~= list@);
    r
}

/// Whether no verifier has two attestations among `ev`.
fn attesters_distinct(ev: &Vec<VerificationRecord>) -> (r: bool)
    ensures
        r == distinct_attesters(ev@),
{
    let mut i: usize = 0;
    while i < ev.len()
        invariant
            i <= ev@.len(),
            forall|a: int, b: int| 0 <= a < b < i ==> ev@[a].verifier@ != ev@[b].verifier@,
        decreases ev@.len() - i,
    {
        let mut j: usize = 0;
        while j < i
            invariant
                j <= i < ev@.len(),
                forall|a: int, b: int| 0 <= a < b < i ==> ev@[a].verifier@ != ev@[b].verifier@,
                forall|b: int| 0 <= b < j ==> ev@[b].verifier@ != ev@[i as int].verifier@,
            decreases i - j,
        {
            if ev[j].verifier == ev[i].verifier {
                proof {
                    assert(ev@[j as int].verifier@ == ev@[i as int].verifier@);
                    assert(!distinct_attesters(ev@));
                }
                return false;
            }
            j = j + 1;
        }
        i = i + 1;
    }
    assert forall|a: int, b: int|
        0 <= a < ev@.len() && 0 <= b < ev@.len() && a != b implies #[trigger] ev@[a].verifier@
        != #[trigger] ev@[b].verifier@ by {
        // The loop compared each pair once, with the smaller index first.
        if b < a {
            assert(ev@[b].verifier@ != ev@[a].verifier@);
        }
    }
    true
}

/// The position of `v`'s attestation among `ev`, if it has one.
fn find_slot(ev: &Vec<VerificationRecord>, v: &Address) -> (r: Option<usize>)
    requires
        distinct_attesters(ev@),
    ensures
        match r {
            Some(i) => i < ev@.len() && has_attested(ev@, v@) && i == slot(ev@, v@),
            None => !has_attested(ev@, v@),
        },
{
    let mut i: usize = 0;
    while i < ev.len()
        invariant
            i <= ev@.len(),
            distinct_attesters(ev@),
            forall|j: int| 0 <= j < i ==> ev@[j].verifier@ != v@,
        decreases ev@.len() - i,
    {
        if ev[i].verifier == *v {
            proof {
                let j = slot(ev@, v@);
                assert(ev@[i as int].verifier@ == v@);
                assert(0 <= j < ev@.len() && ev@[j].verifier@ == v@);
                if j != i {
                    assert(ev@[j].verifier@ != ev@[i as int].verifier@);
                }
            }
            return Some(i);
        }
        i = i + 1;
    }
    None
}


/// Membership in a sequence after a push.
proof fn lemma_push_contains<A>(s: Seq<A>, x: A, y: A)
    ensures
        s.push(x).contains(y) <==> (s.contains(y) || x == y),
{
    if s.contains(y) {
        let i = choose|i: int| 0 <= i < s.len() && s[i] == y;
        assert(s.push(x)[i] == y);
    }
    if x == y {
        assert(s.push(x)[s.len() as int] == y);
    }
    if s.push(x).contains(y) {
        let j = choose|j: int| 0 <= j < s.push(x).len() && s.push(x)[j] == y;
        if j < s.len() {
            assert(s[j] == y);
        }
    }
}

/// Pushing an element not yet present keeps a sequence free of duplicates.
proof fn lemma_push_no_duplicates<A>(s: Seq<A>, x: A)
    requires
        s.no_duplicates(),
        !s.contains(x),
    ensures
        s.push(x).no_duplicates(),
{
    let t = s.push(x);
    assert forall|i: int, j: int| 0 <= i < t.len() && 0 <= j < t.len() && i != j implies t[i]
        != t[j] by {
        if i < s.len() && j < s.len() {
            assert(s[i] != s[j]);
        } else if i < s.len() {
            assert(s[i] != x);
        } else {
            assert(s[j] != x);
        }
    }
}

/// Once an earliest quorate attestation is found in a prefix, longer
/// prefixes find the same one.
proof fn lemma_first_quorate_prefix(
    verifiers: Map<Seq<char>, VerifierInfo>,
    all: Seq<VerificationRecord>,
    k: int,
    n: u32,
)
    requires
        0 < k <= all.len(),
        first_quorate(verifiers, all, all.take(k), n) is Some,
    ensures
        first_quorate(verifiers, all, all, n) == first_quorate(verifiers, all, all.take(k), n),
    decreases all.len() - k,
{
    if k < all.len() {
        assert(all.take(k + 1).drop_last() =~= all.take(k));
        lemma_first_quorate_prefix(verifiers, all, k + 1, n);
    } else {
        assert(all.take(k) =~= all);
    }
}

/// Putting an attestation keeps the attesters distinct.
proof fn lemma_put_distinct(ev: Seq<VerificationRecord>, r: VerificationRecord)
    requires
        distinct_attesters(ev),
    ensures
        distinct_attesters(put_attestation(ev, r)),
{
    let ev2 = put_attestation(ev, r);
    assert forall|i: int, j: int|
        0 <= i < ev2.len() && 0 <= j < ev2.len() && i != j implies #[trigger] ev2[i].verifier@
        != #[trigger] ev2[j].verifier@ by {
        if has_attested(ev, r.verifier@) {
            let k = slot(ev, r.verifier@);
            if i != k && j != k {
                assert(ev[i].verifier@ != ev[j].verifier@);
            } else if i == k {
                assert(ev[j].verifier@ != ev[k].verifier@);
            } else {
                assert(ev[i].verifier@ != ev[k].verifier@);
            }
        } else {
            if i < ev.len() && j < ev.len() {
                assert(ev[i].verifier@ != ev[j].verifier@);
            } else if i < ev.len() {
                assert(ev[i].verifier@ != r.verifier@);
            } else {
                assert(ev[j].verifier@ != r.verifier@);
            }
        }
    }
}

/// Replacing an attestation by one of the same verifier keeps the set of
/// attesters and their distinctness.
proof fn lemma_update_same_attester(ev: Seq<VerificationRecord>, k: int, r: VerificationRecord)
    requires
        0 <= k < ev.len(),
        r.verifier@ == ev[k].verifier@,
    ensures
        forall|v: Seq<char>| has_attested(ev.update(k, r), v) == has_attested(ev, v),
        distinct_attesters(ev) ==> distinct_attesters(ev.update(k, r)),
{
    let ev2 = ev.update(k, r);
    assert forall|v: Seq<char>| has_attested(ev2, v) == has_attested(ev, v) by {
        if has_attested(ev, v) {
            let i = choose|i: int| 0 <= i < ev.len() && #[trigger] ev[i].verifier@ == v;
            assert(ev2[i].verifier@ == v);
        }
        if has_attested(ev2, v) {
            let j = choose|j: int| 0 <= j < ev2.len() && #[trigger] ev2[j].verifier@ == v;
            assert(ev[j].verifier@ == v);
        }
    }
    if distinct_attesters(ev) {
        assert forall|i: int, j: int|
            0 <= i < ev2.len() && 0 <= j < ev2.len() && i != j implies #[trigger] ev2[i].verifier@
            != #[trigger] ev2[j].verifier@ by {
            assert(ev[i].verifier@ != ev[j].verifier@);
        }
    }
}

/// The verification registry.
pub struct VerificationRegistry {
    admin: Option<Address>,
    policy: VerificationPolicy,
    verifiers: StringHashMap<VerifierInfo>,
    verifier_list: Vec<Address>,
    records: StringHashMap<VerificationRecord>,
    evidence: StringHashMap<Vec<VerificationRecord>>,
    contracts: Vec<Address>,
}

impl View for VerificationRegistry {
    type V = RegistryState;

    closed spec fn view(&self) -> RegistryState {
        RegistryState {
            admin: match self.admin {
                Some(a) => Some(a@),
                None => None,
            },
            policy: self.policy,
            verifiers: self.verifiers@,
            verifier_list: address_views(self.verifier_list@),
            records: self.records@,
            evidence: self.evidence@.map_values(|ev: Vec<VerificationRecord>| ev@),
        }
    }
}

impl VerificationRegistry {
    /// The registry's internal invariant.
    pub closed spec fn wf(&self) -> bool {
        &&& self@.inv()
        &&& address_views(self.contracts@).no_duplicates()
        &&& forall|c: Seq<char>| #[trigger]
            self@.evidence.contains_key(c) <==> address_views(self.contracts@).contains(c)
    }

    /// Every well-formed registry's state satisfies the structural invariant
    /// of `RegistryState`, so laws stated under `inv()` apply to it.
    pub proof fn lemma_wf_inv(&self)
        requires
            self.wf(),
        ensures
            self@.inv(),
    {
    }

    /// A freshly deployed registry: not yet initialized, no verifiers, no
    /// records, policy `LastWriteWins`.
    pub fn new() -> (r: VerificationRegistry)
        ensures
            r.wf(),
            r@ == RegistryState::initial(),
    {
        let r = VerificationRegistry {
            admin: None,
            policy: VerificationPolicy::LastWriteWins,
            verifiers: StringHashMap::new(),
            verifier_list: Vec::new(),
            records: StringHashMap::new(),
            evidence: StringHashMap::new(),
            contracts: Vec::new(),
        };
        assert(address_views(r.contracts@) =~= Seq::<Seq<char>>::empty());
        assert(r@.verifier_list =~= Seq::<Seq<char>>::empty());
        assert(r@.evidence =~= Map::<Seq<char>, Seq<VerificationRecord>>::empty());
        r
    }

    /// A copy of the admin address, if `init` has run.
    fn admin_address(&self) -> (a: Option<Address>)
        ensures
            match a {
                Some(x) => self@.admin == Some(x@),
                None => self@.admin is None,
            },
    {
        match &self.admin {
            Some(x) => Some(x.clone()),
            None => None,
        }
    }

    /// One-time initialization: records `admin` as the governance address.
    /// Fails with `AlreadyInitialized`, changing nothing, once an admin is
    /// set. Needs no authorization.
    pub fn init(&mut self, admin: Address) -> (out: Outcome<()>)
        requires
            old(self).wf(),
        ensures
            final(self).wf(),
            out.auth is None,
            out.result is Ok <==> old(self)@.admin is None,
            match out.result {
                Ok(()) => final(self)@ == (RegistryState { admin: Some(admin@), ..old(self)@ }),
                Err(e) => e == Error::AlreadyInitialized && final(self)@ == old(self)@,
            },
    {
        Outcome { auth: None, result: self.apply_init(admin) }
    }

    /// Governance: rotate the admin address. Needs the current admin's
    /// authorization (not the new admin's); `NotInitialized`, asking for no
    /// authorization, before `init`. On success the event to publish is
    /// returned.
    pub fn set_admin(&mut self, new_admin: Address) -> (out: Outcome<AdminRotated>)
        requires
            old(self).wf(),
        ensures
            final(self).wf(),
            match out.auth {
                Some(a) => old(self)@.admin == Some(a@),
                None => old(self)@.admin is None,
            },
            out.result is Ok <==> old(self)@.admin is Some,
            match out.result {
                Ok(event) => {
                    &&& final(self)@ == (RegistryState { admin: Some(new_admin@), ..old(self)@ })
                    &&& event == (AdminRotated { new_admin: new_admin })
                },
                Err(e) => e == Error::NotInitialized && final(self)@ == old(self)@,
            },
    {
        let auth = self.admin_address();
        Outcome { auth, result: self.apply_set_admin(new_admin) }
    }

    /// Governance: set the policy for subsequent attestations. Needs the
    /// admin's authorization; `NotInitialized` (asking for none) before
    /// `init`, and `InvalidPolicy` for `MinQuorum(0)`, which would never
    /// publish. Records already published are left as they are. On success
    /// the event to publish is returned.
    pub fn set_policy(&mut self, policy: VerificationPolicy) -> (out: Outcome<PolicyChanged>)
        requires
            old(self).wf(),
        ensures
            final(self).wf(),
            match out.auth {
                Some(a) => old(self)@.admin == Some(a@),
                None => old(self)@.admin is None,
            },
            out.result is Ok <==> (old(self)@.admin is Some && policy
                != VerificationPolicy::MinQuorum(0)),
            match out.result {
                Ok(event) => {
                    &&& final(self)@ == (RegistryState { policy: policy, ..old(self)@ })
                    &&& event == (PolicyChanged { new_policy: policy })
                },
                Err(e) => {
                    &&& final(self)@ == old(self)@
                    &&& e == if old(self)@.admin is None {
                        Error::NotInitialized
                    } else {
                        Error::InvalidPolicy
                    }
                },
            },
    {
        let auth = self.admin_address();
        Outcome { auth, result: self.apply_set_policy(policy) }
    }

    /// Governance: register, update, or deactivate a verifier.
    ///
    /// Needs the admin's authorization (not the verifier's); fails with
    /// `NotInitialized`, asking for none, before `init`. A newly registered
    /// verifier joins the end of the verifier list; one already registered
    /// keeps its place (history is never dropped). Under the lowest-trust
    /// policy, deactivating a verifier (`info.active == false`) recomputes
    /// the canonical record of every contract it attested against the
    /// remaining active verifiers. On success the event to publish is
    /// returned.
    pub fn set_verifier(&mut self, verifier: Address, info: VerifierInfo) -> (out: Outcome<
        VerifierSet,
    >)
        requires
            old(self).wf(),
        ensures
            final(self).wf(),
            match out.auth {
                Some(a) => old(self)@.admin == Some(a@),
                None => old(self)@.admin is None,
            },
            out.result is Ok <==> old(self)@.admin is Some,
            out.result is Ok ==> forall|c: Seq<char>|
                #![trigger final(self)@.records.contains_key(c)]
                #![trigger final(self)@.records[c]]
                !has_attested(old(self)@.attestations(c), verifier@) ==> {
                    &&& final(self)@.records.contains_key(c) == old(self)@.records.contains_key(c)
                    &&& old(self)@.records.contains_key(c) ==> final(self)@.records[c] == old(
                        self,
                    )@.records[c]
                },
            match out.result {
                Ok(event) => {
                    &&& final(self)@ == old(self)@.after_set_verifier(verifier@, info)
                    &&& event == (VerifierSet { verifier: verifier, info: info })
                },
                Err(e) => e == Error::NotInitialized && final(self)@ == old(self)@,
            },
    {
        let auth = self.admin_address();
        let ghost v = verifier@;
        let result = self.apply_set_verifier(verifier, info);
        proof {
            if result is Ok {
                assert forall|c: Seq<char>|
                    !has_attested(old(self)@.attestations(c), v) implies {
                    &&& self@.records.contains_key(c) == old(self)@.records.contains_key(c)
                    &&& old(self)@.records.contains_key(c) ==> self@.records[c] == old(
                        self,
                    )@.records[c]
                } by {
                    law_set_verifier_spares_unattested_contracts(old(self)@, v, info, c);
                }
            }
        }
        Outcome { auth, result }
    }

    /// Downgrade the verification of `contract_id` to `Failed` at ledger
    /// time `now` (for instance when a trusted build image is found
    /// compromised).
    ///
    /// Always needs `revoked_by`'s authorization, whatever the outcome.
    /// Callable by an active verifier or by the admin. Whatever the policy,
    /// the canonical record becomes `Failed` at once: the existing canonical
    /// record is downgraded, or, where none was published yet, the revoker's
    /// own attestation (failing that, the contract's earliest attestation)
    /// is published as `Failed`, so consumers see the downgrade and not an
    /// absence. The revoker's own attestation is downgraded too. On success
    /// the event to publish, carrying `reason`, is returned.
    pub fn revoke(
        &mut self,
        revoked_by: Address,
        contract_id: Address,
        reason: String,
        now: u64,
    ) -> (out: Outcome<Revoke>)
        requires
            old(self).wf(),
        ensures
            final(self).wf(),
            out.auth == Some(revoked_by),
            out.result is Ok <==> (old(self)@.may_revoke(revoked_by@) && old(
                self,
            )@.revocation_base(revoked_by@, contract_id@) is Some),
            match out.result {
                Ok(event) => {
                    &&& final(self)@ == old(self)@.after_revoke(revoked_by@, contract_id@, now)
                    &&& event == (Revoke {
                        contract: contract_id,
                        revoked_by: revoked_by,
                        reason: reason,
                    })
                },
                Err(e) => {
                    &&& final(self)@ == old(self)@
                    &&& !old(self)@.may_revoke(revoked_by@) ==> e == if old(self)@.admin is None {
                        Error::NotInitialized
                    } else {
                        Error::UnauthorizedVerifier
                    }
                    &&& old(self)@.may_revoke(revoked_by@) ==> e == Error::VerificationNotFound
                },
            },
    {
        let auth = Some(revoked_by.clone());
        Outcome { auth, result: self.apply_revoke(revoked_by, contract_id, reason, now) }
    }

    /// Publish a verification result for `contract_id`, attested by
    /// `verifier` at ledger time `now`.
    ///
    /// Always needs `verifier`'s authorization, whatever the outcome. Only a
    /// registered, active verifier may attest. The registry stamps
    /// `record.verifier` and `record.timestamp` itself, so a verifier can
    /// neither impersonate another nor backdate a claim. The attestation
    /// always joins the contract's evidence; whether it becomes the
    /// canonical record depends on the policy. On success the event to
    /// publish is returned.
    pub fn attest(
        &mut self,
        verifier: Address,
        contract_id: Address,
        record: VerificationRecord,
        now: u64,
    ) -> (out: Outcome<Attest>)
        requires
            old(self).wf(),
        ensures
            final(self).wf(),
            out.auth == Some(verifier),
            out.result is Ok <==> old(self)@.is_active(verifier@),
            match out.result {
                Ok(event) => {
                    &&& final(self)@ == old(self)@.after_attest(
                        contract_id@,
                        stamp(record, verifier, now),
                    )
                    &&& event == (Attest {
                        contract: contract_id,
                        verifier: verifier,
                        record: stamp(record, verifier, now),
                    })
                },
                Err(e) => e == Error::UnauthorizedVerifier && final(self)@ == old(self)@,
            },
    {
        let auth = Some(verifier.clone());
        Outcome { auth, result: self.apply_attest(verifier, contract_id, record, now) }
    }

    /// The state change and result of `init`, authorization aside.
    fn apply_init(&mut self, admin: Address) -> (result: Result<(), Error>)
        requires
            old(self).wf(),
        ensures
            final(self).wf(),
            result is Ok <==> old(self)@.admin is None,
            match result {
                Ok(()) => final(self)@ == (RegistryState { admin: Some(admin@), ..old(self)@ }),
                Err(e) => e == Error::AlreadyInitialized && final(self)@ == old(self)@,
            },
    {
        if self.admin.is_some() {
            return Err(Error::AlreadyInitialized);
        }
        self.admin = Some(admin);
        proof {
            Self::lemma_wf_frame(old(self), self);
        }
        Ok(())
    }

    /// The current governance address; `NotInitialized` before `init`.
    pub fn get_admin(&self) -> (result: Result<Address, Error>)
        ensures
            match result {
                Ok(a) => self@.admin == Some(a@),
                Err(e) => self@.admin is None && e == Error::NotInitialized,
            },
    {
        match &self.admin {
            Some(a) => Ok(a.clone()),
            None => Err(Error::NotInitialized),
        }
    }

    /// The state change and result of `set_admin`, authorization aside.
    fn apply_set_admin(&mut self, new_admin: Address) -> (result: Result<AdminRotated, Error>)
        requires
            old(self).wf(),
        ensures
            final(self).wf(),
            result is Ok <==> old(self)@.admin is Some,
            match result {
                Ok(event) => {
                    &&& final(self)@ == (RegistryState { admin: Some(new_admin@), ..old(self)@ })
                    &&& event == (AdminRotated { new_admin: new_admin })
                },
                Err(e) => e == Error::NotInitialized && final(self)@ == old(self)@,
            },
    {
        if self.admin.is_none() {
            return Err(Error::NotInitialized);
        }
        self.admin = Some(new_admin.clone());
        proof {
            Self::lemma_wf_frame(old(self), self);
        }
        Ok(AdminRotated { new_admin })
    }

    /// The state change and result of `set_policy`, authorization aside.
    fn apply_set_policy(&mut self, policy: VerificationPolicy) -> (result: Result<
        PolicyChanged,
        Error,
    >)
        requires
            old(self).wf(),
        ensures
            final(self).wf(),
            result is Ok <==> (old(self)@.admin is Some && policy != VerificationPolicy::MinQuorum(
                0,
            )),
            match result {
                Ok(event) => {
                    &&& final(self)@ == (RegistryState { policy: policy, ..old(self)@ })
                    &&& event == (PolicyChanged { new_policy: policy })
                },
                Err(e) => {
                    &&& final(self)@ == old(self)@
                    &&& e == if old(self)@.admin is None {
                        Error::NotInitialized
                    } else {
                        Error::InvalidPolicy
                    }
                },
            },
    {
        if self.admin.is_none() {
            return Err(Error::NotInitialized);
        }
        match policy {
            VerificationPolicy::MinQuorum(0) => {
                return Err(Error::InvalidPolicy);
            },
            _ => {},
        }
        self.policy = policy;
        proof {
            Self::lemma_wf_frame(old(self), self);
        }
        Ok(PolicyChanged { new_policy: policy })
    }

    /// The active policy (`LastWriteWins` until governance sets another).
    pub fn get_policy(&self) -> (policy: VerificationPolicy)
        ensures
            policy == self@.policy,
    {
        self.policy
    }

    /// The canonical verification record of `contract_id`, if one is published.
    /// Anyone can query this.
    pub fn get_verification(&self, contract_id: Address) -> (result: Option<VerificationRecord>)
        ensures
            result == if self@.records.contains_key(contract_id@) {
                Some(self@.records[contract_id@])
            } else {
                None
            },
    {
        match self.records.get(contract_id.as_str()) {
            Some(r) => Some(r.clone()),
            None => None,
        }
    }

    /// The metadata of a registered verifier, if any.
    pub fn get_verifier(&self, verifier: Address) -> (result: Option<VerifierInfo>)
        ensures
            result == if self@.verifiers.contains_key(verifier@) {
                Some(self@.verifiers[verifier@])
            } else {
                None
            },
    {
        match self.verifiers.get(verifier.as_str()) {
            Some(i) => Some(i.clone()),
            None => None,
        }
    }

    /// Permissionless (needs no authorization): check that `contract_id`
    /// has a canonical record whose storage lifetime may be extended;
    /// `VerificationNotFound` otherwise. The record itself is not changed.
    pub fn bump_ttl(&self, contract_id: Address) -> (out: Outcome<()>)
        ensures
            out.auth is None,
            out.result is Ok <==> self@.records.contains_key(contract_id@),
            out.result is Err ==> out.result == Err::<(), Error>(Error::VerificationNotFound),
    {
        if !self.records.contains_key(contract_id.as_str()) {
            return Outcome { auth: None, result: Err(Error::VerificationNotFound) };
        }
        Outcome { auth: None, result: Ok(()) }
    }

    /// Permissionless (needs no authorization): check that `verifier` is
    /// registered, so that its entry's storage lifetime may be extended;
    /// `UnauthorizedVerifier` otherwise. The entry itself is not changed.
    pub fn bump_verifier_ttl(&self, verifier: Address) -> (out: Outcome<()>)
        ensures
            out.auth is None,
            out.result is Ok <==> self@.verifiers.contains_key(verifier@),
            out.result is Err ==> out.result == Err::<(), Error>(Error::UnauthorizedVerifier),
    {
        if !self.verifiers.contains_key(verifier.as_str()) {
            return Outcome { auth: None, result: Err(Error::UnauthorizedVerifier) };
        }
        Outcome { auth: None, result: Ok(()) }
    }

    /// Every verifier ever registered (deactivated ones included), in order
    /// of first registration.
    pub fn list_verifiers(&self) -> (result: Vec<Address>)
        ensures
            address_views(result@) == self@.verifier_list,
    {
        let r = copy_addresses(&self.verifier_list);
        r
    }

    /// The currently active verifiers, in order of first registration: every
    /// address listed is a registered verifier whose metadata says it is
    /// active, and (for a well-formed registry) every active verifier is
    /// listed exactly once, in the order in which they were registered.
    pub fn list_active_verifiers(&self) -> (result: Vec<Address>)
        ensures
            address_views(result@) == self@.active_among(self@.verifier_list),
            forall|i: int|
                0 <= i < result@.len() ==> self@.verifiers.contains_key(#[trigger] result@[i]@)
                    && self@.verifiers[result@[i]@].active,
            self.wf() ==> forall|v: Seq<char>|
                #[trigger] self@.is_active(v) ==> address_views(result@).contains(v),
            self.wf() ==> address_views(result@).no_duplicates(),
            self.wf() ==> forall|i: int, j: int|
                0 <= i < j < result@.len() ==> precedes(
                    self@.verifier_list,
                    #[trigger] result@[i]@,
                    #[trigger] result@[j]@,
                ),
    {
        let mut r: Vec<Address> = Vec::new();
        let mut i: usize = 0;
        while i < self.verifier_list.len()
            invariant
                i <= self.verifier_list@.len(),
                address_views(r@) == self@.active_among(address_views(self.verifier_list@).take(i as int)),
            decreases self.verifier_list@.len() - i,
        {
            let v = &self.verifier_list[i];
            proof {
                let all = address_views(self.verifier_list@);
                assert(all.take(i + 1) =~= all.take(i as int).push(v@));
                all.take(i as int).lemma_filter_push(v@, |w: Seq<char>| self@.is_active(w));
            }
            if self.is_active_verifier(v) {
                let ghost before = r@;
                r.push(v.clone());
                assert(address_views(r@) =~= address_views(before).push(v@));
            }
            i = i + 1;
        }
        assert(address_views(self.verifier_list@).take(self.verifier_list@.len() as int) =~= address_views(self.verifier_list@));
        proof {
            let list = self@.verifier_list;
            let a = address_views(r@);
            law_active_listing_is_exact(self@, list);
            assert forall|i: int| 0 <= i < r@.len() implies self@.verifiers.contains_key(
                #[trigger] r@[i]@,
            ) && self@.verifiers[r@[i]@].active by {
                assert(a[i] == r@[i]@);
            }
            if self.wf() {
                assert forall|v: Seq<char>| #[trigger] self@.is_active(v) implies a.contains(v) by {
                    assert(list.contains(v));
                    let k = choose|k: int| 0 <= k < list.len() && list[k] == v;
                    assert(self@.is_active(list[k]));
                }
                assert forall|i: int, j: int|
                    0 <= i < j < r@.len() implies precedes(list, #[trigger] r@[i]@, #[trigger] r@[j]@) by {
                    assert(a[i] == r@[i]@ && a[j] == r@[j]@);
                }
            }
        }
        r
    }


    /// The internal invariant does not depend on the admin, the policy or
    /// the canonical records.
    proof fn lemma_wf_frame(a: &VerificationRegistry, b: &VerificationRegistry)
        requires
            a.wf(),
            b.verifiers@ == a.verifiers@,
            b.verifier_list@ == a.verifier_list@,
            b.evidence@ == a.evidence@,
            b.records@ == a.records@,
            b.contracts@ == a.contracts@,
        ensures
            b.wf(),
    {
        assert(b@.verifiers == a@.verifiers);
        assert(b@.verifier_list == a@.verifier_list);
        assert(b@.evidence == a@.evidence);
        assert(b@.records == a@.records);
    }


    /// A plain copy of the whole state, for persisting it; `restore` gives
    /// the registry back.
    #[verifier::spinoff_prover]
    pub fn snapshot(&self) -> (s: RegistrySnapshot)
        requires
            self.wf(),
        ensures
            s.well_formed(),
            s.model() == self@,
    {
        let ghost list = address_views(self.verifier_list@);
        let mut verifiers: Vec<VerifierEntry> = Vec::new();
        let mut i: usize = 0;
        while i < self.verifier_list.len()
            invariant
                i <= self.verifier_list@.len(),
                self.wf(),
                list == address_views(self.verifier_list@),
                verifier_keys(verifiers@) == list.take(i as int),
                forall|j: int|
                    0 <= j < i ==> #[trigger] verifiers@[j].info == self@.verifiers[list[j]],
            decreases self.verifier_list@.len() - i,
        {
            let v = &self.verifier_list[i];
            assert(list[i as int] == v@);
            assert(list.contains(v@));
            assert(self@.verifier_list.contains(v@));
            assert(self@.verifiers.contains_key(v@));
            let info = self.verifiers.get(v.as_str()).unwrap().clone();
            let ghost before = verifiers@;
            verifiers.push(VerifierEntry { verifier: v.clone(), info });
            assert(verifier_keys(verifiers@) =~= verifier_keys(before).push(v@));
            assert(list.take(i + 1) =~= list.take(i as int).push(v@));
            i = i + 1;
        }
        assert(list.take(list.len() as int) =~= list);
        let ghost cs = address_views(self.contracts@);
        let mut contracts: Vec<ContractEntry> = Vec::new();
        let mut k: usize = 0;
        while k < self.contracts.len()
            invariant
                k <= self.contracts@.len(),
                self.wf(),
                cs == address_views(self.contracts@),
                contract_keys(contracts@) == cs.take(k as int),
                forall|j: int|
                    0 <= j < k ==> #[trigger] contracts@[j].attestations@ == self@.evidence[cs[j]],
                forall|j: int|
                    0 <= j < k ==> #[trigger] contracts@[j].canonical == if self@.records.contains_key(
                        cs[j],
                    ) {
                        Some(self@.records[cs[j]])
                    } else {
                        None
                    },
            decreases self.contracts@.len() - k,
        {
            let c = &self.contracts[k];
            assert(cs[k as int] == c@);
            assert(cs.contains(c@));
            assert(self@.evidence.contains_key(c@));
            let attestations = copy_records(self.evidence.get(c.as_str()).unwrap());
            let canonical = match self.records.get(c.as_str()) {
                Some(r) => Some(r.clone()),
                None => None,
            };
            let ghost before = contracts@;
            contracts.push(ContractEntry { contract: c.clone(), attestations, canonical });
            assert(contract_keys(contracts@) =~= contract_keys(before).push(c@));
            assert(cs.take(k + 1) =~= cs.take(k as int).push(c@));
            k = k + 1;
        }
        assert(cs.take(cs.len() as int) =~= cs);
        let s = RegistrySnapshot {
            admin: match &self.admin {
                Some(a) => Some(a.clone()),
                None => None,
            },
            policy: self.policy,
            verifiers,
            contracts,
        };
        proof {
            let vk = verifier_keys(s.verifiers@);
            assert forall|v: Seq<char>| #[trigger] vk.contains(v) implies s.verifiers@[vk.index_of(
                v,
            )].info == self@.verifiers[v] by {
                let j = vk.index_of(v);
                assert(0 <= j < vk.len() && vk[j] == v);
            }
            assert(verifier_map(s.verifiers@) =~= self@.verifiers);
            let ck = contract_keys(s.contracts@);
            assert forall|c: Seq<char>| #[trigger] ck.contains(c) implies s.contracts@[ck.index_of(
                c,
            )].attestations@ == self@.evidence[c] && s.contracts@[ck.index_of(c)].canonical == if self@.records.contains_key(c) {
                Some(self@.records[c])
            } else {
                None
            } by {
                let j = ck.index_of(c);
                assert(0 <= j < ck.len() && ck[j] == c);
            }
            assert(evidence_map(s.contracts@) =~= self@.evidence);
            assert forall|c: Seq<char>| #[trigger] self@.records.contains_key(c) implies ck.contains(c) by {
                assert(self@.evidence.contains_key(c));
            }
            assert(record_map(s.contracts@) =~= self@.records);
            assert forall|j: int| 0 <= j < s.contracts@.len() implies distinct_attesters(
                #[trigger] s.contracts@[j].attestations@,
            ) by {
                assert(cs.contains(cs[j]));
                assert(self@.evidence.contains_key(cs[j]));
            }
        }
        s
    }

    /// The registry that `snapshot` describes, or `None` when the snapshot
    /// lists a verifier or a contract twice, or two attestations of one
    /// contract by the same verifier.
    #[verifier::spinoff_prover]
    pub fn restore(snapshot: RegistrySnapshot) -> (result: Option<VerificationRegistry>)
        ensures
            result is Some <==> snapshot.well_formed(),
            match result {
                Some(r) => r.wf() && r@ == snapshot.model(),
                None => true,
            },
    {
        let ghost vs = snapshot.verifiers@;
        let ghost ces = snapshot.contracts@;
        let mut reg = VerificationRegistry {
            admin: None,
            policy: VerificationPolicy::LastWriteWins,
            verifiers: StringHashMap::new(),
            verifier_list: Vec::new(),
            records: StringHashMap::new(),
            evidence: StringHashMap::new(),
            contracts: Vec::new(),
        };
        assert(verifier_keys(vs.take(0)) =~= Seq::<Seq<char>>::empty());
        assert(verifier_map(vs.take(0)) =~= Map::<Seq<char>, VerifierInfo>::empty());
        assert(address_views(reg.verifier_list@) =~= Seq::<Seq<char>>::empty());
        let mut i: usize = 0;
        while i < snapshot.verifiers.len()
            invariant
                i <= vs.len(),
                vs == snapshot.verifiers@,
                verifier_keys(vs.take(i as int)).no_duplicates(),
                reg.verifiers@ == verifier_map(vs.take(i as int)),
                address_views(reg.verifier_list@) == verifier_keys(vs.take(i as int)),
                reg.records@ == Map::<Seq<char>, VerificationRecord>::empty(),
                reg.evidence@ == Map::<Seq<char>, Vec<VerificationRecord>>::empty(),
                reg.contracts@ == Seq::<Address>::empty(),
            decreases vs.len() - i,
        {
            let e = &snapshot.verifiers[i];
            assert(vs.take(i + 1) =~= vs.take(i as int).push(*e));
            assert(verifier_keys(vs.take(i as int)) =~= verifier_keys(vs).take(i as int));
            if reg.verifiers.contains_key(e.verifier.as_str()) {
                proof {
                    let ks = verifier_keys(vs);
                    let j = verifier_keys(vs.take(i as int)).index_of(e.verifier@);
                    assert(0 <= j < i && ks[j] == e.verifier@);
                    assert(ks[i as int] == e.verifier@);
                }
                return None;
            }
            proof {
                lemma_verifier_map_push(vs.take(i as int), *e);
            }
            reg.verifiers.insert(e.verifier.clone(), e.info.clone());
            let ghost before = reg.verifier_list@;
            reg.verifier_list.push(e.verifier.clone());
            assert(address_views(reg.verifier_list@) =~= address_views(before).push(e.verifier@));
            i = i + 1;
        }
        assert(vs.take(vs.len() as int) =~= vs);
        assert(contract_keys(ces.take(0)) =~= Seq::<Seq<char>>::empty());
        assert(evidence_map(ces.take(0)) =~= Map::<Seq<char>, Seq<VerificationRecord>>::empty());
        assert(record_map(ces.take(0)) =~= Map::<Seq<char>, VerificationRecord>::empty());
        assert(reg.evidence@.map_values(|ev: Vec<VerificationRecord>| ev@) =~= Map::<Seq<char>, Seq<VerificationRecord>>::empty());
        assert(address_views(reg.contracts@) =~= Seq::<Seq<char>>::empty());
        let mut k: usize = 0;
        while k < snapshot.contracts.len()
            invariant
                k <= ces.len(),
                ces == snapshot.contracts@,
                vs == snapshot.verifiers@,
                verifier_keys(vs).no_duplicates(),
                reg.verifiers@ == verifier_map(vs),
                address_views(reg.verifier_list@) == verifier_keys(vs),
                contract_keys(ces.take(k as int)).no_duplicates(),
                forall|j: int| 0 <= j < k ==> distinct_attesters(#[trigger] ces[j].attestations@),
                reg.records@ == record_map(ces.take(k as int)),
                reg.evidence@.map_values(|ev: Vec<VerificationRecord>| ev@) == evidence_map(
                    ces.take(k as int),
                ),
                address_views(reg.contracts@) == contract_keys(ces.take(k as int)),
            decreases ces.len() - k,
        {
            let e = &snapshot.contracts[k];
            assert(ces.take(k + 1) =~= ces.take(k as int).push(*e));
            assert(contract_keys(ces.take(k as int)) =~= contract_keys(ces).take(k as int));
            if reg.evidence.contains_key(e.contract.as_str()) {
                proof {
                    assert(reg.evidence@.map_values(|ev: Vec<VerificationRecord>| ev@).contains_key(
                        e.contract@,
                    ));
                    let ks = contract_keys(ces);
                    let j = contract_keys(ces.take(k as int)).index_of(e.contract@);
                    assert(0 <= j < k && ks[j] == e.contract@);
                    assert(ks[k as int] == e.contract@);
                }
                return None;
            }
            if !attesters_distinct(&e.attestations) {
                assert(!snapshot.well_formed());
                return None;
            }
            proof {
                assert(!reg.evidence@.map_values(|ev: Vec<VerificationRecord>| ev@).contains_key(
                    e.contract@,
                ));
                lemma_contract_maps_push(ces.take(k as int), *e);
            }
            let ghost ev_before = reg.evidence@;
            reg.evidence.insert(e.contract.clone(), copy_records(&e.attestations));
            assert(reg.evidence@.map_values(|ev: Vec<VerificationRecord>| ev@) =~= ev_before.map_values(
                |ev: Vec<VerificationRecord>| ev@,
            ).insert(e.contract@, e.attestations@));
            match &e.canonical {
                Some(r) => {
                    reg.records.insert(e.contract.clone(), r.clone());
                },
                None => {},
            }
            let ghost before = reg.contracts@;
            reg.contracts.push(e.contract.clone());
            assert(address_views(reg.contracts@) =~= address_views(before).push(e.contract@));
            k = k + 1;
        }
        assert(ces.take(ces.len() as int) =~= ces);
        reg.admin = match &snapshot.admin {
            Some(a) => Some(a.clone()),
            None => None,
        };
        reg.policy = snapshot.policy;
        proof {
            assert(reg@ == snapshot.model());
            let ck = contract_keys(ces);
            assert forall|c: Seq<char>| #[trigger]
                reg@.evidence.contains_key(c) implies distinct_attesters(reg@.evidence[c]) by {
                let j = ck.index_of(c);
                assert(0 <= j < ck.len() && ck[j] == c);
            }
        }
        Some(reg)
    }

    /// Whether `v` is a registered, active verifier.
    fn is_active_verifier(&self, v: &Address) -> (r: bool)
        ensures
            r == self@.is_active(v@),
    {
        match self.verifiers.get(v.as_str()) {
            Some(info) => info.active,
            None => false,
        }
    }

    /// How many attestations among `ev` come from active verifiers and name `hash`.
    fn count_agreeing(&self, ev: &Vec<VerificationRecord>, hash: &[u8; 32]) -> (n: usize)
        ensures
            n == agreeing(self@.verifiers, ev@, hash@),
    {
        let mut n: usize = 0;
        let mut i: usize = 0;
        while i < ev.len()
            invariant
                i <= ev@.len(),
                n <= i,
                n == agreeing(self@.verifiers, ev@.take(i as int), hash@),
            decreases ev@.len() - i,
        {
            assert(ev@.take(i + 1).drop_last() =~= ev@.take(i as int));
            if self.is_active_verifier(&ev[i].verifier) && same_hash(&ev[i].wasm_hash, hash) {
                n = n + 1;
            }
            i = i + 1;
        }
        assert(ev@.take(ev@.len() as int) =~= ev@);
        n
    }

    /// The position among `ev` of the record that `first_quorate` picks.
    fn first_quorate_index(&self, ev: &Vec<VerificationRecord>, n: u32) -> (r: Option<usize>)
        ensures
            match r {
                Some(i) => i < ev@.len() && first_quorate(self@.verifiers, ev@, ev@, n) == Some(
                    ev@[i as int],
                ),
                None => first_quorate(self@.verifiers, ev@, ev@, n) is None,
            },
    {
        let mut i: usize = 0;
        while i < ev.len()
            invariant
                i <= ev@.len(),
                first_quorate(self@.verifiers, ev@, ev@.take(i as int), n) is None,
            decreases ev@.len() - i,
        {
            assert(ev@.take(i + 1).drop_last() =~= ev@.take(i as int));
            assert(ev@.take(i + 1).last() == ev@[i as int]);
            if self.is_active_verifier(&ev[i].verifier) {
                let agree = self.count_agreeing(ev, &ev[i].wasm_hash);
                if agree >= n as usize {
                    assert(ev@.take(ev@.len() as int) =~= ev@);
                    proof {
                        lemma_first_quorate_prefix(self@.verifiers, ev@, i + 1, n);
                    }
                    return Some(i);
                }
            }
            i = i + 1;
        }
        assert(ev@.take(ev@.len() as int) =~= ev@);
        None
    }

    /// The position among `ev` of the record that `lowest_active` picks.
    fn lowest_index(&self, ev: &Vec<VerificationRecord>) -> (r: Option<usize>)
        ensures
            match r {
                Some(i) => i < ev@.len() && lowest_active(self@.verifiers, ev@) == Some(ev@[i as int]),
                None => lowest_active(self@.verifiers, ev@) is None,
            },
    {
        let mut best: Option<usize> = None;
        let mut i: usize = 0;
        while i < ev.len()
            invariant
                i <= ev@.len(),
                match best {
                    Some(b) => b < i && lowest_active(self@.verifiers, ev@.take(i as int)) == Some(
                        ev@[b as int],
                    ),
                    None => lowest_active(self@.verifiers, ev@.take(i as int)) is None,
                },
            decreases ev@.len() - i,
        {
            assert(ev@.take(i + 1).drop_last() =~= ev@.take(i as int));
            assert(ev@.take(i + 1).last() == ev@[i as int]);
            if self.is_active_verifier(&ev[i].verifier) {
                match best {
                    None => {
                        best = Some(i);
                    },
                    Some(b) => {
                        if ev[i].trust_level.tier() < ev[b].trust_level.tier() {
                            best = Some(i);
                        }
                    },
                }
            }
            i = i + 1;
        }
        assert(ev@.take(ev@.len() as int) =~= ev@);
        best
    }



    /// Under the lowest-trust policy, recompute the canonical record of every
    /// contract that `v` attested.
    #[verifier::spinoff_prover]
    fn recompute_lowest(&mut self, v: &Address)
        requires
            old(self).wf(),
        ensures
            final(self).wf(),
            final(self)@ == (RegistryState {
                records: old(self)@.recomputed_records(v@),
                ..old(self)@
            }),
    {
        let ghost s0 = self@;
        let contracts = copy_addresses(&self.contracts);
        let ghost cs = address_views(contracts@);
        let mut k: usize = 0;
        while k < contracts.len()
            invariant
                k <= contracts@.len(),
                s0 == old(self)@,
                cs == address_views(contracts@),
                cs == address_views(old(self).contracts@),
                old(self).wf(),
                self.admin == old(self).admin,
                self.policy == old(self).policy,
                self.verifiers@ == old(self).verifiers@,
                self.verifier_list@ == old(self).verifier_list@,
                self.evidence@ == old(self).evidence@,
                self.contracts@ == old(self).contracts@,
                self.records@ == Map::new(
                    |c: Seq<char>|
                        s0.records.contains_key(c) || (cs.take(k as int).contains(c)
                            && s0.affected(v@, c) && lowest_active(s0.verifiers, s0.evidence[c]) is Some),
                    |c: Seq<char>|
                        if cs.take(k as int).contains(c) && s0.affected(v@, c) && lowest_active(
                            s0.verifiers,
                            s0.evidence[c],
                        ) is Some {
                            lowest_active(s0.verifiers, s0.evidence[c]).unwrap()
                        } else {
                            s0.records[c]
                        },
                ),
            decreases contracts@.len() - k,
        {
            let c = &contracts[k];
            proof {
                assert(cs.take(k + 1) =~= cs.take(k as int).push(c@));
                assert(cs[k as int] == c@);
                assert(cs.contains(c@));
                assert forall|d: Seq<char>| cs.take(k + 1).contains(d) <==> (cs.take(
                    k as int,
                ).contains(d) || d == c@) by {
                    lemma_push_contains(cs.take(k as int), c@, d);
                }
                assert(s0.evidence.contains_key(c@));
            }
            let ghost before = self.records@;
            match self.evidence.get(c.as_str()) {
                Some(ev) => {
                    assert(ev@ == s0.evidence[c@]);
                    assert(self@.verifiers == s0.verifiers);
                    match find_slot(ev, v) {
                        Some(_) => {
                            match self.lowest_index(ev) {
                                Some(i) => {
                                    let r = ev[i].clone();
                                    assert(lowest_active(s0.verifiers, s0.evidence[c@]) == Some(r));
                                    self.records.insert(c.clone(), r);
                                },
                                None => {
                                    assert(lowest_active(s0.verifiers, s0.evidence[c@]) is None);
                                },
                            }
                        },
                        None => {
                            assert(!s0.affected(v@, c@));
                        },
                    }
                },
                None => {},
            }
            proof {
                let lo = lowest_active(s0.verifiers, s0.evidence[c@]);
                assert(self.records@ == if s0.affected(v@, c@) && lo is Some {
                    before.insert(c@, lo.unwrap())
                } else {
                    before
                });
                let target = Map::new(
                    |d: Seq<char>|
                        s0.records.contains_key(d) || (cs.take(k + 1).contains(d)
                            && s0.affected(v@, d) && lowest_active(s0.verifiers, s0.evidence[d]) is Some),
                    |d: Seq<char>|
                        if cs.take(k + 1).contains(d) && s0.affected(v@, d) && lowest_active(
                            s0.verifiers,
                            s0.evidence[d],
                        ) is Some {
                            lowest_active(s0.verifiers, s0.evidence[d]).unwrap()
                        } else {
                            s0.records[d]
                        },
                );
                assert forall|d: Seq<char>| #[trigger]
                    self.records@.contains_key(d) == target.contains_key(d) by {
                    assert(cs.take(k + 1).contains(d) == (cs.take(k as int).contains(d) || d == c@));
                }
                assert forall|d: Seq<char>| #[trigger]
                    target.contains_key(d) implies self.records@[d] == target[d] by {
                    assert(cs.take(k + 1).contains(d) == (cs.take(k as int).contains(d) || d == c@));
                }
                assert(self.records@ =~= target);
            }
            k = k + 1;
        }
        proof {
            assert(cs.take(contracts@.len() as int) =~= cs);
            assert forall|c: Seq<char>| #[trigger] s0.affected(v@, c) implies cs.contains(c) by {
                assert(s0.evidence.contains_key(c));
            }
            assert(self.records@ =~= s0.recomputed_records(v@));
            assert(self@ == (RegistryState { records: s0.recomputed_records(v@), ..s0 }));
            assert forall|c: Seq<char>| #[trigger]
                self@.records.contains_key(c) implies self@.evidence.contains_key(c) by {
                if !s0.records.contains_key(c) {
                    assert(s0.affected(v@, c));
                }
            }
        }
    }

    /// The state change and result of `set_verifier`, authorization aside.
    #[verifier::spinoff_prover]
    fn apply_set_verifier(&mut self, verifier: Address, info: VerifierInfo) -> (result: Result<
        VerifierSet,
        Error,
    >)
        requires
            old(self).wf(),
        ensures
            final(self).wf(),
            result is Ok <==> old(self)@.admin is Some,
            match result {
                Ok(event) => {
                    &&& final(self)@ == old(self)@.after_set_verifier(verifier@, info)
                    &&& event == (VerifierSet { verifier: verifier, info: info })
                },
                Err(e) => e == Error::NotInitialized && final(self)@ == old(self)@,
            },
    {
        if self.admin.is_none() {
            return Err(Error::NotInitialized);
        }
        let ghost s0 = self@;
        let is_new = !self.verifiers.contains_key(verifier.as_str());
        self.verifiers.insert(verifier.clone(), info.clone());
        if is_new {
            proof {
                assert(!s0.verifier_list.contains(verifier@));
                lemma_push_no_duplicates(s0.verifier_list, verifier@);
            }
            self.verifier_list.push(verifier.clone());
        }
        proof {
            assert(self@.verifier_list =~= if s0.verifiers.contains_key(verifier@) {
                s0.verifier_list
            } else {
                s0.verifier_list.push(verifier@)
            });
            assert forall|v: Seq<char>| #[trigger]
                self@.verifiers.contains_key(v) <==> self@.verifier_list.contains(v) by {
                lemma_push_contains(s0.verifier_list, verifier@, v);
            }
            assert(self@.evidence == s0.evidence);
            assert(self@.records == s0.records);
        }
        let lowest_trust = match self.policy {
            VerificationPolicy::LowestTrust => true,
            _ => false,
        };
        if lowest_trust && !info.active {
            self.recompute_lowest(&verifier);
        }
        Ok(VerifierSet { verifier, info })
    }

    /// The state change and result of `revoke`, authorization aside.
    #[verifier::spinoff_prover]
    fn apply_revoke(
        &mut self,
        revoked_by: Address,
        contract_id: Address,
        reason: String,
        now: u64,
    ) -> (result: Result<Revoke, Error>)
        requires
            old(self).wf(),
        ensures
            final(self).wf(),
            result is Ok <==> (old(self)@.may_revoke(revoked_by@) && old(self)@.revocation_base(
                revoked_by@,
                contract_id@,
            ) is Some),
            match result {
                Ok(event) => {
                    &&& final(self)@ == old(self)@.after_revoke(revoked_by@, contract_id@, now)
                    &&& event == (Revoke {
                        contract: contract_id,
                        revoked_by: revoked_by,
                        reason: reason,
                    })
                },
                Err(e) => {
                    &&& final(self)@ == old(self)@
                    &&& !old(self)@.may_revoke(revoked_by@) ==> e == if old(self)@.admin is None {
                        Error::NotInitialized
                    } else {
                        Error::UnauthorizedVerifier
                    }
                    &&& old(self)@.may_revoke(revoked_by@) ==> e == Error::VerificationNotFound
                },
            },
    {
        if !self.is_active_verifier(&revoked_by) {
            match &self.admin {
                None => {
                    return Err(Error::NotInitialized);
                },
                Some(a) => {
                    if !(*a == revoked_by) {
                        return Err(Error::UnauthorizedVerifier);
                    }
                },
            }
        }
        let ghost s0 = self@;
        let ev: Vec<VerificationRecord> = match self.evidence.get(contract_id.as_str()) {
            Some(e) => copy_records(e),
            None => Vec::new(),
        };
        assert(ev@ == s0.attestations(contract_id@));
        let found = find_slot(&ev, &revoked_by);
        let base: VerificationRecord = match self.records.get(contract_id.as_str()) {
            Some(r) => r.clone(),
            None => match found {
                Some(i) => ev[i].clone(),
                None => {
                    if ev.len() > 0 {
                        ev[0].clone()
                    } else {
                        return Err(Error::VerificationNotFound);
                    }
                },
            },
        };
        assert(s0.revocation_base(revoked_by@, contract_id@) == Some(base));
        let mut downgraded = base;
        downgraded.trust_level = TrustLevel::Failed;
        downgraded.timestamp = now;
        assert(downgraded == failed(base, now));
        self.records.insert(contract_id.clone(), downgraded);
        match found {
            Some(i) => {
                let mut own = ev[i].clone();
                own.trust_level = TrustLevel::Failed;
                own.timestamp = now;
                assert(own == failed(ev@[i as int], now));
                let mut ev2 = ev;
                ev2.set(i, own);
                proof {
                    lemma_update_same_attester(s0.attestations(contract_id@), i as int, own);
                }
                self.evidence.insert(contract_id.clone(), ev2);
            },
            None => {},
        }
        proof {
            assert(self@.evidence =~= s0.after_revoke(revoked_by@, contract_id@, now).evidence);
            assert(self@ == s0.after_revoke(revoked_by@, contract_id@, now));
            assert(s0.evidence.contains_key(contract_id@));
            assert forall|c: Seq<char>| #[trigger]
                self@.evidence.contains_key(c) implies distinct_attesters(self@.evidence[c]) by {
                assert(s0.evidence.contains_key(c));
            }
        }
        Ok(Revoke { contract: contract_id, revoked_by, reason })
    }

    /// The state change and result of `attest`, authorization aside.
    #[verifier::spinoff_prover]
    fn apply_attest(
        &mut self,
        verifier: Address,
        contract_id: Address,
        record: VerificationRecord,
        now: u64,
    ) -> (result: Result<Attest, Error>)
        requires
            old(self).wf(),
        ensures
            final(self).wf(),
            result is Ok <==> old(self)@.is_active(verifier@),
            match result {
                Ok(event) => {
                    &&& final(self)@ == old(self)@.after_attest(
                        contract_id@,
                        stamp(record, verifier, now),
                    )
                    &&& event == (Attest {
                        contract: contract_id,
                        verifier: verifier,
                        record: stamp(record, verifier, now),
                    })
                },
                Err(e) => e == Error::UnauthorizedVerifier && final(self)@ == old(self)@,
            },
    {
        if !self.is_active_verifier(&verifier) {
            return Err(Error::UnauthorizedVerifier);
        }
        let ghost s0 = self@;
        let fresh = !self.evidence.contains_key(contract_id.as_str());
        let mut stamped = record;
        stamped.verifier = verifier.clone();
        stamped.timestamp = now;
        assert(stamped == stamp(record, verifier, now));

        let mut ev: Vec<VerificationRecord> = match self.evidence.get(contract_id.as_str()) {
            Some(e) => copy_records(e),
            None => Vec::new(),
        };
        assert(ev@ == s0.attestations(contract_id@));
        let found = find_slot(&ev, &verifier);
        match found {
            Some(i) => {
                ev.set(i, stamped.clone());
            },
            None => {
                ev.push(stamped.clone());
            },
        }
        assert(ev@ == put_attestation(s0.attestations(contract_id@), stamped));

        match self.policy {
            VerificationPolicy::LastWriteWins => {
                self.records.insert(contract_id.clone(), stamped.clone());
            },
            VerificationPolicy::MinQuorum(n) => {
                let agree = self.count_agreeing(&ev, &stamped.wasm_hash);
                if agree >= n as usize {
                    self.records.insert(contract_id.clone(), stamped.clone());
                } else {
                    match self.first_quorate_index(&ev, n) {
                        Some(i) => {
                            self.records.insert(contract_id.clone(), ev[i].clone());
                        },
                        None => {},
                    }
                }
            },
            VerificationPolicy::LowestTrust => {
                match self.lowest_index(&ev) {
                    Some(i) => {
                        self.records.insert(contract_id.clone(), ev[i].clone());
                    },
                    None => {},
                }
            },
        }
        assert(self.records@ == s0.canonical_after_attest(contract_id@, ev@, stamped));

        let ghost old_ev = s0.attestations(contract_id@);
        proof {
            lemma_put_distinct(old_ev, stamped);
        }
        self.evidence.insert(contract_id.clone(), ev);
        assert(self@.evidence =~= s0.evidence.insert(contract_id@, put_attestation(old_ev, stamped)));
        assert forall|c: Seq<char>| #[trigger]
            self@.evidence.contains_key(c) implies distinct_attesters(self@.evidence[c]) by {
            if c != contract_id@ {
                assert(s0.evidence.contains_key(c));
            }
        }

        let ghost cs0 = address_views(self.contracts@);
        if fresh {
            proof {
                assert(!cs0.contains(contract_id@));
                lemma_push_no_duplicates(cs0, contract_id@);
            }
            self.contracts.push(contract_id.clone());
            assert(address_views(self.contracts@) =~= cs0.push(contract_id@));
        }
        proof {
            assert(self@ == s0.after_attest(contract_id@, stamped));
            assert forall|c: Seq<char>| #[trigger]
                self@.evidence.contains_key(c) <==> address_views(self.contracts@).contains(c) by {
                lemma_push_contains(cs0, contract_id@, c);
            }
        }
        Ok(Attest { contract: contract_id, verifier, record: stamped })
    }
}

} // verus!

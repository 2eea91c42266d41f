use verification_registry::types::same_hash;
use verification_registry::{
    Error, TrustLevel, VerificationPolicy, VerificationRecord, VerificationRegistry, VerifierInfo,
};

fn address(label: &str) -> String {
    let mut s = String::from("C");
    for c in label.chars() {
        s.push(c.to_ascii_uppercase());
    }
    while s.len() < 56 {
        s.push('B');
    }
    s
}

fn info(active: bool) -> VerifierInfo {
    VerifierInfo {
        name: String::from("independent verifier"),
        pubkey: [9u8; 32],
        active,
    }
}

fn record(verifier: &str, hash: u8, level: TrustLevel) -> VerificationRecord {
    VerificationRecord {
        wasm_hash: [hash; 32],
        repo_url: String::from("https://example.org/repo"),
        commit_sha: String::from("0123456789abcdef"),
        trust_level: level,
        verifier: verifier.to_string(),
        sep55_attestation_ref: String::new(),
        timestamp: 7,
        build_image_digest: String::new(),
        toolchain_version: String::new(),
    }
}

/// An initialized registry with active verifiers `v0`, `v1`, ... and the
/// given policy.
fn registry_with(n: usize, policy: VerificationPolicy) -> (VerificationRegistry, String, Vec<String>) {
    let mut reg = VerificationRegistry::new();
    let admin = address("admin");
    reg.init(admin.clone()).result.unwrap();
    let mut vs = Vec::new();
    for i in 0..n {
        let v = address(&format!("v{}", i));
        reg.set_verifier(v.clone(), info(true)).result.unwrap();
        vs.push(v);
    }
    reg.set_policy(policy).result.unwrap();
    (reg, admin, vs)
}

#[test]
fn trust_tiers_and_comparison() {
    assert_eq!(TrustLevel::Failed.tier(), 0);
    assert_eq!(TrustLevel::DeployerSupplied.tier(), 1);
    assert_eq!(TrustLevel::Auditable.tier(), 2);
    assert_eq!(TrustLevel::Trusted.tier(), 3);
    assert!(TrustLevel::Trusted.at_least(&TrustLevel::Auditable));
    assert!(TrustLevel::Auditable.at_least(&TrustLevel::Auditable));
    assert!(!TrustLevel::DeployerSupplied.at_least(&TrustLevel::Auditable));
}

#[test]
fn error_codes_match_the_published_table() {
    assert_eq!(Error::AlreadyInitialized.code(), 1);
    assert_eq!(Error::NotInitialized.code(), 2);
    assert_eq!(Error::UnauthorizedVerifier.code(), 3);
    assert_eq!(Error::VerificationNotFound.code(), 4);
    assert_eq!(Error::InvalidPolicy.code(), 5);
}

#[test]
fn hashes_compare_bytewise() {
    let a = [5u8; 32];
    let mut b = [5u8; 32];
    assert!(same_hash(&a, &b));
    b[31] = 6;
    assert!(!same_hash(&a, &b));
    b[31] = 5;
    b[0] = 0;
    assert!(!same_hash(&a, &b));
}

#[test]
fn fresh_registry_has_defaults() {
    let reg = VerificationRegistry::new();
    assert_eq!(reg.get_policy(), VerificationPolicy::LastWriteWins);
    assert_eq!(reg.get_admin(), Err(Error::NotInitialized));
    assert_eq!(reg.get_verification(address("any")), None);
    assert!(reg.list_verifiers().is_empty());
}

#[test]
fn governance_before_init_is_rejected() {
    let mut reg = VerificationRegistry::new();
    assert_eq!(reg.set_admin(address("x")).result, Err(Error::NotInitialized));
    assert_eq!(
        reg.set_policy(VerificationPolicy::MinQuorum(0)).result,
        Err(Error::NotInitialized)
    );
    assert_eq!(
        reg.revoke(address("x"), address("c"), String::from("r"), 0).result,
        Err(Error::NotInitialized)
    );
    assert_eq!(reg.get_policy(), VerificationPolicy::LastWriteWins);
}

#[test]
fn attestation_touches_only_its_contract() {
    let (mut reg, _admin, vs) = registry_with(1, VerificationPolicy::LastWriteWins);
    let a = address("a");
    let b = address("b");
    reg.attest(vs[0].clone(), a.clone(), record(&vs[0], 1, TrustLevel::Trusted), 10).result
        .unwrap();
    reg.attest(vs[0].clone(), b.clone(), record(&vs[0], 2, TrustLevel::Failed), 20).result
        .unwrap();
    let ra = reg.get_verification(a).unwrap();
    assert_eq!(ra.wasm_hash, [1u8; 32]);
    assert_eq!(ra.timestamp, 10);
    assert_eq!(reg.get_verification(b).unwrap().timestamp, 20);
}

#[test]
fn reattestation_replaces_own_evidence_for_quorum() {
    let (mut reg, _admin, vs) = registry_with(2, VerificationPolicy::MinQuorum(2));
    let c = address("c");
    reg.attest(vs[0].clone(), c.clone(), record(&vs[0], 1, TrustLevel::Trusted), 0).result
        .unwrap();
    // The same verifier changes its mind: its earlier claim no longer counts.
    reg.attest(vs[0].clone(), c.clone(), record(&vs[0], 2, TrustLevel::Trusted), 0).result
        .unwrap();
    reg.attest(vs[1].clone(), c.clone(), record(&vs[1], 1, TrustLevel::Trusted), 0).result
        .unwrap();
    assert_eq!(reg.get_verification(c.clone()), None);
    // Now the second verifier agrees on hash 2.
    reg.attest(vs[1].clone(), c.clone(), record(&vs[1], 2, TrustLevel::Auditable), 5).result
        .unwrap();
    let canonical = reg.get_verification(c).unwrap();
    assert_eq!(canonical.wasm_hash, [2u8; 32]);
    assert_eq!(canonical.verifier, vs[1]);
    assert_eq!(canonical.timestamp, 5);
}

#[test]
fn quorum_counts_only_active_verifiers() {
    let (mut reg, _admin, vs) = registry_with(2, VerificationPolicy::MinQuorum(2));
    let c = address("c");
    reg.attest(vs[0].clone(), c.clone(), record(&vs[0], 1, TrustLevel::Trusted), 0).result
        .unwrap();
    reg.set_verifier(vs[0].clone(), info(false)).result.unwrap();
    reg.attest(vs[1].clone(), c.clone(), record(&vs[1], 1, TrustLevel::Trusted), 0).result
        .unwrap();
    assert_eq!(reg.get_verification(c), None);
}

#[test]
fn lowest_trust_ties_keep_the_earliest_attester() {
    let (mut reg, _admin, vs) = registry_with(3, VerificationPolicy::LowestTrust);
    let c = address("c");
    reg.attest(vs[0].clone(), c.clone(), record(&vs[0], 1, TrustLevel::Auditable), 0).result
        .unwrap();
    reg.attest(vs[1].clone(), c.clone(), record(&vs[1], 1, TrustLevel::DeployerSupplied), 0).result
        .unwrap();
    reg.attest(vs[2].clone(), c.clone(), record(&vs[2], 1, TrustLevel::DeployerSupplied), 0).result
        .unwrap();
    let canonical = reg.get_verification(c).unwrap();
    assert_eq!(canonical.trust_level, TrustLevel::DeployerSupplied);
    assert_eq!(canonical.verifier, vs[1]);
}

#[test]
fn admin_revocation_without_canonical_uses_earliest_attestation() {
    let (mut reg, admin, vs) = registry_with(2, VerificationPolicy::MinQuorum(3));
    let c = address("c");
    reg.attest(vs[1].clone(), c.clone(), record(&vs[1], 4, TrustLevel::Trusted), 1).result
        .unwrap();
    reg.attest(vs[0].clone(), c.clone(), record(&vs[0], 5, TrustLevel::Trusted), 2).result
        .unwrap();
    assert_eq!(reg.get_verification(c.clone()), None);
    reg.revoke(admin, c.clone(), String::from("govact"), 9).result.unwrap();
    let canonical = reg.get_verification(c).unwrap();
    assert_eq!(canonical.trust_level, TrustLevel::Failed);
    assert_eq!(canonical.verifier, vs[1]);
    assert_eq!(canonical.wasm_hash, [4u8; 32]);
    assert_eq!(canonical.timestamp, 9);
}

#[test]
fn revocation_downgrades_revokers_own_evidence() {
    let (mut reg, _admin, vs) = registry_with(2, VerificationPolicy::LowestTrust);
    let c = address("c");
    reg.attest(vs[0].clone(), c.clone(), record(&vs[0], 1, TrustLevel::Trusted), 0).result
        .unwrap();
    reg.attest(vs[1].clone(), c.clone(), record(&vs[1], 1, TrustLevel::Trusted), 0).result
        .unwrap();
    reg.revoke(vs[1].clone(), c.clone(), String::from("imgcompr"), 3).result
        .unwrap();
    // A later attestation recomputes the minimum, which now includes the
    // revoker's downgraded evidence.
    reg.attest(vs[0].clone(), c.clone(), record(&vs[0], 1, TrustLevel::Trusted), 4).result
        .unwrap();
    let canonical = reg.get_verification(c).unwrap();
    assert_eq!(canonical.trust_level, TrustLevel::Failed);
    assert_eq!(canonical.verifier, vs[1]);
}

#[test]
fn rotated_admin_hands_over_revocation() {
    let (mut reg, admin, vs) = registry_with(1, VerificationPolicy::LastWriteWins);
    let c = address("c");
    reg.attest(vs[0].clone(), c.clone(), record(&vs[0], 1, TrustLevel::Trusted), 0).result
        .unwrap();
    let new_admin = address("newadmin");
    reg.set_admin(new_admin.clone()).result.unwrap();
    assert_eq!(
        reg.revoke(admin, c.clone(), String::from("r"), 0).result,
        Err(Error::UnauthorizedVerifier)
    );
    assert!(reg.revoke(new_admin, c, String::from("r"), 0).result.is_ok());
}

#[test]
fn policy_change_does_not_backfill() {
    let (mut reg, _admin, vs) = registry_with(1, VerificationPolicy::LastWriteWins);
    let c = address("c");
    reg.attest(vs[0].clone(), c.clone(), record(&vs[0], 1, TrustLevel::Trusted), 0).result
        .unwrap();
    reg.set_policy(VerificationPolicy::MinQuorum(3)).result.unwrap();
    assert_eq!(
        reg.get_verification(c).unwrap().trust_level,
        TrustLevel::Trusted
    );
}

#[test]
fn deactivating_last_active_attester_keeps_record() {
    let (mut reg, _admin, vs) = registry_with(1, VerificationPolicy::LowestTrust);
    let c = address("c");
    reg.attest(vs[0].clone(), c.clone(), record(&vs[0], 1, TrustLevel::Auditable), 0).result
        .unwrap();
    reg.set_verifier(vs[0].clone(), info(false)).result.unwrap();
    assert_eq!(
        reg.get_verification(c).unwrap().trust_level,
        TrustLevel::Auditable
    );
}

#[test]
fn verifier_history_survives_deactivation_and_reactivation() {
    let (mut reg, _admin, vs) = registry_with(3, VerificationPolicy::LastWriteWins);
    reg.set_verifier(vs[1].clone(), info(false)).result.unwrap();
    reg.set_verifier(vs[1].clone(), info(true)).result.unwrap();
    reg.set_verifier(vs[0].clone(), info(false)).result.unwrap();
    assert_eq!(reg.list_verifiers(), vs);
    assert_eq!(reg.list_active_verifiers(), vec![vs[1].clone(), vs[2].clone()]);
    assert_eq!(reg.get_verifier(vs[0].clone()), Some(info(false)));
}

#[test]
fn snapshot_round_trips_the_whole_state() {
    let (mut reg, admin, vs) = registry_with(3, VerificationPolicy::LowestTrust);
    let c = address("c");
    let d = address("d");
    reg.attest(vs[0].clone(), c.clone(), record(&vs[0], 1, TrustLevel::Trusted), 1).result
        .unwrap();
    reg.attest(vs[2].clone(), c.clone(), record(&vs[2], 1, TrustLevel::Auditable), 2).result
        .unwrap();
    reg.attest(vs[1].clone(), d.clone(), record(&vs[1], 3, TrustLevel::Failed), 3).result
        .unwrap();
    reg.set_verifier(vs[1].clone(), info(false)).result.unwrap();

    let snap = reg.snapshot();
    assert_eq!(snap.admin, Some(admin.clone()));
    assert_eq!(snap.policy, VerificationPolicy::LowestTrust);
    assert_eq!(snap.verifiers.len(), 3);
    assert_eq!(snap.contracts.len(), 2);
    assert_eq!(snap.contracts[0].contract, c);
    assert_eq!(snap.contracts[0].attestations.len(), 2);
    assert_eq!(snap.contracts[0].attestations[1].verifier, vs[2]);

    let back = VerificationRegistry::restore(snap.clone()).unwrap();
    assert_eq!(back.snapshot(), snap);
    assert_eq!(back.get_admin(), Ok(admin));
    assert_eq!(back.get_policy(), VerificationPolicy::LowestTrust);
    assert_eq!(back.get_verification(c), reg.get_verification(address("c")));
    assert_eq!(back.list_active_verifiers(), vec![vs[0].clone(), vs[2].clone()]);
}

#[test]
fn restore_rejects_inconsistent_snapshots() {
    let (mut reg, _admin, vs) = registry_with(2, VerificationPolicy::LastWriteWins);
    let c = address("c");
    reg.attest(vs[0].clone(), c.clone(), record(&vs[0], 1, TrustLevel::Trusted), 1).result
        .unwrap();
    let snap = reg.snapshot();

    let mut twice_listed = snap.clone();
    twice_listed.verifiers.push(twice_listed.verifiers[0].clone());
    assert!(VerificationRegistry::restore(twice_listed).is_none());

    let mut twice_attested = snap.clone();
    twice_attested.contracts.push(twice_attested.contracts[0].clone());
    assert!(VerificationRegistry::restore(twice_attested).is_none());

    let mut same_attester = snap.clone();
    let first = same_attester.contracts[0].attestations[0].clone();
    same_attester.contracts[0].attestations.push(first);
    assert!(VerificationRegistry::restore(same_attester).is_none());

    assert!(VerificationRegistry::restore(snap).is_some());
}

#[test]
fn each_call_names_the_authorization_it_needs() {
    let mut reg = VerificationRegistry::new();
    let admin = address("admin");
    // Before init, governance asks for no authorization (and fails).
    let out = reg.set_verifier(address("v0"), info(true));
    assert_eq!(out.auth, None);
    assert_eq!(out.result, Err(Error::NotInitialized));
    assert_eq!(reg.set_admin(address("x")).auth, None);
    // init needs none.
    let out = reg.init(admin.clone());
    assert_eq!(out.auth, None);
    assert_eq!(out.result, Ok(()));

    let v = address("v0");
    assert_eq!(reg.set_verifier(v.clone(), info(true)).auth, Some(admin.clone()));
    // Even a rejected policy change asks for the admin's authorization first.
    let out = reg.set_policy(VerificationPolicy::MinQuorum(0));
    assert_eq!(out.auth, Some(admin.clone()));
    assert_eq!(out.result, Err(Error::InvalidPolicy));

    // Attesting and revoking always ask the acting address, success or not.
    let c = address("c");
    let stranger = address("stranger");
    let out = reg.attest(stranger.clone(), c.clone(), record(&stranger, 1, TrustLevel::Trusted), 0);
    assert_eq!(out.auth, Some(stranger.clone()));
    assert_eq!(out.result, Err(Error::UnauthorizedVerifier));
    let out = reg.attest(v.clone(), c.clone(), record(&v, 1, TrustLevel::Trusted), 0);
    assert_eq!(out.auth, Some(v.clone()));
    assert!(out.result.is_ok());
    let out = reg.revoke(stranger.clone(), c.clone(), String::from("r"), 0);
    assert_eq!(out.auth, Some(stranger));
    assert_eq!(out.result, Err(Error::UnauthorizedVerifier));
    let out = reg.revoke(v.clone(), c, String::from("r"), 0);
    assert_eq!(out.auth, Some(v));
    assert!(out.result.is_ok());

    // Rotating the admin asks the current admin, not the new one.
    let new_admin = address("newadmin");
    let out = reg.set_admin(new_admin.clone());
    assert_eq!(out.auth, Some(admin));
    assert!(out.result.is_ok());
    assert_eq!(reg.set_policy(VerificationPolicy::LowestTrust).auth, Some(new_admin));
}

#[test]
fn quorum_on_an_earlier_hash_is_published_later() {
    let (mut reg, _admin, vs) = registry_with(3, VerificationPolicy::MinQuorum(2));
    let c = address("c");
    reg.attest(vs[0].clone(), c.clone(), record(&vs[0], 1, TrustLevel::Trusted), 1)
        .result
        .unwrap();
    reg.set_verifier(vs[0].clone(), info(false)).result.unwrap();
    reg.attest(vs[1].clone(), c.clone(), record(&vs[1], 1, TrustLevel::Auditable), 2)
        .result
        .unwrap();
    // Only one active verifier backs hash 1 so far.
    assert_eq!(reg.get_verification(c.clone()), None);
    reg.set_verifier(vs[0].clone(), info(true)).result.unwrap();
    // A third verifier attests another hash; hash 1 now has two active
    // backers and its earliest active attestation is published.
    reg.attest(vs[2].clone(), c.clone(), record(&vs[2], 3, TrustLevel::Trusted), 3)
        .result
        .unwrap();
    let canonical = reg.get_verification(c).unwrap();
    assert_eq!(canonical.wasm_hash, [1u8; 32]);
    assert_eq!(canonical.verifier, vs[0]);
    assert_eq!(canonical.timestamp, 1);
}

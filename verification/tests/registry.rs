use verification_registry::{
    AdminRotated, Attest, Error, PolicyChanged, Revoke, TrustLevel, VerificationPolicy,
    VerificationRecord, VerificationRegistry, VerifierInfo, VerifierSet,
};

struct Setup {
    reg: VerificationRegistry,
    admin: String,
    verifier: String,
}

/// A fresh, distinct address for each label, in strkey shape.
fn address(label: &str) -> String {
    let mut s = String::from("G");
    for c in label.chars() {
        s.push(c.to_ascii_uppercase());
    }
    while s.len() < 56 {
        s.push('A');
    }
    s
}

fn setup() -> Setup {
    let mut reg = VerificationRegistry::new();
    let admin = address("admin");
    reg.init(admin.clone()).result.unwrap();
    let verifier = address("verifier");
    reg.set_verifier(verifier.clone(), verifier_info(true)).result.unwrap();
    Setup { reg, admin, verifier }
}

fn verifier_info(active: bool) -> VerifierInfo {
    VerifierInfo {
        name: String::from("soroban-verify hosted service"),
        pubkey: [7u8; 32],
        active,
    }
}

fn sample_record(verifier: &str) -> VerificationRecord {
    VerificationRecord {
        wasm_hash: [1u8; 32],
        repo_url: String::from("https://github.com/org/project"),
        commit_sha: String::from("abc123def4567890abc123def4567890abc123de"),
        trust_level: TrustLevel::Trusted,
        verifier: verifier.to_string(),
        sep55_attestation_ref: String::from("sep55:run/42"),
        timestamp: 0,
        build_image_digest: String::from(
            "sha256:e3b0c44298fc1c149afbf4c8996fb92427ae41e4649b934ca495991b7852b855",
        ),
        toolchain_version: String::from("stable-1.78.0"),
    }
}

// --- init ---

#[test]
fn init_sets_admin_and_cannot_be_repeated() {
    let mut s = setup();
    assert_eq!(s.reg.get_admin(), Ok(s.admin.clone()));

    let other = address("other");
    assert_eq!(s.reg.init(other).result, Err(Error::AlreadyInitialized));
    assert_eq!(s.reg.get_admin(), Ok(s.admin.clone()));
}

#[test]
fn uninitialized_registry_rejects_governance_calls() {
    let mut reg = VerificationRegistry::new();
    assert_eq!(reg.get_admin(), Err(Error::NotInitialized));
    let verifier = address("verifier");
    assert_eq!(
        reg.set_verifier(verifier, verifier_info(true)).result,
        Err(Error::NotInitialized)
    );
}

// --- attest / get_verification ---

#[test]
fn attest_stores_record_and_stamps_verifier_and_timestamp() {
    let mut s = setup();
    let now = 1_720_000_000u64;

    let subject = address("subject");
    // Malicious input: claims a different verifier and a bogus timestamp.
    let mut record = sample_record(&address("impostor"));
    record.timestamp = 99;

    s.reg
        .attest(s.verifier.clone(), subject.clone(), record.clone(), now).result
        .unwrap();

    let stored = s.reg.get_verification(subject.clone()).unwrap();
    assert_eq!(stored.verifier, s.verifier);
    assert_eq!(stored.timestamp, 1_720_000_000);
    assert_eq!(stored.trust_level, TrustLevel::Trusted);
    assert_eq!(stored.wasm_hash, record.wasm_hash);
    assert_eq!(stored.repo_url, record.repo_url);
    assert_eq!(stored.commit_sha, record.commit_sha);
}

#[test]
fn attest_emits_event() {
    let mut s = setup();
    let subject = address("subject");
    let event = s
        .reg
        .attest(s.verifier.clone(), subject.clone(), sample_record(&s.verifier), 42).result
        .unwrap();

    // What the registry should have stored and emitted after stamping.
    let mut stored = sample_record(&s.verifier);
    stored.timestamp = 42;

    assert_eq!(
        event,
        Attest {
            contract: subject.clone(),
            verifier: s.verifier.clone(),
            record: stored.clone(),
        }
    );
    assert_eq!(s.reg.get_verification(subject), Some(stored));
}

#[test]
fn attest_rejects_unregistered_and_inactive_verifiers() {
    let mut s = setup();
    let subject = address("subject");

    let stranger = address("stranger");
    assert_eq!(
        s.reg
            .attest(stranger.clone(), subject.clone(), sample_record(&stranger), 0).result,
        Err(Error::UnauthorizedVerifier)
    );

    // Deactivated verifiers keep history but lose the ability to attest.
    s.reg
        .set_verifier(s.verifier.clone(), verifier_info(false)).result
        .unwrap();
    assert_eq!(
        s.reg
            .attest(s.verifier.clone(), subject.clone(), sample_record(&s.verifier), 0).result,
        Err(Error::UnauthorizedVerifier)
    );
    assert_eq!(s.reg.get_verification(subject), None);
}

#[test]
fn attest_is_last_write_wins_across_verifiers() {
    let mut s = setup();
    let subject = address("subject");
    s.reg
        .attest(s.verifier.clone(), subject.clone(), sample_record(&s.verifier), 0).result
        .unwrap();

    let second = address("second");
    s.reg.set_verifier(second.clone(), verifier_info(true)).result.unwrap();
    let mut downgraded = sample_record(&second);
    downgraded.trust_level = TrustLevel::Auditable;
    s.reg
        .attest(second.clone(), subject.clone(), downgraded, 0).result
        .unwrap();

    let stored = s.reg.get_verification(subject).unwrap();
    assert_eq!(stored.verifier, second);
    assert_eq!(stored.trust_level, TrustLevel::Auditable);
}

#[test]
fn get_verification_returns_none_when_never_attested() {
    let s = setup();
    let subject = address("subject");
    assert_eq!(s.reg.get_verification(subject), None);
}

// --- revoke ---

#[test]
fn revoke_downgrades_record_but_keeps_provenance() {
    let mut s = setup();
    let subject = address("subject");
    let record = sample_record(&s.verifier);
    s.reg
        .attest(s.verifier.clone(), subject.clone(), record.clone(), 100).result
        .unwrap();

    s.reg
        .revoke(
            s.verifier.clone(),
            subject.clone(),
            String::from("imgcompr"),
            200,
        ).result
        .unwrap();

    // Downstream consumers must see the downgrade, not an absence.
    let stored = s.reg.get_verification(subject).unwrap();
    assert_eq!(stored.trust_level, TrustLevel::Failed);
    assert_eq!(stored.timestamp, 200);
    assert_eq!(stored.repo_url, record.repo_url);
    assert_eq!(stored.commit_sha, record.commit_sha);
    assert_eq!(stored.verifier, s.verifier);
}

#[test]
fn revoke_emits_event_with_reason() {
    let mut s = setup();
    let subject = address("subject");
    s.reg
        .attest(s.verifier.clone(), subject.clone(), sample_record(&s.verifier), 0).result
        .unwrap();
    let event = s
        .reg
        .revoke(
            s.verifier.clone(),
            subject.clone(),
            String::from("imgcompr"),
            0,
        ).result
        .unwrap();

    assert_eq!(
        event,
        Revoke {
            contract: subject,
            revoked_by: s.verifier.clone(),
            reason: String::from("imgcompr"),
        }
    );
}

#[test]
fn admin_can_revoke() {
    let mut s = setup();
    let subject = address("subject");
    s.reg
        .attest(s.verifier.clone(), subject.clone(), sample_record(&s.verifier), 0).result
        .unwrap();

    s.reg
        .revoke(s.admin.clone(), subject.clone(), String::from("govact"), 0).result
        .unwrap();
    assert_eq!(
        s.reg.get_verification(subject).unwrap().trust_level,
        TrustLevel::Failed
    );
}

#[test]
fn revoke_rejects_strangers_and_missing_records() {
    let mut s = setup();
    let subject = address("subject");
    s.reg
        .attest(s.verifier.clone(), subject.clone(), sample_record(&s.verifier), 0).result
        .unwrap();

    let stranger = address("stranger");
    assert_eq!(
        s.reg
            .revoke(stranger, subject.clone(), String::from("nope"), 0).result,
        Err(Error::UnauthorizedVerifier)
    );

    let never_attested = address("neverattested");
    assert_eq!(
        s.reg
            .revoke(s.verifier.clone(), never_attested, String::from("nope"), 0).result,
        Err(Error::VerificationNotFound)
    );
}

// --- governance ---

#[test]
fn set_verifier_requires_admin_auth() {
    let mut s = setup();
    let new_verifier = address("newverifier");
    let out = s.reg.set_verifier(new_verifier.clone(), verifier_info(true));

    // The authorization the call demands is the admin's.
    assert_eq!(out.auth, Some(s.admin.clone()));
    let event = out.result.unwrap();
    assert_eq!(
        event,
        VerifierSet {
            verifier: new_verifier.clone(),
            info: verifier_info(true),
        }
    );

    assert_eq!(
        s.reg.get_verifier(new_verifier),
        Some(verifier_info(true))
    );
    assert_eq!(s.reg.get_verifier(address("unknown")), None);
}

#[test]
fn set_admin_rotates_governance() {
    let mut s = setup();
    let new_admin = address("newadmin");
    let event = s.reg.set_admin(new_admin.clone()).result.unwrap();
    assert_eq!(
        event,
        AdminRotated {
            new_admin: new_admin.clone()
        }
    );
    assert_eq!(s.reg.get_admin(), Ok(new_admin));

    // Old admin is no longer authorized to revoke as admin.
    let subject = address("subject");
    s.reg
        .attest(s.verifier.clone(), subject.clone(), sample_record(&s.verifier), 0).result
        .unwrap();
    assert_eq!(
        s.reg
            .revoke(s.admin.clone(), subject, String::from("nope"), 0).result,
        Err(Error::UnauthorizedVerifier)
    );
}

// --- bump_ttl (permissionless TTL refresh) ---

#[test]
fn bump_ttl_succeeds_on_existing_record() {
    let mut s = setup();
    let subject = address("subject");
    s.reg
        .attest(s.verifier.clone(), subject.clone(), sample_record(&s.verifier), 0).result
        .unwrap();

    // Permissionless: the call demands no authorization.
    let out = s.reg.bump_ttl(subject.clone());
    assert_eq!(out.auth, None);
    assert_eq!(out.result, Ok(()));

    // The verification record is still there afterwards.
    assert!(s.reg.get_verification(subject).is_some());
}

#[test]
fn bump_ttl_fails_on_missing_record() {
    let s = setup();
    let never_attested = address("neverattested");
    assert_eq!(
        s.reg.bump_ttl(never_attested).result,
        Err(Error::VerificationNotFound)
    );
}

#[test]
fn bump_verifier_ttl_succeeds_on_existing_verifier() {
    let s = setup();
    // Permissionless: the call demands no authorization.
    let out = s.reg.bump_verifier_ttl(s.verifier.clone());
    assert_eq!(out.auth, None);
    assert_eq!(out.result, Ok(()));
    assert!(s.reg.get_verifier(s.verifier.clone()).is_some());
}

#[test]
fn bump_verifier_ttl_fails_on_missing_verifier() {
    let s = setup();
    let ghost = address("ghost");
    let out = s.reg.bump_verifier_ttl(ghost);
    assert_eq!(out.auth, None);
    assert_eq!(out.result, Err(Error::UnauthorizedVerifier));
}

// --- trust levels ---

#[test]
fn trust_levels_are_ordered_for_composability() {
    // A lending protocol can require `trust_level >= Auditable`.
    assert!(TrustLevel::Trusted > TrustLevel::Auditable);
    assert!(TrustLevel::Auditable > TrustLevel::DeployerSupplied);
    assert!(TrustLevel::DeployerSupplied > TrustLevel::Failed);
    assert!(TrustLevel::Auditable >= TrustLevel::Auditable);
}

// --- VerificationPolicy ---

#[test]
fn policy_defaults_to_last_write_wins() {
    let s = setup();
    assert_eq!(s.reg.get_policy(), VerificationPolicy::LastWriteWins);
}

#[test]
fn set_policy_records_admin_auth_and_updates_get_policy() {
    let mut s = setup();
    let out = s.reg.set_policy(VerificationPolicy::MinQuorum(3));

    // The authorization the call demands is the admin's.
    assert_eq!(out.auth, Some(s.admin.clone()));
    out.result.unwrap();

    assert_eq!(s.reg.get_policy(), VerificationPolicy::MinQuorum(3));
}

#[test]
fn set_policy_rejects_zero_quorum() {
    let mut s = setup();
    assert_eq!(
        s.reg.set_policy(VerificationPolicy::MinQuorum(0)).result,
        Err(Error::InvalidPolicy)
    );
    // Policy unchanged after the rejected call.
    assert_eq!(s.reg.get_policy(), VerificationPolicy::LastWriteWins);
}

#[test]
fn set_policy_emits_policy_changed_event() {
    let mut s = setup();
    let event = s.reg.set_policy(VerificationPolicy::LowestTrust).result.unwrap();
    assert_eq!(
        event,
        PolicyChanged {
            new_policy: VerificationPolicy::LowestTrust
        }
    );
}

#[test]
fn min_quorum_waits_for_n_agreements() {
    let mut s = setup();
    s.reg.set_policy(VerificationPolicy::MinQuorum(2)).result.unwrap();

    let subject = address("subject");

    // One verifier attests with wasm_hash=1: not enough for n=2.
    s.reg
        .attest(s.verifier.clone(), subject.clone(), sample_record(&s.verifier), 0).result
        .unwrap();
    assert_eq!(s.reg.get_verification(subject.clone()), None);

    // Second active verifier attests with the same wasm_hash (1), with a
    // different trust level and repository.
    let second = address("second");
    s.reg.set_verifier(second.clone(), verifier_info(true)).result.unwrap();
    let mut second_record = sample_record(&second);
    second_record.repo_url = String::from("https://github.com/other/project");
    second_record.trust_level = TrustLevel::Auditable;
    s.reg
        .attest(second.clone(), subject.clone(), second_record.clone(), 0).result
        .unwrap();

    let canonical = s.reg.get_verification(subject).unwrap();
    assert_eq!(canonical.wasm_hash, second_record.wasm_hash);
    // The canonical record is one of the agreeing attestations.
    assert_eq!(canonical.trust_level, TrustLevel::Auditable);
    assert_eq!(canonical.verifier, second);
}

#[test]
fn min_quorum_does_not_publish_when_verifiers_disagree() {
    let mut s = setup();
    s.reg.set_policy(VerificationPolicy::MinQuorum(2)).result.unwrap();

    let subject = address("subject");

    s.reg
        .attest(s.verifier.clone(), subject.clone(), sample_record(&s.verifier), 0).result
        .unwrap();

    let second = address("second");
    s.reg.set_verifier(second.clone(), verifier_info(true)).result.unwrap();
    let mut disagreeing = sample_record(&second);
    disagreeing.wasm_hash = [2u8; 32];
    s.reg
        .attest(second, subject.clone(), disagreeing, 0).result
        .unwrap();

    // One verifier per hash: no quorum, no canonical record.
    assert_eq!(s.reg.get_verification(subject), None);
}

#[test]
fn lowest_trust_picks_min_trust_across_active_verifiers() {
    let mut s = setup();
    s.reg.set_policy(VerificationPolicy::LowestTrust).result.unwrap();

    let subject = address("subject");

    // Verifier 1 attests Trusted.
    s.reg
        .attest(s.verifier.clone(), subject.clone(), sample_record(&s.verifier), 0).result
        .unwrap();
    let canonical = s.reg.get_verification(subject.clone()).unwrap();
    assert_eq!(canonical.trust_level, TrustLevel::Trusted);

    // Verifier 2 attests Failed: the canonical record flips to it.
    let second = address("second");
    s.reg.set_verifier(second.clone(), verifier_info(true)).result.unwrap();
    let mut low_record = sample_record(&second);
    low_record.trust_level = TrustLevel::Failed;
    s.reg
        .attest(second.clone(), subject.clone(), low_record, 0).result
        .unwrap();

    let canonical = s.reg.get_verification(subject.clone()).unwrap();
    assert_eq!(canonical.trust_level, TrustLevel::Failed);
    assert_eq!(canonical.verifier, second);

    // Verifier 3 attests Auditable: the minimum stays at Failed.
    let third = address("third");
    s.reg.set_verifier(third.clone(), verifier_info(true)).result.unwrap();
    let mut mid_record = sample_record(&third);
    mid_record.trust_level = TrustLevel::Auditable;
    s.reg
        .attest(third, subject.clone(), mid_record, 0).result
        .unwrap();

    let canonical = s.reg.get_verification(subject).unwrap();
    assert_eq!(canonical.trust_level, TrustLevel::Failed);
}

#[test]
fn revoke_forces_canonical_to_failed_across_policies() {
    let mut s = setup();
    // Even under MinQuorum, revocation must be a safety hatch.
    s.reg.set_policy(VerificationPolicy::MinQuorum(3)).result.unwrap();
    let subject = address("subject");
    s.reg
        .attest(s.verifier.clone(), subject.clone(), sample_record(&s.verifier), 0).result
        .unwrap();
    // No canonical record yet (one verifier, far from n=3).
    s.reg
        .revoke(
            s.verifier.clone(),
            subject.clone(),
            String::from("imgcompr"),
            0,
        ).result
        .unwrap();

    let canonical = s.reg.get_verification(subject).unwrap();
    assert_eq!(canonical.trust_level, TrustLevel::Failed);
    // Repo URL / commit are preserved (provenance).
    assert_eq!(
        canonical.repo_url,
        String::from("https://github.com/org/project")
    );
}

#[test]
fn set_verifier_deactivation_recomputes_lowest_trust() {
    let mut s = setup();
    s.reg.set_policy(VerificationPolicy::LowestTrust).result.unwrap();
    let subject = address("subject");

    s.reg
        .attest(s.verifier.clone(), subject.clone(), sample_record(&s.verifier), 0).result
        .unwrap();
    let second = address("second");
    s.reg.set_verifier(second.clone(), verifier_info(true)).result.unwrap();
    let mut low_record = sample_record(&second);
    low_record.trust_level = TrustLevel::Failed;
    low_record.wasm_hash = [3u8; 32];
    s.reg
        .attest(second.clone(), subject.clone(), low_record, 0).result
        .unwrap();
    // Canonical is Failed (the floor).
    assert_eq!(
        s.reg.get_verification(subject.clone()).unwrap().trust_level,
        TrustLevel::Failed
    );

    // Deactivate the verifier attesting at Failed: the canonical record is
    // recomputed over the remaining attesters (Trusted).
    s.reg
        .set_verifier(second, verifier_info(false)).result
        .unwrap();
    let canonical = s.reg.get_verification(subject).unwrap();
    assert_eq!(canonical.trust_level, TrustLevel::Trusted);
    assert_eq!(canonical.verifier, s.verifier);
}

// --- verifier enumeration ---

#[test]
fn list_verifiers_returns_all_registered_verifiers() {
    let mut s = setup();

    // `setup` already registered `s.verifier`.
    let all = s.reg.list_verifiers();
    assert_eq!(all.len(), 1);
    assert_eq!(all[0], s.verifier);

    let second = address("second");
    s.reg.set_verifier(second.clone(), verifier_info(true)).result.unwrap();
    let third = address("third");
    s.reg.set_verifier(third.clone(), verifier_info(false)).result.unwrap();

    let all = s.reg.list_verifiers();
    assert_eq!(all.len(), 3);
    assert_eq!(all[0], s.verifier);
    assert_eq!(all[1], second);
    assert_eq!(all[2], third);
}

#[test]
fn list_verifiers_does_not_duplicate_on_reregister() {
    let mut s = setup();

    // Re-register the same verifier (e.g. update its info).
    s.reg
        .set_verifier(s.verifier.clone(), verifier_info(true)).result
        .unwrap();

    let all = s.reg.list_verifiers();
    assert_eq!(all.len(), 1);
    assert_eq!(all[0], s.verifier);
}

#[test]
fn list_active_verifiers_returns_only_active() {
    let mut s = setup();

    let active = s.reg.list_active_verifiers();
    assert_eq!(active.len(), 1);

    let second = address("second");
    s.reg.set_verifier(second.clone(), verifier_info(true)).result.unwrap();
    let active = s.reg.list_active_verifiers();
    assert_eq!(active.len(), 2);

    // Deactivate the first verifier.
    s.reg
        .set_verifier(s.verifier.clone(), verifier_info(false)).result
        .unwrap();
    let active = s.reg.list_active_verifiers();
    assert_eq!(active.len(), 1);
    assert_eq!(active[0], second);

    // `list_verifiers` still returns both (history preserved).
    let all = s.reg.list_verifiers();
    assert_eq!(all.len(), 2);
}

#[test]
fn list_verifiers_empty_before_any_registration() {
    let mut reg = VerificationRegistry::new();
    let admin = address("admin");
    reg.init(admin).result.unwrap();

    assert_eq!(reg.list_verifiers().len(), 0);
    assert_eq!(reg.list_active_verifiers().len(), 0);
}

#[test]
fn set_verifier_deactivation_is_noop_under_last_write_wins() {
    let mut s = setup();
    let subject = address("subject");
    s.reg
        .attest(s.verifier.clone(), subject.clone(), sample_record(&s.verifier), 0).result
        .unwrap();
    let prior = s.reg.get_verification(subject.clone()).unwrap();

    // Deactivate. Under LastWriteWins the canonical record must not change.
    s.reg
        .set_verifier(s.verifier.clone(), verifier_info(false)).result
        .unwrap();
    let after = s.reg.get_verification(subject).unwrap();
    assert_eq!(prior.trust_level, after.trust_level);
    assert_eq!(prior.wasm_hash, after.wasm_hash);
}

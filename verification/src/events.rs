use vstd::prelude::*;

use crate::types::{Address, VerificationPolicy, VerificationRecord, VerifierInfo};

verus! {

/// Emitted when a verifier publishes or overwrites a verification record.
#[derive(Clone, Debug, PartialEq, Eq)]
pub struct Attest {
    pub contract: Address,
    pub verifier: Address,
    pub record: VerificationRecord,
}

/// Emitted when a verification is revoked; `reason` is a machine-readable code.
#[derive(Clone, Debug, PartialEq, Eq)]
pub struct Revoke {
    pub contract: Address,
    pub revoked_by: Address,
    pub reason: String,
}

/// Emitted when governance adds, updates, or deactivates a verifier.
#[derive(Clone, Debug, PartialEq, Eq)]
pub struct VerifierSet {
    pub verifier: Address,
    pub info: VerifierInfo,
}

/// Emitted when the admin address is rotated.
#[derive(Clone, Debug, PartialEq, Eq)]
pub struct AdminRotated {
    pub new_admin: Address,
}

/// Emitted when governance updates the verification policy.
#[derive(Clone, Copy, Debug, PartialEq, Eq)]
pub struct PolicyChanged {
    pub new_policy: VerificationPolicy,
}

} // verus!

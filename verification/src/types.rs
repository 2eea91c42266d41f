use vstd::prelude::*;

verus! {

/// A Soroban address (account or contract), carried by its strkey text.
/// The registry only ever compares addresses for equality.
pub type Address = String;

/// Multi-dimensional trust level assigned to a verification result.
///
/// Ordered so that comparison is meaningful for downstream consumers:
/// a lending protocol can require `trust_level >= TrustLevel::Auditable`.
#[derive(Clone, Copy, Debug, PartialEq, Eq, Structural, PartialOrd, Ord, Hash)]
pub enum TrustLevel {
    /// Rebuild failed, bytes mismatched, or the verification was revoked.
    Failed,
    /// Reproduced, but inside an arbitrary deployer-supplied image.
    DeployerSupplied,
    /// Reproduced inside a publicly auditable, pinned image.
    Auditable,
    /// Reproduced inside an allowlisted trusted image.
    Trusted,
}

impl TrustLevel {
    /// The tier's position in the ordering (its on-chain number).
    pub open spec fn rank(self) -> nat {
        match self {
            TrustLevel::Failed => 0,
            TrustLevel::DeployerSupplied => 1,
            TrustLevel::Auditable => 2,
            TrustLevel::Trusted => 3,
        }
    }

    /// The tier's position in the ordering: 0 for `Failed` up to 3 for `Trusted`.
    pub fn tier(&self) -> (r: u32)
        ensures
            r == self.rank(),
    {
        match self {
            TrustLevel::Failed => 0,
            TrustLevel::DeployerSupplied => 1,
            TrustLevel::Auditable => 2,
            TrustLevel::Trusted => 3,
        }
    }

    /// Whether this tier is at least as trusted as `other`.
    pub fn at_least(&self, other: &TrustLevel) -> (r: bool)
        ensures
            r == (self.rank() >= other.rank()),
    {
        self.tier() >= other.tier()
    }
}

/// A verification claim attested by a registered verifier.
#[derive(Debug, PartialEq, Eq)]
pub struct VerificationRecord {
    /// SHA-256 hash of the on-chain Wasm the rebuild was compared against.
    pub wasm_hash: [u8; 32],
    /// Source repository the contract claims to be built from.
    pub repo_url: String,
    /// Exact commit the rebuild was performed at.
    pub commit_sha: String,
    /// Trust tier of the build environment.
    pub trust_level: TrustLevel,
    /// The verifier that attested this record; stamped by the registry.
    pub verifier: Address,
    /// Reference to a signed CI attestation, or the empty string.
    pub sep55_attestation_ref: String,
    /// Ledger timestamp of the attestation; stamped by the registry.
    pub timestamp: u64,
    /// Digest of the build image (empty for legacy records).
    pub build_image_digest: String,
    /// Toolchain version used for the build (empty for legacy records).
    pub toolchain_version: String,
}

impl Clone for VerificationRecord {
    fn clone(&self) -> (r: Self)
        ensures
            r == *self,
    {
        VerificationRecord {
            wasm_hash: self.wasm_hash,
            repo_url: self.repo_url.clone(),
            commit_sha: self.commit_sha.clone(),
            trust_level: self.trust_level,
            verifier: self.verifier.clone(),
            sep55_attestation_ref: self.sep55_attestation_ref.clone(),
            timestamp: self.timestamp,
            build_image_digest: self.build_image_digest.clone(),
            toolchain_version: self.toolchain_version.clone(),
        }
    }
}

/// Metadata about a registered verifier.
#[derive(Debug, PartialEq, Eq)]
pub struct VerifierInfo {
    /// Human-readable operator name.
    pub name: String,
    /// Ed25519 public key the verifier signs off-chain artifacts with.
    pub pubkey: [u8; 32],
    /// Inactive verifiers keep their history but can no longer attest or revoke.
    pub active: bool,
}

impl Clone for VerifierInfo {
    fn clone(&self) -> (r: Self)
        ensures
            r == *self,
    {
        VerifierInfo { name: self.name.clone(), pubkey: self.pubkey, active: self.active }
    }
}

/// Conflict-resolution policy for the canonical record of a contract.
#[derive(Clone, Copy, Debug, PartialEq, Eq, Structural)]
pub enum VerificationPolicy {
    /// (default) The most recent attestation wins.
    LastWriteWins,
    /// The canonical record is published only once at least `n` active
    /// verifiers have attested to the same `wasm_hash`.
    MinQuorum(u32),
    /// The canonical record carries the lowest trust level among the
    /// attestations of currently active verifiers.
    LowestTrust,
}

/// Errors of the registry.
#[derive(Clone, Copy, Debug, PartialEq, Eq, Structural)]
pub enum Error {
    /// `init` has already been called.
    AlreadyInitialized,
    /// `init` has not been called yet.
    NotInitialized,
    /// Caller is not a registered, active verifier (or the admin, where allowed).
    UnauthorizedVerifier,
    /// No verification record exists for the given contract.
    VerificationNotFound,
    /// A zero quorum would never publish and is rejected.
    InvalidPolicy,
}

impl Error {
    /// The error's on-chain code (1 to 5).
    pub fn code(&self) -> (r: u32)
        ensures
            r == match *self {
                Error::AlreadyInitialized => 1u32,
                Error::NotInitialized => 2u32,
                Error::UnauthorizedVerifier => 3u32,
                Error::VerificationNotFound => 4u32,
                Error::InvalidPolicy => 5u32,
            },
    {
        match self {
            Error::AlreadyInitialized => 1,
            Error::NotInitialized => 2,
            Error::UnauthorizedVerifier => 3,
            Error::VerificationNotFound => 4,
            Error::InvalidPolicy => 5,
        }
    }
}

/// What an operation that may change the registry asks of its caller and
/// gives back: the address whose authorization the call needs, and the
/// call's result.
///
/// When `auth` is `Some(a)`, the call stands only with `a`'s authorization:
/// the host environment must demand it (and abort the whole call, leaving
/// every stored value and event as it was, when it is refused) before the
/// new state is kept or the returned event is published. `None` means the
/// call needs no authorization.
#[derive(Debug, PartialEq, Eq)]
pub struct Outcome<T> {
    pub auth: Option<Address>,
    pub result: Result<T, Error>,
}

/// Whether two 32-byte hashes are equal.
pub fn same_hash(a: &[u8; 32], b: &[u8; 32]) -> (r: bool)
    ensures
        r == (a@ == b@),
{
    let mut i: usize = 0;
    while i < 32
        invariant
            0 <= i <= 32,
            a@.len() == 32,
            b@.len() == 32,
            forall|j: int| 0 <= j < i ==> a@[j] == b@[j],
        decreases 32 - i,
    {
        if a[i] != b[i] {
            return false;
        }
        i = i + 1;
    }
    assert(a@ =~= b@);
    true
}

} // verus!

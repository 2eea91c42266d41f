//! On-chain registry of contract verification results, as a verified
//! state machine.
//!
//! A registered, active verifier attests that a deployed contract was
//! rebuilt from a given source commit; governance (the admin) registers
//! and deactivates verifiers and picks the policy by which per-verifier
//! attestations become the canonical record that anyone can read.

pub mod events;
pub mod laws;
pub mod registry;
pub mod snapshot;
pub mod types;

pub use registry::{RegistryState, VerificationRegistry};
pub use events::{AdminRotated, Attest, PolicyChanged, Revoke, VerifierSet};

pub use types::{Address, Error, Outcome, TrustLevel, VerificationPolicy, VerificationRecord, VerifierInfo};

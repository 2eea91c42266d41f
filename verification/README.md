# verification_registry

A registry of contract verification results (which Wasm hash was rebuilt
from which source commit, at which trust tier), written as a Verus library
whose behaviour is proved against a small state-machine model.

- `src/types.rs`: trust levels, records, verifier metadata, policies, errors.
- `src/events.rs`: the events each state change reports.
- `src/registry.rs`: the abstract state `RegistryState`, its transitions
  (`after_attest`, `after_revoke`, `after_set_verifier`, ...), and the
  executable `VerificationRegistry` whose operations are proved to follow them.
  Every operation that may change the registry returns an `Outcome`: the
  address whose authorization the call needs (the verifier for `attest`,
  the revoker for `revoke`, the current admin for governance calls, none for
  `init` and the lifetime checks) together with its result.
- `src/snapshot.rs`: a plain-valued copy of the whole state, used to persist
  the registry; `snapshot` and `restore` are proved to agree with the model.
- `src/laws.rs`: properties spanning operations (read-back under
  last-write-wins, quorum gating for any hash, lowest-trust minimality,
  revocation visibility, verifier history, and that every stored record
  names a registered verifier and a time no later than the ledger time).
- `app/`: the Soroban contract around the library: it demands the
  authorization each `Outcome` names, reads the ledger time, loads and
  writes the storage entries a call touches, and publishes the events.

# infinity_ledger

A verified core for the Infinity Ledger: the deterministic parts of its
routing, proof, storage, configuration and audit subsystems, written in
Verus and proved against their specifications.

- `src/` is the library.  Every function in it is checked by Verus; the
  few calls into `sha2`, `hmac`, `chrono` and std's Unicode tables sit
  behind trusted wrappers whose contracts are stated where they are
  declared.
- `tests/` runs the library on concrete values.
- `app/` is ordinary Rust around the library: file, environment and S3
  access, JSON and YAML parsing, serde and thiserror forms of the
  library's types, and the floating-point numerics (the Solve-Coagula
  operators, vector scoring of the index providers and memory backends,
  spiral snapshots, Proof-of-Resonance checks and crystal invariants).

Modules of the library:

- permutation spaces and routes: `permutation`, `s7_space`, `s7`,
  `routing`, `route_candidates`, `topology`, `schemas`, `solvecoagula`;
- membership proofs: `hashing`, `merkle`, `order`, `proof_registry`,
  `metadata`;
- vector collections: `index_book`, `providers`, `index_status`,
  `metadata_tree`, `memory`, `manifest`;
- snapshots and crystals: `identity`, `spiral_storage`, `tic_gating`,
  `gate`, `gate_event`, `s3_adapter`;
- blueprints: `specs` (structural validation), `blueprint` (the model read
  from a document);
- `audit`: the bookkeeping of security audits;
- `text`: decimal rendering, splitting and comparison of texts.

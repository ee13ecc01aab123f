//! Verified core of the infinity ledger: deterministic permutation spaces,
//! Merkle membership proofs, storage key layout, configuration checks and
//! the bookkeeping rules of the memory and audit subsystems.

pub mod audit;
pub mod blueprint;
pub mod gate;
pub mod gate_event;
pub mod hashing;
pub mod identity;
pub mod index_book;
pub mod index_status;
pub mod manifest;
pub mod memory;
pub mod metadata;
pub mod metadata_tree;
pub mod merkle;
pub mod order;
pub mod permutation;
pub mod proof_registry;
pub mod providers;
pub mod route_candidates;
pub mod routing;
pub mod s3_adapter;
pub mod schemas;
pub mod s7;
pub mod s7_space;
pub mod solvecoagula;
pub mod specs;
pub mod spiral_storage;
pub mod text;
pub mod tic_gating;
pub mod topology;

//! Verification core of a shielded-pool ledger: field arithmetic, a sponge
//! hash, append-only Merkle accumulators, a nullifier registry, a PLONK-style
//! proof-check preparation, and the withdrawal gate that ties them together.
pub mod field;
pub mod hash;
pub mod merkle;
pub mod registry;
pub mod snark;
pub mod gate;

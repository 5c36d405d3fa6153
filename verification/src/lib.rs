//! Mutator-side runtime support for cooperating with a precise, moving
//! garbage collector.
//!
//! The library covers the pieces of that cooperation that carry real
//! invariants: the NaN-boxed tagged-value encoding, the object header and
//! format protocol the collector walks (scan, skip, forward, is-forwarded,
//! pad), the root-table and scratch-handle mechanisms that keep references
//! visible to the collector, the reference-counted pause coordination used
//! around collection, and a fixed-unit manual pool. The collector itself is
//! an external native collaborator; everything here is the mutator's half of
//! the contract, stated over plain machine words.

pub mod clamp;
pub mod errors;
pub mod fmt;
pub mod handle;
pub mod nanbox;
pub mod pool;
pub mod root;
pub mod scratch;

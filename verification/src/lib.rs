//! Verification of SPHINCS+ signatures instantiated with the SM3 hash
//! function (128-bit, fast parameter set, robust tree hashing).
//!
//! The crate rebuilds the Merkle-style authentication structure of a
//! signature bottom-up — FORS forest, WOTS+ chains, hypertree layers —
//! and compares the recovered root to the root embedded in the public
//! key.  Every executable function carries a contract that pins its
//! result to a mathematical model of the scheme, so verification is a
//! pure, deterministic function of its byte inputs.

pub mod address;
pub mod api;
pub mod context;
pub mod fors;
pub mod hash;
pub mod laws;
pub mod params;
pub mod sign;
pub mod sm3;
pub mod thash_robust;
pub mod thash_simple;
pub mod utils;
pub mod wots;

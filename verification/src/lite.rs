//! Verification of a single commit against validator sets that the caller
//! supplies through traits of its own.

pub mod types;
pub mod verification;

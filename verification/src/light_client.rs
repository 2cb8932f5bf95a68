//! The light client core: data model, operations, predicates and components.

pub mod client;
pub mod commit_validator;
pub mod errors;
pub mod fork_detector;
pub mod hasher;
pub mod io;
pub mod laws;
pub mod predicates;
pub mod scheduler;
pub mod signature;
pub mod store;
pub mod supervisor;
pub mod types;
pub mod verdict;
pub mod vote;
pub mod voting_power;

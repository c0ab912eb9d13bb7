//! Destination adapters: the shared naming and path-rewriting rules, and one
//! module per backend family.

pub mod aws;
pub mod git;
pub mod localhost;
pub mod remote;
pub mod ssh;

//! A declarative backup daemon's verified core: cadence parsing, backup
//! pipeline planning, artifact naming, path rewriting, and retention rules.

pub mod backup;
pub mod config;
pub mod cronspec;
pub mod paths;
pub mod pipeline;
pub mod probe;
pub mod remotes;
pub mod retention;
pub mod services;
pub mod text;
pub mod timestamp;

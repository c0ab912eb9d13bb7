//! Source adapters: the dump handle they share, and one module per source
//! family.

pub mod docker;
pub mod folders;
pub mod lister;
pub mod postgresql;
pub mod service;

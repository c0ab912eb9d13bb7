//! Filesystem probes: the few questions the adapters ask the local disk at
//! construction time. Their answers depend on the machine's state, so no
//! contract ties them to their arguments.

use vstd::prelude::*;

verus! {

/// Relies on `std::path::Path::exists`: whether the path points at an
/// existing entity. The answer depends on the disk, so nothing is promised
/// of it.
#[verifier::external_body]
pub fn fs_exists(path: &str) -> bool {
    std::path::Path::new(path).exists()
}

/// Relies on `std::path::Path::is_dir`: whether the path points at an
/// existing directory. The answer depends on the disk, so nothing is
/// promised of it.
#[verifier::external_body]
pub fn fs_is_dir(path: &str) -> bool {
    std::path::Path::new(path).is_dir()
}

/// Relies on `std::path::Path::is_file`: whether the path points at an
/// existing regular file. The answer depends on the disk, so nothing is
/// promised of it.
#[verifier::external_body]
pub fn fs_is_file(path: &str) -> bool {
    std::path::Path::new(path).is_file()
}

} // verus!

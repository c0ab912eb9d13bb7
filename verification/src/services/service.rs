//! The dump handle: a source's scoped on-disk artifact for one pipeline
//! tick.

use vstd::prelude::*;

verus! {

/// A scoped acquisition of the artifact a source produced for one tick. The
/// pipeline owns it for exactly that tick and emits its release — deleting
/// the file at the carried path, when one is set — on every path back to
/// idle, success or failure alike.
pub struct Dump {
    pub path: Option<String>,
}

} // verus!

//! A thing that can enumerate local artifact paths.

use vstd::prelude::*;

verus! {

/// Enumerates the absolute local paths a source currently offers.
pub trait Lister {
    fn list(&self) -> Vec<String>;
}

} // verus!

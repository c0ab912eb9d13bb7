//! The crate's view of the outside cron library: its schedule and error
//! types, and the one call the scheduler relies on.

use vstd::prelude::*;

verus! {

#[verifier::external_type_specification]
#[verifier::external_body]
pub struct ExSchedule(cron::Schedule);

/// Whether the cron library accepts a given expression text — a function of
/// the text alone.
pub uninterp spec fn cron_accepts(s: Seq<char>) -> bool;

/// Relies on `cron::Schedule::from_str`: parsing is deterministic in the
/// expression text, so it succeeds exactly on the texts the library accepts.
/// A rejection comes back as the library's error message.
#[verifier::external_body]
pub fn cron_schedule_from_str(s: &str) -> (r: Result<cron::Schedule, String>)
    ensures
        r.is_ok() == cron_accepts(s@),
{
    <cron::Schedule as core::str::FromStr>::from_str(s).map_err(|e| format!("{}", e))
}

} // verus!

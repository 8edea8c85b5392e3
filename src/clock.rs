//! The wall clock.
use vstd::prelude::*;

verus! {

/// Relies on time::get_time: the current time; its whole seconds since the epoch.
#[verifier::external_body]
pub(crate) fn now_secs() -> (r: i64) {
    time::get_time().sec
}

} // verus!

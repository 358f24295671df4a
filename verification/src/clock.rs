//! The wall clock.

use vstd::prelude::*;

verus! {

/// Reads the system clock with `chrono::Local::now` and gives the moment as
/// whole seconds since the Unix epoch, which `chrono::DateTime::timestamp`
/// computes. Nothing is claimed about the number: two readings may show any
/// two moments. chrono does not return where the system clock is set before
/// the epoch.
#[verifier::external_body]
pub(crate) fn now_seconds() -> i64 {
    chrono::Local::now().timestamp()
}

} // verus!

//! Clock access, reduced to whole seconds since the Unix epoch.

use vstd::prelude::*;

verus! {

/// A source of the current time, in whole seconds since the Unix epoch.
///
/// The codec takes the clock as a parameter so that callers (and tests) can
/// fix the instant a token is issued at.
pub trait TimeProvider {
    fn now(&self) -> u64;
}

/// Relies on chrono's `Utc::now` and `DateTime::timestamp`: seconds since
/// the Unix epoch, possibly negative for a clock set before it.
#[verifier::external_body]
fn utc_now_secs() -> i64 {
    chrono::Utc::now().timestamp()
}

/// The platform clock.
pub struct RealTime;

impl TimeProvider for RealTime {
    /// The current time, clamped to zero if the platform clock reads before
    /// the epoch.
    fn now(&self) -> u64 {
        let t = utc_now_secs();
        if t < 0 {
            0
        } else {
            t as u64
        }
    }
}

/// The instant the fixed test clock reads: 2015-03-15 12:00:00 UTC.
pub const MOCK_TIME_EPOCH_SECONDS: u64 = 1426420800;

/// A clock frozen at [`MOCK_TIME_EPOCH_SECONDS`], for tests.
pub struct MockTime;

impl TimeProvider for MockTime {
    fn now(&self) -> (t: u64)
        ensures
            t == MOCK_TIME_EPOCH_SECONDS,
    {
        1426420800
    }
}

} // verus!

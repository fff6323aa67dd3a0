//! Transient notifications shown in the status bar.

use std::time::Duration;
use std::time::Instant;
use vstd::prelude::*;

verus! {

#[verifier::external_type_specification]
#[verifier::external_body]
pub struct ExInstant(Instant);

/// Relies on `Instant::now`: the current moment, of which nothing is known here.
pub assume_specification[ Instant::now ]() -> Instant;

/// Relies on `Instant::elapsed`: the time since the instant; it depends on the clock.
pub assume_specification[ Instant::elapsed ](i: &Instant) -> Duration;

/// Relies on `Instant`'s `Clone`: `Instant` is `Copy`, so a clone is the same moment.
pub assume_specification[ <Instant as Clone>::clone ](i: &Instant) -> (r: Instant)
    ensures
        r == *i,
;

/// Relies on `Duration::as_nanos`: the whole duration in nanoseconds.
pub assume_specification[ Duration::as_nanos ](d: &Duration) -> u128;

/// A notification with the moment it was shown.
#[derive(Debug, Clone)]
pub struct FlashMessage {
    pub text: String,
    pub is_error: bool,
    pub shown_at: Instant,
}

impl FlashMessage {
    /// A success notification shown now.
    pub fn success(text: &str) -> (r: FlashMessage)
        ensures
            r.text@ == text@,
            !r.is_error,
    {
        FlashMessage { text: String::from_str(text), is_error: false, shown_at: Instant::now() }
    }

    /// An error notification shown now.
    pub fn error(text: &str) -> (r: FlashMessage)
        ensures
            r.text@ == text@,
            r.is_error,
    {
        FlashMessage { text: String::from_str(text), is_error: true, shown_at: Instant::now() }
    }

    /// Whether at least `timeout` has passed since the message was shown.
    pub fn is_expired(&self, timeout: Duration) -> (r: bool) {
        let elapsed = self.shown_at.elapsed();
        expired_after(elapsed.as_nanos(), timeout.as_nanos())
    }
}

/// Whether a message shown `elapsed_ns` ago has outlived `timeout_ns`.
pub fn expired_after(elapsed_ns: u128, timeout_ns: u128) -> (r: bool)
    ensures
        r == (elapsed_ns >= timeout_ns),
{
    elapsed_ns >= timeout_ns
}

} // verus!

use core::time::Duration;
use std::time::Instant;

use vstd::prelude::*;

verus! {

/// A point on the monotonic clock.
#[verifier::external_type_specification]
#[verifier::external_body]
pub struct ExInstant(Instant);

/// `Duration::from_millis`: a span of `ms` milliseconds.
#[verifier::external_body]
pub(crate) fn millis(ms: u64) -> Duration {
    Duration::from_millis(ms)
}

/// `Instant::now`: the current reading of the monotonic clock.
#[verifier::external_body]
pub(crate) fn now() -> Instant {
    Instant::now()
}

/// `Instant::checked_add`: the instant `span` after `start`, or `None` when
/// the clock cannot represent it.
#[verifier::external_body]
pub(crate) fn checked_after(start: Instant, span: Duration) -> Option<Instant> {
    start.checked_add(span)
}

/// `Instant::saturating_duration_since`: the time from `earlier` to
/// `deadline`, zero once `earlier` is past it.
#[verifier::external_body]
pub(crate) fn remaining(deadline: Instant, earlier: Instant) -> Duration {
    deadline.saturating_duration_since(earlier)
}

/// `Duration::is_zero`.
#[verifier::external_body]
pub(crate) fn is_zero(span: Duration) -> bool {
    span.is_zero()
}

} // verus!

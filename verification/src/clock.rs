//! The monotonic clock of `std::time`, as far as an entry needs it.
//!
//! Nothing here is proved. What a clock shows cannot be known ahead of
//! time, so none of these items promises anything about what it returns;
//! the functions that read the clock hand the reading on to functions
//! that are verified for every reading.

use std::time::Duration;
use std::time::Instant;
use vstd::prelude::*;

verus! {

/// `std::time::Instant`: a reading of the monotonic clock. Its contents
/// are hidden; an entry keeps one as the origin of its own time scale.
#[verifier::external_type_specification]
#[verifier::external_body]
pub struct ExInstant(std::time::Instant);

/// `Instant::now` reads the monotonic clock. Nothing is claimed of the
/// reading.
pub assume_specification[ Instant::now ]() -> (now: Instant);

/// `Instant::elapsed` gives the time that has passed since `origin` was
/// read off the clock. Nothing is claimed of the span.
pub assume_specification[ Instant::elapsed ](origin: &Instant) -> (span: Duration);

/// `Duration::as_nanos` gives a span as a count of whole nanoseconds.
/// Nothing is claimed of the count beyond its type.
pub assume_specification[ Duration::as_nanos ](span: &Duration) -> (nanos: u128);

} // verus!

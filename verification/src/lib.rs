//! Probabilistic early expiration of cached values (XFetch).
//!
//! When many workers share a cached value and all of them recompute it at
//! the instant it goes stale, the source that the cache protects is hit by
//! a stampede. XFetch lets each worker decide on its own, with a chance
//! that rises as the deadline comes nearer, to treat the value as stale a
//! little early, so that the recomputations spread out in time.
//!
//! A worker draws a number `r` from `(0, 1]` and works out a *horizon*,
//! `cost * beta * -ln(r)`: a span of time scaled by what the value cost to
//! compute and by a tuning factor. The entry counts as expired if the
//! clock, pushed forward by the horizon, has reached the deadline:
//!
//! ```text
//! expired  <=>  now + horizon >= expiry
//! ```
//!
//! The draw and the product are floating-point work and are left to the
//! caller. This crate holds what can be decided on whole numbers:
//!
//! - [`entry`]: the entry, its builder and the decision;
//! - [`horizon`]: the arithmetic of deadlines and horizons;
//! - [`single`]: the step from the product, given as the bits of a
//!   single-precision number, to a horizon in milliseconds;
//! - [`clock`]: what is taken on trust about `std::time`.
//!
//! All times are whole nanoseconds on the entry's own clock, which starts
//! when the computation of its value starts; horizons are whole
//! milliseconds.

pub mod clock;
pub mod entry;
pub mod horizon;
pub mod single;

pub use entry::CacheEntry;
pub use entry::CacheEntryBuilder;
pub use entry::Settings;
pub use entry::DEFAULT_BETA;
pub use horizon::NANOS_PER_MILLI;
pub use horizon::UNBOUNDED_HORIZON;

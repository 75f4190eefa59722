//! The arithmetic of the expiration decision, on plain numbers.

use crate::single::lemma_rounded_ends;
use crate::single::rounded;
use crate::single::INFINITY;
use vstd::prelude::*;

verus! {

/// Nanoseconds in one millisecond.
pub const NANOS_PER_MILLI: u128 = 1_000_000;

/// The horizon that stands for an unbounded one. A draw so close to zero
/// that the horizon no longer fits in a `u64` is reported as this value,
/// and every entry that can expire at all is expired under it.
pub const UNBOUNDED_HORIZON: u64 = 0xffff_ffff_ffff_ffff;

/// The deadline of a value that was given `ttl` nanoseconds to live when
/// the clock stood at `now`: `now + ttl`, held at the largest instant the
/// clock can show.
pub open spec fn deadline(now: u128, ttl: u128) -> u128 {
    if now + ttl <= u128::MAX {
        (now + ttl) as u128
    } else {
        u128::MAX
    }
}

/// Whether the clock, standing at `now` nanoseconds and pushed forward by
/// `horizon` milliseconds, has reached `expiry`.
pub open spec fn reaches(now: u128, horizon: u64, expiry: u128) -> bool {
    horizon == UNBOUNDED_HORIZON || now + horizon * NANOS_PER_MILLI >= expiry
}

/// Computes [`deadline`].
pub fn deadline_of(now: u128, ttl: u128) -> (at: u128)
    ensures
        at == deadline(now, ttl),
{
    now.saturating_add(ttl)
}

/// Computes [`reaches`].
pub fn horizon_reaches(now: u128, horizon: u64, expiry: u128) -> (reached: bool)
    ensures
        reached == reaches(now, horizon, expiry),
{
    if horizon == UNBOUNDED_HORIZON {
        return true;
    }
    let push: u128 = (horizon as u128) * NANOS_PER_MILLI;
    match now.checked_add(push) {
        Some(pushed) => pushed >= expiry,
        None => true,
    }
}

/// A product of positive infinity rounds to the unbounded horizon.
pub proof fn lemma_infinity_is_unbounded()
    ensures
        rounded(INFINITY) == UNBOUNDED_HORIZON,
{
    lemma_rounded_ends(INFINITY);
}

/// A value is expired at the very instant it is stored exactly if the
/// horizon covers its whole time to live. The instant is taken early
/// enough for the deadline to lie on the clock.
pub proof fn lemma_expired_at_once(now: u128, ttl: u128, horizon: u64)
    requires
        now + ttl <= u128::MAX,
    ensures
        reaches(now, horizon, deadline(now, ttl)) <==> (horizon == UNBOUNDED_HORIZON || horizon
            * NANOS_PER_MILLI >= ttl),
{
}

} // verus!

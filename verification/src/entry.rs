//! The cache entry and its builder.

use crate::horizon::deadline;
use crate::horizon::deadline_of;
use crate::horizon::horizon_reaches;
use crate::horizon::reaches;
use crate::horizon::NANOS_PER_MILLI;
use crate::horizon::UNBOUNDED_HORIZON;
use crate::single::is_infinite;
use crate::single::is_nan;
use crate::single::is_negative;
use crate::single::le;
use crate::single::lemma_rounded_ordered;
use crate::single::magnitude;
use crate::single::round;
use crate::single::rounded;
use std::time::Instant;
use vstd::arithmetic::power2::lemma2_to64;
use vstd::arithmetic::power2::lemma_pow2_adds;
use vstd::arithmetic::power2::pow2;
use vstd::prelude::*;

verus! {

/// The tuning factor that a new builder starts with: `1.0`, written as the
/// bits of an IEEE 754 single-precision number.
pub const DEFAULT_BETA: u32 = 0x3f80_0000;

/// [`DEFAULT_BETA`] is the number one: positive, finite, and `2^149` of the
/// units of `2^-149` that [`magnitude`] counts in.
pub proof fn lemma_default_beta_is_one()
    ensures
        !is_negative(DEFAULT_BETA),
        !is_nan(DEFAULT_BETA),
        !is_infinite(DEFAULT_BETA),
        magnitude(DEFAULT_BETA) == pow2(149),
{
    lemma2_to64();
    lemma_pow2_adds(23, 126);
}

/// What a builder has gathered and an entry holds: the mathematical view
/// of both.
pub ghost struct Settings<T> {
    /// The cached payload.
    pub value: T,
    /// What the payload cost to compute, in nanoseconds.
    pub delta: u128,
    /// The tuning factor, as the bits of an IEEE 754 single-precision
    /// number. Above `1.0` it favours earlier recomputation, below `1.0`
    /// later.
    pub beta: u32,
    /// The clock reading that all instants of this entry are counted from.
    pub origin: Instant,
    /// The deadline, in nanoseconds after `origin`; `None` for an entry
    /// that never expires.
    pub expiry: Option<u128>,
}

impl<T> Settings<T> {
    /// An entry without a deadline never expires.
    pub open spec fn eternal(self) -> bool {
        self.expiry is None
    }

    /// The expiration decision: whether an entry with these settings counts
    /// as expired when its clock stands at `now` nanoseconds and the drawn
    /// horizon is `horizon` milliseconds.
    pub open spec fn expired_at(self, now: u128, horizon: u64) -> bool {
        match self.expiry {
            Some(expiry) => reaches(now, horizon, expiry),
            None => false,
        }
    }
}

/// Gathers the parameters of a [`CacheEntry`].
pub struct CacheEntryBuilder<T> {
    value: T,
    delta: u128,
    beta: u32,
    origin: Instant,
    expiry: Option<u128>,
}

impl<T> View for CacheEntryBuilder<T> {
    type V = Settings<T>;

    closed spec fn view(&self) -> Settings<T> {
        Settings {
            value: self.value,
            delta: self.delta,
            beta: self.beta,
            origin: self.origin,
            expiry: self.expiry,
        }
    }
}

impl<T> CacheEntryBuilder<T> {
    /// Sets the tuning factor, given as the bits of an IEEE 754
    /// single-precision number.
    ///
    /// A factor above `1.0` favours earlier recomputation, one below `1.0`
    /// later. The factor is stored as it comes; nothing is checked. A
    /// factor that is negative or no number is put up with: the products
    /// it leads to round to a horizon of zero, so that the entry expires
    /// at its deadline and not before.
    pub fn with_beta(self, beta: u32) -> (next: CacheEntryBuilder<T>)
        ensures
            next@ == (Settings { beta, ..self@ }),
    {
        CacheEntryBuilder { beta, ..self }
    }

    /// Sets the recomputation cost to the nanoseconds that `f` returns for
    /// the payload.
    ///
    /// Use this where the time that the computation took under
    /// [`CacheEntry::new`] is not what a recomputation costs.
    pub fn with_delta<F: FnOnce(&T) -> u128>(self, f: F) -> (next: CacheEntryBuilder<T>)
        requires
            f.requires((&self@.value,)),
        ensures
            f.ensures((&self@.value,), next@.delta),
            next@ == (Settings { delta: next@.delta, ..self@ }),
    {
        let delta: u128 = f(&self.value);
        CacheEntryBuilder { delta, ..self }
    }

    /// Gives the entry the nanoseconds to live that `f` returns for the
    /// payload, counted from the moment of this call.
    ///
    /// The clock is read first, then `f` is called. For every reading
    /// `now` the result is that of [`Self::with_ttl_at`] on `now` and what
    /// `f` returned.
    pub fn with_ttl<F: FnOnce(&T) -> u128>(self, f: F) -> (next: CacheEntryBuilder<T>)
        requires
            f.requires((&self@.value,)),
        ensures
            exists|now: u128, ttl: u128|
                f.ensures((&self@.value,), ttl) && next@ == (Settings {
                    expiry: Some(#[trigger] deadline(now, ttl)),
                    ..self@
                }),
    {
        let now: u128 = self.origin.elapsed().as_nanos();
        let ttl: u128 = f(&self.value);
        self.with_ttl_at(now, ttl)
    }

    /// Gives the entry `ttl` nanoseconds to live, counted from the instant
    /// `now` on the entry's clock.
    pub fn with_ttl_at(self, now: u128, ttl: u128) -> (next: CacheEntryBuilder<T>)
        ensures
            next@ == (Settings { expiry: Some(deadline(now, ttl)), ..self@ }),
    {
        CacheEntryBuilder { expiry: Some(deadline_of(now, ttl)), ..self }
    }

    /// Finishes the entry. Every setting is handed over as it stands.
    pub fn build(self) -> (entry: CacheEntry<T>)
        ensures
            entry@ == self@,
    {
        CacheEntry {
            value: self.value,
            delta: self.delta,
            beta: self.beta,
            origin: self.origin,
            expiry: self.expiry,
        }
    }
}

/// A cached value that may report itself expired before its deadline.
///
/// An entry does not change once it is built. To refresh a value, build a
/// new entry and put it in the place of the old one.
pub struct CacheEntry<T> {
    value: T,
    delta: u128,
    beta: u32,
    origin: Instant,
    expiry: Option<u128>,
}

impl<T> View for CacheEntry<T> {
    type V = Settings<T>;

    closed spec fn view(&self) -> Settings<T> {
        Settings {
            value: self.value,
            delta: self.delta,
            beta: self.beta,
            origin: self.origin,
            expiry: self.expiry,
        }
    }
}

impl<T: Clone> Clone for CacheEntry<T> {
    /// Clones the payload and keeps every other setting.
    fn clone(&self) -> (copy: CacheEntry<T>)
        ensures
            cloned::<T>(self@.value, copy@.value),
            copy@ == (Settings { value: copy@.value, ..self@ }),
    {
        CacheEntry {
            value: self.value.clone(),
            delta: self.delta,
            beta: self.beta,
            origin: self.origin,
            expiry: self.expiry,
        }
    }
}

impl<T: Copy> Copy for CacheEntry<T> {

}

impl<T> CacheEntry<T> {
    /// Starts a builder around the payload that `f` computes.
    ///
    /// The clock is read before and after the call of `f`; the time between
    /// the two readings becomes the recomputation cost, and the first
    /// reading the origin of the entry's clock. The tuning factor starts
    /// at [`DEFAULT_BETA`], and there is no deadline yet.
    pub fn new<F: FnOnce() -> T>(f: F) -> (builder: CacheEntryBuilder<T>)
        requires
            f.requires(()),
        ensures
            f.ensures((), builder@.value),
            builder@.beta == DEFAULT_BETA,
            builder@.expiry is None,
    {
        let origin = Instant::now();
        let value = f();
        let delta: u128 = origin.elapsed().as_nanos();
        CacheEntryBuilder { value, delta, beta: DEFAULT_BETA, origin, expiry: None }
    }

    /// Decides whether the entry counts as expired now, drawing a horizon
    /// with `draw` if one is needed.
    ///
    /// An entry without a deadline is not expired, and nothing is drawn for
    /// it. Otherwise `draw` is called once, with the recomputation cost in
    /// whole milliseconds and the tuning factor. It is to draw a number `r`
    /// from `(0, 1]` and to return the product `cost * factor * -ln(r)`, as
    /// the bits of a single-precision number. The product is rounded to a
    /// horizon by [`round`], and the answer is that of
    /// [`Self::is_expired`] under this horizon.
    pub fn is_expired_with_rng<D: FnOnce(u128, u32) -> u32>(&self, draw: D) -> (expired: bool)
        requires
            !self@.eternal() ==> draw.requires((self@.delta / NANOS_PER_MILLI, self@.beta)),
        ensures
            self@.eternal() ==> !expired,
            !self@.eternal() ==> exists|product: u32, now: u128|
                draw.ensures((self@.delta / NANOS_PER_MILLI, self@.beta), product) && expired
                    == #[trigger] self@.expired_at(now, rounded(product)),
    {
        match self.expiry {
            Some(_) => {
                let product: u32 = draw(self.delta_millis(), self.beta);
                let horizon: u64 = round(product);
                let expired = self.is_expired(horizon);
                proof {
                    let now = choose|now: u128| expired == #[trigger] self@.expired_at(now, horizon);
                    assert(expired == self@.expired_at(now, rounded(product)));
                }
                expired
            },
            None => false,
        }
    }

    /// Decides whether the entry counts as expired now, under a drawn
    /// horizon of `horizon` milliseconds.
    ///
    /// An entry without a deadline is not expired, and the clock is not
    /// read. Otherwise the clock is read once, and the answer is that of
    /// [`Self::is_expired_at`] for the reading.
    pub fn is_expired(&self, horizon: u64) -> (expired: bool)
        ensures
            exists|now: u128| expired == #[trigger] self@.expired_at(now, horizon),
            self@.eternal() ==> !expired,
            !self@.eternal() && horizon == UNBOUNDED_HORIZON ==> expired,
    {
        match self.expiry {
            Some(_) => {
                let now: u128 = self.origin.elapsed().as_nanos();
                self.is_expired_at(now, horizon)
            },
            None => {
                assert(!self@.expired_at(0, horizon));
                false
            },
        }
    }

    /// Decides whether the entry counts as expired when its clock stands at
    /// `now` nanoseconds, under a drawn horizon of `horizon` milliseconds.
    pub fn is_expired_at(&self, now: u128, horizon: u64) -> (expired: bool)
        ensures
            expired == self@.expired_at(now, horizon),
    {
        match self.expiry {
            Some(expiry) => horizon_reaches(now, horizon, expiry),
            None => false,
        }
    }

    /// Whether the entry never expires, which is so when it was built
    /// without a time to live.
    pub fn is_eternal(&self) -> (eternal: bool)
        ensures
            eternal == self@.eternal(),
    {
        self.expiry.is_none()
    }

    /// The payload.
    pub fn get(&self) -> (value: &T)
        ensures
            *value == self@.value,
    {
        &self.value
    }

    /// Takes the payload out of the entry.
    pub fn into_inner(self) -> (value: T)
        ensures
            value == self@.value,
    {
        self.value
    }

    /// The recomputation cost, in nanoseconds.
    pub fn delta(&self) -> (delta: u128)
        ensures
            delta == self@.delta,
    {
        self.delta
    }

    /// The recomputation cost in whole milliseconds, what is left over
    /// dropped.
    pub fn delta_millis(&self) -> (millis: u128)
        ensures
            millis == self@.delta / NANOS_PER_MILLI,
    {
        self.delta / NANOS_PER_MILLI
    }

    /// The tuning factor, as the bits of an IEEE 754 single-precision
    /// number.
    pub fn beta(&self) -> (beta: u32)
        ensures
            beta == self@.beta,
    {
        self.beta
    }

    /// The deadline, in nanoseconds on the entry's clock; `None` for an
    /// entry that never expires.
    pub fn expiry(&self) -> (expiry: Option<u128>)
        ensures
            expiry == self@.expiry,
    {
        self.expiry
    }
}

/// An entry without a deadline is eternal, and it is not expired at any
/// instant under any horizon.
pub proof fn lemma_eternal_never_expires<T>(entry: CacheEntry<T>, now: u128, horizon: u64)
    requires
        entry@.expiry is None,
    ensures
        entry@.eternal(),
        !entry@.expired_at(now, horizon),
{
}

/// Under a horizon of zero an entry is expired from its deadline on, and
/// not before.
pub proof fn lemma_zero_horizon_keeps_deadline<T>(entry: CacheEntry<T>, now: u128)
    ensures
        entry@.expired_at(now, 0) <==> (entry@.expiry matches Some(expiry) && now >= expiry),
{
}

/// Under an unbounded horizon an entry with a deadline is expired at every
/// instant, however far off the deadline is.
pub proof fn lemma_unbounded_horizon_expires<T>(entry: CacheEntry<T>, now: u128)
    requires
        entry@.expiry is Some,
    ensures
        entry@.expired_at(now, UNBOUNDED_HORIZON),
{
}

/// An entry that is expired stays expired when the horizon grows or the
/// clock moves on.
pub proof fn lemma_expired_stays_expired<T>(
    entry: CacheEntry<T>,
    now: u128,
    later: u128,
    horizon: u64,
    longer: u64,
)
    requires
        now <= later,
        horizon <= longer,
        entry@.expired_at(now, horizon),
    ensures
        entry@.expired_at(later, longer),
{
}

/// With the instant held, a larger product never turns an expired entry
/// into one that is not: the larger product rounds to a horizon that is
/// at least as long.
pub proof fn lemma_larger_product_stays_expired<T>(
    entry: CacheEntry<T>,
    now: u128,
    product: u32,
    larger: u32,
)
    requires
        le(product, larger),
        entry@.expired_at(now, rounded(product)),
    ensures
        rounded(product) <= rounded(larger),
        entry@.expired_at(now, rounded(larger)),
{
    lemma_rounded_ordered(product, larger);
    lemma_expired_stays_expired(entry, now, now, rounded(product), rounded(larger));
}

/// An entry that was built without a time to live is eternal, and no draw
/// and no horizon makes it expired. The factor and the cost may have been
/// set on the way; neither gives the entry a deadline.
pub proof fn lemma_built_without_ttl_is_eternal<
    T,
    F: FnOnce() -> T,
    G: FnOnce(&T) -> u128,
    D: FnOnce(u128, u32) -> u32,
>(
    f: F,
    started: CacheEntryBuilder<T>,
    beta: u32,
    tuned: CacheEntryBuilder<T>,
    g: G,
    costed: CacheEntryBuilder<T>,
    entry: CacheEntry<T>,
    eternal: bool,
    draw: D,
    drawn: bool,
    horizon: u64,
    expired: bool,
)
    requires
        call_ensures(CacheEntry::<T>::new::<F>, (f,), started),
        call_ensures(CacheEntryBuilder::<T>::with_beta, (started, beta), tuned),
        call_ensures(CacheEntryBuilder::<T>::with_delta::<G>, (tuned, g), costed),
        call_ensures(CacheEntryBuilder::<T>::build, (started,), entry) || call_ensures(
            CacheEntryBuilder::<T>::build,
            (tuned,),
            entry,
        ) || call_ensures(CacheEntryBuilder::<T>::build, (costed,), entry),
        call_ensures(CacheEntry::<T>::is_eternal, (&entry,), eternal),
        call_ensures(CacheEntry::<T>::is_expired_with_rng::<D>, (&entry, draw), drawn),
        call_ensures(CacheEntry::<T>::is_expired, (&entry, horizon), expired),
    ensures
        eternal,
        !drawn,
        !expired,
{
}

/// Looking at the payload and taking it out give the same value, and a
/// decision on expiry in between changes nothing: all three read one and
/// the same entry.
pub proof fn lemma_payload_is_stable<T>(
    entry: CacheEntry<T>,
    seen: &T,
    horizon: u64,
    expired: bool,
    taken: T,
)
    requires
        call_ensures(CacheEntry::<T>::get, (&entry,), seen),
        call_ensures(CacheEntry::<T>::is_expired, (&entry, horizon), expired),
        call_ensures(CacheEntry::<T>::into_inner, (entry,), taken),
    ensures
        *seen == taken,
        taken == entry@.value,
{
}

} // verus!

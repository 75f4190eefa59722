use rand::distributions::OpenClosed01;
use rand::rngs::mock::StepRng;
use rand::Rng;
use rand::RngCore;
use std::time::Duration;
use std::time::Instant;
use xfetch::single;
use xfetch::CacheEntry;
use xfetch::DEFAULT_BETA;
use xfetch::NANOS_PER_MILLI;
use xfetch::UNBOUNDED_HORIZON;

/// Draws once from `rng` and works out the product for the draw.
fn product(cost_millis: u128, factor: u32, rng: &mut dyn RngCore) -> u32 {
    let draw: f32 = rng.sample(OpenClosed01);
    (cost_millis as f32 * f32::from_bits(factor) * -draw.ln()).to_bits()
}

/// Draws once from `rng` and works out the horizon of `entry` for the draw.
fn drawn_horizon<T>(entry: &CacheEntry<T>, rng: &mut dyn RngCore) -> u64 {
    single::round(product(entry.delta_millis(), entry.beta(), rng))
}

fn secs(n: u64) -> u128 {
    Duration::from_secs(n).as_nanos()
}

#[test]
fn test_new_entry() {
    let entry = CacheEntry::new(|| ()).build();
    assert_eq!(*entry.get(), ());
    assert_eq!(entry.into_inner(), ());
    assert!(entry.is_eternal());
    assert_eq!(entry.beta(), DEFAULT_BETA);
    assert_eq!(f32::from_bits(entry.beta()), 1.0);
}

#[test]
fn test_new_entry_with_ttl() {
    let entry = CacheEntry::new(|| ())
        .with_ttl(|_| Duration::from_secs(60).as_nanos())
        .build();
    assert_eq!(*entry.get(), ());
    assert!(entry.expiry().is_some());
    assert!(!entry.is_eternal());
}

#[test]
fn test_new_entry_with_beta() {
    let entry = CacheEntry::new(|| ()).with_beta(0.9f32.to_bits()).build();
    assert_eq!(*entry.get(), ());
    assert_eq!(f32::from_bits(entry.beta()), 0.9);
}

#[test]
fn test_early_expiry() {
    let mut zeros = StepRng::new(0, 0);
    let entry = CacheEntry::new(|| ())
        .with_delta(|_| Duration::from_secs(10).as_nanos())
        .with_ttl(|_| Duration::from_secs(120).as_nanos())
        .build();
    assert!(entry.is_expired_with_rng(|cost, factor| product(cost, factor, &mut zeros)));
}

#[test]
fn test_no_early_expiry() {
    let mut max = StepRng::new(!0, 0);
    let entry = CacheEntry::new(|| ())
        .with_delta(|_| Duration::from_secs(10).as_nanos())
        .with_ttl(|_| Duration::from_secs(120).as_nanos())
        .build();
    assert!(!entry.is_expired_with_rng(|cost, factor| product(cost, factor, &mut max)));
}

#[test]
fn smallest_draw_gives_the_longest_horizon() {
    let mut zeros = StepRng::new(0, 0);
    let entry = CacheEntry::new(|| ())
        .with_delta(|_| secs(10))
        .with_ttl_at(0, secs(120))
        .build();
    // -ln(2^-24) is 16.635532..., so ten seconds of cost push the clock by
    // 166355 milliseconds.
    assert_eq!(drawn_horizon(&entry, &mut zeros), 166_355);
    assert!(entry.is_expired_at(0, 166_355));
}

#[test]
fn largest_draw_gives_no_horizon() {
    let mut max = StepRng::new(!0, 0);
    let entry = CacheEntry::new(|| ())
        .with_delta(|_| secs(10))
        .with_ttl_at(0, secs(120))
        .build();
    assert_eq!(drawn_horizon(&entry, &mut max), 0);
    assert!(!entry.is_expired_at(0, 0));
    assert!(!entry.is_expired_at(secs(120) - 1, 0));
    assert!(entry.is_expired_at(secs(120), 0));
}

#[test]
fn eternal_entry_never_expires() {
    let mut zeros = StepRng::new(0, 0);
    let mut max = StepRng::new(!0, 0);
    let entry = CacheEntry::new(|| 7u8).with_delta(|_| secs(10)).build();
    assert!(entry.is_eternal());
    assert_eq!(entry.expiry(), None);
    let longest = drawn_horizon(&entry, &mut zeros);
    let shortest = drawn_horizon(&entry, &mut max);
    assert!(!entry.is_expired(longest));
    assert!(!entry.is_expired(shortest));
    assert!(!entry.is_expired_with_rng(|cost, factor| product(cost, factor, &mut zeros)));
    assert!(!entry.is_expired_with_rng(|cost, factor| product(cost, factor, &mut max)));
    assert!(!entry.is_expired(UNBOUNDED_HORIZON));
    assert!(!entry.is_expired_at(u128::MAX, UNBOUNDED_HORIZON));
    assert!(!entry.is_expired_at(0, 0));
}

#[test]
fn unbounded_horizon_expires_every_deadline() {
    let entry = CacheEntry::new(|| ()).with_ttl_at(0, u128::MAX).build();
    assert_eq!(entry.expiry(), Some(u128::MAX));
    assert!(entry.is_expired_at(0, UNBOUNDED_HORIZON));
    assert!(entry.is_expired(UNBOUNDED_HORIZON));
    assert!(!entry.is_expired_at(0, UNBOUNDED_HORIZON - 1));
}

#[test]
fn infinite_product_is_an_unbounded_horizon() {
    let entry = CacheEntry::new(|| ())
        .with_delta(|_| secs(10))
        .with_beta(f32::INFINITY.to_bits())
        .with_ttl_at(0, u128::MAX)
        .build();
    let mut zeros = StepRng::new(0, 0);
    let horizon = drawn_horizon(&entry, &mut zeros);
    assert_eq!(horizon, UNBOUNDED_HORIZON);
    assert!(entry.is_expired(horizon));
}

#[test]
fn overridden_beta_is_read_back_and_shortens_the_horizon() {
    let mut zeros = StepRng::new(0, 0);
    let plain = CacheEntry::new(|| ())
        .with_delta(|_| secs(10))
        .with_ttl_at(0, secs(200))
        .build();
    let lazier = CacheEntry::new(|| ())
        .with_delta(|_| secs(10))
        .with_beta(0.9f32.to_bits())
        .with_ttl_at(0, secs(200))
        .build();
    assert_eq!(f32::from_bits(plain.beta()), 1.0);
    assert_eq!(f32::from_bits(lazier.beta()), 0.9);
    let plain_horizon = drawn_horizon(&plain, &mut zeros);
    let lazier_horizon = drawn_horizon(&lazier, &mut zeros);
    assert_eq!(plain_horizon, 166_355);
    assert_eq!(lazier_horizon, 149_720);
    // Between the two horizons only the larger factor reports expiry.
    let now = secs(200) - 150_000 * NANOS_PER_MILLI;
    assert!(plain.is_expired_at(now, plain_horizon));
    assert!(!lazier.is_expired_at(now, lazier_horizon));
    // Where the smaller factor reports expiry, so does the larger.
    let later = secs(200) - 149_720 * NANOS_PER_MILLI;
    assert!(lazier.is_expired_at(later, lazier_horizon));
    assert!(plain.is_expired_at(later, plain_horizon));
}

#[test]
fn longer_horizon_never_revives_an_entry() {
    let entry = CacheEntry::new(|| ()).with_ttl_at(5, 1_000_000_000).build();
    let horizons = [0u64, 1, 999, 1_000, 1_001, 5_000, u64::MAX - 1, u64::MAX];
    let instants = [0u128, 4, 5, 6, 999_999, 1_000_004, 1_000_005, u128::MAX];
    for now in instants {
        let mut seen = false;
        for horizon in horizons {
            let expired = entry.is_expired_at(now, horizon);
            assert!(expired || !seen);
            seen = expired;
        }
    }
    for horizon in horizons {
        let mut seen = false;
        for now in instants {
            let expired = entry.is_expired_at(now, horizon);
            assert!(expired || !seen);
            seen = expired;
        }
    }
}

#[test]
fn expiry_is_decided_to_the_nanosecond() {
    let entry = CacheEntry::new(|| ()).with_ttl_at(7, 1_000_000_000).build();
    assert_eq!(entry.expiry(), Some(1_000_000_007));
    assert!(!entry.is_expired_at(0, 1_000));
    assert!(!entry.is_expired_at(6, 1_000));
    assert!(entry.is_expired_at(7, 1_000));
    assert!(!entry.is_expired_at(1_000_006, 999));
    assert!(entry.is_expired_at(1_000_007, 999));
    assert!(!entry.is_expired_at(1_000_000_006, 0));
    assert!(entry.is_expired_at(1_000_000_007, 0));
}

#[test]
fn pushed_clock_beyond_its_range_counts_as_expired() {
    let entry = CacheEntry::new(|| ()).with_ttl_at(0, u128::MAX).build();
    assert!(!entry.is_expired_at(u128::MAX - 1_000_000, 0));
    assert!(entry.is_expired_at(u128::MAX - 1_000_000, 1));
    assert!(entry.is_expired_at(u128::MAX - 999_999, 1));
    assert!(entry.is_expired_at(u128::MAX, 0));
}

#[test]
fn deadline_is_held_at_the_end_of_the_clock() {
    let entry = CacheEntry::new(|| ()).with_ttl_at(u128::MAX - 3, 4).build();
    assert_eq!(entry.expiry(), Some(u128::MAX));
    let entry = CacheEntry::new(|| ()).with_ttl_at(u128::MAX - 3, 3).build();
    assert_eq!(entry.expiry(), Some(u128::MAX));
    let entry = CacheEntry::new(|| ()).with_ttl_at(u128::MAX - 3, 2).build();
    assert_eq!(entry.expiry(), Some(u128::MAX - 1));
}

#[test]
fn later_ttl_replaces_the_earlier_one() {
    let entry = CacheEntry::new(|| ())
        .with_ttl_at(0, 10)
        .with_ttl_at(100, 10)
        .build();
    assert_eq!(entry.expiry(), Some(110));
}

#[test]
fn ttl_counts_from_the_call() {
    let entry = CacheEntry::new(|| 3u64).with_ttl(|seconds| secs(*seconds)).build();
    let expiry = entry.expiry().unwrap();
    assert!(expiry >= secs(3));
    assert!(expiry < secs(3) + secs(60));
    assert!(!entry.is_expired(0));
    assert!(entry.is_expired(3_000));
}

#[test]
fn cost_defaults_to_the_time_the_value_took() {
    let entry = CacheEntry::new(|| {
        let start = Instant::now();
        while start.elapsed() < Duration::from_millis(20) {}
    })
    .build();
    assert!(entry.delta() >= Duration::from_millis(20).as_nanos());
    assert!(entry.delta_millis() >= 20);
    assert!(entry.delta() < secs(10));
}

#[test]
fn cost_override_sees_the_value() {
    let entry = CacheEntry::new(|| 1_500_000_000u128)
        .with_delta(|cost| *cost + 999_999)
        .build();
    assert_eq!(entry.delta(), 1_500_999_999);
    assert_eq!(entry.delta_millis(), 1_500);
}

#[test]
fn setters_leave_the_other_settings_alone() {
    let entry = CacheEntry::new(|| "payload")
        .with_beta(0x4000_0000)
        .with_delta(|_| 42)
        .with_ttl_at(1, 2)
        .with_beta(0x3f00_0000)
        .build();
    assert_eq!(*entry.get(), "payload");
    assert_eq!(entry.beta(), 0x3f00_0000);
    assert_eq!(entry.delta(), 42);
    assert_eq!(entry.expiry(), Some(3));
}

#[test]
fn payload_survives_expiry_checks() {
    let entry = CacheEntry::new(|| vec![1u8, 2, 3]).with_ttl_at(0, 10).build();
    let before = entry.get().clone();
    for horizon in 0..100u64 {
        entry.is_expired(horizon);
        entry.is_expired_at(horizon as u128, horizon);
    }
    assert_eq!(*entry.get(), before);
    assert_eq!(entry.into_inner(), before);
}

#[test]
fn clone_keeps_every_setting() {
    let entry = CacheEntry::new(|| String::from("x"))
        .with_beta(0x4000_0000)
        .with_delta(|_| 5)
        .with_ttl_at(1, 2)
        .build();
    let copy = entry.clone();
    assert_eq!(copy.get(), entry.get());
    assert_eq!(copy.beta(), entry.beta());
    assert_eq!(copy.delta(), entry.delta());
    assert_eq!(copy.expiry(), entry.expiry());
    assert_eq!(copy.is_expired_at(3, 0), entry.is_expired_at(3, 0));
}

#[test]
fn entry_of_a_copy_type_is_copied() {
    let entry = CacheEntry::new(|| 9u32).with_ttl_at(0, 1).build();
    let copy = entry;
    assert_eq!(*entry.get(), 9);
    assert_eq!(copy.into_inner(), 9);
}

#[test]
fn deadline_already_past_reports_expired() {
    let entry = CacheEntry::new(|| ()).with_ttl_at(0, 0).build();
    assert_eq!(entry.expiry(), Some(0));
    assert!(!entry.is_eternal());
    assert!(entry.is_expired(0));
    assert!(entry.is_expired_at(0, 0));
    let mut max = StepRng::new(!0, 0);
    let horizon = drawn_horizon(&entry, &mut max);
    assert!(entry.is_expired(horizon));
}

#[test]
fn factor_that_is_no_number_gives_no_horizon() {
    let mut zeros = StepRng::new(0, 0);
    let entry = CacheEntry::new(|| ())
        .with_delta(|_| secs(10))
        .with_beta(f32::NAN.to_bits())
        .with_ttl_at(0, secs(120))
        .build();
    let horizon = drawn_horizon(&entry, &mut zeros);
    assert_eq!(horizon, 0);
    assert!(!entry.is_expired_at(secs(120) - 1, horizon));
    assert!(entry.is_expired_at(secs(120), horizon));
}

#[test]
fn negative_factor_gives_no_horizon() {
    let mut zeros = StepRng::new(0, 0);
    let entry = CacheEntry::new(|| ())
        .with_delta(|_| secs(10))
        .with_beta((-1.0f32).to_bits())
        .with_ttl_at(0, secs(120))
        .build();
    let horizon = drawn_horizon(&entry, &mut zeros);
    assert_eq!(horizon, 0);
    assert!(!entry.is_expired_at(secs(120) - 1, horizon));
    assert!(entry.is_expired_at(secs(120), horizon));
}

#[test]
fn cost_of_nothing_gives_no_horizon() {
    let mut zeros = StepRng::new(0, 0);
    let entry = CacheEntry::new(|| ())
        .with_delta(|_| 999_999)
        .with_ttl_at(0, secs(120))
        .build();
    assert_eq!(entry.delta_millis(), 0);
    assert_eq!(drawn_horizon(&entry, &mut zeros), 0);
}

#[test]
fn draws_between_the_ends_give_horizons_between() {
    let entry = CacheEntry::new(|| ())
        .with_delta(|_| secs(10))
        .with_ttl_at(0, secs(120))
        .build();
    // The upper 24 bits of the word decide the draw; half of the range
    // gives a draw just above one half, whose logarithm is about -0.693.
    let mut half = StepRng::new(0x7fff_ffff, 0);
    assert_eq!(drawn_horizon(&entry, &mut half), 6_931);
    let mut words = [0x0000_0000u64, 0x1000_0000, 0x7fff_ffff, 0xf000_0000, 0xffff_ffff];
    let mut last = u64::MAX;
    for word in words.iter_mut() {
        let mut rng = StepRng::new(*word, 0);
        let horizon = drawn_horizon(&entry, &mut rng);
        assert!(horizon <= last);
        last = horizon;
    }
    assert_eq!(last, 0);
}

#[test]
fn nothing_is_drawn_for_an_eternal_entry() {
    let entry = CacheEntry::new(|| ()).build();
    assert!(!entry.is_expired_with_rng(|_, _| panic!("drawn for an entry without a deadline")));
}

#[test]
fn draw_is_asked_with_cost_and_factor() {
    let entry = CacheEntry::new(|| ())
        .with_delta(|_| 2_500_999_999)
        .with_beta(0x4000_0000)
        .with_ttl_at(0, u128::MAX)
        .build();
    let mut asked = None;
    let expired = entry.is_expired_with_rng(|cost, factor| {
        asked = Some((cost, factor));
        single::INFINITY
    });
    assert_eq!(asked, Some((2_500, 0x4000_0000)));
    assert!(expired);
    assert!(!entry.is_expired_with_rng(|_, _| single::ZERO));
    assert!(!entry.is_expired_with_rng(|_, _| f32::NAN.to_bits()));
    assert!(!entry.is_expired_with_rng(|_, _| (-1.0e30f32).to_bits()));
    assert!(entry.is_expired_with_rng(|_, _| f32::MAX.to_bits()));
}

use embassy_core::duration::{gcd_1g, gcd_1k, gcd_1m, Duration};
use embassy_core::math::gcd;

const MHZ: u64 = 1_000_000;
const RTC: u64 = 32_768;

/// Whether `as_millis` may be called: the one product it forms fits.
fn millis_fit(d: Duration, tick_hz: u64) -> bool {
    tick_hz > 0 && d.as_ticks().checked_mul(1_000 / gcd(tick_hz, 1_000)).is_some()
}

/// Whether `from_millis` may be called: the one product it forms fits.
fn from_millis_fits(millis: u64, tick_hz: u64) -> bool {
    millis.checked_mul(tick_hz / gcd(tick_hz, 1_000)).is_some()
}

#[test]
fn ticks_go_in_and_out_unchanged() {
    assert_eq!(Duration::from_ticks(0).as_ticks(), 0);
    assert_eq!(Duration::from_ticks(42).as_ticks(), 42);
    assert_eq!(Duration::from_ticks(u64::MAX).as_ticks(), u64::MAX);
}

#[test]
fn smallest_and_largest() {
    assert_eq!(Duration::min_value().as_ticks(), 0);
    assert_eq!(Duration::max_value().as_ticks(), u64::MAX);
    assert_eq!(Duration::default(), Duration::from_ticks(0));
}

#[test]
fn reduced_factors() {
    assert_eq!(gcd_1k(MHZ), 1_000);
    assert_eq!(gcd_1m(MHZ), 1_000_000);
    assert_eq!(gcd_1g(MHZ), 1_000_000);
    assert_eq!(gcd_1k(RTC), 8);
    assert_eq!(gcd_1m(RTC), 64);
    assert_eq!(gcd_1g(RTC), 512);
    assert_eq!(gcd_1k(0), 1_000);
}

#[test]
fn seconds_at_one_megahertz() {
    assert_eq!(Duration::from_secs(3, MHZ).as_ticks(), 3_000_000);
    assert_eq!(Duration::from_secs_floor(3, MHZ).as_ticks(), 3_000_000);
    assert_eq!(Duration::from_ticks(3_999_999).as_secs(MHZ), 3);
    assert_eq!(Duration::from_ticks(4_000_000).as_secs(MHZ), 4);
}

#[test]
fn millis_at_one_megahertz() {
    assert_eq!(Duration::from_millis(5, MHZ).as_ticks(), 5_000);
    assert_eq!(Duration::from_millis_floor(5, MHZ).as_ticks(), 5_000);
    assert_eq!(Duration::from_ticks(5_999).as_millis(MHZ), 5);
    assert_eq!(Duration::from_ticks(6_000).as_millis(MHZ), 6);
}

#[test]
fn micros_and_nanos_at_one_megahertz() {
    assert_eq!(Duration::from_micros(7, MHZ).as_ticks(), 7);
    assert_eq!(Duration::from_micros_floor(7, MHZ).as_ticks(), 7);
    assert_eq!(Duration::from_ticks(7).as_micros(MHZ), 7);
    assert_eq!(Duration::from_nanos(1_500, MHZ).as_ticks(), 2);
    assert_eq!(Duration::from_nanos(1_000, MHZ).as_ticks(), 1);
    assert_eq!(Duration::from_nanos(1, MHZ).as_ticks(), 1);
    assert_eq!(Duration::from_nanos(0, MHZ).as_ticks(), 0);
}

#[test]
fn constructors_round_up_and_floor_variants_round_down() {
    // 32.768 ticks per millisecond.
    assert_eq!(Duration::from_millis(1, RTC).as_ticks(), 33);
    assert_eq!(Duration::from_millis_floor(1, RTC).as_ticks(), 32);
    assert_eq!(Duration::from_millis(125, RTC).as_ticks(), 4_096);
    assert_eq!(Duration::from_millis_floor(125, RTC).as_ticks(), 4_096);
    // 0.032768 ticks per microsecond.
    assert_eq!(Duration::from_micros(1, RTC).as_ticks(), 1);
    assert_eq!(Duration::from_micros_floor(1, RTC).as_ticks(), 0);
    assert_eq!(Duration::from_micros(31, RTC).as_ticks(), 2);
    assert_eq!(Duration::from_micros_floor(31, RTC).as_ticks(), 1);
    assert_eq!(Duration::from_nanos(1_000_000_000, RTC).as_ticks(), 32_768);
    assert_eq!(Duration::from_nanos(1_000_000_001, RTC).as_ticks(), 32_769);
}

#[test]
fn accessors_round_down() {
    assert_eq!(Duration::from_ticks(33).as_millis(RTC), 1);
    assert_eq!(Duration::from_ticks(32).as_millis(RTC), 0);
    assert_eq!(Duration::from_ticks(4_096).as_millis(RTC), 125);
    assert_eq!(Duration::from_ticks(1).as_micros(RTC), 30);
    assert_eq!(Duration::from_ticks(32_768).as_micros(RTC), 1_000_000);
    assert_eq!(Duration::from_ticks(65_537).as_secs(RTC), 2);
}

#[test]
fn a_tick_rate_of_zero_makes_every_duration_empty() {
    assert_eq!(Duration::from_secs(9, 0).as_ticks(), 0);
    assert_eq!(Duration::from_millis(9, 0).as_ticks(), 0);
    assert_eq!(Duration::from_micros_floor(9, 0).as_ticks(), 0);
    assert_eq!(Duration::try_from_nanos(u64::MAX, 0), Some(Duration::from_ticks(0)));
    assert_eq!(Duration::from_hz(5, 0).as_ticks(), 1);
}

#[test]
fn millis_round_trip_with_at_least_a_tick_per_millisecond() {
    for tick_hz in [1_000u64, 32_768, 1_000_000, 12_345_678, 1_024, 1_001] {
        for x in [0u64, 1, 2, 3, 7, 124, 125, 126, 999, 1_000, 1_001, 86_400_000] {
            assert!(from_millis_fits(x, tick_hz));
            let d = Duration::from_millis(x, tick_hz);
            assert!(millis_fit(d, tick_hz));
            assert_eq!(d.as_millis(tick_hz), x, "x = {x}, tick_hz = {tick_hz}");
        }
    }
}

#[test]
fn millis_round_trip_is_lossy_below_a_tick_per_millisecond() {
    assert_eq!(Duration::from_millis(1, 1).as_ticks(), 1);
    assert_eq!(Duration::from_millis(1, 1).as_millis(1), 1_000);
    assert_eq!(Duration::from_millis(2, 600).as_ticks(), 2);
    assert_eq!(Duration::from_millis(2, 600).as_millis(600), 3);
    // Where the ticks rounded up to end before the next millisecond begins
    // the value comes back even there.
    assert_eq!(Duration::from_millis(1, 600).as_millis(600), 1);
    assert_eq!(Duration::from_millis(5, 600).as_millis(600), 5);
}

#[test]
fn floor_round_trip_needs_a_whole_number_of_ticks() {
    // At 32768 Hz a whole number of ticks is a multiple of 125 ms.
    assert_eq!(Duration::from_millis_floor(125, RTC).as_millis(RTC), 125);
    assert_eq!(Duration::from_millis_floor(250, RTC).as_millis(RTC), 250);
    assert_eq!(Duration::from_millis_floor(1, RTC).as_millis(RTC), 0);
    assert_eq!(Duration::from_millis_floor(126, RTC).as_millis(RTC), 125);
    // At a rate that 1000 divides every millisecond is one.
    for x in [0u64, 1, 2, 999, 123_456] {
        assert_eq!(Duration::from_millis_floor(x, MHZ).as_millis(MHZ), x);
        assert_eq!(Duration::from_millis_floor(x, 1_000).as_millis(1_000), x);
    }
}

#[test]
fn ticks_round_trip_never_grows() {
    for tick_hz in [1u64, 600, 1_000, 32_768, 1_000_000] {
        for t in [0u64, 1, 2, 31, 32, 33, 999, 4_096, 1_000_000] {
            let d = Duration::from_ticks(t);
            assert!(millis_fit(d, tick_hz));
            let millis = d.as_millis(tick_hz);
            assert!(from_millis_fits(millis, tick_hz));
            assert!(Duration::from_millis(millis, tick_hz).as_ticks() <= t);
        }
    }
    assert_eq!(Duration::from_millis(Duration::from_ticks(33).as_millis(RTC), RTC).as_ticks(), 33);
    assert_eq!(Duration::from_millis(Duration::from_ticks(40).as_millis(RTC), RTC).as_ticks(), 33);
}

#[test]
fn try_constructors_agree_with_the_plain_ones() {
    assert_eq!(Duration::try_from_secs(3, MHZ), Some(Duration::from_secs(3, MHZ)));
    assert_eq!(Duration::try_from_secs_floor(3, MHZ), Some(Duration::from_secs_floor(3, MHZ)));
    assert_eq!(Duration::try_from_millis(1, RTC), Some(Duration::from_ticks(33)));
    assert_eq!(Duration::try_from_millis_floor(1, RTC), Some(Duration::from_ticks(32)));
    assert_eq!(Duration::try_from_micros(31, RTC), Some(Duration::from_ticks(2)));
    assert_eq!(Duration::try_from_micros_floor(31, RTC), Some(Duration::from_ticks(1)));
    assert_eq!(Duration::try_from_nanos(1_500, MHZ), Some(Duration::from_ticks(2)));
}

#[test]
fn try_constructors_fail_when_the_product_overflows() {
    assert_eq!(Duration::try_from_secs(u64::MAX, 2), None);
    assert_eq!(Duration::try_from_secs_floor(u64::MAX, 2), None);
    assert_eq!(Duration::try_from_secs(u64::MAX / 2 + 1, 2), None);
    assert_eq!(Duration::try_from_millis(u64::MAX, MHZ), None);
    assert_eq!(Duration::try_from_millis_floor(u64::MAX, MHZ), None);
    assert_eq!(Duration::try_from_micros(u64::MAX, RTC), None);
    assert_eq!(Duration::try_from_micros_floor(u64::MAX, RTC), None);
    assert_eq!(Duration::try_from_nanos(u64::MAX, 2_000_000_000), None);
}

#[test]
fn try_constructors_succeed_up_to_the_last_product_that_fits() {
    assert_eq!(Duration::try_from_secs(u64::MAX, 1), Some(Duration::from_ticks(u64::MAX)));
    assert_eq!(Duration::try_from_secs(u64::MAX / 2, 2), Some(Duration::from_ticks(u64::MAX - 1)));
    assert_eq!(Duration::try_from_millis(u64::MAX, 1_000), Some(Duration::from_ticks(u64::MAX)));
    assert_eq!(
        Duration::try_from_millis(u64::MAX, 500),
        Some(Duration::from_ticks(9_223_372_036_854_775_808))
    );
    assert_eq!(
        Duration::try_from_millis_floor(u64::MAX, 500),
        Some(Duration::from_ticks(9_223_372_036_854_775_807))
    );
    // One megahertz: one tick per microsecond, a thousandth per nanosecond.
    assert_eq!(Duration::try_from_micros(u64::MAX, MHZ), Some(Duration::from_ticks(u64::MAX)));
    assert_eq!(
        Duration::try_from_nanos(u64::MAX, MHZ),
        Some(Duration::from_ticks(18_446_744_073_709_552))
    );
}

#[test]
fn from_hz_rounds_to_the_nearest_tick_count() {
    assert_eq!(Duration::from_hz(100, MHZ).as_ticks(), 10_000);
    assert_eq!(Duration::from_hz(3, 10).as_ticks(), 3);
    assert_eq!(Duration::from_hz(4, 10).as_ticks(), 3);
    assert_eq!(Duration::from_hz(6, 10).as_ticks(), 2);
    assert_eq!(Duration::from_hz(7, 10).as_ticks(), 1);
    assert_eq!(Duration::from_hz(1, 10).as_ticks(), 10);
    assert_eq!(Duration::from_hz(1, u64::MAX).as_ticks(), u64::MAX);
    assert_eq!(Duration::from_hz(2, u64::MAX).as_ticks(), 9_223_372_036_854_775_808);
    assert_eq!(Duration::from_hz(u64::MAX - 1, u64::MAX).as_ticks(), 1);
}

#[test]
fn from_hz_clamps_to_one_tick_at_or_above_the_tick_rate() {
    assert_eq!(Duration::from_hz(10, 10).as_ticks(), 1);
    assert_eq!(Duration::from_hz(11, 10).as_ticks(), 1);
    assert_eq!(Duration::from_hz(2_000_000, MHZ).as_ticks(), 1);
    assert_eq!(Duration::from_hz(u64::MAX, MHZ).as_ticks(), 1);
    assert_eq!(Duration::from_hz(0, 0).as_ticks(), 1);
}

#[test]
fn checked_arithmetic() {
    let a = Duration::from_ticks(40);
    let b = Duration::from_ticks(2);
    assert_eq!(a.checked_add(b), Some(Duration::from_ticks(42)));
    assert_eq!(a.checked_sub(b), Some(Duration::from_ticks(38)));
    assert_eq!(a.checked_mul(3), Some(Duration::from_ticks(120)));
    assert_eq!(a.checked_div(3), Some(Duration::from_ticks(13)));
    assert_eq!(a.checked_sub(a), Some(Duration::from_ticks(0)));
}

#[test]
fn checked_arithmetic_fails_instead_of_wrapping() {
    let max = Duration::from_ticks(u64::MAX);
    let one = Duration::from_ticks(1);
    assert_eq!(max.checked_add(one), None);
    assert_eq!(one.checked_add(max), None);
    assert_eq!(one.checked_sub(Duration::from_ticks(2)), None);
    assert_eq!(Duration::from_ticks(u64::MAX / 2 + 1).checked_mul(2), None);
    assert_eq!(Duration::from_ticks(u64::MAX / 2).checked_mul(2), Some(Duration::from_ticks(u64::MAX - 1)));
    assert_eq!(max.checked_mul(u32::MAX), None);
    assert_eq!(max.checked_mul(1), Some(max));
    assert_eq!(max.checked_mul(0), Some(Duration::from_ticks(0)));
    assert_eq!(max.checked_div(0), None);
    assert_eq!(one.checked_div(0), None);
}

#[test]
fn adding_then_subtracting_gives_the_first_back() {
    let samples = [0u64, 1, 2, 1_000, u64::MAX / 2, u64::MAX - 1, u64::MAX];
    for a in samples {
        for b in samples {
            let (a, b) = (Duration::from_ticks(a), Duration::from_ticks(b));
            if let Some(sum) = a.checked_add(b) {
                assert_eq!(sum.checked_sub(b), Some(a));
                assert_eq!((a + b) - b, a);
            }
        }
    }
}

#[test]
fn operators() {
    let a = Duration::from_ticks(40);
    let b = Duration::from_ticks(2);
    assert_eq!(a + b, Duration::from_ticks(42));
    assert_eq!(a - b, Duration::from_ticks(38));
    assert_eq!(a * 3, Duration::from_ticks(120));
    assert_eq!(3 * a, Duration::from_ticks(120));
    assert_eq!(a / 3, Duration::from_ticks(13));
    let mut c = a;
    c += b;
    assert_eq!(c, Duration::from_ticks(42));
    c -= a;
    assert_eq!(c, b);
    c *= 10;
    assert_eq!(c, Duration::from_ticks(20));
    c /= 6;
    assert_eq!(c, Duration::from_ticks(3));
}

#[test]
fn durations_are_ordered_by_their_ticks() {
    assert!(Duration::from_ticks(1) < Duration::from_ticks(2));
    assert!(Duration::from_ticks(2) >= Duration::from_ticks(2));
    assert_eq!(Duration::from_ticks(5).max(Duration::from_ticks(3)), Duration::from_ticks(5));
}

#[test]
fn in_words() {
    assert_eq!(Duration::from_ticks(0).to_text(), "0 ticks");
    assert_eq!(Duration::from_ticks(7).to_text(), "7 ticks");
    assert_eq!(Duration::from_ticks(1_234).to_text(), "1234 ticks");
    assert_eq!(Duration::from_ticks(u64::MAX).to_text(), "18446744073709551615 ticks");
}

#[test]
fn wide_microseconds() {
    assert_eq!(Duration::try_from_wide_micros(31, RTC).ok(), Some(Duration::from_ticks(2)));
    assert_eq!(
        Duration::try_from_wide_micros(u64::MAX as u128, MHZ).ok(),
        Some(Duration::from_ticks(u64::MAX))
    );
    assert!(Duration::try_from_wide_micros(u64::MAX as u128 + 1, MHZ).is_err());
    assert!(Duration::try_from_wide_micros(u128::MAX, 0).is_err());
}

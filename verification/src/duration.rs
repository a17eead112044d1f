//! Spans of time, counted in ticks of a clock whose rate is chosen at run
//! time.
//!
//! A tick lasts `1 / tick_hz` seconds. Every conversion takes the tick rate
//! as an argument; it has to be the same for the whole life of a program.
//! Conversions first divide the tick rate and the unit (1000 for
//! milliseconds, and so on) by their greatest common divisor, so that the one
//! multiplication they make overflows as late as possible, and the results
//! are still exact quotients of the unreduced numbers.

use crate::math::{
    ceil_div, div_ceil, gcd, greatest_common_divisor, lemma_ceil_div_is_least, lemma_div_scale,
    lemma_floor_div_is, lemma_gcd_bounds, lemma_gcd_factors, round_div,
};
use vstd::arithmetic::div_mod::{lemma_fundamental_div_mod, lemma_fundamental_div_mod_converse};
use vstd::prelude::*;
use vstd::string::StringExecFns;

verus! {

/// Milliseconds in a second.
pub const MILLIS: u64 = 1_000;

/// Microseconds in a second.
pub const MICROS: u64 = 1_000_000;

/// Nanoseconds in a second.
pub const NANOS: u64 = 1_000_000_000;

/// The tick rate after the factor it shares with `unit` is taken out.
pub open spec fn reduced_rate(tick_hz: nat, unit: nat) -> nat {
    tick_hz / greatest_common_divisor(tick_hz, unit)
}

/// `unit` after the factor it shares with the tick rate is taken out.
pub open spec fn reduced_unit(tick_hz: nat, unit: nat) -> nat {
    unit / greatest_common_divisor(tick_hz, unit)
}

/// The ticks in `value` units of `1 / unit` seconds, rounded up.
pub open spec fn ticks_ceil(value: nat, tick_hz: nat, unit: nat) -> nat {
    ceil_div(value * tick_hz, unit)
}

/// The ticks in `value` units of `1 / unit` seconds, rounded down.
pub open spec fn ticks_floor(value: nat, tick_hz: nat, unit: nat) -> nat {
    (value * tick_hz) / unit
}

/// The units of `1 / unit` seconds in `ticks` ticks, rounded down.
pub open spec fn units_floor(ticks: nat, tick_hz: nat, unit: nat) -> nat {
    (ticks * unit) / tick_hz
}

/// The decimal digit for a number below ten.
pub open spec fn digit(d: nat) -> char {
    if d == 0 {
        '0'
    } else if d == 1 {
        '1'
    } else if d == 2 {
        '2'
    } else if d == 3 {
        '3'
    } else if d == 4 {
        '4'
    } else if d == 5 {
        '5'
    } else if d == 6 {
        '6'
    } else if d == 7 {
        '7'
    } else if d == 8 {
        '8'
    } else {
        '9'
    }
}

/// A number in decimal, without leading zeros.
pub open spec fn decimal(n: nat) -> Seq<char>
    decreases n,
{
    if n < 10 {
        seq![digit(n)]
    } else {
        decimal(n / 10).push(digit(n % 10))
    }
}

/// The decimal digit for `d`, as a string.
fn digit_str(d: u64) -> (s: &'static str)
    requires
        d < 10,
    ensures
        s@ == seq![digit(d as nat)],
{
    proof {
        reveal_strlit("0");
        reveal_strlit("1");
        reveal_strlit("2");
        reveal_strlit("3");
        reveal_strlit("4");
        reveal_strlit("5");
        reveal_strlit("6");
        reveal_strlit("7");
        reveal_strlit("8");
        reveal_strlit("9");
    }
    let s = if d == 0 {
        "0"
    } else if d == 1 {
        "1"
    } else if d == 2 {
        "2"
    } else if d == 3 {
        "3"
    } else if d == 4 {
        "4"
    } else if d == 5 {
        "5"
    } else if d == 6 {
        "6"
    } else if d == 7 {
        "7"
    } else if d == 8 {
        "8"
    } else {
        "9"
    };
    assert(s@ =~= seq![digit(d as nat)]);
    s
}

/// Writes `n` in decimal.
fn decimal_string(n: u64) -> (s: String)
    ensures
        s@ == decimal(n as nat),
    decreases n,
{
    if n < 10 {
        String::from_str(digit_str(n))
    } else {
        let mut s = decimal_string(n / 10);
        s.append(digit_str(n % 10));
        assert(s@ =~= decimal(n as nat));
        s
    }
}

/// The difference between two instants, in ticks.
#[derive(Debug, Copy, Clone, PartialEq, Eq, PartialOrd, Ord, Structural)]
pub struct Duration {
    pub(crate) ticks: u64,
}

impl View for Duration {
    type V = nat;

    /// The number of ticks.
    closed spec fn view(&self) -> nat {
        self.ticks as nat
    }
}

/// Reducing a conversion by the greatest common divisor changes neither of
/// its rounded results.
pub proof fn lemma_reduced_conversion(value: nat, tick_hz: nat, unit: nat)
    requires
        unit > 0,
    ensures
        reduced_unit(tick_hz, unit) > 0,
        ceil_div(value * reduced_rate(tick_hz, unit), reduced_unit(tick_hz, unit)) == ticks_ceil(
            value,
            tick_hz,
            unit,
        ),
        (value * reduced_rate(tick_hz, unit)) / reduced_unit(tick_hz, unit) == ticks_floor(
            value,
            tick_hz,
            unit,
        ),
        tick_hz > 0 ==> reduced_rate(tick_hz, unit) > 0 && (value * reduced_unit(tick_hz, unit))
            / reduced_rate(tick_hz, unit) == units_floor(value, tick_hz, unit),
{
    let g = greatest_common_divisor(tick_hz, unit);
    let a = reduced_rate(tick_hz, unit);
    let b = reduced_unit(tick_hz, unit);
    lemma_gcd_factors(tick_hz, unit);
    lemma_gcd_bounds(tick_hz, unit);
    assert(b > 0) by (nonlinear_arith)
        requires
            unit == g * b,
            unit > 0,
            g > 0,
    ;
    assert((value * a) * g == value * tick_hz && b * g == unit) by (nonlinear_arith)
        requires
            tick_hz == g * a,
            unit == g * b,
    ;
    lemma_div_scale(value * a, b, g);
    if tick_hz > 0 {
        assert(a > 0) by (nonlinear_arith)
            requires
                tick_hz == g * a,
                tick_hz > 0,
                g > 0,
        ;
        assert((value * b) * g == value * unit && a * g == tick_hz) by (nonlinear_arith)
            requires
                tick_hz == g * a,
                unit == g * b,
        ;
        lemma_div_scale(value * b, a, g);
    }
}

/// Rounding up into ticks and down again is lossless exactly where the ticks
/// rounded up to end before the next unit begins; with at least one tick per
/// unit (`tick_hz >= unit`) that is everywhere. It never loses anything.
///
/// With `unit` 1000 this is `from_millis` followed by `as_millis`.
pub proof fn lemma_ceil_round_trip(value: nat, tick_hz: nat, unit: nat)
    requires
        tick_hz > 0,
        unit > 0,
    ensures
        units_floor(ticks_ceil(value, tick_hz, unit), tick_hz, unit) >= value,
        units_floor(ticks_ceil(value, tick_hz, unit), tick_hz, unit) == value <==> ticks_ceil(
            value,
            tick_hz,
            unit,
        ) * unit < (value + 1) * tick_hz,
        tick_hz >= unit ==> units_floor(ticks_ceil(value, tick_hz, unit), tick_hz, unit) == value,
{
    let n = value * tick_hz;
    let t = ticks_ceil(value, tick_hz, unit);
    lemma_ceil_div_is_least(n, unit);
    lemma_fundamental_div_mod(n + unit - 1, unit as int);
    assert(t * unit <= n + unit - 1) by (nonlinear_arith)
        requires
            n + unit - 1 == unit * t + (n + unit - 1) % (unit as int),
            (n + unit - 1) % (unit as int) >= 0,
    ;
    let back = units_floor(t, tick_hz, unit);
    lemma_floor_div_is(t * unit, tick_hz, back);
    lemma_floor_div_is(t * unit, tick_hz, value);
    assert(back >= value) by (nonlinear_arith)
        requires
            value * tick_hz <= t * unit,
            t * unit < (back + 1) * tick_hz,
            tick_hz > 0,
    ;
    assert((value + 1) * tick_hz == n + tick_hz) by (nonlinear_arith)
        requires
            n == value * tick_hz,
    ;
}

/// Rounding down into ticks and down again is lossless exactly where the
/// value is a whole number of ticks. It never adds anything.
///
/// With `unit` 1000 this is `from_millis_floor` followed by `as_millis`.
pub proof fn lemma_floor_round_trip(value: nat, tick_hz: nat, unit: nat)
    requires
        tick_hz > 0,
        unit > 0,
    ensures
        units_floor(ticks_floor(value, tick_hz, unit), tick_hz, unit) <= value,
        units_floor(ticks_floor(value, tick_hz, unit), tick_hz, unit) == value <==> (value
            * tick_hz) % unit == 0,
{
    let n = value * tick_hz;
    let t = ticks_floor(value, tick_hz, unit);
    lemma_fundamental_div_mod(n as int, unit as int);
    let r = n % unit;
    assert(t * unit == n - r) by (nonlinear_arith)
        requires
            n == unit * t + r,
    ;
    let back = units_floor(t, tick_hz, unit);
    lemma_floor_div_is(t * unit, tick_hz, back);
    lemma_floor_div_is(t * unit, tick_hz, value);
    assert(back <= value) by (nonlinear_arith)
        requires
            back * tick_hz <= t * unit,
            t * unit <= value * tick_hz,
            tick_hz > 0,
    ;
    assert((value + 1) * tick_hz == n + tick_hz) by (nonlinear_arith)
        requires
            n == value * tick_hz,
    ;
}

/// Turning ticks into units, rounded down, and back into ticks, rounded up,
/// never gives more ticks than there were.
///
/// With `unit` 1000 this is `as_millis` followed by `from_millis`.
pub proof fn lemma_ticks_round_trip(ticks: nat, tick_hz: nat, unit: nat)
    requires
        tick_hz > 0,
        unit > 0,
    ensures
        ticks_ceil(units_floor(ticks, tick_hz, unit), tick_hz, unit) <= ticks,
{
    let m = units_floor(ticks, tick_hz, unit);
    lemma_floor_div_is(ticks * unit, tick_hz, m);
    lemma_ceil_div_is_least(m * tick_hz, unit);
    assert(m * tick_hz <= ticks * unit);
}

/// The greatest common divisor of the tick rate and 1000.
pub fn gcd_1k(tick_hz: u64) -> (g: u64)
    ensures
        g == greatest_common_divisor(tick_hz as nat, MILLIS as nat),
        1 <= g <= MILLIS,
{
    proof {
        lemma_gcd_bounds(tick_hz as nat, MILLIS as nat);
    }
    gcd(tick_hz, MILLIS)
}

/// The greatest common divisor of the tick rate and 1,000,000.
pub fn gcd_1m(tick_hz: u64) -> (g: u64)
    ensures
        g == greatest_common_divisor(tick_hz as nat, MICROS as nat),
        1 <= g <= MICROS,
{
    proof {
        lemma_gcd_bounds(tick_hz as nat, MICROS as nat);
    }
    gcd(tick_hz, MICROS)
}

/// The greatest common divisor of the tick rate and 1,000,000,000.
pub fn gcd_1g(tick_hz: u64) -> (g: u64)
    ensures
        g == greatest_common_divisor(tick_hz as nat, NANOS as nat),
        1 <= g <= NANOS,
{
    proof {
        lemma_gcd_bounds(tick_hz as nat, NANOS as nat);
    }
    gcd(tick_hz, NANOS)
}

impl Duration {
    /// The smallest value that can be represented by the `Duration` type.
    pub fn min_value() -> (d: Duration)
        ensures
            d@ == 0,
    {
        Duration { ticks: u64::MIN }
    }

    /// The largest value that can be represented by the `Duration` type.
    pub fn max_value() -> (d: Duration)
        ensures
            d@ == u64::MAX,
    {
        Duration { ticks: u64::MAX }
    }

    /// Tick count of the `Duration`.
    pub fn as_ticks(&self) -> (ticks: u64)
        ensures
            ticks == self@,
    {
        self.ticks
    }

    /// Creates a duration from the specified number of clock ticks.
    #[verifier::when_used_as_spec(spec_from_ticks)]
    pub fn from_ticks(ticks: u64) -> (d: Duration)
        ensures
            d == Duration::spec_from_ticks(ticks),
            d@ == ticks,
    {
        Duration { ticks }
    }

    /// Durations with the same number of ticks are the same.
    pub broadcast proof fn lemma_view_injective(self, other: Duration)
        ensures
            #[trigger] self@ == #[trigger] other@ <==> self == other,
    {
    }

    /// Convert the `Duration` to seconds, rounding down.
    pub fn as_secs(&self, tick_hz: u64) -> (secs: u64)
        requires
            tick_hz > 0,
        ensures
            secs == self@ / (tick_hz as nat),
    {
        self.ticks / tick_hz
    }

    /// Convert the `Duration` to milliseconds, rounding down.
    pub fn as_millis(&self, tick_hz: u64) -> (millis: u64)
        requires
            tick_hz > 0,
            self@ * reduced_unit(tick_hz as nat, MILLIS as nat) <= u64::MAX,
        ensures
            millis == units_floor(self@, tick_hz as nat, MILLIS as nat),
    {
        proof {
            lemma_reduced_conversion(self@, tick_hz as nat, MILLIS as nat);
        }
        let g = gcd_1k(tick_hz);
        self.ticks * (MILLIS / g) / (tick_hz / g)
    }

    /// Convert the `Duration` to microseconds, rounding down.
    pub fn as_micros(&self, tick_hz: u64) -> (micros: u64)
        requires
            tick_hz > 0,
            self@ * reduced_unit(tick_hz as nat, MICROS as nat) <= u64::MAX,
        ensures
            micros == units_floor(self@, tick_hz as nat, MICROS as nat),
    {
        proof {
            lemma_reduced_conversion(self@, tick_hz as nat, MICROS as nat);
        }
        let g = gcd_1m(tick_hz);
        self.ticks * (MICROS / g) / (tick_hz / g)
    }

    /// Creates a duration from the specified number of seconds, rounding up.
    pub fn from_secs(secs: u64, tick_hz: u64) -> (d: Duration)
        requires
            secs * tick_hz <= u64::MAX,
        ensures
            d@ == secs * tick_hz,
    {
        Duration { ticks: secs * tick_hz }
    }

    /// Creates a duration from the specified number of milliseconds, rounding up.
    pub fn from_millis(millis: u64, tick_hz: u64) -> (d: Duration)
        requires
            millis * reduced_rate(tick_hz as nat, MILLIS as nat) <= u64::MAX,
        ensures
            d@ == ticks_ceil(millis as nat, tick_hz as nat, MILLIS as nat),
    {
        proof {
            lemma_reduced_conversion(millis as nat, tick_hz as nat, MILLIS as nat);
        }
        let g = gcd_1k(tick_hz);
        Duration { ticks: div_ceil(millis * (tick_hz / g), MILLIS / g) }
    }

    /// Creates a duration from the specified number of microseconds, rounding up.
    /// NOTE: Delays this small may be inaccurate.
    pub fn from_micros(micros: u64, tick_hz: u64) -> (d: Duration)
        requires
            micros * reduced_rate(tick_hz as nat, MICROS as nat) <= u64::MAX,
        ensures
            d@ == ticks_ceil(micros as nat, tick_hz as nat, MICROS as nat),
    {
        proof {
            lemma_reduced_conversion(micros as nat, tick_hz as nat, MICROS as nat);
        }
        let g = gcd_1m(tick_hz);
        Duration { ticks: div_ceil(micros * (tick_hz / g), MICROS / g) }
    }

    /// Creates a duration from the specified number of nanoseconds, rounding up.
    /// NOTE: Delays this small may be inaccurate.
    pub fn from_nanos(nanoseconds: u64, tick_hz: u64) -> (d: Duration)
        requires
            nanoseconds * reduced_rate(tick_hz as nat, NANOS as nat) <= u64::MAX,
        ensures
            d@ == ticks_ceil(nanoseconds as nat, tick_hz as nat, NANOS as nat),
    {
        proof {
            lemma_reduced_conversion(nanoseconds as nat, tick_hz as nat, NANOS as nat);
        }
        let g = gcd_1g(tick_hz);
        Duration { ticks: div_ceil(nanoseconds * (tick_hz / g), NANOS / g) }
    }

    /// Creates a duration from the specified number of seconds, rounding down.
    pub fn from_secs_floor(secs: u64, tick_hz: u64) -> (d: Duration)
        requires
            secs * tick_hz <= u64::MAX,
        ensures
            d@ == secs * tick_hz,
    {
        Duration { ticks: secs * tick_hz }
    }

    /// Creates a duration from the specified number of milliseconds, rounding down.
    pub fn from_millis_floor(millis: u64, tick_hz: u64) -> (d: Duration)
        requires
            millis * reduced_rate(tick_hz as nat, MILLIS as nat) <= u64::MAX,
        ensures
            d@ == ticks_floor(millis as nat, tick_hz as nat, MILLIS as nat),
    {
        proof {
            lemma_reduced_conversion(millis as nat, tick_hz as nat, MILLIS as nat);
        }
        let g = gcd_1k(tick_hz);
        Duration { ticks: millis * (tick_hz / g) / (MILLIS / g) }
    }

    /// Creates a duration from the specified number of microseconds, rounding down.
    /// NOTE: Delays this small may be inaccurate.
    pub fn from_micros_floor(micros: u64, tick_hz: u64) -> (d: Duration)
        requires
            micros * reduced_rate(tick_hz as nat, MICROS as nat) <= u64::MAX,
        ensures
            d@ == ticks_floor(micros as nat, tick_hz as nat, MICROS as nat),
    {
        proof {
            lemma_reduced_conversion(micros as nat, tick_hz as nat, MICROS as nat);
        }
        let g = gcd_1m(tick_hz);
        Duration { ticks: micros * (tick_hz / g) / (MICROS / g) }
    }

    /// Try to create a duration from the specified number of seconds, rounding up.
    /// Fails if the number of seconds is too large.
    pub fn try_from_secs(secs: u64, tick_hz: u64) -> (d: Option<Duration>)
        ensures
            d is Some <==> secs * tick_hz <= u64::MAX,
            d matches Some(d) ==> d@ == secs * tick_hz,
    {
        let Some(ticks) = secs.checked_mul(tick_hz) else {
            return None;
        };
        Some(Duration { ticks })
    }

    /// Try to create a duration from the specified number of milliseconds, rounding up.
    /// Fails if the number of milliseconds is too large.
    pub fn try_from_millis(millis: u64, tick_hz: u64) -> (d: Option<Duration>)
        ensures
            d is Some <==> millis * reduced_rate(tick_hz as nat, MILLIS as nat) <= u64::MAX,
            d matches Some(d) ==> d@ == ticks_ceil(millis as nat, tick_hz as nat, MILLIS as nat),
    {
        proof {
            lemma_reduced_conversion(millis as nat, tick_hz as nat, MILLIS as nat);
        }
        let g = gcd_1k(tick_hz);
        let Some(value) = millis.checked_mul(tick_hz / g) else {
            return None;
        };
        Some(Duration { ticks: div_ceil(value, MILLIS / g) })
    }

    /// Try to create a duration from the specified number of microseconds, rounding up.
    /// Fails if the number of microseconds is too large.
    /// NOTE: Delays this small may be inaccurate.
    pub fn try_from_micros(micros: u64, tick_hz: u64) -> (d: Option<Duration>)
        ensures
            d is Some <==> micros * reduced_rate(tick_hz as nat, MICROS as nat) <= u64::MAX,
            d matches Some(d) ==> d@ == ticks_ceil(micros as nat, tick_hz as nat, MICROS as nat),
    {
        proof {
            lemma_reduced_conversion(micros as nat, tick_hz as nat, MICROS as nat);
        }
        let g = gcd_1m(tick_hz);
        let Some(value) = micros.checked_mul(tick_hz / g) else {
            return None;
        };
        Some(Duration { ticks: div_ceil(value, MICROS / g) })
    }

    /// Try to create a duration from the specified number of nanoseconds, rounding up.
    /// Fails if the number of nanoseconds is too large.
    /// NOTE: Delays this small may be inaccurate.
    pub fn try_from_nanos(nanoseconds: u64, tick_hz: u64) -> (d: Option<Duration>)
        ensures
            d is Some <==> nanoseconds * reduced_rate(tick_hz as nat, NANOS as nat) <= u64::MAX,
            d matches Some(d) ==> d@ == ticks_ceil(
                nanoseconds as nat,
                tick_hz as nat,
                NANOS as nat,
            ),
    {
        proof {
            lemma_reduced_conversion(nanoseconds as nat, tick_hz as nat, NANOS as nat);
        }
        let g = gcd_1g(tick_hz);
        let Some(value) = nanoseconds.checked_mul(tick_hz / g) else {
            return None;
        };
        Some(Duration { ticks: div_ceil(value, NANOS / g) })
    }

    /// Try to create a duration from the specified number of seconds, rounding down.
    /// Fails if the number of seconds is too large.
    pub fn try_from_secs_floor(secs: u64, tick_hz: u64) -> (d: Option<Duration>)
        ensures
            d is Some <==> secs * tick_hz <= u64::MAX,
            d matches Some(d) ==> d@ == secs * tick_hz,
    {
        let Some(ticks) = secs.checked_mul(tick_hz) else {
            return None;
        };
        Some(Duration { ticks })
    }

    /// Try to create a duration from the specified number of milliseconds, rounding down.
    /// Fails if the number of milliseconds is too large.
    pub fn try_from_millis_floor(millis: u64, tick_hz: u64) -> (d: Option<Duration>)
        ensures
            d is Some <==> millis * reduced_rate(tick_hz as nat, MILLIS as nat) <= u64::MAX,
            d matches Some(d) ==> d@ == ticks_floor(millis as nat, tick_hz as nat, MILLIS as nat),
    {
        proof {
            lemma_reduced_conversion(millis as nat, tick_hz as nat, MILLIS as nat);
        }
        let g = gcd_1k(tick_hz);
        let Some(value) = millis.checked_mul(tick_hz / g) else {
            return None;
        };
        Some(Duration { ticks: value / (MILLIS / g) })
    }

    /// Try to create a duration from the specified number of microseconds, rounding down.
    /// Fails if the number of microseconds is too large.
    /// NOTE: Delays this small may be inaccurate.
    pub fn try_from_micros_floor(micros: u64, tick_hz: u64) -> (d: Option<Duration>)
        ensures
            d is Some <==> micros * reduced_rate(tick_hz as nat, MICROS as nat) <= u64::MAX,
            d matches Some(d) ==> d@ == ticks_floor(micros as nat, tick_hz as nat, MICROS as nat),
    {
        proof {
            lemma_reduced_conversion(micros as nat, tick_hz as nat, MICROS as nat);
        }
        let g = gcd_1m(tick_hz);
        let Some(value) = micros.checked_mul(tick_hz / g) else {
            return None;
        };
        Some(Duration { ticks: value / (MICROS / g) })
    }

    /// Creates a duration corresponding to the specified Hz.
    /// NOTE: Giving this function a hz >= the tick rate of your platform will clamp the
    /// Duration to 1 tick. Doing so will not deadlock, but will certainly not produce the
    /// desired output.
    pub fn from_hz(hz: u64, tick_hz: u64) -> (d: Duration)
        requires
            hz > 0 || tick_hz == 0,
        ensures
            d@ == if hz >= tick_hz {
                1
            } else {
                round_div(tick_hz as nat, hz as nat)
            },
    {
        let ticks = {
            if hz >= tick_hz {
                1
            } else {
                let whole: u64 = tick_hz / hz;
                let rest: u64 = tick_hz % hz;
                proof {
                    lemma_fundamental_div_mod(tick_hz as int, hz as int);
                    let half = hz as int / 2;
                    if rest >= hz - half {
                        assert(tick_hz + half == (whole + 1) * hz + (rest + half - hz))
                            by (nonlinear_arith)
                            requires
                                tick_hz == hz * whole + rest,
                        ;
                        lemma_fundamental_div_mod_converse(
                            tick_hz + half,
                            hz as int,
                            whole + 1,
                            rest + half - hz,
                        );
                    } else {
                        assert(tick_hz + half == whole * hz + (rest + half)) by (nonlinear_arith)
                            requires
                                tick_hz == hz * whole + rest,
                        ;
                        lemma_fundamental_div_mod_converse(
                            tick_hz + half,
                            hz as int,
                            whole as int,
                            rest + half,
                        );
                    }
                    assert(whole < u64::MAX || hz == 1) by (nonlinear_arith)
                        requires
                            tick_hz == hz * whole + rest,
                            rest >= 0,
                            hz > 0,
                            tick_hz <= u64::MAX,
                            whole >= 0,
                    ;
                }
                if rest >= hz - hz / 2 {
                    whole + 1
                } else {
                    whole
                }
            }
        };
        Duration { ticks }
    }

    /// Creates a duration from a number of microseconds that may be too
    /// large for 64 bits, rounding up. Fails if and only if it is.
    pub fn try_from_wide_micros(micros: u128, tick_hz: u64) -> (d: Result<
        Duration,
        core::num::TryFromIntError,
    >)
        requires
            micros <= u64::MAX ==> micros * reduced_rate(tick_hz as nat, MICROS as nat) <= u64::MAX,
        ensures
            d is Ok <==> micros <= u64::MAX,
            d matches Ok(d) ==> d@ == ticks_ceil(micros as nat, tick_hz as nat, MICROS as nat),
    {
        match u64::try_from(micros) {
            Ok(micros) => Ok(Duration::from_micros(micros, tick_hz)),
            Err(e) => Err(e),
        }
    }

    /// The duration in words: the number of ticks in decimal and the word
    /// `ticks`.
    pub fn to_text(&self) -> (words: String)
        ensures
            words@ == decimal(self@) + " ticks"@,
    {
        let mut words = decimal_string(self.ticks);
        words.append(" ticks");
        words
    }

    /// The sum of two durations, if it can be represented.
    pub open spec fn spec_checked_add(self, rhs: Duration) -> Option<Duration> {
        if self@ + rhs@ <= u64::MAX {
            Some(Duration::spec_from_ticks((self@ + rhs@) as u64))
        } else {
            None
        }
    }

    /// The difference of two durations, if it is not negative.
    pub open spec fn spec_checked_sub(self, rhs: Duration) -> Option<Duration> {
        if self@ >= rhs@ {
            Some(Duration::spec_from_ticks((self@ - rhs@) as u64))
        } else {
            None
        }
    }

    /// A duration times a whole number, if it can be represented.
    pub open spec fn spec_checked_mul(self, rhs: u32) -> Option<Duration> {
        if self@ * rhs <= u64::MAX {
            Some(Duration::spec_from_ticks((self@ * rhs) as u64))
        } else {
            None
        }
    }

    /// A duration divided by a whole number other than 0, rounded down.
    pub open spec fn spec_checked_div(self, rhs: u32) -> Option<Duration> {
        if rhs != 0 {
            Some(Duration::spec_from_ticks((self@ / (rhs as nat)) as u64))
        } else {
            None
        }
    }

    /// The duration of `ticks` ticks.
    pub closed spec fn spec_from_ticks(ticks: u64) -> Duration {
        Duration { ticks }
    }

    /// `spec_from_ticks` makes the duration with that many ticks.
    pub broadcast proof fn lemma_spec_from_ticks(ticks: u64)
        ensures
            (#[trigger] Duration::spec_from_ticks(ticks))@ == ticks,
    {
    }

    /// A duration added and taken away again leaves what there was,
    /// wherever the sum can be represented.
    pub proof fn lemma_add_then_sub(self, rhs: Duration)
        requires
            self.spec_checked_add(rhs) is Some,
        ensures
            self.spec_checked_add(rhs).unwrap().spec_checked_sub(rhs) == Some(self),
    {
    }

    /// Adds one Duration to another, returning a new Duration or None in the
    /// event of an overflow.
    pub fn checked_add(self, rhs: Duration) -> (sum: Option<Duration>)
        ensures
            sum == self.spec_checked_add(rhs),
    {
        match self.ticks.checked_add(rhs.ticks) {
            Some(ticks) => Some(Duration { ticks }),
            None => None,
        }
    }

    /// Subtracts one Duration from another, returning a new Duration or None
    /// if the result would be negative.
    pub fn checked_sub(self, rhs: Duration) -> (difference: Option<Duration>)
        ensures
            difference == self.spec_checked_sub(rhs),
    {
        match self.ticks.checked_sub(rhs.ticks) {
            Some(ticks) => Some(Duration { ticks }),
            None => None,
        }
    }

    /// Multiplies one Duration by a scalar u32, returning a new Duration or
    /// None in the event of an overflow.
    pub fn checked_mul(self, rhs: u32) -> (product: Option<Duration>)
        ensures
            product == self.spec_checked_mul(rhs),
    {
        match self.ticks.checked_mul(rhs as u64) {
            Some(ticks) => Some(Duration { ticks }),
            None => None,
        }
    }

    /// Divides one Duration by a scalar u32, returning a new Duration or None
    /// if the scalar is zero.
    pub fn checked_div(self, rhs: u32) -> (quotient: Option<Duration>)
        ensures
            quotient == self.spec_checked_div(rhs),
    {
        match self.ticks.checked_div(rhs as u64) {
            Some(ticks) => Some(Duration { ticks }),
            None => None,
        }
    }
}

impl core::ops::Add for Duration {
    type Output = Duration;

    /// The sum of two durations. The sum has to fit: an overflow is never
    /// wrapped.
    fn add(self, rhs: Duration) -> (sum: Duration) {
        Duration { ticks: self.ticks + rhs.ticks }
    }
}

impl vstd::std_specs::ops::AddSpecImpl for Duration {
    open spec fn obeys_add_spec() -> bool {
        true
    }

    open spec fn add_req(self, rhs: Duration) -> bool {
        self.spec_checked_add(rhs) is Some
    }

    open spec fn add_spec(self, rhs: Duration) -> Duration {
        self.spec_checked_add(rhs).unwrap()
    }
}

impl core::ops::AddAssign for Duration {
    fn add_assign(&mut self, rhs: Duration)
        requires
            old(self).spec_checked_add(rhs) is Some,
        ensures
            Some(*final(self)) == old(self).spec_checked_add(rhs),
    {
        *self = *self + rhs;
    }
}

impl core::ops::Sub for Duration {
    type Output = Duration;

    /// The difference of two durations. The right one must not be the
    /// longer.
    fn sub(self, rhs: Duration) -> (difference: Duration) {
        Duration { ticks: self.ticks - rhs.ticks }
    }
}

impl vstd::std_specs::ops::SubSpecImpl for Duration {
    open spec fn obeys_sub_spec() -> bool {
        true
    }

    open spec fn sub_req(self, rhs: Duration) -> bool {
        self.spec_checked_sub(rhs) is Some
    }

    open spec fn sub_spec(self, rhs: Duration) -> Duration {
        self.spec_checked_sub(rhs).unwrap()
    }
}

impl core::ops::SubAssign for Duration {
    fn sub_assign(&mut self, rhs: Duration)
        requires
            old(self).spec_checked_sub(rhs) is Some,
        ensures
            Some(*final(self)) == old(self).spec_checked_sub(rhs),
    {
        *self = *self - rhs;
    }
}

impl core::ops::Mul<u32> for Duration {
    type Output = Duration;

    /// A duration times a whole number. The product has to fit.
    fn mul(self, rhs: u32) -> (product: Duration) {
        Duration { ticks: self.ticks * (rhs as u64) }
    }
}

impl vstd::std_specs::ops::MulSpecImpl<u32> for Duration {
    open spec fn obeys_mul_spec() -> bool {
        true
    }

    open spec fn mul_req(self, rhs: u32) -> bool {
        self.spec_checked_mul(rhs) is Some
    }

    open spec fn mul_spec(self, rhs: u32) -> Duration {
        self.spec_checked_mul(rhs).unwrap()
    }
}

impl core::ops::Mul<Duration> for u32 {
    type Output = Duration;

    /// A whole number times a duration. The product has to fit.
    fn mul(self, rhs: Duration) -> (product: Duration) {
        rhs * self
    }
}

impl vstd::std_specs::ops::MulSpecImpl<Duration> for u32 {
    open spec fn obeys_mul_spec() -> bool {
        true
    }

    open spec fn mul_req(self, rhs: Duration) -> bool {
        rhs.spec_checked_mul(self) is Some
    }

    open spec fn mul_spec(self, rhs: Duration) -> Duration {
        rhs.spec_checked_mul(self).unwrap()
    }
}

impl core::ops::MulAssign<u32> for Duration {
    fn mul_assign(&mut self, rhs: u32)
        requires
            old(self).spec_checked_mul(rhs) is Some,
        ensures
            Some(*final(self)) == old(self).spec_checked_mul(rhs),
    {
        *self = *self * rhs;
    }
}

impl core::ops::Div<u32> for Duration {
    type Output = Duration;

    /// A duration divided by a whole number other than 0, rounded down.
    fn div(self, rhs: u32) -> (quotient: Duration) {
        Duration { ticks: self.ticks / (rhs as u64) }
    }
}

impl vstd::std_specs::ops::DivSpecImpl<u32> for Duration {
    open spec fn obeys_div_spec() -> bool {
        true
    }

    open spec fn div_req(self, rhs: u32) -> bool {
        self.spec_checked_div(rhs) is Some
    }

    open spec fn div_spec(self, rhs: u32) -> Duration {
        self.spec_checked_div(rhs).unwrap()
    }
}

impl core::ops::DivAssign<u32> for Duration {
    fn div_assign(&mut self, rhs: u32)
        requires
            old(self).spec_checked_div(rhs) is Some,
        ensures
            Some(*final(self)) == old(self).spec_checked_div(rhs),
    {
        *self = *self / rhs;
    }
}

impl Default for Duration {
    /// The empty duration.
    fn default() -> (d: Duration)
        ensures
            d@ == 0,
    {
        Duration { ticks: 0 }
    }
}

} // verus!

//! What the library takes from the time driver.
//!
//! The driver owns the clock and the alarm. The library reads neither: the
//! caller does, and hands instants in. Only the driver's tick rate is taken
//! from it here.

use vstd::prelude::*;

verus! {

/// The tick rate that the time driver was built for,
/// `embassy_time_driver::TICK_HZ`. The driver's features choose it from a
/// list of rates, none of which is zero.
#[verifier::external_body]
fn driver_tick_hz() -> (tick_hz: u64)
    ensures
        tick_hz > 0,
{
    embassy_time_driver::TICK_HZ
}

/// Ticks per second of the time driver's clock. It is fixed when the
/// program is built, so every call gives the same rate, and it is the rate
/// to hand to the conversions of durations.
pub fn frequency() -> (tick_hz: u64)
    ensures
        tick_hz > 0,
{
    driver_tick_hz()
}

} // verus!

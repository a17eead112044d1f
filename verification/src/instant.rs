//! Points in time, counted in ticks since the time driver's epoch.

use crate::duration::Duration;
use vstd::prelude::*;

verus! {

/// An instant in time, based on the time driver's monotonic clock.
#[derive(Debug, Copy, Clone, PartialEq, Eq, PartialOrd, Ord, Structural)]
pub struct Instant {
    ticks: u64,
}

impl View for Instant {
    type V = nat;

    /// The number of ticks since the epoch.
    closed spec fn view(&self) -> nat {
        self.ticks as nat
    }
}

impl Instant {
    /// The instant `ticks` ticks after the epoch.
    pub closed spec fn spec_from_ticks(ticks: u64) -> Instant {
        Instant { ticks }
    }

    /// `spec_from_ticks` makes the instant with that many ticks.
    pub broadcast proof fn lemma_spec_from_ticks(ticks: u64)
        ensures
            (#[trigger] Instant::spec_from_ticks(ticks))@ == ticks,
    {
    }

    /// Instants with the same number of ticks are the same, and none lies
    /// beyond the largest tick count.
    pub broadcast proof fn lemma_view_injective(self, other: Instant)
        ensures
            #[trigger] self@ == #[trigger] other@ <==> self == other,
            self@ <= u64::MAX,
    {
    }

    /// The instant `duration` after this one, if it can be represented.
    pub open spec fn spec_checked_add(self, duration: Duration) -> Option<Instant> {
        if self@ + duration@ <= u64::MAX {
            Some(Instant::spec_from_ticks((self@ + duration@) as u64))
        } else {
            None
        }
    }

    /// The instant `duration` before this one, if it is not before the
    /// epoch.
    pub open spec fn spec_checked_sub(self, duration: Duration) -> Option<Instant> {
        if self@ >= duration@ {
            Some(Instant::spec_from_ticks((self@ - duration@) as u64))
        } else {
            None
        }
    }

    /// The time from `earlier` to this instant, if `earlier` is not the
    /// later one.
    pub open spec fn spec_checked_duration_since(self, earlier: Instant) -> Option<Duration> {
        if self@ >= earlier@ {
            Some(Duration::spec_from_ticks((self@ - earlier@) as u64))
        } else {
            None
        }
    }

    /// The earliest instant: the epoch.
    pub fn min_value() -> (instant: Instant)
        ensures
            instant@ == 0,
    {
        Instant { ticks: u64::MIN }
    }

    /// The latest instant that can be represented.
    pub fn max_value() -> (instant: Instant)
        ensures
            instant@ == u64::MAX,
    {
        Instant { ticks: u64::MAX }
    }

    /// Creates an instant from the number of ticks since the epoch.
    #[verifier::when_used_as_spec(spec_from_ticks)]
    pub fn from_ticks(ticks: u64) -> (instant: Instant)
        ensures
            instant == Instant::spec_from_ticks(ticks),
            instant@ == ticks,
    {
        Instant { ticks }
    }

    /// Tick count since the epoch.
    pub fn as_ticks(&self) -> (ticks: u64)
        ensures
            ticks == self@,
    {
        self.ticks
    }

    /// The time from `earlier` to this instant. `earlier` must not be the
    /// later of the two.
    pub fn duration_since(&self, earlier: Instant) -> (elapsed: Duration)
        requires
            earlier@ <= self@,
        ensures
            Some(elapsed) == self.spec_checked_duration_since(earlier),
            elapsed@ == self@ - earlier@,
    {
        broadcast use Duration::lemma_spec_from_ticks;

        Duration::from_ticks(self.ticks - earlier.ticks)
    }

    /// The time from `earlier` to this instant, or `None` if `earlier` is
    /// the later of the two.
    pub fn checked_duration_since(&self, earlier: Instant) -> (elapsed: Option<Duration>)
        ensures
            elapsed == self.spec_checked_duration_since(earlier),
    {
        if self.ticks < earlier.ticks {
            None
        } else {
            Some(Duration::from_ticks(self.ticks - earlier.ticks))
        }
    }

    /// The time from `earlier` to this instant, or no time at all if
    /// `earlier` is the later of the two.
    pub fn saturating_duration_since(&self, earlier: Instant) -> (elapsed: Duration)
        ensures
            elapsed@ == if self@ >= earlier@ {
                self@ - earlier@
            } else {
                0
            },
    {
        broadcast use Duration::lemma_spec_from_ticks;

        if self.ticks < earlier.ticks {
            Duration::from_ticks(0)
        } else {
            Duration::from_ticks(self.ticks - earlier.ticks)
        }
    }

    /// The time from this instant to `now`, the current reading of the
    /// clock. The clock never runs backwards, so `now` must not be earlier.
    pub fn elapsed(&self, now: Instant) -> (elapsed: Duration)
        requires
            self@ <= now@,
        ensures
            elapsed@ == now@ - self@,
    {
        now.duration_since(*self)
    }

    /// Adds a duration to this instant, returning a new instant or `None`
    /// in the event of an overflow.
    pub fn checked_add(&self, duration: Duration) -> (sum: Option<Instant>)
        ensures
            sum == self.spec_checked_add(duration),
    {
        match self.ticks.checked_add(duration.as_ticks()) {
            Some(ticks) => Some(Instant { ticks }),
            None => None,
        }
    }

    /// Subtracts a duration from this instant, returning a new instant or
    /// `None` if it would lie before the epoch.
    pub fn checked_sub(&self, duration: Duration) -> (difference: Option<Instant>)
        ensures
            difference == self.spec_checked_sub(duration),
    {
        match self.ticks.checked_sub(duration.as_ticks()) {
            Some(ticks) => Some(Instant { ticks }),
            None => None,
        }
    }

    /// An instant moved forward and back by the same duration is where it
    /// was, wherever the later instant can be represented.
    pub proof fn lemma_add_then_sub(self, duration: Duration)
        requires
            self.spec_checked_add(duration) is Some,
        ensures
            self.spec_checked_add(duration).unwrap().spec_checked_sub(duration) == Some(self),
            self.spec_checked_add(duration).unwrap().spec_checked_duration_since(self) == Some(
                duration,
            ),
    {
        broadcast use Duration::lemma_spec_from_ticks, Duration::lemma_view_injective;

    }
}

impl core::ops::Add<Duration> for Instant {
    type Output = Instant;

    /// The instant `rhs` after this one. It has to be representable.
    fn add(self, rhs: Duration) -> (sum: Instant) {
        Instant { ticks: self.ticks + rhs.as_ticks() }
    }
}

impl vstd::std_specs::ops::AddSpecImpl<Duration> for Instant {
    open spec fn obeys_add_spec() -> bool {
        true
    }

    open spec fn add_req(self, rhs: Duration) -> bool {
        self.spec_checked_add(rhs) is Some
    }

    open spec fn add_spec(self, rhs: Duration) -> Instant {
        self.spec_checked_add(rhs).unwrap()
    }
}

impl core::ops::AddAssign<Duration> for Instant {
    fn add_assign(&mut self, rhs: Duration)
        requires
            old(self).spec_checked_add(rhs) is Some,
        ensures
            Some(*final(self)) == old(self).spec_checked_add(rhs),
    {
        *self = *self + rhs;
    }
}

impl core::ops::Sub<Duration> for Instant {
    type Output = Instant;

    /// The instant `rhs` before this one. It must not lie before the epoch.
    fn sub(self, rhs: Duration) -> (difference: Instant) {
        Instant { ticks: self.ticks - rhs.as_ticks() }
    }
}

impl vstd::std_specs::ops::SubSpecImpl<Duration> for Instant {
    open spec fn obeys_sub_spec() -> bool {
        true
    }

    open spec fn sub_req(self, rhs: Duration) -> bool {
        self.spec_checked_sub(rhs) is Some
    }

    open spec fn sub_spec(self, rhs: Duration) -> Instant {
        self.spec_checked_sub(rhs).unwrap()
    }
}

impl core::ops::SubAssign<Duration> for Instant {
    fn sub_assign(&mut self, rhs: Duration)
        requires
            old(self).spec_checked_sub(rhs) is Some,
        ensures
            Some(*final(self)) == old(self).spec_checked_sub(rhs),
    {
        *self = *self - rhs;
    }
}

impl core::ops::Sub<Instant> for Instant {
    type Output = Duration;

    /// The time from `rhs` to this instant. `rhs` must not be the later of
    /// the two.
    fn sub(self, rhs: Instant) -> (elapsed: Duration) {
        self.duration_since(rhs)
    }
}

impl vstd::std_specs::ops::SubSpecImpl<Instant> for Instant {
    open spec fn obeys_sub_spec() -> bool {
        true
    }

    open spec fn sub_req(self, rhs: Instant) -> bool {
        self.spec_checked_duration_since(rhs) is Some
    }

    open spec fn sub_spec(self, rhs: Instant) -> Duration {
        self.spec_checked_duration_since(rhs).unwrap()
    }
}

} // verus!

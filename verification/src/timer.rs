//! Waiting for deadlines: single timers, races against a deadline, and
//! drift-free periodic tickers.
//!
//! Nothing here reads the clock or talks to the time driver. A poll takes
//! the current instant as an argument, and where it reports suspension it
//! says for which deadline the caller has to ask the driver for a wake-up.

use crate::duration::Duration;
use crate::instant::Instant;
use vstd::prelude::*;

verus! {

/// A wait for a deadline.
#[derive(Debug, Copy, Clone)]
pub struct Timer {
    state: TimerState,
}

#[derive(Debug, Copy, Clone)]
enum TimerState {
    After(Duration),
    At(Instant),
    Armed(Instant),
}

/// A timer as a mathematical value, in ticks.
pub ghost enum TimerView {
    /// Not polled yet: the deadline will be this long after the first poll.
    After(nat),
    /// Not polled yet: the deadline is this instant.
    At(nat),
    /// Polled: a wake-up at this deadline was asked for.
    Armed(nat),
}

/// The result of polling a timer or a ticker.
#[derive(Debug, Copy, Clone, PartialEq, Eq, Structural)]
pub enum TimerPoll {
    /// The deadline has come.
    Ready,
    /// Suspended: the caller has to ask the time driver for a wake-up at
    /// this instant.
    Pending(Instant),
}

impl TimerView {
    /// The timer after a poll at `now`.
    pub open spec fn after_poll(self, now: nat) -> TimerView {
        match self {
            TimerView::After(duration) => TimerView::Armed(now + duration),
            TimerView::At(deadline) => TimerView::Armed(deadline),
            TimerView::Armed(deadline) => TimerView::Armed(deadline),
        }
    }

    /// Whether a poll at `now` finds the deadline come. The first poll
    /// never does: it only asks for the wake-up.
    pub open spec fn ready_at(self, now: nat) -> bool {
        match self {
            TimerView::Armed(deadline) => deadline <= now,
            _ => false,
        }
    }

    /// The deadline once the timer has been polled at `now`.
    pub open spec fn deadline(self, now: nat) -> nat {
        match self {
            TimerView::After(duration) => now + duration,
            TimerView::At(deadline) => deadline,
            TimerView::Armed(deadline) => deadline,
        }
    }
}

impl View for Timer {
    type V = TimerView;

    closed spec fn view(&self) -> TimerView {
        match self.state {
            TimerState::After(duration) => TimerView::After(duration@),
            TimerState::At(deadline) => TimerView::At(deadline@),
            TimerState::Armed(deadline) => TimerView::Armed(deadline@),
        }
    }
}

impl Timer {
    /// A timer that expires `duration` after its first poll.
    pub fn after(duration: Duration) -> (timer: Timer)
        ensures
            timer@ == TimerView::After(duration@),
    {
        Timer { state: TimerState::After(duration) }
    }

    /// A timer that expires at `expires_at`.
    pub fn at(expires_at: Instant) -> (timer: Timer)
        ensures
            timer@ == TimerView::At(expires_at@),
    {
        Timer { state: TimerState::At(expires_at) }
    }

    /// Polls the timer at the instant `now`.
    ///
    /// The first poll fixes the deadline and suspends, whatever the time.
    /// Every later poll is ready if the deadline has come and suspends for
    /// the same deadline if not. Where the deadline is still to be fixed it
    /// has to be representable.
    pub fn poll(&mut self, now: Instant) -> (poll: TimerPoll)
        requires
            old(self)@.deadline(now@) <= u64::MAX,
        ensures
            final(self)@ == old(self)@.after_poll(now@),
            poll is Ready <==> old(self)@.ready_at(now@),
            poll matches TimerPoll::Pending(deadline) ==> deadline@ == old(self)@.deadline(now@),
    {
        broadcast use
            Instant::lemma_spec_from_ticks,
            Instant::lemma_view_injective,
            Duration::lemma_view_injective,
        ;

        match self.state {
            TimerState::After(duration) => {
                let deadline = now + duration;
                self.state = TimerState::Armed(deadline);
                TimerPoll::Pending(deadline)
            },
            TimerState::At(deadline) => {
                self.state = TimerState::Armed(deadline);
                TimerPoll::Pending(deadline)
            },
            TimerState::Armed(deadline) => {
                if deadline.as_ticks() <= now.as_ticks() {
                    TimerPoll::Ready
                } else {
                    TimerPoll::Pending(deadline)
                }
            },
        }
    }

    /// Polls the timer at the instant `now` unless the deadline would have
    /// to be fixed beyond the last instant that can be represented; the
    /// timer is then left as it was.
    pub fn checked_poll(&mut self, now: Instant) -> (poll: Option<TimerPoll>)
        ensures
            poll is Some <==> old(self)@.deadline(now@) <= u64::MAX,
            poll is None ==> final(self)@ == old(self)@,
            poll matches Some(poll) ==> {
                &&& final(self)@ == old(self)@.after_poll(now@)
                &&& poll is Ready <==> old(self)@.ready_at(now@)
                &&& poll matches TimerPoll::Pending(deadline) ==> deadline@ == old(self)@.deadline(
                    now@,
                )
            },
    {
        broadcast use Instant::lemma_view_injective;

        let fits = match self.state {
            TimerState::After(duration) => now.checked_add(duration).is_some(),
            _ => true,
        };
        if fits {
            Some(self.poll(now))
        } else {
            None
        }
    }
}

/// The error of a race that the deadline won.
#[derive(Debug, Copy, Clone, PartialEq, Eq, Structural)]
pub struct TimeoutError;

/// The result of polling a race between a computation and a deadline.
#[derive(Debug)]
pub enum RacePoll<T> {
    /// The race is over: the computation's result, or the time-out.
    Ready(Result<T, TimeoutError>),
    /// Both are still on their way: the caller has to ask the time driver
    /// for a wake-up at this instant.
    Pending(Instant),
}

/// A computation that races against a deadline.
#[derive(Debug, Copy, Clone)]
pub struct WithTimeout {
    timer: Timer,
    resolved: bool,
}

/// A race as a mathematical value.
pub ghost struct WithTimeoutView {
    pub timer: TimerView,
    /// The race is over.
    pub resolved: bool,
}

impl View for WithTimeout {
    type V = WithTimeoutView;

    closed spec fn view(&self) -> WithTimeoutView {
        WithTimeoutView { timer: self.timer@, resolved: self.resolved }
    }
}

impl WithTimeoutView {
    /// The outcome of a poll at `now` in which the computation gave
    /// `inner`: its result if it completed, else the time-out if the
    /// deadline has come, else nothing yet.
    pub open spec fn outcome<T>(self, inner: Option<T>, now: nat) -> Option<
        Result<T, TimeoutError>,
    > {
        match inner {
            Some(value) => Some(Ok(value)),
            None => if self.timer.ready_at(now) {
                Some(Err(TimeoutError))
            } else {
                None
            },
        }
    }

    /// The race after that poll. A computation that completed leaves the
    /// timer as it was: the timer is not polled then.
    pub open spec fn after_poll<T>(self, inner: Option<T>, now: nat) -> WithTimeoutView {
        WithTimeoutView {
            timer: if inner is Some {
                self.timer
            } else {
                self.timer.after_poll(now)
            },
            resolved: self.outcome(inner, now) is Some,
        }
    }

    /// The outcome of a whole race: of the first poll that has one, where
    /// `polls` gives for each poll what the computation gave and the time.
    pub open spec fn run<T>(self, polls: Seq<(Option<T>, nat)>) -> Option<Result<T, TimeoutError>>
        decreases polls.len(),
    {
        if polls.len() == 0 {
            None
        } else {
            match self.outcome(polls[0].0, polls[0].1) {
                Some(result) => Some(result),
                None => self.after_poll(polls[0].0, polls[0].1).run(polls.skip(1)),
            }
        }
    }
}

/// A race between a computation and a deadline `timeout` after the first
/// poll.
pub fn with_timeout(timeout: Duration) -> (race: WithTimeout)
    ensures
        race@ == (WithTimeoutView { timer: TimerView::After(timeout@), resolved: false }),
{
    WithTimeout { timer: Timer::after(timeout), resolved: false }
}

/// A race between a computation and the deadline `at`.
pub fn with_deadline(at: Instant) -> (race: WithTimeout)
    ensures
        race@ == (WithTimeoutView { timer: TimerView::At(at@), resolved: false }),
{
    WithTimeout { timer: Timer::at(at), resolved: false }
}

impl WithTimeout {
    /// Whether the race is over.
    pub fn is_resolved(&self) -> (resolved: bool)
        ensures
            resolved == self@.resolved,
    {
        self.resolved
    }

    /// Polls the race at the instant `now`. `inner` is what polling the
    /// computation has just given: its result if it completed.
    ///
    /// The computation wins if it completed, also where the deadline has
    /// come as well; the deadline is then not looked at. Else the deadline
    /// wins if it has come. A race that is over must not be polled again.
    pub fn poll<T>(&mut self, inner: Option<T>, now: Instant) -> (poll: RacePoll<T>)
        requires
            !old(self)@.resolved,
            old(self)@.timer.deadline(now@) <= u64::MAX,
        ensures
            final(self)@ == old(self)@.after_poll(inner, now@),
            match poll {
                RacePoll::Ready(result) => old(self)@.outcome(inner, now@) == Some(result),
                RacePoll::Pending(deadline) => old(self)@.outcome(inner, now@) is None
                    && deadline@ == old(self)@.timer.deadline(now@),
            },
    {
        match inner {
            Some(value) => {
                self.resolved = true;
                RacePoll::Ready(Ok(value))
            },
            None => match self.timer.poll(now) {
                TimerPoll::Ready => {
                    self.resolved = true;
                    RacePoll::Ready(Err(TimeoutError))
                },
                TimerPoll::Pending(deadline) => RacePoll::Pending(deadline),
            },
        }
    }

    /// Polls the race as [`WithTimeout::poll`] does, unless it is over or
    /// the deadline would have to be fixed beyond the last instant that can
    /// be represented; the race is then left as it was.
    pub fn checked_poll<T>(&mut self, inner: Option<T>, now: Instant) -> (poll: Option<RacePoll<T>>)
        ensures
            poll is Some <==> !old(self)@.resolved && (inner is Some || old(self)@.timer.deadline(
                now@,
            ) <= u64::MAX),
            poll is None ==> final(self)@ == old(self)@,
            poll matches Some(poll) ==> {
                &&& final(self)@ == old(self)@.after_poll(inner, now@)
                &&& match poll {
                    RacePoll::Ready(result) => old(self)@.outcome(inner, now@) == Some(result),
                    RacePoll::Pending(deadline) => old(self)@.outcome(inner, now@) is None
                        && deadline@ == old(self)@.timer.deadline(now@),
                }
            },
    {
        if self.resolved {
            return None;
        }
        match inner {
            Some(value) => {
                self.resolved = true;
                Some(RacePoll::Ready(Ok(value)))
            },
            None => match self.timer.checked_poll(now) {
                Some(TimerPoll::Ready) => {
                    self.resolved = true;
                    Some(RacePoll::Ready(Err(TimeoutError)))
                },
                Some(TimerPoll::Pending(deadline)) => Some(RacePoll::Pending(deadline)),
                None => None,
            },
        }
    }
}

/// A race whose timer is armed ends with the computation's result if the
/// computation completes at a poll before which the deadline was never seen
/// to have come, and with a time-out if the deadline is seen to have come at
/// a poll up to which the computation never completed.
pub proof fn lemma_armed_race<T>(race: WithTimeoutView, polls: Seq<(Option<T>, nat)>, k: int)
    requires
        race.timer is Armed,
        0 <= k < polls.len(),
        forall|i: int|
            0 <= i < k ==> (#[trigger] polls[i]).0 is None && polls[i].1 < race.timer->Armed_0,
    ensures
        polls[k].0 matches Some(value) ==> race.run(polls) == Some(
            Ok::<T, TimeoutError>(value),
        ),
        polls[k].0 is None && polls[k].1 >= race.timer->Armed_0 ==> race.run(polls) == Some(
            Err::<T, TimeoutError>(TimeoutError),
        ),
    decreases k,
{
    if k > 0 {
        let next = race.after_poll(polls[0].0, polls[0].1);
        let rest = polls.skip(1);
        assert forall|i: int| 0 <= i < k - 1 implies (#[trigger] rest[i]).0 is None && rest[i].1
            < next.timer->Armed_0 by {
            assert(rest[i] == polls[i + 1]);
        }
        assert(rest[k - 1] == polls[k]);
        lemma_armed_race(next, rest, k - 1);
    }
}

/// The two ways a race with a time-out can end, and that it ends in one of
/// them only.
///
/// The deadline is `timeout` after the first poll. If the computation
/// completes at poll `k`, and no poll after the first and before `k` saw the
/// deadline come, the race gives the computation's result. If a poll `k`
/// after the first sees the deadline come, the computation has not completed
/// by then and no poll before saw the deadline come, the race gives the
/// time-out. A race has one outcome, so it never gives both.
pub proof fn lemma_timeout_race<T>(timeout: nat, polls: Seq<(Option<T>, nat)>, k: int)
    requires
        0 <= k < polls.len(),
        forall|i: int| 0 <= i < k ==> (#[trigger] polls[i]).0 is None,
        forall|i: int| 1 <= i < k ==> (#[trigger] polls[i]).1 < polls[0].1 + timeout,
    ensures
        polls[k].0 matches Some(value) ==> (WithTimeoutView {
            timer: TimerView::After(timeout),
            resolved: false,
        }).run(polls) == Some(Ok::<T, TimeoutError>(value)),
        k >= 1 && polls[k].0 is None && polls[k].1 >= polls[0].1 + timeout ==> (WithTimeoutView {
            timer: TimerView::After(timeout),
            resolved: false,
        }).run(polls) == Some(Err::<T, TimeoutError>(TimeoutError)),
{
    let race = WithTimeoutView { timer: TimerView::After(timeout), resolved: false };
    if k > 0 {
        let next = race.after_poll(polls[0].0, polls[0].1);
        let rest = polls.skip(1);
        assert forall|i: int| 0 <= i < k - 1 implies (#[trigger] rest[i]).0 is None && rest[i].1
            < next.timer->Armed_0 by {
            assert(rest[i] == polls[i + 1]);
        }
        assert(rest[k - 1] == polls[k]);
        lemma_armed_race(next, rest, k - 1);
    }
}

/// A source of deadlines that lie a fixed period apart.
#[derive(Debug, Copy, Clone)]
pub struct Ticker {
    expires_at: Instant,
    duration: Duration,
}

/// A ticker as a mathematical value, in ticks.
pub ghost struct TickerView {
    /// The next deadline.
    pub expires_at: nat,
    /// The time from one deadline to the next.
    pub period: nat,
}

impl View for Ticker {
    type V = TickerView;

    closed spec fn view(&self) -> TickerView {
        TickerView { expires_at: self.expires_at@, period: self.duration@ }
    }
}

impl TickerView {
    /// The ticker after a poll at `now`: where the deadline has come the
    /// next one lies one period after it, whatever the time is now.
    pub open spec fn after_poll(self, now: nat) -> TickerView {
        if self.expires_at <= now {
            TickerView { expires_at: self.expires_at + self.period, ..self }
        } else {
            self
        }
    }

    /// The deadlines that a run of polls at the instants `nows` reports as
    /// come, in their order.
    pub open spec fn yields(self, nows: Seq<nat>) -> Seq<nat>
        decreases nows.len(),
    {
        if nows.len() == 0 {
            Seq::empty()
        } else {
            let before = self.yields(nows.drop_last());
            let ticker = self.after_polls(nows.drop_last());
            if ticker.expires_at <= nows.last() {
                before.push(ticker.expires_at)
            } else {
                before
            }
        }
    }

    /// The ticker after polls at the instants `nows`.
    pub open spec fn after_polls(self, nows: Seq<nat>) -> TickerView
        decreases nows.len(),
    {
        if nows.len() == 0 {
            self
        } else {
            self.after_polls(nows.drop_last()).after_poll(nows.last())
        }
    }
}

/// The result of polling a ticker.
#[derive(Debug, Copy, Clone, PartialEq, Eq, Structural)]
pub enum TickerPoll {
    /// This deadline has come.
    Ready(Instant),
    /// Suspended: the caller has to ask the time driver for a wake-up at
    /// this instant.
    Pending(Instant),
}

impl Ticker {
    /// A ticker whose first deadline lies `duration` after `now`, the
    /// current instant. That deadline has to be representable.
    pub fn every(now: Instant, duration: Duration) -> (ticker: Ticker)
        requires
            now@ + duration@ <= u64::MAX,
        ensures
            ticker@ == (TickerView { expires_at: now@ + duration@, period: duration@ }),
    {
        broadcast use Instant::lemma_spec_from_ticks;

        Ticker { expires_at: now + duration, duration }
    }

    /// The next deadline.
    pub fn expires_at(&self) -> (deadline: Instant)
        ensures
            deadline@ == self@.expires_at,
    {
        self.expires_at
    }

    /// The time from one deadline to the next.
    pub fn period(&self) -> (period: Duration)
        ensures
            period@ == self@.period,
    {
        self.duration
    }

    /// Starts the ticker anew: the next deadline lies one period after
    /// `now`, the current instant.
    pub fn reset(&mut self, now: Instant)
        requires
            now@ + old(self)@.period <= u64::MAX,
        ensures
            final(self)@ == (TickerView { expires_at: now@ + old(self)@.period, ..old(self)@ }),
    {
        broadcast use Instant::lemma_spec_from_ticks;

        self.expires_at = now + self.duration;
    }

    /// Starts the ticker anew with `deadline` as the next deadline.
    pub fn reset_at(&mut self, deadline: Instant)
        ensures
            final(self)@ == (TickerView { expires_at: deadline@, ..old(self)@ }),
    {
        self.expires_at = deadline;
    }

    /// Polls the ticker at the instant `now`.
    ///
    /// Where the deadline has come it is reported, and the next one is set
    /// one period after it: after the deadline, not after `now`, so that a
    /// late poll delays no later deadline. The next deadline has to be
    /// representable.
    pub fn poll_next(&mut self, now: Instant) -> (poll: TickerPoll)
        requires
            old(self)@.expires_at <= now@ ==> old(self)@.expires_at + old(self)@.period <= u64::MAX,
        ensures
            final(self)@ == old(self)@.after_poll(now@),
            match poll {
                TickerPoll::Ready(deadline) => old(self)@.expires_at <= now@ && deadline@ == old(
                    self,
                )@.expires_at,
                TickerPoll::Pending(deadline) => old(self)@.expires_at > now@ && deadline@ == old(
                    self,
                )@.expires_at,
            },
    {
        broadcast use Instant::lemma_spec_from_ticks;

        let deadline = self.expires_at;
        if deadline.as_ticks() <= now.as_ticks() {
            self.expires_at = deadline + self.duration;
            TickerPoll::Ready(deadline)
        } else {
            TickerPoll::Pending(deadline)
        }
    }

    /// Polls the ticker as [`Ticker::poll_next`] does, unless the deadline
    /// has come and the one after it cannot be represented; the ticker is
    /// then left as it was.
    pub fn checked_poll_next(&mut self, now: Instant) -> (poll: Option<TickerPoll>)
        ensures
            poll is Some <==> (old(self)@.expires_at <= now@ ==> old(self)@.expires_at + old(
                self,
            )@.period <= u64::MAX),
            poll is None ==> final(self)@ == old(self)@,
            poll matches Some(poll) ==> {
                &&& final(self)@ == old(self)@.after_poll(now@)
                &&& match poll {
                    TickerPoll::Ready(deadline) => old(self)@.expires_at <= now@ && deadline@
                        == old(self)@.expires_at,
                    TickerPoll::Pending(deadline) => old(self)@.expires_at > now@ && deadline@
                        == old(self)@.expires_at,
                }
            },
    {
        if self.expires_at.as_ticks() <= now.as_ticks() && self.expires_at.checked_add(
            self.duration,
        ).is_none() {
            None
        } else {
            Some(self.poll_next(now))
        }
    }
}

/// The deadlines of a ticker lie exactly one period apart, however late it
/// is polled: started at `start` with period `period`, the deadlines that
/// any run of polls reports are `start + period`, `start + 2 * period` and
/// so on, none left out.
pub proof fn lemma_ticker_no_drift(start: nat, period: nat, nows: Seq<nat>)
    ensures
        ({
            let ticker = TickerView { expires_at: start + period, period };
            &&& forall|i: int|
                0 <= i < ticker.yields(nows).len() ==> #[trigger] ticker.yields(nows)[i] == start
                    + (i + 1) * period
            &&& ticker.after_polls(nows).expires_at == start + (ticker.yields(nows).len() + 1)
                * period
            &&& ticker.after_polls(nows).period == period
        }),
    decreases nows.len(),
{
    let ticker = TickerView { expires_at: start + period, period };
    if nows.len() > 0 {
        lemma_ticker_no_drift(start, period, nows.drop_last());
        let n = ticker.yields(nows.drop_last()).len();
        assert(start + (n + 1) * period + period == start + (n + 2) * period) by (nonlinear_arith);
    } else {
        assert(start + (0 + 1) * period == start + period) by (nonlinear_arith);
    }
}

} // verus!

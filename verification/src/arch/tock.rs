//! The executor for processes of the Tock kernel.
//!
//! A process has one thread. Events reach it as upcalls, which the kernel
//! delivers only while the process yields; an upcall that wakes a task sets
//! a flag. The executor's loop looks at the flag: without work it yields
//! until an upcall has come, with work it polls one pass of tasks and then
//! yields only to let upcalls that are due come in.

use crate::executor::{ExecutorState, ExecutorView, Pender};
use core::sync::atomic::Ordering;
use portable_atomic::AtomicBool;
use vstd::prelude::*;

verus! {

/// `portable_atomic::AtomicBool`, carried as an opaque value: nothing of
/// what it holds is visible to a proof.
#[verifier::external_type_specification]
#[verifier::external_body]
pub struct ExAtomicBool(AtomicBool);

/// Makes a flag that is not set, with `portable_atomic::AtomicBool::new`.
#[verifier::external_body]
fn flag_new() -> (flag: AtomicBool) {
    AtomicBool::new(false)
}

/// Sets the flag, with `portable_atomic::AtomicBool::store` in sequentially
/// consistent order. Whoever shares the flag may change it at any time, so
/// nothing is claimed about what it holds afterwards.
#[verifier::external_body]
fn flag_set(flag: &AtomicBool) {
    flag.store(true, Ordering::SeqCst)
}

/// Clears the flag and returns what it held, with
/// `portable_atomic::AtomicBool::swap` in sequentially consistent order.
/// Whoever shares the flag may have set it at any time, so nothing is
/// claimed about the result.
#[verifier::external_body]
fn flag_take(flag: &AtomicBool) -> (was_set: bool) {
    flag.swap(false, Ordering::SeqCst)
}

/// The flag by which wakers tell the executor that there is work. It is
/// shared between the executor's loop and every context that may wake a
/// task.
pub struct SignalWork {
    flag: AtomicBool,
}

impl SignalWork {
    /// A flag that is not set.
    pub fn new() -> (signal: SignalWork) {
        SignalWork { flag: flag_new() }
    }

    /// Says whether the executor was notified since the last call, and
    /// takes the notification back.
    pub fn take(&self) -> (notified: bool) {
        flag_take(&self.flag)
    }
}

impl Pender for SignalWork {
    /// Sets the flag.
    fn pend(&self) {
        flag_set(&self.flag)
    }
}

/// What the executor's loop does in one turn.
#[derive(Clone, Copy, Debug, PartialEq, Eq, Structural)]
pub enum Turn {
    /// Nothing was signalled: yield to the kernel until an upcall has run.
    YieldWait,
    /// Work was signalled: poll each task of the pass that has begun, then
    /// yield to the kernel without waiting.
    Poll,
}

/// The executor after a turn that found the flag set (`signalled`) or not:
/// with work signalled a pass has begun, else the executor waits.
pub open spec fn after_turn(v: ExecutorView, signalled: bool) -> ExecutorView {
    if signalled {
        v.after_drain()
    } else {
        ExecutorView { state: ExecutorState::Waiting, ..v }
    }
}

/// Tock executor.
pub struct Executor {
    /// The slots, the run queue and the pass in progress.
    pub inner: crate::executor::Executor,
}

impl Executor {
    /// Thread mode executor, using `yield` and upcalls, with `capacity`
    /// task slots.
    ///
    /// This executor uses `yield` to pass control to the kernel when there
    /// is no more work to do, allowing the event handlers to run, and awake
    /// tasks.
    pub fn new(capacity: usize) -> (executor: Executor)
        ensures
            executor.inner.wf(),
            executor.inner@ == ExecutorView::fresh(capacity as nat),
    {
        Executor { inner: crate::executor::Executor::new(capacity) }
    }

    /// One turn of the executor's loop, given whether work was signalled.
    ///
    /// With work signalled the run queue is drained into a new pass, and
    /// the caller polls each task that [`crate::executor::Executor::next`]
    /// hands out. Without, the executor goes to wait. No pass may be in
    /// progress.
    pub fn turn_on(&mut self, signalled: bool) -> (turn: Turn)
        requires
            old(self).inner.wf(),
            !old(self).inner@.in_pass(),
        ensures
            final(self).inner.wf(),
            final(self).inner@ == after_turn(old(self).inner@, signalled),
            turn == if signalled {
                Turn::Poll
            } else {
                Turn::YieldWait
            },
    {
        if !signalled {
            self.inner.wait();
            Turn::YieldWait
        } else {
            self.inner.drain();
            Turn::Poll
        }
    }

    /// One turn of the executor's loop: takes the notification from
    /// `signal`, if there is one, and goes on as [`Executor::turn_on`]
    /// says. No pass may be in progress.
    pub fn turn(&mut self, signal: &SignalWork) -> (turn: Turn)
        requires
            old(self).inner.wf(),
            !old(self).inner@.in_pass(),
        ensures
            final(self).inner.wf(),
            final(self).inner@ == after_turn(old(self).inner@, turn == Turn::Poll),
    {
        let signalled = signal.take();
        self.turn_on(signalled)
    }
}

} // verus!

use embassy_core::arch::tock::{Executor, SignalWork, Turn};
use embassy_core::executor::{ExecutorState, Pender, PollOutcome, TaskRef, TaskState};

#[test]
fn the_signal_keeps_one_notification() {
    let pender = SignalWork::new();
    assert!(!pender.take());
    pender.pend();
    assert!(pender.take());
    assert!(!pender.take());
    pender.pend();
    pender.pend();
    assert!(pender.take());
    assert!(!pender.take());
}

#[test]
fn the_signal_is_set_through_a_shared_reference() {
    let pender = SignalWork::new();
    let first: &SignalWork = &pender;
    let second: &SignalWork = &pender;
    first.pend();
    second.pend();
    assert!(pender.take());
    assert!(!first.take());
}

#[test]
fn without_a_signal_the_executor_yields_and_waits() {
    let mut executor = Executor::new(2);
    assert_eq!(executor.turn_on(false), Turn::YieldWait);
    assert_eq!(executor.inner.state(), ExecutorState::Waiting);
    // A task that is queued but was not signalled is not looked at.
    let t = executor.inner.spawn().unwrap();
    assert_eq!(executor.turn_on(false), Turn::YieldWait);
    assert_eq!(executor.inner.task_state(t), TaskState::Queued);
    assert_eq!(executor.inner.next(), None);
}

#[test]
fn with_a_signal_the_executor_polls_one_pass() {
    let pender = SignalWork::new();
    let mut executor = Executor::new(2);
    let a = executor.inner.spawn_and_pend(&pender).unwrap();
    let b = executor.inner.spawn_and_pend(&pender).unwrap();
    assert_eq!(executor.turn(&pender), Turn::Poll);
    assert_eq!(executor.inner.next(), Some(a));
    executor.inner.wake_and_pend(a, &pender);
    executor.inner.finish(PollOutcome::Pending);
    assert_eq!(executor.inner.next(), Some(b));
    executor.inner.finish(PollOutcome::Ready);
    assert_eq!(executor.inner.next(), None);
    // `a` woke itself: the signal is set again and the next turn polls it.
    assert_eq!(executor.turn(&pender), Turn::Poll);
    assert_eq!(executor.inner.next(), Some(a));
    executor.inner.finish(PollOutcome::Pending);
    assert_eq!(executor.inner.next(), None);
    assert_eq!(executor.turn(&pender), Turn::YieldWait);
    assert_eq!(executor.inner.state(), ExecutorState::Waiting);
}

#[test]
fn a_signal_without_work_gives_an_empty_pass() {
    let pender = SignalWork::new();
    let mut executor = Executor::new(1);
    pender.pend();
    assert_eq!(executor.turn(&pender), Turn::Poll);
    assert_eq!(executor.inner.next(), None);
    assert_eq!(executor.inner.current(), None::<TaskRef>);
    assert_eq!(executor.turn(&pender), Turn::YieldWait);
}

#[test]
fn a_failed_spawn_notifies_nobody() {
    let signal = SignalWork::new();
    let mut executor = Executor::new(1);
    assert!(executor.inner.spawn_and_pend(&signal).is_ok());
    assert!(signal.take());
    assert!(executor.inner.spawn_and_pend(&signal).is_err());
    assert!(!signal.take());
}

#[test]
fn a_wake_notifies_even_when_the_task_is_queued_already() {
    let signal = SignalWork::new();
    let mut executor = Executor::new(1);
    let a = executor.inner.spawn().unwrap();
    assert_eq!(executor.inner.task_state(a), TaskState::Queued);
    executor.inner.wake_and_pend(a, &signal);
    assert!(signal.take());
    assert_eq!(executor.inner.task_state(a), TaskState::Queued);
}

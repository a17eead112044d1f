use embassy_core::executor::{
    Action, Executor, ExecutorState, PollOutcome, SpawnError, TaskRef, TaskState,
};

fn task(index: usize) -> TaskRef {
    TaskRef { index }
}

#[test]
fn a_new_executor_is_idle_and_empty() {
    let executor = Executor::new(3);
    assert_eq!(executor.capacity(), 3);
    assert_eq!(executor.state(), ExecutorState::Idle);
    assert_eq!(executor.current(), None);
    for index in 0..4 {
        assert_eq!(executor.task_state(task(index)), TaskState::Dormant);
    }
}

#[test]
fn spawning_succeeds_once_per_slot_and_then_fails() {
    for capacity in [0usize, 1, 2, 5] {
        let mut executor = Executor::new(capacity);
        for index in 0..capacity {
            assert_eq!(executor.spawn(), Ok(task(index)));
            assert_eq!(executor.task_state(task(index)), TaskState::Queued);
        }
        assert_eq!(executor.spawn(), Err(SpawnError::Busy));
        assert_eq!(executor.spawn(), Err(SpawnError::Busy));
    }
}

#[test]
fn a_slot_is_free_again_once_its_task_has_completed() {
    let mut executor = Executor::new(2);
    assert_eq!(executor.must_spawn(), task(0));
    assert_eq!(executor.must_spawn(), task(1));
    assert_eq!(executor.spawn(), Err(SpawnError::Busy));
    assert_eq!(executor.step(), Action::Poll(task(0)));
    // Polling is not completing: the pool is still full.
    assert_eq!(executor.spawn(), Err(SpawnError::Busy));
    executor.finish(PollOutcome::Ready);
    assert_eq!(executor.task_state(task(0)), TaskState::Dormant);
    assert_eq!(executor.spawn(), Ok(task(0)));
    assert_eq!(executor.spawn(), Err(SpawnError::Busy));
}

#[test]
fn the_life_of_a_task() {
    let mut executor = Executor::new(1);
    let t = executor.spawn().unwrap();
    assert_eq!(executor.task_state(t), TaskState::Queued);
    assert_eq!(executor.step(), Action::Poll(t));
    assert_eq!(executor.state(), ExecutorState::Draining);
    assert_eq!(executor.current(), Some(t));
    assert_eq!(executor.task_state(t), TaskState::Running);
    executor.finish(PollOutcome::Pending);
    assert_eq!(executor.task_state(t), TaskState::Spawned);
    assert_eq!(executor.step(), Action::Wait);
    assert_eq!(executor.state(), ExecutorState::Waiting);
    assert!(executor.wake(t));
    assert_eq!(executor.task_state(t), TaskState::Queued);
    assert_eq!(executor.step(), Action::Poll(t));
    executor.finish(PollOutcome::PendingOnTimer);
    assert_eq!(executor.task_state(t), TaskState::TimerQueued);
    assert_eq!(executor.step(), Action::Wait);
    assert!(executor.wake(t));
    assert_eq!(executor.task_state(t), TaskState::Queued);
    assert_eq!(executor.step(), Action::Poll(t));
    executor.finish(PollOutcome::Ready);
    assert_eq!(executor.task_state(t), TaskState::Dormant);
    assert_eq!(executor.step(), Action::Wait);
}

#[test]
fn a_task_woken_twice_is_polled_once() {
    let mut executor = Executor::new(2);
    let a = executor.spawn().unwrap();
    let b = executor.spawn().unwrap();
    assert_eq!(executor.step(), Action::Poll(a));
    executor.finish(PollOutcome::Pending);
    assert_eq!(executor.step(), Action::Poll(b));
    executor.finish(PollOutcome::Pending);
    assert_eq!(executor.step(), Action::Wait);

    assert!(executor.wake(a));
    assert!(!executor.wake(a));
    assert!(!executor.wake(a));
    assert_eq!(executor.drain(), 1);
    assert_eq!(executor.next(), Some(a));
    executor.finish(PollOutcome::Pending);
    assert_eq!(executor.next(), None);
    assert_eq!(executor.drain(), 0);
}

#[test]
fn a_task_that_wakes_itself_is_polled_again_in_the_next_pass_only() {
    let mut executor = Executor::new(2);
    let a = executor.spawn().unwrap();
    let b = executor.spawn().unwrap();
    assert_eq!(executor.drain(), 2);
    assert_eq!(executor.next(), Some(a));
    // The poll of `a` fires its own waker, twice.
    assert!(executor.wake(a));
    assert!(!executor.wake(a));
    assert_eq!(executor.task_state(a), TaskState::Running);
    executor.finish(PollOutcome::Pending);
    assert_eq!(executor.task_state(a), TaskState::Queued);
    // The pass goes on with `b`, not with `a` again.
    assert_eq!(executor.next(), Some(b));
    executor.finish(PollOutcome::Pending);
    assert_eq!(executor.next(), None);
    // The next pass holds `a` alone.
    assert_eq!(executor.drain(), 1);
    assert_eq!(executor.next(), Some(a));
    executor.finish(PollOutcome::Pending);
    assert_eq!(executor.next(), None);
}

#[test]
fn a_task_woken_while_it_waits_in_the_pass_is_queued_for_the_next_one() {
    let mut executor = Executor::new(2);
    let a = executor.spawn().unwrap();
    let b = executor.spawn().unwrap();
    assert_eq!(executor.step(), Action::Poll(a));
    // The poll of `a` wakes `b`, which the pass has not reached yet.
    assert_eq!(executor.task_state(b), TaskState::Running);
    assert!(executor.wake(b));
    executor.finish(PollOutcome::Pending);
    assert_eq!(executor.step(), Action::Poll(b));
    executor.finish(PollOutcome::Pending);
    assert_eq!(executor.task_state(b), TaskState::Queued);
    assert_eq!(executor.step(), Action::Poll(b));
    executor.finish(PollOutcome::Pending);
    assert_eq!(executor.step(), Action::Wait);
}

#[test]
fn a_task_that_completes_is_not_polled_again_though_it_was_woken() {
    let mut executor = Executor::new(1);
    let a = executor.spawn().unwrap();
    assert_eq!(executor.step(), Action::Poll(a));
    assert!(executor.wake(a));
    executor.finish(PollOutcome::Ready);
    assert_eq!(executor.task_state(a), TaskState::Dormant);
    assert_eq!(executor.step(), Action::Wait);
    // The handle is stale now: it wakes nothing.
    assert!(!executor.wake(a));
    assert_eq!(executor.step(), Action::Wait);
    // The slot can be taken again.
    assert_eq!(executor.spawn(), Ok(a));
}

#[test]
fn a_task_woken_during_a_poll_that_suspends_on_a_timer_is_queued() {
    let mut executor = Executor::new(1);
    let a = executor.spawn().unwrap();
    assert_eq!(executor.step(), Action::Poll(a));
    assert!(executor.wake(a));
    executor.finish(PollOutcome::PendingOnTimer);
    assert_eq!(executor.task_state(a), TaskState::Queued);
    assert_eq!(executor.step(), Action::Poll(a));
}

#[test]
fn waking_a_handle_of_no_slot_does_nothing() {
    let mut executor = Executor::new(2);
    assert!(!executor.wake(task(0)));
    assert!(!executor.wake(task(2)));
    assert!(!executor.wake(task(usize::MAX)));
    assert_eq!(executor.task_state(task(usize::MAX)), TaskState::Dormant);
    assert_eq!(executor.step(), Action::Wait);
}

#[test]
fn tasks_are_polled_in_the_order_they_were_queued() {
    let mut executor = Executor::new(4);
    for _ in 0..4 {
        executor.must_spawn();
    }
    for index in 0..4 {
        assert_eq!(executor.step(), Action::Poll(task(index)));
        executor.finish(PollOutcome::Pending);
    }
    assert_eq!(executor.step(), Action::Wait);
    for index in [2usize, 0, 3] {
        assert!(executor.wake(task(index)));
    }
    for index in [2usize, 0, 3] {
        assert_eq!(executor.step(), Action::Poll(task(index)));
        executor.finish(PollOutcome::Pending);
    }
    assert_eq!(executor.step(), Action::Wait);
}

#[test]
fn waiting_is_recorded() {
    let mut executor = Executor::new(1);
    executor.wait();
    assert_eq!(executor.state(), ExecutorState::Waiting);
    executor.must_spawn();
    assert_eq!(executor.state(), ExecutorState::Waiting);
    assert_eq!(executor.drain(), 1);
    assert_eq!(executor.state(), ExecutorState::Draining);
}

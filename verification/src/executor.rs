//! The core of the executor: task slots, their life cycle, and the order in
//! which ready tasks are handed out to be polled.
//!
//! The executor never runs a task itself. It says which task to poll next,
//! the caller polls it and reports how the poll ended. Whatever wakes a task
//! in between (an interrupt, a timer, the task itself) is handed in as a call
//! of [`Executor::wake`].

use crate::run_queue::{
    dequeued, enqueued, lemma_dequeued, lemma_distinct_bounded, lemma_enqueued,
    lemma_reverse_same_items, RunQueue,
};
use vstd::prelude::*;

verus! {

/// What a task is doing, as seen from outside.
#[derive(Clone, Copy, Debug, PartialEq, Eq, Structural)]
pub enum TaskState {
    /// The slot holds no task.
    Dormant,
    /// The task is suspended and nothing has woken it yet.
    Spawned,
    /// The task waits in the run queue.
    Queued,
    /// The task was taken off the run queue for the pass in progress and
    /// its poll has not ended.
    Running,
    /// The task is suspended on a deadline that it registered.
    TimerQueued,
}

/// What a slot holds, apart from whether its task is in the run queue.
#[derive(Clone, Copy, Debug, PartialEq, Eq, Structural)]
pub enum Slot {
    Vacant,
    Suspended,
    SuspendedOnTimer,
    Polling,
}

/// A handle to a task: the index of its slot. Handles are freely copied,
/// and a handle to a task that has completed wakes nothing.
#[derive(Clone, Copy, Debug, PartialEq, Eq, Structural)]
pub struct TaskRef {
    pub index: usize,
}

/// Why a task could not be spawned.
#[derive(Clone, Copy, Debug, PartialEq, Eq, Structural)]
pub enum SpawnError {
    /// Every slot holds a task.
    Busy,
}

/// What the executor is doing.
#[derive(Clone, Copy, Debug, PartialEq, Eq, Structural)]
pub enum ExecutorState {
    /// Not started.
    Idle,
    /// Polling the tasks of a pass.
    Draining,
    /// Out of work: waiting to be notified.
    Waiting,
}

/// How a poll ended.
#[derive(Clone, Copy, Debug, PartialEq, Eq, Structural)]
pub enum PollOutcome {
    /// The task completed.
    Ready,
    /// The task suspended itself.
    Pending,
    /// The task suspended itself on a deadline.
    PendingOnTimer,
}

/// What the caller has to do next.
#[derive(Clone, Copy, Debug, PartialEq, Eq, Structural)]
pub enum Action {
    /// Poll the task named, then hand the outcome to [`Executor::finish`].
    Poll(TaskRef),
    /// Nothing is ready: block until notified.
    Wait,
}

/// How an executor is told that there is work. Each kind of target has its
/// own way: a flag that a loop looks at, an interrupt that is pended, a
/// callback on a host's event loop.
pub trait Pender {
    /// Notifies the executor, from whatever context a task may be woken in.
    /// Must neither block nor allocate.
    fn pend(&self);
}

/// The executor as a mathematical value.
pub ghost struct ExecutorView {
    /// What each slot holds.
    pub slots: Seq<Slot>,
    /// The run queue, the task that has waited longest first.
    pub queue: Seq<usize>,
    /// The tasks of the pass in progress that are still to be polled, the
    /// next one last.
    pub batch: Seq<usize>,
    /// The task that is being polled.
    pub current: Option<usize>,
    pub state: ExecutorState,
}

impl ExecutorView {
    /// The invariant of the executor.
    pub open spec fn wf(self) -> bool {
        &&& self.queue.no_duplicates()
        &&& self.batch.no_duplicates()
        &&& forall|i: int|
            0 <= i < self.queue.len() ==> {
                &&& (#[trigger] self.queue[i]) < self.slots.len()
                &&& (self.slots[self.queue[i] as int] == Slot::Suspended
                    || self.slots[self.queue[i] as int] == Slot::Polling)
            }
        &&& forall|i: int|
            0 <= i < self.batch.len() ==> {
                &&& (#[trigger] self.batch[i]) < self.slots.len()
                &&& self.slots[self.batch[i] as int] == Slot::Polling
            }
        &&& match self.current {
            Some(c) => c < self.slots.len() && self.slots[c as int] == Slot::Polling
                && !self.batch.contains(c),
            None => true,
        }
        &&& forall|t: usize|
            t < self.slots.len() && #[trigger] self.slots[t as int] == Slot::Polling
                ==> self.batch.contains(t) || self.current == Some(t)
        &&& (self.batch.len() > 0 || self.current is Some) ==> self.state
            == ExecutorState::Draining
    }

    /// The state of the task in slot `t`.
    pub open spec fn task_state(self, t: usize) -> TaskState {
        if t >= self.slots.len() {
            TaskState::Dormant
        } else {
            match self.slots[t as int] {
                Slot::Polling => TaskState::Running,
                Slot::Vacant => TaskState::Dormant,
                Slot::SuspendedOnTimer => TaskState::TimerQueued,
                Slot::Suspended => if self.queue.contains(t) {
                    TaskState::Queued
                } else {
                    TaskState::Spawned
                },
            }
        }
    }

    /// Slot `t` can take a new task.
    pub open spec fn free(self, t: usize) -> bool {
        t < self.slots.len() && self.slots[t as int] == Slot::Vacant
    }

    /// A pass is in progress.
    pub open spec fn in_pass(self) -> bool {
        self.batch.len() > 0 || self.current is Some
    }

    /// An executor of `capacity` empty slots that has not started.
    pub open spec fn fresh(capacity: nat) -> ExecutorView {
        ExecutorView {
            slots: Seq::new(capacity, |t: int| Slot::Vacant),
            queue: Seq::empty(),
            batch: Seq::empty(),
            current: None,
            state: ExecutorState::Idle,
        }
    }

    /// After a task was spawned into the free slot `t`: the slot is taken
    /// and its task is at the end of the run queue.
    pub open spec fn after_spawn(self, t: usize) -> ExecutorView {
        ExecutorView {
            slots: self.slots.update(t as int, Slot::Suspended),
            queue: self.queue.push(t),
            ..self
        }
    }

    /// After the task in slot `t` was woken: it is in the run queue, unless
    /// the slot is empty.
    pub open spec fn after_wake(self, t: usize) -> ExecutorView {
        if t < self.slots.len() && self.slots[t as int] != Slot::Vacant {
            ExecutorView {
                slots: if self.slots[t as int] == Slot::SuspendedOnTimer {
                    self.slots.update(t as int, Slot::Suspended)
                } else {
                    self.slots
                },
                queue: enqueued(self.queue, t),
                ..self
            }
        } else {
            self
        }
    }

    /// After the run queue was drained into a new pass.
    pub open spec fn after_drain(self) -> ExecutorView {
        ExecutorView {
            slots: Seq::new(
                self.slots.len(),
                |t: int|
                    if self.queue.contains(t as usize) {
                        Slot::Polling
                    } else {
                        self.slots[t]
                    },
            ),
            queue: Seq::empty(),
            batch: self.queue.reverse(),
            state: if self.queue.len() > 0 {
                ExecutorState::Draining
            } else {
                self.state
            },
            ..self
        }
    }

    /// After the next task of the pass was handed out.
    pub open spec fn after_next(self) -> ExecutorView {
        if self.batch.len() > 0 {
            ExecutorView { batch: self.batch.drop_last(), current: Some(self.batch.last()), ..self }
        } else {
            self
        }
    }

    /// After the poll of the current task ended with `outcome`.
    pub open spec fn after_finish(self, outcome: PollOutcome) -> ExecutorView {
        match self.current {
            Some(c) => match outcome {
                PollOutcome::Ready => ExecutorView {
                    slots: self.slots.update(c as int, Slot::Vacant),
                    queue: dequeued(self.queue, c),
                    current: None,
                    ..self
                },
                PollOutcome::Pending => ExecutorView {
                    slots: self.slots.update(c as int, Slot::Suspended),
                    current: None,
                    ..self
                },
                PollOutcome::PendingOnTimer => ExecutorView {
                    slots: self.slots.update(
                        c as int,
                        if self.queue.contains(c) {
                            Slot::Suspended
                        } else {
                            Slot::SuspendedOnTimer
                        },
                    ),
                    current: None,
                    ..self
                },
            },
            None => self,
        }
    }

    /// After one step of the executor's loop: the next task of the pass in
    /// progress is handed out; where the pass is over the run queue is
    /// drained into a new one; where that is empty the executor waits.
    pub open spec fn after_step(self) -> ExecutorView {
        if self.batch.len() > 0 {
            self.after_next()
        } else if self.queue.len() > 0 {
            self.after_drain().after_next()
        } else {
            ExecutorView { state: ExecutorState::Waiting, ..self }
        }
    }
}

/// Neither the run queue nor a pass ever holds more tasks than there are
/// slots.
pub proof fn lemma_queue_bounded(v: ExecutorView)
    requires
        v.wf(),
    ensures
        v.queue.len() <= v.slots.len(),
        v.batch.len() <= v.slots.len(),
{
    lemma_distinct_bounded(v.queue, v.slots.len());
    lemma_distinct_bounded(v.batch, v.slots.len());
}

/// A fresh executor satisfies the invariant.
pub proof fn lemma_fresh_wf(capacity: nat)
    ensures
        ExecutorView::fresh(capacity).wf(),
        forall|t: usize| t < capacity ==> ExecutorView::fresh(capacity).free(t),
{
}

/// Spawning into a free slot keeps the invariant.
pub proof fn lemma_spawn_wf(v: ExecutorView, t: usize)
    requires
        v.wf(),
        v.free(t),
    ensures
        v.after_spawn(t).wf(),
        v.after_spawn(t).task_state(t) == TaskState::Queued,
{
    let w = v.after_spawn(t);
    assert(!v.queue.contains(t)) by {
        if v.queue.contains(t) {
            let i = choose|i: int| 0 <= i < v.queue.len() && v.queue[i] == t;
            assert(v.slots[v.queue[i] as int] != Slot::Vacant);
        }
    }
    assert(!v.batch.contains(t)) by {
        if v.batch.contains(t) {
            let i = choose|i: int| 0 <= i < v.batch.len() && v.batch[i] == t;
            assert(v.slots[v.batch[i] as int] != Slot::Vacant);
        }
    }
    lemma_enqueued(v.queue, t);
    assert(w.queue == enqueued(v.queue, t));
    assert forall|i: int| 0 <= i < w.queue.len() implies {
        &&& (#[trigger] w.queue[i]) < w.slots.len()
        &&& (w.slots[w.queue[i] as int] == Slot::Suspended || w.slots[w.queue[i] as int]
            == Slot::Polling)
    } by {
        if i < v.queue.len() {
            assert(w.queue[i] == v.queue[i]);
        }
    }
    assert forall|i: int| 0 <= i < w.batch.len() implies {
        &&& (#[trigger] w.batch[i]) < w.slots.len()
        &&& w.slots[w.batch[i] as int] == Slot::Polling
    } by {
        assert(v.batch.contains(v.batch[i]));
    }
    assert forall|u: usize|
        u < w.slots.len() && #[trigger] w.slots[u as int] == Slot::Polling implies
        w.batch.contains(u) || w.current == Some(u) by {
        assert(v.slots[u as int] == Slot::Polling);
    }
    assert(w.queue[v.queue.len() as int] == t);
}

/// Waking a task keeps the invariant, and a second wake changes nothing.
pub proof fn lemma_wake_wf(v: ExecutorView, t: usize)
    requires
        v.wf(),
    ensures
        v.after_wake(t).wf(),
        v.after_wake(t).after_wake(t) == v.after_wake(t),
        v.after_wake(t).batch == v.batch,
        v.after_wake(t).current == v.current,
{
    let w = v.after_wake(t);
    if t < v.slots.len() && v.slots[t as int] != Slot::Vacant {
        lemma_enqueued(v.queue, t);
        assert forall|i: int| 0 <= i < w.queue.len() implies {
            &&& (#[trigger] w.queue[i]) < w.slots.len()
            &&& (w.slots[w.queue[i] as int] == Slot::Suspended || w.slots[w.queue[i] as int]
                == Slot::Polling)
        } by {
            if i < v.queue.len() {
                assert(w.queue[i] == v.queue[i]);
            }
        }
        assert forall|i: int| 0 <= i < w.batch.len() implies {
            &&& (#[trigger] w.batch[i]) < w.slots.len()
            &&& w.slots[w.batch[i] as int] == Slot::Polling
        } by {
            assert(v.slots[v.batch[i] as int] == Slot::Polling);
        }
        assert forall|u: usize|
            u < w.slots.len() && #[trigger] w.slots[u as int] == Slot::Polling implies
            w.batch.contains(u) || w.current == Some(u) by {
            assert(v.slots[u as int] == Slot::Polling);
        }
        assert(w.queue.contains(t));
        assert(w.after_wake(t).slots =~= w.slots);
    }
}

/// Draining the run queue into a new pass keeps the invariant; the pass
/// holds each task that was queued once.
pub proof fn lemma_drain_wf(v: ExecutorView)
    requires
        v.wf(),
        !v.in_pass(),
    ensures
        v.after_drain().wf(),
        v.after_drain().batch.no_duplicates(),
        forall|t: usize| v.after_drain().batch.contains(t) <==> v.queue.contains(t),
{
    let w = v.after_drain();
    lemma_reverse_same_items(v.queue);
    assert forall|i: int| 0 <= i < w.batch.len() implies {
        &&& (#[trigger] w.batch[i]) < w.slots.len()
        &&& w.slots[w.batch[i] as int] == Slot::Polling
    } by {
        let j = v.queue.len() - 1 - i;
        assert(w.batch[i] == v.queue[j]);
        assert(v.queue.contains(v.queue[j]));
    }
    assert forall|u: usize|
        u < w.slots.len() && #[trigger] w.slots[u as int] == Slot::Polling implies
        w.batch.contains(u) || w.current == Some(u) by {
        if !v.queue.contains(u) {
            assert(v.slots[u as int] == Slot::Polling);
        }
    }
}

/// Handing out the next task of a pass keeps the invariant.
pub proof fn lemma_next_wf(v: ExecutorView)
    requires
        v.wf(),
        v.current is None,
    ensures
        v.after_next().wf(),
{
    let w = v.after_next();
    if v.batch.len() > 0 {
        let c = v.batch.last();
        assert(v.batch[v.batch.len() - 1] == c);
        assert forall|i: int| 0 <= i < w.batch.len() implies {
            &&& (#[trigger] w.batch[i]) < w.slots.len()
            &&& w.slots[w.batch[i] as int] == Slot::Polling
        } by {
            assert(w.batch[i] == v.batch[i]);
        }
        assert(!w.batch.contains(c)) by {
            if w.batch.contains(c) {
                let i = choose|i: int| 0 <= i < w.batch.len() && w.batch[i] == c;
                assert(v.batch[i] == c);
            }
        }
        assert forall|u: usize|
            u < w.slots.len() && #[trigger] w.slots[u as int] == Slot::Polling implies
            w.batch.contains(u) || w.current == Some(u) by {
            if u != c {
                assert(v.batch.contains(u));
                let i = choose|i: int| 0 <= i < v.batch.len() && v.batch[i] == u;
                assert(w.batch[i] == u);
            }
        }
    }
}

/// Reporting the end of a poll keeps the invariant.
pub proof fn lemma_finish_wf(v: ExecutorView, outcome: PollOutcome)
    requires
        v.wf(),
    ensures
        v.after_finish(outcome).wf(),
{
    if v.current is Some {
        let c = v.current.unwrap();
        let w = v.after_finish(outcome);
        lemma_dequeued(v.queue, c);
        assert forall|i: int| 0 <= i < w.queue.len() implies {
            &&& (#[trigger] w.queue[i]) < w.slots.len()
            &&& (w.slots[w.queue[i] as int] == Slot::Suspended || w.slots[w.queue[i] as int]
                == Slot::Polling)
        } by {
            let u = w.queue[i];
            assert(w.queue.contains(u));
            assert(v.queue.contains(u));
            let j = choose|j: int| 0 <= j < v.queue.len() && v.queue[j] == u;
            assert(v.slots[v.queue[j] as int] != Slot::Vacant);
        }
        assert forall|i: int| 0 <= i < w.batch.len() implies {
            &&& (#[trigger] w.batch[i]) < w.slots.len()
            &&& w.slots[w.batch[i] as int] == Slot::Polling
        } by {
            assert(v.batch.contains(v.batch[i]));
        }
        assert forall|u: usize|
            u < w.slots.len() && #[trigger] w.slots[u as int] == Slot::Polling implies
            w.batch.contains(u) || w.current == Some(u) by {
            assert(v.slots[u as int] == Slot::Polling);
        }
    }
}

/// One step of the executor's loop keeps the invariant.
pub proof fn lemma_step_wf(v: ExecutorView)
    requires
        v.wf(),
        v.current is None,
    ensures
        v.after_step().wf(),
        v.after_step().current is None <==> v.batch.len() == 0 && v.queue.len() == 0,
        v.after_step().current is None ==> v.after_step().state == ExecutorState::Waiting,
        v.after_step().current is Some ==> v.after_step().state == ExecutorState::Draining,
{
    if v.batch.len() > 0 {
        lemma_next_wf(v);
    } else if v.queue.len() > 0 {
        lemma_drain_wf(v);
        lemma_reverse_same_items(v.queue);
        lemma_next_wf(v.after_drain());
    }
}

/// The life of a task, state by state.
///
/// A woken task is queued, unless it is being polled, which it stays, or
/// its slot is empty, which it stays. The task that is handed out is
/// running. When its poll ends it is dormant if it completed; else it is
/// queued if it was woken meanwhile, and suspended, on a timer or not, if it
/// was not. No step touches the state of a task that it is not about.
pub proof fn lemma_life_cycle(v: ExecutorView, t: usize, outcome: PollOutcome)
    requires
        v.wf(),
        t < v.slots.len(),
    ensures
        v.after_wake(t).task_state(t) == match v.task_state(t) {
            TaskState::Dormant => TaskState::Dormant,
            TaskState::Running => TaskState::Running,
            _ => TaskState::Queued,
        },
        forall|u: usize| u != t ==> v.after_wake(t).task_state(u) == v.task_state(u),
        v.current is None && v.batch.len() > 0 ==> {
            &&& v.task_state(v.batch.last()) == TaskState::Running
            &&& v.after_next().task_state(v.batch.last()) == TaskState::Running
            &&& forall|u: usize| v.after_next().task_state(u) == v.task_state(u)
        },
        v.current == Some(t) ==> v.after_finish(outcome).task_state(t) == match outcome {
            PollOutcome::Ready => TaskState::Dormant,
            PollOutcome::Pending => if v.queue.contains(t) {
                TaskState::Queued
            } else {
                TaskState::Spawned
            },
            PollOutcome::PendingOnTimer => if v.queue.contains(t) {
                TaskState::Queued
            } else {
                TaskState::TimerQueued
            },
        },
        v.current is Some ==> forall|u: usize|
            Some(u) != v.current ==> v.after_finish(outcome).task_state(u) == v.task_state(u),
        !v.in_pass() ==> forall|u: usize|
            v.after_drain().task_state(u) == if v.task_state(u) == TaskState::Queued {
                TaskState::Running
            } else {
                v.task_state(u)
            },
{
    lemma_enqueued(v.queue, t);
    if v.current is None && v.batch.len() > 0 {
        assert(v.batch[v.batch.len() - 1] == v.batch.last());
    }
    if v.current is Some {
        let c = v.current.unwrap();
        lemma_dequeued(v.queue, c);
    }
    if !v.in_pass() {
        let w = v.after_drain();
        assert forall|u: usize| w.task_state(u) == if v.task_state(u) == TaskState::Queued {
            TaskState::Running
        } else {
            v.task_state(u)
        } by {
            if u < v.slots.len() && v.queue.contains(u) {
                let i = choose|i: int| 0 <= i < v.queue.len() && v.queue[i] == u;
                assert(v.slots[v.queue[i] as int] != Slot::Vacant);
            }
        }
    }
}

/// A task that is woken twice before the next pass is polled once in it:
/// the pass holds it, and holds no task twice.
pub proof fn lemma_woken_twice_polled_once(v: ExecutorView, t: usize)
    requires
        v.wf(),
        !v.in_pass(),
        t < v.slots.len(),
        v.slots[t as int] != Slot::Vacant,
    ensures
        v.after_wake(t).after_wake(t).after_drain().batch.no_duplicates(),
        v.after_wake(t).after_wake(t).after_drain().batch.contains(t),
        v.after_wake(t).after_wake(t).after_drain().task_state(t) == TaskState::Running,
{
    lemma_wake_wf(v, t);
    let w = v.after_wake(t);
    lemma_enqueued(v.queue, t);
    lemma_drain_wf(w);
}

/// An executor of `capacity` slots after `count` tasks were spawned into it
/// and nothing else was done.
pub open spec fn filled(capacity: nat, count: nat) -> ExecutorView {
    ExecutorView {
        slots: Seq::new(
            capacity,
            |t: int|
                if t < count {
                    Slot::Suspended
                } else {
                    Slot::Vacant
                },
        ),
        queue: Seq::new(count, |i: int| i as usize),
        batch: Seq::empty(),
        current: None,
        state: ExecutorState::Idle,
    }
}

/// Spawning into a fresh executor of `capacity` slots succeeds `capacity`
/// times in a row, taking the slots in their order, and then fails: after
/// `count` spawns the lowest free slot is `count` while one is left, and
/// none is free when `count` has reached `capacity`.
pub proof fn lemma_spawn_fills_pool(capacity: nat, count: nat)
    requires
        count <= capacity <= usize::MAX,
    ensures
        filled(capacity, 0) == ExecutorView::fresh(capacity),
        filled(capacity, count).wf(),
        count < capacity ==> {
            &&& filled(capacity, count).free(count as usize)
            &&& forall|u: usize| u < count ==> !filled(capacity, count).free(u)
            &&& filled(capacity, count).after_spawn(count as usize) == filled(
                capacity,
                count + 1,
            )
        },
        count == capacity ==> forall|u: usize| !filled(capacity, count).free(u),
{
    let v = filled(capacity, count);
    assert(filled(capacity, 0).slots =~= ExecutorView::fresh(capacity).slots);
    assert(filled(capacity, 0).queue =~= ExecutorView::fresh(capacity).queue);
    if count < capacity {
        let w = v.after_spawn(count as usize);
        let x = filled(capacity, count + 1);
        assert(w.slots =~= x.slots);
        assert(w.queue =~= x.queue);
    }
}

/// The executor's core: the slots, the run queue and the pass in progress.
pub struct Executor {
    slots: Vec<Slot>,
    run_queue: RunQueue,
    batch: Vec<usize>,
    current: Option<usize>,
    state: ExecutorState,
}

impl View for Executor {
    type V = ExecutorView;

    closed spec fn view(&self) -> ExecutorView {
        ExecutorView {
            slots: self.slots@,
            queue: self.run_queue@,
            batch: self.batch@,
            current: self.current,
            state: self.state,
        }
    }
}

impl Executor {
    /// The executor is consistent within itself and satisfies the
    /// invariant.
    pub closed spec fn wf(&self) -> bool {
        &&& self.run_queue.wf()
        &&& self.run_queue.spec_capacity() == self.slots@.len()
        &&& self@.wf()
    }

    /// A well-formed executor satisfies the invariant of its view.
    pub proof fn lemma_wf(&self)
        requires
            self.wf(),
        ensures
            self@.wf(),
    {
    }

    /// An executor with `capacity` slots, all of them empty.
    pub fn new(capacity: usize) -> (executor: Executor)
        ensures
            executor.wf(),
            executor@ == ExecutorView::fresh(capacity as nat),
    {
        let mut slots: Vec<Slot> = Vec::new();
        let mut i: usize = 0;
        while i < capacity
            invariant
                i <= capacity,
                slots@.len() == i,
                forall|t: int| 0 <= t < i ==> slots@[t] == Slot::Vacant,
            decreases capacity - i,
        {
            slots.push(Slot::Vacant);
            i = i + 1;
        }
        let executor = Executor {
            slots,
            run_queue: RunQueue::new(capacity),
            batch: Vec::new(),
            current: None,
            state: ExecutorState::Idle,
        };
        assert(executor@.slots =~= ExecutorView::fresh(capacity as nat).slots);
        executor
    }

    /// The number of slots.
    pub fn capacity(&self) -> (capacity: usize)
        ensures
            capacity == self@.slots.len(),
    {
        self.slots.len()
    }

    /// What the executor is doing.
    pub fn state(&self) -> (state: ExecutorState)
        ensures
            state == self@.state,
    {
        self.state
    }

    /// Whether a pass is in progress: a task is being polled or tasks of
    /// the pass are still to be polled.
    pub fn in_pass(&self) -> (in_pass: bool)
        ensures
            in_pass == self@.in_pass(),
    {
        self.batch.len() > 0 || self.current.is_some()
    }

    /// The task that is being polled.
    pub fn current(&self) -> (current: Option<TaskRef>)
        ensures
            current == match self@.current {
                Some(index) => Some(TaskRef { index }),
                None => None,
            },
    {
        match self.current {
            Some(index) => Some(TaskRef { index }),
            None => None,
        }
    }

    /// The state of `task`. A handle that belongs to no slot is reported as
    /// dormant.
    pub fn task_state(&self, task: TaskRef) -> (state: TaskState)
        requires
            self.wf(),
        ensures
            state == self@.task_state(task.index),
    {
        if task.index >= self.slots.len() {
            return TaskState::Dormant;
        }
        match self.slots[task.index] {
            Slot::Polling => TaskState::Running,
            Slot::Vacant => TaskState::Dormant,
            Slot::SuspendedOnTimer => TaskState::TimerQueued,
            Slot::Suspended => {
                if self.run_queue.is_queued(task.index) {
                    TaskState::Queued
                } else {
                    TaskState::Spawned
                }
            },
        }
    }

    /// The lowest free slot, if there is one.
    fn find_free(&self) -> (found: Option<usize>)
        ensures
            match found {
                Some(t) => self@.free(t) && forall|u: usize| u < t ==> !self@.free(u),
                None => forall|u: usize| !self@.free(u),
            },
    {
        let mut i: usize = 0;
        while i < self.slots.len()
            invariant
                i <= self.slots@.len(),
                forall|u: usize| u < i ==> !self@.free(u),
            decreases self.slots@.len() - i,
        {
            match self.slots[i] {
                Slot::Vacant => {
                    return Some(i);
                },
                _ => {},
            }
            i = i + 1;
        }
        None
    }

    /// Claims the lowest free slot for a new task and puts the task in the
    /// run queue. Fails with [`SpawnError::Busy`] if and only if no slot is
    /// free; the executor is then unchanged.
    pub fn spawn(&mut self) -> (spawned: Result<TaskRef, SpawnError>)
        requires
            old(self).wf(),
        ensures
            final(self).wf(),
            match spawned {
                Ok(task) => {
                    &&& old(self)@.free(task.index)
                    &&& forall|u: usize| u < task.index ==> !old(self)@.free(u)
                    &&& final(self)@ == old(self)@.after_spawn(task.index)
                },
                Err(SpawnError::Busy) => {
                    &&& forall|u: usize| !old(self)@.free(u)
                    &&& final(self)@ == old(self)@
                },
            },
    {
        match self.find_free() {
            Some(index) => {
                proof {
                    lemma_spawn_wf(self@, index);
                    if self.run_queue@.contains(index) {
                        let i = choose|i: int|
                            0 <= i < self.run_queue@.len() && self.run_queue@[i] == index;
                        assert(self@.queue[i] == index);
                    }
                }
                self.slots.set(index, Slot::Suspended);
                self.run_queue.enqueue(index);
                Ok(TaskRef { index })
            },
            None => Err(SpawnError::Busy),
        }
    }

    /// Spawns a task where the caller knows that a slot is free.
    pub fn must_spawn(&mut self) -> (task: TaskRef)
        requires
            old(self).wf(),
            exists|t: usize| old(self)@.free(t),
        ensures
            final(self).wf(),
            old(self)@.free(task.index),
            forall|u: usize| u < task.index ==> !old(self)@.free(u),
            final(self)@ == old(self)@.after_spawn(task.index),
    {
        match self.spawn() {
            Ok(task) => task,
            Err(_) => {
                proof {
                    let t = choose|t: usize| old(self)@.free(t);
                    assert(!old(self)@.free(t));
                }
                TaskRef { index: 0 }
            },
        }
    }

    /// Wakes `task`: puts it in the run queue unless it is there already or
    /// its slot is empty. Says whether it was put in. Whoever is to poll
    /// has to be notified in either case.
    pub fn wake(&mut self, task: TaskRef) -> (enqueued: bool)
        requires
            old(self).wf(),
        ensures
            final(self).wf(),
            final(self)@ == old(self)@.after_wake(task.index),
            enqueued <==> {
                &&& task.index < old(self)@.slots.len()
                &&& !old(self)@.free(task.index)
                &&& !old(self)@.queue.contains(task.index)
            },
    {
        let index = task.index;
        if index >= self.slots.len() {
            return false;
        }
        proof {
            lemma_wake_wf(self@, index);
        }
        match self.slots[index] {
            Slot::Vacant => false,
            Slot::SuspendedOnTimer => {
                self.slots.set(index, Slot::Suspended);
                self.run_queue.enqueue(index)
            },
            _ => {
                assert(self.slots@ =~= old(self)@.after_wake(index).slots);
                self.run_queue.enqueue(index)
            },
        }
    }

    /// Spawns a task as [`Executor::spawn`] does and, where that succeeded,
    /// notifies whoever polls through `pender`.
    pub fn spawn_and_pend<P: Pender>(&mut self, pender: &P) -> (spawned: Result<
        TaskRef,
        SpawnError,
    >)
        requires
            old(self).wf(),
        ensures
            final(self).wf(),
            match spawned {
                Ok(task) => {
                    &&& old(self)@.free(task.index)
                    &&& forall|u: usize| u < task.index ==> !old(self)@.free(u)
                    &&& final(self)@ == old(self)@.after_spawn(task.index)
                },
                Err(SpawnError::Busy) => {
                    &&& forall|u: usize| !old(self)@.free(u)
                    &&& final(self)@ == old(self)@
                },
            },
    {
        let spawned = self.spawn();
        if spawned.is_ok() {
            pender.pend();
        }
        spawned
    }

    /// Wakes `task` as [`Executor::wake`] does, then notifies whoever polls
    /// through `pender`, whether or not the task was queued already.
    pub fn wake_and_pend<P: Pender>(&mut self, task: TaskRef, pender: &P)
        requires
            old(self).wf(),
        ensures
            final(self).wf(),
            final(self)@ == old(self)@.after_wake(task.index),
    {
        self.wake(task);
        pender.pend();
    }

    /// Starts a pass: takes every task off the run queue, the one that was
    /// queued first to be polled first, and says how many there are. A task
    /// that is woken from now on is queued for the pass after this one.
    pub fn drain(&mut self) -> (tasks: usize)
        requires
            old(self).wf(),
            !old(self)@.in_pass(),
        ensures
            final(self).wf(),
            final(self)@ == old(self)@.after_drain(),
            tasks == old(self)@.queue.len(),
    {
        let ghost before = self@;
        proof {
            lemma_drain_wf(before);
            lemma_reverse_same_items(before.queue);
            self.run_queue.lemma_wf();
        }
        let snapshot = self.run_queue.drain();
        let mut j: usize = 0;
        while j < snapshot.len()
            invariant
                j <= snapshot@.len(),
                snapshot@ == before.queue.reverse(),
                self.slots@.len() == before.slots.len(),
                self.run_queue.wf(),
                self.run_queue.spec_capacity() == before.slots.len(),
                self.run_queue@ == Seq::<usize>::empty(),
                self.batch@ == before.batch,
                self.current == before.current,
                self.state == before.state,
                forall|i: int| 0 <= i < snapshot@.len() ==> snapshot@[i] < before.slots.len(),
                forall|t: usize|
                    t < before.slots.len() ==> self.slots@[t as int] == if snapshot@.subrange(
                        0,
                        j as int,
                    ).contains(t) {
                        Slot::Polling
                    } else {
                        before.slots[t as int]
                    },
            decreases snapshot@.len() - j,
        {
            let task = snapshot[j];
            let ghost done = snapshot@.subrange(0, j as int);
            let ghost more = snapshot@.subrange(0, j + 1);
            self.slots.set(task, Slot::Polling);
            proof {
                assert(more[j as int] == task);
                assert forall|t: usize| t < before.slots.len() implies self.slots@[t as int]
                    == if more.contains(t) {
                    Slot::Polling
                } else {
                    before.slots[t as int]
                } by {
                    if done.contains(t) {
                        let i = choose|i: int| 0 <= i < done.len() && done[i] == t;
                        assert(more[i] == t);
                    }
                    if more.contains(t) && t != task {
                        let i = choose|i: int| 0 <= i < more.len() && more[i] == t;
                        assert(i != j);
                        assert(done[i] == more[i]);
                    }
                }
            }
            j = j + 1;
        }
        let tasks = snapshot.len();
        self.batch = snapshot;
        if tasks > 0 {
            self.state = ExecutorState::Draining;
        }
        proof {
            assert(snapshot@.subrange(0, snapshot@.len() as int) =~= snapshot@);
            assert(before.slots.len() == self.slots.len());
            assert forall|t: int| 0 <= t < before.slots.len() implies self@.slots[t]
                == before.after_drain().slots[t] by {
                let u = t as usize;
                assert(u == t);
                assert(self.slots@[u as int] == if snapshot@.contains(u) {
                    Slot::Polling
                } else {
                    before.slots[u as int]
                });
            }
            assert(self@.slots =~= before.after_drain().slots);
        }
        tasks
    }

    /// Hands out the next task of the pass in progress, if one is left.
    pub fn next(&mut self) -> (task: Option<TaskRef>)
        requires
            old(self).wf(),
            old(self)@.current is None,
        ensures
            final(self).wf(),
            final(self)@ == old(self)@.after_next(),
            task == match final(self)@.current {
                Some(index) => Some(TaskRef { index }),
                None => None,
            },
    {
        proof {
            lemma_next_wf(self@);
        }
        match self.batch.pop() {
            Some(index) => {
                self.current = Some(index);
                assert(self@.batch =~= old(self)@.batch.drop_last());
                Some(TaskRef { index })
            },
            None => None,
        }
    }

    /// Reports how the poll of the current task ended. A task that
    /// completed frees its slot, whether or not it was woken meanwhile; a
    /// task that suspended itself is polled again once it has been woken.
    pub fn finish(&mut self, outcome: PollOutcome)
        requires
            old(self).wf(),
            old(self)@.current is Some,
        ensures
            final(self).wf(),
            final(self)@ == old(self)@.after_finish(outcome),
    {
        proof {
            lemma_finish_wf(self@, outcome);
        }
        let task = self.current.unwrap();
        match outcome {
            PollOutcome::Ready => {
                self.slots.set(task, Slot::Vacant);
                self.run_queue.remove(task);
            },
            PollOutcome::Pending => {
                self.slots.set(task, Slot::Suspended);
            },
            PollOutcome::PendingOnTimer => {
                if self.run_queue.is_queued(task) {
                    self.slots.set(task, Slot::Suspended);
                } else {
                    self.slots.set(task, Slot::SuspendedOnTimer);
                }
            },
        }
        self.current = None;
    }

    /// Records that the executor blocks until it is notified. No pass may
    /// be in progress.
    pub fn wait(&mut self)
        requires
            old(self).wf(),
            !old(self)@.in_pass(),
        ensures
            final(self).wf(),
            final(self)@ == (ExecutorView { state: ExecutorState::Waiting, ..old(self)@ }),
    {
        self.state = ExecutorState::Waiting;
    }

    /// One step of the executor's loop: says which task to poll next, or
    /// that there is nothing to do but wait. The tasks of a pass are handed
    /// out one by one; when none is left the run queue is drained into the
    /// next pass.
    pub fn step(&mut self) -> (action: Action)
        requires
            old(self).wf(),
            old(self)@.current is None,
        ensures
            final(self).wf(),
            final(self)@ == old(self)@.after_step(),
            action == match final(self)@.current {
                Some(index) => Action::Poll(TaskRef { index }),
                None => Action::Wait,
            },
    {
        proof {
            lemma_step_wf(self@);
            lemma_reverse_same_items(self@.queue);
        }
        if self.batch.len() == 0 && !self.run_queue.is_empty() {
            self.drain();
        }
        match self.next() {
            Some(task) => Action::Poll(task),
            None => {
                self.state = ExecutorState::Waiting;
                Action::Wait
            },
        }
    }
}

} // verus!

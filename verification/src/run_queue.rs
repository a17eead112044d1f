//! The queue of tasks that are ready to be polled.
//!
//! Tasks are known by the index of their slot. Each slot carries a flag that
//! says whether its task is in the queue, so that putting a task in twice is
//! the same as putting it in once, and the queue never grows beyond the
//! number of slots.

use vstd::prelude::*;

verus! {

/// `queue` after `task` was put in: unchanged where it is there already,
/// else with `task` at its end.
pub open spec fn enqueued(queue: Seq<usize>, task: usize) -> Seq<usize> {
    if queue.contains(task) {
        queue
    } else {
        queue.push(task)
    }
}

/// `queue` after each of `tasks` was put in, in their order.
pub open spec fn enqueued_all(queue: Seq<usize>, tasks: Seq<usize>) -> Seq<usize>
    decreases tasks.len(),
{
    if tasks.len() == 0 {
        queue
    } else {
        enqueued(enqueued_all(queue, tasks.drop_last()), tasks.last())
    }
}

/// Putting a task in keeps the tasks in the queue distinct, adds that task
/// and no other, and is the same done once or twice.
pub proof fn lemma_enqueued(queue: Seq<usize>, task: usize)
    requires
        queue.no_duplicates(),
    ensures
        enqueued(queue, task).no_duplicates(),
        forall|t: usize| enqueued(queue, task).contains(t) <==> t == task || queue.contains(t),
        enqueued(enqueued(queue, task), task) == enqueued(queue, task),
{
    let after = enqueued(queue, task);
    if !queue.contains(task) {
        assert(after[queue.len() as int] == task);
        assert forall|t: usize| after.contains(t) <==> t == task || queue.contains(t) by {
            if queue.contains(t) {
                let i = choose|i: int| 0 <= i < queue.len() && queue[i] == t;
                assert(after[i] == t);
            }
        }
    }
    assert(after.contains(task));
}

/// However often and in whatever order tasks are put in, the queue then
/// holds each task that it held or that was put in, and holds it once.
pub proof fn lemma_enqueued_all(queue: Seq<usize>, tasks: Seq<usize>)
    requires
        queue.no_duplicates(),
    ensures
        enqueued_all(queue, tasks).no_duplicates(),
        forall|t: usize|
            enqueued_all(queue, tasks).contains(t) <==> queue.contains(t) || tasks.contains(t),
    decreases tasks.len(),
{
    if tasks.len() > 0 {
        let front = tasks.drop_last();
        lemma_enqueued_all(queue, front);
        lemma_enqueued(enqueued_all(queue, front), tasks.last());
        assert forall|t: usize| tasks.contains(t) <==> t == tasks.last() || front.contains(t) by {
            if front.contains(t) {
                let i = choose|i: int| 0 <= i < front.len() && front[i] == t;
                assert(tasks[i] == t);
            }
            if tasks.contains(t) && t != tasks.last() {
                let i = choose|i: int| 0 <= i < tasks.len() && tasks[i] == t;
                assert(front[i] == t);
            }
            assert(tasks[tasks.len() - 1] == tasks.last());
        }
    }
}

/// `queue` after `task` was taken out of it, wherever it stood.
pub open spec fn dequeued(queue: Seq<usize>, task: usize) -> Seq<usize> {
    if queue.contains(task) {
        queue.remove(queue.index_of(task))
    } else {
        queue
    }
}

/// Taking a task out keeps the other tasks, in their order, and leaves
/// that task out.
pub proof fn lemma_dequeued(queue: Seq<usize>, task: usize)
    requires
        queue.no_duplicates(),
    ensures
        dequeued(queue, task).no_duplicates(),
        forall|t: usize| dequeued(queue, task).contains(t) <==> t != task && queue.contains(t),
        forall|i: int|
            0 <= i < queue.len() && queue[i] == task ==> dequeued(queue, task) == queue.remove(i),
{
    if queue.contains(task) {
        let k = queue.index_of(task);
        let after = queue.remove(k);
        assert forall|i: int, j: int|
            0 <= i < after.len() && 0 <= j < after.len() && i != j implies after[i] != after[j] by {
            let a = if i < k {
                i
            } else {
                i + 1
            };
            let b = if j < k {
                j
            } else {
                j + 1
            };
            assert(after[i] == queue[a] && after[j] == queue[b]);
        }
        assert forall|t: usize| after.contains(t) <==> t != task && queue.contains(t) by {
            if after.contains(t) {
                let i = choose|i: int| 0 <= i < after.len() && after[i] == t;
                let a = if i < k {
                    i
                } else {
                    i + 1
                };
                assert(after[i] == queue[a]);
            }
            if t != task && queue.contains(t) {
                let a = choose|a: int| 0 <= a < queue.len() && queue[a] == t;
                let i = if a < k {
                    a
                } else {
                    a - 1
                };
                assert(after[i] == queue[a]);
            }
        }
    } else {
        assert forall|t: usize| queue.contains(t) implies t != task by {}
    }
}

/// A sequence in reverse holds the same items, and holds none twice if the
/// sequence did not.
pub proof fn lemma_reverse_same_items(queue: Seq<usize>)
    ensures
        queue.reverse().len() == queue.len(),
        forall|i: int| 0 <= i < queue.len() ==> queue.reverse()[i] == queue[queue.len() - 1 - i],
        forall|t: usize| queue.reverse().contains(t) <==> queue.contains(t),
        queue.no_duplicates() ==> queue.reverse().no_duplicates(),
{
    let r = queue.reverse();
    assert forall|t: usize| r.contains(t) <==> queue.contains(t) by {
        if queue.contains(t) {
            let i = choose|i: int| 0 <= i < queue.len() && queue[i] == t;
            assert(r[queue.len() - 1 - i] == t);
        }
        if r.contains(t) {
            let i = choose|i: int| 0 <= i < r.len() && r[i] == t;
            assert(queue[queue.len() - 1 - i] == t);
        }
    }
}

/// Whatever is put in, by whomever and however often, one drain of the
/// queue then returns each task that was queued or put in exactly once.
pub proof fn lemma_pushes_then_drain(queue: Seq<usize>, tasks: Seq<usize>)
    requires
        queue.no_duplicates(),
    ensures
        enqueued_all(queue, tasks).reverse().no_duplicates(),
        forall|t: usize|
            enqueued_all(queue, tasks).reverse().contains(t) <==> queue.contains(t)
                || tasks.contains(t),
{
    lemma_enqueued_all(queue, tasks);
    lemma_reverse_same_items(enqueued_all(queue, tasks));
}

/// A sequence of distinct numbers below `n` has at most `n` items.
pub proof fn lemma_distinct_bounded(list: Seq<usize>, n: nat)
    requires
        list.no_duplicates(),
        forall|i: int| 0 <= i < list.len() ==> list[i] < n,
    ensures
        list.len() <= n,
    decreases n,
{
    if list.len() > 0 {
        assert(list[0] < n);
        let top = (n - 1) as usize;
        let rest = if list.contains(top) {
            list.remove(list.index_of(top))
        } else {
            list.drop_last()
        };
        if list.contains(top) {
            let k = list.index_of(top);
            assert forall|i: int| 0 <= i < rest.len() implies rest[i] < n - 1 by {
                if i < k {
                    assert(rest[i] == list[i]);
                } else {
                    assert(rest[i] == list[i + 1]);
                }
            }
            assert forall|i: int, j: int|
                0 <= i < rest.len() && 0 <= j < rest.len() && i != j implies rest[i]
                != rest[j] by {
                let a = if i < k {
                    i
                } else {
                    i + 1
                };
                let b = if j < k {
                    j
                } else {
                    j + 1
                };
                assert(rest[i] == list[a] && rest[j] == list[b]);
            }
        } else {
            assert forall|i: int| 0 <= i < rest.len() implies rest[i] < n - 1 by {
                assert(rest[i] == list[i]);
                if list[i] == top {
                    assert(list.contains(top));
                }
            }
            assert forall|i: int, j: int|
                0 <= i < rest.len() && 0 <= j < rest.len() && i != j implies rest[i]
                != rest[j] by {
                assert(rest[i] == list[i] && rest[j] == list[j]);
            }
        }
        lemma_distinct_bounded(rest, (n - 1) as nat);
    }
}

/// The tasks that wait to be polled, each at most once.
pub struct RunQueue {
    /// For each slot, whether its task is in `list`.
    flags: Vec<bool>,
    /// The queued tasks, the one that has waited longest first.
    list: Vec<usize>,
}

impl View for RunQueue {
    type V = Seq<usize>;

    /// The queued tasks, the one that has waited longest first.
    closed spec fn view(&self) -> Seq<usize> {
        self.list@
    }
}

impl RunQueue {
    /// The number of slots whose tasks the queue can hold.
    pub closed spec fn spec_capacity(&self) -> nat {
        self.flags@.len()
    }

    /// The flags agree with the list, and the list names no slot twice.
    pub closed spec fn wf(&self) -> bool {
        &&& self.list@.no_duplicates()
        &&& forall|i: int| 0 <= i < self.list@.len() ==> self.list@[i] < self.flags@.len()
        &&& forall|t: usize|
            t < self.flags@.len() ==> (self.flags@[t as int] <==> self.list@.contains(t))
    }

    /// What a well-formed queue looks like from outside: no task twice, and
    /// only tasks of its slots.
    pub proof fn lemma_wf(&self)
        requires
            self.wf(),
        ensures
            self@.no_duplicates(),
            forall|i: int| 0 <= i < self@.len() ==> self@[i] < self.spec_capacity(),
            forall|t: usize| self@.contains(t) ==> t < self.spec_capacity(),
            self@.len() <= self.spec_capacity(),
    {
        let list = self.list@;
        let n = self.flags@.len();
        lemma_distinct_bounded(list, n);
    }

    /// An empty queue for the tasks of `capacity` slots.
    pub fn new(capacity: usize) -> (queue: RunQueue)
        ensures
            queue.wf(),
            queue@ == Seq::<usize>::empty(),
            queue.spec_capacity() == capacity,
    {
        let mut flags: Vec<bool> = Vec::new();
        let mut i: usize = 0;
        while i < capacity
            invariant
                i <= capacity,
                flags@.len() == i,
                forall|t: int| 0 <= t < i ==> !flags@[t],
            decreases capacity - i,
        {
            flags.push(false);
            i = i + 1;
        }
        RunQueue { flags, list: Vec::new() }
    }

    /// The number of slots whose tasks the queue can hold.
    pub fn capacity(&self) -> (capacity: usize)
        ensures
            capacity == self.spec_capacity(),
    {
        self.flags.len()
    }

    /// The number of tasks in the queue.
    pub fn len(&self) -> (len: usize)
        ensures
            len == self@.len(),
    {
        self.list.len()
    }

    /// Whether no task is in the queue.
    pub fn is_empty(&self) -> (empty: bool)
        ensures
            empty <==> self@.len() == 0,
    {
        self.list.len() == 0
    }

    /// Whether `task` is in the queue.
    pub fn is_queued(&self, task: usize) -> (queued: bool)
        requires
            self.wf(),
        ensures
            queued <==> self@.contains(task),
    {
        if task < self.flags.len() {
            self.flags[task]
        } else {
            proof {
                if self.list@.contains(task) {
                    let i = choose|i: int| 0 <= i < self.list@.len() && self.list@[i] == task;
                    assert(self.list@[i] < self.flags@.len());
                }
            }
            false
        }
    }

    /// Puts `task` in the queue unless it is there already, and says
    /// whether it was put in.
    pub fn enqueue(&mut self, task: usize) -> (added: bool)
        requires
            old(self).wf(),
            task < old(self).spec_capacity(),
        ensures
            final(self).wf(),
            final(self).spec_capacity() == old(self).spec_capacity(),
            final(self)@ == enqueued(old(self)@, task),
            added <==> !old(self)@.contains(task),
    {
        if self.flags[task] {
            return false;
        }
        let ghost before = self.list@;
        proof {
            lemma_enqueued(before, task);
        }
        self.flags.set(task, true);
        self.list.push(task);
        assert(self.list@ == enqueued(before, task));
        assert forall|t: usize| t < self.flags@.len() implies (self.flags@[t as int]
            <==> self.list@.contains(t)) by {
            if t != task {
                assert(self.flags@[t as int] == old(self).flags@[t as int]);
                assert(old(self).list@.contains(t) <==> self.list@.contains(t));
            }
        }
        true
    }

    /// Takes `task` out of the queue if it is there, and says whether it
    /// was.
    pub fn remove(&mut self, task: usize) -> (removed: bool)
        requires
            old(self).wf(),
        ensures
            final(self).wf(),
            final(self).spec_capacity() == old(self).spec_capacity(),
            final(self)@ == dequeued(old(self)@, task),
            removed <==> old(self)@.contains(task),
    {
        if !self.is_queued(task) {
            return false;
        }
        let ghost before = self.list@;
        let ghost flags = self.flags@;
        proof {
            lemma_dequeued(before, task);
        }
        let mut i: usize = 0;
        while self.list[i] != task
            invariant
                self.list@ == before,
                before.contains(task),
                0 <= i < before.len(),
                forall|j: int| 0 <= j < i ==> before[j] != task,
            decreases before.len() - i,
        {
            proof {
                let k = choose|k: int| 0 <= k < before.len() && before[k] == task;
                assert(k > i);
            }
            assert(i < self.list.len());
            i = i + 1;
        }
        self.list.remove(i);
        proof {
            let k = choose|k: int| 0 <= k < before.len() && before[k] == task;
            assert(before[k] < flags.len());
        }
        self.flags.set(task, false);
        proof {
            let rest = self.list@;
            assert(rest == dequeued(before, task));
            assert forall|t: usize| t < self.flags@.len() implies (self.flags@[t as int]
                <==> rest.contains(t)) by {
                if t != task {
                    assert(self.flags@[t as int] == flags[t as int]);
                }
            }
            assert forall|j: int| 0 <= j < rest.len() implies rest[j] < self.flags@.len() by {
                assert(rest.contains(rest[j]));
                assert(before.contains(rest[j]));
                let a = choose|a: int| 0 <= a < before.len() && before[a] == rest[j];
                assert(before[a] < flags.len());
            }
        }
        true
    }

    /// Takes every task off the queue and returns them, the one that was
    /// put in last first. Their flags are cleared, so that a task put in
    /// from now on is queued anew.
    pub fn drain(&mut self) -> (snapshot: Vec<usize>)
        requires
            old(self).wf(),
        ensures
            final(self).wf(),
            final(self).spec_capacity() == old(self).spec_capacity(),
            final(self)@ == Seq::<usize>::empty(),
            snapshot@ == old(self)@.reverse(),
    {
        let ghost before = self.list@;
        let ghost slots = self.flags@.len();
        let mut snapshot: Vec<usize> = Vec::new();
        while self.list.len() > 0
            invariant
                self.wf(),
                self.flags@.len() == slots,
                self.list@.len() + snapshot@.len() == before.len(),
                self.list@ == before.subrange(0, self.list@.len() as int),
                forall|i: int|
                    0 <= i < snapshot@.len() ==> snapshot@[i] == before[before.len() - 1 - i],
            decreases self.list@.len(),
        {
            let ghost list = self.list@;
            let ghost flags = self.flags@;
            let task = self.list.pop().unwrap();
            assert(task == list[list.len() - 1]);
            self.flags.set(task, false);
            snapshot.push(task);
            proof {
                let rest = self.list@;
                assert forall|t: usize| t < self.flags@.len() implies (self.flags@[t as int]
                    <==> rest.contains(t)) by {
                    if t == task {
                        if rest.contains(task) {
                            let i = choose|i: int| 0 <= i < rest.len() && rest[i] == task;
                            assert(list[i] == task);
                        }
                    } else {
                        assert(self.flags@[t as int] == flags[t as int]);
                        if list.contains(t) {
                            let i = choose|i: int| 0 <= i < list.len() && list[i] == t;
                            assert(rest[i] == t);
                        }
                        if rest.contains(t) {
                            let i = choose|i: int| 0 <= i < rest.len() && rest[i] == t;
                            assert(list[i] == t);
                        }
                    }
                }
                assert forall|i: int| 0 <= i < rest.len() implies rest[i] < self.flags@.len() by {
                    assert(rest[i] == list[i]);
                }
                assert(rest =~= before.subrange(0, rest.len() as int));
            }
        }
        proof {
            lemma_reverse_same_items(before);
            assert(snapshot@ =~= before.reverse());
            assert(self.list@ =~= Seq::<usize>::empty());
        }
        snapshot
    }
}

} // verus!

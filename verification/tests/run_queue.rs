use embassy_core::run_queue::RunQueue;

#[test]
fn a_new_queue_is_empty() {
    let queue = RunQueue::new(4);
    assert_eq!(queue.capacity(), 4);
    assert_eq!(queue.len(), 0);
    assert!(queue.is_empty());
    assert!(!queue.is_queued(0));
    assert!(!queue.is_queued(4));
}

#[test]
fn enqueue_is_idempotent() {
    let mut queue = RunQueue::new(4);
    assert!(queue.enqueue(2));
    assert!(!queue.enqueue(2));
    assert!(!queue.enqueue(2));
    assert_eq!(queue.len(), 1);
    assert!(queue.is_queued(2));
    assert_eq!(queue.drain(), vec![2]);
}

#[test]
fn drain_takes_a_snapshot_and_clears_the_flags() {
    let mut queue = RunQueue::new(4);
    queue.enqueue(1);
    queue.enqueue(3);
    queue.enqueue(0);
    assert_eq!(queue.drain(), vec![0, 3, 1]);
    assert!(queue.is_empty());
    assert!(!queue.is_queued(1));
    assert_eq!(queue.drain(), Vec::<usize>::new());
    // A task put in after the snapshot is queued anew.
    assert!(queue.enqueue(3));
    assert_eq!(queue.drain(), vec![3]);
}

#[test]
fn many_pushes_then_one_drain_return_each_task_once() {
    let mut queue = RunQueue::new(8);
    let pushes = [5usize, 1, 5, 7, 1, 1, 0, 7, 5, 3, 0, 3];
    for task in pushes {
        queue.enqueue(task);
    }
    let mut drained = queue.drain();
    assert_eq!(drained, vec![3, 0, 7, 1, 5]);
    drained.sort();
    assert_eq!(drained, vec![0, 1, 3, 5, 7]);
}

#[test]
fn the_queue_never_outgrows_its_slots() {
    let mut queue = RunQueue::new(3);
    for round in 0..10 {
        for task in 0..3 {
            assert_eq!(queue.enqueue(task), round == 0);
        }
    }
    assert_eq!(queue.len(), 3);
}

#[test]
fn remove_takes_one_task_out() {
    let mut queue = RunQueue::new(4);
    queue.enqueue(0);
    queue.enqueue(1);
    queue.enqueue(2);
    assert!(queue.remove(1));
    assert!(!queue.remove(1));
    assert!(!queue.remove(3));
    assert!(!queue.remove(9));
    assert!(!queue.is_queued(1));
    assert_eq!(queue.len(), 2);
    assert!(queue.enqueue(1));
    assert_eq!(queue.drain(), vec![1, 2, 0]);
}

#[test]
fn a_queue_without_slots() {
    let mut queue = RunQueue::new(0);
    assert_eq!(queue.capacity(), 0);
    assert!(!queue.is_queued(0));
    assert!(!queue.remove(0));
    assert_eq!(queue.drain(), Vec::<usize>::new());
}

use std::sync::atomic::AtomicUsize;
use std::sync::atomic::Ordering;
use std::sync::Arc;

use futures_runtime::task::Computation;
use futures_runtime::task::Poll;
use futures_runtime::task::Task;
use futures_runtime::task::WakeHandle;

/// Ready from the `ready_at`-th poll on; counts its polls.
struct Countdown {
    ready_at: usize,
    polls: Arc<AtomicUsize>,
}

impl Computation for Countdown {
    fn poll(&mut self, _handle: WakeHandle) -> Poll {
        let n = self.polls.fetch_add(1, Ordering::SeqCst) + 1;
        if n >= self.ready_at {
            Poll::Ready
        } else {
            Poll::Pending
        }
    }
}

fn countdown(ready_at: usize) -> (Countdown, Arc<AtomicUsize>) {
    let polls = Arc::new(AtomicUsize::new(0));
    (Countdown { ready_at, polls: polls.clone() }, polls)
}

#[test]
fn wake_handle_carries_its_task() {
    let handle = WakeHandle::new(17);
    assert_eq!(handle.task_id(), 17);
    assert_eq!(handle, WakeHandle::new(17));
    assert_ne!(handle, WakeHandle::new(18));
}

#[test]
fn new_task_is_not_completed_and_not_polled() {
    let (c, polls) = countdown(1);
    let task = Task::new(5, c);
    assert_eq!(task.task_id(), 5);
    assert!(!task.is_completed());
    assert_eq!(task.handle(), WakeHandle::new(5));
    assert_eq!(polls.load(Ordering::SeqCst), 0);
}

#[test]
fn settle_raises_the_flag_on_ready_only() {
    let (c, _polls) = countdown(1);
    let mut task = Task::new(0, c);
    task.settle(Poll::Pending);
    assert!(!task.is_completed());
    task.settle(Poll::Ready);
    assert!(task.is_completed());
}

#[test]
fn settle_never_lowers_the_flag() {
    let (c, _polls) = countdown(1);
    let mut task = Task::new(0, c);
    task.settle(Poll::Ready);
    task.settle(Poll::Pending);
    assert!(task.is_completed());
    task.settle(Poll::Ready);
    assert!(task.is_completed());
    assert_eq!(task.task_id(), 0);
}

#[test]
fn poll_completes_the_task_when_the_computation_is_ready() {
    let (c, polls) = countdown(3);
    let mut task = Task::new(9, c);
    task.poll();
    assert!(!task.is_completed());
    task.poll();
    assert!(!task.is_completed());
    task.poll();
    assert!(task.is_completed());
    assert_eq!(polls.load(Ordering::SeqCst), 3);
}

#[test]
fn poll_of_a_completed_task_skips_the_computation() {
    let (c, polls) = countdown(1);
    let mut task = Task::new(9, c);
    task.poll();
    assert!(task.is_completed());
    for _ in 0..6 {
        task.poll();
    }
    assert_eq!(polls.load(Ordering::SeqCst), 1);
    assert!(task.is_completed());
    assert_eq!(task.task_id(), 9);
}

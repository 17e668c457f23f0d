use std::sync::atomic::AtomicBool;
use std::sync::atomic::AtomicUsize;
use std::sync::atomic::Ordering;
use std::sync::Arc;
use std::sync::Mutex;

use futures_runtime::task::Computation;
use futures_runtime::task::Phase;
use futures_runtime::task::Poll;
use futures_runtime::task::Task;
use futures_runtime::task::WakeHandle;
use futures_runtime::RunStep;
use futures_runtime::Runtime;

/// Pending until its flag is set; counts its polls and records the handles.
struct Waiting {
    ready: Arc<AtomicBool>,
    polls: Arc<AtomicUsize>,
    handles: Arc<Mutex<Vec<WakeHandle>>>,
}

impl Computation for Waiting {
    fn poll(&mut self, handle: WakeHandle) -> Poll {
        self.polls.fetch_add(1, Ordering::SeqCst);
        self.handles.lock().unwrap().push(handle);
        if self.ready.load(Ordering::SeqCst) {
            Poll::Ready
        } else {
            Poll::Pending
        }
    }
}

struct Probe {
    ready: Arc<AtomicBool>,
    polls: Arc<AtomicUsize>,
    handles: Arc<Mutex<Vec<WakeHandle>>>,
}

fn waiting() -> (Waiting, Probe) {
    let ready = Arc::new(AtomicBool::new(false));
    let polls = Arc::new(AtomicUsize::new(0));
    let handles = Arc::new(Mutex::new(Vec::new()));
    (
        Waiting { ready: ready.clone(), polls: polls.clone(), handles: handles.clone() },
        Probe { ready, polls, handles },
    )
}

impl Probe {
    fn polls(&self) -> usize {
        self.polls.load(Ordering::SeqCst)
    }
}

#[test]
fn register_inserts_without_polling() {
    let mut rt = Runtime::new();
    let (c, probe) = waiting();
    let handle = rt.register(c);
    assert_eq!(handle, WakeHandle::new(0));
    assert_eq!(probe.polls(), 0);
    assert_eq!(rt.len(), 1);
    assert_eq!(rt.spawned_count(), 1);
    assert_eq!(rt.status(handle), Some(false));
    assert_eq!(rt.phase_of(handle), Some(Phase::Idle));
}

#[test]
fn register_hands_out_the_identifiers_in_turn() {
    let mut rt = Runtime::new();
    let (a, _pa) = waiting();
    let (b, _pb) = waiting();
    assert_eq!(rt.register(a), WakeHandle::new(0));
    assert_eq!(rt.register(b), WakeHandle::new(1));
    assert_eq!(rt.phase_of(WakeHandle::new(2)), None);
}

#[test]
fn spawned_task_is_at_rest_or_done() {
    let mut rt = Runtime::new();
    let (a, _pa) = waiting();
    let (b, pb) = waiting();
    pb.ready.store(true, Ordering::SeqCst);
    rt.spawn(a);
    rt.spawn(b);
    assert_eq!(rt.phase_of(WakeHandle::new(0)), Some(Phase::Idle));
    assert_eq!(rt.phase_of(WakeHandle::new(1)), Some(Phase::Done));
}

#[test]
fn begin_drive_lends_the_computation_without_polling() {
    let mut rt = Runtime::new();
    let (c, probe) = waiting();
    let handle = rt.register(c);
    let drive = rt.begin_drive(handle).unwrap();
    assert_eq!(drive.task(), handle);
    assert_eq!(probe.polls(), 0);
    assert_eq!(rt.phase_of(handle), Some(Phase::Running));
    assert_eq!(rt.status(handle), Some(false));
}

#[test]
fn drive_polls_once_with_the_handle_of_the_task() {
    let mut rt = Runtime::new();
    let (a, _pa) = waiting();
    let (b, pb) = waiting();
    rt.register(a);
    let handle = rt.register(b);
    let drive = rt.begin_drive(handle).unwrap();
    let polled = drive.poll();
    assert_eq!(pb.polls(), 1);
    assert_eq!(*pb.handles.lock().unwrap(), vec![WakeHandle::new(1)]);
    assert_eq!(polled.task(), WakeHandle::new(1));
    assert_eq!(polled.result(), Poll::Pending);
    // The registry learns the outcome only at the end of the drive.
    assert_eq!(rt.phase_of(handle), Some(Phase::Running));
}

#[test]
fn no_second_drive_starts_while_one_is_in_flight() {
    let mut rt = Runtime::new();
    let (c, probe) = waiting();
    let handle = rt.register(c);
    let first = rt.begin_drive(handle);
    assert!(first.is_some());
    for _ in 0..5 {
        assert!(rt.begin_drive(handle).is_none());
    }
    assert_eq!(probe.polls(), 0);
    assert_eq!(rt.phase_of(handle), Some(Phase::Rewoken));
}

#[test]
fn drive_without_a_wake_asks_for_no_other() {
    let mut rt = Runtime::new();
    let (c, probe) = waiting();
    let handle = rt.register(c);
    let polled = rt.begin_drive(handle).unwrap().poll();
    assert!(!rt.end_drive(polled));
    assert_eq!(rt.phase_of(handle), Some(Phase::Idle));
    assert_eq!(rt.status(handle), Some(false));
    assert_eq!(probe.polls(), 1);
}

#[test]
fn wakes_during_a_drive_are_coalesced_into_one_more_drive() {
    let mut rt = Runtime::new();
    let (c, probe) = waiting();
    let handle = rt.register(c);
    let drive = rt.begin_drive(handle).unwrap();
    for _ in 0..7 {
        assert!(rt.begin_drive(handle).is_none());
    }
    let polled = drive.poll();
    assert!(rt.end_drive(polled));
    assert_eq!(rt.phase_of(handle), Some(Phase::Idle));

    // The drive that is owed starts, and with no wake during it, it is the last.
    let polled = rt.begin_drive(handle).unwrap().poll();
    assert!(!rt.end_drive(polled));
    assert_eq!(probe.polls(), 2);
    assert_eq!(rt.phase_of(handle), Some(Phase::Idle));
}

#[test]
fn one_wake_during_a_drive_asks_for_one_more_drive() {
    let mut rt = Runtime::new();
    let (c, _probe) = waiting();
    let handle = rt.register(c);
    let drive = rt.begin_drive(handle).unwrap();
    assert!(rt.begin_drive(handle).is_none());
    assert!(rt.end_drive(drive.poll()));
}

#[test]
fn drive_that_ends_ready_completes_the_task() {
    let mut rt = Runtime::new();
    let (c, probe) = waiting();
    let handle = rt.register(c);
    probe.ready.store(true, Ordering::SeqCst);
    let polled = rt.begin_drive(handle).unwrap().poll();
    assert_eq!(polled.result(), Poll::Ready);
    assert!(!rt.end_drive(polled));
    assert_eq!(rt.status(handle), Some(true));
    assert_eq!(rt.phase_of(handle), Some(Phase::Done));
    assert_eq!(rt.run_step(), RunStep::Done);
    assert_eq!(rt.phase_of(handle), None);
}

#[test]
fn ready_drive_asks_for_no_other_even_after_wakes() {
    let mut rt = Runtime::new();
    let (c, probe) = waiting();
    let handle = rt.register(c);
    let drive = rt.begin_drive(handle).unwrap();
    assert!(rt.begin_drive(handle).is_none());
    assert!(rt.begin_drive(handle).is_none());
    probe.ready.store(true, Ordering::SeqCst);
    assert!(!rt.end_drive(drive.poll()));
    assert_eq!(rt.phase_of(handle), Some(Phase::Done));
    assert_eq!(probe.polls(), 1);
}

#[test]
fn completed_task_lends_nothing() {
    let mut rt = Runtime::new();
    let (c, probe) = waiting();
    probe.ready.store(true, Ordering::SeqCst);
    rt.spawn(c);
    assert!(rt.begin_drive(WakeHandle::new(0)).is_none());
    assert_eq!(rt.phase_of(WakeHandle::new(0)), Some(Phase::Done));
    assert_eq!(probe.polls(), 1);
}

#[test]
fn unknown_handle_lends_nothing() {
    let mut rt = Runtime::new();
    let (c, probe) = waiting();
    rt.register(c);
    assert!(rt.begin_drive(WakeHandle::new(9)).is_none());
    assert_eq!(rt.phase_of(WakeHandle::new(0)), Some(Phase::Idle));
    assert_eq!(probe.polls(), 0);
}

#[test]
fn wake_during_a_drive_polls_nothing_and_is_remembered() {
    let mut rt = Runtime::new();
    let (c, probe) = waiting();
    let handle = rt.register(c);
    let drive = rt.begin_drive(handle).unwrap();
    rt.wake(handle);
    rt.wake(handle);
    assert_eq!(probe.polls(), 0);
    assert_eq!(rt.phase_of(handle), Some(Phase::Rewoken));
    assert!(rt.end_drive(drive.poll()));
    assert_eq!(probe.polls(), 1);
}

#[test]
fn task_in_flight_is_not_reaped() {
    let mut rt = Runtime::new();
    let (c, probe) = waiting();
    let handle = rt.register(c);
    let drive = rt.begin_drive(handle).unwrap();
    assert_eq!(rt.run_step(), RunStep::Sleep { millis: 10 });
    assert_eq!(rt.phase_of(handle), Some(Phase::Running));
    probe.ready.store(true, Ordering::SeqCst);
    assert!(!rt.end_drive(drive.poll()));
    assert_eq!(rt.run_step(), RunStep::Done);
}

#[test]
fn drive_touches_no_other_task() {
    let mut rt = Runtime::new();
    let (a, pa) = waiting();
    let (b, pb) = waiting();
    let first = rt.register(a);
    let second = rt.register(b);
    let drive = rt.begin_drive(second).unwrap();
    assert_eq!(rt.phase_of(first), Some(Phase::Idle));
    pb.ready.store(true, Ordering::SeqCst);
    assert!(!rt.end_drive(drive.poll()));
    assert_eq!(rt.status(first), Some(false));
    assert_eq!(rt.status(second), Some(true));
    assert_eq!(pa.polls(), 0);
    assert_eq!(pb.polls(), 1);
}

#[test]
fn end_of_a_drive_changes_nothing_where_none_is_in_flight() {
    let mut lender = Runtime::new();
    let (a, _pa) = waiting();
    let handle = lender.register(a);
    let polled = lender.begin_drive(handle).unwrap().poll();

    let mut other = Runtime::new();
    let (b, pb) = waiting();
    assert_eq!(other.register(b), handle);
    assert!(!other.end_drive(polled));
    assert_eq!(other.phase_of(handle), Some(Phase::Idle));
    assert_eq!(other.status(handle), Some(false));
    assert_eq!(pb.polls(), 0);
}

#[test]
fn task_goes_through_its_phases() {
    let (c, probe) = waiting();
    let mut task = Task::new(3, c);
    assert_eq!(task.current_phase(), Phase::Idle);
    let drive = task.begin().unwrap();
    assert_eq!(drive.task(), WakeHandle::new(3));
    assert_eq!(task.current_phase(), Phase::Running);
    assert!(task.begin().is_none());
    assert_eq!(task.current_phase(), Phase::Rewoken);
    assert!(task.end(drive.poll()));
    assert_eq!(task.current_phase(), Phase::Idle);
    probe.ready.store(true, Ordering::SeqCst);
    let drive = task.begin().unwrap();
    assert_eq!(task.current_phase(), Phase::Running);
    assert!(!task.end(drive.poll()));
    assert_eq!(task.current_phase(), Phase::Done);
    assert!(task.is_completed());
    assert!(task.begin().is_none());
    assert_eq!(task.current_phase(), Phase::Done);
    assert_eq!(probe.polls(), 2);
}

#[test]
fn poll_of_a_task_in_flight_is_remembered_as_a_wake() {
    let (c, probe) = waiting();
    let mut task = Task::new(3, c);
    let drive = task.begin().unwrap();
    task.poll();
    assert_eq!(probe.polls(), 0);
    assert_eq!(task.current_phase(), Phase::Rewoken);
    assert!(!task.is_completed());
    assert!(task.end(drive.poll()));
}

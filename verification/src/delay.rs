//! A deadline-based suspension: a computation that is ready once a given
//! time has passed, and that arranges to be woken by a background waiter.
//!
//! Instants and durations are counts of nanoseconds on the caller's monotonic
//! clock. The delay reads no clock and owns no thread: each operation is
//! handed the current instant, and says what the caller has to do next.

use vstd::prelude::*;
use crate::registry::lemma_run_ends_after_last_wake;
use crate::registry::live;
use crate::registry::pending;
use crate::registry::registry_spawned;
use crate::registry::registry_woken;
use crate::task::Poll;
use crate::task::TaskState;

verus! {

/// What a poll of a delay yields.
#[derive(Clone, Copy, Debug, PartialEq, Eq, Structural)]
pub enum DelayPoll {
    /// The deadline has passed.
    Ready,
    /// The deadline lies ahead and the handle was stored: the caller starts
    /// the waiter, as `check_waker` plans it.
    Armed,
    /// The deadline lies ahead and a waiter is already under way.
    Pending,
}

impl DelayPoll {
    /// The outcome as the owning task sees it: suspended unless ready.
    pub open spec fn outcome(self) -> Poll {
        if self == DelayPoll::Ready {
            Poll::Ready
        } else {
            Poll::Pending
        }
    }

    /// The outcome as the owning task sees it: suspended unless ready.
    pub fn as_poll(self) -> (poll: Poll)
        ensures
            poll == self.outcome(),
    {
        match self {
            DelayPoll::Ready => Poll::Ready,
            DelayPoll::Armed => Poll::Pending,
            DelayPoll::Pending => Poll::Pending,
        }
    }
}

/// What a delay holds: its deadline, and the wake handle that waits for it.
pub struct DelayState<W> {
    pub deadline: u64,
    pub waker: Option<W>,
}

/// A new delay: the deadline is `duration` after `now`, and no handle waits.
pub open spec fn created<W>(now: u64, duration: u64) -> DelayState<W>
    recommends
        now + duration <= u64::MAX,
{
    DelayState { deadline: (now + duration) as u64, waker: None }
}

/// The delay after a poll at `now` that offers `handle`. Only a poll before
/// the deadline that finds the slot empty stores the handle.
pub open spec fn polled<W>(delay: DelayState<W>, now: u64, handle: W) -> DelayState<W> {
    if now < delay.deadline && delay.waker is None {
        DelayState { deadline: delay.deadline, waker: Some(handle) }
    } else {
        delay
    }
}

/// What a poll at `now` yields.
pub open spec fn poll_result<W>(delay: DelayState<W>, now: u64) -> DelayPoll {
    if now >= delay.deadline {
        DelayPoll::Ready
    } else if delay.waker is None {
        DelayPoll::Armed
    } else {
        DelayPoll::Pending
    }
}

/// How long the waiter sleeps when it is started at `now`, in nanoseconds:
/// exactly the time that is left to the deadline, and no time at all from the
/// deadline on.
pub open spec fn waiter_sleep<W>(delay: DelayState<W>, now: u64) -> u64 {
    if now >= delay.deadline {
        0
    } else {
        (delay.deadline - now) as u64
    }
}

/// The delay after its waiter fired: the slot is empty.
pub open spec fn fired<W>(delay: DelayState<W>) -> DelayState<W> {
    DelayState { deadline: delay.deadline, waker: None }
}

/// A time delay that a computation can suspend on.
pub struct Delay<W> {
    deadline: u64,
    waker: Option<W>,
}

impl<W> View for Delay<W> {
    type V = DelayState<W>;

    closed spec fn view(&self) -> DelayState<W> {
        DelayState { deadline: self.deadline, waker: self.waker }
    }
}

impl<W> Delay<W> {
    /// Creates a delay that is over `duration` nanoseconds after `now`. No
    /// handle waits for it yet.
    pub fn new(now: u64, duration: u64) -> (delay: Delay<W>)
        requires
            now + duration <= u64::MAX,
        ensures
            delay@ == created::<W>(now, duration),
    {
        Delay { deadline: now + duration, waker: None }
    }

    /// The instant at which the delay is over.
    pub fn deadline(&self) -> (deadline: u64)
        ensures
            deadline == self@.deadline,
    {
        self.deadline
    }

    /// Whether a handle waits for the deadline.
    pub fn is_armed(&self) -> (armed: bool)
        ensures
            armed == (self@.waker is Some),
    {
        self.waker.is_some()
    }

    /// Polls the delay at the instant `now`.
    ///
    /// At or after the deadline the delay is ready and nothing is stored.
    /// Before it, the handle is stored if the slot is empty, and the caller
    /// is told to start the waiter; if a handle waits already, that handle
    /// stays and no second waiter is asked for.
    pub fn poll(&mut self, now: u64, handle: W) -> (result: DelayPoll)
        ensures
            final(self)@ == polled(old(self)@, now, handle),
            result == poll_result(old(self)@, now),
    {
        if now >= self.deadline {
            return DelayPoll::Ready;
        }
        if self.waker.is_none() {
            self.waker = Some(handle);
            DelayPoll::Armed
        } else {
            DelayPoll::Pending
        }
    }

    /// Plans the waiter that is started at the instant `now`: says for how
    /// many nanoseconds it sleeps before it fires.
    ///
    /// The waiter sleeps for the time that is left, which is none from the
    /// deadline on. The stored handle stays where it is: it leaves the slot
    /// only when the waiter fires.
    pub fn check_waker(&self, now: u64) -> (sleep: u64)
        ensures
            sleep == waiter_sleep(self@, now),
    {
        if now >= self.deadline {
            0
        } else {
            self.deadline - now
        }
    }

    /// The waiter's last act, after its sleep: takes the stored handle out,
    /// to be invoked once. The slot is empty afterwards, so a second call
    /// hands out nothing.
    pub fn fire(&mut self) -> (handle: Option<W>)
        ensures
            final(self)@ == fired(old(self)@),
            handle == old(self)@.waker,
    {
        self.waker.take()
    }
}

/// A delay of `duration` that was created at `start` and is polled at an
/// instant `now` before `start + duration` is not ready: the poll stores the
/// handle and asks for the waiter. That waiter sleeps for all the time that
/// is left, so it fires no earlier than `duration` after `start`, and it
/// hands out the handle that the poll stored. Any poll at or after the
/// instant at which it fires is ready.
pub proof fn lemma_delay_elapses<W>(start: u64, duration: u64, now: u64, later: u64, handle: W)
    requires
        start + duration <= u64::MAX,
        now < start + duration,
        later >= start + duration,
    ensures
        poll_result(created::<W>(start, duration), now) == DelayPoll::Armed,
        polled(created::<W>(start, duration), now, handle).waker == Some(handle),
        waiter_sleep(polled(created::<W>(start, duration), now, handle), now) == start
            + duration - now,
        fired(polled(created::<W>(start, duration), now, handle)).waker is None,
        poll_result(fired(polled(created::<W>(start, duration), now, handle)), later)
            == DelayPoll::Ready,
        poll_result(polled(created::<W>(start, duration), now, handle), later)
            == DelayPoll::Ready,
{
}

/// A poll is ready exactly from the deadline on, whatever the slot holds, and
/// a ready poll stores nothing.
pub proof fn lemma_ready_from_deadline_on<W>(delay: DelayState<W>, now: u64, handle: W)
    ensures
        poll_result(delay, now) == DelayPoll::Ready <==> now >= delay.deadline,
        now >= delay.deadline ==> polled(delay, now, handle) == delay,
        polled(delay, now, handle).deadline == delay.deadline,
{
}

/// At most one waiter is under way for a delay: while a handle waits, a poll
/// asks for no waiter and leaves that handle in place; and once the waiter
/// has fired, at or after the deadline, every later poll is ready, so none
/// asks for a waiter again.
pub proof fn lemma_single_waiter<W>(
    delay: DelayState<W>,
    now: u64,
    fire_at: u64,
    later: u64,
    handle: W,
)
    requires
        delay.waker is Some,
        fire_at >= delay.deadline,
        later >= fire_at,
    ensures
        poll_result(delay, now) != DelayPoll::Armed,
        polled(delay, now, handle) == delay,
        poll_result(fired(delay), later) == DelayPoll::Ready,
        polled(fired(delay), later, handle) == fired(delay),
{
}

/// The stored handle is handed out at most once, and by the waiter alone:
/// after the waiter has fired the slot is empty, and firing again hands out
/// nothing. A waiter that is started at or after the deadline sleeps no time
/// before it fires; one that is started earlier fires at the deadline.
pub proof fn lemma_fires_once<W>(delay: DelayState<W>, now: u64)
    ensures
        fired(delay).waker is None,
        fired(fired(delay)) == fired(delay),
        fired(delay).deadline == delay.deadline,
        now >= delay.deadline ==> waiter_sleep(delay, now) == 0,
        now < delay.deadline ==> now + waiter_sleep(delay, now) == delay.deadline,
{
}

/// The registry of a run with two tasks: `quick`, which was ready at its
/// first poll, and `sleeper`, whose first poll gave `first`.
pub open spec fn quick_and_sleeper(quick: u64, sleeper: u64, first: Poll) -> Seq<TaskState> {
    registry_spawned(
        registry_spawned(Seq::<TaskState>::empty(), quick, Poll::Ready),
        sleeper,
        first,
    )
}

/// A run with a task that is ready at once and a task whose sole action is
/// to wait for a delay does not end before the delay is over, and ends with
/// the first reaping pass after the waiter has fired.
///
/// The delay is created at `start` and first polled at `now`, when the task
/// is spawned, before the deadline. That poll is pending, so a reaping pass
/// leaves the sleeper registered and the run goes on. A drive at any instant
/// `early` before the deadline changes nothing. The waiter sleeps until the
/// deadline, no less; the drive that follows its wake, at `late`, is ready,
/// and the reaping pass after it leaves the registry empty.
pub proof fn lemma_run_outlasts_the_delay<W>(
    start: u64,
    duration: u64,
    now: u64,
    early: u64,
    late: u64,
    handle: W,
    quick: u64,
    sleeper: u64,
)
    requires
        start + duration <= u64::MAX,
        now < start + duration,
        early < start + duration,
        late >= start + duration,
        quick != sleeper,
    ensures
        poll_result(created::<W>(start, duration), now).outcome() == Poll::Pending,
        live(quick_and_sleeper(quick, sleeper, Poll::Pending)).len() == 1,
        poll_result(polled(created::<W>(start, duration), now, handle), early).outcome()
            == Poll::Pending,
        registry_woken(
            live(quick_and_sleeper(quick, sleeper, Poll::Pending)),
            sleeper,
            Poll::Pending,
        ) == live(quick_and_sleeper(quick, sleeper, Poll::Pending)),
        live(live(quick_and_sleeper(quick, sleeper, Poll::Pending))).len() == 1,
        waiter_sleep(polled(created::<W>(start, duration), now, handle), now) == start
            + duration - now,
        poll_result(fired(polled(created::<W>(start, duration), now, handle)), late).outcome()
            == Poll::Ready,
        live(
            registry_woken(
                live(quick_and_sleeper(quick, sleeper, Poll::Pending)),
                sleeper,
                Poll::Ready,
            ),
        ) == Seq::<TaskState>::empty(),
{
    let none = Seq::<TaskState>::empty();
    let first = TaskState { id: quick, completed: true };
    let second = TaskState { id: sleeper, completed: false };
    assert(live(none) == none) by {
        reveal(Seq::filter);
    }
    none.lemma_filter_push(first, pending());
    none.push(first).lemma_filter_push(second, pending());
    let waiting = live(quick_and_sleeper(quick, sleeper, Poll::Pending));
    assert(waiting == none.push(second));
    assert(registry_woken(waiting, sleeper, Poll::Pending) =~= waiting);
    none.lemma_filter_push(second, pending());
    lemma_run_ends_after_last_wake(waiting, sleeper);
}

} // verus!

//! Tasks, the outcome of a poll, and the capability to wake a task.

use vstd::prelude::*;

verus! {

/// What one poll of a computation yields.
#[derive(Clone, Copy, Debug, PartialEq, Eq, Structural)]
pub enum Poll {
    /// The computation has finished and must not be polled again.
    Ready,
    /// The computation is suspended until its wake handle is invoked.
    Pending,
}

/// A capability bound to exactly one task: invoking it asks for that task to
/// be driven again.
#[derive(Clone, Copy, Debug, PartialEq, Eq, Structural)]
pub struct WakeHandle {
    pub task: u64,
}

impl WakeHandle {
    /// The identifier of the task that the handle is bound to.
    pub open spec fn task(self) -> u64 {
        self.task
    }

    /// The handle bound to the task with the given identifier.
    pub open spec fn bound(task: u64) -> WakeHandle {
        WakeHandle { task }
    }

    /// A handle bound to the task with the given identifier.
    pub fn new(task: u64) -> (handle: WakeHandle)
        ensures
            handle == WakeHandle::bound(task),
            handle.task() == task,
    {
        WakeHandle { task }
    }

    /// The identifier of the task that the handle is bound to.
    pub fn task_id(&self) -> (id: u64)
        ensures
            id == self.task(),
    {
        self.task
    }
}

/// A suspendable unit of work, advanced by polling.
///
/// `poll` is handed a fresh handle bound to the task that owns the
/// computation. A computation that returns `Pending` is polled again only
/// after that handle, or an earlier one of the same task, has been invoked;
/// one that has returned `Ready` is never polled again.
pub trait Computation: Send {
    /// Whether a poll that is handed `handle` may have `outcome`, in the
    /// state that the computation is in. A computation that says nothing of
    /// itself allows every outcome.
    open spec fn may_yield(&self, handle: WakeHandle, outcome: Poll) -> bool {
        true
    }

    /// One attempt to advance the computation.
    fn poll(&mut self, handle: WakeHandle) -> (outcome: Poll)
        ensures
            old(self).may_yield(handle, outcome),
    ;
}

/// What the registry records of a task: its identifier and whether its
/// computation has finished.
pub struct TaskState {
    pub id: u64,
    pub completed: bool,
}

/// The completion flag after a poll with the given outcome: it is raised by
/// `Ready` and never lowered.
pub open spec fn settled(completed: bool, outcome: Poll) -> bool {
    completed || outcome == Poll::Ready
}

/// The test that a task passes while its computation has not finished.
pub open spec fn unfinished<C: Computation>() -> spec_fn(Task<C>) -> bool {
    |t: Task<C>| !t.completed()
}

/// Where a task stands between its drives.
#[derive(Clone, Copy, Debug, PartialEq, Eq, Structural)]
pub enum Phase {
    /// No drive is in flight; the task holds its computation.
    Idle,
    /// A drive is in flight: the computation is lent out to it.
    Running,
    /// A drive is in flight, and a wake has arrived since it began.
    Rewoken,
    /// The computation has returned `Ready`.
    Done,
}

/// The phase after a wake was delivered whose drive polls outside the task:
/// a task at rest starts that drive, a task with a drive in flight remembers
/// the wake, once, and a completed task ignores it.
pub open spec fn phase_after_wake(phase: Phase) -> Phase {
    match phase {
        Phase::Idle => Phase::Running,
        Phase::Running => Phase::Rewoken,
        Phase::Rewoken => Phase::Rewoken,
        Phase::Done => Phase::Done,
    }
}

/// The phase after the drive in flight ended with `outcome`. Where no drive
/// is in flight there is none to end.
pub open spec fn phase_after_end(phase: Phase, outcome: Poll) -> Phase {
    match phase {
        Phase::Running | Phase::Rewoken => if outcome == Poll::Ready {
            Phase::Done
        } else {
            Phase::Idle
        },
        _ => phase,
    }
}

/// Whether the end of a drive asks for another one: a wake arrived while the
/// drive was in flight, and the computation is still pending.
pub open spec fn asks_again(phase: Phase, outcome: Poll) -> bool {
    phase == Phase::Rewoken && outcome == Poll::Pending
}

/// Whether a wake that is delivered in this phase starts a drive: only a
/// task at rest lends its computation out.
pub open spec fn starts_drive(phase: Phase) -> bool {
    phase == Phase::Idle
}

/// The phase after this many wakes were delivered in a row.
pub open spec fn phase_after_wakes(phase: Phase, wakes: nat) -> Phase
    decreases wakes,
{
    if wakes == 0 {
        phase
    } else {
        phase_after_wake(phase_after_wakes(phase, (wakes - 1) as nat))
    }
}

/// At most one drive of a task is in flight. Of any number of wakes that are
/// delivered to a task at rest, the first starts a drive and none of the
/// others does; and while a drive is in flight, no wake starts another,
/// however many arrive before it ends.
pub proof fn lemma_one_drive_at_a_time(wakes: nat)
    ensures
        starts_drive(Phase::Idle),
        wakes > 0 ==> !starts_drive(phase_after_wakes(Phase::Idle, wakes)),
        !starts_drive(phase_after_wakes(Phase::Running, wakes)),
        !starts_drive(phase_after_wakes(Phase::Rewoken, wakes)),
        phase_after_wakes(Phase::Running, wakes) == (if wakes == 0 {
            Phase::Running
        } else {
            Phase::Rewoken
        }),
        phase_after_wakes(Phase::Rewoken, wakes) == Phase::Rewoken,
    decreases wakes,
{
    if wakes > 0 {
        lemma_one_drive_at_a_time((wakes - 1) as nat);
    }
}

/// Wakes that arrive while a drive is in flight are coalesced, and none is
/// lost. If the drive ends pending, it asks for one more drive exactly when
/// at least one wake arrived, however many they were; the task is at rest
/// again, so that further drive can start. If the drive ends ready, the task
/// is done and nothing more is asked for.
pub proof fn lemma_wakes_coalesce(wakes: nat, outcome: Poll)
    ensures
        asks_again(phase_after_wakes(Phase::Running, wakes), outcome) == (wakes > 0 && outcome
            == Poll::Pending),
        phase_after_end(phase_after_wakes(Phase::Running, wakes), outcome) == (if outcome
            == Poll::Ready {
            Phase::Done
        } else {
            Phase::Idle
        }),
{
    lemma_one_drive_at_a_time(wakes);
}

/// A task that is done stays done: no wake starts a drive of it, whatever
/// their number, and there is no drive to end.
pub proof fn lemma_done_is_final(wakes: nat, outcome: Poll)
    ensures
        phase_after_wakes(Phase::Done, wakes) == Phase::Done,
        !starts_drive(phase_after_wakes(Phase::Done, wakes)),
        phase_after_end(Phase::Done, outcome) == Phase::Done,
        !asks_again(Phase::Done, outcome),
    decreases wakes,
{
    if wakes > 0 {
        lemma_done_is_final((wakes - 1) as nat, outcome);
    }
}

/// One computation together with its completion flag.
pub struct Task<C> {
    id: u64,
    /// `None` while a drive is in flight.
    computation: Option<C>,
    completed: bool,
    /// Whether a wake has arrived since the drive in flight began.
    woken: bool,
}

impl<C: Computation> Task<C> {
    /// The identifier that wake handles of the task carry.
    pub closed spec fn id(&self) -> u64 {
        self.id
    }

    /// Whether the computation has returned `Ready`.
    pub closed spec fn completed(&self) -> bool {
        self.completed
    }

    /// Where the task stands between its drives.
    pub closed spec fn phase(&self) -> Phase {
        if self.completed {
            Phase::Done
        } else if self.computation is Some {
            Phase::Idle
        } else if self.woken {
            Phase::Rewoken
        } else {
            Phase::Running
        }
    }

    /// A task is done exactly when its computation has returned `Ready`.
    pub proof fn lemma_done_is_completed(self)
        ensures
            self.phase() == Phase::Done <==> self.completed(),
    {
    }

    /// Whether this is what the task holds: its computation, or nothing
    /// while the computation is lent out.
    pub closed spec fn holds(&self, computation: Option<C>) -> bool {
        self.computation == computation
    }

    /// Whether a poll of the computation that the task holds, handed
    /// `handle`, may have `outcome`.
    pub closed spec fn may_yield(&self, handle: WakeHandle, outcome: Poll) -> bool {
        match self.computation {
            Some(computation) => computation.may_yield(handle, outcome),
            None => false,
        }
    }

    /// What the registry records of the task.
    pub open spec fn state(&self) -> TaskState {
        TaskState { id: self.id(), completed: self.completed() }
    }

    /// The outcome that the completion flag of a task records.
    pub open spec fn outcome(&self) -> Poll {
        if self.completed() {
            Poll::Ready
        } else {
            Poll::Pending
        }
    }

    /// Whether `after` is what one drive makes of the task. A task that has
    /// completed is left as it is. A task at rest has its computation polled
    /// with the handle bound to the task, and its flag is raised exactly if
    /// that poll gave `Ready`. A task with a drive in flight is not polled:
    /// it remembers the wake.
    pub open spec fn driven(self, after: Task<C>) -> bool {
        &&& after.id() == self.id()
        &&& match self.phase() {
            Phase::Done => after == self,
            Phase::Idle => {
                &&& self.may_yield(WakeHandle::bound(self.id()), after.outcome())
                &&& after.phase() == phase_after_end(Phase::Running, after.outcome())
            },
            Phase::Running | Phase::Rewoken => {
                &&& after.phase() == Phase::Rewoken
                &&& !after.completed()
            },
        }
    }

    /// Whether `after` and `lent` are what the start of a drive makes of the
    /// task. Only a task at rest lends its computation out: the drive is
    /// bound to the task and carries the computation that the task held.
    pub open spec fn begun(self, after: Task<C>, lent: Option<Drive<C>>) -> bool {
        &&& after.id() == self.id()
        &&& after.completed() == self.completed()
        &&& after.phase() == phase_after_wake(self.phase())
        &&& lent is Some <==> starts_drive(self.phase())
        &&& lent matches Some(drive) ==> {
            &&& drive.handle() == WakeHandle::bound(self.id())
            &&& self.holds(Some(drive.lent()))
            &&& forall|outcome: Poll| #[trigger]
                drive.may_yield(outcome) == self.may_yield(drive.handle(), outcome)
        }
        &&& self.phase() == Phase::Done ==> after == self
    }

    /// Whether `after` and `again` are what the end of a drive makes of the
    /// task, when the drive hands its computation back after a poll. Where
    /// no drive is in flight, nothing changes.
    pub open spec fn ended(self, after: Task<C>, polled: Polled<C>, again: bool) -> bool {
        &&& after.id() == self.id()
        &&& if self.phase() == Phase::Running || self.phase() == Phase::Rewoken {
            &&& after.phase() == phase_after_end(self.phase(), polled.outcome())
            &&& after.completed() == (polled.outcome() == Poll::Ready)
            &&& after.holds(Some(polled.returned()))
            &&& again == asks_again(self.phase(), polled.outcome())
        } else {
            &&& after == self
            &&& !again
        }
    }

    /// The task that wraps a computation that has not been polled yet.
    pub closed spec fn fresh(id: u64, computation: C) -> Task<C> {
        Task { id, computation: Some(computation), completed: false, woken: false }
    }

    /// A fresh task is at rest, not completed, and holds the computation
    /// that it wraps: what a poll of the task may yield is what a poll of
    /// that computation may yield.
    pub proof fn lemma_fresh(id: u64, computation: C)
        ensures
            Self::fresh(id, computation).id() == id,
            !Self::fresh(id, computation).completed(),
            Self::fresh(id, computation).phase() == Phase::Idle,
            Self::fresh(id, computation).holds(Some(computation)),
            forall|handle: WakeHandle, outcome: Poll| #[trigger]
                Self::fresh(id, computation).may_yield(handle, outcome) == computation.may_yield(
                    handle,
                    outcome,
                ),
    {
    }

    /// The first drive of a task follows its computation. If the computation
    /// can only be ready when it is polled with the handle of the task, the
    /// drive leaves the task completed; if it can only be pending, the drive
    /// leaves the task at rest and not completed.
    pub proof fn lemma_first_drive_follows_the_computation(
        id: u64,
        computation: C,
        after: Task<C>,
    )
        requires
            Self::fresh(id, computation).driven(after),
        ensures
            computation.may_yield(WakeHandle::bound(id), after.outcome()),
            !computation.may_yield(WakeHandle::bound(id), Poll::Pending) ==> after.completed()
                && after.phase() == Phase::Done,
            !computation.may_yield(WakeHandle::bound(id), Poll::Ready) ==> !after.completed()
                && after.phase() == Phase::Idle,
    {
        Self::lemma_fresh(id, computation);
    }

    /// Wraps a computation that has not been polled yet.
    pub fn new(id: u64, computation: C) -> (task: Task<C>)
        ensures
            task == Self::fresh(id, computation),
            task.id() == id,
            !task.completed(),
            task.phase() == Phase::Idle,
            task.holds(Some(computation)),
            forall|handle: WakeHandle, outcome: Poll| #[trigger]
                task.may_yield(handle, outcome) == computation.may_yield(handle, outcome),
    {
        Task { id, computation: Some(computation), completed: false, woken: false }
    }

    /// The identifier that wake handles of the task carry.
    pub fn task_id(&self) -> (id: u64)
        ensures
            id == self.id(),
    {
        self.id
    }

    /// Whether the computation has returned `Ready`.
    pub fn is_completed(&self) -> (completed: bool)
        ensures
            completed == self.completed(),
    {
        self.completed
    }

    /// Where the task stands between its drives.
    pub fn current_phase(&self) -> (phase: Phase)
        ensures
            phase == self.phase(),
    {
        if self.completed {
            Phase::Done
        } else if self.computation.is_some() {
            Phase::Idle
        } else if self.woken {
            Phase::Rewoken
        } else {
            Phase::Running
        }
    }

    /// A fresh handle bound to the task.
    pub fn handle(&self) -> (handle: WakeHandle)
        ensures
            handle == WakeHandle::bound(self.id()),
            handle.task() == self.id(),
    {
        WakeHandle::new(self.id)
    }

    /// Records the outcome of a poll: `Ready` raises the completion flag,
    /// `Pending` changes nothing, and the flag is never lowered.
    pub fn settle(&mut self, outcome: Poll)
        ensures
            final(self).id() == old(self).id(),
            final(self).completed() == settled(old(self).completed(), outcome),
            final(self).completed() == old(self).completed() ==> *final(self) == *old(self),
            forall|computation: Option<C>|
                #[trigger] final(self).holds(computation) == old(self).holds(computation),
            final(self).phase() == (if final(self).completed() {
                Phase::Done
            } else {
                old(self).phase()
            }),
    {
        if outcome == Poll::Ready {
            self.completed = true;
        }
    }

    /// Drives the task once. A task that has completed is left as it is, and
    /// its computation is not polled. A task at rest has its computation
    /// polled with a fresh handle bound to the task, and the outcome is
    /// recorded. A task whose computation is lent out to a drive in flight
    /// is not polled either: it remembers that a wake arrived.
    pub fn poll(&mut self)
        ensures
            old(self).driven(*final(self)),
    {
        if self.completed {
            return ;
        }
        match self.computation.take() {
            Some(mut computation) => {
                let handle = self.handle();
                let outcome = computation.poll(handle);
                self.computation = Some(computation);
                self.settle(outcome);
            },
            None => {
                self.woken = true;
            },
        }
    }

    /// Starts a drive that polls outside the task. A task at rest lends its
    /// computation out and has a drive in flight from then on. A task with a
    /// drive in flight lends nothing and remembers that a wake arrived; a
    /// completed task lends nothing and stays as it is.
    pub fn begin(&mut self) -> (lent: Option<Drive<C>>)
        ensures
            old(self).begun(*final(self), lent),
    {
        if self.completed {
            return None;
        }
        match self.computation.take() {
            Some(computation) => {
                self.woken = false;
                Some(Drive { handle: self.handle(), computation })
            },
            None => {
                self.woken = true;
                None
            },
        }
    }

    /// Ends the drive in flight: takes the computation back and records the
    /// outcome of its poll. Returns whether another drive is owed, which is
    /// so exactly when a wake arrived during the drive and the computation
    /// is still pending. Where no drive is in flight, nothing changes.
    pub fn end(&mut self, polled: Polled<C>) -> (again: bool)
        ensures
            old(self).ended(*final(self), polled, again),
    {
        if self.completed || self.computation.is_some() {
            return false;
        }
        let again = self.woken && polled.outcome == Poll::Pending;
        self.computation = Some(polled.computation);
        self.woken = false;
        self.settle(polled.outcome);
        again
    }
}

/// A drive in flight that has not polled yet: the computation of one task,
/// lent out together with the handle bound to that task.
pub struct Drive<C> {
    handle: WakeHandle,
    computation: C,
}

/// A drive in flight after its poll: the computation on its way back to the
/// task, with the outcome of the poll.
pub struct Polled<C> {
    handle: WakeHandle,
    computation: C,
    outcome: Poll,
}

impl<C: Computation> Drive<C> {
    /// The handle bound to the task that lent the computation out.
    pub closed spec fn handle(&self) -> WakeHandle {
        self.handle
    }

    /// The computation that was lent out.
    pub closed spec fn lent(&self) -> C {
        self.computation
    }

    /// Whether the poll of the drive may have `outcome`: the computation
    /// that was lent out is polled with the handle of the drive.
    pub open spec fn may_yield(&self, outcome: Poll) -> bool {
        self.lent().may_yield(self.handle(), outcome)
    }

    /// The handle bound to the task that lent the computation out.
    pub fn task(&self) -> (handle: WakeHandle)
        ensures
            handle == self.handle(),
    {
        self.handle
    }

    /// Polls the computation, once, with the handle of the drive. The drive
    /// is used up: what is left is to hand the computation back.
    pub fn poll(self) -> (polled: Polled<C>)
        ensures
            polled.handle() == self.handle(),
            self.may_yield(polled.outcome()),
    {
        let handle = self.handle;
        let mut computation = self.computation;
        let outcome = computation.poll(handle);
        Polled { handle, computation, outcome }
    }
}

impl<C: Computation> Polled<C> {
    /// The handle bound to the task that lent the computation out.
    pub closed spec fn handle(&self) -> WakeHandle {
        self.handle
    }

    /// What the poll gave.
    pub closed spec fn outcome(&self) -> Poll {
        self.outcome
    }

    /// The computation on its way back to the task.
    pub closed spec fn returned(&self) -> C {
        self.computation
    }

    /// The handle bound to the task that lent the computation out.
    pub fn task(&self) -> (handle: WakeHandle)
        ensures
            handle == self.handle(),
    {
        self.handle
    }

    /// What the poll gave.
    pub fn result(&self) -> (outcome: Poll)
        ensures
            outcome == self.outcome(),
    {
        self.outcome
    }
}

} // verus!

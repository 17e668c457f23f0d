//! A minimal cooperative task scheduler, as a verified sequential core.
//!
//! The core keeps the registry of tasks, decides when a computation is polled
//! and when a task is reaped, and plans the timer of a [`delay::Delay`]. It
//! owns no thread and reads no clock: the caller hands it instants as numbers
//! and carries out the sleeps that it asks for.
//!
//! A task is driven in one of two ways. [`Runtime::spawn`] and
//! [`Runtime::wake`] poll the computation before they return. A caller that
//! shares the registry between threads polls outside it instead:
//! [`Runtime::begin_drive`] lends the computation out, [`task::Drive::poll`]
//! polls it, and [`Runtime::end_drive`] hands it back. While a computation is
//! lent out no second drive of its task starts, and the wakes that arrive
//! are remembered as one.

pub mod delay;
pub mod registry;
pub mod task;

use vstd::prelude::*;
use crate::registry::awaited;
use crate::registry::lemma_filter_keeps_all;
use crate::registry::lemma_filter_remove_rejected;
use crate::registry::live;
use crate::registry::ordered;
use crate::registry::pending;
use crate::registry::registered;
use crate::registry::registry_spawned;
use crate::registry::registry_woken;
use crate::task::Computation;
use crate::task::Drive;
use crate::task::Phase;
use crate::task::Poll;
use crate::task::Polled;
use crate::task::Task;
use crate::task::TaskState;
use crate::task::WakeHandle;
use crate::task::unfinished;

verus! {

/// How long the caller of [`Runtime::run_step`] sleeps between two reaping
/// passes, in milliseconds.
pub const REAP_INTERVAL_MILLIS: u64 = 10;

/// What the run loop does after a reaping pass.
#[derive(Clone, Copy, Debug, PartialEq, Eq, Structural)]
pub enum RunStep {
    /// The registry is empty: the run loop returns.
    Done,
    /// Tasks remain: sleep for this many milliseconds, then reap again.
    Sleep { millis: u64 },
}

/// The registry of tasks that have been spawned and not yet reaped. The
/// computations of one runtime are of one type.
pub struct Runtime<C> {
    tasks: Vec<Task<C>>,
    next_id: u64,
}

impl<C: Computation> View for Runtime<C> {
    type V = Seq<TaskState>;

    /// The states of the registered tasks, oldest first.
    open spec fn view(&self) -> Seq<TaskState> {
        self.tasks().map_values(|t: Task<C>| t.state())
    }
}

impl<C: Computation> Runtime<C> {
    /// The registered tasks, oldest first.
    pub closed spec fn tasks(&self) -> Seq<Task<C>> {
        self.tasks@
    }

    /// How many tasks have been spawned so far; the next task takes this
    /// number as its identifier.
    pub closed spec fn spawned(&self) -> u64 {
        self.next_id
    }

    /// Identifiers are unique, grow along the registry, and are below the
    /// identifier that the next task takes.
    pub open spec fn wf(&self) -> bool {
        ordered(self@, self.spawned())
    }

    /// Whether a drive of the task with this identifier is in flight.
    pub open spec fn in_flight(&self, id: u64) -> bool {
        exists|i: int|
            0 <= i < self.tasks().len() && (#[trigger] self.tasks()[i]).id() == id && (
            self.tasks()[i].phase() == Phase::Running || self.tasks()[i].phase()
                == Phase::Rewoken)
    }

    /// Where the task with this identifier stands in the registry.
    fn position(&self, id: u64) -> (found: Option<usize>)
        requires
            self.wf(),
        ensures
            found matches Some(i) ==> i < self.tasks().len() && self.tasks()[i as int].id() == id,
            found is None ==> forall|k: int|
                0 <= k < self.tasks().len() ==> (#[trigger] self.tasks()[k]).id() != id,
    {
        let mut i: usize = 0;
        while i < self.tasks.len()
            invariant
                i <= self.tasks.len(),
                forall|k: int| 0 <= k < i ==> (#[trigger] self.tasks()[k]).id() != id,
            decreases self.tasks.len() - i,
        {
            if self.tasks[i].task_id() == id {
                return Some(i);
            }
            i += 1;
        }
        None
    }

    /// Creates a runtime with an empty registry.
    pub fn new() -> (runtime: Runtime<C>)
        ensures
            runtime.wf(),
            runtime.tasks() == Seq::<Task<C>>::empty(),
            runtime@ == Seq::<TaskState>::empty(),
            runtime.spawned() == 0,
    {
        Runtime { tasks: Vec::new(), next_id: 0 }
    }

    /// Wraps the computation in a new task and registers it, without driving
    /// it. The task takes `spawned()` as its identifier, is at rest and not
    /// completed, and holds the computation; the handle that is returned is
    /// bound to it. The tasks registered before are not touched.
    pub fn register(&mut self, computation: C) -> (handle: WakeHandle)
        requires
            old(self).wf(),
            old(self).spawned() < u64::MAX,
        ensures
            final(self).wf(),
            final(self).spawned() == old(self).spawned() + 1,
            handle == WakeHandle::bound(old(self).spawned()),
            final(self).tasks() == old(self).tasks().push(
                Task::fresh(old(self).spawned(), computation),
            ),
            final(self)@ == old(self)@.push(
                TaskState { id: old(self).spawned(), completed: false },
            ),
            final(self).tasks().last().phase() == Phase::Idle,
            final(self).tasks().last().holds(Some(computation)),
            forall|handle: WakeHandle, outcome: Poll| #[trigger]
                final(self).tasks().last().may_yield(handle, outcome) == computation.may_yield(
                    handle,
                    outcome,
                ),
    {
        let id = self.next_id;
        self.next_id = id + 1;
        self.tasks.push(Task::new(id, computation));
        proof {
            assert(self@ =~= old(self)@.push(TaskState { id, completed: false }));
        }
        WakeHandle::new(id)
    }

    /// Wraps the computation in a new task, registers it, and drives it once
    /// before returning: work starts at once, not at the next reaping pass.
    ///
    /// The task takes `spawned()` as its identifier. The computation that
    /// is handed in is polled with a handle bound to the task, and the flag
    /// of the task is raised exactly if that first poll gave `Ready`; the
    /// task is at rest or done afterwards. The tasks registered before are
    /// not touched.
    pub fn spawn(&mut self, computation: C)
        requires
            old(self).wf(),
            old(self).spawned() < u64::MAX,
        ensures
            final(self).wf(),
            final(self).spawned() == old(self).spawned() + 1,
            computation.may_yield(
                WakeHandle::bound(old(self).spawned()),
                final(self).tasks().last().outcome(),
            ),
            final(self)@ == registry_spawned(
                old(self)@,
                old(self).spawned(),
                final(self).tasks().last().outcome(),
            ),
            final(self).tasks().len() == old(self).tasks().len() + 1,
            final(self).tasks().drop_last() == old(self).tasks(),
            Task::fresh(old(self).spawned(), computation).driven(final(self).tasks().last()),
    {
        self.register(computation);
        let last = self.tasks.len() - 1;
        let ghost fresh = self.tasks()[last as int];
        let ghost registered = self.tasks();
        self.tasks[last].poll();
        proof {
            Task::lemma_fresh(old(self).spawned(), computation);
            assert(fresh == Task::fresh(old(self).spawned(), computation));
            assert(fresh.driven(self.tasks().last()));
            assert(self.tasks().drop_last() =~= registered.drop_last());
            assert(registered.drop_last() =~= old(self).tasks());
            assert(self@ =~= registry_spawned(
                old(self)@,
                old(self).spawned(),
                self.tasks().last().outcome(),
            ));
        }
    }

    /// Delivers a wake and drives the task that the handle is bound to, once,
    /// before returning.
    ///
    /// A handle whose task has completed, or has left the registry, or was
    /// never in it, changes nothing and polls nothing. A task at rest has its
    /// computation polled with a handle bound to the task, and its flag is
    /// raised exactly if the poll gave `Ready`. A task whose computation is
    /// lent out to a drive in flight is not polled: the wake is remembered,
    /// and the end of that drive asks for another. No other task is touched.
    pub fn wake(&mut self, handle: WakeHandle)
        requires
            old(self).wf(),
        ensures
            final(self).wf(),
            final(self).spawned() == old(self).spawned(),
            final(self)@ == registry_woken(old(self)@, handle.task(), Poll::Ready)
                || final(self)@ == registry_woken(old(self)@, handle.task(), Poll::Pending),
            !awaited(old(self)@, handle.task()) ==> final(self).tasks() == old(self).tasks(),
            final(self).tasks().len() == old(self).tasks().len(),
            forall|i: int|
                0 <= i < old(self).tasks().len() && old(self).tasks()[i].id() != handle.task()
                    ==> #[trigger] final(self).tasks()[i] == old(self).tasks()[i],
            forall|i: int|
                0 <= i < old(self).tasks().len() && old(self).tasks()[i].id() == handle.task()
                    ==> old(self).tasks()[i].driven(#[trigger] final(self).tasks()[i]),
    {
        let id = handle.task_id();
        match self.position(id) {
            Some(i) => {
                self.tasks[i].poll();
                proof {
                    old(self).tasks()[i as int].lemma_done_is_completed();
                    assert(old(self)@[i as int].id == id);
                    assert(self@ =~= registry_woken(
                        old(self)@,
                        id,
                        self.tasks()[i as int].outcome(),
                    ));
                    if !awaited(old(self)@, id) {
                        assert(old(self)@[i as int].completed);
                        assert(self.tasks() =~= old(self).tasks());
                    }
                    assert forall|j: int|
                        0 <= j < old(self).tasks().len() && old(self).tasks()[j].id()
                            == id implies old(self).tasks()[j].driven(
                        #[trigger] self.tasks()[j],
                    ) by {
                        // Identifiers are unique, so `j` is the task just driven.
                        assert(old(self)@[j].id == old(self)@[i as int].id);
                        assert(j == i);
                    }
                }
            },
            None => {
                proof {
                    assert forall|j: int| 0 <= j < old(self)@.len() implies (#[trigger] old(
                        self,
                    )@[j]).id != id by {
                        assert(old(self).tasks()[j].id() != id);
                    }
                    assert(self@ =~= registry_woken(old(self)@, id, Poll::Pending));
                }
            },
        }
    }

    /// Starts a drive that polls outside the registry: delivers a wake to
    /// the task that the handle is bound to and, if that task is at rest,
    /// lends its computation out.
    ///
    /// While the computation is lent out a drive is in flight: further calls
    /// lend nothing and are remembered as one wake, however many they are. A
    /// handle whose task has completed or is not registered lends nothing
    /// and changes nothing. No other task is touched.
    pub fn begin_drive(&mut self, handle: WakeHandle) -> (lent: Option<Drive<C>>)
        requires
            old(self).wf(),
        ensures
            final(self).wf(),
            final(self).spawned() == old(self).spawned(),
            final(self)@ == old(self)@,
            final(self).tasks().len() == old(self).tasks().len(),
            forall|i: int|
                0 <= i < old(self).tasks().len() && old(self).tasks()[i].id() != handle.task()
                    ==> #[trigger] final(self).tasks()[i] == old(self).tasks()[i],
            forall|i: int|
                0 <= i < old(self).tasks().len() && old(self).tasks()[i].id() == handle.task()
                    ==> old(self).tasks()[i].begun(#[trigger] final(self).tasks()[i], lent),
            !registered(old(self)@, handle.task()) ==> lent is None,
    {
        let id = handle.task_id();
        match self.position(id) {
            Some(i) => {
                let lent = self.tasks[i].begin();
                proof {
                    assert(self@ =~= old(self)@);
                    assert forall|j: int|
                        0 <= j < old(self).tasks().len() && old(self).tasks()[j].id()
                            == id implies old(self).tasks()[j].begun(
                        #[trigger] self.tasks()[j],
                        lent,
                    ) by {
                        assert(old(self)@[j].id == old(self)@[i as int].id);
                        assert(j == i);
                    }
                    assert(old(self)@[i as int].id == id);
                }
                lent
            },
            None => {
                proof {
                    assert forall|j: int| 0 <= j < old(self)@.len() implies (#[trigger] old(
                        self,
                    )@[j]).id != id by {
                        assert(old(self).tasks()[j].id() != id);
                    }
                }
                None
            },
        }
    }

    /// Ends the drive in flight of the task that lent the computation out:
    /// hands the computation back and records the outcome of its poll.
    ///
    /// The flag is raised exactly if the outcome is `Ready`, and the task is
    /// at rest again, or done. The result says whether another drive is
    /// owed: it is, exactly when a wake arrived while the drive was in flight
    /// and the computation is still pending. Where no drive of that task is
    /// in flight, nothing changes and none is owed. No other task is touched.
    pub fn end_drive(&mut self, polled: Polled<C>) -> (again: bool)
        requires
            old(self).wf(),
        ensures
            final(self).wf(),
            final(self).spawned() == old(self).spawned(),
            final(self)@ == (if old(self).in_flight(polled.handle().task()) {
                registry_woken(old(self)@, polled.handle().task(), polled.outcome())
            } else {
                old(self)@
            }),
            final(self).tasks().len() == old(self).tasks().len(),
            forall|i: int|
                0 <= i < old(self).tasks().len() && old(self).tasks()[i].id()
                    != polled.handle().task() ==> #[trigger] final(self).tasks()[i] == old(
                    self,
                ).tasks()[i],
            forall|i: int|
                0 <= i < old(self).tasks().len() && old(self).tasks()[i].id()
                    == polled.handle().task() ==> old(self).tasks()[i].ended(
                    #[trigger] final(self).tasks()[i],
                    polled,
                    again,
                ),
            !old(self).in_flight(polled.handle().task()) ==> !again,
    {
        let id = polled.task().task_id();
        let ghost outcome = polled.outcome();
        match self.position(id) {
            Some(i) => {
                let again = self.tasks[i].end(polled);
                proof {
                    let before = old(self).tasks()[i as int];
                    before.lemma_done_is_completed();
                    assert forall|j: int|
                        0 <= j < old(self).tasks().len() && old(self).tasks()[j].id()
                            == id implies j == i by {
                        assert(old(self)@[j].id == old(self)@[i as int].id);
                    }
                    if before.phase() == Phase::Running || before.phase() == Phase::Rewoken {
                        assert(old(self).in_flight(id));
                        assert(self@ =~= registry_woken(old(self)@, id, outcome));
                    } else {
                        assert(self.tasks() =~= old(self).tasks());
                    }
                }
                again
            },
            None => false,
        }
    }

    /// Where the task that the handle is bound to stands between its drives,
    /// or `None` when no such task is registered.
    pub fn phase_of(&self, handle: WakeHandle) -> (phase: Option<Phase>)
        requires
            self.wf(),
        ensures
            phase is Some <==> registered(self@, handle.task()),
            forall|i: int|
                0 <= i < self.tasks().len() && (#[trigger] self.tasks()[i]).id() == handle.task()
                    ==> phase == Some(self.tasks()[i].phase()),
    {
        let id = handle.task_id();
        match self.position(id) {
            Some(i) => {
                proof {
                    assert(self@[i as int].id == id);
                    assert forall|j: int|
                        0 <= j < self.tasks().len() && self.tasks()[j].id() == id implies j
                        == i by {
                        assert(self@[j].id == self@[i as int].id);
                    }
                }
                Some(self.tasks[i].current_phase())
            },
            None => {
                proof {
                    assert forall|j: int| 0 <= j < self@.len() implies (#[trigger] self@[j]).id
                        != id by {
                        assert(self.tasks()[j].id() != id);
                    }
                }
                None
            },
        }
    }

    /// Removes every completed task from the registry and keeps the others,
    /// untouched and in order.
    pub fn reap(&mut self)
        requires
            old(self).wf(),
        ensures
            final(self).wf(),
            final(self).spawned() == old(self).spawned(),
            final(self)@ == live(old(self)@),
            final(self).tasks() == old(self).tasks().filter(unfinished::<C>()),
    {
        let mut i: usize = 0;
        while i < self.tasks.len()
            invariant
                i <= self.tasks.len(),
                self.wf(),
                self.spawned() == old(self).spawned(),
                live(self@) == live(old(self)@),
                self.tasks().filter(unfinished::<C>()) == old(self).tasks().filter(unfinished::<C>()),
                forall|k: int| 0 <= k < i ==> pending()(#[trigger] self@[k]),
                forall|k: int| 0 <= k < i ==> unfinished::<C>()(#[trigger] self.tasks()[k]),
            decreases self.tasks.len() - i,
        {
            if self.tasks[i].is_completed() {
                let ghost states = self@;
                let ghost tasks = self.tasks();
                self.tasks.remove(i);
                proof {
                    assert(self@ =~= states.remove(i as int));
                    lemma_filter_remove_rejected(states, pending(), i as int);
                    lemma_filter_remove_rejected(tasks, unfinished::<C>(), i as int);
                }
            } else {
                i += 1;
            }
        }
        proof {
            lemma_filter_keeps_all(self@, pending());
            lemma_filter_keeps_all(self.tasks(), unfinished::<C>());
        }
    }

    /// One turn of the run loop: reaps, then says whether the loop is over.
    ///
    /// The loop ends exactly when no task is left after the reaping pass;
    /// otherwise the caller sleeps for `REAP_INTERVAL_MILLIS` and takes
    /// another turn.
    pub fn run_step(&mut self) -> (step: RunStep)
        requires
            old(self).wf(),
        ensures
            final(self).wf(),
            final(self).spawned() == old(self).spawned(),
            final(self)@ == live(old(self)@),
            final(self).tasks() == old(self).tasks().filter(unfinished::<C>()),
            step == (if live(old(self)@).len() == 0 {
                RunStep::Done
            } else {
                RunStep::Sleep { millis: REAP_INTERVAL_MILLIS }
            }),
    {
        self.reap();
        if self.tasks.is_empty() {
            RunStep::Done
        } else {
            RunStep::Sleep { millis: REAP_INTERVAL_MILLIS }
        }
    }

    /// The number of registered tasks.
    pub fn len(&self) -> (n: usize)
        ensures
            n == self@.len(),
    {
        self.tasks.len()
    }

    /// Whether no task is registered.
    pub fn is_empty(&self) -> (empty: bool)
        ensures
            empty == (self@.len() == 0),
    {
        self.tasks.is_empty()
    }

    /// How many tasks have been spawned so far; the next task takes this
    /// number as its identifier.
    pub fn spawned_count(&self) -> (n: u64)
        ensures
            n == self.spawned(),
    {
        self.next_id
    }

    /// The completion flag of the task that the handle is bound to, or `None`
    /// when no such task is registered.
    pub fn status(&self, handle: WakeHandle) -> (status: Option<bool>)
        requires
            self.wf(),
        ensures
            status is Some <==> registered(self@, handle.task()),
            status == Some(false) <==> awaited(self@, handle.task()),
    {
        let id = handle.task_id();
        match self.position(id) {
            Some(i) => {
                proof {
                    assert(self@[i as int].id == id);
                    assert forall|j: int|
                        0 <= j < self@.len() && (#[trigger] self@[j]).id == id implies j == i by {
                        assert(self@[j].id == self@[i as int].id);
                    }
                }
                Some(self.tasks[i].is_completed())
            },
            None => {
                proof {
                    assert forall|j: int| 0 <= j < self@.len() implies (#[trigger] self@[j]).id
                        != id by {
                        assert(self.tasks()[j].id() != id);
                    }
                }
                None
            },
        }
    }
}

} // verus!

//! The registry of tasks as a sequence of task states, and what spawning,
//! waking and reaping do to it.

use vstd::prelude::*;
use crate::task::Poll;
use crate::task::TaskState;
use crate::task::settled;

verus! {

/// The test that a task passes while its computation has not finished.
pub open spec fn pending() -> spec_fn(TaskState) -> bool {
    |t: TaskState| !t.completed
}

/// The registry after a reaping pass: the tasks that have not completed, in
/// the order in which they were spawned.
pub open spec fn live(registry: Seq<TaskState>) -> Seq<TaskState> {
    registry.filter(pending())
}

/// Identifiers grow along the registry and stay below `bound`, so no two
/// tasks share one and a fresh task can take `bound`.
pub open spec fn ordered(registry: Seq<TaskState>, bound: u64) -> bool {
    &&& forall|i: int, j: int|
        0 <= i < j < registry.len() ==> (#[trigger] registry[i]).id < (#[trigger] registry[j]).id
    &&& forall|i: int| 0 <= i < registry.len() ==> (#[trigger] registry[i]).id < bound
}

/// Whether a task with this identifier is registered.
pub open spec fn registered(registry: Seq<TaskState>, id: u64) -> bool {
    exists|i: int| 0 <= i < registry.len() && (#[trigger] registry[i]).id == id
}

/// Whether a task with this identifier is registered and has not completed.
pub open spec fn awaited(registry: Seq<TaskState>, id: u64) -> bool {
    exists|i: int|
        0 <= i < registry.len() && (#[trigger] registry[i]).id == id && !registry[i].completed
}

/// The registry after a task with identifier `id` was spawned and its first
/// poll gave `outcome`.
pub open spec fn registry_spawned(registry: Seq<TaskState>, id: u64, outcome: Poll) -> Seq<
    TaskState,
> {
    registry.push(TaskState { id, completed: settled(false, outcome) })
}

/// A task state after a drive of the task `id` that gave `outcome`: other
/// tasks are untouched, and a completed task stays completed.
pub open spec fn state_woken(t: TaskState, id: u64, outcome: Poll) -> TaskState {
    if t.id == id {
        TaskState { id: t.id, completed: settled(t.completed, outcome) }
    } else {
        t
    }
}

/// The registry after a wake of task `id` whose drive gave `outcome`.
pub open spec fn registry_woken(registry: Seq<TaskState>, id: u64, outcome: Poll) -> Seq<
    TaskState,
> {
    Seq::new(registry.len(), |i: int| state_woken(registry[i], id, outcome))
}

/// Removing an element that fails the test does not change what a filter
/// keeps.
pub proof fn lemma_filter_remove_rejected<A>(s: Seq<A>, pred: spec_fn(A) -> bool, i: int)
    requires
        0 <= i < s.len(),
        !pred(s[i]),
    ensures
        s.remove(i).filter(pred) == s.filter(pred),
{
    let before = s.subrange(0, i);
    let after = s.subrange(i + 1, s.len() as int);
    assert(s =~= before.push(s[i]) + after);
    Seq::filter_distributes_over_add(before.push(s[i]), after, pred);
    Seq::filter_distributes_over_add(before, after, pred);
    before.lemma_filter_push(s[i], pred);
}

/// A filter keeps a sequence whole when every element passes the test.
pub proof fn lemma_filter_keeps_all<A>(s: Seq<A>, pred: spec_fn(A) -> bool)
    requires
        forall|i: int| 0 <= i < s.len() ==> pred(#[trigger] s[i]),
    ensures
        s.filter(pred) == s,
    decreases s.len(),
{
    if s.len() == 0 {
        reveal(Seq::filter);
    } else {
        let rest = s.drop_last();
        lemma_filter_keeps_all(rest, pred);
        rest.lemma_filter_push(s.last(), pred);
        assert(s =~= rest.push(s.last()));
    }
}

/// The registry after one task was spawned, from an empty registry, for each
/// entry of `first_polls` in turn: the task at position `i` has identifier
/// `i`, and its first poll gave `first_polls[i]`.
pub open spec fn spawned_all(first_polls: Seq<Poll>) -> Seq<TaskState>
    decreases first_polls.len(),
{
    if first_polls.len() == 0 {
        Seq::empty()
    } else {
        registry_spawned(
            spawned_all(first_polls.drop_last()),
            (first_polls.len() - 1) as u64,
            first_polls.last(),
        )
    }
}

/// The registry after the wakes of task `id` whose drives gave `outcomes`,
/// in turn.
pub open spec fn woken_all(registry: Seq<TaskState>, id: u64, outcomes: Seq<Poll>) -> Seq<
    TaskState,
>
    decreases outcomes.len(),
{
    if outcomes.len() == 0 {
        registry
    } else {
        registry_woken(woken_all(registry, id, outcomes.drop_last()), id, outcomes.last())
    }
}

/// Spawning any number of computations that are ready at their first poll
/// leaves nothing to wait for: the first reaping pass empties the registry,
/// so the run loop ends on its first turn without any wake.
pub proof fn lemma_ready_tasks_need_no_wake(first_polls: Seq<Poll>)
    requires
        forall|i: int| 0 <= i < first_polls.len() ==> first_polls[i] == Poll::Ready,
    ensures
        spawned_all(first_polls).len() == first_polls.len(),
        live(spawned_all(first_polls)) == Seq::<TaskState>::empty(),
    decreases first_polls.len(),
{
    if first_polls.len() == 0 {
        reveal(Seq::filter);
    } else {
        let rest = first_polls.drop_last();
        lemma_ready_tasks_need_no_wake(rest);
        let last = TaskState {
            id: (first_polls.len() - 1) as u64,
            completed: settled(false, first_polls.last()),
        };
        spawned_all(rest).lemma_filter_push(last, pending());
    }
}

/// An empty registry ends the run loop at once.
pub proof fn lemma_empty_registry_is_done()
    ensures
        live(Seq::<TaskState>::empty()) == Seq::<TaskState>::empty(),
{
    reveal(Seq::filter);
}

/// A reaping pass keeps exactly the tasks that have not completed: a task is
/// registered afterwards if and only if it was registered and not completed
/// before, and then it is still not completed.
pub proof fn lemma_reap_keeps_the_pending(registry: Seq<TaskState>, id: u64)
    ensures
        registered(live(registry), id) <==> awaited(registry, id),
        awaited(live(registry), id) <==> awaited(registry, id),
    decreases registry.len(),
{
    if registry.len() == 0 {
        reveal(Seq::filter);
    } else {
        let rest = registry.drop_last();
        let last = registry.last();
        assert(registry =~= rest.push(last));
        lemma_reap_keeps_the_pending(rest, id);
        rest.lemma_filter_push(last, pending());
        let kept = live(rest);
        if awaited(registry, id) {
            let i = choose|i: int|
                0 <= i < registry.len() && (#[trigger] registry[i]).id == id
                    && !registry[i].completed;
            if i < rest.len() {
                assert(rest[i].id == id && !rest[i].completed);
                let j = choose|j: int|
                    0 <= j < kept.len() && (#[trigger] kept[j]).id == id && !kept[j].completed;
                assert(live(registry)[j] == kept[j]);
            } else {
                assert(live(registry) == kept.push(last));
                assert(live(registry)[kept.len() as int] == last);
            }
        }
        if registered(live(registry), id) {
            let j = choose|j: int|
                0 <= j < live(registry).len() && (#[trigger] live(registry)[j]).id == id;
            if j < kept.len() {
                assert(kept[j].id == id);
                let i = choose|i: int|
                    0 <= i < rest.len() && (#[trigger] rest[i]).id == id && !rest[i].completed;
                assert(registry[i] == rest[i]);
            } else {
                assert(pending()(last));
                assert(live(registry)[j] == last);
                assert(registry[registry.len() - 1] == last);
            }
        }
        if awaited(live(registry), id) {
            let j = choose|j: int|
                0 <= j < live(registry).len() && (#[trigger] live(registry)[j]).id == id
                    && !live(registry)[j].completed;
            assert(live(registry)[j].id == id);
        }
    }
}

/// While a task that has not completed is registered, the run loop does not
/// end: a reaping pass leaves the registry non-empty. Wakes of other tasks,
/// and drives of the same task that give `Pending`, do not complete it.
pub proof fn lemma_run_waits_for_pending(
    registry: Seq<TaskState>,
    id: u64,
    other: u64,
    outcome: Poll,
)
    requires
        awaited(registry, id),
    ensures
        live(registry).len() > 0,
        registry_woken(registry, id, Poll::Pending) == registry,
        other != id ==> awaited(registry_woken(registry, other, outcome), id),
{
    lemma_reap_keeps_the_pending(registry, id);
    assert(registry_woken(registry, id, Poll::Pending) =~= registry);
    let i = choose|i: int|
        0 <= i < registry.len() && (#[trigger] registry[i]).id == id && !registry[i].completed;
    if other != id {
        assert(registry_woken(registry, other, outcome)[i] == registry[i]);
    }
}

/// Once the drive of the last task that has not completed gives `Ready`, the
/// next reaping pass empties the registry and the run loop ends.
pub proof fn lemma_run_ends_after_last_wake(registry: Seq<TaskState>, id: u64)
    requires
        forall|i: int|
            0 <= i < registry.len() && (#[trigger] registry[i]).id != id ==> registry[i].completed,
    ensures
        live(registry_woken(registry, id, Poll::Ready)) == Seq::<TaskState>::empty(),
{
    let after = registry_woken(registry, id, Poll::Ready);
    assert(after.all(|t: TaskState| !pending()(t))) by {
        assert forall|i: int| 0 <= i < after.len() implies !pending()(#[trigger] after[i]) by {
            assert(after[i] == state_woken(registry[i], id, Poll::Ready));
        }
    }
    after.lemma_all_neg_filter_empty(pending());
    assert(live(after) =~= Seq::<TaskState>::empty());
}

/// A wake never lowers a completion flag, never changes an identifier, and
/// never adds or removes a task.
pub proof fn lemma_wake_keeps_completed(registry: Seq<TaskState>, id: u64, outcome: Poll)
    ensures
        registry_woken(registry, id, outcome).len() == registry.len(),
        forall|i: int|
            0 <= i < registry.len() ==> (#[trigger] registry_woken(registry, id, outcome)[i]).id
                == registry[i].id,
        forall|i: int|
            0 <= i < registry.len() && registry[i].completed ==> (#[trigger] registry_woken(
                registry,
                id,
                outcome,
            )[i]).completed,
        ordered(registry, id) ==> registry_woken(registry, id, outcome) == registry,
{
    if ordered(registry, id) {
        assert(registry_woken(registry, id, outcome) =~= registry);
    }
}

/// Wakes are idempotent once the task has completed: however many further
/// wakes arrive, and whatever their drives would give, the registry stays as
/// it is. So a task goes from not completed to completed at most once.
pub proof fn lemma_wakes_after_completion_change_nothing(
    registry: Seq<TaskState>,
    id: u64,
    outcomes: Seq<Poll>,
)
    requires
        !awaited(registry, id),
    ensures
        woken_all(registry, id, outcomes) == registry,
    decreases outcomes.len(),
{
    if outcomes.len() > 0 {
        lemma_wakes_after_completion_change_nothing(registry, id, outcomes.drop_last());
        assert forall|i: int| 0 <= i < registry.len() implies state_woken(
            #[trigger] registry[i],
            id,
            outcomes.last(),
        ) == registry[i] by {
            if registry[i].id == id {
                assert(registry[i].completed);
            }
        }
        assert(registry_woken(registry, id, outcomes.last()) =~= registry);
    }
}

/// Among any number of wakes of one task, the first drive that gives `Ready`
/// completes the task and every later one changes nothing: the registry
/// after all of them is the registry after that first `Ready`.
pub proof fn lemma_wake_completes_once(
    registry: Seq<TaskState>,
    id: u64,
    before: Seq<Poll>,
    after: Seq<Poll>,
)
    requires
        forall|i: int| 0 <= i < before.len() ==> before[i] == Poll::Pending,
    ensures
        woken_all(registry, id, before) == registry,
        woken_all(registry, id, before.push(Poll::Ready) + after) == registry_woken(
            registry,
            id,
            Poll::Ready,
        ),
    decreases after.len(),
{
    lemma_pending_wakes_change_nothing(registry, id, before);
    let through_ready = before.push(Poll::Ready);
    let done = registry_woken(registry, id, Poll::Ready);
    assert(through_ready.drop_last() =~= before);
    assert(woken_all(registry, id, through_ready) == done);
    if after.len() == 0 {
        assert(through_ready + after =~= through_ready);
    } else {
        lemma_wake_completes_once(registry, id, before, after.drop_last());
        assert((through_ready + after).drop_last() =~= through_ready + after.drop_last());
        assert((through_ready + after).last() == after.last());
        assert(!awaited(done, id)) by {
            assert forall|i: int| 0 <= i < done.len() && (#[trigger] done[i]).id == id implies done[i].completed by {
                assert(done[i] == state_woken(registry[i], id, Poll::Ready));
            }
        }
        lemma_wakes_after_completion_change_nothing(done, id, seq![after.last()]);
        assert(seq![after.last()].drop_last() =~= Seq::<Poll>::empty());
        assert(woken_all(done, id, Seq::<Poll>::empty()) == done);
        assert(woken_all(done, id, seq![after.last()]) == registry_woken(
            done,
            id,
            after.last(),
        ));
    }
}

/// Drives that give `Pending` leave the registry as it is.
pub proof fn lemma_pending_wakes_change_nothing(
    registry: Seq<TaskState>,
    id: u64,
    outcomes: Seq<Poll>,
)
    requires
        forall|i: int| 0 <= i < outcomes.len() ==> outcomes[i] == Poll::Pending,
    ensures
        woken_all(registry, id, outcomes) == registry,
    decreases outcomes.len(),
{
    if outcomes.len() > 0 {
        lemma_pending_wakes_change_nothing(registry, id, outcomes.drop_last());
        assert(registry_woken(registry, id, Poll::Pending) =~= registry);
    }
}

} // verus!

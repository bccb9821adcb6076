//! The workers of the pool as the dispatcher sees them: one task counter
//! each, and the rule that picks the worker for the next connection.

use vstd::prelude::*;

verus! {

/// What the pool sends to a worker.
pub enum Message<J> {
    /// Run this job.
    NewJob(J),
    /// Stop: sent once, after the last job.
    Terminate,
}

/// The pool's record of one worker.
pub struct Thread {
    num_tasks: usize,
}

impl View for Thread {
    type V = nat;

    /// The number of jobs dispatched to the worker and not yet completed.
    closed spec fn view(&self) -> nat {
        self.num_tasks as nat
    }
}

impl Thread {
    /// A worker without tasks.
    pub fn new() -> (thread: Self)
        ensures
            thread@ == 0,
    {
        Thread { num_tasks: 0 }
    }

    /// The number of tasks on this worker.
    pub fn tasks(&self) -> (tasks: usize)
        ensures
            tasks == self@,
    {
        self.num_tasks
    }

    /// Counts `future` as a task of this worker and wraps it in the message
    /// that carries it there.
    pub fn send<J>(&mut self, future: J) -> (message: Message<J>)
        requires
            old(self)@ < usize::MAX,
        ensures
            final(self)@ == old(self)@ + 1,
            message == Message::NewJob(future),
    {
        self.num_tasks = self.num_tasks + 1;
        Message::NewJob(future)
    }

    /// Takes a completed task off the count, which never falls below zero.
    pub fn finish(&mut self)
        ensures
            final(self)@ == spec_finish(old(self)@),
    {
        if self.num_tasks > 0 {
            self.num_tasks = self.num_tasks - 1;
        }
    }
}

/// A counter after one of its tasks completed.
pub open spec fn spec_finish(tasks: nat) -> nat {
    if tasks > 0 {
        (tasks - 1) as nat
    } else {
        0
    }
}

/// The counters of `threads`, worker by worker.
pub open spec fn loads(threads: Seq<Thread>) -> Seq<nat> {
    Seq::new(threads.len(), |i: int| threads[i]@)
}

/// The worker that takes the next connection: one whose counter is the
/// minimum, and of several such the one with the lowest index.
pub open spec fn least_loaded(loads: Seq<nat>) -> int
    decreases loads.len(),
{
    if loads.len() <= 1 {
        0
    } else {
        let before = least_loaded(loads.drop_last());
        if loads.last() < loads[before] {
            loads.len() - 1
        } else {
            before
        }
    }
}

/// The counters after one more connection was dispatched.
pub open spec fn dispatch(loads: Seq<nat>) -> Seq<nat> {
    let id = least_loaded(loads);
    loads.update(id, loads[id] + 1)
}

/// The counters after a connection on worker `id` completed.
pub open spec fn complete(loads: Seq<nat>, id: int) -> Seq<nat> {
    if 0 <= id < loads.len() {
        loads.update(id, spec_finish(loads[id]))
    } else {
        loads
    }
}

/// `least_loaded` is in range, no counter is below the one it picks, and
/// every counter at a lower index is above it.
pub proof fn lemma_least_loaded(loads: Seq<nat>)
    requires
        loads.len() > 0,
    ensures
        0 <= least_loaded(loads) < loads.len(),
        forall|j: int| 0 <= j < loads.len() ==> loads[least_loaded(loads)] <= #[trigger] loads[j],
        forall|j: int|
            0 <= j < least_loaded(loads) ==> loads[least_loaded(loads)] < #[trigger] loads[j],
    decreases loads.len(),
{
    if loads.len() > 1 {
        let front = loads.drop_last();
        let id = least_loaded(loads);
        lemma_least_loaded(front);
        assert(front[least_loaded(front)] == loads[least_loaded(front)]);
        assert forall|j: int| 0 <= j < loads.len() implies loads[id] <= #[trigger] loads[j] by {
            if j < front.len() {
                assert(front[j] == loads[j]);
            }
        }
        assert forall|j: int| 0 <= j < id implies loads[id] < #[trigger] loads[j] by {
            assert(front[j] == loads[j]);
        }
    }
}

/// Picks the worker for the next connection.
pub fn least_busy(threads: &Vec<Thread>) -> (id: usize)
    requires
        threads.len() > 0,
    ensures
        id == least_loaded(loads(threads@)),
        id < threads.len(),
        forall|j: int| 0 <= j < threads.len() ==> threads[id as int]@ <= (#[trigger] threads[j])@,
        forall|j: int| 0 <= j < id ==> threads[id as int]@ < (#[trigger] threads[j])@,
{
    let mut thread_id: usize = 0;
    let mut thread_tasks: usize = threads[0].tasks();
    let mut id: usize = 1;
    assert(loads(threads@).subrange(0, 1).len() == 1);
    while id < threads.len()
        invariant
            1 <= id <= threads.len(),
            thread_id < id,
            thread_tasks == threads[thread_id as int]@,
            thread_id == least_loaded(loads(threads@).subrange(0, id as int)),
        decreases threads.len() - id,
    {
        let n_tasks = threads[id].tasks();
        proof {
            let all = loads(threads@);
            assert(all.subrange(0, id + 1).drop_last() =~= all.subrange(0, id as int));
            assert(all.subrange(0, id + 1).last() == threads[id as int]@);
            assert(all.subrange(0, id + 1)[thread_id as int] == threads[thread_id as int]@);
        }
        if n_tasks < thread_tasks {
            thread_id = id;
            thread_tasks = n_tasks;
        }
        id += 1;
    }
    proof {
        let all = loads(threads@);
        assert(all.subrange(0, threads.len() as int) =~= all);
        lemma_least_loaded(all);
        assert forall|j: int| 0 <= j < threads.len() implies threads[thread_id as int]@ <= (
        #[trigger] threads[j])@ by {
            assert(all[j] == threads[j]@);
        }
        assert forall|j: int| 0 <= j < thread_id implies threads[thread_id as int]@ < (
        #[trigger] threads[j])@ by {
            assert(all[j] == threads[j]@);
        }
    }
    thread_id
}

/// The counters after `count` connections were dispatched in a row, none of
/// them completing meanwhile, and the workers they went to, in order.
pub open spec fn dispatch_all(loads: Seq<nat>, count: nat) -> (Seq<nat>, Seq<int>)
    decreases count,
{
    if count == 0 {
        (loads, Seq::empty())
    } else {
        let (before, targets) = dispatch_all(loads, (count - 1) as nat);
        (dispatch(before), targets.push(least_loaded(before)))
    }
}

/// The counters after one connection completed on each worker of
/// `finished`, in that order.
pub open spec fn complete_all(loads: Seq<nat>, finished: Seq<int>) -> Seq<nat>
    decreases finished.len(),
{
    if finished.len() == 0 {
        loads
    } else {
        complete(complete_all(loads, finished.drop_last()), finished.last())
    }
}

/// How often the worker `id` stands in `workers`.
pub open spec fn occurrences(workers: Seq<int>, id: int) -> nat
    decreases workers.len(),
{
    if workers.len() == 0 {
        0
    } else if workers.last() == id {
        occurrences(workers.drop_last(), id) + 1
    } else {
        occurrences(workers.drop_last(), id)
    }
}

/// Each dispatch in a row goes to the worker that is least loaded at that
/// moment, and raises each worker's counter by the number of connections
/// that went to it.
pub proof fn lemma_dispatch_all(loads: Seq<nat>, count: nat)
    requires
        loads.len() > 0,
    ensures
        ({
            let (after, targets) = dispatch_all(loads, count);
            &&& after.len() == loads.len()
            &&& targets.len() == count
            &&& forall|k: int|
                0 <= k < count ==> #[trigger] targets[k] == least_loaded(
                    dispatch_all(loads, k as nat).0,
                )
            &&& forall|k: int| 0 <= k < count ==> 0 <= #[trigger] targets[k] < loads.len()
            &&& forall|id: int|
                0 <= id < loads.len() ==> #[trigger] after[id] == loads[id] + occurrences(
                    targets,
                    id,
                )
        }),
    decreases count,
{
    if count > 0 {
        let (before, sent) = dispatch_all(loads, (count - 1) as nat);
        let (after, targets) = dispatch_all(loads, count);
        lemma_dispatch_all(loads, (count - 1) as nat);
        lemma_least_loaded(before);
        assert(targets.drop_last() =~= sent);
        assert forall|k: int| 0 <= k < count implies #[trigger] targets[k] == least_loaded(
            dispatch_all(loads, k as nat).0,
        ) by {
            if k < count - 1 {
                assert(targets[k] == sent[k]);
            }
        }
        assert forall|k: int| 0 <= k < count implies 0 <= #[trigger] targets[k] < loads.len() by {
            if k < count - 1 {
                assert(targets[k] == sent[k]);
            }
        }
    }
}

/// Of connections dispatched in a row, each goes to a worker whose counter
/// is the minimum over all workers at that moment, and to the one of lowest
/// index among those: `k` counts the connections dispatched before it.
pub proof fn lemma_dispatch_least_loaded(loads: Seq<nat>, count: nat, k: int)
    requires
        loads.len() > 0,
        0 <= k < count,
    ensures
        ({
            let before = dispatch_all(loads, k as nat).0;
            let id = dispatch_all(loads, count).1[k];
            &&& before.len() == loads.len()
            &&& 0 <= id < loads.len()
            &&& forall|j: int| 0 <= j < loads.len() ==> before[id] <= #[trigger] before[j]
            &&& forall|j: int| 0 <= j < id ==> before[id] < #[trigger] before[j]
            &&& dispatch_all(loads, (k + 1) as nat).0 == before.update(id, before[id] + 1)
        }),
{
    lemma_dispatch_all(loads, count);
    lemma_dispatch_all(loads, k as nat);
    lemma_least_loaded(dispatch_all(loads, k as nat).0);
    assert(dispatch_all(loads, (k + 1) as nat).0 == dispatch(
        dispatch_all(loads, ((k + 1) - 1) as nat).0,
    ));
}

/// Completions lower each worker's counter by the number of connections
/// that completed on it, as long as no worker completes more than it holds.
pub proof fn lemma_complete_all(loads: Seq<nat>, finished: Seq<int>)
    requires
        forall|k: int| 0 <= k < finished.len() ==> 0 <= #[trigger] finished[k] < loads.len(),
        forall|id: int| 0 <= id < loads.len() ==> occurrences(finished, id) <= #[trigger] loads[id],
    ensures
        complete_all(loads, finished).len() == loads.len(),
        forall|id: int|
            0 <= id < loads.len() ==> #[trigger] complete_all(loads, finished)[id] == loads[id]
                - occurrences(finished, id),
    decreases finished.len(),
{
    if finished.len() > 0 {
        let earlier = finished.drop_last();
        assert forall|k: int| 0 <= k < earlier.len() implies 0 <= #[trigger] earlier[k]
            < loads.len() by {
            assert(earlier[k] == finished[k]);
        }
        assert forall|id: int| 0 <= id < loads.len() implies occurrences(earlier, id)
            <= #[trigger] loads[id] by {
            assert(occurrences(finished, id) <= loads[id]);
        }
        lemma_complete_all(loads, earlier);
        let before = complete_all(loads, earlier);
        let last = finished.last();
        assert(0 <= last < loads.len());
        assert(occurrences(finished, last) <= loads[last]);
        assert(before[last] == loads[last] - occurrences(earlier, last));
    }
}

/// After `count` connections were dispatched in a row and each of them has
/// completed on the worker it went to, in whatever order, every counter is
/// back where it was: with workers that started idle, at zero.
///
/// `finished` names the workers in the order in which their connections
/// completed: it holds each worker as often as connections went to it.
pub proof fn lemma_counters_return(loads: Seq<nat>, count: nat, finished: Seq<int>)
    requires
        loads.len() > 0,
        forall|k: int| 0 <= k < finished.len() ==> 0 <= #[trigger] finished[k] < loads.len(),
        forall|id: int|
            0 <= id < loads.len() ==> #[trigger] occurrences(finished, id) == occurrences(
                dispatch_all(loads, count).1,
                id,
            ),
    ensures
        complete_all(dispatch_all(loads, count).0, finished) == loads,
        (forall|id: int| 0 <= id < loads.len() ==> #[trigger] loads[id] == 0) ==> forall|id: int|
            0 <= id < loads.len() ==> #[trigger] complete_all(
                dispatch_all(loads, count).0,
                finished,
            )[id] == 0,
{
    let (after, targets) = dispatch_all(loads, count);
    lemma_dispatch_all(loads, count);
    assert forall|id: int| 0 <= id < after.len() implies occurrences(finished, id)
        <= #[trigger] after[id] by {
        assert(occurrences(finished, id) == occurrences(targets, id));
    }
    lemma_complete_all(after, finished);
    assert forall|id: int| 0 <= id < loads.len() implies #[trigger] complete_all(
        after,
        finished,
    )[id] == loads[id] by {
        assert(occurrences(finished, id) == occurrences(targets, id));
        assert(after[id] == loads[id] + occurrences(targets, id));
    }
    assert(complete_all(after, finished) =~= loads);
}

} // verus!

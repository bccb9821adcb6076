//! The loop of one worker: it waits on the next message of the pool and on
//! every connection in flight, and reacts to whichever completes first.

use crate::connection::Outcome;
use crate::thread::{spec_finish, Message, Thread};
use vstd::prelude::*;

verus! {

/// What a completed operation tells the loop.
pub enum AsyncMsg<R, J> {
    /// Leave the loop.
    Quit,
    /// A job arrived: wait on the channel again, and run the job.
    NewTask(R, J),
    /// A connection is over: take it off the worker's count.
    OldTask,
}

/// One pending operation of the loop.
pub enum Task<R, J> {
    /// Waiting for the next message of the pool, on this receiving end.
    Receive(R),
    /// A connection in flight.
    Job(J),
}

/// The number of operations among `tasks` that wait for a message.
pub open spec fn receives<R, J>(tasks: Seq<Task<R, J>>) -> nat
    decreases tasks.len(),
{
    if tasks.len() == 0 {
        0
    } else if tasks.last() is Receive {
        receives(tasks.drop_last()) + 1
    } else {
        receives(tasks.drop_last())
    }
}

/// The signal that a message of the pool becomes, `recv` being the
/// receiving end it came through.
pub open spec fn spec_received<R, J>(recv: R, message: Message<J>) -> AsyncMsg<R, J> {
    match message {
        Message::NewJob(task) => AsyncMsg::NewTask(recv, task),
        Message::Terminate => AsyncMsg::Quit,
    }
}

/// The pending operations, the worker's count and whether the loop goes on,
/// after the loop took in `msg`.
pub open spec fn spec_loop<R, J>(tasks: Seq<Task<R, J>>, num_tasks: nat, msg: AsyncMsg<R, J>) -> (
    Seq<Task<R, J>>,
    nat,
    bool,
) {
    match msg {
        AsyncMsg::NewTask(recv, task) => (
            tasks.push(Task::Receive(recv)).push(Task::Job(task)),
            num_tasks,
            true,
        ),
        AsyncMsg::OldTask => (tasks, spec_finish(num_tasks), true),
        AsyncMsg::Quit => (tasks, num_tasks, false),
    }
}

/// Turns the message that came through `recv` into the loop's signal.
pub fn async_thread_main_future<R, J>(recv: R, message: Message<J>) -> (msg: AsyncMsg<R, J>)
    ensures
        msg == spec_received(recv, message),
{
    match message {
        Message::NewJob(task) => AsyncMsg::NewTask(recv, task),
        Message::Terminate => AsyncMsg::Quit,
    }
}

/// The signal of a connection that is over: the same however it ended, so
/// that each connection is taken off the count once.
pub fn completed<R, J>(outcome: Outcome) -> (msg: AsyncMsg<R, J>)
    ensures
        msg == AsyncMsg::<R, J>::OldTask,
{
    AsyncMsg::OldTask
}

/// The operations a loop starts with: it waits for its first message and
/// runs no connection.
pub fn start<R, J>(recv: R) -> (tasks: Vec<Task<R, J>>)
    ensures
        tasks@ == seq![Task::<R, J>::Receive(recv)],
        receives(tasks@) == 1,
{
    let mut tasks = Vec::new();
    tasks.push(Task::Receive(recv));
    proof {
        assert(tasks@ =~= seq![Task::<R, J>::Receive(recv)]);
        lemma_receives_push(Seq::<Task<R, J>>::empty(), Task::Receive(recv));
        assert(Seq::<Task<R, J>>::empty().push(Task::Receive(recv)) =~= tasks@);
    }
    tasks
}

/// One turn of the worker's loop: takes in the signal of the operation
/// that completed, which has left `tasks` already.
///
/// A new job re-arms the wait for the next message and joins the pending
/// operations. A finished connection lowers the worker's count by one.
/// `Quit` ends the loop, whatever is still pending: the result tells
/// whether the loop goes on.
pub fn async_thread_main<R, J>(
    tasks: &mut Vec<Task<R, J>>,
    num_tasks: &mut Thread,
    msg: AsyncMsg<R, J>,
) -> (running: bool)
    ensures
        (final(tasks)@, final(num_tasks)@, running) == spec_loop(
            old(tasks)@,
            old(num_tasks)@,
            msg,
        ),
{
    match msg {
        AsyncMsg::NewTask(recv, task) => {
            tasks.push(Task::Receive(recv));
            tasks.push(Task::Job(task));
            true
        },
        AsyncMsg::OldTask => {
            num_tasks.finish();
            true
        },
        AsyncMsg::Quit => false,
    }
}

/// One more operation raises the number of waits by one where it is a wait.
pub proof fn lemma_receives_push<R, J>(tasks: Seq<Task<R, J>>, task: Task<R, J>)
    ensures
        receives(tasks.push(task)) == receives(tasks) + if task is Receive {
            1nat
        } else {
            0nat
        },
{
    assert(tasks.push(task).drop_last() =~= tasks);
}

/// Taking an operation out lowers the number of waits by one where it was
/// a wait, and leaves it where it was a connection.
pub proof fn lemma_receives_remove<R, J>(tasks: Seq<Task<R, J>>, i: int)
    requires
        0 <= i < tasks.len(),
    ensures
        receives(tasks) == receives(tasks.remove(i)) + if tasks[i] is Receive {
            1nat
        } else {
            0nat
        },
    decreases tasks.len(),
{
    if i == tasks.len() - 1 {
        assert(tasks.remove(i) =~= tasks.drop_last());
    } else {
        lemma_receives_remove(tasks.drop_last(), i);
        assert(tasks.remove(i).drop_last() =~= tasks.drop_last().remove(i));
        assert(tasks.remove(i).last() == tasks.last());
    }
}

/// While the loop runs it waits for exactly one message.
///
/// If it does so before a turn, and the operation that completed was the
/// wait just where its signal is not `OldTask`, then after the turn the
/// loop has ended or waits for exactly one message again.
pub proof fn lemma_one_receive<R, J>(
    tasks: Seq<Task<R, J>>,
    ready: int,
    num_tasks: nat,
    msg: AsyncMsg<R, J>,
)
    requires
        receives(tasks) == 1,
        0 <= ready < tasks.len(),
        tasks[ready] is Receive <==> !(msg is OldTask),
    ensures
        ({
            let (after, _, running) = spec_loop(tasks.remove(ready), num_tasks, msg);
            running ==> receives(after) == 1
        }),
{
    let rest = tasks.remove(ready);
    lemma_receives_remove(tasks, ready);
    match msg {
        AsyncMsg::NewTask(recv, task) => {
            lemma_receives_push(rest, Task::Receive(recv));
            lemma_receives_push(rest.push(Task::Receive(recv)), Task::Job(task));
        },
        _ => {},
    }
}

/// The loop ends on `Quit` with any number of connections in flight, and
/// on nothing else; and `Terminate` becomes `Quit` on whatever receiving
/// end it arrives.
pub proof fn lemma_quit_ends_loop<R, J>(
    tasks: Seq<Task<R, J>>,
    num_tasks: nat,
    msg: AsyncMsg<R, J>,
    recv: R,
)
    ensures
        spec_loop(tasks, num_tasks, msg).2 <==> !(msg is Quit),
        spec_received::<R, J>(recv, Message::Terminate) is Quit,
        !spec_loop(tasks, num_tasks, spec_received::<R, J>(recv, Message::Terminate)).2,
{
}

} // verus!

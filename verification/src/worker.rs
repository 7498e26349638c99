//! The life of a worker: it waits for a task, runs it, and waits again,
//! until its source of tasks is closed for good.

use crate::channel::channel_recv;
use std::sync::mpsc::Receiver;
use vstd::prelude::*;

verus! {

/// Where a worker stands.
#[derive(Debug, Clone, Copy, PartialEq, Eq, Structural)]
pub enum WorkerState {
    /// Waiting for a task.
    Idle,
    /// Running a task.
    Executing,
    /// Gone: its source was closed, and it takes no task any more.
    Terminated,
}

/// What happens to a worker.
#[derive(Debug, Clone, Copy, PartialEq, Eq, Structural)]
pub enum WorkerEvent {
    /// A task arrived.
    TaskReceived,
    /// The task that was running has returned.
    TaskDone,
    /// Every sender is gone and nothing is left to receive.
    SourceClosed,
}

/// The state that follows `state` on `event`. An idle worker starts on a
/// task or ends with its source; a running worker becomes idle when its task
/// returns; an event that cannot happen in a state leaves it as it is.
pub open spec fn next_state(state: WorkerState, event: WorkerEvent) -> WorkerState {
    match (state, event) {
        (WorkerState::Idle, WorkerEvent::TaskReceived) => WorkerState::Executing,
        (WorkerState::Idle, WorkerEvent::SourceClosed) => WorkerState::Terminated,
        (WorkerState::Executing, WorkerEvent::TaskDone) => WorkerState::Idle,
        _ => state,
    }
}

/// The state after a run of events, first to last.
pub open spec fn state_after(state: WorkerState, events: Seq<WorkerEvent>) -> WorkerState
    decreases events.len(),
{
    if events.len() == 0 {
        state
    } else {
        state_after(next_state(state, events[0]), events.drop_first())
    }
}

/// What an idle worker's blocking receive means for it: a task to run, or
/// the end.
pub open spec fn received_state<T>(received: Option<T>) -> WorkerState {
    match received {
        Some(_) => WorkerState::Executing,
        None => WorkerState::Terminated,
    }
}

/// Computes `next_state`.
pub fn step(state: WorkerState, event: WorkerEvent) -> (next: WorkerState)
    ensures
        next == next_state(state, event),
{
    match (state, event) {
        (WorkerState::Idle, WorkerEvent::TaskReceived) => WorkerState::Executing,
        (WorkerState::Idle, WorkerEvent::SourceClosed) => WorkerState::Terminated,
        (WorkerState::Executing, WorkerEvent::TaskDone) => WorkerState::Idle,
        _ => state,
    }
}

/// Whether a worker in this state is running a task.
pub fn is_working(state: WorkerState) -> (working: bool)
    ensures
        working == (state == WorkerState::Executing),
{
    match state {
        WorkerState::Executing => true,
        _ => false,
    }
}

/// The state of an idle worker after its receive returned `received`, and
/// the task to run, if there is one.
pub fn after_recv<T>(received: Option<T>) -> (next: (WorkerState, Option<T>))
    ensures
        next.0 == received_state(received),
        next.1 == received,
        received is Some ==> next.0 == next_state(WorkerState::Idle, WorkerEvent::TaskReceived),
        received is None ==> next.0 == next_state(WorkerState::Idle, WorkerEvent::SourceClosed),
{
    match received {
        Some(task) => (WorkerState::Executing, Some(task)),
        None => (WorkerState::Terminated, None),
    }
}

/// Blocks an idle worker on its channel. Whatever comes back, the worker
/// runs the task handed out with `Executing`, and ends on `Terminated`,
/// with which no task comes.
pub fn wait_for_task<T>(receiver: &Receiver<T>) -> (next: (WorkerState, Option<T>))
    ensures
        next.0 == received_state(next.1),
        next.0 != WorkerState::Idle,
{
    after_recv(channel_recv(receiver))
}

/// A terminated worker stays terminated, whatever happens.
pub proof fn lemma_terminated_is_final(events: Seq<WorkerEvent>)
    ensures
        state_after(WorkerState::Terminated, events) == WorkerState::Terminated,
    decreases events.len(),
{
    if events.len() > 0 {
        lemma_terminated_is_final(events.drop_first());
    }
}

/// A worker runs a task only between the arrival of that task and its
/// return: the only way into `Executing` is `TaskReceived` on an idle
/// worker, and `TaskDone` leads out of it.
pub proof fn lemma_executing_brackets_a_task(state: WorkerState, event: WorkerEvent)
    ensures
        next_state(state, event) == WorkerState::Executing && state != WorkerState::Executing
            ==> state == WorkerState::Idle && event == WorkerEvent::TaskReceived,
        next_state(WorkerState::Executing, WorkerEvent::TaskDone) == WorkerState::Idle,
{
}

} // verus!

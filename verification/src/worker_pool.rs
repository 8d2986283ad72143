//! What a worker of the compile pool decides: whether to run the task that
//! it has received, and what follows from the task's result.

use vstd::prelude::*;

verus! {

/// How a task ended: the pool goes on, or every worker stops.
#[derive(Debug, Clone, Copy, PartialEq, Eq, Structural)]
pub enum TaskResult {
    Success,
    Terminate,
}

/// What a worker receives: a task to run, or a poke that wakes it up so
/// that it can leave.
#[derive(Debug, Clone, Copy, PartialEq, Eq, Structural)]
pub enum MessageKind {
    Task,
    Poke,
}

/// What a worker does next.
#[derive(Debug, Clone, Copy, PartialEq, Eq, Structural)]
pub enum WorkerAction {
    /// Run the task, and then go by its result.
    RunTask,
    /// Leave.
    Stop,
}

/// What a worker does with a message: once the pool is to terminate it
/// runs nothing more, and a poke makes it leave in any case.
pub fn on_message(terminate: bool, message: MessageKind) -> (r: WorkerAction)
    ensures
        r == (if !terminate && message == MessageKind::Task {
            WorkerAction::RunTask
        } else {
            WorkerAction::Stop
        }),
{
    if terminate {
        WorkerAction::Stop
    } else {
        match message {
            MessageKind::Task => WorkerAction::RunTask,
            MessageKind::Poke => WorkerAction::Stop,
        }
    }
}

/// What follows from the result of a task.
#[derive(Debug, Clone, Copy, PartialEq, Eq, Structural)]
pub struct Outcome {
    /// The pool is to terminate from now on.
    pub terminate: bool,
    /// How many pokes the worker sends to wake the others up.
    pub pokes: usize,
    /// The worker leaves.
    pub stop: bool,
}

/// What a worker does after a task: after a task that went well it waits
/// for the next message; after one that asks for termination it raises the
/// flag, pokes every other worker and leaves.
pub fn on_task_result(result: TaskResult, num_workers: usize) -> (r: Outcome)
    ensures
        r == (match result {
            TaskResult::Success => Outcome { terminate: false, pokes: 0, stop: false },
            TaskResult::Terminate => Outcome {
                terminate: true,
                pokes: if num_workers > 0 {
                    (num_workers - 1) as usize
                } else {
                    0
                },
                stop: true,
            },
        }),
{
    match result {
        TaskResult::Success => Outcome { terminate: false, pokes: 0, stop: false },
        TaskResult::Terminate => Outcome {
            terminate: true,
            pokes: if num_workers > 0 {
                num_workers - 1
            } else {
                0
            },
            stop: true,
        },
    }
}

/// What the pool reports once its workers have left.
pub fn pool_result(terminate: bool) -> (r: TaskResult)
    ensures
        r == (if terminate {
            TaskResult::Terminate
        } else {
            TaskResult::Success
        }),
{
    if terminate {
        TaskResult::Terminate
    } else {
        TaskResult::Success
    }
}

} // verus!

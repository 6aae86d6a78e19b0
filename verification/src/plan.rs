//! The decisions of each operation, apart from any storage.
//!
//! An operation first loads the user row and, where it concerns one task, the
//! task row. The functions here take what was loaded and say what has to be
//! written: nothing and an error, or the task change together with the
//! user's new counters. Whoever runs them against a database performs the
//! load, the call and the writes inside one transaction.

use vstd::prelude::*;
use crate::model::{EngineError, Task, TaskStatus, TaskView, User, UserView};

verus! {

/// One less, but never below zero.
pub open spec fn floor_dec(n: nat) -> nat {
    if n == 0 {
        0
    } else {
        (n - 1) as nat
    }
}

/// The absolute values to store in a user's two counters. `clamped` reports
/// that a counter which had to go down stood at zero already, which only
/// happens when the counters had lost touch with the task rows before.
#[derive(Clone, Copy, PartialEq, Eq, Structural, Debug)]
pub struct CounterWrite {
    pub pending: u64,
    pub done: u64,
    pub clamped: bool,
}

/// What finishing a task has to write.
#[derive(Clone, Copy, PartialEq, Eq, Structural, Debug)]
pub enum Completion {
    /// The task is `Done` already: nothing is written.
    AlreadyDone,
    /// The task becomes `Done` and the counters take the given values.
    MarkDone(CounterWrite),
}

/// The task that an operation on `user_id` may act on: the loaded one if it
/// belongs to that user, otherwise none.
pub open spec fn owned_task(user_id: Seq<char>, task: Option<TaskView>) -> Option<TaskView> {
    match task {
        Some(t) => if t.user_id == user_id {
            Some(t)
        } else {
            None
        },
        None => None,
    }
}

/// The result of adding a task for the loaded user.
pub open spec fn add_task_plan(user: Option<UserView>) -> Result<(nat, nat, bool), EngineError> {
    match user {
        None => Err(EngineError::UserNotFound),
        Some(u) => if u.pending_count >= u64::MAX {
            Err(EngineError::StorageUnavailable)
        } else {
            Ok((u.pending_count + 1, u.done_count, false))
        },
    }
}

/// The counters after one pending task of `u` became done.
pub open spec fn completed_counters(u: UserView) -> (nat, nat, bool) {
    (floor_dec(u.pending_count), u.done_count + 1, u.pending_count == 0)
}

/// The counters after one task of `u` with the given status was removed.
pub open spec fn deleted_counters(u: UserView, status: TaskStatus) -> (nat, nat, bool) {
    match status {
        TaskStatus::Done => (u.pending_count, floor_dec(u.done_count), u.done_count == 0),
        TaskStatus::Pending => (floor_dec(u.pending_count), u.done_count, u.pending_count == 0),
    }
}

/// The result of finishing the loaded task of the loaded user. `None` in the
/// `Ok` case stands for a task that is done already.
pub open spec fn complete_task_plan(user: Option<UserView>, task: Option<TaskView>) -> Result<
    Option<(nat, nat, bool)>,
    EngineError,
> {
    match user {
        None => Err(EngineError::UserNotFound),
        Some(u) => match owned_task(u.user_id, task) {
            None => Err(EngineError::TaskNotFound),
            Some(t) => if t.status == TaskStatus::Done {
                Ok(None)
            } else if u.done_count >= u64::MAX {
                Err(EngineError::StorageUnavailable)
            } else {
                Ok(Some(completed_counters(u)))
            },
        },
    }
}

/// The result of deleting the loaded task of the loaded user.
pub open spec fn delete_task_plan(user: Option<UserView>, task: Option<TaskView>) -> Result<
    (nat, nat, bool),
    EngineError,
> {
    match user {
        None => Err(EngineError::UserNotFound),
        Some(u) => match owned_task(u.user_id, task) {
            None => Err(EngineError::TaskNotFound),
            Some(t) => Ok(deleted_counters(u, t.status)),
        },
    }
}

impl CounterWrite {
    /// The write as a triple of plain values.
    pub open spec fn triple(self) -> (nat, nat, bool) {
        (self.pending as nat, self.done as nat, self.clamped)
    }
}

impl Completion {
    /// The counters to write, if any.
    pub open spec fn write(self) -> Option<(nat, nat, bool)> {
        match self {
            Completion::AlreadyDone => None,
            Completion::MarkDone(w) => Some(w.triple()),
        }
    }
}

/// The view of what was loaded, if anything was.
pub open spec fn user_view(user: Option<&User>) -> Option<UserView> {
    match user {
        Some(u) => Some(u@),
        None => None,
    }
}

/// The view of what was loaded, if anything was.
pub open spec fn task_view(task: Option<&Task>) -> Option<TaskView> {
    match task {
        Some(t) => Some(t@),
        None => None,
    }
}

/// The view of a result that carries counters.
pub open spec fn write_view(r: Result<CounterWrite, EngineError>) -> Result<
    (nat, nat, bool),
    EngineError,
> {
    match r {
        Ok(w) => Ok(w.triple()),
        Err(e) => Err(e),
    }
}

/// The view of the result of `plan_complete_task`.
pub open spec fn completion_view(r: Result<Completion, EngineError>) -> Result<
    Option<(nat, nat, bool)>,
    EngineError,
> {
    match r {
        Ok(c) => Ok(c.write()),
        Err(e) => Err(e),
    }
}

/// Decides what adding a task writes. With no user loaded it is
/// `UserNotFound`. Otherwise the pending counter goes up by one and the done
/// counter stays; a pending counter that cannot go up is `StorageUnavailable`.
pub fn plan_add_task(user: Option<&User>) -> (plan: Result<CounterWrite, EngineError>)
    ensures
        write_view(plan) == add_task_plan(user_view(user)),
{
    match user {
        None => Err(EngineError::UserNotFound),
        Some(u) => {
            if u.pending_count == u64::MAX {
                Err(EngineError::StorageUnavailable)
            } else {
                Ok(CounterWrite { pending: u.pending_count + 1, done: u.done_count, clamped: false })
            }
        },
    }
}

/// Decides what finishing a task writes. With no user loaded it is
/// `UserNotFound`; with no task loaded, or one of another user,
/// `TaskNotFound`. A task that is done already changes nothing. Otherwise the
/// task becomes done, the pending counter goes down by one, stopping at zero,
/// and the done counter goes up by one.
pub fn plan_complete_task(user: Option<&User>, task: Option<&Task>) -> (plan: Result<
    Completion,
    EngineError,
>)
    ensures
        completion_view(plan) == complete_task_plan(user_view(user), task_view(task)),
{
    let u = match user {
        None => {
            return Err(EngineError::UserNotFound);
        },
        Some(u) => u,
    };
    let t = match task {
        None => {
            return Err(EngineError::TaskNotFound);
        },
        Some(t) => t,
    };
    if t.user_id != u.user_id {
        return Err(EngineError::TaskNotFound);
    }
    if t.status.is_done() {
        return Ok(Completion::AlreadyDone);
    }
    if u.done_count == u64::MAX {
        return Err(EngineError::StorageUnavailable);
    }
    Ok(
        Completion::MarkDone(
            CounterWrite {
                pending: u.pending_count.saturating_sub(1),
                done: u.done_count + 1,
                clamped: u.pending_count == 0,
            },
        ),
    )
}

/// Decides what deleting a task writes. With no user loaded it is
/// `UserNotFound`; with no task loaded, or one of another user,
/// `TaskNotFound`. Otherwise the counter that matches the task's status goes
/// down by one, stopping at zero, and the other stays.
pub fn plan_delete_task(user: Option<&User>, task: Option<&Task>) -> (plan: Result<
    CounterWrite,
    EngineError,
>)
    ensures
        write_view(plan) == delete_task_plan(user_view(user), task_view(task)),
{
    let u = match user {
        None => {
            return Err(EngineError::UserNotFound);
        },
        Some(u) => u,
    };
    let t = match task {
        None => {
            return Err(EngineError::TaskNotFound);
        },
        Some(t) => t,
    };
    if t.user_id != u.user_id {
        return Err(EngineError::TaskNotFound);
    }
    if t.status.is_done() {
        Ok(
            CounterWrite {
                pending: u.pending_count,
                done: u.done_count.saturating_sub(1),
                clamped: u.done_count == 0,
            },
        )
    } else {
        Ok(
            CounterWrite {
                pending: u.pending_count.saturating_sub(1),
                done: u.done_count,
                clamped: u.pending_count == 0,
            },
        )
    }
}

} // verus!

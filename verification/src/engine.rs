//! The operations of the tracker. Each one loads what it needs, decides with
//! the functions of [`crate::plan`], and writes only once nothing can fail any
//! more, so that it applies as a whole or not at all.

use vstd::prelude::*;
use crate::model::{
    CreateTask,
    CreateUser,
    EngineError,
    Task,
    TaskAction,
    TaskStatus,
    TaskView,
    User,
    UserView,
};
use crate::laws::law_step_keeps_invariant;
use crate::plan::{plan_add_task, plan_complete_task, plan_delete_task, Completion};
use crate::protocol::{next_step, Event, Reply, Request, Step, Transaction};
use crate::refinement::{answer, drive, law_protocol_is_atomic, longest_run};
use crate::state::{
    lemma_add_task_wf,
    lemma_add_user_wf,
    lemma_delete_task_wf,
    lemma_task_done_wf,
    ReplyView,
    StateView,
};
use crate::tally::owned_by;
use crate::task_store::{task_views, TaskStore};
use crate::user_store::{distinct_users, user_views, UserStore};

verus! {

/// The state that all operations share: the user table and the task table.
/// Only the operations of this module write to it.
pub struct AppState {
    users: UserStore,
    tasks: TaskStore,
}

impl View for AppState {
    type V = StateView;

    closed spec fn view(&self) -> StateView {
        StateView {
            users: self.users@,
            tasks: self.tasks@.rows,
            next_task_id: self.tasks@.next_id,
        }
    }
}

impl AppState {
    /// The invariant: ids are keys, every task has an owner, and every
    /// counter equals the count of the rows it stands for.
    pub open spec fn wf(&self) -> bool {
        self@.wf()
    }

    /// A state without users and tasks.
    pub fn new() -> (data: AppState)
        ensures
            data.wf(),
            data@ == StateView::empty(),
    {
        AppState { users: UserStore::new(), tasks: TaskStore::new() }
    }
}

/// The view of a result that carries a user row.
pub open spec fn user_result_view(r: Result<User, EngineError>) -> Result<UserView, EngineError> {
    match r {
        Ok(u) => Ok(u@),
        Err(e) => Err(e),
    }
}

/// The view of a result that carries a task row.
pub open spec fn task_result_view(r: Result<Task, EngineError>) -> Result<TaskView, EngineError> {
    match r {
        Ok(t) => Ok(t@),
        Err(e) => Err(e),
    }
}

/// Registers a user with both counters at zero and returns the new row.
/// Fails with `Conflict`, changing nothing, where the id is registered
/// already.
pub fn add_user(body: &CreateUser, data: &mut AppState) -> (created: Result<User, EngineError>)
    requires
        old(data).wf(),
    ensures
        final(data).wf(),
        user_result_view(created) == old(data)@.add_user_result(body.user_id@, body.user_name@),
        final(data)@ == old(data)@.after_add_user(body.user_id@, body.user_name@),
{
    proof {
        lemma_add_user_wf(data@, body.user_id@, body.user_name@);
    }
    data.users.create_user(&body.user_id, &body.user_name)
}

/// Adds a pending task for a registered user, raises that user's pending
/// counter by one, and returns the new row. Fails with `UserNotFound` where
/// the user is not registered and with `StorageUnavailable` where no task id
/// is left; a failure changes nothing.
pub fn add_task(body: &CreateTask, data: &mut AppState) -> (created: Result<Task, EngineError>)
    requires
        old(data).wf(),
    ensures
        final(data).wf(),
        task_result_view(created) == old(data)@.add_task_result(body.user_id@, body.task_name@),
        final(data)@ == old(data)@.after_add_task(body.user_id@, body.task_name@),
{
    proof {
        lemma_add_task_wf(data@, body.user_id@, body.task_name@);
    }
    let user = data.users.get_user(&body.user_id);
    let write = match plan_add_task(user.as_ref()) {
        Ok(write) => write,
        Err(e) => {
            return Err(e);
        },
    };
    let task = match data.tasks.create_task(&body.user_id, &body.task_name) {
        Ok(task) => task,
        Err(e) => {
            return Err(e);
        },
    };
    let _ = data.users.set_counters(&body.user_id, write.pending, write.done);
    Ok(task)
}

/// Marks a pending task of a user as done, lowers the pending counter by one
/// and raises the done counter by one. A task that is done already is left as
/// it is, counters included. Fails with `UserNotFound` where the user is not
/// registered and with `TaskNotFound` where the user has no such task; a
/// failure changes nothing.
pub fn task_done(body: &TaskAction, data: &mut AppState) -> (done: Result<(), EngineError>)
    requires
        old(data).wf(),
    ensures
        final(data).wf(),
        done == old(data)@.task_done_result(body.user_id@, body.task_id as int),
        final(data)@ == old(data)@.after_task_done(body.user_id@, body.task_id as int),
{
    proof {
        lemma_task_done_wf(data@, body.user_id@, body.task_id as int);
    }
    let user = data.users.get_user(&body.user_id);
    let task = data.tasks.get_task(body.task_id, &body.user_id);
    match plan_complete_task(user.as_ref(), task.as_ref()) {
        Err(e) => Err(e),
        Ok(Completion::AlreadyDone) => Ok(()),
        Ok(Completion::MarkDone(write)) => {
            let _ = data.tasks.set_status(body.task_id, &body.user_id, TaskStatus::Done);
            let _ = data.users.set_counters(&body.user_id, write.pending, write.done);
            Ok(())
        },
    }
}

/// Removes a task of a user and lowers by one the counter that matches the
/// task's status. Fails with `UserNotFound` where the user is not registered
/// and with `TaskNotFound` where the user has no such task; a failure changes
/// nothing.
pub fn delete_task(body: &TaskAction, data: &mut AppState) -> (deleted: Result<(), EngineError>)
    requires
        old(data).wf(),
    ensures
        final(data).wf(),
        deleted == old(data)@.delete_task_result(body.user_id@, body.task_id as int),
        final(data)@ == old(data)@.after_delete_task(body.user_id@, body.task_id as int),
{
    proof {
        lemma_delete_task_wf(data@, body.user_id@, body.task_id as int);
    }
    let user = data.users.get_user(&body.user_id);
    let task = data.tasks.get_task(body.task_id, &body.user_id);
    match plan_delete_task(user.as_ref(), task.as_ref()) {
        Err(e) => Err(e),
        Ok(write) => {
            let _ = data.tasks.delete_task(body.task_id, &body.user_id);
            let _ = data.users.set_counters(&body.user_id, write.pending, write.done);
            Ok(())
        },
    }
}

/// The row of a user, or `UserNotFound`.
pub fn get_user(user_id: &String, data: &AppState) -> (found: Result<User, EngineError>)
    requires
        data.wf(),
    ensures
        user_result_view(found) == match data@.user(user_id@) {
            Some(u) => Ok(u),
            None => Err(EngineError::UserNotFound),
        },
{
    match data.users.get_user(user_id) {
        Some(user) => Ok(user),
        None => Err(EngineError::UserNotFound),
    }
}

/// Every user, in the order of registration.
pub fn get_all_users(data: &AppState) -> (users: Vec<User>)
    ensures
        user_views(users@) == data@.users,
{
    data.users.list_all()
}

/// The tasks of one user, in the order of creation; empty where the user has
/// none or is not registered.
pub fn get_tasks(user_id: &String, data: &AppState) -> (tasks: Vec<Task>)
    ensures
        task_views(tasks@) == owned_by(data@.tasks, user_id@),
{
    data.tasks.list_by_user(user_id)
}

/// Every task, in the order of creation.
pub fn get_all_tasks(data: &AppState) -> (tasks: Vec<Task>)
    ensures
        task_views(tasks@) == data@.tasks,
{
    data.tasks.list_all()
}

/// The view of a result that carries a reply.
pub open spec fn reply_result_view(r: Result<Reply, EngineError>) -> Result<
    ReplyView,
    EngineError,
> {
    match r {
        Ok(reply) => Ok(reply@),
        Err(e) => Err(e),
    }
}

impl AppState {
    /// What a single statement needs of the tables: ids are keys. Between
    /// the statements of one operation the counters may be out of step.
    pub open spec fn tables_wf(&self) -> bool {
        &&& distinct_users(self@.users)
        &&& self@.table().wf()
    }

    /// Runs one statement against the tables and gives their answer.
    fn perform(&mut self, step: &Step) -> (event: Event)
        requires
            old(self).tables_wf(),
        ensures
            final(self).tables_wf(),
            (final(self)@, event@) == answer(old(self)@, step@),
    {
        match step {
            Step::LoadUser { user_id } => Event::UserRow(self.users.get_user(user_id)),
            Step::LoadTask { task_id, user_id } => Event::TaskRow(
                self.tasks.get_task(*task_id, user_id),
            ),
            Step::InsertUser { user_id, user_name } => {
                match self.users.create_user(user_id, user_name) {
                    Ok(row) => Event::UserInserted(row),
                    Err(_) => Event::Failed(
                        "duplicate key value violates unique constraint".to_owned(),
                    ),
                }
            },
            Step::InsertTask { user_id, task_name } => {
                if self.users.get_user(user_id).is_none() {
                    return Event::Failed(String::new());
                }
                match self.tasks.create_task(user_id, task_name) {
                    Ok(row) => Event::TaskInserted(row),
                    Err(_) => Event::Failed(String::new()),
                }
            },
            Step::SetStatus { task_id, user_id, status } => Event::Written(
                self.tasks.set_status(*task_id, user_id, *status),
            ),
            Step::DeleteTask { task_id, user_id } => Event::Written(
                self.tasks.delete_task(*task_id, user_id),
            ),
            Step::SetCounters { user_id, pending, done, clamped: _ } => Event::Written(
                self.users.set_counters(user_id, *pending, *done),
            ),
            Step::Commit(_) => Event::Written(0),
            Step::Rollback(_) => Event::Written(0),
        }
    }
}

/// Runs any write operation statement by statement, as
/// [`crate::protocol::Transaction`] directs, against the tables in memory.
/// It returns what the operation returns and leaves the state that the
/// operation leaves: the same as `add_user`, `add_task`, `task_done` and
/// `delete_task` do in one go.
pub fn run(request: Request, data: &mut AppState) -> (outcome: Result<Reply, EngineError>)
    requires
        old(data).wf(),
    ensures
        final(data).wf(),
        reply_result_view(outcome) == old(data)@.reply(request@),
        final(data)@ == old(data)@.apply(request@),
{
    let ghost op = request@;
    let ghost start = data@;
    proof {
        law_protocol_is_atomic(start, op);
        law_step_keeps_invariant(start, op);
    }
    let mut txn = Transaction::begin(request);
    let mut step = txn.next();
    let mut left: u8 = 4;
    while left > 0 && !step.is_final()
        invariant
            data.tables_wf(),
            txn@.request == op,
            step@ == next_step(op, txn@.events),
            drive(data@, op, txn@.events, left as nat) == drive(
                start,
                op,
                Seq::empty(),
                longest_run(),
            ),
        decreases left,
    {
        let event = data.perform(&step);
        step = txn.advance(event);
        left -= 1;
    }
    match step {
        Step::Commit(reply) => Ok(reply),
        Step::Rollback(e) => Err(e),
        _ => Err(EngineError::StorageUnavailable),
    }
}

} // verus!

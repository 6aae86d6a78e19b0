//! One operation against a transactional storage, statement by statement.
//!
//! A `Transaction` says which statement to run next and takes the storage's
//! answer; it ends in `Commit` with the reply or in `Rollback` with the
//! failure. Whoever drives it opens a storage transaction, runs each step
//! inside it with the user row locked, and commits or rolls back as told, so
//! that the operation applies as a whole or not at all.

use vstd::prelude::*;
use crate::failure::{classify_write_failure, is_duplicate_key};
use crate::model::{
    CreateTask,
    CreateUser,
    EngineError,
    Task,
    TaskAction,
    TaskStatus,
    TaskView,
    User,
    UserView,
};
use crate::plan::{
    add_task_plan,
    complete_task_plan,
    delete_task_plan,
    plan_add_task,
    plan_complete_task,
    plan_delete_task,
    Completion,
    CounterWrite,
};
use crate::state::{Operation, ReplyView};

verus! {

/// A write operation with the body that came with it.
#[derive(Debug, PartialEq, Eq)]
pub enum Request {
    AddUser(CreateUser),
    AddTask(CreateTask),
    TaskDone(TaskAction),
    DeleteTask(TaskAction),
}

impl View for Request {
    type V = Operation;

    open spec fn view(&self) -> Operation {
        match self {
            Request::AddUser(body) => Operation::AddUser {
                user_id: body.user_id@,
                user_name: body.user_name@,
            },
            Request::AddTask(body) => Operation::AddTask {
                user_id: body.user_id@,
                task_name: body.task_name@,
            },
            Request::TaskDone(body) => Operation::TaskDone {
                user_id: body.user_id@,
                task_id: body.task_id as int,
            },
            Request::DeleteTask(body) => Operation::DeleteTask {
                user_id: body.user_id@,
                task_id: body.task_id as int,
            },
        }
    }
}

/// What an operation that applied hands back.
#[derive(Debug, PartialEq, Eq)]
pub enum Reply {
    User(User),
    Task(Task),
    Done,
}

impl View for Reply {
    type V = ReplyView;

    open spec fn view(&self) -> ReplyView {
        match self {
            Reply::User(u) => ReplyView::User(u@),
            Reply::Task(t) => ReplyView::Task(t@),
            Reply::Done => ReplyView::Done,
        }
    }
}

/// What a step says, as plain mathematics.
pub enum StepView {
    LoadUser { user_id: Seq<char> },
    LoadTask { task_id: int, user_id: Seq<char> },
    InsertUser { user_id: Seq<char>, user_name: Seq<char> },
    InsertTask { user_id: Seq<char>, task_name: Seq<char> },
    SetStatus { task_id: int, user_id: Seq<char>, status: TaskStatus },
    DeleteTask { task_id: int, user_id: Seq<char> },
    SetCounters { user_id: Seq<char>, pending: nat, done: nat, clamped: bool },
    Commit(ReplyView),
    Rollback(EngineError),
}

/// The next thing to do for a transaction: one statement for the storage, or
/// the end of the transaction.
#[derive(Debug, PartialEq, Eq)]
pub enum Step {
    /// Read the user row and lock it; answered by `Event::UserRow`.
    LoadUser { user_id: String },
    /// Read the user's task with that id; answered by `Event::TaskRow`.
    LoadTask { task_id: i32, user_id: String },
    /// Insert a user row with both counters at zero; answered by
    /// `Event::UserInserted`.
    InsertUser { user_id: String, user_name: String },
    /// Insert a pending task row under a fresh id; answered by
    /// `Event::TaskInserted`.
    InsertTask { user_id: String, task_name: String },
    /// Set the status of the user's task with that id; answered by
    /// `Event::Written`.
    SetStatus { task_id: i32, user_id: String, status: TaskStatus },
    /// Delete the user's task with that id; answered by `Event::Written`.
    DeleteTask { task_id: i32, user_id: String },
    /// Write both counters of the user; answered by `Event::Written`. Where
    /// `clamped` is set, a counter that had to go down stood at zero: the
    /// counters had lost touch with the task rows, which is worth a line in
    /// the log.
    SetCounters { user_id: String, pending: u64, done: u64, clamped: bool },
    /// Commit; the operation returns this reply.
    Commit(Reply),
    /// Roll back; the operation fails with this error.
    Rollback(EngineError),
}

impl View for Step {
    type V = StepView;

    open spec fn view(&self) -> StepView {
        match self {
            Step::LoadUser { user_id } => StepView::LoadUser { user_id: user_id@ },
            Step::LoadTask { task_id, user_id } => StepView::LoadTask {
                task_id: *task_id as int,
                user_id: user_id@,
            },
            Step::InsertUser { user_id, user_name } => StepView::InsertUser {
                user_id: user_id@,
                user_name: user_name@,
            },
            Step::InsertTask { user_id, task_name } => StepView::InsertTask {
                user_id: user_id@,
                task_name: task_name@,
            },
            Step::SetStatus { task_id, user_id, status } => StepView::SetStatus {
                task_id: *task_id as int,
                user_id: user_id@,
                status: *status,
            },
            Step::DeleteTask { task_id, user_id } => StepView::DeleteTask {
                task_id: *task_id as int,
                user_id: user_id@,
            },
            Step::SetCounters { user_id, pending, done, clamped } => StepView::SetCounters {
                user_id: user_id@,
                pending: *pending as nat,
                done: *done as nat,
                clamped: *clamped,
            },
            Step::Commit(reply) => StepView::Commit(reply@),
            Step::Rollback(e) => StepView::Rollback(*e),
        }
    }
}

impl Step {
    /// Whether this step ends the transaction.
    pub fn is_final(&self) -> (ended: bool)
        ensures
            ended == is_final(self@),
    {
        match self {
            Step::Commit(_) => true,
            Step::Rollback(_) => true,
            _ => false,
        }
    }
}

/// What an answer of the storage says, as plain mathematics.
pub enum EventView {
    UserRow(Option<UserView>),
    TaskRow(Option<TaskView>),
    UserInserted(UserView),
    TaskInserted(TaskView),
    Written(nat),
    Failed(Seq<char>),
}

/// What the storage answered to a step.
#[derive(Debug, PartialEq, Eq)]
pub enum Event {
    /// The user row that was read, if there is one.
    UserRow(Option<User>),
    /// The task row that was read, if there is one.
    TaskRow(Option<Task>),
    /// The user row as it was inserted.
    UserInserted(User),
    /// The task row as it was inserted.
    TaskInserted(Task),
    /// The number of rows that the statement wrote or deleted.
    Written(u64),
    /// The statement failed, and the storage said this about it.
    Failed(String),
}

impl View for Event {
    type V = EventView;

    open spec fn view(&self) -> EventView {
        match self {
            Event::UserRow(row) => EventView::UserRow(
                match row {
                    Some(u) => Some(u@),
                    None => None,
                },
            ),
            Event::TaskRow(row) => EventView::TaskRow(
                match row {
                    Some(t) => Some(t@),
                    None => None,
                },
            ),
            Event::UserInserted(u) => EventView::UserInserted(u@),
            Event::TaskInserted(t) => EventView::TaskInserted(t@),
            Event::Written(n) => EventView::Written(*n as nat),
            Event::Failed(text) => EventView::Failed(text@),
        }
    }
}

/// The views of a run of answers.
pub open spec fn event_views(events: Seq<Event>) -> Seq<EventView> {
    events.map_values(|e: Event| e@)
}

/// Whether a step ends the transaction.
pub open spec fn is_final(step: StepView) -> bool {
    step is Commit || step is Rollback
}

/// What is wrong with the answer to a statement that had to write exactly
/// one row: nothing where one row was written; `missing` where none was, the
/// row having gone since it was read; `StorageUnavailable` for every other
/// answer.
pub open spec fn write_fault(answer: EventView, missing: EngineError) -> Option<EngineError> {
    match answer {
        EventView::Written(n) => if n == 1 {
            None
        } else if n == 0 {
            Some(missing)
        } else {
            Some(EngineError::StorageUnavailable)
        },
        _ => Some(EngineError::StorageUnavailable),
    }
}

/// The failure that a refused insert of a user stands for.
pub open spec fn insert_user_fault(answer: EventView) -> EngineError {
    match answer {
        EventView::Failed(text) => if is_duplicate_key(text) {
            EngineError::Conflict
        } else {
            EngineError::StorageUnavailable
        },
        _ => EngineError::StorageUnavailable,
    }
}

/// Registering a user: insert the row; the storage's key decides on a
/// conflict.
pub open spec fn add_user_step(
    user_id: Seq<char>,
    user_name: Seq<char>,
    events: Seq<EventView>,
) -> StepView {
    if events.len() == 0 {
        StepView::InsertUser { user_id, user_name }
    } else {
        match events[0] {
            EventView::UserInserted(u) => StepView::Commit(ReplyView::User(u)),
            other => StepView::Rollback(insert_user_fault(other)),
        }
    }
}

/// Adding a task: load the user, insert the task, write the counters.
pub open spec fn add_task_step(
    user_id: Seq<char>,
    task_name: Seq<char>,
    events: Seq<EventView>,
) -> StepView {
    if events.len() == 0 {
        StepView::LoadUser { user_id }
    } else {
        match events[0] {
            EventView::UserRow(user) => match add_task_plan(user) {
                Err(e) => StepView::Rollback(e),
                Ok(w) => if events.len() == 1 {
                    StepView::InsertTask { user_id, task_name }
                } else {
                    match events[1] {
                        EventView::TaskInserted(t) => if events.len() == 2 {
                            StepView::SetCounters {
                                user_id,
                                pending: w.0,
                                done: w.1,
                                clamped: w.2,
                            }
                        } else {
                            match write_fault(events[2], EngineError::UserNotFound) {
                                Some(e) => StepView::Rollback(e),
                                None => StepView::Commit(ReplyView::Task(t)),
                            }
                        },
                        _ => StepView::Rollback(EngineError::StorageUnavailable),
                    }
                },
            },
            _ => StepView::Rollback(EngineError::StorageUnavailable),
        }
    }
}

/// The end of an operation on one task, from the answer to its task write
/// onwards: write the counters, then commit.
pub open spec fn finish_task_write(
    user_id: Seq<char>,
    write: (nat, nat, bool),
    events: Seq<EventView>,
) -> StepView {
    match write_fault(events[2], EngineError::TaskNotFound) {
        Some(e) => StepView::Rollback(e),
        None => if events.len() == 3 {
            StepView::SetCounters {
                user_id,
                pending: write.0,
                done: write.1,
                clamped: write.2,
            }
        } else {
            match write_fault(events[3], EngineError::UserNotFound) {
                Some(e) => StepView::Rollback(e),
                None => StepView::Commit(ReplyView::Done),
            }
        },
    }
}

/// Finishing a task: load the user and the task, set the status, write the
/// counters. A task that is done already commits at once.
pub open spec fn task_done_step(user_id: Seq<char>, task_id: int, events: Seq<EventView>) -> StepView {
    if events.len() == 0 {
        StepView::LoadUser { user_id }
    } else {
        match events[0] {
            EventView::UserRow(None) => StepView::Rollback(EngineError::UserNotFound),
            EventView::UserRow(Some(u)) => if events.len() == 1 {
                StepView::LoadTask { task_id, user_id }
            } else {
                match events[1] {
                    EventView::TaskRow(task) => match complete_task_plan(Some(u), task) {
                        Err(e) => StepView::Rollback(e),
                        Ok(None) => StepView::Commit(ReplyView::Done),
                        Ok(Some(w)) => if events.len() == 2 {
                            StepView::SetStatus { task_id, user_id, status: TaskStatus::Done }
                        } else {
                            finish_task_write(user_id, w, events)
                        },
                    },
                    _ => StepView::Rollback(EngineError::StorageUnavailable),
                }
            },
            _ => StepView::Rollback(EngineError::StorageUnavailable),
        }
    }
}

/// Deleting a task: load the user and the task, delete the row, write the
/// counters.
pub open spec fn delete_task_step(
    user_id: Seq<char>,
    task_id: int,
    events: Seq<EventView>,
) -> StepView {
    if events.len() == 0 {
        StepView::LoadUser { user_id }
    } else {
        match events[0] {
            EventView::UserRow(None) => StepView::Rollback(EngineError::UserNotFound),
            EventView::UserRow(Some(u)) => if events.len() == 1 {
                StepView::LoadTask { task_id, user_id }
            } else {
                match events[1] {
                    EventView::TaskRow(task) => match delete_task_plan(Some(u), task) {
                        Err(e) => StepView::Rollback(e),
                        Ok(w) => if events.len() == 2 {
                            StepView::DeleteTask { task_id, user_id }
                        } else {
                            finish_task_write(user_id, w, events)
                        },
                    },
                    _ => StepView::Rollback(EngineError::StorageUnavailable),
                }
            },
            _ => StepView::Rollback(EngineError::StorageUnavailable),
        }
    }
}

/// The step that follows the answers so far. Once it is a `Commit` or a
/// `Rollback`, further answers do not change it.
pub open spec fn next_step(op: Operation, events: Seq<EventView>) -> StepView {
    match op {
        Operation::AddUser { user_id, user_name } => add_user_step(user_id, user_name, events),
        Operation::AddTask { user_id, task_name } => add_task_step(user_id, task_name, events),
        Operation::TaskDone { user_id, task_id } => task_done_step(user_id, task_id, events),
        Operation::DeleteTask { user_id, task_id } => delete_task_step(user_id, task_id, events),
    }
}

/// What a transaction has seen: its request and the answers so far.
pub struct TransactionView {
    pub request: Operation,
    pub events: Seq<EventView>,
}

/// One operation in progress.
pub struct Transaction {
    request: Request,
    events: Vec<Event>,
}

impl View for Transaction {
    type V = TransactionView;

    closed spec fn view(&self) -> TransactionView {
        TransactionView { request: self.request@, events: event_views(self.events@) }
    }
}

fn check_write(answer: &Event, missing: EngineError) -> (fault: Option<EngineError>)
    ensures
        fault == write_fault(answer@, missing),
{
    match answer {
        Event::Written(n) => {
            if *n == 1 {
                None
            } else if *n == 0 {
                Some(missing)
            } else {
                Some(EngineError::StorageUnavailable)
            }
        },
        _ => Some(EngineError::StorageUnavailable),
    }
}

fn next_add_user(body: &CreateUser, events: &Vec<Event>) -> (step: Step)
    ensures
        step@ == add_user_step(body.user_id@, body.user_name@, event_views(events@)),
{
    if events.len() == 0 {
        return Step::InsertUser {
            user_id: body.user_id.clone(),
            user_name: body.user_name.clone(),
        };
    }
    assert(event_views(events@)[0] == events@[0]@);
    match &events[0] {
        Event::UserInserted(user) => Step::Commit(Reply::User(user.clone())),
        Event::Failed(text) => Step::Rollback(classify_write_failure(text.as_str())),
        _ => Step::Rollback(EngineError::StorageUnavailable),
    }
}

fn next_add_task(body: &CreateTask, events: &Vec<Event>) -> (step: Step)
    ensures
        step@ == add_task_step(body.user_id@, body.task_name@, event_views(events@)),
{
    if events.len() == 0 {
        return Step::LoadUser { user_id: body.user_id.clone() };
    }
    assert(event_views(events@)[0] == events@[0]@);
    let write = match &events[0] {
        Event::UserRow(user) => match plan_add_task(user.as_ref()) {
            Ok(write) => write,
            Err(e) => {
                return Step::Rollback(e);
            },
        },
        _ => {
            return Step::Rollback(EngineError::StorageUnavailable);
        },
    };
    if events.len() == 1 {
        return Step::InsertTask {
            user_id: body.user_id.clone(),
            task_name: body.task_name.clone(),
        };
    }
    assert(event_views(events@)[1] == events@[1]@);
    let task = match &events[1] {
        Event::TaskInserted(task) => task,
        _ => {
            return Step::Rollback(EngineError::StorageUnavailable);
        },
    };
    if events.len() == 2 {
        return Step::SetCounters {
            user_id: body.user_id.clone(),
            pending: write.pending,
            done: write.done,
            clamped: write.clamped,
        };
    }
    assert(event_views(events@)[2] == events@[2]@);
    match check_write(&events[2], EngineError::UserNotFound) {
        Some(e) => Step::Rollback(e),
        None => Step::Commit(Reply::Task(task.clone())),
    }
}

fn next_after_task_write(user_id: &String, write: CounterWrite, events: &Vec<Event>) -> (step: Step)
    requires
        events.len() >= 3,
    ensures
        step@ == finish_task_write(user_id@, write.triple(), event_views(events@)),
{
    assert(event_views(events@)[2] == events@[2]@);
    match check_write(&events[2], EngineError::TaskNotFound) {
        Some(e) => {
            return Step::Rollback(e);
        },
        None => {},
    }
    if events.len() == 3 {
        return Step::SetCounters {
            user_id: user_id.clone(),
            pending: write.pending,
            done: write.done,
            clamped: write.clamped,
        };
    }
    assert(event_views(events@)[3] == events@[3]@);
    match check_write(&events[3], EngineError::UserNotFound) {
        Some(e) => Step::Rollback(e),
        None => Step::Commit(Reply::Done),
    }
}

fn next_task_done(body: &TaskAction, events: &Vec<Event>) -> (step: Step)
    ensures
        step@ == task_done_step(body.user_id@, body.task_id as int, event_views(events@)),
{
    if events.len() == 0 {
        return Step::LoadUser { user_id: body.user_id.clone() };
    }
    assert(event_views(events@)[0] == events@[0]@);
    let user = match &events[0] {
        Event::UserRow(Some(user)) => user,
        Event::UserRow(None) => {
            return Step::Rollback(EngineError::UserNotFound);
        },
        _ => {
            return Step::Rollback(EngineError::StorageUnavailable);
        },
    };
    if events.len() == 1 {
        return Step::LoadTask { task_id: body.task_id, user_id: body.user_id.clone() };
    }
    assert(event_views(events@)[1] == events@[1]@);
    let plan = match &events[1] {
        Event::TaskRow(task) => plan_complete_task(Some(user), task.as_ref()),
        _ => {
            return Step::Rollback(EngineError::StorageUnavailable);
        },
    };
    match plan {
        Err(e) => Step::Rollback(e),
        Ok(Completion::AlreadyDone) => Step::Commit(Reply::Done),
        Ok(Completion::MarkDone(write)) => {
            if events.len() == 2 {
                Step::SetStatus {
                    task_id: body.task_id,
                    user_id: body.user_id.clone(),
                    status: TaskStatus::Done,
                }
            } else {
                next_after_task_write(&body.user_id, write, events)
            }
        },
    }
}

fn next_delete_task(body: &TaskAction, events: &Vec<Event>) -> (step: Step)
    ensures
        step@ == delete_task_step(body.user_id@, body.task_id as int, event_views(events@)),
{
    if events.len() == 0 {
        return Step::LoadUser { user_id: body.user_id.clone() };
    }
    assert(event_views(events@)[0] == events@[0]@);
    let user = match &events[0] {
        Event::UserRow(Some(user)) => user,
        Event::UserRow(None) => {
            return Step::Rollback(EngineError::UserNotFound);
        },
        _ => {
            return Step::Rollback(EngineError::StorageUnavailable);
        },
    };
    if events.len() == 1 {
        return Step::LoadTask { task_id: body.task_id, user_id: body.user_id.clone() };
    }
    assert(event_views(events@)[1] == events@[1]@);
    let plan = match &events[1] {
        Event::TaskRow(task) => plan_delete_task(Some(user), task.as_ref()),
        _ => {
            return Step::Rollback(EngineError::StorageUnavailable);
        },
    };
    match plan {
        Err(e) => Step::Rollback(e),
        Ok(write) => {
            if events.len() == 2 {
                Step::DeleteTask { task_id: body.task_id, user_id: body.user_id.clone() }
            } else {
                next_after_task_write(&body.user_id, write, events)
            }
        },
    }
}

impl Transaction {
    /// A transaction for `request` that has asked the storage nothing yet.
    pub fn begin(request: Request) -> (txn: Transaction)
        ensures
            txn@.request == request@,
            txn@.events == Seq::<EventView>::empty(),
    {
        let txn = Transaction { request, events: Vec::new() };
        assert(txn@.events =~= Seq::<EventView>::empty());
        txn
    }

    /// The step to take now.
    pub fn next(&self) -> (step: Step)
        ensures
            step@ == next_step(self@.request, self@.events),
    {
        match &self.request {
            Request::AddUser(body) => next_add_user(body, &self.events),
            Request::AddTask(body) => next_add_task(body, &self.events),
            Request::TaskDone(body) => next_task_done(body, &self.events),
            Request::DeleteTask(body) => next_delete_task(body, &self.events),
        }
    }

    /// Takes the storage's answer to the step that `next` gave last, and
    /// gives the step that follows.
    pub fn advance(&mut self, answer: Event) -> (step: Step)
        ensures
            final(self)@.request == old(self)@.request,
            final(self)@.events == old(self)@.events.push(answer@),
            step@ == next_step(final(self)@.request, final(self)@.events),
    {
        self.events.push(answer);
        assert(self@.events =~= old(self)@.events.push(answer@));
        self.next()
    }
}

} // verus!

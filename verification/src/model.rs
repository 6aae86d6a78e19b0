//! The rows of the two tables, the request bodies, and their mathematical views.

use vstd::prelude::*;

verus! {

/// Whether a task is still open. A task starts as `Pending` and may move to
/// `Done` once; nothing moves it back.
#[derive(Clone, Copy, PartialEq, Eq, Structural, Debug)]
pub enum TaskStatus {
    Pending,
    Done,
}

impl TaskStatus {
    /// The integer that a row stores for this status.
    pub open spec fn flag(self) -> int {
        match self {
            TaskStatus::Pending => 0,
            TaskStatus::Done => 1,
        }
    }

    /// The status that a stored integer stands for: 1 is `Done`, every other
    /// value is `Pending`.
    pub open spec fn of_flag(flag: int) -> TaskStatus {
        if flag == 1 {
            TaskStatus::Done
        } else {
            TaskStatus::Pending
        }
    }

    pub fn to_flag(self) -> (flag: i32)
        ensures
            flag == self.flag(),
    {
        match self {
            TaskStatus::Pending => 0,
            TaskStatus::Done => 1,
        }
    }

    pub fn from_flag(flag: i32) -> (status: TaskStatus)
        ensures
            status == TaskStatus::of_flag(flag as int),
    {
        if flag == 1 {
            TaskStatus::Done
        } else {
            TaskStatus::Pending
        }
    }

    pub fn is_done(self) -> (done: bool)
        ensures
            done == (self == TaskStatus::Done),
    {
        match self {
            TaskStatus::Pending => false,
            TaskStatus::Done => true,
        }
    }
}

/// What a task row says, as plain mathematics.
pub struct TaskView {
    pub task_id: int,
    pub task_name: Seq<char>,
    pub status: TaskStatus,
    pub user_id: Seq<char>,
}

/// A task row.
#[derive(Debug, PartialEq, Eq)]
pub struct Task {
    pub task_id: i32,
    pub task_name: String,
    pub status: TaskStatus,
    pub user_id: String,
}

impl View for Task {
    type V = TaskView;

    open spec fn view(&self) -> TaskView {
        TaskView {
            task_id: self.task_id as int,
            task_name: self.task_name@,
            status: self.status,
            user_id: self.user_id@,
        }
    }
}

impl Clone for Task {
    fn clone(&self) -> (copy: Task)
        ensures
            copy@ == self@,
    {
        Task {
            task_id: self.task_id,
            task_name: self.task_name.clone(),
            status: self.status,
            user_id: self.user_id.clone(),
        }
    }
}

/// What a user row says, as plain mathematics.
pub struct UserView {
    pub user_id: Seq<char>,
    pub user_name: Seq<char>,
    pub pending_count: nat,
    pub done_count: nat,
}

/// A user row with its two counters.
#[derive(Debug, PartialEq, Eq)]
pub struct User {
    pub user_id: String,
    pub user_name: String,
    pub pending_count: u64,
    pub done_count: u64,
}

impl View for User {
    type V = UserView;

    open spec fn view(&self) -> UserView {
        UserView {
            user_id: self.user_id@,
            user_name: self.user_name@,
            pending_count: self.pending_count as nat,
            done_count: self.done_count as nat,
        }
    }
}

impl Clone for User {
    fn clone(&self) -> (copy: User)
        ensures
            copy@ == self@,
    {
        User {
            user_id: self.user_id.clone(),
            user_name: self.user_name.clone(),
            pending_count: self.pending_count,
            done_count: self.done_count,
        }
    }
}

/// The body of a request to add a task.
#[derive(Debug, PartialEq, Eq)]
pub struct CreateTask {
    pub user_id: String,
    pub task_name: String,
}

/// The body of a request to register a user.
#[derive(Debug, PartialEq, Eq)]
pub struct CreateUser {
    pub user_id: String,
    pub user_name: String,
}

/// The body of a request to finish or to delete one task of one user.
#[derive(Debug, PartialEq, Eq)]
pub struct TaskAction {
    pub user_id: String,
    pub task_id: i32,
}

/// Why an operation did not apply. No operation that returns one of these has
/// changed a row.
#[derive(Clone, Copy, PartialEq, Eq, Structural, Debug)]
pub enum EngineError {
    /// No user has the given id.
    UserNotFound,
    /// The user has no task with the given id.
    TaskNotFound,
    /// A user with the given id is registered already.
    Conflict,
    /// The storage could not take the write.
    StorageUnavailable,
}

/// The stable kinds that failures are reported under.
#[derive(Clone, Copy, PartialEq, Eq, Structural, Debug)]
pub enum ErrorKind {
    NotFound,
    Conflict,
    StorageUnavailable,
}

impl ErrorKind {
    /// The name under which this kind is reported.
    pub open spec fn spec_name(self) -> Seq<char> {
        match self {
            ErrorKind::NotFound => "NotFound"@,
            ErrorKind::Conflict => "Conflict"@,
            ErrorKind::StorageUnavailable => "StorageUnavailable"@,
        }
    }

    pub fn name(self) -> (name: &'static str)
        ensures
            name@ == self.spec_name(),
    {
        match self {
            ErrorKind::NotFound => "NotFound",
            ErrorKind::Conflict => "Conflict",
            ErrorKind::StorageUnavailable => "StorageUnavailable",
        }
    }
}

impl EngineError {
    /// The sentence that tells a person what went wrong.
    pub open spec fn spec_message(self) -> Seq<char> {
        match self {
            EngineError::UserNotFound => "User not found"@,
            EngineError::TaskNotFound => "Task not found"@,
            EngineError::Conflict => "User with that ID already exists"@,
            EngineError::StorageUnavailable => "Storage unavailable, try again"@,
        }
    }

    pub fn message(self) -> (text: &'static str)
        ensures
            text@ == self.spec_message(),
    {
        match self {
            EngineError::UserNotFound => "User not found",
            EngineError::TaskNotFound => "Task not found",
            EngineError::Conflict => "User with that ID already exists",
            EngineError::StorageUnavailable => "Storage unavailable, try again",
        }
    }

    /// The kind that this failure is reported under.
    pub open spec fn spec_kind(self) -> ErrorKind {
        match self {
            EngineError::UserNotFound => ErrorKind::NotFound,
            EngineError::TaskNotFound => ErrorKind::NotFound,
            EngineError::Conflict => ErrorKind::Conflict,
            EngineError::StorageUnavailable => ErrorKind::StorageUnavailable,
        }
    }

    pub fn kind(self) -> (kind: ErrorKind)
        ensures
            kind == self.spec_kind(),
    {
        match self {
            EngineError::UserNotFound => ErrorKind::NotFound,
            EngineError::TaskNotFound => ErrorKind::NotFound,
            EngineError::Conflict => ErrorKind::Conflict,
            EngineError::StorageUnavailable => ErrorKind::StorageUnavailable,
        }
    }

    /// Whether the caller may try the same request again unchanged.
    pub fn is_retryable(self) -> (retry: bool)
        ensures
            retry == (self == EngineError::StorageUnavailable),
    {
        match self {
            EngineError::StorageUnavailable => true,
            _ => false,
        }
    }
}

} // verus!

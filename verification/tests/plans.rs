use task_tracker::failure::{classify_write_failure, contains_text};
use task_tracker::model::{EngineError, ErrorKind, Task, TaskStatus, User};
use task_tracker::plan::{
    plan_add_task, plan_complete_task, plan_delete_task, Completion, CounterWrite,
};

fn user(id: &str, pending: u64, done: u64) -> User {
    User {
        user_id: id.to_string(),
        user_name: "name".to_string(),
        pending_count: pending,
        done_count: done,
    }
}

fn task(id: i32, owner: &str, status: TaskStatus) -> Task {
    Task { task_id: id, task_name: "job".to_string(), status, user_id: owner.to_string() }
}

#[test]
fn plan_add_raises_pending_only() {
    assert_eq!(
        plan_add_task(Some(&user("u1", 3, 4))),
        Ok(CounterWrite { pending: 4, done: 4, clamped: false })
    );
    assert_eq!(
        plan_add_task(Some(&user("u1", 0, 0))),
        Ok(CounterWrite { pending: 1, done: 0, clamped: false })
    );
}

#[test]
fn plan_add_without_user_is_user_not_found() {
    assert_eq!(plan_add_task(None), Err(EngineError::UserNotFound));
}

#[test]
fn plan_add_with_full_counter_is_storage_unavailable() {
    assert_eq!(
        plan_add_task(Some(&user("u1", u64::MAX, 0))),
        Err(EngineError::StorageUnavailable)
    );
    assert_eq!(
        plan_add_task(Some(&user("u1", u64::MAX - 1, 7))),
        Ok(CounterWrite { pending: u64::MAX, done: 7, clamped: false })
    );
}

#[test]
fn plan_complete_moves_one_across() {
    let u = user("u1", 3, 4);
    let t = task(9, "u1", TaskStatus::Pending);
    assert_eq!(
        plan_complete_task(Some(&u), Some(&t)),
        Ok(Completion::MarkDone(CounterWrite { pending: 2, done: 5, clamped: false }))
    );
}

#[test]
fn plan_complete_of_done_task_writes_nothing() {
    let u = user("u1", 3, 4);
    let t = task(9, "u1", TaskStatus::Done);
    assert_eq!(plan_complete_task(Some(&u), Some(&t)), Ok(Completion::AlreadyDone));
}

#[test]
fn plan_complete_stops_at_zero_and_says_so() {
    let u = user("u1", 0, 4);
    let t = task(9, "u1", TaskStatus::Pending);
    assert_eq!(
        plan_complete_task(Some(&u), Some(&t)),
        Ok(Completion::MarkDone(CounterWrite { pending: 0, done: 5, clamped: true }))
    );
}

#[test]
fn plan_complete_failures() {
    let u = user("u1", 3, 4);
    let t = task(9, "u1", TaskStatus::Pending);
    let foreign = task(9, "u2", TaskStatus::Pending);
    assert_eq!(plan_complete_task(None, Some(&t)), Err(EngineError::UserNotFound));
    assert_eq!(plan_complete_task(None, None), Err(EngineError::UserNotFound));
    assert_eq!(plan_complete_task(Some(&u), None), Err(EngineError::TaskNotFound));
    assert_eq!(plan_complete_task(Some(&u), Some(&foreign)), Err(EngineError::TaskNotFound));
    assert_eq!(
        plan_complete_task(Some(&user("u1", 1, u64::MAX)), Some(&t)),
        Err(EngineError::StorageUnavailable)
    );
    assert_eq!(
        plan_complete_task(Some(&user("u1", 1, u64::MAX)), Some(&task(9, "u1", TaskStatus::Done))),
        Ok(Completion::AlreadyDone)
    );
}

#[test]
fn plan_delete_lowers_the_counter_of_the_status() {
    let u = user("u1", 3, 4);
    assert_eq!(
        plan_delete_task(Some(&u), Some(&task(9, "u1", TaskStatus::Pending))),
        Ok(CounterWrite { pending: 2, done: 4, clamped: false })
    );
    assert_eq!(
        plan_delete_task(Some(&u), Some(&task(9, "u1", TaskStatus::Done))),
        Ok(CounterWrite { pending: 3, done: 3, clamped: false })
    );
}

#[test]
fn plan_delete_stops_at_zero_and_says_so() {
    assert_eq!(
        plan_delete_task(Some(&user("u1", 0, 4)), Some(&task(9, "u1", TaskStatus::Pending))),
        Ok(CounterWrite { pending: 0, done: 4, clamped: true })
    );
    assert_eq!(
        plan_delete_task(Some(&user("u1", 3, 0)), Some(&task(9, "u1", TaskStatus::Done))),
        Ok(CounterWrite { pending: 3, done: 0, clamped: true })
    );
    assert_eq!(
        plan_delete_task(Some(&user("u1", 0, 1)), Some(&task(9, "u1", TaskStatus::Done))),
        Ok(CounterWrite { pending: 0, done: 0, clamped: false })
    );
}

#[test]
fn plan_delete_failures() {
    let u = user("u1", 3, 4);
    let t = task(9, "u1", TaskStatus::Done);
    let foreign = task(9, "u2", TaskStatus::Done);
    assert_eq!(plan_delete_task(None, Some(&t)), Err(EngineError::UserNotFound));
    assert_eq!(plan_delete_task(Some(&u), None), Err(EngineError::TaskNotFound));
    assert_eq!(plan_delete_task(Some(&u), Some(&foreign)), Err(EngineError::TaskNotFound));
}

#[test]
fn status_flags() {
    assert_eq!(TaskStatus::Pending.to_flag(), 0);
    assert_eq!(TaskStatus::Done.to_flag(), 1);
    assert_eq!(TaskStatus::from_flag(1), TaskStatus::Done);
    assert_eq!(TaskStatus::from_flag(0), TaskStatus::Pending);
    assert_eq!(TaskStatus::from_flag(2), TaskStatus::Pending);
    assert_eq!(TaskStatus::from_flag(-1), TaskStatus::Pending);
    assert!(TaskStatus::Done.is_done());
    assert!(!TaskStatus::Pending.is_done());
}

#[test]
fn error_kinds_names_and_messages() {
    assert_eq!(EngineError::UserNotFound.kind(), ErrorKind::NotFound);
    assert_eq!(EngineError::TaskNotFound.kind(), ErrorKind::NotFound);
    assert_eq!(EngineError::Conflict.kind(), ErrorKind::Conflict);
    assert_eq!(EngineError::StorageUnavailable.kind(), ErrorKind::StorageUnavailable);
    assert_eq!(ErrorKind::NotFound.name(), "NotFound");
    assert_eq!(ErrorKind::Conflict.name(), "Conflict");
    assert_eq!(ErrorKind::StorageUnavailable.name(), "StorageUnavailable");
    assert_eq!(EngineError::UserNotFound.message(), "User not found");
    assert_eq!(EngineError::TaskNotFound.message(), "Task not found");
    assert_eq!(EngineError::Conflict.message(), "User with that ID already exists");
    assert_eq!(EngineError::StorageUnavailable.message(), "Storage unavailable, try again");
    assert!(EngineError::StorageUnavailable.is_retryable());
    assert!(!EngineError::UserNotFound.is_retryable());
    assert!(!EngineError::TaskNotFound.is_retryable());
    assert!(!EngineError::Conflict.is_retryable());
}

#[test]
fn duplicate_key_text_is_a_conflict() {
    let text = "error returned from database: duplicate key value violates unique constraint \"user_pkey\"";
    assert_eq!(classify_write_failure(text), EngineError::Conflict);
    assert_eq!(
        classify_write_failure("duplicate key value violates unique constraint"),
        EngineError::Conflict
    );
}

#[test]
fn other_failure_text_is_storage_unavailable() {
    assert_eq!(
        classify_write_failure("pool timed out while waiting for an open connection"),
        EngineError::StorageUnavailable
    );
    assert_eq!(classify_write_failure(""), EngineError::StorageUnavailable);
    assert_eq!(
        classify_write_failure("duplicate key value violates unique constrain"),
        EngineError::StorageUnavailable
    );
    assert_eq!(
        classify_write_failure("Duplicate key value violates unique constraint"),
        EngineError::StorageUnavailable
    );
}

#[test]
fn contains_text_finds_at_every_place() {
    assert!(contains_text("abcde", "abc"));
    assert!(contains_text("abcde", "bcd"));
    assert!(contains_text("abcde", "cde"));
    assert!(contains_text("abcde", "abcde"));
    assert!(contains_text("abcde", "e"));
    assert!(contains_text("abcde", ""));
    assert!(contains_text("", ""));
    assert!(!contains_text("", "a"));
    assert!(!contains_text("abcde", "abcdef"));
    assert!(!contains_text("abcde", "ce"));
    assert!(!contains_text("abcde", "ed"));
    assert!(contains_text("aab", "ab"));
    assert!(contains_text("gr\u{fc}\u{df}e und k\u{fc}sse", "\u{df}e und"));
    assert!(!contains_text("gr\u{fc}\u{df}e", "ss"));
}

use task_tracker::engine::{
    add_task, add_user, delete_task, get_all_tasks, get_all_users, get_tasks, get_user, task_done,
    AppState,
};
use task_tracker::model::{
    CreateTask, CreateUser, EngineError, Task, TaskAction, TaskStatus, User,
};

fn register(data: &mut AppState, id: &str, name: &str) -> Result<User, EngineError> {
    add_user(
        &CreateUser { user_id: id.to_string(), user_name: name.to_string() },
        data,
    )
}

fn add(data: &mut AppState, id: &str, name: &str) -> Result<Task, EngineError> {
    add_task(
        &CreateTask { user_id: id.to_string(), task_name: name.to_string() },
        data,
    )
}

fn action(id: &str, task_id: i32) -> TaskAction {
    TaskAction { user_id: id.to_string(), task_id }
}

fn counters(data: &AppState, id: &str) -> (u64, u64) {
    let user = get_user(&id.to_string(), data).unwrap();
    (user.pending_count, user.done_count)
}

fn count_rows(data: &AppState, id: &str, status: TaskStatus) -> u64 {
    let mut n = 0;
    for task in get_all_tasks(data) {
        if task.user_id == id && task.status == status {
            n += 1;
        }
    }
    n
}

fn assert_counters_match_rows(data: &AppState) {
    for user in get_all_users(data) {
        assert_eq!(user.pending_count, count_rows(data, &user.user_id, TaskStatus::Pending));
        assert_eq!(user.done_count, count_rows(data, &user.user_id, TaskStatus::Done));
    }
}

#[test]
fn register_user_starts_with_zero_counters() {
    let mut data = AppState::new();
    let created = register(&mut data, "u1", "Alice").unwrap();
    assert_eq!(
        created,
        User {
            user_id: "u1".to_string(),
            user_name: "Alice".to_string(),
            pending_count: 0,
            done_count: 0,
        }
    );
    let found = get_user(&"u1".to_string(), &data).unwrap();
    assert_eq!(found, created);
    assert_eq!(counters(&data, "u1"), (0, 0));
}

#[test]
fn add_task_raises_pending_counter() {
    let mut data = AppState::new();
    register(&mut data, "u1", "Alice").unwrap();
    let task = add(&mut data, "u1", "buy milk").unwrap();
    assert_eq!(
        task,
        Task {
            task_id: 1,
            task_name: "buy milk".to_string(),
            status: TaskStatus::Pending,
            user_id: "u1".to_string(),
        }
    );
    assert_eq!(counters(&data, "u1"), (1, 0));
    let tasks = get_tasks(&"u1".to_string(), &data);
    assert_eq!(tasks.len(), 1);
    assert_eq!(tasks[0].status, TaskStatus::Pending);
    assert_eq!(tasks[0], task);
}

#[test]
fn complete_task_moves_one_from_pending_to_done() {
    let mut data = AppState::new();
    register(&mut data, "u1", "Alice").unwrap();
    let task = add(&mut data, "u1", "buy milk").unwrap();
    assert_eq!(task_done(&action("u1", task.task_id), &mut data), Ok(()));
    assert_eq!(counters(&data, "u1"), (0, 1));
    let tasks = get_tasks(&"u1".to_string(), &data);
    assert_eq!(tasks.len(), 1);
    assert_eq!(tasks[0].status, TaskStatus::Done);
    assert_eq!(tasks[0].task_id, task.task_id);
    assert_eq!(tasks[0].task_name, "buy milk");
}

#[test]
fn complete_task_again_changes_nothing() {
    let mut data = AppState::new();
    register(&mut data, "u1", "Alice").unwrap();
    let task = add(&mut data, "u1", "buy milk").unwrap();
    assert_eq!(task_done(&action("u1", task.task_id), &mut data), Ok(()));
    assert_eq!(task_done(&action("u1", task.task_id), &mut data), Ok(()));
    assert_eq!(counters(&data, "u1"), (0, 1));
    assert_eq!(task_done(&action("u1", task.task_id), &mut data), Ok(()));
    assert_eq!(counters(&data, "u1"), (0, 1));
}

#[test]
fn delete_done_task_lowers_done_counter() {
    let mut data = AppState::new();
    register(&mut data, "u1", "Alice").unwrap();
    let task = add(&mut data, "u1", "buy milk").unwrap();
    task_done(&action("u1", task.task_id), &mut data).unwrap();
    assert_eq!(delete_task(&action("u1", task.task_id), &mut data), Ok(()));
    assert_eq!(counters(&data, "u1"), (0, 0));
    assert!(get_tasks(&"u1".to_string(), &data).is_empty());
    assert!(get_all_tasks(&data).is_empty());
}

#[test]
fn delete_pending_task_lowers_pending_counter() {
    let mut data = AppState::new();
    register(&mut data, "u1", "Alice").unwrap();
    let first = add(&mut data, "u1", "buy milk").unwrap();
    let second = add(&mut data, "u1", "walk dog").unwrap();
    task_done(&action("u1", first.task_id), &mut data).unwrap();
    assert_eq!(counters(&data, "u1"), (1, 1));
    assert_eq!(delete_task(&action("u1", second.task_id), &mut data), Ok(()));
    assert_eq!(counters(&data, "u1"), (0, 1));
    let left = get_tasks(&"u1".to_string(), &data);
    assert_eq!(left.len(), 1);
    assert_eq!(left[0].task_id, first.task_id);
}

#[test]
fn add_task_for_unknown_user_fails() {
    let mut data = AppState::new();
    assert_eq!(add(&mut data, "ghost", "x"), Err(EngineError::UserNotFound));
    assert!(get_all_tasks(&data).is_empty());
    assert!(get_tasks(&"ghost".to_string(), &data).is_empty());
    assert!(get_all_users(&data).is_empty());
}

#[test]
fn failed_add_does_not_use_up_a_task_id() {
    let mut data = AppState::new();
    assert_eq!(add(&mut data, "ghost", "x"), Err(EngineError::UserNotFound));
    register(&mut data, "u1", "Alice").unwrap();
    assert_eq!(add(&mut data, "u1", "buy milk").unwrap().task_id, 1);
}

#[test]
fn register_twice_is_a_conflict() {
    let mut data = AppState::new();
    register(&mut data, "u1", "Alice").unwrap();
    add(&mut data, "u1", "buy milk").unwrap();
    assert_eq!(register(&mut data, "u1", "Bob"), Err(EngineError::Conflict));
    let found = get_user(&"u1".to_string(), &data).unwrap();
    assert_eq!(found.user_name, "Alice");
    assert_eq!((found.pending_count, found.done_count), (1, 0));
    assert_eq!(get_all_users(&data).len(), 1);
}

#[test]
fn same_name_under_two_ids_is_no_conflict() {
    let mut data = AppState::new();
    register(&mut data, "u1", "Alice").unwrap();
    register(&mut data, "u2", "Alice").unwrap();
    let users = get_all_users(&data);
    assert_eq!(users.len(), 2);
    assert_eq!(users[0].user_id, "u1");
    assert_eq!(users[1].user_id, "u2");
}

#[test]
fn get_user_of_unknown_id_fails() {
    let mut data = AppState::new();
    register(&mut data, "u1", "Alice").unwrap();
    assert_eq!(get_user(&"u2".to_string(), &data), Err(EngineError::UserNotFound));
}

#[test]
fn complete_for_unknown_user_fails() {
    let mut data = AppState::new();
    register(&mut data, "u1", "Alice").unwrap();
    let task = add(&mut data, "u1", "buy milk").unwrap();
    assert_eq!(
        task_done(&action("ghost", task.task_id), &mut data),
        Err(EngineError::UserNotFound)
    );
    assert_eq!(counters(&data, "u1"), (1, 0));
}

#[test]
fn complete_unknown_task_fails() {
    let mut data = AppState::new();
    register(&mut data, "u1", "Alice").unwrap();
    add(&mut data, "u1", "buy milk").unwrap();
    assert_eq!(task_done(&action("u1", 99), &mut data), Err(EngineError::TaskNotFound));
    assert_eq!(task_done(&action("u1", 0), &mut data), Err(EngineError::TaskNotFound));
    assert_eq!(task_done(&action("u1", -1), &mut data), Err(EngineError::TaskNotFound));
    assert_eq!(counters(&data, "u1"), (1, 0));
}

#[test]
fn delete_for_unknown_user_fails() {
    let mut data = AppState::new();
    register(&mut data, "u1", "Alice").unwrap();
    let task = add(&mut data, "u1", "buy milk").unwrap();
    assert_eq!(
        delete_task(&action("ghost", task.task_id), &mut data),
        Err(EngineError::UserNotFound)
    );
    assert_eq!(get_all_tasks(&data).len(), 1);
}

#[test]
fn delete_unknown_task_fails() {
    let mut data = AppState::new();
    register(&mut data, "u1", "Alice").unwrap();
    add(&mut data, "u1", "buy milk").unwrap();
    assert_eq!(delete_task(&action("u1", 2), &mut data), Err(EngineError::TaskNotFound));
    assert_eq!(counters(&data, "u1"), (1, 0));
    assert_eq!(get_all_tasks(&data).len(), 1);
}

#[test]
fn task_of_another_user_is_as_good_as_absent() {
    let mut data = AppState::new();
    register(&mut data, "u1", "Alice").unwrap();
    register(&mut data, "u2", "Bob").unwrap();
    let task = add(&mut data, "u1", "buy milk").unwrap();
    assert_eq!(
        task_done(&action("u2", task.task_id), &mut data),
        Err(EngineError::TaskNotFound)
    );
    assert_eq!(
        delete_task(&action("u2", task.task_id), &mut data),
        Err(EngineError::TaskNotFound)
    );
    assert_eq!(counters(&data, "u1"), (1, 0));
    assert_eq!(counters(&data, "u2"), (0, 0));
    assert_eq!(get_tasks(&"u1".to_string(), &data)[0].status, TaskStatus::Pending);
}

#[test]
fn task_ids_go_up_and_are_not_used_again() {
    let mut data = AppState::new();
    register(&mut data, "u1", "Alice").unwrap();
    register(&mut data, "u2", "Bob").unwrap();
    assert_eq!(add(&mut data, "u1", "a").unwrap().task_id, 1);
    assert_eq!(add(&mut data, "u2", "b").unwrap().task_id, 2);
    delete_task(&action("u2", 2), &mut data).unwrap();
    assert_eq!(add(&mut data, "u1", "c").unwrap().task_id, 3);
}

#[test]
fn lists_keep_the_order_of_creation() {
    let mut data = AppState::new();
    register(&mut data, "u1", "Alice").unwrap();
    register(&mut data, "u2", "Bob").unwrap();
    add(&mut data, "u1", "a").unwrap();
    add(&mut data, "u2", "b").unwrap();
    add(&mut data, "u1", "c").unwrap();
    let all: Vec<String> = get_all_tasks(&data).into_iter().map(|t| t.task_name).collect();
    assert_eq!(all, vec!["a", "b", "c"]);
    let mine: Vec<i32> =
        get_tasks(&"u1".to_string(), &data).into_iter().map(|t| t.task_id).collect();
    assert_eq!(mine, vec![1, 3]);
    let theirs: Vec<i32> =
        get_tasks(&"u2".to_string(), &data).into_iter().map(|t| t.task_id).collect();
    assert_eq!(theirs, vec![2]);
}

#[test]
fn counters_match_rows_after_every_operation() {
    let mut data = AppState::new();
    assert_counters_match_rows(&data);
    register(&mut data, "u1", "Alice").unwrap();
    register(&mut data, "u2", "Bob").unwrap();
    assert_counters_match_rows(&data);
    for i in 0..6 {
        add(&mut data, if i % 2 == 0 { "u1" } else { "u2" }, "job").unwrap();
        assert_counters_match_rows(&data);
    }
    for id in [1, 2, 5, 2, 9] {
        let _ = task_done(&action("u1", id), &mut data);
        assert_counters_match_rows(&data);
        let _ = task_done(&action("u2", id), &mut data);
        assert_counters_match_rows(&data);
    }
    for id in [1, 4, 4, 6, 7] {
        let _ = delete_task(&action("u1", id), &mut data);
        assert_counters_match_rows(&data);
        let _ = delete_task(&action("u2", id), &mut data);
        assert_counters_match_rows(&data);
    }
    assert_eq!(counters(&data, "u1"), (1, 1));
    assert_eq!(counters(&data, "u2"), (0, 1));
}

#[test]
fn completing_twice_equals_completing_once() {
    let mut once = AppState::new();
    let mut twice = AppState::new();
    for data in [&mut once, &mut twice] {
        register(data, "u1", "Alice").unwrap();
        add(data, "u1", "a").unwrap();
        add(data, "u1", "b").unwrap();
    }
    task_done(&action("u1", 2), &mut once).unwrap();
    task_done(&action("u1", 2), &mut twice).unwrap();
    task_done(&action("u1", 2), &mut twice).unwrap();
    assert_eq!(counters(&once, "u1"), (1, 1));
    assert_eq!(counters(&twice, "u1"), (1, 1));
    assert_eq!(get_all_tasks(&once), get_all_tasks(&twice));
    assert_eq!(get_all_users(&once), get_all_users(&twice));
}

#[test]
fn many_adds_count_once_each() {
    let mut data = AppState::new();
    register(&mut data, "u1", "Alice").unwrap();
    register(&mut data, "u2", "Bob").unwrap();
    add(&mut data, "u1", "first").unwrap();
    task_done(&action("u1", 1), &mut data).unwrap();
    let before = counters(&data, "u1");
    let n = 250;
    for i in 0..n {
        add(&mut data, "u1", &format!("job {}", i)).unwrap();
    }
    assert_eq!(counters(&data, "u1"), (before.0 + n, before.1));
    assert_eq!(counters(&data, "u1"), (250, 1));
    assert_eq!(counters(&data, "u2"), (0, 0));
    assert_eq!(get_tasks(&"u1".to_string(), &data).len(), 251);
}

#[test]
fn delete_then_complete_finds_no_task() {
    let mut data = AppState::new();
    register(&mut data, "u1", "Alice").unwrap();
    add(&mut data, "u1", "a").unwrap();
    add(&mut data, "u1", "b").unwrap();
    assert_eq!(delete_task(&action("u1", 1), &mut data), Ok(()));
    assert_eq!(task_done(&action("u1", 1), &mut data), Err(EngineError::TaskNotFound));
    assert_eq!(counters(&data, "u1"), (1, 0));
    assert_eq!(get_all_tasks(&data).len(), 1);
}

#[test]
fn delete_and_complete_end_alike_in_either_order() {
    let mut delete_first = AppState::new();
    let mut complete_first = AppState::new();
    for data in [&mut delete_first, &mut complete_first] {
        register(data, "u1", "Alice").unwrap();
        add(data, "u1", "a").unwrap();
        add(data, "u1", "b").unwrap();
        task_done(&action("u1", 2), data).unwrap();
    }
    assert_eq!(delete_task(&action("u1", 1), &mut delete_first), Ok(()));
    assert_eq!(
        task_done(&action("u1", 1), &mut delete_first),
        Err(EngineError::TaskNotFound)
    );
    assert_eq!(task_done(&action("u1", 1), &mut complete_first), Ok(()));
    assert_eq!(counters(&complete_first, "u1"), (0, 2));
    assert_eq!(delete_task(&action("u1", 1), &mut complete_first), Ok(()));
    assert_eq!(counters(&delete_first, "u1"), (0, 1));
    assert_eq!(counters(&complete_first, "u1"), (0, 1));
    assert_eq!(get_all_tasks(&delete_first), get_all_tasks(&complete_first));
    assert_eq!(get_all_users(&delete_first), get_all_users(&complete_first));
    assert_counters_match_rows(&delete_first);
}

#[test]
fn second_delete_of_one_task_fails_and_counts_nothing() {
    let mut data = AppState::new();
    register(&mut data, "u1", "Alice").unwrap();
    add(&mut data, "u1", "a").unwrap();
    add(&mut data, "u1", "b").unwrap();
    assert_eq!(delete_task(&action("u1", 1), &mut data), Ok(()));
    assert_eq!(delete_task(&action("u1", 1), &mut data), Err(EngineError::TaskNotFound));
    assert_eq!(counters(&data, "u1"), (1, 0));
}

#[test]
fn empty_strings_are_ordinary_ids_and_names() {
    let mut data = AppState::new();
    register(&mut data, "", "").unwrap();
    let task = add(&mut data, "", "").unwrap();
    assert_eq!(task.task_name, "");
    assert_eq!(counters(&data, ""), (1, 0));
    assert_eq!(register(&mut data, "", "again"), Err(EngineError::Conflict));
}

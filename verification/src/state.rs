//! The two tables taken together: the invariant that ties each user's
//! counters to the task rows, and every operation as one step from a state to
//! the next. A step that fails leaves the state as it was.

use vstd::prelude::*;
use crate::model::{EngineError, TaskStatus, TaskView, UserView};
use crate::plan::{add_task_plan, complete_task_plan, delete_task_plan};
use crate::tally::{
    count_tasks,
    lemma_count_empty,
    lemma_count_le_len,
    lemma_count_push,
    lemma_count_remove,
    lemma_count_update,
};
use crate::task_store::{
    find_task,
    lemma_with_status,
    lemma_without_task,
    new_task,
    restatus,
    task_pos,
    with_status,
    without_task,
    TaskTable,
};
use crate::user_store::{
    distinct_users,
    find_user,
    has_user,
    lemma_with_counters,
    new_user,
    user_pos,
    with_counters,
};

verus! {

/// What both tables hold.
pub struct StateView {
    pub users: Seq<UserView>,
    pub tasks: Seq<TaskView>,
    pub next_task_id: int,
}

impl StateView {
    /// The state before anything was registered.
    pub open spec fn empty() -> StateView {
        StateView { users: Seq::empty(), tasks: Seq::empty(), next_task_id: 1 }
    }

    /// The task table of this state.
    pub open spec fn table(self) -> TaskTable {
        TaskTable { rows: self.tasks, next_id: self.next_task_id }
    }

    /// The row of `user_id`, if there is one.
    pub open spec fn user(self, user_id: Seq<char>) -> Option<UserView> {
        find_user(self.users, user_id)
    }

    /// The task `task_id` of `user_id`, if there is one.
    pub open spec fn task(self, task_id: int, user_id: Seq<char>) -> Option<TaskView> {
        find_task(self.tasks, task_id, user_id)
    }

    /// Every user's pending counter is the number of that user's pending
    /// tasks, and the done counter the number of that user's done tasks.
    pub open spec fn consistent(self) -> bool {
        forall|i: int|
            0 <= i < self.users.len() ==> {
                let u = #[trigger] self.users[i];
                &&& u.pending_count == count_tasks(self.tasks, u.user_id, TaskStatus::Pending)
                &&& u.done_count == count_tasks(self.tasks, u.user_id, TaskStatus::Done)
            }
    }

    /// Every task belongs to a registered user.
    pub open spec fn owners_exist(self) -> bool {
        forall|i: int|
            0 <= i < self.tasks.len() ==> has_user(self.users, (#[trigger] self.tasks[i]).user_id)
    }

    /// The invariant of the whole state.
    pub open spec fn wf(self) -> bool {
        &&& distinct_users(self.users)
        &&& self.table().wf()
        &&& self.owners_exist()
        &&& self.consistent()
    }

    /// What registering a user returns.
    pub open spec fn add_user_result(self, user_id: Seq<char>, user_name: Seq<char>) -> Result<
        UserView,
        EngineError,
    > {
        if has_user(self.users, user_id) {
            Err(EngineError::Conflict)
        } else {
            Ok(new_user(user_id, user_name))
        }
    }

    /// The state after registering a user.
    pub open spec fn after_add_user(self, user_id: Seq<char>, user_name: Seq<char>) -> StateView {
        if has_user(self.users, user_id) {
            self
        } else {
            StateView {
                users: self.users.push(new_user(user_id, user_name)),
                tasks: self.tasks,
                next_task_id: self.next_task_id,
            }
        }
    }

    /// What adding a task returns.
    pub open spec fn add_task_result(self, user_id: Seq<char>, task_name: Seq<char>) -> Result<
        TaskView,
        EngineError,
    > {
        match add_task_plan(self.user(user_id)) {
            Err(e) => Err(e),
            Ok(_) => if self.table().has_room() {
                Ok(new_task(self.next_task_id, user_id, task_name))
            } else {
                Err(EngineError::StorageUnavailable)
            },
        }
    }

    /// The state after adding a task.
    pub open spec fn after_add_task(self, user_id: Seq<char>, task_name: Seq<char>) -> StateView {
        match add_task_plan(self.user(user_id)) {
            Err(_) => self,
            Ok(w) => if self.table().has_room() {
                StateView {
                    users: with_counters(self.users, user_id, w.0, w.1),
                    tasks: self.tasks.push(new_task(self.next_task_id, user_id, task_name)),
                    next_task_id: self.next_task_id + 1,
                }
            } else {
                self
            },
        }
    }

    /// What finishing a task returns.
    pub open spec fn task_done_result(self, user_id: Seq<char>, task_id: int) -> Result<
        (),
        EngineError,
    > {
        match complete_task_plan(self.user(user_id), self.task(task_id, user_id)) {
            Err(e) => Err(e),
            Ok(_) => Ok(()),
        }
    }

    /// The state after finishing a task.
    pub open spec fn after_task_done(self, user_id: Seq<char>, task_id: int) -> StateView {
        match complete_task_plan(self.user(user_id), self.task(task_id, user_id)) {
            Ok(Some(w)) => StateView {
                users: with_counters(self.users, user_id, w.0, w.1),
                tasks: with_status(self.tasks, task_id, user_id, TaskStatus::Done),
                next_task_id: self.next_task_id,
            },
            _ => self,
        }
    }

    /// What deleting a task returns.
    pub open spec fn delete_task_result(self, user_id: Seq<char>, task_id: int) -> Result<
        (),
        EngineError,
    > {
        match delete_task_plan(self.user(user_id), self.task(task_id, user_id)) {
            Err(e) => Err(e),
            Ok(_) => Ok(()),
        }
    }

    /// The state after deleting a task.
    pub open spec fn after_delete_task(self, user_id: Seq<char>, task_id: int) -> StateView {
        match delete_task_plan(self.user(user_id), self.task(task_id, user_id)) {
            Ok(w) => StateView {
                users: with_counters(self.users, user_id, w.0, w.1),
                tasks: without_task(self.tasks, task_id, user_id),
                next_task_id: self.next_task_id,
            },
            Err(_) => self,
        }
    }
}

/// One write operation with its arguments.
pub enum Operation {
    AddUser { user_id: Seq<char>, user_name: Seq<char> },
    AddTask { user_id: Seq<char>, task_name: Seq<char> },
    TaskDone { user_id: Seq<char>, task_id: int },
    DeleteTask { user_id: Seq<char>, task_id: int },
}

/// What a write operation hands back when it has applied.
pub enum ReplyView {
    User(UserView),
    Task(TaskView),
    Done,
}

impl StateView {
    /// The state after one operation.
    pub open spec fn apply(self, op: Operation) -> StateView {
        match op {
            Operation::AddUser { user_id, user_name } => self.after_add_user(user_id, user_name),
            Operation::AddTask { user_id, task_name } => self.after_add_task(user_id, task_name),
            Operation::TaskDone { user_id, task_id } => self.after_task_done(user_id, task_id),
            Operation::DeleteTask { user_id, task_id } => self.after_delete_task(
                user_id,
                task_id,
            ),
        }
    }

    /// What one operation returns.
    pub open spec fn reply(self, op: Operation) -> Result<ReplyView, EngineError> {
        match op {
            Operation::AddUser { user_id, user_name } => match self.add_user_result(
                user_id,
                user_name,
            ) {
                Ok(u) => Ok(ReplyView::User(u)),
                Err(e) => Err(e),
            },
            Operation::AddTask { user_id, task_name } => match self.add_task_result(
                user_id,
                task_name,
            ) {
                Ok(t) => Ok(ReplyView::Task(t)),
                Err(e) => Err(e),
            },
            Operation::TaskDone { user_id, task_id } => match self.task_done_result(
                user_id,
                task_id,
            ) {
                Ok(_) => Ok(ReplyView::Done),
                Err(e) => Err(e),
            },
            Operation::DeleteTask { user_id, task_id } => match self.delete_task_result(
                user_id,
                task_id,
            ) {
                Ok(_) => Ok(ReplyView::Done),
                Err(e) => Err(e),
            },
        }
    }
}

/// A user without tasks counts nothing.
pub proof fn lemma_count_none(tasks: Seq<TaskView>, user_id: Seq<char>, status: TaskStatus)
    requires
        forall|i: int| 0 <= i < tasks.len() ==> (#[trigger] tasks[i]).user_id != user_id,
    ensures
        count_tasks(tasks, user_id, status) == 0,
    decreases tasks.len(),
{
    if tasks.len() == 0 {
        assert(tasks =~= Seq::<TaskView>::empty());
        lemma_count_empty(user_id, status);
    } else {
        let front = tasks.drop_last();
        assert forall|i: int| 0 <= i < front.len() implies (#[trigger] front[i]).user_id
            != user_id by {
            assert(front[i] == tasks[i]);
        }
        lemma_count_none(front, user_id, status);
        assert(tasks =~= front.push(tasks.last()));
        lemma_count_push(front, tasks.last(), user_id, status);
    }
}

/// In a well-formed state no counter has reached the number of ids, so each
/// can still go up by one.
pub proof fn lemma_counters_bounded(s: StateView, user_id: Seq<char>)
    requires
        s.wf(),
        has_user(s.users, user_id),
    ensures
        s.user(user_id).unwrap().pending_count < s.next_task_id <= i32::MAX,
        s.user(user_id).unwrap().done_count < s.next_task_id <= i32::MAX,
        s.user(user_id).unwrap().user_id == user_id,
        s.user(user_id).unwrap().pending_count == count_tasks(
            s.tasks,
            user_id,
            TaskStatus::Pending,
        ),
        s.user(user_id).unwrap().done_count == count_tasks(s.tasks, user_id, TaskStatus::Done),
{
    let i = user_pos(s.users, user_id);
    assert(s.users[i].user_id == user_id);
    lemma_count_le_len(s.tasks, user_id, TaskStatus::Pending);
    lemma_count_le_len(s.tasks, user_id, TaskStatus::Done);
}

/// Registering a user keeps the state well-formed.
pub proof fn lemma_add_user_wf(s: StateView, user_id: Seq<char>, user_name: Seq<char>)
    requires
        s.wf(),
    ensures
        s.after_add_user(user_id, user_name).wf(),
{
    let after = s.after_add_user(user_id, user_name);
    if !has_user(s.users, user_id) {
        let fresh = new_user(user_id, user_name);
        assert forall|i: int, j: int| 0 <= i < j < after.users.len() implies (
        #[trigger] after.users[i]).user_id != (#[trigger] after.users[j]).user_id by {
            if j < s.users.len() {
                assert(s.users[i].user_id != s.users[j].user_id);
            } else {
                assert(s.users[i].user_id != user_id);
            }
        }
        assert forall|i: int| 0 <= i < after.tasks.len() implies has_user(
            after.users,
            (#[trigger] after.tasks[i]).user_id,
        ) by {
            let owner = s.tasks[i].user_id;
            assert(has_user(s.users, owner));
            let k = user_pos(s.users, owner);
            assert(after.users[k].user_id == owner);
        }
        assert forall|i: int| 0 <= i < s.tasks.len() implies (#[trigger] s.tasks[i]).user_id
            != user_id by {
            assert(has_user(s.users, s.tasks[i].user_id));
        }
        lemma_count_none(s.tasks, user_id, TaskStatus::Pending);
        lemma_count_none(s.tasks, user_id, TaskStatus::Done);
        assert forall|i: int| 0 <= i < after.users.len() implies {
            let u = #[trigger] after.users[i];
            &&& u.pending_count == count_tasks(after.tasks, u.user_id, TaskStatus::Pending)
            &&& u.done_count == count_tasks(after.tasks, u.user_id, TaskStatus::Done)
        } by {
            if i < s.users.len() {
                assert(after.users[i] == s.users[i]);
            } else {
                assert(after.users[i] == fresh);
            }
        }
    }
}

/// Adding a task keeps the state well-formed.
pub proof fn lemma_add_task_wf(s: StateView, user_id: Seq<char>, task_name: Seq<char>)
    requires
        s.wf(),
    ensures
        s.after_add_task(user_id, task_name).wf(),
{
    let after = s.after_add_task(user_id, task_name);
    if s.add_task_result(user_id, task_name) is Ok {
        let w = add_task_plan(s.user(user_id)).unwrap();
        let p = user_pos(s.users, user_id);
        let fresh = new_task(s.next_task_id, user_id, task_name);
        lemma_counters_bounded(s, user_id);
        lemma_with_counters(s.users, user_id, w.0, w.1);
        assert(s.users[p].user_id == user_id);
        assert forall|i: int, j: int| 0 <= i < j < after.tasks.len() implies (
        #[trigger] after.tasks[i]).task_id != (#[trigger] after.tasks[j]).task_id by {
            if j < s.tasks.len() {
                assert(s.tasks[i].task_id != s.tasks[j].task_id);
            } else {
                assert(1 <= s.tasks[i].task_id < s.next_task_id);
            }
        }
        assert forall|i: int| 0 <= i < after.tasks.len() implies 1 <= (
        #[trigger] after.tasks[i]).task_id < after.next_task_id by {
            if i < s.tasks.len() {
                assert(1 <= s.tasks[i].task_id < s.next_task_id);
            }
        }
        assert forall|i: int| 0 <= i < after.tasks.len() implies has_user(
            after.users,
            (#[trigger] after.tasks[i]).user_id,
        ) by {
            if i < s.tasks.len() {
                assert(has_user(s.users, s.tasks[i].user_id));
            }
        }
        assert forall|i: int| 0 <= i < after.users.len() implies {
            let u = #[trigger] after.users[i];
            &&& u.pending_count == count_tasks(after.tasks, u.user_id, TaskStatus::Pending)
            &&& u.done_count == count_tasks(after.tasks, u.user_id, TaskStatus::Done)
        } by {
            let id = s.users[i].user_id;
            assert(after.users[i].user_id == id);
            lemma_count_push(s.tasks, fresh, id, TaskStatus::Pending);
            lemma_count_push(s.tasks, fresh, id, TaskStatus::Done);
            if i == p {
            } else {
                assert(after.users[i] == s.users[i]);
                if i < p {
                    assert(s.users[i].user_id != s.users[p].user_id);
                } else {
                    assert(s.users[p].user_id != s.users[i].user_id);
                }
            }
        }
    }
}

/// Finishing a task keeps the state well-formed.
pub proof fn lemma_task_done_wf(s: StateView, user_id: Seq<char>, task_id: int)
    requires
        s.wf(),
    ensures
        s.after_task_done(user_id, task_id).wf(),
{
    let after = s.after_task_done(user_id, task_id);
    let plan = complete_task_plan(s.user(user_id), s.task(task_id, user_id));
    if plan is Ok && plan.unwrap() is Some {
        let w = plan.unwrap().unwrap();
        let p = user_pos(s.users, user_id);
        let q = task_pos(s.tasks, task_id, user_id);
        let old_row = s.tasks[q];
        let new_row = restatus(old_row, TaskStatus::Done);
        lemma_counters_bounded(s, user_id);
        lemma_with_counters(s.users, user_id, w.0, w.1);
        lemma_with_status(s.tasks, task_id, user_id, TaskStatus::Done, s.next_task_id);
        assert(s.users[p].user_id == user_id);
        assert(old_row.user_id == user_id && old_row.status == TaskStatus::Pending);
        assert forall|i: int| 0 <= i < after.tasks.len() implies has_user(
            after.users,
            (#[trigger] after.tasks[i]).user_id,
        ) by {
            assert(has_user(s.users, s.tasks[i].user_id));
        }
        assert forall|i: int| 0 <= i < after.users.len() implies {
            let u = #[trigger] after.users[i];
            &&& u.pending_count == count_tasks(after.tasks, u.user_id, TaskStatus::Pending)
            &&& u.done_count == count_tasks(after.tasks, u.user_id, TaskStatus::Done)
        } by {
            let id = s.users[i].user_id;
            assert(after.users[i].user_id == id);
            lemma_count_update(s.tasks, q, new_row, id, TaskStatus::Pending);
            lemma_count_update(s.tasks, q, new_row, id, TaskStatus::Done);
            if i == p {
            } else {
                assert(after.users[i] == s.users[i]);
                if i < p {
                    assert(s.users[i].user_id != s.users[p].user_id);
                } else {
                    assert(s.users[p].user_id != s.users[i].user_id);
                }
            }
        }
    }
}

/// Deleting a task keeps the state well-formed.
pub proof fn lemma_delete_task_wf(s: StateView, user_id: Seq<char>, task_id: int)
    requires
        s.wf(),
    ensures
        s.after_delete_task(user_id, task_id).wf(),
{
    let after = s.after_delete_task(user_id, task_id);
    let plan = delete_task_plan(s.user(user_id), s.task(task_id, user_id));
    if plan is Ok {
        let w = plan.unwrap();
        let p = user_pos(s.users, user_id);
        let q = task_pos(s.tasks, task_id, user_id);
        let old_row = s.tasks[q];
        lemma_counters_bounded(s, user_id);
        lemma_with_counters(s.users, user_id, w.0, w.1);
        lemma_without_task(s.tasks, task_id, user_id, s.next_task_id);
        assert(s.users[p].user_id == user_id);
        assert(old_row.user_id == user_id);
        assert forall|i: int| 0 <= i < after.tasks.len() implies has_user(
            after.users,
            (#[trigger] after.tasks[i]).user_id,
        ) by {
            let i0 = if i < q {
                i
            } else {
                i + 1
            };
            assert(after.tasks[i] == s.tasks[i0]);
            assert(has_user(s.users, s.tasks[i0].user_id));
        }
        assert forall|i: int| 0 <= i < after.users.len() implies {
            let u = #[trigger] after.users[i];
            &&& u.pending_count == count_tasks(after.tasks, u.user_id, TaskStatus::Pending)
            &&& u.done_count == count_tasks(after.tasks, u.user_id, TaskStatus::Done)
        } by {
            let id = s.users[i].user_id;
            assert(after.users[i].user_id == id);
            lemma_count_remove(s.tasks, q, id, TaskStatus::Pending);
            lemma_count_remove(s.tasks, q, id, TaskStatus::Done);
            if i == p {
            } else {
                assert(after.users[i] == s.users[i]);
                if i < p {
                    assert(s.users[i].user_id != s.users[p].user_id);
                } else {
                    assert(s.users[p].user_id != s.users[i].user_id);
                }
            }
        }
    }
}

} // verus!

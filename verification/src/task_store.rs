//! The task table: rows keyed by a generated task id, in the order in which
//! they were created. Every lookup is by task id and user id together, so a
//! task of another user is as good as absent. It knows nothing of user rows.

use vstd::prelude::*;
use crate::model::{EngineError, Task, TaskStatus, TaskView};
use crate::tally::{lemma_filter_push, owned_by, owner_is};

verus! {

/// The views of a run of task rows.
pub open spec fn task_views(rows: Seq<Task>) -> Seq<TaskView> {
    rows.map_values(|t: Task| t@)
}

/// Whether `t` is the task `task_id` of `user_id`.
pub open spec fn is_task(t: TaskView, task_id: int, user_id: Seq<char>) -> bool {
    t.task_id == task_id && t.user_id == user_id
}

/// Whether `user_id` has a task `task_id`.
pub open spec fn has_task(tasks: Seq<TaskView>, task_id: int, user_id: Seq<char>) -> bool {
    exists|i: int| 0 <= i < tasks.len() && is_task(#[trigger] tasks[i], task_id, user_id)
}

/// The place of the task `task_id` of `user_id`, where there is one.
pub open spec fn task_pos(tasks: Seq<TaskView>, task_id: int, user_id: Seq<char>) -> int {
    choose|i: int| 0 <= i < tasks.len() && is_task(#[trigger] tasks[i], task_id, user_id)
}

/// The task `task_id` of `user_id`, if there is one.
pub open spec fn find_task(tasks: Seq<TaskView>, task_id: int, user_id: Seq<char>) -> Option<
    TaskView,
> {
    if has_task(tasks, task_id, user_id) {
        Some(tasks[task_pos(tasks, task_id, user_id)])
    } else {
        None
    }
}

/// No two rows share a task id.
pub open spec fn distinct_tasks(tasks: Seq<TaskView>) -> bool {
    forall|i: int, j: int|
        0 <= i < j < tasks.len() ==> (#[trigger] tasks[i]).task_id != (#[trigger] tasks[j]).task_id
}

/// Every row's id is one that was handed out: at least 1 and below `next_id`.
pub open spec fn ids_below(tasks: Seq<TaskView>, next_id: int) -> bool {
    forall|i: int| 0 <= i < tasks.len() ==> 1 <= (#[trigger] tasks[i]).task_id < next_id
}

/// A fresh row: pending.
pub open spec fn new_task(task_id: int, user_id: Seq<char>, task_name: Seq<char>) -> TaskView {
    TaskView { task_id, task_name, status: TaskStatus::Pending, user_id }
}

/// The row `t` with another status.
pub open spec fn restatus(t: TaskView, status: TaskStatus) -> TaskView {
    TaskView { task_id: t.task_id, task_name: t.task_name, status, user_id: t.user_id }
}

/// The rows after the status of the task `task_id` of `user_id` was set;
/// unchanged where there is no such task.
pub open spec fn with_status(
    tasks: Seq<TaskView>,
    task_id: int,
    user_id: Seq<char>,
    status: TaskStatus,
) -> Seq<TaskView> {
    if has_task(tasks, task_id, user_id) {
        let i = task_pos(tasks, task_id, user_id);
        tasks.update(i, restatus(tasks[i], status))
    } else {
        tasks
    }
}

/// The rows after the task `task_id` of `user_id` was removed; unchanged
/// where there is no such task.
pub open spec fn without_task(tasks: Seq<TaskView>, task_id: int, user_id: Seq<char>) -> Seq<
    TaskView,
> {
    if has_task(tasks, task_id, user_id) {
        tasks.remove(task_pos(tasks, task_id, user_id))
    } else {
        tasks
    }
}

/// What the task table holds: its rows and the id that the next row gets.
pub struct TaskTable {
    pub rows: Seq<TaskView>,
    pub next_id: int,
}

impl TaskTable {
    /// The table's invariant: task ids are a primary key, every id was handed
    /// out by the table, and the table holds fewer rows than the next id.
    pub open spec fn wf(self) -> bool {
        &&& 1 <= self.next_id <= i32::MAX
        &&& self.rows.len() < self.next_id
        &&& distinct_tasks(self.rows)
        &&& ids_below(self.rows, self.next_id)
    }

    /// Whether the table can hand out another id.
    pub open spec fn has_room(self) -> bool {
        self.next_id < i32::MAX
    }
}

/// In a table without repeated ids, a row that is the task `task_id` of
/// `user_id` is the row that `task_pos` names.
pub proof fn lemma_task_pos(tasks: Seq<TaskView>, task_id: int, user_id: Seq<char>, i: int)
    requires
        distinct_tasks(tasks),
        0 <= i < tasks.len(),
        is_task(tasks[i], task_id, user_id),
    ensures
        has_task(tasks, task_id, user_id),
        task_pos(tasks, task_id, user_id) == i,
        find_task(tasks, task_id, user_id) == Some(tasks[i]),
{
    let j = task_pos(tasks, task_id, user_id);
    assert(0 <= j < tasks.len() && is_task(tasks[j], task_id, user_id));
    if j < i {
        assert(tasks[j].task_id != tasks[i].task_id);
    } else if i < j {
        assert(tasks[i].task_id != tasks[j].task_id);
    }
}

/// Setting a status keeps the ids, the owners and their order.
pub proof fn lemma_with_status(
    tasks: Seq<TaskView>,
    task_id: int,
    user_id: Seq<char>,
    status: TaskStatus,
    next_id: int,
)
    requires
        distinct_tasks(tasks),
        ids_below(tasks, next_id),
    ensures
        with_status(tasks, task_id, user_id, status).len() == tasks.len(),
        distinct_tasks(with_status(tasks, task_id, user_id, status)),
        ids_below(with_status(tasks, task_id, user_id, status), next_id),
        forall|k: int|
            0 <= k < tasks.len() ==> (#[trigger] with_status(
                tasks,
                task_id,
                user_id,
                status,
            )[k]).user_id == tasks[k].user_id,
{
    let after = with_status(tasks, task_id, user_id, status);
    assert forall|k: int| 0 <= k < tasks.len() implies (#[trigger] after[k]).task_id
        == tasks[k].task_id && after[k].user_id == tasks[k].user_id by {}
    assert forall|i: int, j: int| 0 <= i < j < after.len() implies (#[trigger] after[i]).task_id
        != (#[trigger] after[j]).task_id by {
        assert(tasks[i].task_id != tasks[j].task_id);
    }
    assert forall|i: int| 0 <= i < after.len() implies 1 <= (#[trigger] after[i]).task_id
        < next_id by {
        assert(1 <= tasks[i].task_id < next_id);
    }
}

/// Removing a task keeps the other rows distinct and in range, and leaves no
/// task with the removed id.
pub proof fn lemma_without_task(
    tasks: Seq<TaskView>,
    task_id: int,
    user_id: Seq<char>,
    next_id: int,
)
    requires
        distinct_tasks(tasks),
        ids_below(tasks, next_id),
    ensures
        distinct_tasks(without_task(tasks, task_id, user_id)),
        ids_below(without_task(tasks, task_id, user_id), next_id),
        !has_task(without_task(tasks, task_id, user_id), task_id, user_id),
        has_task(tasks, task_id, user_id) ==> without_task(tasks, task_id, user_id).len() + 1
            == tasks.len(),
{
    let after = without_task(tasks, task_id, user_id);
    if has_task(tasks, task_id, user_id) {
        let p = task_pos(tasks, task_id, user_id);
        assert forall|i: int, j: int| 0 <= i < j < after.len() implies (#[trigger] after[i]).task_id
            != (#[trigger] after[j]).task_id by {
            let i0 = if i < p {
                i
            } else {
                i + 1
            };
            let j0 = if j < p {
                j
            } else {
                j + 1
            };
            assert(after[i] == tasks[i0] && after[j] == tasks[j0]);
            assert(tasks[i0].task_id != tasks[j0].task_id);
        }
        assert forall|i: int| 0 <= i < after.len() implies 1 <= (#[trigger] after[i]).task_id
            < next_id by {
            let i0 = if i < p {
                i
            } else {
                i + 1
            };
            assert(after[i] == tasks[i0]);
            assert(1 <= tasks[i0].task_id < next_id);
        }
        if has_task(after, task_id, user_id) {
            let k = task_pos(after, task_id, user_id);
            let k0 = if k < p {
                k
            } else {
                k + 1
            };
            assert(after[k] == tasks[k0]);
            if k0 < p {
                assert(tasks[k0].task_id != tasks[p].task_id);
            } else {
                assert(tasks[p].task_id != tasks[k0].task_id);
            }
        }
    }
}

/// The task table.
pub struct TaskStore {
    rows: Vec<Task>,
    next_id: i32,
}

impl View for TaskStore {
    type V = TaskTable;

    closed spec fn view(&self) -> TaskTable {
        TaskTable { rows: task_views(self.rows@), next_id: self.next_id as int }
    }
}

impl TaskStore {
    /// The invariant of the table that this store holds.
    pub open spec fn wf(&self) -> bool {
        self@.wf()
    }

    /// An empty table whose first task gets the id 1.
    pub fn new() -> (store: TaskStore)
        ensures
            store.wf(),
            store@ == (TaskTable { rows: Seq::<TaskView>::empty(), next_id: 1 }),
    {
        let store = TaskStore { rows: Vec::new(), next_id: 1 };
        assert(store@.rows =~= Seq::<TaskView>::empty());
        store
    }

    fn position(&self, task_id: i32, user_id: &String) -> (found: Option<usize>)
        ensures
            match found {
                Some(i) => i < self.rows.len() && is_task(
                    self@.rows[i as int],
                    task_id as int,
                    user_id@,
                ),
                None => !has_task(self@.rows, task_id as int, user_id@),
            },
    {
        let mut i: usize = 0;
        while i < self.rows.len()
            invariant
                i <= self.rows.len(),
                forall|k: int| 0 <= k < i ==> !is_task(#[trigger] self@.rows[k], task_id as int, user_id@),
            decreases self.rows.len() - i,
        {
            if self.rows[i].task_id == task_id && self.rows[i].user_id == *user_id {
                return Some(i);
            }
            i += 1;
        }
        None
    }

    /// Adds a pending task for `user_id` under the next id and returns it, or
    /// returns `StorageUnavailable` and changes nothing where the ids have run
    /// out.
    pub fn create_task(&mut self, user_id: &String, task_name: &String) -> (created: Result<
        Task,
        EngineError,
    >)
        requires
            old(self).wf(),
        ensures
            final(self).wf(),
            match created {
                Ok(task) => {
                    &&& old(self)@.has_room()
                    &&& task@ == new_task(old(self)@.next_id, user_id@, task_name@)
                    &&& final(self)@.rows == old(self)@.rows.push(task@)
                    &&& final(self)@.next_id == old(self)@.next_id + 1
                },
                Err(e) => {
                    &&& !old(self)@.has_room()
                    &&& e == EngineError::StorageUnavailable
                    &&& final(self)@ == old(self)@
                },
            },
    {
        if self.next_id == i32::MAX {
            return Err(EngineError::StorageUnavailable);
        }
        let row = Task {
            task_id: self.next_id,
            task_name: task_name.clone(),
            status: TaskStatus::Pending,
            user_id: user_id.clone(),
        };
        let created = row.clone();
        self.rows.push(row);
        self.next_id = self.next_id + 1;
        proof {
            let before = old(self)@.rows;
            let after = self@.rows;
            assert(after =~= before.push(created@));
            assert forall|i: int, j: int| 0 <= i < j < after.len() implies (#[trigger] after[i]).task_id
                != (#[trigger] after[j]).task_id by {
                if j < before.len() {
                    assert(before[i].task_id != before[j].task_id);
                } else {
                    assert(1 <= before[i].task_id < old(self)@.next_id);
                }
            }
            assert forall|i: int| 0 <= i < after.len() implies 1 <= (#[trigger] after[i]).task_id
                < self@.next_id by {
                if i < before.len() {
                    assert(1 <= before[i].task_id < old(self)@.next_id);
                }
            }
        }
        Ok(created)
    }

    /// The task `task_id` of `user_id`, if there is one.
    pub fn get_task(&self, task_id: i32, user_id: &String) -> (found: Option<Task>)
        requires
            self.wf(),
        ensures
            match found {
                Some(task) => find_task(self@.rows, task_id as int, user_id@) == Some(task@),
                None => find_task(self@.rows, task_id as int, user_id@).is_none(),
            },
    {
        match self.position(task_id, user_id) {
            Some(i) => {
                proof {
                    lemma_task_pos(self@.rows, task_id as int, user_id@, i as int);
                }
                Some(self.rows[i].clone())
            },
            None => None,
        }
    }

    /// Sets the status of the task `task_id` of `user_id` and returns the
    /// number of rows that were written: one, or zero where there is no such
    /// task.
    pub fn set_status(&mut self, task_id: i32, user_id: &String, status: TaskStatus) -> (written:
        u64)
        requires
            old(self).wf(),
        ensures
            final(self).wf(),
            final(self)@.rows == with_status(old(self)@.rows, task_id as int, user_id@, status),
            final(self)@.next_id == old(self)@.next_id,
            written == if has_task(old(self)@.rows, task_id as int, user_id@) {
                1u64
            } else {
                0u64
            },
    {
        proof {
            lemma_with_status(self@.rows, task_id as int, user_id@, status, self@.next_id);
        }
        match self.position(task_id, user_id) {
            Some(i) => {
                proof {
                    lemma_task_pos(self@.rows, task_id as int, user_id@, i as int);
                }
                let row = Task {
                    task_id: self.rows[i].task_id,
                    task_name: self.rows[i].task_name.clone(),
                    status,
                    user_id: self.rows[i].user_id.clone(),
                };
                self.rows.set(i, row);
                assert(self@.rows =~= with_status(
                    old(self)@.rows,
                    task_id as int,
                    user_id@,
                    status,
                ));
                1
            },
            None => 0,
        }
    }

    /// Removes the task `task_id` of `user_id` and returns the number of rows
    /// that were removed: one, or zero where there is no such task.
    pub fn delete_task(&mut self, task_id: i32, user_id: &String) -> (removed: u64)
        requires
            old(self).wf(),
        ensures
            final(self).wf(),
            final(self)@.rows == without_task(old(self)@.rows, task_id as int, user_id@),
            final(self)@.next_id == old(self)@.next_id,
            removed == if has_task(old(self)@.rows, task_id as int, user_id@) {
                1u64
            } else {
                0u64
            },
    {
        proof {
            lemma_without_task(self@.rows, task_id as int, user_id@, self@.next_id);
        }
        match self.position(task_id, user_id) {
            Some(i) => {
                proof {
                    lemma_task_pos(self@.rows, task_id as int, user_id@, i as int);
                }
                let _ = self.rows.remove(i);
                assert(self@.rows =~= without_task(old(self)@.rows, task_id as int, user_id@));
                1
            },
            None => 0,
        }
    }

    /// The tasks of `user_id`, in the order of creation.
    pub fn list_by_user(&self, user_id: &String) -> (tasks: Vec<Task>)
        ensures
            task_views(tasks@) == owned_by(self@.rows, user_id@),
    {
        let mut tasks: Vec<Task> = Vec::new();
        let mut i: usize = 0;
        proof {
            assert(self@.rows.subrange(0, 0) =~= Seq::<TaskView>::empty());
            reveal(Seq::filter);
            assert(task_views(tasks@) =~= owned_by(self@.rows.subrange(0, 0), user_id@));
        }
        while i < self.rows.len()
            invariant
                i <= self.rows.len(),
                task_views(tasks@) == owned_by(self@.rows.subrange(0, i as int), user_id@),
            decreases self.rows.len() - i,
        {
            let ghost before = task_views(tasks@);
            proof {
                let front = self@.rows.subrange(0, i as int);
                assert(self@.rows.subrange(0, i + 1) =~= front.push(self@.rows[i as int]));
                lemma_filter_push(front, self@.rows[i as int], owner_is(user_id@));
            }
            if self.rows[i].user_id == *user_id {
                let copy = self.rows[i].clone();
                tasks.push(copy);
                assert(task_views(tasks@) =~= before.push(self@.rows[i as int]));
            }
            i += 1;
        }
        assert(self@.rows.subrange(0, i as int) =~= self@.rows);
        tasks
    }

    /// Every task, in the order of creation.
    pub fn list_all(&self) -> (tasks: Vec<Task>)
        ensures
            task_views(tasks@) == self@.rows,
    {
        let mut tasks: Vec<Task> = Vec::new();
        let mut i: usize = 0;
        while i < self.rows.len()
            invariant
                i <= self.rows.len(),
                task_views(tasks@) == self@.rows.subrange(0, i as int),
            decreases self.rows.len() - i,
        {
            let ghost before = task_views(tasks@);
            let copy = self.rows[i].clone();
            tasks.push(copy);
            assert(task_views(tasks@) =~= before.push(self@.rows[i as int]));
            assert(before.push(self@.rows[i as int]) =~= self@.rows.subrange(0, i + 1));
            i += 1;
        }
        assert(self@.rows.subrange(0, i as int) =~= self@.rows);
        tasks
    }
}

} // verus!

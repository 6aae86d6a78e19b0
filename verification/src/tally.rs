//! Counting the task rows of one user by status, and how the count moves when
//! a row is added, changed or removed.

use vstd::prelude::*;
use crate::model::{TaskStatus, TaskView};

verus! {

/// Whether `t` belongs to `user_id` and has the given status.
pub open spec fn is_counted(t: TaskView, user_id: Seq<char>, status: TaskStatus) -> bool {
    t.user_id == user_id && t.status == status
}

/// `is_counted` as a predicate on rows.
pub open spec fn counted(user_id: Seq<char>, status: TaskStatus) -> spec_fn(TaskView) -> bool {
    |t: TaskView| is_counted(t, user_id, status)
}

/// The number of rows of `user_id` with the given status.
pub open spec fn count_tasks(tasks: Seq<TaskView>, user_id: Seq<char>, status: TaskStatus) -> nat {
    tasks.filter(counted(user_id, status)).len()
}

/// What the single row `t` adds to the count: one or nothing.
pub open spec fn tally(t: TaskView, user_id: Seq<char>, status: TaskStatus) -> nat {
    if is_counted(t, user_id, status) {
        1
    } else {
        0
    }
}

/// The predicate that holds of the rows of `user_id`.
pub open spec fn owner_is(user_id: Seq<char>) -> spec_fn(TaskView) -> bool {
    |t: TaskView| t.user_id == user_id
}

/// The rows of `user_id`, in table order.
pub open spec fn owned_by(tasks: Seq<TaskView>, user_id: Seq<char>) -> Seq<TaskView> {
    tasks.filter(owner_is(user_id))
}

/// Filtering a sequence that ends in `x` filters the front and then decides
/// on `x`.
pub proof fn lemma_filter_push<A>(s: Seq<A>, x: A, pred: spec_fn(A) -> bool)
    ensures
        s.push(x).filter(pred) == if pred(x) {
            s.filter(pred).push(x)
        } else {
            s.filter(pred)
        },
{
    reveal(Seq::filter);
    assert(s.push(x).drop_last() =~= s);
}

/// An empty table counts nothing.
pub proof fn lemma_count_empty(user_id: Seq<char>, status: TaskStatus)
    ensures
        count_tasks(Seq::<TaskView>::empty(), user_id, status) == 0,
{
    reveal(Seq::filter);
}

/// The count is never more than the number of rows.
pub proof fn lemma_count_le_len(tasks: Seq<TaskView>, user_id: Seq<char>, status: TaskStatus)
    ensures
        count_tasks(tasks, user_id, status) <= tasks.len(),
{
    tasks.lemma_filter_len(counted(user_id, status));
}

/// A row appended at the end adds its tally.
pub proof fn lemma_count_push(
    tasks: Seq<TaskView>,
    t: TaskView,
    user_id: Seq<char>,
    status: TaskStatus,
)
    ensures
        count_tasks(tasks.push(t), user_id, status) == count_tasks(tasks, user_id, status) + tally(
            t,
            user_id,
            status,
        ),
{
    lemma_filter_push(tasks, t, counted(user_id, status));
}

/// The count of two runs of rows laid end to end is the sum of their counts.
pub proof fn lemma_count_concat(
    a: Seq<TaskView>,
    b: Seq<TaskView>,
    user_id: Seq<char>,
    status: TaskStatus,
)
    ensures
        count_tasks(a + b, user_id, status) == count_tasks(a, user_id, status) + count_tasks(
            b,
            user_id,
            status,
        ),
{
    Seq::filter_distributes_over_add(a, b, counted(user_id, status));
}

/// The count splits at any row into what stands before it, the row's own
/// tally, and what stands behind it.
pub proof fn lemma_count_split(
    tasks: Seq<TaskView>,
    i: int,
    user_id: Seq<char>,
    status: TaskStatus,
)
    requires
        0 <= i < tasks.len(),
    ensures
        count_tasks(tasks, user_id, status) == count_tasks(tasks.subrange(0, i), user_id, status)
            + tally(tasks[i], user_id, status) + count_tasks(
            tasks.subrange(i + 1, tasks.len() as int),
            user_id,
            status,
        ),
{
    let front = tasks.subrange(0, i);
    let back = tasks.subrange(i + 1, tasks.len() as int);
    assert(tasks =~= front.push(tasks[i]) + back);
    lemma_count_concat(front.push(tasks[i]), back, user_id, status);
    lemma_count_push(front, tasks[i], user_id, status);
}

/// Removing a row takes its tally from the count.
pub proof fn lemma_count_remove(
    tasks: Seq<TaskView>,
    i: int,
    user_id: Seq<char>,
    status: TaskStatus,
)
    requires
        0 <= i < tasks.len(),
    ensures
        count_tasks(tasks.remove(i), user_id, status) + tally(tasks[i], user_id, status)
            == count_tasks(tasks, user_id, status),
{
    let front = tasks.subrange(0, i);
    let back = tasks.subrange(i + 1, tasks.len() as int);
    lemma_count_split(tasks, i, user_id, status);
    assert(tasks.remove(i) =~= front + back);
    lemma_count_concat(front, back, user_id, status);
}

/// Replacing a row exchanges its tally for that of the new row.
pub proof fn lemma_count_update(
    tasks: Seq<TaskView>,
    i: int,
    t: TaskView,
    user_id: Seq<char>,
    status: TaskStatus,
)
    requires
        0 <= i < tasks.len(),
    ensures
        count_tasks(tasks.update(i, t), user_id, status) + tally(tasks[i], user_id, status)
            == count_tasks(tasks, user_id, status) + tally(t, user_id, status),
{
    let after = tasks.update(i, t);
    lemma_count_split(tasks, i, user_id, status);
    lemma_count_split(after, i, user_id, status);
    assert(after.subrange(0, i) =~= tasks.subrange(0, i));
    assert(after.subrange(i + 1, after.len() as int) =~= tasks.subrange(
        i + 1,
        tasks.len() as int,
    ));
}

} // verus!

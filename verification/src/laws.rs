//! What holds of the operations taken together.
//!
//! Each operation is atomic, so whatever runs concurrently is some sequence
//! of whole operations. The laws here are stated over such sequences.

use vstd::prelude::*;
use crate::model::{EngineError, TaskStatus, TaskView, UserView};
use crate::plan::{complete_task_plan, delete_task_plan, deleted_counters, floor_dec};
use crate::state::{
    lemma_add_task_wf,
    lemma_add_user_wf,
    lemma_counters_bounded,
    lemma_delete_task_wf,
    lemma_task_done_wf,
    Operation,
    StateView,
};
use crate::tally::{count_tasks, lemma_count_split, lemma_filter_push, owned_by, owner_is, tally};
use crate::task_store::{
    has_task,
    lemma_task_pos,
    lemma_with_status,
    lemma_without_task,
    new_task,
    restatus,
    task_pos,
};
use crate::user_store::{
    has_user,
    lemma_user_pos,
    lemma_with_counters,
    new_user,
    recount,
    user_pos,
};

verus! {

/// The state after a sequence of operations, first to last.
pub open spec fn run(s: StateView, ops: Seq<Operation>) -> StateView
    decreases ops.len(),
{
    if ops.len() == 0 {
        s
    } else {
        run(s, ops.drop_last()).apply(ops.last())
    }
}

/// One `AddTask` for `user_id` per name, in the order of the names.
pub open spec fn add_tasks(user_id: Seq<char>, task_names: Seq<Seq<char>>) -> Seq<Operation> {
    Seq::new(
        task_names.len(),
        |i: int| Operation::AddTask { user_id, task_name: task_names[i] },
    )
}

/// One operation keeps a well-formed state well-formed, whether it succeeds
/// or fails.
pub proof fn law_step_keeps_invariant(s: StateView, op: Operation)
    requires
        s.wf(),
    ensures
        s.apply(op).wf(),
{
    match op {
        Operation::AddUser { user_id, user_name } => lemma_add_user_wf(s, user_id, user_name),
        Operation::AddTask { user_id, task_name } => lemma_add_task_wf(s, user_id, task_name),
        Operation::TaskDone { user_id, task_id } => lemma_task_done_wf(s, user_id, task_id),
        Operation::DeleteTask { user_id, task_id } => lemma_delete_task_wf(s, user_id, task_id),
    }
}

/// After any sequence of operations on a well-formed state, every user's
/// pending counter is the number of that user's pending tasks and the done
/// counter the number of that user's done tasks.
pub proof fn law_counters_match_rows(s: StateView, ops: Seq<Operation>, user_id: Seq<char>)
    requires
        s.wf(),
    ensures
        run(s, ops).wf(),
        has_user(run(s, ops).users, user_id) ==> {
            let u = run(s, ops).user(user_id).unwrap();
            &&& u.pending_count == count_tasks(run(s, ops).tasks, user_id, TaskStatus::Pending)
            &&& u.done_count == count_tasks(run(s, ops).tasks, user_id, TaskStatus::Done)
        },
    decreases ops.len(),
{
    if ops.len() > 0 {
        law_counters_match_rows(s, ops.drop_last(), user_id);
        law_step_keeps_invariant(run(s, ops.drop_last()), ops.last());
    }
    if has_user(run(s, ops).users, user_id) {
        lemma_counters_bounded(run(s, ops), user_id);
    }
}

/// The same holds of every state that can be reached from the empty one.
pub proof fn law_reachable_states_are_consistent(ops: Seq<Operation>)
    ensures
        run(StateView::empty(), ops).wf(),
{
    let none: Seq<char> = Seq::empty();
    law_counters_match_rows(StateView::empty(), ops, none);
}

/// After a registration the user is found with both counters at zero, and
/// no task row has changed.
pub proof fn law_add_user_effect(s: StateView, user_id: Seq<char>, user_name: Seq<char>)
    requires
        s.wf(),
        !has_user(s.users, user_id),
    ensures
        s.add_user_result(user_id, user_name) == Ok::<UserView, EngineError>(
            new_user(user_id, user_name),
        ),
        s.after_add_user(user_id, user_name).user(user_id) == Some(new_user(user_id, user_name)),
        s.after_add_user(user_id, user_name).tasks == s.tasks,
{
    let after = s.after_add_user(user_id, user_name);
    lemma_add_user_wf(s, user_id, user_name);
    lemma_user_pos(after.users, user_id, s.users.len() as int);
}

/// After a task was added for a registered user, the user is found with the
/// pending counter one higher, the task is found as pending under the id that
/// was next, and it stands last among the user's tasks.
pub proof fn law_add_task_effect(s: StateView, user_id: Seq<char>, task_name: Seq<char>)
    requires
        s.wf(),
        has_user(s.users, user_id),
        s.next_task_id < i32::MAX,
    ensures
        s.add_task_result(user_id, task_name) == Ok::<TaskView, EngineError>(
            new_task(s.next_task_id, user_id, task_name),
        ),
        s.after_add_task(user_id, task_name).user(user_id) == Some(
            recount(
                s.user(user_id).unwrap(),
                s.user(user_id).unwrap().pending_count + 1,
                s.user(user_id).unwrap().done_count,
            ),
        ),
        s.after_add_task(user_id, task_name).task(s.next_task_id, user_id) == Some(
            new_task(s.next_task_id, user_id, task_name),
        ),
        owned_by(s.after_add_task(user_id, task_name).tasks, user_id) == owned_by(
            s.tasks,
            user_id,
        ).push(new_task(s.next_task_id, user_id, task_name)),
{
    let after = s.after_add_task(user_id, task_name);
    let u = s.user(user_id).unwrap();
    lemma_counters_bounded(s, user_id);
    lemma_add_task_wf(s, user_id, task_name);
    lemma_with_counters(s.users, user_id, u.pending_count + 1, u.done_count);
    lemma_task_pos(after.tasks, s.next_task_id, user_id, s.tasks.len() as int);
    lemma_filter_push(s.tasks, new_task(s.next_task_id, user_id, task_name), owner_is(user_id));
}

/// After a pending task was finished, the user is found with the pending
/// counter one lower and the done counter one higher, and the task is found
/// as done.
pub proof fn law_task_done_effect(s: StateView, user_id: Seq<char>, task_id: int)
    requires
        s.wf(),
        has_user(s.users, user_id),
        has_task(s.tasks, task_id, user_id),
        s.task(task_id, user_id).unwrap().status == TaskStatus::Pending,
    ensures
        s.task_done_result(user_id, task_id) == Ok::<(), EngineError>(()),
        s.user(user_id).unwrap().pending_count >= 1,
        s.after_task_done(user_id, task_id).user(user_id) == Some(
            recount(
                s.user(user_id).unwrap(),
                (s.user(user_id).unwrap().pending_count - 1) as nat,
                s.user(user_id).unwrap().done_count + 1,
            ),
        ),
        s.after_task_done(user_id, task_id).task(task_id, user_id) == Some(
            restatus(s.task(task_id, user_id).unwrap(), TaskStatus::Done),
        ),
{
    let after = s.after_task_done(user_id, task_id);
    let u = s.user(user_id).unwrap();
    let q = task_pos(s.tasks, task_id, user_id);
    lemma_counters_bounded(s, user_id);
    law_never_clamped(s, user_id, task_id);
    lemma_with_counters(s.users, user_id, floor_dec(u.pending_count), u.done_count + 1);
    lemma_with_status(s.tasks, task_id, user_id, TaskStatus::Done, s.next_task_id);
    assert(after.tasks[q].task_id == task_id && after.tasks[q].user_id == user_id);
    lemma_task_pos(after.tasks, task_id, user_id, q);
}

/// After a task was deleted, it is found no more, and the user is found with
/// the counter that matched the task's status one lower.
pub proof fn law_delete_task_effect(s: StateView, user_id: Seq<char>, task_id: int)
    requires
        s.wf(),
        has_user(s.users, user_id),
        has_task(s.tasks, task_id, user_id),
    ensures
        s.delete_task_result(user_id, task_id) == Ok::<(), EngineError>(()),
        s.after_delete_task(user_id, task_id).task(task_id, user_id).is_none(),
        s.after_delete_task(user_id, task_id).tasks.len() + 1 == s.tasks.len(),
        s.after_delete_task(user_id, task_id).user(user_id) == Some(
            recount(
                s.user(user_id).unwrap(),
                (s.user(user_id).unwrap().pending_count - tally(
                    s.task(task_id, user_id).unwrap(),
                    user_id,
                    TaskStatus::Pending,
                )) as nat,
                (s.user(user_id).unwrap().done_count - tally(
                    s.task(task_id, user_id).unwrap(),
                    user_id,
                    TaskStatus::Done,
                )) as nat,
            ),
        ),
{
    let u = s.user(user_id).unwrap();
    let t = s.task(task_id, user_id).unwrap();
    let w = deleted_counters(u, t.status);
    lemma_counters_bounded(s, user_id);
    law_never_clamped(s, user_id, task_id);
    lemma_with_counters(s.users, user_id, w.0, w.1);
    lemma_without_task(s.tasks, task_id, user_id, s.next_task_id);
}

/// Finishing a task twice in a row leaves the state that finishing it once
/// leaves, and the second call succeeds wherever the first did.
pub proof fn law_task_done_is_idempotent(s: StateView, user_id: Seq<char>, task_id: int)
    requires
        s.wf(),
    ensures
        s.after_task_done(user_id, task_id).after_task_done(user_id, task_id) == s.after_task_done(
            user_id,
            task_id,
        ),
        s.after_task_done(user_id, task_id).task_done_result(user_id, task_id)
            == s.task_done_result(user_id, task_id),
{
    let once = s.after_task_done(user_id, task_id);
    let plan = complete_task_plan(s.user(user_id), s.task(task_id, user_id));
    if plan is Ok && plan.unwrap() is Some {
        let w = plan.unwrap().unwrap();
        let q = task_pos(s.tasks, task_id, user_id);
        lemma_with_counters(s.users, user_id, w.0, w.1);
        lemma_with_status(s.tasks, task_id, user_id, TaskStatus::Done, s.next_task_id);
        assert(once.tasks[q].task_id == task_id && once.tasks[q].user_id == user_id);
        lemma_task_pos(once.tasks, task_id, user_id, q);
        assert(once.task(task_id, user_id).unwrap().status == TaskStatus::Done);
    }
}

/// In a well-formed state no operation ever has to hold a counter at zero:
/// the counter that finishing or deleting a task lowers is at least one.
pub proof fn law_never_clamped(s: StateView, user_id: Seq<char>, task_id: int)
    requires
        s.wf(),
    ensures
        match complete_task_plan(s.user(user_id), s.task(task_id, user_id)) {
            Ok(Some(w)) => !w.2,
            _ => true,
        },
        match delete_task_plan(s.user(user_id), s.task(task_id, user_id)) {
            Ok(w) => !w.2,
            Err(_) => true,
        },
{
    if has_user(s.users, user_id) && has_task(s.tasks, task_id, user_id) {
        let q = task_pos(s.tasks, task_id, user_id);
        lemma_counters_bounded(s, user_id);
        lemma_count_split(s.tasks, q, user_id, TaskStatus::Pending);
        lemma_count_split(s.tasks, q, user_id, TaskStatus::Done);
    }
}

/// Adding N tasks for one registered user, in any order, raises that user's
/// pending counter by exactly N and leaves the done counter alone, as long as
/// the ids do not run out on the way.
pub proof fn law_adds_count_once_each(s: StateView, user_id: Seq<char>, task_names: Seq<Seq<char>>)
    requires
        s.wf(),
        has_user(s.users, user_id),
        s.next_task_id + task_names.len() <= i32::MAX,
    ensures
        run(s, add_tasks(user_id, task_names)).wf(),
        has_user(run(s, add_tasks(user_id, task_names)).users, user_id),
        run(s, add_tasks(user_id, task_names)).user(user_id).unwrap().pending_count == s.user(
            user_id,
        ).unwrap().pending_count + task_names.len(),
        run(s, add_tasks(user_id, task_names)).user(user_id).unwrap().done_count == s.user(
            user_id,
        ).unwrap().done_count,
        run(s, add_tasks(user_id, task_names)).tasks.len() == s.tasks.len() + task_names.len(),
        run(s, add_tasks(user_id, task_names)).next_task_id == s.next_task_id + task_names.len(),
    decreases task_names.len(),
{
    let ops = add_tasks(user_id, task_names);
    if task_names.len() > 0 {
        let front = task_names.drop_last();
        assert(ops.drop_last() =~= add_tasks(user_id, front));
        law_adds_count_once_each(s, user_id, front);
        let mid = run(s, add_tasks(user_id, front));
        assert(ops.last() == Operation::AddTask { user_id, task_name: task_names.last() });
        assert(run(s, ops) == mid.after_add_task(user_id, task_names.last()));
        lemma_counters_bounded(mid, user_id);
        lemma_add_task_wf(mid, user_id, task_names.last());
        let u = mid.user(user_id).unwrap();
        lemma_with_counters(mid.users, user_id, u.pending_count + 1, u.done_count);
    }
}

/// A delete and a completion of the same task that race end in one state,
/// whichever goes first. If the delete goes first, the completion finds no
/// task and fails with `TaskNotFound`; if the completion goes first, the
/// delete removes the finished task. Either way the task is gone and the
/// counters have gone down by that one task and no more.
pub proof fn law_delete_and_done_commute(s: StateView, user_id: Seq<char>, task_id: int)
    requires
        s.wf(),
    ensures
        s.after_delete_task(user_id, task_id).after_task_done(user_id, task_id)
            == s.after_task_done(user_id, task_id).after_delete_task(user_id, task_id),
        s.after_delete_task(user_id, task_id).after_task_done(user_id, task_id)
            == s.after_delete_task(user_id, task_id),
        s.after_delete_task(user_id, task_id).wf(),
        !has_task(s.after_delete_task(user_id, task_id).tasks, task_id, user_id),
        has_user(s.users, user_id) ==> s.after_delete_task(user_id, task_id).task_done_result(
            user_id,
            task_id,
        ) == Err::<(), EngineError>(EngineError::TaskNotFound),
        s.after_task_done(user_id, task_id).delete_task_result(user_id, task_id)
            == s.delete_task_result(user_id, task_id),
{
    let deleted = s.after_delete_task(user_id, task_id);
    let finished = s.after_task_done(user_id, task_id);
    lemma_delete_task_wf(s, user_id, task_id);
    lemma_task_done_wf(s, user_id, task_id);
    lemma_without_task(s.tasks, task_id, user_id, s.next_task_id);
    let dplan = delete_task_plan(s.user(user_id), s.task(task_id, user_id));
    let cplan = complete_task_plan(s.user(user_id), s.task(task_id, user_id));
    if dplan is Ok {
        let q = task_pos(s.tasks, task_id, user_id);
        let p = user_pos(s.users, user_id);
        let dw = dplan.unwrap();
        lemma_counters_bounded(s, user_id);
        lemma_with_counters(s.users, user_id, dw.0, dw.1);
        assert(has_user(deleted.users, user_id));
        assert(!has_task(deleted.tasks, task_id, user_id));
        if cplan.unwrap() is Some {
            let cw = cplan.unwrap().unwrap();
            lemma_with_counters(s.users, user_id, cw.0, cw.1);
            lemma_with_status(s.tasks, task_id, user_id, TaskStatus::Done, s.next_task_id);
            assert(finished.tasks[q].task_id == task_id && finished.tasks[q].user_id == user_id);
            lemma_task_pos(finished.tasks, task_id, user_id, q);
            lemma_counters_bounded(finished, user_id);
            let fw = delete_task_plan(
                finished.user(user_id),
                finished.task(task_id, user_id),
            ).unwrap();
            lemma_with_counters(finished.users, user_id, fw.0, fw.1);
            let both = finished.after_delete_task(user_id, task_id);
            assert(user_pos(finished.users, user_id) == p) by {
                lemma_user_pos(finished.users, user_id, p);
            }
            assert(both.tasks =~= deleted.tasks);
            assert(both.users =~= deleted.users);
        }
    } else {
        if has_user(s.users, user_id) {
            assert(!has_task(s.tasks, task_id, user_id));
        }
    }
}

} // verus!

//! The protocol, run against tables that answer each statement truthfully,
//! does what the operation is defined to do in one step.

use vstd::prelude::*;
use crate::failure::{duplicate_key_text, is_duplicate_key, occurs_at};
use crate::plan::{add_task_plan, complete_task_plan, delete_task_plan};
use crate::protocol::{is_final, next_step, EventView, StepView};
use crate::state::{Operation, StateView};
use crate::task_store::{has_task, new_task, with_status, without_task};
use crate::user_store::{has_user, new_user, with_counters};

verus! {

/// What tables holding `s` hold after a statement, and what they answer. A
/// step that ends the transaction is no statement and changes nothing.
pub open spec fn answer(s: StateView, step: StepView) -> (StateView, EventView) {
    match step {
        StepView::LoadUser { user_id } => (s, EventView::UserRow(s.user(user_id))),
        StepView::LoadTask { task_id, user_id } => (s, EventView::TaskRow(s.task(task_id, user_id))),
        StepView::InsertUser { user_id, user_name } => if has_user(s.users, user_id) {
            (s, EventView::Failed(duplicate_key_text()))
        } else {
            (
                StateView {
                    users: s.users.push(new_user(user_id, user_name)),
                    tasks: s.tasks,
                    next_task_id: s.next_task_id,
                },
                EventView::UserInserted(new_user(user_id, user_name)),
            )
        },
        StepView::InsertTask { user_id, task_name } => if s.table().has_room() && has_user(
            s.users,
            user_id,
        ) {
            (
                StateView {
                    users: s.users,
                    tasks: s.tasks.push(new_task(s.next_task_id, user_id, task_name)),
                    next_task_id: s.next_task_id + 1,
                },
                EventView::TaskInserted(new_task(s.next_task_id, user_id, task_name)),
            )
        } else {
            (s, EventView::Failed(Seq::empty()))
        },
        StepView::SetStatus { task_id, user_id, status } => (
            StateView {
                users: s.users,
                tasks: with_status(s.tasks, task_id, user_id, status),
                next_task_id: s.next_task_id,
            },
            EventView::Written(
                if has_task(s.tasks, task_id, user_id) {
                    1
                } else {
                    0
                },
            ),
        ),
        StepView::DeleteTask { task_id, user_id } => (
            StateView {
                users: s.users,
                tasks: without_task(s.tasks, task_id, user_id),
                next_task_id: s.next_task_id,
            },
            EventView::Written(
                if has_task(s.tasks, task_id, user_id) {
                    1
                } else {
                    0
                },
            ),
        ),
        StepView::SetCounters { user_id, pending, done, clamped } => (
            StateView {
                users: with_counters(s.users, user_id, pending, done),
                tasks: s.tasks,
                next_task_id: s.next_task_id,
            },
            EventView::Written(
                if has_user(s.users, user_id) {
                    1
                } else {
                    0
                },
            ),
        ),
        StepView::Commit(_) => (s, EventView::Written(0)),
        StepView::Rollback(_) => (s, EventView::Written(0)),
    }
}

/// Runs the protocol for `op` from the answers so far against tables holding
/// `s`, for at most `limit` statements: the tables at the end, and the step
/// at which the run stopped.
pub open spec fn drive(s: StateView, op: Operation, events: Seq<EventView>, limit: nat) -> (
    StateView,
    StepView,
)
    decreases limit,
{
    let step = next_step(op, events);
    if limit == 0 || is_final(step) {
        (s, step)
    } else {
        let a = answer(s, step);
        drive(a.0, op, events.push(a.1), (limit - 1) as nat)
    }
}

/// The most statements that any operation runs before it ends.
pub open spec fn longest_run() -> nat {
    4
}

/// The text that reports a taken key is recognised as such.
pub proof fn lemma_duplicate_key_text()
    ensures
        is_duplicate_key(duplicate_key_text()),
{
    let t = duplicate_key_text();
    assert(t.subrange(0, t.len() as int) =~= t);
    assert(occurs_at(t, t, 0));
}

/// Against tables that hold a well-formed state, an operation that succeeds
/// ends in `Commit` with its reply, the tables holding exactly the state
/// after the operation; an operation that fails ends in `Rollback` with its
/// error, before any statement has written, so the tables hold the state
/// from before.
pub proof fn law_protocol_is_atomic(s: StateView, op: Operation)
    requires
        s.wf(),
    ensures
        match s.reply(op) {
            Ok(reply) => drive(s, op, Seq::empty(), longest_run()) == (
                s.apply(op),
                StepView::Commit(reply),
            ),
            Err(e) => drive(s, op, Seq::empty(), longest_run()) == (s, StepView::Rollback(e)),
        },
{
    reveal_with_fuel(drive, 5);
    lemma_duplicate_key_text();
    let e0: Seq<EventView> = Seq::empty();
    match op {
        Operation::AddUser { user_id, user_name } => {
            let a0 = answer(s, next_step(op, e0));
            let e1 = e0.push(a0.1);
            assert(e1[0] == a0.1);
        },
        Operation::AddTask { user_id, task_name } => {
            let a0 = answer(s, next_step(op, e0));
            let e1 = e0.push(a0.1);
            assert(e1[0] == a0.1);
            if add_task_plan(s.user(user_id)) is Ok {
                let a1 = answer(a0.0, next_step(op, e1));
                let e2 = e1.push(a1.1);
                assert(e2[0] == a0.1 && e2[1] == a1.1);
                if s.table().has_room() {
                    let a2 = answer(a1.0, next_step(op, e2));
                    let e3 = e2.push(a2.1);
                    assert(e3[0] == a0.1 && e3[1] == a1.1 && e3[2] == a2.1);
                }
            }
        },
        Operation::TaskDone { user_id, task_id } => {
            let a0 = answer(s, next_step(op, e0));
            let e1 = e0.push(a0.1);
            assert(e1[0] == a0.1);
            if has_user(s.users, user_id) {
                let a1 = answer(a0.0, next_step(op, e1));
                let e2 = e1.push(a1.1);
                assert(e2[0] == a0.1 && e2[1] == a1.1);
                let plan = complete_task_plan(s.user(user_id), s.task(task_id, user_id));
                if plan is Ok && plan.unwrap() is Some {
                    let a2 = answer(a1.0, next_step(op, e2));
                    let e3 = e2.push(a2.1);
                    assert(e3[0] == a0.1 && e3[1] == a1.1 && e3[2] == a2.1);
                    let a3 = answer(a2.0, next_step(op, e3));
                    let e4 = e3.push(a3.1);
                    assert(e4[0] == a0.1 && e4[1] == a1.1 && e4[2] == a2.1 && e4[3] == a3.1);
                }
            }
        },
        Operation::DeleteTask { user_id, task_id } => {
            let a0 = answer(s, next_step(op, e0));
            let e1 = e0.push(a0.1);
            assert(e1[0] == a0.1);
            if has_user(s.users, user_id) {
                let a1 = answer(a0.0, next_step(op, e1));
                let e2 = e1.push(a1.1);
                assert(e2[0] == a0.1 && e2[1] == a1.1);
                let plan = delete_task_plan(s.user(user_id), s.task(task_id, user_id));
                if plan is Ok {
                    let a2 = answer(a1.0, next_step(op, e2));
                    let e3 = e2.push(a2.1);
                    assert(e3[0] == a0.1 && e3[1] == a1.1 && e3[2] == a2.1);
                    let a3 = answer(a2.0, next_step(op, e3));
                    let e4 = e3.push(a3.1);
                    assert(e4[0] == a0.1 && e4[1] == a1.1 && e4[2] == a2.1 && e4[3] == a3.1);
                }
            }
        },
    }
}

/// A statement that fails ends the transaction in a rollback, whatever the
/// storage says about the failure.
pub proof fn law_failure_rolls_back(op: Operation, events: Seq<EventView>, text: Seq<char>)
    requires
        !is_final(next_step(op, events)),
    ensures
        next_step(op, events.push(EventView::Failed(text))) is Rollback,
{
    let after = events.push(EventView::Failed(text));
    assert forall|i: int| 0 <= i < events.len() implies after[i] == events[i] by {}
    assert(after[events.len() as int] == EventView::Failed(text));
}

/// Once a transaction has ended, no further answer changes how it ended.
pub proof fn law_end_is_final(op: Operation, events: Seq<EventView>, more: EventView)
    requires
        is_final(next_step(op, events)),
    ensures
        next_step(op, events.push(more)) == next_step(op, events),
{
    let after = events.push(more);
    assert forall|i: int| 0 <= i < events.len() implies after[i] == events[i] by {}
}

/// A transaction never commits before the storage has answered a statement.
pub proof fn law_no_commit_unasked(op: Operation)
    ensures
        !is_final(next_step(op, Seq::empty())),
{
}

} // verus!

//! The user table: rows keyed by user id, in the order in which they were
//! created. It knows nothing of tasks; counters are written as absolute
//! values that the caller has computed.

use vstd::prelude::*;
use crate::model::{EngineError, User, UserView};

verus! {

/// The views of a run of user rows.
pub open spec fn user_views(rows: Seq<User>) -> Seq<UserView> {
    rows.map_values(|u: User| u@)
}

/// Whether some row has the id `user_id`.
pub open spec fn has_user(users: Seq<UserView>, user_id: Seq<char>) -> bool {
    exists|i: int| 0 <= i < users.len() && (#[trigger] users[i]).user_id == user_id
}

/// The place of a row with the id `user_id`, where there is one.
pub open spec fn user_pos(users: Seq<UserView>, user_id: Seq<char>) -> int {
    choose|i: int| 0 <= i < users.len() && (#[trigger] users[i]).user_id == user_id
}

/// The row with the id `user_id`, if there is one.
pub open spec fn find_user(users: Seq<UserView>, user_id: Seq<char>) -> Option<UserView> {
    if has_user(users, user_id) {
        Some(users[user_pos(users, user_id)])
    } else {
        None
    }
}

/// No two rows share an id.
pub open spec fn distinct_users(users: Seq<UserView>) -> bool {
    forall|i: int, j: int|
        0 <= i < j < users.len() ==> (#[trigger] users[i]).user_id != (#[trigger] users[j]).user_id
}

/// A fresh row: both counters at zero.
pub open spec fn new_user(user_id: Seq<char>, user_name: Seq<char>) -> UserView {
    UserView { user_id, user_name, pending_count: 0, done_count: 0 }
}

/// The row `u` with its counters replaced.
pub open spec fn recount(u: UserView, pending: nat, done: nat) -> UserView {
    UserView { user_id: u.user_id, user_name: u.user_name, pending_count: pending, done_count: done }
}

/// The table after the counters of `user_id` were set; unchanged where no row
/// has that id.
pub open spec fn with_counters(
    users: Seq<UserView>,
    user_id: Seq<char>,
    pending: nat,
    done: nat,
) -> Seq<UserView> {
    if has_user(users, user_id) {
        let i = user_pos(users, user_id);
        users.update(i, recount(users[i], pending, done))
    } else {
        users
    }
}

/// In a table without repeated ids, a row that has the id is the row that
/// `user_pos` names.
pub proof fn lemma_user_pos(users: Seq<UserView>, user_id: Seq<char>, i: int)
    requires
        distinct_users(users),
        0 <= i < users.len(),
        users[i].user_id == user_id,
    ensures
        has_user(users, user_id),
        user_pos(users, user_id) == i,
        find_user(users, user_id) == Some(users[i]),
{
    let j = user_pos(users, user_id);
    assert(0 <= j < users.len() && users[j].user_id == user_id);
    if j < i {
        assert(users[j].user_id != users[i].user_id);
    } else if i < j {
        assert(users[i].user_id != users[j].user_id);
    }
}

/// Setting counters keeps the ids, their order and their distinctness.
pub proof fn lemma_with_counters(users: Seq<UserView>, user_id: Seq<char>, pending: nat, done: nat)
    requires
        distinct_users(users),
    ensures
        with_counters(users, user_id, pending, done).len() == users.len(),
        forall|k: int|
            0 <= k < users.len() ==> (#[trigger] with_counters(
                users,
                user_id,
                pending,
                done,
            )[k]).user_id == users[k].user_id,
        distinct_users(with_counters(users, user_id, pending, done)),
        forall|other: Seq<char>|
            has_user(with_counters(users, user_id, pending, done), other) == has_user(users, other),
        forall|other: Seq<char>|
            other != user_id ==> find_user(with_counters(users, user_id, pending, done), other)
                == find_user(users, other),
        has_user(users, user_id) ==> find_user(
            with_counters(users, user_id, pending, done),
            user_id,
        ) == Some(recount(users[user_pos(users, user_id)], pending, done)),
{
    let after = with_counters(users, user_id, pending, done);
    assert forall|k: int| 0 <= k < users.len() implies (#[trigger] after[k]).user_id
        == users[k].user_id by {}
    assert(distinct_users(after)) by {
        assert forall|i: int, j: int| 0 <= i < j < after.len() implies (#[trigger] after[i]).user_id
            != (#[trigger] after[j]).user_id by {
            assert(users[i].user_id != users[j].user_id);
        }
    }
    assert forall|other: Seq<char>| has_user(after, other) == has_user(users, other) by {
        if has_user(users, other) {
            let k = user_pos(users, other);
            assert(after[k].user_id == other);
        }
        if has_user(after, other) {
            let k = user_pos(after, other);
            assert(users[k].user_id == other);
        }
    }
    assert forall|other: Seq<char>| other != user_id implies find_user(after, other) == find_user(
        users,
        other,
    ) by {
        if has_user(users, other) {
            let k = user_pos(users, other);
            assert(after[k].user_id == other);
            lemma_user_pos(after, other, k);
            if has_user(users, user_id) {
                assert(k != user_pos(users, user_id));
            }
        }
    }
    if has_user(users, user_id) {
        let i = user_pos(users, user_id);
        lemma_user_pos(after, user_id, i);
    }
}

/// The user table.
pub struct UserStore {
    rows: Vec<User>,
}

impl View for UserStore {
    type V = Seq<UserView>;

    closed spec fn view(&self) -> Seq<UserView> {
        user_views(self.rows@)
    }
}

impl UserStore {
    /// The table's invariant: user ids are a primary key.
    pub open spec fn wf(&self) -> bool {
        distinct_users(self@)
    }

    /// An empty table.
    pub fn new() -> (store: UserStore)
        ensures
            store.wf(),
            store@ == Seq::<UserView>::empty(),
    {
        let store = UserStore { rows: Vec::new() };
        assert(store@ =~= Seq::<UserView>::empty());
        store
    }

    fn position(&self, user_id: &String) -> (found: Option<usize>)
        ensures
            match found {
                Some(i) => i < self.rows.len() && self.rows[i as int].user_id@ == user_id@,
                None => !has_user(self@, user_id@),
            },
    {
        let mut i: usize = 0;
        while i < self.rows.len()
            invariant
                i <= self.rows.len(),
                forall|k: int| 0 <= k < i ==> (#[trigger] self@[k]).user_id != user_id@,
            decreases self.rows.len() - i,
        {
            if self.rows[i].user_id == *user_id {
                return Some(i);
            }
            i += 1;
        }
        None
    }

    /// Adds a row for `user_id` with both counters at zero and returns it,
    /// or returns `Conflict` and changes nothing where the id is taken.
    pub fn create_user(&mut self, user_id: &String, user_name: &String) -> (created: Result<
        User,
        EngineError,
    >)
        requires
            old(self).wf(),
        ensures
            final(self).wf(),
            match created {
                Ok(user) => {
                    &&& !has_user(old(self)@, user_id@)
                    &&& user@ == new_user(user_id@, user_name@)
                    &&& final(self)@ == old(self)@.push(user@)
                },
                Err(e) => {
                    &&& has_user(old(self)@, user_id@)
                    &&& e == EngineError::Conflict
                    &&& final(self)@ == old(self)@
                },
            },
    {
        match self.position(user_id) {
            Some(i) => {
                assert(self@[i as int].user_id == user_id@);
                Err(EngineError::Conflict)
            },
            None => {
                let row = User {
                    user_id: user_id.clone(),
                    user_name: user_name.clone(),
                    pending_count: 0,
                    done_count: 0,
                };
                let created = row.clone();
                self.rows.push(row);
                assert(self@ =~= old(self)@.push(created@));
                Ok(created)
            },
        }
    }

    /// The row of `user_id`, if there is one.
    pub fn get_user(&self, user_id: &String) -> (found: Option<User>)
        requires
            self.wf(),
        ensures
            match found {
                Some(user) => find_user(self@, user_id@) == Some(user@),
                None => find_user(self@, user_id@).is_none(),
            },
    {
        match self.position(user_id) {
            Some(i) => {
                proof {
                    lemma_user_pos(self@, user_id@, i as int);
                }
                Some(self.rows[i].clone())
            },
            None => None,
        }
    }

    /// Every row, in the order of creation.
    pub fn list_all(&self) -> (all: Vec<User>)
        ensures
            user_views(all@) == self@,
    {
        let mut all: Vec<User> = Vec::new();
        let mut i: usize = 0;
        while i < self.rows.len()
            invariant
                i <= self.rows.len(),
                user_views(all@) == self@.subrange(0, i as int),
            decreases self.rows.len() - i,
        {
            let ghost before = user_views(all@);
            let copy = self.rows[i].clone();
            all.push(copy);
            assert(user_views(all@) =~= before.push(self@[i as int]));
            assert(before.push(self@[i as int]) =~= self@.subrange(0, i + 1));
            i += 1;
        }
        assert(self@.subrange(0, i as int) =~= self@);
        all
    }

    /// Writes both counters of `user_id` and returns the number of rows that
    /// were written: one, or zero where no row has that id.
    pub fn set_counters(&mut self, user_id: &String, pending: u64, done: u64) -> (written: u64)
        requires
            old(self).wf(),
        ensures
            final(self).wf(),
            final(self)@ == with_counters(old(self)@, user_id@, pending as nat, done as nat),
            written == if has_user(old(self)@, user_id@) {
                1u64
            } else {
                0u64
            },
    {
        proof {
            lemma_with_counters(self@, user_id@, pending as nat, done as nat);
        }
        match self.position(user_id) {
            Some(i) => {
                proof {
                    lemma_user_pos(self@, user_id@, i as int);
                }
                let row = User {
                    user_id: self.rows[i].user_id.clone(),
                    user_name: self.rows[i].user_name.clone(),
                    pending_count: pending,
                    done_count: done,
                };
                self.rows.set(i, row);
                assert(self@ =~= with_counters(
                    old(self)@,
                    user_id@,
                    pending as nat,
                    done as nat,
                ));
                1
            },
            None => 0,
        }
    }
}

} // verus!

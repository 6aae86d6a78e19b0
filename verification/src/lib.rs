//! A task tracker whose per-user counters provably agree with the task rows.
//!
//! Every user carries two counters, the number of pending and of finished
//! tasks. Each operation keeps both equal to what a count over the task table
//! gives, and either applies as a whole or leaves the tables as they were.
//!
//! - [`model`] holds the rows, the request bodies and the errors.
//! - [`plan`] decides what an operation writes, given the rows it loaded.
//! - [`protocol`] runs one operation against a transactional storage,
//!   statement by statement, and says when to commit and when to roll back.
//! - [`user_store`] and [`task_store`] are the two tables, held in memory.
//! - [`engine`] holds the operations on those tables.
//! - [`state`] is the mathematical model of both tables with the invariant,
//!   [`tally`] the counting it rests on.
//! - [`laws`] and [`refinement`] state what holds of the operations together.
//! - [`failure`] tells a rejected insert from a storage that is down.

pub mod engine;
pub mod failure;
pub mod laws;
pub mod model;
pub mod plan;
pub mod protocol;
pub mod refinement;
pub mod state;
pub mod tally;
pub mod task_store;
pub mod user_store;

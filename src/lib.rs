//! Accounts with personal task lists: registration, login, task editing,
//! and the whole-collection upsert that persists an account.
use vstd::prelude::*;

pub mod menu;
pub mod store;
pub mod tasks;
pub mod user;

verus! {

} // verus!

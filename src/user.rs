use vstd::prelude::*;

use crate::tasks::{Task, TaskView};
use std::collections::HashMap;

verus! {

/// A registered account: its credentials and its tasks by id. The password
/// is kept and compared as plain text, not hashed.
#[derive(Clone, Debug)]
pub struct User {
    pub username: String,
    pub password: String,
    pub tasks: HashMap<u32, Task>,
}

/// What an account holds, as plain values.
pub struct UserView {
    pub username: Seq<char>,
    pub password: Seq<char>,
    pub tasks: Map<u32, TaskView>,
}

/// The view of each task of a task map.
pub open spec fn tasks_view(m: Map<u32, Task>) -> Map<u32, TaskView> {
    m.map_values(|t: Task| t@)
}

impl View for User {
    type V = UserView;

    open spec fn view(&self) -> UserView {
        UserView {
            username: self.username@,
            password: self.password@,
            tasks: tasks_view(self.tasks@),
        }
    }
}

/// The same account with another task map.
pub open spec fn with_tasks(u: UserView, tasks: Map<u32, TaskView>) -> UserView {
    UserView { username: u.username, password: u.password, tasks }
}

/// A freshly registered account: no tasks yet.
pub open spec fn fresh_account(username: Seq<char>, password: Seq<char>) -> UserView {
    UserView { username, password, tasks: Map::empty() }
}

/// The views of a sequence of accounts, in order.
pub open spec fn users_view(users: Seq<User>) -> Seq<UserView> {
    users.map_values(|u: User| u@)
}

/// Viewing the tasks keeps their ids and their number.
pub proof fn lemma_tasks_view_dom(m: Map<u32, Task>)
    ensures
        tasks_view(m).dom() == m.dom(),
        tasks_view(m).len() == m.len(),
{
    assert(tasks_view(m).dom() =~= m.dom());
}

impl User {
    /// An account with the given credentials and no tasks.
    pub fn new(username: String, password: String) -> (r: User)
        ensures
            r@ == fresh_account(username@, password@),
    {
        let r = User { username, password, tasks: HashMap::new() };
        assert(r@.tasks =~= Map::empty());
        r
    }
}

} // verus!

use task_tracker::menu::{guest_action, member_action, GuestAction, MemberAction};
use task_tracker::store::{login_user, register_user, save_user, users_or_empty, AccountError};
use task_tracker::tasks::{
    add_task, complete_task, delete_task, edit_task, has_task, list_tasks, parse_task_id, Task,
    TaskError,
};
use task_tracker::user::User;

fn s(text: &str) -> String {
    text.to_string()
}

fn account_with_tasks(n: u32) -> User {
    let mut user = User::new(s("bob"), s("secret"));
    for i in 0..n {
        add_task(&mut user, format!("task {}", i + 1));
    }
    user
}

#[test]
fn register_same_username_twice() {
    let mut users: Vec<User> = Vec::new();
    assert_eq!(register_user(&mut users, s("alice"), s("pw1")), Ok(()));
    assert_eq!(
        register_user(&mut users, s("alice"), s("other")),
        Err(AccountError::AlreadyExists)
    );
    assert_eq!(users.len(), 1);
    assert_eq!(users.iter().filter(|u| u.username == "alice").count(), 1);
    assert_eq!(users[0].password, "pw1");
    assert!(users[0].tasks.is_empty());
}

#[test]
fn register_distinct_usernames_appends() {
    let mut users: Vec<User> = Vec::new();
    assert_eq!(register_user(&mut users, s("alice"), s("pw1")), Ok(()));
    assert_eq!(register_user(&mut users, s("Alice"), s("pw2")), Ok(()));
    assert_eq!(users.len(), 2);
    assert_eq!(users[1].username, "Alice");
    assert_eq!(users[1].password, "pw2");
}

#[test]
fn login_needs_exact_username_and_password() {
    let mut users: Vec<User> = Vec::new();
    register_user(&mut users, s("alice"), s("pw1")).unwrap();
    register_user(&mut users, s("carol"), s("pw2")).unwrap();
    let found = login_user(users.clone(), &s("carol"), &s("pw2")).unwrap();
    assert_eq!(found.username, "carol");
    assert_eq!(found.password, "pw2");
    assert!(login_user(users.clone(), &s("alice"), &s("pw2")).is_none());
    assert!(login_user(users.clone(), &s("Alice"), &s("pw1")).is_none());
    assert!(login_user(users.clone(), &s("alice"), &s("PW1")).is_none());
    assert!(login_user(users.clone(), &s("dave"), &s("pw1")).is_none());
    assert!(login_user(Vec::new(), &s("alice"), &s("pw1")).is_none());
}

#[test]
fn add_task_ids_follow_the_count() {
    let mut user = account_with_tasks(0);
    assert_eq!(add_task(&mut user, s("first")), 1);
    let mut user = account_with_tasks(2);
    assert_eq!(add_task(&mut user, s("third")), 3);
    let task = user.tasks.get(&3).unwrap();
    assert_eq!(task.description, "third");
    assert!(!task.completed);
    assert_eq!(user.tasks.len(), 3);
}

#[test]
fn add_after_delete_reuses_a_live_id() {
    let mut user = account_with_tasks(3);
    assert_eq!(delete_task(&mut user, 2), Ok(()));
    assert_eq!(user.tasks.len(), 2);
    let id = add_task(&mut user, s("new"));
    assert_eq!(id, 3);
    assert_eq!(user.tasks.len(), 2);
    assert_eq!(user.tasks.get(&3).unwrap().description, "new");
    assert_eq!(user.tasks.get(&1).unwrap().description, "task 1");
    assert!(!has_task(&user, 2));
}

#[test]
fn missing_id_is_not_found_and_changes_nothing() {
    let mut user = account_with_tasks(2);
    complete_task(&mut user, 1).unwrap();
    for id in [0u32, 3, 99] {
        assert_eq!(edit_task(&mut user, id, s("x")), Err(TaskError::NotFound));
        assert_eq!(delete_task(&mut user, id), Err(TaskError::NotFound));
        assert_eq!(complete_task(&mut user, id), Err(TaskError::NotFound));
    }
    assert_eq!(user.tasks.len(), 2);
    assert_eq!(user.tasks.get(&1).unwrap().description, "task 1");
    assert!(user.tasks.get(&1).unwrap().completed);
    assert_eq!(user.tasks.get(&2).unwrap().description, "task 2");
    assert!(!user.tasks.get(&2).unwrap().completed);
}

#[test]
fn edit_keeps_status_and_complete_keeps_description() {
    let mut user = account_with_tasks(2);
    assert_eq!(complete_task(&mut user, 2), Ok(()));
    assert_eq!(edit_task(&mut user, 2, s("renamed")), Ok(()));
    let task = user.tasks.get(&2).unwrap();
    assert_eq!(task.description, "renamed");
    assert!(task.completed);
    assert_eq!(edit_task(&mut user, 1, s("changed")), Ok(()));
    assert!(!user.tasks.get(&1).unwrap().completed);
    assert_eq!(complete_task(&mut user, 1), Ok(()));
    assert_eq!(user.tasks.get(&1).unwrap().description, "changed");
    assert_eq!(user.tasks.len(), 2);
}

#[test]
fn list_shows_every_task_once() {
    let user = account_with_tasks(0);
    assert!(list_tasks(&user).is_empty());
    let mut user = account_with_tasks(3);
    complete_task(&mut user, 2).unwrap();
    let mut listed: Vec<(u32, String, bool)> = list_tasks(&user)
        .into_iter()
        .map(|(id, t): (u32, &Task)| (id, t.description.clone(), t.completed))
        .collect();
    listed.sort();
    assert_eq!(
        listed,
        vec![
            (1, s("task 1"), false),
            (2, s("task 2"), true),
            (3, s("task 3"), false)
        ]
    );
}

#[test]
fn save_user_replaces_or_appends() {
    let mut users: Vec<User> = Vec::new();
    register_user(&mut users, s("alice"), s("pw1")).unwrap();
    register_user(&mut users, s("bob"), s("pw2")).unwrap();
    let mut alice = login_user(users.clone(), &s("alice"), &s("pw1")).unwrap();
    add_task(&mut alice, s("buy milk"));
    save_user(&mut users, alice);
    assert_eq!(users.len(), 2);
    assert_eq!(users[0].username, "alice");
    assert_eq!(users[0].tasks.len(), 1);
    assert_eq!(users[1].username, "bob");
    save_user(&mut users, User::new(s("carol"), s("pw3")));
    assert_eq!(users.len(), 3);
    assert_eq!(users[2].username, "carol");
}

#[test]
fn loading_falls_back_to_empty() {
    assert!(users_or_empty(None).is_empty());
    let loaded = vec![User::new(s("alice"), s("pw1"))];
    let users = users_or_empty(Some(loaded));
    assert_eq!(users.len(), 1);
    assert_eq!(users[0].username, "alice");
}

#[test]
fn end_to_end_session() {
    let mut stored: Vec<User> = users_or_empty(None);
    assert_eq!(register_user(&mut stored, s("alice"), s("pw1")), Ok(()));
    let mut session = login_user(stored.clone(), &s("alice"), &s("pw1")).unwrap();
    assert_eq!(add_task(&mut session, s("buy milk")), 1);
    assert_eq!(complete_task(&mut session, 1), Ok(()));
    let listed = list_tasks(&session);
    assert_eq!(listed.len(), 1);
    assert_eq!(listed[0].0, 1);
    assert!(listed[0].1.completed);
    save_user(&mut stored, session);
    let reloaded = users_or_empty(Some(stored.clone()));
    let again = login_user(reloaded, &s("alice"), &s("pw1")).unwrap();
    let task = again.tasks.get(&1).unwrap();
    assert_eq!(task.description, "buy milk");
    assert!(task.completed);
}

#[test]
fn task_ids_parse_or_fall_back_to_zero() {
    assert_eq!(parse_task_id("42"), 42);
    assert_eq!(parse_task_id("+7"), 7);
    assert_eq!(parse_task_id("007"), 7);
    assert_eq!(parse_task_id("4294967295"), 4294967295);
    assert_eq!(parse_task_id("4294967296"), 0);
    assert_eq!(parse_task_id("99999999999999999999"), 0);
    assert_eq!(parse_task_id(""), 0);
    assert_eq!(parse_task_id("+"), 0);
    assert_eq!(parse_task_id("-1"), 0);
    assert_eq!(parse_task_id("1a"), 0);
    assert_eq!(parse_task_id("abc"), 0);
    assert_eq!(parse_task_id("٣"), 0);
}

#[test]
fn menu_choices() {
    assert_eq!(guest_action("1"), Some(GuestAction::Register));
    assert_eq!(guest_action("2"), Some(GuestAction::Login));
    assert_eq!(guest_action("3"), Some(GuestAction::Exit));
    assert_eq!(guest_action("4"), None);
    assert_eq!(guest_action("11"), None);
    assert_eq!(guest_action(""), None);
    assert_eq!(member_action("1"), Some(MemberAction::AddTask));
    assert_eq!(member_action("2"), Some(MemberAction::ListTasks));
    assert_eq!(member_action("3"), Some(MemberAction::EditTask));
    assert_eq!(member_action("4"), Some(MemberAction::DeleteTask));
    assert_eq!(member_action("5"), Some(MemberAction::CompleteTask));
    assert_eq!(member_action("6"), Some(MemberAction::SaveAndExit));
    assert_eq!(member_action("7"), None);
    assert_eq!(member_action("x"), None);
}

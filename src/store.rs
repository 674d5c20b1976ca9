use vstd::prelude::*;

use crate::user::{fresh_account, users_view, User, UserView};

verus! {

/// A registration named a username that an account already has.
#[derive(PartialEq, Eq, Structural, Clone, Copy, Debug)]
pub enum AccountError {
    AlreadyExists,
}

/// Some account of `users` has this username (exact, case-sensitive).
pub open spec fn has_username(users: Seq<UserView>, name: Seq<char>) -> bool {
    exists|i: int| 0 <= i < users.len() && (#[trigger] users[i]).username == name
}

/// `i` is the first position of `users` whose account has this username.
pub open spec fn is_first_named(users: Seq<UserView>, name: Seq<char>, i: int) -> bool {
    &&& 0 <= i < users.len()
    &&& users[i].username == name
    &&& forall|j: int| 0 <= j < i ==> (#[trigger] users[j]).username != name
}

/// The first position whose account has this username (meaningful where one has).
pub open spec fn first_named(users: Seq<UserView>, name: Seq<char>) -> int {
    choose|i: int| is_first_named(users, name, i)
}

/// No two accounts of `users` share a username.
pub open spec fn usernames_unique(users: Seq<UserView>) -> bool {
    forall|i: int, j: int|
        0 <= i < users.len() && 0 <= j < users.len() && i != j ==> (#[trigger] users[i]).username
            != (#[trigger] users[j]).username
}

/// The collection after a registration: unchanged where the username is taken,
/// else with a fresh account appended.
pub open spec fn registered(users: Seq<UserView>, name: Seq<char>, password: Seq<char>) -> Seq<
    UserView,
> {
    if has_username(users, name) {
        users
    } else {
        users.push(fresh_account(name, password))
    }
}

/// The collection after an upsert: the first account with the same username
/// is replaced, or else the account is appended.
pub open spec fn upserted(users: Seq<UserView>, u: UserView) -> Seq<UserView> {
    if has_username(users, u.username) {
        users.update(first_named(users, u.username), u)
    } else {
        users.push(u)
    }
}

/// `i` is the first position whose account has exactly these credentials.
pub open spec fn is_first_login(
    users: Seq<UserView>,
    name: Seq<char>,
    password: Seq<char>,
    i: int,
) -> bool {
    &&& 0 <= i < users.len()
    &&& users[i].username == name
    &&& users[i].password == password
    &&& forall|j: int|
        0 <= j < i ==> !((#[trigger] users[j]).username == name && users[j].password == password)
}

/// What a login returns: the first account whose username and password both
/// match exactly, if any.
pub open spec fn authenticated(users: Seq<UserView>, name: Seq<char>, password: Seq<char>) -> Option<
    UserView,
> {
    if exists|i: int| is_first_login(users, name, password, i) {
        Some(users[choose|i: int| is_first_login(users, name, password, i)])
    } else {
        None
    }
}

proof fn lemma_first_named_is(users: Seq<UserView>, name: Seq<char>, i: int)
    requires
        is_first_named(users, name, i),
    ensures
        first_named(users, name) == i,
        has_username(users, name),
{
    let k = first_named(users, name);
    assert(is_first_named(users, name, k));
    if k < i {
        assert(users[k].username != name);
    } else if i < k {
        assert(users[i].username != name);
    }
}

proof fn lemma_first_login_is(users: Seq<UserView>, name: Seq<char>, password: Seq<char>, i: int)
    requires
        is_first_login(users, name, password, i),
    ensures
        authenticated(users, name, password) == Some(users[i]),
{
    let k = choose|k: int| is_first_login(users, name, password, k);
    assert(is_first_login(users, name, password, k));
    if k < i {
        assert(!(users[k].username == name && users[k].password == password));
    } else if i < k {
        assert(!(users[i].username == name && users[i].password == password));
    }
}

/// The first position of `users` whose account has this username.
fn find_username(users: &Vec<User>, name: &String) -> (r: Option<usize>)
    ensures
        match r {
            Some(i) => is_first_named(users_view(users@), name@, i as int),
            None => !has_username(users_view(users@), name@),
        },
{
    let ghost s = users_view(users@);
    let mut i: usize = 0;
    while i < users.len()
        invariant
            0 <= i <= users@.len(),
            s == users_view(users@),
            forall|j: int| 0 <= j < i ==> (#[trigger] s[j]).username != name@,
        decreases users.len() - i,
    {
        if users[i].username == *name {
            return Some(i);
        }
        i += 1;
    }
    None
}

/// Creates an account with no tasks, unless the username is taken: then
/// fails with `AlreadyExists` and leaves the collection as it was.
pub fn register_user(users: &mut Vec<User>, username: String, password: String) -> (r: Result<
    (),
    AccountError,
>)
    ensures
        users_view(final(users)@) == registered(users_view(old(users)@), username@, password@),
        r == (if has_username(users_view(old(users)@), username@) {
            Err(AccountError::AlreadyExists)
        } else {
            Ok(())
        }),
{
    if find_username(users, &username).is_some() {
        return Err(AccountError::AlreadyExists);
    }
    let account = User::new(username, password);
    users.push(account);
    proof {
        assert(users_view(users@) =~= users_view(old(users)@).push(account@));
    }
    Ok(())
}

/// Writes an account back into the collection: replaces the first account
/// with the same username, or appends it when there is none.
pub fn save_user(users: &mut Vec<User>, user: User)
    ensures
        users_view(final(users)@) == upserted(users_view(old(users)@), user@),
{
    let ghost u = user@;
    match find_username(users, &user.username) {
        Some(i) => {
            proof {
                lemma_first_named_is(users_view(users@), u.username, i as int);
            }
            users.set(i, user);
            proof {
                assert(users_view(users@) =~= users_view(old(users)@).update(i as int, u));
            }
        },
        None => {
            users.push(user);
            proof {
                assert(users_view(users@) =~= users_view(old(users)@).push(u));
            }
        },
    }
}

/// Logs in: hands out the first account whose username and password both
/// match exactly, or `None` (the comparison is plain text equality).
pub fn login_user(users: Vec<User>, username: &String, password: &String) -> (r: Option<User>)
    ensures
        match r {
            Some(u) => authenticated(users_view(users@), username@, password@) == Some(u@),
            None => authenticated(users_view(users@), username@, password@) is None,
        },
{
    let ghost s = users_view(users@);
    let mut all = users;
    let mut i: usize = 0;
    while i < all.len()
        invariant
            0 <= i <= all@.len(),
            s == users_view(all@),
            s == users_view(users@),
            forall|j: int|
                0 <= j < i ==> !((#[trigger] s[j]).username == username@ && s[j].password
                    == password@),
        decreases all.len() - i,
    {
        if all[i].username == *username && all[i].password == *password {
            proof {
                lemma_first_login_is(s, username@, password@, i as int);
            }
            let found = all.remove(i);
            assert(found@ == s[i as int]);
            return Some(found);
        }
        i += 1;
    }
    None
}

/// The collection that loading yields: what was read and decoded, or an
/// empty one when the stored collection is missing or malformed.
pub fn users_or_empty(loaded: Option<Vec<User>>) -> (r: Vec<User>)
    ensures
        match loaded {
            Some(v) => r@ == v@,
            None => r@.len() == 0,
        },
{
    match loaded {
        Some(v) => v,
        None => Vec::new(),
    }
}

/// Registering a username a second time fails and leaves the collection as
/// the first registration left it, holding exactly one account with that
/// username.
pub proof fn lemma_register_twice(
    users: Seq<UserView>,
    name: Seq<char>,
    first_password: Seq<char>,
    second_password: Seq<char>,
)
    requires
        usernames_unique(users),
    ensures
        has_username(registered(users, name, first_password), name),
        registered(registered(users, name, first_password), name, second_password) == registered(
            users,
            name,
            first_password,
        ),
        exists|i: int| #[trigger] only_named_at(registered(users, name, first_password), name, i),
{
    let once = registered(users, name, first_password);
    if has_username(users, name) {
        let i = choose|i: int| 0 <= i < users.len() && (#[trigger] users[i]).username == name;
        assert(once[i].username == name);
        assert forall|j: int| 0 <= j < once.len() && j != i implies (#[trigger] once[j]).username
            != name by {
            assert(users[j].username != users[i].username);
        }
        assert(only_named_at(once, name, i));
    } else {
        let i = users.len() as int;
        assert(once[i].username == name);
        assert forall|j: int| 0 <= j < once.len() && j != i implies (#[trigger] once[j]).username
            != name by {
            assert(once[j] == users[j]);
        }
        assert(only_named_at(once, name, i));
    }
}

/// Position `i` holds the one account of `users` with this username.
pub open spec fn only_named_at(users: Seq<UserView>, name: Seq<char>, i: int) -> bool {
    &&& 0 <= i < users.len()
    &&& users[i].username == name
    &&& forall|j: int| 0 <= j < users.len() && j != i ==> (#[trigger] users[j]).username != name
}

/// Registration keeps usernames unique.
pub proof fn lemma_register_keeps_usernames_unique(
    users: Seq<UserView>,
    name: Seq<char>,
    password: Seq<char>,
)
    requires
        usernames_unique(users),
    ensures
        usernames_unique(registered(users, name, password)),
{
    let after = registered(users, name, password);
    if !has_username(users, name) {
        assert forall|i: int, j: int|
            0 <= i < after.len() && 0 <= j < after.len() && i != j implies (#[trigger] after[i]).username
            != (#[trigger] after[j]).username by {
            if i < users.len() && j < users.len() {
                assert(after[i] == users[i] && after[j] == users[j]);
            } else if i < users.len() {
                assert(after[i] == users[i]);
            } else {
                assert(after[j] == users[j]);
            }
        }
    }
}

/// Writing an account back keeps usernames unique.
pub proof fn lemma_upsert_keeps_usernames_unique(users: Seq<UserView>, u: UserView)
    requires
        usernames_unique(users),
    ensures
        usernames_unique(upserted(users, u)),
{
    let after = upserted(users, u);
    if has_username(users, u.username) {
        let k = first_named(users, u.username);
        let w = choose|i: int| 0 <= i < users.len() && (#[trigger] users[i]).username == u.username;
        assert(is_first_named(users, u.username, k)) by {
            assert forall|j: int| 0 <= j < w implies (#[trigger] users[j]).username != u.username by {
                assert(users[j].username != users[w].username);
            }
            assert(is_first_named(users, u.username, w));
        }
        assert forall|i: int, j: int|
            0 <= i < after.len() && 0 <= j < after.len() && i != j implies (#[trigger] after[i]).username
            != (#[trigger] after[j]).username by {
            if i == k {
                assert(users[j].username != users[k].username);
            } else if j == k {
                assert(users[i].username != users[k].username);
            }
        }
    } else {
        assert forall|i: int, j: int|
            0 <= i < after.len() && 0 <= j < after.len() && i != j implies (#[trigger] after[i]).username
            != (#[trigger] after[j]).username by {
            if i < users.len() && j < users.len() {
                assert(after[i] == users[i] && after[j] == users[j]);
            } else if i < users.len() {
                assert(after[i] == users[i]);
            } else {
                assert(after[j] == users[j]);
            }
        }
    }
}

/// A login succeeds exactly when some account has both the username and the
/// password, compared exactly; the account it returns has both.
pub proof fn lemma_login_iff_credentials_match(
    users: Seq<UserView>,
    name: Seq<char>,
    password: Seq<char>,
)
    ensures
        authenticated(users, name, password) is Some <==> exists|i: int|
            0 <= i < users.len() && (#[trigger] users[i]).username == name && users[i].password
                == password,
        authenticated(users, name, password) matches Some(u) ==> u.username == name && u.password
            == password,
{
    if exists|i: int|
        0 <= i < users.len() && (#[trigger] users[i]).username == name && users[i].password
            == password {
        let w = choose|i: int|
            0 <= i < users.len() && (#[trigger] users[i]).username == name && users[i].password
                == password;
        lemma_first_login_exists(users, name, password, w);
    }
}

proof fn lemma_first_login_exists(users: Seq<UserView>, name: Seq<char>, password: Seq<char>, w: int)
    requires
        0 <= w < users.len(),
        users[w].username == name,
        users[w].password == password,
    ensures
        exists|i: int| is_first_login(users, name, password, i),
    decreases w,
{
    if exists|j: int|
        0 <= j < w && (#[trigger] users[j]).username == name && users[j].password == password {
        let j = choose|j: int|
            0 <= j < w && (#[trigger] users[j]).username == name && users[j].password == password;
        lemma_first_login_exists(users, name, password, j);
    } else {
        assert(is_first_login(users, name, password, w));
    }
}

/// An account written back into a collection with unique usernames is what a
/// later login with its credentials returns.
pub proof fn lemma_login_after_save(users: Seq<UserView>, u: UserView)
    requires
        usernames_unique(users),
    ensures
        authenticated(upserted(users, u), u.username, u.password) == Some(u),
{
    let after = upserted(users, u);
    lemma_upsert_keeps_usernames_unique(users, u);
    let k = if has_username(users, u.username) {
        first_named(users, u.username)
    } else {
        users.len() as int
    };
    if has_username(users, u.username) {
        let w = choose|i: int| 0 <= i < users.len() && (#[trigger] users[i]).username == u.username;
        assert forall|j: int| 0 <= j < w implies (#[trigger] users[j]).username != u.username by {
            assert(users[j].username != users[w].username);
        }
        assert(is_first_named(users, u.username, w));
        lemma_first_named_is(users, u.username, w);
    }
    assert(after[k] == u);
    assert forall|j: int| 0 <= j < k implies !((#[trigger] after[j]).username == u.username
        && after[j].password == u.password) by {
        assert(after[j].username != after[k].username);
    }
    assert(is_first_login(after, u.username, u.password, k));
    lemma_first_login_is(after, u.username, u.password, k);
}

} // verus!

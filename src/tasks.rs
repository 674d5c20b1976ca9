use vstd::prelude::*;

use crate::user::{lemma_tasks_view_dom, with_tasks, User, UserView};

verus! {

/// One entry of an account's task list.
#[derive(Clone, Debug)]
pub struct Task {
    pub description: String,
    pub completed: bool,
}

/// What a task holds, as plain values.
pub struct TaskView {
    pub description: Seq<char>,
    pub completed: bool,
}

impl View for Task {
    type V = TaskView;

    open spec fn view(&self) -> TaskView {
        TaskView { description: self.description@, completed: self.completed }
    }
}

/// A task operation named an id that the account does not hold.
#[derive(PartialEq, Eq, Structural, Clone, Copy, Debug)]
pub enum TaskError {
    NotFound,
}

impl Task {
    /// A task that has not been completed yet.
    pub fn new(description: String) -> (r: Task)
        ensures
            r@ == (TaskView { description: description@, completed: false }),
    {
        Task { description, completed: false }
    }
}

/// The id that the next added task gets: one more than the number of tasks.
/// After a deletion this may be an id that is still in use.
pub open spec fn next_task_id(u: UserView) -> nat {
    u.tasks.len() + 1
}

/// After a task is deleted, the next added task gets the id that equals the
/// old number of tasks; where a task other than the deleted one holds that id
/// (ids `1..=n`, a lower one deleted), that id is still in use.
pub proof fn lemma_add_after_delete_reuses_id(u: UserView, deleted: u32, held: u32)
    requires
        u.tasks.dom().finite(),
        u.tasks.contains_key(deleted),
    ensures
        next_task_id(with_tasks(u, u.tasks.remove(deleted))) == u.tasks.len(),
        u.tasks.contains_key(held) && held != deleted && held == u.tasks.len() ==> {
            &&& next_task_id(with_tasks(u, u.tasks.remove(deleted))) == held
            &&& with_tasks(u, u.tasks.remove(deleted)).tasks.contains_key(held)
        },
{
    assert(u.tasks.remove(deleted).dom() =~= u.tasks.dom().remove(deleted));
}

/// Adds a task that is not completed, under `next_task_id`, replacing any
/// task that already has that id; returns the id. The id must fit in `u32`,
/// so the account holds fewer than `u32::MAX` tasks.
pub fn add_task(user: &mut User, description: String) -> (id: u32)
    requires
        old(user)@.tasks.len() < u32::MAX,
    ensures
        id == next_task_id(old(user)@),
        final(user)@ == with_tasks(
            old(user)@,
            old(user)@.tasks.insert(id, TaskView { description: description@, completed: false }),
        ),
{
    proof {
        lemma_tasks_view_dom(user.tasks@);
    }
    let id = user.tasks.len() as u32 + 1;
    let task = Task::new(description);
    user.tasks.insert(id, task);
    proof {
        assert(user@.tasks =~= old(user)@.tasks.insert(id, task@));
    }
    id
}

/// The account holds a task with this id.
pub fn has_task(user: &User, id: u32) -> (r: bool)
    ensures
        r == user@.tasks.contains_key(id),
{
    user.tasks.contains_key(&id)
}

/// Replaces the description of task `id`, keeping its completion status;
/// fails with `NotFound`, changing nothing, where there is no such task.
pub fn edit_task(user: &mut User, id: u32, description: String) -> (r: Result<(), TaskError>)
    ensures
        old(user)@.tasks.contains_key(id) ==> r == Ok::<(), TaskError>(()) && final(user)@
            == with_tasks(
            old(user)@,
            old(user)@.tasks.insert(
                id,
                TaskView { description: description@, completed: old(user)@.tasks[id].completed },
            ),
        ),
        !old(user)@.tasks.contains_key(id) ==> r == Err::<(), TaskError>(TaskError::NotFound)
            && final(user)@ == old(user)@,
{
    match user.tasks.remove(&id) {
        Some(task) => {
            let edited = Task { description, completed: task.completed };
            user.tasks.insert(id, edited);
            proof {
                assert(user@.tasks =~= old(user)@.tasks.insert(id, edited@));
            }
            Ok(())
        },
        None => {
            proof {
                assert(user.tasks@ =~= old(user).tasks@);
            }
            Err(TaskError::NotFound)
        },
    }
}

/// Removes task `id`; fails with `NotFound`, changing nothing, where there is
/// no such task.
pub fn delete_task(user: &mut User, id: u32) -> (r: Result<(), TaskError>)
    ensures
        old(user)@.tasks.contains_key(id) ==> r == Ok::<(), TaskError>(()) && final(user)@
            == with_tasks(old(user)@, old(user)@.tasks.remove(id)),
        !old(user)@.tasks.contains_key(id) ==> r == Err::<(), TaskError>(TaskError::NotFound)
            && final(user)@ == old(user)@,
{
    match user.tasks.remove(&id) {
        Some(_) => {
            proof {
                assert(user@.tasks =~= old(user)@.tasks.remove(id));
            }
            Ok(())
        },
        None => {
            proof {
                assert(user.tasks@ =~= old(user).tasks@);
            }
            Err(TaskError::NotFound)
        },
    }
}

/// Marks task `id` as completed, keeping its description; fails with
/// `NotFound`, changing nothing, where there is no such task.
pub fn complete_task(user: &mut User, id: u32) -> (r: Result<(), TaskError>)
    ensures
        old(user)@.tasks.contains_key(id) ==> r == Ok::<(), TaskError>(()) && final(user)@
            == with_tasks(
            old(user)@,
            old(user)@.tasks.insert(
                id,
                TaskView { description: old(user)@.tasks[id].description, completed: true },
            ),
        ),
        !old(user)@.tasks.contains_key(id) ==> r == Err::<(), TaskError>(TaskError::NotFound)
            && final(user)@ == old(user)@,
{
    match user.tasks.remove(&id) {
        Some(task) => {
            let done = Task { description: task.description, completed: true };
            user.tasks.insert(id, done);
            proof {
                assert(user@.tasks =~= old(user)@.tasks.insert(id, done@));
            }
            Ok(())
        },
        None => {
            proof {
                assert(user.tasks@ =~= old(user).tasks@);
            }
            Err(TaskError::NotFound)
        },
    }
}

/// Every task of the account with its id, each once, in no particular order.
pub fn list_tasks(user: &User) -> (r: Vec<(u32, &Task)>)
    ensures
        r@.len() == user@.tasks.len(),
        forall|i: int|
            0 <= i < r@.len() ==> user@.tasks.contains_key(#[trigger] r@[i].0) && user@.tasks[r@[
                i
            ].0] == r@[i].1@,
        forall|id: u32|
            #[trigger] user@.tasks.contains_key(id) ==> exists|i: int|
                0 <= i < r@.len() && (#[trigger] r@[i]).0 == id,
{
    proof {
        lemma_tasks_view_dom(user.tasks@);
    }
    let mut r: Vec<(u32, &Task)> = Vec::new();
    for entry in it: user.tasks.iter()
        invariant
            r@.len() == it.index(),
            forall|i: int|
                0 <= i < r@.len() ==> (#[trigger] r@[i]).0 == *it.seq()[i].0 && r@[i].1
                    == it.seq()[i].1,
            forall|id: u32|
                #[trigger] user.tasks@.contains_key(id) ==> (exists|i: int|
                    0 <= i < r@.len() && (#[trigger] r@[i]).0 == id) || (exists|i: int|
                    it.index() <= i < it.seq().len() && *(#[trigger] it.seq()[i]).0 == id),
    {
        let ghost before = r@;
        let ghost seq = it.seq();
        let (id, task) = entry;
        r.push((*id, task));
        proof {
            let k = before.len() as int;
            assert(r@[k].0 == *seq[k].0);
            assert forall|n: u32| #[trigger] user.tasks@.contains_key(n) implies (exists|i: int|
                0 <= i < r@.len() && (#[trigger] r@[i]).0 == n) || (exists|i: int|
                k + 1 <= i < seq.len() && *(#[trigger] seq[i]).0 == n) by {
                if exists|i: int| 0 <= i < before.len() && (#[trigger] before[i]).0 == n {
                    let i = choose|i: int| 0 <= i < before.len() && (#[trigger] before[i]).0 == n;
                    assert(r@[i] == before[i]);
                } else {
                    let i = choose|i: int| k <= i < seq.len() && *(#[trigger] seq[i]).0 == n;
                    if i == k {
                        assert(r@[k].0 == n);
                    }
                }
            }
        }
    }
    r
}

/// `c` is an ASCII decimal digit.
pub open spec fn is_digit(c: char) -> bool {
    '0' <= c && c <= '9'
}

/// The number that a run of decimal digits spells.
pub open spec fn digits_value(s: Seq<char>) -> nat
    decreases s.len(),
{
    if s.len() == 0 {
        0
    } else {
        digits_value(s.drop_last()) * 10 + (s.last() as nat - '0' as nat) as nat
    }
}

/// The digits of a task id as typed: the text without one leading `+`.
pub open spec fn id_digits(s: Seq<char>) -> Seq<char> {
    if s.len() > 0 && s[0] == '+' {
        s.drop_first()
    } else {
        s
    }
}

/// `s` reads as an unsigned 32-bit number: an optional `+`, then one or
/// more decimal digits, with a value that fits.
pub open spec fn is_task_id_text(s: Seq<char>) -> bool {
    let d = id_digits(s);
    &&& d.len() > 0
    &&& forall|i: int| 0 <= i < d.len() ==> is_digit(#[trigger] d[i])
    &&& digits_value(d) <= u32::MAX
}

/// The id that typed text names: its number, or 0 (which no task has) where
/// the text is not a number that fits.
pub open spec fn task_id_of(s: Seq<char>) -> u32 {
    if is_task_id_text(s) {
        digits_value(id_digits(s)) as u32
    } else {
        0
    }
}

/// Reads a task id from typed text; text that is not an unsigned 32-bit
/// number gives 0.
pub fn parse_task_id(text: &str) -> (id: u32)
    ensures
        id == task_id_of(text@),
{
    let ghost d = id_digits(text@);
    let len = text.unicode_len();
    let mut start: usize = 0;
    if len > 0 && text.get_char(0) == '+' {
        start = 1;
    }
    assert(d == text@.subrange(start as int, len as int));
    if start == len {
        return 0;
    }
    let cap: u64 = 0x1_0000_0000;
    let mut value: u64 = 0;
    let mut i: usize = start;
    while i < len
        invariant
            start <= i <= len,
            len == text@.len(),
            d == text@.subrange(start as int, len as int),
            d == id_digits(text@),
            cap == 0x1_0000_0000,
            forall|j: int| start <= j < i ==> is_digit(#[trigger] text@[j]),
            value == if digits_value(text@.subrange(start as int, i as int)) < cap {
                digits_value(text@.subrange(start as int, i as int))
            } else {
                cap as nat
            },
        decreases len - i,
    {
        let c = text.get_char(i);
        if !('0' <= c && c <= '9') {
            assert(d[i - start] == c);
            assert(!is_digit(d[i - start]));
            return 0;
        }
        let ghost prefix = text@.subrange(start as int, i as int);
        let ghost next = text@.subrange(start as int, i + 1);
        assert(next.drop_last() =~= prefix);
        let digit = (c as u32 - '0' as u32) as u64;
        let stepped = value * 10 + digit;
        proof {
            let v = digits_value(prefix);
            assert(digits_value(next) == v * 10 + digit);
            if v >= cap {
                assert(v * 10 + digit >= cap) by (nonlinear_arith)
                    requires
                        v >= cap,
                        digit >= 0,
                ;
            }
        }
        value = if stepped < cap {
            stepped
        } else {
            cap
        };
        i += 1;
    }
    assert(text@.subrange(start as int, len as int) =~= d);
    if value < cap {
        value as u32
    } else {
        0
    }
}

} // verus!

use vstd::prelude::*;

verus! {

/// What the menu offers while nobody is logged in.
#[derive(PartialEq, Eq, Structural, Clone, Copy, Debug)]
pub enum GuestAction {
    Register,
    Login,
    Exit,
}

/// What the menu offers to a logged-in account.
#[derive(PartialEq, Eq, Structural, Clone, Copy, Debug)]
pub enum MemberAction {
    AddTask,
    ListTasks,
    EditTask,
    DeleteTask,
    CompleteTask,
    SaveAndExit,
}

/// The single character of a one-character choice.
pub open spec fn single_char(s: Seq<char>) -> Option<char> {
    if s.len() == 1 {
        Some(s[0])
    } else {
        None
    }
}

/// The logged-out menu: `1` registers, `2` logs in, `3` exits.
pub open spec fn guest_action_of(s: Seq<char>) -> Option<GuestAction> {
    match single_char(s) {
        Some('1') => Some(GuestAction::Register),
        Some('2') => Some(GuestAction::Login),
        Some('3') => Some(GuestAction::Exit),
        _ => None,
    }
}

/// The logged-in menu: `1` add, `2` list, `3` edit, `4` delete,
/// `5` complete, `6` save and exit.
pub open spec fn member_action_of(s: Seq<char>) -> Option<MemberAction> {
    match single_char(s) {
        Some('1') => Some(MemberAction::AddTask),
        Some('2') => Some(MemberAction::ListTasks),
        Some('3') => Some(MemberAction::EditTask),
        Some('4') => Some(MemberAction::DeleteTask),
        Some('5') => Some(MemberAction::CompleteTask),
        Some('6') => Some(MemberAction::SaveAndExit),
        _ => None,
    }
}

fn read_single_char(choice: &str) -> (r: Option<char>)
    ensures
        r == single_char(choice@),
{
    if choice.unicode_len() == 1 {
        Some(choice.get_char(0))
    } else {
        None
    }
}

/// The logged-out menu entry that a typed choice picks, if any.
pub fn guest_action(choice: &str) -> (r: Option<GuestAction>)
    ensures
        r == guest_action_of(choice@),
{
    match read_single_char(choice) {
        Some('1') => Some(GuestAction::Register),
        Some('2') => Some(GuestAction::Login),
        Some('3') => Some(GuestAction::Exit),
        _ => None,
    }
}

/// The logged-in menu entry that a typed choice picks, if any.
pub fn member_action(choice: &str) -> (r: Option<MemberAction>)
    ensures
        r == member_action_of(choice@),
{
    match read_single_char(choice) {
        Some('1') => Some(MemberAction::AddTask),
        Some('2') => Some(MemberAction::ListTasks),
        Some('3') => Some(MemberAction::EditTask),
        Some('4') => Some(MemberAction::DeleteTask),
        Some('5') => Some(MemberAction::CompleteTask),
        Some('6') => Some(MemberAction::SaveAndExit),
        _ => None,
    }
}

} // verus!

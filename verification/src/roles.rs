use vstd::prelude::*;
use crate::text::text_eq;

verus! {

/// A member's role in an organization, from most to least privileged.
#[derive(Clone, Copy, Debug, PartialEq, Eq, Structural, Hash)]
pub enum UserRole {
    Owner,
    Director,
    SeniorManager,
    Manager,
    Worker,
    DocumentWorker,
    Contractor,
    Guest,
}

/// The role that a role selector's value names; anything unknown is a guest.
pub open spec fn role_named(s: Seq<char>) -> UserRole {
    if s == "Owner"@ {
        UserRole::Owner
    } else if s == "Director"@ {
        UserRole::Director
    } else if s == "SeniorManager"@ {
        UserRole::SeniorManager
    } else if s == "Manager"@ {
        UserRole::Manager
    } else if s == "Worker"@ {
        UserRole::Worker
    } else if s == "DocumentWorker"@ {
        UserRole::DocumentWorker
    } else if s == "Contractor"@ {
        UserRole::Contractor
    } else {
        UserRole::Guest
    }
}

/// The value that a role selector's option carries for a role.
pub open spec fn role_value_text(r: UserRole) -> Seq<char> {
    match r {
        UserRole::Owner => "Owner"@,
        UserRole::Director => "Director"@,
        UserRole::SeniorManager => "SeniorManager"@,
        UserRole::Manager => "Manager"@,
        UserRole::Worker => "Worker"@,
        UserRole::DocumentWorker => "DocumentWorker"@,
        UserRole::Contractor => "Contractor"@,
        UserRole::Guest => "Guest"@,
    }
}

/// The human-readable name of a role.
pub open spec fn role_display_text(r: UserRole) -> Seq<char> {
    match r {
        UserRole::Owner => "Owner"@,
        UserRole::Director => "Director"@,
        UserRole::SeniorManager => "Senior Manager"@,
        UserRole::Manager => "Manager"@,
        UserRole::Worker => "Worker"@,
        UserRole::DocumentWorker => "Document Worker"@,
        UserRole::Contractor => "Contractor"@,
        UserRole::Guest => "Guest"@,
    }
}

/// Reads a role selector's value.
pub fn role_from_str(s: &str) -> (r: UserRole)
    ensures
        r == role_named(s@),
{
    if text_eq(s, "Owner") {
        UserRole::Owner
    } else if text_eq(s, "Director") {
        UserRole::Director
    } else if text_eq(s, "SeniorManager") {
        UserRole::SeniorManager
    } else if text_eq(s, "Manager") {
        UserRole::Manager
    } else if text_eq(s, "Worker") {
        UserRole::Worker
    } else if text_eq(s, "DocumentWorker") {
        UserRole::DocumentWorker
    } else if text_eq(s, "Contractor") {
        UserRole::Contractor
    } else {
        UserRole::Guest
    }
}

/// The value that a role selector's option carries for `role`.
pub fn role_value(role: &UserRole) -> (s: &'static str)
    ensures
        s@ == role_value_text(*role),
{
    match role {
        UserRole::Owner => "Owner",
        UserRole::Director => "Director",
        UserRole::SeniorManager => "SeniorManager",
        UserRole::Manager => "Manager",
        UserRole::Worker => "Worker",
        UserRole::DocumentWorker => "DocumentWorker",
        UserRole::Contractor => "Contractor",
        UserRole::Guest => "Guest",
    }
}

/// The human-readable name of `role`.
pub fn role_display(role: &UserRole) -> (s: &'static str)
    ensures
        s@ == role_display_text(*role),
{
    match role {
        UserRole::Owner => "Owner",
        UserRole::Director => "Director",
        UserRole::SeniorManager => "Senior Manager",
        UserRole::Manager => "Manager",
        UserRole::Worker => "Worker",
        UserRole::DocumentWorker => "Document Worker",
        UserRole::Contractor => "Contractor",
        UserRole::Guest => "Guest",
    }
}

/// The name of a role as the notification settings show it.
pub fn role_label(r: &UserRole) -> (s: &'static str)
    ensures
        s@ == role_display_text(*r),
{
    match r {
        UserRole::Owner => "Owner",
        UserRole::Director => "Director",
        UserRole::SeniorManager => "Senior Manager",
        UserRole::Manager => "Manager",
        UserRole::Worker => "Worker",
        UserRole::DocumentWorker => "Document Worker",
        UserRole::Contractor => "Contractor",
        UserRole::Guest => "Guest",
    }
}

/// Roles that may manage an organization: owners, directors and managers.
pub open spec fn manages_organization(r: UserRole) -> bool {
    r == UserRole::Owner || r == UserRole::Director || r == UserRole::SeniorManager
        || r == UserRole::Manager
}

/// Whether a member with `role` may manage an organization's portfolios, roles and members.
pub fn can_manage_organization(role: UserRole) -> (b: bool)
    ensures
        b == manages_organization(role),
{
    match role {
        UserRole::Owner | UserRole::Director | UserRole::SeniorManager | UserRole::Manager => true,
        _ => false,
    }
}

/// Whether a member with `role` may edit a portfolio: owners and managers only.
pub fn can_edit_portfolio(role: UserRole) -> (b: bool)
    ensures
        b == (role == UserRole::Owner || role == UserRole::Manager),
{
    role == UserRole::Owner || role == UserRole::Manager
}

/// Reading back the value that a role's selector option carries gives that role.
pub proof fn lemma_role_value_round_trip(r: UserRole)
    ensures
        role_named(role_value_text(r)) == r,
{
    reveal_strlit("Owner");
    reveal_strlit("Director");
    reveal_strlit("SeniorManager");
    reveal_strlit("Manager");
    reveal_strlit("Worker");
    reveal_strlit("DocumentWorker");
    reveal_strlit("Contractor");
    reveal_strlit("Guest");
    assert("Owner"@.len() == 5 && "Director"@.len() == 8 && "SeniorManager"@.len() == 13);
    assert("Manager"@.len() == 7 && "Worker"@.len() == 6 && "DocumentWorker"@.len() == 14);
    assert("Contractor"@.len() == 10 && "Guest"@.len() == 5);
    assert("Guest"@[0] != "Owner"@[0]);
}

} // verus!

verus! {

impl crate::lists::ListItem for UserRole {
    fn same(&self, other: &Self) -> (b: bool) {
        *self == *other
    }
}

} // verus!

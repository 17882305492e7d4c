//! Permissions that members and roles hold, and the scope of a role across the permission
//! areas of an organization.

use vstd::prelude::*;
use crate::text::{chars_of, push_text, string_of};
use crate::numbers::{decimal_spec, push_decimal};

verus! {

/// A permission.
#[derive(Clone, Debug, PartialEq, Eq)]
pub enum Permission {
    ViewOwn,
    ViewOrganization,
    ViewAll,
    CreateOwn,
    CreateOrganization,
    EditOwn,
    EditOrganization,
    EditAll,
    DeleteOwn,
    DeleteOrganization,
    DeleteAll,
    ManageUsers,
    ManageRoles,
    ManagePayments,
    ManageSettings,
    ExportData,
    ImportData,
    EditDocuments,
    Custom(String),
}

/// The label of a permission.
pub open spec fn permission_text(p: Permission) -> Seq<char> {
    match p {
        Permission::ViewOwn => "View own"@,
        Permission::ViewOrganization => "View organization"@,
        Permission::ViewAll => "View all"@,
        Permission::CreateOwn => "Create own"@,
        Permission::CreateOrganization => "Create organization"@,
        Permission::EditOwn => "Edit own"@,
        Permission::EditOrganization => "Edit organization"@,
        Permission::EditAll => "Edit all"@,
        Permission::DeleteOwn => "Delete own"@,
        Permission::DeleteOrganization => "Delete organization"@,
        Permission::DeleteAll => "Delete all"@,
        Permission::ManageUsers => "Manage users"@,
        Permission::ManageRoles => "Manage roles"@,
        Permission::ManagePayments => "Manage payments"@,
        Permission::ManageSettings => "Manage settings"@,
        Permission::ExportData => "Export data"@,
        Permission::ImportData => "Import data"@,
        Permission::EditDocuments => "Edit documents"@,
        Permission::Custom(s) => "Custom: "@ + s@,
    }
}

/// The label of a permission, as a member's permission badges show it.
pub fn permission_label(p: &Permission) -> (s: String)
    ensures
        s@ == permission_text(*p),
{
    let fixed = match p {
        Permission::ViewOwn => "View own",
        Permission::ViewOrganization => "View organization",
        Permission::ViewAll => "View all",
        Permission::CreateOwn => "Create own",
        Permission::CreateOrganization => "Create organization",
        Permission::EditOwn => "Edit own",
        Permission::EditOrganization => "Edit organization",
        Permission::EditAll => "Edit all",
        Permission::DeleteOwn => "Delete own",
        Permission::DeleteOrganization => "Delete organization",
        Permission::DeleteAll => "Delete all",
        Permission::ManageUsers => "Manage users",
        Permission::ManageRoles => "Manage roles",
        Permission::ManagePayments => "Manage payments",
        Permission::ManageSettings => "Manage settings",
        Permission::ExportData => "Export data",
        Permission::ImportData => "Import data",
        Permission::EditDocuments => "Edit documents",
        Permission::Custom(c) => {
            let mut s = string_of(&chars_of("Custom: "));
            push_text(&mut s, c.as_str());
            return s;
        },
    };
    string_of(&chars_of(fixed))
}

/// What a role may do in each permission area of an organization (areas are numbered in
/// the order the scope matrix lists them): whether it may view and whether it may edit.
#[derive(Clone, Debug)]
pub struct RoleScope {
    pub view: Vec<bool>,
    pub edit: Vec<bool>,
}

/// The number of areas in which `flags` holds.
pub open spec fn count_true(flags: Seq<bool>) -> nat
    decreases flags.len(),
{
    if flags.len() == 0 {
        0
    } else {
        count_true(flags.drop_last()) + if flags.last() {
            1nat
        } else {
            0nat
        }
    }
}

/// How a scope reads: `Entire organization` when it may view and edit every area,
/// `No access` when it may do neither in any, otherwise how many areas it may view and edit.
pub open spec fn scope_text(view: Seq<bool>, edit: Seq<bool>) -> Seq<char> {
    let v = count_true(view);
    let e = count_true(edit);
    if v == view.len() && e == edit.len() {
        "Entire organization"@
    } else if v == 0 && e == 0 {
        "No access"@
    } else {
        "Custom: view "@ + decimal_spec(v) + ", edit "@ + decimal_spec(e)
    }
}

/// The built-in permission whose label is `t`, if any.
pub open spec fn permission_named(t: Seq<char>) -> Option<Permission> {
    if t == "View own"@ {
        Some(Permission::ViewOwn)
    } else if t == "View organization"@ {
        Some(Permission::ViewOrganization)
    } else if t == "View all"@ {
        Some(Permission::ViewAll)
    } else if t == "Create own"@ {
        Some(Permission::CreateOwn)
    } else if t == "Create organization"@ {
        Some(Permission::CreateOrganization)
    } else if t == "Edit own"@ {
        Some(Permission::EditOwn)
    } else if t == "Edit organization"@ {
        Some(Permission::EditOrganization)
    } else if t == "Edit all"@ {
        Some(Permission::EditAll)
    } else if t == "Delete own"@ {
        Some(Permission::DeleteOwn)
    } else if t == "Delete organization"@ {
        Some(Permission::DeleteOrganization)
    } else if t == "Delete all"@ {
        Some(Permission::DeleteAll)
    } else if t == "Manage users"@ {
        Some(Permission::ManageUsers)
    } else if t == "Manage roles"@ {
        Some(Permission::ManageRoles)
    } else if t == "Manage payments"@ {
        Some(Permission::ManagePayments)
    } else if t == "Manage settings"@ {
        Some(Permission::ManageSettings)
    } else if t == "Export data"@ {
        Some(Permission::ExportData)
    } else if t == "Import data"@ {
        Some(Permission::ImportData)
    } else if t == "Edit documents"@ {
        Some(Permission::EditDocuments)
    } else {
        None
    }
}

/// Each built-in permission has its own label, which reads back as that permission, and no
/// built-in label starts with `Custom: `, so none is the label of a custom permission.
pub proof fn lemma_permission_labels_distinct(p: Permission, q: Permission, custom: Seq<char>)
    requires
        !(p is Custom),
        !(q is Custom),
    ensures
        permission_named(permission_text(p)) == Some(p),
        p != q ==> permission_text(p) != permission_text(q),
        !"Custom: "@.is_prefix_of(permission_text(p)),
        permission_text(p) != "Custom: "@ + custom,
{
    reveal_strlit("View own");
    reveal_strlit("View organization");
    reveal_strlit("View all");
    reveal_strlit("Create own");
    reveal_strlit("Create organization");
    reveal_strlit("Edit own");
    reveal_strlit("Edit organization");
    reveal_strlit("Edit all");
    reveal_strlit("Delete own");
    reveal_strlit("Delete organization");
    reveal_strlit("Delete all");
    reveal_strlit("Manage users");
    reveal_strlit("Manage roles");
    reveal_strlit("Manage payments");
    reveal_strlit("Manage settings");
    reveal_strlit("Export data");
    reveal_strlit("Import data");
    reveal_strlit("Edit documents");
    reveal_strlit("Custom: ");
    assert("View own"@.len() == 8);
    assert("View organization"@.len() == 17);
    assert("View all"@.len() == 8);
    assert("Create own"@.len() == 10);
    assert("Create organization"@.len() == 19);
    assert("Edit own"@.len() == 8);
    assert("Edit organization"@.len() == 17);
    assert("Edit all"@.len() == 8);
    assert("Delete own"@.len() == 10);
    assert("Delete organization"@.len() == 19);
    assert("Delete all"@.len() == 10);
    assert("Manage users"@.len() == 12);
    assert("Manage roles"@.len() == 12);
    assert("Manage payments"@.len() == 15);
    assert("Manage settings"@.len() == 15);
    assert("Export data"@.len() == 11);
    assert("Import data"@.len() == 11);
    assert("Edit documents"@.len() == 14);
    assert("View own"@[5] != "View all"@[5]);
    assert("View own"@[0] != "Edit own"@[0]);
    assert("View own"@[0] != "Edit all"@[0]);
    assert("View all"@[0] != "Edit own"@[0]);
    assert("View all"@[0] != "Edit all"@[0]);
    assert("Edit own"@[5] != "Edit all"@[5]);
    assert("View organization"@[0] != "Edit organization"@[0]);
    assert("Create organization"@[0] != "Delete organization"@[0]);
    assert("Create own"@[0] != "Delete own"@[0]);
    assert("Create own"@[0] != "Delete all"@[0]);
    assert("Delete own"@[7] != "Delete all"@[7]);
    assert("Manage users"@[7] != "Manage roles"@[7]);
    assert("Manage payments"@[7] != "Manage settings"@[7]);
    assert("Export data"@[0] != "Import data"@[0]);
    assert(("Custom: "@ + custom)[1] == 'u');
    assert(permission_text(p)[1] != 'u');
    if "Custom: "@.is_prefix_of(permission_text(p)) {
        assert(permission_text(p).subrange(0, 8)[1] == "Custom: "@[1]);
    }
}

impl RoleScope {
    /// A copy of the scope.
    pub fn copy(&self) -> (r: RoleScope)
        ensures
            r.view@ == self.view@,
            r.edit@ == self.edit@,
    {
        let view = self.view.clone();
        let edit = self.edit.clone();
        assert(view@ =~= self.view@);
        assert(edit@ =~= self.edit@);
        RoleScope { view, edit }
    }
}

fn count_flags(flags: &Vec<bool>) -> (n: usize)
    ensures
        n == count_true(flags@),
        n <= flags.len(),
{
    let mut n: usize = 0;
    let mut i: usize = 0;
    assert(flags@.take(0) =~= Seq::<bool>::empty());
    while i < flags.len()
        invariant
            0 <= i <= flags.len(),
            n == count_true(flags@.take(i as int)),
            n <= i,
        decreases flags.len() - i,
    {
        assert(flags@.take(i + 1).drop_last() =~= flags@.take(i as int));
        if flags[i] {
            n = n + 1;
        }
        i = i + 1;
    }
    assert(flags@.take(flags.len() as int) =~= flags@);
    n
}

impl RoleScope {
    /// A scope over `areas` areas that may view and edit all of them.
    pub fn entire(areas: usize) -> (s: RoleScope)
        ensures
            s.view@.len() == areas,
            s.edit@.len() == areas,
            forall|g: int| 0 <= g < areas ==> #[trigger] s.view@[g] && s.edit@[g],
    {
        let mut view = Vec::new();
        let mut edit = Vec::new();
        let mut i: usize = 0;
        while i < areas
            invariant
                0 <= i <= areas,
                view@.len() == i,
                edit@.len() == i,
                forall|g: int| 0 <= g < i ==> #[trigger] view@[g] && edit@[g],
            decreases areas - i,
        {
            view.push(true);
            edit.push(true);
            i = i + 1;
        }
        RoleScope { view, edit }
    }

    /// Whether the role may view area `g`.
    pub fn can_view(&self, g: usize) -> (b: bool)
        ensures
            b == (g < self.view@.len() && self.view@[g as int]),
    {
        g < self.view.len() && self.view[g]
    }

    /// Whether the role may edit area `g`.
    pub fn can_edit(&self, g: usize) -> (b: bool)
        ensures
            b == (g < self.edit@.len() && self.edit@[g as int]),
    {
        g < self.edit.len() && self.edit[g]
    }

    /// Flips whether the role may view area `g`; edit rights stay as they were.
    pub fn toggle_view(&mut self, g: usize)
        ensures
            final(self).edit@ == old(self).edit@,
            final(self).view@ == if g < old(self).view@.len() {
                old(self).view@.update(g as int, !old(self).view@[g as int])
            } else {
                old(self).view@
            },
    {
        if g < self.view.len() {
            let cur = self.view[g];
            self.view.set(g, !cur);
        }
    }

    /// Flips whether the role may edit area `g`; view rights stay as they were.
    pub fn toggle_edit(&mut self, g: usize)
        ensures
            final(self).view@ == old(self).view@,
            final(self).edit@ == if g < old(self).edit@.len() {
                old(self).edit@.update(g as int, !old(self).edit@[g as int])
            } else {
                old(self).edit@
            },
    {
        if g < self.edit.len() {
            let cur = self.edit[g];
            self.edit.set(g, !cur);
        }
    }

    /// How the scope reads.
    pub fn display(&self) -> (s: String)
        ensures
            s@ == scope_text(self.view@, self.edit@),
    {
        let v = count_flags(&self.view);
        let e = count_flags(&self.edit);
        if v == self.view.len() && e == self.edit.len() {
            string_of(&chars_of("Entire organization"))
        } else if v == 0 && e == 0 {
            string_of(&chars_of("No access"))
        } else {
            let mut s = string_of(&chars_of("Custom: view "));
            push_decimal(&mut s, v as u64);
            push_text(&mut s, ", edit ");
            push_decimal(&mut s, e as u64);
            s
        }
    }
}

/// How a role's scope reads in its card.
pub fn scope_display(s: &RoleScope) -> (t: String)
    ensures
        t@ == scope_text(s.view@, s.edit@),
{
    s.display()
}

/// Toggling an area's view right twice gives the scope back.
pub proof fn lemma_toggle_view_twice(view: Seq<bool>, g: int)
    requires
        0 <= g < view.len(),
    ensures
        view.update(g, !view[g]).update(g, !view.update(g, !view[g])[g]) == view,
{
    assert(view.update(g, !view[g]).update(g, !view.update(g, !view[g])[g]) =~= view);
}

} // verus!

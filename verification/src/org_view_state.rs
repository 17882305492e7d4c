//! What the organization page remembers between clicks: the open tab of each organization
//! card, which cards, roles, permission groups and members are expanded, and what saving the
//! role editor does.

use vstd::prelude::*;
use std::collections::{HashMap, HashSet};
use crate::lists::{flipped, lemma_flipped, ItemSet, ListItem};
use crate::permissions::RoleScope;
use crate::text::{blank, is_blank, optional_text_spec, optional_text, text_of};

verus! {

broadcast use vstd::std_specs::hash::group_hash_axioms;

/// The tabs of an expanded organization card.
#[derive(Clone, Copy, Debug, PartialEq, Eq, Structural)]
pub enum OrgTab {
    Portfolios,
    Roles,
    Members,
}

/// The name of a tab.
pub open spec fn tab_name_spec(t: OrgTab) -> Seq<char> {
    match t {
        OrgTab::Portfolios => "portfolios"@,
        OrgTab::Roles => "roles"@,
        OrgTab::Members => "members"@,
    }
}

/// The name of a tab.
pub fn tab_name(t: OrgTab) -> (s: &'static str)
    ensures
        s@ == tab_name_spec(t),
{
    match t {
        OrgTab::Portfolios => "portfolios",
        OrgTab::Roles => "roles",
        OrgTab::Members => "members",
    }
}

/// The open tab of organization `oid`: the one last chosen for it, or the portfolios tab.
pub open spec fn tab_of(tabs: Map<u128, OrgTab>, oid: u128) -> OrgTab {
    if tabs.contains_key(oid) {
        tabs[oid]
    } else {
        OrgTab::Portfolios
    }
}

/// The open tab of organization `oid`.
pub fn get_org_tab(tabs: &HashMap<u128, OrgTab>, oid: u128) -> (t: OrgTab)
    ensures
        t == tab_of(tabs@, oid),
{
    match tabs.get(&oid) {
        Some(t) => *t,
        None => OrgTab::Portfolios,
    }
}

/// Opens tab `tab` of organization `oid`.
pub fn set_org_tab(tabs: &mut HashMap<u128, OrgTab>, oid: u128, tab: OrgTab)
    ensures
        final(tabs)@ == old(tabs)@.insert(oid, tab),
{
    tabs.insert(oid, tab);
}

/// A card whose tab was just chosen shows that tab, and every other card keeps its tab; a
/// card that no one chose a tab for shows its portfolios.
pub proof fn lemma_tab_after_set(tabs: Map<u128, OrgTab>, oid: u128, tab: OrgTab, other: u128)
    ensures
        tab_of(tabs.insert(oid, tab), oid) == tab,
        other != oid ==> tab_of(tabs.insert(oid, tab), other) == tab_of(tabs, other),
        tab_of(Map::empty(), other) == OrgTab::Portfolios,
{
}

/// Expands a collapsed organization card, or collapses an expanded one.
pub fn toggle_org(expanded: &mut HashSet<u128>, oid: u128)
    ensures
        final(expanded)@ == flipped(old(expanded)@, oid),
{
    if !expanded.remove(&oid) {
        expanded.insert(oid);
    }
}

/// Expands an organization card, as its context menu's actions do before they open a tab.
pub fn expand_org(expanded: &mut HashSet<u128>, oid: u128)
    ensures
        final(expanded)@ == old(expanded)@.insert(oid),
{
    expanded.insert(oid);
}

/// Toggling a card changes whether it is expanded and leaves every other card as it was;
/// toggling it twice leaves all as it was. This holds of each set of expanded cards:
/// organizations, roles, members and permission groups.
pub proof fn lemma_toggle_org(s: Set<u128>, x: u128, y: u128)
    ensures
        flipped(s, x).contains(x) == !s.contains(x),
        y != x ==> flipped(s, x).contains(y) == s.contains(y),
        flipped(flipped(s, x), x) == s,
{
    lemma_flipped(s, x, y);
}

/// A card inside an organization card: a role or a member, by its id.
#[derive(Clone, Copy, Debug, PartialEq, Eq, Structural)]
pub struct CardKey {
    pub org: u128,
    pub id: u128,
}

impl ListItem for CardKey {
    fn same(&self, other: &Self) -> (b: bool) {
        self.org == other.org && self.id == other.id
    }
}

/// A permission group of a role, numbered in the order the groups are listed.
#[derive(Clone, Copy, Debug, PartialEq, Eq, Structural)]
pub struct GroupKey {
    pub org: u128,
    pub role: u128,
    pub group: usize,
}

impl ListItem for GroupKey {
    fn same(&self, other: &Self) -> (b: bool) {
        self.org == other.org && self.role == other.role && self.group == other.group
    }
}

/// Expands a collapsed role card of organization `oid`, or collapses an expanded one.
pub fn toggle_role(expanded: &mut ItemSet<CardKey>, oid: u128, rid: u128)
    ensures
        final(expanded)@ == flipped(old(expanded)@, CardKey { org: oid, id: rid }),
{
    expanded.toggle(CardKey { org: oid, id: rid });
}

/// Expands a collapsed member card of organization `oid`, or collapses an expanded one.
pub fn toggle_member(expanded: &mut ItemSet<CardKey>, oid: u128, uid: u128)
    ensures
        final(expanded)@ == flipped(old(expanded)@, CardKey { org: oid, id: uid }),
{
    expanded.toggle(CardKey { org: oid, id: uid });
}

/// Expands a collapsed permission group (numbered `group`) of a role, or collapses an
/// expanded one.
pub fn toggle_perm_group(expanded: &mut ItemSet<GroupKey>, oid: u128, rid: u128, group: usize)
    ensures
        final(expanded)@ == flipped(old(expanded)@, GroupKey { org: oid, role: rid, group }),
{
    expanded.toggle(GroupKey { org: oid, role: rid, group });
}

/// What saving the role editor asks the store to do.
pub enum RoleSave {
    /// Nothing: no role is being edited, or the name is blank (the editor stays open).
    Nothing,
    /// Adds a role of rank 0 with no permissions to the organization.
    Create { org_id: u128, name: String, description: String, color: Option<String>, scope: RoleScope },
    /// Updates a role of the organization.
    Update {
        org_id: u128,
        role_id: u128,
        name: String,
        description: String,
        color: Option<String>,
        scope: RoleScope,
    },
}

/// Whether `r` is the request to store the editor's fields: name and description as typed,
/// a blank color as none, and the scope.
pub open spec fn role_fields_are(
    name: String,
    description: String,
    color: Option<String>,
    scope: RoleScope,
    name_in: Seq<char>,
    description_in: Seq<char>,
    color_in: Seq<char>,
    scope_in: RoleScope,
) -> bool {
    &&& name@ == name_in
    &&& description@ == description_in
    &&& text_of(color) == optional_text_spec(color_in)
    &&& scope.view@ == scope_in.view@
    &&& scope.edit@ == scope_in.edit@
}

/// What saving the role editor does. `editing` is the organization and role being edited,
/// the role being the nil id for a new role. With nothing being edited or a blank name it
/// does nothing; otherwise it creates or updates the role, and the editor closes.
pub fn role_save(editing: Option<(u128, u128)>, name: &str, description: &str, color: &str, scope: &RoleScope) -> (r: RoleSave)
    ensures
        r is Nothing <==> (editing is None || blank(name@)),
        r matches RoleSave::Create { org_id, name: n, description: d, color: c, scope: s } ==> {
            &&& editing == Some((org_id, 0u128))
            &&& role_fields_are(n, d, c, s, name@, description@, color@, *scope)
        },
        r matches RoleSave::Update { org_id, role_id, name: n, description: d, color: c, scope: s } ==> {
            &&& editing == Some((org_id, role_id))
            &&& role_id != 0
            &&& role_fields_are(n, d, c, s, name@, description@, color@, *scope)
        },
{
    match editing {
        None => RoleSave::Nothing,
        Some((oid, rid)) => {
            if is_blank(name) {
                return RoleSave::Nothing;
            }
            let n = name.to_string();
            let d = description.to_string();
            let c = optional_text(color);
            let s = scope.copy();
            if rid == 0 {
                RoleSave::Create { org_id: oid, name: n, description: d, color: c, scope: s }
            } else {
                RoleSave::Update { org_id: oid, role_id: rid, name: n, description: d, color: c, scope: s }
            }
        },
    }
}

} // verus!

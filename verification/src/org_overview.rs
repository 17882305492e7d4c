//! What an organization card shows: its owner and counts, the members and roles it lists,
//! and the one-line summaries of members, roles and portfolios.

use vstd::prelude::*;
use vstd::pervasive::VecAdditionalExecFns;
use crate::numbers::{decimal_spec, push_decimal};
use crate::organizations::{MemberDraft, OrgRole, Organization};
use crate::permissions::{scope_display, scope_text, RoleScope};
use crate::roles::{role_display, role_display_text, UserRole};
use crate::text::{chars_of, optional_trimmed, optional_trimmed_spec, push_text, string_of, text_of};

verus! {

/// A user of the organization store.
#[derive(Clone, Debug)]
pub struct Member {
    pub id: u128,
    pub name: String,
    pub email: String,
    pub role: UserRole,
}

/// What an organization card reads of a portfolio.
#[derive(Clone, Debug)]
pub struct PortfolioInfo {
    pub id: u128,
    pub name: String,
    pub organization_id: Option<u128>,
    pub assigned_users: Vec<u128>,
    pub document_count: usize,
    pub direct_asset_count: usize,
    pub group_asset_counts: Vec<usize>,
}

/// The position of the first member with id `id`.
pub open spec fn first_member(users: Seq<Member>, id: u128) -> Option<int> {
    if exists|k: int| 0 <= k < users.len() && users[k].id == id {
        Some(
            choose|k: int|
                0 <= k < users.len() && users[k].id == id && forall|j: int|
                    0 <= j < k ==> #[trigger] users[j].id != id,
        )
    } else {
        None
    }
}

/// The name an organization card gives its owner: that of the first user with the owner's
/// id, or `Unknown`.
pub open spec fn owner_name_spec(users: Seq<Member>, owner_id: u128) -> Seq<char> {
    match first_member(users, owner_id) {
        Some(k) => users[k].name@,
        None => "Unknown"@,
    }
}

/// The name an organization card gives its owner.
pub fn owner_name(users: &Vec<Member>, owner_id: u128) -> (s: String)
    ensures
        s@ == owner_name_spec(users@, owner_id),
{
    let mut k: usize = 0;
    while k < users.len() && users[k].id != owner_id
        invariant
            0 <= k <= users.len(),
            forall|j: int| 0 <= j < k ==> #[trigger] users@[j].id != owner_id,
        decreases users.len() - k,
    {
        k = k + 1;
    }
    if k < users.len() {
        proof {
            let c = choose|c: int|
                0 <= c < users@.len() && users@[c].id == owner_id && forall|j: int|
                    0 <= j < c ==> #[trigger] users@[j].id != owner_id;
            if c < k {
            } else if c > k {
                assert(users@[k as int].id == owner_id);
            }
        }
        string_of(&chars_of(users[k].name.as_str()))
    } else {
        "Unknown".to_string()
    }
}

/// The positions in `users` of those whose ids `ids` lists (or, with `inside` false, of
/// those it does not list), in order.
pub open spec fn positions_listed(users: Seq<Member>, ids: Seq<u128>, inside: bool) -> Seq<usize>
    decreases users.len(),
{
    if users.len() == 0 {
        Seq::empty()
    } else {
        let rest = positions_listed(users.drop_last(), ids, inside);
        if ids.contains(users.last().id) == inside {
            rest.push((users.len() - 1) as usize)
        } else {
            rest
        }
    }
}

/// Whether `id` is in `ids`.
fn lists_id(ids: &Vec<u128>, id: u128) -> (b: bool)
    ensures
        b == ids@.contains(id),
{
    let mut i: usize = 0;
    while i < ids.len()
        invariant
            0 <= i <= ids.len(),
            forall|j: int| 0 <= j < i ==> ids@[j] != id,
        decreases ids.len() - i,
    {
        if ids[i] == id {
            return true;
        }
        i = i + 1;
    }
    false
}

/// The users an id list names, as positions in `users` (the members of an organization, or
/// of a role); with `inside` false, the users it does not name (those a role can still be
/// given).
pub fn users_listed(users: &Vec<Member>, ids: &Vec<u128>, inside: bool) -> (r: Vec<usize>)
    ensures
        r@ == positions_listed(users@, ids@, inside),
{
    let mut r: Vec<usize> = Vec::new();
    let mut i: usize = 0;
    while i < users.len()
        invariant
            0 <= i <= users.len(),
            r@ == positions_listed(users@.take(i as int), ids@, inside),
        decreases users.len() - i,
    {
        assert(users@.take(i + 1).drop_last() =~= users@.take(i as int));
        if lists_id(ids, users[i].id) == inside {
            r.push(i);
        }
        i = i + 1;
    }
    assert(users@.take(users.len() as int) =~= users@);
    r
}

/// The names of the roles that `uid` holds, in the order of the roles.
pub open spec fn role_names_of(roles: Seq<OrgRole>, uid: u128) -> Seq<Seq<char>>
    decreases roles.len(),
{
    if roles.len() == 0 {
        Seq::empty()
    } else {
        let rest = role_names_of(roles.drop_last(), uid);
        if roles.last().member_ids@.contains(uid) {
            rest.push(roles.last().name@)
        } else {
            rest
        }
    }
}

/// The names of the roles that a member holds, as the member card lists them.
pub fn member_role_names(roles: &Vec<OrgRole>, uid: u128) -> (names: Vec<String>)
    ensures
        names@.map_values(|s: String| s@) == role_names_of(roles@, uid),
{
    let mut names: Vec<String> = Vec::new();
    let mut i: usize = 0;
    while i < roles.len()
        invariant
            0 <= i <= roles.len(),
            names@.map_values(|s: String| s@) == role_names_of(roles@.take(i as int), uid),
        decreases roles.len() - i,
    {
        assert(roles@.take(i + 1).drop_last() =~= roles@.take(i as int));
        let ghost before = names@;
        if lists_id(&roles[i].member_ids, uid) {
            names.push(string_of(&chars_of(roles[i].name.as_str())));
            assert(names@.map_values(|s: String| s@) =~= before.map_values(|s: String| s@).push(
                roles@[i as int].name@,
            ));
        }
        i = i + 1;
    }
    assert(roles@.take(roles.len() as int) =~= roles@);
    names
}

/// The names of the portfolios assigned to `uid`, in order.
pub open spec fn portfolio_names_of(portfolios: Seq<PortfolioInfo>, uid: u128) -> Seq<Seq<char>>
    decreases portfolios.len(),
{
    if portfolios.len() == 0 {
        Seq::empty()
    } else {
        let rest = portfolio_names_of(portfolios.drop_last(), uid);
        if portfolios.last().assigned_users@.contains(uid) {
            rest.push(portfolios.last().name@)
        } else {
            rest
        }
    }
}

/// The names of the portfolios a member can reach, as the member card lists them.
pub fn accessible_portfolio_names(portfolios: &Vec<PortfolioInfo>, uid: u128) -> (names: Vec<String>)
    ensures
        names@.map_values(|s: String| s@) == portfolio_names_of(portfolios@, uid),
{
    let mut names: Vec<String> = Vec::new();
    let mut i: usize = 0;
    while i < portfolios.len()
        invariant
            0 <= i <= portfolios.len(),
            names@.map_values(|s: String| s@) == portfolio_names_of(portfolios@.take(i as int), uid),
        decreases portfolios.len() - i,
    {
        assert(portfolios@.take(i + 1).drop_last() =~= portfolios@.take(i as int));
        let ghost before = names@;
        if lists_id(&portfolios[i].assigned_users, uid) {
            names.push(string_of(&chars_of(portfolios[i].name.as_str())));
            assert(names@.map_values(|s: String| s@) =~= before.map_values(|s: String| s@).push(
                portfolios@[i as int].name@,
            ));
        }
        i = i + 1;
    }
    assert(portfolios@.take(portfolios.len() as int) =~= portfolios@);
    names
}

/// How many of the portfolios belong to the organization `oid`.
pub open spec fn org_portfolio_count(ps: Seq<PortfolioInfo>, oid: u128) -> nat
    decreases ps.len(),
{
    if ps.len() == 0 {
        0
    } else {
        org_portfolio_count(ps.drop_last(), oid) + if ps.last().organization_id == Some(oid) {
            1nat
        } else {
            0nat
        }
    }
}

/// How many documents the portfolios of the organization `oid` hold together.
pub open spec fn org_document_count(ps: Seq<PortfolioInfo>, oid: u128) -> nat
    decreases ps.len(),
{
    if ps.len() == 0 {
        0
    } else {
        org_document_count(ps.drop_last(), oid) + if ps.last().organization_id == Some(oid) {
            ps.last().document_count as nat
        } else {
            0nat
        }
    }
}

/// The overview at the top of an expanded organization card.
#[derive(Clone, Debug)]
pub struct OrgSummary {
    pub owner_name: String,
    pub portfolio_count: usize,
    pub member_count: usize,
    pub role_count: usize,
    pub document_count: usize,
}

/// The overview of an organization: its owner's name, how many of the portfolios belong to
/// it and how many documents those hold, and its numbers of members and roles.
pub fn org_summary(org: &Organization, users: &Vec<Member>, portfolios: &Vec<PortfolioInfo>) -> (s: OrgSummary)
    requires
        org_document_count(portfolios@, org.id) <= usize::MAX,
    ensures
        s.owner_name@ == owner_name_spec(users@, org.owner_id),
        s.portfolio_count == org_portfolio_count(portfolios@, org.id),
        s.document_count == org_document_count(portfolios@, org.id),
        s.member_count == org.members@.len(),
        s.role_count == org.roles@.len(),
{
    let mut count: usize = 0;
    let mut docs: usize = 0;
    let mut i: usize = 0;
    while i < portfolios.len()
        invariant
            0 <= i <= portfolios.len(),
            count == org_portfolio_count(portfolios@.take(i as int), org.id),
            docs == org_document_count(portfolios@.take(i as int), org.id),
            count <= i,
            org_document_count(portfolios@, org.id) <= usize::MAX,
        decreases portfolios.len() - i,
    {
        assert(portfolios@.take(i + 1).drop_last() =~= portfolios@.take(i as int));
        proof {
            lemma_document_count_prefix(portfolios@, org.id, i + 1);
        }
        if portfolios[i].organization_id == Some(org.id) {
            count = count + 1;
            docs = docs + portfolios[i].document_count;
        }
        i = i + 1;
    }
    assert(portfolios@.take(portfolios.len() as int) =~= portfolios@);
    OrgSummary {
        owner_name: owner_name(users, org.owner_id),
        portfolio_count: count,
        member_count: org.members.len(),
        role_count: org.roles.len(),
        document_count: docs,
    }
}

proof fn lemma_document_count_prefix(ps: Seq<PortfolioInfo>, oid: u128, n: int)
    requires
        0 <= n <= ps.len(),
    ensures
        org_document_count(ps.take(n), oid) <= org_document_count(ps, oid),
    decreases ps.len(),
{
    if n < ps.len() {
        assert(ps.drop_last().take(n) =~= ps.take(n));
        lemma_document_count_prefix(ps.drop_last(), oid, n);
    } else {
        assert(ps.take(n) =~= ps);
    }
}

/// The count line of an organization card.
pub open spec fn org_counts_spec(portfolios: nat, members: nat, roles: nat) -> Seq<char> {
    decimal_spec(portfolios) + " portfolios · "@ + decimal_spec(members) + " members · "@
        + decimal_spec(roles) + " roles"@
}

/// The count line of an organization card, such as `2 portfolios · 3 members · 1 roles`.
pub fn org_counts_text(portfolios: usize, members: usize, roles: usize) -> (s: String)
    ensures
        s@ == org_counts_spec(portfolios as nat, members as nat, roles as nat),
{
    let mut s = String::new();
    push_decimal(&mut s, portfolios as u64);
    push_text(&mut s, " portfolios · ");
    push_decimal(&mut s, members as u64);
    push_text(&mut s, " members · ");
    push_decimal(&mut s, roles as u64);
    push_text(&mut s, " roles");
    assert(s@ =~= org_counts_spec(portfolios as nat, members as nat, roles as nat));
    s
}

/// The line under a member's name: their role, their email and how many portfolios they
/// can reach.
pub open spec fn member_meta_spec(role: UserRole, email: Seq<char>, portfolios: nat) -> Seq<char> {
    role_display_text(role) + " · "@ + email + " · "@ + decimal_spec(portfolios) + " portfolio"@ + if portfolios
        == 1 {
        ""@
    } else {
        "s"@
    }
}

/// The line under a member's name, such as `Manager · a@b.c · 1 portfolio`.
pub fn member_meta_text(role: UserRole, email: &str, portfolios: usize) -> (s: String)
    ensures
        s@ == member_meta_spec(role, email@, portfolios as nat),
{
    let mut s = String::new();
    push_text(&mut s, role_display(&role));
    push_text(&mut s, " · ");
    push_text(&mut s, email);
    push_text(&mut s, " · ");
    push_decimal(&mut s, portfolios as u64);
    push_text(&mut s, " portfolio");
    if portfolios != 1 {
        push_text(&mut s, "s");
    }
    proof {
        reveal_strlit("");
    }
    assert(s@ =~= member_meta_spec(role, email@, portfolios as nat));
    s
}

/// The line under a role's name: its rank, its scope and its number of members.
pub open spec fn role_meta_spec(rank: nat, scope: Seq<char>, members: nat) -> Seq<char> {
    "Rank "@ + decimal_spec(rank) + " · "@ + scope + " · "@ + decimal_spec(members) + " members"@
}

/// The line under a role's name, such as `Rank 3 · Entire organization · 2 members`.
pub fn role_meta_text(rank: u32, scope: &RoleScope, members: usize) -> (s: String)
    ensures
        s@ == role_meta_spec(rank as nat, scope_text(scope.view@, scope.edit@), members as nat),
{
    let mut s = String::new();
    push_text(&mut s, "Rank ");
    push_decimal(&mut s, rank as u64);
    push_text(&mut s, " · ");
    let scope_line = scope_display(scope);
    push_text(&mut s, scope_line.as_str());
    push_text(&mut s, " · ");
    push_decimal(&mut s, members as u64);
    push_text(&mut s, " members");
    assert(s@ =~= role_meta_spec(rank as nat, scope_text(scope.view@, scope.edit@), members as nat));
    s
}

/// The label of a counted tab, such as `Roles (3)`.
pub open spec fn tab_label_spec(name: Seq<char>, n: nat) -> Seq<char> {
    name + " ("@ + decimal_spec(n) + ")"@
}

/// The label of the roles tab of an organization card.
pub fn roles_tab_label(n: usize) -> (s: String)
    ensures
        s@ == tab_label_spec("Roles"@, n as nat),
{
    let mut s = String::new();
    push_text(&mut s, "Roles (");
    push_decimal(&mut s, n as u64);
    push_text(&mut s, ")");
    proof {
        reveal_strlit("Roles (");
        reveal_strlit("Roles");
        reveal_strlit(" (");
    }
    assert(s@ =~= tab_label_spec("Roles"@, n as nat));
    s
}

/// The label of the members tab of an organization card.
pub fn members_tab_label(n: usize) -> (s: String)
    ensures
        s@ == tab_label_spec("Members"@, n as nat),
{
    let mut s = String::new();
    push_text(&mut s, "Members (");
    push_decimal(&mut s, n as u64);
    push_text(&mut s, ")");
    proof {
        reveal_strlit("Members (");
        reveal_strlit("Members");
        reveal_strlit(" (");
    }
    assert(s@ =~= tab_label_spec("Members"@, n as nat));
    s
}

/// The sum of a sequence of counts.
pub open spec fn count_sum(counts: Seq<usize>) -> nat
    decreases counts.len(),
{
    if counts.len() == 0 {
        0
    } else {
        count_sum(counts.drop_last()) + counts.last() as nat
    }
}

/// How many assets a portfolio holds: those directly in it and those in its groups.
pub open spec fn asset_total(p: PortfolioInfo) -> nat {
    p.direct_asset_count as nat + count_sum(p.group_asset_counts@)
}

/// The line under a portfolio in an organization's portfolio list.
pub open spec fn portfolio_access_spec(p: PortfolioInfo) -> Seq<char> {
    decimal_spec(asset_total(p)) + " assets · "@ + decimal_spec(p.direct_asset_count as nat) + " direct · "@
        + decimal_spec(p.group_asset_counts@.len()) + " groups · "@ + decimal_spec(p.document_count as nat)
        + " docs · "@ + decimal_spec(p.assigned_users@.len()) + " members"@
}

proof fn lemma_count_sum_prefix(counts: Seq<usize>, n: int)
    requires
        0 <= n <= counts.len(),
    ensures
        count_sum(counts.take(n)) <= count_sum(counts),
    decreases counts.len(),
{
    if n < counts.len() {
        assert(counts.drop_last().take(n) =~= counts.take(n));
        lemma_count_sum_prefix(counts.drop_last(), n);
    } else {
        assert(counts.take(n) =~= counts);
    }
}

/// The line under a portfolio in an organization's portfolio list, such as
/// `5 assets · 2 direct · 1 groups · 4 docs · 2 members`.
pub fn portfolio_access_text(p: &PortfolioInfo) -> (s: String)
    requires
        asset_total(*p) <= usize::MAX,
    ensures
        s@ == portfolio_access_spec(*p),
{
    let mut total: usize = p.direct_asset_count;
    let mut i: usize = 0;
    while i < p.group_asset_counts.len()
        invariant
            0 <= i <= p.group_asset_counts.len(),
            total == p.direct_asset_count + count_sum(p.group_asset_counts@.take(i as int)),
            asset_total(*p) <= usize::MAX,
        decreases p.group_asset_counts.len() - i,
    {
        assert(p.group_asset_counts@.take(i + 1).drop_last() =~= p.group_asset_counts@.take(i as int));
        proof {
            lemma_count_sum_prefix(p.group_asset_counts@, i + 1);
        }
        total = total + p.group_asset_counts[i];
        i = i + 1;
    }
    assert(p.group_asset_counts@.take(p.group_asset_counts.len() as int) =~= p.group_asset_counts@);
    let mut s = String::new();
    push_decimal(&mut s, total as u64);
    push_text(&mut s, " assets · ");
    push_decimal(&mut s, p.direct_asset_count as u64);
    push_text(&mut s, " direct · ");
    push_decimal(&mut s, p.group_asset_counts.len() as u64);
    push_text(&mut s, " groups · ");
    push_decimal(&mut s, p.document_count as u64);
    push_text(&mut s, " docs · ");
    push_decimal(&mut s, p.assigned_users.len() as u64);
    push_text(&mut s, " members");
    assert(s@ =~= portfolio_access_spec(*p));
    s
}

/// The name of the `n`th test member.
pub open spec fn test_member_name_spec(n: nat) -> Seq<char> {
    "Test User "@ + decimal_spec(n)
}

/// The email of the `n`th test member.
pub open spec fn test_member_email_spec(n: nat) -> Seq<char> {
    "test"@ + decimal_spec(n) + "@farley.test"@
}

/// The test member that developer mode adds to an organization whose store holds
/// `user_count` users: numbered one past them, with the chosen role. Outside developer
/// mode, none.
pub fn test_member(developer_mode: bool, user_count: usize, role: UserRole, organization_id: u128) -> (r: Option<MemberDraft>)
    requires
        user_count < usize::MAX,
    ensures
        r is None <==> !developer_mode,
        r matches Some(m) ==> {
            &&& m.name@ == test_member_name_spec(user_count as nat + 1)
            &&& m.email@ == test_member_email_spec(user_count as nat + 1)
            &&& m.role == role
            &&& m.organization_id == organization_id
        },
{
    if !developer_mode {
        return None;
    }
    let n = user_count + 1;
    let mut name = String::new();
    push_text(&mut name, "Test User ");
    push_decimal(&mut name, n as u64);
    let mut email = String::new();
    push_text(&mut email, "test");
    push_decimal(&mut email, n as u64);
    push_text(&mut email, "@farley.test");
    assert(name@ =~= test_member_name_spec(n as nat));
    assert(email@ =~= test_member_email_spec(n as nat));
    Some(MemberDraft { name, email, role, organization_id })
}

/// The positions of the portfolios of organization `oid` (or, with `inside` false, of the
/// others, which it can be given), in order.
pub open spec fn portfolios_of(ps: Seq<PortfolioInfo>, oid: u128, inside: bool) -> Seq<usize>
    decreases ps.len(),
{
    if ps.len() == 0 {
        Seq::empty()
    } else {
        let rest = portfolios_of(ps.drop_last(), oid, inside);
        if (ps.last().organization_id == Some(oid)) == inside {
            rest.push((ps.len() - 1) as usize)
        } else {
            rest
        }
    }
}

/// An organization's portfolio tab: the positions of its portfolios, and of the others that
/// its assign selector offers.
pub fn split_portfolios(ps: &Vec<PortfolioInfo>, oid: u128) -> (r: (Vec<usize>, Vec<usize>))
    ensures
        r.0@ == portfolios_of(ps@, oid, true),
        r.1@ == portfolios_of(ps@, oid, false),
{
    let mut mine: Vec<usize> = Vec::new();
    let mut others: Vec<usize> = Vec::new();
    let mut i: usize = 0;
    while i < ps.len()
        invariant
            0 <= i <= ps.len(),
            mine@ == portfolios_of(ps@.take(i as int), oid, true),
            others@ == portfolios_of(ps@.take(i as int), oid, false),
        decreases ps.len() - i,
    {
        assert(ps@.take(i + 1).drop_last() =~= ps@.take(i as int));
        if ps[i].organization_id == Some(oid) {
            mine.push(i);
        } else {
            others.push(i);
        }
        i = i + 1;
    }
    assert(ps@.take(ps.len() as int) =~= ps@);
    (mine, others)
}

/// The name of a portfolio that an organization's create form makes for it: none when the
/// name is blank, otherwise the trimmed name.
pub fn org_portfolio_name(name: &str) -> (r: Option<String>)
    ensures
        text_of(r) == optional_trimmed_spec(name@),
{
    optional_trimmed(name)
}

/// Gives portfolio `pid` (the first with that id) to organization `oid`. The nil id, which
/// the assign selector holds when nothing is chosen, assigns nothing, as does an id no
/// portfolio has. Returns whether a portfolio was assigned.
pub fn assign_portfolio(ps: &mut Vec<PortfolioInfo>, pid: u128, oid: u128) -> (assigned: bool)
    ensures
        !assigned ==> final(ps)@ == old(ps)@,
        assigned <==> (pid != 0 && exists|k: int| 0 <= k < old(ps)@.len() && old(ps)@[k].id == pid),
        assigned ==> exists|k: int|
            0 <= k < old(ps)@.len() && old(ps)@[k].id == pid && (forall|j: int| 0 <= j < k ==> old(ps)@[j].id != pid)
                && final(ps)@ == old(ps)@.update(k, PortfolioInfo { organization_id: Some(oid), ..old(ps)@[k] }),
{
    if pid == 0 {
        return false;
    }
    let mut k: usize = 0;
    while k < ps.len() && ps[k].id != pid
        invariant
            0 <= k <= ps.len(),
            ps@ == old(ps)@,
            forall|j: int| 0 <= j < k ==> #[trigger] ps@[j].id != pid,
        decreases ps.len() - k,
    {
        k = k + 1;
    }
    if k == ps.len() {
        return false;
    }
    let mut p = PortfolioInfo {
        id: 0,
        name: String::new(),
        organization_id: None,
        assigned_users: Vec::new(),
        document_count: 0,
        direct_asset_count: 0,
        group_asset_counts: Vec::new(),
    };
    ps.set_and_swap(k, &mut p);
    let ghost taken = p;
    p.organization_id = Some(oid);
    ps.set_and_swap(k, &mut p);
    assert(taken == old(ps)@[k as int]);
    assert(ps@ == old(ps)@.update(k as int, PortfolioInfo { organization_id: Some(oid), ..old(ps)@[k as int] }));
    true
}

} // verus!

use portfolio_pages::lists::ItemSet;
use portfolio_pages::org_overview::{
    accessible_portfolio_names, member_meta_text, member_role_names, members_tab_label,
    org_counts_text, org_summary, owner_name, portfolio_access_text, role_meta_text,
    roles_tab_label, test_member, users_listed, Member, PortfolioInfo,
};
use portfolio_pages::org_view_state::{
    expand_org, get_org_tab, role_save, set_org_tab, tab_name, toggle_member, toggle_org, toggle_perm_group,
    toggle_role, CardKey, GroupKey, OrgTab, RoleSave,
};
use portfolio_pages::organizations::{
    apply_org_edit, member_draft, new_organization, org_details, org_edit_form, set_org_image,
    sort_mode_label, sort_organizations, sort_roles_by_rank, OrgDetailFields, OrgEdit, OrgRole,
    OrgSortMode, Organization,
};
use portfolio_pages::permissions::{permission_label, scope_display, Permission, RoleScope};
use portfolio_pages::roles::{
    can_edit_portfolio, can_manage_organization, role_display, role_from_str, role_label,
    role_value, UserRole,
};
use std::collections::{HashMap, HashSet};

fn scope(view: &[bool], edit: &[bool]) -> RoleScope {
    RoleScope { view: view.to_vec(), edit: edit.to_vec() }
}

fn role(id: u128, name: &str, rank: u32, members: &[u128]) -> OrgRole {
    OrgRole {
        id,
        name: name.to_string(),
        description: String::new(),
        rank,
        color: None,
        scope: RoleScope::entire(3),
        member_ids: members.to_vec(),
    }
}

fn org(id: u128, name: &str, updated_at: i128, members: usize, roles: usize) -> Organization {
    Organization {
        id,
        name: name.to_string(),
        description: None,
        owner_id: 1,
        members: (0..members as u128).collect(),
        roles: (0..roles as u128).map(|r| role(r, "r", 0, &[])).collect(),
        updated_at,
        image_url: None,
        color: None,
        abn: None,
        lei: None,
        business_type: None,
        business_address: None,
        business_phone: None,
        business_email: None,
    }
}

fn names(orgs: &[Organization]) -> Vec<&str> {
    orgs.iter().map(|o| o.name.as_str()).collect()
}

fn fields(description: &str, abn: &str) -> OrgDetailFields {
    OrgDetailFields {
        description: description.to_string(),
        abn: abn.to_string(),
        lei: "  ".to_string(),
        business_type: "Company".to_string(),
        business_address: String::new(),
        business_phone: "0400 000 000".to_string(),
        business_email: " ".to_string(),
    }
}

#[test]
fn role_from_str_reads_selector_values() {
    assert_eq!(role_from_str("Owner"), UserRole::Owner);
    assert_eq!(role_from_str("SeniorManager"), UserRole::SeniorManager);
    assert_eq!(role_from_str("DocumentWorker"), UserRole::DocumentWorker);
    assert_eq!(role_from_str("Contractor"), UserRole::Contractor);
    assert_eq!(role_from_str("Senior Manager"), UserRole::Guest);
    assert_eq!(role_from_str(""), UserRole::Guest);
    assert_eq!(role_from_str("owner"), UserRole::Guest);
}

#[test]
fn role_display_names_roles() {
    assert_eq!(role_display(&UserRole::SeniorManager), "Senior Manager");
    assert_eq!(role_display(&UserRole::DocumentWorker), "Document Worker");
    assert_eq!(role_display(&UserRole::Guest), "Guest");
    assert_eq!(role_label(&UserRole::Manager), "Manager");
}

#[test]
fn role_value_reads_back_as_the_role() {
    let all = [
        UserRole::Owner,
        UserRole::Director,
        UserRole::SeniorManager,
        UserRole::Manager,
        UserRole::Worker,
        UserRole::DocumentWorker,
        UserRole::Contractor,
        UserRole::Guest,
    ];
    for r in all {
        assert_eq!(role_from_str(role_value(&r)), r);
    }
}

#[test]
fn managers_and_editors() {
    assert!(can_manage_organization(UserRole::Owner));
    assert!(can_manage_organization(UserRole::SeniorManager));
    assert!(can_manage_organization(UserRole::Manager));
    assert!(!can_manage_organization(UserRole::Worker));
    assert!(!can_manage_organization(UserRole::Guest));
    assert!(can_edit_portfolio(UserRole::Owner));
    assert!(can_edit_portfolio(UserRole::Manager));
    assert!(!can_edit_portfolio(UserRole::Director));
}

#[test]
fn permission_label_names_permissions() {
    assert_eq!(permission_label(&Permission::ViewOwn), "View own");
    assert_eq!(permission_label(&Permission::ManagePayments), "Manage payments");
    assert_eq!(permission_label(&Permission::EditDocuments), "Edit documents");
    assert_eq!(permission_label(&Permission::Custom("Approve leases".to_string())), "Custom: Approve leases");
}

#[test]
fn scope_display_reads_scopes() {
    assert_eq!(scope_display(&RoleScope::entire(4)), "Entire organization");
    assert_eq!(scope_display(&scope(&[false, false], &[false, false])), "No access");
    assert_eq!(scope_display(&scope(&[true, true, false], &[true, false, false])), "Custom: view 2, edit 1");
    assert_eq!(scope_display(&RoleScope::entire(0)), "Entire organization");
}

#[test]
fn scope_toggles_flip_one_area() {
    let mut s = RoleScope::entire(3);
    s.toggle_view(1);
    assert!(!s.can_view(1));
    assert!(s.can_edit(1));
    assert_eq!(scope_display(&s), "Custom: view 2, edit 3");
    s.toggle_view(1);
    assert_eq!(s.view, vec![true, true, true]);
    s.toggle_edit(7);
    assert_eq!(s.edit, vec![true, true, true]);
    assert!(!s.can_view(9));
}

#[test]
fn sort_mode_labels() {
    assert_eq!(sort_mode_label(OrgSortMode::Recent), "Recent");
    assert_eq!(sort_mode_label(OrgSortMode::NameAsc), "Name A→Z");
    assert_eq!(sort_mode_label(OrgSortMode::NameDesc), "Name Z→A");
    assert_eq!(sort_mode_label(OrgSortMode::Members), "Members");
    assert_eq!(sort_mode_label(OrgSortMode::Roles), "Roles");
}

#[test]
fn sort_organizations_by_each_mode() {
    let list = vec![
        org(1, "beta", 20, 2, 1),
        org(2, "Alpha", 30, 5, 0),
        org(3, "gamma", 10, 2, 4),
        org(4, "alpha", 30, 1, 4),
    ];
    let recent = sort_organizations(list.clone(), OrgSortMode::Recent);
    assert_eq!(names(&recent), vec!["Alpha", "alpha", "beta", "gamma"]);
    let asc = sort_organizations(list.clone(), OrgSortMode::NameAsc);
    assert_eq!(names(&asc), vec!["Alpha", "alpha", "beta", "gamma"]);
    let desc = sort_organizations(list.clone(), OrgSortMode::NameDesc);
    assert_eq!(names(&desc), vec!["gamma", "beta", "Alpha", "alpha"]);
    let members = sort_organizations(list.clone(), OrgSortMode::Members);
    assert_eq!(names(&members), vec!["Alpha", "beta", "gamma", "alpha"]);
    let roles = sort_organizations(list.clone(), OrgSortMode::Roles);
    assert_eq!(names(&roles), vec!["gamma", "alpha", "beta", "Alpha"]);
    assert!(sort_organizations(Vec::new(), OrgSortMode::Recent).is_empty());
}

#[test]
fn roles_sorted_highest_rank_first() {
    let roles = vec![role(1, "a", 1, &[]), role(2, "b", 5, &[]), role(3, "c", 1, &[]), role(4, "d", 9, &[])];
    let sorted = sort_roles_by_rank(roles);
    let order: Vec<u128> = sorted.iter().map(|r| r.id).collect();
    assert_eq!(order, vec![4, 2, 1, 3]);
}

#[test]
fn org_details_drop_blank_fields() {
    let d = org_details(&fields(" A holding company ", ""));
    assert_eq!(d.description.as_deref(), Some(" A holding company "));
    assert_eq!(d.abn, None);
    assert_eq!(d.lei, None);
    assert_eq!(d.business_type.as_deref(), Some("Company"));
    assert_eq!(d.business_address, None);
    assert_eq!(d.business_phone.as_deref(), Some("0400 000 000"));
    assert_eq!(d.business_email, None);
}

#[test]
fn new_organization_needs_a_name() {
    assert!(new_organization("   ", 7, &fields("", ""), None).is_none());
    let o = new_organization("Acme", 7, &fields("", "51 824 753 556"), Some("data:x".to_string())).unwrap();
    assert_eq!(o.name, "Acme");
    assert_eq!(o.owner_id, 7);
    assert_eq!(o.details.abn.as_deref(), Some("51 824 753 556"));
    assert_eq!(o.details.description, None);
    assert_eq!(o.image_url.as_deref(), Some("data:x"));
}

#[test]
fn org_edit_saves_or_leaves_alone() {
    let mut o = org(9, "Old", 5, 1, 1);
    let edit = OrgEdit {
        name: "New".to_string(),
        image_url: Some("img".to_string()),
        color: " ".to_string(),
        fields: fields("Desc", ""),
    };
    assert!(apply_org_edit(&mut o, &edit, 77));
    assert_eq!(o.name, "New");
    assert_eq!(o.image_url.as_deref(), Some("img"));
    assert_eq!(o.color, None);
    assert_eq!(o.description.as_deref(), Some("Desc"));
    assert_eq!(o.updated_at, 77);
    assert_eq!(o.id, 9);
    let blank = OrgEdit { name: "  ".to_string(), image_url: None, color: "#fff".to_string(), fields: fields("", "") };
    assert!(!apply_org_edit(&mut o, &blank, 99));
    assert_eq!(o.name, "New");
    assert_eq!(o.updated_at, 77);
}

#[test]
fn org_edit_then_new_image() {
    let mut o = org(9, "Old", 5, 1, 1);
    let edit = OrgEdit { name: "Named".to_string(), image_url: None, color: "#123456".to_string(), fields: fields("", "") };
    assert!(apply_org_edit(&mut o, &edit, 1_700_000_000_000_000));
    assert_eq!(o.color.as_deref(), Some("#123456"));
    assert_eq!(o.updated_at, 1_700_000_000_000_000);
    set_org_image(&mut o, "data:img".to_string(), 12);
    assert_eq!(o.image_url.as_deref(), Some("data:img"));
    assert_eq!(o.updated_at, 12);
}

#[test]
fn member_draft_needs_name_and_email() {
    assert!(member_draft("Ann", " ", UserRole::Worker, 3).is_none());
    assert!(member_draft("", "a@b.c", UserRole::Worker, 3).is_none());
    let m = member_draft("Ann", "a@b.c", UserRole::Manager, 3).unwrap();
    assert_eq!((m.name.as_str(), m.email.as_str(), m.role, m.organization_id), ("Ann", "a@b.c", UserRole::Manager, 3));
}

fn member(id: u128, name: &str) -> Member {
    Member { id, name: name.to_string(), email: format!("{}@x.io", name), role: UserRole::Worker }
}

fn portfolio(id: u128, name: &str, org: Option<u128>, docs: usize, users: &[u128]) -> PortfolioInfo {
    PortfolioInfo {
        id,
        name: name.to_string(),
        organization_id: org,
        assigned_users: users.to_vec(),
        document_count: docs,
        direct_asset_count: 2,
        group_asset_counts: vec![3, 1],
    }
}

#[test]
fn owner_name_or_unknown() {
    let users = vec![member(1, "Ann"), member(2, "Bob"), member(2, "Bea")];
    assert_eq!(owner_name(&users, 2), "Bob");
    assert_eq!(owner_name(&users, 5), "Unknown");
}

#[test]
fn summary_counts_portfolios_and_documents() {
    let o = org(10, "Org", 0, 3, 2);
    let mut o = o;
    o.owner_id = 2;
    let users = vec![member(1, "Ann"), member(2, "Bob")];
    let ps = vec![
        portfolio(1, "P1", Some(10), 4, &[]),
        portfolio(2, "P2", None, 9, &[]),
        portfolio(3, "P3", Some(10), 1, &[]),
        portfolio(4, "P4", Some(11), 5, &[]),
    ];
    let s = org_summary(&o, &users, &ps);
    assert_eq!(s.owner_name, "Bob");
    assert_eq!(s.portfolio_count, 2);
    assert_eq!(s.document_count, 5);
    assert_eq!(s.member_count, 3);
    assert_eq!(s.role_count, 2);
}

#[test]
fn listed_users_and_names() {
    let users = vec![member(1, "Ann"), member(2, "Bob"), member(3, "Cy")];
    assert_eq!(users_listed(&users, &vec![3, 1], true), vec![0, 2]);
    assert_eq!(users_listed(&users, &vec![3, 1], false), vec![1]);
    let roles = vec![role(1, "Admins", 3, &[2, 3]), role(2, "Viewers", 1, &[1]), role(3, "Leads", 2, &[3])];
    assert_eq!(member_role_names(&roles, 3), vec!["Admins".to_string(), "Leads".to_string()]);
    assert!(member_role_names(&roles, 9).is_empty());
    let ps = vec![portfolio(1, "Home", None, 0, &[3]), portfolio(2, "Fleet", None, 0, &[1, 3])];
    assert_eq!(accessible_portfolio_names(&ps, 1), vec!["Fleet".to_string()]);
    assert_eq!(accessible_portfolio_names(&ps, 3), vec!["Home".to_string(), "Fleet".to_string()]);
}

#[test]
fn card_lines() {
    assert_eq!(org_counts_text(2, 3, 1), "2 portfolios · 3 members · 1 roles");
    assert_eq!(member_meta_text(UserRole::SeniorManager, "a@b.c", 1), "Senior Manager · a@b.c · 1 portfolio");
    assert_eq!(member_meta_text(UserRole::Guest, "g@h.i", 0), "Guest · g@h.i · 0 portfolios");
    assert_eq!(role_meta_text(3, &RoleScope::entire(2), 12), "Rank 3 · Entire organization · 12 members");
    assert_eq!(roles_tab_label(4), "Roles (4)");
    assert_eq!(members_tab_label(0), "Members (0)");
    let p = portfolio(1, "P", None, 4, &[1, 2]);
    assert_eq!(portfolio_access_text(&p), "6 assets · 2 direct · 2 groups · 4 docs · 2 members");
}

#[test]
fn test_members_only_in_developer_mode() {
    assert!(test_member(false, 4, UserRole::Worker, 1).is_none());
    let m = test_member(true, 4, UserRole::Contractor, 1).unwrap();
    assert_eq!(m.name, "Test User 5");
    assert_eq!(m.email, "test5@farley.test");
    assert_eq!(m.role, UserRole::Contractor);
}

#[test]
fn org_tabs_default_to_portfolios() {
    let mut tabs: HashMap<u128, OrgTab> = HashMap::new();
    assert_eq!(get_org_tab(&tabs, 1), OrgTab::Portfolios);
    set_org_tab(&mut tabs, 1, OrgTab::Roles);
    assert_eq!(get_org_tab(&tabs, 1), OrgTab::Roles);
    assert_eq!(get_org_tab(&tabs, 2), OrgTab::Portfolios);
    set_org_tab(&mut tabs, 1, OrgTab::Members);
    assert_eq!(get_org_tab(&tabs, 1), OrgTab::Members);
    assert_eq!(tab_name(OrgTab::Members), "members");
    assert_eq!(tab_name(OrgTab::Portfolios), "portfolios");
}

#[test]
fn expansion_toggles() {
    let mut orgs: HashSet<u128> = HashSet::new();
    toggle_org(&mut orgs, 5);
    assert!(orgs.contains(&5));
    toggle_org(&mut orgs, 6);
    toggle_org(&mut orgs, 5);
    assert!(!orgs.contains(&5));
    assert!(orgs.contains(&6));

    let mut roles: ItemSet<CardKey> = ItemSet::new();
    toggle_role(&mut roles, 1, 2);
    toggle_member(&mut roles, 1, 3);
    assert_eq!(roles.len(), 2);
    assert!(roles.contains(&CardKey { org: 1, id: 2 }));
    toggle_role(&mut roles, 1, 2);
    assert_eq!(roles.len(), 1);
    assert!(!roles.contains(&CardKey { org: 1, id: 2 }));
    assert!(roles.contains(&CardKey { org: 1, id: 3 }));

    let mut groups: ItemSet<GroupKey> = ItemSet::new();
    toggle_perm_group(&mut groups, 1, 2, 0);
    toggle_perm_group(&mut groups, 1, 2, 1);
    toggle_perm_group(&mut groups, 1, 2, 0);
    assert_eq!(groups.len(), 1);
    assert!(groups.contains(&GroupKey { org: 1, role: 2, group: 1 }));
}

#[test]
fn role_editor_saves() {
    let sc = scope(&[true, false], &[false, false]);
    assert!(matches!(role_save(None, "Admin", "", "", &sc), RoleSave::Nothing));
    assert!(matches!(role_save(Some((1, 2)), " ", "", "", &sc), RoleSave::Nothing));
    match role_save(Some((1, 0)), "Admin", "Runs it", " ", &sc) {
        RoleSave::Create { org_id, name, description, color, scope } => {
            assert_eq!(org_id, 1);
            assert_eq!(name, "Admin");
            assert_eq!(description, "Runs it");
            assert_eq!(color, None);
            assert_eq!(scope.view, vec![true, false]);
        },
        _ => panic!("expected a new role"),
    }
    match role_save(Some((1, 8)), "Lead", "", "#ff0000", &sc) {
        RoleSave::Update { org_id, role_id, name, color, .. } => {
            assert_eq!((org_id, role_id), (1, 8));
            assert_eq!(name, "Lead");
            assert_eq!(color.as_deref(), Some("#ff0000"));
        },
        _ => panic!("expected an update"),
    }
}

#[test]
fn edit_form_opens_on_the_organization() {
    let mut o = org(3, "Acme", 5, 1, 0);
    o.description = Some("Holding".to_string());
    o.abn = Some("51 824".to_string());
    o.image_url = Some("logo".to_string());
    let e = org_edit_form(&o);
    assert_eq!(e.name, "Acme");
    assert_eq!(e.image_url.as_deref(), Some("logo"));
    assert_eq!(e.color, "");
    assert_eq!(e.fields.description, "Holding");
    assert_eq!(e.fields.abn, "51 824");
    assert_eq!(e.fields.lei, "");
    let before = o.clone();
    assert!(apply_org_edit(&mut o, &e, 42));
    assert_eq!(o.name, before.name);
    assert_eq!(o.description, before.description);
    assert_eq!(o.abn, before.abn);
    assert_eq!(o.lei, before.lei);
    assert_eq!(o.color, before.color);
    assert_eq!(o.image_url, before.image_url);
    assert_eq!(o.updated_at, 42);
}

#[test]
fn context_menu_expands_cards() {
    let mut orgs: HashSet<u128> = HashSet::new();
    expand_org(&mut orgs, 4);
    expand_org(&mut orgs, 4);
    assert_eq!(orgs.len(), 1);
    assert!(orgs.contains(&4));
}

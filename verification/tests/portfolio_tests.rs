use portfolio_pages::asset_forms::{
    asset_edit, asset_image_url, asset_org_name, asset_user_draft, card_role_draft, doc_card_name,
    document_list_order, name_edit, new_document, sample_asset_documents, OrgName,
};
use portfolio_pages::assets::{
    asset_placeholder_url, sort_assets, sort_groups, sort_mode_label, AssetSortMode, AssetType, ListEntry,
};
use portfolio_pages::doc_previews::{mock_doc_content, preview_for};
use portfolio_pages::doc_tabs::DocTabs;
use portfolio_pages::editor::{
    asset_class_options, availability_options, class_field_labels, commercial_options,
    condition_options, initial_sections, party_type_options, relationship_type_options,
    section_title, status_options, toggle_section, EditorSection,
};
use portfolio_pages::ids::{optional_id, org_choice};
use portfolio_pages::notif_feed::{entity_notifications, GroupDocs, NotifTarget, NotificationInfo, PortfolioDocs};
use portfolio_pages::paging::{shown_and_remaining, ViewScope, VisibleCounts};
use portfolio_pages::portfolio_page::{
    chosen_group, doc_window_owner, emoji_for_bytes, grid_columns_from_value, group_choice, new_portfolio_form,
    portfolio_edit, portfolio_order, selection_after_delete, sort_mode_from_value, sort_mode_value,
    toggle_selected, top_form_target, AssetTarget, NavTarget, PortfolioKeys, SortMode,
};
use portfolio_pages::roles::UserRole;
use portfolio_pages::viewer::{
    clamp_menu_position, click_step, reset_zoom, zoom_in, zoom_label, zoom_out, ClickAction, ClickEvent,
};

const UUID_TEXT: &str = "67e55044-10b1-426f-9247-bb680e5fe0c8";
const UUID_NUM: u128 = 0x67e5504410b1426f9247bb680e5fe0c8;

fn entry(id: u128, name: &str, stamp: i128, value_rank: i128) -> ListEntry {
    ListEntry { id, name: name.to_string(), stamp, value_rank }
}

fn ids(es: &[ListEntry]) -> Vec<u128> {
    es.iter().map(|e| e.id).collect()
}

#[test]
fn placeholder_urls() {
    assert_eq!(
        asset_placeholder_url(&AssetType::RealEstate, "Main St"),
        "https://placehold.co/400x400/2d3748/FFF?text=House%2BMain+St"
    );
    assert_eq!(
        asset_placeholder_url(&AssetType::Vehicle, "Ford Ranger Wildtrak 2022"),
        "https://placehold.co/400x400/2d3748/FFF?text=Car%2BFord+Ranger+"
    );
    assert_eq!(
        asset_placeholder_url(&AssetType::Custom("Art".to_string()), ""),
        "https://placehold.co/400x400/2d3748/FFF?text=Asset%2B"
    );
    assert_eq!(
        asset_placeholder_url(&AssetType::IntellectualProperty, "abcdefghijkl"),
        "https://placehold.co/400x400/2d3748/FFF?text=IP%2Babcdefghijkl"
    );
}

#[test]
fn asset_sort_labels() {
    assert_eq!(sort_mode_label(AssetSortMode::Recent), "Recent");
    assert_eq!(sort_mode_label(AssetSortMode::NameAsc), "Name A→Z");
    assert_eq!(sort_mode_label(AssetSortMode::ValueHigh), "High Value");
    assert_eq!(sort_mode_label(AssetSortMode::ValueLow), "Low Value");
}

#[test]
fn assets_sorted_by_each_mode() {
    let list = vec![entry(1, "Van", 5, 300), entry(2, "boat", 9, 100), entry(3, "Apartment", 5, 300), entry(4, "car", 1, 50)];
    assert_eq!(ids(&sort_assets(list.clone(), AssetSortMode::Recent)), vec![2, 1, 3, 4]);
    assert_eq!(ids(&sort_assets(list.clone(), AssetSortMode::NameAsc)), vec![3, 2, 4, 1]);
    assert_eq!(ids(&sort_assets(list.clone(), AssetSortMode::NameDesc)), vec![1, 4, 2, 3]);
    assert_eq!(ids(&sort_assets(list.clone(), AssetSortMode::ValueHigh)), vec![1, 3, 2, 4]);
    assert_eq!(ids(&sort_groups(list.clone(), AssetSortMode::ValueLow)), vec![4, 2, 1, 3]);
}

#[test]
fn visible_counts_grow_by_pages() {
    let mut counts = VisibleCounts::new();
    let groups = ViewScope::Groups(1);
    let direct = ViewScope::Direct(1);
    assert_eq!(counts.visible_for(groups, 6), 6);
    counts.expand(groups, 6);
    assert_eq!(counts.visible_for(groups, 6), 12);
    counts.expand(groups, 6);
    assert_eq!(counts.visible_for(groups, 6), 18);
    assert_eq!(counts.visible_for(direct, 6), 6);
    counts.expand(ViewScope::GroupAssets(4), usize::MAX);
    assert_eq!(counts.visible_for(ViewScope::GroupAssets(4), usize::MAX), usize::MAX);
    assert_eq!(shown_and_remaining(12, 20), (12, 8));
    assert_eq!(shown_and_remaining(12, 5), (5, 0));
}

#[test]
fn zoom_steps_and_limits() {
    assert_eq!(zoom_in(100), 110);
    assert_eq!(zoom_in(295), 300);
    assert_eq!(zoom_in(300), 300);
    assert_eq!(zoom_out(100), 90);
    assert_eq!(zoom_out(55), 50);
    assert_eq!(zoom_out(5), 50);
    assert_eq!(zoom_out(zoom_in(120)), 120);
    assert_eq!(reset_zoom(), 100);
    assert_eq!(zoom_label(120), "120%");
}

#[test]
fn context_menu_positions() {
    assert_eq!(clamp_menu_position(50, 60, None), (50, 60));
    assert_eq!(clamp_menu_position(50, 60, Some((1000, 800))), (50, 60));
    assert_eq!(clamp_menu_position(900, 700, Some((1000, 800))), (760, 480));
    assert_eq!(clamp_menu_position(-5, -9, Some((1000, 800))), (0, 0));
    assert_eq!(clamp_menu_position(100, 100, Some((200, 300))), (0, 0));
}

#[test]
fn click_or_double_click() {
    let (pending, action) = click_step(false, ClickEvent::Click);
    assert!(pending);
    assert_eq!(action, ClickAction::StartTimer);
    assert_eq!(click_step(pending, ClickEvent::TimerFired), (false, ClickAction::Toggle));
    let (pending, action) = click_step(true, ClickEvent::Click);
    assert_eq!((pending, action), (false, ClickAction::Edit));
    assert_eq!(click_step(pending, ClickEvent::TimerFired), (false, ClickAction::Nothing));
    assert_eq!(click_step(true, ClickEvent::DoubleClick), (false, ClickAction::Edit));
    assert_eq!(click_step(false, ClickEvent::DoubleClick), (false, ClickAction::Nothing));
}

#[test]
fn editor_choices() {
    assert_eq!(status_options(), vec!["Active", "Retired", "Disposed", "Archived", "Draft"]);
    assert_eq!(availability_options().len(), 6);
    assert_eq!(condition_options()[6], "Unsafe");
    assert_eq!(commercial_options()[2], "Listed for sale");
    assert_eq!(asset_class_options()[7], "IntellectualProperty");
    assert_eq!(relationship_type_options()[5], "Current custodian");
    assert_eq!(party_type_options(), vec!["Organization", "Team", "Member", "Supplier", "Service provider", "External contact"]);
    assert_eq!(class_field_labels(&AssetType::Vehicle), vec!["VIN", "Registration number", "Model year"]);
    assert_eq!(class_field_labels(&AssetType::Equipment), vec!["Serial number", "SKU"]);
    assert!(class_field_labels(&AssetType::Stock).is_empty());
}

#[test]
fn editor_sections_toggle() {
    let mut open = initial_sections();
    assert_eq!(open.len(), 7);
    toggle_section(&mut open, EditorSection::Status);
    assert_eq!(open.len(), 6);
    assert!(!open.contains(&EditorSection::Status));
    toggle_section(&mut open, EditorSection::Status);
    assert!(open.contains(&EditorSection::Status));
    assert_eq!(open.len(), 7);
    assert_eq!(section_title(EditorSection::Ownership), "Ownership & responsibility");
    assert_eq!(section_title(EditorSection::Classification), "Classification & build");
}

#[test]
fn asset_images_and_organizations() {
    let images = vec!["https://img/1.png".to_string(), "https://img/2.png".to_string()];
    assert_eq!(asset_image_url(&images, &AssetType::Stock, "ACME"), "https://img/1.png");
    assert_eq!(asset_image_url(&Vec::new(), &AssetType::Stock, "ACME"), "https://placehold.co/400x400/2d3748/FFF?text=Stock%2BACME");
    let orgs = vec![OrgName { id: 1, name: "Acme".to_string() }, OrgName { id: 2, name: "Beta".to_string() }];
    assert_eq!(asset_org_name(&orgs, Some(2)), "Beta");
    assert_eq!(asset_org_name(&orgs, Some(3)), "—");
    assert_eq!(asset_org_name(&orgs, None), "—");
}

#[test]
fn asset_and_name_edits() {
    assert!(asset_edit(" ", "d", "l").is_none());
    let t = asset_edit("Van", "  ", "Depot 4").unwrap();
    assert_eq!(t.name, "Van");
    assert_eq!(t.description, None);
    assert_eq!(t.location.as_deref(), Some("Depot 4"));
    assert!(name_edit("", "x").is_none());
    let n = name_edit("Fleet", "Trucks").unwrap();
    assert_eq!((n.name.as_str(), n.description.as_deref()), ("Fleet", Some("Trucks")));
}

#[test]
fn new_documents_take_their_type_from_the_name() {
    assert!(new_document("   ", 1).is_none());
    let d = new_document("Lease.PDF", 4).unwrap();
    assert_eq!(d.name, "Lease.PDF");
    assert_eq!(d.file_type, "pdf");
    assert_eq!(d.url, "#");
    assert_eq!(d.uploaded_by, 4);
    assert_eq!(new_document("notes", 4).unwrap().file_type, "txt");
    assert_eq!(new_document("a.weird", 4).unwrap().file_type, "txt");
}

#[test]
fn doc_card_names() {
    assert_eq!(doc_card_name("Short.pdf"), "Short.pdf");
    assert_eq!(doc_card_name("exactly-18-bytes.x"), "exactly-18-bytes.x");
    assert_eq!(doc_card_name("Inspection Report 2024.pdf"), "Inspection Repo...");
}

#[test]
fn card_drafts() {
    assert!(asset_user_draft(" ", "a@b.c").is_none());
    let u = asset_user_draft("Kim", "").unwrap();
    assert_eq!((u.name.as_str(), u.email.as_str(), u.role), ("Kim", "", UserRole::Worker));
    assert!(card_role_draft(None, "Lead", "").is_none());
    assert!(card_role_draft(Some(3), "", "").is_none());
    let r = card_role_draft(Some(3), "Lead", "Leads").unwrap();
    assert_eq!((r.org_id, r.name.as_str(), r.description.as_str()), (3, "Lead", "Leads"));
}

#[test]
fn sample_documents() {
    let docs = sample_asset_documents(9);
    let names: Vec<&str> = docs.iter().map(|d| d.name.as_str()).collect();
    assert_eq!(
        names,
        vec!["Title Deed 1", "Inspection Report 2", "Valuation 3", "Photos 4", "Contract 5", "Insurance 6", "Notes 7"]
    );
    assert_eq!(docs[3].file_type, "zip");
    assert_eq!(docs[2].file_type, "xlsx");
    assert!(docs.iter().all(|d| d.url == "#" && d.uploaded_by == 9));
}

#[test]
fn document_strip_order() {
    let names = vec!["b.pdf".to_string(), "A.pdf".to_string(), "c.txt".to_string(), "a.pdf".to_string()];
    assert_eq!(document_list_order(&names, false), vec![0, 1, 2, 3]);
    assert_eq!(document_list_order(&names, true), vec![1, 3, 0, 2]);
}

#[test]
fn previews_by_type() {
    let pdf = mock_doc_content("Lease", "PDF");
    assert!(pdf.starts_with("DOCUMENT: Lease\n━━━━"));
    assert!(pdf.contains("Reference: DOC-28471"));
    assert!(pdf.contains("official record pertaining to Lease.\n"));
    assert!(pdf.ends_with("Page 1 of 1  |  CONFIDENTIAL"));
    let docx = mock_doc_content("Terms", "docx");
    assert!(docx.starts_with("Terms\n\nPrepared by: Red Asset Management\n"));
    assert!(docx.contains("associated\nwith Terms. It has been"));
    let xlsx = mock_doc_content("Ledger", "xlsx");
    let line = xlsx.lines().nth(1).unwrap();
    assert_eq!(line, format!("│  {:<55}│", "Ledger"));
    let txt = mock_doc_content("Memo", "txt");
    assert!(txt.starts_with("Document: Memo\nDate: 22 June 2025\n"));
    assert_eq!(mock_doc_content("Clip", "mp4"), "Document: Clip\n\nNo preview available for this file type (mp4).");
}

#[test]
fn document_tabs_open_and_close() {
    let mut tabs: DocTabs<&str> = DocTabs::new();
    assert_eq!(tabs.active_tab(), 0);
    assert!(tabs.active_doc().is_none());
    tabs.open(100, "lease");
    tabs.open(200, "deed");
    assert_eq!(tabs.tab_ids(), vec![1, 2]);
    assert_eq!(tabs.active_tab(), 2);
    assert_eq!(tabs.active_doc(), Some(&"deed"));
    tabs.open(100, "lease again");
    assert_eq!(tabs.tab_ids(), vec![1, 2]);
    assert_eq!(tabs.active_doc(), Some(&"lease"));
    tabs.close(1);
    assert_eq!(tabs.active_tab(), 0);
    assert_eq!(tabs.tab_ids(), vec![2]);
    tabs.activate(2);
    assert_eq!(tabs.active_doc(), Some(&"deed"));
    tabs.open(300, "plan");
    assert_eq!(tabs.tab_ids(), vec![2, 3]);
}

fn note(id: u128, portfolio: Option<u128>, group: Option<u128>, doc: Option<u128>, time: i128) -> NotificationInfo {
    NotificationInfo { id, linked_portfolio_id: portfolio, linked_group_id: group, linked_doc_id: doc, timestamp: time }
}

#[test]
fn bell_lists_linked_notifications_newest_first() {
    let ps = vec![PortfolioDocs {
        id: 1,
        documents: vec![10],
        groups: vec![GroupDocs { id: 5, documents: vec![50], asset_documents: vec![vec![51, 52]] }],
        asset_documents: vec![vec![11]],
    }];
    let ns = vec![
        note(1, Some(1), None, None, 100),
        note(2, None, None, Some(52), 300),
        note(3, None, None, Some(99), 400),
        note(4, None, Some(5), None, 200),
        note(5, None, None, Some(11), 300),
        note(6, Some(2), None, Some(10), 50),
    ];
    let for_portfolio: Vec<u128> = entity_notifications(&ns, &ps, NotifTarget::Portfolio(1)).iter().map(|n| n.id).collect();
    assert_eq!(for_portfolio, vec![2, 5, 1, 6]);
    let for_group: Vec<u128> = entity_notifications(&ns, &ps, NotifTarget::Group(1, 5)).iter().map(|n| n.id).collect();
    assert_eq!(for_group, vec![2, 4]);
    assert!(entity_notifications(&ns, &ps, NotifTarget::Group(7, 5)).iter().all(|n| n.linked_group_id == Some(5)));
}

#[test]
fn portfolio_sort_selector_round_trip() {
    let all = [
        SortMode::Recent,
        SortMode::Oldest,
        SortMode::HighestValue,
        SortMode::LowestValue,
        SortMode::HighestProfit,
        SortMode::LowestProfit,
        SortMode::HighestRevenue,
        SortMode::LowestRevenue,
        SortMode::ByOrganization,
    ];
    for m in all {
        assert_eq!(sort_mode_from_value(sort_mode_value(m)), m);
    }
    assert_eq!(sort_mode_from_value("nonsense"), SortMode::Recent);
}

fn keys(created_at: i128, value_rank: i128, organization_id: Option<u128>) -> PortfolioKeys {
    PortfolioKeys { created_at, value_rank, profit_rank: -value_rank, revenue_rank: 0, organization_id }
}

#[test]
fn portfolio_list_orders() {
    let ks = vec![keys(10, 3, Some(2)), keys(30, 1, None), keys(20, 3, Some(9)), keys(30, 2, Some(2))];
    assert_eq!(portfolio_order(&ks, SortMode::Recent), vec![1, 3, 2, 0]);
    assert_eq!(portfolio_order(&ks, SortMode::Oldest), vec![0, 2, 1, 3]);
    assert_eq!(portfolio_order(&ks, SortMode::HighestValue), vec![0, 2, 3, 1]);
    assert_eq!(portfolio_order(&ks, SortMode::LowestValue), vec![1, 3, 0, 2]);
    assert_eq!(portfolio_order(&ks, SortMode::HighestProfit), vec![1, 3, 0, 2]);
    assert_eq!(portfolio_order(&ks, SortMode::HighestRevenue), vec![0, 1, 2, 3]);
    assert_eq!(portfolio_order(&ks, SortMode::ByOrganization), vec![2, 0, 3, 1]);
}

#[test]
fn grid_selector_values() {
    assert_eq!(grid_columns_from_value("grid_4"), Some(4));
    assert_eq!(grid_columns_from_value("grid_+12"), Some(12));
    assert_eq!(grid_columns_from_value("grid_"), None);
    assert_eq!(grid_columns_from_value("list_4"), None);
    assert_eq!(grid_columns_from_value("grid_x"), None);
}

#[test]
fn add_asset_targets_and_selection() {
    assert_eq!(top_form_target(None, Some(3)), None);
    assert_eq!(top_form_target(Some(1), None), Some(AssetTarget::PortfolioDirect(1)));
    assert_eq!(top_form_target(Some(1), Some(3)), Some(AssetTarget::Group(1, 3)));
    assert_eq!(group_choice(Some(5), ""), None);
    assert_eq!(group_choice(Some(5), "garbage"), Some(5));
    assert_eq!(group_choice(None, UUID_TEXT), Some(UUID_NUM));
    assert_eq!(toggle_selected(Some(4), 4), (None, false));
    assert_eq!(toggle_selected(Some(4), 5), (Some(5), true));
    assert_eq!(toggle_selected(None, 5), (Some(5), true));
}

#[test]
fn notification_navigation_owner() {
    let nav = NavTarget { portfolio_id: 1, group_id: Some(2), asset_id: Some(3), doc_id: Some(4) };
    assert_eq!(doc_window_owner(nav), Some(3));
    assert_eq!(doc_window_owner(NavTarget { asset_id: None, ..nav }), Some(2));
    assert_eq!(doc_window_owner(NavTarget { asset_id: None, group_id: None, ..nav }), Some(1));
    assert_eq!(doc_window_owner(NavTarget { doc_id: None, ..nav }), None);
}

#[test]
fn portfolio_forms() {
    assert!(portfolio_edit(" ", "", "", "").is_none());
    let e = portfolio_edit("Home", " ", " 🏠 ", UUID_TEXT).unwrap();
    assert_eq!(e.name, "Home");
    assert_eq!(e.description, None);
    assert_eq!(e.emoji.as_deref(), Some("🏠"));
    assert_eq!(e.organization_id, Some(UUID_NUM));
    assert!(new_portfolio_form("", "x", "").is_none());
    let p = new_portfolio_form("Fleet", "  Trucks  ", "not-a-uuid").unwrap();
    assert_eq!(p.name, "Fleet");
    assert_eq!(p.description.as_deref(), Some("Trucks"));
    assert_eq!(p.organization_id, None);
}

#[test]
fn organization_selector_values() {
    assert_eq!(org_choice("none"), None);
    assert_eq!(org_choice(UUID_TEXT), Some(UUID_NUM));
    assert_eq!(org_choice("bogus"), None);
    assert_eq!(optional_id("  "), None);
    assert_eq!(optional_id(UUID_TEXT), Some(UUID_NUM));
}

#[test]
fn emojis_for_new_portfolios() {
    let emojis = ["🏢", "🏠", "🚗", "💼", "💰", "📈", "🏭", "🌐", "🎨", "🔬", "⚡"];
    assert_eq!(emoji_for_bytes(&[0u8; 16]), "🏢");
    let mut b = [0u8; 16];
    b[0] = 12;
    assert_eq!(emoji_for_bytes(&b), "🏠");
    b[1] = 255;
    assert_eq!(emoji_for_bytes(&b), emojis[(12 + 255) % 11]);
    for n in 0u8..=255 {
        let mut c = [7u8; 16];
        c[3] = n;
        assert!(emojis.contains(&emoji_for_bytes(&c)));
    }
}

#[test]
fn group_choice_after_reading() {
    assert_eq!(chosen_group(Some(1), Some(2)), Some(2));
    assert_eq!(chosen_group(Some(1), None), Some(1));
    assert_eq!(chosen_group(None, None), None);
}

#[test]
fn previews_for_a_lowercase_type() {
    assert_eq!(preview_for("Clip", "mp4", "MP4"), "Document: Clip\n\nNo preview available for this file type (MP4).");
    assert!(preview_for("Memo", "txt", "TXT").starts_with("Document: Memo\nDate: 22 June 2025"));
    assert!(preview_for("Memo", "TXT", "TXT").starts_with("Document: Memo\n\nNo preview"));
}

#[test]
fn deleting_the_open_portfolio_closes_it() {
    assert_eq!(selection_after_delete(Some(3), 3), None);
    assert_eq!(selection_after_delete(Some(3), 4), Some(3));
    assert_eq!(selection_after_delete(None, 4), None);
}

use portfolio_pages::bookings::{stay_moments, validate_booking_form};
use portfolio_pages::asset_store::{replace_asset, save_target, PortfolioAssets};
use portfolio_pages::assets::{AssetType, ListEntry};
use portfolio_pages::editor::{class_field_label, class_field_value, class_fields, set_class_field, ClassField, Classification};
use portfolio_pages::doc_store::{
    apply_image_url, change_document, entry_owner, save_document_content, slider_entries, AssetDocuments,
    DocChange, GroupDocuments, PortfolioDocuments,
};
use portfolio_pages::documents::{DocEntry, Document};
use portfolio_pages::lists::ItemSet;
use portfolio_pages::notifications::{new_setting, NotificationTrigger};
use portfolio_pages::org_overview::{assign_portfolio, org_portfolio_name, split_portfolios, PortfolioInfo};
use portfolio_pages::relationships::{add_relationship, PartyType, Relationship, RelationshipType};
use portfolio_pages::viewer::{press_zoom, ZoomPress};

fn entry(id: u128, name: &str) -> ListEntry {
    ListEntry { id, name: name.to_string(), stamp: 0, value_rank: 0 }
}

fn doc(id: u128, name: &str) -> Document {
    Document {
        id,
        name: name.to_string(),
        file_type: "text/plain".to_string(),
        url: String::new(),
        content: None,
        uploaded_at: 0,
        uploaded_by: 0,
    }
}

fn info(id: u128, org: Option<u128>) -> PortfolioInfo {
    PortfolioInfo {
        id,
        name: format!("P{}", id),
        organization_id: org,
        assigned_users: vec![],
        document_count: 0,
        direct_asset_count: 0,
        group_asset_counts: vec![],
    }
}

fn sample_store() -> Vec<PortfolioDocuments> {
    vec![PortfolioDocuments {
        id: 1,
        documents: vec![doc(10, "deed")],
        groups: vec![GroupDocuments {
            id: 2,
            documents: vec![doc(20, "group plan")],
            assets: vec![AssetDocuments { id: 3, documents: vec![doc(10, "deed"), doc(30, "survey")] }],
        }],
        assets: vec![AssetDocuments { id: 4, documents: vec![doc(40, "photo")] }],
    }]
}

#[test]
fn add_relationship_blank_party_changes_nothing() {
    let mut rels: Vec<Relationship> = vec![];
    let prev = add_relationship(&mut rels, RelationshipType::LegalOwner, "   ", "x", PartyType::Member, 1, 100);
    assert_eq!(prev, None);
    assert!(rels.is_empty());
}

#[test]
fn add_relationship_retires_the_active_one_of_its_kind() {
    let mut rels: Vec<Relationship> = vec![];
    let first = add_relationship(&mut rels, RelationshipType::LegalOwner, " Alice ", "", PartyType::Member, 1, 100);
    assert_eq!(first, None);
    let other = add_relationship(&mut rels, RelationshipType::Supplier, "Acme", "sales@acme", PartyType::Supplier, 2, 150);
    assert_eq!(other, None);
    let prev = add_relationship(&mut rels, RelationshipType::LegalOwner, "Bob", " 555 ", PartyType::Member, 3, 200);
    assert_eq!(prev, Some("Alice".to_string()));
    assert_eq!(rels.len(), 3);
    assert_eq!(rels[0].party_name, "Alice");
    assert_eq!(rels[0].contact, None);
    assert!(!rels[0].active);
    assert_eq!(rels[0].end_date, Some(200));
    assert!(rels[1].active);
    assert_eq!(rels[1].end_date, None);
    assert_eq!(rels[2].id, 3);
    assert_eq!(rels[2].party_name, "Bob");
    assert_eq!(rels[2].contact, Some("555".to_string()));
    assert!(rels[2].active);
    assert_eq!(rels[2].start_date, Some(200));
    let active_owners = rels.iter().filter(|r| r.active && r.kind == RelationshipType::LegalOwner).count();
    assert_eq!(active_owners, 1);
}

#[test]
fn replace_asset_prefers_direct_assets() {
    let mut p = PortfolioAssets {
        direct: vec![entry(1, "a"), entry(2, "b")],
        groups: vec![vec![entry(2, "b in group")]],
    };
    assert!(replace_asset(&mut p, entry(2, "new b")));
    assert_eq!(p.direct[1].name, "new b");
    assert_eq!(p.groups[0][0].name, "b in group");
}

#[test]
fn replace_asset_in_a_group_and_missing() {
    let mut p = PortfolioAssets { direct: vec![entry(1, "a")], groups: vec![vec![], vec![entry(5, "e"), entry(5, "e2")]] };
    assert!(replace_asset(&mut p, entry(5, "new e")));
    assert_eq!(p.groups[1][0].name, "new e");
    assert_eq!(p.groups[1][1].name, "e2");
    assert!(!replace_asset(&mut p, entry(9, "nine")));
    assert_eq!(p.direct[0].name, "a");
}

#[test]
fn save_target_cases() {
    let ids = vec![7u128, 8, 9];
    assert_eq!(save_target(&ids, None), Some(0));
    assert_eq!(save_target(&vec![], None), None);
    assert_eq!(save_target(&ids, Some(9)), Some(2));
    assert_eq!(save_target(&ids, Some(4)), None);
}

#[test]
fn slider_entries_follow_portfolio_groups_then_assets() {
    let store = sample_store();
    let es: Vec<DocEntry> = slider_entries(&store[0]);
    let ids: Vec<u128> = es.iter().map(|e| e.doc.id).collect();
    assert_eq!(ids, vec![10, 20, 10, 30, 40]);
    let owners: Vec<u128> = es.iter().map(|e| entry_owner(e)).collect();
    assert_eq!(owners, vec![1, 2, 3, 3, 4]);
    assert_eq!(es[1].group_id, Some(2));
    assert_eq!(es[2].asset_id, Some(3));
    assert_eq!(es[4].portfolio_id, Some(1));
}

#[test]
fn entry_owner_prefers_organization() {
    let e = DocEntry { doc: doc(5, "x"), portfolio_id: Some(1), group_id: Some(2), asset_id: Some(3), organization_id: Some(9) };
    assert_eq!(entry_owner(&e), 9);
    let bare = DocEntry { doc: doc(5, "x"), portfolio_id: None, group_id: None, asset_id: None, organization_id: None };
    assert_eq!(entry_owner(&bare), 5);
}

#[test]
fn saving_content_reaches_every_copy() {
    let mut store = sample_store();
    save_document_content(&mut store, 10, "new text");
    assert_eq!(store[0].documents[0].content, Some("new text".to_string()));
    assert_eq!(store[0].groups[0].assets[0].documents[0].content, Some("new text".to_string()));
    assert_eq!(store[0].groups[0].assets[0].documents[1].content, None);
    change_document(&mut store, 40, DocChange::Url("https://x/p.png".to_string()));
    assert_eq!(store[0].assets[0].documents[0].url, "https://x/p.png");
}

#[test]
fn image_link_is_trimmed_and_blank_ignored() {
    let mut store = sample_store();
    assert!(!apply_image_url(&mut store, 40, "   "));
    assert_eq!(store[0].assets[0].documents[0].url, "");
    assert!(apply_image_url(&mut store, 40, "  https://img/a.jpg "));
    assert_eq!(store[0].assets[0].documents[0].url, "https://img/a.jpg");
}

#[test]
fn split_and_assign_portfolios() {
    let mut ps = vec![info(1, Some(100)), info(2, None), info(3, Some(200)), info(4, Some(100))];
    let (mine, others) = split_portfolios(&ps, 100);
    assert_eq!(mine, vec![0, 3]);
    assert_eq!(others, vec![1, 2]);
    assert!(!assign_portfolio(&mut ps, 0, 100));
    assert!(!assign_portfolio(&mut ps, 42, 100));
    assert!(assign_portfolio(&mut ps, 2, 100));
    assert_eq!(ps[1].organization_id, Some(100));
    assert_eq!(ps[2].organization_id, Some(200));
}

#[test]
fn org_portfolio_name_trims() {
    assert_eq!(org_portfolio_name("  Fleet "), Some("Fleet".to_string()));
    assert_eq!(org_portfolio_name("   "), None);
}

#[test]
fn zoom_presses_stay_on_steps() {
    let mut z: u32 = 100;
    for _ in 0..30 {
        z = press_zoom(z, ZoomPress::In);
    }
    assert_eq!(z, 300);
    for _ in 0..40 {
        z = press_zoom(z, ZoomPress::Out);
    }
    assert_eq!(z, 50);
    assert_eq!(press_zoom(z, ZoomPress::Reset), 100);
}

#[test]
fn item_set_insert_and_toggle_twice() {
    let mut s: ItemSet<u128> = ItemSet::new();
    s.insert(3);
    s.insert(3);
    assert_eq!(s.len(), 1);
    s.toggle(3);
    assert!(!s.contains(&3));
    s.toggle(3);
    s.toggle(3);
    assert!(!s.contains(&3));
    s.toggle(4);
    assert!(s.contains(&4));
}

#[test]
fn new_setting_trims_condition() {
    let s = new_setting(NotificationTrigger::Sale, "  over 100 ");
    assert_eq!(s.trigger, NotificationTrigger::Sale);
    assert_eq!(s.condition, Some("over 100".to_string()));
    let blank = new_setting(NotificationTrigger::Rent, "  ");
    assert_eq!(blank.condition, None);
}

#[test]
fn class_fields_bind_to_their_own_slot() {
    let fields = class_fields(&AssetType::Vehicle);
    assert_eq!(fields, vec![ClassField::Vin, ClassField::RegistrationNumber, ClassField::ModelYear]);
    let labels: Vec<&str> = fields.iter().map(|f| class_field_label(*f)).collect();
    assert_eq!(labels, vec!["VIN", "Registration number", "Model year"]);
    let mut c = Classification::default();
    assert_eq!(class_field_value(&c, ClassField::Vin), "");
    set_class_field(&mut c, ClassField::Vin, "1HGCM82633A004352".to_string());
    set_class_field(&mut c, ClassField::Sku, "SKU-9".to_string());
    assert_eq!(class_field_value(&c, ClassField::Vin), "1HGCM82633A004352");
    assert_eq!(class_field_value(&c, ClassField::Sku), "SKU-9");
    assert_eq!(c.model_year, None);
    assert!(class_fields(&AssetType::Stock).is_empty());
}

#[test]
fn stay_runs_from_check_in_to_check_out() {
    let (first, last) = validate_booking_form("Ann", "2024-01-01", "2024-01-03", true).unwrap();
    let (start, end) = stay_moments(first, last);
    let expect_start = chrono::NaiveDate::from_ymd_opt(2024, 1, 1).unwrap().and_hms_opt(15, 0, 0).unwrap().and_utc();
    let expect_end = chrono::NaiveDate::from_ymd_opt(2024, 1, 3).unwrap().and_hms_opt(10, 0, 0).unwrap().and_utc();
    assert_eq!(start.stamp, expect_start.timestamp_micros());
    assert_eq!(end.stamp, expect_end.timestamp_micros());
    assert_eq!(start.day, first as i64);
    assert!(start.stamp < end.stamp);
    let (s2, e2) = stay_moments(first, first);
    assert!(e2.stamp < s2.stamp);
}

//! The asset editor: the choices its selectors offer, its collapsible sections, and the
//! extra build fields each kind of asset has.

use vstd::prelude::*;
use crate::assets::AssetType;
use crate::lists::{flipped, ItemSet, ListItem};
use crate::text::{chars_of, string_of, text_of};

verus! {

/// The lifecycle statuses an asset can be given.
pub fn status_options() -> (v: Vec<&'static str>)
    ensures
        v@ == seq!["Active", "Retired", "Disposed", "Archived", "Draft"],
{
    vec!["Active", "Retired", "Disposed", "Archived", "Draft"]
}

/// The availabilities an asset can be given.
pub fn availability_options() -> (v: Vec<&'static str>)
    ensures
        v@ == seq!["Available", "Reserved", "Booked", "Rented", "In use", "Unavailable"],
{
    vec!["Available", "Reserved", "Booked", "Rented", "In use", "Unavailable"]
}

/// The conditions an asset can be given.
pub fn condition_options() -> (v: Vec<&'static str>)
    ensures
        v@ == seq!["New", "Excellent", "Good", "Fair", "Poor", "Damaged", "Unsafe"],
{
    vec!["New", "Excellent", "Good", "Fair", "Poor", "Damaged", "Unsafe"]
}

/// The commercial statuses an asset can be given.
pub fn commercial_options() -> (v: Vec<&'static str>)
    ensures
        v@ == seq![
            "Not offered",
            "Internal use only",
            "Listed for sale",
            "Listed for rent",
            "Listed for booking",
            "Sale pending",
            "Rental active",
            "Sold",
            "Withdrawn",
        ],
{
    vec![
        "Not offered",
        "Internal use only",
        "Listed for sale",
        "Listed for rent",
        "Listed for booking",
        "Sale pending",
        "Rental active",
        "Sold",
        "Withdrawn",
    ]
}

/// The asset classes the class selector offers.
pub fn asset_class_options() -> (v: Vec<&'static str>)
    ensures
        v@ == seq![
            "RealEstate",
            "Vehicle",
            "Equipment",
            "Stock",
            "Bond",
            "Commodity",
            "Digital",
            "IntellectualProperty",
            "Channel",
        ],
{
    vec![
        "RealEstate",
        "Vehicle",
        "Equipment",
        "Stock",
        "Bond",
        "Commodity",
        "Digital",
        "IntellectualProperty",
        "Channel",
    ]
}

/// The kinds of relationship a party can have with an asset.
pub fn relationship_type_options() -> (v: Vec<&'static str>)
    ensures
        v@ == seq![
            "Legal owner",
            "Beneficial owner",
            "Managing organization",
            "Responsible department",
            "Asset manager",
            "Current custodian",
            "Assigned employee",
            "Assigned team",
            "Cost centre",
            "Supplier",
            "Manufacturer",
            "Maintenance provider",
        ],
{
    vec![
        "Legal owner",
        "Beneficial owner",
        "Managing organization",
        "Responsible department",
        "Asset manager",
        "Current custodian",
        "Assigned employee",
        "Assigned team",
        "Cost centre",
        "Supplier",
        "Manufacturer",
        "Maintenance provider",
    ]
}

/// The kinds of party a relationship can name.
pub fn party_type_options() -> (v: Vec<&'static str>)
    ensures
        v@ == seq!["Organization", "Team", "Member", "Supplier", "Service provider", "External contact"],
{
    vec!["Organization", "Team", "Member", "Supplier", "Service provider", "External contact"]
}

/// The collapsible sections of the asset editor.
#[derive(Clone, Copy, Debug, PartialEq, Eq, Structural)]
pub enum EditorSection {
    Overview,
    Identity,
    Classification,
    Status,
    Lifecycle,
    Ownership,
    History,
}

impl ListItem for EditorSection {
    fn same(&self, other: &Self) -> (b: bool) {
        *self == *other
    }
}

/// The heading of a section.
pub open spec fn section_title_spec(s: EditorSection) -> Seq<char> {
    match s {
        EditorSection::Overview => "Overview"@,
        EditorSection::Identity => "Identity"@,
        EditorSection::Classification => "Classification & build"@,
        EditorSection::Status => "Status controls"@,
        EditorSection::Lifecycle => "Lifecycle"@,
        EditorSection::Ownership => "Ownership & responsibility"@,
        EditorSection::History => "History"@,
    }
}

/// The heading of a section.
pub fn section_title(s: EditorSection) -> (t: &'static str)
    ensures
        t@ == section_title_spec(s),
{
    match s {
        EditorSection::Overview => "Overview",
        EditorSection::Identity => "Identity",
        EditorSection::Classification => "Classification & build",
        EditorSection::Status => "Status controls",
        EditorSection::Lifecycle => "Lifecycle",
        EditorSection::Ownership => "Ownership & responsibility",
        EditorSection::History => "History",
    }
}

/// The sections open when the editor opens: all of them.
pub fn initial_sections() -> (v: ItemSet<EditorSection>)
    ensures
        v@ == set![
            EditorSection::Overview,
            EditorSection::Identity,
            EditorSection::Classification,
            EditorSection::Status,
            EditorSection::Lifecycle,
            EditorSection::Ownership,
            EditorSection::History,
        ],
{
    let mut v = ItemSet::new();
    v.insert(EditorSection::Overview);
    v.insert(EditorSection::Identity);
    v.insert(EditorSection::Classification);
    v.insert(EditorSection::Status);
    v.insert(EditorSection::Lifecycle);
    v.insert(EditorSection::Ownership);
    v.insert(EditorSection::History);
    assert(v@ =~= set![
        EditorSection::Overview,
        EditorSection::Identity,
        EditorSection::Classification,
        EditorSection::Status,
        EditorSection::Lifecycle,
        EditorSection::Ownership,
        EditorSection::History,
    ]);
    v
}

/// Opens a closed section or closes an open one, as a click on its header does.
pub fn toggle_section(open: &mut ItemSet<EditorSection>, s: EditorSection)
    ensures
        final(open)@ == flipped(old(open)@, s),
{
    open.toggle(s);
}

/// The labels of the extra build fields of a kind of asset: identifiers of a vehicle, of a
/// property's title, or of a piece of equipment; other kinds have none.
pub open spec fn class_field_labels_spec(t: AssetType) -> Seq<&'static str> {
    match t {
        AssetType::Vehicle => seq!["VIN", "Registration number", "Model year"],
        AssetType::RealEstate => seq!["Title / deed", "Lot", "Plan"],
        AssetType::Equipment => seq!["Serial number", "SKU"],
        _ => seq![],
    }
}

/// The labels of the extra build fields of a kind of asset.
pub fn class_field_labels(t: &AssetType) -> (v: Vec<&'static str>)
    ensures
        v@ == class_field_labels_spec(*t),
{
    match t {
        AssetType::Vehicle => vec!["VIN", "Registration number", "Model year"],
        AssetType::RealEstate => vec!["Title / deed", "Lot", "Plan"],
        AssetType::Equipment => vec!["Serial number", "SKU"],
        _ => Vec::new(),
    }
}


/// The extra build fields of an asset, each empty until something is typed into it.
#[derive(Clone, Debug, Default)]
pub struct Classification {
    pub vin: Option<String>,
    pub registration_number: Option<String>,
    pub model_year: Option<String>,
    pub title: Option<String>,
    pub lot: Option<String>,
    pub plan: Option<String>,
    pub serial_number: Option<String>,
    pub sku: Option<String>,
}

/// One extra build field.
#[derive(Clone, Copy, Debug, PartialEq, Eq, Structural)]
pub enum ClassField {
    Vin,
    RegistrationNumber,
    ModelYear,
    Title,
    Lot,
    Plan,
    SerialNumber,
    Sku,
}

/// The extra build fields of a kind of asset, in the order the editor shows them.
pub open spec fn class_fields_spec(t: AssetType) -> Seq<ClassField> {
    match t {
        AssetType::Vehicle => seq![ClassField::Vin, ClassField::RegistrationNumber, ClassField::ModelYear],
        AssetType::RealEstate => seq![ClassField::Title, ClassField::Lot, ClassField::Plan],
        AssetType::Equipment => seq![ClassField::SerialNumber, ClassField::Sku],
        _ => seq![],
    }
}

/// The extra build fields of a kind of asset.
pub fn class_fields(t: &AssetType) -> (v: Vec<ClassField>)
    ensures
        v@ == class_fields_spec(*t),
{
    match t {
        AssetType::Vehicle => vec![ClassField::Vin, ClassField::RegistrationNumber, ClassField::ModelYear],
        AssetType::RealEstate => vec![ClassField::Title, ClassField::Lot, ClassField::Plan],
        AssetType::Equipment => vec![ClassField::SerialNumber, ClassField::Sku],
        _ => Vec::new(),
    }
}

/// The label of an extra build field.
pub open spec fn class_field_label_spec(f: ClassField) -> &'static str {
    match f {
        ClassField::Vin => "VIN",
        ClassField::RegistrationNumber => "Registration number",
        ClassField::ModelYear => "Model year",
        ClassField::Title => "Title / deed",
        ClassField::Lot => "Lot",
        ClassField::Plan => "Plan",
        ClassField::SerialNumber => "Serial number",
        ClassField::Sku => "SKU",
    }
}

/// The label of an extra build field.
pub fn class_field_label(f: ClassField) -> (s: &'static str)
    ensures
        s == class_field_label_spec(f),
{
    match f {
        ClassField::Vin => "VIN",
        ClassField::RegistrationNumber => "Registration number",
        ClassField::ModelYear => "Model year",
        ClassField::Title => "Title / deed",
        ClassField::Lot => "Lot",
        ClassField::Plan => "Plan",
        ClassField::SerialNumber => "Serial number",
        ClassField::Sku => "SKU",
    }
}

/// What an extra build field holds.
pub open spec fn field_text(c: Classification, f: ClassField) -> Option<Seq<char>> {
    match f {
        ClassField::Vin => text_of(c.vin),
        ClassField::RegistrationNumber => text_of(c.registration_number),
        ClassField::ModelYear => text_of(c.model_year),
        ClassField::Title => text_of(c.title),
        ClassField::Lot => text_of(c.lot),
        ClassField::Plan => text_of(c.plan),
        ClassField::SerialNumber => text_of(c.serial_number),
        ClassField::Sku => text_of(c.sku),
    }
}

/// The text an input shows for a field: what it holds, or nothing.
pub open spec fn shown_text(c: Classification, f: ClassField) -> Seq<char> {
    match field_text(c, f) {
        Some(t) => t,
        None => seq![],
    }
}

/// The text the input of field `f` shows.
pub fn class_field_value(c: &Classification, f: ClassField) -> (s: String)
    ensures
        s@ == shown_text(*c, f),
{
    let o = match f {
        ClassField::Vin => &c.vin,
        ClassField::RegistrationNumber => &c.registration_number,
        ClassField::ModelYear => &c.model_year,
        ClassField::Title => &c.title,
        ClassField::Lot => &c.lot,
        ClassField::Plan => &c.plan,
        ClassField::SerialNumber => &c.serial_number,
        ClassField::Sku => &c.sku,
    };
    match o {
        Some(t) => string_of(&chars_of(t.as_str())),
        None => String::new(),
    }
}

/// Stores what was typed into the input of field `f`; the other fields keep what they hold.
pub fn set_class_field(c: &mut Classification, f: ClassField, value: String)
    ensures
        field_text(*final(c), f) == Some(value@),
        forall|g: ClassField| g != f ==> field_text(*final(c), g) == field_text(*old(c), g),
{
    match f {
        ClassField::Vin => c.vin = Some(value),
        ClassField::RegistrationNumber => c.registration_number = Some(value),
        ClassField::ModelYear => c.model_year = Some(value),
        ClassField::Title => c.title = Some(value),
        ClassField::Lot => c.lot = Some(value),
        ClassField::Plan => c.plan = Some(value),
        ClassField::SerialNumber => c.serial_number = Some(value),
        ClassField::Sku => c.sku = Some(value),
    }
}

/// An input shows what was last typed into it, and typing into one field leaves what the
/// others show as it was.
pub proof fn lemma_class_field_read_back(c: Classification, d: Classification, f: ClassField, g: ClassField, value: Seq<char>)
    requires
        field_text(d, f) == Some(value),
        g != f ==> field_text(d, g) == field_text(c, g),
    ensures
        shown_text(d, f) == value,
        g != f ==> shown_text(d, g) == shown_text(c, g),
{
}

} // verus!

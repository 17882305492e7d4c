//! The forms and lookups of an asset, a group and a portfolio card: edits of their texts,
//! new documents, the image an asset shows and the organization it belongs to.

use vstd::prelude::*;
use crate::assets::{asset_placeholder_url, placeholder_url_spec, AssetType};
use crate::documents::{
    byte_prefix, detect_file_type, detected_type, has_boundary_at, lemma_byte_len_take_grows,
    lemma_byte_len_take_step, prefix_of_bytes,
};
use crate::numbers::{decimal_spec, push_decimal};
use crate::ordering::{is_stable_order, keys_are, stable_order};
use crate::roles::UserRole;
use crate::text::{
    blank, byte_len, chars_of, is_blank, optional_text, optional_text_spec, prefix_within_bytes,
    push_text, slice_chars, string_of, text_of, lowercase, to_lower,
};

verus! {

/// The image an asset card shows: its first image, or the placeholder for its kind and name.
pub open spec fn asset_image_spec(images: Seq<String>, t: AssetType, name: Seq<char>) -> Seq<char> {
    if images.len() > 0 {
        images[0]@
    } else {
        placeholder_url_spec(t, name)
    }
}

/// The image an asset card shows.
pub fn asset_image_url(images: &Vec<String>, asset_type: &AssetType, name: &str) -> (url: String)
    requires
        images.len() == 0 ==> (byte_len(name@) <= 12 || has_boundary_at(name@, 12)),
    ensures
        url@ == asset_image_spec(images@, *asset_type, name@),
{
    if images.len() > 0 {
        string_of(&chars_of(images[0].as_str()))
    } else {
        asset_placeholder_url(asset_type, name)
    }
}

/// An organization, by id and name, as an asset card looks it up.
#[derive(Clone, Debug)]
pub struct OrgName {
    pub id: u128,
    pub name: String,
}

/// The position of the first organization with id `id`.
pub open spec fn first_org(orgs: Seq<OrgName>, id: u128) -> Option<int> {
    if exists|k: int| 0 <= k < orgs.len() && orgs[k].id == id {
        Some(
            choose|k: int|
                0 <= k < orgs.len() && orgs[k].id == id && forall|j: int|
                    0 <= j < k ==> #[trigger] orgs[j].id != id,
        )
    } else {
        None
    }
}

/// The organization an asset card names: that of the first organization with the asset's
/// organization id, or `—` when it has none or no organization has that id.
pub open spec fn asset_org_name_spec(orgs: Seq<OrgName>, org_id: Option<u128>) -> Seq<char> {
    match org_id {
        None => "—"@,
        Some(id) => match first_org(orgs, id) {
            Some(k) => orgs[k].name@,
            None => "—"@,
        },
    }
}

/// The organization an asset card names.
pub fn asset_org_name(orgs: &Vec<OrgName>, org_id: Option<u128>) -> (s: String)
    ensures
        s@ == asset_org_name_spec(orgs@, org_id),
{
    match org_id {
        None => "—".to_string(),
        Some(id) => {
            let mut k: usize = 0;
            while k < orgs.len() && orgs[k].id != id
                invariant
                    0 <= k <= orgs.len(),
                    forall|j: int| 0 <= j < k ==> #[trigger] orgs@[j].id != id,
                decreases orgs.len() - k,
            {
                k = k + 1;
            }
            if k < orgs.len() {
                proof {
                    let c = choose|c: int|
                        0 <= c < orgs@.len() && orgs@[c].id == id && forall|j: int|
                            0 <= j < c ==> #[trigger] orgs@[j].id != id;
                    if c < k {
                    } else if c > k {
                        assert(orgs@[k as int].id == id);
                    }
                }
                string_of(&chars_of(orgs[k].name.as_str()))
            } else {
                "—".to_string()
            }
        },
    }
}

/// The texts an asset edit saves.
#[derive(Clone, Debug)]
pub struct AssetTexts {
    pub name: String,
    pub description: Option<String>,
    pub location: Option<String>,
}

/// What saving an asset's edit fields stores: nothing when the name is blank, otherwise the
/// name as typed and the description and location unless blank.
pub fn asset_edit(name: &str, description: &str, location: &str) -> (r: Option<AssetTexts>)
    ensures
        r is None <==> blank(name@),
        r matches Some(t) ==> {
            &&& t.name@ == name@
            &&& text_of(t.description) == optional_text_spec(description@)
            &&& text_of(t.location) == optional_text_spec(location@)
        },
{
    if is_blank(name) {
        return None;
    }
    Some(
        AssetTexts {
            name: name.to_string(),
            description: optional_text(description),
            location: optional_text(location),
        },
    )
}

/// The texts a group or portfolio edit saves.
#[derive(Clone, Debug)]
pub struct NamedTexts {
    pub name: String,
    pub description: Option<String>,
}

/// What saving the name and description of a group or a portfolio stores: nothing when the
/// name is blank, otherwise the name as typed and the description unless blank.
pub fn name_edit(name: &str, description: &str) -> (r: Option<NamedTexts>)
    ensures
        r is None <==> blank(name@),
        r matches Some(t) ==> {
            &&& t.name@ == name@
            &&& text_of(t.description) == optional_text_spec(description@)
        },
{
    if is_blank(name) {
        return None;
    }
    Some(NamedTexts { name: name.to_string(), description: optional_text(description) })
}

/// A document that a card's add-document form creates, uploaded by the current user.
#[derive(Clone, Debug)]
pub struct DocumentDraft {
    pub name: String,
    pub file_type: String,
    pub url: String,
    pub uploaded_by: u128,
}

/// What the add-document form creates: nothing for a blank name, otherwise a document with
/// that name, the file type its extension gives, the address `#`, uploaded by `uploaded_by`.
pub fn new_document(name: &str, uploaded_by: u128) -> (r: Option<DocumentDraft>)
    ensures
        r is None <==> blank(name@),
        r matches Some(d) ==> {
            &&& d.name@ == name@
            &&& d.file_type@ == detected_type(name@)
            &&& d.url@ == "#"@
            &&& d.uploaded_by == uploaded_by
        },
{
    if is_blank(name) {
        return None;
    }
    Some(
        DocumentDraft {
            name: name.to_string(),
            file_type: detect_file_type(name),
            url: "#".to_string(),
            uploaded_by,
        },
    )
}

/// A document name as an asset's document cards show it: names longer than 18 bytes are cut
/// to their first 15 bytes followed by `...`.
pub open spec fn doc_card_name_spec(name: Seq<char>) -> Seq<char> {
    if byte_len(name) <= 18 {
        name
    } else {
        byte_prefix(name, 15) + "..."@
    }
}

/// A document name shortened for an asset's document cards.
pub fn doc_card_name(name: &str) -> (r: String)
    requires
        byte_len(name@) <= 18 || has_boundary_at(name@, 15),
    ensures
        r@ == doc_card_name_spec(name@),
{
    let v = chars_of(name);
    let (k, bytes) = prefix_within_bytes(&v, 18);
    if k == v.len() {
        assert(v@.take(k as int) =~= v@);
        return string_of(&v);
    }
    proof {
        if byte_len(name@) <= 18 {
            lemma_byte_len_take_step(v@, k as int);
            if k + 1 < v.len() {
                lemma_byte_len_take_grows(v@, k + 1, v.len() as int);
            }
            assert(v@.take(v.len() as int) =~= v@);
        }
    }
    let cut = prefix_of_bytes(&v, 15);
    let mut r = string_of(&slice_chars(&v, 0, cut));
    push_text(&mut r, "...");
    assert(v@.subrange(0, cut as int) =~= v@.take(cut as int));
    r
}

/// A user that an asset card's add-user form creates and assigns to the asset.
#[derive(Clone, Debug)]
pub struct UserDraft {
    pub name: String,
    pub email: String,
    pub role: UserRole,
}

/// What the add-user form of an asset creates: nothing for a blank name, otherwise a worker
/// with the name and email as typed (the email may be blank).
pub fn asset_user_draft(name: &str, email: &str) -> (r: Option<UserDraft>)
    ensures
        r is None <==> blank(name@),
        r matches Some(u) ==> {
            &&& u.name@ == name@
            &&& u.email@ == email@
            &&& u.role == UserRole::Worker
        },
{
    if is_blank(name) {
        return None;
    }
    Some(UserDraft { name: name.to_string(), email: email.to_string(), role: UserRole::Worker })
}

/// A role that the add-role form of an asset or a group adds to its organization, of rank 0
/// with no permissions.
#[derive(Clone, Debug)]
pub struct RoleDraft {
    pub org_id: u128,
    pub name: String,
    pub description: String,
}

/// What the add-role form of an asset or group adds: nothing for a blank name or when the
/// card belongs to no organization, otherwise a role with the name and description as typed.
pub fn card_role_draft(org_id: Option<u128>, name: &str, description: &str) -> (r: Option<RoleDraft>)
    ensures
        r is None <==> (blank(name@) || org_id is None),
        r matches Some(d) ==> {
            &&& org_id == Some(d.org_id)
            &&& d.name@ == name@
            &&& d.description@ == description@
        },
{
    if is_blank(name) {
        return None;
    }
    match org_id {
        None => None,
        Some(oid) => Some(RoleDraft { org_id: oid, name: name.to_string(), description: description.to_string() }),
    }
}

/// The documents a sample asset comes with: a kind and a file type each.
pub open spec fn sample_document_kinds() -> Seq<(&'static str, &'static str)> {
    seq![
        ("Title Deed", "pdf"),
        ("Inspection Report", "pdf"),
        ("Valuation", "xlsx"),
        ("Photos", "zip"),
        ("Contract", "docx"),
        ("Insurance", "pdf"),
        ("Notes", "txt"),
    ]
}

/// Whether `d` is the `i`th sample document: its kind numbered from one, its file type, the
/// address `#`, uploaded by `uploaded_by`.
pub open spec fn is_sample_document(d: DocumentDraft, i: int, uploaded_by: u128) -> bool {
    let (kind, ext) = sample_document_kinds()[i];
    &&& d.name@ == kind@ + " "@ + decimal_spec((i + 1) as nat)
    &&& d.file_type@ == ext@
    &&& d.url@ == "#"@
    &&& d.uploaded_by == uploaded_by
}

/// The documents of a sample asset, such as `Title Deed 1` (a PDF) and `Notes 7` (text).
pub fn sample_asset_documents(uploaded_by: u128) -> (docs: Vec<DocumentDraft>)
    ensures
        docs.len() == 7,
        forall|i: int| 0 <= i < 7 ==> is_sample_document(#[trigger] docs@[i], i, uploaded_by),
{
    let kinds: [(&'static str, &'static str); 7] = [
        ("Title Deed", "pdf"),
        ("Inspection Report", "pdf"),
        ("Valuation", "xlsx"),
        ("Photos", "zip"),
        ("Contract", "docx"),
        ("Insurance", "pdf"),
        ("Notes", "txt"),
    ];
    assert(kinds@ =~= sample_document_kinds());
    let mut docs: Vec<DocumentDraft> = Vec::new();
    let mut i: usize = 0;
    while i < 7
        invariant
            0 <= i <= 7,
            kinds@ == sample_document_kinds(),
            docs.len() == i,
            forall|j: int| 0 <= j < i ==> is_sample_document(#[trigger] docs@[j], j, uploaded_by),
        decreases 7 - i,
    {
        let (kind, ext) = kinds[i];
        let mut name = String::new();
        push_text(&mut name, kind);
        push_text(&mut name, " ");
        push_decimal(&mut name, (i + 1) as u64);
        let d = DocumentDraft { name, file_type: ext.to_string(), url: "#".to_string(), uploaded_by };
        assert(is_sample_document(d, i as int, uploaded_by));
        docs.push(d);
        i = i + 1;
    }
    docs
}

/// Whether `order` is how an asset's document strip lists documents with the given names:
/// by lowercase name when sorted by name (ties keep their order), otherwise as they were
/// added.
pub open spec fn document_order_spec(names: Seq<String>, by_name: bool, order: Seq<usize>) -> bool {
    if by_name {
        exists|keys: Seq<Vec<char>>|
            keys_are(keys, names.map_values(|n: String| lowercase(n@))) && is_stable_order(keys, false, order)
    } else {
        order == Seq::new(names.len(), |i: int| i as usize)
    }
}

/// The order of an asset's document strip, as positions in `names`.
pub fn document_list_order(names: &Vec<String>, by_name: bool) -> (order: Vec<usize>)
    ensures
        document_order_spec(names@, by_name, order@),
{
    if !by_name {
        let mut order: Vec<usize> = Vec::new();
        let mut i: usize = 0;
        while i < names.len()
            invariant
                i <= names.len(),
                order@ =~= Seq::new(i as nat, |k: int| k as usize),
            decreases names.len() - i,
        {
            order.push(i);
            i = i + 1;
        }
        return order;
    }
    let mut keys: Vec<Vec<char>> = Vec::new();
    let mut i: usize = 0;
    while i < names.len()
        invariant
            i <= names.len(),
            keys_are(keys@, names@.map_values(|n: String| lowercase(n@)).take(i as int)),
        decreases names.len() - i,
    {
        let lower = to_lower(names[i].as_str());
        keys.push(chars_of(lower.as_str()));
        i = i + 1;
    }
    assert(names@.map_values(|n: String| lowercase(n@)).take(names.len() as int) =~= names@.map_values(
        |n: String| lowercase(n@),
    ));
    let order = stable_order(&keys, false);
    assert(keys_are(keys@, names@.map_values(|n: String| lowercase(n@))));
    order
}

} // verus!

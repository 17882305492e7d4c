//! Organizations, their roles and members: the order the organization list shows them in,
//! the forms that create and edit them, and the overview that each card shows.

use vstd::prelude::*;
use crate::ordering::{
    is_permutation, is_stable_order, keys_are, lemma_sorted_by_numbers_items, lemma_sorted_by_numbers_unique, placed,
    text_precedes, lemma_sorted_by_texts_items, comes_before, lemma_sorted_by_texts_unique, sort_by_keys, sorted_by_numbers,
    sorted_by_texts,
};
use crate::permissions::RoleScope;
use crate::roles::UserRole;
use crate::text::{
    blank, chars_of, is_blank, lowercase, optional_text, optional_text_spec, string_of, text_of, to_lower, trim_spec,
};

verus! {

/// The orders the organization list can be shown in.
#[derive(Clone, Copy, Debug, PartialEq, Eq, Structural)]
pub enum OrgSortMode {
    Recent,
    NameAsc,
    NameDesc,
    Members,
    Roles,
}

/// The label of a sort mode on its button.
pub open spec fn org_sort_label(m: OrgSortMode) -> Seq<char> {
    match m {
        OrgSortMode::Recent => "Recent"@,
        OrgSortMode::NameAsc => "Name A→Z"@,
        OrgSortMode::NameDesc => "Name Z→A"@,
        OrgSortMode::Members => "Members"@,
        OrgSortMode::Roles => "Roles"@,
    }
}

/// The label of a sort mode on its button.
pub fn sort_mode_label(m: OrgSortMode) -> (s: &'static str)
    ensures
        s@ == org_sort_label(m),
{
    match m {
        OrgSortMode::Recent => "Recent",
        OrgSortMode::NameAsc => "Name A→Z",
        OrgSortMode::NameDesc => "Name Z→A",
        OrgSortMode::Members => "Members",
        OrgSortMode::Roles => "Roles",
    }
}

/// A role of an organization.
#[derive(Clone, Debug)]
pub struct OrgRole {
    pub id: u128,
    pub name: String,
    pub description: String,
    pub rank: u32,
    pub color: Option<String>,
    pub scope: RoleScope,
    pub member_ids: Vec<u128>,
}

/// An organization. Times are microseconds since the Unix epoch.
#[derive(Clone, Debug)]
pub struct Organization {
    pub id: u128,
    pub name: String,
    pub description: Option<String>,
    pub owner_id: u128,
    pub members: Vec<u128>,
    pub roles: Vec<OrgRole>,
    pub updated_at: i128,
    pub image_url: Option<String>,
    pub color: Option<String>,
    pub abn: Option<String>,
    pub lei: Option<String>,
    pub business_type: Option<String>,
    pub business_address: Option<String>,
    pub business_phone: Option<String>,
    pub business_email: Option<String>,
}

/// When each organization was last updated.
pub open spec fn update_times(orgs: Seq<Organization>) -> Seq<i128> {
    orgs.map_values(|o: Organization| o.updated_at)
}

/// The lowercase name of each organization.
pub open spec fn lowercase_names(orgs: Seq<Organization>) -> Seq<Seq<char>> {
    orgs.map_values(|o: Organization| lowercase(o.name@))
}

/// How many members each organization has.
pub open spec fn member_counts(orgs: Seq<Organization>) -> Seq<i128> {
    orgs.map_values(|o: Organization| o.members@.len() as i128)
}

/// How many roles each organization has.
pub open spec fn role_counts(orgs: Seq<Organization>) -> Seq<i128> {
    orgs.map_values(|o: Organization| o.roles@.len() as i128)
}

/// What `sort_organizations` gives: the organizations ordered stably, most recently updated
/// first, by lowercase name either way, or with the most members or roles first.
pub open spec fn organizations_sorted(orgs: Seq<Organization>, mode: OrgSortMode, r: Seq<Organization>) -> bool {
    match mode {
        OrgSortMode::Recent => sorted_by_numbers(orgs, update_times(orgs), true, r),
        OrgSortMode::NameAsc => sorted_by_texts(orgs, lowercase_names(orgs), false, r),
        OrgSortMode::NameDesc => sorted_by_texts(orgs, lowercase_names(orgs), true, r),
        OrgSortMode::Members => sorted_by_numbers(orgs, member_counts(orgs), true, r),
        OrgSortMode::Roles => sorted_by_numbers(orgs, role_counts(orgs), true, r),
    }
}

/// The organizations in the order the sort mode asks for; organizations that tie keep their
/// order.
pub fn sort_organizations(orgs: Vec<Organization>, mode: OrgSortMode) -> (r: Vec<Organization>)
    ensures
        organizations_sorted(orgs@, mode, r@),
{
    match mode {
        OrgSortMode::Recent => {
            let mut keys: Vec<i128> = Vec::new();
            let mut i: usize = 0;
            while i < orgs.len()
                invariant
                    i <= orgs.len(),
                    keys@ =~= update_times(orgs@).take(i as int),
                decreases orgs.len() - i,
            {
                keys.push(orgs[i].updated_at);
                i = i + 1;
            }
            assert(keys@ =~= update_times(orgs@));
            sort_by_keys(orgs, &keys, true)
        },
        OrgSortMode::NameAsc | OrgSortMode::NameDesc => {
            let descending = match mode {
                OrgSortMode::NameDesc => true,
                _ => false,
            };
            let mut keys: Vec<Vec<char>> = Vec::new();
            let mut i: usize = 0;
            while i < orgs.len()
                invariant
                    i <= orgs.len(),
                    keys_are(keys@, lowercase_names(orgs@).take(i as int)),
                decreases orgs.len() - i,
            {
                let lower = to_lower(orgs[i].name.as_str());
                let key = chars_of(lower.as_str());
                keys.push(key);
                i = i + 1;
            }
            assert(lowercase_names(orgs@).take(orgs.len() as int) =~= lowercase_names(orgs@));
            sort_by_keys(orgs, &keys, descending)
        },
        OrgSortMode::Members => {
            let mut keys: Vec<i128> = Vec::new();
            let mut i: usize = 0;
            while i < orgs.len()
                invariant
                    i <= orgs.len(),
                    keys@ =~= member_counts(orgs@).take(i as int),
                decreases orgs.len() - i,
            {
                keys.push(orgs[i].members.len() as i128);
                i = i + 1;
            }
            assert(keys@ =~= member_counts(orgs@));
            sort_by_keys(orgs, &keys, true)
        },
        OrgSortMode::Roles => {
            let mut keys: Vec<i128> = Vec::new();
            let mut i: usize = 0;
            while i < orgs.len()
                invariant
                    i <= orgs.len(),
                    keys@ =~= role_counts(orgs@).take(i as int),
                decreases orgs.len() - i,
            {
                keys.push(orgs[i].roles.len() as i128);
                i = i + 1;
            }
            assert(keys@ =~= role_counts(orgs@));
            sort_by_keys(orgs, &keys, true)
        },
    }
}

/// An organization list has one order under each sort mode: any two lists that both meet
/// the contract of `sort_organizations` are the same.
pub proof fn lemma_organizations_sorted_unique(orgs: Seq<Organization>, mode: OrgSortMode, r1: Seq<Organization>, r2: Seq<Organization>)
    requires
        organizations_sorted(orgs, mode, r1),
        organizations_sorted(orgs, mode, r2),
    ensures
        r1 == r2,
{
    match mode {
        OrgSortMode::Recent => lemma_sorted_by_numbers_unique(orgs, update_times(orgs), true, r1, r2),
        OrgSortMode::NameAsc => lemma_sorted_by_texts_unique(orgs, lowercase_names(orgs), false, r1, r2),
        OrgSortMode::NameDesc => lemma_sorted_by_texts_unique(orgs, lowercase_names(orgs), true, r1, r2),
        OrgSortMode::Members => lemma_sorted_by_numbers_unique(orgs, member_counts(orgs), true, r1, r2),
        OrgSortMode::Roles => lemma_sorted_by_numbers_unique(orgs, role_counts(orgs), true, r1, r2),
    }
}

/// The rank of each role.
pub open spec fn role_ranks(roles: Seq<OrgRole>) -> Seq<i128> {
    roles.map_values(|r: OrgRole| r.rank as i128)
}

/// The roles of an organization as its roles tab lists them: highest rank first, roles of
/// one rank in their order.
pub fn sort_roles_by_rank(roles: Vec<OrgRole>) -> (r: Vec<OrgRole>)
    ensures
        sorted_by_numbers(roles@, role_ranks(roles@), true, r@),
{
    let mut keys: Vec<i128> = Vec::new();
    let mut i: usize = 0;
    while i < roles.len()
        invariant
            i <= roles.len(),
            keys@ =~= role_ranks(roles@).take(i as int),
        decreases roles.len() - i,
    {
        keys.push(roles[i].rank as i128);
        i = i + 1;
    }
    assert(keys@ =~= role_ranks(roles@));
    sort_by_keys(roles, &keys, true)
}

/// The optional details of an organization, as its forms store them.
#[derive(Clone, Debug)]
pub struct OrgDetails {
    pub description: Option<String>,
    pub abn: Option<String>,
    pub lei: Option<String>,
    pub business_type: Option<String>,
    pub business_address: Option<String>,
    pub business_phone: Option<String>,
    pub business_email: Option<String>,
}

/// What the detail fields of an organization form hold, as typed.
#[derive(Clone, Debug)]
pub struct OrgDetailFields {
    pub description: String,
    pub abn: String,
    pub lei: String,
    pub business_type: String,
    pub business_address: String,
    pub business_phone: String,
    pub business_email: String,
}

/// Whether `d` holds the detail fields `f` as a form stores them: each blank field as
/// nothing, each other field as typed.
pub open spec fn details_from(d: OrgDetails, f: OrgDetailFields) -> bool {
    &&& text_of(d.description) == optional_text_spec(f.description@)
    &&& text_of(d.abn) == optional_text_spec(f.abn@)
    &&& text_of(d.lei) == optional_text_spec(f.lei@)
    &&& text_of(d.business_type) == optional_text_spec(f.business_type@)
    &&& text_of(d.business_address) == optional_text_spec(f.business_address@)
    &&& text_of(d.business_phone) == optional_text_spec(f.business_phone@)
    &&& text_of(d.business_email) == optional_text_spec(f.business_email@)
}

/// The detail fields of a form as an organization stores them.
pub fn org_details(f: &OrgDetailFields) -> (d: OrgDetails)
    ensures
        details_from(d, *f),
{
    OrgDetails {
        description: optional_text(f.description.as_str()),
        abn: optional_text(f.abn.as_str()),
        lei: optional_text(f.lei.as_str()),
        business_type: optional_text(f.business_type.as_str()),
        business_address: optional_text(f.business_address.as_str()),
        business_phone: optional_text(f.business_phone.as_str()),
        business_email: optional_text(f.business_email.as_str()),
    }
}

/// An organization that the add form asks the store to create, owned by the current user.
#[derive(Clone, Debug)]
pub struct NewOrganization {
    pub name: String,
    pub owner_id: u128,
    pub details: OrgDetails,
    pub image_url: Option<String>,
}

/// What the add form hands the store: nothing when the name is blank, otherwise the name as
/// typed, the owner, the stored details and the chosen image.
pub fn new_organization(name: &str, owner_id: u128, fields: &OrgDetailFields, image_url: Option<String>) -> (r: Option<NewOrganization>)
    ensures
        r is None <==> blank(name@),
        r matches Some(o) ==> {
            &&& o.name@ == name@
            &&& o.owner_id == owner_id
            &&& details_from(o.details, *fields)
            &&& o.image_url == image_url
        },
{
    if is_blank(name) {
        return None;
    }
    Some(NewOrganization {
        name: name.to_string(),
        owner_id,
        details: org_details(fields),
        image_url,
    })
}

/// What the edit form of an organization holds.
#[derive(Clone, Debug)]
pub struct OrgEdit {
    pub name: String,
    pub image_url: Option<String>,
    pub color: String,
    pub fields: OrgDetailFields,
}

/// Whether `new` is `old` saved with the edit form `e` at time `now`.
pub open spec fn org_edited(old: Organization, e: OrgEdit, now: i128, new: Organization) -> bool {
    &&& new.id == old.id
    &&& new.owner_id == old.owner_id
    &&& new.members == old.members
    &&& new.roles == old.roles
    &&& new.name@ == e.name@
    &&& new.image_url == e.image_url
    &&& text_of(new.color) == optional_text_spec(e.color@)
    &&& details_from(
        OrgDetails {
            description: new.description,
            abn: new.abn,
            lei: new.lei,
            business_type: new.business_type,
            business_address: new.business_address,
            business_phone: new.business_phone,
            business_email: new.business_email,
        },
        e.fields,
    )
    &&& new.updated_at == now
}

/// Saves the edit form into the organization at time `now`; a blank name saves nothing.
/// Returns whether it saved.
pub fn apply_org_edit(org: &mut Organization, e: &OrgEdit, now: i128) -> (saved: bool)
    ensures
        saved == !blank(e.name@),
        saved ==> org_edited(*old(org), *e, now, *final(org)),
        !saved ==> *final(org) == *old(org),
{
    if is_blank(e.name.as_str()) {
        return false;
    }
    let d = org_details(&e.fields);
    org.name = e.name.clone();
    org.image_url = e.image_url.clone();
    org.color = optional_text(e.color.as_str());
    org.description = d.description;
    org.abn = d.abn;
    org.lei = d.lei;
    org.business_type = d.business_type;
    org.business_address = d.business_address;
    org.business_phone = d.business_phone;
    org.business_email = d.business_email;
    org.updated_at = now;
    true
}

/// The text an optional field shows in a form: its text, or nothing.
pub open spec fn text_or_empty(o: Option<String>) -> Seq<char> {
    match o {
        Some(t) => t@,
        None => Seq::empty(),
    }
}

/// Whether `e` is the edit form as it opens on `org`: its name and image, and each optional
/// text or an empty field.
pub open spec fn edit_form_of(org: Organization, e: OrgEdit) -> bool {
    &&& e.name@ == org.name@
    &&& text_of(e.image_url) == text_of(org.image_url)
    &&& e.color@ == text_or_empty(org.color)
    &&& e.fields.description@ == text_or_empty(org.description)
    &&& e.fields.abn@ == text_or_empty(org.abn)
    &&& e.fields.lei@ == text_or_empty(org.lei)
    &&& e.fields.business_type@ == text_or_empty(org.business_type)
    &&& e.fields.business_address@ == text_or_empty(org.business_address)
    &&& e.fields.business_phone@ == text_or_empty(org.business_phone)
    &&& e.fields.business_email@ == text_or_empty(org.business_email)
}

fn form_text(o: &Option<String>) -> (t: String)
    ensures
        t@ == text_or_empty(*o),
{
    match o {
        Some(s) => string_of(&chars_of(s.as_str())),
        None => String::new(),
    }
}

fn copy_text(o: &Option<String>) -> (r: Option<String>)
    ensures
        text_of(r) == text_of(*o),
{
    match o {
        Some(s) => Some(string_of(&chars_of(s.as_str()))),
        None => None,
    }
}

/// The edit form as it opens on an organization, each missing optional text an empty field.
pub fn org_edit_form(org: &Organization) -> (e: OrgEdit)
    ensures
        edit_form_of(*org, e),
{
    OrgEdit {
        name: string_of(&chars_of(org.name.as_str())),
        image_url: copy_text(&org.image_url),
        color: form_text(&org.color),
        fields: OrgDetailFields {
            description: form_text(&org.description),
            abn: form_text(&org.abn),
            lei: form_text(&org.lei),
            business_type: form_text(&org.business_type),
            business_address: form_text(&org.business_address),
            business_phone: form_text(&org.business_phone),
            business_email: form_text(&org.business_email),
        },
    }
}

/// Whether an optional text is missing or not blank, as the forms store texts.
pub open spec fn stored_form(o: Option<String>) -> bool {
    match o {
        Some(t) => !blank(t@),
        None => true,
    }
}

/// Saving the edit form unchanged, as it opened on an organization, keeps every text of the
/// organization and only stamps it with the time; this holds for an organization whose
/// optional texts are each missing or not blank (which is how the forms store them).
pub proof fn lemma_unchanged_edit_keeps_texts(org: Organization, e: OrgEdit, now: i128, new: Organization)
    requires
        edit_form_of(org, e),
        org_edited(org, e, now, new),
        stored_form(org.description),
        stored_form(org.color),
        stored_form(org.abn),
        stored_form(org.lei),
        stored_form(org.business_type),
        stored_form(org.business_address),
        stored_form(org.business_phone),
        stored_form(org.business_email),
    ensures
        new.name@ == org.name@,
        text_of(new.image_url) == text_of(org.image_url),
        text_of(new.description) == text_of(org.description),
        text_of(new.color) == text_of(org.color),
        text_of(new.abn) == text_of(org.abn),
        text_of(new.lei) == text_of(org.lei),
        text_of(new.business_type) == text_of(org.business_type),
        text_of(new.business_address) == text_of(org.business_address),
        text_of(new.business_phone) == text_of(org.business_phone),
        text_of(new.business_email) == text_of(org.business_email),
        new.id == org.id,
        new.members == org.members,
        new.roles == org.roles,
        new.updated_at == now,
{
    lemma_empty_is_blank();
}

proof fn lemma_empty_is_blank()
    ensures
        blank(Seq::<char>::empty()),
{
    assert(trim_spec(Seq::<char>::empty()) =~= Seq::<char>::empty()) by {
        reveal_with_fuel(crate::text::trim_start_spec, 1);
    }
}

/// Gives the organization the uploaded image, stamped with the time `now`.
pub fn set_org_image(org: &mut Organization, url: String, now: i128)
    ensures
        final(org).image_url == Some(url),
        final(org).updated_at == now,
        *final(org) == (Organization { image_url: Some(url), updated_at: now, ..*old(org) }),
{
    org.image_url = Some(url);
    org.updated_at = now;
}

/// A member that the add-member form asks the store to create in an organization.
#[derive(Clone, Debug)]
pub struct MemberDraft {
    pub name: String,
    pub email: String,
    pub role: UserRole,
    pub organization_id: u128,
}

/// What the add-member form hands the store: nothing when the name or the email is blank,
/// otherwise both as typed, with the chosen role, for the organization.
pub fn member_draft(name: &str, email: &str, role: UserRole, organization_id: u128) -> (r: Option<MemberDraft>)
    ensures
        r is None <==> (blank(name@) || blank(email@)),
        r matches Some(m) ==> {
            &&& m.name@ == name@
            &&& m.email@ == email@
            &&& m.role == role
            &&& m.organization_id == organization_id
        },
{
    if is_blank(name) || is_blank(email) {
        return None;
    }
    Some(MemberDraft { name: name.to_string(), email: email.to_string(), role, organization_id })
}


/// Whether organization `x` may come before organization `y` under a sort mode: more
/// recently updated, name not after (or, descending, not before) in lowercase, or at least
/// as many members or roles.
pub open spec fn org_not_after(x: Organization, y: Organization, mode: OrgSortMode) -> bool {
    match mode {
        OrgSortMode::Recent => x.updated_at >= y.updated_at,
        OrgSortMode::NameAsc => !text_precedes(lowercase(y.name@), lowercase(x.name@)),
        OrgSortMode::NameDesc => !text_precedes(lowercase(x.name@), lowercase(y.name@)),
        OrgSortMode::Members => x.members@.len() >= y.members@.len(),
        OrgSortMode::Roles => x.roles@.len() >= y.roles@.len(),
    }
}

/// Whether organizations `x` and `y` tie under a sort mode.
pub open spec fn org_ties(x: Organization, y: Organization, mode: OrgSortMode) -> bool {
    org_not_after(x, y, mode) && org_not_after(y, x, mode)
}

/// The sorted organization list holds each organization of the list, as often as the list
/// does, in an order where each comes no later than the next under the mode (most recently
/// updated first, names A to Z or Z to A ignoring case, most members or roles first), and
/// organizations that tie keep the order they were given in.
pub proof fn lemma_sorted_organizations(orgs: Seq<Organization>, mode: OrgSortMode, r: Seq<Organization>)
    requires
        organizations_sorted(orgs, mode, r),
    ensures
        r.len() == orgs.len(),
        forall|o: Organization| r.contains(o) <==> orgs.contains(o),
        forall|a: int, b: int| 0 <= a < b < r.len() ==> org_not_after(#[trigger] r[a], #[trigger] r[b], mode),
        exists|order: Seq<usize>|
            is_permutation(order, orgs.len()) && (forall|k: int| 0 <= k < r.len() ==> #[trigger] r[k] == orgs[order[k] as int])
                && (forall|a: int, b: int|
                #![trigger order[a], order[b]]
                0 <= a < b < r.len() && org_ties(r[a], r[b], mode) ==> order[a] < order[b]),
{
    match mode {
        OrgSortMode::NameAsc | OrgSortMode::NameDesc => {
            let d = mode == OrgSortMode::NameDesc;
            let texts = lowercase_names(orgs);
            let (keys, order) = choose|keys: Seq<Vec<char>>, order: Seq<usize>|
                keys_are(keys, texts) && is_stable_order(keys, d, order) && placed(orgs, order, r);
            lemma_sorted_by_texts_items(orgs, texts, d, r);
            assert forall|a: int, b: int| 0 <= a < b < r.len() implies org_not_after(#[trigger] r[a], #[trigger] r[b], mode) by {
                assert(order[a] < orgs.len() && order[b] < orgs.len());
                assert(keys[order[a] as int]@ == texts[order[a] as int]);
                assert(keys[order[b] as int]@ == texts[order[b] as int]);
            }
            assert forall|a: int, b: int|
                #![trigger order[a], order[b]]
                0 <= a < b < r.len() && org_ties(r[a], r[b], mode) implies order[a] < order[b] by {
                assert(order[a] < orgs.len() && order[b] < orgs.len());
                assert(keys[order[a] as int]@ == texts[order[a] as int]);
                assert(keys[order[b] as int]@ == texts[order[b] as int]);
            }
        },
        _ => {
            let nums = match mode {
                OrgSortMode::Recent => update_times(orgs),
                OrgSortMode::Members => member_counts(orgs),
                _ => role_counts(orgs),
            };
            let order = choose|order: Seq<usize>| is_stable_order(nums, true, order) && placed(orgs, order, r);
            lemma_sorted_by_numbers_items(orgs, nums, true, r);
            assert forall|a: int, b: int| 0 <= a < b < r.len() implies org_not_after(#[trigger] r[a], #[trigger] r[b], mode) by {
                assert(order[a] < orgs.len() && order[b] < orgs.len());
                assert(r[a] == orgs[order[a] as int] && r[b] == orgs[order[b] as int]);
                assert(!comes_before(nums[order[b] as int], nums[order[a] as int], true));
                assert(r[a].members@.len() == r[a].members.len() && r[b].members@.len() == r[b].members.len());
                assert(r[a].roles@.len() == r[a].roles.len() && r[b].roles@.len() == r[b].roles.len());
            }
            assert forall|a: int, b: int|
                #![trigger order[a], order[b]]
                0 <= a < b < r.len() && org_ties(r[a], r[b], mode) implies order[a] < order[b] by {
                assert(order[a] < orgs.len() && order[b] < orgs.len());
                assert(r[a] == orgs[order[a] as int] && r[b] == orgs[order[b] as int]);
                assert(r[a].members@.len() == r[a].members.len() && r[b].members@.len() == r[b].members.len());
                assert(r[a].roles@.len() == r[a].roles.len() && r[b].roles@.len() == r[b].roles.len());
            }
        },
    }
}

} // verus!

//! The parties related to an asset: owners, custodians, suppliers and the rest. Each kind of
//! relationship has at most one active party; adding one retires the ones it replaces.

use vstd::prelude::*;
use crate::text::{blank, chars_of, is_blank, optional_trimmed, optional_trimmed_spec, string_of, text_of, trim_chars, trim_spec};

verus! {

/// The kinds of relationship a party can have with an asset, as the editor lists them.
#[derive(Clone, Copy, Debug, PartialEq, Eq, Structural)]
pub enum RelationshipType {
    LegalOwner,
    BeneficialOwner,
    ManagingOrganization,
    ResponsibleDepartment,
    AssetManager,
    CurrentCustodian,
    AssignedEmployee,
    AssignedTeam,
    CostCentre,
    Supplier,
    Manufacturer,
    MaintenanceProvider,
}

/// The kinds of party a relationship can name.
#[derive(Clone, Copy, Debug, PartialEq, Eq, Structural)]
pub enum PartyType {
    Organization,
    Team,
    Member,
    Supplier,
    ServiceProvider,
    ExternalContact,
}

/// A relationship of a party with an asset. Times are microseconds since the Unix epoch.
#[derive(Clone, Debug)]
pub struct Relationship {
    pub id: u128,
    pub kind: RelationshipType,
    pub party_name: String,
    pub contact: Option<String>,
    pub party_type: PartyType,
    pub start_date: Option<i128>,
    pub end_date: Option<i128>,
    pub active: bool,
}

/// A relationship as plain values.
pub struct RelView {
    pub id: u128,
    pub kind: RelationshipType,
    pub party_name: Seq<char>,
    pub contact: Option<Seq<char>>,
    pub party_type: PartyType,
    pub start_date: Option<i128>,
    pub end_date: Option<i128>,
    pub active: bool,
}

/// A relationship as plain values.
pub open spec fn rel_view(r: Relationship) -> RelView {
    RelView {
        id: r.id,
        kind: r.kind,
        party_name: r.party_name@,
        contact: text_of(r.contact),
        party_type: r.party_type,
        start_date: r.start_date,
        end_date: r.end_date,
        active: r.active,
    }
}

/// The relationships as plain values.
pub open spec fn rel_views(rels: Seq<Relationship>) -> Seq<RelView> {
    rels.map_values(|r: Relationship| rel_view(r))
}

/// A relationship after a new one of kind `kind` is added at `now`: an active one of that
/// kind ends then; any other stays as it was.
pub open spec fn retired(v: RelView, kind: RelationshipType, now: i128) -> RelView {
    if v.active && v.kind == kind {
        RelView { active: false, end_date: Some(now), ..v }
    } else {
        v
    }
}

/// The position of the first active relationship of kind `kind`.
pub open spec fn first_active(vs: Seq<RelView>, kind: RelationshipType) -> Option<int> {
    if exists|k: int| 0 <= k < vs.len() && vs[k].active && vs[k].kind == kind {
        Some(
            choose|k: int|
                0 <= k < vs.len() && vs[k].active && vs[k].kind == kind && forall|j: int|
                    0 <= j < k ==> !(#[trigger] vs[j].active && vs[j].kind == kind),
        )
    } else {
        None
    }
}

/// The party that a new relationship of kind `kind` replaces: the name of the first active
/// one of that kind, unless there is none or its name is empty.
pub open spec fn previous_party(vs: Seq<RelView>, kind: RelationshipType) -> Option<Seq<char>> {
    match first_active(vs, kind) {
        Some(k) => if vs[k].party_name.len() == 0 {
            None
        } else {
            Some(vs[k].party_name)
        },
        None => None,
    }
}

/// The relationships after adding a party `party` of kind `kind`: every active one of that
/// kind ends at `now`, and the new one, active since `now`, comes last.
pub open spec fn added_relationships(
    vs: Seq<RelView>,
    kind: RelationshipType,
    party: Seq<char>,
    contact: Seq<char>,
    party_type: PartyType,
    id: u128,
    now: i128,
) -> Seq<RelView> {
    vs.map_values(|v: RelView| retired(v, kind, now)).push(
        RelView {
            id,
            kind,
            party_name: trim_spec(party),
            contact: optional_trimmed_spec(contact),
            party_type,
            start_date: Some(now),
            end_date: None,
            active: true,
        },
    )
}

fn copy_text(o: &Option<String>) -> (r: Option<String>)
    ensures
        text_of(r) == text_of(*o),
{
    match o {
        Some(s) => Some(string_of(&chars_of(s.as_str()))),
        None => None,
    }
}

/// Adds a party of kind `kind` (with id `id`, at time `now`). A blank party name changes
/// nothing. Otherwise every active relationship of that kind ends at `now`, and the new one
/// is added with its name and contact trimmed (a blank contact as none). Returns the party
/// that the new one replaces, for the asset's ownership or custody history.
pub fn add_relationship(
    rels: &mut Vec<Relationship>,
    kind: RelationshipType,
    party: &str,
    contact: &str,
    party_type: PartyType,
    id: u128,
    now: i128,
) -> (previous: Option<String>)
    ensures
        blank(party@) ==> *final(rels) == *old(rels) && previous is None,
        !blank(party@) ==> rel_views(final(rels)@) == added_relationships(
            rel_views(old(rels)@),
            kind,
            party@,
            contact@,
            party_type,
            id,
            now,
        ),
        !blank(party@) ==> text_of(previous) == previous_party(rel_views(old(rels)@), kind),
{
    if is_blank(party) {
        return None;
    }
    let ghost vs = rel_views(rels@);
    let mut k: usize = 0;
    while k < rels.len() && !(rels[k].active && rels[k].kind == kind)
        invariant
            0 <= k <= rels.len(),
            vs == rel_views(rels@),
            forall|j: int| 0 <= j < k ==> !(#[trigger] vs[j].active && vs[j].kind == kind),
        decreases rels.len() - k,
    {
        k = k + 1;
    }
    let previous = if k < rels.len() {
        proof {
            assert(vs[k as int].active && vs[k as int].kind == kind);
            let c = choose|c: int|
                0 <= c < vs.len() && vs[c].active && vs[c].kind == kind && forall|j: int|
                    0 <= j < c ==> !(#[trigger] vs[j].active && vs[j].kind == kind);
            if c < k {
            } else if c > k {
                assert(!(vs[k as int].active && vs[k as int].kind == kind));
            }
        }
        let name = chars_of(rels[k].party_name.as_str());
        if name.len() == 0 {
            None
        } else {
            Some(string_of(&name))
        }
    } else {
        None
    };
    let mut out: Vec<Relationship> = Vec::new();
    let mut i: usize = 0;
    while i < rels.len()
        invariant
            0 <= i <= rels.len(),
            vs == rel_views(rels@),
            rel_views(out@) =~= vs.take(i as int).map_values(|v: RelView| retired(v, kind, now)),
        decreases rels.len() - i,
    {
        let r = &rels[i];
        let ending = r.active && r.kind == kind;
        let copy = Relationship {
            id: r.id,
            kind: r.kind,
            party_name: string_of(&chars_of(r.party_name.as_str())),
            contact: copy_text(&r.contact),
            party_type: r.party_type,
            start_date: r.start_date,
            end_date: if ending { Some(now) } else { r.end_date },
            active: r.active && !ending,
        };
        let ghost before = out@;
        out.push(copy);
        proof {
            assert(rel_view(copy) == retired(vs[i as int], kind, now));
            assert(rel_views(out@) =~= rel_views(before).push(rel_view(copy)));
            assert(vs.take(i + 1).map_values(|v: RelView| retired(v, kind, now)) =~= vs.take(i as int).map_values(
                |v: RelView| retired(v, kind, now),
            ).push(retired(vs[i as int], kind, now)));
        }
        i = i + 1;
    }
    assert(vs.take(rels.len() as int) =~= vs);
    let name = string_of(&trim_chars(&chars_of(party)));
    let added = Relationship {
        id,
        kind,
        party_name: name,
        contact: optional_trimmed(contact),
        party_type,
        start_date: Some(now),
        end_date: None,
        active: true,
    };
    let ghost before = out@;
    out.push(added);
    proof {
        assert(rel_views(out@) =~= rel_views(before).push(rel_view(added)));
    }
    *rels = out;
    previous
}

/// After a party is added, exactly one relationship of its kind is active: the new one, at
/// the end.
pub proof fn lemma_one_active_per_kind(
    vs: Seq<RelView>,
    kind: RelationshipType,
    party: Seq<char>,
    contact: Seq<char>,
    party_type: PartyType,
    id: u128,
    now: i128,
)
    ensures
        ({
            let n = added_relationships(vs, kind, party, contact, party_type, id, now);
            &&& n[n.len() - 1].active && n[n.len() - 1].kind == kind
            &&& forall|j: int| 0 <= j < n.len() && #[trigger] n[j].active && n[j].kind == kind ==> j == n.len() - 1
        }),
{
    let n = added_relationships(vs, kind, party, contact, party_type, id, now);
    assert forall|j: int| 0 <= j < n.len() && #[trigger] n[j].active && n[j].kind == kind implies j == n.len() - 1 by {
        if j < n.len() - 1 {
            assert(n[j] == retired(vs[j], kind, now));
        }
    }
}


/// What adding a party does to the relationships: the new one comes last, active since
/// `now`, with the kind, party type and id given and its name and contact trimmed (a blank
/// contact as none); each earlier one keeps its id, kind, party, contact, type and start,
/// and ends at `now` exactly when it was active and of that kind.
pub proof fn lemma_added_relationship(
    vs: Seq<RelView>,
    kind: RelationshipType,
    party: Seq<char>,
    contact: Seq<char>,
    party_type: PartyType,
    id: u128,
    now: i128,
)
    ensures
        ({
            let n = added_relationships(vs, kind, party, contact, party_type, id, now);
            let last = n[n.len() - 1];
            &&& n.len() == vs.len() + 1
            &&& last.id == id && last.kind == kind && last.party_type == party_type
            &&& last.party_name == trim_spec(party) && last.contact == optional_trimmed_spec(contact)
            &&& last.start_date == Some(now) && last.end_date is None && last.active
            &&& forall|i: int|
                0 <= i < vs.len() ==> {
                    &&& #[trigger] n[i].id == vs[i].id && n[i].kind == vs[i].kind
                    &&& n[i].party_name == vs[i].party_name && n[i].contact == vs[i].contact
                    &&& n[i].party_type == vs[i].party_type && n[i].start_date == vs[i].start_date
                    &&& if vs[i].active && vs[i].kind == kind {
                        !n[i].active && n[i].end_date == Some(now)
                    } else {
                        n[i].active == vs[i].active && n[i].end_date == vs[i].end_date
                    }
                }
        }),
{
}

} // verus!

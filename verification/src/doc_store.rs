//! The documents of a portfolio, its groups and its assets: the list a portfolio's document
//! slider shows, whose window a document opens in, and how an edit of a document's
//! contents or link reaches every copy of it.

use vstd::prelude::*;
use crate::documents::{DocEntry, Document};
use crate::text::{chars_of, string_of, text_of};

verus! {

/// The documents of an asset.
pub struct AssetDocuments {
    pub id: u128,
    pub documents: Vec<Document>,
}

/// The documents of an asset group: its own and its assets'.
pub struct GroupDocuments {
    pub id: u128,
    pub documents: Vec<Document>,
    pub assets: Vec<AssetDocuments>,
}

/// The documents of a portfolio: its own, its groups', and those of its direct assets.
pub struct PortfolioDocuments {
    pub id: u128,
    pub documents: Vec<Document>,
    pub groups: Vec<GroupDocuments>,
    pub assets: Vec<AssetDocuments>,
}

/// A document as plain values.
pub struct DocView {
    pub id: u128,
    pub name: Seq<char>,
    pub file_type: Seq<char>,
    pub url: Seq<char>,
    pub content: Option<Seq<char>>,
    pub uploaded_at: i128,
    pub uploaded_by: u128,
}

/// A document as plain values.
pub open spec fn doc_view(d: Document) -> DocView {
    DocView {
        id: d.id,
        name: d.name@,
        file_type: d.file_type@,
        url: d.url@,
        content: text_of(d.content),
        uploaded_at: d.uploaded_at,
        uploaded_by: d.uploaded_by,
    }
}

/// A slider entry as plain values.
pub struct EntryView {
    pub doc: DocView,
    pub portfolio_id: Option<u128>,
    pub group_id: Option<u128>,
    pub asset_id: Option<u128>,
    pub organization_id: Option<u128>,
}

/// Slider entries as plain values.
pub open spec fn entry_views(es: Seq<DocEntry>) -> Seq<EntryView> {
    es.map_values(
        |e: DocEntry|
            EntryView {
                doc: doc_view(e.doc),
                portfolio_id: e.portfolio_id,
                group_id: e.group_id,
                asset_id: e.asset_id,
                organization_id: e.organization_id,
            },
    )
}

/// The entries of a list of documents of portfolio `pid`, in order.
pub open spec fn docs_entries(ds: Seq<Document>, pid: u128, gid: Option<u128>, aid: Option<u128>) -> Seq<EntryView> {
    ds.map_values(
        |d: Document|
            EntryView { doc: doc_view(d), portfolio_id: Some(pid), group_id: gid, asset_id: aid, organization_id: None },
    )
}

/// The entries of the documents of each asset in turn.
pub open spec fn assets_entries(assets: Seq<AssetDocuments>, pid: u128) -> Seq<EntryView>
    decreases assets.len(),
{
    if assets.len() == 0 {
        Seq::empty()
    } else {
        assets_entries(assets.drop_last(), pid) + docs_entries(assets.last().documents@, pid, None, Some(assets.last().id))
    }
}

/// The entries of each group in turn: its own documents, then its assets'.
pub open spec fn groups_entries(groups: Seq<GroupDocuments>, pid: u128) -> Seq<EntryView>
    decreases groups.len(),
{
    if groups.len() == 0 {
        Seq::empty()
    } else {
        groups_entries(groups.drop_last(), pid) + docs_entries(
            groups.last().documents@,
            pid,
            Some(groups.last().id),
            None,
        ) + assets_entries(groups.last().assets@, pid)
    }
}

/// What a portfolio's document slider lists: the portfolio's documents, then each group's
/// (its own, then its assets'), then those of its direct assets; every entry names the
/// portfolio, and a group's or asset's also names that group or asset.
pub open spec fn slider_entries_spec(p: PortfolioDocuments) -> Seq<EntryView> {
    docs_entries(p.documents@, p.id, None, None) + groups_entries(p.groups@, p.id) + assets_entries(p.assets@, p.id)
}

fn copy_text(o: &Option<String>) -> (r: Option<String>)
    ensures
        text_of(r) == text_of(*o),
{
    match o {
        Some(s) => Some(string_of(&chars_of(s.as_str()))),
        None => None,
    }
}

/// A copy of a document.
pub fn copy_document(d: &Document) -> (r: Document)
    ensures
        doc_view(r) == doc_view(*d),
{
    Document {
        id: d.id,
        name: string_of(&chars_of(d.name.as_str())),
        file_type: string_of(&chars_of(d.file_type.as_str())),
        url: string_of(&chars_of(d.url.as_str())),
        content: copy_text(&d.content),
        uploaded_at: d.uploaded_at,
        uploaded_by: d.uploaded_by,
    }
}

fn push_doc_entries(out: &mut Vec<DocEntry>, ds: &Vec<Document>, pid: u128, gid: Option<u128>, aid: Option<u128>)
    ensures
        entry_views(final(out)@) == entry_views(old(out)@) + docs_entries(ds@, pid, gid, aid),
{
    let mut i: usize = 0;
    while i < ds.len()
        invariant
            0 <= i <= ds.len(),
            entry_views(out@) =~= entry_views(old(out)@) + docs_entries(ds@.take(i as int), pid, gid, aid),
        decreases ds.len() - i,
    {
        let e = DocEntry {
            doc: copy_document(&ds[i]),
            portfolio_id: Some(pid),
            group_id: gid,
            asset_id: aid,
            organization_id: None,
        };
        let ghost before = out@;
        out.push(e);
        proof {
            assert(entry_views(out@) =~= entry_views(before).push(entry_views(out@).last()));
            assert(docs_entries(ds@.take(i + 1), pid, gid, aid) =~= docs_entries(ds@.take(i as int), pid, gid, aid).push(
                entry_views(out@).last(),
            ));
        }
        i = i + 1;
    }
    assert(ds@.take(ds.len() as int) =~= ds@);
}

fn push_assets_entries(out: &mut Vec<DocEntry>, assets: &Vec<AssetDocuments>, pid: u128)
    ensures
        entry_views(final(out)@) == entry_views(old(out)@) + assets_entries(assets@, pid),
{
    let mut i: usize = 0;
    while i < assets.len()
        invariant
            0 <= i <= assets.len(),
            entry_views(out@) =~= entry_views(old(out)@) + assets_entries(assets@.take(i as int), pid),
        decreases assets.len() - i,
    {
        assert(assets@.take(i + 1).drop_last() =~= assets@.take(i as int));
        push_doc_entries(out, &assets[i].documents, pid, None, Some(assets[i].id));
        i = i + 1;
    }
    assert(assets@.take(assets.len() as int) =~= assets@);
}

/// The entries of a portfolio's document slider.
pub fn slider_entries(p: &PortfolioDocuments) -> (es: Vec<DocEntry>)
    ensures
        entry_views(es@) == slider_entries_spec(*p),
{
    let mut out: Vec<DocEntry> = Vec::new();
    assert(entry_views(out@) =~= Seq::<EntryView>::empty());
    push_doc_entries(&mut out, &p.documents, p.id, None, None);
    let mut g: usize = 0;
    while g < p.groups.len()
        invariant
            0 <= g <= p.groups.len(),
            entry_views(out@) =~= docs_entries(p.documents@, p.id, None, None) + groups_entries(
                p.groups@.take(g as int),
                p.id,
            ),
        decreases p.groups.len() - g,
    {
        assert(p.groups@.take(g + 1).drop_last() =~= p.groups@.take(g as int));
        push_doc_entries(&mut out, &p.groups[g].documents, p.id, Some(p.groups[g].id), None);
        push_assets_entries(&mut out, &p.groups[g].assets, p.id);
        g = g + 1;
    }
    assert(p.groups@.take(p.groups.len() as int) =~= p.groups@);
    push_assets_entries(&mut out, &p.assets, p.id);
    out
}

/// Whose document window an entry opens in: its organization, else its asset, else its
/// group, else its portfolio, else the document itself.
pub fn entry_owner(e: &DocEntry) -> (id: u128)
    ensures
        id == match e.organization_id {
            Some(o) => o,
            None => match e.asset_id {
                Some(a) => a,
                None => match e.group_id {
                    Some(g) => g,
                    None => match e.portfolio_id {
                        Some(p) => p,
                        None => e.doc.id,
                    },
                },
            },
        },
{
    match e.organization_id {
        Some(o) => o,
        None => match e.asset_id {
            Some(a) => a,
            None => match e.group_id {
                Some(g) => g,
                None => match e.portfolio_id {
                    Some(p) => p,
                    None => e.doc.id,
                },
            },
        },
    }
}

/// An edit that reaches every copy of a document: new contents, or a new link.
pub enum DocChange {
    Content(String),
    Url(String),
}

/// A document after the edit `change` of document `id`: the document with that id takes
/// the new contents or link; any other stays as it was.
pub open spec fn changed_doc(v: DocView, id: u128, change: DocChange) -> DocView {
    if v.id != id {
        v
    } else {
        match change {
            DocChange::Content(c) => DocView { content: Some(c@), ..v },
            DocChange::Url(u) => DocView { url: u@, ..v },
        }
    }
}

/// Whether `new` is the documents `old` after the edit.
pub open spec fn docs_changed(old: Seq<Document>, new: Seq<Document>, id: u128, change: DocChange) -> bool {
    &&& new.len() == old.len()
    &&& forall|k: int| 0 <= k < old.len() ==> doc_view(#[trigger] new[k]) == changed_doc(doc_view(old[k]), id, change)
}

/// Whether `new` is the assets `old` after the edit.
pub open spec fn assets_changed(old: Seq<AssetDocuments>, new: Seq<AssetDocuments>, id: u128, change: DocChange) -> bool {
    &&& new.len() == old.len()
    &&& forall|k: int|
        0 <= k < old.len() ==> (#[trigger] new[k]).id == old[k].id && docs_changed(
            old[k].documents@,
            new[k].documents@,
            id,
            change,
        )
}

/// Whether `new` is the groups `old` after the edit.
pub open spec fn groups_changed(old: Seq<GroupDocuments>, new: Seq<GroupDocuments>, id: u128, change: DocChange) -> bool {
    &&& new.len() == old.len()
    &&& forall|k: int|
        0 <= k < old.len() ==> {
            &&& (#[trigger] new[k]).id == old[k].id
            &&& docs_changed(old[k].documents@, new[k].documents@, id, change)
            &&& assets_changed(old[k].assets@, new[k].assets@, id, change)
        }
}

/// Whether `new` is the portfolios `old` after the edit: every copy of the document, in a
/// portfolio, a group or an asset, changed, and nothing else.
pub open spec fn portfolios_changed(old: Seq<PortfolioDocuments>, new: Seq<PortfolioDocuments>, id: u128, change: DocChange) -> bool {
    &&& new.len() == old.len()
    &&& forall|k: int|
        0 <= k < old.len() ==> {
            &&& (#[trigger] new[k]).id == old[k].id
            &&& docs_changed(old[k].documents@, new[k].documents@, id, change)
            &&& groups_changed(old[k].groups@, new[k].groups@, id, change)
            &&& assets_changed(old[k].assets@, new[k].assets@, id, change)
        }
}

fn changed_docs(ds: &Vec<Document>, id: u128, change: &DocChange) -> (r: Vec<Document>)
    ensures
        docs_changed(ds@, r@, id, *change),
{
    let mut out: Vec<Document> = Vec::new();
    let mut i: usize = 0;
    while i < ds.len()
        invariant
            0 <= i <= ds.len(),
            out.len() == i,
            forall|k: int| 0 <= k < i ==> doc_view(#[trigger] out@[k]) == changed_doc(doc_view(ds@[k]), id, *change),
        decreases ds.len() - i,
    {
        let mut d = copy_document(&ds[i]);
        if d.id == id {
            match change {
                DocChange::Content(c) => {
                    d.content = Some(string_of(&chars_of(c.as_str())));
                },
                DocChange::Url(u) => {
                    d.url = string_of(&chars_of(u.as_str()));
                },
            }
        }
        out.push(d);
        i = i + 1;
    }
    out
}

fn changed_assets(assets: &Vec<AssetDocuments>, id: u128, change: &DocChange) -> (r: Vec<AssetDocuments>)
    ensures
        assets_changed(assets@, r@, id, *change),
{
    let mut out: Vec<AssetDocuments> = Vec::new();
    let mut i: usize = 0;
    while i < assets.len()
        invariant
            0 <= i <= assets.len(),
            out.len() == i,
            forall|k: int|
                0 <= k < i ==> (#[trigger] out@[k]).id == assets@[k].id && docs_changed(
                    assets@[k].documents@,
                    out@[k].documents@,
                    id,
                    *change,
                ),
        decreases assets.len() - i,
    {
        out.push(AssetDocuments { id: assets[i].id, documents: changed_docs(&assets[i].documents, id, change) });
        i = i + 1;
    }
    out
}

fn changed_groups(groups: &Vec<GroupDocuments>, id: u128, change: &DocChange) -> (r: Vec<GroupDocuments>)
    ensures
        groups_changed(groups@, r@, id, *change),
{
    let mut out: Vec<GroupDocuments> = Vec::new();
    let mut i: usize = 0;
    while i < groups.len()
        invariant
            0 <= i <= groups.len(),
            out.len() == i,
            forall|k: int|
                0 <= k < i ==> {
                    &&& (#[trigger] out@[k]).id == groups@[k].id
                    &&& docs_changed(groups@[k].documents@, out@[k].documents@, id, *change)
                    &&& assets_changed(groups@[k].assets@, out@[k].assets@, id, *change)
                },
        decreases groups.len() - i,
    {
        out.push(
            GroupDocuments {
                id: groups[i].id,
                documents: changed_docs(&groups[i].documents, id, change),
                assets: changed_assets(&groups[i].assets, id, change),
            },
        );
        i = i + 1;
    }
    out
}

/// Applies an edit of document `id` to every copy of it, in every portfolio, group and
/// asset; everything else stays as it was.
pub fn change_document(ps: &mut Vec<PortfolioDocuments>, id: u128, change: DocChange)
    ensures
        portfolios_changed(old(ps)@, final(ps)@, id, change),
{
    let mut out: Vec<PortfolioDocuments> = Vec::new();
    let mut i: usize = 0;
    while i < ps.len()
        invariant
            0 <= i <= ps.len(),
            out.len() == i,
            forall|k: int|
                0 <= k < i ==> {
                    &&& (#[trigger] out@[k]).id == ps@[k].id
                    &&& docs_changed(ps@[k].documents@, out@[k].documents@, id, change)
                    &&& groups_changed(ps@[k].groups@, out@[k].groups@, id, change)
                    &&& assets_changed(ps@[k].assets@, out@[k].assets@, id, change)
                },
        decreases ps.len() - i,
    {
        out.push(
            PortfolioDocuments {
                id: ps[i].id,
                documents: changed_docs(&ps[i].documents, id, &change),
                groups: changed_groups(&ps[i].groups, id, &change),
                assets: changed_assets(&ps[i].assets, id, &change),
            },
        );
        i = i + 1;
    }
    *ps = out;
}

/// Saves new contents into every copy of document `id`.
pub fn save_document_content(ps: &mut Vec<PortfolioDocuments>, id: u128, content: &str)
    ensures
        exists|c: String| c@ == content@ && portfolios_changed(old(ps)@, final(ps)@, id, DocChange::Content(c)),
{
    let c = string_of(&chars_of(content));
    change_document(ps, id, DocChange::Content(c));
}

/// Sets the link of every copy of document `id` from an image-link field: the trimmed
/// text, unless it is empty, in which case nothing changes. Returns whether it changed.
pub fn apply_image_url(ps: &mut Vec<PortfolioDocuments>, id: u128, link: &str) -> (applied: bool)
    ensures
        applied == !crate::text::blank(link@),
        !applied ==> final(ps)@ == old(ps)@,
        applied ==> exists|u: String|
            u@ == crate::text::trim_spec(link@) && portfolios_changed(old(ps)@, final(ps)@, id, DocChange::Url(u)),
{
    if crate::text::is_blank(link) {
        return false;
    }
    let u = crate::text::trimmed(link);
    let ghost gu = u;
    change_document(ps, id, DocChange::Url(u));
    assert(gu@ == crate::text::trim_spec(link@));
    true
}

} // verus!

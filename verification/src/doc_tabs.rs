//! The tabs of the document window: a list tab (number 0) that is always there, and one tab
//! per open document, numbered from 1 in the order they were opened.

use vstd::prelude::*;

verus! {

/// The tab that shows the document list.
pub const LIST_TAB: u32 = 0;

/// What the tab strip holds: (tab number, document id) for each open document, the active
/// tab, and the number the next opened tab will get.
pub struct TabsModel {
    pub tabs: Seq<(u32, u128)>,
    pub active: u32,
    pub next_id: u32,
}

/// The position of the tab that shows document `doc`, if one does.
pub open spec fn tab_index_of_doc(tabs: Seq<(u32, u128)>, doc: u128) -> Option<int> {
    if exists|k: int| 0 <= k < tabs.len() && tabs[k].1 == doc {
        Some(choose|k: int| 0 <= k < tabs.len() && tabs[k].1 == doc)
    } else {
        None
    }
}

/// The position of the tab numbered `tab`, if there is one.
pub open spec fn tab_index_of_id(tabs: Seq<(u32, u128)>, tab: u32) -> Option<int> {
    if exists|k: int| 0 <= k < tabs.len() && tabs[k].0 == tab {
        Some(choose|k: int| 0 <= k < tabs.len() && tabs[k].0 == tab)
    } else {
        None
    }
}

/// Well-formed tab strips: tab numbers are distinct and below the next number, no
/// document has two tabs, and the next number is at least 1.
pub open spec fn tabs_wf(m: TabsModel) -> bool {
    &&& m.next_id >= 1
    &&& forall|k: int| 0 <= k < m.tabs.len() ==> 1 <= #[trigger] m.tabs[k].0 < m.next_id
    &&& forall|a: int, b: int|
        0 <= a < b < m.tabs.len() ==> #[trigger] m.tabs[a].0 != #[trigger] m.tabs[b].0
    &&& forall|a: int, b: int|
        0 <= a < b < m.tabs.len() ==> #[trigger] m.tabs[a].1 != #[trigger] m.tabs[b].1
}

/// Opening document `doc`: switch to its tab when it has one, otherwise add a tab with the
/// next number and switch to it.
pub open spec fn open_model(m: TabsModel, doc: u128) -> TabsModel {
    match tab_index_of_doc(m.tabs, doc) {
        Some(k) => TabsModel { active: m.tabs[k].0, ..m },
        None => TabsModel {
            tabs: m.tabs.push((m.next_id, doc)),
            active: m.next_id,
            next_id: (m.next_id + 1) as u32,
        },
    }
}

/// Closing tab `tab`: it leaves the strip, and the list shows if it was the active tab.
pub open spec fn close_model(m: TabsModel, tab: u32) -> TabsModel {
    TabsModel {
        tabs: match tab_index_of_id(m.tabs, tab) {
            Some(k) => m.tabs.remove(k),
            None => m.tabs,
        },
        active: if m.active == tab {
            LIST_TAB
        } else {
            m.active
        },
        next_id: m.next_id,
    }
}

/// Opening a document keeps the tab strip well formed.
pub proof fn lemma_open_keeps_wf(m: TabsModel, doc: u128)
    requires
        tabs_wf(m),
        tab_index_of_doc(m.tabs, doc) is Some || m.next_id < u32::MAX,
    ensures
        tabs_wf(open_model(m, doc)),
{
    if tab_index_of_doc(m.tabs, doc) is None {
        let t = open_model(m, doc).tabs;
        assert forall|a: int, b: int| 0 <= a < b < t.len() implies #[trigger] t[a].1 != #[trigger] t[b].1 by {
            if b == t.len() - 1 {
                assert(t[b].1 == doc);
                assert(t[a] == m.tabs[a]);
            }
        }
        assert forall|a: int, b: int| 0 <= a < b < t.len() implies #[trigger] t[a].0 != #[trigger] t[b].0 by {
            if b == t.len() - 1 {
                assert(t[a] == m.tabs[a]);
            }
        }
    }
}

/// Closing a tab keeps the tab strip well formed.
pub proof fn lemma_close_keeps_wf(m: TabsModel, tab: u32)
    requires
        tabs_wf(m),
    ensures
        tabs_wf(close_model(m, tab)),
{
    if let Some(k) = tab_index_of_id(m.tabs, tab) {
        let t = m.tabs.remove(k);
        assert forall|i: int| 0 <= i < t.len() implies 1 <= #[trigger] t[i].0 < m.next_id by {
            if i < k {
                assert(t[i] == m.tabs[i]);
            } else {
                assert(t[i] == m.tabs[i + 1]);
            }
        }
        assert forall|a: int, b: int| 0 <= a < b < t.len() implies #[trigger] t[a].0 != #[trigger] t[b].0 by {
            let a2 = if a < k { a } else { a + 1 };
            let b2 = if b < k { b } else { b + 1 };
            assert(t[a] == m.tabs[a2] && t[b] == m.tabs[b2]);
        }
        assert forall|a: int, b: int| 0 <= a < b < t.len() implies #[trigger] t[a].1 != #[trigger] t[b].1 by {
            let a2 = if a < k { a } else { a + 1 };
            let b2 = if b < k { b } else { b + 1 };
            assert(t[a] == m.tabs[a2] && t[b] == m.tabs[b2]);
        }
    }
}

/// Whether a tab is not the tab numbered `tab`.
pub open spec fn other_than(tab: u32) -> spec_fn((u32, u128)) -> bool {
    |t: (u32, u128)| t.0 != tab
}

proof fn lemma_filter_keeps_all(s: Seq<(u32, u128)>, p: spec_fn((u32, u128)) -> bool)
    requires
        forall|i: int| 0 <= i < s.len() ==> p(s[i]),
    ensures
        s.filter(p) == s,
    decreases s.len(),
{
    reveal(Seq::filter);
    if s.len() > 0 {
        lemma_filter_keeps_all(s.drop_last(), p);
        assert(s.drop_last().push(s.last()) =~= s);
    }
}

proof fn lemma_filter_drops_one(s: Seq<(u32, u128)>, p: spec_fn((u32, u128)) -> bool, k: int)
    requires
        0 <= k < s.len(),
        !p(s[k]),
        forall|i: int| 0 <= i < s.len() && i != k ==> p(s[i]),
    ensures
        s.filter(p) == s.remove(k),
    decreases s.len(),
{
    reveal(Seq::filter);
    if k == s.len() - 1 {
        lemma_filter_keeps_all(s.drop_last(), p);
        assert(s.remove(k) =~= s.drop_last());
    } else {
        lemma_filter_drops_one(s.drop_last(), p, k);
        assert(s.remove(k) =~= s.drop_last().remove(k).push(s.last()));
    }
}

/// Closing tab `tab` takes that tab out of the strip and keeps every other tab, in order.
/// If it was the active tab the list shows; closing any other tab leaves the active tab as
/// it was. The numbering goes on from where it was.
pub proof fn lemma_close_tab(m: TabsModel, tab: u32)
    requires
        tabs_wf(m),
    ensures
        close_model(m, tab).tabs == m.tabs.filter(other_than(tab)),
        tab != m.active ==> close_model(m, tab).active == m.active,
        tab == m.active ==> close_model(m, tab).active == LIST_TAB,
        close_model(m, tab).next_id == m.next_id,
{
    let p = other_than(tab);
    match tab_index_of_id(m.tabs, tab) {
        Some(k) => {
            assert forall|i: int| 0 <= i < m.tabs.len() && i != k implies p(m.tabs[i]) by {
                if i < k {
                    assert(m.tabs[i].0 != m.tabs[k].0);
                } else {
                    assert(m.tabs[k].0 != m.tabs[i].0);
                }
            }
            lemma_filter_drops_one(m.tabs, p, k);
        },
        None => {
            lemma_filter_keeps_all(m.tabs, p);
        },
    }
}

/// After a document is opened, the active tab shows it.
pub proof fn lemma_open_shows_doc(m: TabsModel, doc: u128)
    requires
        tabs_wf(m),
    ensures
        ({
            let n = open_model(m, doc);
            exists|k: int| 0 <= k < n.tabs.len() && n.tabs[k] == (n.active, doc)
        }),
{
    let n = open_model(m, doc);
    match tab_index_of_doc(m.tabs, doc) {
        Some(k) => {
            assert(n.tabs[k] == (n.active, doc));
        },
        None => {
            assert(n.tabs[n.tabs.len() - 1] == (n.active, doc));
        },
    }
}

/// After a document is opened, exactly one tab holds it, and it is the active tab; the
/// strip stays well formed.
pub proof fn lemma_open_one_tab_per_doc(m: TabsModel, doc: u128)
    requires
        tabs_wf(m),
        tab_index_of_doc(m.tabs, doc) is Some || m.next_id < u32::MAX,
    ensures
        tabs_wf(open_model(m, doc)),
        ({
            let n = open_model(m, doc);
            &&& exists|k: int| 0 <= k < n.tabs.len() && n.tabs[k] == (n.active, doc)
            &&& forall|j: int| 0 <= j < n.tabs.len() && n.tabs[j].1 == doc ==> n.tabs[j] == (n.active, doc)
        }),
{
    let n = open_model(m, doc);
    lemma_open_keeps_wf(m, doc);
    lemma_open_shows_doc(m, doc);
    let k = choose|k: int| 0 <= k < n.tabs.len() && n.tabs[k] == (n.active, doc);
    assert forall|j: int| 0 <= j < n.tabs.len() && n.tabs[j].1 == doc implies n.tabs[j] == (n.active, doc) by {
        if j < k {
            assert(n.tabs[j].1 != n.tabs[k].1);
        } else if j > k {
            assert(n.tabs[k].1 != n.tabs[j].1);
        }
    }
}

/// Opening a document that is already open adds no tab: opening twice is opening once.
pub proof fn lemma_open_twice(m: TabsModel, doc: u128)
    requires
        tabs_wf(m),
        tab_index_of_doc(m.tabs, doc) is Some || m.next_id < u32::MAX,
    ensures
        open_model(open_model(m, doc), doc) == open_model(m, doc),
{
    let n = open_model(m, doc);
    lemma_open_keeps_wf(m, doc);
    lemma_open_shows_doc(m, doc);
    let k = choose|k: int| 0 <= k < n.tabs.len() && n.tabs[k] == (n.active, doc);
    let j = tab_index_of_doc(n.tabs, doc).unwrap();
    if j != k {
        assert(n.tabs[j].1 == n.tabs[k].1);
    }
}

/// Closing the tab that opening a new document added restores the strip it was opened on,
/// with the list showing.
pub proof fn lemma_close_undoes_open(m: TabsModel, doc: u128)
    requires
        tabs_wf(m),
        tab_index_of_doc(m.tabs, doc) is None,
        m.next_id < u32::MAX,
    ensures
        close_model(open_model(m, doc), m.next_id).tabs == m.tabs,
        close_model(open_model(m, doc), m.next_id).active == LIST_TAB,
{
    let n = open_model(m, doc);
    let last = n.tabs.len() - 1;
    assert(n.tabs[last].0 == m.next_id);
    let k = tab_index_of_id(n.tabs, m.next_id).unwrap();
    if k != last {
        assert(n.tabs[k] == m.tabs[k]);
    }
    assert(n.tabs.remove(last) =~= m.tabs);
}

/// The open document tabs, each holding the document it shows.
pub struct DocTabs<D> {
    tabs: Vec<(u32, u128, D)>,
    active: u32,
    next_id: u32,
}

impl<D> View for DocTabs<D> {
    type V = TabsModel;

    closed spec fn view(&self) -> TabsModel {
        TabsModel {
            tabs: self.tabs@.map_values(|e: (u32, u128, D)| (e.0, e.1)),
            active: self.active,
            next_id: self.next_id,
        }
    }
}

impl<D> DocTabs<D> {
    /// The documents that the tabs hold, in tab order.
    pub closed spec fn docs(&self) -> Seq<D> {
        self.tabs@.map_values(|e: (u32, u128, D)| e.2)
    }

    #[verifier::type_invariant]
    spec fn inv(&self) -> bool {
        tabs_wf(self@)
    }

    /// A strip with only the list tab, which is active.
    pub fn new() -> (t: Self)
        ensures
            t@ == (TabsModel { tabs: Seq::empty(), active: LIST_TAB, next_id: 1 }),
            t.docs() == Seq::<D>::empty(),
    {
        let t = DocTabs { tabs: Vec::new(), active: LIST_TAB, next_id: 1 };
        assert(t@.tabs =~= Seq::empty());
        assert(t.docs() =~= Seq::empty());
        t
    }

    /// The active tab.
    pub fn active_tab(&self) -> (a: u32)
        ensures
            a == self@.active,
    {
        self.active
    }

    /// The numbers of the open document tabs, in order.
    pub fn tab_ids(&self) -> (ids: Vec<u32>)
        ensures
            ids@.len() == self@.tabs.len(),
            forall|k: int| 0 <= k < ids.len() ==> #[trigger] ids@[k] == self@.tabs[k].0,
    {
        let mut ids = Vec::new();
        let mut i: usize = 0;
        while i < self.tabs.len()
            invariant
                0 <= i <= self.tabs.len(),
                ids@.len() == i,
                forall|k: int| 0 <= k < i ==> #[trigger] ids@[k] == self@.tabs[k].0,
            decreases self.tabs.len() - i,
        {
            ids.push(self.tabs[i].0);
            i = i + 1;
        }
        ids
    }

    /// The document that the active tab shows; none while the list shows.
    pub fn active_doc(&self) -> (d: Option<&D>)
        ensures
            match d {
                Some(x) => exists|k: int|
                    0 <= k < self@.tabs.len() && self@.tabs[k].0 == self@.active && *x
                        == self.docs()[k],
                None => forall|k: int|
                    0 <= k < self@.tabs.len() ==> #[trigger] self@.tabs[k].0 != self@.active,
            },
    {
        let mut i: usize = 0;
        while i < self.tabs.len()
            invariant
                0 <= i <= self.tabs.len(),
                forall|k: int| 0 <= k < i ==> #[trigger] self@.tabs[k].0 != self@.active,
            decreases self.tabs.len() - i,
        {
            if self.tabs[i].0 == self.active {
                assert(self@.tabs[i as int].0 == self@.active);
                assert(self.docs()[i as int] == self.tabs@[i as int].2);
                return Some(&self.tabs[i].2);
            }
            i = i + 1;
        }
        None
    }

    /// Opens document `doc` (with id `doc_id`): its tab becomes active, and a new tab is
    /// added when it had none.
    pub fn open(&mut self, doc_id: u128, doc: D)
        requires
            tab_index_of_doc(old(self)@.tabs, doc_id) is Some || old(self)@.next_id < u32::MAX,
        ensures
            final(self)@ == open_model(old(self)@, doc_id),
            tab_index_of_doc(old(self)@.tabs, doc_id) is Some ==> final(self).docs() == old(self).docs(),
            tab_index_of_doc(old(self)@.tabs, doc_id) is None ==> final(self).docs() == old(self).docs().push(doc),
    {
        proof {
            use_type_invariant(&*self);
        }
        let mut i: usize = 0;
        while i < self.tabs.len()
            invariant
                0 <= i <= self.tabs.len(),
                forall|k: int| 0 <= k < i ==> #[trigger] self@.tabs[k].1 != doc_id,
                self@ == old(self)@,
                self.docs() == old(self).docs(),
            decreases self.tabs.len() - i,
        {
            if self.tabs[i].1 == doc_id {
                proof {
                    use_type_invariant(&*self);
                    assert(self@.tabs[i as int].1 == doc_id);
                    let k = choose|k: int| 0 <= k < self@.tabs.len() && self@.tabs[k].1 == doc_id;
                    if k != i {
                        assert(self@.tabs[k].1 == self@.tabs[i as int].1);
                    }
                }
                self.active = self.tabs[i].0;
                return;
            }
            i = i + 1;
        }
        proof {
            use_type_invariant(&*self);
            assert(tab_index_of_doc(self@.tabs, doc_id) is None);
        }
        let id = self.next_id;
        let ghost before = self@;
        let ghost before_docs = self.docs();
        let mut tabs: Vec<(u32, u128, D)> = Vec::new();
        std::mem::swap(&mut tabs, &mut self.tabs);
        tabs.push((id, doc_id, doc));
        let ghost new_tabs = tabs@;
        assert(new_tabs.map_values(|e: (u32, u128, D)| (e.0, e.1)) =~= before.tabs.push((id, doc_id)));
        assert(new_tabs.map_values(|e: (u32, u128, D)| e.2) =~= before_docs.push(doc));
        *self = DocTabs { tabs, active: id, next_id: id + 1 };
    }

    /// Closes tab `tab_id`; the list shows when it was the active tab.
    pub fn close(&mut self, tab_id: u32)
        ensures
            final(self)@ == close_model(old(self)@, tab_id),
            final(self).docs() == match tab_index_of_id(old(self)@.tabs, tab_id) {
                Some(k) => old(self).docs().remove(k),
                None => old(self).docs(),
            },
    {
        proof {
            use_type_invariant(&*self);
        }
        let mut i: usize = 0;
        while i < self.tabs.len()
            invariant
                0 <= i <= self.tabs.len(),
                self@ == old(self)@,
                self.docs() == old(self).docs(),
                forall|k: int| 0 <= k < i ==> #[trigger] self@.tabs[k].0 != tab_id,
            decreases self.tabs.len() - i,
        {
            if self.tabs[i].0 == tab_id {
                proof {
                    use_type_invariant(&*self);
                    assert(self@.tabs[i as int].0 == tab_id);
                    let k = choose|k: int| 0 <= k < self@.tabs.len() && self@.tabs[k].0 == tab_id;
                    if k != i {
                        assert(self@.tabs[k].0 == self@.tabs[i as int].0);
                    }
                }
                let ghost before = self.tabs@;
                let mut tabs: Vec<(u32, u128, D)> = Vec::new();
                std::mem::swap(&mut tabs, &mut self.tabs);
                let _removed = tabs.remove(i);
                assert(tabs@.map_values(|e: (u32, u128, D)| (e.0, e.1)) =~= before.map_values(
                    |e: (u32, u128, D)| (e.0, e.1),
                ).remove(i as int));
                assert(tabs@.map_values(|e: (u32, u128, D)| e.2) =~= before.map_values(
                    |e: (u32, u128, D)| e.2,
                ).remove(i as int));
                let active = if self.active == tab_id { LIST_TAB } else { self.active };
                *self = DocTabs { tabs, active, next_id: self.next_id };
                return;
            }
            i = i + 1;
        }
        proof {
            use_type_invariant(&*self);
            assert(tab_index_of_id(self@.tabs, tab_id) is None);
        }
        if self.active == tab_id {
            self.active = LIST_TAB;
        }
    }

    /// Switches to tab `tab_id` (the list is tab 0).
    pub fn activate(&mut self, tab_id: u32)
        ensures
            final(self)@ == (TabsModel { active: tab_id, ..old(self)@ }),
            final(self).docs() == old(self).docs(),
    {
        proof {
            use_type_invariant(&*self);
        }
        self.active = tab_id;
    }
}

} // verus!

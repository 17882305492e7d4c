//! How many entries of each long list the asset viewer shows. Each list starts at the page
//! size of the view, and each press of its expand button shows one page more.

use vstd::prelude::*;

verus! {

/// A list of the asset viewer: the groups of a portfolio, the assets directly in a
/// portfolio, or the assets of a group.
#[derive(Clone, Copy, Debug, PartialEq, Eq, Structural)]
pub enum ViewScope {
    Groups(u128),
    Direct(u128),
    GroupAssets(u128),
}

/// How many entries one list shows.
#[derive(Clone, Copy, Debug, PartialEq, Eq, Structural)]
pub struct ScopeCount {
    pub scope: ViewScope,
    pub count: usize,
}

/// The counts the entries give, a later entry for a list replacing an earlier one.
pub open spec fn counts_map(entries: Seq<ScopeCount>) -> Map<ViewScope, usize>
    decreases entries.len(),
{
    if entries.len() == 0 {
        Map::empty()
    } else {
        counts_map(entries.drop_last()).insert(entries.last().scope, entries.last().count)
    }
}

/// The entries without those for `scope`.
pub open spec fn drop_scope(entries: Seq<ScopeCount>, scope: ViewScope) -> Seq<ScopeCount>
    decreases entries.len(),
{
    if entries.len() == 0 {
        entries
    } else if entries.last().scope == scope {
        drop_scope(entries.drop_last(), scope)
    } else {
        drop_scope(entries.drop_last(), scope).push(entries.last())
    }
}

proof fn lemma_drop_scope(entries: Seq<ScopeCount>, scope: ViewScope)
    ensures
        counts_map(drop_scope(entries, scope)) == counts_map(entries).remove(scope),
    decreases entries.len(),
{
    if entries.len() > 0 {
        lemma_drop_scope(entries.drop_last(), scope);
        let rest = drop_scope(entries.drop_last(), scope);
        if entries.last().scope != scope {
            assert(rest.push(entries.last()).drop_last() =~= rest);
        }
        assert(counts_map(drop_scope(entries, scope)) =~= counts_map(entries).remove(scope));
    } else {
        assert(counts_map(entries).remove(scope) =~= counts_map(entries));
    }
}

/// How many entries each list shows, for the lists whose expand button was pressed.
pub struct VisibleCounts {
    entries: Vec<ScopeCount>,
}

impl View for VisibleCounts {
    type V = Map<ViewScope, usize>;

    closed spec fn view(&self) -> Map<ViewScope, usize> {
        counts_map(self.entries@)
    }
}

/// How many entries a list shows: its count once expanded, otherwise one page.
pub open spec fn visible_spec(counts: Map<ViewScope, usize>, scope: ViewScope, page_size: usize) -> usize {
    if counts.contains_key(scope) {
        counts[scope]
    } else {
        page_size
    }
}

/// The count a list shows after one more press of its expand button: one page more, at most
/// the largest count.
pub open spec fn expanded_spec(counts: Map<ViewScope, usize>, scope: ViewScope, page_size: usize) -> Map<ViewScope, usize> {
    let current = visible_spec(counts, scope, page_size);
    let next = if current + page_size > usize::MAX {
        usize::MAX
    } else {
        (current + page_size) as usize
    };
    counts.insert(scope, next)
}

impl VisibleCounts {
    /// No list expanded yet.
    pub fn new() -> (r: VisibleCounts)
        ensures
            r@ == Map::<ViewScope, usize>::empty(),
    {
        VisibleCounts { entries: Vec::new() }
    }

    /// How many entries the list `scope` shows.
    pub fn visible_for(&self, scope: ViewScope, page_size: usize) -> (n: usize)
        ensures
            n == visible_spec(self@, scope, page_size),
    {
        let mut i: usize = self.entries.len();
        while i > 0
            invariant
                i <= self.entries.len(),
                forall|j: int| i <= j < self.entries.len() ==> #[trigger] self.entries@[j].scope != scope,
            decreases i,
        {
            let e = self.entries[i - 1];
            if e.scope == scope {
                proof {
                    lemma_last_entry_wins(self.entries@, i as int);
                }
                return e.count;
            }
            i = i - 1;
        }
        proof {
            lemma_absent(self.entries@, scope);
        }
        page_size
    }

    /// Shows one page more of the list `scope`.
    pub fn expand(&mut self, scope: ViewScope, page_size: usize)
        ensures
            final(self)@ == expanded_spec(old(self)@, scope, page_size),
    {
        let current = self.visible_for(scope, page_size);
        let next = current.saturating_add(page_size);
        let mut kept: Vec<ScopeCount> = Vec::new();
        let mut j: usize = 0;
        assert(self.entries@.take(0) =~= Seq::<ScopeCount>::empty());
        while j < self.entries.len()
            invariant
                0 <= j <= self.entries.len(),
                kept@ == drop_scope(self.entries@.take(j as int), scope),
            decreases self.entries.len() - j,
        {
            assert(self.entries@.take(j + 1).drop_last() =~= self.entries@.take(j as int));
            let e = self.entries[j];
            if e.scope != scope {
                kept.push(e);
            }
            j = j + 1;
        }
        assert(self.entries@.take(self.entries.len() as int) =~= self.entries@);
        proof {
            lemma_drop_scope(self.entries@, scope);
        }
        let ghost before = kept@;
        kept.push(ScopeCount { scope, count: next });
        assert(kept@.drop_last() =~= before);
        self.entries = kept;
        assert(self@ =~= expanded_spec(old(self)@, scope, page_size));
    }
}

proof fn lemma_last_entry_wins(entries: Seq<ScopeCount>, i: int)
    requires
        0 < i <= entries.len(),
        forall|j: int| i <= j < entries.len() ==> #[trigger] entries[j].scope != entries[i - 1].scope,
    ensures
        counts_map(entries).contains_key(entries[i - 1].scope),
        counts_map(entries)[entries[i - 1].scope] == entries[i - 1].count,
    decreases entries.len(),
{
    if i < entries.len() {
        assert(entries.drop_last()[i - 1] == entries[i - 1]);
        assert forall|j: int| i <= j < entries.drop_last().len() implies #[trigger] entries.drop_last()[j].scope
            != entries.drop_last()[i - 1].scope by {
            assert(entries.drop_last()[j] == entries[j]);
        }
        lemma_last_entry_wins(entries.drop_last(), i);
    }
}

proof fn lemma_absent(entries: Seq<ScopeCount>, scope: ViewScope)
    requires
        forall|j: int| 0 <= j < entries.len() ==> #[trigger] entries[j].scope != scope,
    ensures
        !counts_map(entries).contains_key(scope),
    decreases entries.len(),
{
    if entries.len() > 0 {
        assert forall|j: int| 0 <= j < entries.drop_last().len() implies #[trigger] entries.drop_last()[j].scope
            != scope by {
            assert(entries.drop_last()[j] == entries[j]);
        }
        lemma_absent(entries.drop_last(), scope);
    }
}

/// How many entries of a list of `total` a count shows, and how many remain hidden.
pub fn shown_and_remaining(visible: usize, total: usize) -> (r: (usize, usize))
    ensures
        r.0 == if visible < total { visible } else { total },
        r.0 + r.1 == total,
{
    let shown = if visible < total { visible } else { total };
    (shown, total - shown)
}

/// A list that was never expanded shows one page; each press of its expand button shows one
/// page more (up to the largest count) and leaves every other list as it was.
pub proof fn lemma_expand_one_page(counts: Map<ViewScope, usize>, scope: ViewScope, other: ViewScope, page_size: usize)
    ensures
        visible_spec(Map::empty(), scope, page_size) == page_size,
        visible_spec(expanded_spec(counts, scope, page_size), scope, page_size) as int == if visible_spec(
            counts,
            scope,
            page_size,
        ) + page_size > usize::MAX {
            usize::MAX as int
        } else {
            visible_spec(counts, scope, page_size) + page_size
        },
        other != scope ==> visible_spec(expanded_spec(counts, scope, page_size), other, page_size)
            == visible_spec(counts, other, page_size),
{
}

} // verus!

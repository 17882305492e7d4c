//! Which notifications a portfolio's or a group's bell lists, newest first.

use vstd::prelude::*;
use crate::ordering::{is_permutation, lemma_sorted_by_numbers_items, sort_by_keys, sorted_by_numbers};

verus! {

/// What the bell reads of a notification. Times are microseconds since the Unix epoch.
#[derive(Clone, Copy, Debug, PartialEq, Eq, Structural)]
pub struct NotificationInfo {
    pub id: u128,
    pub linked_portfolio_id: Option<u128>,
    pub linked_group_id: Option<u128>,
    pub linked_doc_id: Option<u128>,
    pub timestamp: i128,
}

/// The documents of an asset group: its own, and those of each of its assets.
#[derive(Clone, Debug)]
pub struct GroupDocs {
    pub id: u128,
    pub documents: Vec<u128>,
    pub asset_documents: Vec<Vec<u128>>,
}

/// The documents of a portfolio: its own, those of its groups, and those of each asset
/// directly in it.
#[derive(Clone, Debug)]
pub struct PortfolioDocs {
    pub id: u128,
    pub documents: Vec<u128>,
    pub groups: Vec<GroupDocs>,
    pub asset_documents: Vec<Vec<u128>>,
}

/// Whose notifications the bell lists.
#[derive(Clone, Copy, Debug, PartialEq, Eq, Structural)]
pub enum NotifTarget {
    Portfolio(u128),
    Group(u128, u128),
}

/// Whether one of the id lists holds `d`.
pub open spec fn in_lists(lists: Seq<Vec<u128>>, d: u128) -> bool {
    exists|i: int| 0 <= i < lists.len() && lists[i]@.contains(d)
}

/// Whether `d` is a document of the group.
pub open spec fn group_has_doc(g: GroupDocs, d: u128) -> bool {
    g.documents@.contains(d) || in_lists(g.asset_documents@, d)
}

/// Whether `d` is a document of the portfolio.
pub open spec fn portfolio_has_doc(p: PortfolioDocs, d: u128) -> bool {
    ||| p.documents@.contains(d)
    ||| exists|i: int| 0 <= i < p.groups@.len() && group_has_doc(p.groups@[i], d)
    ||| in_lists(p.asset_documents@, d)
}

/// The position of the first portfolio with id `pid`.
pub open spec fn first_portfolio(ps: Seq<PortfolioDocs>, pid: u128) -> Option<int> {
    if exists|k: int| 0 <= k < ps.len() && ps[k].id == pid {
        Some(
            choose|k: int|
                0 <= k < ps.len() && ps[k].id == pid && forall|j: int|
                    0 <= j < k ==> #[trigger] ps[j].id != pid,
        )
    } else {
        None
    }
}

/// The position of the first group with id `gid`.
pub open spec fn first_group(gs: Seq<GroupDocs>, gid: u128) -> Option<int> {
    if exists|k: int| 0 <= k < gs.len() && gs[k].id == gid {
        Some(
            choose|k: int|
                0 <= k < gs.len() && gs[k].id == gid && forall|j: int|
                    0 <= j < k ==> #[trigger] gs[j].id != gid,
        )
    } else {
        None
    }
}

/// Whether `d` is a document of the target: of the first portfolio with its id, or of the
/// first group with its id in that portfolio.
pub open spec fn target_has_doc(ps: Seq<PortfolioDocs>, target: NotifTarget, d: u128) -> bool {
    match target {
        NotifTarget::Portfolio(pid) => match first_portfolio(ps, pid) {
            Some(k) => portfolio_has_doc(ps[k], d),
            None => false,
        },
        NotifTarget::Group(pid, gid) => match first_portfolio(ps, pid) {
            Some(k) => match first_group(ps[k].groups@, gid) {
                Some(j) => group_has_doc(ps[k].groups@[j], d),
                None => false,
            },
            None => false,
        },
    }
}

/// Whether the bell of the target lists the notification: it is linked to the portfolio (or
/// group), or to one of its documents.
pub open spec fn concerns(ps: Seq<PortfolioDocs>, target: NotifTarget, n: NotificationInfo) -> bool {
    let linked = match target {
        NotifTarget::Portfolio(pid) => n.linked_portfolio_id == Some(pid),
        NotifTarget::Group(_, gid) => n.linked_group_id == Some(gid),
    };
    linked || match n.linked_doc_id {
        Some(d) => target_has_doc(ps, target, d),
        None => false,
    }
}

/// The notifications that the target's bell lists, in their order.
pub open spec fn concerning(ns: Seq<NotificationInfo>, ps: Seq<PortfolioDocs>, target: NotifTarget) -> Seq<NotificationInfo>
    decreases ns.len(),
{
    if ns.len() == 0 {
        ns
    } else if concerns(ps, target, ns.last()) {
        concerning(ns.drop_last(), ps, target).push(ns.last())
    } else {
        concerning(ns.drop_last(), ps, target)
    }
}

/// The time of each notification.
pub open spec fn notif_times(ns: Seq<NotificationInfo>) -> Seq<i128> {
    ns.map_values(|n: NotificationInfo| n.timestamp)
}

fn list_has(ids: &Vec<u128>, d: u128) -> (b: bool)
    ensures
        b == ids@.contains(d),
{
    let mut i: usize = 0;
    while i < ids.len()
        invariant
            0 <= i <= ids.len(),
            forall|j: int| 0 <= j < i ==> ids@[j] != d,
        decreases ids.len() - i,
    {
        if ids[i] == d {
            return true;
        }
        i = i + 1;
    }
    false
}

fn lists_have(lists: &Vec<Vec<u128>>, d: u128) -> (b: bool)
    ensures
        b == in_lists(lists@, d),
{
    let mut i: usize = 0;
    while i < lists.len()
        invariant
            0 <= i <= lists.len(),
            forall|j: int| 0 <= j < i ==> !lists@[j]@.contains(d),
        decreases lists.len() - i,
    {
        if list_has(&lists[i], d) {
            return true;
        }
        i = i + 1;
    }
    false
}

fn group_holds(g: &GroupDocs, d: u128) -> (b: bool)
    ensures
        b == group_has_doc(*g, d),
{
    list_has(&g.documents, d) || lists_have(&g.asset_documents, d)
}

fn portfolio_holds(p: &PortfolioDocs, d: u128) -> (b: bool)
    ensures
        b == portfolio_has_doc(*p, d),
{
    if list_has(&p.documents, d) {
        return true;
    }
    let mut i: usize = 0;
    while i < p.groups.len()
        invariant
            0 <= i <= p.groups.len(),
            forall|j: int| 0 <= j < i ==> !group_has_doc(#[trigger] p.groups@[j], d),
        decreases p.groups.len() - i,
    {
        if group_holds(&p.groups[i], d) {
            return true;
        }
        i = i + 1;
    }
    lists_have(&p.asset_documents, d)
}

fn find_portfolio(ps: &Vec<PortfolioDocs>, pid: u128) -> (r: Option<usize>)
    ensures
        match r {
            Some(k) => first_portfolio(ps@, pid) == Some(k as int) && k < ps.len(),
            None => first_portfolio(ps@, pid) is None,
        },
{
    let mut k: usize = 0;
    while k < ps.len() && ps[k].id != pid
        invariant
            0 <= k <= ps.len(),
            forall|j: int| 0 <= j < k ==> #[trigger] ps@[j].id != pid,
        decreases ps.len() - k,
    {
        k = k + 1;
    }
    if k < ps.len() {
        proof {
            let c = choose|c: int|
                0 <= c < ps@.len() && ps@[c].id == pid && forall|j: int| 0 <= j < c ==> #[trigger] ps@[j].id != pid;
            if c < k {
            } else if c > k {
                assert(ps@[k as int].id == pid);
            }
        }
        Some(k)
    } else {
        None
    }
}

fn find_group(gs: &Vec<GroupDocs>, gid: u128) -> (r: Option<usize>)
    ensures
        match r {
            Some(k) => first_group(gs@, gid) == Some(k as int) && k < gs.len(),
            None => first_group(gs@, gid) is None,
        },
{
    let mut k: usize = 0;
    while k < gs.len() && gs[k].id != gid
        invariant
            0 <= k <= gs.len(),
            forall|j: int| 0 <= j < k ==> #[trigger] gs@[j].id != gid,
        decreases gs.len() - k,
    {
        k = k + 1;
    }
    if k < gs.len() {
        proof {
            let c = choose|c: int|
                0 <= c < gs@.len() && gs@[c].id == gid && forall|j: int| 0 <= j < c ==> #[trigger] gs@[j].id != gid;
            if c < k {
            } else if c > k {
                assert(gs@[k as int].id == gid);
            }
        }
        Some(k)
    } else {
        None
    }
}

fn target_holds(ps: &Vec<PortfolioDocs>, target: NotifTarget, d: u128) -> (b: bool)
    ensures
        b == target_has_doc(ps@, target, d),
{
    match target {
        NotifTarget::Portfolio(pid) => match find_portfolio(ps, pid) {
            Some(k) => portfolio_holds(&ps[k], d),
            None => false,
        },
        NotifTarget::Group(pid, gid) => match find_portfolio(ps, pid) {
            Some(k) => match find_group(&ps[k].groups, gid) {
                Some(j) => group_holds(&ps[k].groups[j], d),
                None => false,
            },
            None => false,
        },
    }
}

/// The notifications that the target's bell lists, newest first; notifications of the same
/// time keep their order.
pub fn entity_notifications(ns: &Vec<NotificationInfo>, ps: &Vec<PortfolioDocs>, target: NotifTarget) -> (r: Vec<NotificationInfo>)
    ensures
        sorted_by_numbers(concerning(ns@, ps@, target), notif_times(concerning(ns@, ps@, target)), true, r@),
{
    let mut kept: Vec<NotificationInfo> = Vec::new();
    let mut times: Vec<i128> = Vec::new();
    let mut i: usize = 0;
    while i < ns.len()
        invariant
            0 <= i <= ns.len(),
            kept@ == concerning(ns@.take(i as int), ps@, target),
            times@ == notif_times(kept@),
        decreases ns.len() - i,
    {
        assert(ns@.take(i + 1).drop_last() =~= ns@.take(i as int));
        let n = ns[i];
        let linked = match target {
            NotifTarget::Portfolio(pid) => n.linked_portfolio_id == Some(pid),
            NotifTarget::Group(_, gid) => n.linked_group_id == Some(gid),
        };
        let relevant = linked || match n.linked_doc_id {
            Some(d) => target_holds(ps, target, d),
            None => false,
        };
        if relevant {
            kept.push(n);
            times.push(n.timestamp);
            assert(times@ =~= notif_times(kept@));
        }
        i = i + 1;
    }
    assert(ns@.take(ns.len() as int) =~= ns@);
    sort_by_keys(kept, &times, true)
}


proof fn lemma_concerning_members(ns: Seq<NotificationInfo>, ps: Seq<PortfolioDocs>, target: NotifTarget, n: NotificationInfo)
    ensures
        concerning(ns, ps, target).contains(n) <==> ns.contains(n) && concerns(ps, target, n),
    decreases ns.len(),
{
    if ns.len() > 0 {
        let rest = ns.drop_last();
        lemma_concerning_members(rest, ps, target, n);
        assert(ns =~= rest.push(ns.last()));
        if ns.contains(n) && n != ns.last() {
            let i = choose|i: int| 0 <= i < ns.len() && ns[i] == n;
            assert(rest[i] == n);
        }
        if rest.contains(n) {
            let i = choose|i: int| 0 <= i < rest.len() && rest[i] == n;
            assert(ns[i] == n);
        }
        if concerns(ps, target, ns.last()) {
            let c = concerning(rest, ps, target);
            assert(c.push(ns.last())[c.len() as int] == ns.last());
            if c.push(ns.last()).contains(n) && n != ns.last() {
                let i = choose|i: int| 0 <= i < c.len() + 1 && c.push(ns.last())[i] == n;
                assert(c[i] == n);
            }
            if c.contains(n) {
                let i = choose|i: int| 0 <= i < c.len() && c[i] == n;
                assert(c.push(ns.last())[i] == n);
            }
        }
        assert(ns[ns.len() - 1] == ns.last());
    }
}

proof fn lemma_first_portfolio_is(ps: Seq<PortfolioDocs>, pid: u128, k: int)
    requires
        0 <= k < ps.len(),
        ps[k].id == pid,
        forall|m: int| 0 <= m < k ==> ps[m].id != pid,
    ensures
        first_portfolio(ps, pid) == Some(k),
{
    let c = choose|c: int| 0 <= c < ps.len() && ps[c].id == pid && forall|j: int| 0 <= j < c ==> #[trigger] ps[j].id != pid;
    if c < k {
        assert(ps[c].id != pid);
    } else if c > k {
        assert(ps[k].id != pid);
    }
}

proof fn lemma_first_group_is(gs: Seq<GroupDocs>, gid: u128, j: int)
    requires
        0 <= j < gs.len(),
        gs[j].id == gid,
        forall|m: int| 0 <= m < j ==> gs[m].id != gid,
    ensures
        first_group(gs, gid) == Some(j),
{
    let c = choose|c: int| 0 <= c < gs.len() && gs[c].id == gid && forall|m: int| 0 <= m < c ==> #[trigger] gs[m].id != gid;
    if c < j {
        assert(gs[c].id != gid);
    } else if c > j {
        assert(gs[j].id != gid);
    }
}

/// What a group's bell lists, for the group `gid` of the portfolio `pid` (the first
/// portfolio with that id, and its first group with that id): the notifications linked to
/// the group, and those linked to a document of the group's own or of one of its assets;
/// nothing else, and nothing that was not a notification; newest first.
pub proof fn lemma_group_bell(
    ns: Seq<NotificationInfo>,
    ps: Seq<PortfolioDocs>,
    pid: u128,
    gid: u128,
    k: int,
    j: int,
    r: Seq<NotificationInfo>,
    n: NotificationInfo,
)
    requires
        sorted_by_numbers(
            concerning(ns, ps, NotifTarget::Group(pid, gid)),
            notif_times(concerning(ns, ps, NotifTarget::Group(pid, gid))),
            true,
            r,
        ),
        0 <= k < ps.len(),
        ps[k].id == pid,
        forall|m: int| 0 <= m < k ==> ps[m].id != pid,
        0 <= j < ps[k].groups@.len(),
        ps[k].groups@[j].id == gid,
        forall|m: int| 0 <= m < j ==> ps[k].groups@[m].id != gid,
    ensures
        r.contains(n) <==> ns.contains(n) && ({
            let g = ps[k].groups@[j];
            ||| n.linked_group_id == Some(gid)
            ||| n.linked_doc_id matches Some(d) && (g.documents@.contains(d) || exists|a: int|
                0 <= a < g.asset_documents@.len() && g.asset_documents@[a]@.contains(d))
        }),
        forall|a: int, b: int| 0 <= a < b < r.len() ==> r[a].timestamp >= r[b].timestamp,
{
    let target = NotifTarget::Group(pid, gid);
    let c = concerning(ns, ps, target);
    lemma_first_portfolio_is(ps, pid, k);
    lemma_first_group_is(ps[k].groups@, gid, j);
    lemma_concerning_members(ns, ps, target, n);
    lemma_sorted_by_numbers_items(c, notif_times(c), true, r);
    let order = choose|order: Seq<usize>|
        is_permutation(order, c.len()) && (forall|q: int| 0 <= q < r.len() ==> #[trigger] r[q] == c[order[q] as int])
            && (forall|a: int, b: int|
            #![trigger order[a], order[b]]
            0 <= a < b < r.len() ==> notif_times(c)[order[a] as int] >= notif_times(c)[order[b] as int]);
    assert forall|a: int, b: int| 0 <= a < b < r.len() implies r[a].timestamp >= r[b].timestamp by {
        assert(order[a] < c.len() && order[b] < c.len());
        assert(r[a] == c[order[a] as int]);
        assert(r[b] == c[order[b] as int]);
    }
}

/// What a portfolio's bell lists, for the portfolio `pid` (the first with that id): the
/// notifications linked to the portfolio, and those linked to a document of the portfolio's
/// own, of one of its groups (or of an asset of that group), or of one of its assets;
/// nothing else, and nothing that was not a notification; newest first.
pub proof fn lemma_portfolio_bell(
    ns: Seq<NotificationInfo>,
    ps: Seq<PortfolioDocs>,
    pid: u128,
    k: int,
    r: Seq<NotificationInfo>,
    n: NotificationInfo,
)
    requires
        sorted_by_numbers(
            concerning(ns, ps, NotifTarget::Portfolio(pid)),
            notif_times(concerning(ns, ps, NotifTarget::Portfolio(pid))),
            true,
            r,
        ),
        0 <= k < ps.len(),
        ps[k].id == pid,
        forall|m: int| 0 <= m < k ==> ps[m].id != pid,
    ensures
        r.contains(n) <==> ns.contains(n) && ({
            let p = ps[k];
            ||| n.linked_portfolio_id == Some(pid)
            ||| n.linked_doc_id matches Some(d) && {
                ||| p.documents@.contains(d)
                ||| exists|i: int|
                    0 <= i < p.groups@.len() && (p.groups@[i].documents@.contains(d) || exists|a: int|
                        0 <= a < p.groups@[i].asset_documents@.len() && p.groups@[i].asset_documents@[a]@.contains(d))
                ||| exists|a: int| 0 <= a < p.asset_documents@.len() && p.asset_documents@[a]@.contains(d)
            }
        }),
        forall|a: int, b: int| 0 <= a < b < r.len() ==> r[a].timestamp >= r[b].timestamp,
{
    let target = NotifTarget::Portfolio(pid);
    let c = concerning(ns, ps, target);
    lemma_first_portfolio_is(ps, pid, k);
    lemma_concerning_members(ns, ps, target, n);
    lemma_sorted_by_numbers_items(c, notif_times(c), true, r);
    let order = choose|order: Seq<usize>|
        is_permutation(order, c.len()) && (forall|q: int| 0 <= q < r.len() ==> #[trigger] r[q] == c[order[q] as int])
            && (forall|a: int, b: int|
            #![trigger order[a], order[b]]
            0 <= a < b < r.len() ==> notif_times(c)[order[a] as int] >= notif_times(c)[order[b] as int]);
    assert forall|a: int, b: int| 0 <= a < b < r.len() implies r[a].timestamp >= r[b].timestamp by {
        assert(order[a] < c.len() && order[b] < c.len());
        assert(r[a] == c[order[a] as int]);
        assert(r[b] == c[order[b] as int]);
    }
}

} // verus!

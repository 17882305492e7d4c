//! Saving an edited asset back into its portfolio: the asset with its id is found among the
//! portfolio's own assets first, then among the assets of its groups, and replaced.

use vstd::prelude::*;
use vstd::pervasive::VecAdditionalExecFns;
use crate::assets::ListEntry;

verus! {

/// Values that carry an id.
pub trait Identified: Sized {
    spec fn ident(&self) -> u128;

    fn id_of(&self) -> (r: u128)
        ensures
            r == self.ident(),
    ;
}

impl Identified for ListEntry {
    open spec fn ident(&self) -> u128 {
        self.id
    }

    fn id_of(&self) -> (r: u128) {
        self.id
    }
}

/// The assets of a portfolio: those directly in it, and those of each of its groups.
pub struct PortfolioAssets<A> {
    pub direct: Vec<A>,
    pub groups: Vec<Vec<A>>,
}

/// The position of the first item with id `id`.
pub open spec fn first_with_id<A: Identified>(s: Seq<A>, id: u128) -> Option<int> {
    if exists|k: int| 0 <= k < s.len() && s[k].ident() == id {
        Some(
            choose|k: int|
                0 <= k < s.len() && s[k].ident() == id && forall|j: int| 0 <= j < k ==> #[trigger] s[j].ident() != id,
        )
    } else {
        None
    }
}

/// The position of the first group that holds an asset with id `id`.
pub open spec fn first_group_with_id<A: Identified>(gs: Seq<Vec<A>>, id: u128) -> Option<int> {
    if exists|g: int| 0 <= g < gs.len() && first_with_id(gs[g]@, id) is Some {
        Some(
            choose|g: int|
                0 <= g < gs.len() && first_with_id(gs[g]@, id) is Some && forall|h: int|
                    0 <= h < g ==> first_with_id(#[trigger] gs[h]@, id) is None,
        )
    } else {
        None
    }
}

fn find_id<A: Identified>(s: &Vec<A>, id: u128) -> (r: Option<usize>)
    ensures
        match r {
            Some(k) => k < s.len() && first_with_id(s@, id) == Some(k as int),
            None => first_with_id(s@, id) is None,
        },
{
    let mut k: usize = 0;
    while k < s.len() && s[k].id_of() != id
        invariant
            0 <= k <= s.len(),
            forall|j: int| 0 <= j < k ==> #[trigger] s@[j].ident() != id,
        decreases s.len() - k,
    {
        k = k + 1;
    }
    if k < s.len() {
        proof {
            let c = choose|c: int|
                0 <= c < s@.len() && s@[c].ident() == id && forall|j: int| 0 <= j < c ==> #[trigger] s@[j].ident() != id;
            if c < k {
            } else if c > k {
                assert(s@[k as int].ident() == id);
            }
        }
        Some(k)
    } else {
        None
    }
}

/// Replaces the first asset with the id of `a`: among the portfolio's own assets if one has
/// it, otherwise in the first group that holds one. Returns whether an asset was replaced;
/// when none has the id, nothing changes.
pub fn replace_asset<A: Identified>(p: &mut PortfolioAssets<A>, a: A) -> (replaced: bool)
    ensures
        match first_with_id(old(p).direct@, a.ident()) {
            Some(k) => {
                &&& replaced
                &&& final(p).direct@ == old(p).direct@.update(k, a)
                &&& final(p).groups@ == old(p).groups@
            },
            None => match first_group_with_id(old(p).groups@, a.ident()) {
                Some(g) => {
                    &&& replaced
                    &&& final(p).direct@ == old(p).direct@
                    &&& final(p).groups@.len() == old(p).groups@.len()
                    &&& forall|h: int|
                        0 <= h < old(p).groups@.len() && h != g ==> #[trigger] final(p).groups@[h] == old(p).groups@[h]
                    &&& final(p).groups@[g]@ == old(p).groups@[g]@.update(
                        first_with_id(old(p).groups@[g]@, a.ident()).unwrap(),
                        a,
                    )
                },
                None => {
                    &&& !replaced
                    &&& final(p).direct@ == old(p).direct@
                    &&& final(p).groups@ == old(p).groups@
                },
            },
        },
{
    let id = a.id_of();
    if let Some(k) = find_id(&p.direct, id) {
        p.direct.set(k, a);
        return true;
    }
    let mut g: usize = 0;
    while g < p.groups.len()
        invariant
            0 <= g <= p.groups.len(),
            p.direct@ == old(p).direct@,
            p.groups@ == old(p).groups@,
            first_with_id(old(p).direct@, id) is None,
            id == a.ident(),
            forall|h: int| 0 <= h < g ==> first_with_id(#[trigger] p.groups@[h]@, id) is None,
        decreases p.groups.len() - g,
    {
        if let Some(k) = find_id(&p.groups[g], id) {
            proof {
                let c = choose|c: int|
                    0 <= c < p.groups@.len() && first_with_id(p.groups@[c]@, id) is Some && forall|h: int|
                        0 <= h < c ==> first_with_id(#[trigger] p.groups@[h]@, id) is None;
                if c < g {
                } else if c > g {
                    assert(first_with_id(p.groups@[g as int]@, id) is None);
                }
            }
            let mut group: Vec<A> = Vec::new();
            p.groups.set_and_swap(g, &mut group);
            group.set(k, a);
            p.groups.set_and_swap(g, &mut group);
            return true;
        }
        g = g + 1;
    }
    false
}

/// The portfolio that an asset editor saves into: the one it was opened from, found by id,
/// or, when it was opened from none, the first portfolio.
pub fn save_target(portfolio_ids: &Vec<u128>, opened_from: Option<u128>) -> (r: Option<usize>)
    ensures
        opened_from is None ==> r == (if portfolio_ids.len() > 0 {
            Some(0usize)
        } else {
            None::<usize>
        }),
        opened_from matches Some(pid) ==> (r matches Some(k) ==> {
            &&& k < portfolio_ids.len()
            &&& portfolio_ids@[k as int] == pid
            &&& forall|j: int| 0 <= j < k ==> portfolio_ids@[j] != pid
        }),
        opened_from matches Some(pid) ==> (r is None ==> !portfolio_ids@.contains(pid)),
{
    match opened_from {
        None => if portfolio_ids.len() > 0 {
            Some(0)
        } else {
            None
        },
        Some(pid) => {
            let mut k: usize = 0;
            while k < portfolio_ids.len()
                invariant
                    0 <= k <= portfolio_ids.len(),
                    opened_from == Some(pid),
                    forall|j: int| 0 <= j < k ==> portfolio_ids@[j] != pid,
                decreases portfolio_ids.len() - k,
            {
                if portfolio_ids[k] == pid {
                    assert(portfolio_ids@[k as int] == pid);
                    return Some(k);
                }
                k = k + 1;
            }
            None
        },
    }
}

} // verus!

//! Decisions of the portfolio page: the sort selector, the grid selector, where a new asset
//! goes, which portfolio is open, and the forms that create or edit a portfolio.

use vstd::prelude::*;
use crate::ids::{optional_id, optional_id_spec, parse_uuid, parsed_uuid};
use crate::numbers::{parse_unsigned_spec, parse_usize};
use crate::ordering::{SortKey, is_permutation, is_stable_order, stable_order};
use crate::text::{
    blank, chars_of, is_blank, optional_text, optional_text_spec, optional_trimmed,
    optional_trimmed_spec, string_of, text_eq,
};

verus! {

/// How the portfolio list is ordered.
#[derive(Clone, Copy, Debug, PartialEq, Eq, Structural)]
pub enum SortMode {
    Recent,
    Oldest,
    HighestValue,
    LowestValue,
    HighestProfit,
    LowestProfit,
    HighestRevenue,
    LowestRevenue,
    ByOrganization,
}

/// The value that the sort selector's option carries for a mode.
pub open spec fn sort_value_spec(m: SortMode) -> Seq<char> {
    match m {
        SortMode::Recent => "sort_recent"@,
        SortMode::Oldest => "sort_oldest"@,
        SortMode::HighestValue => "sort_highest_value"@,
        SortMode::LowestValue => "sort_lowest_value"@,
        SortMode::HighestProfit => "sort_highest_profit"@,
        SortMode::LowestProfit => "sort_lowest_profit"@,
        SortMode::HighestRevenue => "sort_highest_revenue"@,
        SortMode::LowestRevenue => "sort_lowest_revenue"@,
        SortMode::ByOrganization => "sort_by_organization"@,
    }
}

/// The mode that a sort selector value names; any other value is `Recent`.
pub open spec fn sort_mode_named(v: Seq<char>) -> SortMode {
    if v == "sort_oldest"@ {
        SortMode::Oldest
    } else if v == "sort_highest_value"@ {
        SortMode::HighestValue
    } else if v == "sort_lowest_value"@ {
        SortMode::LowestValue
    } else if v == "sort_highest_profit"@ {
        SortMode::HighestProfit
    } else if v == "sort_lowest_profit"@ {
        SortMode::LowestProfit
    } else if v == "sort_highest_revenue"@ {
        SortMode::HighestRevenue
    } else if v == "sort_lowest_revenue"@ {
        SortMode::LowestRevenue
    } else if v == "sort_by_organization"@ {
        SortMode::ByOrganization
    } else {
        SortMode::Recent
    }
}

/// The value that the sort selector's option carries for `m`.
pub fn sort_mode_value(m: SortMode) -> (v: &'static str)
    ensures
        v@ == sort_value_spec(m),
{
    match m {
        SortMode::Recent => "sort_recent",
        SortMode::Oldest => "sort_oldest",
        SortMode::HighestValue => "sort_highest_value",
        SortMode::LowestValue => "sort_lowest_value",
        SortMode::HighestProfit => "sort_highest_profit",
        SortMode::LowestProfit => "sort_lowest_profit",
        SortMode::HighestRevenue => "sort_highest_revenue",
        SortMode::LowestRevenue => "sort_lowest_revenue",
        SortMode::ByOrganization => "sort_by_organization",
    }
}

/// Reads the sort selector's value.
pub fn sort_mode_from_value(v: &str) -> (m: SortMode)
    ensures
        m == sort_mode_named(v@),
{
    if text_eq(v, "sort_oldest") {
        SortMode::Oldest
    } else if text_eq(v, "sort_highest_value") {
        SortMode::HighestValue
    } else if text_eq(v, "sort_lowest_value") {
        SortMode::LowestValue
    } else if text_eq(v, "sort_highest_profit") {
        SortMode::HighestProfit
    } else if text_eq(v, "sort_lowest_profit") {
        SortMode::LowestProfit
    } else if text_eq(v, "sort_highest_revenue") {
        SortMode::HighestRevenue
    } else if text_eq(v, "sort_lowest_revenue") {
        SortMode::LowestRevenue
    } else if text_eq(v, "sort_by_organization") {
        SortMode::ByOrganization
    } else {
        SortMode::Recent
    }
}

/// Reading back the value that a sort mode's option carries gives that mode.
pub proof fn lemma_sort_value_round_trip(m: SortMode)
    ensures
        sort_mode_named(sort_value_spec(m)) == m,
{
    reveal_strlit("sort_recent");
    reveal_strlit("sort_oldest");
    reveal_strlit("sort_highest_value");
    reveal_strlit("sort_lowest_value");
    reveal_strlit("sort_highest_profit");
    reveal_strlit("sort_lowest_profit");
    reveal_strlit("sort_highest_revenue");
    reveal_strlit("sort_lowest_revenue");
    reveal_strlit("sort_by_organization");
    assert("sort_recent"@.len() == 11 && "sort_oldest"@.len() == 11);
    assert("sort_recent"@[5] != "sort_oldest"@[5]);
    assert("sort_highest_value"@.len() == 18 && "sort_lowest_value"@.len() == 17);
    assert("sort_highest_profit"@.len() == 19 && "sort_lowest_profit"@.len() == 18);
    assert("sort_highest_revenue"@.len() == 20 && "sort_lowest_revenue"@.len() == 19);
    assert("sort_by_organization"@.len() == 20);
    assert("sort_highest_value"@[5] != "sort_lowest_profit"@[5]);
    assert("sort_lowest_value"@[12] != "sort_highest_profit"@[12]);
    assert("sort_lowest_revenue"@[5] != "sort_highest_profit"@[5]);
    assert("sort_highest_revenue"@[5] != "sort_by_organization"@[5]);
}

/// The column count that a grid selector value (`grid_N`) asks for.
pub open spec fn grid_columns_spec(v: Seq<char>) -> Option<nat> {
    if v.len() >= 5 && v.take(5) == "grid_"@ {
        parse_unsigned_spec(v.skip(5), usize::MAX as nat)
    } else {
        None
    }
}

/// Reads the grid selector's value; none when it is not `grid_` and a number.
pub fn grid_columns_from_value(v: &str) -> (n: Option<usize>)
    ensures
        match n {
            Some(k) => grid_columns_spec(v@) == Some(k as nat),
            None => grid_columns_spec(v@) is None,
        },
{
    let c = chars_of(v);
    let p = chars_of("grid_");
    proof {
        reveal_strlit("grid_");
        assert("grid_"@.len() == 5);
    }
    if c.len() < 5 {
        return None;
    }
    let mut i: usize = 0;
    while i < 5
        invariant
            0 <= i <= 5,
            c@ == v@,
            p@ == "grid_"@,
            p.len() == 5,
            c.len() >= 5,
            forall|k: int| 0 <= k < i ==> c@[k] == p@[k],
        decreases 5 - i,
    {
        if c[i] != p[i] {
            assert(c@.take(5)[i as int] != "grid_"@[i as int]);
            return None;
        }
        i = i + 1;
    }
    assert(c@.take(5) =~= "grid_"@);
    let rest = string_of(&crate::text::slice_chars(&c, 5, c.len()));
    assert(rest@ =~= v@.skip(5));
    parse_usize(rest.as_str())
}

/// Where a new asset goes: nowhere yet (`Unset`), straight into a portfolio, or into one of its groups.
#[derive(Clone, Copy, Debug, PartialEq, Eq, Structural)]
pub enum AssetTarget {
    Unset,
    PortfolioDirect(u128),
    Group(u128, u128),
}

/// Where the top-level add-asset form puts the new asset: nowhere without a portfolio,
/// into the chosen group when there is one, otherwise straight into the portfolio.
pub fn top_form_target(portfolio: Option<u128>, group: Option<u128>) -> (t: Option<AssetTarget>)
    ensures
        t == match portfolio {
            None => None,
            Some(p) => Some(
                match group {
                    Some(g) => AssetTarget::Group(p, g),
                    None => AssetTarget::PortfolioDirect(p),
                },
            ),
        },
{
    match portfolio {
        None => None,
        Some(p) => Some(
            match group {
                Some(g) => AssetTarget::Group(p, g),
                None => AssetTarget::PortfolioDirect(p),
            },
        ),
    }
}

/// The group that the top-level add-asset form holds after its group selector changes: none
/// when the selector is cleared, the group when the value is a UUID, and the previous choice
/// otherwise.
pub open spec fn group_choice_spec(previous: Option<u128>, v: Seq<char>) -> Option<u128> {
    if v.len() == 0 {
        None
    } else {
        match parsed_uuid(v) {
            Some(g) => Some(g),
            None => previous,
        }
    }
}

/// The group chosen by a non-empty selector value that read as `parsed`: that group, or
/// the previous choice when the value named none.
pub fn chosen_group(previous: Option<u128>, parsed: Option<u128>) -> (g: Option<u128>)
    ensures
        g == match parsed {
            Some(p) => Some(p),
            None => previous,
        },
{
    match parsed {
        Some(p) => Some(p),
        None => previous,
    }
}

/// The group that the top-level add-asset form holds after its group selector changes.
pub fn group_choice(previous: Option<u128>, v: &str) -> (g: Option<u128>)
    ensures
        g == group_choice_spec(previous, v@),
{
    if chars_of(v).len() == 0 {
        None
    } else {
        chosen_group(previous, parse_uuid(v))
    }
}

/// The open portfolio after portfolio `id` is clicked: it closes when it was open,
/// otherwise it opens.
pub open spec fn selection_after_click(selected: Option<u128>, id: u128) -> Option<u128> {
    if selected == Some(id) {
        None
    } else {
        Some(id)
    }
}

/// Clicking a portfolio: it closes when it was open, otherwise it opens and is marked as
/// just used. Returns the open portfolio and whether it was marked.
pub fn toggle_selected(selected: Option<u128>, id: u128) -> (r: (Option<u128>, bool))
    ensures
        r.0 == selection_after_click(selected, id),
        r.1 == (selected != Some(id)),
{
    if selected == Some(id) {
        (None, false)
    } else {
        (Some(id), true)
    }
}

/// Clicking the same portfolio twice leaves no portfolio open, unless it was open before,
/// in which case the second click opens it again.
pub proof fn lemma_click_twice(selected: Option<u128>, id: u128)
    ensures
        selection_after_click(selection_after_click(selected, id), id) == if selected == Some(id) {
            Some(id)
        } else {
            None
        },
{
}

/// Where a notification wants the user taken.
#[derive(Clone, Copy, Debug, PartialEq, Eq, Structural)]
pub struct NavTarget {
    pub portfolio_id: u128,
    pub group_id: Option<u128>,
    pub asset_id: Option<u128>,
    pub doc_id: Option<u128>,
}

/// The open portfolio after portfolio `id` is deleted: none when it was the open one,
/// otherwise the open portfolio stays open.
pub fn selection_after_delete(selected: Option<u128>, id: u128) -> (r: Option<u128>)
    ensures
        r == if selected == Some(id) {
            None
        } else {
            selected
        },
{
    if selected == Some(id) {
        None
    } else {
        selected
    }
}

/// Whose document window opens for a notification: none when it names no document,
/// otherwise its asset, else its group, else its portfolio.
pub fn doc_window_owner(nav: NavTarget) -> (owner: Option<u128>)
    ensures
        owner == if nav.doc_id is None {
            None
        } else {
            match nav.asset_id {
                Some(a) => Some(a),
                None => match nav.group_id {
                    Some(g) => Some(g),
                    None => Some(nav.portfolio_id),
                },
            }
        },
{
    if nav.doc_id.is_none() {
        return None;
    }
    match nav.asset_id {
        Some(a) => Some(a),
        None => match nav.group_id {
            Some(g) => Some(g),
            None => Some(nav.portfolio_id),
        },
    }
}

/// The details that the portfolio editor saves.
pub struct PortfolioEdit {
    pub name: String,
    pub description: Option<String>,
    pub emoji: Option<String>,
    pub organization_id: Option<u128>,
}

/// Reads the portfolio editor: nothing is saved when the name is blank; the description is
/// kept as typed unless blank, the emoji trimmed unless blank, and the organization read
/// from its selector.
pub fn portfolio_edit(name: &str, description: &str, emoji: &str, organization: &str) -> (r: Option<PortfolioEdit>)
    ensures
        blank(name@) <==> r is None,
        r matches Some(e) ==> {
            &&& e.name@ == name@
            &&& optional_text_spec(description@) == match e.description {
                Some(d) => Some(d@),
                None => None,
            }
            &&& optional_trimmed_spec(emoji@) == match e.emoji {
                Some(d) => Some(d@),
                None => None,
            }
            &&& e.organization_id == optional_id_spec(organization@)
        },
{
    if is_blank(name) {
        return None;
    }
    Some(
        PortfolioEdit {
            name: string_of(&chars_of(name)),
            description: optional_text(description),
            emoji: optional_trimmed(emoji),
            organization_id: optional_id(organization),
        },
    )
}

/// The details of a portfolio being created.
pub struct NewPortfolio {
    pub name: String,
    pub description: Option<String>,
    pub organization_id: Option<u128>,
}

/// Reads the create-portfolio form: nothing is created when the name is blank; the
/// description is trimmed unless blank, and the organization is the selector's UUID when it
/// holds one.
pub fn new_portfolio_form(name: &str, description: &str, organization: &str) -> (r: Option<NewPortfolio>)
    ensures
        blank(name@) <==> r is None,
        r matches Some(p) ==> {
            &&& p.name@ == name@
            &&& optional_trimmed_spec(description@) == match p.description {
                Some(d) => Some(d@),
                None => None,
            }
            &&& p.organization_id == parsed_uuid(organization@)
        },
{
    if is_blank(name) {
        return None;
    }
    Some(
        NewPortfolio {
            name: string_of(&chars_of(name)),
            description: optional_trimmed(description),
            organization_id: parse_uuid(organization),
        },
    )
}

/// The emojis that a new portfolio without an image may get.
pub open spec fn portfolio_emojis() -> Seq<&'static str> {
    seq!["🏢", "🏠", "🚗", "💼", "💰", "📈", "🏭", "🌐", "🎨", "🔬", "⚡"]
}

/// The sum of a sequence of bytes.
pub open spec fn byte_sum(b: Seq<u8>) -> nat
    decreases b.len(),
{
    if b.len() == 0 {
        0
    } else {
        byte_sum(b.drop_last()) + b.last() as nat
    }
}

/// The emoji that sixteen bytes pick: the one at their sum modulo the number of emojis.
pub fn emoji_for_bytes(bytes: &[u8; 16]) -> (e: &'static str)
    ensures
        e == portfolio_emojis()[(byte_sum(bytes@) % 11) as int],
{
    let emojis = ["🏢", "🏠", "🚗", "💼", "💰", "📈", "🏭", "🌐", "🎨", "🔬", "⚡"];
    assert(emojis@ =~= portfolio_emojis());
    let mut sum: usize = 0;
    let mut i: usize = 0;
    assert(bytes@.take(0) =~= Seq::<u8>::empty());
    while i < 16
        invariant
            0 <= i <= 16,
            bytes@.len() == 16,
            sum == byte_sum(bytes@.take(i as int)),
            sum <= 255 * i,
        decreases 16 - i,
    {
        assert(bytes@.take(i + 1).drop_last() =~= bytes@.take(i as int));
        sum = sum + bytes[i] as usize;
        i = i + 1;
    }
    assert(bytes@.take(16) =~= bytes@);
    emojis[sum % 11]
}


/// Orders portfolio organizations with no organization first, then by id.
impl SortKey for Option<u128> {
    open spec fn precedes(self, other: Self) -> bool {
        match (self, other) {
            (None, Some(_)) => true,
            (Some(a), Some(b)) => a < b,
            _ => false,
        }
    }

    proof fn lemma_precedes_irreflexive(a: Self) {
    }

    proof fn lemma_precedes_transitive(a: Self, b: Self, c: Self) {
    }

    proof fn lemma_not_precedes_transitive(a: Self, b: Self, c: Self) {
    }

    fn less(&self, other: &Self) -> (r: bool) {
        match (self, other) {
            (None, Some(_)) => true,
            (Some(a), Some(b)) => *a < *b,
            _ => false,
        }
    }
}

/// The order of the portfolio list by creation time (timestamps), newest first for
/// `Recent` and oldest first for `Oldest`; portfolios created at the same time keep their
/// order.
pub fn portfolio_order_by_time(created_at: &Vec<i128>, newest_first: bool) -> (order: Vec<usize>)
    ensures
        is_stable_order(created_at@, newest_first, order@),
{
    stable_order(created_at, newest_first)
}

/// The order of the portfolio list by organization, highest organization id first and
/// portfolios without one last; portfolios of one organization keep their order.
pub fn portfolio_order_by_organization(organizations: &Vec<Option<u128>>) -> (order: Vec<usize>)
    ensures
        is_stable_order(organizations@, true, order@),
{
    stable_order(organizations, true)
}

/// What the portfolio list orders one portfolio by. Times are microseconds since the Unix
/// epoch; the ranks order the portfolios as their total value, profit and revenue do, equal
/// amounts having equal ranks.
#[derive(Clone, Copy, Debug, PartialEq, Eq, Structural)]
pub struct PortfolioKeys {
    pub created_at: i128,
    pub value_rank: i128,
    pub profit_rank: i128,
    pub revenue_rank: i128,
    pub organization_id: Option<u128>,
}

/// The key of each portfolio that a sort mode orders by, and whether it orders them from the
/// highest down.
pub open spec fn sort_numbers(keys: Seq<PortfolioKeys>, mode: SortMode) -> (Seq<i128>, bool) {
    match mode {
        SortMode::Oldest => (keys.map_values(|k: PortfolioKeys| k.created_at), false),
        SortMode::HighestValue => (keys.map_values(|k: PortfolioKeys| k.value_rank), true),
        SortMode::LowestValue => (keys.map_values(|k: PortfolioKeys| k.value_rank), false),
        SortMode::HighestProfit => (keys.map_values(|k: PortfolioKeys| k.profit_rank), true),
        SortMode::LowestProfit => (keys.map_values(|k: PortfolioKeys| k.profit_rank), false),
        SortMode::HighestRevenue => (keys.map_values(|k: PortfolioKeys| k.revenue_rank), true),
        SortMode::LowestRevenue => (keys.map_values(|k: PortfolioKeys| k.revenue_rank), false),
        _ => (keys.map_values(|k: PortfolioKeys| k.created_at), true),
    }
}

/// Whether `order` is the order of the portfolio list under a sort mode: newest or oldest
/// first, highest or lowest value, profit or revenue first, or by organization (highest
/// organization id first, portfolios without one last); ties keep their order.
pub open spec fn portfolio_order_spec(keys: Seq<PortfolioKeys>, mode: SortMode, order: Seq<usize>) -> bool {
    if mode == SortMode::ByOrganization {
        is_stable_order(keys.map_values(|k: PortfolioKeys| k.organization_id), true, order)
    } else {
        is_stable_order(sort_numbers(keys, mode).0, sort_numbers(keys, mode).1, order)
    }
}

/// The order of the portfolio list under a sort mode, as positions in `keys`.
pub fn portfolio_order(keys: &Vec<PortfolioKeys>, mode: SortMode) -> (order: Vec<usize>)
    ensures
        portfolio_order_spec(keys@, mode, order@),
{
    if mode == SortMode::ByOrganization {
        let mut orgs: Vec<Option<u128>> = Vec::new();
        let mut i: usize = 0;
        while i < keys.len()
            invariant
                i <= keys.len(),
                orgs@ =~= keys@.map_values(|k: PortfolioKeys| k.organization_id).take(i as int),
            decreases keys.len() - i,
        {
            orgs.push(keys[i].organization_id);
            i = i + 1;
        }
        assert(orgs@ =~= keys@.map_values(|k: PortfolioKeys| k.organization_id));
        return portfolio_order_by_organization(&orgs);
    }
    let descending = match mode {
        SortMode::Oldest | SortMode::LowestValue | SortMode::LowestProfit | SortMode::LowestRevenue => false,
        _ => true,
    };
    let mut nums: Vec<i128> = Vec::new();
    let mut i: usize = 0;
    while i < keys.len()
        invariant
            i <= keys.len(),
            mode != SortMode::ByOrganization,
            nums@ =~= sort_numbers(keys@, mode).0.take(i as int),
        decreases keys.len() - i,
    {
        let k = keys[i];
        let n = match mode {
            SortMode::HighestValue | SortMode::LowestValue => k.value_rank,
            SortMode::HighestProfit | SortMode::LowestProfit => k.profit_rank,
            SortMode::HighestRevenue | SortMode::LowestRevenue => k.revenue_rank,
            _ => k.created_at,
        };
        nums.push(n);
        i = i + 1;
    }
    assert(nums@ =~= sort_numbers(keys@, mode).0);
    stable_order(&nums, descending)
}


/// The portfolio list under each sort mode: every portfolio once, and for any two listed
/// portfolios the earlier has the later creation time (`Recent`) or the earlier one
/// (`Oldest`), the higher or the lower value, profit or revenue rank as the mode names, or,
/// by organization, the higher organization id, portfolios without one coming last; two
/// portfolios that tie stay in the order they were given.
pub proof fn lemma_portfolio_order_directions(keys: Seq<PortfolioKeys>, mode: SortMode, order: Seq<usize>)
    requires
        portfolio_order_spec(keys, mode, order),
    ensures
        is_permutation(order, keys.len()),
        forall|a: int, b: int|
            #![trigger order[a], order[b]]
            0 <= a < b < order.len() ==> {
                let x = keys[order[a] as int];
                let y = keys[order[b] as int];
                &&& mode == SortMode::Recent ==> x.created_at >= y.created_at
                    && (x.created_at == y.created_at ==> order[a] < order[b])
                &&& mode == SortMode::Oldest ==> x.created_at <= y.created_at
                    && (x.created_at == y.created_at ==> order[a] < order[b])
                &&& mode == SortMode::HighestValue ==> x.value_rank >= y.value_rank
                    && (x.value_rank == y.value_rank ==> order[a] < order[b])
                &&& mode == SortMode::LowestValue ==> x.value_rank <= y.value_rank
                    && (x.value_rank == y.value_rank ==> order[a] < order[b])
                &&& mode == SortMode::HighestProfit ==> x.profit_rank >= y.profit_rank
                    && (x.profit_rank == y.profit_rank ==> order[a] < order[b])
                &&& mode == SortMode::LowestProfit ==> x.profit_rank <= y.profit_rank
                    && (x.profit_rank == y.profit_rank ==> order[a] < order[b])
                &&& mode == SortMode::HighestRevenue ==> x.revenue_rank >= y.revenue_rank
                    && (x.revenue_rank == y.revenue_rank ==> order[a] < order[b])
                &&& mode == SortMode::LowestRevenue ==> x.revenue_rank <= y.revenue_rank
                    && (x.revenue_rank == y.revenue_rank ==> order[a] < order[b])
                &&& mode == SortMode::ByOrganization ==> match (x.organization_id, y.organization_id) {
                    (Some(i), Some(j)) => i >= j && (i == j ==> order[a] < order[b]),
                    (Some(_), None) => true,
                    (None, Some(_)) => false,
                    (None, None) => order[a] < order[b],
                }
            },
{
    assert forall|a: int, b: int|
        #![trigger order[a], order[b]]
        0 <= a < b < order.len() implies {
            let x = keys[order[a] as int];
            let y = keys[order[b] as int];
            &&& mode == SortMode::Recent ==> x.created_at >= y.created_at
                && (x.created_at == y.created_at ==> order[a] < order[b])
            &&& mode == SortMode::Oldest ==> x.created_at <= y.created_at
                && (x.created_at == y.created_at ==> order[a] < order[b])
            &&& mode == SortMode::HighestValue ==> x.value_rank >= y.value_rank
                && (x.value_rank == y.value_rank ==> order[a] < order[b])
            &&& mode == SortMode::LowestValue ==> x.value_rank <= y.value_rank
                && (x.value_rank == y.value_rank ==> order[a] < order[b])
            &&& mode == SortMode::HighestProfit ==> x.profit_rank >= y.profit_rank
                && (x.profit_rank == y.profit_rank ==> order[a] < order[b])
            &&& mode == SortMode::LowestProfit ==> x.profit_rank <= y.profit_rank
                && (x.profit_rank == y.profit_rank ==> order[a] < order[b])
            &&& mode == SortMode::HighestRevenue ==> x.revenue_rank >= y.revenue_rank
                && (x.revenue_rank == y.revenue_rank ==> order[a] < order[b])
            &&& mode == SortMode::LowestRevenue ==> x.revenue_rank <= y.revenue_rank
                && (x.revenue_rank == y.revenue_rank ==> order[a] < order[b])
            &&& mode == SortMode::ByOrganization ==> match (x.organization_id, y.organization_id) {
                (Some(i), Some(j)) => i >= j && (i == j ==> order[a] < order[b]),
                (Some(_), None) => true,
                (None, Some(_)) => false,
                (None, None) => order[a] < order[b],
            }
        } by {
        assert(order[a] < keys.len() && order[b] < keys.len());
    }
}

} // verus!

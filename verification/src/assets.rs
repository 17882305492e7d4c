//! Assets and asset groups of a portfolio: their placeholder images, the orders the asset
//! viewer lists them in, and how many of a long list it shows.

use vstd::prelude::*;
use crate::documents::{
    byte_prefix, has_boundary_at, lemma_byte_len_take_grows, lemma_byte_len_take_step,
    prefix_of_bytes,
};
use crate::ordering::{
    keys_are, lemma_sorted_by_numbers_unique, lemma_sorted_by_texts_unique, sort_by_keys, sorted_by_numbers,
    sorted_by_texts,
};
use crate::text::{lowercase, to_lower, byte_len, chars_of, push_text, slice_chars, string_of, prefix_within_bytes};

verus! {

/// The kind of an asset.
#[derive(Clone, Debug, PartialEq, Eq)]
pub enum AssetType {
    RealEstate,
    Vehicle,
    Equipment,
    Stock,
    Bond,
    Commodity,
    Digital,
    IntellectualProperty,
    Channel,
    Custom(String),
}

/// The word a placeholder image shows for a kind of asset.
pub open spec fn placeholder_word(t: AssetType) -> Seq<char> {
    match t {
        AssetType::RealEstate => "House"@,
        AssetType::Vehicle => "Car"@,
        AssetType::Equipment => "Gear"@,
        AssetType::Stock => "Stock"@,
        AssetType::Bond => "Bond"@,
        AssetType::Commodity => "Goods"@,
        AssetType::Digital => "Crypto"@,
        AssetType::IntellectualProperty => "IP"@,
        AssetType::Channel => "Channel"@,
        AssetType::Custom(_) => "Asset"@,
    }
}

/// `s` with each space turned into `+`.
pub open spec fn plus_for_space(s: Seq<char>) -> Seq<char> {
    s.map_values(|c: char| if c == ' ' { '+' } else { c })
}

/// The seed of a placeholder image: the name with spaces turned into `+`, cut to its first
/// twelve bytes when it is longer.
pub open spec fn placeholder_seed(name: Seq<char>) -> Seq<char> {
    let seed = plus_for_space(name);
    if byte_len(seed) > 12 {
        byte_prefix(seed, 12)
    } else {
        seed
    }
}

/// The address of the placeholder image of an asset without a picture.
pub open spec fn placeholder_url_spec(t: AssetType, name: Seq<char>) -> Seq<char> {
    "https://placehold.co/400x400/2d3748/FFF?text="@ + placeholder_word(t) + "%2B"@ + placeholder_seed(name)
}

proof fn lemma_plus_for_space_bytes(s: Seq<char>, k: int)
    requires
        0 <= k <= s.len(),
    ensures
        plus_for_space(s).take(k) == plus_for_space(s.take(k)),
        byte_len(plus_for_space(s.take(k))) == byte_len(s.take(k)),
    decreases k,
{
    assert(plus_for_space(s).take(k) =~= plus_for_space(s.take(k)));
    if k > 0 {
        lemma_plus_for_space_bytes(s, k - 1);
        assert(plus_for_space(s.take(k)).drop_last() =~= plus_for_space(s.take(k - 1)));
        assert(s.take(k).drop_last() =~= s.take(k - 1));
    }
}

/// The placeholder image address of an asset, such as
/// `https://placehold.co/400x400/2d3748/FFF?text=House%2BMain+St`.
pub fn asset_placeholder_url(asset_type: &AssetType, name: &str) -> (url: String)
    requires
        byte_len(name@) <= 12 || has_boundary_at(name@, 12),
    ensures
        url@ == placeholder_url_spec(*asset_type, name@),
{
    let word = match asset_type {
        AssetType::RealEstate => "House",
        AssetType::Vehicle => "Car",
        AssetType::Equipment => "Gear",
        AssetType::Stock => "Stock",
        AssetType::Bond => "Bond",
        AssetType::Commodity => "Goods",
        AssetType::Digital => "Crypto",
        AssetType::IntellectualProperty => "IP",
        AssetType::Channel => "Channel",
        AssetType::Custom(_) => "Asset",
    };
    let v = chars_of(name);
    let mut seed: Vec<char> = Vec::new();
    let mut i: usize = 0;
    while i < v.len()
        invariant
            0 <= i <= v.len(),
            v@ == name@,
            seed@ =~= plus_for_space(v@.take(i as int)),
        decreases v.len() - i,
    {
        let c = v[i];
        if c == ' ' {
            seed.push('+');
        } else {
            seed.push(c);
        }
        assert(v@.take(i + 1).drop_last() =~= v@.take(i as int));
        i = i + 1;
    }
    assert(v@.take(v.len() as int) =~= v@);
    proof {
        lemma_plus_for_space_bytes(name@, name@.len() as int);
        assert(name@.take(name@.len() as int) =~= name@);
        assert(plus_for_space(name@).take(name@.len() as int) =~= plus_for_space(name@));
    }
    let (k, bytes) = prefix_within_bytes(&seed, 12);
    let cut: usize;
    if k == seed.len() {
        assert(seed@.take(k as int) =~= seed@);
        cut = k;
    } else {
        proof {
            lemma_byte_len_take_step(seed@, k as int);
            if k + 1 < seed.len() {
                lemma_byte_len_take_grows(seed@, k + 1, seed.len() as int);
            }
            assert(seed@.take(seed.len() as int) =~= seed@);
            assert(byte_len(seed@) > 12);
            assert(has_boundary_at(name@, 12));
            let c = choose|c: int| 0 <= c <= name@.len() && byte_len(name@.take(c)) == 12;
            lemma_plus_for_space_bytes(name@, c);
            assert(byte_len(seed@.take(c)) == 12);
            assert(has_boundary_at(seed@, 12));
        }
        cut = prefix_of_bytes(&seed, 12);
    }
    let mut url = String::new();
    push_text(&mut url, "https://placehold.co/400x400/2d3748/FFF?text=");
    push_text(&mut url, word);
    push_text(&mut url, "%2B");
    let part = slice_chars(&seed, 0, cut);
    assert(part@ =~= seed@.take(cut as int));
    let part_text = string_of(&part);
    push_text(&mut url, part_text.as_str());
    assert(url@ =~= placeholder_url_spec(*asset_type, name@));
    url
}

/// The orders the asset viewer can list assets and groups in.
#[derive(Clone, Copy, Debug, PartialEq, Eq, Structural)]
pub enum AssetSortMode {
    Recent,
    NameAsc,
    NameDesc,
    ValueHigh,
    ValueLow,
}

/// The label of a sort mode on its button.
pub open spec fn asset_sort_label(m: AssetSortMode) -> Seq<char> {
    match m {
        AssetSortMode::Recent => "Recent"@,
        AssetSortMode::NameAsc => "Name A→Z"@,
        AssetSortMode::NameDesc => "Name Z→A"@,
        AssetSortMode::ValueHigh => "High Value"@,
        AssetSortMode::ValueLow => "Low Value"@,
    }
}

/// The label of a sort mode on its button.
pub fn sort_mode_label(m: AssetSortMode) -> (s: &'static str)
    ensures
        s@ == asset_sort_label(m),
{
    match m {
        AssetSortMode::Recent => "Recent",
        AssetSortMode::NameAsc => "Name A→Z",
        AssetSortMode::NameDesc => "Name Z→A",
        AssetSortMode::ValueHigh => "High Value",
        AssetSortMode::ValueLow => "Low Value",
    }
}

/// What the asset viewer orders an asset or a group by. Times are microseconds since the
/// Unix epoch (when the asset was last opened, when the group was last updated); `value_rank`
/// orders the entries as their current value does, equal values having equal ranks.
#[derive(Clone, Debug)]
pub struct ListEntry {
    pub id: u128,
    pub name: String,
    pub stamp: i128,
    pub value_rank: i128,
}

/// The time of each entry.
pub open spec fn entry_stamps(es: Seq<ListEntry>) -> Seq<i128> {
    es.map_values(|e: ListEntry| e.stamp)
}

/// The value rank of each entry.
pub open spec fn entry_values(es: Seq<ListEntry>) -> Seq<i128> {
    es.map_values(|e: ListEntry| e.value_rank)
}

/// The lowercase name of each entry.
pub open spec fn entry_names(es: Seq<ListEntry>) -> Seq<Seq<char>> {
    es.map_values(|e: ListEntry| lowercase(e.name@))
}

/// What sorting assets or groups gives: ordered stably, most recent first, by lowercase name
/// either way, or by value, highest or lowest first.
pub open spec fn entries_sorted(es: Seq<ListEntry>, mode: AssetSortMode, r: Seq<ListEntry>) -> bool {
    match mode {
        AssetSortMode::Recent => sorted_by_numbers(es, entry_stamps(es), true, r),
        AssetSortMode::NameAsc => sorted_by_texts(es, entry_names(es), false, r),
        AssetSortMode::NameDesc => sorted_by_texts(es, entry_names(es), true, r),
        AssetSortMode::ValueHigh => sorted_by_numbers(es, entry_values(es), true, r),
        AssetSortMode::ValueLow => sorted_by_numbers(es, entry_values(es), false, r),
    }
}

/// Assets or groups have one order under each sort mode: any two lists that both meet the
/// contract of `sort_entries` are the same.
pub proof fn lemma_entries_sorted_unique(es: Seq<ListEntry>, mode: AssetSortMode, r1: Seq<ListEntry>, r2: Seq<ListEntry>)
    requires
        entries_sorted(es, mode, r1),
        entries_sorted(es, mode, r2),
    ensures
        r1 == r2,
{
    match mode {
        AssetSortMode::Recent => lemma_sorted_by_numbers_unique(es, entry_stamps(es), true, r1, r2),
        AssetSortMode::NameAsc => lemma_sorted_by_texts_unique(es, entry_names(es), false, r1, r2),
        AssetSortMode::NameDesc => lemma_sorted_by_texts_unique(es, entry_names(es), true, r1, r2),
        AssetSortMode::ValueHigh => lemma_sorted_by_numbers_unique(es, entry_values(es), true, r1, r2),
        AssetSortMode::ValueLow => lemma_sorted_by_numbers_unique(es, entry_values(es), false, r1, r2),
    }
}

/// Assets or asset groups in the order the sort mode asks for; entries that tie keep their
/// order.
pub fn sort_entries(es: Vec<ListEntry>, mode: AssetSortMode) -> (r: Vec<ListEntry>)
    ensures
        entries_sorted(es@, mode, r@),
{
    match mode {
        AssetSortMode::NameAsc | AssetSortMode::NameDesc => {
            let descending = match mode {
                AssetSortMode::NameDesc => true,
                _ => false,
            };
            let mut keys: Vec<Vec<char>> = Vec::new();
            let mut i: usize = 0;
            while i < es.len()
                invariant
                    i <= es.len(),
                    keys_are(keys@, entry_names(es@).take(i as int)),
                decreases es.len() - i,
            {
                let lower = to_lower(es[i].name.as_str());
                keys.push(chars_of(lower.as_str()));
                i = i + 1;
            }
            assert(entry_names(es@).take(es.len() as int) =~= entry_names(es@));
            sort_by_keys(es, &keys, descending)
        },
        AssetSortMode::Recent => {
            let mut keys: Vec<i128> = Vec::new();
            let mut i: usize = 0;
            while i < es.len()
                invariant
                    i <= es.len(),
                    keys@ =~= entry_stamps(es@).take(i as int),
                decreases es.len() - i,
            {
                keys.push(es[i].stamp);
                i = i + 1;
            }
            assert(keys@ =~= entry_stamps(es@));
            sort_by_keys(es, &keys, true)
        },
        AssetSortMode::ValueHigh | AssetSortMode::ValueLow => {
            let descending = match mode {
                AssetSortMode::ValueHigh => true,
                _ => false,
            };
            let mut keys: Vec<i128> = Vec::new();
            let mut i: usize = 0;
            while i < es.len()
                invariant
                    i <= es.len(),
                    keys@ =~= entry_values(es@).take(i as int),
                decreases es.len() - i,
            {
                keys.push(es[i].value_rank);
                i = i + 1;
            }
            assert(keys@ =~= entry_values(es@));
            sort_by_keys(es, &keys, descending)
        },
    }
}

/// Assets in the order the sort mode asks for, by when they were last opened, name or value.
pub fn sort_assets(assets: Vec<ListEntry>, mode: AssetSortMode) -> (r: Vec<ListEntry>)
    ensures
        entries_sorted(assets@, mode, r@),
{
    sort_entries(assets, mode)
}

/// Asset groups in the order the sort mode asks for, by when they were last updated, name or
/// total value.
pub fn sort_groups(groups: Vec<ListEntry>, mode: AssetSortMode) -> (r: Vec<ListEntry>)
    ensures
        entries_sorted(groups@, mode, r@),
{
    sort_entries(groups, mode)
}

} // verus!

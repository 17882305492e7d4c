//! Stable ordering of lists by a key, as `slice::sort_by` orders them: a list is
//! rearranged so that keys come in order, and items whose keys are equal keep the order
//! they had.

use vstd::prelude::*;
use vstd::pervasive::VecAdditionalExecFns;
use vstd::set_lib::{lemma_int_range, lemma_subset_equality, set_int_range};

verus! {

/// A key that lists are ordered by: `precedes` is a strict weak order.
pub trait SortKey: Sized {
    /// Whether this key comes strictly before `other`.
    spec fn precedes(self, other: Self) -> bool;

    proof fn lemma_precedes_irreflexive(a: Self)
        ensures
            !a.precedes(a),
    ;

    proof fn lemma_precedes_transitive(a: Self, b: Self, c: Self)
        requires
            a.precedes(b),
            b.precedes(c),
        ensures
            a.precedes(c),
    ;

    proof fn lemma_not_precedes_transitive(a: Self, b: Self, c: Self)
        requires
            !b.precedes(a),
            !c.precedes(b),
        ensures
            !c.precedes(a),
    ;

    fn less(&self, other: &Self) -> (r: bool)
        ensures
            r == self.precedes(*other),
    ;
}

/// Whether key `a` comes before key `b` in the requested direction: ascending, or
/// descending when `descending` holds.
pub open spec fn comes_before<K: SortKey>(a: K, b: K, descending: bool) -> bool {
    if descending {
        b.precedes(a)
    } else {
        a.precedes(b)
    }
}

/// Whether `order` lists each index below `n` exactly once.
pub open spec fn is_permutation(order: Seq<usize>, n: nat) -> bool {
    &&& order.len() == n
    &&& forall|k: int| 0 <= k < order.len() ==> #[trigger] order[k] < n
    &&& forall|a: int, b: int|
        0 <= a < b < order.len() ==> #[trigger] order[a] != #[trigger] order[b]
}

/// Whether `order` is the stable ordering of `keys`: a permutation of their indices in
/// which no key comes before one placed ahead of it, and indices whose keys are equivalent
/// keep the order they had.
pub open spec fn is_stable_order<K: SortKey>(keys: Seq<K>, descending: bool, order: Seq<usize>) -> bool {
    &&& is_permutation(order, keys.len())
    &&& forall|a: int, b: int|
        #![trigger order[a], order[b]]
        0 <= a < b < order.len() ==> !comes_before(keys[order[b] as int], keys[order[a] as int], descending)
    &&& forall|a: int, b: int|
        #![trigger order[a], order[b]]
        0 <= a < b < order.len() && !comes_before(keys[order[a] as int], keys[order[b] as int], descending)
            && !comes_before(keys[order[b] as int], keys[order[a] as int], descending) ==> order[a] < order[b]
}

proof fn lemma_before_asymmetric<K: SortKey>(a: K, b: K, d: bool)
    requires
        comes_before(a, b, d),
    ensures
        !comes_before(b, a, d),
{
    if comes_before(b, a, d) {
        if d {
            K::lemma_precedes_transitive(a, b, a);
        } else {
            K::lemma_precedes_transitive(a, b, a);
        }
        K::lemma_precedes_irreflexive(a);
    }
}

proof fn lemma_not_before_transitive<K: SortKey>(a: K, b: K, c: K, d: bool)
    requires
        !comes_before(b, a, d),
        !comes_before(c, b, d),
    ensures
        !comes_before(c, a, d),
{
    if d {
        K::lemma_not_precedes_transitive(c, b, a);
    } else {
        K::lemma_not_precedes_transitive(a, b, c);
    }
}

fn key_before<K: SortKey>(x: &K, y: &K, descending: bool) -> (r: bool)
    ensures
        r == comes_before(*x, *y, descending),
{
    if descending {
        y.less(x)
    } else {
        x.less(y)
    }
}

/// The stable ordering of `keys`, ascending or, when `descending`, descending.
pub fn stable_order<K: SortKey>(keys: &Vec<K>, descending: bool) -> (order: Vec<usize>)
    ensures
        is_stable_order(keys@, descending, order@),
{
    let n = keys.len();
    let mut order: Vec<usize> = Vec::new();
    let mut i: usize = 0;
    while i < n
        invariant
            n == keys.len(),
            0 <= i <= n,
            order.len() == i,
            forall|k: int| 0 <= k < order.len() ==> #[trigger] order@[k] < i,
            forall|a: int, b: int|
                0 <= a < b < order.len() ==> #[trigger] order@[a] != #[trigger] order@[b],
            forall|a: int, b: int|
                #![trigger order@[a], order@[b]]
                0 <= a < b < order.len() ==> !comes_before(
                    keys@[order@[b] as int],
                    keys@[order@[a] as int],
                    descending,
                ),
            forall|a: int, b: int|
                #![trigger order@[a], order@[b]]
                0 <= a < b < order.len() && !comes_before(
                    keys@[order@[a] as int],
                    keys@[order@[b] as int],
                    descending,
                ) && !comes_before(keys@[order@[b] as int], keys@[order@[a] as int], descending)
                    ==> order@[a] < order@[b],
        decreases n - i,
    {
        let mut j: usize = order.len();
        while j > 0 && key_before(&keys[i], &keys[order[j - 1]], descending)
            invariant
                n == keys.len(),
                i < n,
                order.len() == i,
                0 <= j <= order.len(),
                forall|k: int| 0 <= k < order.len() ==> #[trigger] order@[k] < i,
                forall|k: int|
                    j <= k < order.len() ==> comes_before(
                        keys@[i as int],
                        keys@[#[trigger] order@[k] as int],
                        descending,
                    ),
            decreases j,
        {
            j = j - 1;
        }
        let ghost old_order = order@;
        proof {
            assert forall|k: int| 0 <= k < j implies !comes_before(
                keys@[i as int],
                keys@[#[trigger] old_order[k] as int],
                descending,
            ) by {
                if k < j - 1 {
                    assert(!comes_before(
                        keys@[old_order[j - 1] as int],
                        keys@[old_order[k] as int],
                        descending,
                    ));
                    lemma_not_before_transitive(
                        keys@[old_order[k] as int],
                        keys@[old_order[j - 1] as int],
                        keys@[i as int],
                        descending,
                    );
                }
            }
            assert forall|k: int| j <= k < old_order.len() implies !comes_before(
                keys@[#[trigger] old_order[k] as int],
                keys@[i as int],
                descending,
            ) by {
                lemma_before_asymmetric(keys@[i as int], keys@[old_order[k] as int], descending);
            }
        }
        order.insert(j, i);
        proof {
            let o = order@;
            assert(o == old_order.insert(j as int, i));
            assert forall|k: int| 0 <= k < o.len() implies #[trigger] o[k] < i + 1 by {
                if k < j {
                    assert(o[k] == old_order[k]);
                } else if k > j {
                    assert(o[k] == old_order[k - 1]);
                }
            }
            assert forall|a: int, b: int| 0 <= a < b < o.len() implies #[trigger] o[a] != #[trigger] o[b] by {
                if a < j && b < j {
                    assert(o[a] == old_order[a] && o[b] == old_order[b]);
                } else if a < j && b == j {
                    assert(o[a] == old_order[a]);
                } else if a < j && b > j {
                    assert(o[a] == old_order[a] && o[b] == old_order[b - 1]);
                } else if a == j {
                    assert(o[b] == old_order[b - 1]);
                } else {
                    assert(o[a] == old_order[a - 1] && o[b] == old_order[b - 1]);
                }
            }
            assert forall|a: int, b: int|
                #![trigger o[a], o[b]]
                0 <= a < b < o.len() implies !comes_before(
                    keys@[o[b] as int],
                    keys@[o[a] as int],
                    descending,
                ) by {
                if a < j && b < j {
                    assert(o[a] == old_order[a] && o[b] == old_order[b]);
                } else if a < j && b == j {
                    assert(o[a] == old_order[a]);
                } else if a < j && b > j {
                    assert(o[a] == old_order[a] && o[b] == old_order[b - 1]);
                } else if a == j {
                    assert(o[b] == old_order[b - 1]);
                } else {
                    assert(o[a] == old_order[a - 1] && o[b] == old_order[b - 1]);
                }
            }
            assert forall|a: int, b: int|
                #![trigger o[a], o[b]]
                0 <= a < b < o.len() && !comes_before(keys@[o[a] as int], keys@[o[b] as int], descending)
                    && !comes_before(keys@[o[b] as int], keys@[o[a] as int], descending) implies o[a] < o[b] by {
                if a < j && b < j {
                    assert(o[a] == old_order[a] && o[b] == old_order[b]);
                } else if a < j && b == j {
                    assert(o[a] == old_order[a]);
                } else if a < j && b > j {
                    assert(o[a] == old_order[a] && o[b] == old_order[b - 1]);
                } else if a == j {
                    assert(o[b] == old_order[b - 1]);
                    assert(comes_before(keys@[i as int], keys@[old_order[b - 1] as int], descending));
                } else {
                    assert(o[a] == old_order[a - 1] && o[b] == old_order[b - 1]);
                }
            }
        }
        i = i + 1;
    }
    order
}

/// The items of `items` rearranged so that position `k` holds the item at `order[k]`.
pub fn apply_order<T>(items: Vec<T>, order: &Vec<usize>) -> (r: Vec<T>)
    requires
        is_permutation(order@, items.len() as nat),
    ensures
        r.len() == items.len(),
        forall|k: int| 0 <= k < r.len() ==> #[trigger] r@[k] == items@[order@[k] as int],
{
    let n = items.len();
    let ghost given = items@;
    let mut items = items;
    let mut slots: Vec<Option<T>> = Vec::new();
    while items.len() > 0
        invariant
            items.len() + slots.len() == n,
            n == given.len(),
            items@ =~= given.subrange(0, items.len() as int),
            forall|k: int|
                0 <= k < slots.len() ==> #[trigger] slots@[k] == Some(given[n - 1 - k]),
        decreases items.len(),
    {
        let x = items.pop().unwrap();
        slots.push(Some(x));
    }
    let mut r: Vec<T> = Vec::new();
    let mut k: usize = 0;
    while k < n
        invariant
            n == given.len(),
            slots.len() == n,
            is_permutation(order@, n as nat),
            0 <= k <= n,
            r.len() == k,
            forall|q: int| 0 <= q < k ==> #[trigger] r@[q] == given[order@[q] as int],
            forall|s: int|
                0 <= s < n ==> (#[trigger] slots@[s] == Some(given[n - 1 - s]) || exists|q: int|
                    0 <= q < k && order@[q] == n - 1 - s),
        decreases n - k,
    {
        let idx = n - 1 - order[k];
        let mut taken: Option<T> = None;
        proof {
            assert(slots@[idx as int] == Some(given[order@[k as int] as int])) by {
                if slots@[idx as int] != Some(given[n - 1 - idx]) {
                    let q = choose|q: int| 0 <= q < k && order@[q] == n - 1 - idx;
                    assert(order@[q] == order@[k as int]);
                }
            }
        }
        slots.set_and_swap(idx, &mut taken);
        r.push(taken.unwrap());
        proof {
            assert forall|s: int|
                0 <= s < n implies (#[trigger] slots@[s] == Some(given[n - 1 - s]) || exists|q: int|
                    0 <= q < k + 1 && order@[q] == n - 1 - s) by {
                if s == idx {
                    assert(order@[k as int] == n - 1 - s);
                } else {
                    if slots@[s] != Some(given[n - 1 - s]) {
                        let q = choose|q: int| 0 <= q < k && order@[q] == n - 1 - s;
                        assert(0 <= q < k + 1 && order@[q] == n - 1 - s);
                    }
                }
            }
        }
        k = k + 1;
    }
    r
}

/// Compares two integer keys.
impl SortKey for i128 {
    open spec fn precedes(self, other: Self) -> bool {
        self < other
    }

    proof fn lemma_precedes_irreflexive(a: Self) {
    }

    proof fn lemma_precedes_transitive(a: Self, b: Self, c: Self) {
    }

    proof fn lemma_not_precedes_transitive(a: Self, b: Self, c: Self) {
    }

    fn less(&self, other: &Self) -> (r: bool) {
        *self < *other
    }
}

/// Whether text `a` comes before text `b` in the order of `str`'s `Ord`: character by
/// character, with a proper prefix first.
pub open spec fn text_precedes(a: Seq<char>, b: Seq<char>) -> bool
    decreases a.len(),
{
    if a.len() == 0 {
        b.len() > 0
    } else if b.len() == 0 {
        false
    } else if a[0] != b[0] {
        a[0] < b[0]
    } else {
        text_precedes(a.drop_first(), b.drop_first())
    }
}

proof fn lemma_text_irreflexive(a: Seq<char>)
    ensures
        !text_precedes(a, a),
    decreases a.len(),
{
    if a.len() > 0 {
        lemma_text_irreflexive(a.drop_first());
    }
}

proof fn lemma_text_transitive(a: Seq<char>, b: Seq<char>, c: Seq<char>)
    requires
        text_precedes(a, b),
        text_precedes(b, c),
    ensures
        text_precedes(a, c),
    decreases a.len(),
{
    if a.len() > 0 && b.len() > 0 && c.len() > 0 && a[0] == b[0] && b[0] == c[0] {
        lemma_text_transitive(a.drop_first(), b.drop_first(), c.drop_first());
    }
}

proof fn lemma_text_total(a: Seq<char>, b: Seq<char>)
    ensures
        text_precedes(a, b) || text_precedes(b, a) || a == b,
    decreases a.len(),
{
    if a.len() > 0 && b.len() > 0 && a[0] == b[0] {
        lemma_text_total(a.drop_first(), b.drop_first());
        if a.drop_first() == b.drop_first() {
            assert(a =~= seq![a[0]] + a.drop_first());
            assert(b =~= seq![b[0]] + b.drop_first());
        }
    } else if a.len() > 0 && b.len() > 0 {
    } else if a.len() == 0 && b.len() == 0 {
        assert(a =~= b);
    }
}

/// Compares two texts character by character.
impl SortKey for Vec<char> {
    open spec fn precedes(self, other: Self) -> bool {
        text_precedes(self@, other@)
    }

    proof fn lemma_precedes_irreflexive(a: Self) {
        lemma_text_irreflexive(a@);
    }

    proof fn lemma_precedes_transitive(a: Self, b: Self, c: Self) {
        lemma_text_transitive(a@, b@, c@);
    }

    proof fn lemma_not_precedes_transitive(a: Self, b: Self, c: Self) {
        lemma_text_total(a@, b@);
        lemma_text_total(b@, c@);
        if c@.len() >= 0 && text_precedes(c@, a@) {
            if a@ == b@ {
            } else if b@ == c@ {
            } else {
                lemma_text_transitive(c@, a@, b@);
            }
        }
    }

    fn less(&self, other: &Self) -> (r: bool) {
        let mut i: usize = 0;
        assert(self@.subrange(0, self.len() as int) =~= self@);
        assert(other@.subrange(0, other.len() as int) =~= other@);
        while i < self.len() && i < other.len()
            invariant
                0 <= i <= self.len(),
                i <= other.len(),
                forall|k: int| 0 <= k < i ==> self@[k] == other@[k],
                text_precedes(self@, other@) == text_precedes(
                    self@.subrange(i as int, self.len() as int),
                    other@.subrange(i as int, other.len() as int),
                ),
            decreases self.len() - i,
        {
            let x = self[i];
            let y = other[i];
            proof {
                let p = self@.subrange(i as int, self.len() as int);
                let q = other@.subrange(i as int, other.len() as int);
                assert(p.drop_first() =~= self@.subrange(i + 1, self.len() as int));
                assert(q.drop_first() =~= other@.subrange(i + 1, other.len() as int));
            }
            if x != y {
                return x < y;
            }
            i = i + 1;
        }
        i < other.len()
    }
}

} // verus!

verus! {

/// Whether `r` holds the items of `items` in the order `order` gives.
pub open spec fn placed<T>(items: Seq<T>, order: Seq<usize>, r: Seq<T>) -> bool {
    &&& r.len() == order.len()
    &&& forall|k: int| 0 <= k < r.len() ==> #[trigger] r[k] == items[order[k] as int]
}

/// Orders `items` stably by `keys` (one key per item), ascending or descending.
pub fn sort_by_keys<T, K: SortKey>(items: Vec<T>, keys: &Vec<K>, descending: bool) -> (r: Vec<T>)
    requires
        keys.len() == items.len(),
    ensures
        exists|order: Seq<usize>| is_stable_order(keys@, descending, order) && placed(items@, order, r@),
{
    let order = stable_order(keys, descending);
    let ghost items_view = items@;
    let r = apply_order(items, &order);
    assert(placed(items_view, order@, r@));
    r
}

/// Whether each text key is the given text.
pub open spec fn keys_are(keys: Seq<Vec<char>>, texts: Seq<Seq<char>>) -> bool {
    &&& keys.len() == texts.len()
    &&& forall|k: int| 0 <= k < keys.len() ==> #[trigger] keys[k]@ == texts[k]
}

/// Whether `r` is `items` ordered stably by the texts `texts` (one per item).
pub open spec fn sorted_by_texts<T>(items: Seq<T>, texts: Seq<Seq<char>>, descending: bool, r: Seq<T>) -> bool {
    exists|keys: Seq<Vec<char>>, order: Seq<usize>|
        keys_are(keys, texts) && is_stable_order(keys, descending, order) && placed(items, order, r)
}

/// Whether `r` is `items` ordered stably by the numbers `nums` (one per item).
pub open spec fn sorted_by_numbers<T>(items: Seq<T>, nums: Seq<i128>, descending: bool, r: Seq<T>) -> bool {
    exists|order: Seq<usize>| is_stable_order(nums, descending, order) && placed(items, order, r)
}

proof fn lemma_permutation_covers(order: Seq<usize>, n: nat, y: int)
    requires
        is_permutation(order, n),
        0 <= y < n,
    ensures
        exists|k: int| 0 <= k < order.len() && order[k] as int == y,
{
    broadcast use vstd::seq_lib::seq_to_set_is_finite;

    let ints = order.map_values(|v: usize| v as int);
    assert forall|i: int, j: int| 0 <= i < ints.len() && 0 <= j < ints.len() && i != j implies ints[i] != ints[j] by {
        if i < j {
            assert(order[i] != order[j]);
        } else {
            assert(order[j] != order[i]);
        }
    }
    ints.unique_seq_to_set();
    let s = ints.to_set();
    lemma_int_range(0, n as int);
    assert forall|x: int| s.contains(x) implies set_int_range(0, n as int).contains(x) by {
        let k = choose|k: int| 0 <= k < ints.len() && ints[k] == x;
        assert(order[k] < n);
    }
    lemma_subset_equality(s, set_int_range(0, n as int));
    assert(set_int_range(0, n as int).contains(y));
    assert(s.contains(y));
    let k = choose|k: int| 0 <= k < ints.len() && ints[k] == y;
    assert(order[k] as int == y);
}

/// A list has one stable ordering: two orderings of the same keys in the same direction
/// that are both stable are the same.
pub proof fn lemma_stable_order_unique<K: SortKey>(keys: Seq<K>, descending: bool, o1: Seq<usize>, o2: Seq<usize>)
    requires
        is_stable_order(keys, descending, o1),
        is_stable_order(keys, descending, o2),
    ensures
        o1 == o2,
{
    if exists|a: int| 0 <= a < o1.len() && o1[a] != o2[a] {
        let a = choose|a: int|
            0 <= a < o1.len() && o1[a] != o2[a] && forall|j: int| 0 <= j < a ==> #[trigger] o1[j] == o2[j];
        assert(exists|a: int| 0 <= a < o1.len() && o1[a] != o2[a] && forall|j: int| 0 <= j < a ==> #[trigger] o1[j] == o2[j]) by {
            lemma_first_difference(o1, o2);
        }
        let x = o1[a];
        let y = o2[a];
        lemma_permutation_covers(o1, keys.len(), y as int);
        lemma_permutation_covers(o2, keys.len(), x as int);
        let b = choose|b: int| 0 <= b < o1.len() && o1[b] as int == y as int;
        let c = choose|c: int| 0 <= c < o2.len() && o2[c] as int == x as int;
        if b < a {
            assert(o2[b] == y);
            assert(o2[b] != o2[a]);
        }
        if c < a {
            assert(o1[c] == x);
            assert(o1[c] != o1[a]);
        }
        assert(b > a);
        assert(c > a);
        assert(!comes_before(keys[y as int], keys[x as int], descending));
        assert(!comes_before(keys[x as int], keys[y as int], descending));
        assert(x < y);
        assert(y < x);
    }
    assert(o1 =~= o2);
}

proof fn lemma_first_difference(o1: Seq<usize>, o2: Seq<usize>)
    requires
        o1.len() == o2.len(),
        exists|a: int| 0 <= a < o1.len() && o1[a] != o2[a],
    ensures
        exists|a: int| 0 <= a < o1.len() && o1[a] != o2[a] && forall|j: int| 0 <= j < a ==> #[trigger] o1[j] == o2[j],
    decreases o1.len(),
{
    let a = choose|a: int| 0 <= a < o1.len() && o1[a] != o2[a];
    if exists|j: int| 0 <= j < a && o1[j] != o2[j] {
        let p1 = o1.take(a);
        let p2 = o2.take(a);
        assert(exists|j: int| 0 <= j < p1.len() && p1[j] != p2[j]) by {
            let j = choose|j: int| 0 <= j < a && o1[j] != o2[j];
            assert(p1[j] != p2[j]);
        }
        lemma_first_difference(p1, p2);
        let f = choose|f: int| 0 <= f < p1.len() && p1[f] != p2[f] && forall|j: int| 0 <= j < f ==> #[trigger] p1[j] == p2[j];
        assert(o1[f] != o2[f]);
        assert forall|j: int| 0 <= j < f implies #[trigger] o1[j] == o2[j] by {
            assert(p1[j] == p2[j]);
        }
    }
}

/// Sorting by numbers has one result: two lists that are both `items` sorted stably by
/// `nums` in the same direction are the same list.
pub proof fn lemma_sorted_by_numbers_unique<T>(items: Seq<T>, nums: Seq<i128>, descending: bool, r1: Seq<T>, r2: Seq<T>)
    requires
        sorted_by_numbers(items, nums, descending, r1),
        sorted_by_numbers(items, nums, descending, r2),
    ensures
        r1 == r2,
{
    let o1 = choose|order: Seq<usize>| is_stable_order(nums, descending, order) && placed(items, order, r1);
    let o2 = choose|order: Seq<usize>| is_stable_order(nums, descending, order) && placed(items, order, r2);
    lemma_stable_order_unique(nums, descending, o1, o2);
    assert(r1 =~= r2);
}

/// Sorting by texts has one result: two lists that are both `items` sorted stably by
/// `texts` in the same direction are the same list.
pub proof fn lemma_sorted_by_texts_unique<T>(items: Seq<T>, texts: Seq<Seq<char>>, descending: bool, r1: Seq<T>, r2: Seq<T>)
    requires
        sorted_by_texts(items, texts, descending, r1),
        sorted_by_texts(items, texts, descending, r2),
    ensures
        r1 == r2,
{
    let (k1, o1) = choose|keys: Seq<Vec<char>>, order: Seq<usize>|
        keys_are(keys, texts) && is_stable_order(keys, descending, order) && placed(items, order, r1);
    let (k2, o2) = choose|keys: Seq<Vec<char>>, order: Seq<usize>|
        keys_are(keys, texts) && is_stable_order(keys, descending, order) && placed(items, order, r2);
    assert(is_stable_order(k1, descending, o2)) by {
        assert forall|a: int, b: int| 0 <= a < k1.len() && 0 <= b < k1.len() implies comes_before(k1[a], k1[b], descending)
            == comes_before(k2[a], k2[b], descending) by {
            assert(k1[a]@ == texts[a] && k2[a]@ == texts[a]);
            assert(k1[b]@ == texts[b] && k2[b]@ == texts[b]);
        }
        assert forall|a: int, b: int|
            #![trigger o2[a], o2[b]]
            0 <= a < b < o2.len() implies !comes_before(k1[o2[b] as int], k1[o2[a] as int], descending) by {
            assert(o2[a] < k2.len() && o2[b] < k2.len());
        }
        assert forall|a: int, b: int|
            #![trigger o2[a], o2[b]]
            0 <= a < b < o2.len() && !comes_before(k1[o2[a] as int], k1[o2[b] as int], descending)
                && !comes_before(k1[o2[b] as int], k1[o2[a] as int], descending) implies o2[a] < o2[b] by {
            assert(o2[a] < k2.len() && o2[b] < k2.len());
        }
    }
    lemma_stable_order_unique(k1, descending, o1, o2);
    assert(r1 =~= r2);
}


/// Sorting by numbers keeps the items: the result holds the items of the list and nothing
/// else, as many as the list has, each number in the requested direction from the next.
pub proof fn lemma_sorted_by_numbers_items<T>(items: Seq<T>, nums: Seq<i128>, descending: bool, r: Seq<T>)
    requires
        sorted_by_numbers(items, nums, descending, r),
        nums.len() == items.len(),
    ensures
        r.len() == items.len(),
        forall|x: T| r.contains(x) <==> items.contains(x),
        exists|order: Seq<usize>|
            is_permutation(order, items.len()) && (forall|k: int|
                0 <= k < r.len() ==> #[trigger] r[k] == items[order[k] as int])
                && (forall|a: int, b: int|
                #![trigger order[a], order[b]]
                0 <= a < b < r.len() ==> if descending {
                    nums[order[a] as int] >= nums[order[b] as int]
                } else {
                    nums[order[a] as int] <= nums[order[b] as int]
                }),
{
    let order = choose|order: Seq<usize>| is_stable_order(nums, descending, order) && placed(items, order, r);
    assert forall|x: T| r.contains(x) implies items.contains(x) by {
        let k = choose|k: int| 0 <= k < r.len() && r[k] == x;
        assert(order[k] < items.len());
        assert(items[order[k] as int] == x);
    }
    assert forall|x: T| items.contains(x) implies r.contains(x) by {
        let y = choose|y: int| 0 <= y < items.len() && items[y] == x;
        lemma_permutation_covers(order, items.len(), y);
        let k = choose|k: int| 0 <= k < order.len() && order[k] as int == y;
        assert(r[k] == x);
    }
    assert forall|a: int, b: int|
        #![trigger order[a], order[b]]
        0 <= a < b < r.len() implies if descending {
            nums[order[a] as int] >= nums[order[b] as int]
        } else {
            nums[order[a] as int] <= nums[order[b] as int]
        } by {
        assert(!comes_before(nums[order[b] as int], nums[order[a] as int], descending));
    }
}


/// Sorting by texts keeps the items: the result holds the items of the list and nothing
/// else, as many as the list has.
pub proof fn lemma_sorted_by_texts_items<T>(items: Seq<T>, texts: Seq<Seq<char>>, descending: bool, r: Seq<T>)
    requires
        sorted_by_texts(items, texts, descending, r),
        texts.len() == items.len(),
    ensures
        r.len() == items.len(),
        forall|x: T| r.contains(x) <==> items.contains(x),
{
    let (keys, order) = choose|keys: Seq<Vec<char>>, order: Seq<usize>|
        keys_are(keys, texts) && is_stable_order(keys, descending, order) && placed(items, order, r);
    assert forall|x: T| r.contains(x) implies items.contains(x) by {
        let k = choose|k: int| 0 <= k < r.len() && r[k] == x;
        assert(order[k] < items.len());
        assert(items[order[k] as int] == x);
    }
    assert forall|x: T| items.contains(x) implies r.contains(x) by {
        let y = choose|y: int| 0 <= y < items.len() && items[y] == x;
        lemma_permutation_covers(order, items.len(), y);
        let k = choose|k: int| 0 <= k < order.len() && order[k] as int == y;
        assert(r[k] == x);
    }
}

} // verus!

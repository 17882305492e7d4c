//! Lists used as small sets, where a click adds a missing item or takes a present one out.

use vstd::prelude::*;

verus! {

/// Items that lists of choices hold, compared by value.
pub trait ListItem: Sized + Copy {
    fn same(&self, other: &Self) -> (b: bool)
        ensures
            b == (*self == *other),
    ;
}

impl ListItem for u128 {
    fn same(&self, other: &Self) -> (b: bool) {
        *self == *other
    }
}

/// `s` without any occurrence of `x`, the rest in order.
pub open spec fn without<T>(s: Seq<T>, x: T) -> Seq<T>
    decreases s.len(),
{
    if s.len() == 0 {
        s
    } else if s.last() == x {
        without(s.drop_last(), x)
    } else {
        without(s.drop_last(), x).push(s.last())
    }
}

/// Toggling `x` in a list: a present item is taken out everywhere it occurs, a missing one
/// is added at the end.
pub open spec fn toggled<T>(s: Seq<T>, x: T) -> Seq<T> {
    if s.contains(x) {
        without(s, x)
    } else {
        s.push(x)
    }
}

/// What is in `without(s, x)`: everything in `s` but `x`.
pub proof fn lemma_without_contains<T>(s: Seq<T>, x: T, y: T)
    ensures
        without(s, x).contains(y) <==> (s.contains(y) && y != x),
    decreases s.len(),
{
    if s.len() > 0 {
        lemma_without_contains(s.drop_last(), x, y);
        if s.contains(y) && y != x {
            let k = choose|k: int| 0 <= k < s.len() && s[k] == y;
            if k < s.len() - 1 {
                assert(s.drop_last()[k] == y);
            }
        }
        if s.drop_last().contains(y) {
            let k = choose|k: int| 0 <= k < s.drop_last().len() && s.drop_last()[k] == y;
            assert(s[k] == y);
        }
        if s.last() != x {
            let w = without(s.drop_last(), x);
            if w.push(s.last()).contains(y) && y != s.last() {
                let k = choose|k: int| 0 <= k < w.push(s.last()).len() && w.push(s.last())[k] == y;
                assert(w[k] == y);
            }
            if w.contains(y) {
                let k = choose|k: int| 0 <= k < w.len() && w[k] == y;
                assert(w.push(s.last())[k] == y);
            }
            assert(w.push(s.last())[w.len() as int] == s.last());
        }
    }
}

/// Toggling `x` flips whether the list holds `x` and leaves every other item's membership
/// as it was.
pub proof fn lemma_toggle_flips_membership<T>(s: Seq<T>, x: T, y: T)
    ensures
        toggled(s, x).contains(y) <==> (if y == x {
            !s.contains(x)
        } else {
            s.contains(y)
        }),
{
    lemma_without_contains(s, x, y);
    if !s.contains(x) {
        assert(s.push(x)[s.len() as int] == x);
        if s.push(x).contains(y) && y != x {
            let k = choose|k: int| 0 <= k < s.push(x).len() && s.push(x)[k] == y;
            assert(s[k] == y);
        }
        if s.contains(y) {
            let k = choose|k: int| 0 <= k < s.len() && s[k] == y;
            assert(s.push(x)[k] == y);
        }
    }
}

/// Toggling an item twice in a list that does not hold it gives the list back.
pub proof fn lemma_toggle_twice_restores<T>(s: Seq<T>, x: T)
    requires
        !s.contains(x),
    ensures
        toggled(toggled(s, x), x) == s,
{
    assert(s.push(x)[s.len() as int] == x);
    assert(s.push(x).drop_last() =~= s);
    lemma_without_absent(s, x);
}

/// Toggling an item twice gives back the same set of items, whether or not the list held
/// the item (a list that held it loses its repeats of it, and it moves to the end).
pub proof fn lemma_toggle_twice_same_set<T>(s: Seq<T>, x: T)
    ensures
        toggled(toggled(s, x), x).to_set() == s.to_set(),
{
    assert forall|y: T| #[trigger] toggled(toggled(s, x), x).to_set().contains(y) == s.to_set().contains(y) by {
        lemma_toggle_flips_membership(s, x, y);
        lemma_toggle_flips_membership(toggled(s, x), x, y);
        lemma_toggle_flips_membership(s, x, x);
    }
    assert(toggled(toggled(s, x), x).to_set() =~= s.to_set());
}

proof fn lemma_without_keeps_distinct<T>(s: Seq<T>, x: T)
    requires
        s.no_duplicates(),
    ensures
        without(s, x).no_duplicates(),
    decreases s.len(),
{
    if s.len() > 0 {
        let rest = s.drop_last();
        assert(rest.no_duplicates()) by {
            assert forall|i: int, j: int| 0 <= i < rest.len() && 0 <= j < rest.len() && i != j implies rest[i] != rest[j] by {
                assert(s[i] != s[j]);
            }
        }
        lemma_without_keeps_distinct(rest, x);
        if s.last() != x {
            let w = without(rest, x);
            lemma_without_contains(rest, x, s.last());
            if rest.contains(s.last()) {
                let k = choose|k: int| 0 <= k < rest.len() && rest[k] == s.last();
                assert(s[k] == s[s.len() - 1]);
            }
            assert forall|i: int, j: int| 0 <= i < w.push(s.last()).len() && 0 <= j < w.push(s.last()).len() && i != j
                implies w.push(s.last())[i] != w.push(s.last())[j] by {
                if i < w.len() && j < w.len() {
                } else if i < w.len() {
                    assert(w.contains(w[i]));
                } else if j < w.len() {
                    assert(w.contains(w[j]));
                }
            }
        }
    }
}

/// A list in which nothing occurs twice keeps that property when an item is toggled, as
/// the sets that such lists stand for do.
pub proof fn lemma_toggle_keeps_distinct<T>(s: Seq<T>, x: T)
    requires
        s.no_duplicates(),
    ensures
        toggled(s, x).no_duplicates(),
{
    if s.contains(x) {
        lemma_without_keeps_distinct(s, x);
    } else {
        assert forall|i: int, j: int| 0 <= i < s.push(x).len() && 0 <= j < s.push(x).len() && i != j implies s.push(x)[i]
            != s.push(x)[j] by {
            if i < s.len() && j < s.len() {
            } else if i < s.len() {
                assert(s.contains(s[i]));
            } else if j < s.len() {
                assert(s.contains(s[j]));
            }
        }
    }
}

proof fn lemma_without_absent<T>(s: Seq<T>, x: T)
    requires
        !s.contains(x),
    ensures
        without(s, x) == s,
    decreases s.len(),
{
    if s.len() > 0 {
        assert(s[s.len() - 1] == s.last());
        if s.drop_last().contains(x) {
            let k = choose|k: int| 0 <= k < s.drop_last().len() && s.drop_last()[k] == x;
            assert(s[k] == x);
        }
        lemma_without_absent(s.drop_last(), x);
        assert(s.drop_last().push(s.last()) =~= s);
    }
}

/// Toggles `x` in `list`: removes every occurrence when it is there, appends it otherwise.
pub fn toggle_in_list<T: ListItem>(list: &mut Vec<T>, x: T)
    ensures
        final(list)@ == toggled(old(list)@, x),
        old(list)@.no_duplicates() ==> final(list)@.no_duplicates(),
{
    proof {
        if old(list)@.no_duplicates() {
            lemma_toggle_keeps_distinct(old(list)@, x);
        }
    }
    let mut present = false;
    let mut i: usize = 0;
    while i < list.len()
        invariant
            0 <= i <= list.len(),
            present == exists|k: int| 0 <= k < i && list@[k] == x,
        decreases list.len() - i,
    {
        if list[i].same(&x) {
            present = true;
        }
        i = i + 1;
    }
    if !present {
        list.push(x);
        return;
    }
    let mut kept: Vec<T> = Vec::new();
    let mut j: usize = 0;
    assert(list@.take(0) =~= Seq::<T>::empty());
    while j < list.len()
        invariant
            0 <= j <= list.len(),
            kept@ == without(list@.take(j as int), x),
        decreases list.len() - j,
    {
        assert(list@.take(j + 1).drop_last() =~= list@.take(j as int));
        let y = list[j];
        if !y.same(&x) {
            kept.push(y);
        }
        j = j + 1;
    }
    assert(list@.take(list.len() as int) =~= list@);
    *list = kept;
}

/// Whether `list` holds `x`.
pub fn holds<T: ListItem>(list: &Vec<T>, x: &T) -> (b: bool)
    ensures
        b == list@.contains(*x),
{
    let mut i: usize = 0;
    while i < list.len()
        invariant
            0 <= i <= list.len(),
            forall|k: int| 0 <= k < i ==> list@[k] != *x,
        decreases list.len() - i,
    {
        if list[i].same(x) {
            return true;
        }
        i = i + 1;
    }
    false
}

/// A set with `x` taken out when it holds it, and put in otherwise.
pub open spec fn flipped<T>(s: Set<T>, x: T) -> Set<T> {
    if s.contains(x) {
        s.remove(x)
    } else {
        s.insert(x)
    }
}

/// Toggling flips whether the set holds `x` and leaves every other item as it was;
/// toggling twice gives the set back.
pub proof fn lemma_flipped<T>(s: Set<T>, x: T, y: T)
    ensures
        flipped(s, x).contains(x) == !s.contains(x),
        y != x ==> flipped(s, x).contains(y) == s.contains(y),
        flipped(flipped(s, x), x) == s,
{
    assert(flipped(flipped(s, x), x) =~= s);
}

proof fn lemma_toggled_is_flipped<T>(s: Seq<T>, x: T)
    ensures
        toggled(s, x).to_set() == flipped(s.to_set(), x),
{
    assert forall|y: T| #[trigger] toggled(s, x).to_set().contains(y) == flipped(s.to_set(), x).contains(y) by {
        lemma_toggle_flips_membership(s, x, y);
    }
    assert(toggled(s, x).to_set() =~= flipped(s.to_set(), x));
}

/// A small set, kept as a list in which nothing occurs twice (in the order items came in).
pub struct ItemSet<T: ListItem> {
    items: Vec<T>,
}

impl<T: ListItem> View for ItemSet<T> {
    type V = Set<T>;

    closed spec fn view(&self) -> Set<T> {
        self.items@.to_set()
    }
}

impl<T: ListItem> ItemSet<T> {
    #[verifier::type_invariant]
    spec fn inv(&self) -> bool {
        self.items@.no_duplicates()
    }

    /// The empty set.
    pub fn new() -> (r: ItemSet<T>)
        ensures
            r@ == Set::<T>::empty(),
    {
        let r = ItemSet { items: Vec::new() };
        assert(r@ =~= Set::<T>::empty());
        r
    }

    /// Whether the set holds `x`.
    pub fn contains(&self, x: &T) -> (b: bool)
        ensures
            b == self@.contains(*x),
    {
        holds(&self.items, x)
    }

    /// How many items the set holds.
    pub fn len(&self) -> (n: usize)
        ensures
            n == self@.len(),
    {
        proof {
            use_type_invariant(self);
            self.items@.unique_seq_to_set();
        }
        self.items.len()
    }

    /// Takes `x` out when the set holds it, and puts it in otherwise.
    pub fn toggle(&mut self, x: T)
        ensures
            final(self)@ == flipped(old(self)@, x),
    {
        proof {
            use_type_invariant(&*self);
            lemma_toggled_is_flipped(self.items@, x);
        }
        let mut items: Vec<T> = Vec::new();
        std::mem::swap(&mut items, &mut self.items);
        toggle_in_list(&mut items, x);
        *self = ItemSet { items };
    }

    /// Puts `x` in the set.
    pub fn insert(&mut self, x: T)
        ensures
            final(self)@ == old(self)@.insert(x),
    {
        proof {
            use_type_invariant(&*self);
        }
        if !holds(&self.items, &x) {
            self.toggle(x);
            proof {
                assert(!old(self)@.contains(x));
            }
        } else {
            proof {
                assert(old(self)@.insert(x) =~= old(self)@);
            }
        }
    }
}

} // verus!

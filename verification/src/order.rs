//! Sorting by text keys, equal keys keeping their order.

use vstd::prelude::*;

use crate::text;

verus! {

/// What an item is sorted by: `second` decides between items of equal `first`.
#[derive(Debug)]
pub struct SortKey {
    pub first: String,
    pub second: String,
}

impl View for SortKey {
    type V = (Seq<char>, Seq<char>);

    open spec fn view(&self) -> (Seq<char>, Seq<char>) {
        (self.first@, self.second@)
    }
}

pub open spec fn key_views(keys: Seq<SortKey>) -> Seq<(Seq<char>, Seq<char>)> {
    keys.map_values(|key: SortKey| key@)
}

/// Whether the key `a` sorts before the key `b`.
pub open spec fn key_less(a: (Seq<char>, Seq<char>), b: (Seq<char>, Seq<char>)) -> bool {
    text::text_less(a.0, b.0) || (a.0 == b.0 && text::text_less(a.1, b.1))
}

/// Whether item `i` stands before item `j` once sorted: by key, and in their
/// present order where the keys are equal.
pub open spec fn precedes(keys: Seq<(Seq<char>, Seq<char>)>, i: int, j: int) -> bool {
    key_less(keys[i], keys[j]) || (keys[i] == keys[j] && i < j)
}

/// Whether `order` lists the positions of `keys` as they stand once sorted.
pub open spec fn sorted_order(keys: Seq<(Seq<char>, Seq<char>)>, order: Seq<int>) -> bool {
    &&& order.len() == keys.len()
    &&& forall|i: int| 0 <= i < order.len() ==> 0 <= #[trigger] order[i] < keys.len()
    &&& forall|i: int, j: int|
        0 <= i < j < order.len() ==> precedes(keys, #[trigger] order[i], #[trigger] order[j])
}

/// The items at the positions `order` lists.
pub open spec fn rearranged<T>(items: Seq<T>, order: Seq<int>) -> Seq<T> {
    Seq::new(order.len(), |i: int| items[order[i]])
}

/// Whether `result` holds `items` sorted by `keys`, equal keys in their order.
pub open spec fn is_sorted<T>(
    result: Seq<T>,
    items: Seq<T>,
    keys: Seq<(Seq<char>, Seq<char>)>,
) -> bool {
    exists|order: Seq<int>| #[trigger] sorted_order(keys, order) && result == rearranged(items, order)
}

proof fn lemma_key_total(a: (Seq<char>, Seq<char>), b: (Seq<char>, Seq<char>))
    ensures
        key_less(a, b) || a == b || key_less(b, a),
        !(key_less(a, b) && key_less(b, a)),
        a == b ==> !key_less(a, b),
{
    text::lemma_less_total(a.0, b.0);
    text::lemma_less_total(a.1, b.1);
}

proof fn lemma_key_transitive(
    a: (Seq<char>, Seq<char>),
    b: (Seq<char>, Seq<char>),
    c: (Seq<char>, Seq<char>),
)
    requires
        key_less(a, b),
        key_less(b, c),
    ensures
        key_less(a, c),
{
    if text::text_less(a.0, b.0) && text::text_less(b.0, c.0) {
        text::lemma_less_transitive(a.0, b.0, c.0);
    } else if a.0 == b.0 && b.0 == c.0 {
        text::lemma_less_transitive(a.1, b.1, c.1);
    }
}

/// Whether `a` sorts before `b`.
fn less(a: &SortKey, b: &SortKey) -> (before: bool)
    ensures
        before == key_less(a@, b@),
{
    text::less(a.first.as_str(), b.first.as_str()) || (text::same(
        a.first.as_str(),
        b.first.as_str(),
    ) && text::less(a.second.as_str(), b.second.as_str()))
}

/// A sorting of positions no earlier than `from`.
spec fn partial_order(keys: Seq<(Seq<char>, Seq<char>)>, order: Seq<int>, from: int) -> bool {
    &&& order.len() == keys.len() - from
    &&& forall|i: int| 0 <= i < order.len() ==> from <= #[trigger] order[i] < keys.len()
    &&& forall|i: int, j: int|
        0 <= i < j < order.len() ==> precedes(keys, #[trigger] order[i], #[trigger] order[j])
}

proof fn lemma_insert(keys: Seq<(Seq<char>, Seq<char>)>, order: Seq<int>, from: int, at: int)
    requires
        0 < from <= keys.len(),
        partial_order(keys, order, from),
        0 <= at <= order.len(),
        forall|i: int| 0 <= i < at ==> key_less(keys[#[trigger] order[i]], keys[from - 1]),
        at < order.len() ==> !key_less(keys[order[at]], keys[from - 1]),
    ensures
        partial_order(keys, order.insert(at, from - 1), from - 1),
{
    let wider = order.insert(at, from - 1);
    let new = from - 1;
    assert forall|i: int| 0 <= i < wider.len() implies from - 1 <= #[trigger] wider[i] < keys.len() by {
        if i < at {
            assert(wider[i] == order[i]);
        } else if i > at {
            assert(wider[i] == order[i - 1]);
        }
    }
    assert forall|i: int, j: int| 0 <= i < j < wider.len() implies precedes(
        keys,
        #[trigger] wider[i],
        #[trigger] wider[j],
    ) by {
        if j < at {
            assert(precedes(keys, order[i], order[j]));
        } else if j == at {
            assert(wider[i] == order[i]);
        } else if i < at {
            assert(precedes(keys, order[i], order[j - 1]));
        } else if i == at {
            let other = order[j - 1];
            assert(wider[j] == other);
            assert(new < other);
            lemma_key_total(keys[order[at]], keys[new]);
            if at < j - 1 {
                assert(precedes(keys, order[at], other));
                if key_less(keys[new], keys[order[at]]) && key_less(keys[order[at]], keys[other]) {
                    lemma_key_transitive(keys[new], keys[order[at]], keys[other]);
                }
            }
        } else {
            assert(precedes(keys, order[i - 1], order[j - 1]));
        }
    }
}

/// Sorts `items` by `keys`.
pub fn sort_by_keys<T>(items: Vec<T>, keys: Vec<SortKey>) -> (result: Vec<T>)
    requires
        items@.len() == keys@.len(),
    ensures
        is_sorted(result@, items@, key_views(keys@)),
{
    let ghost all = items@;
    let ghost views = key_views(keys@);
    let ghost mut order = Seq::<int>::empty();
    let mut left = items;
    let mut left_keys = keys;
    let mut sorted: Vec<T> = Vec::new();
    let mut sorted_keys: Vec<SortKey> = Vec::new();
    assert(left@ =~= all.subrange(0, left@.len() as int));
    assert(key_views(left_keys@) =~= views.subrange(0, left@.len() as int));
    while left.len() > 0
        invariant
            left@.len() == left_keys@.len(),
            left@.len() <= all.len(),
            views.len() == all.len(),
            left@ == all.subrange(0, left@.len() as int),
            key_views(left_keys@) == views.subrange(0, left@.len() as int),
            partial_order(views, order, left@.len() as int),
            sorted@ =~= rearranged(all, order),
            order.len() == sorted_keys@.len(),
            key_views(sorted_keys@) =~= rearranged(views, order),
        decreases left@.len(),
    {
        let ghost n = left@.len() as int;
        assert(left@[n - 1] == all[n - 1]);
        assert(key_views(left_keys@)[n - 1] == left_keys@[n - 1]@);
        match (left.pop(), left_keys.pop()) {
            (Some(item), Some(key)) => {
                let mut at: usize = 0;
                while at < sorted_keys.len() && less(&sorted_keys[at], &key)
                    invariant
                        at <= sorted_keys@.len(),
                        order.len() == sorted_keys@.len(),
                        key_views(sorted_keys@) =~= rearranged(views, order),
                        key@ == views[n - 1],
                        forall|i: int| 0 <= i < at ==> key_less(views[#[trigger] order[i]], key@),
                    decreases sorted_keys@.len() - at,
                {
                    assert(key_views(sorted_keys@)[at as int] == sorted_keys@[at as int]@);
                    assert(rearranged(views, order)[at as int] == views[order[at as int]]);
                    at = at + 1;
                }
                let ghost before = order;
                let ghost before_keys = key_views(sorted_keys@);
                proof {
                    if at < sorted_keys@.len() {
                        assert(before_keys[at as int] == sorted_keys@[at as int]@);
                        assert(rearranged(views, order)[at as int] == views[order[at as int]]);
                    }
                    lemma_insert(views, order, n, at as int);
                    order = order.insert(at as int, n - 1);
                }
                sorted.insert(at, item);
                sorted_keys.insert(at, key);
                assert(key_views(sorted_keys@) =~= before_keys.insert(at as int, key@));
                assert(rearranged(views, order) =~= rearranged(views, before).insert(
                    at as int,
                    views[n - 1],
                ));
                assert(left@ =~= all.subrange(0, left@.len() as int));
                assert(key_views(left_keys@) =~= views.subrange(0, left@.len() as int));
            },
            _ => {},
        }
    }
    assert(sorted_order(views, order));
    sorted
}

/// No item stands before itself.
pub proof fn lemma_strict(keys: Seq<(Seq<char>, Seq<char>)>, i: int, j: int)
    requires
        precedes(keys, i, j),
    ensures
        i != j,
{
    lemma_key_total(keys[i], keys[j]);
}

proof fn lemma_order_covers(keys: Seq<(Seq<char>, Seq<char>)>, order: Seq<int>, position: int)
    requires
        sorted_order(keys, order),
        0 <= position < keys.len(),
    ensures
        order.contains(position),
{
    assert forall|i: int, j: int| 0 <= i < j < order.len() implies order[i] != order[j] by {
        assert(precedes(keys, order[i], order[j]));
        lemma_key_total(keys[order[i]], keys[order[j]]);
    }
    assert(order.no_duplicates());
    order.unique_seq_to_set();
    let all = vstd::set_lib::set_int_range(0, keys.len() as int);
    vstd::set_lib::lemma_int_range(0, keys.len() as int);
    assert(order.to_set().subset_of(all));
    vstd::set_lib::lemma_subset_equality(order.to_set(), all);
    assert(order.to_set().contains(position));
}

proof fn lemma_orders_agree(
    keys: Seq<(Seq<char>, Seq<char>)>,
    a: Seq<int>,
    b: Seq<int>,
    i: int,
)
    requires
        sorted_order(keys, a),
        sorted_order(keys, b),
        0 <= i < a.len(),
        forall|j: int| 0 <= j < i ==> a[j] == b[j],
    ensures
        !(a[i] != b[i] && precedes(keys, a[i], b[i])),
{
    lemma_order_covers(keys, b, a[i]);
    let p = choose|p: int| 0 <= p < b.len() && b[p] == a[i];
    if p < i {
        assert(precedes(keys, a[p], a[i]));
        lemma_key_total(keys[a[p]], keys[a[i]]);
    } else if p > i {
        assert(precedes(keys, b[i], b[p]));
        lemma_key_total(keys[a[i]], keys[b[i]]);
    }
}

/// Sorting leaves no choice: the keys alone decide where every item stands.
pub proof fn sorting_has_one_result<T>(
    a: Seq<T>,
    b: Seq<T>,
    items: Seq<T>,
    keys: Seq<(Seq<char>, Seq<char>)>,
)
    requires
        is_sorted(a, items, keys),
        is_sorted(b, items, keys),
    ensures
        a == b,
{
    let p = choose|order: Seq<int>| #[trigger]
        sorted_order(keys, order) && a == rearranged(items, order);
    let q = choose|order: Seq<int>| #[trigger]
        sorted_order(keys, order) && b == rearranged(items, order);
    lemma_prefixes_agree(keys, p, q, p.len() as int);
    assert(p =~= q);
}

proof fn lemma_prefixes_agree(
    keys: Seq<(Seq<char>, Seq<char>)>,
    a: Seq<int>,
    b: Seq<int>,
    n: int,
)
    requires
        sorted_order(keys, a),
        sorted_order(keys, b),
        0 <= n <= a.len(),
    ensures
        forall|j: int| 0 <= j < n ==> a[j] == b[j],
    decreases n,
{
    if n > 0 {
        lemma_prefixes_agree(keys, a, b, n - 1);
        lemma_orders_agree(keys, a, b, n - 1);
        lemma_orders_agree(keys, b, a, n - 1);
        lemma_key_total(keys[a[n - 1]], keys[b[n - 1]]);
    }
}

/// A sorted list holds every item once, and an item stands before another only
/// where its key is no greater: by the first part, then by the second, and in
/// their former order where both are equal.
pub proof fn sorted_items_are_in_order<T>(
    result: Seq<T>,
    items: Seq<T>,
    keys: Seq<(Seq<char>, Seq<char>)>,
    i: int,
    j: int,
) -> (places: (int, int))
    requires
        is_sorted(result, items, keys),
        items.len() == keys.len(),
        0 <= i < j < result.len(),
    ensures
        result.len() == items.len(),
        0 <= places.0 < items.len(),
        0 <= places.1 < items.len(),
        result[i] == items[places.0],
        result[j] == items[places.1],
        places.0 != places.1,
        !text::text_less(keys[places.1].0, keys[places.0].0),
        keys[places.0].0 == keys[places.1].0 ==> !text::text_less(
            keys[places.1].1,
            keys[places.0].1,
        ),
        keys[places.0] == keys[places.1] ==> places.0 < places.1,
{
    let order = choose|order: Seq<int>| #[trigger]
        sorted_order(keys, order) && result == rearranged(items, order);
    let a = order[i];
    let b = order[j];
    assert(precedes(keys, a, b));
    lemma_strict(keys, a, b);
    lemma_key_total(keys[a], keys[b]);
    text::lemma_less_total(keys[a].0, keys[b].0);
    text::lemma_less_total(keys[a].1, keys[b].1);
    (a, b)
}

/// No item is lost by sorting.
pub proof fn sorting_keeps_every_item<T>(
    result: Seq<T>,
    items: Seq<T>,
    keys: Seq<(Seq<char>, Seq<char>)>,
    k: int,
)
    requires
        is_sorted(result, items, keys),
        items.len() == keys.len(),
        0 <= k < items.len(),
    ensures
        result.contains(items[k]),
{
    let order = choose|order: Seq<int>| #[trigger]
        sorted_order(keys, order) && result == rearranged(items, order);
    lemma_order_covers(keys, order, k);
    let at = choose|at: int| 0 <= at < order.len() && order[at] == k;
    assert(result[at] == items[k]);
}

} // verus!

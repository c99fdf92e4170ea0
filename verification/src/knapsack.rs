//! The 0/1 knapsack in which every item is worth the same.
use vstd::prelude::*;

verus! {

/// The weight that an item counts with: a negative one weighs nothing.
pub open spec fn effective_weight(weight: i32) -> int {
    if weight < 0 {
        0
    } else {
        weight as int
    }
}

/// How many of the first `n` items a selection holds.
pub open spec fn selected_count(selection: Seq<bool>, n: int) -> nat
    decreases n,
{
    if n <= 0 {
        0
    } else {
        selected_count(selection, n - 1) + if selection[n - 1] {
            1nat
        } else {
            0nat
        }
    }
}

/// What the selected ones of the first `n` items weigh.
pub open spec fn selected_weight(selection: Seq<bool>, weights: Seq<i32>, n: int) -> int
    decreases n,
{
    if n <= 0 {
        0
    } else {
        selected_weight(selection, weights, n - 1) + if selection[n - 1] {
            effective_weight(weights[n - 1])
        } else {
            0
        }
    }
}

/// The selection made of the first `n` items for the given capacity. An item
/// is taken wherever that is no worse than leaving it out.
pub open spec fn best_selection(weights: Seq<i32>, n: int, capacity: int) -> Seq<bool>
    decreases n,
{
    if n <= 0 {
        Seq::new(weights.len(), |i: int| false)
    } else {
        let without = best_selection(weights, n - 1, capacity);
        let w = effective_weight(weights[n - 1]);
        if w > capacity {
            without
        } else {
            let with = best_selection(weights, n - 1, capacity - w);
            if selected_count(without, n - 1) <= selected_count(with, n - 1) + 1 {
                with.update(n - 1, true)
            } else {
                without
            }
        }
    }
}

proof fn lemma_prefix_only(a: Seq<bool>, b: Seq<bool>, weights: Seq<i32>, n: int)
    requires
        forall|i: int| 0 <= i < n ==> a[i] == b[i],
    ensures
        selected_count(a, n) == selected_count(b, n),
        selected_weight(a, weights, n) == selected_weight(b, weights, n),
    decreases n,
{
    if n > 0 {
        lemma_prefix_only(a, b, weights, n - 1);
    }
}

/// The selection fits the capacity, holds none of the later items, and no
/// selection that fits holds more items.
pub proof fn lemma_best_selection(weights: Seq<i32>, n: int, capacity: int)
    requires
        0 <= n <= weights.len(),
        0 <= capacity,
    ensures
        best_selection(weights, n, capacity).len() == weights.len(),
        forall|i: int|
            n <= i < weights.len() ==> !(#[trigger] best_selection(weights, n, capacity)[i]),
        selected_weight(best_selection(weights, n, capacity), weights, n) <= capacity,
        forall|other: Seq<bool>|
            #![trigger selected_count(other, n)]
            selected_weight(other, weights, n) <= capacity ==> selected_count(other, n)
                <= selected_count(best_selection(weights, n, capacity), n),
    decreases n,
{
    if n > 0 {
        let w = effective_weight(weights[n - 1]);
        let best = best_selection(weights, n, capacity);
        let without = best_selection(weights, n - 1, capacity);
        lemma_best_selection(weights, n - 1, capacity);
        if w <= capacity {
            let with = best_selection(weights, n - 1, capacity - w);
            lemma_best_selection(weights, n - 1, capacity - w);
            lemma_prefix_only(with, with.update(n - 1, true), weights, n - 1);
        }
        assert forall|other: Seq<bool>|
            #![trigger selected_count(other, n)]
            selected_weight(other, weights, n) <= capacity implies selected_count(other, n)
            <= selected_count(best, n) by {
            lemma_weight_nonnegative(other, weights, n - 1);
            assert(selected_count(other, n - 1) >= 0);
        }
    }
}

proof fn lemma_weight_nonnegative(selection: Seq<bool>, weights: Seq<i32>, n: int)
    ensures
        0 <= selected_weight(selection, weights, n),
    decreases n,
{
    if n > 0 {
        lemma_weight_nonnegative(selection, weights, n - 1);
    }
}

proof fn lemma_count_bound(selection: Seq<bool>, n: int)
    requires
        n >= 0,
    ensures
        selected_count(selection, n) <= n,
    decreases n,
{
    if n > 0 {
        lemma_count_bound(selection, n - 1);
    }
}

/// Selects as many items as fit into `max_weight`; among equally good
/// selections the one with the later items.
pub fn discrete_knapsack(max_weight: i32, item_weights: &[i32]) -> (selection: Vec<bool>)
    requires
        0 <= max_weight,
        0 < item_weights@.len(),
    ensures
        selection@ == best_selection(
            item_weights@,
            item_weights@.len() as int,
            max_weight as int,
        ),
        selected_weight(selection@, item_weights@, item_weights@.len() as int) <= max_weight,
        forall|other: Seq<bool>|
            #![trigger selected_count(other, item_weights@.len() as int)]
            selected_weight(other, item_weights@, item_weights@.len() as int) <= max_weight
                ==> selected_count(other, item_weights@.len() as int) <= selected_count(
                selection@,
                item_weights@.len() as int,
            ),
{
    let num_items: usize = item_weights.len();
    let cap: usize = max_weight as usize;
    let mut values: Vec<usize> = vec![0; cap + 1];
    let mut sets: Vec<Vec<bool>> = Vec::new();
    let mut row: usize = 0;
    while row <= cap
        invariant
            cap == max_weight,
            row <= cap + 1,
            num_items == item_weights@.len(),
            sets@.len() == row,
            forall|j: int|
                0 <= j < row ==> (#[trigger] sets@[j])@ == best_selection(item_weights@, 0, j),
        decreases cap + 1 - row,
    {
        let empty: Vec<bool> = vec![false; num_items];
        assert(empty@ =~= best_selection(item_weights@, 0, row as int));
        sets.push(empty);
        row = row + 1;
    }
    let mut i: usize = 0;
    while i < num_items
        invariant
            cap == max_weight,
            num_items == item_weights@.len(),
            i <= num_items,
            sets@.len() == cap + 1,
            values@.len() == cap + 1,
            forall|j: int|
                0 <= j <= cap ==> (#[trigger] sets@[j])@ == best_selection(
                    item_weights@,
                    i as int,
                    j,
                ),
            forall|j: int|
                0 <= j <= cap ==> #[trigger] values@[j] == selected_count(
                    best_selection(item_weights@, i as int, j),
                    i as int,
                ),
        decreases num_items - i,
    {
        let iw: usize = if item_weights[i] < 0 {
            0
        } else {
            item_weights[i] as usize
        };
        let ghost w = effective_weight(item_weights@[i as int]);
        let mut j: usize = cap + 1;
        while j > iw
            invariant
                cap == max_weight,
                num_items == item_weights@.len(),
                i < num_items,
                iw == w,
                w == effective_weight(item_weights@[i as int]),
                j <= cap + 1,
                sets@.len() == cap + 1,
                values@.len() == cap + 1,
                forall|k: int|
                    0 <= k <= cap ==> (#[trigger] sets@[k])@ == best_selection(
                        item_weights@,
                        if k < j {
                            i as int
                        } else {
                            i + 1
                        },
                        k,
                    ),
                forall|k: int|
                    0 <= k <= cap ==> #[trigger] values@[k] == selected_count(
                        best_selection(
                            item_weights@,
                            if k < j {
                                i as int
                            } else {
                                i + 1
                            },
                            k,
                        ),
                        if k < j {
                            i as int
                        } else {
                            i + 1
                        },
                    ),
            decreases j,
        {
            j = j - 1;
            let ow: usize = j - iw;
            proof {
                lemma_best_selection(item_weights@, i as int, j as int);
                lemma_best_selection(item_weights@, i as int, ow as int);
                lemma_count_bound(best_selection(item_weights@, i as int, ow as int), i as int);
                let with = best_selection(item_weights@, i as int, ow as int);
                lemma_prefix_only(with, with.update(i as int, true), item_weights@, i as int);
            }
            if values[j] <= values[ow] + 1 {
                let mut with: Vec<bool> = sets[ow].clone();
                assert(with@ =~= best_selection(item_weights@, i as int, ow as int));
                with.set(i, true);
                sets.set(j, with);
                let value: usize = values[ow] + 1;
                values.set(j, value);
            }
        }
        proof {
            assert forall|k: int| 0 <= k < j && k <= cap implies best_selection(
                item_weights@,
                i + 1,
                k,
            ) == best_selection(item_weights@, i as int, k) && selected_count(
                #[trigger] best_selection(item_weights@, i as int, k),
                i as int,
            ) == selected_count(best_selection(item_weights@, i + 1, k), i + 1) by {
                lemma_best_selection(item_weights@, i as int, k);
            }
        }
        i = i + 1;
    }
    proof {
        lemma_best_selection(item_weights@, num_items as int, cap as int);
    }
    sets.swap_remove(cap)
}

/// Items without weight are always selected.
pub proof fn lemma_weightless_selected(weights: Seq<i32>, n: int, capacity: int, i: int)
    requires
        0 <= i < n <= weights.len(),
        0 <= capacity,
        effective_weight(weights[i]) == 0,
    ensures
        best_selection(weights, n, capacity)[i],
    decreases n,
{
    lemma_best_selection(weights, n, capacity);
    lemma_best_selection(weights, n - 1, capacity);
    let w = effective_weight(weights[n - 1]);
    if w <= capacity {
        lemma_best_selection(weights, n - 1, capacity - w);
        if i < n - 1 {
            lemma_weightless_selected(weights, n - 1, capacity - w, i);
        }
    }
    if i < n - 1 {
        lemma_weightless_selected(weights, n - 1, capacity, i);
    }
}

} // verus!

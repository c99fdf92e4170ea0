//! Sort and group clauses, and the preparation of a GROUP BY list.
use vstd::prelude::*;

verus! {

/// One item of a sort or group list. `tle_sort_group_ref` names the target
/// list entry it stands for; `sortop` is 0 where the type cannot be sorted.
#[derive(Clone, Copy, Debug, PartialEq, Eq, Structural)]
pub struct SortGroupClause {
    pub tle_sort_group_ref: u32,
    pub eqop: u32,
    pub sortop: u32,
    pub reverse_sort: bool,
    pub nulls_first: bool,
    pub hashable: bool,
}

/// Where the first clause for the reference `r` stands, if there is one.
pub open spec fn first_ref(clauses: Seq<SortGroupClause>, r: u32, i: int) -> bool {
    &&& 0 <= i < clauses.len()
    &&& clauses[i].tle_sort_group_ref == r
    &&& forall|k: int| 0 <= k < i ==> (#[trigger] clauses[k]).tle_sort_group_ref != r
}

/// Some clause is for the reference `r`.
pub open spec fn has_ref(clauses: Seq<SortGroupClause>, r: u32) -> bool {
    exists|i: int| 0 <= i < clauses.len() && (#[trigger] clauses[i]).tle_sort_group_ref == r
}

/// The position of the first clause at or after `from` that equals `c`.
pub open spec fn position_of(clauses: Seq<SortGroupClause>, c: SortGroupClause, from: int) -> Option<
    int,
>
    decreases clauses.len() - from,
{
    if from < 0 || from >= clauses.len() {
        None
    } else if clauses[from] == c {
        Some(from)
    } else {
        position_of(clauses, c, from + 1)
    }
}

/// The position of the first clause at or after `from` for the reference `r`.
pub open spec fn position_of_ref(clauses: Seq<SortGroupClause>, r: u32, from: int) -> Option<int>
    decreases clauses.len() - from,
{
    if from < 0 || from >= clauses.len() {
        None
    } else if clauses[from].tle_sort_group_ref == r {
        Some(from)
    } else {
        position_of_ref(clauses, r, from + 1)
    }
}

/// The first clause for the reference `r`.
pub open spec fn clause_for(clauses: Seq<SortGroupClause>, r: u32) -> SortGroupClause {
    clauses[position_of_ref(clauses, r, 0)->0]
}

/// The positions of the group clauses that the sort clauses from `from` on
/// begin with: up to the first sort clause that is no group clause.
pub open spec fn sort_led(
    group: Seq<SortGroupClause>,
    sort: Seq<SortGroupClause>,
    from: int,
) -> Seq<int>
    decreases sort.len() - from,
{
    if from < 0 || from >= sort.len() {
        Seq::empty()
    } else {
        match position_of(group, sort[from], 0) {
            None => Seq::empty(),
            Some(i) => seq![i] + sort_led(group, sort, from + 1),
        }
    }
}

/// The positions below `n` that are not among `taken`, in order.
pub open spec fn left_over(taken: Seq<int>, n: int) -> Seq<int>
    decreases n,
{
    if n <= 0 {
        Seq::empty()
    } else if taken.contains(n - 1) {
        left_over(taken, n - 1)
    } else {
        left_over(taken, n - 1).push(n - 1)
    }
}

/// Every group clause that the sort clauses do not lead to can be sorted.
pub open spec fn left_over_sortable(group: Seq<SortGroupClause>, taken: Seq<int>) -> bool {
    forall|i: int|
        0 <= i < group.len() && !taken.contains(i) ==> (#[trigger] group[i]).sortop != 0
}

/// In which order the group clauses are processed: those that the sort clauses
/// begin with first, so that one sort can serve both, if the others can be
/// sorted at all.
pub open spec fn group_order(
    group: Seq<SortGroupClause>,
    sort: Seq<SortGroupClause>,
) -> Seq<int> {
    let led = sort_led(group, sort, 0);
    if led.len() == 0 || !left_over_sortable(group, led) {
        Seq::new(group.len(), |i: int| i)
    } else {
        led + left_over(led, group.len() as int)
    }
}

proof fn lemma_position_of(clauses: Seq<SortGroupClause>, c: SortGroupClause, from: int)
    requires
        0 <= from,
    ensures
        match position_of(clauses, c, from) {
            Some(i) => from <= i < clauses.len() && clauses[i] == c,
            None => true,
        },
    decreases clauses.len() - from,
{
    if from < clauses.len() && clauses[from] != c {
        lemma_position_of(clauses, c, from + 1);
    }
}

proof fn lemma_sort_led_bounds(
    group: Seq<SortGroupClause>,
    sort: Seq<SortGroupClause>,
    from: int,
)
    requires
        0 <= from,
    ensures
        forall|k: int|
            0 <= k < sort_led(group, sort, from).len() ==> {
                &&& 0 <= #[trigger] sort_led(group, sort, from)[k] < group.len()
                &&& group[sort_led(group, sort, from)[k]] == sort[from + k]
            },
        sort_led(group, sort, from).len() <= (if from < sort.len() {
            sort.len() - from
        } else {
            0
        }),
    decreases sort.len() - from,
{
    if from < sort.len() {
        lemma_position_of(group, sort[from], 0);
        lemma_sort_led_bounds(group, sort, from + 1);
        if let Some(i) = position_of(group, sort[from], 0) {
            let tail = sort_led(group, sort, from + 1);
            assert forall|k: int| 0 <= k < tail.len() + 1 implies 0
                <= #[trigger] sort_led(group, sort, from)[k] < group.len() && group[sort_led(
                group,
                sort,
                from,
            )[k]] == sort[from + k] by {
                if k > 0 {
                    assert(sort_led(group, sort, from)[k] == tail[k - 1]);
                }
            }
        }
    }
}

proof fn lemma_left_over(taken: Seq<int>, n: int)
    requires
        0 <= n,
    ensures
        left_over(taken, n).no_duplicates(),
        forall|i: int| #[trigger]
            left_over(taken, n).contains(i) <==> 0 <= i < n && !taken.contains(i),
    decreases n,
{
    if n > 0 {
        lemma_left_over(taken, n - 1);
        let before = left_over(taken, n - 1);
        if !taken.contains(n - 1) {
            let full = before.push(n - 1);
            assert forall|i: int| #[trigger] full.contains(i) <==> 0 <= i < n && !taken.contains(
                i,
            ) by {
                if full.contains(i) {
                    let k = choose|k: int| 0 <= k < full.len() && full[k] == i;
                    if k < before.len() {
                        assert(before[k] == i);
                        assert(before.contains(i));
                    }
                }
                if 0 <= i < n && !taken.contains(i) {
                    if i == n - 1 {
                        assert(full[before.len() as int] == i);
                    } else {
                        assert(before.contains(i));
                        let k = choose|k: int| 0 <= k < before.len() && before[k] == i;
                        assert(full[k] == i);
                    }
                }
            }
            assert(!before.contains(n - 1));
            assert(full.no_duplicates());
        }
    }
}

/// No group clause is lost or added by the reordering, and where no two sort
/// clauses lead to the same group clause it is a permutation.
pub proof fn lemma_group_order_is_permutation(
    group: Seq<SortGroupClause>,
    sort: Seq<SortGroupClause>,
)
    ensures
        forall|i: int| #[trigger] group_order(group, sort).contains(i) <==> 0 <= i < group.len(),
        sort_led(group, sort, 0).no_duplicates() ==> group_order(group, sort).no_duplicates(),
{
    let led = sort_led(group, sort, 0);
    let order = group_order(group, sort);
    if led.len() == 0 || !left_over_sortable(group, led) {
        assert forall|i: int| #[trigger] order.contains(i) <==> 0 <= i < group.len() by {
            if 0 <= i < group.len() {
                assert(order[i] == i);
            }
        }
    } else {
        let rest = left_over(led, group.len() as int);
        lemma_sort_led_bounds(group, sort, 0);
        lemma_left_over(led, group.len() as int);
        assert forall|i: int| #[trigger] order.contains(i) <==> 0 <= i < group.len() by {
            if order.contains(i) {
                let k = choose|k: int| 0 <= k < order.len() && order[k] == i;
                if k < led.len() {
                    assert(led[k] == i);
                } else {
                    assert(rest[k - led.len()] == i);
                    assert(rest.contains(i));
                }
            }
            if 0 <= i < group.len() {
                if led.contains(i) {
                    let k = choose|k: int| 0 <= k < led.len() && led[k] == i;
                    assert(order[k] == i);
                } else {
                    assert(rest.contains(i));
                    let k = choose|k: int| 0 <= k < rest.len() && rest[k] == i;
                    assert(order[led.len() + k] == i);
                }
            }
        }
        if led.no_duplicates() {
            assert forall|a: int, b: int| 0 <= a < b < order.len() implies order[a] != order[b] by {
                if a < led.len() && b >= led.len() {
                    assert(led.contains(led[a]));
                    assert(rest.contains(rest[b - led.len()]));
                }
            }
        }
    }
}

fn find_ref(clauses: &Vec<SortGroupClause>, r: u32) -> (pos: usize)
    requires
        has_ref(clauses@, r),
    ensures
        first_ref(clauses@, r, pos as int),
        position_of_ref(clauses@, r, 0) == Some(pos as int),
{
    let mut i: usize = 0;
    while i < clauses.len()
        invariant
            i <= clauses@.len(),
            has_ref(clauses@, r),
            forall|k: int| 0 <= k < i ==> (#[trigger] clauses@[k]).tle_sort_group_ref != r,
            position_of_ref(clauses@, r, 0) == position_of_ref(clauses@, r, i as int),
        decreases clauses@.len() - i,
    {
        if clauses[i].tle_sort_group_ref == r {
            return i;
        }
        i = i + 1;
    }
    assert(false);
    0
}

fn find_clause(clauses: &Vec<SortGroupClause>, c: SortGroupClause) -> (pos: Option<usize>)
    ensures
        match pos {
            Some(i) => position_of(clauses@, c, 0) == Some(i as int),
            None => position_of(clauses@, c, 0) is None,
        },
{
    let mut i: usize = 0;
    while i < clauses.len()
        invariant
            i <= clauses@.len(),
            position_of(clauses@, c, 0) == position_of(clauses@, c, i as int),
        decreases clauses@.len() - i,
    {
        if clauses[i] == c {
            return Some(i);
        }
        i = i + 1;
    }
    None
}

/// The positions held by an executable list.
pub open spec fn positions(v: Seq<usize>) -> Seq<int> {
    Seq::new(v.len(), |i: int| v[i] as int)
}

fn holds_position(v: &Vec<usize>, x: usize) -> (r: bool)
    ensures
        r == positions(v@).contains(x as int),
{
    let mut i: usize = 0;
    while i < v.len()
        invariant
            i <= v@.len(),
            forall|k: int| 0 <= k < i ==> v@[k] != x,
        decreases v@.len() - i,
    {
        if v[i] == x {
            assert(positions(v@)[i as int] == x);
            return true;
        }
        i = i + 1;
    }
    assert forall|k: int| 0 <= k < positions(v@).len() implies positions(v@)[k] != x by {
        assert(v@[k] != x);
    }
    false
}

/// Puts the GROUP BY list into the order in which it is processed. With
/// `force` the order is given: one clause for each of those references.
pub fn preprocess_groupclause(
    group_clause: &Vec<SortGroupClause>,
    sort_clause: &Vec<SortGroupClause>,
    force: Option<&Vec<u32>>,
) -> (result: Vec<SortGroupClause>)
    requires
        force matches Some(refs) ==> forall|i: int|
            0 <= i < refs@.len() ==> has_ref(group_clause@, #[trigger] refs@[i]),
    ensures
        match force {
            Some(refs) => result@ == refs@.map_values(|r: u32| clause_for(group_clause@, r)),
            None => result@ == group_order(group_clause@, sort_clause@).map_values(
                |i: int| group_clause@[i],
            ),
        },
{
    if let Some(refs) = force {
        let mut forced: Vec<SortGroupClause> = Vec::new();
        let mut i: usize = 0;
        while i < refs.len()
            invariant
                i <= refs@.len(),
                forced@.len() == i,
                forall|k: int|
                    0 <= k < refs@.len() ==> has_ref(group_clause@, #[trigger] refs@[k]),
                forall|k: int|
                    0 <= k < i ==> #[trigger] forced@[k] == clause_for(group_clause@, refs@[k]),
            decreases refs@.len() - i,
        {
            let pos: usize = find_ref(group_clause, refs[i]);
            forced.push(group_clause[pos]);
            i = i + 1;
        }
        assert(forced@ =~= refs@.map_values(|r: u32| clause_for(group_clause@, r)));
        return forced;
    }
    let n: usize = group_clause.len();
    let mut order: Vec<usize> = Vec::new();
    let ghost led = sort_led(group_clause@, sort_clause@, 0);
    let mut i: usize = 0;
    let mut matching = true;
    proof {
        assert(positions(order@) + sort_led(group_clause@, sort_clause@, 0) =~= led);
        lemma_sort_led_bounds(group_clause@, sort_clause@, 0);
    }
    while i < sort_clause.len() && matching
        invariant
            i <= sort_clause@.len(),
            order@.len() <= i,
            matching ==> led == positions(order@) + sort_led(group_clause@, sort_clause@, i as int),
            !matching ==> led == positions(order@),
        decreases
            sort_clause@.len() - i,
            (if matching {
                1int
            } else {
                0
            }),
    {
        match find_clause(group_clause, sort_clause[i]) {
            Some(pos) => {
                let ghost before = positions(order@);
                let ghost tail = sort_led(group_clause@, sort_clause@, i + 1);
                order.push(pos);
                i = i + 1;
                assert(positions(order@) =~= before.push(pos as int));
                assert(positions(order@) + tail =~= before + (seq![pos as int] + tail));
            },
            None => {
                assert(positions(order@) + Seq::<int>::empty() =~= positions(order@));
                matching = false;
            },
        }
    }
    proof {
        if matching {
            assert(positions(order@) + Seq::<int>::empty() =~= positions(order@));
        }
    }
    let mut keep = order.len() > 0;
    let mut k: usize = 0;
    let ghost chosen = order@;
    assert forall|i: int| 0 <= i < order@.len() implies #[trigger] order@[i] < n by {
        assert(led[i] == order@[i]);
    }
    while k < n && keep
        invariant
            n == group_clause@.len(),
            k <= n,
            led == positions(chosen),
            chosen.len() > 0 || !keep,
            forall|i: int| 0 <= i < led.len() ==> 0 <= #[trigger] led[i] < n,
            keep ==> positions(order@) == led + left_over(led, k as int),
            keep ==> forall|i: int|
                0 <= i < k && !led.contains(i) ==> (#[trigger] group_clause@[i]).sortop != 0,
            !keep ==> led.len() == 0 || !left_over_sortable(group_clause@, led),
            forall|i: int| 0 <= i < order@.len() ==> #[trigger] order@[i] < n,
        decreases
            n - k,
            (if keep {
                1int
            } else {
                0
            }),
    {
        let ghost so_far = positions(order@);
        let taken = holds_position(&order, k);
        proof {
            lemma_left_over(led, k as int);
            let rest = left_over(led, k as int);
            if so_far.contains(k as int) {
                let p = choose|p: int| 0 <= p < so_far.len() && so_far[p] == k;
                if p < led.len() {
                    assert(led[p] == k);
                } else {
                    assert(rest[p - led.len()] == k);
                    assert(rest.contains(k as int));
                }
            }
            if led.contains(k as int) {
                let p = choose|p: int| 0 <= p < led.len() && led[p] == k;
                assert(so_far[p] == k);
            }
        }
        if taken {
            k = k + 1;
        } else if group_clause[k].sortop == 0 {
            assert(!left_over_sortable(group_clause@, led)) by {
                assert(group_clause@[k as int].sortop == 0);
            }
            keep = false;
        } else {
            order.push(k);
            assert(positions(order@) =~= so_far.push(k as int));
            assert(so_far.push(k as int) =~= led + left_over(led, k as int).push(k as int));
            k = k + 1;
        }
    }
    if !keep {
        order = Vec::new();
        let mut m: usize = 0;
        while m < n
            invariant
                m <= n,
                order@.len() == m,
                forall|i: int| 0 <= i < m ==> #[trigger] order@[i] == i,
            decreases n - m,
        {
            order.push(m);
            m = m + 1;
        }
    }
    assert(positions(order@) =~= group_order(group_clause@, sort_clause@));
    let mut result: Vec<SortGroupClause> = Vec::new();
    let mut m: usize = 0;
    while m < order.len()
        invariant
            m <= order@.len(),
            n == group_clause@.len(),
            forall|i: int| 0 <= i < order@.len() ==> #[trigger] order@[i] < n,
            result@.len() == m,
            forall|i: int| 0 <= i < m ==> #[trigger] result@[i] == group_clause@[order@[i] as int],
        decreases order@.len() - m,
    {
        result.push(group_clause[order[m]]);
        m = m + 1;
    }
    assert(result@ =~= group_order(group_clause@, sort_clause@).map_values(
        |i: int| group_clause@[i],
    )) by {
        assert forall|i: int| 0 <= i < result@.len() implies result@[i]
            == group_clause@[group_order(group_clause@, sort_clause@)[i]] by {
            assert(positions(order@)[i] == order@[i]);
        }
    }
    result
}

} // verus!

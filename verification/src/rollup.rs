//! Splitting grouping sets into the fewest possible chains, each of which one
//! sorted pass can compute.
use vstd::prelude::*;
use vstd::multiset::Multiset;
use crate::matching::bipartite_match;

verus! {

/// The references that a list of grouping sets holds.
pub open spec fn sets_view(sets: Seq<Vec<u32>>) -> Seq<Seq<u32>> {
    Seq::new(sets.len(), |i: int| sets[i]@)
}

/// The references that a list of chains of grouping sets holds.
pub open spec fn chains_view(chains: Seq<Vec<Vec<u32>>>) -> Seq<Seq<Seq<u32>>> {
    Seq::new(chains.len(), |i: int| sets_view(chains[i]@))
}

/// Every reference of `a` is one of `b`.
pub open spec fn included(a: Seq<u32>, b: Seq<u32>) -> bool {
    forall|i: int| 0 <= i < a.len() ==> b.contains(#[trigger] a[i])
}

/// `a` and `b` hold the same references.
pub open spec fn same_set(a: Seq<u32>, b: Seq<u32>) -> bool {
    included(a, b) && included(b, a)
}

/// No set is followed by a shorter one.
pub open spec fn smallest_first(sets: Seq<Seq<u32>>) -> bool {
    forall|i: int, j: int|
        0 <= i <= j < sets.len() ==> (#[trigger] sets[i]).len() <= (#[trigger] sets[j]).len()
}

/// Each set of the chain is included in those after it.
pub open spec fn is_chain(chain: Seq<Seq<u32>>) -> bool {
    forall|i: int, j: int|
        0 <= i < j < chain.len() ==> included(#[trigger] chain[i], #[trigger] chain[j])
}

/// All sets of all chains, each as often as it occurs.
pub open spec fn all_sets(chains: Seq<Seq<Seq<u32>>>) -> Multiset<Seq<u32>>
    decreases chains.len(),
{
    if chains.len() == 0 {
        Multiset::empty()
    } else {
        all_sets(chains.drop_last()).add(chains.last().to_multiset())
    }
}

/// `number[i]` is the chain, one of `k`, that the `i`-th set is put into; of
/// two sets in one chain, one includes the other.
pub open spec fn is_chain_cover(sets: Seq<Seq<u32>>, number: Seq<int>, k: int) -> bool {
    &&& 0 <= k
    &&& number.len() == sets.len()
    &&& forall|i: int| 0 <= i < number.len() ==> 0 <= #[trigger] number[i] < k
    &&& forall|i: int, j: int|
        0 <= i < sets.len() && 0 <= j < sets.len() && #[trigger] number[i] == #[trigger] number[j]
            ==> included(sets[i], sets[j]) || included(sets[j], sets[i])
}

/// The two sets are the same, however their references are ordered.
pub open spec fn same_class(a: Seq<u32>, b: Seq<u32>) -> bool {
    a.len() == b.len() && same_set(a, b)
}

/// The set has occurred before.
pub open spec fn occurs_before(sets: Seq<Seq<u32>>, t: int) -> bool {
    exists|j: int| 0 <= j < t && same_class(#[trigger] sets[j], sets[t])
}

/// How many different sets there are among the first `n`, the empty set aside.
pub open spec fn distinct_sets(sets: Seq<Seq<u32>>, n: int) -> nat
    decreases n,
{
    if n <= 0 {
        0
    } else {
        distinct_sets(sets, n - 1) + if sets[n - 1].len() == 0 || occurs_before(sets, n - 1) {
            0nat
        } else {
            1nat
        }
    }
}

/// The number is a place.
pub open spec fn is_place(places: Seq<Seq<int>>, i: int) -> bool {
    exists|c: int| 0 <= c < places.len() && (#[trigger] places[c]).contains(i)
}

/// `places[c][a]` is where the `a`-th set of the chain `c` stood: every set is
/// in one place, the sets of a chain come in the order in which they were
/// given, and the chains in that of their first sets.
pub open spec fn are_places(
    sets: Seq<Seq<u32>>,
    chains: Seq<Seq<Seq<u32>>>,
    places: Seq<Seq<int>>,
) -> bool {
    &&& places.len() == chains.len()
    &&& forall|c: int| 0 <= c < chains.len() ==> (#[trigger] places[c]).len() == chains[c].len()
    &&& forall|c: int, a: int|
        #![trigger places[c][a]]
        0 <= c < chains.len() && 0 <= a < chains[c].len() ==> 0 <= places[c][a] < sets.len()
            && chains[c][a] == sets[places[c][a]]
    &&& forall|c: int, a: int, b: int|
        #![trigger places[c][a], places[c][b]]
        0 <= c < chains.len() && 0 <= a < b < chains[c].len() ==> places[c][a] < places[c][b]
    &&& forall|i: int| 0 <= i < sets.len() ==> #[trigger] is_place(places, i)
    &&& forall|c: int, d: int, i: int|
        #![trigger places[c].contains(i), places[d].contains(i)]
        0 <= c < places.len() && 0 <= d < places.len() && places[c].contains(i)
            && places[d].contains(i) ==> c == d
    &&& forall|c: int, d: int|
        #![trigger places[c], places[d]]
        0 <= c < d < chains.len() && chains[c].len() > 0 && chains[d].len() > 0 ==> places[c][0]
            < places[d][0]
}

/// The set is the first that is not empty.
pub open spec fn is_first_nonempty(sets: Seq<Seq<u32>>, i: int) -> bool {
    sets[i].len() > 0 && forall|j: int| 0 <= j < i ==> (#[trigger] sets[j]).len() == 0
}

/// The first set that is not empty is in the first chain, and sets that are the
/// same are in one chain.
pub open spec fn are_together(sets: Seq<Seq<u32>>, places: Seq<Seq<int>>) -> bool {
    &&& forall|i: int|
        0 <= i < sets.len() && #[trigger] is_first_nonempty(sets, i) ==> places[0].contains(i)
    &&& forall|c: int, i: int, j: int|
        #![trigger places[c].contains(i), places[c].contains(j)]
        0 <= c < places.len() && 0 <= i < sets.len() && 0 <= j < sets.len() && same_class(
            sets[i],
            sets[j],
        ) && places[c].contains(i) ==> places[c].contains(j)
}

/// `chains` splits the sets into chains of which only the first holds empty
/// sets, and which keep the order that they were given in; where no set repeats
/// a reference, no split has fewer chains.
pub open spec fn is_rollup_split(sets: Seq<Seq<u32>>, chains: Seq<Seq<Seq<u32>>>) -> bool {
    &&& all_sets(chains) == sets.to_multiset()
    &&& exists|places: Seq<Seq<int>>| #[trigger]
        are_places(sets, chains, places) && are_together(sets, places)
    &&& chains.len() >= 1
    &&& forall|c: int| 0 <= c < chains.len() ==> is_chain(#[trigger] chains[c])
    &&& forall|c: int| 0 <= c < chains.len() && sets.len() > 0 ==> (#[trigger] chains[c]).len() > 0
    &&& forall|c: int, a: int|
        #![trigger chains[c][a]]
        1 <= c < chains.len() && 0 <= a < chains[c].len() ==> chains[c][a].len() > 0
    &&& sets.len() > 0 && (forall|i: int|
        0 <= i < sets.len() ==> (#[trigger] sets[i]).no_duplicates()) ==> forall|
        number: Seq<int>,
        k: int,
    | #[trigger]
        is_chain_cover(sets, number, k) ==> chains.len() <= k
}

proof fn lemma_all_sets_push(chains: Seq<Seq<Seq<u32>>>, c: int, x: Seq<u32>)
    requires
        0 <= c < chains.len(),
    ensures
        all_sets(chains.update(c, chains[c].push(x))) == all_sets(chains).insert(x),
    decreases chains.len(),
{
    broadcast use vstd::seq_lib::group_to_multiset_ensures;

    let after = chains.update(c, chains[c].push(x));
    if c == chains.len() - 1 {
        assert(after.drop_last() =~= chains.drop_last());
    } else {
        lemma_all_sets_push(chains.drop_last(), c, x);
        assert(after.drop_last() =~= chains.drop_last().update(c, chains[c].push(x)));
        assert(after.last() == chains.last());
    }
    assert(all_sets(after) =~= all_sets(chains).insert(x));
}

proof fn lemma_all_sets_holds(chains: Seq<Seq<Seq<u32>>>, c: int, a: int)
    requires
        0 <= c < chains.len(),
        0 <= a < chains[c].len(),
    ensures
        all_sets(chains).count(chains[c][a]) > 0,
    decreases chains.len(),
{
    broadcast use vstd::seq_lib::group_to_multiset_ensures;

    if c == chains.len() - 1 {
        assert(chains.last().contains(chains[c][a]));
    } else {
        lemma_all_sets_holds(chains.drop_last(), c, a);
    }
}

/// What the chains hold are the sets that were split.
pub proof fn lemma_split_holds_sets(
    sets: Seq<Seq<u32>>,
    chains: Seq<Seq<Seq<u32>>>,
    c: int,
    a: int,
)
    requires
        is_rollup_split(sets, chains),
        0 <= c < chains.len(),
        0 <= a < chains[c].len(),
    ensures
        sets.contains(chains[c][a]),
{
    broadcast use vstd::seq_lib::group_to_multiset_ensures;

    lemma_all_sets_holds(chains, c, a);
}

proof fn lemma_all_sets_append(chains: Seq<Seq<Seq<u32>>>, chain: Seq<Seq<u32>>)
    ensures
        all_sets(chains.push(chain)) == all_sets(chains).add(chain.to_multiset()),
{
    assert(chains.push(chain).drop_last() =~= chains);
}

proof fn lemma_included_transitive(a: Seq<u32>, b: Seq<u32>, c: Seq<u32>)
    requires
        included(a, b),
        included(b, c),
    ensures
        included(a, c),
{
    assert forall|i: int| 0 <= i < a.len() implies c.contains(#[trigger] a[i]) by {
        assert(b.contains(a[i]));
        let k = choose|k: int| 0 <= k < b.len() && b[k] == a[i];
        assert(c.contains(b[k]));
    }
}

proof fn lemma_same_length_included(a: Seq<u32>, b: Seq<u32>)
    requires
        a.no_duplicates(),
        b.no_duplicates(),
        included(a, b),
        a.len() >= b.len(),
    ensures
        included(b, a),
        a.len() == b.len(),
{
    a.unique_seq_to_set();
    b.unique_seq_to_set();
    assert(a.to_set().subset_of(b.to_set())) by {
        assert forall|x: u32| a.to_set().contains(x) implies b.to_set().contains(x) by {
            let i = choose|i: int| 0 <= i < a.len() && a[i] == x;
            assert(b.contains(a[i]));
        }
    }
    vstd::set_lib::lemma_len_subset(a.to_set(), b.to_set());
    vstd::set_lib::lemma_subset_equality(a.to_set(), b.to_set());
    assert forall|i: int| 0 <= i < b.len() implies a.contains(#[trigger] b[i]) by {
        assert(b.to_set().contains(b[i]));
        assert(a.to_set().contains(b[i]));
    }
}

fn is_included(a: &Vec<u32>, b: &Vec<u32>) -> (r: bool)
    ensures
        r == included(a@, b@),
{
    let mut i: usize = 0;
    while i < a.len()
        invariant
            i <= a@.len(),
            forall|k: int| 0 <= k < i ==> b@.contains(#[trigger] a@[k]),
        decreases a@.len() - i,
    {
        if !holds_ref(b, a[i]) {
            return false;
        }
        i = i + 1;
    }
    true
}

/// Is `x` among the references?
pub fn holds_ref(refs: &Vec<u32>, x: u32) -> (r: bool)
    ensures
        r == refs@.contains(x),
{
    let mut i: usize = 0;
    while i < refs.len()
        invariant
            i <= refs@.len(),
            forall|k: int| 0 <= k < i ==> refs@[k] != x,
        decreases refs@.len() - i,
    {
        if refs[i] == x {
            return true;
        }
        i = i + 1;
    }
    false
}

/// A second list of the same references.
pub fn copy_refs(refs: &Vec<u32>) -> (r: Vec<u32>)
    ensures
        r@ == refs@,
{
    let mut r: Vec<u32> = Vec::new();
    let mut i: usize = 0;
    while i < refs.len()
        invariant
            i <= refs@.len(),
            r@ == refs@.take(i as int),
        decreases refs@.len() - i,
    {
        r.push(refs[i]);
        assert(r@ =~= refs@.take(i + 1));
        i = i + 1;
    }
    assert(refs@.take(i as int) =~= refs@);
    r
}

/// The distinct sets, numbered from 1: `firsts[k]` is where the `k`-th of them
/// stands first, and `class_of[t]` is the number of the set at `t`, 0 where that
/// is empty.
spec fn are_classes(
    sets: Seq<Seq<u32>>,
    first: int,
    upto: int,
    firsts: Seq<usize>,
    class_of: Seq<usize>,
) -> bool {
    &&& firsts.len() == 1 + distinct_sets(sets, upto)
    &&& class_of.len() == upto
    &&& forall|t: int| 0 <= t < first ==> #[trigger] class_of[t] == 0
    &&& forall|t: int|
        first <= t < upto ==> {
            &&& 1 <= #[trigger] class_of[t] < firsts.len()
            &&& firsts[class_of[t] as int] <= t
            &&& same_class(sets[t], sets[firsts[class_of[t] as int] as int])
        }
    &&& forall|k: int|
        1 <= k < firsts.len() ==> first <= #[trigger] firsts[k] < upto && class_of[firsts[k] as int]
            == k
    &&& forall|k: int, l: int|
        #![trigger firsts[k], firsts[l]]
        1 <= k < l < firsts.len() ==> firsts[k] < firsts[l] && !same_class(
            sets[firsts[k] as int],
            sets[firsts[l] as int],
        )
}

/// The first set of each class.
spec fn reps(sets: Seq<Seq<u32>>, firsts: Seq<usize>) -> Seq<Seq<u32>> {
    Seq::new(firsts.len(), |k: int| sets[firsts[k] as int])
}

/// The edges lead from each class to the shorter ones that it includes.
spec fn are_inclusions(reps: Seq<Seq<u32>>, adjacency: Seq<Vec<i16>>) -> bool {
    &&& adjacency.len() == reps.len()
    &&& forall|u: int, v: i16|
        #![trigger adjacency[u]@.contains(v)]
        1 <= u < reps.len() ==> (adjacency[u]@.contains(v) <==> {
            &&& 1 <= v < u
            &&& reps[v as int].len() < reps[u].len()
            &&& included(reps[v as int], reps[u])
        })
}

proof fn lemma_same_class_transitive(a: Seq<u32>, b: Seq<u32>, c: Seq<u32>)
    requires
        same_class(a, b),
        same_class(b, c),
    ensures
        same_class(a, c),
{
    lemma_included_transitive(a, b, c);
    lemma_included_transitive(c, b, a);
}

proof fn lemma_distinct_grows(sets: Seq<Seq<u32>>, m: int, n: int)
    requires
        m <= n,
    ensures
        distinct_sets(sets, m) <= distinct_sets(sets, n),
    decreases n - m,
{
    if m < n {
        lemma_distinct_grows(sets, m, n - 1);
    }
}

proof fn lemma_no_distinct(sets: Seq<Seq<u32>>, n: int)
    requires
        forall|i: int| 0 <= i < n ==> (#[trigger] sets[i]).len() == 0,
    ensures
        distinct_sets(sets, n) == 0,
    decreases n,
{
    if n > 0 {
        lemma_no_distinct(sets, n - 1);
    }
}

proof fn lemma_member_added(
    sets: Seq<Seq<u32>>,
    first: int,
    t: int,
    firsts: Seq<usize>,
    class_of: Seq<usize>,
    k: usize,
)
    requires
        0 <= first <= t < sets.len(),
        are_classes(sets, first, t, firsts, class_of),
        1 <= k < firsts.len(),
        same_class(sets[t], sets[firsts[k as int] as int]),
    ensures
        are_classes(sets, first, t + 1, firsts, class_of.push(k)),
{
    let f = firsts[k as int] as int;
    assert(first <= f < t);
    assert(same_class(sets[f], sets[t]));
    assert(occurs_before(sets, t));
}

proof fn lemma_class_added(
    sets: Seq<Seq<u32>>,
    first: int,
    t: int,
    firsts: Seq<usize>,
    class_of: Seq<usize>,
)
    requires
        0 <= first <= t < sets.len() <= usize::MAX,
        are_classes(sets, first, t, firsts, class_of),
        forall|i: int| 0 <= i < first ==> (#[trigger] sets[i]).len() == 0,
        sets[t].len() > 0,
        firsts.len() <= usize::MAX,
        forall|k: int|
            1 <= k < firsts.len() ==> !same_class(sets[#[trigger] firsts[k] as int], sets[t]),
    ensures
        are_classes(
            sets,
            first,
            t + 1,
            firsts.push(t as usize),
            class_of.push(firsts.len() as usize),
        ),
{
    if occurs_before(sets, t) {
        let j = choose|j: int| 0 <= j < t && same_class(#[trigger] sets[j], sets[t]);
        assert(j >= first);
        let k = class_of[j] as int;
        let f = firsts[k] as int;
        lemma_same_class_transitive(sets[f], sets[j], sets[t]);
    }
    let after = firsts.push(t as usize);
    let classes = class_of.push(firsts.len() as usize);
    assert forall|k: int| 1 <= k < after.len() implies first <= #[trigger] after[k] < t + 1
        && classes[after[k] as int] == k by {
        if k < firsts.len() {
            assert(after[k] == firsts[k]);
        }
    }
    assert forall|k: int, l: int|
        #![trigger after[k], after[l]]
        1 <= k < l < after.len() implies after[k] < after[l] && !same_class(
        sets[after[k] as int],
        sets[after[l] as int],
    ) by {
        assert(after[k] == firsts[k]);
        if l < firsts.len() {
            assert(after[l] == firsts[l]);
        }
    }
    assert forall|i: int| first <= i < t + 1 implies {
        &&& 1 <= #[trigger] classes[i] < after.len()
        &&& after[classes[i] as int] <= i
        &&& same_class(sets[i], sets[after[classes[i] as int] as int])
    } by {
        if i < t {
            assert(classes[i] == class_of[i]);
        }
    }
}

/// Numbers the distinct sets from `num_empty` on, and finds which of them
/// include which.
fn number_classes(sets: &Vec<Vec<u32>>, num_empty: usize) -> (r: (
    Vec<usize>,
    Vec<usize>,
    Vec<Vec<i16>>,
))
    requires
        distinct_sets(sets_view(sets@), sets@.len() as int) < i16::MAX,
        num_empty <= sets@.len(),
        smallest_first(sets_view(sets@)),
        forall|i: int| 0 <= i < num_empty ==> (#[trigger] sets@[i])@.len() == 0,
        forall|i: int| num_empty <= i < sets@.len() ==> (#[trigger] sets@[i])@.len() > 0,
    ensures
        are_classes(sets_view(sets@), num_empty as int, sets@.len() as int, r.0@, r.1@),
        are_inclusions(reps(sets_view(sets@), r.0@), r.2@),
{
    let ghost all = sets_view(sets@);
    let mut firsts: Vec<usize> = Vec::new();
    let mut adjacency: Vec<Vec<i16>> = Vec::new();
    firsts.push(0);
    let no_edges: Vec<i16> = Vec::new();
    adjacency.push(no_edges);
    let mut class_of: Vec<usize> = vec![0; num_empty];
    let mut j_size: usize = 0;
    let mut j: usize = 0;
    let mut t: usize = num_empty;
    proof {
        assert forall|i: int| 0 <= i < num_empty implies (#[trigger] all[i]).len() == 0 by {
            assert(all[i] == sets@[i]@);
        }
        lemma_no_distinct(all, num_empty as int);
    }
    while t < sets.len()
        invariant
            all == sets_view(sets@),
            distinct_sets(all, sets@.len() as int) < i16::MAX,
            num_empty <= t <= sets@.len(),
            smallest_first(all),
            forall|i: int| 0 <= i < num_empty ==> (#[trigger] all[i]).len() == 0,
            forall|i: int| num_empty <= i < sets@.len() ==> (#[trigger] sets@[i])@.len() > 0,
            are_classes(all, num_empty as int, t as int, firsts@, class_of@),
            are_inclusions(reps(all, firsts@), adjacency@),
            t < sets@.len() ==> j_size <= sets@[t as int]@.len(),
            j <= firsts@.len(),
            j_size > 0 ==> j >= 1,
            j_size == 0 ==> firsts@.len() == 1,
            forall|k: int| 1 <= k < j ==> all[#[trigger] firsts@[k] as int].len() < j_size,
            forall|k: int|
                j <= k < firsts@.len() && 1 <= k ==> all[#[trigger] firsts@[k] as int].len()
                    == j_size,
        decreases sets@.len() - t,
    {
        let ghost cand = all[t as int];
        let ghost before = reps(all, firsts@);
        assert(cand == sets@[t as int]@);
        proof {
            lemma_distinct_grows(all, t as int, sets@.len() as int);
        }
        let mut dup_of: usize = 0;
        if j_size == sets[t].len() {
            let mut k: usize = j;
            while k < firsts.len() && dup_of == 0
                invariant
                    1 <= j <= k <= firsts@.len(),
                    j_size == cand.len(),
                    t < sets@.len(),
                    all == sets_view(sets@),
                    cand == sets@[t as int]@,
                    are_classes(all, num_empty as int, t as int, firsts@, class_of@),
                    forall|m: int|
                        j <= m < firsts@.len() && 1 <= m ==> all[#[trigger] firsts@[m] as int].len()
                            == j_size,
                    dup_of < firsts@.len(),
                    dup_of == 0 ==> forall|m: int|
                        j <= m < k ==> !same_class(all[#[trigger] firsts@[m] as int], cand),
                    dup_of > 0 ==> same_class(all[firsts@[dup_of as int] as int], cand),
                decreases firsts@.len() - k + (if dup_of == 0 { 1int } else { 0 }),
            {
                let f: usize = firsts[k];
                assert(all[f as int] == sets@[f as int]@);
                let same = is_included(&sets[f], &sets[t]) && is_included(&sets[t], &sets[f]);
                if same {
                    dup_of = k;
                } else {
                    k = k + 1;
                }
            }
        } else if j_size < sets[t].len() {
            j_size = sets[t].len();
            j = firsts.len();
        }
        if dup_of > 0 {
            proof {
                lemma_member_added(all, num_empty as int, t as int, firsts@, class_of@, dup_of);
            }
            class_of.push(dup_of);
        } else {
            let mut adj: Vec<i16> = Vec::new();
            let mut k: usize = 1;
            while k < j
                invariant
                    1 <= k,
                    k <= j || j == 0,
                    j <= firsts@.len() <= i16::MAX,
                    t < sets@.len(),
                    all == sets_view(sets@),
                    cand == sets@[t as int]@,
                    before == reps(all, firsts@),
                    are_classes(all, num_empty as int, t as int, firsts@, class_of@),
                    forall|v: i16| #[trigger]
                        adj@.contains(v) <==> 1 <= v < k && included(before[v as int], cand),
                decreases j - k,
            {
                let ghost adj0 = adj@;
                let f: usize = firsts[k];
                assert(all[f as int] == sets@[f as int]@);
                assert(before[k as int] == all[f as int]);
                if is_included(&sets[f], &sets[t]) {
                    adj.push(k as i16);
                    proof {
                        assert forall|v: i16| #[trigger] adj@.contains(v) <==> 1 <= v < k + 1
                            && included(before[v as int], cand) by {
                            if adj@.contains(v) && v != k {
                                let p = choose|p: int| 0 <= p < adj@.len() && adj@[p] == v;
                                assert(adj0[p] == v);
                                assert(adj0.contains(v));
                            }
                            if adj0.contains(v) {
                                let p = choose|p: int| 0 <= p < adj0.len() && adj0[p] == v;
                                assert(adj@[p] == v);
                            }
                            assert(adj@[adj0.len() as int] == k as i16);
                        }
                    }
                }
                k = k + 1;
            }
            proof {
                assert forall|m: int| 1 <= m < firsts@.len() implies !same_class(
                    all[#[trigger] firsts@[m] as int],
                    cand,
                ) by {
                    if m < j {
                    } else {
                    }
                }
                lemma_class_added(all, num_empty as int, t as int, firsts@, class_of@);
            }
            let number: usize = firsts.len();
            class_of.push(number);
            firsts.push(t);
            let ghost adj_before = adjacency@;
            adjacency.push(adj);
            proof {
                let after = reps(all, firsts@);
                assert(after =~= before.push(cand));
                assert forall|u: int, v: i16|
                    #![trigger adjacency@[u]@.contains(v)]
                    1 <= u < after.len() implies (adjacency@[u]@.contains(v) <==> {
                    &&& 1 <= v < u
                    &&& after[v as int].len() < after[u].len()
                    &&& included(after[v as int], after[u])
                }) by {
                    if u < before.len() {
                        assert(adjacency@[u] == adj_before[u]);
                        assert(adj_before[u]@.contains(v) <==> {
                            &&& 1 <= v < u
                            &&& before[v as int].len() < before[u].len()
                            &&& included(before[v as int], before[u])
                        });
                    } else {
                        assert(adjacency@[u] == adj);
                        if 1 <= v < u {
                            assert(after[v as int] == before[v as int]);
                            assert(before[v as int] == all[firsts@[v as int] as int]);
                        }
                    }
                }
            }
        }
        proof {
            if t + 1 < sets@.len() {
                assert(all[t as int].len() <= all[t + 1].len());
            }
        }
        t = t + 1;
    }
    (firsts, class_of, adjacency)
}

/// Some class up to `n` has the number `c`.
spec fn is_numbered(number: Seq<usize>, n: int, c: usize) -> bool {
    exists|i: int| 1 <= i <= n && #[trigger] number[i] == c
}

/// `number[i]` continues the chain of the class that `i` is matched with, and
/// starts one of its own where there is none.
spec fn are_chain_numbers(pair_uv: Seq<i16>, number: Seq<usize>, n: int, count: int) -> bool {
    &&& forall|i: int| 1 <= i <= n ==> 1 <= #[trigger] number[i] <= count
    &&& forall|c: usize| 1 <= c <= count ==> #[trigger] is_numbered(number, n, c)
    &&& forall|i: int, c: usize|
        1 <= i <= n && 1 <= c < number[i] ==> #[trigger] is_numbered(number, i, c)
    &&& forall|i: int|
        1 <= i <= n && #[trigger] pair_uv[i] != 0 ==> number[i] == number[pair_uv[i] as int]
    &&& forall|y: int, i: int|
        1 <= y < i <= n && #[trigger] number[y] == #[trigger] number[i] ==> y <= pair_uv[i]
}

/// The classes up to `n` that start a chain.
spec fn chain_starts(pair_uv: Seq<i16>, n: int) -> Set<int> {
    Set::new(|x: int| 1 <= x <= n && pair_uv[x] == 0)
}

proof fn lemma_chain_starts(pair_uv: Seq<i16>, n: int)
    requires
        0 <= n,
    ensures
        chain_starts(pair_uv, n).finite(),
        n > 0 ==> chain_starts(pair_uv, n).len() == chain_starts(pair_uv, n - 1).len() + (
        if pair_uv[n] == 0 {
            1int
        } else {
            0
        }),
        n == 0 ==> chain_starts(pair_uv, n).len() == 0,
{
    vstd::set_lib::lemma_int_range(1, n + 1);
    let range = vstd::set_lib::set_int_range(1, n + 1);
    assert(chain_starts(pair_uv, n).subset_of(range));
    vstd::set_lib::lemma_len_subset(chain_starts(pair_uv, n), range);
    if n > 0 {
        assert(chain_starts(pair_uv, n - 1).subset_of(range));
        vstd::set_lib::lemma_len_subset(chain_starts(pair_uv, n - 1), range);
        if pair_uv[n] == 0 {
            assert(chain_starts(pair_uv, n) =~= chain_starts(pair_uv, n - 1).insert(n));
        } else {
            assert(chain_starts(pair_uv, n) =~= chain_starts(pair_uv, n - 1));
        }
    }
}

proof fn lemma_starts_and_matched(pair_uv: Seq<i16>, n: int)
    requires
        0 <= n,
        pair_uv.len() == n + 1,
    ensures
        chain_starts(pair_uv, n).len() + crate::matching::matched(pair_uv).len() == n,
{
    let range = vstd::set_lib::set_int_range(1, n + 1);
    let matched = crate::matching::matched(pair_uv);
    let starts = chain_starts(pair_uv, n);
    vstd::set_lib::lemma_int_range(1, n + 1);
    assert(starts.subset_of(range));
    assert(matched.subset_of(range));
    vstd::set_lib::lemma_len_subset(starts, range);
    vstd::set_lib::lemma_len_subset(matched, range);
    assert(starts.disjoint(matched));
    vstd::set_lib::lemma_set_disjoint_lens(starts, matched);
    assert(starts + matched =~= range);
}

/// Nothing of the chain of `p` lies between `p` and the class matched with it.
proof fn lemma_nothing_between(
    pair_uv: Seq<i16>,
    pair_vu: Seq<i16>,
    number: Seq<usize>,
    n: int,
    count: int,
    i: int,
    y: int,
)
    requires
        are_chain_numbers(pair_uv, number, n, count),
        i == n + 1,
        pair_uv[i] >= 1,
        forall|x: int| 1 <= x <= i && #[trigger] pair_uv[x] != 0 ==> pair_vu[pair_uv[x] as int] == x,
        forall|x: int| 1 <= x <= i ==> 0 <= #[trigger] pair_uv[x] < x,
        pair_uv[i] < y < i,
    ensures
        number[y] != number[pair_uv[i] as int],
    decreases y,
{
    let p = pair_uv[i] as int;
    let q = pair_uv[y] as int;
    if number[y] == number[p] {
        assert(p <= q);
        assert(q != 0);
        assert(number[q] == number[y]);
        if q != p {
            lemma_nothing_between(pair_uv, pair_vu, number, n, count, i, q);
        }
    }
}

fn number_chains(
    num_sets: usize,
    pair_uv: &Vec<i16>,
    pair_vu: &Vec<i16>,
    Ghost(adjacency): Ghost<Seq<Vec<i16>>>,
) -> (r: (Vec<usize>, usize))
    requires
        num_sets < i16::MAX,
        crate::matching::is_matching(
            adjacency,
            num_sets as int,
            num_sets as int,
            pair_uv@,
            pair_vu@,
        ),
        forall|i: int| 1 <= i <= num_sets ==> #[trigger] pair_uv@[i] < i,
    ensures
        r.0@.len() == num_sets + 1,
        are_chain_numbers(pair_uv@, r.0@, num_sets as int, r.1 as int),
        r.1 == chain_starts(pair_uv@, num_sets as int).len(),
{
    let mut chains: Vec<usize> = vec![0; num_sets + 1];
    let mut num_chains: usize = 0;
    let mut i: usize = 1;
    proof {
        lemma_chain_starts(pair_uv@, 0);
    }
    while i <= num_sets
        invariant
            1 <= i <= num_sets + 1,
            num_sets < i16::MAX,
            crate::matching::is_matching(
                adjacency,
                num_sets as int,
                num_sets as int,
                pair_uv@,
                pair_vu@,
            ),
            forall|x: int| 1 <= x <= num_sets ==> #[trigger] pair_uv@[x] < x,
            chains@.len() == num_sets + 1,
            are_chain_numbers(pair_uv@, chains@, i - 1, num_chains as int),
            num_chains == chain_starts(pair_uv@, i - 1).len(),
            num_chains < i,
        decreases num_sets + 1 - i,
    {
        let u: usize = pair_vu[i] as usize;
        let v: usize = pair_uv[i] as usize;
        let ghost before = chains@;
        proof {
            lemma_chain_starts(pair_uv@, i as int);
            if u > 0 {
                assert(pair_uv@[u as int] == i);
                assert(pair_uv@[u as int] < u);
            }
        }
        if u > 0 && u < i {
            let c: usize = chains[u];
            chains.set(i, c);
        } else if v > 0 && v < i {
            proof {
                assert forall|y: int| 1 <= y < i && before[y] == before[v as int] implies y <= v by {
                    if v < y {
                        lemma_nothing_between(
                            pair_uv@,
                            pair_vu@,
                            before,
                            i - 1,
                            num_chains as int,
                            i as int,
                            y,
                        );
                    }
                }
            }
            let c: usize = chains[v];
            chains.set(i, c);
        } else {
            num_chains = num_chains + 1;
            chains.set(i, num_chains);
        }
        proof {
            assert forall|c: usize| 1 <= c <= num_chains implies #[trigger] is_numbered(
                chains@,
                i as int,
                c,
            ) by {
                if is_numbered(before, i - 1, c) {
                    let x = choose|x: int| 1 <= x <= i - 1 && #[trigger] before[x] == c;
                    assert(chains@[x] == c);
                } else {
                    assert(chains@[i as int] == c);
                }
            }
            assert forall|x: int, c: usize| 1 <= x <= i && 1 <= c < chains@[x] implies
                #[trigger] is_numbered(chains@, x, c) by {
                let from = if x < i {
                    x
                } else if u > 0 && u < i {
                    u as int
                } else if v > 0 && v < i {
                    v as int
                } else {
                    i - 1
                };
                assert(is_numbered(before, from, c));
                let y = choose|y: int| 1 <= y <= from && #[trigger] before[y] == c;
                assert(chains@[y] == c);
            }
        }
        i = i + 1;
    }
    (chains, num_chains)
}

/// Of two classes with the same chain number the earlier one is included, and
/// is shorter.
proof fn lemma_chain_included(
    reps: Seq<Seq<u32>>,
    adjacency: Seq<Vec<i16>>,
    pair_uv: Seq<i16>,
    pair_vu: Seq<i16>,
    number: Seq<usize>,
    count: int,
    a: int,
    b: int,
)
    requires
        are_inclusions(reps, adjacency),
        crate::matching::is_matching(
            adjacency,
            reps.len() - 1,
            reps.len() - 1,
            pair_uv,
            pair_vu,
        ),
        are_chain_numbers(pair_uv, number, reps.len() - 1, count),
        1 <= a <= b < reps.len() <= i16::MAX,
        number[a] == number[b],
    ensures
        included(reps[a], reps[b]),
        a < b ==> reps[a].len() < reps[b].len(),
    decreases b,
{
    if a < b {
        let p = pair_uv[b] as int;
        assert(a <= p);
        assert(crate::matching::is_edge(adjacency, b, p));
        assert(adjacency[b]@.contains(p as i16));
        lemma_chain_included(reps, adjacency, pair_uv, pair_vu, number, count, a, p);
        lemma_included_transitive(reps[a], reps[p], reps[b]);
    }
}

/// The last of `1..=v` that is in the chain of `u`, or 0.
spec fn before_in_chain(chain: Seq<int>, u: int, v: int) -> int
    decreases v,
{
    if v <= 0 {
        0
    } else if chain[v] == chain[u] {
        v
    } else {
        before_in_chain(chain, u, v - 1)
    }
}

/// The first of `u..=n` that is in the chain of `v`, or 0.
spec fn after_in_chain(chain: Seq<int>, v: int, u: int, n: int) -> int
    decreases n + 1 - u,
{
    if u > n {
        0
    } else if chain[u] == chain[v] {
        u
    } else {
        after_in_chain(chain, v, u + 1, n)
    }
}

proof fn lemma_before_in_chain(chain: Seq<int>, u: int, v: int)
    requires
        0 <= v,
    ensures
        0 <= before_in_chain(chain, u, v) <= v,
        before_in_chain(chain, u, v) > 0 ==> chain[before_in_chain(chain, u, v)] == chain[u],
        forall|w: int|
            before_in_chain(chain, u, v) < w <= v ==> #[trigger] chain[w] != chain[u],
    decreases v,
{
    if v > 0 && chain[v] != chain[u] {
        lemma_before_in_chain(chain, u, v - 1);
    }
}

proof fn lemma_after_in_chain(chain: Seq<int>, v: int, u: int, n: int)
    requires
        1 <= u,
    ensures
        after_in_chain(chain, v, u, n) == 0 || u <= after_in_chain(chain, v, u, n) <= n,
        after_in_chain(chain, v, u, n) > 0 ==> chain[after_in_chain(chain, v, u, n)] == chain[v],
        forall|w: int|
            u <= w <= n && (w < after_in_chain(chain, v, u, n) || after_in_chain(chain, v, u, n)
                == 0) ==> #[trigger] chain[w] != chain[v],
    decreases n + 1 - u,
{
    if u <= n && chain[u] != chain[v] {
        lemma_after_in_chain(chain, v, u + 1, n);
    }
}

/// Any way to put the sets into chains needs at least as many chains as there
/// are classes that a maximum matching leaves alone.
proof fn lemma_fewest_chains(
    sets: Seq<Seq<u32>>,
    first: int,
    firsts: Seq<usize>,
    class_of: Seq<usize>,
    adjacency: Seq<Vec<i16>>,
    pair_uv: Seq<i16>,
    number: Seq<int>,
    k: int,
)
    requires
        0 <= first <= sets.len(),
        forall|i: int| 0 <= i < sets.len() ==> (#[trigger] sets[i]).no_duplicates(),
        smallest_first(sets),
        are_classes(sets, first, sets.len() as int, firsts, class_of),
        are_inclusions(reps(sets, firsts), adjacency),
        firsts.len() <= i16::MAX,
        pair_uv.len() == firsts.len(),
        forall|other_uv: Seq<i16>, other_vu: Seq<i16>| #[trigger]
            crate::matching::is_matching(
                adjacency,
                firsts.len() - 1,
                firsts.len() - 1,
                other_uv,
                other_vu,
            ) ==> crate::matching::matched(other_uv).len() <= crate::matching::matched(
                pair_uv,
            ).len(),
        is_chain_cover(sets, number, k),
    ensures
        chain_starts(pair_uv, firsts.len() - 1).len() <= k,
{
    let n = firsts.len() - 1;
    let chain = Seq::new(
        (n + 1) as nat,
        |r: int| number[firsts[r] as int],
    );
    let uv = Seq::new(
        (n + 1) as nat,
        |u: int|
            if u == 0 {
                0i16
            } else {
                before_in_chain(chain, u, u - 1) as i16
            },
    );
    let vu = Seq::new(
        (n + 1) as nat,
        |v: int|
            if v == 0 {
                0i16
            } else {
                after_in_chain(chain, v, v + 1, n) as i16
            },
    );
    assert forall|u: int| 1 <= u <= n implies 0 <= #[trigger] uv[u] <= n by {
        lemma_before_in_chain(chain, u, u - 1);
    }
    assert forall|v: int| 1 <= v <= n implies 0 <= #[trigger] vu[v] <= n by {
        lemma_after_in_chain(chain, v, v + 1, n);
    }
    assert forall|u: int| 1 <= u <= n && #[trigger] uv[u] != 0 implies vu[uv[u] as int] == u
        && crate::matching::is_edge(adjacency, u, uv[u] as int) by {
        lemma_before_in_chain(chain, u, u - 1);
        let p = uv[u] as int;
        assert(chain[p] == chain[u]);
        lemma_after_in_chain(chain, p, p + 1, n);
        let w = vu[p] as int;
        assert(chain[w] == chain[p] || w == 0);
        if w < u && w != 0 {
            assert(chain[w] != chain[u]);
        }
        assert(w == u);
        lemma_same_chain_is_edge(sets, first, firsts, class_of, adjacency, number, k, p, u);
    }
    assert forall|v: int| 1 <= v <= n && #[trigger] vu[v] != 0 implies uv[vu[v] as int] == v by {
        lemma_after_in_chain(chain, v, v + 1, n);
        let u = vu[v] as int;
        lemma_before_in_chain(chain, u, u - 1);
        let p = uv[u] as int;
        if p > v {
            assert(chain[p] != chain[v]);
        }
    }
    assert(crate::matching::is_matching(adjacency, n, n, uv, vu));
    lemma_starts_and_matched(pair_uv, n);
    lemma_starts_and_matched(uv, n);
    let starts = chain_starts(uv, n);
    let f = |u: int| chain[u];
    lemma_chain_starts(uv, n);
    assert(vstd::relations::injective_on(f, starts)) by {
        assert forall|a: int, b: int|
            starts.contains(a) && starts.contains(b) && #[trigger] f(a) == #[trigger] f(b) implies a
            == b by {
            lemma_before_in_chain(chain, a, a - 1);
            lemma_before_in_chain(chain, b, b - 1);
            assert(chain[a] == chain[b]);
        }
    }
    let range = vstd::set_lib::set_int_range(0, k);
    vstd::set_lib::lemma_map_size(starts, starts.map(f), f);
    assert(starts.map(f).subset_of(range)) by {
        assert forall|c: int| starts.map(f).contains(c) implies 0 <= c < k by {
            let u = choose|u: int| starts.contains(u) && c == f(u);
            let i = firsts[u] as int;
            assert(0 <= number[i] < k);
        }
    }
    vstd::set_lib::lemma_int_range(0, k);
    vstd::set_lib::lemma_len_subset(starts.map(f), range);
}

proof fn lemma_same_chain_is_edge(
    sets: Seq<Seq<u32>>,
    first: int,
    firsts: Seq<usize>,
    class_of: Seq<usize>,
    adjacency: Seq<Vec<i16>>,
    number: Seq<int>,
    k: int,
    p: int,
    u: int,
)
    requires
        0 <= first <= sets.len(),
        forall|i: int| 0 <= i < sets.len() ==> (#[trigger] sets[i]).no_duplicates(),
        smallest_first(sets),
        are_classes(sets, first, sets.len() as int, firsts, class_of),
        are_inclusions(reps(sets, firsts), adjacency),
        firsts.len() <= i16::MAX,
        is_chain_cover(sets, number, k),
        1 <= p < u < firsts.len(),
        number[firsts[p] as int] == number[firsts[u] as int],
    ensures
        crate::matching::is_edge(adjacency, u, p),
{
    let a = firsts[p] as int;
    let b = firsts[u] as int;
    assert(a < b);
    let small = sets[a];
    let large = sets[b];
    assert(reps(sets, firsts)[p] == small);
    assert(reps(sets, firsts)[u] == large);
    assert(small.len() <= large.len());
    assert(!same_class(small, large));
    assert(included(small, large) || included(large, small));
    if included(large, small) {
        lemma_same_length_included(large, small);
    }
    if small.len() == large.len() && included(small, large) {
        lemma_same_length_included(small, large);
    }
    assert(adjacency[u]@.contains(p as i16));
}

/// The first `t` sets have been put into chains: `owner[i]` is the chain of the
/// `i`-th set, counted from 1.
spec fn are_filled(
    sets: Seq<Seq<u32>>,
    owner: Seq<usize>,
    chains: Seq<Seq<Seq<u32>>>,
    places: Seq<Seq<int>>,
    t: int,
) -> bool {
    &&& places.len() == chains.len()
    &&& forall|c: int| 0 <= c < chains.len() ==> (#[trigger] places[c]).len() == chains[c].len()
    &&& forall|c: int, a: int|
        #![trigger places[c][a]]
        0 <= c < chains.len() && 0 <= a < chains[c].len() ==> {
            &&& 0 <= places[c][a] < t
            &&& chains[c][a] == sets[places[c][a]]
            &&& owner[places[c][a]] == c + 1
        }
    &&& forall|c: int, a: int, b: int|
        #![trigger places[c][a], places[c][b]]
        0 <= c < chains.len() && 0 <= a < b < chains[c].len() ==> places[c][a] < places[c][b]
    &&& forall|i: int|
        0 <= i < t ==> 1 <= #[trigger] owner[i] <= places.len() && places[owner[i] - 1].contains(i)
}

proof fn lemma_filled_on(
    sets: Seq<Seq<u32>>,
    owner: Seq<usize>,
    chains: Seq<Seq<Seq<u32>>>,
    places: Seq<Seq<int>>,
    t: int,
)
    requires
        are_filled(sets, owner, chains, places, t),
        0 <= t < sets.len(),
        owner.len() == sets.len(),
        1 <= owner[t] <= chains.len(),
    ensures
        are_filled(
            sets,
            owner,
            chains.update(owner[t] - 1, chains[owner[t] - 1].push(sets[t])),
            places.update(owner[t] - 1, places[owner[t] - 1].push(t)),
            t + 1,
        ),
{
    let d = owner[t] - 1;
    let chains2 = chains.update(d, chains[d].push(sets[t]));
    let places2 = places.update(d, places[d].push(t));
    assert forall|c: int, a: int|
        #![trigger places2[c][a]]
        0 <= c < chains2.len() && 0 <= a < chains2[c].len() implies {
        &&& 0 <= places2[c][a] < t + 1
        &&& chains2[c][a] == sets[places2[c][a]]
        &&& owner[places2[c][a]] == c + 1
    } by {
        if c != d || a < chains[d].len() {
            assert(places2[c][a] == places[c][a]);
        }
    }
    assert forall|c: int, a: int, b: int|
        #![trigger places2[c][a], places2[c][b]]
        0 <= c < chains2.len() && 0 <= a < b < chains2[c].len() implies places2[c][a]
        < places2[c][b] by {
        assert(places2[c][a] == places[c][a]);
        if c != d || b < chains[d].len() {
            assert(places2[c][b] == places[c][b]);
        }
    }
    assert forall|i: int| 0 <= i < t + 1 implies 1 <= #[trigger] owner[i] <= places2.len()
        && places2[owner[i] - 1].contains(i) by {
        if i < t {
            let c = owner[i] - 1;
            let a = choose|a: int| 0 <= a < places[c].len() && places[c][a] == i;
            assert(places2[c][a] == i);
        } else {
            assert(places2[d][places[d].len() as int] == t);
        }
    }
}

/// Once all sets are in chains that are opened in turn, the places are those of
/// the sets.
proof fn lemma_filled_places(
    sets: Seq<Seq<u32>>,
    owner: Seq<usize>,
    chains: Seq<Seq<Seq<u32>>>,
    places: Seq<Seq<int>>,
)
    requires
        are_filled(sets, owner, chains, places, sets.len() as int),
        forall|p: int, c: usize|
            0 <= p < sets.len() && 1 <= c < owner[p] ==> #[trigger] is_opened(owner, p, c),
    ensures
        are_places(sets, chains, places),
{
    assert forall|i: int| 0 <= i < sets.len() implies #[trigger] is_place(places, i) by {
        assert(1 <= owner[i] <= places.len());
        assert(places[owner[i] - 1].contains(i));
    }
    assert forall|c: int, d: int, i: int|
        #![trigger places[c].contains(i), places[d].contains(i)]
        0 <= c < places.len() && 0 <= d < places.len() && places[c].contains(i)
            && places[d].contains(i) implies c == d by {
        let a = choose|a: int| 0 <= a < places[c].len() && places[c][a] == i;
        let b = choose|b: int| 0 <= b < places[d].len() && places[d][b] == i;
        assert(owner[places[c][a]] == c + 1);
        assert(owner[places[d][b]] == d + 1);
    }
    assert forall|c: int, d: int|
        #![trigger places[c], places[d]]
        0 <= c < d < chains.len() && chains[c].len() > 0 && chains[d].len() > 0 implies places[c][0]
        < places[d][0] by {
        let p = places[d][0];
        assert(owner[p] == d + 1);
        assert(is_opened(owner, p, (c + 1) as usize));
        let q = choose|q: int| 0 <= q < p && #[trigger] owner[q] == (c + 1) as usize;
        assert(places[owner[q] - 1].contains(q));
        let b = choose|b: int| 0 <= b < places[c].len() && places[c][b] == q;
        if b > 0 {
            assert(places[c][0] < places[c][b]);
        }
    }
}

proof fn lemma_one_chain(sets: Seq<Seq<u32>>, chains: Seq<Seq<Seq<u32>>>)
    requires
        chains.len() == 1,
        chains[0] == sets,
    ensures
        exists|places: Seq<Seq<int>>| #[trigger]
            are_places(sets, chains, places) && are_together(sets, places),
{
    let own = Seq::new(sets.len(), |i: int| i);
    let places = seq![own];
    assert(places[0] == own);
    assert forall|i: int| 0 <= i < sets.len() implies #[trigger] is_place(places, i) by {
        assert(own[i] == i);
        assert(places[0].contains(i));
    }
    assert forall|i: int| 0 <= i < sets.len() implies #[trigger] places[0].contains(i) by {
        assert(own[i] == i);
    }
    assert(are_places(sets, chains, places) && are_together(sets, places));
}

/// The first class is in the first chain, and so is the first set that is not
/// empty; sets of one class are in one chain.
proof fn lemma_together(
    sets: Seq<Seq<u32>>,
    first: int,
    firsts: Seq<usize>,
    class_of: Seq<usize>,
    pair_uv: Seq<i16>,
    number: Seq<usize>,
    owner: Seq<usize>,
    chains: Seq<Seq<Seq<u32>>>,
    places: Seq<Seq<int>>,
)
    requires
        0 <= first <= sets.len(),
        forall|i: int| 0 <= i < first ==> (#[trigger] sets[i]).len() == 0,
        forall|i: int| first <= i < sets.len() ==> (#[trigger] sets[i]).len() > 0,
        are_classes(sets, first, sets.len() as int, firsts, class_of),
        are_chain_numbers(pair_uv, number, firsts.len() - 1, chains.len() as int),
        are_owners(sets, first, class_of, number, owner),
        are_filled(sets, owner, chains, places, sets.len() as int),
    ensures
        are_together(sets, places),
{
    assert forall|i: int|
        0 <= i < sets.len() && #[trigger] is_first_nonempty(sets, i) implies places[0].contains(
        i,
    ) by {
        assert(sets[i].len() > 0);
        assert(i >= first);
        if i > first {
            assert(sets[first].len() == 0);
        }
        let k = class_of[i] as int;
        assert(1 <= class_of[i] < firsts.len());
        assert(firsts[k] == i);
        if k > 1 {
            assert(firsts[1] < firsts[k]);
        }
        if number[1] > 1 {
            assert(is_numbered(number, 1, 1));
        }
        assert(owner[i] == 1);
        assert(places[owner[i] - 1].contains(i));
    }
    assert forall|c: int, i: int, j: int|
        #![trigger places[c].contains(i), places[c].contains(j)]
        0 <= c < places.len() && 0 <= i < sets.len() && 0 <= j < sets.len() && same_class(
            sets[i],
            sets[j],
        ) && places[c].contains(i) implies places[c].contains(j) by {
        let a = choose|a: int| 0 <= a < places[c].len() && places[c][a] == i;
        assert(owner[places[c][a]] == c + 1);
        assert(sets[i].len() == sets[j].len());
        if i >= first {
            assert(j >= first);
            let k = class_of[i] as int;
            let l = class_of[j] as int;
            assert(1 <= class_of[i] < firsts.len());
            assert(1 <= class_of[j] < firsts.len());
            let f = sets[firsts[k] as int];
            let g = sets[firsts[l] as int];
            assert(same_class(f, sets[i]));
            lemma_same_class_transitive(f, sets[i], sets[j]);
            lemma_same_class_transitive(f, sets[j], g);
            assert(same_class(g, f));
            assert(k == l);
        } else {
            assert(j < first);
        }
        assert(owner[j] == owner[i]);
        assert(places[owner[j] - 1].contains(j));
    }
}

/// The chains that a numbering of the classes leads to.
spec fn are_owners(
    sets: Seq<Seq<u32>>,
    first: int,
    class_of: Seq<usize>,
    number: Seq<usize>,
    owner: Seq<usize>,
) -> bool {
    &&& owner.len() == sets.len()
    &&& forall|i: int| 0 <= i < first ==> #[trigger] owner[i] == 1
    &&& forall|i: int| first <= i < sets.len() ==> #[trigger] owner[i] == number[class_of[i] as int]
}

proof fn lemma_split_done(
    sets: Seq<Seq<u32>>,
    first: int,
    firsts: Seq<usize>,
    class_of: Seq<usize>,
    adjacency: Seq<Vec<i16>>,
    pair_uv: Seq<i16>,
    pair_vu: Seq<i16>,
    number: Seq<usize>,
    owner: Seq<usize>,
    chains: Seq<Seq<Seq<u32>>>,
    places: Seq<Seq<int>>,
)
    requires
        smallest_first(sets),
        0 <= first <= sets.len(),
        forall|i: int| 0 <= i < first ==> (#[trigger] sets[i]).len() == 0,
        forall|i: int| first <= i < sets.len() ==> (#[trigger] sets[i]).len() > 0,
        are_classes(sets, first, sets.len() as int, firsts, class_of),
        are_inclusions(reps(sets, firsts), adjacency),
        firsts.len() <= i16::MAX,
        crate::matching::is_matching(
            adjacency,
            firsts.len() - 1,
            firsts.len() - 1,
            pair_uv,
            pair_vu,
        ),
        are_chain_numbers(pair_uv, number, firsts.len() - 1, chains.len() as int),
        are_owners(sets, first, class_of, number, owner),
        are_filled(sets, owner, chains, places, sets.len() as int),
        chains.len() <= usize::MAX,
    ensures
        are_places(sets, chains, places),
        are_together(sets, places),
        forall|c: int| 0 <= c < chains.len() ==> (#[trigger] chains[c]).len() > 0,
        forall|c: int, a: int|
            #![trigger chains[c][a]]
            1 <= c < chains.len() && 0 <= a < chains[c].len() ==> chains[c][a].len() > 0,
        forall|c: int| 0 <= c < chains.len() ==> is_chain(#[trigger] chains[c]),
{
    let rs = reps(sets, firsts);
    assert forall|p: int, c: usize| 0 <= p < sets.len() && 1 <= c < owner[p] implies
        #[trigger] is_opened(owner, p, c) by {
        assert(p >= first);
        let k = class_of[p] as int;
        assert(1 <= class_of[p] < firsts.len());
        assert(is_numbered(number, k, c));
        let x = choose|x: int| 1 <= x <= k && #[trigger] number[x] == c;
        assert(x < k);
        let q = firsts[x] as int;
        assert(firsts[x] < firsts[k]);
        assert(class_of[q] == x);
        assert(owner[q] == c);
    }
    lemma_filled_places(sets, owner, chains, places);
    lemma_together(sets, first, firsts, class_of, pair_uv, number, owner, chains, places);
    assert forall|c: int| 0 <= c < chains.len() implies (#[trigger] chains[c]).len() > 0 by {
        assert(is_numbered(number, firsts.len() - 1, (c + 1) as usize));
        let x = choose|x: int|
            1 <= x <= firsts.len() - 1 && #[trigger] number[x] == (c + 1) as usize;
        let q = firsts[x] as int;
        assert(class_of[q] == x);
        assert(owner[q] == c + 1);
        assert(places[owner[q] - 1].contains(q));
    }
    assert forall|c: int, a: int|
        #![trigger chains[c][a]]
        1 <= c < chains.len() && 0 <= a < chains[c].len() implies chains[c][a].len() > 0 by {
        let p = places[c][a];
        assert(owner[p] == c + 1);
        assert(p >= first);
    }
    assert forall|c: int| 0 <= c < chains.len() implies is_chain(#[trigger] chains[c]) by {
        assert forall|a: int, b: int| 0 <= a < b < chains[c].len() implies included(
            #[trigger] chains[c][a],
            #[trigger] chains[c][b],
        ) by {
            let i = places[c][a];
            let j = places[c][b];
            assert(owner[i] == c + 1 && owner[j] == c + 1);
            assert(i < j);
            if i >= first {
                let p = class_of[i] as int;
                let q = class_of[j] as int;
                assert(1 <= class_of[i] < firsts.len());
                assert(1 <= class_of[j] < firsts.len());
                assert(rs[p] == sets[firsts[p] as int]);
                assert(rs[q] == sets[firsts[q] as int]);
                if p > q {
                    lemma_chain_included(
                        rs,
                        adjacency,
                        pair_uv,
                        pair_vu,
                        number,
                        chains.len() as int,
                        q,
                        p,
                    );
                    assert(sets[i].len() <= sets[j].len());
                } else {
                    lemma_chain_included(
                        rs,
                        adjacency,
                        pair_uv,
                        pair_vu,
                        number,
                        chains.len() as int,
                        p,
                        q,
                    );
                    lemma_included_transitive(sets[i], rs[p], rs[q]);
                    lemma_included_transitive(sets[i], rs[q], sets[j]);
                }
            }
        }
    }
}

/// Some set before `p` is in the chain `c`.
spec fn is_opened(owner: Seq<usize>, p: int, c: usize) -> bool {
    exists|q: int| 0 <= q < p && #[trigger] owner[q] == c
}

proof fn lemma_no_sets(chains: Seq<Seq<Seq<u32>>>)
    requires
        forall|c: int| 0 <= c < chains.len() ==> (#[trigger] chains[c]).len() == 0,
    ensures
        all_sets(chains) == Multiset::<Seq<u32>>::empty(),
    decreases chains.len(),
{
    broadcast use vstd::seq_lib::group_to_multiset_ensures;

    if chains.len() > 0 {
        lemma_no_sets(chains.drop_last());
        assert(chains.last() == chains[chains.len() - 1]);
        assert(chains.last() =~= Seq::<Seq<u32>>::empty());
        assert(chains.last().to_multiset() =~= Multiset::empty());
        assert(all_sets(chains) =~= Multiset::empty());
    }
}

fn copy_into(chains: &mut Vec<Vec<Vec<u32>>>, c: usize, set: &Vec<u32>)
    requires
        c < old(chains)@.len(),
    ensures
        chains_view(final(chains)@) == chains_view(old(chains)@).update(
            c as int,
            chains_view(old(chains)@)[c as int].push(set@),
        ),
        final(chains)@.len() == old(chains)@.len(),
{
    let ghost before = chains_view(chains@);
    let copy = copy_refs(set);
    chains[c].push(copy);
    proof {
        let after = chains_view(chains@);
        assert(after[c as int] =~= before[c as int].push(set@));
        assert forall|m: int| 0 <= m < after.len() && m != c implies after[m] =~= before[m] by {}
        assert(after =~= before.update(c as int, before[c as int].push(set@)));
    }
}

/// Splits grouping sets, given smallest first, into chains in which each set
/// is included in the next. The empty sets come first in the first chain. No
/// other split into such chains has fewer of them. Chains, and the sets in them,
/// keep the order in which the sets were given, and a set that is given several
/// times stays together.
#[verifier::rlimit(40)]
pub fn extract_rollup_sets(grouping_sets: Vec<Vec<u32>>) -> (result: Vec<Vec<Vec<u32>>>)
    requires
        distinct_sets(sets_view(grouping_sets@), grouping_sets@.len() as int) < i16::MAX,
        smallest_first(sets_view(grouping_sets@)),
    ensures
        is_rollup_split(sets_view(grouping_sets@), chains_view(result@)),
{
    let ghost all = sets_view(grouping_sets@);
    let mut result: Vec<Vec<Vec<u32>>> = Vec::new();
    let num_sets_raw: usize = grouping_sets.len();
    let mut num_empty: usize = 0;
    while num_empty < num_sets_raw && grouping_sets[num_empty].len() == 0
        invariant
            num_sets_raw == grouping_sets@.len(),
            num_empty <= num_sets_raw,
            forall|i: int| 0 <= i < num_empty ==> (#[trigger] grouping_sets@[i])@.len() == 0,
        decreases num_sets_raw - num_empty,
    {
        num_empty = num_empty + 1;
    }
    if num_empty == num_sets_raw {
        result.push(grouping_sets);
        proof {
            assert(chains_view(result@) =~= Seq::<Seq<Seq<u32>>>::empty().push(all));
            lemma_all_sets_append(Seq::empty(), all);
            assert(all_sets(chains_view(result@)) =~= all.to_multiset());
            assert(chains_view(result@)[0] == all);
            assert forall|number: Seq<int>, k: int|
                all.len() > 0 && #[trigger] is_chain_cover(all, number, k) implies result@.len()
                <= k by {
                assert(0 <= number[0] < k);
            }
            lemma_one_chain(all, chains_view(result@));
        }
        return result;
    }
    assert forall|i: int| num_empty <= i < grouping_sets@.len() implies (
    #[trigger] grouping_sets@[i])@.len() > 0 by {
        assert(all[num_empty as int].len() <= all[i].len());
    }
    let (firsts, class_of, adjacency) = number_classes(&grouping_sets, num_empty);
    let num_sets: usize = firsts.len() - 1;
    proof {
        assert forall|u: int, k: int|
            #![trigger adjacency@[u]@[k]]
            1 <= u <= num_sets && 0 <= k < adjacency@[u]@.len() implies 1 <= adjacency@[u]@[k]
            <= num_sets by {
            assert(adjacency@[u]@.contains(adjacency@[u]@[k]));
        }
    }
    let (pair_uv, pair_vu) = bipartite_match(num_sets, num_sets, adjacency.as_slice());
    proof {
        assert forall|i: int| 1 <= i <= num_sets implies #[trigger] pair_uv@[i] < i by {
            if pair_uv@[i] != 0 {
                assert(crate::matching::is_edge(adjacency@, i, pair_uv@[i] as int));
                assert(adjacency@[i]@.contains(pair_uv@[i]));
            }
        }
    }
    let (chains, num_chains) = number_chains(num_sets, &pair_uv, &pair_vu, Ghost(adjacency@));
    let ghost owner = Seq::new(
        all.len(),
        |i: int|
            if i < num_empty {
                1usize
            } else {
                chains@[class_of@[i] as int]
            },
    );
    proof {
        assert(1 <= class_of@[num_empty as int] <= num_sets);
        assert(1 <= chains@[class_of@[num_empty as int] as int] <= num_chains);
    }
    let mut c: usize = 0;
    while c < num_chains
        invariant
            c <= num_chains,
            result@.len() == c,
            forall|i: int| 0 <= i < c ==> (#[trigger] result@[i])@.len() == 0,
        decreases num_chains - c,
    {
        let nothing: Vec<Vec<u32>> = Vec::new();
        result.push(nothing);
        c = c + 1;
    }
    let ghost mut places: Seq<Seq<int>> = Seq::new(num_chains as nat, |i: int| Seq::empty());
    proof {
        lemma_no_sets(chains_view(result@));
        broadcast use vstd::seq_lib::group_to_multiset_ensures;
        assert(all.take(0) =~= Seq::<Seq<u32>>::empty());
        assert(all.take(0).to_multiset() =~= Multiset::empty());
    }
    let mut t: usize = 0;
    while t < num_sets_raw
        invariant
            t <= num_sets_raw,
            num_sets_raw == grouping_sets@.len(),
            num_empty <= num_sets_raw,
            all == sets_view(grouping_sets@),
            1 <= num_chains == result@.len(),
            num_sets == firsts@.len() - 1,
            are_classes(all, num_empty as int, all.len() as int, firsts@, class_of@),
            chains@.len() == num_sets + 1,
            are_chain_numbers(pair_uv@, chains@, num_sets as int, num_chains as int),
            are_owners(all, num_empty as int, class_of@, chains@, owner),
            are_filled(all, owner, chains_view(result@), places, t as int),
            all_sets(chains_view(result@)) == all.take(t as int).to_multiset(),
        decreases num_sets_raw - t,
    {
        let c: usize = if t < num_empty {
            1
        } else {
            assert(1 <= class_of@[t as int] <= num_sets);
            chains[class_of[t]]
        };
        let ghost before = chains_view(result@);
        assert(owner[t as int] == c);
        assert(1 <= c <= num_chains);
        copy_into(&mut result, c - 1, &grouping_sets[t]);
        proof {
            broadcast use vstd::seq_lib::group_to_multiset_ensures;
            lemma_filled_on(all, owner, before, places, t as int);
            lemma_all_sets_push(before, c - 1, all[t as int]);
            assert(all.take(t + 1) =~= all.take(t as int).push(all[t as int]));
            places = places.update(c - 1, places[c - 1].push(t as int));
        }
        t = t + 1;
    }
    proof {
        assert(all.take(t as int) =~= all);
        assert forall|i: int| 0 <= i < num_empty implies (#[trigger] all[i]).len() == 0 by {
            assert(all[i] == grouping_sets@[i]@);
        }
        assert forall|i: int| num_empty <= i < all.len() implies (#[trigger] all[i]).len() > 0 by {
            assert(all[i] == grouping_sets@[i]@);
        }
        lemma_split_done(
            all,
            num_empty as int,
            firsts@,
            class_of@,
            adjacency@,
            pair_uv@,
            pair_vu@,
            chains@,
            owner,
            chains_view(result@),
            places,
        );
        if forall|i: int| 0 <= i < all.len() ==> (#[trigger] all[i]).no_duplicates() {
            assert forall|number: Seq<int>, n: int| #[trigger]
                is_chain_cover(all, number, n) implies result@.len() <= n by {
                lemma_fewest_chains(
                    all,
                    num_empty as int,
                    firsts@,
                    class_of@,
                    adjacency@,
                    pair_uv@,
                    number,
                    n,
                );
            }
        }
    }
    result
}

} // verus!

//! Planning of GROUPING SETS.
use vstd::prelude::*;
use crate::error::PlannerError;
use crate::rollup::{copy_refs, extract_rollup_sets, holds_ref};
use crate::sortgroup::{preprocess_groupclause, SortGroupClause};

verus! {

/// Is the grouping set not the empty one?
pub fn grouping_set_nonempty(set: &Vec<u32>) -> (r: bool)
    ensures
        r == (set@.len() > 0),
{
    set.len() > 0
}

/// How many groups are expected.
#[derive(Clone, Copy, Debug, PartialEq, Eq, Structural)]
pub enum GroupCount {
    /// An estimate, given by the bits of a floating-point number.
    Estimate(u64),
    /// A number that is known.
    Exact(usize),
}

/// One grouping set: the references that it groups by.
#[derive(Debug)]
pub struct GroupingSetData {
    pub set: Vec<u32>,
    pub num_groups: GroupCount,
}

/// What a grouping set holds.
pub ghost struct GroupingSet {
    pub set: Seq<u32>,
    pub num_groups: GroupCount,
}

impl View for GroupingSetData {
    type V = GroupingSet;

    open spec fn view(&self) -> GroupingSet {
        GroupingSet { set: self.set@, num_groups: self.num_groups }
    }
}

impl GroupingSetData {
    /// A second one with the same contents.
    pub fn copy(&self) -> (r: GroupingSetData)
        ensures
            r@ == self@,
    {
        GroupingSetData { set: copy_refs(&self.set), num_groups: self.num_groups }
    }
}

/// What a list of grouping sets holds.
pub open spec fn gsets_view(sets: Seq<GroupingSetData>) -> Seq<GroupingSet> {
    Seq::new(sets.len(), |i: int| sets[i]@)
}

/// The references of the first `n` of `candidate` that `previous` lacks.
pub open spec fn fresh_refs(candidate: Seq<u32>, previous: Seq<u32>, n: int) -> Seq<u32>
    decreases n,
{
    if n <= 0 {
        Seq::empty()
    } else if previous.contains(candidate[n - 1]) {
        fresh_refs(candidate, previous, n - 1)
    } else {
        fresh_refs(candidate, previous, n - 1).push(candidate[n - 1])
    }
}

/// Where `r` first occurs at or after `from`; the length where it does not.
pub open spec fn ref_position(refs: Seq<u32>, r: u32, from: int) -> int
    decreases refs.len() - from,
{
    if from < 0 || from >= refs.len() {
        refs.len() as int
    } else if refs[from] == r {
        from
    } else {
        ref_position(refs, r, from + 1)
    }
}

/// While the sort order asks for one of the fresh references next, that one is
/// put at the end of the list; as soon as it asks for another, it is given up.
pub open spec fn follow_sort(
    previous: Seq<u32>,
    fresh: Seq<u32>,
    sort: Seq<SortGroupClause>,
    live: bool,
) -> (Seq<u32>, Seq<u32>, bool)
    decreases sort.len() - previous.len(),
{
    if live && sort.len() > previous.len() && fresh.len() > 0 {
        let r = sort[previous.len() as int].tle_sort_group_ref;
        let at = ref_position(fresh, r, 0);
        if at < fresh.len() {
            follow_sort(previous.push(r), fresh.remove(at), sort, live)
        } else {
            (previous, fresh, false)
        }
    } else {
        (previous, fresh, live)
    }
}

/// The list after the first `n` sets of a chain, and whether it still follows
/// the sort order.
pub open spec fn ordered_refs(
    chain: Seq<Seq<u32>>,
    sort: Seq<SortGroupClause>,
    n: int,
) -> (Seq<u32>, bool)
    decreases n,
{
    if n <= 0 {
        (Seq::empty(), sort.len() > 0)
    } else {
        let (previous, live) = ordered_refs(chain, sort, n - 1);
        let candidate = chain[n - 1];
        let (placed, fresh, still) = follow_sort(
            previous,
            fresh_refs(candidate, previous, candidate.len() as int),
            sort,
            live,
        );
        (placed + fresh, still)
    }
}

proof fn lemma_ref_position(refs: Seq<u32>, r: u32, from: int)
    requires
        0 <= from <= refs.len(),
    ensures
        from <= ref_position(refs, r, from) <= refs.len(),
        ref_position(refs, r, from) < refs.len() ==> refs[ref_position(refs, r, from)] == r,
        ref_position(refs, r, from) == refs.len() ==> forall|i: int|
            from <= i < refs.len() ==> #[trigger] refs[i] != r,
    decreases refs.len() - from,
{
    if from < refs.len() && refs[from] != r {
        lemma_ref_position(refs, r, from + 1);
    }
}

fn find_position(refs: &Vec<u32>, r: u32) -> (at: usize)
    ensures
        at == ref_position(refs@, r, 0),
{
    let mut i: usize = 0;
    while i < refs.len()
        invariant
            i <= refs@.len(),
            ref_position(refs@, r, 0) == ref_position(refs@, r, i as int),
        decreases refs@.len() - i,
    {
        if refs[i] == r {
            return i;
        }
        i = i + 1;
    }
    i
}

proof fn lemma_fresh_refs(candidate: Seq<u32>, previous: Seq<u32>, n: int)
    requires
        0 <= n <= candidate.len(),
    ensures
        forall|x: u32| #[trigger]
            fresh_refs(candidate, previous, n).contains(x) <==> candidate.take(n).contains(x)
                && !previous.contains(x),
        candidate.no_duplicates() ==> fresh_refs(candidate, previous, n).no_duplicates(),
    decreases n,
{
    if n > 0 {
        lemma_fresh_refs(candidate, previous, n - 1);
        let before = fresh_refs(candidate, previous, n - 1);
        let after = fresh_refs(candidate, previous, n);
        let last = candidate[n - 1];
        assert(candidate.take(n) =~= candidate.take(n - 1).push(last));
        assert forall|x: u32| #[trigger] after.contains(x) <==> candidate.take(n).contains(x)
            && !previous.contains(x) by {
            broadcast use vstd::seq_lib::group_seq_properties;
        }
        if candidate.no_duplicates() && !previous.contains(last) {
            assert(!candidate.take(n - 1).contains(last));
            assert(!before.contains(last));
        }
    }
}

/// What follows the sort order is a continuation of the list by fresh
/// references, none of which is lost.
proof fn lemma_follow_sort(
    previous: Seq<u32>,
    fresh: Seq<u32>,
    sort: Seq<SortGroupClause>,
    live: bool,
)
    ensures
        ({
            let (placed, rest, still) = follow_sort(previous, fresh, sort, live);
            &&& previous.is_prefix_of(placed)
            &&& (placed + rest).to_multiset() == (previous + fresh).to_multiset()
        }),
    decreases sort.len() - previous.len(),
{
    if live && sort.len() > previous.len() && fresh.len() > 0 {
        let r = sort[previous.len() as int].tle_sort_group_ref;
        let at = ref_position(fresh, r, 0);
        lemma_ref_position(fresh, r, 0);
        if at < fresh.len() {
            let moved = fresh.remove(at);
            lemma_follow_sort(previous.push(r), moved, sort, live);
            let (placed, rest, still) = follow_sort(previous, fresh, sort, live);
            assert(previous.is_prefix_of(placed)) by {
                assert(placed.take(previous.len() as int) =~= previous) by {
                    assert(previous.push(r).is_prefix_of(placed));
                }
            }
            broadcast use vstd::seq_lib::group_to_multiset_ensures;
            vstd::seq_lib::lemma_multiset_commutative(previous.push(r), moved);
            vstd::seq_lib::lemma_multiset_commutative(previous, fresh);
            assert(fresh.contains(r));
            assert(previous.push(r).to_multiset().add(moved.to_multiset())
                =~= previous.to_multiset().add(fresh.to_multiset()));
        }
    }
}

/// The lists along a chain extend each other, so that one sort order serves
/// all of them.
pub proof fn lemma_ordered_refs_prefix(
    chain: Seq<Seq<u32>>,
    sort: Seq<SortGroupClause>,
    m: int,
    n: int,
)
    requires
        0 <= m <= n <= chain.len(),
    ensures
        ordered_refs(chain, sort, m).0.is_prefix_of(ordered_refs(chain, sort, n).0),
    decreases n - m,
{
    if m < n {
        lemma_ordered_refs_prefix(chain, sort, m, n - 1);
        let (previous, live) = ordered_refs(chain, sort, n - 1);
        let candidate = chain[n - 1];
        let fresh = fresh_refs(candidate, previous, candidate.len() as int);
        lemma_follow_sort(previous, fresh, sort, live);
        let a = ordered_refs(chain, sort, m).0;
        let b = ordered_refs(chain, sort, n).0;
        assert(a.len() <= b.len());
        assert forall|i: int| 0 <= i < a.len() implies a[i] == b[i] by {
            assert(a[i] == previous[i]);
        }
    }
}

/// Along a chain of sets without repetitions, each list holds the references
/// of its own set, each once.
pub proof fn lemma_ordered_refs_contents(
    chain: Seq<Seq<u32>>,
    sort: Seq<SortGroupClause>,
    n: int,
)
    requires
        0 < n <= chain.len(),
        crate::rollup::is_chain(chain),
        forall|i: int| 0 <= i < chain.len() ==> (#[trigger] chain[i]).no_duplicates(),
    ensures
        ordered_refs(chain, sort, n).0.no_duplicates(),
        forall|x: u32| #[trigger]
            ordered_refs(chain, sort, n).0.contains(x) <==> chain[n - 1].contains(x),
    decreases n,
{
    broadcast use vstd::seq_lib::group_to_multiset_ensures;

    let (previous, live) = ordered_refs(chain, sort, n - 1);
    let candidate = chain[n - 1];
    let fresh = fresh_refs(candidate, previous, candidate.len() as int);
    let (placed, rest, still) = follow_sort(previous, fresh, sort, live);
    let after = ordered_refs(chain, sort, n).0;
    lemma_follow_sort(previous, fresh, sort, live);
    lemma_fresh_refs(candidate, previous, candidate.len() as int);
    assert(candidate.take(candidate.len() as int) =~= candidate);
    let both = previous + fresh;
    if n > 1 {
        lemma_ordered_refs_contents(chain, sort, n - 1);
        assert(crate::rollup::included(chain[n - 2], chain[n - 1]));
    }
    assert forall|x: u32| previous.contains(x) implies #[trigger] candidate.contains(x) by {
        if n > 1 {
            let smaller = chain[n - 2];
            assert(smaller.contains(x));
            let i = choose|i: int| 0 <= i < smaller.len() && smaller[i] == x;
            assert(candidate.contains(smaller[i]));
        } else {
            assert(previous.len() == 0);
        }
    }
    assert forall|x: u32| #[trigger] both.contains(x) <==> candidate.contains(x) by {
        if previous.contains(x) {
            let i = choose|i: int| 0 <= i < previous.len() && previous[i] == x;
            assert(both[i] == x);
        }
        if fresh.contains(x) {
            let i = choose|i: int| 0 <= i < fresh.len() && fresh[i] == x;
            assert(both[previous.len() + i] == x);
        }
        if both.contains(x) {
            let i = choose|i: int| 0 <= i < both.len() && both[i] == x;
            if i < previous.len() {
                assert(previous.contains(x));
            } else {
                assert(fresh[i - previous.len()] == x);
                assert(fresh.contains(x));
            }
        }
    }
    assert(both.no_duplicates()) by {
        assert forall|a: int, b: int| 0 <= a < b < both.len() implies both[a] != both[b] by {
            if a < previous.len() && b >= previous.len() {
                assert(previous.contains(both[a]));
                assert(fresh[b - previous.len()] == both[b]);
                assert(fresh.contains(both[b]));
            }
        }
    }
    assert(after == placed + rest);
    assert(after.to_multiset() == both.to_multiset());
    assert forall|x: u32| #[trigger] after.contains(x) <==> both.contains(x) by {
        assert(after.contains(x) <==> after.to_multiset().count(x) > 0);
        assert(both.contains(x) <==> both.to_multiset().count(x) > 0);
    }
    both.lemma_multiset_has_no_duplicates();
    after.lemma_multiset_has_no_duplicates_conv();
}

/// Turns a chain of grouping sets, given smallest first, into lists given
/// largest first, each of which begins with the next. As far as possible they
/// follow the order of the sort clause.
pub fn reorder_grouping_sets(
    grouping_sets: &Vec<Vec<u32>>,
    sortclause: &Vec<SortGroupClause>,
) -> (result: Vec<GroupingSetData>)
    ensures
        result@.len() == grouping_sets@.len(),
        forall|i: int|
            0 <= i < result@.len() ==> (#[trigger] result@[i])@ == (GroupingSet {
                set: ordered_refs(
                    crate::rollup::sets_view(grouping_sets@),
                    sortclause@,
                    result@.len() - i,
                ).0,
                num_groups: GroupCount::Estimate(0),
            }),
{
    let ghost chain = crate::rollup::sets_view(grouping_sets@);
    let mut previous: Vec<u32> = Vec::new();
    let mut result: Vec<GroupingSetData> = Vec::new();
    let mut sortclause_live = sortclause.len() > 0;
    let mut n: usize = 0;
    while n < grouping_sets.len()
        invariant
            n <= grouping_sets@.len(),
            chain == crate::rollup::sets_view(grouping_sets@),
            (previous@, sortclause_live) == ordered_refs(chain, sortclause@, n as int),
            result@.len() == n,
            forall|i: int|
                0 <= i < n ==> (#[trigger] result@[i])@ == (GroupingSet {
                    set: ordered_refs(chain, sortclause@, n - i).0,
                    num_groups: GroupCount::Estimate(0),
                }),
        decreases grouping_sets@.len() - n,
    {
        let candidate: &Vec<u32> = &grouping_sets[n];
        let ghost cand = chain[n as int];
        let ghost p0 = previous@;
        let ghost live0 = sortclause_live;
        let mut new_elems: Vec<u32> = Vec::new();
        let mut i: usize = 0;
        while i < candidate.len()
            invariant
                i <= candidate@.len(),
                candidate@ == cand,
                new_elems@ == fresh_refs(cand, previous@, i as int),
            decreases candidate@.len() - i,
        {
            if !holds_ref(&previous, candidate[i]) {
                new_elems.push(candidate[i]);
            }
            i = i + 1;
        }
        let ghost whole = follow_sort(p0, new_elems@, sortclause@, live0);
        while sortclause_live && sortclause.len() > previous.len() && new_elems.len() > 0
            invariant
                whole == follow_sort(previous@, new_elems@, sortclause@, sortclause_live),
            decreases
                sortclause@.len() - previous@.len(),
                (if sortclause_live {
                    1int
                } else {
                    0
                }),
        {
            let r: u32 = sortclause[previous.len()].tle_sort_group_ref;
            let pos: usize = find_position(&new_elems, r);
            if pos < new_elems.len() {
                previous.push(r);
                new_elems.remove(pos);
            } else {
                sortclause_live = false;
            }
        }
        let mut k: usize = 0;
        let ghost placed = previous@;
        while k < new_elems.len()
            invariant
                k <= new_elems@.len(),
                previous@ == placed + new_elems@.take(k as int),
            decreases new_elems@.len() - k,
        {
            previous.push(new_elems[k]);
            assert(previous@ =~= placed + new_elems@.take(k + 1));
            k = k + 1;
        }
        assert(new_elems@.take(k as int) =~= new_elems@);
        let ghost before = result@;
        result.insert(
            0,
            GroupingSetData { set: copy_refs(&previous), num_groups: GroupCount::Estimate(0) },
        );
        proof {
            assert forall|m: int| 0 <= m < n + 1 implies (#[trigger] result@[m])@ == (GroupingSet {
                set: ordered_refs(chain, sortclause@, n + 1 - m).0,
                num_groups: GroupCount::Estimate(0),
            }) by {
                if m > 0 {
                    assert(result@[m] == before[m - 1]);
                }
            }
        }
        n = n + 1;
    }
    result
}

/// The numbers that a list of lists holds.
pub open spec fn columns_view(columns: Seq<Vec<usize>>) -> Seq<Seq<usize>> {
    Seq::new(columns.len(), |i: int| columns[i]@)
}

/// The map from references to positions once the first `n` clauses are
/// entered.
pub open spec fn colnum_map(map: Seq<usize>, clauses: Seq<SortGroupClause>, n: int) -> Seq<usize>
    decreases n,
{
    if n <= 0 {
        map
    } else {
        colnum_map(map, clauses, n - 1).update(
            clauses[n - 1].tle_sort_group_ref as int,
            (n - 1) as usize,
        )
    }
}

/// The grouping sets with each reference replaced by its position.
pub open spec fn remapped(gsets: Seq<GroupingSet>, map: Seq<usize>) -> Seq<Seq<usize>> {
    Seq::new(
        gsets.len(),
        |i: int| Seq::new(gsets[i].set.len(), |j: int| map[gsets[i].set[j] as int]),
    )
}

proof fn lemma_colnum_map_len(map: Seq<usize>, clauses: Seq<SortGroupClause>, n: int)
    requires
        forall|i: int|
            0 <= i < n ==> (#[trigger] clauses[i]).tle_sort_group_ref < map.len(),
    ensures
        colnum_map(map, clauses, n).len() == map.len(),
    decreases n,
{
    if n > 0 {
        lemma_colnum_map_len(map, clauses, n - 1);
    }
}

/// The position that a reference is replaced by is that of a clause for it.
pub proof fn lemma_remap_inverse(
    map: Seq<usize>,
    clauses: Seq<SortGroupClause>,
    n: int,
    r: u32,
)
    requires
        0 <= n <= clauses.len() <= usize::MAX,
        r < map.len(),
        forall|i: int|
            0 <= i < clauses.len() ==> (#[trigger] clauses[i]).tle_sort_group_ref < map.len(),
        crate::sortgroup::has_ref(clauses.take(n), r),
    ensures
        colnum_map(map, clauses, n)[r as int] < n,
        clauses[colnum_map(map, clauses, n)[r as int] as int].tle_sort_group_ref == r,
    decreases n,
{
    if n > 0 {
        lemma_colnum_map_len(map, clauses, n - 1);
        if clauses[n - 1].tle_sort_group_ref != r {
            let i = choose|i: int|
                0 <= i < clauses.take(n).len() && (
                #[trigger] clauses.take(n)[i]).tle_sort_group_ref == r;
            assert(clauses.take(n - 1)[i] == clauses.take(n)[i]);
            lemma_remap_inverse(map, clauses, n - 1, r);
        }
    }
}

/// Enters the clauses into the map from references to positions, and replaces
/// the references of the grouping sets by it.
pub fn remap_to_groupclause_idx(
    group_clause: &Vec<SortGroupClause>,
    gsets: &Vec<GroupingSetData>,
    tleref_to_colnum_map: &mut Vec<usize>,
) -> (result: Vec<Vec<usize>>)
    requires
        forall|i: int|
            0 <= i < group_clause@.len() ==> (#[trigger] group_clause@[i]).tle_sort_group_ref < old(
                tleref_to_colnum_map,
            )@.len(),
        forall|i: int, j: int|
            #![trigger gsets_view(gsets@)[i].set[j]]
            0 <= i < gsets@.len() && 0 <= j < gsets_view(gsets@)[i].set.len() ==> gsets_view(
                gsets@,
            )[i].set[j] < old(tleref_to_colnum_map)@.len(),
    ensures
        final(tleref_to_colnum_map)@ == colnum_map(
            old(tleref_to_colnum_map)@,
            group_clause@,
            group_clause@.len() as int,
        ),
        columns_view(result@) == remapped(gsets_view(gsets@), final(tleref_to_colnum_map)@),
{
    let ghost map0 = tleref_to_colnum_map@;
    let ghost sets = gsets_view(gsets@);
    let mut i: usize = 0;
    while i < group_clause.len()
        invariant
            i <= group_clause@.len(),
            forall|k: int|
                0 <= k < group_clause@.len() ==> (
                #[trigger] group_clause@[k]).tle_sort_group_ref < map0.len(),
            tleref_to_colnum_map@ == colnum_map(map0, group_clause@, i as int),
        decreases group_clause@.len() - i,
    {
        proof {
            lemma_colnum_map_len(map0, group_clause@, i as int);
        }
        tleref_to_colnum_map.set(group_clause[i].tle_sort_group_ref as usize, i);
        i = i + 1;
    }
    proof {
        lemma_colnum_map_len(map0, group_clause@, i as int);
    }
    let ghost map1 = tleref_to_colnum_map@;
    let mut result: Vec<Vec<usize>> = Vec::new();
    let mut k: usize = 0;
    while k < gsets.len()
        invariant
            k <= gsets@.len(),
            sets == gsets_view(gsets@),
            tleref_to_colnum_map@ == map1,
            forall|i: int, j: int|
                #![trigger sets[i].set[j]]
                0 <= i < gsets@.len() && 0 <= j < sets[i].set.len() ==> sets[i].set[j] < map1.len(),
            columns_view(result@) == remapped(sets, map1).take(k as int),
        decreases gsets@.len() - k,
    {
        let mut set: Vec<usize> = Vec::new();
        let mut j: usize = 0;
        while j < gsets[k].set.len()
            invariant
                k < gsets@.len(),
                sets == gsets_view(gsets@),
                tleref_to_colnum_map@ == map1,
                forall|i: int, j: int|
                    #![trigger sets[i].set[j]]
                    0 <= i < gsets@.len() && 0 <= j < sets[i].set.len() ==> sets[i].set[j]
                        < map1.len(),
                j <= sets[k as int].set.len(),
                set@ == remapped(sets, map1)[k as int].take(j as int),
            decreases sets[k as int].set.len() - j,
        {
            assert(sets[k as int].set[j as int] == gsets@[k as int].set@[j as int]);
            let r: u32 = gsets[k].set[j];
            set.push(tleref_to_colnum_map[r as usize]);
            assert(set@ =~= remapped(sets, map1)[k as int].take(j + 1));
            j = j + 1;
        }
        assert(set@ =~= remapped(sets, map1)[k as int]);
        let ghost before = columns_view(result@);
        result.push(set);
        assert(columns_view(result@) =~= before.push(set@));
        assert(columns_view(result@) =~= remapped(sets, map1).take(k + 1));
        k = k + 1;
    }
    assert(columns_view(result@) =~= remapped(sets, map1));
    result
}

/// Grouping sets that are computed together: the clauses that the first set
/// groups by, and the sets both as references and as positions among those.
#[derive(Debug)]
pub struct RollupData {
    pub group_clause: Vec<SortGroupClause>,
    pub gsets: Vec<Vec<usize>>,
    pub gsets_data: Vec<GroupingSetData>,
    pub num_groups: GroupCount,
    pub hashable: bool,
    pub is_hashed: bool,
}

/// What a rollup holds.
pub ghost struct Rollup {
    pub group_clause: Seq<SortGroupClause>,
    pub gsets: Seq<Seq<usize>>,
    pub gsets_data: Seq<GroupingSet>,
    pub num_groups: GroupCount,
    pub hashable: bool,
    pub is_hashed: bool,
}

impl View for RollupData {
    type V = Rollup;

    open spec fn view(&self) -> Rollup {
        Rollup {
            group_clause: self.group_clause@,
            gsets: columns_view(self.gsets@),
            gsets_data: gsets_view(self.gsets_data@),
            num_groups: self.num_groups,
            hashable: self.hashable,
            is_hashed: self.is_hashed,
        }
    }
}

fn copy_columns(columns: &Vec<Vec<usize>>) -> (r: Vec<Vec<usize>>)
    ensures
        columns_view(r@) == columns_view(columns@),
{
    let mut r: Vec<Vec<usize>> = Vec::new();
    let mut i: usize = 0;
    while i < columns.len()
        invariant
            i <= columns@.len(),
            columns_view(r@) == columns_view(columns@).take(i as int),
        decreases columns@.len() - i,
    {
        let mut one: Vec<usize> = Vec::new();
        let mut j: usize = 0;
        while j < columns[i].len()
            invariant
                i < columns@.len(),
                j <= columns@[i as int]@.len(),
                one@ == columns@[i as int]@.take(j as int),
            decreases columns@[i as int]@.len() - j,
        {
            one.push(columns[i][j]);
            assert(one@ =~= columns@[i as int]@.take(j + 1));
            j = j + 1;
        }
        assert(one@ =~= columns@[i as int]@);
        let ghost before = columns_view(r@);
        r.push(one);
        assert(columns_view(r@) =~= before.push(one@));
        assert(columns_view(r@) =~= columns_view(columns@).take(i + 1));
        i = i + 1;
    }
    assert(columns_view(r@) =~= columns_view(columns@));
    r
}

/// A second list of the same grouping sets.
pub fn copy_gsets(sets: &Vec<GroupingSetData>) -> (r: Vec<GroupingSetData>)
    ensures
        gsets_view(r@) == gsets_view(sets@),
{
    let mut r: Vec<GroupingSetData> = Vec::new();
    append_gsets(&mut r, sets);
    assert(gsets_view(r@) =~= gsets_view(sets@));
    r
}

/// Appends copies of the grouping sets of `more`.
pub fn append_gsets(sets: &mut Vec<GroupingSetData>, more: &Vec<GroupingSetData>)
    ensures
        gsets_view(final(sets)@) == gsets_view(old(sets)@) + gsets_view(more@),
{
    let ghost start = gsets_view(sets@);
    let mut i: usize = 0;
    assert(gsets_view(more@).take(0) =~= Seq::empty());
    assert(start + gsets_view(more@).take(0) =~= start);
    while i < more.len()
        invariant
            i <= more@.len(),
            gsets_view(sets@) == start + gsets_view(more@).take(i as int),
        decreases more@.len() - i,
    {
        let one = more[i].copy();
        let ghost before = gsets_view(sets@);
        sets.push(one);
        assert(gsets_view(sets@) =~= before.push(one@));
        assert(gsets_view(sets@) =~= start + gsets_view(more@).take(i + 1));
        i = i + 1;
    }
    assert(gsets_view(more@).take(i as int) =~= gsets_view(more@));
}

impl RollupData {
    /// A second one with the same contents.
    pub fn copy(&self) -> (r: RollupData)
        ensures
            r@ == self@,
    {
        let mut group_clause: Vec<SortGroupClause> = Vec::new();
        let mut i: usize = 0;
        while i < self.group_clause.len()
            invariant
                i <= self.group_clause@.len(),
                group_clause@ == self.group_clause@.take(i as int),
            decreases self.group_clause@.len() - i,
        {
            group_clause.push(self.group_clause[i]);
            assert(group_clause@ =~= self.group_clause@.take(i + 1));
            i = i + 1;
        }
        assert(group_clause@ =~= self.group_clause@);
        RollupData {
            group_clause,
            gsets: copy_columns(&self.gsets),
            gsets_data: copy_gsets(&self.gsets_data),
            num_groups: self.num_groups,
            hashable: self.hashable,
            is_hashed: self.is_hashed,
        }
    }
}

/// What a list of rollups holds.
pub open spec fn rollups_view(rollups: Seq<RollupData>) -> Seq<Rollup> {
    Seq::new(rollups.len(), |i: int| rollups[i]@)
}

/// What is known of the grouping sets of a query before paths are built.
#[derive(Debug)]
pub struct GroupingSetsData {
    pub rollups: Vec<RollupData>,
    pub any_hashable: bool,
    pub unsortable_refs: Vec<u32>,
    pub unhashable_refs: Vec<u32>,
    pub unsortable_sets: Vec<GroupingSetData>,
    pub hash_sets_idx: Vec<Vec<usize>>,
    pub tleref_to_colnum_map: Vec<usize>,
    pub d_num_hash_groups: GroupCount,
}

/// The references of those of the first `n` clauses that cannot be hashed.
pub open spec fn unhashable_refs(clauses: Seq<SortGroupClause>, n: int) -> Seq<u32>
    decreases n,
{
    if n <= 0 {
        Seq::empty()
    } else if clauses[n - 1].hashable {
        unhashable_refs(clauses, n - 1)
    } else {
        unhashable_refs(clauses, n - 1).push(clauses[n - 1].tle_sort_group_ref)
    }
}

/// The references of those of the first `n` clauses that cannot be sorted.
pub open spec fn unsortable_refs(clauses: Seq<SortGroupClause>, n: int) -> Seq<u32>
    decreases n,
{
    if n <= 0 {
        Seq::empty()
    } else if clauses[n - 1].sortop != 0 {
        unsortable_refs(clauses, n - 1)
    } else {
        unsortable_refs(clauses, n - 1).push(clauses[n - 1].tle_sort_group_ref)
    }
}

/// The greatest reference of the first `n` clauses.
pub open spec fn max_ref(clauses: Seq<SortGroupClause>, n: int) -> int
    decreases n,
{
    if n <= 0 {
        0
    } else if clauses[n - 1].tle_sort_group_ref > max_ref(clauses, n - 1) {
        clauses[n - 1].tle_sort_group_ref as int
    } else {
        max_ref(clauses, n - 1)
    }
}

/// Some reference of `set` is among `refs`.
pub open spec fn overlaps(refs: Seq<u32>, set: Seq<u32>) -> bool {
    exists|j: int| 0 <= j < set.len() && refs.contains(#[trigger] set[j])
}

/// Those of the first `n` sets that hold one of `refs`, or those that do not.
pub open spec fn sets_with(sets: Seq<Seq<u32>>, refs: Seq<u32>, with: bool, n: int) -> Seq<
    Seq<u32>,
>
    decreases n,
{
    if n <= 0 {
        Seq::empty()
    } else if overlaps(refs, sets[n - 1]) == with {
        sets_with(sets, refs, with, n - 1).push(sets[n - 1])
    } else {
        sets_with(sets, refs, with, n - 1)
    }
}

/// The rollup for a chain of sets, and the map from references to positions
/// that it leaves.
pub open spec fn rollup_of(
    group: Seq<SortGroupClause>,
    sort: Seq<SortGroupClause>,
    unhashable: Seq<u32>,
    chain: Seq<Seq<u32>>,
    map: Seq<usize>,
) -> (Rollup, Seq<usize>) {
    let data = Seq::new(
        chain.len(),
        |i: int|
            GroupingSet {
                set: ordered_refs(chain, sort, chain.len() - i).0,
                num_groups: GroupCount::Estimate(0),
            },
    );
    let first = data[0].set;
    let clause = first.map_values(|r: u32| crate::sortgroup::clause_for(group, r));
    let entered = colnum_map(map, clause, clause.len() as int);
    (
        Rollup {
            group_clause: clause,
            gsets: remapped(data, entered),
            gsets_data: data,
            num_groups: GroupCount::Estimate(0),
            hashable: first.len() > 0 && !overlaps(unhashable, first),
            is_hashed: false,
        },
        entered,
    )
}

/// The rollups for the first `n` chains. The sort clause is followed where
/// there is only one chain.
pub open spec fn rollups_of(
    group: Seq<SortGroupClause>,
    sort: Seq<SortGroupClause>,
    unhashable: Seq<u32>,
    chains: Seq<Seq<Seq<u32>>>,
    map: Seq<usize>,
    n: int,
) -> (Seq<Rollup>, Seq<usize>)
    decreases n,
{
    if n <= 0 {
        (Seq::empty(), map)
    } else {
        let (rollups, entered) = rollups_of(group, sort, unhashable, chains, map, n - 1);
        let (rollup, now) = rollup_of(
            group,
            if chains.len() == 1 {
                sort
            } else {
                Seq::empty()
            },
            unhashable,
            chains[n - 1],
            entered,
        );
        (rollups.push(rollup), now)
    }
}

/// Every reference of every set is that of a clause.
pub open spec fn known_refs(group: Seq<SortGroupClause>, sets: Seq<Seq<u32>>) -> bool {
    forall|i: int, j: int|
        #![trigger sets[i][j]]
        0 <= i < sets.len() && 0 <= j < sets[i].len() ==> crate::sortgroup::has_ref(
            group,
            sets[i][j],
        )
}

proof fn lemma_max_ref(clauses: Seq<SortGroupClause>, n: int, r: u32)
    requires
        0 <= n <= clauses.len(),
    ensures
        0 <= max_ref(clauses, n) <= u32::MAX,
        crate::sortgroup::has_ref(clauses.take(n), r) ==> r <= max_ref(clauses, n),
        n > 0 ==> crate::sortgroup::has_ref(clauses, max_ref(clauses, n) as u32) || max_ref(
            clauses,
            n,
        ) == 0,
    decreases n,
{
    if n > 0 {
        lemma_max_ref(clauses, n - 1, r);
        if crate::sortgroup::has_ref(clauses.take(n), r) && clauses[n - 1].tle_sort_group_ref != r {
            let i = choose|i: int|
                0 <= i < clauses.take(n).len() && (
                #[trigger] clauses.take(n)[i]).tle_sort_group_ref == r;
            assert(clauses.take(n - 1)[i] == clauses.take(n)[i]);
        }
        if clauses[n - 1].tle_sort_group_ref > max_ref(clauses, n - 1) {
            assert(clauses[n - 1].tle_sort_group_ref == max_ref(clauses, n));
        }
    }
}

proof fn lemma_clause_for(clauses: Seq<SortGroupClause>, r: u32, from: int)
    requires
        0 <= from,
        exists|i: int|
            from <= i < clauses.len() && (#[trigger] clauses[i]).tle_sort_group_ref == r,
    ensures
        crate::sortgroup::position_of_ref(clauses, r, from) is Some,
        from <= crate::sortgroup::position_of_ref(clauses, r, from)->0 < clauses.len(),
        clauses[crate::sortgroup::position_of_ref(clauses, r, from)->0].tle_sort_group_ref == r,
    decreases clauses.len() - from,
{
    if clauses[from].tle_sort_group_ref != r {
        lemma_clause_for(clauses, r, from + 1);
    }
}

proof fn lemma_ordered_refs_known(
    group: Seq<SortGroupClause>,
    chain: Seq<Seq<u32>>,
    sort: Seq<SortGroupClause>,
    n: int,
)
    requires
        0 <= n <= chain.len(),
        known_refs(group, chain),
    ensures
        forall|x: u32| #[trigger]
            ordered_refs(chain, sort, n).0.contains(x) ==> crate::sortgroup::has_ref(group, x),
    decreases n,
{
    if n > 0 {
        broadcast use vstd::seq_lib::group_to_multiset_ensures;

        lemma_ordered_refs_known(group, chain, sort, n - 1);
        let (previous, live) = ordered_refs(chain, sort, n - 1);
        let candidate = chain[n - 1];
        let fresh = fresh_refs(candidate, previous, candidate.len() as int);
        let (placed, rest, still) = follow_sort(previous, fresh, sort, live);
        let after = ordered_refs(chain, sort, n).0;
        lemma_follow_sort(previous, fresh, sort, live);
        lemma_fresh_refs(candidate, previous, candidate.len() as int);
        assert(candidate.take(candidate.len() as int) =~= candidate);
        let both = previous + fresh;
        assert forall|x: u32| #[trigger] after.contains(x) implies crate::sortgroup::has_ref(
            group,
            x,
        ) by {
            assert(after.to_multiset().count(x) > 0);
            assert(both.to_multiset().count(x) > 0);
            assert(both.contains(x));
            let i = choose|i: int| 0 <= i < both.len() && both[i] == x;
            if i < previous.len() {
                assert(previous[i] == x);
                assert(previous.contains(x));
            } else {
                assert(fresh[i - previous.len()] == x);
                assert(fresh.contains(x));
                let k = choose|k: int| 0 <= k < candidate.len() && candidate[k] == x;
                assert(chain[n - 1][k] == x);
            }
        }
    }
}

fn any_overlap(refs: &Vec<u32>, set: &Vec<u32>) -> (r: bool)
    ensures
        r == overlaps(refs@, set@),
{
    let mut j: usize = 0;
    while j < set.len()
        invariant
            j <= set@.len(),
            forall|k: int| 0 <= k < j ==> !refs@.contains(#[trigger] set@[k]),
        decreases set@.len() - j,
    {
        if holds_ref(refs, set[j]) {
            return true;
        }
        j = j + 1;
    }
    false
}

/// The map has room for every reference of the clauses.
pub open spec fn map_covers(map: Seq<usize>, group: Seq<SortGroupClause>) -> bool {
    forall|r: u32| #[trigger] crate::sortgroup::has_ref(group, r) ==> r < map.len()
}

/// The clauses for known references are there, and the map has room for them.
pub proof fn lemma_forced_refs(group: Seq<SortGroupClause>, refs: Seq<u32>, map: Seq<usize>)
    requires
        map_covers(map, group),
        forall|x: u32| #[trigger] refs.contains(x) ==> crate::sortgroup::has_ref(group, x),
    ensures
        ({
            let clause = refs.map_values(|r: u32| crate::sortgroup::clause_for(group, r));
            &&& forall|i: int|
                0 <= i < clause.len() ==> (#[trigger] clause[i]).tle_sort_group_ref < map.len()
            &&& forall|i: int|
                0 <= i < clause.len() ==> (#[trigger] clause[i]).tle_sort_group_ref == refs[i]
            &&& colnum_map(map, clause, clause.len() as int).len() == map.len()
        }),
{
    let clause = refs.map_values(|r: u32| crate::sortgroup::clause_for(group, r));
    assert forall|i: int| 0 <= i < clause.len() implies (#[trigger] clause[i]).tle_sort_group_ref
        < map.len() && clause[i].tle_sort_group_ref == refs[i] by {
        assert(refs.contains(refs[i]));
        assert(crate::sortgroup::has_ref(group, refs[i]));
        lemma_clause_for(group, refs[i], 0);
    }
    lemma_colnum_map_len(map, clause, clause.len() as int);
}

/// Builds the rollup for one chain of grouping sets.
fn make_rollup(
    group_clause: &Vec<SortGroupClause>,
    sort_clause: &Vec<SortGroupClause>,
    unhashable: &Vec<u32>,
    chain: &Vec<Vec<u32>>,
    map: &mut Vec<usize>,
) -> (rollup: RollupData)
    requires
        chain@.len() > 0,
        known_refs(group_clause@, crate::rollup::sets_view(chain@)),
        map_covers(old(map)@, group_clause@),
    ensures
        (rollup@, final(map)@) == rollup_of(
            group_clause@,
            sort_clause@,
            unhashable@,
            crate::rollup::sets_view(chain@),
            old(map)@,
        ),
        final(map)@.len() == old(map)@.len(),
{
    let ghost cv = crate::rollup::sets_view(chain@);
    let ghost n = cv.len() as int;
    let current_sets = reorder_grouping_sets(chain, sort_clause);
    let first_set = copy_refs(&current_sets[0].set);
    proof {
        assert(current_sets@[0]@.set == ordered_refs(cv, sort_clause@, n).0);
        lemma_ordered_refs_known(group_clause@, cv, sort_clause@, n);
        lemma_forced_refs(group_clause@, first_set@, map@);
        assert forall|i: int| 0 <= i < first_set@.len() implies crate::sortgroup::has_ref(
            group_clause@,
            #[trigger] first_set@[i],
        ) by {
            assert(first_set@.contains(first_set@[i]));
        }
        assert forall|i: int, j: int|
            #![trigger gsets_view(current_sets@)[i].set[j]]
            0 <= i < current_sets@.len() && 0 <= j < gsets_view(
                current_sets@,
            )[i].set.len() implies gsets_view(current_sets@)[i].set[j] < map@.len() by {
            let refs = current_sets@[i]@.set;
            lemma_ordered_refs_known(group_clause@, cv, sort_clause@, n - i);
            assert(refs.contains(refs[j]));
        }
    }
    let clause = preprocess_groupclause(group_clause, sort_clause, Some(&first_set));
    let hashable = first_set.len() > 0 && !any_overlap(unhashable, &first_set);
    let gsets = remap_to_groupclause_idx(&clause, &current_sets, map);
    assert(gsets_view(current_sets@) =~= rollup_of(
        group_clause@,
        sort_clause@,
        unhashable@,
        cv,
        old(map)@,
    ).0.gsets_data);
    RollupData {
        group_clause: clause,
        gsets,
        gsets_data: current_sets,
        num_groups: GroupCount::Estimate(0),
        hashable,
        is_hashed: false,
    }
}

/// Some set can neither be sorted nor hashed.
pub open spec fn not_groupable(group: Seq<SortGroupClause>, sets: Seq<Seq<u32>>) -> bool {
    exists|i: int|
        0 <= i < sets.len() && overlaps(
            unsortable_refs(group, group.len() as int),
            #[trigger] sets[i],
        ) && overlaps(unhashable_refs(group, group.len() as int), sets[i])
}

/// What is prepared of grouping sets that can be planned: the sets that cannot
/// be sorted are set aside, to be hashed, and the others are split into the
/// fewest rollups.
pub open spec fn is_prepared(
    group: Seq<SortGroupClause>,
    sort: Seq<SortGroupClause>,
    sets: Seq<Seq<u32>>,
    gd: GroupingSetsData,
) -> bool {
    let unsortable = unsortable_refs(group, group.len() as int);
    let unhashable = unhashable_refs(group, group.len() as int);
    let set_aside = sets_with(sets, unsortable, true, sets.len() as int);
    let sortable = sets_with(sets, unsortable, false, sets.len() as int);
    let unsortable_data = Seq::new(
        set_aside.len(),
        |i: int| GroupingSet { set: set_aside[i], num_groups: GroupCount::Estimate(0) },
    );
    let map0 = Seq::new((max_ref(group, group.len() as int) + 1) as nat, |i: int| 0usize);
    &&& gd.unsortable_refs@ == unsortable
    &&& gd.unhashable_refs@ == unhashable
    &&& gsets_view(gd.unsortable_sets@) == unsortable_data
    &&& exists|chains: Seq<Seq<Seq<u32>>>|
        {
            &&& sortable.len() == 0 ==> chains.len() == 0
            &&& sortable.len() > 0 ==> crate::rollup::is_rollup_split(sortable, chains)
            &&& rollups_view(gd.rollups@) == (
            #[trigger] rollups_of(
                group,
                sort,
                unhashable,
                chains,
                map0,
                chains.len() as int,
            )).0
            &&& gd.tleref_to_colnum_map@ == ({
                let map1 = rollups_of(
                    group,
                    sort,
                    unhashable,
                    chains,
                    map0,
                    chains.len() as int,
                ).1;
                if set_aside.len() > 0 {
                    colnum_map(map1, group, group.len() as int)
                } else {
                    map1
                }
            })
        }
    &&& columns_view(gd.hash_sets_idx@) == (if set_aside.len() > 0 {
        remapped(unsortable_data, gd.tleref_to_colnum_map@)
    } else {
        Seq::empty()
    })
    &&& gd.any_hashable == (set_aside.len() > 0 || exists|i: int|
        0 <= i < gd.rollups@.len() && (#[trigger] gd.rollups@[i]).hashable)
    &&& gd.d_num_hash_groups == GroupCount::Estimate(0)
}

proof fn lemma_sets_with(sets: Seq<Seq<u32>>, refs: Seq<u32>, with: bool, n: int)
    requires
        0 <= n <= sets.len(),
    ensures
        forall|i: int|
            0 <= i < sets_with(sets, refs, with, n).len() ==> sets.contains(
                #[trigger] sets_with(sets, refs, with, n)[i],
            ),
    decreases n,
{
    if n > 0 {
        lemma_sets_with(sets, refs, with, n - 1);
        let before = sets_with(sets, refs, with, n - 1);
        assert(sets.contains(sets[n - 1]));
        assert forall|i: int| 0 <= i < sets_with(sets, refs, with, n).len() implies sets.contains(
            #[trigger] sets_with(sets, refs, with, n)[i],
        ) by {
            if i < before.len() {
                assert(sets_with(sets, refs, with, n)[i] == before[i]);
            }
        }
    }
}

proof fn lemma_known_subset(
    group: Seq<SortGroupClause>,
    sets: Seq<Seq<u32>>,
    some: Seq<Seq<u32>>,
)
    requires
        known_refs(group, sets),
        forall|i: int| 0 <= i < some.len() ==> sets.contains(#[trigger] some[i]),
    ensures
        known_refs(group, some),
{
    assert forall|i: int, j: int|
        #![trigger some[i][j]]
        0 <= i < some.len() && 0 <= j < some[i].len() implies crate::sortgroup::has_ref(
        group,
        some[i][j],
    ) by {
        assert(sets.contains(some[i]));
        let k = choose|k: int| 0 <= k < sets.len() && sets[k] == some[i];
        assert(sets[k][j] == some[i][j]);
    }
}

/// The different sets that can be sorted, the empty one aside, are no more than
/// can be numbered.
pub open spec fn few_sortable_sets(group: Seq<SortGroupClause>, sets: Seq<Seq<u32>>) -> bool {
    let sortable = sets_with(
        sets,
        unsortable_refs(group, group.len() as int),
        false,
        sets.len() as int,
    );
    crate::rollup::distinct_sets(sortable, sortable.len() as int) < i16::MAX
}

/// Prepares the grouping sets of a query, given smallest first, for planning.
/// Fails where a set holds both a reference that cannot be sorted and one
/// that cannot be hashed.
pub fn preprocess_grouping_sets(
    group_clause: &Vec<SortGroupClause>,
    sort_clause: &Vec<SortGroupClause>,
    grouping_sets: &Vec<Vec<u32>>,
) -> (result: Result<GroupingSetsData, PlannerError>)
    requires
        0 < grouping_sets@.len(),
        !not_groupable(group_clause@, crate::rollup::sets_view(grouping_sets@)) ==> {
            &&& few_sortable_sets(group_clause@, crate::rollup::sets_view(grouping_sets@))
            &&& crate::rollup::smallest_first(crate::rollup::sets_view(grouping_sets@))
        },
        known_refs(group_clause@, crate::rollup::sets_view(grouping_sets@)),
        forall|i: int|
            0 <= i < group_clause@.len() ==> (#[trigger] group_clause@[i]).tle_sort_group_ref
                < usize::MAX,
    ensures
        match result {
            Ok(gd) => {
                &&& !not_groupable(group_clause@, crate::rollup::sets_view(grouping_sets@))
                &&& is_prepared(
                    group_clause@,
                    sort_clause@,
                    crate::rollup::sets_view(grouping_sets@),
                    gd,
                )
            },
            Err(e) => {
                &&& not_groupable(group_clause@, crate::rollup::sets_view(grouping_sets@))
                &&& e == PlannerError::CouldNotImplementGroupBy
            },
        },
{
    let ghost sets = crate::rollup::sets_view(grouping_sets@);
    let ghost group = group_clause@;
    let mut maxref: u32 = 0;
    let mut unhashable: Vec<u32> = Vec::new();
    let mut unsortable: Vec<u32> = Vec::new();
    let mut i: usize = 0;
    while i < group_clause.len()
        invariant
            i <= group_clause@.len(),
            group == group_clause@,
            forall|i: int|
                0 <= i < group_clause@.len() ==> (#[trigger] group_clause@[i]).tle_sort_group_ref
                    < usize::MAX,
            maxref == max_ref(group, i as int),
            maxref < usize::MAX,
            unhashable@ == unhashable_refs(group, i as int),
            unsortable@ == unsortable_refs(group, i as int),
        decreases group_clause@.len() - i,
    {
        let gc: SortGroupClause = group_clause[i];
        if gc.tle_sort_group_ref > maxref {
            maxref = gc.tle_sort_group_ref;
        }
        if !gc.hashable {
            unhashable.push(gc.tle_sort_group_ref);
        }
        if gc.sortop == 0 {
            unsortable.push(gc.tle_sort_group_ref);
        }
        i = i + 1;
    }
    let mut map: Vec<usize> = vec![0; maxref as usize + 1];
    let ghost map0 = map@;
    proof {
        assert(map0 =~= Seq::new((max_ref(group, group.len() as int) + 1) as nat, |i: int| 0usize));
        assert forall|r: u32| #[trigger] crate::sortgroup::has_ref(group, r) implies r
            < map0.len() by {
            lemma_max_ref(group, group.len() as int, r);
            assert(group.take(group.len() as int) =~= group);
        }
    }
    let mut unsortable_sets: Vec<GroupingSetData> = Vec::new();
    let mut sortable_sets: Vec<Vec<u32>> = Vec::new();
    let ghost uns = unsortable@;
    let ghost unh = unhashable@;
    let mut k: usize = 0;
    while k < grouping_sets.len()
        invariant
            k <= grouping_sets@.len(),
            sets == crate::rollup::sets_view(grouping_sets@),
            group == group_clause@,
            uns == unsortable@,
            unh == unhashable@,
            uns == unsortable_refs(group, group.len() as int),
            unh == unhashable_refs(group, group.len() as int),
            crate::rollup::sets_view(sortable_sets@) == sets_with(sets, uns, false, k as int),
            sortable_sets@.len() <= k,
            crate::rollup::smallest_first(sets) ==> crate::rollup::smallest_first(
                crate::rollup::sets_view(sortable_sets@),
            ),
            crate::rollup::smallest_first(sets) ==> forall|a: int, b: int|
                0 <= a < sortable_sets@.len() && k <= b < sets.len() ==> (
                #[trigger] crate::rollup::sets_view(sortable_sets@)[a]).len() <= (
                #[trigger] sets[b]).len(),
            unsortable_sets@.len() == sets_with(sets, uns, true, k as int).len(),
            forall|a: int|
                0 <= a < unsortable_sets@.len() ==> (#[trigger] unsortable_sets@[a])@ == (
                GroupingSet {
                    set: sets_with(sets, uns, true, k as int)[a],
                    num_groups: GroupCount::Estimate(0),
                }),
            forall|a: int|
                0 <= a < k ==> !(overlaps(uns, #[trigger] sets[a]) && overlaps(unh, sets[a])),
        decreases grouping_sets@.len() - k,
    {
        assert(sets[k as int] == grouping_sets@[k as int]@);
        let set = copy_refs(&grouping_sets[k]);
        let ghost before = crate::rollup::sets_view(sortable_sets@);
        if any_overlap(&unsortable, &set) {
            if any_overlap(&unhashable, &set) {
                return Err(PlannerError::CouldNotImplementGroupBy);
            }
            unsortable_sets.push(GroupingSetData { set, num_groups: GroupCount::Estimate(0) });
        } else {
            sortable_sets.push(set);
            assert(crate::rollup::sets_view(sortable_sets@) =~= before.push(sets[k as int]));
        }
        k = k + 1;
    }
    let ghost sortable = sets_with(sets, uns, false, sets.len() as int);
    let ghost set_aside = sets_with(sets, uns, true, sets.len() as int);
    proof {
        lemma_sets_with(sets, uns, false, sets.len() as int);
        lemma_known_subset(group, sets, sortable);
        lemma_sets_with(sets, uns, true, sets.len() as int);
        lemma_known_subset(group, sets, set_aside);
    }
    let any_sortable = sortable_sets.len() > 0;
    let chains: Vec<Vec<Vec<u32>>> = if any_sortable {
        extract_rollup_sets(sortable_sets)
    } else {
        Vec::new()
    };
    let ghost cv = crate::rollup::chains_view(chains@);
    let mut rollups: Vec<RollupData> = Vec::new();
    let mut any_hashable = false;
    let no_sort: Vec<SortGroupClause> = Vec::new();
    let mut c: usize = 0;
    while c < chains.len()
        invariant
            c <= chains@.len(),
            cv == crate::rollup::chains_view(chains@),
            group == group_clause@,
            unh == unhashable@,
            no_sort@ == Seq::<SortGroupClause>::empty(),
            known_refs(group, sortable),
            map_covers(map0, group),
            map@.len() == map0.len(),
            chains@.len() > 0 ==> sortable.len() > 0 && crate::rollup::is_rollup_split(
                sortable,
                cv,
            ),
            (rollups_view(rollups@), map@) == rollups_of(
                group,
                sort_clause@,
                unh,
                cv,
                map0,
                c as int,
            ),
            any_hashable == exists|i: int|
                0 <= i < rollups@.len() && (#[trigger] rollups@[i]).hashable,
        decreases chains@.len() - c,
    {
        proof {
            assert forall|a: int| 0 <= a < cv[c as int].len() implies sortable.contains(
                #[trigger] cv[c as int][a],
            ) by {
                crate::rollup::lemma_split_holds_sets(sortable, cv, c as int, a);
            }
            lemma_known_subset(group, sortable, cv[c as int]);
            assert(cv[c as int] == crate::rollup::sets_view(chains@[c as int]@));
        }
        let ghost before = rollups_view(rollups@);
        let ghost old_rollups = rollups@;
        let rollup = make_rollup(
            group_clause,
            if chains.len() == 1 {
                sort_clause
            } else {
                &no_sort
            },
            &unhashable,
            &chains[c],
            &mut map,
        );
        let ghost any0 = any_hashable;
        if rollup.hashable {
            any_hashable = true;
        }
        rollups.push(rollup);
        proof {
            assert(rollups_view(rollups@) =~= before.push(rollup@));
            if any_hashable {
                if any0 {
                    let i = choose|i: int|
                        0 <= i < old_rollups.len() && (#[trigger] old_rollups[i]).hashable;
                    assert(rollups@[i].hashable);
                } else {
                    assert(rollups@[old_rollups.len() as int].hashable);
                }
            }
        }
        c = c + 1;
    }
    let ghost unsortable_data = gsets_view(unsortable_sets@);
    assert(unsortable_data =~= Seq::new(
        set_aside.len(),
        |i: int| GroupingSet { set: set_aside[i], num_groups: GroupCount::Estimate(0) },
    ));
    let ghost map1 = map@;
    let mut hash_sets_idx: Vec<Vec<usize>> = Vec::new();
    if unsortable_sets.len() > 0 {
        proof {
            assert forall|i: int| 0 <= i < group.len() implies (
            #[trigger] group[i]).tle_sort_group_ref < map@.len() by {
                assert(crate::sortgroup::has_ref(group, group[i].tle_sort_group_ref));
            }
            assert forall|i: int, j: int|
                #![trigger unsortable_data[i].set[j]]
                0 <= i < unsortable_data.len() && 0 <= j
                    < unsortable_data[i].set.len() implies unsortable_data[i].set[j] < map@.len() by {
                assert(unsortable_data[i].set == set_aside[i]);
                assert(crate::sortgroup::has_ref(group, set_aside[i][j]));
            }
        }
        hash_sets_idx = remap_to_groupclause_idx(group_clause, &unsortable_sets, &mut map);
        any_hashable = true;
    }
    assert(!any_sortable ==> cv.len() == 0);
    assert(unsortable_sets@.len() == 0 ==> columns_view(hash_sets_idx@) =~= Seq::empty());
    let gd = GroupingSetsData {
        rollups,
        any_hashable,
        unsortable_refs: unsortable,
        unhashable_refs: unhashable,
        unsortable_sets,
        hash_sets_idx,
        tleref_to_colnum_map: map,
        d_num_hash_groups: GroupCount::Estimate(0),
    };
    assert(rollups_view(gd.rollups@) == rollups_of(
        group,
        sort_clause@,
        unh,
        cv,
        map0,
        cv.len() as int,
    ).0);
    Ok(gd)
}

/// A list built for a set that is not empty is not empty.
proof fn lemma_ordered_refs_nonempty(
    chain: Seq<Seq<u32>>,
    sort: Seq<SortGroupClause>,
    n: int,
)
    requires
        0 < n <= chain.len(),
        chain[n - 1].len() > 0,
    ensures
        ordered_refs(chain, sort, n).0.len() > 0,
{
    broadcast use vstd::seq_lib::group_to_multiset_ensures;

    let (previous, live) = ordered_refs(chain, sort, n - 1);
    let candidate = chain[n - 1];
    let fresh = fresh_refs(candidate, previous, candidate.len() as int);
    let (placed, rest, still) = follow_sort(previous, fresh, sort, live);
    lemma_follow_sort(previous, fresh, sort, live);
    lemma_fresh_refs(candidate, previous, candidate.len() as int);
    assert(candidate.take(candidate.len() as int) =~= candidate);
    assert(candidate.contains(candidate[0]));
    if previous.len() == 0 {
        assert(fresh.contains(candidate[0]));
    }
    assert((placed + rest).to_multiset().len() == (previous + fresh).to_multiset().len());
}

proof fn lemma_rollups_of(
    group: Seq<SortGroupClause>,
    sort: Seq<SortGroupClause>,
    unhashable: Seq<u32>,
    chains: Seq<Seq<Seq<u32>>>,
    map: Seq<usize>,
    n: int,
)
    requires
        0 <= n <= chains.len(),
        map_covers(map, group),
        forall|c: int|
            0 <= c < chains.len() ==> known_refs(group, #[trigger] chains[c]) && chains[c].len()
                > 0,
    ensures
        rollups_of(group, sort, unhashable, chains, map, n).0.len() == n,
        rollups_of(group, sort, unhashable, chains, map, n).1.len() == map.len(),
        forall|c: int|
            0 <= c < n ==> (#[trigger] rollups_of(
                group,
                sort,
                unhashable,
                chains,
                map,
                n,
            ).0[c]).gsets_data == Seq::new(
                chains[c].len(),
                |i: int|
                    GroupingSet {
                        set: ordered_refs(
                            chains[c],
                            if chains.len() == 1 {
                                sort
                            } else {
                                Seq::empty()
                            },
                            chains[c].len() - i,
                        ).0,
                        num_groups: GroupCount::Estimate(0),
                    },
            ),
    decreases n,
{
    if n > 0 {
        lemma_rollups_of(group, sort, unhashable, chains, map, n - 1);
        let used = if chains.len() == 1 {
            sort
        } else {
            Seq::empty()
        };
        let before = rollups_of(group, sort, unhashable, chains, map, n - 1);
        let chain = chains[n - 1];
        let refs = ordered_refs(chain, used, chain.len() as int).0;
        lemma_ordered_refs_known(group, chain, used, chain.len() as int);
        lemma_forced_refs(group, refs, before.1);
        let now = rollups_of(group, sort, unhashable, chains, map, n);
        assert forall|c: int| 0 <= c < n implies (#[trigger] now.0[c]).gsets_data == Seq::new(
            chains[c].len(),
            |i: int|
                GroupingSet {
                    set: ordered_refs(chains[c], used, chains[c].len() - i).0,
                    num_groups: GroupCount::Estimate(0),
                },
        ) by {
            if c < n - 1 {
                assert(now.0[c] == before.0[c]);
            }
        }
    }
}

/// Prepared grouping sets hold only references of the group clauses, and only
/// the first rollup holds empty sets.
pub proof fn lemma_prepared_sets(
    group: Seq<SortGroupClause>,
    sort: Seq<SortGroupClause>,
    sets: Seq<Seq<u32>>,
    gd: GroupingSetsData,
)
    requires
        known_refs(group, sets),
        is_prepared(group, sort, sets, gd),
    ensures
        map_covers(gd.tleref_to_colnum_map@, group),
        forall|i: int, x: u32|
            0 <= i < gd.unsortable_sets@.len() && #[trigger] gsets_view(
                gd.unsortable_sets@,
            )[i].set.contains(x) ==> crate::sortgroup::has_ref(group, x),
        forall|i: int|
            0 <= i < gd.unsortable_sets@.len() ==> (#[trigger] gsets_view(
                gd.unsortable_sets@,
            )[i]).set.len() > 0,
        forall|c: int, a: int, x: u32|
            0 <= c < gd.rollups@.len() && 0 <= a < rollups_view(gd.rollups@)[c].gsets_data.len()
                && #[trigger] rollups_view(gd.rollups@)[c].gsets_data[a].set.contains(x)
                ==> crate::sortgroup::has_ref(group, x),
        forall|c: int, a: int|
            1 <= c < gd.rollups@.len() && 0 <= a < rollups_view(gd.rollups@)[c].gsets_data.len()
                ==> (#[trigger] rollups_view(gd.rollups@)[c].gsets_data[a]).set.len() > 0,
{
    let unsortable = unsortable_refs(group, group.len() as int);
    let unhashable = unhashable_refs(group, group.len() as int);
    let set_aside = sets_with(sets, unsortable, true, sets.len() as int);
    let sortable = sets_with(sets, unsortable, false, sets.len() as int);
    let map0 = Seq::new((max_ref(group, group.len() as int) + 1) as nat, |i: int| 0usize);
    lemma_sets_with(sets, unsortable, false, sets.len() as int);
    lemma_sets_with(sets, unsortable, true, sets.len() as int);
    lemma_known_subset(group, sets, sortable);
    lemma_known_subset(group, sets, set_aside);
    lemma_sets_with_overlap(sets, unsortable, sets.len() as int);
    lemma_max_ref(group, group.len() as int, 0);
    assert forall|r: u32| #[trigger] crate::sortgroup::has_ref(group, r) implies r < map0.len() by {
        lemma_max_ref(group, group.len() as int, r);
        assert(group.take(group.len() as int) =~= group);
    }
    let chains = choose|chains: Seq<Seq<Seq<u32>>>|
        {
            &&& sortable.len() == 0 ==> chains.len() == 0
            &&& sortable.len() > 0 ==> crate::rollup::is_rollup_split(sortable, chains)
            &&& rollups_view(gd.rollups@) == (
            #[trigger] rollups_of(
                group,
                sort,
                unhashable,
                chains,
                map0,
                chains.len() as int,
            )).0
            &&& gd.tleref_to_colnum_map@ == ({
                let map1 = rollups_of(
                    group,
                    sort,
                    unhashable,
                    chains,
                    map0,
                    chains.len() as int,
                ).1;
                if set_aside.len() > 0 {
                    colnum_map(map1, group, group.len() as int)
                } else {
                    map1
                }
            })
        };
    assert forall|c: int| 0 <= c < chains.len() implies known_refs(group, #[trigger] chains[c])
        && chains[c].len() > 0 by {
        assert forall|a: int| 0 <= a < chains[c].len() implies sortable.contains(
            #[trigger] chains[c][a],
        ) by {
            crate::rollup::lemma_split_holds_sets(sortable, chains, c, a);
        }
        lemma_known_subset(group, sortable, chains[c]);
    }
    lemma_rollups_of(group, sort, unhashable, chains, map0, chains.len() as int);
    let map1 = rollups_of(group, sort, unhashable, chains, map0, chains.len() as int).1;
    assert forall|i: int| 0 <= i < group.len() implies (#[trigger] group[i]).tle_sort_group_ref
        < map1.len() by {
        assert(crate::sortgroup::has_ref(group, group[i].tle_sort_group_ref));
    }
    lemma_colnum_map_len(map1, group, group.len() as int);
    let rv = rollups_view(gd.rollups@);
    let used = if chains.len() == 1 {
        sort
    } else {
        Seq::empty()
    };
    assert forall|c: int, a: int|
        0 <= c < rv.len() && 0 <= a < rv[c].gsets_data.len() implies (
    #[trigger] rv[c].gsets_data[a]).set == ordered_refs(chains[c], used, chains[c].len() - a).0 by {
        assert(rv[c].gsets_data.len() == chains[c].len());
    }
    assert forall|c: int, a: int, x: u32|
        0 <= c < rv.len() && 0 <= a < rv[c].gsets_data.len()
            && #[trigger] rv[c].gsets_data[a].set.contains(x) implies crate::sortgroup::has_ref(
        group,
        x,
    ) by {
        lemma_ordered_refs_known(group, chains[c], used, chains[c].len() - a);
    }
    assert forall|c: int, a: int|
        1 <= c < rv.len() && 0 <= a < rv[c].gsets_data.len() implies (
    #[trigger] rv[c].gsets_data[a]).set.len() > 0 by {
        let n = chains[c].len() - a;
        assert(chains[c][n - 1].len() > 0);
        lemma_ordered_refs_nonempty(chains[c], used, n);
    }
    let uv = gsets_view(gd.unsortable_sets@);
    let data = Seq::new(
        set_aside.len(),
        |i: int| GroupingSet { set: set_aside[i], num_groups: GroupCount::Estimate(0) },
    );
    assert(uv == data);
    assert(uv.len() == gd.unsortable_sets@.len());
    assert(data.len() == set_aside.len());
    assert forall|i: int, x: u32|
        0 <= i < gd.unsortable_sets@.len() && #[trigger] uv[i].set.contains(
            x,
        ) implies crate::sortgroup::has_ref(group, x) by {
        assert(uv[i] == data[i]);
        let one = set_aside[i];
        assert(one.contains(x));
        let k = choose|k: int| 0 <= k < one.len() && one[k] == x;
        assert(set_aside[i][k] == x);
    }
    assert forall|i: int| 0 <= i < gd.unsortable_sets@.len() implies (
    #[trigger] uv[i]).set.len() > 0 by {
        assert(uv[i] == data[i]);
        assert(set_aside[i].len() > 0);
    }
}

proof fn lemma_sets_with_overlap(sets: Seq<Seq<u32>>, refs: Seq<u32>, n: int)
    requires
        0 <= n <= sets.len(),
    ensures
        forall|i: int|
            0 <= i < sets_with(sets, refs, true, n).len() ==> (
            #[trigger] sets_with(sets, refs, true, n)[i]).len() > 0,
    decreases n,
{
    if n > 0 {
        lemma_sets_with_overlap(sets, refs, n - 1);
        let before = sets_with(sets, refs, true, n - 1);
        assert forall|i: int| 0 <= i < sets_with(sets, refs, true, n).len() implies (
        #[trigger] sets_with(sets, refs, true, n)[i]).len() > 0 by {
            if i < before.len() {
                assert(sets_with(sets, refs, true, n)[i] == before[i]);
            }
        }
    }
}

} // verus!

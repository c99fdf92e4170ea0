//! Which paths are built for GROUPING SETS.
use vstd::prelude::*;
use vstd::multiset::Multiset;
use crate::groupingsets::{
    append_gsets, copy_gsets, remap_to_groupclause_idx, GroupCount, GroupingSetData, GroupingSetsData, RollupData,
};
use crate::knapsack::discrete_knapsack;
use crate::sortgroup::{preprocess_groupclause, SortGroupClause};

verus! {

/// How an aggregate is computed.
#[derive(Clone, Copy, Debug, PartialEq, Eq, Structural)]
pub enum AggStrategy {
    /// Without grouping.
    Plain,
    /// From sorted input.
    Sorted,
    /// With hash tables.
    Hashed,
    /// Partly from sorted input, partly with hash tables.
    Mixed,
}

/// A path that computes grouping sets.
#[derive(Debug)]
pub struct GroupingSetsPath {
    pub strategy: AggStrategy,
    pub rollups: Vec<RollupData>,
}

/// What such a path holds.
pub ghost struct GroupingSetsChoice {
    pub strategy: AggStrategy,
    pub rollups: Seq<crate::groupingsets::Rollup>,
}

impl View for GroupingSetsPath {
    type V = GroupingSetsChoice;

    open spec fn view(&self) -> GroupingSetsChoice {
        GroupingSetsChoice {
            strategy: self.strategy,
            rollups: crate::groupingsets::rollups_view(self.rollups@),
        }
    }
}

/// What a list of such paths holds.
pub open spec fn paths_view(paths: Seq<GroupingSetsPath>) -> Seq<GroupingSetsChoice> {
    Seq::new(paths.len(), |i: int| paths[i]@)
}

/// How the hash tables compare with the memory that they may take.
#[derive(Debug)]
pub struct HashBudget {
    /// Tables for all groups together are too large.
    pub exceeded_by_all: bool,
    /// Tables for all groups but those of the first rollup are too large.
    pub exceeded_without_first: bool,
    /// The space left for hashing further rollups, and what each of those that
    /// can be hashed would take, the first rollup left out. None where nothing
    /// is left.
    pub knapsack: Option<(i32, Vec<i32>)>,
}

/// The rollup that hashes a single grouping set, and the map that it leaves.
pub open spec fn hashed_rollup(
    group: Seq<SortGroupClause>,
    gs: crate::groupingsets::GroupingSet,
    map: Seq<usize>,
) -> (crate::groupingsets::Rollup, Seq<usize>) {
    let clause = gs.set.map_values(|r: u32| crate::sortgroup::clause_for(group, r));
    let entered = crate::groupingsets::colnum_map(map, clause, clause.len() as int);
    (
        crate::groupingsets::Rollup {
            group_clause: clause,
            gsets: crate::groupingsets::remapped(seq![gs], entered),
            gsets_data: seq![gs],
            num_groups: gs.num_groups,
            hashable: true,
            is_hashed: true,
        },
        entered,
    )
}

/// The rollups that hash each of the first `n` grouping sets by itself.
pub open spec fn hashed_rollups(
    group: Seq<SortGroupClause>,
    sets: Seq<crate::groupingsets::GroupingSet>,
    map: Seq<usize>,
    n: int,
) -> (Seq<crate::groupingsets::Rollup>, Seq<usize>)
    decreases n,
{
    if n <= 0 {
        (Seq::empty(), map)
    } else {
        let (rollups, entered) = hashed_rollups(group, sets, map, n - 1);
        let (rollup, now) = hashed_rollup(group, sets[n - 1], entered);
        (rollups.push(rollup), now)
    }
}

/// The grouping sets of the rollups from `from` up to `n`.
pub open spec fn sets_of_rollups(
    rollups: Seq<crate::groupingsets::Rollup>,
    from: int,
    n: int,
) -> Seq<crate::groupingsets::GroupingSet>
    decreases n - from,
{
    if n <= from {
        Seq::empty()
    } else {
        sets_of_rollups(rollups, from, n - 1) + rollups[n - 1].gsets_data
    }
}

/// Those of the first `n` sets that are empty, or those that are not.
pub open spec fn sets_by_emptiness(
    sets: Seq<crate::groupingsets::GroupingSet>,
    empty: bool,
    n: int,
) -> Seq<crate::groupingsets::GroupingSet>
    decreases n,
{
    if n <= 0 {
        Seq::empty()
    } else if (sets[n - 1].set.len() == 0) == empty {
        sets_by_emptiness(sets, empty, n - 1).push(sets[n - 1])
    } else {
        sets_by_emptiness(sets, empty, n - 1)
    }
}

/// The rollup of only empty sets: one group for each.
pub open spec fn empty_rollup(
    sets: Seq<crate::groupingsets::GroupingSet>,
) -> crate::groupingsets::Rollup {
    crate::groupingsets::Rollup {
        group_clause: Seq::empty(),
        gsets: Seq::new(sets.len(), |i: int| Seq::empty()),
        gsets_data: sets,
        num_groups: GroupCount::Exact(sets.len() as usize),
        hashable: false,
        is_hashed: false,
    }
}

/// How many of the rollups from the second up to `n` can be hashed.
pub open spec fn hashable_count(rollups: Seq<crate::groupingsets::Rollup>, n: int) -> nat
    decreases n,
{
    if n <= 1 {
        0
    } else {
        hashable_count(rollups, n - 1) + if rollups[n - 1].hashable {
            1nat
        } else {
            0nat
        }
    }
}

/// The rollups that stay sorted and the sets that are hashed instead, among
/// the first `n` rollups, if `items` says which of those that can be hashed
/// are. The first rollup matches the order of the input and stays sorted.
pub open spec fn split_rollups(
    rollups: Seq<crate::groupingsets::Rollup>,
    items: Seq<bool>,
    n: int,
) -> (Seq<crate::groupingsets::Rollup>, Seq<crate::groupingsets::GroupingSet>)
    decreases n,
{
    if n <= 1 {
        (seq![rollups[0]], Seq::empty())
    } else {
        let (kept, moved) = split_rollups(rollups, items, n - 1);
        let r = rollups[n - 1];
        if r.hashable && items[hashable_count(rollups, n - 1) as int] {
            (kept, moved + r.gsets_data)
        } else {
            (kept.push(r), moved)
        }
    }
}

/// The path for input that no sort was set up for, and the map it leaves.
pub open spec fn unsorted_choice(
    group: Seq<SortGroupClause>,
    rollups: Seq<crate::groupingsets::Rollup>,
    unsortable_sets: Seq<crate::groupingsets::GroupingSet>,
    map: Seq<usize>,
    presorted: bool,
    budget: HashBudget,
) -> (Seq<GroupingSetsChoice>, Seq<usize>) {
    let keep_first = presorted && rollups.len() > 0;
    let start = if keep_first {
        1int
    } else {
        0
    };
    let exceeded = if keep_first {
        budget.exceeded_without_first
    } else {
        budget.exceeded_by_all
    };
    let sets = unsortable_sets + sets_of_rollups(rollups, start, rollups.len() as int);
    let filled = sets_by_emptiness(sets, false, sets.len() as int);
    let empty = sets_by_emptiness(sets, true, sets.len() as int);
    if exceeded && rollups.len() > 0 {
        (Seq::empty(), map)
    } else if exists|i: int| start <= i < rollups.len() && !(#[trigger] rollups[i]).hashable {
        (Seq::empty(), map)
    } else {
        let (hashed, entered) = hashed_rollups(group, filled, map, filled.len() as int);
        if filled.len() == 0 {
            (Seq::empty(), entered)
        } else if keep_first {
            (
                seq![
                    GroupingSetsChoice {
                        strategy: AggStrategy::Mixed,
                        rollups: hashed.push(rollups[0]),
                    },
                ],
                entered,
            )
        } else if empty.len() > 0 {
            (
                seq![
                    GroupingSetsChoice {
                        strategy: AggStrategy::Mixed,
                        rollups: hashed.push(empty_rollup(empty)),
                    },
                ],
                entered,
            )
        } else {
            (
                seq![GroupingSetsChoice { strategy: AggStrategy::Hashed, rollups: hashed }],
                entered,
            )
        }
    }
}

/// For sorted input: the rollups that stay sorted, and the sets to be hashed
/// in a mixed path.
pub open spec fn mixed_split(
    rollups: Seq<crate::groupingsets::Rollup>,
    unsortable_sets: Seq<crate::groupingsets::GroupingSet>,
    budget: HashBudget,
) -> (Seq<crate::groupingsets::Rollup>, Seq<crate::groupingsets::GroupingSet>) {
    let none = (
        if unsortable_sets.len() > 0 {
            rollups
        } else {
            Seq::empty()
        },
        unsortable_sets,
    );
    match budget.knapsack {
        Some(k) => {
            let n = k.1@.len() as int;
            let items = crate::knapsack::best_selection(k.1@, n, k.0 as int);
            if rollups.len() > 1 && n > 0 && items.contains(true) {
                let (kept, moved) = split_rollups(rollups, items, rollups.len() as int);
                (kept, unsortable_sets + moved)
            } else {
                none
            }
        },
        None => none,
    }
}

/// The paths for sorted input, and the map they leave: one that hashes what
/// fits and sorts the rest, and one that only sorts.
pub open spec fn sorted_choice(
    group: Seq<SortGroupClause>,
    rollups: Seq<crate::groupingsets::Rollup>,
    unsortable_sets: Seq<crate::groupingsets::GroupingSet>,
    map: Seq<usize>,
    can_hash: bool,
    budget: HashBudget,
) -> (Seq<GroupingSetsChoice>, Seq<usize>) {
    let (kept, hash_sets) = mixed_split(rollups, unsortable_sets, budget);
    let (hashed, entered) = hashed_rollups(group, hash_sets, map, hash_sets.len() as int);
    let mixed = hashed.reverse() + kept;
    let pure = if unsortable_sets.len() == 0 {
        seq![GroupingSetsChoice { strategy: AggStrategy::Sorted, rollups }]
    } else {
        Seq::empty()
    };
    if rollups.len() == 0 {
        (Seq::empty(), map)
    } else if !can_hash {
        (pure, map)
    } else if mixed.len() == 0 {
        (pure, entered)
    } else {
        (
            seq![GroupingSetsChoice { strategy: AggStrategy::Mixed, rollups: mixed }] + pure,
            entered,
        )
    }
}

/// Every set is known to the clauses and not empty.
pub open spec fn hashable_sets(
    group: Seq<SortGroupClause>,
    sets: Seq<crate::groupingsets::GroupingSet>,
) -> bool {
    forall|i: int| #![trigger sets[i]] 0 <= i < sets.len() ==> known_set(group, sets[i].set)
        && sets[i].set.len() > 0
}

/// Every reference of the set is that of a clause.
pub open spec fn known_set(group: Seq<SortGroupClause>, set: Seq<u32>) -> bool {
    forall|x: u32| #[trigger] set.contains(x) ==> crate::sortgroup::has_ref(group, x)
}

/// What path building relies on: references are known, and only the first
/// rollup holds empty sets.
pub open spec fn is_plannable(group: Seq<SortGroupClause>, gd: GroupingSetsData) -> bool {
    let rollups = crate::groupingsets::rollups_view(gd.rollups@);
    &&& crate::groupingsets::map_covers(gd.tleref_to_colnum_map@, group)
    &&& hashable_sets(group, crate::groupingsets::gsets_view(gd.unsortable_sets@))
    &&& forall|i: int|
        1 <= i < rollups.len() ==> hashable_sets(group, (#[trigger] rollups[i]).gsets_data)
    &&& rollups.len() > 0 ==> forall|a: int|
        0 <= a < rollups[0].gsets_data.len() ==> known_set(
            group,
            (#[trigger] rollups[0].gsets_data[a]).set,
        )
}

/// Builds the rollup that hashes a single grouping set.
fn make_hashed_rollup(
    group_clause: &Vec<SortGroupClause>,
    gs: &GroupingSetData,
    map: &mut Vec<usize>,
) -> (rollup: RollupData)
    requires
        crate::groupingsets::map_covers(old(map)@, group_clause@),
        known_set(group_clause@, gs@.set),
    ensures
        (rollup@, final(map)@) == hashed_rollup(group_clause@, gs@, old(map)@),
        final(map)@.len() == old(map)@.len(),
{
    let no_sort: Vec<SortGroupClause> = Vec::new();
    proof {
        crate::groupingsets::lemma_forced_refs(group_clause@, gs@.set, map@);
        assert forall|i: int| 0 <= i < gs.set@.len() implies crate::sortgroup::has_ref(
            group_clause@,
            #[trigger] gs.set@[i],
        ) by {
            assert(gs@.set.contains(gs.set@[i]));
        }
    }
    let clause = preprocess_groupclause(group_clause, &no_sort, Some(&gs.set));
    let mut gsets_data: Vec<GroupingSetData> = Vec::new();
    gsets_data.push(gs.copy());
    let ghost data = crate::groupingsets::gsets_view(gsets_data@);
    assert(data =~= seq![gs@]);
    proof {
        assert forall|i: int, j: int|
            #![trigger data[i].set[j]]
            0 <= i < data.len() && 0 <= j < data[i].set.len() implies data[i].set[j]
            < map@.len() by {
            assert(gs@.set.contains(data[i].set[j]));
        }
    }
    let gsets = remap_to_groupclause_idx(&clause, &gsets_data, map);
    RollupData {
        group_clause: clause,
        gsets,
        gsets_data,
        num_groups: gs.num_groups,
        hashable: true,
        is_hashed: true,
    }
}

/// Hashes each of the sets by itself.
fn make_hashed_rollups(
    group_clause: &Vec<SortGroupClause>,
    sets: &Vec<GroupingSetData>,
    map: &mut Vec<usize>,
) -> (rollups: Vec<RollupData>)
    requires
        crate::groupingsets::map_covers(old(map)@, group_clause@),
        hashable_sets(group_clause@, crate::groupingsets::gsets_view(sets@)),
    ensures
        (crate::groupingsets::rollups_view(rollups@), final(map)@) == hashed_rollups(
            group_clause@,
            crate::groupingsets::gsets_view(sets@),
            old(map)@,
            sets@.len() as int,
        ),
        final(map)@.len() == old(map)@.len(),
{
    let ghost sv = crate::groupingsets::gsets_view(sets@);
    let ghost map0 = map@;
    let mut rollups: Vec<RollupData> = Vec::new();
    let mut i: usize = 0;
    assert(crate::groupingsets::rollups_view(rollups@) =~= Seq::empty());
    while i < sets.len()
        invariant
            i <= sets@.len(),
            sv == crate::groupingsets::gsets_view(sets@),
            crate::groupingsets::map_covers(map0, group_clause@),
            hashable_sets(group_clause@, sv),
            map@.len() == map0.len(),
            (crate::groupingsets::rollups_view(rollups@), map@) == hashed_rollups(
                group_clause@,
                sv,
                map0,
                i as int,
            ),
        decreases sets@.len() - i,
    {
        let ghost before = crate::groupingsets::rollups_view(rollups@);
        assert(sv[i as int] == sets@[i as int]@);
        let rollup = make_hashed_rollup(group_clause, &sets[i], map);
        rollups.push(rollup);
        assert(crate::groupingsets::rollups_view(rollups@) =~= before.push(rollup@));
        i = i + 1;
    }
    rollups
}

/// Copies of all rollups.
fn copy_rollups(rollups: &Vec<RollupData>) -> (r: Vec<RollupData>)
    ensures
        crate::groupingsets::rollups_view(r@) == crate::groupingsets::rollups_view(rollups@),
{
    let ghost all = crate::groupingsets::rollups_view(rollups@);
    let mut r: Vec<RollupData> = Vec::new();
    let mut i: usize = 0;
    assert(crate::groupingsets::rollups_view(r@) =~= all.take(0));
    while i < rollups.len()
        invariant
            i <= rollups@.len(),
            all == crate::groupingsets::rollups_view(rollups@),
            crate::groupingsets::rollups_view(r@) == all.take(i as int),
        decreases rollups@.len() - i,
    {
        let one = rollups[i].copy();
        let ghost before = crate::groupingsets::rollups_view(r@);
        r.push(one);
        assert(crate::groupingsets::rollups_view(r@) =~= before.push(one@));
        assert(crate::groupingsets::rollups_view(r@) =~= all.take(i + 1));
        i = i + 1;
    }
    assert(all.take(i as int) =~= all);
    r
}

proof fn lemma_sets_of_rollups(
    group: Seq<SortGroupClause>,
    rollups: Seq<crate::groupingsets::Rollup>,
    from: int,
    n: int,
)
    requires
        0 <= from <= rollups.len(),
        n <= rollups.len(),
        forall|i: int|
            1 <= i < rollups.len() ==> hashable_sets(group, (#[trigger] rollups[i]).gsets_data),
        rollups.len() > 0 ==> forall|a: int|
            0 <= a < rollups[0].gsets_data.len() ==> known_set(
                group,
                (#[trigger] rollups[0].gsets_data[a]).set,
            ),
    ensures
        forall|a: int|
            0 <= a < sets_of_rollups(rollups, from, n).len() ==> {
                &&& known_set(group, (#[trigger] sets_of_rollups(rollups, from, n)[a]).set)
                &&& from >= 1 ==> sets_of_rollups(rollups, from, n)[a].set.len() > 0
            },
    decreases n - from,
{
    if n > from {
        lemma_sets_of_rollups(group, rollups, from, n - 1);
        let before = sets_of_rollups(rollups, from, n - 1);
        let last = rollups[n - 1].gsets_data;
        assert forall|a: int| 0 <= a < (before + last).len() implies known_set(
            group,
            (#[trigger] (before + last)[a]).set,
        ) && (from >= 1 ==> (before + last)[a].set.len() > 0) by {
            if a >= before.len() {
                assert((before + last)[a] == last[a - before.len()]);
            } else {
                assert((before + last)[a] == before[a]);
            }
        }
    }
}

proof fn lemma_no_empty_sets(sets: Seq<crate::groupingsets::GroupingSet>, n: int)
    requires
        0 <= n <= sets.len(),
        forall|i: int| 0 <= i < sets.len() ==> (#[trigger] sets[i]).set.len() > 0,
    ensures
        sets_by_emptiness(sets, true, n).len() == 0,
    decreases n,
{
    if n > 0 {
        lemma_no_empty_sets(sets, n - 1);
    }
}

fn unsorted_paths(
    group_clause: &Vec<SortGroupClause>,
    rollups: &Vec<RollupData>,
    unsortable_sets: &Vec<GroupingSetData>,
    map: &mut Vec<usize>,
    presorted: bool,
    budget: &HashBudget,
) -> (paths: Vec<GroupingSetsPath>)
    requires
        crate::groupingsets::map_covers(old(map)@, group_clause@),
        hashable_sets(group_clause@, crate::groupingsets::gsets_view(unsortable_sets@)),
        ({
            let rv = crate::groupingsets::rollups_view(rollups@);
            &&& forall|i: int|
                1 <= i < rv.len() ==> hashable_sets(group_clause@, (#[trigger] rv[i]).gsets_data)
            &&& rv.len() > 0 ==> forall|a: int|
                0 <= a < rv[0].gsets_data.len() ==> known_set(
                    group_clause@,
                    (#[trigger] rv[0].gsets_data[a]).set,
                )
        }),
    ensures
        (paths_view(paths@), final(map)@) == unsorted_choice(
            group_clause@,
            crate::groupingsets::rollups_view(rollups@),
            crate::groupingsets::gsets_view(unsortable_sets@),
            old(map)@,
            presorted,
            *budget,
        ),
{
    let ghost rv = crate::groupingsets::rollups_view(rollups@);
    let ghost uv = crate::groupingsets::gsets_view(unsortable_sets@);
    let mut paths: Vec<GroupingSetsPath> = Vec::new();
    assert(paths_view(paths@) =~= Seq::empty());
    let keep_first = presorted && rollups.len() > 0;
    let start: usize = if keep_first {
        1
    } else {
        0
    };
    let exceeded = if keep_first {
        budget.exceeded_without_first
    } else {
        budget.exceeded_by_all
    };
    if exceeded && rollups.len() > 0 {
        return paths;
    }
    let mut sets: Vec<GroupingSetData> = copy_gsets(unsortable_sets);
    let mut i: usize = start;
    assert(uv + Seq::<crate::groupingsets::GroupingSet>::empty() =~= uv);
    while i < rollups.len()
        invariant
            start <= i <= rollups@.len(),
            rv == crate::groupingsets::rollups_view(rollups@),
            uv == crate::groupingsets::gsets_view(unsortable_sets@),
            keep_first == (presorted && rv.len() > 0),
            start == (if keep_first {
                1int
            } else {
                0
            }),
            exceeded == (if keep_first {
                budget.exceeded_without_first
            } else {
                budget.exceeded_by_all
            }),
            !(exceeded && rv.len() > 0),
            paths_view(paths@) == Seq::<GroupingSetsChoice>::empty(),
            map@ == old(map)@,
            forall|k: int| start <= k < i ==> (#[trigger] rv[k]).hashable,
            crate::groupingsets::gsets_view(sets@) == uv + sets_of_rollups(
                rv,
                start as int,
                i as int,
            ),
        decreases rollups@.len() - i,
    {
        assert(rv[i as int] == rollups@[i as int]@);
        if !rollups[i].hashable {
            assert(!rv[i as int].hashable);
            return paths;
        }
        append_gsets(&mut sets, &rollups[i].gsets_data);
        assert(uv + sets_of_rollups(rv, start as int, i as int) + rv[i as int].gsets_data =~= uv
            + sets_of_rollups(rv, start as int, i + 1));
        i = i + 1;
    }
    let ghost sv = crate::groupingsets::gsets_view(sets@);
    proof {
        lemma_sets_of_rollups(group_clause@, rv, start as int, rv.len() as int);
        let tail = sets_of_rollups(rv, start as int, rv.len() as int);
        assert forall|a: int| 0 <= a < sv.len() implies known_set(
            group_clause@,
            (#[trigger] sv[a]).set,
        ) && (start >= 1 ==> sv[a].set.len() > 0) by {
            if a < uv.len() {
                assert(sv[a] == uv[a]);
            } else {
                assert(sv[a] == tail[a - uv.len()]);
            }
        }
    }
    let mut filled: Vec<GroupingSetData> = Vec::new();
    let mut empty: Vec<GroupingSetData> = Vec::new();
    let mut k: usize = 0;
    assert(crate::groupingsets::gsets_view(filled@) =~= Seq::empty());
    assert(crate::groupingsets::gsets_view(empty@) =~= Seq::empty());
    while k < sets.len()
        invariant
            k <= sets@.len(),
            sv == crate::groupingsets::gsets_view(sets@),
            forall|a: int|
                0 <= a < sv.len() ==> known_set(group_clause@, (#[trigger] sv[a]).set),
            crate::groupingsets::gsets_view(filled@) == sets_by_emptiness(sv, false, k as int),
            crate::groupingsets::gsets_view(empty@) == sets_by_emptiness(sv, true, k as int),
            hashable_sets(group_clause@, crate::groupingsets::gsets_view(filled@)),
        decreases sets@.len() - k,
    {
        let gs = sets[k].copy();
        assert(sv[k as int] == sets@[k as int]@);
        let ghost f0 = crate::groupingsets::gsets_view(filled@);
        let ghost e0 = crate::groupingsets::gsets_view(empty@);
        if gs.set.len() == 0 {
            empty.push(gs);
            assert(crate::groupingsets::gsets_view(empty@) =~= e0.push(gs@));
        } else {
            filled.push(gs);
            assert(crate::groupingsets::gsets_view(filled@) =~= f0.push(gs@));
        }
        k = k + 1;
    }
    let mut new_rollups = make_hashed_rollups(group_clause, &filled, map);
    if filled.len() == 0 {
        return paths;
    }
    let ghost hashed = crate::groupingsets::rollups_view(new_rollups@);
    proof {
        if keep_first {
            lemma_no_empty_sets(sv, sv.len() as int);
            assert(empty@.len() == 0);
        }
    }
    let mut strategy = AggStrategy::Hashed;
    if keep_first {
        let first = rollups[0].copy();
        new_rollups.push(first);
        assert(crate::groupingsets::rollups_view(new_rollups@) =~= hashed.push(rv[0]));
        strategy = AggStrategy::Mixed;
    } else if empty.len() > 0 {
        let mut gsets: Vec<Vec<usize>> = Vec::new();
        let mut m: usize = 0;
        while m < empty.len()
            invariant
                m <= empty@.len(),
                gsets@.len() == m,
                forall|a: int| 0 <= a < m ==> (#[trigger] gsets@[a])@ == Seq::<usize>::empty(),
            decreases empty@.len() - m,
        {
            let none: Vec<usize> = Vec::new();
            gsets.push(none);
            m = m + 1;
        }
        let ghost ev = crate::groupingsets::gsets_view(empty@);
        let count: usize = empty.len();
        let rollup = RollupData {
            group_clause: Vec::new(),
            gsets,
            gsets_data: empty,
            num_groups: GroupCount::Exact(count),
            hashable: false,
            is_hashed: false,
        };
        assert(rollup@.gsets =~= empty_rollup(ev).gsets);
        new_rollups.push(rollup);
        assert(crate::groupingsets::rollups_view(new_rollups@) =~= hashed.push(empty_rollup(ev)));
        strategy = AggStrategy::Mixed;
    }
    let path = GroupingSetsPath { strategy, rollups: new_rollups };
    paths.push(path);
    assert(paths_view(paths@) =~= seq![path@]);
    paths
}

/// The budget fits the rollups: the capacity is not negative, and there is one
/// weight for each rollup that could be hashed.
pub open spec fn budget_fits(
    rollups: Seq<crate::groupingsets::Rollup>,
    budget: HashBudget,
) -> bool {
    budget.knapsack matches Some(k) ==> k.0 >= 0 && (rollups.len() > 1 ==> k.1@.len()
        == hashable_count(rollups, rollups.len() as int))
}

proof fn lemma_hashable_count(rollups: Seq<crate::groupingsets::Rollup>, m: int, n: int)
    requires
        m <= n,
    ensures
        hashable_count(rollups, m) <= hashable_count(rollups, n),
    decreases n - m,
{
    if m < n {
        lemma_hashable_count(rollups, m, n - 1);
    }
}

fn any_true(items: &Vec<bool>) -> (r: bool)
    ensures
        r == items@.contains(true),
{
    let mut i: usize = 0;
    while i < items.len()
        invariant
            i <= items@.len(),
            forall|k: int| 0 <= k < i ==> !items@[k],
        decreases items@.len() - i,
    {
        if items[i] {
            assert(items@[i as int] == true);
            return true;
        }
        i = i + 1;
    }
    false
}

/// Which rollups stay sorted and which sets are hashed in a mixed path.
fn split_for_mixed(
    group_clause: &Vec<SortGroupClause>,
    rollups: &Vec<RollupData>,
    unsortable_sets: &Vec<GroupingSetData>,
    budget: &HashBudget,
) -> (r: (Vec<RollupData>, Vec<GroupingSetData>))
    requires
        rollups@.len() > 0,
        budget_fits(crate::groupingsets::rollups_view(rollups@), *budget),
        hashable_sets(group_clause@, crate::groupingsets::gsets_view(unsortable_sets@)),
        forall|i: int|
            1 <= i < rollups@.len() ==> hashable_sets(
                group_clause@,
                (#[trigger] crate::groupingsets::rollups_view(rollups@)[i]).gsets_data,
            ),
    ensures
        (crate::groupingsets::rollups_view(r.0@), crate::groupingsets::gsets_view(r.1@))
            == mixed_split(
            crate::groupingsets::rollups_view(rollups@),
            crate::groupingsets::gsets_view(unsortable_sets@),
            *budget,
        ),
        hashable_sets(group_clause@, crate::groupingsets::gsets_view(r.1@)),
{
    let ghost rv = crate::groupingsets::rollups_view(rollups@);
    let ghost uv = crate::groupingsets::gsets_view(unsortable_sets@);
    let mut hash_sets: Vec<GroupingSetData> = copy_gsets(unsortable_sets);
    if let Some(k) = &budget.knapsack {
        if rollups.len() > 1 && k.1.len() > 0 {
            let items = discrete_knapsack(k.0, k.1.as_slice());
            proof {
                crate::knapsack::lemma_best_selection(k.1@, k.1@.len() as int, k.0 as int);
            }
            if any_true(&items) {
                let mut kept: Vec<RollupData> = Vec::new();
                kept.push(rollups[0].copy());
                let mut h: usize = 0;
                let mut i: usize = 1;
                assert(crate::groupingsets::rollups_view(kept@) =~= seq![rv[0]]);
                assert(uv + Seq::<crate::groupingsets::GroupingSet>::empty() =~= uv);
                while i < rollups.len()
                    invariant
                        1 <= i <= rollups@.len(),
                        rv == crate::groupingsets::rollups_view(rollups@),
                        h == hashable_count(rv, i as int),
                        h < i,
                        items@.len() == hashable_count(rv, rv.len() as int),
                        forall|m: int|
                            1 <= m < rollups@.len() ==> hashable_sets(
                                group_clause@,
                                (#[trigger] rv[m]).gsets_data,
                            ),
                        hashable_sets(
                            group_clause@,
                            crate::groupingsets::gsets_view(hash_sets@),
                        ),
                        crate::groupingsets::rollups_view(kept@) == split_rollups(
                            rv,
                            items@,
                            i as int,
                        ).0,
                        crate::groupingsets::gsets_view(hash_sets@) == uv + split_rollups(
                            rv,
                            items@,
                            i as int,
                        ).1,
                    decreases rollups@.len() - i,
                {
                    assert(rv[i as int] == rollups@[i as int]@);
                    proof {
                        lemma_hashable_count(rv, i + 1, rv.len() as int);
                    }
                    let ghost k0 = crate::groupingsets::rollups_view(kept@);
                    let ghost m0 = split_rollups(rv, items@, i as int).1;
                    let ghost h0 = crate::groupingsets::gsets_view(hash_sets@);
                    if rollups[i].hashable && items[h] {
                        append_gsets(&mut hash_sets, &rollups[i].gsets_data);
                        proof {
                            let more = rv[i as int].gsets_data;
                            assert(uv + m0 + more =~= uv + (m0 + more));
                            assert forall|a: int|
                                #![trigger (h0 + more)[a]]
                                0 <= a < (h0 + more).len() implies known_set(
                                group_clause@,
                                (h0 + more)[a].set,
                            ) && (h0 + more)[a].set.len() > 0 by {
                                if a < h0.len() {
                                    assert((h0 + more)[a] == h0[a]);
                                } else {
                                    assert((h0 + more)[a] == more[a - h0.len()]);
                                }
                            }
                        }
                    } else {
                        let one = rollups[i].copy();
                        kept.push(one);
                        assert(crate::groupingsets::rollups_view(kept@) =~= k0.push(one@));
                    }
                    if rollups[i].hashable {
                        h = h + 1;
                    }
                    i = i + 1;
                }
                return (kept, hash_sets);
            }
        }
    }
    let mut kept: Vec<RollupData> = Vec::new();
    assert(crate::groupingsets::rollups_view(kept@) =~= Seq::empty());
    if hash_sets.len() > 0 {
        kept = copy_rollups(rollups);
    }
    (kept, hash_sets)
}

fn sorted_paths(
    group_clause: &Vec<SortGroupClause>,
    rollups: &Vec<RollupData>,
    unsortable_sets: &Vec<GroupingSetData>,
    map: &mut Vec<usize>,
    can_hash: bool,
    budget: &HashBudget,
) -> (paths: Vec<GroupingSetsPath>)
    requires
        crate::groupingsets::map_covers(old(map)@, group_clause@),
        budget_fits(crate::groupingsets::rollups_view(rollups@), *budget),
        hashable_sets(group_clause@, crate::groupingsets::gsets_view(unsortable_sets@)),
        forall|i: int|
            1 <= i < rollups@.len() ==> hashable_sets(
                group_clause@,
                (#[trigger] crate::groupingsets::rollups_view(rollups@)[i]).gsets_data,
            ),
    ensures
        (paths_view(paths@), final(map)@) == sorted_choice(
            group_clause@,
            crate::groupingsets::rollups_view(rollups@),
            crate::groupingsets::gsets_view(unsortable_sets@),
            old(map)@,
            can_hash,
            *budget,
        ),
{
    let ghost rv = crate::groupingsets::rollups_view(rollups@);
    let ghost uv = crate::groupingsets::gsets_view(unsortable_sets@);
    let mut paths: Vec<GroupingSetsPath> = Vec::new();
    assert(paths_view(paths@) =~= Seq::empty());
    if rollups.len() == 0 {
        return paths;
    }
    if can_hash {
        let (kept, hash_sets) = split_for_mixed(group_clause, rollups, unsortable_sets, budget);
        let ghost hv = crate::groupingsets::gsets_view(hash_sets@);
        let ghost kv = crate::groupingsets::rollups_view(kept@);
        let hashed = make_hashed_rollups(group_clause, &hash_sets, map);
        let ghost all_hashed = crate::groupingsets::rollups_view(hashed@);
        let mut mixed: Vec<RollupData> = Vec::new();
        let mut i: usize = hashed.len();
        assert(crate::groupingsets::rollups_view(mixed@) =~= all_hashed.reverse().take(0));
        while i > 0
            invariant
                i <= hashed@.len(),
                all_hashed == crate::groupingsets::rollups_view(hashed@),
                crate::groupingsets::rollups_view(mixed@) == all_hashed.reverse().take(
                    hashed@.len() - i,
                ),
            decreases i,
        {
            i = i - 1;
            let one = hashed[i].copy();
            let ghost before = crate::groupingsets::rollups_view(mixed@);
            mixed.push(one);
            assert(crate::groupingsets::rollups_view(mixed@) =~= before.push(one@));
            assert(crate::groupingsets::rollups_view(mixed@) =~= all_hashed.reverse().take(
                hashed@.len() - i,
            ));
        }
        assert(all_hashed.reverse().take(hashed@.len() as int) =~= all_hashed.reverse());
        let ghost front = all_hashed.reverse();
        let mut m: usize = 0;
        assert(front + kv.take(0) =~= front);
        while m < kept.len()
            invariant
                m <= kept@.len(),
                kv == crate::groupingsets::rollups_view(kept@),
                crate::groupingsets::rollups_view(mixed@) == front + kv.take(m as int),
            decreases kept@.len() - m,
        {
            let one = kept[m].copy();
            let ghost before = crate::groupingsets::rollups_view(mixed@);
            mixed.push(one);
            assert(crate::groupingsets::rollups_view(mixed@) =~= before.push(one@));
            assert(crate::groupingsets::rollups_view(mixed@) =~= front + kv.take(m + 1));
            m = m + 1;
        }
        assert(kv.take(m as int) =~= kv);
        if mixed.len() > 0 {
            let path = GroupingSetsPath { strategy: AggStrategy::Mixed, rollups: mixed };
            paths.push(path);
            assert(paths_view(paths@) =~= seq![path@]);
        }
    }
    let ghost first = paths_view(paths@);
    if unsortable_sets.len() == 0 {
        let path = GroupingSetsPath {
            strategy: AggStrategy::Sorted,
            rollups: copy_rollups(rollups),
        };
        paths.push(path);
        assert(paths_view(paths@) =~= first + seq![path@]);
        assert(Seq::<GroupingSetsChoice>::empty() + seq![path@] =~= seq![path@]);
    } else {
        assert(first + Seq::<GroupingSetsChoice>::empty() =~= first);
    }
    paths
}

/// Decides which paths compute the grouping sets over one input path.
/// `presorted` says that the order of the input happens to suit the first
/// rollup though no sort was set up.
pub fn consider_groupingsets_paths(
    group_clause: &Vec<SortGroupClause>,
    gd: &mut GroupingSetsData,
    is_sorted: bool,
    can_hash: bool,
    presorted: bool,
    budget: &HashBudget,
) -> (paths: Vec<GroupingSetsPath>)
    requires
        is_sorted || can_hash,
        is_plannable(group_clause@, *old(gd)),
        budget_fits(crate::groupingsets::rollups_view(old(gd).rollups@), *budget),
    ensures
        (paths_view(paths@), final(gd).tleref_to_colnum_map@) == (if is_sorted {
            sorted_choice(
                group_clause@,
                crate::groupingsets::rollups_view(old(gd).rollups@),
                crate::groupingsets::gsets_view(old(gd).unsortable_sets@),
                old(gd).tleref_to_colnum_map@,
                can_hash && old(gd).any_hashable,
                *budget,
            )
        } else {
            unsorted_choice(
                group_clause@,
                crate::groupingsets::rollups_view(old(gd).rollups@),
                crate::groupingsets::gsets_view(old(gd).unsortable_sets@),
                old(gd).tleref_to_colnum_map@,
                presorted,
                *budget,
            )
        }),
        *final(gd) == (GroupingSetsData {
            tleref_to_colnum_map: final(gd).tleref_to_colnum_map,
            ..*old(gd)
        }),
{
    if is_sorted {
        sorted_paths(
            group_clause,
            &gd.rollups,
            &gd.unsortable_sets,
            &mut gd.tleref_to_colnum_map,
            can_hash && gd.any_hashable,
            budget,
        )
    } else {
        unsorted_paths(
            group_clause,
            &gd.rollups,
            &gd.unsortable_sets,
            &mut gd.tleref_to_colnum_map,
            presorted,
            budget,
        )
    }
}

/// Paths can be built for whatever has been prepared.
pub proof fn lemma_prepared_is_plannable(
    group: Seq<SortGroupClause>,
    sort: Seq<SortGroupClause>,
    sets: Seq<Seq<u32>>,
    gd: GroupingSetsData,
)
    requires
        crate::groupingsets::known_refs(group, sets),
        crate::groupingsets::is_prepared(group, sort, sets, gd),
    ensures
        is_plannable(group, gd),
{
    crate::groupingsets::lemma_prepared_sets(group, sort, sets, gd);
    let rollups = crate::groupingsets::rollups_view(gd.rollups@);
    assert forall|i: int| 1 <= i < rollups.len() implies hashable_sets(
        group,
        (#[trigger] rollups[i]).gsets_data,
    ) by {
        assert forall|a: int|
            #![trigger rollups[i].gsets_data[a]]
            0 <= a < rollups[i].gsets_data.len() implies known_set(
            group,
            rollups[i].gsets_data[a].set,
        ) && rollups[i].gsets_data[a].set.len() > 0 by {}
    }
}

/// The grouping sets that rollups compute, each as often as it is computed.
pub open spec fn computed_sets(rollups: Seq<crate::groupingsets::Rollup>) -> Multiset<
    crate::groupingsets::GroupingSet,
> {
    sets_of_rollups(rollups, 0, rollups.len() as int).to_multiset()
}

proof fn lemma_sets_prefix(
    a: Seq<crate::groupingsets::Rollup>,
    b: Seq<crate::groupingsets::Rollup>,
    from: int,
    n: int,
)
    requires
        forall|i: int| from <= i < n ==> a[i] == b[i],
    ensures
        sets_of_rollups(a, from, n) == sets_of_rollups(b, from, n),
    decreases n - from,
{
    if n > from {
        lemma_sets_prefix(a, b, from, n - 1);
    }
}

proof fn lemma_multiset_sum(
    a: Seq<crate::groupingsets::GroupingSet>,
    b: Seq<crate::groupingsets::GroupingSet>,
)
    ensures
        (a + b).to_multiset() == a.to_multiset().add(b.to_multiset()),
{
    vstd::seq_lib::lemma_multiset_commutative(a, b);
    assert((a + b).to_multiset() =~= a.to_multiset().add(b.to_multiset()));
}

proof fn lemma_computed_push(
    rollups: Seq<crate::groupingsets::Rollup>,
    r: crate::groupingsets::Rollup,
)
    ensures
        computed_sets(rollups.push(r)) == computed_sets(rollups).add(r.gsets_data.to_multiset()),
{
    let n = rollups.len() as int;
    lemma_sets_prefix(rollups.push(r), rollups, 0, n);
    lemma_multiset_sum(sets_of_rollups(rollups, 0, n), r.gsets_data);
}

proof fn lemma_computed_none()
    ensures
        computed_sets(Seq::empty()) == Multiset::<crate::groupingsets::GroupingSet>::empty(),
{
    broadcast use vstd::seq_lib::group_to_multiset_ensures;

    let none = Seq::<crate::groupingsets::GroupingSet>::empty();
    assert(sets_of_rollups(Seq::empty(), 0, 0) =~= none);
    assert(none.to_multiset() =~= Multiset::empty());
}

proof fn lemma_computed_sum(
    a: Seq<crate::groupingsets::Rollup>,
    b: Seq<crate::groupingsets::Rollup>,
)
    ensures
        computed_sets(a + b) == computed_sets(a).add(computed_sets(b)),
    decreases b.len(),
{
    if b.len() == 0 {
        assert(a + b =~= a);
        assert(b =~= Seq::empty());
        lemma_computed_none();
        assert(computed_sets(a).add(Multiset::empty()) =~= computed_sets(a));
    } else {
        let front = b.drop_last();
        lemma_computed_sum(a, front);
        assert((a + front).push(b.last()) =~= a + b);
        assert(front.push(b.last()) =~= b);
        lemma_computed_push(a + front, b.last());
        lemma_computed_push(front, b.last());
        assert(computed_sets(a + b) =~= computed_sets(a).add(computed_sets(b)));
    }
}

proof fn lemma_computed_reverse(rollups: Seq<crate::groupingsets::Rollup>)
    ensures
        computed_sets(rollups.reverse()) == computed_sets(rollups),
    decreases rollups.len(),
{
    if rollups.len() == 0 {
        assert(rollups.reverse() =~= rollups);
    } else {
        let front = rollups.drop_last();
        let x = rollups.last();
        lemma_computed_reverse(front);
        assert(front.push(x) =~= rollups);
        assert(seq![x] + front.reverse() =~= rollups.reverse());
        lemma_computed_push(front, x);
        lemma_computed_sum(seq![x], front.reverse());
        assert(Seq::<crate::groupingsets::Rollup>::empty().push(x) =~= seq![x]);
        lemma_computed_push(Seq::empty(), x);
        lemma_computed_none();
        assert(computed_sets(rollups.reverse()) =~= computed_sets(rollups));
    }
}

proof fn lemma_computed_hashed(
    group: Seq<SortGroupClause>,
    sets: Seq<crate::groupingsets::GroupingSet>,
    map: Seq<usize>,
    n: int,
)
    requires
        0 <= n <= sets.len(),
    ensures
        computed_sets(hashed_rollups(group, sets, map, n).0) == sets.take(n).to_multiset(),
    decreases n,
{
    broadcast use vstd::seq_lib::group_to_multiset_ensures;

    if n == 0 {
        lemma_computed_none();
        assert(sets.take(0) =~= Seq::empty());
        assert(sets.take(0).to_multiset() =~= Multiset::empty());
    } else {
        lemma_computed_hashed(group, sets, map, n - 1);
        let (rollups, entered) = hashed_rollups(group, sets, map, n - 1);
        let (rollup, now) = hashed_rollup(group, sets[n - 1], entered);
        lemma_computed_push(rollups, rollup);
        let one = seq![sets[n - 1]];
        assert(sets.take(n) =~= sets.take(n - 1) + one);
        lemma_multiset_sum(sets.take(n - 1), one);
    }
}

proof fn lemma_computed_split(
    rollups: Seq<crate::groupingsets::Rollup>,
    items: Seq<bool>,
    n: int,
)
    requires
        1 <= n <= rollups.len(),
    ensures
        computed_sets(split_rollups(rollups, items, n).0).add(
            split_rollups(rollups, items, n).1.to_multiset(),
        ) == computed_sets(rollups.take(n)),
    decreases n,
{
    broadcast use vstd::seq_lib::group_to_multiset_ensures;

    if n == 1 {
        assert(rollups.take(1) =~= seq![rollups[0]]);
        let none = Seq::<crate::groupingsets::GroupingSet>::empty();
        assert(none.to_multiset() =~= Multiset::empty());
        assert(computed_sets(rollups.take(1)).add(Multiset::empty()) =~= computed_sets(
            rollups.take(1),
        ));
    } else {
        lemma_computed_split(rollups, items, n - 1);
        let (kept, moved) = split_rollups(rollups, items, n - 1);
        let r = rollups[n - 1];
        assert(rollups.take(n) =~= rollups.take(n - 1).push(r));
        lemma_computed_push(rollups.take(n - 1), r);
        lemma_computed_push(kept, r);
        lemma_multiset_sum(moved, r.gsets_data);
        let (kept2, moved2) = split_rollups(rollups, items, n);
        assert(computed_sets(kept2).add(moved2.to_multiset()) =~= computed_sets(rollups.take(n)));
    }
}

proof fn lemma_by_emptiness(sets: Seq<crate::groupingsets::GroupingSet>, n: int)
    requires
        0 <= n <= sets.len(),
    ensures
        sets_by_emptiness(sets, false, n).to_multiset().add(
            sets_by_emptiness(sets, true, n).to_multiset(),
        ) == sets.take(n).to_multiset(),
        (forall|i: int| 0 <= i < n ==> (#[trigger] sets[i]).set.len() > 0) ==> sets_by_emptiness(
            sets,
            true,
            n,
        ).len() == 0,
    decreases n,
{
    broadcast use vstd::seq_lib::group_to_multiset_ensures;

    if n == 0 {
        let none = Seq::<crate::groupingsets::GroupingSet>::empty();
        assert(sets.take(0) =~= none);
        assert(none.to_multiset() =~= Multiset::empty());
        assert(none.to_multiset().add(none.to_multiset()) =~= none.to_multiset());
    } else {
        lemma_by_emptiness(sets, n - 1);
        assert(sets.take(n) =~= sets.take(n - 1).push(sets[n - 1]));
        let filled = sets_by_emptiness(sets, false, n);
        let empty = sets_by_emptiness(sets, true, n);
        assert(filled.to_multiset().add(empty.to_multiset()) =~= sets.take(n).to_multiset());
    }
}

proof fn lemma_sets_from(rollups: Seq<crate::groupingsets::Rollup>, n: int)
    requires
        1 <= n <= rollups.len(),
    ensures
        sets_of_rollups(rollups, 0, n) == rollups[0].gsets_data + sets_of_rollups(rollups, 1, n),
    decreases n,
{
    if n == 1 {
        assert(sets_of_rollups(rollups, 0, 0) =~= Seq::empty());
        assert(sets_of_rollups(rollups, 0, 1) =~= rollups[0].gsets_data);
        assert(sets_of_rollups(rollups, 1, 1) =~= Seq::empty());
        assert(rollups[0].gsets_data + Seq::empty() =~= rollups[0].gsets_data);
    } else {
        lemma_sets_from(rollups, n - 1);
        assert(sets_of_rollups(rollups, 0, n) =~= rollups[0].gsets_data + sets_of_rollups(
            rollups,
            1,
            n,
        ));
    }
}

/// Every path that is offered computes each grouping set just as often as it
/// was asked for: those of the rollups, and those that cannot be sorted.
pub proof fn lemma_sets_covered(
    group: Seq<SortGroupClause>,
    gd: GroupingSetsData,
    is_sorted: bool,
    can_hash: bool,
    presorted: bool,
    budget: HashBudget,
    i: int,
)
    requires
        is_plannable(group, gd),
    ensures
        ({
            let rollups = crate::groupingsets::rollups_view(gd.rollups@);
            let unsortable = crate::groupingsets::gsets_view(gd.unsortable_sets@);
            let map = gd.tleref_to_colnum_map@;
            let paths = if is_sorted {
                sorted_choice(group, rollups, unsortable, map, can_hash, budget).0
            } else {
                unsorted_choice(group, rollups, unsortable, map, presorted, budget).0
            };
            0 <= i < paths.len() ==> computed_sets(paths[i].rollups) == unsortable.to_multiset().add(
                computed_sets(rollups),
            )
        }),
{
    broadcast use vstd::seq_lib::group_to_multiset_ensures;

    let rollups = crate::groupingsets::rollups_view(gd.rollups@);
    let unsortable = crate::groupingsets::gsets_view(gd.unsortable_sets@);
    let map = gd.tleref_to_colnum_map@;
    let whole = unsortable.to_multiset().add(computed_sets(rollups));
    if is_sorted {
        let (kept, hash_sets) = mixed_split(rollups, unsortable, budget);
        let n = hash_sets.len() as int;
        let hashed = hashed_rollups(group, hash_sets, map, n).0;
        lemma_computed_hashed(group, hash_sets, map, n);
        assert(hash_sets.take(n) =~= hash_sets);
        lemma_computed_reverse(hashed);
        lemma_computed_sum(hashed.reverse(), kept);
        if unsortable.len() == 0 {
            assert(unsortable =~= Seq::empty());
            assert(unsortable.to_multiset() =~= Multiset::empty());
            assert(whole =~= computed_sets(rollups));
        }
        if rollups.len() > 0 && kept.len() + hashed.len() > 0 {
            match budget.knapsack {
                Some(k) => {
                    let m = k.1@.len() as int;
                    let items = crate::knapsack::best_selection(k.1@, m, k.0 as int);
                    if rollups.len() > 1 && m > 0 && items.contains(true) {
                        lemma_computed_split(rollups, items, rollups.len() as int);
                        assert(rollups.take(rollups.len() as int) =~= rollups);
                        let moved = split_rollups(rollups, items, rollups.len() as int).1;
                        lemma_multiset_sum(unsortable, moved);
                        assert(computed_sets(hashed.reverse() + kept) =~= whole);
                    } else {
                        lemma_hashed_count(group, hash_sets, map, n);
                        assert(computed_sets(hashed.reverse() + kept) =~= whole);
                    }
                },
                None => {
                    lemma_hashed_count(group, hash_sets, map, n);
                    assert(computed_sets(hashed.reverse() + kept) =~= whole);
                },
            }
        }
    } else {
        let keep_first = presorted && rollups.len() > 0;
        let start = if keep_first {
            1int
        } else {
            0
        };
        let rest = sets_of_rollups(rollups, start, rollups.len() as int);
        let sets = unsortable + rest;
        let n = sets.len() as int;
        let filled = sets_by_emptiness(sets, false, n);
        let empty = sets_by_emptiness(sets, true, n);
        let hashed = hashed_rollups(group, filled, map, filled.len() as int).0;
        lemma_computed_hashed(group, filled, map, filled.len() as int);
        assert(filled.take(filled.len() as int) =~= filled);
        assert(sets.take(n) =~= sets);
        lemma_multiset_sum(unsortable, rest);
        if keep_first {
            lemma_filled_rest(group, rollups, rollups.len() as int);
            assert forall|a: int| 0 <= a < n implies (#[trigger] sets[a]).set.len() > 0 by {
                if a < unsortable.len() {
                    assert(sets[a] == unsortable[a]);
                } else {
                    assert(sets[a] == rest[a - unsortable.len()]);
                }
            }
            lemma_by_emptiness(sets, n);
            assert(empty =~= Seq::empty());
            assert(empty.to_multiset() =~= Multiset::empty());
            lemma_computed_push(hashed, rollups[0]);
            lemma_sets_from(rollups, rollups.len() as int);
            lemma_multiset_sum(rollups[0].gsets_data, rest);
            let first = rollups[0].gsets_data.to_multiset();
            assert(filled.to_multiset().add(empty.to_multiset()) =~= filled.to_multiset());
            assert(filled.to_multiset() == unsortable.to_multiset().add(rest.to_multiset()));
            assert(computed_sets(rollups) == first.add(rest.to_multiset()));
            assert(computed_sets(hashed.push(rollups[0])) == filled.to_multiset().add(first));
            assert(computed_sets(hashed.push(rollups[0])) =~= whole);
        } else {
            lemma_by_emptiness(sets, n);
            lemma_computed_push(hashed, empty_rollup(empty));
            if empty.len() == 0 {
                assert(empty =~= Seq::empty());
                assert(empty.to_multiset() =~= Multiset::empty());
                assert(computed_sets(hashed) =~= whole);
            } else {
                assert(computed_sets(hashed.push(empty_rollup(empty))) =~= whole);
            }
        }
    }
}

proof fn lemma_hashed_count(
    group: Seq<SortGroupClause>,
    sets: Seq<crate::groupingsets::GroupingSet>,
    map: Seq<usize>,
    n: int,
)
    requires
        0 <= n,
    ensures
        hashed_rollups(group, sets, map, n).0.len() == n,
    decreases n,
{
    if n > 0 {
        lemma_hashed_count(group, sets, map, n - 1);
    }
}

proof fn lemma_filled_rest(
    group: Seq<SortGroupClause>,
    rollups: Seq<crate::groupingsets::Rollup>,
    n: int,
)
    requires
        n <= rollups.len(),
        forall|i: int| 1 <= i < rollups.len() ==> hashable_sets(group, (#[trigger] rollups[i]).gsets_data),
    ensures
        forall|a: int|
            0 <= a < sets_of_rollups(rollups, 1, n).len() ==> (#[trigger] sets_of_rollups(
                rollups,
                1,
                n,
            )[a]).set.len() > 0,
    decreases n,
{
    if n > 1 {
        lemma_filled_rest(group, rollups, n - 1);
        let before = sets_of_rollups(rollups, 1, n - 1);
        let last = rollups[n - 1].gsets_data;
        let all = sets_of_rollups(rollups, 1, n);
        assert forall|a: int| 0 <= a < all.len() implies (#[trigger] all[a]).set.len() > 0 by {
            if a < before.len() {
                assert(all[a] == before[a]);
            } else {
                assert(all[a] == last[a - before.len()]);
            }
        }
    }
}

} // verus!

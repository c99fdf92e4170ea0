use planner::error::PlannerError;
use planner::groupingsets::{
    grouping_set_nonempty, preprocess_grouping_sets, remap_to_groupclause_idx,
    reorder_grouping_sets, GroupCount,
};
use planner::groupingsets_paths::{consider_groupingsets_paths, AggStrategy, HashBudget};
use planner::knapsack::discrete_knapsack;
use planner::matching::{bipartite_match, hk_depth_search};
use planner::rollup::extract_rollup_sets;
use planner::sortgroup::{preprocess_groupclause, SortGroupClause};

fn clause(r: u32) -> SortGroupClause {
    SortGroupClause {
        tle_sort_group_ref: r,
        eqop: 96,
        sortop: 97,
        reverse_sort: false,
        nulls_first: false,
        hashable: true,
    }
}

fn refs(clauses: &Vec<SortGroupClause>) -> Vec<u32> {
    clauses.iter().map(|c| c.tle_sort_group_ref).collect()
}

#[test]
fn a_maximum_matching_is_found() {
    // Left 1 and 2 both reach right 1; left 1 can also take right 2.
    let adjacency = vec![vec![], vec![2, 1, 2], vec![1, 1]];
    let (uv, vu) = bipartite_match(2, 2, &adjacency);
    assert_eq!(uv, vec![0, 2, 1]);
    assert_eq!(vu, vec![0, 2, 1]);
}

#[test]
fn a_graph_without_edges_has_no_matching() {
    let (uv, vu) = bipartite_match(2, 1, &[vec![], vec![], vec![]]);
    assert_eq!(uv, vec![0, 0, 0]);
    assert_eq!(vu, vec![0, 0]);
}

#[test]
fn depth_search_augments_along_the_layers() {
    let adjacency = vec![vec![], vec![1, 1]];
    let mut uv = vec![0, 0];
    let mut vu = vec![0, 0];
    let mut distance = vec![1, 0];
    assert!(hk_depth_search(&adjacency, &mut uv, &mut vu, &mut distance, 1));
    assert_eq!((uv[1], vu[1]), (1, 1));
}

#[test]
fn knapsack_packs_the_most_items() {
    assert_eq!(discrete_knapsack(10, &[6, 5, 4, 1]), vec![false, true, true, true]);
    assert_eq!(discrete_knapsack(0, &[1, 0]), vec![false, true]);
    assert_eq!(discrete_knapsack(3, &[4, 5]), vec![false, false]);
}

#[test]
fn group_clause_follows_the_sort_order() {
    let group = vec![clause(1), clause(2), clause(3)];
    let sort = vec![clause(3), clause(1)];
    assert_eq!(refs(&preprocess_groupclause(&group, &sort, None)), vec![3, 1, 2]);
    assert_eq!(refs(&preprocess_groupclause(&group, &vec![], None)), vec![1, 2, 3]);
    let force = vec![2, 1];
    assert_eq!(refs(&preprocess_groupclause(&group, &sort, Some(&force))), vec![2, 1]);
}

#[test]
fn rollups_take_as_few_chains_as_possible() {
    let sets = vec![vec![], vec![1], vec![2], vec![1, 2]];
    let chains = extract_rollup_sets(sets);
    assert_eq!(chains.len(), 2);
    let total: usize = chains.iter().map(|c| c.len()).sum();
    assert_eq!(total, 4);
    for c in &chains {
        for w in c.windows(2) {
            assert!(w[0].iter().all(|x| w[1].contains(x)));
        }
    }
}

#[test]
fn chains_keep_the_order_of_the_sets() {
    let sets = vec![vec![1], vec![2], vec![1, 2], vec![1, 3]];
    assert_eq!(
        extract_rollup_sets(sets),
        vec![vec![vec![1], vec![1, 3]], vec![vec![2], vec![1, 2]]]
    );
    let sets = vec![vec![], vec![], vec![1], vec![1, 2], vec![2, 1]];
    let chains = extract_rollup_sets(sets);
    assert_eq!(chains, vec![vec![vec![], vec![], vec![1], vec![1, 2], vec![2, 1]]]);
    let sets = vec![vec![], vec![1], vec![2]];
    assert_eq!(extract_rollup_sets(sets), vec![vec![vec![], vec![1]], vec![vec![2]]]);
    let sets = vec![vec![1], vec![1], vec![1, 2], vec![1, 3]];
    let chains = extract_rollup_sets(sets);
    assert_eq!(chains.len(), 2);
    assert_eq!(chains[0][..2], [vec![1], vec![1]]);
}

#[test]
fn sets_of_a_rollup_share_an_order() {
    let chain = vec![vec![], vec![2], vec![1, 2]];
    let ordered = reorder_grouping_sets(&chain, &vec![clause(2), clause(1)]);
    let sets: Vec<Vec<u32>> = ordered.iter().map(|s| s.set.clone()).collect();
    assert_eq!(sets, vec![vec![2, 1], vec![2], vec![]]);
    assert!(ordered.iter().all(|s| s.num_groups == GroupCount::Estimate(0)));
}

#[test]
fn sets_are_given_by_columns() {
    let clauses = vec![clause(3), clause(1)];
    let sets = reorder_grouping_sets(&vec![vec![1], vec![1, 3]], &vec![]);
    let mut map = vec![0; 4];
    let columns = remap_to_groupclause_idx(&clauses, &sets, &mut map);
    assert_eq!(map, vec![0, 1, 0, 0]);
    assert_eq!(columns, vec![vec![1, 0], vec![1]]);
}

#[test]
fn grouping_sets_are_prepared() {
    let group = vec![clause(1), clause(2)];
    let sets = vec![vec![], vec![1], vec![1, 2]];
    let gd = preprocess_grouping_sets(&group, &vec![], &sets).unwrap();
    assert!(gd.any_hashable);
    assert_eq!(gd.rollups.len(), 1);
    assert_eq!(refs(&gd.rollups[0].group_clause), vec![1, 2]);
    assert_eq!(gd.rollups[0].gsets, vec![vec![0, 1], vec![0], vec![]]);
    assert!(gd.unsortable_sets.is_empty());
}

#[test]
fn grouping_sets_that_can_neither_be_sorted_nor_hashed() {
    let mut bad = clause(1);
    bad.sortop = 0;
    bad.hashable = false;
    let r = preprocess_grouping_sets(&vec![bad], &vec![], &vec![vec![1]]);
    assert!(matches!(r, Err(PlannerError::CouldNotImplementGroupBy)));
}

#[test]
fn an_empty_grouping_set() {
    assert!(!grouping_set_nonempty(&vec![]));
    assert!(grouping_set_nonempty(&vec![4]));
}

#[test]
fn sorted_grouping_sets_make_a_sorted_path() {
    let group = vec![clause(1), clause(2)];
    let sets = vec![vec![], vec![1], vec![1, 2]];
    let mut gd = preprocess_grouping_sets(&group, &vec![], &sets).unwrap();
    let budget =
        HashBudget { exceeded_by_all: false, exceeded_without_first: false, knapsack: None };
    let paths = consider_groupingsets_paths(&group, &mut gd, true, false, true, &budget);
    assert_eq!(paths.len(), 1);
    assert_eq!(paths[0].strategy, AggStrategy::Sorted);
    assert_eq!(paths[0].rollups.len(), 1);
}

/// The sets that a path computes, in order.
fn computed(path: &planner::groupingsets_paths::GroupingSetsPath) -> Vec<Vec<u32>> {
    let mut sets: Vec<Vec<u32>> = path
        .rollups
        .iter()
        .flat_map(|r| r.gsets_data.iter())
        .map(|s| {
            let mut set = s.set.clone();
            set.sort();
            set
        })
        .collect();
    sets.sort();
    sets
}

#[test]
fn every_path_computes_every_set() {
    let group = vec![clause(1), clause(2)];
    let sets = vec![vec![], vec![1], vec![2], vec![1, 2]];
    for (sorted, hashed) in [(true, true), (true, false), (false, true)] {
        let mut gd = preprocess_grouping_sets(&group, &vec![], &sets).unwrap();
        let budget =
            HashBudget { exceeded_by_all: false, exceeded_without_first: false, knapsack: None };
        let paths = consider_groupingsets_paths(&group, &mut gd, sorted, hashed, true, &budget);
        for path in &paths {
            assert_eq!(computed(path), vec![vec![], vec![1], vec![1, 2], vec![2]]);
        }
    }
}

use planner::aggorder::{
    adjust_group_pathkeys_for_groupagg, compare_pathkeys, AggOrder, KeysComparison,
};
use planner::error::PlannerError;
use planner::expr::{AggSplit, Expr, Head, OrderTest, Var};
use planner::groupingsets_paths::AggStrategy;
use planner::list::List;
use planner::sortcols::PathKey;
use planner::sortgroup::SortGroupClause;
use planner::upperpaths::{
    add_paths_to_grouping_rel, create_distinct_paths, create_final_distinct_paths,
    create_ordered_paths, create_partial_distinct_paths, create_partial_grouping_paths,
    gather_grouping_paths, get_useful_pathkeys_for_distinct, make_ordered_path,
    pathkeys_count_contained_in, Distinct, DistinctRows, DistinctStep, GroupOrdering,
    GroupProposal, GroupStep, GroupTarget, Grouping, GroupsOf, InputPath, OrderRequest,
    OrderedPath, ParallelGroups, PartialGroups, PartialInput, SortStep,
};

fn list<T>(v: Vec<T>) -> List<T> {
    List::from_vec(v)
}

fn key(eclass: u32) -> PathKey {
    PathKey { eclass, opfamily: 1976, direction: OrderTest::Less, nulls_first: false }
}

fn keys(classes: &[u32]) -> List<PathKey> {
    list(classes.iter().map(|&c| key(c)).collect())
}

fn clause(r: u32) -> SortGroupClause {
    SortGroupClause {
        tle_sort_group_ref: r,
        eqop: 96,
        sortop: 97,
        reverse_sort: false,
        nulls_first: false,
        hashable: true,
    }
}

fn column(attno: i16) -> Expr {
    Expr::Var(Var {
        varno: 1,
        attno,
        typid: 23,
        typmod: -1,
        collation: 0,
        levelsup: 0,
        nullingrels: list(vec![]),
    })
}

fn path(id: u32, order: &[u32], wanted: &[u32]) -> InputPath {
    InputPath {
        id,
        target: list(vec![column(1)]),
        pathkeys: keys(order),
        orderings: list(vec![GroupOrdering {
            pathkeys: keys(wanted),
            clauses: list(vec![clause(1)]),
        }]),
    }
}

fn grouping() -> Grouping {
    Grouping {
        has_aggs: true,
        has_groups: true,
        has_grouping_sets: false,
        can_sort: true,
        can_hash: true,
        clauses: list(vec![clause(1)]),
        enable_incremental_sort: true,
    }
}

fn items<T>(l: List<T>) -> Vec<T> {
    let mut v = Vec::new();
    let mut rest = l;
    while let List::Cons(x, xs) = rest {
        v.push(x);
        rest = *xs;
    }
    v
}

fn brief(l: List<GroupProposal>) -> Vec<(u32, SortStep, GroupStep, bool)> {
    items(l).iter().map(|p| (p.input, p.sort, p.shape.step, p.shape.partial)).collect()
}

#[test]
fn common_keys_are_counted() {
    assert_eq!(pathkeys_count_contained_in(&keys(&[1, 2]), &keys(&[1, 2, 3])), (true, 2));
    assert_eq!(pathkeys_count_contained_in(&keys(&[1, 2]), &keys(&[1, 3])), (false, 1));
    assert_eq!(pathkeys_count_contained_in(&keys(&[]), &keys(&[4])), (true, 0));
    assert_eq!(pathkeys_count_contained_in(&keys(&[1]), &keys(&[])), (false, 0));
}

#[test]
fn only_the_cheapest_path_is_sorted_in_full() {
    let asked = keys(&[1, 2]);
    assert_eq!(make_ordered_path(&keys(&[1, 2]), false, &asked, true), Some(SortStep::AsIs));
    assert_eq!(make_ordered_path(&keys(&[3]), false, &asked, true), None);
    assert_eq!(make_ordered_path(&keys(&[3]), true, &asked, true), Some(SortStep::Sort));
    assert_eq!(
        make_ordered_path(&keys(&[1]), false, &asked, true),
        Some(SortStep::IncrementalSort(1))
    );
    assert_eq!(make_ordered_path(&keys(&[1]), false, &asked, false), None);
    assert_eq!(make_ordered_path(&keys(&[1]), true, &asked, false), Some(SortStep::Sort));
}

fn serial() -> ParallelGroups {
    ParallelGroups { group_pathkeys: keys(&[]), num_groupby_pathkeys: 0, paths: list(vec![]) }
}

#[test]
fn grouping_paths_over_an_input() {
    let paths = list(vec![path(7, &[], &[1]), path(8, &[1], &[1]), path(9, &[5], &[1])]);
    let sorted = GroupStep::Agg(AggStrategy::Sorted, AggSplit::Simple);
    let hashed = GroupStep::Agg(AggStrategy::Hashed, AggSplit::Simple);
    assert_eq!(
        brief(add_paths_to_grouping_rel(&grouping(), &paths, 7, &None, &serial()).proposals),
        vec![
            (7, SortStep::Sort, sorted, false),
            (8, SortStep::AsIs, sorted, false),
            (7, SortStep::AsIs, hashed, false),
        ]
    );
}

#[test]
fn grouping_paths_over_partial_aggregates() {
    let paths = list(vec![path(7, &[1], &[1])]);
    let partial = Some((list(vec![path(20, &[1], &[1])]), 20));
    let fin = AggSplit::FinalDeserial;
    assert_eq!(
        brief(add_paths_to_grouping_rel(&grouping(), &paths, 7, &partial, &serial()).proposals),
        vec![
            (7, SortStep::AsIs, GroupStep::Agg(AggStrategy::Sorted, AggSplit::Simple), false),
            (20, SortStep::AsIs, GroupStep::Agg(AggStrategy::Sorted, fin), false),
            (7, SortStep::AsIs, GroupStep::Agg(AggStrategy::Hashed, AggSplit::Simple), false),
            (20, SortStep::AsIs, GroupStep::Agg(AggStrategy::Hashed, fin), false),
        ]
    );
}

#[test]
fn grouping_paths_for_grouping_sets_and_for_no_aggregates() {
    let paths = list(vec![path(7, &[1], &[1])]);
    let mut g = grouping();
    g.has_grouping_sets = true;
    assert_eq!(
        brief(add_paths_to_grouping_rel(&g, &paths, 7, &None, &serial()).proposals),
        vec![
            (7, SortStep::AsIs, GroupStep::Sets(true, true), false),
            (7, SortStep::AsIs, GroupStep::Sets(false, true), false),
        ]
    );
    let mut g = grouping();
    g.has_aggs = false;
    g.can_hash = false;
    assert_eq!(
        brief(add_paths_to_grouping_rel(&g, &paths, 7, &None, &serial()).proposals),
        vec![(7, SortStep::AsIs, GroupStep::Group, false)]
    );
    let mut g = grouping();
    g.can_sort = false;
    g.can_hash = false;
    assert!(add_paths_to_grouping_rel(&g, &paths, 7, &None, &serial()).proposals.is_nil());
}

#[test]
fn groups_of_workers_are_gathered() {
    let paths = list(vec![path(7, &[1], &[1])]);
    let r = add_paths_to_grouping_rel(&grouping(), &paths, 7, &None, &serial());
    assert!(r.gathered.is_none());
    let own = ParallelGroups {
        group_pathkeys: keys(&[1, 2]),
        num_groupby_pathkeys: 1,
        paths: list(vec![path(31, &[], &[1]), path(30, &[1], &[1])]),
    };
    let r = add_paths_to_grouping_rel(&grouping(), &paths, 7, &None, &own);
    let (order, merged) = r.gathered.unwrap();
    let (want_order, want) =
        gather_grouping_paths(&keys(&[1, 2]), 1, &own.paths, grouping().enable_incremental_sort);
    assert_eq!(order.to_vec(), vec![key(1)]);
    assert_eq!(order.to_vec(), want_order.to_vec());
    assert_eq!(format!("{:?}", merged), format!("{:?}", want));
    assert!(!merged.is_nil());
}

fn partial_input() -> PartialInput {
    PartialInput {
        suppressed: false,
        force: false,
        parent_finishes: false,
        paths: list(vec![path(1, &[1], &[1])]),
        cheapest: 1,
        consider_parallel: true,
        partial_paths: list(vec![path(5, &[1], &[1])]),
    }
}

fn group_target(split: AggSplit) -> GroupTarget {
    let count = Expr::Call {
        head: Head::Aggref { func: 2147, typid: 20, transtype: 20, collation: 0, split },
        args: Box::new(list(vec![column(2)])),
    };
    GroupTarget {
        exprs: list(vec![column(1), count]),
        refs: list(vec![1, 0]),
        having: list(vec![]),
    }
}

fn partly(g: &Grouping, input: &PartialInput) -> Option<PartialGroups> {
    create_partial_grouping_paths(g, input, &group_target(AggSplit::Simple)).unwrap()
}

#[test]
fn partial_grouping_paths() {
    let init = AggSplit::InitialSerial;
    let r = partly(&grouping(), &partial_input()).unwrap();
    assert!(r.consider_parallel);
    assert_eq!(r.target.refs.to_vec(), vec![1]);
    assert_eq!(
        format!("{:?}", r.target.exprs),
        format!("{:?}", group_target(AggSplit::InitialSerial).exprs)
    );
    assert_eq!(
        brief(r.paths),
        vec![
            (5, SortStep::AsIs, GroupStep::Agg(AggStrategy::Sorted, init), true),
            (5, SortStep::AsIs, GroupStep::Agg(AggStrategy::Hashed, init), true),
        ]
    );
    let mut input = partial_input();
    input.parent_finishes = true;
    input.consider_parallel = false;
    let r = partly(&grouping(), &input).unwrap();
    assert!(!r.consider_parallel);
    let r = items(r.paths);
    assert_eq!(r.len(), 2);
    assert!(r.iter().all(|p| p.input == 1 && p.shape.groups == GroupsOf::Partition));
    assert!(r.iter().all(|p| !p.shape.having && !p.shape.partial));
}

#[test]
fn partial_grouping_that_is_not_possible() {
    let mut input = partial_input();
    input.consider_parallel = false;
    assert!(partly(&grouping(), &input).is_none());
    input.force = true;
    assert!(partly(&grouping(), &input).unwrap().paths.is_nil());
    let mut input = partial_input();
    input.suppressed = true;
    assert!(partly(&grouping(), &input).is_none());
    let bad = GroupTarget {
        exprs: list(vec![Expr::Call {
            head: Head::Aggref {
                func: 2147,
                typid: 20,
                transtype: 0,
                collation: 0,
                split: AggSplit::Simple,
            },
            args: Box::new(list(vec![])),
        }]),
        refs: list(vec![0]),
        having: list(vec![]),
    };
    let r = create_partial_grouping_paths(&grouping(), &partial_input(), &bad);
    assert!(matches!(r, Err(PlannerError::AggregateNotSplittable)));
}

#[test]
fn parallel_groups_are_sorted_and_merged() {
    let partial = list(vec![path(5, &[], &[]), path(6, &[1], &[]), path(7, &[1, 2], &[])]);
    let (order, merged) = gather_grouping_paths(&keys(&[1, 2, 9]), 2, &partial, true);
    assert_eq!(order.to_vec(), vec![key(1), key(2)]);
    let merged: Vec<(u32, SortStep)> = items(merged).iter().map(|m| (m.input, m.sort)).collect();
    assert_eq!(merged, vec![(5, SortStep::Sort), (6, SortStep::IncrementalSort(1))]);
}

fn ordering(classes: &[u32]) -> OrderRequest {
    OrderRequest {
        keys: keys(classes),
        target: list(vec![column(1)]),
        input_parallel: true,
        target_parallel_safe: true,
        suppressed: false,
        enable_incremental_sort: true,
    }
}

fn ordered(input: u32, sort: SortStep, merged: bool, project: bool) -> OrderedPath {
    OrderedPath { input, sort, merged, project }
}

#[test]
fn ordered_paths_sort_the_cheapest_and_merge_parallel_ones() {
    let paths = list(vec![path(1, &[], &[]), path(2, &[3], &[])]);
    let partial = list(vec![path(8, &[], &[]), path(9, &[3], &[])]);
    let r = create_ordered_paths(&ordering(&[3]), &paths, 1, &partial);
    assert!(r.consider_parallel);
    assert_eq!(
        r.paths.to_vec(),
        vec![
            ordered(1, SortStep::Sort, false, false),
            ordered(2, SortStep::AsIs, false, false),
            ordered(8, SortStep::Sort, true, false),
        ]
    );
    for n in 0..3 {
        let mut request = ordering(&[3]);
        request.input_parallel = n != 0;
        request.target_parallel_safe = n != 1;
        request.suppressed = n == 2;
        let r = create_ordered_paths(&request, &paths, 1, &partial);
        assert_eq!(r.consider_parallel, n == 2);
        assert_eq!(r.paths.to_vec().len(), 2);
    }
}

#[test]
fn ordered_paths_are_projected_to_the_final_target() {
    let mut wide = path(2, &[3], &[]);
    wide.target = list(vec![column(1), column(2)]);
    let mut other = path(9, &[], &[]);
    other.target = list(vec![column(2)]);
    let paths = list(vec![path(1, &[], &[]), wide]);
    let r = create_ordered_paths(&ordering(&[3]), &paths, 1, &list(vec![other]));
    assert_eq!(
        r.paths.to_vec(),
        vec![
            ordered(1, SortStep::Sort, false, false),
            ordered(2, SortStep::AsIs, false, true),
            ordered(9, SortStep::Sort, true, true),
        ]
    );
}

fn distinct(classes: &[u32]) -> Distinct {
    Distinct {
        distinct_on: false,
        grouped: false,
        suppressed: false,
        pathkeys: keys(classes),
        sort_pathkeys: keys(&[]),
        can_sort: true,
        can_hash: true,
        enable_hashagg: true,
        enable_reordering: true,
        enable_incremental_sort: true,
    }
}

#[test]
fn distinct_can_follow_the_order_of_its_input() {
    let needed = keys(&[1, 2, 3]);
    let r = get_useful_pathkeys_for_distinct(&needed, &keys(&[3, 1, 7]), &None, true, true);
    assert_eq!(r.unwrap().to_vec(), vec![key(3), key(1), key(2)]);
    let r = get_useful_pathkeys_for_distinct(&needed, &keys(&[1, 2]), &None, true, true);
    assert!(r.is_none());
    let r = get_useful_pathkeys_for_distinct(&needed, &keys(&[3]), &None, false, true);
    assert!(r.is_none());
    let r = get_useful_pathkeys_for_distinct(&needed, &keys(&[3]), &None, true, false);
    assert!(r.is_none());
    let on = Some(keys(&[1]));
    let r = get_useful_pathkeys_for_distinct(&needed, &keys(&[3, 1]), &on, true, true);
    assert!(r.is_none());
}

#[test]
fn distinct_by_sorting_and_by_hashing() {
    let paths = list(vec![path(1, &[], &[])]);
    let r = items(create_final_distinct_paths(&distinct(&[4]), &paths, 1, false));
    assert_eq!(r.len(), 2);
    assert!(matches!(r[0].step, DistinctStep::Unique(1)) && r[0].sort == SortStep::Sort);
    assert!(matches!(r[1].step, DistinctStep::Hash));
    assert!(r.iter().all(|p| p.rows == DistinctRows::Estimate));
    let mut after = distinct(&[4, 5]);
    after.grouped = true;
    let r = items(create_final_distinct_paths(&after, &paths, 1, false));
    assert!(matches!(r[0].step, DistinctStep::Unique(2)));
    assert!(r.iter().all(|p| p.rows == DistinctRows::OfInput));
    let r = items(create_partial_distinct_paths(&after, &paths, true));
    assert!(r.iter().all(|p| p.rows == DistinctRows::Estimate));
    let r = items(create_final_distinct_paths(&distinct(&[]), &paths, 1, false));
    assert!(matches!(r[0].step, DistinctStep::LimitOne) && r[0].first_row);
    let mut d = distinct(&[4]);
    d.enable_hashagg = false;
    assert_eq!(items(create_final_distinct_paths(&d, &paths, 1, false)).len(), 1);
    d.can_sort = false;
    let r = items(create_final_distinct_paths(&d, &paths, 1, false));
    assert!(matches!(r[0].step, DistinctStep::Hash));
    assert!(create_final_distinct_paths(&d, &paths, 1, true).is_nil());
}

#[test]
fn distinct_on_sorts_by_the_stricter_order() {
    let paths = list(vec![path(1, &[], &[])]);
    let mut d = distinct(&[4]);
    d.distinct_on = true;
    d.sort_pathkeys = keys(&[4, 5]);
    let r = items(create_final_distinct_paths(&d, &paths, 1, false));
    assert_eq!(r.len(), 1);
    assert_eq!(r[0].pathkeys.to_vec(), vec![key(4), key(5)]);
    assert!(create_partial_distinct_paths(&d, &paths, true).is_nil());
}

#[test]
fn distinct_in_parallel() {
    let paths = list(vec![path(3, &[4], &[]), path(4, &[], &[])]);
    let r = items(create_partial_distinct_paths(&distinct(&[4]), &paths, true));
    assert_eq!(r.len(), 2);
    assert_eq!((r[0].input, r[0].sort), (3, SortStep::AsIs));
    assert!(matches!(r[1].step, DistinctStep::Hash) && r[1].input == 3);
    assert!(create_partial_distinct_paths(&distinct(&[4]), &paths, false).is_nil());
    let mut d = distinct(&[4]);
    d.suppressed = true;
    assert!(create_partial_distinct_paths(&d, &paths, true).is_nil());
}

#[test]
fn distinct_that_cannot_be_done() {
    let paths = list(vec![path(1, &[], &[])]);
    let mut d = distinct(&[4]);
    d.can_sort = false;
    d.can_hash = false;
    let r = create_distinct_paths(&d, &paths, 1, &paths, true);
    assert!(matches!(r, Err(PlannerError::CouldNotImplementDistinct)));
    assert!(create_distinct_paths(&distinct(&[4]), &paths, 1, &list(vec![]), true).is_ok());
}

#[test]
fn orders_are_compared_by_prefix() {
    let c = |a: &[u32], b: &[u32]| compare_pathkeys(&keys(a), &keys(b));
    assert_eq!(c(&[1, 2], &[1, 2]), KeysComparison::Equal);
    assert_eq!(c(&[1, 2], &[1]), KeysComparison::Better1);
    assert_eq!(c(&[1], &[1, 2]), KeysComparison::Better2);
    assert_eq!(c(&[1, 3], &[1, 2]), KeysComparison::Different);
}

fn agg(id: u32, order: &[u32]) -> AggOrder {
    AggOrder {
        id,
        normal: true,
        ordered: true,
        has_filter: false,
        args: list(vec![]),
        volatile: false,
        keys: keys(order),
    }
}

#[test]
fn the_order_that_suits_the_most_aggregates() {
    let aggs = list(vec![agg(1, &[9, 1]), agg(2, &[9, 2]), agg(3, &[9, 2, 3]), agg(4, &[9, 1])]);
    let (order, presorted) = adjust_group_pathkeys_for_groupagg(keys(&[9]), aggs, true);
    assert_eq!(order.to_vec(), vec![key(9), key(1)]);
    assert_eq!(presorted.to_vec(), vec![1, 4]);
    let aggs = list(vec![agg(1, &[9, 1]), agg(2, &[9, 2]), agg(3, &[9, 2, 3])]);
    let (order, presorted) = adjust_group_pathkeys_for_groupagg(keys(&[9]), aggs, true);
    assert_eq!(order.to_vec(), vec![key(9), key(2), key(3)]);
    assert_eq!(presorted.to_vec(), vec![2, 3]);
}

#[test]
fn aggregates_that_sort_on_their_own() {
    let mut volatile = agg(1, &[1]);
    volatile.volatile = true;
    let mut filtered = agg(2, &[2]);
    filtered.has_filter = true;
    filtered.args = list(vec![Expr::Param(1, 23, 0)]);
    let mut plain = agg(3, &[3]);
    plain.has_filter = true;
    plain.args = list(vec![column(1)]);
    let mut set = agg(4, &[4]);
    set.normal = false;
    let aggs = list(vec![volatile, filtered, plain, set]);
    let (order, presorted) = adjust_group_pathkeys_for_groupagg(keys(&[]), aggs, true);
    assert_eq!(order.to_vec(), vec![key(3)]);
    assert_eq!(presorted.to_vec(), vec![3]);
}

#[test]
fn presorting_can_be_switched_off() {
    let (order, presorted) =
        adjust_group_pathkeys_for_groupagg(keys(&[9]), list(vec![agg(1, &[9, 1])]), false);
    assert_eq!(order.to_vec(), vec![key(9)]);
    assert!(presorted.is_nil());
}

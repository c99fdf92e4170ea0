use planner::aggorder::AggOrder;
use planner::error::PlannerError;
use planner::expr::{Const, Expr, OrderTest, Var};
use planner::grouping::{
    apply_scanjoin_target_to_paths, can_partial_agg, choose_level_targets, choose_partitionwise,
    collect_live_partitions, create_grouping_paths, create_ordinary_grouping_paths, create_partitionwise_grouping_paths,
    get_number_of_groups, group_by_has_partkey, grouping_is_hashable, grouping_is_sortable,
    grouping_planner, grouping_planner_tail, has_volatile_pathkey, limit_needed, limit_of_sort,
    limit_tuples, list_target_splits, make_grouping_rel, preprocess_limit, standard_qp_callback,
    FinalPath, GroupEstimate, GroupedPartition, GroupingAction, GroupingState, GroupingWay,
    LevelTargets, LimitValue, OrderInputs, PartitionKey, Partitionwise, PlanningStep, QueryFacts,
    QueryTail, RollupOrder, RowsWanted, SortAttempt, TableChange, TailFacts, TargetAction, TargetPartition,
    TargetTable,
};
use planner::list::List;
use planner::plan::Operation;
use planner::rel::RelOptKind;
use planner::sortcols::{EquivalenceClass, PathKey, SortContext};
use planner::sortgroup::SortGroupClause;

fn list<T>(v: Vec<T>) -> List<T> {
    List::from_vec(v)
}

fn constant(value: u64, isnull: bool) -> Expr {
    Expr::Const(Const { typid: 20, collation: 0, value, isnull })
}

fn column(attno: i16, collation: u32) -> Expr {
    Expr::Var(Var {
        varno: 1,
        attno,
        typid: 25,
        typmod: -1,
        collation,
        levelsup: 0,
        nullingrels: list(vec![]),
    })
}

fn key(eclass: u32) -> PathKey {
    PathKey { eclass, opfamily: 1976, direction: OrderTest::Less, nulls_first: false }
}

fn clause(r: u32, sortable: bool, hashable: bool) -> SortGroupClause {
    SortGroupClause {
        tle_sort_group_ref: r,
        eqop: 96,
        sortop: if sortable { 97 } else { 0 },
        reverse_sort: false,
        nulls_first: false,
        hashable,
    }
}

fn query() -> QueryFacts {
    QueryFacts {
        set_operation: false,
        has_aggs: false,
        has_groups: false,
        grouping_sets: 0,
        has_window_funcs: false,
        active_windows: false,
        has_target_srfs: false,
        has_having_clause: false,
        has_having: false,
        has_distinct: false,
        has_sort: false,
        non_partial_aggs: false,
        non_serial_aggs: false,
        ordered_aggs: 0,
    }
}

#[test]
fn null_is_no_limit() {
    assert!(!limit_needed(&None, &None));
    assert!(!limit_needed(&Some(constant(0, true)), &Some(constant(0, true))));
    assert!(limit_needed(&Some(constant(0, false)), &None));
    assert!(limit_needed(&Some(Expr::Param(1, 20, 0)), &None));
}

#[test]
fn an_offset_of_zero_is_none() {
    assert!(!limit_needed(&None, &Some(constant(0, false))));
    assert!(limit_needed(&None, &Some(constant(3, false))));
    assert!(limit_needed(&None, &Some(Expr::Param(1, 20, 0))));
}

#[test]
fn limits_are_estimated() {
    let v = LimitValue::Value;
    assert_eq!(preprocess_limit(v(10), v(5), false), (10, 5, RowsWanted::UpTo(10, 5)));
    assert_eq!(preprocess_limit(v(-3), v(-3), false), (1, 0, RowsWanted::UpTo(1, 0)));
    assert_eq!(preprocess_limit(v(i64::MIN), LimitValue::Absent, true).0, 0);
    assert_eq!(
        preprocess_limit(LimitValue::Unknown, LimitValue::Null, false),
        (-1, 0, RowsWanted::SomePart)
    );
    assert_eq!(
        preprocess_limit(v(7), LimitValue::Unknown, false),
        (7, -1, RowsWanted::SomePart)
    );
    assert_eq!(preprocess_limit(LimitValue::Absent, v(9), true), (0, 9, RowsWanted::More(9)));
    assert_eq!(
        preprocess_limit(LimitValue::Null, LimitValue::Unknown, true),
        (0, -1, RowsWanted::MorePart)
    );
    assert_eq!(preprocess_limit(LimitValue::Absent, v(9), false), (0, 9, RowsWanted::AsBefore));
}

#[test]
fn limit_for_a_sort() {
    assert_eq!(limit_tuples(10, 5), Some((10, 5)));
    assert_eq!(limit_tuples(10, -1), None);
    assert_eq!(limit_tuples(0, 5), None);
}

#[test]
fn sortable_and_hashable_clauses() {
    let both = list(vec![clause(1, true, true), clause(2, true, false)]);
    assert!(grouping_is_sortable(&both));
    assert!(!grouping_is_hashable(&both));
    assert!(!grouping_is_sortable(&list(vec![clause(1, false, true)])));
    assert!(grouping_is_hashable(&list(vec![])));
}

#[test]
fn aggregates_in_parts() {
    let mut q = query();
    assert!(!can_partial_agg(&q));
    q.has_aggs = true;
    assert!(can_partial_agg(&q));
    q.non_serial_aggs = true;
    assert!(!can_partial_agg(&q));
    q.non_serial_aggs = false;
    q.non_partial_aggs = true;
    assert!(!can_partial_agg(&q));
    q.non_partial_aggs = false;
    q.grouping_sets = 1;
    assert!(!can_partial_agg(&q));
}

#[test]
fn ways_of_grouping() {
    let mut q = query();
    q.has_having = true;
    let none = list(vec![]);
    assert_eq!(create_grouping_paths(&q, &none, None, true), GroupingWay::Degenerate(1));
    q.grouping_sets = 3;
    assert_eq!(create_grouping_paths(&q, &none, None, true), GroupingWay::Degenerate(3));
    let mut q = query();
    q.has_groups = true;
    let clauses = list(vec![clause(1, false, true)]);
    assert_eq!(
        create_grouping_paths(&q, &clauses, None, true),
        GroupingWay::Ordinary {
            can_sort: false,
            can_hash: true,
            can_partial_agg: true,
            partitionwise: Partitionwise::Full,
        }
    );
    q.ordered_aggs = 1;
    q.grouping_sets = 2;
    assert_eq!(
        create_grouping_paths(&q, &clauses, Some((true, true)), true),
        GroupingWay::Ordinary {
            can_sort: true,
            can_hash: false,
            can_partial_agg: false,
            partitionwise: Partitionwise::Off,
        }
    );
}

#[test]
fn estimates_of_the_number_of_groups() {
    let mut q = query();
    assert_eq!(get_number_of_groups(&q), GroupEstimate::Exactly(1));
    q.grouping_sets = 4;
    assert_eq!(get_number_of_groups(&q), GroupEstimate::Exactly(4));
    q.has_groups = true;
    assert_eq!(get_number_of_groups(&q), GroupEstimate::EachSet);
    q.grouping_sets = 0;
    assert_eq!(get_number_of_groups(&q), GroupEstimate::Clauses);
}

#[test]
fn grouped_relations() {
    assert_eq!(
        make_grouping_rel(RelOptKind::OtherMemberRel, true, true, true),
        (RelOptKind::OtherUpperRel, true)
    );
    assert_eq!(
        make_grouping_rel(RelOptKind::BaseRel, true, false, true),
        (RelOptKind::UpperRel, false)
    );
}

#[test]
fn ways_of_aggregating_partitions() {
    let f = Partitionwise::Full;
    assert_eq!(choose_partitionwise(f, true, true, false), Partitionwise::Full);
    assert_eq!(choose_partitionwise(f, true, false, true), Partitionwise::Partial);
    assert_eq!(choose_partitionwise(f, true, false, false), Partitionwise::Off);
    assert_eq!(choose_partitionwise(f, false, true, true), Partitionwise::Off);
    assert_eq!(
        choose_partitionwise(Partitionwise::Partial, true, true, true),
        Partitionwise::Partial
    );
    assert_eq!(choose_partitionwise(Partitionwise::Off, true, true, true), Partitionwise::Off);
}

#[test]
fn an_ordinary_grouping_step_by_step() {
    let off = Partitionwise::Off;
    let act = |s| create_ordinary_grouping_paths(s, off, off, true);
    assert_eq!(act(GroupingState::Start), GroupingAction::PartialPaths(false));
    assert_eq!(act(GroupingState::PartialDone(true)), GroupingAction::NoPartitions);
    assert_eq!(
        act(GroupingState::PartitionsDone(true, false, true)),
        GroupingAction::Gather
    );
    assert_eq!(
        act(GroupingState::PartitionsDone(false, false, false)),
        GroupingAction::AddPaths
    );
    assert_eq!(act(GroupingState::GatherDone), GroupingAction::AddPaths);
    assert_eq!(act(GroupingState::PathsAdded(true)), GroupingAction::Done);
    assert_eq!(
        act(GroupingState::PathsAdded(false)),
        GroupingAction::Fail(PlannerError::CouldNotImplementGroupBy)
    );
    assert_eq!(act(GroupingState::Finished), GroupingAction::Done);
    assert_eq!(
        create_ordinary_grouping_paths(GroupingState::Start, off, off, false),
        GroupingAction::NoPartialPaths
    );
    let partial = Partitionwise::Partial;
    assert_eq!(
        create_ordinary_grouping_paths(GroupingState::Start, off, partial, true),
        GroupingAction::PartialPaths(true)
    );
    assert_eq!(
        create_ordinary_grouping_paths(GroupingState::PartialDone(true), off, partial, true),
        GroupingAction::Partitions(partial)
    );
    assert_eq!(
        create_ordinary_grouping_paths(
            GroupingState::PartitionsDone(true, true, true),
            partial,
            off,
            true
        ),
        GroupingAction::LeaveToParent(true)
    );
}

#[test]
fn partitions_are_put_together() {
    let part = |dummy, grouped, partial| GroupedPartition { dummy, grouped, partial };
    let parts = list(vec![part(false, 1, Some(11)), part(true, 2, None), part(false, 3, Some(13))]);
    let (partial, full) =
        create_partitionwise_grouping_paths(&parts, Partitionwise::Full, true).unwrap();
    assert_eq!(partial.unwrap().to_vec(), vec![11, 13]);
    assert_eq!(full.unwrap().to_vec(), vec![1, 3]);
    let parts = list(vec![part(false, 1, Some(11)), part(false, 3, None)]);
    let (partial, full) =
        create_partitionwise_grouping_paths(&parts, Partitionwise::Partial, true).unwrap();
    assert!(partial.is_none() && full.is_none());
    let r = create_partitionwise_grouping_paths(
        &list(vec![part(true, 1, None)]),
        Partitionwise::Full,
        false,
    );
    assert!(matches!(r, Err(PlannerError::NoLivePartition)));
}

#[test]
fn groups_inside_partitions() {
    let keys = |c| list(vec![PartitionKey { exprs: list(vec![column(1, 100)]), collation: c }]);
    let groups = list(vec![column(2, 100), column(1, 100)]);
    assert!(group_by_has_partkey(&groups, &keys(100), true));
    assert!(group_by_has_partkey(&groups, &keys(0), true));
    assert!(!group_by_has_partkey(&groups, &keys(950), true));
    assert!(!group_by_has_partkey(&list(vec![column(2, 100)]), &keys(100), true));
    assert!(!group_by_has_partkey(&groups, &keys(100), false));
    let relabelled = list(vec![Expr::Relabel {
        typid: 25,
        collation: 100,
        arg: Box::new(column(1, 100)),
    }]);
    assert!(group_by_has_partkey(&relabelled, &keys(100), true));
}

#[test]
fn volatile_orders() {
    let class = |v| EquivalenceClass {
        has_volatile: v,
        sortref: 0,
        collation: 0,
        members: list(vec![]),
        childmembers: list(vec![]),
    };
    let ctx = SortContext { classes: vec![class(false), class(true)] };
    assert!(!has_volatile_pathkey(&ctx, &list(vec![key(0)])));
    assert!(has_volatile_pathkey(&ctx, &list(vec![key(0), key(1)])));
}

fn keys(classes: &[u32]) -> List<PathKey> {
    list(classes.iter().map(|&c| key(c)).collect())
}

fn sorted(classes: &[u32]) -> Option<SortAttempt> {
    Some(SortAttempt {
        keys: keys(classes),
        sortable: true,
        clauses: list(vec![clause(4, true, true)]),
    })
}

fn unsorted(classes: &[u32]) -> Option<SortAttempt> {
    Some(SortAttempt {
        keys: keys(classes),
        sortable: false,
        clauses: list(vec![clause(5, false, true)]),
    })
}

fn no_orders() -> OrderInputs {
    OrderInputs {
        rollup: None,
        group: None,
        aggs: list(vec![]),
        enable_presorted_aggregate: true,
        window: list(vec![]),
        distinct: None,
        sort: list(vec![]),
        setop: None,
    }
}

#[test]
fn where_the_order_of_a_grouping_comes_from() {
    let mut q = query();
    let grouped = |q: &QueryFacts, rollup, group| {
        let r = standard_qp_callback(q, OrderInputs { rollup, group, ..no_orders() });
        (r.keys.group.to_vec(), r.num_groupby_pathkeys)
    };
    assert_eq!(grouped(&q, None, None), (vec![], 0));
    let rollup = |classes: &[u32], sortable| {
        Some(RollupOrder { clauses: list(vec![clause(1, sortable, true)]), keys: keys(classes) })
    };
    assert_eq!(grouped(&q, rollup(&[1, 2], true), None), (vec![key(1), key(2)], 2));
    assert_eq!(grouped(&q, rollup(&[1], false), sorted(&[2])), (vec![], 0));
    assert_eq!(grouped(&q, None, sorted(&[3])), (vec![], 0));
    q.has_groups = true;
    assert_eq!(grouped(&q, None, sorted(&[3])), (vec![key(3)], 1));
    assert_eq!(grouped(&q, None, unsorted(&[3])), (vec![], 0));
}

#[test]
fn ordered_aggregates_add_to_the_order_of_a_grouping() {
    let mut q = query();
    q.has_groups = true;
    q.ordered_aggs = 1;
    let order = |enabled| {
        let agg = AggOrder {
            id: 7,
            normal: true,
            ordered: true,
            has_filter: false,
            args: list(vec![]),
            volatile: false,
            keys: keys(&[1, 9]),
        };
        standard_qp_callback(
            &q,
            OrderInputs {
                group: sorted(&[1]),
                aggs: list(vec![agg]),
                enable_presorted_aggregate: enabled,
                ..no_orders()
            },
        )
    };
    let r = order(true);
    assert_eq!(r.keys.group.to_vec(), vec![key(1), key(9)]);
    assert_eq!(r.num_groupby_pathkeys, 1);
    assert_eq!(r.presorted.to_vec(), vec![7]);
    assert_eq!(r.query.to_vec(), vec![key(1), key(9)]);
    let r = order(false);
    assert_eq!(r.keys.group.to_vec(), vec![key(1)]);
    assert!(r.presorted.is_nil());
}

#[test]
fn the_order_wanted_of_scans_and_joins() {
    let wanted = |g: &[u32], w: &[u32], d: &[u32], s: &[u32], o: &[u32]| {
        let mut q = query();
        q.has_groups = true;
        let inputs = OrderInputs {
            group: sorted(g),
            window: keys(w),
            distinct: sorted(d),
            sort: keys(s),
            setop: sorted(o),
            ..no_orders()
        };
        standard_qp_callback(&q, inputs).query.to_vec()
    };
    assert_eq!(wanted(&[1], &[2], &[3], &[4], &[5]), vec![key(1)]);
    assert_eq!(wanted(&[], &[2], &[3], &[4], &[5]), vec![key(2)]);
    assert_eq!(wanted(&[], &[], &[3, 4], &[3], &[5]), vec![key(3), key(4)]);
    assert_eq!(wanted(&[], &[], &[3], &[4], &[5]), vec![key(4)]);
    assert_eq!(wanted(&[], &[], &[], &[], &[5]), vec![key(5)]);
}

#[test]
fn clauses_that_count_once_orders_are_chosen() {
    let left = |q: &QueryFacts, rollup: bool, group, distinct| {
        let rollup = if rollup {
            Some(RollupOrder { clauses: list(vec![]), keys: keys(&[]) })
        } else {
            None
        };
        let inputs = OrderInputs { rollup, group, distinct, ..no_orders() };
        let r = standard_qp_callback(q, inputs);
        (r.group_clauses.map(|l| l.to_vec()), r.distinct_clauses.map(|l| l.to_vec()))
    };
    let mut q = query();
    assert_eq!(left(&q, false, sorted(&[1]), None), (None, None));
    q.has_groups = true;
    let (sortable, not) = (clause(4, true, true), clause(5, false, true));
    assert_eq!(left(&q, false, sorted(&[1]), None), (Some(vec![sortable]), None));
    assert_eq!(
        left(&q, false, unsorted(&[1]), unsorted(&[2])),
        (Some(vec![not]), Some(vec![not]))
    );
    assert_eq!(left(&q, true, sorted(&[1]), sorted(&[2])), (None, Some(vec![sortable])));
}

#[test]
fn clauses_that_cannot_be_sorted_lead_to_no_order() {
    let r = standard_qp_callback(
        &query(),
        OrderInputs { distinct: unsorted(&[3]), setop: unsorted(&[5]), ..no_orders() },
    );
    assert!(r.keys.distinct.is_nil() && r.keys.setop.is_nil() && r.query.is_nil());
}

#[test]
fn targets_of_the_steps_of_a_query() {
    let targets = |q: &QueryFacts, sort_input| choose_level_targets(q, 10, sort_input, 30, 40);
    let mut q = query();
    assert_eq!(
        targets(&q, Some(20)),
        LevelTargets { scanjoin: 10, grouping: 10, sort_input: 10, last: 10 }
    );
    q.has_sort = true;
    assert_eq!(
        targets(&q, Some(20)),
        LevelTargets { scanjoin: 20, grouping: 20, sort_input: 20, last: 10 }
    );
    assert_eq!(targets(&q, None).sort_input, 10);
    q.active_windows = true;
    q.has_aggs = true;
    let t = targets(&q, Some(20));
    assert_eq!(t, LevelTargets { scanjoin: 40, grouping: 30, sort_input: 20, last: 10 });
    assert_eq!(
        list_target_splits(&t).to_vec(),
        vec![(10, Some(20)), (20, Some(30)), (30, Some(40)), (40, None)]
    );
}

#[test]
fn only_live_partitions_count() {
    let part = |rel, dummy| TargetPartition { rel, dummy };
    let parts = list(vec![part(4, false), part(5, true), part(6, false)]);
    assert_eq!(collect_live_partitions(&parts).to_vec(), vec![4, 6]);
}

#[test]
fn a_target_is_applied_to_paths() {
    assert_eq!(
        apply_scanjoin_target_to_paths(&vec![7], false, true, true, true, false).to_vec(),
        vec![
            TargetAction::Relabel(7),
            TargetAction::AdjustSetReturning,
            TargetAction::SetTarget(7),
            TargetAction::Gather,
            TargetAction::SetCheapest
        ]
    );
    assert_eq!(
        apply_scanjoin_target_to_paths(&vec![7, 8, 9], true, false, false, true, false).to_vec(),
        vec![
            TargetAction::DropPaths,
            TargetAction::GatherAndDropParallel,
            TargetAction::DropParallelPaths,
            TargetAction::Project(7),
            TargetAction::AdjustSetReturning,
            TargetAction::SetTarget(9),
            TargetAction::Partitions,
            TargetAction::SetCheapest
        ]
    );
    assert_eq!(
        apply_scanjoin_target_to_paths(&vec![7], false, true, false, true, true).to_vec(),
        vec![
            TargetAction::Project(7),
            TargetAction::AdjustSetReturning,
            TargetAction::SetTarget(7),
            TargetAction::SetCheapest
        ]
    );
}

#[test]
fn steps_of_planning() {
    assert_eq!(
        grouping_planner(&query()).to_vec(),
        vec![PlanningStep::TargetList, PlanningStep::ScanJoin(true), PlanningStep::ApplyTarget, PlanningStep::Final]
    );
    let mut q = query();
    q.has_aggs = true;
    q.has_groups = true;
    q.has_having_clause = true;
    q.has_having = true;
    q.has_distinct = true;
    q.has_sort = true;
    assert_eq!(
        grouping_planner(&q).to_vec(),
        vec![
            PlanningStep::GroupClause,
            PlanningStep::TargetList,
            PlanningStep::Aggregates(true),
            PlanningStep::MinMax,
            PlanningStep::ScanJoin(false),
            PlanningStep::SortInputTarget,
            PlanningStep::GroupInputTarget,
            PlanningStep::ApplyTarget,
            PlanningStep::Group(false),
            PlanningStep::Distinct,
            PlanningStep::Order(false),
            PlanningStep::Final
        ]
    );
    // HAVING may be gone by the time that aggregates are looked at.
    q.has_having_clause = false;
    assert!(grouping_planner(&q).to_vec().contains(&PlanningStep::Aggregates(false)));
    q.set_operation = true;
    assert_eq!(grouping_planner(&q).to_vec(), vec![PlanningStep::SetOperations, PlanningStep::Order(false), PlanningStep::Final]);
}

fn tail() -> TailFacts {
    TailFacts {
        has_row_marks: false,
        count: None,
        offset: None,
        input_parallel: true,
        limits_parallel_safe: true,
        query_level: 2,
    }
}

fn ends(f: &TailFacts, change: Option<TableChange>) -> QueryTail {
    grouping_planner_tail(f, change, &list(vec![3, 4]), &list(vec![5]), &mut vec![23])
}

#[test]
fn the_end_of_a_select() {
    let t = ends(&tail(), None);
    assert!(t.targets.is_none());
    assert!(!t.steps.lock_rows && !t.steps.limit && !t.steps.modify_table);
    assert!(t.steps.consider_parallel && t.steps.keep_parallel_paths);
    assert_eq!(t.partial_paths.to_vec(), vec![5]);
    let plain = |input| FinalPath { input, lock_rows: None, limit: false, modify_table: None };
    assert_eq!(t.paths.to_vec(), vec![plain(3), plain(4)]);
    let mut f = tail();
    f.query_level = 1;
    assert!(ends(&f, None).partial_paths.is_nil());
    let mut f = tail();
    f.count = Some(constant(5, false));
    let t = ends(&f, None);
    assert!(t.steps.limit && t.partial_paths.is_nil());
}

#[test]
fn each_path_has_parameters_of_its_own() {
    let mut f = tail();
    f.has_row_marks = true;
    let change = TableChange {
        top: table(1, false),
        inherited: false,
        leaves: list(vec![]),
        operation: Operation::Delete,
    };
    let mut types = vec![23];
    let none = list(vec![]);
    let t = grouping_planner_tail(&f, Some(change), &list(vec![3, 4]), &none, &mut types);
    assert_eq!(types, vec![23, 0, 0, 0, 0]);
    let path = |input, lock, modify| FinalPath {
        input,
        lock_rows: Some(lock),
        limit: false,
        modify_table: Some(modify),
    };
    assert_eq!(t.paths.to_vec(), vec![path(3, 1, 2), path(4, 3, 4)]);
}

#[test]
fn a_sort_before_sets_does_not_stop_early() {
    assert_eq!(limit_of_sort(Some((5, 1)), false), Some((5, 1)));
    assert_eq!(limit_of_sort(Some((5, 1)), true), None);
}

fn table(relid: i32, dummy: bool) -> TargetTable {
    TargetTable {
        relid,
        dummy,
        colnos: list(vec![relid as i16]),
        checks: list(vec![]),
        returning: list(vec![constant(relid as u64, false)]),
        actions: list(vec![]),
        condition: None,
    }
}

#[test]
fn tables_that_are_changed() {
    let change = TableChange {
        top: table(1, false),
        inherited: true,
        leaves: list(vec![table(4, false), table(5, true), table(6, false)]),
        operation: Operation::Update,
    };
    let (lists, root) = ends(&tail(), Some(change)).targets.unwrap();
    assert_eq!(root, 1);
    assert_eq!(lists.relations.to_vec(), vec![4, 6]);
    assert_eq!(format!("{:?}", lists.colnos), format!("{:?}", list(vec![list(vec![4i16]), list(vec![6])])));
    assert!(lists.checks.is_nil() && lists.conditions.is_nil());
}

#[test]
fn a_table_all_of_whose_children_are_excluded() {
    let change = TableChange {
        top: table(1, false),
        inherited: true,
        leaves: list(vec![table(5, true)]),
        operation: Operation::Merge,
    };
    let (lists, root) = ends(&tail(), Some(change)).targets.unwrap();
    assert_eq!(root, 1);
    assert_eq!(lists.relations.to_vec(), vec![1]);
    assert!(lists.colnos.is_nil() && !lists.conditions.is_nil());
    let change = TableChange {
        top: table(1, false),
        inherited: false,
        leaves: list(vec![]),
        operation: Operation::Delete,
    };
    let (lists, root) = ends(&tail(), Some(change)).targets.unwrap();
    assert_eq!(root, 0);
    assert_eq!(lists.relations.to_vec(), vec![1]);
}

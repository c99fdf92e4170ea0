use planner::cluster::plan_cluster_use_sort;
use planner::cte::{
    assign_special_exec_param, choose_way, contain_dml, contain_outer_selfref,
    cte_plan_id_and_param, go_deeper, inline_cte, note_cte_plan, raise_level, resolve_cte_plan,
    set_cte_pathlist, set_worktable_pathlist, ss_process_ctes, Materialize, NamedLevel,
    NamedProgress, NamedQuery, NamedQueryFacts, NamedQueryWay, NamedScan, RecursionLevel, Source,
    NO_PLAN,
};
use planner::error::PlannerError;
use planner::flatten_group::{
    flatten_group_exprs, flatten_group_exprs_list, grouped_outer_var_in_subquery,
    mark_nullable_by_grouping, GroupContext, GroupExpr,
};
use planner::list::List;

fn list<T>(v: Vec<T>) -> List<T> {
    List::from_vec(v)
}

fn shown<T: std::fmt::Debug>(x: &T) -> String {
    format!("{:?}", x)
}

fn query(sources: Vec<Source>) -> NamedQuery {
    NamedQuery {
        is_select: true,
        has_row_marks: false,
        var_levels: list(vec![0, 1]),
        sources: list(sources),
    }
}

fn named(name: u32, levelsup: u32) -> Source {
    Source::Named { name, levelsup, self_reference: false }
}

fn facts(refcount: i32, materialized: Materialize) -> NamedQueryFacts {
    NamedQueryFacts {
        name: 1,
        refcount,
        materialized,
        recursive: false,
        volatile: false,
        query: query(vec![]),
    }
}

fn way(f: NamedQueryFacts) -> NamedQueryWay {
    choose_way(&f)
}

#[test]
fn queries_that_change_rows() {
    assert!(!contain_dml(&query(vec![named(1, 0)])));
    let mut locking = query(vec![]);
    locking.has_row_marks = true;
    assert!(contain_dml(&locking));
    let mut update = query(vec![]);
    update.is_select = false;
    assert!(contain_dml(&query(vec![Source::Other(1), Source::Subquery(Box::new(update))])));
}

#[test]
fn queries_that_name_themselves() {
    let own = |levelsup| Source::Named { name: 1, levelsup, self_reference: true };
    assert!(contain_outer_selfref(&query(vec![own(1)]), 0));
    assert!(!contain_outer_selfref(&query(vec![own(0)]), 0));
    assert!(!contain_outer_selfref(&query(vec![named(1, 3)]), 0));
    let inner = Source::Subquery(Box::new(query(vec![own(1)])));
    assert!(!contain_outer_selfref(&query(vec![inner]), 0));
    let inner = Source::Subquery(Box::new(query(vec![own(2)])));
    assert!(contain_outer_selfref(&query(vec![inner]), 0));
}

#[test]
fn what_becomes_of_a_named_query() {
    assert_eq!(way(facts(0, Materialize::Default)), NamedQueryWay::Skip);
    assert_eq!(way(facts(1, Materialize::Default)), NamedQueryWay::Inline(true));
    assert_eq!(way(facts(2, Materialize::Default)), NamedQueryWay::Plan);
    assert_eq!(way(facts(2, Materialize::Never)), NamedQueryWay::Inline(false));
    assert_eq!(way(facts(1, Materialize::Always)), NamedQueryWay::Plan);
}

#[test]
fn named_queries_that_are_always_planned() {
    let mut f = facts(1, Materialize::Default);
    f.recursive = true;
    assert_eq!(way(f), NamedQueryWay::Plan);
    let mut f = facts(1, Materialize::Never);
    f.volatile = true;
    assert_eq!(way(f), NamedQueryWay::Plan);
    let mut f = facts(0, Materialize::Never);
    f.query.is_select = false;
    assert_eq!(way(f), NamedQueryWay::Plan);
    let mut f = facts(2, Materialize::Never);
    f.query.sources = list(vec![Source::Named { name: 1, levelsup: 1, self_reference: true }]);
    assert_eq!(way(f), NamedQueryWay::Plan);
}

#[test]
fn a_named_query_is_put_in_place() {
    let q = query(vec![
        named(5, 0),
        Source::Subquery(Box::new(query(vec![named(5, 1), named(5, 0)]))),
    ]);
    let def = query(vec![named(9, 1), Source::Other(3)]);
    let r = inline_cte(q, 5, 0, &def);
    let mut deeper = query(vec![named(9, 2), Source::Other(3)]);
    deeper.var_levels = list(vec![0, 2]);
    let want = query(vec![
        Source::Subquery(Box::new(query(vec![named(9, 1), Source::Other(3)]))),
        Source::Subquery(Box::new(query(vec![
            Source::Subquery(Box::new(deeper)),
            named(5, 0),
        ]))),
    ]);
    assert_eq!(shown(&r), shown(&want));
    assert_eq!(raise_level(3, 2, 1), 5);
    assert_eq!(raise_level(0, 2, 1), 0);
    assert_eq!(go_deeper(4), 5);
}

fn level(names: Vec<u32>, plan_ids: Vec<i32>, init_plans: Vec<(i32, i32)>) -> NamedLevel {
    NamedLevel { names: list(names), plan_ids: list(plan_ids), init_plans: list(init_plans) }
}

fn named_as(name: u32, refcount: i32, m: Materialize, sources: Vec<Source>) -> NamedQueryFacts {
    NamedQueryFacts { name, query: query(sources), ..facts(refcount, m) }
}

fn started(query: NamedQuery, left: Vec<NamedQueryFacts>) -> NamedProgress {
    let names = left.iter().map(|f| f.name).collect();
    NamedProgress { query, left: list(left), level: level(names, vec![], vec![]) }
}

#[test]
fn named_queries_one_after_the_other() {
    // The first is put in place, in the second as well; the second is planned.
    let p = started(
        query(vec![named(5, 0), named(6, 0)]),
        vec![
            named_as(5, 1, Materialize::Default, vec![Source::Other(3)]),
            named_as(7, 0, Materialize::Default, vec![]),
            named_as(6, 2, Materialize::Default, vec![named(5, 1)]),
        ],
    );
    let p = ss_process_ctes(p);
    let put = |sources| Source::Subquery(Box::new(query(sources)));
    assert_eq!(
        shown(&p.query),
        shown(&query(vec![put(vec![Source::Other(3)]), named(6, 0)]))
    );
    assert_eq!(p.level.plan_ids.to_vec(), vec![NO_PLAN, NO_PLAN]);
    match &p.left {
        List::Cons(f, rest) => {
            assert_eq!(f.name, 6);
            assert!(rest.is_nil());
            let mut deeper = query(vec![Source::Other(3)]);
            deeper.var_levels = list(vec![0, 2]);
            assert_eq!(
                shown(&f.query.sources),
                shown(&list(vec![Source::Subquery(Box::new(deeper))]))
            );
        }
        List::Nil => panic!("one is left"),
    }

    let mut types = vec![23, 0];
    let p = note_cte_plan(p, 4, &mut types);
    assert_eq!(types, vec![23, 0, 0]);
    let p = ss_process_ctes(p);
    assert!(p.left.is_nil());
    assert_eq!(p.level.plan_ids.to_vec(), vec![NO_PLAN, NO_PLAN, 5]);
    let levels = list(vec![p.level]);
    assert_eq!(resolve_cte_plan(&levels, 6, 0), Ok((5, 2)));
    assert_eq!(resolve_cte_plan(&levels, 5, 0), Err(PlannerError::NamedQueryNotPlanned));
}

#[test]
fn what_is_put_in_place_counts_for_what_follows() {
    // The first refers to a recursive query around it. Read once, it is put in
    // place all the same; the second, read twice, then is not.
    let own = || Source::Named { name: 9, levelsup: 1, self_reference: true };
    let second = || named_as(6, 2, Materialize::Never, vec![named(5, 1)]);
    assert_eq!(choose_way(&second()), NamedQueryWay::Inline(false));
    let p = started(
        query(vec![named(6, 0), named(6, 0)]),
        vec![named_as(5, 1, Materialize::Default, vec![own()]), second()],
    );
    let p = ss_process_ctes(p);
    assert_eq!(p.level.plan_ids.to_vec(), vec![NO_PLAN]);
    assert!(matches!(&p.left, List::Cons(f, _) if f.name == 6));
}

#[test]
fn a_named_query_that_has_to_be_planned_comes_first() {
    let mut locking = named_as(5, 1, Materialize::Never, vec![]);
    locking.query.has_row_marks = true;
    let p = started(
        query(vec![named(6, 0)]),
        vec![locking, named_as(6, 1, Materialize::Default, vec![])],
    );
    let p = ss_process_ctes(p);
    assert!(matches!(&p.left, List::Cons(f, _) if f.name == 5));
    assert!(p.level.plan_ids.is_nil());
    let p = ss_process_ctes(note_cte_plan(p, 0, &mut vec![]));
    assert!(p.left.is_nil());
    assert_eq!(p.level.plan_ids.to_vec(), vec![1, NO_PLAN]);
    assert_eq!(shown(&p.level.init_plans), shown(&list(vec![(1, 0)])));
}

#[test]
fn plans_of_named_queries() {
    let levels = list(vec![
        level(vec![], vec![], vec![]),
        level(vec![4, 5], vec![1, 2], vec![(2, 30), (1, 20)]),
    ]);
    assert_eq!(resolve_cte_plan(&levels, 5, 1), Ok((2, 30)));
    assert_eq!(resolve_cte_plan(&levels, 4, 1), Ok((1, 20)));
    assert_eq!(resolve_cte_plan(&levels, 5, 2), Err(PlannerError::BadQueryLevel));
    assert_eq!(resolve_cte_plan(&levels, 6, 1), Err(PlannerError::NamedQueryNotFound));
    let unplanned = list(vec![level(vec![4], vec![-1], vec![])]);
    assert_eq!(resolve_cte_plan(&unplanned, 4, 0), Err(PlannerError::NamedQueryNotPlanned));
    let lost = list(vec![level(vec![4], vec![7], vec![(8, 1)])]);
    assert_eq!(resolve_cte_plan(&lost, 4, 0), Err(PlannerError::NamedPlanNotFound));
}

#[test]
fn scans_of_named_queries_are_remembered() {
    let levels = list(vec![level(vec![4], vec![1], vec![(1, 20)])]);
    let scans = set_cte_pathlist(list(vec![]), &levels, 3, 4, 0).unwrap();
    assert_eq!(cte_plan_id_and_param(&scans, 3), (1, 20));
    let there = list(vec![NamedScan { rti: 2, plan_id: 9, param: 8 }]);
    let scans = set_cte_pathlist(there, &levels, 3, 4, 0).unwrap();
    assert_eq!(cte_plan_id_and_param(&scans, 2), (9, 8));
    assert!(set_cte_pathlist(list(vec![]), &levels, 3, 5, 0).is_err());
}

#[test]
fn work_tables_of_recursive_queries() {
    let levels = list(vec![
        RecursionLevel { wt_param: -1, has_path: false },
        RecursionLevel { wt_param: 6, has_path: true },
        RecursionLevel { wt_param: 7, has_path: false },
    ]);
    assert_eq!(set_worktable_pathlist(&levels, 2), Ok(6));
    assert!(set_worktable_pathlist(&levels, 0).is_err());
    assert!(set_worktable_pathlist(&levels, 3).is_err());
    assert!(set_worktable_pathlist(&levels, 9).is_err());
}

#[test]
fn special_parameters() {
    let mut types = vec![23];
    assert_eq!(assign_special_exec_param(&mut types), 1);
    assert_eq!(assign_special_exec_param(&mut types), 2);
    assert_eq!(types, vec![23, 0, 0]);
}

#[test]
fn sorting_before_clustering() {
    let sorts = |enabled, index, sort: f64, scan: f64| {
        let usable = list(vec![7, 8]);
        plan_cluster_use_sort(enabled, &usable, index, sort.to_bits(), scan.to_bits())
    };
    assert!(sorts(false, 7, 9.5, 1.25));
    assert!(sorts(true, 6, 9.5, 1.25));
    assert!(sorts(true, 8, 1.25, 9.5));
    assert!(!sorts(true, 8, 9.5, 1.25));
    assert!(!sorts(true, 8, 2.0, 2.0));
}

fn var(varno: u32, attno: u32, levelsup: u32, nulling: Vec<u32>) -> GroupExpr {
    GroupExpr::Var { varno, attno, levelsup, nullingrels: list(nulling) }
}

fn other(args: Vec<GroupExpr>, volatile: bool) -> GroupExpr {
    GroupExpr::Other { args: Box::new(list(args)), volatile, returns_set: false, tag: 1 }
}

fn grouping() -> GroupContext {
    GroupContext {
        rtindex: 9,
        exprs: list(vec![var(1, 4, 0, vec![]), other(vec![var(2, 1, 0, vec![])], false)]),
        rels: list(vec![1, 2]),
        has_sublinks: false,
    }
}

#[test]
fn references_to_the_grouping_are_replaced() {
    let e = other(vec![var(9, 1, 0, vec![]), var(3, 1, 0, vec![])], false);
    let want = other(vec![var(1, 4, 0, vec![]), var(3, 1, 0, vec![])], false);
    assert_eq!(shown(&flatten_group_exprs(e, &grouping(), 0)), shown(&want));
    let l = flatten_group_exprs_list(list(vec![var(9, 2, 0, vec![]), var(9, 7, 0, vec![])]), &grouping(), 0);
    let want = list(vec![other(vec![var(2, 1, 0, vec![])], false), var(9, 7, 0, vec![])]);
    assert_eq!(shown(&l), shown(&want));
}

#[test]
fn nullable_references_are_marked() {
    let r = flatten_group_exprs(var(9, 1, 0, vec![9]), &grouping(), 0);
    assert_eq!(shown(&r), shown(&var(1, 4, 0, vec![9])));
    let constant = other(vec![], false);
    let r = mark_nullable_by_grouping(constant, 0, &list(vec![9]), &list(vec![1, 2]));
    let want = GroupExpr::PlaceHolder {
        levelsup: 0,
        nullingrels: list(vec![9]),
        rels: list(vec![1, 2]),
        expr: Box::new(other(vec![], false)),
    };
    assert_eq!(shown(&r), shown(&want));
    let volatile = mark_nullable_by_grouping(other(vec![], true), 0, &list(vec![9]), &list(vec![1]));
    assert_eq!(shown(&volatile), shown(&other(vec![], true)));
}

#[test]
fn arguments_of_aggregates_are_left_alone() {
    let agg = |direct, args| GroupExpr::Aggref {
        levelsup: 0,
        direct: Box::new(list(vec![direct])),
        args: Box::new(list(vec![args])),
        tag: 2,
    };
    let e = agg(var(9, 1, 0, vec![]), var(9, 1, 0, vec![]));
    let want = agg(var(1, 4, 0, vec![]), var(9, 1, 0, vec![]));
    assert_eq!(shown(&flatten_group_exprs(e, &grouping(), 0)), shown(&want));
    let e = GroupExpr::Grouping { levelsup: 0, args: Box::new(list(vec![var(9, 1, 0, vec![])])), tag: 3 };
    let before = shown(&e);
    assert_eq!(shown(&flatten_group_exprs(e, &grouping(), 0)), before);
}

#[test]
fn queries_inside_expressions() {
    let inner = |e, has_sublinks| GroupExpr::Query {
        sublink: true,
        has_sublinks,
        exprs: Box::new(list(vec![e])),
    };
    let e = inner(var(9, 1, 1, vec![]), false);
    let want = inner(var(1, 4, 1, vec![]), false);
    assert_eq!(shown(&flatten_group_exprs(e, &grouping(), 0)), shown(&want));
    let mut g = grouping();
    g.exprs = list(vec![inner(var(1, 1, 0, vec![]), false)]);
    g.has_sublinks = true;
    let r = flatten_group_exprs(inner(var(9, 1, 1, vec![]), false), &g, 0);
    assert!(matches!(r, GroupExpr::Query { has_sublinks: true, .. }));
}

#[test]
fn queries_that_refer_to_the_grouping() {
    let refers = |e| grouped_outer_var_in_subquery(&list(vec![e]), 9, 0);
    assert!(refers(var(9, 1, 1, vec![])));
    assert!(!refers(var(9, 1, 0, vec![])));
    assert!(!refers(other(vec![var(8, 1, 1, vec![])], false)));
    let inner = |levelsup| GroupExpr::Query {
        sublink: false,
        has_sublinks: false,
        exprs: Box::new(list(vec![var(9, 1, levelsup, vec![])])),
    };
    assert!(refers(inner(2)));
    assert!(!refers(inner(1)));
    let e = other(vec![var(3, 1, 0, vec![]), var(9, 1, 1, vec![])], true);
    let before = shown(&e);
    assert_eq!(shown(&flatten_group_exprs(e, &grouping(), 0)), before);
}

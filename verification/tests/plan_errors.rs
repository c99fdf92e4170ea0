use planner::error::PlannerError;
use planner::expr::{Const, Expr, Head, OrderTest, PathTarget, TargetEntry, Var};
use planner::list::List;
use planner::path::{JoinClause, UniqueOperators};
use planner::plan::{Amounts, Plan, PlanCosts, PlanNode};
use planner::plangroup::{
    find_unique_columns, find_unique_expr_columns, make_sort_from_groupcols,
    prepare_ordered_append_child,
};
use planner::planjoin::find_merge_keys;
use planner::planmodify::make_foreignscan;
use planner::planscan::label_physical;
use planner::cte::{set_worktable_pathlist, RecursionLevel};
use planner::quals::Rinfo;
use planner::sortcols::{
    prepare_sort_from_pathkeys, EcMember, EquivalenceClass, PathKey, SortContext,
};
use planner::sortgroup::SortGroupClause;

fn list<T>(v: Vec<T>) -> List<T> {
    List::from_vec(v)
}

fn column(varno: i32, attno: i16) -> Expr {
    Expr::Var(Var {
        varno,
        attno,
        typid: 23,
        typmod: -1,
        collation: 0,
        levelsup: 0,
        nullingrels: list(vec![]),
    })
}

fn constant(value: u64) -> Expr {
    Expr::Const(Const { typid: 23, collation: 0, value, isnull: false })
}

fn entry(expr: Expr, resno: i16, label: u32) -> TargetEntry {
    TargetEntry {
        expr,
        resno,
        resname: None,
        ressortgroupref: label,
        resorigtbl: 0,
        resorigcol: 0,
        resjunk: false,
    }
}

fn class(has_volatile: bool, sortref: u32, expr: Expr) -> EquivalenceClass {
    EquivalenceClass {
        has_volatile,
        sortref,
        collation: 0,
        members: list(vec![EcMember {
            expr,
            is_const: false,
            is_child: false,
            relids: list(vec![1]),
            datatype: 23,
        }]),
        childmembers: list(vec![]),
    }
}

fn context() -> SortContext {
    SortContext {
        classes: vec![
            class(false, 0, column(1, 1)),
            class(true, 0, column(1, 2)),
            class(true, 4, column(1, 2)),
        ],
    }
}

fn key(eclass: u32) -> PathKey {
    PathKey { eclass, opfamily: 1976, direction: OrderTest::Less, nulls_first: false }
}

fn descending(eclass: u32) -> PathKey {
    PathKey { eclass, opfamily: 1976, direction: OrderTest::Greater, nulls_first: true }
}

fn sort(k: PathKey, tlist: Vec<TargetEntry>) -> Result<Vec<i16>, PlannerError> {
    let r = prepare_sort_from_pathkeys(
        &context(),
        &list(vec![k]),
        list(tlist),
        &list(vec![1]),
        None,
    );
    match r {
        Ok(c) => Ok(planner::plangroup::sort_column_numbers(&c.columns).to_vec()),
        Err(e) => Err(e),
    }
}

#[test]
fn columns_to_sort_by() {
    let tlist = || vec![entry(column(1, 2), 1, 4), entry(column(1, 1), 2, 0)];
    assert_eq!(sort(key(0), tlist()), Ok(vec![2]));
    assert_eq!(sort(key(2), tlist()), Ok(vec![1]));
    assert_eq!(sort(key(1), tlist()), Err(PlannerError::VolatileClassWithoutSortref));
    assert_eq!(sort(key(2), vec![]), Err(PlannerError::SortGroupRefNotFound));
    assert_eq!(sort(key(7), tlist()), Err(PlannerError::UnknownEquivalenceClass));
}

#[test]
fn a_column_to_sort_by_is_added() {
    let sum = Expr::Call {
        head: Head::Op { opno: 551, typid: 23, collation: 0, inputcollid: 0 },
        args: Box::new(list(vec![column(1, 1), constant(1)])),
    };
    let whole = Expr::Call {
        head: Head::Op { opno: 551, typid: 23, collation: 0, inputcollid: 0 },
        args: Box::new(list(vec![column(1, 1), constant(1)])),
    };
    let ctx = SortContext { classes: vec![class(false, 0, whole)] };
    let tlist = list(vec![entry(column(1, 1), 1, 0)]);
    let r = prepare_sort_from_pathkeys(&ctx, &list(vec![key(0)]), tlist, &list(vec![1]), None);
    let c = r.unwrap();
    assert_eq!(planner::plangroup::sort_column_numbers(&c.columns).to_vec(), vec![2]);
    let mut added = entry(sum, 2, 0);
    added.resjunk = true;
    let want = list(vec![entry(column(1, 1), 1, 0), added]);
    assert_eq!(format!("{:?}", c.tlist), format!("{:?}", want));
}

fn clause(right: u32) -> JoinClause {
    JoinClause {
        rinfo: Rinfo {
            id: 1,
            clause: constant(1),
            pseudoconstant: false,
            leakproof: false,
            security_level: 0,
            per_tuple: 0,
            parent_ec: None,
            pushed_down: false,
        },
        right_relids: list(vec![right]),
        left_ec: 0,
        right_ec: 0,
        commutator: 0,
    }
}

#[test]
fn orders_of_a_merge_join() {
    let find = |outer: Vec<PathKey>, inner: Vec<PathKey>| {
        let r = find_merge_keys(
            &context(),
            &list(vec![clause(2)]),
            &list(vec![1]),
            None,
            &list(outer),
            list(vec![]),
            &list(inner),
        );
        match r {
            Ok(l) => Ok(l.to_vec()[0].reversed),
            Err(e) => Err(e),
        }
    };
    assert_eq!(find(vec![key(0)], vec![key(0)]), Ok(false));
    assert_eq!(find(vec![descending(0)], vec![descending(0)]), Ok(true));
    assert_eq!(find(vec![key(1)], vec![key(0)]), Err(PlannerError::OuterPathkeysMismatch));
    assert_eq!(find(vec![key(0)], vec![]), Err(PlannerError::InnerPathkeysMismatch));
    assert_eq!(
        find(vec![key(0)], vec![descending(0)]),
        Err(PlannerError::MergePathkeysMismatch)
    );
}

#[test]
fn columns_to_be_made_unique() {
    let tlist = list(vec![entry(column(1, 1), 1, 0)]);
    let r = find_unique_columns(&context(), &list(vec![key(0)]), 1, &tlist);
    assert_eq!(r.unwrap().to_vec()[0].resno, 1);
    let r = find_unique_columns(&context(), &list(vec![key(0)]), 2, &tlist);
    assert!(matches!(r, Err(PlannerError::TooFewPathkeys)));
    let ops = list(vec![UniqueOperators { hash_eq: 96, sort: 97, sort_eq: 98 }]);
    let hashed = find_unique_expr_columns(&list(vec![column(1, 1)]), &ops, &tlist, true);
    assert_eq!(hashed.unwrap().to_vec()[0].operator, 96);
    let sorted = find_unique_expr_columns(&list(vec![column(1, 1)]), &ops, &tlist, false);
    assert_eq!(sorted.unwrap().to_vec()[0].operator, 98);
    let r = find_unique_expr_columns(&list(vec![column(1, 2)]), &ops, &tlist, true);
    assert!(matches!(r, Err(PlannerError::UniqueExprNotFound)));
}

#[test]
fn columns_of_a_rollup() {
    let clauses = list(vec![SortGroupClause {
        tle_sort_group_ref: 1,
        eqop: 96,
        sortop: 97,
        reverse_sort: false,
        nulls_first: true,
        hashable: true,
    }]);
    let tlist = list(vec![entry(column(1, 1), 3, 1)]);
    let c = make_sort_from_groupcols(&clauses, &list(vec![3]), &tlist).unwrap().to_vec();
    assert_eq!((c[0].resno, c[0].operator, c[0].nulls_first), (3, 97, true));
    let r = make_sort_from_groupcols(&clauses, &list(vec![2]), &tlist);
    assert!(matches!(r, Err(PlannerError::GroupColumnNotFound)));
}

fn scan(tlist: Vec<TargetEntry>) -> Plan {
    Plan {
        node: PlanNode::Result(None, list(vec![])),
        tlist: list(tlist),
        qual: list(vec![]),
        costs: PlanCosts {
            disabled_nodes: 0,
            amounts: Amounts::Known { startup: 0, total: 0, rows: 0 },
            width: 0,
            parallel_aware: false,
            parallel_safe: true,
        },
    }
}

#[test]
fn children_of_an_ordered_append() {
    let child = |order: Vec<PathKey>, numbers: Vec<i16>| {
        prepare_ordered_append_child(
            &context(),
            scan(vec![entry(column(1, 1), 1, 0)]),
            &list(order),
            &list(vec![1]),
            &list(vec![key(0)]),
            &list(numbers),
            None,
            true,
        )
    };
    assert!(matches!(child(vec![key(0)], vec![1]).unwrap().node, PlanNode::Result(_, _)));
    assert!(matches!(child(vec![], vec![1]).unwrap().node, PlanNode::Sort(_, _)));
    assert!(matches!(child(vec![], vec![1, 2]), Err(PlannerError::AppendChildMismatch)));
}

#[test]
fn labels_on_stored_columns() {
    let physical = || list(vec![entry(column(1, 1), 1, 0), entry(column(1, 2), 2, 0)]);
    let target = |e, r: u32| PathTarget {
        exprs: list(vec![e]),
        sortgrouprefs: list(vec![r]),
        width: 4,
    };
    let l = label_physical(physical(), &target(column(1, 2), 5), true).unwrap();
    let want = list(vec![entry(column(1, 1), 1, 0), entry(column(1, 2), 2, 5)]);
    assert_eq!(format!("{:?}", l), format!("{:?}", want));
    let l = label_physical(physical(), &target(column(1, 2), 5), false).unwrap();
    assert_eq!(format!("{:?}", l), format!("{:?}", physical()));
    let r = label_physical(physical(), &target(constant(1), 5), true);
    assert!(matches!(r, Err(PlannerError::LabelNotFound)));
}

#[test]
fn a_work_table_without_a_recursive_query() {
    let levels = list(vec![
        RecursionLevel { wt_param: 1, has_path: true },
        RecursionLevel { wt_param: -1, has_path: false },
    ]);
    assert_eq!(set_worktable_pathlist(&levels, 2), Err(PlannerError::WorkTableNotFound));
}

#[test]
fn a_foreign_scan_from_its_parts() {
    let p = make_foreignscan(
        list(vec![entry(column(1, 1), 1, 0)]),
        list(vec![column(1, 2)]),
        7,
        list(vec![constant(1)]),
        list(vec![constant(2)]),
        list(vec![]),
        list(vec![column(1, 3)]),
        None,
    );
    assert_eq!(format!("{:?}", p.qual), format!("{:?}", list(vec![column(1, 2)])));
    match p.node {
        PlanNode::ForeignScan(7, None, scan) => {
            assert_eq!(format!("{:?}", scan.fdw_exprs), format!("{:?}", list(vec![constant(1)])));
            assert_eq!(format!("{:?}", scan.fdw_private), format!("{:?}", list(vec![constant(2)])));
            assert_eq!(
                format!("{:?}", scan.fdw_recheck_quals),
                format!("{:?}", list(vec![column(1, 3)]))
            );
            assert!(!scan.system_col && scan.server == 0);
        },
        _ => panic!("a foreign scan"),
    }
}

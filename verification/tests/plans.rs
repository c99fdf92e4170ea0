use planner::createplan::{create_plan, find_wrapper_inputs};
use planner::error::PlannerError;
use planner::expr::{AggSplit, Const, Expr, Head, OrderTest, PathTarget, TargetEntry, Var};
use planner::groupingsets_paths::AggStrategy;
use planner::list::List;
use planner::path::{
    ForeignRel, IndexClause, IndexPath, JoinClause, JoinPath, MinMaxPath, ParamInfo, Path,
    PathInfo, PathNode, RollupPath, ScanKind, UniqueMethod, UniqueOperators,
};
use planner::plan::{
    Amounts, ForeignScan, ModifyTable, Operation, Plan, PlanNode, ScanSource,
};
use planner::planfinish::PlanContext;
use planner::planscan::PlanRel;
use planner::quals::{
    extract_actual_clauses, extract_actual_join_clauses, get_gating_quals, list_concat_unique,
    list_difference, order_qual_clauses, Rinfo,
};
use planner::rel::{JoinType, RelOptKind, RteKind};
use planner::reparam::{
    path_is_reparameterizable_by_child, path_needs_child_reparam, reparameterize_path_by_child,
    translate_nest_inner, ChildTranslation,
};
use planner::sortcols::{EcMember, EquivalenceClass, PathKey, SortContext};
use planner::sortgroup::SortGroupClause;
use planner::tlist::{PhysicalColumn, ScanRel, TlistFlags};

fn list<T>(v: Vec<T>) -> List<T> {
    List::from_vec(v)
}

fn items<T>(l: List<T>) -> Vec<T> {
    let mut v = Vec::new();
    let mut rest = l;
    while let List::Cons(x, xs) = rest {
        v.push(x);
        rest = *xs;
    }
    v
}

fn shown<T: std::fmt::Debug>(x: &T) -> String {
    format!("{:?}", x)
}

fn column(varno: i32, attno: i16) -> Expr {
    Expr::Var(Var {
        varno,
        attno,
        typid: 23,
        typmod: -1,
        collation: 0,
        levelsup: 0,
        nullingrels: list(vec![]),
    })
}

fn constant(value: u64) -> Expr {
    Expr::Const(Const { typid: 23, collation: 0, value, isnull: false })
}

fn op(opno: u32, a: Expr, b: Expr) -> Expr {
    Expr::Call {
        head: Head::Op { opno, typid: 16, collation: 0, inputcollid: 0 },
        args: Box::new(list(vec![a, b])),
    }
}

fn rinfo(id: u32, clause: Expr) -> Rinfo {
    Rinfo {
        id,
        clause,
        pseudoconstant: false,
        leakproof: false,
        security_level: 0,
        per_tuple: 1,
        parent_ec: None,
        pushed_down: true,
    }
}

fn target(exprs: Vec<Expr>, refs: Vec<u32>) -> PathTarget {
    PathTarget { exprs: list(exprs), sortgrouprefs: list(refs), width: 8 }
}

/// Relation `n` stands at place `n - 1`.
fn info(relid: u32, exprs: Vec<Expr>) -> PathInfo {
    PathInfo {
        parent: (relid - 1) as usize,
        relids: list(vec![relid]),
        reloptkind: RelOptKind::BaseRel,
        disabled_nodes: 0,
        startup: 1,
        total: 2,
        rows: 3,
        parallel_aware: false,
        parallel_safe: true,
        target: target(exprs, vec![]),
        pathkeys: list(vec![]),
        param: None,
    }
}

fn joined(exprs: Vec<Expr>) -> PathInfo {
    let mut i = info(3, exprs);
    i.relids = list(vec![1, 2]);
    i.reloptkind = RelOptKind::JoinRel;
    i
}

fn rel(relid: u32, rtekind: RteKind, kind: RelOptKind) -> PlanRel {
    let physical = |attnum: i16| PhysicalColumn {
        expr: column(relid as i32, attnum),
        attnum,
        resjunk: false,
        usable: true,
    };
    PlanRel {
        scan: ScanRel {
            rtekind,
            reloptkind: kind,
            relids: list(vec![relid]),
            special_attr_needed: list(vec![]),
        },
        relid,
        columns: list(vec![physical(1), physical(2)]),
    }
}

fn entry(expr: Expr, resno: i16) -> TargetEntry {
    TargetEntry {
        expr,
        resno,
        resname: Some(1),
        ressortgroupref: 0,
        resorigtbl: 0,
        resorigcol: 0,
        resjunk: false,
    }
}

fn class(members: Vec<Expr>) -> EquivalenceClass {
    EquivalenceClass {
        has_volatile: false,
        sortref: 0,
        collation: 0,
        members: list(
            members
                .into_iter()
                .map(|expr| {
                    let relids = match &expr {
                        Expr::Var(v) => vec![v.varno as u32],
                        _ => vec![],
                    };
                    EcMember {
                        expr,
                        is_const: false,
                        is_child: false,
                        relids: list(relids),
                        datatype: 23,
                    }
                })
                .collect(),
        ),
        childmembers: list(vec![]),
    }
}

fn key(eclass: u32) -> PathKey {
    PathKey { eclass, opfamily: 1976, direction: OrderTest::Less, nulls_first: false }
}

fn context(width: usize) -> PlanContext {
    PlanContext {
        sort: SortContext {
            classes: vec![class(vec![column(1, 1), column(2, 1)]), class(vec![column(1, 2)])],
        },
        rels: vec![
            rel(1, RteKind::Relation, RelOptKind::BaseRel),
            rel(2, RteKind::Relation, RelOptKind::BaseRel),
            rel(0, RteKind::Join, RelOptKind::JoinRel),
        ],
        placeholders: list(vec![]),
        outer_join_rels: list(vec![]),
        processed_tlist: list((0..width).map(|i| entry(constant(7), i as i16 + 1)).collect()),
        query_tlist: list(vec![]),
        query_sort: list(vec![]),
        returning_old_alias: Some(7),
        returning_new_alias: None,
        processed_group_clause: list(vec![]),
        has_pseudoconstant_quals: true,
        cheap: 10,
        enable_sort: true,
        enable_incremental_sort: true,
        enable_partition_pruning: true,
    }
}

fn plan(width: usize, path: Path) -> Result<Plan, PlannerError> {
    create_plan(&vec![context(width)], 0, path, &mut vec![]).map(|q| q.plan)
}

fn seqscan(relid: u32, attno: i16, clauses: Vec<Rinfo>) -> Path {
    Path {
        info: info(relid, vec![column(relid as i32, attno)]),
        node: PathNode::Scan(ScanKind::Table, list(clauses)),
    }
}

fn boxed(p: Path) -> Box<Path> {
    Box::new(p)
}

fn sort_clause(r: u32) -> SortGroupClause {
    SortGroupClause {
        tle_sort_group_ref: r,
        eqop: 96,
        sortop: 97,
        reverse_sort: false,
        nulls_first: false,
        hashable: true,
    }
}

fn exprs_of(l: List<TargetEntry>) -> Vec<String> {
    items(l).into_iter().map(|t| shown(&t.expr)).collect()
}

#[test]
fn a_sequential_scan() {
    let p = plan(1, seqscan(1, 2, vec![rinfo(1, op(96, column(1, 1), constant(5)))])).unwrap();
    match p.node {
        PlanNode::Scan(1, ScanSource::Table(Some(cols))) => {
            let mut cols = cols.to_vec();
            cols.sort();
            assert_eq!(cols, vec![1, 2]);
        },
        _ => panic!("a scan of the table"),
    }
    assert_eq!(shown(&p.qual), shown(&list(vec![op(96, column(1, 1), constant(5))])));
    assert!(matches!(p.costs.amounts, Amounts::Known { startup: 1, total: 2, rows: 3 }));
    let tlist = items(p.tlist);
    assert_eq!(shown(&tlist[0].expr), shown(&column(1, 2)));
    assert_eq!(tlist[0].resname, Some(1));
}

#[test]
fn a_target_list_of_another_length() {
    let r = plan(2, seqscan(1, 2, vec![]));
    assert!(matches!(r, Err(PlannerError::TargetListLengthMismatch)));
}

#[test]
fn relations_and_levels_that_are_not_there() {
    let r = create_plan(&vec![context(1)], 1, seqscan(1, 2, vec![]), &mut vec![]);
    assert!(matches!(r, Err(PlannerError::UnknownRelation)));
    let mut lost = seqscan(1, 2, vec![]);
    lost.info.parent = 9;
    assert!(matches!(plan(1, lost), Err(PlannerError::UnknownRelation)));
}

#[test]
fn clauses_without_columns_gate_the_plan() {
    let mut gate = rinfo(1, Expr::Param(4, 16, 0));
    gate.pseudoconstant = true;
    let p = plan(1, seqscan(1, 2, vec![gate, rinfo(2, column(1, 1))])).unwrap();
    match p.node {
        PlanNode::Result(Some(sub), qual) => {
            assert_eq!(shown(&qual), shown(&list(vec![Expr::Param(4, 16, 0)])));
            assert_eq!(shown(&sub.qual), shown(&list(vec![column(1, 1)])));
        },
        _ => panic!("a gate"),
    }
}

fn index_path(value: u64) -> IndexPath {
    IndexPath {
        indexid: 77,
        relid: 1,
        indexonly: false,
        direction: 1,
        keys: list(vec![2]),
        key_exprs: list(vec![]),
        indextlist: list(vec![entry(column(1, 2), 1)]),
        canreturn: list(vec![true]),
        clauses: list(vec![IndexClause {
            rinfo: rinfo(5, op(96, column(1, 2), constant(value))),
            indexquals: list(vec![rinfo(5, op(96, column(1, 2), constant(value)))]),
            lossy: false,
            indexcol: 0,
            indexcols: list(vec![]),
        }]),
        orderbys: list(vec![]),
        orderbycols: list(vec![]),
        predicate: list(vec![]),
        selectivity: 1,
        indextotal: 2,
        tuples: 3,
    }
}

#[test]
fn an_index_scan() {
    let path = Path {
        info: info(1, vec![column(1, 1)]),
        node: PathNode::Index(
            index_path(5),
            list(vec![rinfo(5, op(96, column(1, 2), constant(5))), rinfo(6, column(1, 1))]),
            list(vec![]),
        ),
    };
    let p = plan(1, path).unwrap();
    assert_eq!(shown(&p.qual), shown(&list(vec![column(1, 1)])));
    match p.node {
        PlanNode::IndexScan(1, scan) => {
            assert_eq!(scan.indexid, 77);
            assert_eq!(shown(&scan.indexqual), shown(&list(vec![op(96, column(-3, 1), constant(5))])));
            assert_eq!(
                shown(&scan.indexqualorig),
                shown(&list(vec![op(96, column(1, 2), constant(5))]))
            );
        },
        _ => panic!("an index scan"),
    }
}

#[test]
fn an_index_clause_on_another_column() {
    let mut index = index_path(5);
    index.keys = list(vec![1]);
    let path = Path {
        info: info(1, vec![column(1, 1)]),
        node: PathNode::Index(index, list(vec![]), list(vec![])),
    };
    assert!(matches!(plan(1, path), Err(PlannerError::IndexKeyMismatch)));
}

fn bitmap_arm(value: u64) -> Path {
    Path {
        info: info(1, vec![]),
        node: PathNode::Index(index_path(value), list(vec![]), list(vec![])),
    }
}

#[test]
fn a_bitmap_scan() {
    let or = Path {
        info: info(1, vec![]),
        node: PathNode::BitmapOr {
            quals: Box::new(list(vec![bitmap_arm(1), bitmap_arm(2)])),
            selectivity: 4,
            tuples: 5,
        },
    };
    let path = Path {
        info: info(1, vec![column(1, 1)]),
        node: PathNode::BitmapHeap(boxed(or), list(vec![rinfo(6, column(1, 1))]), list(vec![])),
    };
    let p = plan(1, path).unwrap();
    match p.node {
        PlanNode::BitmapHeapScan(1, recheck, sub) => {
            let either = Expr::Call {
                head: Head::Or,
                args: Box::new(list(vec![
                    op(96, column(1, 2), constant(1)),
                    op(96, column(1, 2), constant(2)),
                ])),
            };
            assert_eq!(shown(&recheck), shown(&list(vec![either])));
            match sub.node {
                PlanNode::BitmapOr(arms) => assert_eq!(items(*arms).len(), 2),
                _ => panic!("a union of bitmaps"),
            }
        },
        _ => panic!("a bitmap scan"),
    }
    let lone = Path {
        info: info(1, vec![]),
        node: PathNode::BitmapAnd { quals: Box::new(list(vec![])), selectivity: 0, tuples: 0 },
    };
    assert!(matches!(plan(0, lone), Err(PlannerError::UnexpectedPathType)));
}

/// A bitmap scan by an index that tests less than the clause says.
fn lossy_bitmap_scan(clause_id: u32, clause: fn() -> Expr) -> Path {
    let mut index = index_path(5);
    index.clauses = list(vec![IndexClause {
        rinfo: rinfo(clause_id, clause()),
        indexquals: list(vec![rinfo(9, op(96, column(1, 2), constant(5)))]),
        lossy: true,
        indexcol: 0,
        indexcols: list(vec![]),
    }]);
    let arm = Path {
        info: info(1, vec![]),
        node: PathNode::Index(index, list(vec![]), list(vec![])),
    };
    Path {
        info: info(1, vec![column(1, 1)]),
        node: PathNode::BitmapHeap(boxed(arm), list(vec![rinfo(5, clause())]), list(vec![])),
    }
}

fn quals_and_rechecks(path: Path) -> (String, Vec<Expr>) {
    let p = plan(1, path).unwrap();
    match p.node {
        PlanNode::BitmapHeapScan(1, recheck, _) => (shown(&p.qual), items(recheck)),
        _ => panic!("a bitmap scan"),
    }
}

#[test]
fn a_clause_is_not_tested_twice() {
    let clause = || op(98, column(1, 2), constant(5));
    let tested = shown(&list(vec![clause()]));
    let (quals, rechecks) = quals_and_rechecks(lossy_bitmap_scan(5, clause));
    assert_eq!(quals, tested);
    assert!(rechecks.is_empty());
    // The condition of another clause stays, though it is equal.
    let (quals, rechecks) = quals_and_rechecks(lossy_bitmap_scan(6, clause));
    assert_eq!(quals, tested);
    assert_eq!(rechecks.len(), 1);
}

#[test]
fn the_condition_of_a_clause_that_is_not_tested_stays() {
    let always = || Expr::Const(Const { typid: 16, collation: 0, value: 1, isnull: false });
    let (quals, rechecks) = quals_and_rechecks(lossy_bitmap_scan(5, always));
    assert_eq!(quals, shown(&List::<Expr>::Nil));
    assert_eq!(shown(&rechecks), shown(&vec![always()]));
}

#[test]
fn scans_by_row_location() {
    let tid = || rinfo(3, op(387, column(1, -1), constant(9)));
    let path = Path {
        info: info(1, vec![column(1, 1)]),
        node: PathNode::Tid(list(vec![tid(), rinfo(6, column(1, 1))]), list(vec![tid()])),
    };
    let p = plan(1, path).unwrap();
    assert_eq!(shown(&p.qual), shown(&list(vec![column(1, 1)])));
    assert!(matches!(p.node, PlanNode::Scan(1, ScanSource::Tid(_))));
}

fn join_path(restrictinfo: Vec<Rinfo>) -> JoinPath {
    JoinPath {
        jointype: JoinType::Inner,
        inner_unique: false,
        restrictinfo: list(restrictinfo),
        outer: boxed(seqscan(1, 1, vec![])),
        inner: boxed(seqscan(2, 1, vec![])),
    }
}

fn equality() -> Rinfo {
    rinfo(8, op(96, column(1, 1), column(2, 1)))
}

#[test]
fn a_nested_loop() {
    let path = Path {
        info: joined(vec![column(1, 1), column(2, 1)]),
        node: PathNode::Nest {
            join: join_path(vec![equality()]),
            params: list(vec![]),
            params_safe: list(vec![]),
        },
    };
    let p = plan(2, path).unwrap();
    match p.node {
        PlanNode::NestLoop { join, outer, inner } => {
            assert_eq!(join.jointype, JoinType::Inner);
            assert_eq!(
                shown(&join.joinqual),
                shown(&list(vec![op(96, column(1, 1), column(2, 1))]))
            );
            assert!(matches!(outer.node, PlanNode::Scan(1, _)));
            assert!(matches!(inner.node, PlanNode::Scan(2, _)));
        },
        _ => panic!("a nested loop"),
    }
}

fn join_clause(rinfo: Rinfo, right: u32) -> JoinClause {
    JoinClause {
        rinfo,
        right_relids: list(vec![right]),
        left_ec: 0,
        right_ec: 0,
        commutator: 961,
    }
}

#[test]
fn a_hash_join() {
    let path = Path {
        info: joined(vec![column(1, 1)]),
        node: PathNode::Hash {
            join: join_path(vec![equality()]),
            clauses: list(vec![join_clause(equality(), 2)]),
            many_batches: false,
            inner_rows_total: 6,
        },
    };
    let p = plan(1, path).unwrap();
    match p.node {
        PlanNode::HashJoin { join, clauses, inner, .. } => {
            assert!(join.joinqual.is_nil());
            assert_eq!(clauses.operators.to_vec(), vec![96]);
            assert_eq!(shown(&clauses.outer_keys), shown(&list(vec![column(1, 1)])));
            match inner.node {
                PlanNode::Hash { hashkeys, .. } => {
                    assert_eq!(shown(&hashkeys), shown(&list(vec![column(2, 1)])));
                },
                _ => panic!("a hash table"),
            }
        },
        _ => panic!("a hash join"),
    }
}

#[test]
fn a_merge_join() {
    let switched = rinfo(8, op(96, column(2, 1), column(1, 1)));
    let merge = |clause: JoinClause| Path {
        info: joined(vec![column(1, 1)]),
        node: PathNode::Merge {
            join: join_path(vec![rinfo(8, op(96, column(2, 1), column(1, 1)))]),
            clauses: list(vec![clause]),
            outersortkeys: list(vec![key(0)]),
            innersortkeys: list(vec![key(0)]),
            skip_mark_restore: true,
            materialize_inner: true,
            outer_presorted: 0,
        },
    };
    let p = plan(1, merge(join_clause(switched, 1))).unwrap();
    match p.node {
        PlanNode::MergeJoin { clauses, keys, outer, inner, skip_mark_restore, .. } => {
            assert!(skip_mark_restore);
            assert_eq!(
                shown(&clauses.clauses),
                shown(&list(vec![op(961, column(1, 1), column(2, 1))]))
            );
            assert_eq!(items(keys).len(), 1);
            assert!(matches!(outer.node, PlanNode::Sort(_, _)));
            match inner.node {
                PlanNode::Material(sub) => assert!(matches!(sub.node, PlanNode::Sort(_, _))),
                _ => panic!("a stored input"),
            }
        },
        _ => panic!("a merge join"),
    }
    let mut stuck = join_clause(rinfo(8, op(96, column(2, 1), column(1, 1))), 1);
    stuck.commutator = 0;
    assert!(matches!(plan(1, merge(stuck)), Err(PlannerError::NoCommutator)));
    let odd = join_clause(rinfo(8, column(2, 1)), 2);
    assert!(matches!(plan(1, merge(odd)), Err(PlannerError::NotAnOperatorClause)));
}

#[test]
fn an_append() {
    let path = |subpaths: Vec<Path>| Path {
        info: info(1, vec![column(1, 1)]),
        node: PathNode::Append {
            subpaths: Box::new(list(subpaths)),
            first_partial: 0,
            limit: None,
            clauses: list(vec![]),
        },
    };
    let p = plan(1, path(vec![seqscan(1, 1, vec![]), seqscan(2, 1, vec![])])).unwrap();
    match p.node {
        PlanNode::Append { plans, .. } => assert_eq!(items(*plans).len(), 2),
        _ => panic!("an append"),
    }
    let p = plan(1, path(vec![])).unwrap();
    match p.node {
        PlanNode::Result(None, qual) => {
            assert!(matches!(items(qual)[0], Expr::Const(c) if c.value == 0 && !c.isnull));
        },
        _ => panic!("no rows"),
    }
}

#[test]
fn a_merge_append() {
    let mut top = info(1, vec![column(1, 1)]);
    top.pathkeys = list(vec![key(0)]);
    let path = Path {
        info: top,
        node: PathNode::MergeAppend {
            subpaths: Box::new(list(vec![seqscan(1, 1, vec![])])),
            limit: None,
            clauses: list(vec![]),
        },
    };
    let p = plan(1, path).unwrap();
    match p.node {
        PlanNode::MergeAppend { plans, columns, .. } => {
            assert_eq!(items(columns)[0].resno, 1);
            assert!(matches!(items(*plans)[0].node, PlanNode::Sort(_, _)));
        },
        _ => panic!("a merge append"),
    }
}

fn sorted(eclass: u32) -> Path {
    let mut i = info(1, vec![column(1, 1)]);
    i.pathkeys = list(vec![key(eclass)]);
    Path { info: i, node: PathNode::Sort(boxed(seqscan(1, 1, vec![]))) }
}

#[test]
fn a_sort() {
    let p = plan(1, sorted(0)).unwrap();
    match p.node {
        PlanNode::Sort(sub, columns) => {
            assert!(matches!(sub.node, PlanNode::Scan(1, _)));
            assert_eq!(items(columns)[0].resno, 1);
        },
        _ => panic!("a sort"),
    }
    let r = plan(1, sorted(9));
    assert!(matches!(r, Err(PlannerError::UnknownEquivalenceClass)));
    let mut lost = sorted(0);
    lost.node = PathNode::Sort(boxed(Path {
        info: info(1, vec![constant(1)]),
        node: PathNode::Scan(ScanKind::Table, list(vec![])),
    }));
    assert!(matches!(plan(1, lost), Err(PlannerError::PathkeyItemNotFound)));
}

#[test]
fn a_limit_and_a_lock() {
    let lock = Path {
        info: info(1, vec![column(1, 1)]),
        node: PathNode::LockRows {
            subpath: boxed(seqscan(1, 1, vec![])),
            marks: list(vec![1]),
            epq_param: 4,
        },
    };
    let path = Path {
        info: info(1, vec![column(1, 1)]),
        node: PathNode::Limit {
            subpath: boxed(lock),
            offset: Some(2),
            count: None,
            with_ties: false,
        },
    };
    match plan(1, path).unwrap().node {
        PlanNode::Limit { input, offset, count, with_ties, ties } => {
            assert_eq!((offset, count, with_ties), (Some(2), None, false));
            assert!(ties.is_nil());
            assert!(matches!(input.node, PlanNode::LockRows { epq_param: 4, .. }));
        },
        _ => panic!("a limit"),
    }
}

#[test]
fn a_limit_with_ties() {
    let mut sub = seqscan(1, 1, vec![]);
    sub.info.target = target(vec![column(1, 1)], vec![6]);
    let path = Path {
        info: info(1, vec![column(1, 1)]),
        node: PathNode::Limit {
            subpath: boxed(sub),
            offset: None,
            count: Some(3),
            with_ties: true,
        },
    };
    let mut ctx = context(1);
    let mut column_6 = entry(column(1, 1), 1);
    column_6.ressortgroupref = 6;
    ctx.query_tlist = list(vec![column_6]);
    ctx.query_sort = list(vec![sort_clause(6)]);
    let p = create_plan(&vec![ctx], 0, path, &mut vec![]).unwrap();
    match p.plan.node {
        PlanNode::Limit { with_ties: true, ties, .. } => assert_eq!(items(ties)[0].resno, 1),
        _ => panic!("a limit"),
    }
}

fn gather(sub: Path) -> Path {
    Path {
        info: info(1, vec![column(1, 1)]),
        node: PathNode::Gather { subpath: boxed(sub), num_workers: 2, single_copy: false },
    }
}

#[test]
fn rows_of_workers_are_read_again_by_parameter() {
    let mut types = vec![23, 0];
    let p = create_plan(&vec![context(1)], 0, gather(seqscan(1, 1, vec![])), &mut types).unwrap();
    assert!(p.parallel_mode_needed);
    assert_eq!(types, vec![23, 0, 0]);
    match p.plan.node {
        PlanNode::Gather { num_workers: 2, single_copy: false, rescan_param, .. } => {
            assert_eq!(rescan_param, Some(2));
        },
        _ => panic!("rows of workers"),
    }
    let mut types = vec![23];
    let p = create_plan(&vec![context(1)], 0, seqscan(1, 1, vec![]), &mut types).unwrap();
    assert!(!p.parallel_mode_needed);
    assert_eq!(types, vec![23]);
}

#[test]
fn workers_below_others_get_their_parameters_first() {
    let mut outer = join_path(vec![equality()]);
    outer.outer = boxed(gather(seqscan(1, 1, vec![])));
    let mut second = gather(seqscan(2, 1, vec![]));
    second.info = info(2, vec![column(2, 1)]);
    outer.inner = boxed(second);
    let joined_path = Path {
        info: joined(vec![column(1, 1), column(2, 1)]),
        node: PathNode::Nest { join: outer, params: list(vec![]), params_safe: list(vec![]) },
    };
    let path = Path {
        info: joined(vec![column(1, 1), column(2, 1)]),
        node: PathNode::Gather {
            subpath: boxed(joined_path),
            num_workers: 1,
            single_copy: true,
        },
    };
    let mut types = vec![];
    let p = create_plan(&vec![context(2)], 0, path, &mut types).unwrap();
    assert_eq!(types, vec![0, 0, 0]);
    let param = |p: &Plan| match &p.node {
        PlanNode::Gather { rescan_param, .. } => *rescan_param,
        _ => panic!("rows of workers"),
    };
    assert_eq!(param(&p.plan), Some(2));
    match p.plan.node {
        PlanNode::Gather { input, .. } => match input.node {
            PlanNode::NestLoop { outer, inner, .. } => {
                assert_eq!((param(&outer), param(&inner)), (Some(0), Some(1)));
            },
            _ => panic!("a nested loop"),
        },
        _ => panic!("rows of workers"),
    }
}

#[test]
fn merged_rows_of_workers_have_a_parameter_too() {
    let mut i = info(1, vec![column(1, 1)]);
    i.pathkeys = list(vec![key(0)]);
    let path = Path {
        info: i,
        node: PathNode::GatherMerge { subpath: boxed(sorted(0)), num_workers: 3 },
    };
    let p = create_plan(&vec![context(1)], 0, path, &mut vec![0; 5]).unwrap();
    assert!(p.parallel_mode_needed);
    assert!(matches!(
        p.plan.node,
        PlanNode::GatherMerge { num_workers: 3, rescan_param: Some(5), .. }
    ));
}

fn labelled_scan() -> Path {
    let mut p = seqscan(1, 1, vec![]);
    p.info.target = target(vec![column(1, 1)], vec![6]);
    p
}

#[test]
fn an_aggregation() {
    let path = |label| Path {
        info: info(1, vec![column(1, 1)]),
        node: PathNode::Agg {
            subpath: boxed(labelled_scan()),
            strategy: AggStrategy::Hashed,
            split: AggSplit::Simple,
            group_clause: list(vec![sort_clause(label)]),
            num_groups: 12,
            transition_space: 13,
            qual: list(vec![rinfo(1, column(1, 1))]),
        },
    };
    match plan(1, path(6)).unwrap().node {
        PlanNode::Agg { strategy, columns, num_groups, grouping_sets, grouping_map, .. } => {
            assert_eq!(strategy, AggStrategy::Hashed);
            assert_eq!(num_groups, 12);
            assert!(grouping_sets.is_nil() && grouping_map.is_nil());
            let columns = items(columns);
            assert_eq!((columns[0].resno, columns[0].operator), (1, 96));
        },
        _ => panic!("an aggregation"),
    }
    assert!(matches!(plan(1, path(5)), Err(PlannerError::SortGroupRefNotFound)));
}

#[test]
fn grouping_sets_in_a_chain() {
    let rollup = |gsets: Vec<Vec<usize>>, clauses: Vec<SortGroupClause>, is_hashed| RollupPath {
        group_clause: list(clauses),
        gsets: list(gsets.into_iter().map(list).collect()),
        is_hashed,
        num_groups: 5,
    };
    let path = Path {
        info: info(1, vec![column(1, 1)]),
        node: PathNode::GroupingSets {
            subpath: boxed(labelled_scan()),
            strategy: AggStrategy::Sorted,
            rollups: list(vec![
                rollup(vec![vec![0]], vec![sort_clause(6)], false),
                rollup(vec![vec![]], vec![], false),
            ]),
            transition_space: 1,
            qual: list(vec![]),
        },
    };
    let mut ctx = context(1);
    ctx.processed_group_clause = list(vec![sort_clause(6)]);
    match create_plan(&vec![ctx], 0, path, &mut vec![]).unwrap().plan.node {
        PlanNode::Agg { chain, strategy, columns, grouping_map, .. } => {
            assert_eq!(strategy, AggStrategy::Sorted);
            assert_eq!(grouping_map.to_vec(), vec![(6, 1)]);
            assert_eq!(items(columns).len(), 1);
            let chain = items(*chain);
            assert_eq!(chain.len(), 1);
            assert!(matches!(
                chain[0].node,
                PlanNode::Agg { strategy: AggStrategy::Plain, grouping_map: List::Nil, .. }
            ));
        },
        _ => panic!("an aggregation"),
    }
}

fn unique_path(method: UniqueMethod, expr: Expr, operators: (u32, u32, u32)) -> Path {
    Path {
        info: info(1, vec![column(1, 1)]),
        node: PathNode::Unique {
            subpath: boxed(seqscan(1, 1, vec![])),
            method,
            exprs: list(vec![expr]),
            operators: list(vec![UniqueOperators {
                hash_eq: operators.0,
                sort: operators.1,
                sort_eq: operators.2,
            }]),
        },
    }
}

#[test]
fn rows_made_unique() {
    let p = plan(1, unique_path(UniqueMethod::Noop, column(1, 1), (96, 97, 96))).unwrap();
    assert!(matches!(p.node, PlanNode::Scan(1, _)));
    let p = plan(1, unique_path(UniqueMethod::Hash, column(1, 1), (96, 97, 96))).unwrap();
    assert!(matches!(p.node, PlanNode::Agg { strategy: AggStrategy::Hashed, .. }));
    let p = plan(1, unique_path(UniqueMethod::Sort, column(1, 1), (96, 97, 96))).unwrap();
    match p.node {
        PlanNode::UniqueByColumns(sub, columns) => {
            assert_eq!(items(columns)[0].resno, 1);
            assert!(matches!(sub.node, PlanNode::SortByColumns(_, _)));
        },
        _ => panic!("a unique step"),
    }
    let r = plan(1, unique_path(UniqueMethod::Hash, column(1, 1), (0, 97, 96)));
    assert!(matches!(r, Err(PlannerError::UniqueOperatorNotFound)));
}

#[test]
fn a_change_of_a_table() {
    let path = Path {
        info: info(1, vec![]),
        node: PathNode::ModifyTable(
            boxed(seqscan(1, 1, vec![])),
            ModifyTable {
                operation: Operation::Update,
                can_set_tag: true,
                nominal_relation: 1,
                root_relation: 0,
                part_cols_updated: false,
                result_relations: list(vec![1]),
                update_colnos_lists: list(vec![list(vec![1])]),
                with_check_options: list(vec![]),
                returning_lists: list(vec![]),
                returning_old_alias: None,
                returning_new_alias: None,
                row_marks: list(vec![]),
                epq_param: 0,
                on_conflict: None,
                merge_actions: list(vec![]),
                merge_conditions: list(vec![]),
            },
        ),
    };
    let p = plan(1, path).unwrap();
    assert!(p.tlist.is_nil());
    match p.node {
        PlanNode::ModifyTable(sub, table) => {
            assert_eq!(table.operation, Operation::Update);
            assert_eq!(table.result_relations.to_vec(), vec![1]);
            assert_eq!((table.returning_old_alias, table.returning_new_alias), (Some(7), None));
            assert_eq!(items(sub.tlist)[0].resname, Some(1));
        },
        _ => panic!("a change"),
    }
}

fn foreign_scan(wanted: Expr, user_is_current: bool) -> Path {
    Path {
        info: info(1, vec![column(1, 1)]),
        node: PathNode::Foreign {
            outer: None,
            qual: list(vec![op(96, column(1, 2), constant(5))]),
            scan: ForeignScan {
                fdw_exprs: list(vec![constant(4)]),
                fdw_private: list(vec![]),
                fdw_scan_tlist: list(vec![]),
                fdw_recheck_quals: list(vec![]),
                relids: list(vec![]),
                base_relids: list(vec![]),
                check_as_user: 0,
                user_is_current: false,
                server: 0,
                system_col: false,
            },
            rel: ForeignRel { target: list(vec![wanted]), userid: 10, user_is_current, serverid: 20 },
            clauses: list(vec![]),
        },
    }
}

#[test]
fn a_foreign_scan() {
    let made = |path| create_plan(&vec![context(1)], 0, path, &mut vec![]).unwrap();
    let q = made(foreign_scan(column(1, 1), true));
    assert!(q.depends_on_role);
    assert_eq!(shown(&q.plan.qual), shown(&list(vec![op(96, column(1, 2), constant(5))])));
    match q.plan.node {
        PlanNode::ForeignScan(1, None, scan) => {
            assert_eq!(scan.relids.to_vec(), vec![1]);
            assert_eq!(scan.base_relids.to_vec(), vec![1]);
            assert_eq!((scan.check_as_user, scan.server), (10, 20));
            assert!(scan.user_is_current && !scan.system_col);
        },
        other => panic!("{:?}", other),
    }
    // What is wanted of the relation counts, not what the path computes.
    let q = made(foreign_scan(column(1, -1), false));
    assert!(!q.depends_on_role);
    assert!(matches!(q.plan.node, PlanNode::ForeignScan(1, None, scan) if scan.system_col));
    // The scan may be anywhere in the plan.
    let sort = Path {
        info: info(1, vec![column(1, 1)]),
        node: PathNode::Material(boxed(foreign_scan(column(1, 1), true))),
    };
    assert!(made(sort).depends_on_role);
    assert!(!made(seqscan(1, 1, vec![])).depends_on_role);
}

#[test]
fn what_a_foreign_data_wrapper_is_given() {
    let mut costly = rinfo(1, column(1, 1));
    costly.per_tuple = 9;
    let clauses = list(vec![costly, rinfo(2, column(1, 2))]);
    let flags = TlistFlags { exact: true, small: false, label: false, ignore: false };
    let given = info(1, vec![column(1, 2)]);
    let (tlist, clauses) =
        find_wrapper_inputs(&context(1), &given, clauses, flags, &list(vec![])).unwrap();
    assert_eq!(exprs_of(tlist), vec![shown(&column(1, 2))]);
    let order: Vec<u32> = items(clauses).iter().map(|c| c.id).collect();
    assert_eq!(order, vec![2, 1]);
}

#[test]
fn least_and_greatest_values() {
    let path = Path {
        info: info(1, vec![Expr::Param(9, 23, 0)]),
        node: PathNode::MinMaxAgg {
            aggs: Box::new(list(vec![seqscan(1, 1, vec![])])),
            infos: list(vec![MinMaxPath {
                func: 2145,
                target: column(1, 1),
                root: 1,
                cost: 5,
                param: 9,
                offset: None,
                count: Some(3),
            }]),
            qual: list(vec![]),
        },
    };
    let p = create_plan(&vec![context(1), context(1)], 0, path, &mut vec![]).unwrap().plan;
    match p.node {
        PlanNode::InitResult { init, aggs, .. } => {
            let aggs = items(aggs);
            assert_eq!((aggs.len(), aggs[0].func, aggs[0].param), (1, 2145, 9));
            assert_eq!(shown(&aggs[0].target), shown(&column(1, 1)));
            match &items(*init)[0].node {
                PlanNode::Limit { count, .. } => assert_eq!(*count, Some(3)),
                _ => panic!("one row"),
            }
        },
        _ => panic!("a result"),
    }
}

#[test]
fn a_projection_is_done_inside_where_it_can_be() {
    let path = |sub: Path| Path {
        info: info(1, vec![op(551, column(1, 1), constant(1))]),
        node: PathNode::Projection(boxed(sub)),
    };
    let p = plan(1, path(seqscan(1, 1, vec![]))).unwrap();
    assert!(matches!(p.node, PlanNode::Scan(1, _)));
    let want = vec![shown(&op(551, column(1, 1), constant(1)))];
    assert_eq!(exprs_of(p.tlist), want);
    let p = plan(1, path(sorted(0))).unwrap();
    assert_eq!(exprs_of(p.tlist), want);
    match p.node {
        PlanNode::Result(Some(sub), _) => assert!(matches!(sub.node, PlanNode::Sort(_, _))),
        _ => panic!("a projection on top"),
    }
}

#[test]
fn quals_in_order_of_cost() {
    let cost = |id, per_tuple, security_level, leakproof| {
        let mut r = rinfo(id, constant(id as u64));
        r.per_tuple = per_tuple;
        r.security_level = security_level;
        r.leakproof = leakproof;
        r
    };
    let ids = |l: List<Rinfo>| items(l).iter().map(|r| r.id).collect::<Vec<u32>>();
    let l = list(vec![cost(1, 5, 0, false), cost(2, 3, 0, false), cost(3, 5, 0, false)]);
    assert_eq!(ids(order_qual_clauses(&l, 10)), vec![2, 1, 3]);
    let l = list(vec![cost(1, 1, 2, false), cost(2, 9, 0, false), cost(3, 2, 2, true)]);
    assert_eq!(ids(order_qual_clauses(&l, 10)), vec![3, 2, 1]);
}

#[test]
fn quals_are_told_apart() {
    let gate = |id| {
        let mut r = rinfo(id, Expr::Param(id as i32, 16, 0));
        r.pseudoconstant = true;
        r
    };
    let l = list(vec![gate(1), rinfo(2, column(1, 1))]);
    assert_eq!(shown(&extract_actual_clauses(&l)), shown(&list(vec![column(1, 1)])));
    assert_eq!(
        shown(&get_gating_quals(true, &l, 10)),
        shown(&list(vec![Expr::Param(1, 16, 0)]))
    );
    assert!(get_gating_quals(false, &l, 10).is_nil());
    let mut join = rinfo(3, column(1, 2));
    join.pushed_down = false;
    let (joinquals, others) = extract_actual_join_clauses(&list(vec![join, rinfo(2, column(1, 1))]));
    assert_eq!(shown(&joinquals), shown(&list(vec![column(1, 2)])));
    assert_eq!(shown(&others), shown(&list(vec![column(1, 1)])));
    let (a, b) = (|| list(vec![column(1, 1), column(1, 2)]), list(vec![column(1, 2), column(1, 3)]));
    assert_eq!(shown(&list_difference(&a(), &b)), shown(&list(vec![column(1, 1)])));
    assert_eq!(
        shown(&list_concat_unique(a(), &b)),
        shown(&list(vec![column(1, 1), column(1, 2), column(1, 3)]))
    );
}

fn translation() -> ChildTranslation {
    ChildTranslation {
        top_parent_relids: list(vec![1]),
        rinfos: list(vec![(8, rinfo(80, op(96, column(11, 1), column(2, 1))))]),
        exprs: list(vec![(column(1, 1), column(11, 1))]),
        relids: list(vec![(1, 11)]),
        laterals: list(vec![]),
    }
}

fn parameterized(req_outer: u32) -> Path {
    let mut p = seqscan(2, 1, vec![]);
    p.info.param = Some(ParamInfo {
        req_outer: list(vec![req_outer]),
        clauses: list(vec![rinfo(8, op(96, column(1, 1), column(2, 1)))]),
        rows: 4,
        serials: list(vec![1]),
    });
    p
}

#[test]
fn paths_follow_a_child_relation() {
    let t = translation();
    assert!(path_needs_child_reparam(&parameterized(1).info, &t));
    assert!(!path_needs_child_reparam(&parameterized(4).info, &t));
    assert!(!path_needs_child_reparam(&seqscan(2, 1, vec![]).info, &t));
    assert!(path_is_reparameterizable_by_child(&t, &parameterized(1)));
    let (p, _) = reparameterize_path_by_child(&t, parameterized(1), list(vec![])).unwrap();
    let param = p.info.param.unwrap();
    assert_eq!(param.req_outer.to_vec(), vec![11]);
    assert_eq!(items(param.clauses)[0].id, 80);
}

#[test]
fn paths_that_cannot_follow() {
    let mut sorted = parameterized(1);
    sorted.node = PathNode::Sort(boxed(seqscan(2, 1, vec![])));
    let t = translation();
    assert!(!path_is_reparameterizable_by_child(&t, &sorted));
    let r = translate_nest_inner(&t, sorted, list(vec![]));
    assert!(matches!(r, Err(PlannerError::PathNotReparameterizable)));
    let (same, _) = translate_nest_inner(&t, seqscan(2, 1, vec![]), list(vec![])).unwrap();
    assert_eq!(shown(&same), shown(&seqscan(2, 1, vec![])));
}

use planner::error::PlannerError;
use planner::expr::{
    expr_collation, expr_type, AggSplit, Const, Expr, Head, TargetEntry, Var, INT4OID,
};
use planner::exprnode::{flatten_node, pull_node_input_vars, Connective, Label, Node};
use planner::list::List;
use planner::sortgroup::SortGroupClause;
use planner::targets::{
    make_group_input_target, make_partial_grouping_target, make_sort_input_target,
    mark_partial_aggref, postprocess_setop_tlist, pull_agg_input_vars, strip_group_nulling,
    strip_group_nulling_list, target_sgref_in_group_clause, ColumnFacts, BYTEAOID, INTERNALOID,
};

fn list<T>(v: Vec<T>) -> List<T> {
    List::from_vec(v)
}

fn column(attno: i16, nulling: Vec<u32>) -> Expr {
    Expr::Var(Var {
        varno: 1,
        attno,
        typid: 23,
        typmod: -1,
        collation: 0,
        levelsup: 0,
        nullingrels: list(nulling),
    })
}

fn constant(value: u64) -> Expr {
    Expr::Const(Const { typid: 23, collation: 0, value, isnull: false })
}

fn aggregate(transtype: u32, split: AggSplit, arg: Expr) -> Expr {
    Expr::Call {
        head: Head::Aggref { func: 2108, typid: 20, transtype, collation: 0, split },
        args: Box::new(list(vec![arg])),
    }
}

fn sum(a: Expr, b: Expr) -> Expr {
    Expr::Call {
        head: Head::Op { opno: 551, typid: 23, collation: 0, inputcollid: 0 },
        args: Box::new(list(vec![a, b])),
    }
}

fn clause(r: u32) -> SortGroupClause {
    SortGroupClause {
        tle_sort_group_ref: r,
        eqop: 96,
        sortop: 97,
        reverse_sort: false,
        nulls_first: false,
        hashable: true,
    }
}

fn shown<T: std::fmt::Debug>(x: &T) -> String {
    format!("{:?}", x)
}

#[test]
fn nulling_by_the_grouping_is_taken_away() {
    let e = sum(column(1, vec![5, 9]), column(2, vec![9]));
    let want = sum(column(1, vec![5]), column(2, vec![]));
    let once = strip_group_nulling(e, 9);
    assert_eq!(shown(&once), shown(&want));
    assert_eq!(shown(&strip_group_nulling(once, 9)), shown(&want));
    let mut outer = column(3, vec![9]);
    if let Expr::Var(v) = &mut outer {
        v.levelsup = 1;
    }
    let before = shown(&outer);
    assert_eq!(shown(&strip_group_nulling(outer, 9)), before);
    let l = strip_group_nulling_list(list(vec![column(1, vec![9]), column(2, vec![4])]), 9);
    assert_eq!(shown(&l), shown(&list(vec![column(1, vec![]), column(2, vec![4])])));
}

#[test]
fn labels_of_the_group_clause() {
    let clauses = list(vec![clause(3), clause(0)]);
    assert!(target_sgref_in_group_clause(&clauses, 3));
    assert!(!target_sgref_in_group_clause(&clauses, 4));
    assert!(!target_sgref_in_group_clause(&clauses, 0));
}

#[test]
fn inputs_of_aggregates() {
    let e = sum(aggregate(20, AggSplit::Simple, column(1, vec![])), column(2, vec![]));
    let want = list(vec![column(1, vec![]), column(2, vec![])]);
    assert_eq!(shown(&pull_agg_input_vars(&e)), shown(&want));
    assert!(pull_agg_input_vars(&constant(1)).is_nil());
}

fn node(attno: i16) -> Node {
    match column(attno, vec![]) {
        Expr::Var(v) => Node::Var(v),
        _ => panic!("a column"),
    }
}

fn nodes(attnos: &[i16]) -> Box<List<Node>> {
    Box::new(list(attnos.iter().map(|&a| node(a)).collect()))
}

fn some(attno: i16) -> Option<Box<Node>> {
    Some(Box::new(node(attno)))
}

fn label() -> Label {
    Label { kind: 1, typid: 23, collation: 0 }
}

fn columns_of(n: Node) -> Vec<i16> {
    let mut v = Vec::new();
    let mut rest = pull_node_input_vars(n);
    while let List::Cons(x, xs) = rest {
        match x {
            Expr::Var(x) => v.push(x.attno),
            Expr::PlaceHolder { phid, .. } => v.push(-(phid as i16)),
            other => panic!("{:?}", other),
        }
        rest = *xs;
    }
    v
}

#[test]
fn parts_of_calls_in_order() {
    let agg = Node::Aggref {
        func: 1,
        typid: 23,
        transtype: 23,
        collation: 0,
        split: AggSplit::Simple,
        direct: nodes(&[1]),
        args: Box::new(list(vec![Node::TargetEntry(Box::new(node(2))), node(3)])),
        filter: some(4),
    };
    assert_eq!(columns_of(agg), vec![1, 2, 3, 4]);
    let window =
        Node::WindowFunc { func: 1, typid: 23, collation: 0, args: nodes(&[2]), filter: some(1) };
    assert_eq!(columns_of(window), vec![2, 1]);
    let sub = Node::SubPlan {
        plan: 1,
        typid: 16,
        collation: 0,
        testexpr: some(5),
        args: nodes(&[6, 7]),
    };
    assert_eq!(columns_of(sub), vec![5, 6, 7]);
    let slice = Node::Subscripting {
        label: label(),
        upper: Box::new(list(vec![Some(node(1)), None])),
        lower: Box::new(list(vec![None, Some(node(2))])),
        array: some(3),
        assigned: some(4),
    };
    assert_eq!(columns_of(slice), vec![1, 2, 3, 4]);
    let rows = Node::RowCompare {
        test: planner::expr::OrderTest::Less,
        detail: 0,
        left: nodes(&[1, 2]),
        right: nodes(&[3, 4]),
    };
    match flatten_node(rows) {
        Expr::Call { head: Head::Row { left, .. }, args } => {
            assert_eq!(left, 2);
            let want = list((1..5).map(|a| column(a, vec![])).collect());
            assert_eq!(shown(&*args), shown(&want));
        }
        other => panic!("{:?}", other),
    }
}

#[test]
fn parts_of_cases_and_of_json() {
    let case = Node::Case {
        label: label(),
        arg: some(1),
        whens: Box::new(list(vec![(node(2), node(3)), (node(4), node(5))])),
        otherwise: some(6),
    };
    assert_eq!(columns_of(case), vec![1, 2, 3, 4, 5, 6]);
    let json = Node::Json {
        label: label(),
        formatted: some(1),
        path: some(2),
        on_empty: None,
        on_error: some(3),
        passing: nodes(&[4, 5]),
    };
    assert_eq!(columns_of(json), vec![1, 2, 3, 4, 5]);
    let made = Node::JsonConstructor {
        label: label(),
        args: nodes(&[1]),
        func: some(2),
        coercion: some(3),
    };
    assert_eq!(columns_of(made), vec![1, 2, 3]);
    let xml = Node::Xml { label: label(), named: nodes(&[1]), args: nodes(&[2]) };
    assert_eq!(columns_of(xml), vec![1, 2]);
    assert!(columns_of(Node::Leaf(label())).is_empty());
}

#[test]
fn a_placeholder_is_a_whole() {
    let held = Node::PlaceHolder {
        phid: 8,
        levelsup: 0,
        nullingrels: list(vec![]),
        eval_at: list(vec![1]),
        expr: Box::new(node(3)),
    };
    let both = Node::Bool { connective: Connective::And, args: Box::new(list(vec![held, node(2)])) };
    assert_eq!(columns_of(both), vec![-8, 2]);
}

#[test]
fn what_a_grouping_reads() {
    let exprs = list(vec![
        aggregate(20, AggSplit::Simple, column(2, vec![])),
        sum(column(1, vec![7]), constant(1)),
        column(2, vec![]),
    ]);
    let having = list(vec![aggregate(20, AggSplit::Simple, column(3, vec![]))]);
    let t = make_group_input_target(
        &exprs,
        &list(vec![0, 4]),
        &list(vec![clause(4)]),
        &having,
        Some(7),
    );
    let want = list(vec![
        sum(column(1, vec![]), constant(1)),
        column(2, vec![]),
        column(3, vec![]),
    ]);
    assert_eq!(shown(&t.exprs), shown(&want));
    assert_eq!(t.refs.to_vec(), vec![4]);
}

#[test]
fn what_a_partial_grouping_computes() {
    let exprs = list(vec![column(1, vec![]), aggregate(1700, AggSplit::Simple, column(2, vec![]))]);
    let t = make_partial_grouping_target(
        &exprs,
        &list(vec![4, 0]),
        &list(vec![clause(4)]),
        &list(vec![aggregate(1700, AggSplit::Simple, column(2, vec![]))]),
    )
    .unwrap();
    assert_eq!(t.refs.to_vec(), vec![4]);
    let state = Expr::Call {
        head: Head::Aggref {
            func: 2108,
            typid: 1700,
            transtype: 1700,
            collation: 0,
            split: AggSplit::InitialSerial,
        },
        args: Box::new(list(vec![column(2, vec![])])),
    };
    assert_eq!(shown(&t.exprs), shown(&list(vec![column(1, vec![]), state])));
}

#[test]
fn internal_states_are_serialized() {
    let head = |transtype, typid, split| Head::Aggref {
        func: 1,
        typid,
        transtype,
        collation: 0,
        split,
    };
    assert_eq!(
        mark_partial_aggref(head(INTERNALOID, 20, AggSplit::Simple)),
        Ok(head(INTERNALOID, BYTEAOID, AggSplit::InitialSerial))
    );
    assert_eq!(
        mark_partial_aggref(head(0, 20, AggSplit::Simple)),
        Err(PlannerError::AggregateNotSplittable)
    );
    assert_eq!(
        mark_partial_aggref(head(20, 20, AggSplit::FinalDeserial)),
        Err(PlannerError::AggregateNotSplittable)
    );
    let exprs = list(vec![aggregate(0, AggSplit::Simple, constant(1))]);
    let none = list(vec![]);
    let r = make_partial_grouping_target(&exprs, &list(vec![0]), &none, &list(vec![]));
    assert!(matches!(r, Err(PlannerError::AggregateNotSplittable)));
}

fn grouping_of(attno: i16) -> Expr {
    flatten_node(Node::GroupingFunc { levelsup: 0, args: nodes(&[attno]) })
}

#[test]
fn grouping_marks_are_wholes_above_the_grouping() {
    let mark = grouping_of(1);
    assert!(matches!(mark, Expr::Call { head: Head::Grouping { levelsup: 0 }, .. }));
    assert_eq!((expr_type(&mark), expr_collation(&mark)), (INT4OID, 0));
    // Below the grouping, only its columns count.
    let e = sum(grouping_of(1), column(2, vec![]));
    let want = list(vec![column(1, vec![]), column(2, vec![])]);
    assert_eq!(shown(&pull_agg_input_vars(&e)), shown(&want));
    // A volatile column over it is put off, and it is computed below the sort.
    let exprs = list(vec![column(3, vec![]), e]);
    let volatile = list(vec![facts(false, false, false), facts(false, true, false)]);
    let (t, _) =
        make_sort_input_target(&exprs, &list(vec![1, 0]), &volatile, false, false).unwrap();
    let want = list(vec![column(3, vec![]), grouping_of(1), column(2, vec![])]);
    assert_eq!(shown(&t.exprs), shown(&want));
    // A partial grouping hands it out as it is.
    let t = make_partial_grouping_target(
        &list(vec![column(1, vec![]), sum(grouping_of(1), constant(1))]),
        &list(vec![4, 0]),
        &list(vec![clause(4)]),
        &list(vec![]),
    )
    .unwrap();
    assert_eq!(shown(&t.exprs), shown(&list(vec![column(1, vec![]), grouping_of(1)])));
}

fn facts(returns_set: bool, volatile: bool, expensive: bool) -> ColumnFacts {
    ColumnFacts { returns_set, volatile, expensive }
}

#[test]
fn nothing_is_put_off_without_reason() {
    let exprs = list(vec![column(1, vec![]), sum(column(2, vec![]), constant(1))]);
    let refs = list(vec![1, 0]);
    let plain = list(vec![facts(false, false, false), facts(false, false, false)]);
    assert!(make_sort_input_target(&exprs, &refs, &plain, false, true).is_none());
    let costly = list(vec![facts(false, false, false), facts(false, false, true)]);
    assert!(make_sort_input_target(&exprs, &refs, &costly, false, false).is_none());
}

#[test]
fn volatile_and_expensive_columns_are_put_off() {
    let exprs = list(vec![column(1, vec![]), sum(column(2, vec![]), constant(1))]);
    let refs = list(vec![1, 0]);
    let volatile = list(vec![facts(false, false, false), facts(false, true, false)]);
    let (t, srf) = make_sort_input_target(&exprs, &refs, &volatile, false, false).unwrap();
    assert!(!srf);
    assert_eq!(shown(&t.exprs), shown(&list(vec![column(1, vec![]), column(2, vec![])])));
    let costly = list(vec![facts(false, false, false), facts(false, false, true)]);
    let (t, srf) = make_sort_input_target(&exprs, &refs, &costly, false, true).unwrap();
    assert!(!srf);
    assert_eq!(t.refs.to_vec()[0], 1);
}

#[test]
fn sets_are_put_off_unless_sorted_by() {
    let exprs = list(vec![column(1, vec![]), sum(column(2, vec![]), constant(1))]);
    let last = list(vec![facts(false, false, false), facts(true, false, false)]);
    let (_, srf) =
        make_sort_input_target(&exprs, &list(vec![1, 0]), &last, true, false).unwrap();
    assert!(srf);
    let both = list(vec![facts(true, false, false), facts(true, false, false)]);
    assert!(make_sort_input_target(&exprs, &list(vec![1, 0]), &both, true, false).is_none());
}

fn entry(expr: Expr, resno: i16, label: u32, resjunk: bool) -> TargetEntry {
    TargetEntry {
        expr,
        resno,
        resname: None,
        ressortgroupref: label,
        resorigtbl: 0,
        resorigcol: 0,
        resjunk,
    }
}

#[test]
fn labels_of_a_set_operation() {
    let orig = || list(vec![entry(constant(1), 1, 6, false), entry(constant(2), 2, 0, false)]);
    let new = || list(vec![entry(column(1, vec![]), 1, 0, false), entry(column(2, vec![]), 2, 0, false)]);
    let labelled = postprocess_setop_tlist(new(), &orig()).unwrap();
    let want = list(vec![entry(column(1, vec![]), 1, 6, false), entry(column(2, vec![]), 2, 0, false)]);
    assert_eq!(shown(&labelled), shown(&want));
    let short = postprocess_setop_tlist(list(vec![entry(constant(1), 1, 0, false)]), &orig());
    assert!(matches!(short, Err(PlannerError::JunkColumnInSetOperation)));
    let long = postprocess_setop_tlist(new(), &list(vec![entry(constant(1), 1, 0, false)]));
    assert!(matches!(long, Err(PlannerError::TargetListLengthMismatch)));
    let junk = list(vec![entry(constant(1), 1, 6, true)]);
    let r = postprocess_setop_tlist(list(vec![entry(constant(1), 1, 0, false)]), &junk);
    assert!(matches!(r, Err(PlannerError::JunkColumnInSetOperation)));
}

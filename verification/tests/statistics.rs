use planner::clausesel::{
    add_range_clause, clause_selectivity, clause_selectivity_node, clauselist_selectivity_ext,
    clauselist_selectivity_or, merge_range_pairs, pull_varnos, treat_as_join_clause,
    KeptSelectivity, OrStatistics, SelClause, SelContext, Selectivity,
};
use planner::dependencies::{
    check_constant_like, choose_dependencies, collect_attributes, dependency_is_compatible_clause,
    dependency_is_compatible_expression, find_strongest_dependency, list_occurring,
    map_dependencies, mark_accounted_for, number_clauses, stat_may_apply, Dependency,
    DependencyStat, FIRST_EXPR,
};
use planner::error::PlannerError;
use planner::expr::{Const, Expr, Head, Var};
use planner::extstats::{
    choose_best_statistics, choose_ndistinct, estimate_multivariate_ndistinct,
    examine_opclause_args, find_single_rel_for_clause_nodes, find_single_rel_for_clauses,
    get_relation_statistics, stat_covers_expressions, statext_is_compatible_clause,
    statext_mcv_clauselist_selectivity, statext_mcv_clauselist_selectivity_or_nodes, ClauseData,
    Kinds, NdistinctItem, OperatorFacts, StatClause, StatForm, StatInfo, StatKind,
};
use planner::list::List;
use planner::mcvmatch::{
    bms_member_index, make_clause_tests, mcv_get_match_bitmap, mcv_match_expression,
    result_is_final, result_merge, ArrayElement, MatchClause, MatchTest,
};
use planner::rel::RteKind;
use planner::statuse::{
    clauselist_selectivity, statext_clauselist_selectivity,
    statext_clauselist_selectivity_or_nodes, Alternative, RelationStatistics,
};

const EQ: u32 = 96;
const LT: u32 = 97;
const GT: u32 = 521;

fn list<T>(v: Vec<T>) -> List<T> {
    List::from_vec(v)
}

fn items<T>(l: List<T>) -> Vec<T> {
    let mut v = Vec::new();
    let mut rest = l;
    while let List::Cons(x, xs) = rest {
        v.push(x);
        rest = *xs;
    }
    v
}

fn shown<T: std::fmt::Debug>(x: &T) -> String {
    format!("{:?}", x)
}

fn column_of(varno: i32, attno: i16) -> Expr {
    Expr::Var(Var {
        varno,
        attno,
        typid: 23,
        typmod: -1,
        collation: 0,
        levelsup: 0,
        nullingrels: list(vec![]),
    })
}

fn column(attno: i16) -> Expr {
    column_of(1, attno)
}

fn constant(value: u64) -> Expr {
    Expr::Const(Const { typid: 23, collation: 0, value, isnull: false })
}

fn op(opno: u32, a: Expr, b: Expr) -> Expr {
    Expr::Call {
        head: Head::Op { opno, typid: 16, collation: 0, inputcollid: 0 },
        args: Box::new(list(vec![a, b])),
    }
}

fn call(head: Head, args: Vec<Expr>) -> Expr {
    Expr::Call { head, args: Box::new(list(args)) }
}

fn lower(arg: Expr) -> Expr {
    call(Head::Func { func: 870, typid: 25, collation: 100 }, vec![arg])
}

fn operators() -> OperatorFacts {
    OperatorFacts {
        comparisons: list(vec![EQ, LT, GT]),
        equalities: list(vec![EQ]),
        leakproof: list(vec![EQ]),
        volatile: list(vec![7]),
    }
}

#[test]
fn outcomes_are_merged() {
    assert!(result_merge(false, true, true));
    assert!(!result_merge(true, false, false));
    assert!(result_is_final(true, true) && result_is_final(false, false));
    assert!(!result_is_final(true, false) && !result_is_final(false, true));
}

fn compare(dim: usize, outcomes: Vec<bool>) -> MatchClause {
    MatchClause::Compare { dim, null_const: false, outcomes }
}

#[test]
fn common_values_that_match() {
    let nulls = vec![vec![false, false], vec![false, true], vec![true, false]];
    let all = mcv_get_match_bitmap(
        &list(vec![compare(0, vec![true, true, true]), compare(1, vec![true, true, false])]),
        &nulls,
        false,
    );
    assert_eq!(all, vec![true, false, false]);
    let some = mcv_get_match_bitmap(
        &list(vec![compare(0, vec![true, true, true]), compare(1, vec![true, true, true])]),
        &nulls,
        true,
    );
    assert_eq!(some, vec![true, true, true]);
    let none: List<MatchClause> = list(vec![]);
    assert_eq!(mcv_get_match_bitmap(&none, &nulls, false), vec![true; 3]);
    assert_eq!(mcv_get_match_bitmap(&none, &nulls, true), vec![false; 3]);
}

#[test]
fn clauses_on_common_values() {
    let nulls = vec![vec![false], vec![true]];
    let one = |c| mcv_get_match_bitmap(&list(vec![c]), &nulls, false);
    assert_eq!(one(MatchClause::NullTest { dim: 0, is_null: true }), vec![false, true]);
    assert_eq!(one(MatchClause::NullTest { dim: 0, is_null: false }), vec![true, false]);
    assert_eq!(
        one(MatchClause::Compare { dim: 0, null_const: true, outcomes: vec![true, true] }),
        vec![false, false]
    );
    assert_eq!(
        one(MatchClause::Not(Box::new(list(vec![compare(0, vec![true, true])])))),
        vec![false, true]
    );
    assert_eq!(one(MatchClause::Truth { dim: 0, outcomes: vec![true, true] }), vec![true, false]);
    let or = MatchClause::Or(Box::new(list(vec![
        compare(0, vec![false, true]),
        MatchClause::NullTest { dim: 0, is_null: true },
    ])));
    assert_eq!(one(or), vec![false, true]);
    let and = MatchClause::And(Box::new(list(vec![
        compare(0, vec![true, true]),
        MatchClause::NullTest { dim: 0, is_null: true },
    ])));
    assert_eq!(one(and), vec![false, false]);
}

#[test]
fn arrays_on_common_values() {
    let nulls = vec![vec![false], vec![false]];
    let clause = |use_or| MatchClause::CompareAny {
        dim: 0,
        null_const: false,
        use_or,
        elements: list(vec![
            ArrayElement { isnull: false, outcomes: vec![true, true] },
            ArrayElement { isnull: false, outcomes: vec![false, true] },
        ]),
    };
    let one = |c| mcv_get_match_bitmap(&list(vec![c]), &nulls, false);
    assert_eq!(one(clause(true)), vec![true, true]);
    assert_eq!(one(clause(false)), vec![false, true]);
    let null = MatchClause::CompareAny {
        dim: 0,
        null_const: false,
        use_or: false,
        elements: list(vec![ArrayElement { isnull: true, outcomes: vec![true, true] }]),
    };
    assert_eq!(one(null), vec![false, false]);
}

#[test]
fn dimensions_of_statistics() {
    let keys = list(vec![5, 2, 5]);
    assert_eq!(bms_member_index(&keys, 2), Some(0));
    assert_eq!(bms_member_index(&keys, 5), Some(1));
    assert_eq!(bms_member_index(&keys, 3), None);
    let exprs = list(vec![lower(column(1))]);
    assert_eq!(mcv_match_expression(&column(5), &keys, &exprs).unwrap().0, 1);
    let found = mcv_match_expression(&lower(column(1)), &keys, &exprs);
    assert_eq!(found, Ok((2, 100)));
    let missing = mcv_match_expression(&column(4), &keys, &exprs);
    assert_eq!(missing, Err(PlannerError::NotInStatistics));
}

#[test]
fn clauses_become_tests() {
    let keys = list(vec![2, 5]);
    let exprs = list(vec![lower(column(1))]);
    let test = |e| match make_clause_tests(&list(vec![e]), &keys, &exprs) {
        Ok(List::Cons(t, _)) => Ok(shown(&t)),
        Ok(List::Nil) => panic!("a test"),
        Err(e) => Err(e),
    };
    let compare = |opno, dim, collation, expr_on_left| MatchTest::Compare {
        dim,
        opno,
        collation,
        constant: Const { typid: 23, collation: 0, value: 9, isnull: false },
        expr_on_left,
    };
    assert_eq!(test(op(EQ, column(5), constant(9))), Ok(shown(&compare(EQ, 1, 0, true))));
    assert_eq!(
        test(op(LT, constant(9), lower(column(1)))),
        Ok(shown(&compare(LT, 2, 100, false)))
    );
    assert_eq!(test(column(2)), Ok(shown(&MatchTest::Truth(0))));
    let not = call(Head::Not, vec![column(2)]);
    assert_eq!(
        test(not),
        Ok(shown(&MatchTest::Not(Box::new(list(vec![MatchTest::Truth(0)])))))
    );
    let null = call(Head::NullTest { is_null: true }, vec![column(5)]);
    assert_eq!(test(null), Ok(shown(&MatchTest::NullTest { dim: 1, is_null: true })));
    assert_eq!(test(op(EQ, column(2), column(5))), Err(PlannerError::IncompatibleClause));
    let any = |a, b| call(Head::ArrayOp { opno: EQ, use_or: true, inputcollid: 0 }, vec![a, b]);
    assert!(test(any(column(2), constant(9))).is_ok());
    assert_eq!(test(any(constant(9), column(2))), Err(PlannerError::IncompatibleClause));
    assert_eq!(test(op(EQ, column(7), constant(9))), Err(PlannerError::NotInStatistics));
}

fn kinds(ndistinct: bool, dependencies: bool, mcv: bool, expressions: bool) -> Kinds {
    Kinds { ndistinct, dependencies, mcv, expressions }
}

#[test]
fn statistics_of_a_relation() {
    let form = StatForm {
        id: 9,
        keys: list(vec![1, 2]),
        exprs: list(vec![lower(column(1))]),
        kinds: kinds(true, true, true, false),
        built_inherited: Some(kinds(false, true, false, true)),
        built_plain: Some(kinds(true, false, true, false)),
    };
    let stats = items(get_relation_statistics(&list(vec![form]), 4));
    let got: Vec<(bool, StatKind)> = stats.iter().map(|s| (s.inherit, s.kind)).collect();
    assert_eq!(
        got,
        vec![
            (true, StatKind::Dependencies),
            (false, StatKind::Ndistinct),
            (false, StatKind::Mcv)
        ]
    );
    assert_eq!(shown(&stats[0].exprs), shown(&list(vec![lower(column_of(4, 1))])));
}

#[test]
fn the_relation_that_clauses_are_about() {
    let find = |v: Vec<Vec<u32>>| {
        find_single_rel_for_clauses(&list(v.into_iter().map(list).collect()))
    };
    assert_eq!(find(vec![vec![3], vec![], vec![3]]), Some(3));
    assert_eq!(find(vec![vec![3], vec![4]]), None);
    assert_eq!(find(vec![vec![3, 4]]), None);
    assert_eq!(find(vec![]), None);
    let with_join = list(vec![list(vec![3, 8]), list(vec![3])]);
    assert_eq!(find_single_rel_for_clause_nodes(&with_join, &list(vec![8])), Some(3));
}

#[test]
fn operands_of_comparisons() {
    let (a, c) = (column(1), constant(5));
    assert!(matches!(examine_opclause_args(&a, &c), Some((Expr::Var(_), true))));
    assert!(matches!(examine_opclause_args(&c, &a), Some((Expr::Var(_), false))));
    assert!(examine_opclause_args(&a, &a).is_none());
}

fn data(attnums: Vec<u32>, exprs: Vec<Expr>) -> Option<ClauseData> {
    Some(ClauseData { attnums: list(attnums), exprs: list(exprs), leakproof: true })
}

#[test]
fn clauses_that_statistics_help_with() {
    let check = |e: &Expr| {
        statext_is_compatible_clause(e, false, &list(vec![1]), 1, 1, &operators())
    };
    let d = check(&op(EQ, column(2), constant(5))).unwrap();
    assert_eq!(d.attnums.to_vec(), vec![2]);
    assert!(d.leakproof);
    let d = check(&op(LT, constant(5), lower(column(2)))).unwrap();
    assert!(d.attnums.is_nil() && !d.leakproof && !d.exprs.is_nil());
    let or = call(
        Head::Or,
        vec![op(EQ, column(2), constant(1)), op(EQ, column(3), constant(1))],
    );
    let mut both = check(&or).unwrap().attnums.to_vec();
    both.sort();
    assert_eq!(both, vec![2, 3]);
    assert!(check(&op(EQ, column(2), column(3))).is_none());
    assert!(check(&op(999, column(2), constant(5))).is_none());
    assert!(check(&op(EQ, column(-1), constant(5))).is_none());
    let e = op(EQ, column(2), constant(5));
    let facts = operators();
    assert!(statext_is_compatible_clause(&e, true, &list(vec![1]), 1, 1, &facts).is_none());
    assert!(statext_is_compatible_clause(&e, false, &list(vec![1, 2]), 1, 1, &facts).is_none());
}

fn stat(id: u32, kind: StatKind, keys: Vec<u32>, exprs: Vec<Expr>) -> StatInfo {
    StatInfo { id, inherit: false, kind, keys: list(keys), exprs: list(exprs) }
}

#[test]
fn the_best_statistics() {
    let clauses = list(vec![data(vec![1], vec![]), data(vec![2], vec![]), data(vec![3], vec![])]);
    let pick = |v: Vec<StatInfo>| {
        choose_best_statistics(&list(v), StatKind::Mcv, false, &clauses).map(|s| s.id)
    };
    let mcv = |id, keys| stat(id, StatKind::Mcv, keys, vec![]);
    assert_eq!(pick(vec![mcv(1, vec![1, 2]), mcv(2, vec![1, 2, 3])]), Some(2));
    assert_eq!(pick(vec![mcv(1, vec![1, 2, 8]), mcv(2, vec![2, 3])]), Some(2));
    assert_eq!(pick(vec![mcv(1, vec![1, 2]), mcv(2, vec![2, 3])]), Some(1));
    assert_eq!(pick(vec![mcv(1, vec![1, 9])]), None);
    assert_eq!(pick(vec![stat(1, StatKind::Dependencies, vec![1, 2], vec![])]), None);
    let covered = list(vec![lower(column(1))]);
    assert!(stat_covers_expressions(&covered, &list(vec![lower(column(1))])));
    assert!(!stat_covers_expressions(&covered, &list(vec![lower(column(2))])));
}

#[test]
fn each_clause_is_estimated_once() {
    let clauses = || {
        list(vec![
            data(vec![1], vec![]),
            data(vec![2], vec![]),
            None,
            data(vec![3], vec![]),
            data(vec![4], vec![]),
        ])
    };
    let stats = list(vec![
        stat(1, StatKind::Mcv, vec![1, 2], vec![]),
        stat(2, StatKind::Mcv, vec![2, 3, 4], vec![]),
    ]);
    let uses = items(statext_mcv_clauselist_selectivity(&stats, false, clauses()));
    assert_eq!(uses.len(), 1);
    assert_eq!(uses[0].stat, 2);
    assert_eq!(uses[0].clauses.to_vec(), vec![false, true, false, true, true]);
    let stats = list(vec![
        stat(1, StatKind::Mcv, vec![1, 2], vec![]),
        stat(2, StatKind::Mcv, vec![3, 4], vec![]),
    ]);
    let (uses, simple) = statext_mcv_clauselist_selectivity_or_nodes(&stats, false, clauses());
    let used: Vec<u32> = items(uses).iter().map(|u| u.stat).collect();
    assert_eq!(used, vec![1, 2]);
    assert_eq!(simple.to_vec(), vec![true, true, false, true, true]);
}

#[test]
fn numbers_of_distinct_groups() {
    let stats = list(vec![
        stat(1, StatKind::Ndistinct, vec![1], vec![]),
        stat(2, StatKind::Ndistinct, vec![1, 2, 4], vec![]),
    ]);
    let nodes = list(vec![column(1), column(2), column(3)]);
    let s = choose_ndistinct(&stats, false, &nodes).unwrap();
    assert_eq!(s.id, 2);
    let found = list(vec![
        NdistinctItem { attributes: list(vec![1, 4]), ndistinct: 11 },
        NdistinctItem { attributes: list(vec![1, 2]), ndistinct: 77 },
    ]);
    let (n, used) = estimate_multivariate_ndistinct(s, &found, &nodes).unwrap();
    assert_eq!(n, 77);
    assert_eq!(used.to_vec(), vec![true, true, false]);
    let missing = estimate_multivariate_ndistinct(s, &list(vec![]), &nodes);
    assert!(matches!(missing, Err(PlannerError::NotInStatistics)));
    assert!(choose_ndistinct(&stats, false, &list(vec![column(1)])).is_none());
}

#[test]
fn what_is_the_same_for_all_rows() {
    let volatile = list(vec![7]);
    assert!(check_constant_like(&constant(1), &volatile));
    assert!(!check_constant_like(&column(1), &volatile));
    assert!(check_constant_like(&op(EQ, constant(1), constant(2)), &volatile));
    assert!(!check_constant_like(&op(7, constant(1), constant(2)), &volatile));
}

#[test]
fn clauses_that_fix_a_column() {
    let fix = |e: &Expr| dependency_is_compatible_clause(e, 1, &operators());
    assert_eq!(fix(&op(EQ, column(3), constant(1))), Some(3));
    assert_eq!(fix(&op(EQ, constant(1), column(3))), Some(3));
    assert_eq!(fix(&op(LT, column(3), constant(1))), None);
    assert_eq!(fix(&column(4)), Some(4));
    assert_eq!(fix(&call(Head::Not, vec![column(4)])), Some(4));
    let or = |a, b| {
        call(Head::Or, vec![op(EQ, column(a), constant(1)), op(EQ, column(b), constant(2))])
    };
    assert_eq!(fix(&or(3, 3)), Some(3));
    assert_eq!(fix(&or(3, 4)), None);
    let any = call(
        Head::ArrayOp { opno: EQ, use_or: true, inputcollid: 0 },
        vec![column(3), constant(1)],
    );
    assert_eq!(fix(&any), Some(3));
    let stat_exprs = list(vec![lower(column(1))]);
    let e = op(EQ, lower(column(1)), constant(1));
    assert!(dependency_is_compatible_expression(&e, &stat_exprs, &operators()).is_some());
    let e = op(EQ, lower(column(2)), constant(1));
    assert!(dependency_is_compatible_expression(&e, &stat_exprs, &operators()).is_none());
}

fn stat_clause(clause: Expr) -> StatClause {
    StatClause {
        clause,
        pseudoconstant: false,
        relids: list(vec![1]),
        readable: true,
        estimated: false,
    }
}

#[test]
fn fixed_columns_and_expressions_are_numbered() {
    let clause = |e, estimated| {
        let mut c = stat_clause(e);
        c.estimated = estimated;
        c
    };
    let clauses = list(vec![
        clause(op(EQ, column(2), constant(1)), false),
        clause(op(EQ, lower(column(1)), constant(1)), false),
        clause(op(EQ, column(3), constant(1)), true),
    ]);
    let stat_exprs = list(vec![lower(column(1))]);
    let n = number_clauses(&clauses, 1, &stat_exprs, &operators(), list(vec![]));
    assert_eq!(n.numbers.to_vec(), vec![Some(2), Some(FIRST_EXPR), None]);
    let mut fixed = list_occurring(&n.numbers).to_vec();
    fixed.sort();
    assert_eq!(fixed, vec![-1, 2]);
    let s = stat(1, StatKind::Dependencies, vec![2], vec![lower(column(1))]);
    assert!(stat_may_apply(&s, false, &list_occurring(&n.numbers), &n.exprs));
    let s = stat(1, StatKind::Dependencies, vec![2, 5], vec![]);
    assert!(!stat_may_apply(&s, false, &list_occurring(&n.numbers), &n.exprs));
    let marked = mark_accounted_for(&n.numbers, &list(vec![2]));
    assert_eq!(marked.to_vec(), vec![true, false, false]);
}

fn dependency(degree: f64, attributes: Vec<i32>) -> Dependency {
    Dependency { degree: degree.to_bits(), attributes: list(attributes) }
}

#[test]
fn the_strongest_dependency_first() {
    let deps = list(vec![
        dependency(0.9, vec![1, 2]),
        dependency(0.5, vec![1, 3, 2]),
        dependency(0.95, vec![3, 2]),
    ]);
    let best = find_strongest_dependency(&deps, &list(vec![1, 2, 3])).unwrap();
    assert_eq!(best.attributes.to_vec(), vec![1, 3, 2]);
    let best = find_strongest_dependency(&deps, &list(vec![2, 3])).unwrap();
    assert_eq!(best.attributes.to_vec(), vec![3, 2]);
    assert!(find_strongest_dependency(&deps, &list(vec![1, 3])).is_none());
    let used = items(choose_dependencies(&deps, &list(vec![1, 2, 3])));
    assert_eq!(used.len(), 1);
    let mut attributes = collect_attributes(&list(used)).to_vec();
    attributes.sort();
    assert_eq!(attributes, vec![1, 2, 3]);
}

#[test]
fn dependencies_in_terms_of_the_clauses() {
    let stat_exprs = list(vec![lower(column(8)), lower(column(1))]);
    let met = list(vec![lower(column(1))]);
    let deps = list(vec![dependency(0.5, vec![2, -2]), dependency(0.5, vec![2, -1])]);
    let mapped = items(map_dependencies(&deps, &stat_exprs, &list(vec![2, -1]), &met));
    assert_eq!(mapped.len(), 1);
    assert_eq!(mapped[0].attributes.to_vec(), vec![2, FIRST_EXPR]);
}

fn dependency_stat(info: StatInfo, deps: Vec<Dependency>) -> DependencyStat {
    DependencyStat { info, deps: list(deps) }
}

fn fixing(attnos: &[i16]) -> List<StatClause> {
    list(attnos.iter().map(|&a| stat_clause(op(EQ, column(a), constant(1)))).collect())
}

#[test]
fn common_values_come_before_dependencies() {
    let stats = list(vec![
        dependency_stat(stat(1, StatKind::Mcv, vec![1, 2], vec![]), vec![]),
        dependency_stat(
            stat(2, StatKind::Dependencies, vec![2, 3, 4], vec![]),
            vec![dependency(0.5, vec![3, 4]), dependency(0.9, vec![2, 3])],
        ),
    ]);
    let u = statext_clauselist_selectivity(&stats, false, fixing(&[1, 2, 3, 4, 5]), 1, 1, &operators());
    let uses = items(u.common_values);
    assert_eq!(uses.len(), 1);
    assert_eq!(uses[0].clauses.to_vec(), vec![true, true, false, false, false]);
    let d = u.dependencies.unwrap();
    assert_eq!(d.attributes.to_vec(), vec![3, 4]);
    assert_eq!(d.accounted.to_vec(), vec![false, false, true, true, false]);
    assert_eq!(u.estimated.to_vec(), vec![true, true, true, true, false]);
}

#[test]
fn dependencies_need_two_fixed_attributes() {
    let stats = list(vec![dependency_stat(
        stat(2, StatKind::Dependencies, vec![2, 3], vec![]),
        vec![dependency(0.9, vec![2, 3])],
    )]);
    let u = statext_clauselist_selectivity(&stats, false, fixing(&[3, 3]), 1, 1, &operators());
    assert!(u.dependencies.is_none());
    assert_eq!(u.estimated.to_vec(), vec![false, false]);
    let u = statext_clauselist_selectivity(&stats, true, fixing(&[2, 3]), 1, 1, &operators());
    assert!(u.dependencies.is_none());
    let u = statext_clauselist_selectivity(&stats, false, fixing(&[2, 3]), 1, 1, &operators());
    assert_eq!(u.estimated.to_vec(), vec![true, true]);
}

#[test]
fn alternatives_by_common_values() {
    let alternative = |opno, attno, readable| Alternative {
        clause: op(opno, column(attno), constant(1)),
        readable,
        estimated: false,
    };
    let stats = list(vec![stat(1, StatKind::Mcv, vec![1, 2], vec![])]);
    let use_for = |readable| {
        let l = list(vec![
            alternative(EQ, 1, false),
            alternative(LT, 2, readable),
            alternative(EQ, 3, true),
        ]);
        let none = list(vec![]);
        statext_clauselist_selectivity_or_nodes(&stats, false, &l, &none, 1, 1, &operators())
            .estimated
            .to_vec()
    };
    assert_eq!(use_for(true), vec![true, true, false]);
    assert_eq!(use_for(false), vec![false, false, false]);
}

#[test]
fn alternatives_that_were_estimated_before() {
    let alternative = |attno, estimated| Alternative {
        clause: op(EQ, column(attno), constant(1)),
        readable: true,
        estimated,
    };
    let stats = list(vec![stat(1, StatKind::Mcv, vec![1, 2], vec![])]);
    let none = list(vec![]);
    let l = list(vec![alternative(1, true), alternative(2, false), alternative(1, false)]);
    let u = statext_clauselist_selectivity_or_nodes(&stats, false, &l, &none, 1, 1, &operators());
    let uses = items(u.common_values);
    assert_eq!(uses.len(), 1);
    assert_eq!(uses[0].clauses.to_vec(), vec![false, true, true]);
    assert_eq!(u.estimated.to_vec(), vec![true, true, true]);
}

fn context() -> SelContext {
    SelContext {
        varrelid: 0,
        inner_join: true,
        has_join: true,
        outer_joins: list(vec![]),
        less: list(vec![LT]),
        greater: list(vec![GT]),
        volatile: list(vec![]),
        disjunctions: list(vec![]),
    }
}

#[test]
fn relations_of_an_expression() {
    let mut tables = pull_varnos(&op(EQ, column_of(1, 1), column_of(2, 1))).to_vec();
    tables.sort();
    assert_eq!(tables, vec![1, 2]);
    assert!(treat_as_join_clause(true, &context()));
    assert!(!treat_as_join_clause(false, &context()));
}

#[test]
fn selectivities_of_expressions() {
    let of = |e: &Expr| clause_selectivity_node(e, &context());
    assert!(matches!(of(&constant(1)), Selectivity::One));
    assert!(matches!(of(&constant(0)), Selectivity::Zero));
    assert!(matches!(of(&Expr::Param(1, 16, 0)), Selectivity::Half));
    assert!(matches!(of(&column(1)), Selectivity::Truth(_)));
    assert!(matches!(of(&call(Head::Not, vec![column(1)])), Selectivity::Complement(_)));
    assert!(matches!(of(&op(EQ, column(1), constant(1))), Selectivity::Restriction(_)));
    let join = op(EQ, column_of(1, 1), column_of(2, 1));
    assert!(matches!(of(&join), Selectivity::Join(_)));
    let null = call(Head::NullTest { is_null: true }, vec![column(1)]);
    assert!(matches!(of(&null), Selectivity::NullTest(_)));
    let test = call(Head::BooleanTest { kind: 1 }, vec![column(1)]);
    assert!(matches!(of(&test), Selectivity::BooleanTest(_)));
    let cursor = call(Head::CurrentOf { varno: 1, cursor: 5 }, vec![]);
    assert!(matches!(of(&cursor), Selectivity::OneRowOf(1)));
    let distinct = call(Head::Distinct { opno: EQ, inputcollid: 0 }, vec![column(1), column(2)]);
    assert!(matches!(of(&distinct), Selectivity::Half));
    let case = call(Head::Other { kind: 1, typid: 16, collation: 0 }, vec![column(1)]);
    assert!(matches!(of(&case), Selectivity::Truth(_)));
    let or = call(Head::Or, vec![constant(0), constant(1)]);
    let want = Selectivity::Either(
        Box::new(Selectivity::Either(Box::new(Selectivity::Zero), Box::new(Selectivity::Zero))),
        Box::new(Selectivity::One),
    );
    assert_eq!(shown(&of(&or)), shown(&want));
}

#[test]
fn two_bounds_make_a_range() {
    let and = call(Head::And, vec![op(GT, column(1), constant(1)), op(LT, column(1), constant(9))]);
    match clause_selectivity_node(&and, &context()) {
        Selectivity::Product(one, range) => {
            assert!(matches!(*one, Selectivity::One));
            match *range {
                Selectivity::Between { low, high, .. } => {
                    assert_eq!(
                        shown(&low),
                        shown(&Selectivity::Restriction(Box::new(op(GT, column(1), constant(1)))))
                    );
                    assert!(matches!(*high, Selectivity::Restriction(_)));
                },
                _ => panic!("a range"),
            }
        },
        _ => panic!("a product"),
    }
}

#[test]
fn bounds_are_collected() {
    let l = add_range_clause(list(vec![]), column(1), true, Selectivity::Half);
    let l = add_range_clause(l, column(1), true, Selectivity::Zero);
    let l = add_range_clause(l, column(2), false, Selectivity::One);
    let s = merge_range_pairs(Selectivity::One, l);
    let want = Selectivity::Product(
        Box::new(Selectivity::Product(
            Box::new(Selectivity::One),
            Box::new(Selectivity::Least(
                Box::new(Selectivity::Half),
                Box::new(Selectivity::Zero),
            )),
        )),
        Box::new(Selectivity::One),
    );
    assert_eq!(shown(&s), shown(&want));
}

#[test]
fn alternatives_that_are_accounted_for() {
    let or = || call(Head::Or, vec![constant(0), constant(1)]);
    let mut ctx = context();
    ctx.disjunctions = list(vec![OrStatistics { clause: or(), estimated: list(vec![true, false]) }]);
    let want = Selectivity::Either(
        Box::new(Selectivity::ExtendedOr(Box::new(or()))),
        Box::new(Selectivity::One),
    );
    assert_eq!(shown(&clause_selectivity_node(&or(), &ctx)), shown(&want));
    let rest = clauselist_selectivity_or(
        &list(vec![constant(0), constant(1)]),
        list(vec![false, true]),
        &ctx,
        Selectivity::Half,
    );
    let want = Selectivity::Either(Box::new(Selectivity::Half), Box::new(Selectivity::Zero));
    assert_eq!(shown(&rest), shown(&want));
}

fn clause(id: u32, clause: Expr) -> SelClause {
    SelClause {
        id,
        clause,
        pseudoconstant: false,
        num_base_rels: 1,
        clause_relids: list(vec![1]),
        left_relids: list(vec![1]),
        right_relids: list(vec![]),
        has_norm: false,
        has_outer: false,
        readable: true,
        estimated: false,
    }
}

#[test]
fn selectivities_of_clauses() {
    let c = clause(3, op(EQ, column(1), constant(1)));
    let (s, kept) = clause_selectivity(&c, &context());
    assert!(matches!(s, Selectivity::Restriction(_)) && kept);
    let mut known = clause(3, op(EQ, column(1), constant(1)));
    known.has_norm = true;
    assert!(matches!(clause_selectivity(&known, &context()), (Selectivity::Cached(3), false)));
    let mut ctx = context();
    ctx.inner_join = false;
    assert!(matches!(clause_selectivity(&known, &ctx), (Selectivity::Restriction(_), true)));
    ctx.varrelid = 2;
    assert!(matches!(clause_selectivity(&known, &ctx), (_, false)));
    let mut gate = clause(4, Expr::Param(1, 16, 0));
    gate.pseudoconstant = true;
    assert!(matches!(clause_selectivity(&gate, &context()), (Selectivity::One, false)));
}

#[test]
fn selectivities_of_lists() {
    let none = clauselist_selectivity_ext(&list(vec![]), &context(), false);
    assert!(matches!(none, (Selectivity::One, List::Nil)));
    let mut done = clause(1, op(EQ, column(1), constant(1)));
    done.estimated = true;
    let l = list(vec![done, clause(2, op(EQ, column(2), constant(1)))]);
    let want = Selectivity::Product(
        Box::new(Selectivity::Product(
            Box::new(Selectivity::One),
            Box::new(Selectivity::Extended),
        )),
        Box::new(Selectivity::Restriction(Box::new(op(EQ, column(2), constant(1))))),
    );
    assert_eq!(shown(&clauselist_selectivity_ext(&l, &context(), true).0), shown(&want));
}

/// The clauses whose selectivities are kept, and whether as those of inner joins.
fn kept(l: List<KeptSelectivity>) -> Vec<(u32, bool)> {
    items(l).iter().map(|k| (k.clause, k.inner_join)).collect()
}

#[test]
fn selectivities_that_are_kept() {
    let fixing = |id| clause(id, op(EQ, column(1), constant(1)));
    let mut known = fixing(1);
    known.has_norm = true;
    let mut done = fixing(2);
    done.estimated = true;
    let mut gate = clause(3, Expr::Param(1, 16, 0));
    gate.pseudoconstant = true;
    let l = list(vec![known, done, gate, fixing(4), fixing(5)]);
    let (_, found) = clauselist_selectivity_ext(&l, &context(), true);
    assert_eq!(kept(found), vec![(4, true), (5, true)]);
    let mut ctx = context();
    ctx.inner_join = false;
    assert_eq!(
        kept(clauselist_selectivity_ext(&l, &ctx, true).1),
        vec![(1, false), (4, false), (5, false)]
    );
    ctx.varrelid = 2;
    assert!(clauselist_selectivity_ext(&l, &ctx, true).1.is_nil());
    let single = list(vec![fixing(6)]);
    let found = items(clauselist_selectivity_ext(&single, &context(), false).1);
    let want = Selectivity::Restriction(Box::new(op(EQ, column(1), constant(1))));
    assert_eq!((found[0].clause, shown(&found[0].value)), (6, shown(&want)));
}

fn fixing_clauses(attnos: &[i16]) -> List<SelClause> {
    let one = |(i, &a): (usize, &i16)| clause(i as u32, op(EQ, column(a), constant(1)));
    list(attnos.iter().enumerate().map(one).collect())
}

fn relation(rtekind: RteKind) -> List<RelationStatistics> {
    let mcv = dependency_stat(stat(1, StatKind::Mcv, vec![1, 2], vec![]), vec![]);
    list(vec![RelationStatistics { relid: 1, rtekind, inherit: false, stats: list(vec![mcv]) }])
}

#[test]
fn statistics_on_several_columns_are_used_for_a_list() {
    let rels = relation(RteKind::Relation);
    let l = || fixing_clauses(&[1, 2, 3]);
    let (s, used, found) = clauselist_selectivity(l(), &context(), true, &rels, &operators());
    assert_eq!(kept(found), vec![(2, true)]);
    assert_eq!(used.unwrap().estimated.to_vec(), vec![true, true, false]);
    let want = Selectivity::Product(
        Box::new(Selectivity::Product(
            Box::new(Selectivity::One),
            Box::new(Selectivity::Extended),
        )),
        Box::new(Selectivity::Restriction(Box::new(op(EQ, column(3), constant(1))))),
    );
    assert_eq!(shown(&s), shown(&want));
}

#[test]
fn lists_without_statistics_on_several_columns() {
    let unused = |l, extended, rels| {
        clauselist_selectivity(l, &context(), extended, &rels, &operators()).1.is_none()
    };
    let l = || fixing_clauses(&[1, 2]);
    assert!(!unused(l(), true, relation(RteKind::Relation)));
    assert!(unused(l(), false, relation(RteKind::Relation)));
    assert!(unused(l(), true, relation(RteKind::Subquery)));
    assert!(unused(l(), true, list(vec![])));
    assert!(unused(fixing_clauses(&[1]), true, relation(RteKind::Relation)));
    let mut join = clause(7, op(EQ, column(1), constant(1)));
    join.clause_relids = list(vec![1, 2]);
    let mixed = list(vec![join, clause(8, op(EQ, column(2), constant(1)))]);
    assert!(unused(mixed, true, relation(RteKind::Relation)));
}

use planner::distinctness::{
    find_cached_answer, innerrel_is_unique, innerrel_is_unique_ext, query_is_distinct_for,
    query_is_distinct_for_with_collations, query_supports_distinctness, rel_is_distinct_for,
    rel_supports_distinctness, select_usable_clauses, DistinctColumn, EqualityFacts, IndexFacts,
    QueryShape, RelFacts, SetOperation, UniqueAnswer, UniqueCache,
};
use planner::error::PlannerError;
use planner::expr::{Const, Expr, Head, TargetEntry, Var};
use planner::joinremoval::{
    add_vars_to_attr_needed, find_semijoin_clauses, find_semijoin_inner, join_is_removable,
    look_at, look_at_join, look_at_semijoin, rebuild_attr_needed, rebuild_joinclause_attr_needed,
    rebuild_placeholder_attr_needed, reduce_unique_semijoins, remove_join_clause_from_rels,
    remove_rel_from_joinlist, remove_useless_joins, resume_search, search_useless_joins, BaseRel,
    JoinSearch, JoinState, Joinlist, PlaceHolderUse, SemiFacts, SpecialJoin,
};
use planner::list::List;
use planner::rel::{JoinType, RelOptKind, RteKind};
use planner::restriction::{
    adjust_relid_set, clause_sides_match_join, remove_rel_from_restrictinfo, rename_relation,
    replace_relid_rinfo, restrict_infos_logically_equal, rinfo_is_pushed_down, Restriction,
};
use planner::selfjoin::{
    add_non_redundant_clauses, check_pair, describe_table, find_merging_clauses, find_pair_clauses,
    group_goes_on, look_at_pair, match_unique_clauses, remove_rel_from_eclass,
    remove_rel_from_query, remove_self_join_rel, remove_self_joins_one_group,
    remove_self_joins_recurse, remove_useless_self_joins, split_selfjoin_quals, update_eclasses,
    ClassMember, ClassState, RowMark, SelfJoinQuery, RELKIND_RELATION,
};
use planner::sortgroup::SortGroupClause;

fn list<T>(v: Vec<T>) -> List<T> {
    List::from_vec(v)
}

fn items<T>(l: List<T>) -> Vec<T> {
    let mut v = Vec::new();
    let mut rest = l;
    while let List::Cons(x, xs) = rest {
        v.push(x);
        rest = *xs;
    }
    v
}

fn shown<T: std::fmt::Debug>(x: &T) -> String {
    format!("{:?}", x)
}

fn column(varno: i32, attno: i16) -> Expr {
    Expr::Var(Var {
        varno,
        attno,
        typid: 23,
        typmod: -1,
        collation: 0,
        levelsup: 0,
        nullingrels: list(vec![]),
    })
}

fn constant(value: u64) -> Expr {
    Expr::Const(Const { typid: 23, collation: 0, value, isnull: false })
}

fn equal(a: Expr, b: Expr) -> Expr {
    Expr::Call {
        head: Head::Op { opno: 96, typid: 16, collation: 0, inputcollid: 0 },
        args: Box::new(list(vec![a, b])),
    }
}

fn restriction(id: u32, clause: Expr, left: Vec<u32>, right: Vec<u32>) -> Restriction {
    let mut both = left.clone();
    both.extend(right.iter());
    Restriction {
        id,
        serial: id as i32,
        clause,
        clause_relids: list(both.clone()),
        required_relids: list(both.clone()),
        left_relids: list(left),
        right_relids: list(right),
        outer_relids: list(vec![]),
        incompatible_relids: list(vec![]),
        pushed_down: false,
        has_clone: false,
        is_clone: false,
        can_join: true,
        mergeable: true,
        security_level: 0,
        parent_ec: None,
        num_base_rels: both.len() as i32,
        left_em: None,
        right_em: None,
    }
}

#[test]
fn relation_sets_are_adjusted() {
    assert_eq!(adjust_relid_set(&list(vec![1, 2]), 2, None).to_vec(), vec![1]);
    let r = adjust_relid_set(&list(vec![1, 2]), 2, Some(5)).to_vec();
    assert!(r.contains(&5) && r.contains(&1) && !r.contains(&2));
    assert_eq!(adjust_relid_set(&list(vec![1]), 2, Some(5)).to_vec(), vec![1]);
}

#[test]
fn relations_are_renamed_in_expressions() {
    let e = equal(column(2, 1), column(3, 1));
    assert_eq!(shown(&rename_relation(e, 2, Some(7))), shown(&equal(column(7, 1), column(3, 1))));
}

#[test]
fn clauses_and_their_sides() {
    let r = restriction(1, equal(column(1, 1), column(2, 1)), vec![1], vec![2]);
    let (a, b) = (list(vec![1]), list(vec![2]));
    assert_eq!(clause_sides_match_join(&r, &a, &b), Some(true));
    assert_eq!(clause_sides_match_join(&r, &b, &a), Some(false));
    assert_eq!(clause_sides_match_join(&r, &a, &list(vec![3])), None);
    assert!(!rinfo_is_pushed_down(&r, &list(vec![1, 2, 3])));
    assert!(rinfo_is_pushed_down(&r, &list(vec![1, 3])));
    let moved = replace_relid_rinfo(r, 2, 9);
    assert_eq!(shown(&moved.clause), shown(&equal(column(1, 1), column(9, 1))));
    assert_eq!(moved.right_relids.to_vec(), vec![9]);
    assert_eq!(moved.num_base_rels, 2);
}

#[test]
fn relations_of_a_clause_are_counted_anew() {
    let r = || restriction(1, equal(column(1, 1), column(2, 2)), vec![1], vec![2]);
    assert_eq!(replace_relid_rinfo(r(), 2, 1).num_base_rels, 1);
    assert_eq!(replace_relid_rinfo(r(), 2, 2).num_base_rels, 2);
    assert_eq!(replace_relid_rinfo(r(), 5, 1).num_base_rels, 2);
    let same = restriction(1, equal(column(1, 1), column(2, 1)), vec![1], vec![2]);
    let moved = replace_relid_rinfo(same, 2, 1);
    let test = Expr::Call {
        head: Head::NullTest { is_null: false },
        args: Box::new(list(vec![column(1, 1)])),
    };
    assert_eq!(shown(&moved.clause), shown(&test));
    assert!(!moved.mergeable);
}

#[test]
fn a_clause_without_a_relation() {
    let mut r = restriction(1, equal(column(1, 1), constant(4)), vec![1], vec![]);
    r.required_relids = list(vec![1, 2, 3]);
    let s = remove_rel_from_restrictinfo(r, 2, 3);
    assert_eq!(s.required_relids.to_vec(), vec![1]);
}

#[test]
fn clauses_that_say_the_same() {
    let r = |id| restriction(id, equal(column(1, 1), constant(4)), vec![1], vec![]);
    assert!(restrict_infos_logically_equal(&r(1), &r(1)));
    let mut other = r(1);
    other.clause = equal(column(1, 2), constant(4));
    assert!(!restrict_infos_logically_equal(&r(1), &other));
}

fn shape() -> QueryShape {
    QueryShape {
        has_target_srfs: false,
        distinct: list(vec![]),
        groups: list(vec![]),
        grouping_sets: list(vec![]),
        has_aggs: false,
        has_having: false,
        set_operation: None,
        tlist: list(vec![entry(column(1, 1), 1, 1), entry(column(1, 2), 2, 2)]),
    }
}

fn entry(expr: Expr, resno: i16, label: u32) -> TargetEntry {
    TargetEntry {
        expr,
        resno,
        resname: None,
        ressortgroupref: label,
        resorigtbl: 0,
        resorigcol: 0,
        resjunk: false,
    }
}

fn clause(r: u32) -> SortGroupClause {
    SortGroupClause {
        tle_sort_group_ref: r,
        eqop: 96,
        sortop: 97,
        reverse_sort: false,
        nulls_first: false,
        hashable: true,
    }
}

fn equality() -> EqualityFacts {
    EqualityFacts { operators: list(vec![(96, 96)]), collations: list(vec![(0, 0)]) }
}

fn distinct_on(q: &QueryShape, columns: Vec<i16>) -> Result<bool, PlannerError> {
    let ops = columns.iter().map(|_| 96).collect();
    query_is_distinct_for(q, &list(columns), &list(ops), &equality())
}

#[test]
fn queries_without_duplicates() {
    assert!(!query_supports_distinctness(&shape()));
    assert_eq!(distinct_on(&shape(), vec![1]), Ok(false));
    let mut q = shape();
    q.distinct = list(vec![clause(1)]);
    assert!(query_supports_distinctness(&q));
    assert_eq!(distinct_on(&q, vec![1]), Ok(true));
    assert_eq!(distinct_on(&q, vec![2, 1]), Ok(true));
    assert_eq!(distinct_on(&q, vec![2]), Ok(false));
    let mut q = shape();
    q.groups = list(vec![clause(1), clause(2)]);
    assert_eq!(distinct_on(&q, vec![1]), Ok(false));
    assert_eq!(distinct_on(&q, vec![1, 2]), Ok(true));
    q.has_target_srfs = true;
    assert!(!query_supports_distinctness(&q));
    assert_eq!(distinct_on(&q, vec![1, 2]), Ok(false));
    let mut q = shape();
    q.has_aggs = true;
    assert_eq!(distinct_on(&q, vec![]), Ok(true));
}

#[test]
fn grouping_sets_and_set_operations_without_duplicates() {
    let mut q = shape();
    q.grouping_sets = list(vec![true]);
    assert_eq!(distinct_on(&q, vec![1]), Ok(true));
    q.grouping_sets = list(vec![true, true]);
    assert_eq!(distinct_on(&q, vec![1]), Ok(false));
    let mut q = shape();
    q.set_operation =
        Some(SetOperation { all: false, clauses: list(vec![clause(1), clause(2)]) });
    assert_eq!(distinct_on(&q, vec![1, 2]), Ok(true));
    assert_eq!(distinct_on(&q, vec![1]), Ok(false));
    q.set_operation = Some(SetOperation { all: false, clauses: list(vec![clause(1)]) });
    assert_eq!(distinct_on(&q, vec![1, 2]), Err(PlannerError::TargetListLengthMismatch));
    q.set_operation = Some(SetOperation { all: true, clauses: list(vec![]) });
    assert_eq!(distinct_on(&q, vec![1, 2]), Ok(false));
}

#[test]
fn a_label_that_is_not_there() {
    let mut q = shape();
    q.distinct = list(vec![clause(5)]);
    assert_eq!(distinct_on(&q, vec![1]), Err(PlannerError::SortGroupRefNotFound));
}

#[test]
fn collations_have_to_agree() {
    let mut q = shape();
    q.distinct = list(vec![clause(1)]);
    let cols = |collation| list(vec![DistinctColumn { colno: 1, operator: 96, collation }]);
    assert_eq!(query_is_distinct_for_with_collations(&q, &cols(0), &equality()), Ok(true));
    assert_eq!(query_is_distinct_for_with_collations(&q, &cols(950), &equality()), Ok(false));
}

fn table_with(unique: bool, immediate: bool, partial: bool) -> RelFacts {
    RelFacts {
        reloptkind: RelOptKind::BaseRel,
        rtekind: RteKind::Relation,
        indexes: list(vec![IndexFacts { unique, immediate, partial }]),
        subquery: None,
    }
}

#[test]
fn relations_that_might_be_unique() {
    assert!(rel_supports_distinctness(&table_with(true, true, false)));
    assert!(!rel_supports_distinctness(&table_with(false, true, false)));
    assert!(!rel_supports_distinctness(&table_with(true, false, false)));
    assert!(!rel_supports_distinctness(&table_with(true, true, true)));
    let mut f = table_with(true, true, false);
    f.reloptkind = RelOptKind::JoinRel;
    assert!(!rel_supports_distinctness(&f));
}

#[test]
fn relations_that_are_unique() {
    let clauses = list(vec![
        restriction(1, equal(column(1, 4), column(2, 1)), vec![1], vec![2]),
        restriction(2, equal(column(3, 4), column(2, 1)), vec![3], vec![2]),
    ]);
    let usable = select_usable_clauses(
        &clauses,
        JoinType::Inner,
        &list(vec![1, 2]),
        &list(vec![1]),
        &list(vec![2]),
    );
    let table = table_with(true, true, false);
    assert_eq!(rel_is_distinct_for(&table, 2, &usable, true, &equality()), Ok(true));
    assert_eq!(rel_is_distinct_for(&table, 2, &usable, false, &equality()), Ok(false));
    let mut q = shape();
    q.distinct = list(vec![clause(1)]);
    let sub = RelFacts {
        reloptkind: RelOptKind::BaseRel,
        rtekind: RteKind::Subquery,
        indexes: list(vec![]),
        subquery: Some(q),
    };
    assert_eq!(rel_is_distinct_for(&sub, 2, &usable, false, &equality()), Ok(true));
    let usable = items(usable);
    assert_eq!(usable.len(), 1);
    assert!(usable[0].id == 1 && usable[0].outer_is_left);
}

fn no_answers() -> UniqueCache {
    UniqueCache { unique: list(vec![]), non_unique: list(vec![]) }
}

#[test]
fn answers_are_remembered() {
    let outer = list(vec![1]);
    let (r, cache) =
        innerrel_is_unique_ext(no_answers(), true, true, &outer, false, true, Some(list(vec![8])));
    assert_eq!(r.unwrap().to_vec(), vec![8]);
    let wider = list(vec![1, 4]);
    match find_cached_answer(&cache, true, true, &wider, false) {
        UniqueAnswer::Unique(l) => assert_eq!(l.to_vec(), vec![8]),
        _ => panic!("the answer is known"),
    }
    let (r, cache) = innerrel_is_unique(cache, true, true, &wider, true, false);
    assert!(r);
    let (r, cache) = innerrel_is_unique(cache, true, true, &list(vec![5, 6]), true, false);
    assert!(!r);
    let smaller = find_cached_answer(&cache, true, true, &list(vec![5]), false);
    assert!(matches!(smaller, UniqueAnswer::NotUnique));
    let other = find_cached_answer(&cache, true, true, &list(vec![7]), false);
    assert!(matches!(other, UniqueAnswer::Unknown));
    let without = find_cached_answer(&cache, true, false, &list(vec![7]), false);
    assert!(matches!(without, UniqueAnswer::NotUnique));
}

#[test]
fn failures_are_only_remembered_when_asked_to() {
    let (r, cache) = innerrel_is_unique(no_answers(), true, true, &list(vec![1]), false, false);
    assert!(!r);
    assert!(cache.non_unique.is_nil());
}

#[test]
fn a_relation_leaves_the_joinlist() {
    let sub = Joinlist::Sub(Box::new(list(vec![Joinlist::Rel(3)])));
    let l = list(vec![Joinlist::Rel(1), sub, Joinlist::Rel(2)]);
    let (l, n) = remove_rel_from_joinlist(l, 3);
    assert_eq!(n, 1);
    assert_eq!(shown(&l), shown(&list(vec![Joinlist::Rel(1), Joinlist::Rel(2)])));
    let (l, n) = remove_rel_from_joinlist(l, 7);
    assert_eq!(n, 0);
    assert_eq!(items(l).len(), 2);
    let twice = list(vec![Joinlist::Rel(4), Joinlist::Rel(4)]);
    assert_eq!(remove_rel_from_joinlist(twice, 4).1, 2);
}

fn left_join(outer: Vec<u32>, inner: Vec<u32>, ojrelid: u32) -> SpecialJoin {
    SpecialJoin {
        min_lefthand: list(outer.clone()),
        min_righthand: list(inner.clone()),
        syn_lefthand: list(outer),
        syn_righthand: list(inner),
        jointype: JoinType::Left,
        ojrelid,
        commute_above_l: list(vec![]),
        commute_above_r: list(vec![]),
        commute_below_l: list(vec![]),
        commute_below_r: list(vec![]),
        semi_rhs_exprs: list(vec![]),
    }
}

fn base(relid: u32, needed: Vec<u32>, joininfo: Vec<u32>) -> BaseRel {
    BaseRel {
        relid,
        min_attr: 1,
        attr_needed: list(vec![list(needed)]),
        joininfo: list(joininfo),
        restrictinfo: list(vec![]),
        lateral_vars: list(vec![]),
        target: list(vec![]),
        eclasses: list(vec![]),
    }
}

fn joined(needed: Vec<u32>) -> JoinState {
    let mut on = restriction(10, equal(column(1, 1), column(2, 1)), vec![1], vec![2]);
    on.outer_relids = list(vec![1]);
    JoinState {
        all_baserels: list(vec![1, 2]),
        all_query_rels: list(vec![1, 2, 3]),
        outer_join_rels: list(vec![3]),
        joins: list(vec![left_join(vec![1], vec![2], 3)]),
        placeholders: list(vec![]),
        rels: list(vec![base(1, vec![0], vec![10]), base(2, needed, vec![10])]),
        clauses: list(vec![on]),
    }
}

fn rels_1_and_2() -> List<Joinlist> {
    list(vec![Joinlist::Rel(1), Joinlist::Rel(2)])
}

#[test]
fn a_useless_left_join_is_removed() {
    let r = remove_useless_joins(joined(vec![1, 2]), rels_1_and_2(), 0, 0, true, true);
    let removal = r.unwrap().unwrap();
    assert_eq!(shown(&removal.joinlist), shown(&list(vec![Joinlist::Rel(1)])));
    assert_eq!(removal.state.all_baserels.to_vec(), vec![1]);
    assert_eq!(removal.state.all_query_rels.to_vec(), vec![1]);
    assert!(removal.state.outer_join_rels.is_nil());
    assert!(removal.state.joins.is_nil());
    let rels = items(removal.state.rels);
    assert_eq!(rels.len(), 1);
    assert!(rels[0].relid == 1 && rels[0].joininfo.is_nil());
}

#[test]
fn left_joins_that_stay() {
    let stays = |r: Result<_, PlannerError>| matches!(r, Ok(None));
    assert!(stays(remove_useless_joins(joined(vec![0]), rels_1_and_2(), 0, 0, true, true)));
    assert!(stays(remove_useless_joins(joined(vec![1]), rels_1_and_2(), 0, 2, true, true)));
    assert!(stays(remove_useless_joins(joined(vec![1]), rels_1_and_2(), 0, 0, false, true)));
    assert!(stays(remove_useless_joins(joined(vec![1]), rels_1_and_2(), 0, 0, true, false)));
    let r = remove_useless_joins(joined(vec![1]), list(vec![Joinlist::Rel(1)]), 0, 0, true, true);
    assert!(matches!(r, Err(PlannerError::RelationNotInJoinlist)));
}

#[test]
fn the_clauses_that_decide() {
    let state = joined(vec![1]);
    let sj = left_join(vec![1], vec![2], 3);
    let clauses = items(join_is_removable(&state, &sj, 0, true).unwrap());
    assert_eq!(clauses.len(), 1);
    assert_eq!(clauses[0].id, 10);
    let mut inner = left_join(vec![1], vec![2], 3);
    inner.jointype = JoinType::Semi;
    assert!(join_is_removable(&state, &inner, 0, true).is_none());
    assert!(join_is_removable(&state, &left_join(vec![1], vec![2, 4], 3), 0, true).is_none());
}

#[test]
fn a_placeholder_keeps_a_join() {
    let mut state = joined(vec![1]);
    state.placeholders = list(vec![PlaceHolderUse {
        phid: 1,
        eval_at: list(vec![2]),
        lateral: list(vec![]),
        needed: list(vec![0]),
        phrels: list(vec![2]),
        expr: constant(1),
    }]);
    assert!(join_is_removable(&state, &left_join(vec![1], vec![2], 3), 0, true).is_none());
}

#[test]
fn clauses_leave_the_relations_they_join() {
    let rels = list(vec![base(1, vec![], vec![4, 5]), base(2, vec![], vec![4])]);
    let r = items(remove_join_clause_from_rels(rels, 4, &list(vec![1])));
    assert_eq!(r[0].joininfo.to_vec(), vec![5]);
    assert_eq!(r[1].joininfo.to_vec(), vec![4]);
}

#[test]
fn semijoins_to_unique_relations() {
    let semi = || semijoin(vec![1], vec![2]);
    let facts = |possible, unique| list(vec![SemiFacts { possible, unique }]);
    assert!(reduce_unique_semijoins(list(vec![semi()]), &facts(true, true)).is_nil());
    assert_eq!(items(reduce_unique_semijoins(list(vec![semi()]), &facts(true, false))).len(), 1);
    assert_eq!(items(reduce_unique_semijoins(list(vec![semi()]), &facts(false, true))).len(), 1);
}

fn semijoin(left: Vec<u32>, right: Vec<u32>) -> SpecialJoin {
    let mut sj = left_join(left, right, 0);
    sj.jointype = JoinType::Semi;
    sj
}

#[test]
fn a_semijoin_goes_by_the_clauses_of_its_inner_relation() {
    let state = joined(vec![]);
    let sj = semijoin(vec![1], vec![2]);
    assert_eq!(find_semijoin_inner(&sj), Some(2));
    let implied =
        list(vec![restriction(11, equal(column(2, 2), column(1, 2)), vec![2], vec![1])]);
    let clauses = items(find_semijoin_clauses(&state, &sj, 2, &implied));
    let brief: Vec<(u32, bool)> = clauses.iter().map(|c| (c.id, c.outer_is_left)).collect();
    assert_eq!(brief, vec![(11, false), (10, true)]);
    let table = table_with(true, true, false);
    for says in [true, false] {
        let (f, cache) =
            look_at_semijoin(&state, &sj, &implied, &table, says, &equality(), no_answers())
                .unwrap();
        assert_eq!(f, SemiFacts { possible: true, unique: says });
        assert_eq!(items(cache.unique).len(), says as usize);
        assert_eq!(items(cache.non_unique).len(), !says as usize);
    }
    let joins = list(vec![semijoin(vec![1], vec![2])]);
    let f = SemiFacts { possible: true, unique: true };
    assert!(reduce_unique_semijoins(joins, &list(vec![f])).is_nil());
}

#[test]
fn a_subquery_under_a_semijoin_is_unique_by_implied_equalities() {
    let mut state = joined(vec![]);
    state.rels = list(vec![base(1, vec![], vec![]), base(2, vec![], vec![])]);
    let sj = semijoin(vec![1], vec![2]);
    let sub = |label| {
        let mut q = shape();
        q.distinct = list(vec![clause(label)]);
        RelFacts {
            reloptkind: RelOptKind::BaseRel,
            rtekind: RteKind::Subquery,
            indexes: list(vec![]),
            subquery: Some(q),
        }
    };
    let implied =
        || list(vec![restriction(11, equal(column(1, 1), column(2, 1)), vec![1], vec![2])]);
    let look = |implied, facts: &RelFacts, cache| {
        look_at_semijoin(&state, &sj, &implied, facts, false, &equality(), cache)
    };
    assert!(look(implied(), &sub(1), no_answers()).unwrap().0.unique);
    assert!(!look(implied(), &sub(2), no_answers()).unwrap().0.unique);
    // Without clauses nothing is tried, and nothing is remembered.
    let (f, cache) = look(list(vec![]), &sub(1), no_answers()).unwrap();
    assert!(f.possible && !f.unique);
    assert!(cache.unique.is_nil() && cache.non_unique.is_nil());
    // What is known beforehand answers, and no proof is tried.
    let bad = sub(5);
    assert!(matches!(
        look(implied(), &bad, no_answers()),
        Err(PlannerError::SortGroupRefNotFound)
    ));
    let known = UniqueCache { unique: list(vec![]), non_unique: list(vec![list(vec![1, 4])]) };
    assert!(!look(implied(), &bad, known).unwrap().0.unique);
}

#[test]
fn joins_that_are_no_reducible_semijoins() {
    let state = joined(vec![]);
    let table = table_with(true, true, false);
    for sj in [left_join(vec![1], vec![2], 3), semijoin(vec![1], vec![2, 4])] {
        let (f, _) =
            look_at_semijoin(&state, &sj, &list(vec![]), &table, true, &equality(), no_answers())
                .unwrap();
        assert_eq!(f, SemiFacts { possible: true, unique: false });
    }
    let hopeless = table_with(false, true, false);
    let sj = semijoin(vec![1], vec![2]);
    let (f, _) =
        look_at_semijoin(&state, &sj, &list(vec![]), &hopeless, true, &equality(), no_answers())
            .unwrap();
    assert_eq!(f, SemiFacts { possible: false, unique: false });
}

#[test]
fn needs_are_found_again() {
    let ph = PlaceHolderUse {
        phid: 1,
        eval_at: list(vec![1, 2]),
        lateral: list(vec![]),
        needed: list(vec![0]),
        phrels: list(vec![1, 2]),
        expr: equal(column(1, 1), column(2, 1)),
    };
    let r = items(rebuild_placeholder_attr_needed(&list(vec![ph])));
    assert_eq!(r.len(), 1);
    assert_eq!(r[0].1.to_vec(), vec![1, 2]);
    let clauses = list(vec![
        restriction(1, equal(column(1, 1), column(2, 1)), vec![1], vec![2]),
        restriction(1, equal(column(1, 1), column(2, 1)), vec![1], vec![2]),
        restriction(3, equal(column(1, 1), constant(1)), vec![1], vec![]),
    ]);
    let r = items(rebuild_joinclause_attr_needed(&clauses, &list(vec![1, 2]), list(vec![])));
    assert_eq!(r.len(), 1);
    assert_eq!(r[0].0, 1);
}

#[test]
fn clauses_between_a_table_and_itself() {
    let own = restriction(1, equal(column(1, 3), column(2, 3)), vec![1], vec![2]);
    let other = restriction(2, equal(column(1, 3), column(2, 4)), vec![1], vec![2]);
    let (own, others) = split_selfjoin_quals(list(vec![other, own]));
    assert_eq!(items(own)[0].id, 1);
    assert_eq!(items(others)[0].id, 2);
}

#[test]
fn both_sides_need_the_same_constants() {
    let outer = |v| list(vec![restriction(1, equal(column(1, 3), constant(v)), vec![1], vec![])]);
    let unique = list(vec![restriction(2, equal(constant(5), column(2, 3)), vec![], vec![2])]);
    assert_eq!(match_unique_clauses(&outer(5), 1, &unique, 2), Ok(true));
    assert_eq!(match_unique_clauses(&outer(6), 1, &unique, 2), Ok(false));
    let odd = list(vec![restriction(2, column(2, 3), vec![2], vec![])]);
    assert_eq!(match_unique_clauses(&outer(5), 1, &odd, 2), Err(PlannerError::NotAnOperatorClause));
}

#[test]
fn pairs_on_both_sides_of_an_outer_join_stay() {
    let joins = list(vec![left_join(vec![1, 4], vec![2], 3)]);
    let none = list(vec![]);
    assert!(check_pair(&joins, &none, 1, 4));
    assert!(!check_pair(&joins, &none, 1, 2));
    let marks = list(vec![RowMark { rti: 1, mark_type: 0 }, RowMark { rti: 4, mark_type: 2 }]);
    assert!(!check_pair(&joins, &marks, 1, 4));
}

#[test]
fn clauses_that_merge_two_relations() {
    let own = || restriction(1, equal(column(1, 3), column(2, 3)), vec![1], vec![2]);
    let other = || restriction(2, equal(column(1, 3), column(2, 4)), vec![1], vec![2]);
    let on_kept = || list(vec![restriction(5, equal(column(2, 3), constant(5)), vec![2], vec![])]);
    let none = list(vec![]);
    let joins = list(vec![]);
    let find = |between| find_merging_clauses(&joins, &none, 2, 1, list(between), on_kept());
    let (clauses, self_join) = find(vec![own()]).unwrap();
    let ids: Vec<u32> = items(clauses).iter().map(|c| c.id).collect();
    assert_eq!((ids, self_join), (vec![1, 5], true));
    let (clauses, self_join) = find(vec![other(), own()]).unwrap();
    assert_eq!((items(clauses).len(), self_join), (2, false));
    assert!(find(vec![]).is_none());
    let apart = list(vec![left_join(vec![1], vec![2], 3)]);
    assert!(find_merging_clauses(&apart, &none, 2, 1, list(vec![own()]), on_kept()).is_none());
}

#[test]
fn pairs_of_a_group_in_turn() {
    let mut at = (0, 1);
    let mut seen = vec![at];
    while let Some(next) = remove_self_joins_one_group(3, at, false) {
        at = next;
        seen.push(at);
    }
    assert_eq!(seen, vec![(0, 1), (0, 2), (1, 2)]);
    assert_eq!(remove_self_joins_one_group(3, (0, 1), true), Some((1, 2)));
    assert_eq!(remove_self_joins_one_group(3, (1, 2), true), None);
}

#[test]
fn groups_of_relations_on_one_table() {
    let fact = |relid, table, relkind| {
        describe_table(relid, table, RteKind::Relation, relkind, false, 0, 0)
    };
    let table = RELKIND_RELATION;
    let facts = list(vec![
        fact(1, 100, table),
        fact(2, 200, table),
        fact(3, 100, table),
        fact(4, 100, b'p'),
        fact(5, 100, table),
    ]);
    let rels = |v: &[u32]| v.iter().map(|&r| Joinlist::Rel(r)).collect::<Vec<_>>();
    let groups = items(remove_self_joins_recurse(&list(rels(&[1, 2, 3, 4])), &facts));
    assert_eq!(groups.len(), 1);
    assert_eq!(groups[0].to_vec(), vec![1, 3]);
    let mut nested = rels(&[1, 2]);
    nested.push(Joinlist::Sub(Box::new(list(rels(&[5, 3])))));
    let groups = items(remove_self_joins_recurse(&list(nested), &facts));
    assert_eq!(groups.len(), 1);
    assert_eq!(groups[0].to_vec(), vec![3, 5]);
    assert_eq!(group_goes_on(&list(vec![1, 3, 5]), &list(vec![3])).unwrap().to_vec(), vec![1, 5]);
    assert!(group_goes_on(&list(vec![1, 3]), &list(vec![3])).is_none());
}

#[test]
fn merged_relations_leave_the_joinlist() {
    let l = || list(vec![Joinlist::Rel(1), Joinlist::Rel(2), Joinlist::Rel(3)]);
    let r = remove_useless_self_joins(l(), true, &list(vec![3, 1])).unwrap();
    assert_eq!(shown(&r), shown(&list(vec![Joinlist::Rel(2)])));
    let r = remove_useless_self_joins(l(), false, &list(vec![3])).unwrap();
    assert_eq!(shown(&r), shown(&l()));
    let r = remove_useless_self_joins(l(), true, &list(vec![9]));
    assert!(matches!(r, Err(PlannerError::RelationNotInJoinlist)));
}

#[test]
fn redundant_clauses_are_not_added() {
    let r = |id, v| restriction(id, equal(column(1, 1), constant(v)), vec![1], vec![]);
    let added = items(add_non_redundant_clauses(
        list(vec![r(7, 1), r(8, 2)]),
        list(vec![r(7, 1)]),
    ));
    assert!(added.iter().any(|c| c.id == 8));
    assert_eq!(added.iter().filter(|c| c.id == 7).count() <= 1, true);
}

fn member(relid: u32, expr: Expr) -> ClassMember {
    ClassMember { relids: list(vec![relid]), expr, is_const: false, domain: 0 }
}

#[test]
fn classes_follow_a_merged_relation() {
    let ec = ClassState {
        relids: list(vec![1, 2]),
        members: list(vec![member(1, column(1, 1)), member(2, column(2, 1)), member(2, column(2, 5))]),
        sources: list(vec![]),
    };
    let (ec, _) = update_eclasses(ec, 2, 1);
    assert_eq!(ec.relids.to_vec(), vec![1]);
    let members = items(ec.members);
    assert_eq!(members.len(), 2);
    assert!(members.iter().all(|m| m.relids.to_vec() == vec![1]));
}

#[test]
fn classes_without_a_relation() {
    let ec = ClassState {
        relids: list(vec![1, 2]),
        members: list(vec![member(1, column(1, 1)), member(2, column(2, 1))]),
        sources: list(vec![]),
    };
    let ec = remove_rel_from_eclass(ec, 2, 1);
    assert_eq!(ec.relids.to_vec(), vec![1]);
}

#[test]
fn a_merged_relation_leaves_the_query() {
    let state = remove_rel_from_query(joined(vec![]), 2, 1);
    assert_eq!(state.all_baserels.to_vec(), vec![1]);
    assert!(!items(state.joins)[0].min_righthand.to_vec().contains(&2));
}

fn on_column_2(relid: u32) -> Restriction {
    restriction(relid, equal(column(relid as i32, 2), constant(4)), vec![relid], vec![])
}

fn self_joined(clauses: Vec<Restriction>, joininfo: Vec<u32>) -> SelfJoinQuery {
    let rel = |relid: u32| BaseRel {
        restrictinfo: list(vec![relid]),
        target: list(vec![column(relid as i32, relid as i16)]),
        ..base(relid, vec![0, relid], joininfo.clone())
    };
    let mut all = vec![on_column_2(1), on_column_2(2)];
    all.extend(clauses);
    SelfJoinQuery {
        state: JoinState {
            all_baserels: list(vec![1, 2]),
            all_query_rels: list(vec![1, 2]),
            outer_join_rels: list(vec![]),
            joins: list(vec![]),
            placeholders: list(vec![]),
            rels: list(vec![rel(1), rel(2)]),
            clauses: list(all),
        },
        classes: list(vec![]),
        domains: list(vec![]),
        marks: list(vec![]),
    }
}

#[test]
fn two_relations_become_one() {
    let mut q = self_joined(vec![], vec![]);
    q.marks = list(vec![RowMark { rti: 1, mark_type: 0 }, RowMark { rti: 2, mark_type: 0 }]);
    let merged = remove_self_join_rel(q, 1, 2, &list(vec![])).unwrap();
    let marks: Vec<u32> = items(merged.query.marks).iter().map(|m| m.rti).collect();
    assert_eq!(marks, vec![1]);
    assert_eq!(merged.query.state.all_baserels.to_vec(), vec![1]);
    let kept = items(merged.query.state.rels).swap_remove(0);
    assert_eq!(kept.relid, 1);
    assert_eq!(shown(&items(kept.target)), shown(&vec![column(1, 1), column(1, 2)]));
    // Only what the result needs is left.
    assert_eq!(items(kept.attr_needed)[0].to_vec(), vec![0]);
    // The other relation is under the same condition.
    assert!(merged.new_restrictions.is_nil());
    let q = self_joined(vec![], vec![]);
    let r = remove_self_join_rel(q, 1, 7, &list(vec![]));
    assert!(matches!(r, Err(PlannerError::UnknownRelation)));
}

#[test]
fn a_pair_that_is_one_row() {
    let own = || restriction(9, equal(column(1, 3), column(2, 3)), vec![1], vec![2]);
    let between = list(vec![9]);
    let q = || self_joined(vec![own()], vec![9]);
    let (clauses, self_join) = find_pair_clauses(&q(), 1, 2, &between).unwrap();
    assert_eq!(items(clauses).iter().map(|c| c.id).collect::<Vec<_>>(), vec![9, 2]);
    assert!(self_join);

    let members = vec![1, 2];
    let r = look_at_pair(q(), &members, (0, 1), &between, &None).unwrap();
    assert!(r.merged.is_none() && r.next.is_none());
    assert_eq!(shown(&r.query), shown(&q()));

    let r = look_at_pair(q(), &members, (0, 1), &between, &Some(list(vec![]))).unwrap();
    assert_eq!(r.query.state.all_baserels.to_vec(), vec![2]);
    let (new, joining) = r.merged.unwrap();
    let new = items(new);
    assert_eq!(new.iter().map(|c| c.id).collect::<Vec<_>>(), vec![9]);
    assert!(matches!(new[0].clause, Expr::Call { head: Head::NullTest { is_null: false }, .. }));
    assert!(joining.is_nil());
}

#[test]
fn a_pair_with_different_constants() {
    let own = || restriction(9, equal(column(1, 3), column(2, 3)), vec![1], vec![2]);
    let other = || restriction(8, equal(column(2, 2), constant(5)), vec![2], vec![]);
    let q = self_joined(vec![own(), other()], vec![9]);
    let r = look_at_pair(q, &vec![1, 2], (0, 1), &list(vec![9]), &Some(list(vec![8]))).unwrap();
    assert!(r.merged.is_none());
}

#[test]
fn later_pairs_of_a_merged_relation_are_passed_over() {
    let own = || restriction(9, equal(column(1, 3), column(2, 3)), vec![1], vec![2]);
    let q = || self_joined(vec![own()], vec![9]);
    let members = vec![1, 2, 6, 7];
    let between = list(vec![9]);
    let r = look_at_pair(q(), &members, (0, 1), &between, &Some(list(vec![]))).unwrap();
    assert_eq!(r.next, Some((1, 2)));
    let r = look_at_pair(q(), &members, (0, 1), &between, &None).unwrap();
    assert_eq!(r.next, Some((0, 2)));
}

#[test]
fn tables_that_are_not_merged() {
    let groups = |second| {
        let first = describe_table(1, 100, RteKind::Relation, RELKIND_RELATION, false, 0, 0);
        let l = list(vec![Joinlist::Rel(1), Joinlist::Rel(2)]);
        items(remove_self_joins_recurse(&l, &list(vec![first, second]))).len()
    };
    let table = RELKIND_RELATION;
    assert_eq!(groups(describe_table(2, 100, RteKind::Relation, table, false, 0, 0)), 1);
    assert_eq!(groups(describe_table(2, 100, RteKind::Relation, table, true, 0, 0)), 0);
    assert_eq!(groups(describe_table(2, 100, RteKind::Relation, table, false, 2, 0)), 0);
    assert_eq!(groups(describe_table(2, 100, RteKind::Relation, table, false, 0, 2)), 0);
    assert_eq!(groups(describe_table(2, 100, RteKind::Relation, b'v', false, 0, 0)), 0);
    assert_eq!(groups(describe_table(2, 100, RteKind::Subquery, table, false, 0, 0)), 0);
}

/// Two left joins of relation 1: to 2, which nothing else needs, and to 5,
/// which is joined to 7 above.
fn two_joins() -> JoinState {
    let mut on = restriction(10, equal(column(1, 1), column(2, 1)), vec![1], vec![2]);
    on.outer_relids = list(vec![1]);
    let mut other = restriction(11, equal(column(1, 1), column(5, 1)), vec![1], vec![5]);
    other.outer_relids = list(vec![1]);
    let mut above = restriction(12, equal(column(5, 1), column(7, 1)), vec![5], vec![7]);
    above.required_relids = list(vec![5, 6, 7]);
    above.pushed_down = true;
    JoinState {
        all_baserels: list(vec![1, 2, 5, 7]),
        all_query_rels: list(vec![1, 2, 3, 5, 6, 7]),
        outer_join_rels: list(vec![3, 6]),
        joins: list(vec![left_join(vec![1], vec![2], 3), left_join(vec![1], vec![5], 6)]),
        placeholders: list(vec![]),
        rels: list(vec![
            base(1, vec![0, 1, 2, 5], vec![10, 11]),
            base(2, vec![1, 2], vec![10]),
            base(5, vec![1, 5, 6, 7], vec![11, 12]),
            base(7, vec![5, 6, 7], vec![12]),
        ]),
        clauses: list(vec![on, other, above]),
    }
}

fn needs_of(state: &JoinState, relid: u32) -> Vec<u32> {
    let mut rels = &state.rels;
    while let List::Cons(x, xs) = rels {
        if x.relid == relid {
            match &x.attr_needed {
                List::Cons(first, _) => {
                    let mut v = first.to_vec();
                    v.sort();
                    return v;
                }
                List::Nil => panic!("a column"),
            }
        }
        rels = xs;
    }
    panic!("a relation")
}

#[test]
fn the_search_starts_again_with_all_needs() {
    let l = list([1, 2, 5, 7].map(Joinlist::Rel).into_iter().collect());
    let search = look_at(two_joins(), l, 0);
    let removal = match search_useless_joins(search, 0, true, true) {
        Ok(JoinSearch::Removed(r)) => r,
        other => panic!("{:?}", other),
    };
    assert!(!needs_of(&removal.state, 5).contains(&7));
    let search = resume_search(removal.state, removal.joinlist, &list(vec![]));
    match &search {
        JoinSearch::Looking { state, at, .. } => {
            assert_eq!(*at, 0);
            assert!(needs_of(state, 5).contains(&7));
            assert!(needs_of(state, 1).contains(&0));
            assert!(!needs_of(state, 1).contains(&2));
        }
        other => panic!("{:?}", other),
    }
    // The other join stays: its inner relation is needed above it.
    match search_useless_joins(search, 0, true, true) {
        Ok(JoinSearch::Done { state, .. }) => assert_eq!(items(state.joins).len(), 1),
        other => panic!("{:?}", other),
    }
}

#[test]
fn a_look_that_removes_nothing_goes_on() {
    let l = || list([1, 2, 5, 7].map(Joinlist::Rel).into_iter().collect());
    let search = search_useless_joins(look_at(two_joins(), l(), 0), 0, true, false).unwrap();
    assert!(matches!(search, JoinSearch::Looking { at: 1, .. }));
    let search = search_useless_joins(search, 0, true, true).unwrap();
    assert!(matches!(search, JoinSearch::Done { .. }));
    assert!(matches!(look_at(joined(vec![]), l(), 1), JoinSearch::Done { .. }));
}

#[test]
fn needs_of_columns_and_placeholders() {
    let mut state = joined(vec![]);
    state.placeholders = list(vec![PlaceHolderUse {
        phid: 4,
        eval_at: list(vec![2]),
        lateral: list(vec![]),
        needed: list(vec![]),
        phrels: list(vec![2]),
        expr: column(2, 1),
    }]);
    let ph = Expr::PlaceHolder {
        phid: 4,
        levelsup: 0,
        nullingrels: list(vec![]),
        eval_at: list(vec![2]),
        expr: Box::new(column(2, 1)),
    };
    let state = add_vars_to_attr_needed(state, &list(vec![column(2, 1), ph]), &list(vec![8]));
    assert_eq!(needs_of(&state, 2), vec![8]);
    assert_eq!(items(state.placeholders)[0].needed.to_vec(), vec![8]);
    let others = list(vec![(list(vec![column(2, 1)]), list(vec![5]))]);
    let state = rebuild_attr_needed(joined(vec![]), &others);
    assert_eq!(needs_of(&state, 2), vec![1, 2, 5]);
}

#[test]
fn a_join_is_removed_where_an_index_shows_uniqueness() {
    let looks = |inner: &RelFacts, index_says| {
        let search = look_at(joined(vec![1, 2]), rels_1_and_2(), 0);
        look_at_join(search, 0, inner, index_says, &equality()).unwrap()
    };
    let table = table_with(true, true, false);
    assert!(matches!(looks(&table, true), JoinSearch::Removed(_)));
    assert!(matches!(looks(&table, false), JoinSearch::Done { .. }));
    assert!(matches!(looks(&table_with(true, true, true), true), JoinSearch::Done { .. }));
    let mut q = shape();
    q.distinct = list(vec![clause(1)]);
    let sub = |q| RelFacts {
        reloptkind: RelOptKind::BaseRel,
        rtekind: RteKind::Subquery,
        indexes: list(vec![]),
        subquery: Some(q),
    };
    assert!(matches!(looks(&sub(q), false), JoinSearch::Removed(_)));
    let mut q = shape();
    q.distinct = list(vec![clause(1), clause(2)]);
    assert!(matches!(looks(&sub(q), false), JoinSearch::Done { .. }));
    let mut q = shape();
    q.distinct = list(vec![clause(5)]);
    let search = look_at(joined(vec![1, 2]), rels_1_and_2(), 0);
    let r = look_at_join(search, 0, &sub(q), false, &equality());
    assert!(matches!(r, Err(PlannerError::SortGroupRefNotFound)));
}

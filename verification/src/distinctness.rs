//! Proofs that a relation has at most one row for each row of another.
use vstd::prelude::*;
use crate::error::PlannerError;
use crate::expr::{expr_collation, Expr, Head, TargetEntry};
use crate::list::List;
use crate::rel::{is_outer_join, JoinType, RelOptKind, RteKind};
use crate::relids::{relids_equal, relids_is_subset, Relids};
use crate::restriction::{clause_sides_match_join, rinfo_is_pushed_down, Restriction};
use crate::sortgroup::SortGroupClause;
use crate::tlist::sortgroupref_tle;

verus! {

/// A set operation at the top of a query.
#[derive(Debug)]
pub struct SetOperation {
    /// Duplicates are kept.
    pub all: bool,
    pub clauses: List<SortGroupClause>,
}

/// What a query says about duplicates.
#[derive(Debug)]
pub struct QueryShape {
    pub has_target_srfs: bool,
    pub distinct: List<SortGroupClause>,
    pub groups: List<SortGroupClause>,
    /// For each grouping set whether it is the empty one.
    pub grouping_sets: List<bool>,
    pub has_aggs: bool,
    pub has_having: bool,
    pub set_operation: Option<SetOperation>,
    pub tlist: List<TargetEntry>,
}

/// The query can be without duplicates in some of its columns. Columns that
/// return sets may duplicate rows unless DISTINCT comes after them.
pub open spec fn supports_distinctness(q: QueryShape) -> bool {
    &&& !(q.has_target_srfs && q.distinct is Nil)
    &&& !(q.distinct is Nil) || !(q.groups is Nil) || !(q.grouping_sets is Nil) || q.has_aggs
        || q.has_having || q.set_operation is Some
}

/// Can the query be without duplicates in some of its columns?
pub fn query_supports_distinctness(q: &QueryShape) -> (r: bool)
    ensures
        r == supports_distinctness(*q),
{
    if q.has_target_srfs && q.distinct.is_nil() {
        return false;
    }
    !q.distinct.is_nil() || !q.groups.is_nil() || !q.grouping_sets.is_nil() || q.has_aggs
        || q.has_having || q.set_operation.is_some()
}

/// Which equality operators agree with each other, and which collations agree
/// on what is equal.
#[derive(Debug)]
pub struct EqualityFacts {
    pub operators: List<(u32, u32)>,
    pub collations: List<(u32, u32)>,
}

/// The pair is listed.
pub open spec fn has_pair(l: List<(u32, u32)>, a: u32, b: u32) -> bool {
    l@.contains((a, b))
}

fn find_pair(l: &List<(u32, u32)>, a: u32, b: u32) -> (r: bool)
    ensures
        r == has_pair(*l, a, b),
    decreases l,
{
    match l {
        List::Nil => {
            proof {
                let none: List<(u32, u32)> = List::Nil;
                assert(none@.len() == 0);
            }
            false
        },
        List::Cons(x, xs) => {
            proof {
                crate::list::lemma_cons_contains(*x, **xs, (a, b));
            }
            (x.0 == a && x.1 == b) || find_pair(xs, a, b)
        },
    }
}

/// A column that is compared from outside the query.
#[derive(Clone, Copy, Debug, PartialEq, Eq, Structural)]
pub struct DistinctColumn {
    pub colno: i16,
    pub operator: u32,
    pub collation: u32,
}

/// The first comparison of a column.
pub open spec fn column_compared(cols: List<DistinctColumn>, colno: i16) -> Option<DistinctColumn>
    decreases cols,
{
    match cols {
        List::Nil => None,
        List::Cons(c, cs) => if c.colno == colno {
            Some(c)
        } else {
            column_compared(*cs, colno)
        },
    }
}

fn distinct_col_search(cols: &List<DistinctColumn>, colno: i16) -> (r: Option<DistinctColumn>)
    ensures
        r == column_compared(*cols, colno),
    decreases cols,
{
    match cols {
        List::Nil => None,
        List::Cons(c, cs) => if c.colno == colno {
            Some(*c)
        } else {
            distinct_col_search(cs, colno)
        },
    }
}

/// The column is compared from outside in a way that agrees with the query on
/// what is equal.
pub open spec fn column_agrees(
    t: TargetEntry,
    eqop: u32,
    cols: List<DistinctColumn>,
    facts: EqualityFacts,
) -> bool {
    match column_compared(cols, t.resno) {
        None => false,
        Some(c) => has_pair(facts.operators, c.operator, eqop) && has_pair(
            facts.collations,
            c.collation,
            crate::expr::collation_of(t.expr),
        ),
    }
}

fn check_column(
    t: &TargetEntry,
    eqop: u32,
    cols: &List<DistinctColumn>,
    facts: &EqualityFacts,
) -> (r: bool)
    ensures
        r == column_agrees(*t, eqop, *cols, *facts),
{
    match distinct_col_search(cols, t.resno) {
        None => false,
        Some(c) => find_pair(&facts.operators, c.operator, eqop) && find_pair(
            &facts.collations,
            c.collation,
            expr_collation(&t.expr),
        ),
    }
}

/// All columns of the clauses are compared from outside.
pub open spec fn clauses_agree(
    clauses: List<SortGroupClause>,
    tlist: List<TargetEntry>,
    cols: List<DistinctColumn>,
    facts: EqualityFacts,
) -> Result<bool, PlannerError>
    decreases clauses,
{
    match clauses {
        List::Nil => Ok(true),
        List::Cons(c, cs) => match crate::tlist::entry_for_ref(tlist, c.tle_sort_group_ref) {
            None => Err(PlannerError::SortGroupRefNotFound),
            Some(t) => if column_agrees(t, c.eqop, cols, facts) {
                clauses_agree(*cs, tlist, cols, facts)
            } else {
                Ok(false)
            },
        },
    }
}

fn check_clauses(
    clauses: &List<SortGroupClause>,
    tlist: &List<TargetEntry>,
    cols: &List<DistinctColumn>,
    facts: &EqualityFacts,
) -> (r: Result<bool, PlannerError>)
    ensures
        r == clauses_agree(*clauses, *tlist, *cols, *facts),
    decreases clauses,
{
    match clauses {
        List::Nil => Ok(true),
        List::Cons(c, cs) => match sortgroupref_tle(c.tle_sort_group_ref, tlist) {
            None => Err(PlannerError::SortGroupRefNotFound),
            Some(t) => if check_column(t, c.eqop, cols, facts) {
                check_clauses(cs, tlist, cols, facts)
            } else {
                Ok(false)
            },
        },
    }
}

/// All result columns of a set operation are compared from outside.
pub open spec fn setop_agrees(
    tlist: List<TargetEntry>,
    clauses: List<SortGroupClause>,
    cols: List<DistinctColumn>,
    facts: EqualityFacts,
) -> Result<bool, PlannerError>
    decreases tlist,
{
    match tlist {
        List::Nil => Ok(true),
        List::Cons(t, ts) => if t.resjunk {
            setop_agrees(*ts, clauses, cols, facts)
        } else {
            match clauses {
                List::Nil => Err(PlannerError::TargetListLengthMismatch),
                List::Cons(c, cs) => if column_agrees(t, c.eqop, cols, facts) {
                    setop_agrees(*ts, *cs, cols, facts)
                } else {
                    Ok(false)
                },
            }
        },
    }
}

fn check_setop(
    tlist: &List<TargetEntry>,
    clauses: &List<SortGroupClause>,
    cols: &List<DistinctColumn>,
    facts: &EqualityFacts,
) -> (r: Result<bool, PlannerError>)
    ensures
        r == setop_agrees(*tlist, *clauses, *cols, *facts),
    decreases tlist,
{
    match tlist {
        List::Nil => Ok(true),
        List::Cons(t, ts) => {
            if t.resjunk {
                return check_setop(ts, clauses, cols, facts);
            }
            match clauses {
                List::Nil => Err(PlannerError::TargetListLengthMismatch),
                List::Cons(c, cs) => if check_column(t, c.eqop, cols, facts) {
                    check_setop(ts, cs, cols, facts)
                } else {
                    Ok(false)
                },
            }
        },
    }
}

/// What a query is without duplicates by, apart from DISTINCT.
pub open spec fn distinct_by_rest(
    q: QueryShape,
    cols: List<DistinctColumn>,
    facts: EqualityFacts,
) -> Result<bool, PlannerError> {
    match q.set_operation {
        Some(s) if !s.all => setop_agrees(q.tlist, s.clauses, cols, facts),
        _ => Ok(false),
    }
}

/// No two rows of the query are equal in the columns that are compared from
/// outside: DISTINCT, or the grouping, sees to it, or there is only one row, or
/// a set operation sees to it.
pub open spec fn distinct_for(
    q: QueryShape,
    cols: List<DistinctColumn>,
    facts: EqualityFacts,
) -> Result<bool, PlannerError> {
    let by_distinct = if q.distinct is Nil {
        Ok(false)
    } else {
        clauses_agree(q.distinct, q.tlist, cols, facts)
    };
    match by_distinct {
        Err(e) => Err(e),
        Ok(true) => Ok(true),
        Ok(false) => if q.has_target_srfs {
            Ok(false)
        } else if !(q.groups is Nil) && q.grouping_sets is Nil {
            match clauses_agree(q.groups, q.tlist, cols, facts) {
                Err(e) => Err(e),
                Ok(true) => Ok(true),
                Ok(false) => distinct_by_rest(q, cols, facts),
            }
        } else if !(q.grouping_sets is Nil) {
            Ok(
                q.groups is Nil && (q.grouping_sets matches List::Cons(empty, more) && *more is Nil
                    && empty),
            )
        } else if q.has_aggs || q.has_having {
            Ok(true)
        } else {
            distinct_by_rest(q, cols, facts)
        },
    }
}

fn check_rest(q: &QueryShape, cols: &List<DistinctColumn>, facts: &EqualityFacts) -> (r: Result<
    bool,
    PlannerError,
>)
    ensures
        r == distinct_by_rest(*q, *cols, *facts),
{
    match &q.set_operation {
        Some(s) => if s.all {
            Ok(false)
        } else {
            check_setop(&q.tlist, &s.clauses, cols, facts)
        },
        None => Ok(false),
    }
}

/// Are no two rows of the query equal in the columns that are compared from
/// outside, under operators and collations that agree with those of the query?
pub fn query_is_distinct_for_with_collations(
    q: &QueryShape,
    cols: &List<DistinctColumn>,
    facts: &EqualityFacts,
) -> (r: Result<bool, PlannerError>)
    ensures
        r == distinct_for(*q, *cols, *facts),
{
    if !q.distinct.is_nil() {
        match check_clauses(&q.distinct, &q.tlist, cols, facts) {
            Err(e) => {
                return Err(e);
            },
            Ok(b) => {
                if b {
                    return Ok(true);
                }
            },
        }
    }
    if q.has_target_srfs {
        return Ok(false);
    }
    if !q.groups.is_nil() && q.grouping_sets.is_nil() {
        match check_clauses(&q.groups, &q.tlist, cols, facts) {
            Err(e) => {
                return Err(e);
            },
            Ok(b) => {
                if b {
                    return Ok(true);
                }
            },
        }
    } else if !q.grouping_sets.is_nil() {
        let one_empty = match &q.grouping_sets {
            List::Cons(empty, more) => more.is_nil() && *empty,
            List::Nil => false,
        };
        return Ok(q.groups.is_nil() && one_empty);
    } else if q.has_aggs || q.has_having {
        return Ok(true);
    }
    check_rest(q, cols, facts)
}

/// The columns and operators that are compared, whatever the collation.
pub open spec fn compared_columns(colnos: List<i16>, operators: List<u32>) -> List<DistinctColumn>
    decreases colnos,
{
    match (colnos, operators) {
        (List::Cons(c, cs), List::Cons(o, os)) => List::Cons(
            DistinctColumn { colno: c, operator: o, collation: 0 },
            Box::new(compared_columns(*cs, *os)),
        ),
        _ => List::Nil,
    }
}

fn list_columns(colnos: &List<i16>, operators: &List<u32>) -> (r: List<DistinctColumn>)
    ensures
        r == compared_columns(*colnos, *operators),
    decreases colnos,
{
    match colnos {
        List::Nil => List::Nil,
        List::Cons(c, cs) => match operators {
            List::Nil => List::Nil,
            List::Cons(o, os) => List::Cons(
                DistinctColumn { colno: *c, operator: *o, collation: 0 },
                Box::new(list_columns(cs, os)),
            ),
        },
    }
}

/// Are no two rows of the query equal in the columns that are compared from
/// outside, whatever the collation?
pub fn query_is_distinct_for(
    q: &QueryShape,
    colnos: &List<i16>,
    operators: &List<u32>,
    facts: &EqualityFacts,
) -> (r: Result<bool, PlannerError>)
    ensures
        r == distinct_for(*q, compared_columns(*colnos, *operators), *facts),
{
    let cols = list_columns(colnos, operators);
    query_is_distinct_for_with_collations(q, &cols, facts)
}

/// A query without DISTINCT, grouping, aggregates, HAVING and set operation is
/// never without duplicates, whatever is compared: the test beforehand is
/// right to give up.
pub proof fn lemma_supports_needed(
    q: QueryShape,
    cols: List<DistinctColumn>,
    facts: EqualityFacts,
)
    requires
        !supports_distinctness(q),
    ensures
        distinct_for(q, cols, facts) == Ok::<bool, PlannerError>(false),
{
}

/// An index, as far as uniqueness goes.
#[derive(Clone, Copy, Debug, PartialEq, Eq, Structural)]
pub struct IndexFacts {
    pub unique: bool,
    /// It is enforced at once.
    pub immediate: bool,
    /// It covers only some rows.
    pub partial: bool,
}

/// A relation, as far as uniqueness goes.
#[derive(Debug)]
pub struct RelFacts {
    pub reloptkind: RelOptKind,
    pub rtekind: RteKind,
    pub indexes: List<IndexFacts>,
    pub subquery: Option<QueryShape>,
}

/// Some index makes rows unique.
pub open spec fn has_unique_index(l: List<IndexFacts>) -> bool {
    exists|i: int| 0 <= i < l@.len() && l@[i].unique && l@[i].immediate && !l@[i].partial
}

fn find_unique_index(l: &List<IndexFacts>) -> (r: bool)
    ensures
        r == has_unique_index(*l),
    decreases l,
{
    match l {
        List::Nil => {
            proof {
                let none: List<IndexFacts> = List::Nil;
                assert(none@.len() == 0);
            }
            false
        },
        List::Cons(x, xs) => {
            let rest = find_unique_index(xs);
            proof {
                assert(l@[0] == *x);
                assert(forall|i: int| 0 <= i < xs@.len() ==> l@[i + 1] == #[trigger] xs@[i]);
                if rest {
                    let i = choose|i: int|
                        0 <= i < xs@.len() && xs@[i].unique && xs@[i].immediate && !xs@[i].partial;
                    assert(l@[i + 1] == xs@[i]);
                }
                if has_unique_index(*l) && !rest {
                    let i = choose|i: int|
                        0 <= i < l@.len() && l@[i].unique && l@[i].immediate && !l@[i].partial;
                    if i > 0 {
                        assert(xs@[i - 1] == l@[i]);
                    }
                }
            }
            (x.unique && x.immediate && !x.partial) || rest
        },
    }
}

/// The relation might be proved unique.
pub open spec fn rel_distinct_possible(f: RelFacts) -> bool {
    &&& f.reloptkind == RelOptKind::BaseRel
    &&& (f.rtekind == RteKind::Relation && has_unique_index(f.indexes)) || (f.rtekind
        == RteKind::Subquery && (f.subquery matches Some(q) && supports_distinctness(q)))
}

/// Might the relation be proved unique?
pub fn rel_supports_distinctness(f: &RelFacts) -> (r: bool)
    ensures
        r == rel_distinct_possible(*f),
{
    if f.reloptkind != RelOptKind::BaseRel {
        return false;
    }
    if f.rtekind == RteKind::Relation {
        return find_unique_index(&f.indexes);
    }
    if f.rtekind == RteKind::Subquery {
        return match &f.subquery {
            Some(q) => query_supports_distinctness(q),
            None => false,
        };
    }
    false
}

/// A clause that can prove uniqueness, with the side that belongs to the outer
/// relations.
#[derive(Debug)]
pub struct UsableClause {
    pub id: u32,
    pub clause: Expr,
    pub outer_is_left: bool,
}

/// The clauses of a join that can prove its inner side unique: equalities
/// between the two sides that belong to the join itself.
pub open spec fn usable_clauses(
    clauses: List<Restriction>,
    jointype: JoinType,
    joinrelids: Relids,
    outer: Relids,
    inner: Relids,
) -> List<UsableClause>
    decreases clauses,
{
    match clauses {
        List::Nil => List::Nil,
        List::Cons(c, cs) => {
            let rest = usable_clauses(*cs, jointype, joinrelids, outer, inner);
            if (crate::rel::is_outer_jointype(jointype) && crate::restriction::is_pushed_down(
                c,
                joinrelids,
            )) || !c.can_join || !c.mergeable {
                rest
            } else {
                match crate::restriction::outer_is_left(c, outer, inner) {
                    None => rest,
                    Some(left) => List::Cons(
                        UsableClause { id: c.id, clause: c.clause, outer_is_left: left },
                        Box::new(rest),
                    ),
                }
            }
        },
    }
}

/// Selects the clauses of a join that can prove its inner side unique.
pub fn select_usable_clauses(
    clauses: &List<Restriction>,
    jointype: JoinType,
    joinrelids: &Relids,
    outer: &Relids,
    inner: &Relids,
) -> (r: List<UsableClause>)
    ensures
        r == usable_clauses(*clauses, jointype, *joinrelids, *outer, *inner),
    decreases clauses,
{
    match clauses {
        List::Nil => List::Nil,
        List::Cons(c, cs) => {
            let rest = select_usable_clauses(cs, jointype, joinrelids, outer, inner);
            if is_outer_join(jointype) && rinfo_is_pushed_down(c, joinrelids) {
                return rest;
            }
            if !c.can_join || !c.mergeable {
                return rest;
            }
            match clause_sides_match_join(c, outer, inner) {
                None => rest,
                Some(left) => List::Cons(
                    UsableClause { id: c.id, clause: c.clause.copy(), outer_is_left: left },
                    Box::new(rest),
                ),
            }
        },
    }
}

/// What a clause compares of the relation: the inner operand, if it is a
/// column of it.
pub open spec fn compared_column(c: UsableClause, varno: i32) -> Result<
    Option<DistinctColumn>,
    PlannerError,
> {
    match c.clause {
        Expr::Call { head, args } => match head {
            Head::Op { opno, typid, collation, inputcollid } => match *args {
                List::Cons(a, rest) => match *rest {
                    List::Cons(b, _) => {
                        let side = crate::expr::unlabelled(
                            if c.outer_is_left {
                                b
                            } else {
                                a
                            },
                        );
                        match side {
                            Expr::Var(v) => if v.varno == varno && v.levelsup == 0 {
                                Ok(
                                    Some(
                                        DistinctColumn {
                                            colno: v.attno,
                                            operator: opno,
                                            collation: inputcollid,
                                        },
                                    ),
                                )
                            } else {
                                Ok(None)
                            },
                            _ => Ok(None),
                        }
                    },
                    List::Nil => Err(PlannerError::NotAnOperatorClause),
                },
                List::Nil => Err(PlannerError::NotAnOperatorClause),
            },
            _ => Err(PlannerError::NotAnOperatorClause),
        },
        _ => Err(PlannerError::NotAnOperatorClause),
    }
}

fn find_compared_column(c: &UsableClause, varno: i32) -> (r: Result<
    Option<DistinctColumn>,
    PlannerError,
>)
    ensures
        r == compared_column(*c, varno),
{
    match &c.clause {
        Expr::Call { head, args } => match head {
            Head::Op { opno, inputcollid, .. } => match &**args {
                List::Cons(a, rest) => match &**rest {
                    List::Cons(b, _) => {
                        let side = if c.outer_is_left {
                            b
                        } else {
                            a
                        };
                        match crate::expr::strip_label(side) {
                            Expr::Var(v) => if v.varno == varno && v.levelsup == 0 {
                                Ok(
                                    Some(
                                        DistinctColumn {
                                            colno: v.attno,
                                            operator: *opno,
                                            collation: *inputcollid,
                                        },
                                    ),
                                )
                            } else {
                                Ok(None)
                            },
                            _ => Ok(None),
                        }
                    },
                    List::Nil => Err(PlannerError::NotAnOperatorClause),
                },
                List::Nil => Err(PlannerError::NotAnOperatorClause),
            },
            _ => Err(PlannerError::NotAnOperatorClause),
        },
        _ => Err(PlannerError::NotAnOperatorClause),
    }
}

/// What the clauses compare of the relation.
pub open spec fn columns_of_clauses(clauses: List<UsableClause>, varno: i32) -> Result<
    List<DistinctColumn>,
    PlannerError,
>
    decreases clauses,
{
    match clauses {
        List::Nil => Ok(List::Nil),
        List::Cons(c, cs) => match compared_column(c, varno) {
            Err(e) => Err(e),
            Ok(first) => match columns_of_clauses(*cs, varno) {
                Err(e) => Err(e),
                Ok(rest) => Ok(
                    match first {
                        Some(col) => List::Cons(col, Box::new(rest)),
                        None => rest,
                    },
                ),
            },
        },
    }
}

fn collect_columns(clauses: &List<UsableClause>, varno: i32) -> (r: Result<
    List<DistinctColumn>,
    PlannerError,
>)
    ensures
        r == columns_of_clauses(*clauses, varno),
    decreases clauses,
{
    match clauses {
        List::Nil => Ok(List::Nil),
        List::Cons(c, cs) => {
            let first = match find_compared_column(c, varno) {
                Err(e) => {
                    return Err(e);
                },
                Ok(f) => f,
            };
            let rest = match collect_columns(cs, varno) {
                Err(e) => {
                    return Err(e);
                },
                Ok(l) => l,
            };
            match first {
                Some(col) => Ok(List::Cons(col, Box::new(rest))),
                None => Ok(rest),
            }
        },
    }
}

/// The relation has at most one row for given values of what the clauses
/// compare. For a table that is what its unique indexes say.
pub open spec fn rel_distinct_for(
    f: RelFacts,
    varno: i32,
    clauses: List<UsableClause>,
    index_says: bool,
    facts: EqualityFacts,
) -> Result<bool, PlannerError> {
    if f.reloptkind != RelOptKind::BaseRel {
        Ok(false)
    } else if f.rtekind == RteKind::Relation {
        Ok(index_says)
    } else if f.rtekind == RteKind::Subquery {
        match f.subquery {
            None => Ok(false),
            Some(q) => match columns_of_clauses(clauses, varno) {
                Err(e) => Err(e),
                Ok(cols) => distinct_for(q, cols, facts),
            },
        }
    } else {
        Ok(false)
    }
}

/// Has the relation at most one row for given values of what the clauses
/// compare? `index_says` is what the unique indexes of a table say.
pub fn rel_is_distinct_for(
    f: &RelFacts,
    varno: i32,
    clauses: &List<UsableClause>,
    index_says: bool,
    facts: &EqualityFacts,
) -> (r: Result<bool, PlannerError>)
    ensures
        r == rel_distinct_for(*f, varno, *clauses, index_says, *facts),
{
    if f.reloptkind != RelOptKind::BaseRel {
        return Ok(false);
    }
    if f.rtekind == RteKind::Relation {
        return Ok(index_says);
    }
    if f.rtekind == RteKind::Subquery {
        return match &f.subquery {
            None => Ok(false),
            Some(q) => match collect_columns(clauses, varno) {
                Err(e) => Err(e),
                Ok(cols) => query_is_distinct_for_with_collations(q, &cols, facts),
            },
        };
    }
    Ok(false)
}

/// A proof that a relation is unique for given outer relations.
#[derive(Debug)]
pub struct UniqueFor {
    pub outerrelids: Relids,
    /// It was made for joining a table with itself, from some clauses only.
    pub self_join: bool,
    pub extra_clauses: List<u32>,
}

/// What has been found out about a relation.
#[derive(Debug)]
pub struct UniqueCache {
    pub unique: List<UniqueFor>,
    pub non_unique: List<Relids>,
}

/// A proof that covers the outer relations. One for fewer relations holds for
/// more; for joining a table with itself it has to be made for just that.
pub open spec fn covers(u: UniqueFor, outer: Relids, self_join: bool) -> bool {
    if self_join {
        u.self_join && crate::relids::ids(u.outerrelids) == crate::relids::ids(outer)
    } else {
        crate::relids::ids(u.outerrelids).subset_of(crate::relids::ids(outer))
    }
}

fn check_covers(u: &UniqueFor, outer: &Relids, self_join: bool) -> (r: bool)
    ensures
        r == covers(*u, *outer, self_join),
{
    if self_join {
        u.self_join && relids_equal(&u.outerrelids, outer)
    } else {
        relids_is_subset(&u.outerrelids, outer)
    }
}

/// The first proof that covers the outer relations.
pub open spec fn known_unique(l: List<UniqueFor>, outer: Relids, self_join: bool) -> Option<
    List<u32>,
>
    decreases l,
{
    match l {
        List::Nil => None,
        List::Cons(u, us) => if covers(u, outer, self_join) {
            Some(u.extra_clauses)
        } else {
            known_unique(*us, outer, self_join)
        },
    }
}

fn find_unique(l: &List<UniqueFor>, outer: &Relids, self_join: bool) -> (r: Option<List<u32>>)
    ensures
        r == known_unique(*l, *outer, self_join),
    decreases l,
{
    match l {
        List::Nil => None,
        List::Cons(u, us) => if check_covers(u, outer, self_join) {
            Some(u.extra_clauses.copy())
        } else {
            find_unique(us, outer, self_join)
        },
    }
}

/// It was found that more outer relations than these do not do.
pub open spec fn known_non_unique(l: List<Relids>, outer: Relids) -> bool
    decreases l,
{
    match l {
        List::Nil => false,
        List::Cons(x, xs) => crate::relids::ids(outer).subset_of(crate::relids::ids(x))
            || known_non_unique(*xs, outer),
    }
}

fn find_non_unique(l: &List<Relids>, outer: &Relids) -> (r: bool)
    ensures
        r == known_non_unique(*l, *outer),
    decreases l,
{
    match l {
        List::Nil => false,
        List::Cons(x, xs) => relids_is_subset(outer, x) || find_non_unique(xs, outer),
    }
}

/// What is known beforehand of whether an inner relation is unique.
#[derive(Debug)]
pub enum UniqueAnswer {
    /// It is, with the clauses that the proof rests on beside those of the
    /// join.
    Unique(List<u32>),
    NotUnique,
    /// It has to be found out.
    Unknown,
}

/// What is known beforehand of whether an inner relation is unique.
pub open spec fn cached_answer(
    cache: UniqueCache,
    possible: bool,
    has_clauses: bool,
    outer: Relids,
    self_join: bool,
) -> UniqueAnswer {
    if !has_clauses || !possible {
        UniqueAnswer::NotUnique
    } else {
        match known_unique(cache.unique, outer, self_join) {
            Some(extra) => UniqueAnswer::Unique(extra),
            None => if known_non_unique(cache.non_unique, outer) {
                UniqueAnswer::NotUnique
            } else {
                UniqueAnswer::Unknown
            },
        }
    }
}

/// Finds what is known beforehand of whether an inner relation is unique.
pub fn find_cached_answer(
    cache: &UniqueCache,
    possible: bool,
    has_clauses: bool,
    outer: &Relids,
    self_join: bool,
) -> (r: UniqueAnswer)
    ensures
        r == cached_answer(*cache, possible, has_clauses, *outer, self_join),
{
    if !has_clauses || !possible {
        return UniqueAnswer::NotUnique;
    }
    match find_unique(&cache.unique, outer, self_join) {
        Some(extra) => UniqueAnswer::Unique(extra),
        None => if find_non_unique(&cache.non_unique, outer) {
            UniqueAnswer::NotUnique
        } else {
            UniqueAnswer::Unknown
        },
    }
}

/// What is known after a proof was tried.
pub open spec fn remembered(
    cache: UniqueCache,
    outer: Relids,
    self_join: bool,
    proved: Option<List<u32>>,
    force_cache: bool,
) -> UniqueCache {
    match proved {
        Some(extra) => UniqueCache {
            unique: cache.unique.then_list(
                List::Cons(
                    UniqueFor { outerrelids: outer, self_join, extra_clauses: extra },
                    Box::new(List::Nil),
                ),
            ),
            ..cache
        },
        None => if force_cache {
            UniqueCache {
                non_unique: cache.non_unique.then_list(List::Cons(outer, Box::new(List::Nil))),
                ..cache
            }
        } else {
            cache
        },
    }
}

/// Is the inner relation unique for the outer ones? `proved` is what a proof
/// gives where nothing is known beforehand: the clauses that it rests on beside
/// those of the join, for joining a table with itself. Also gives what is known
/// then.
pub fn innerrel_is_unique_ext(
    cache: UniqueCache,
    possible: bool,
    has_clauses: bool,
    outer: &Relids,
    self_join: bool,
    force_cache: bool,
    proved: Option<List<u32>>,
) -> (r: (Option<List<u32>>, UniqueCache))
    ensures
        r.0 == match cached_answer(cache, possible, has_clauses, *outer, self_join) {
            UniqueAnswer::Unique(extra) => Some(extra),
            UniqueAnswer::NotUnique => None,
            UniqueAnswer::Unknown => proved,
        },
        r.1 == match cached_answer(cache, possible, has_clauses, *outer, self_join) {
            UniqueAnswer::Unknown => remembered(cache, *outer, self_join, proved, force_cache),
            _ => cache,
        },
{
    match find_cached_answer(&cache, possible, has_clauses, outer, self_join) {
        UniqueAnswer::Unique(extra) => (Some(extra), cache),
        UniqueAnswer::NotUnique => (None, cache),
        UniqueAnswer::Unknown => {
            let mut cache = cache;
            match proved {
                Some(extra) => {
                    let entry = UniqueFor {
                        outerrelids: outer.copy(),
                        self_join,
                        extra_clauses: extra.copy(),
                    };
                    cache.unique = cache.unique.append(List::one(entry));
                    (Some(extra), cache)
                },
                None => {
                    if force_cache {
                        cache.non_unique = cache.non_unique.append(List::one(outer.copy()));
                    }
                    (None, cache)
                },
            }
        },
    }
}

/// Is the inner relation unique for the outer ones?
pub fn innerrel_is_unique(
    cache: UniqueCache,
    possible: bool,
    has_clauses: bool,
    outer: &Relids,
    force_cache: bool,
    proved: bool,
) -> (r: (bool, UniqueCache))
    ensures
        r.0 == match cached_answer(cache, possible, has_clauses, *outer, false) {
            UniqueAnswer::Unique(_) => true,
            UniqueAnswer::NotUnique => false,
            UniqueAnswer::Unknown => proved,
        },
        r.1 == match cached_answer(cache, possible, has_clauses, *outer, false) {
            UniqueAnswer::Unknown => remembered(
                cache,
                *outer,
                false,
                if proved {
                    Some(List::Nil)
                } else {
                    None
                },
                force_cache,
            ),
            _ => cache,
        },
{
    let outcome = if proved {
        Some(List::Nil)
    } else {
        None
    };
    let (answer, cache) = innerrel_is_unique_ext(
        cache,
        possible,
        has_clauses,
        outer,
        false,
        force_cache,
        outcome,
    );
    (answer.is_some(), cache)
}

/// What is known to be unique for some outer relations is known to be so for
/// more of them.
pub proof fn lemma_unique_for_more(l: List<UniqueFor>, outer: Relids, more: Relids)
    requires
        crate::relids::ids(outer).subset_of(crate::relids::ids(more)),
    ensures
        known_unique(l, outer, false) is Some ==> known_unique(l, more, false) is Some,
    decreases l,
{
    if let List::Cons(u, us) = l {
        lemma_unique_for_more(*us, outer, more);
    }
}

/// A relation that was proved unique is known to be so from then on, whatever
/// else is found out later.
pub proof fn lemma_unique_remembered(
    cache: UniqueCache,
    outer: Relids,
    self_join: bool,
    proved: Option<List<u32>>,
    force_cache: bool,
    other: Relids,
    other_self: bool,
)
    ensures
        proved is Some ==> known_unique(
            remembered(cache, outer, self_join, proved, force_cache).unique,
            outer,
            self_join,
        ) is Some,
        known_unique(cache.unique, other, other_self) is Some ==> known_unique(
            remembered(cache, outer, self_join, proved, force_cache).unique,
            other,
            other_self,
        ) is Some,
{
    if let Some(extra) = proved {
        let u = UniqueFor { outerrelids: outer, self_join, extra_clauses: extra };
        lemma_known_then(cache.unique, u, outer, self_join);
        lemma_known_then(cache.unique, u, other, other_self);
    }
}

proof fn lemma_known_then(l: List<UniqueFor>, u: UniqueFor, outer: Relids, self_join: bool)
    ensures
        known_unique(l.then_list(List::Cons(u, Box::new(List::Nil))), outer, self_join) is Some
            <==> known_unique(l, outer, self_join) is Some || covers(u, outer, self_join),
    decreases l,
{
    match l {
        List::Nil => {
            assert(known_unique(List::Nil, outer, self_join) is None);
        },
        List::Cons(x, xs) => {
            lemma_known_then(*xs, u, outer, self_join);
        },
    }
}

/// The column is compared from outside the query, under an operator and a
/// collation that agree with those given on what is equal.
pub open spec fn is_compared(
    cols: Seq<DistinctColumn>,
    t: TargetEntry,
    eqop: u32,
    facts: EqualityFacts,
) -> bool {
    exists|j: int|
        0 <= j < cols.len() && (#[trigger] cols[j]).colno == t.resno && facts.operators@.contains(
            (cols[j].operator, eqop),
        ) && facts.collations@.contains((cols[j].collation, crate::expr::collation_of(t.expr)))
}

/// Every clause is about a column that is compared from outside.
pub open spec fn all_compared(
    clauses: Seq<SortGroupClause>,
    tlist: Seq<TargetEntry>,
    cols: Seq<DistinctColumn>,
    facts: EqualityFacts,
) -> bool {
    forall|i: int|
        0 <= i < clauses.len() ==> is_clause_compared(#[trigger] clauses[i], tlist, cols, facts)
}

/// The clause is about a column that is compared from outside.
pub open spec fn is_clause_compared(
    c: SortGroupClause,
    tlist: Seq<TargetEntry>,
    cols: Seq<DistinctColumn>,
    facts: EqualityFacts,
) -> bool {
    exists|k: int|
        0 <= k < tlist.len() && (#[trigger] tlist[k]).ressortgroupref == c.tle_sort_group_ref
            && is_compared(cols, tlist[k], c.eqop, facts)
}

proof fn lemma_column_agrees(
    t: TargetEntry,
    eqop: u32,
    cols: List<DistinctColumn>,
    facts: EqualityFacts,
)
    requires
        column_agrees(t, eqop, cols, facts),
    ensures
        is_compared(cols@, t, eqop, facts),
    decreases cols,
{
    if let List::Cons(c, cs) = cols {
        assert(cols@[0] == c);
        if c.colno != t.resno {
            lemma_column_agrees(t, eqop, *cs, facts);
            let j = choose|j: int|
                0 <= j < cs@.len() && (#[trigger] cs@[j]).colno == t.resno
                    && facts.operators@.contains((cs@[j].operator, eqop))
                    && facts.collations@.contains(
                    (cs@[j].collation, crate::expr::collation_of(t.expr)),
                );
            assert(cols@[j + 1] == cs@[j]);
        }
    }
}

proof fn lemma_entry(tlist: List<TargetEntry>, sgref: u32) -> (k: int)
    requires
        crate::tlist::entry_for_ref(tlist, sgref) is Some,
    ensures
        0 <= k < tlist@.len(),
        tlist@[k] == crate::tlist::entry_for_ref(tlist, sgref)->0,
        tlist@[k].ressortgroupref == sgref,
    decreases tlist,
{
    match tlist {
        List::Nil => 0,
        List::Cons(t, ts) => {
            assert(tlist@[0] == t);
            if t.ressortgroupref == sgref {
                0
            } else {
                let k = lemma_entry(*ts, sgref);
                assert(tlist@[k + 1] == ts@[k]);
                k + 1
            }
        },
    }
}

proof fn lemma_clauses_agree(
    clauses: List<SortGroupClause>,
    tlist: List<TargetEntry>,
    cols: List<DistinctColumn>,
    facts: EqualityFacts,
)
    requires
        clauses_agree(clauses, tlist, cols, facts) == Ok::<bool, PlannerError>(true),
    ensures
        all_compared(clauses@, tlist@, cols@, facts),
    decreases clauses,
{
    match clauses {
        List::Nil => {
            assert(clauses@.len() == 0);
        },
        List::Cons(c, cs) => {
            let k = lemma_entry(tlist, c.tle_sort_group_ref);
            lemma_column_agrees(tlist@[k], c.eqop, cols, facts);
            lemma_clauses_agree(*cs, tlist, cols, facts);
            assert forall|i: int| 0 <= i < clauses@.len() implies is_clause_compared(
                #[trigger] clauses@[i],
                tlist@,
                cols@,
                facts,
            ) by {
                if i == 0 {
                    assert(clauses@[0] == c);
                    assert(tlist@[k].ressortgroupref == c.tle_sort_group_ref);
                } else {
                    assert(clauses@[i] == cs@[i - 1]);
                }
            }
        },
    }
}

proof fn lemma_setop_agrees(
    tlist: List<TargetEntry>,
    clauses: List<SortGroupClause>,
    cols: List<DistinctColumn>,
    facts: EqualityFacts,
    k: int,
)
    requires
        setop_agrees(tlist, clauses, cols, facts) == Ok::<bool, PlannerError>(true),
        0 <= k < tlist@.len(),
        !tlist@[k].resjunk,
    ensures
        exists|i: int|
            0 <= i < clauses@.len() && is_compared(
                cols@,
                tlist@[k],
                (#[trigger] clauses@[i]).eqop,
                facts,
            ),
    decreases tlist,
{
    if let List::Cons(t, ts) = tlist {
        assert(tlist@[0] == t);
        if k > 0 {
            assert(tlist@[k] == ts@[k - 1]);
        }
        if t.resjunk {
            lemma_setop_agrees(*ts, clauses, cols, facts, k - 1);
        } else if let List::Cons(c, cs) = clauses {
            assert(clauses@[0] == c);
            if k == 0 {
                lemma_column_agrees(t, c.eqop, cols, facts);
                assert(is_compared(cols@, tlist@[k], clauses@[0].eqop, facts));
            } else {
                lemma_setop_agrees(*ts, *cs, cols, facts, k - 1);
                let i = choose|i: int|
                    0 <= i < cs@.len() && is_compared(
                        cols@,
                        ts@[k - 1],
                        (#[trigger] cs@[i]).eqop,
                        facts,
                    );
                assert(clauses@[i + 1] == cs@[i]);
            }
        }
    }
}

/// A query is taken to be without duplicates in the columns that are compared
/// only for a good reason: all columns of DISTINCT are compared, or, without
/// columns that return sets, all columns of GROUP BY, or there is but one row,
/// or a set operation that removes duplicates has all its columns compared.
pub proof fn lemma_distinct_reason(
    q: QueryShape,
    cols: List<DistinctColumn>,
    facts: EqualityFacts,
)
    requires
        distinct_for(q, cols, facts) == Ok::<bool, PlannerError>(true),
    ensures
        ({
            ||| q.distinct@.len() > 0 && all_compared(q.distinct@, q.tlist@, cols@, facts)
            ||| !q.has_target_srfs && q.groups@.len() > 0 && q.grouping_sets@.len() == 0
                && all_compared(q.groups@, q.tlist@, cols@, facts)
            ||| !q.has_target_srfs && q.groups@.len() == 0 && q.grouping_sets@.len() == 1
                && q.grouping_sets@[0]
            ||| !q.has_target_srfs && q.groups@.len() == 0 && q.grouping_sets@.len() == 0 && (
            q.has_aggs || q.has_having)
            ||| !q.has_target_srfs && q.grouping_sets@.len() == 0 && (q.set_operation matches Some(s)
                && !s.all && forall|k: int|
                0 <= k < q.tlist@.len() && !(#[trigger] q.tlist@[k]).resjunk ==> exists|i: int|
                    0 <= i < s.clauses@.len() && is_compared(
                        cols@,
                        q.tlist@[k],
                        (#[trigger] s.clauses@[i]).eqop,
                        facts,
                    ))
        }),
{
    lemma_empty(q.distinct);
    lemma_empty(q.groups);
    lemma_empty(q.grouping_sets);
    if !(q.distinct is Nil) && clauses_agree(q.distinct, q.tlist, cols, facts) == Ok::<
        bool,
        PlannerError,
    >(true) {
        lemma_clauses_agree(q.distinct, q.tlist, cols, facts);
    } else if !(q.groups is Nil) && q.grouping_sets is Nil && clauses_agree(
        q.groups,
        q.tlist,
        cols,
        facts,
    ) == Ok::<bool, PlannerError>(true) {
        lemma_clauses_agree(q.groups, q.tlist, cols, facts);
    } else if !(q.grouping_sets is Nil) {
        if let List::Cons(empty, more) = q.grouping_sets {
            lemma_empty(*more);
            assert(q.grouping_sets@[0] == empty);
        }
    } else if q.groups is Nil && (q.has_aggs || q.has_having) {
    } else if let Some(s) = q.set_operation {
        assert forall|k: int| 0 <= k < q.tlist@.len() && !(
        #[trigger] q.tlist@[k]).resjunk implies exists|i: int|
            0 <= i < s.clauses@.len() && is_compared(
                cols@,
                q.tlist@[k],
                (#[trigger] s.clauses@[i]).eqop,
                facts,
            ) by {
            lemma_setop_agrees(q.tlist, s.clauses, cols, facts, k);
        }
    }
}

proof fn lemma_empty<T>(l: List<T>)
    ensures
        l is Nil <==> l@.len() == 0,
        l matches List::Cons(_, rest) ==> l@.len() == 1 + rest@.len(),
{
    match l {
        List::Nil => {
            assert(l@.len() == 0);
        },
        List::Cons(_, rest) => {
            assert(l@.len() == 1 + rest@.len());
        },
    }
}

/// Every relation of the set is in the other one.
pub open spec fn inside(a: Relids, b: Relids) -> bool {
    forall|m: u32| #[trigger] a@.contains(m) ==> b@.contains(m)
}

/// The clause can prove the inner side of a join unique: it is an equality
/// between the two sides, and where rows without a partner count it belongs to
/// the join itself.
pub open spec fn proves_unique(
    c: Restriction,
    jointype: JoinType,
    joinrelids: Relids,
    outer: Relids,
    inner: Relids,
    outer_is_left: bool,
) -> bool {
    let unmatched = jointype is Left || jointype is Full || jointype is Right || jointype is Anti
        || jointype is RightAnti;
    &&& c.can_join
    &&& c.mergeable
    &&& unmatched ==> !c.pushed_down && inside(c.required_relids, joinrelids)
    &&& outer_is_left ==> inside(c.left_relids, outer) && inside(c.right_relids, inner)
    &&& !outer_is_left ==> inside(c.left_relids, inner) && inside(c.right_relids, outer)
}

proof fn lemma_inside(a: Relids, b: Relids)
    ensures
        inside(a, b) <==> crate::relids::ids(a).subset_of(crate::relids::ids(b)),
{
    if inside(a, b) {
        assert forall|m: u32| crate::relids::ids(a).contains(m) implies crate::relids::ids(
            b,
        ).contains(m) by {
            assert(a@.contains(m));
        }
    }
    if crate::relids::ids(a).subset_of(crate::relids::ids(b)) {
        assert forall|m: u32| #[trigger] a@.contains(m) implies b@.contains(m) by {
            assert(crate::relids::ids(a).contains(m));
        }
    }
}

/// The clauses by which the inner side of a join is proved unique are clauses
/// of the join that can prove it, taken over as they are; and none that can is
/// left out.
pub proof fn lemma_usable_clauses(
    clauses: List<Restriction>,
    jointype: JoinType,
    joinrelids: Relids,
    outer: Relids,
    inner: Relids,
)
    ensures
        ({
            let used = usable_clauses(clauses, jointype, joinrelids, outer, inner)@;
            &&& forall|u: int|
                0 <= u < used.len() ==> taken_from(
                    clauses@,
                    jointype,
                    joinrelids,
                    outer,
                    inner,
                    #[trigger] used[u],
                )
            &&& forall|i: int|
                0 <= i < clauses@.len() && (proves_unique(
                    #[trigger] clauses@[i],
                    jointype,
                    joinrelids,
                    outer,
                    inner,
                    true,
                ) || proves_unique(clauses@[i], jointype, joinrelids, outer, inner, false))
                    ==> is_used(used, clauses@[i])
        }),
    decreases clauses,
{
    let used = usable_clauses(clauses, jointype, joinrelids, outer, inner)@;
    match clauses {
        List::Nil => {
            assert(clauses@.len() == 0);
            let none: List<UsableClause> = List::Nil;
            assert(none@.len() == 0);
        },
        List::Cons(c, cs) => {
            lemma_usable_clauses(*cs, jointype, joinrelids, outer, inner);
            let rest = usable_clauses(*cs, jointype, joinrelids, outer, inner)@;
            lemma_inside(c.required_relids, joinrelids);
            lemma_inside(c.left_relids, outer);
            lemma_inside(c.right_relids, inner);
            lemma_inside(c.left_relids, inner);
            lemma_inside(c.right_relids, outer);
            assert(clauses@[0] == c);
            assert(forall|i: int| 0 <= i < cs@.len() ==> clauses@[i + 1] == #[trigger] cs@[i]);
            let n = used.len() - rest.len();
            assert(forall|u: int| 0 <= u < rest.len() ==> used[u + n] == #[trigger] rest[u]);
            assert forall|u: int| 0 <= u < used.len() implies taken_from(
                clauses@,
                jointype,
                joinrelids,
                outer,
                inner,
                #[trigger] used[u],
            ) by {
                if u >= n {
                    assert(used[u] == rest[u - n]);
                    let i = choose|i: int|
                        0 <= i < cs@.len() && (#[trigger] cs@[i]).id == used[u].id && cs@[i].clause
                            == used[u].clause && proves_unique(
                            cs@[i],
                            jointype,
                            joinrelids,
                            outer,
                            inner,
                            used[u].outer_is_left,
                        );
                    assert(clauses@[i + 1] == cs@[i]);
                } else {
                    assert(clauses@[0].id == used[u].id);
                }
            }
            assert forall|i: int|
                0 <= i < clauses@.len() && (proves_unique(
                    #[trigger] clauses@[i],
                    jointype,
                    joinrelids,
                    outer,
                    inner,
                    true,
                ) || proves_unique(
                    clauses@[i],
                    jointype,
                    joinrelids,
                    outer,
                    inner,
                    false,
                )) implies is_used(used, clauses@[i]) by {
                if i == 0 {
                    assert(n == 1);
                    assert(used[0].id == c.id);
                } else {
                    assert(clauses@[i] == cs@[i - 1]);
                    let u = choose|u: int|
                        0 <= u < rest.len() && (#[trigger] rest[u]).id == cs@[i - 1].id
                            && rest[u].clause == cs@[i - 1].clause;
                    assert(used[u + n] == rest[u]);
                }
            }
        },
    }
}

/// The usable clause is one of the clauses, and can prove uniqueness.
pub open spec fn taken_from(
    clauses: Seq<Restriction>,
    jointype: JoinType,
    joinrelids: Relids,
    outer: Relids,
    inner: Relids,
    u: UsableClause,
) -> bool {
    exists|i: int|
        0 <= i < clauses.len() && (#[trigger] clauses[i]).id == u.id && clauses[i].clause
            == u.clause && proves_unique(
            clauses[i],
            jointype,
            joinrelids,
            outer,
            inner,
            u.outer_is_left,
        )
}

/// The clause is among the usable ones.
pub open spec fn is_used(used: Seq<UsableClause>, c: Restriction) -> bool {
    exists|u: int|
        0 <= u < used.len() && (#[trigger] used[u]).id == c.id && used[u].clause == c.clause
}

} // verus!

//! What the plans of grouping, sorting and duplicate removal are made of.
use vstd::prelude::*;
use crate::error::PlannerError;
use crate::expr::{
    copy_tlist, expr_collation, make_entry, next_column, Expr, OrderTest, TargetEntry,
};
use crate::list::List;
use crate::path::UniqueOperators;
use crate::plan::{
    count_disabled, inject_projection_plan, Amounts, GroupColumn, Plan, PlanCosts, PlanNode,
    SetOpColumn, UniqueColumn,
};
use crate::relids::Relids;
use crate::sortcols::{
    prepare_sort_from_pathkeys, OperatorKey, PathKey, SortColumn, SortColumns, SortContext,
};
use crate::sortgroup::SortGroupClause;
use crate::tlist::{expr_tle, resno_tle, sortgroupref_tle};

verus! {

/// The columns that rows are grouped by, with the equality of each clause.
pub open spec fn group_columns(clauses: List<SortGroupClause>, tlist: List<TargetEntry>) -> Result<
    List<GroupColumn>,
    PlannerError,
>
    decreases clauses,
{
    match clauses {
        List::Nil => Ok(List::Nil),
        List::Cons(c, cs) => match crate::tlist::entry_for_ref(tlist, c.tle_sort_group_ref) {
            None => Err(PlannerError::SortGroupRefNotFound),
            Some(t) => match group_columns(*cs, tlist) {
                Err(e) => Err(e),
                Ok(rest) => Ok(
                    List::Cons(
                        GroupColumn {
                            resno: t.resno,
                            operator: c.eqop,
                            collation: crate::expr::collation_of(t.expr),
                        },
                        Box::new(rest),
                    ),
                ),
            },
        },
    }
}

/// Finds the columns that rows are grouped by.
pub fn find_group_columns(
    clauses: &List<SortGroupClause>,
    tlist: &List<TargetEntry>,
) -> (r: Result<List<GroupColumn>, PlannerError>)
    ensures
        r == group_columns(*clauses, *tlist),
    decreases clauses,
{
    match clauses {
        List::Nil => Ok(List::Nil),
        List::Cons(c, cs) => match sortgroupref_tle(c.tle_sort_group_ref, tlist) {
            None => Err(PlannerError::SortGroupRefNotFound),
            Some(t) => match find_group_columns(cs, tlist) {
                Err(e) => Err(e),
                Ok(rest) => Ok(
                    List::Cons(
                        GroupColumn {
                            resno: t.resno,
                            operator: c.eqop,
                            collation: expr_collation(&t.expr),
                        },
                        Box::new(rest),
                    ),
                ),
            },
        },
    }
}

/// The columns that the sides of a set operation are compared by: with the
/// equality of each clause for hashing, else with its sort operator.
pub open spec fn setop_columns(
    clauses: List<SortGroupClause>,
    tlist: List<TargetEntry>,
    hashed: bool,
) -> Result<List<SetOpColumn>, PlannerError>
    decreases clauses,
{
    match clauses {
        List::Nil => Ok(List::Nil),
        List::Cons(c, cs) => match crate::tlist::entry_for_ref(tlist, c.tle_sort_group_ref) {
            None => Err(PlannerError::SortGroupRefNotFound),
            Some(t) => match setop_columns(*cs, tlist, hashed) {
                Err(e) => Err(e),
                Ok(rest) => Ok(
                    List::Cons(
                        SetOpColumn {
                            resno: t.resno,
                            operator: if hashed {
                                c.eqop
                            } else {
                                c.sortop
                            },
                            collation: crate::expr::collation_of(t.expr),
                            nulls_first: c.nulls_first,
                        },
                        Box::new(rest),
                    ),
                ),
            },
        },
    }
}

/// Finds the columns that the sides of a set operation are compared by.
pub fn find_setop_columns(
    clauses: &List<SortGroupClause>,
    tlist: &List<TargetEntry>,
    hashed: bool,
) -> (r: Result<List<SetOpColumn>, PlannerError>)
    ensures
        r == setop_columns(*clauses, *tlist, hashed),
    decreases clauses,
{
    match clauses {
        List::Nil => Ok(List::Nil),
        List::Cons(c, cs) => match sortgroupref_tle(c.tle_sort_group_ref, tlist) {
            None => Err(PlannerError::SortGroupRefNotFound),
            Some(t) => match find_setop_columns(cs, tlist, hashed) {
                Err(e) => Err(e),
                Ok(rest) => Ok(
                    List::Cons(
                        SetOpColumn {
                            resno: t.resno,
                            operator: if hashed {
                                c.eqop
                            } else {
                                c.sortop
                            },
                            collation: expr_collation(&t.expr),
                            nulls_first: c.nulls_first,
                        },
                        Box::new(rest),
                    ),
                ),
            },
        },
    }
}

/// The sort of a rollup: the columns of its clauses with their sort operators.
/// Each column is found by its number, which is that of the labelled entry.
pub open spec fn groupcol_sort(
    clauses: List<SortGroupClause>,
    columns: List<i16>,
    tlist: List<TargetEntry>,
) -> Result<List<SetOpColumn>, PlannerError>
    decreases clauses,
{
    match (clauses, columns) {
        (List::Cons(c, cs), List::Cons(n, ns)) => match crate::tlist::entry_for_resno(tlist, n) {
            None => Err(PlannerError::GroupColumnNotFound),
            Some(t) => match groupcol_sort(*cs, *ns, tlist) {
                Err(e) => Err(e),
                Ok(rest) => Ok(
                    List::Cons(
                        SetOpColumn {
                            resno: t.resno,
                            operator: c.sortop,
                            collation: crate::expr::collation_of(t.expr),
                            nulls_first: c.nulls_first,
                        },
                        Box::new(rest),
                    ),
                ),
            },
        },
        (List::Nil, _) => Ok(List::Nil),
        (_, List::Nil) => Err(PlannerError::GroupColumnNotFound),
    }
}

/// Makes the sort of a rollup.
pub fn make_sort_from_groupcols(
    clauses: &List<SortGroupClause>,
    columns: &List<i16>,
    tlist: &List<TargetEntry>,
) -> (r: Result<List<SetOpColumn>, PlannerError>)
    ensures
        r == groupcol_sort(*clauses, *columns, *tlist),
    decreases clauses,
{
    match clauses {
        List::Nil => Ok(List::Nil),
        List::Cons(c, cs) => match columns {
            List::Nil => Err(PlannerError::GroupColumnNotFound),
            List::Cons(n, ns) => match resno_tle(*n, tlist) {
                None => Err(PlannerError::GroupColumnNotFound),
                Some(t) => match make_sort_from_groupcols(cs, ns, tlist) {
                    Err(e) => Err(e),
                    Ok(rest) => Ok(
                        List::Cons(
                            SetOpColumn {
                                resno: t.resno,
                                operator: c.sortop,
                                collation: expr_collation(&t.expr),
                                nulls_first: c.nulls_first,
                            },
                            Box::new(rest),
                        ),
                    ),
                },
            },
        },
    }
}

/// The column number that each group clause of the query has in the input.
pub open spec fn grouping_map(clauses: List<SortGroupClause>, tlist: List<TargetEntry>) -> Result<
    List<(u32, i16)>,
    PlannerError,
>
    decreases clauses,
{
    match clauses {
        List::Nil => Ok(List::Nil),
        List::Cons(c, cs) => match crate::tlist::entry_for_ref(tlist, c.tle_sort_group_ref) {
            None => Err(PlannerError::SortGroupRefNotFound),
            Some(t) => match grouping_map(*cs, tlist) {
                Err(e) => Err(e),
                Ok(rest) => Ok(List::Cons((c.tle_sort_group_ref, t.resno), Box::new(rest))),
            },
        },
    }
}

/// Builds the map from group clauses to columns of the input.
pub fn build_grouping_map(
    clauses: &List<SortGroupClause>,
    tlist: &List<TargetEntry>,
) -> (r: Result<List<(u32, i16)>, PlannerError>)
    ensures
        r == grouping_map(*clauses, *tlist),
    decreases clauses,
{
    match clauses {
        List::Nil => Ok(List::Nil),
        List::Cons(c, cs) => match sortgroupref_tle(c.tle_sort_group_ref, tlist) {
            None => Err(PlannerError::SortGroupRefNotFound),
            Some(t) => match build_grouping_map(cs, tlist) {
                Err(e) => Err(e),
                Ok(rest) => Ok(List::Cons((c.tle_sort_group_ref, t.resno), Box::new(rest))),
            },
        },
    }
}

/// The column number of a reference; 0 where it is none of the query's.
pub open spec fn mapped_column(map: List<(u32, i16)>, r: u32) -> i16
    decreases map,
{
    match map {
        List::Nil => 0,
        List::Cons(m, ms) => if m.0 == r {
            m.1
        } else {
            mapped_column(*ms, r)
        },
    }
}

fn find_mapped_column(map: &List<(u32, i16)>, r: u32) -> (c: i16)
    ensures
        c == mapped_column(*map, r),
    decreases map,
{
    match map {
        List::Nil => 0,
        List::Cons(m, ms) => if m.0 == r {
            m.1
        } else {
            find_mapped_column(ms, r)
        },
    }
}

/// The column numbers of group clauses.
pub open spec fn mapped_columns(
    clauses: List<SortGroupClause>,
    map: List<(u32, i16)>,
) -> List<i16>
    decreases clauses,
{
    match clauses {
        List::Nil => List::Nil,
        List::Cons(c, cs) => List::Cons(
            mapped_column(map, c.tle_sort_group_ref),
            Box::new(mapped_columns(*cs, map)),
        ),
    }
}

/// Looks up the column numbers of group clauses.
pub fn remap_group_col_idx(
    clauses: &List<SortGroupClause>,
    map: &List<(u32, i16)>,
) -> (r: List<i16>)
    ensures
        r == mapped_columns(*clauses, *map),
    decreases clauses,
{
    match clauses {
        List::Nil => List::Nil,
        List::Cons(c, cs) => List::Cons(
            find_mapped_column(map, c.tle_sort_group_ref),
            Box::new(remap_group_col_idx(cs, map)),
        ),
    }
}

/// Group columns with the numbers that the map gives.
pub open spec fn with_numbers(columns: List<GroupColumn>, numbers: List<i16>) -> List<GroupColumn>
    decreases columns,
{
    match (columns, numbers) {
        (List::Cons(c, cs), List::Cons(n, ns)) => List::Cons(
            GroupColumn { resno: n, operator: c.operator, collation: c.collation },
            Box::new(with_numbers(*cs, *ns)),
        ),
        _ => List::Nil,
    }
}

/// Gives group columns the numbers of the map.
pub fn renumber(columns: List<GroupColumn>, numbers: &List<i16>) -> (r: List<GroupColumn>)
    ensures
        r == with_numbers(columns, *numbers),
    decreases columns,
{
    match columns {
        List::Nil => List::Nil,
        List::Cons(c, cs) => match numbers {
            List::Nil => List::Nil,
            List::Cons(n, ns) => List::Cons(
                GroupColumn { resno: *n, operator: c.operator, collation: c.collation },
                Box::new(renumber(*cs, ns)),
            ),
        },
    }
}

/// The first `n` items of a sort order as columns that rows are made unique
/// by.
pub open spec fn unique_columns(
    ctx: SortContext,
    pathkeys: List<PathKey>,
    n: usize,
    tlist: List<TargetEntry>,
) -> Result<List<UniqueColumn>, PlannerError>
    decreases pathkeys,
{
    if n == 0 {
        Ok(List::Nil)
    } else {
        match pathkeys {
            List::Nil => Err(PlannerError::TooFewPathkeys),
            List::Cons(k, ks) => if k.eclass >= ctx.classes@.len() {
                Err(PlannerError::UnknownEquivalenceClass)
            } else {
                let ec = ctx.classes@[k.eclass as int];
                match crate::sortcols::key_column(ec, tlist, List::Nil, None) {
                    Err(e) => Err(e),
                    Ok(None) => Err(PlannerError::PathkeyItemNotFound),
                    Ok(Some((resno, typid))) => match unique_columns(
                        ctx,
                        *ks,
                        (n - 1) as usize,
                        tlist,
                    ) {
                        Err(e) => Err(e),
                        Ok(rest) => Ok(
                            List::Cons(
                                UniqueColumn {
                                    resno,
                                    operator: OperatorKey {
                                        opfamily: k.opfamily,
                                        typid,
                                        test: OrderTest::Equal,
                                    },
                                    collation: ec.collation,
                                },
                                Box::new(rest),
                            ),
                        ),
                    },
                }
            },
        }
    }
}

/// Finds the columns for the first `n` items of a sort order.
pub fn find_unique_columns(
    ctx: &SortContext,
    pathkeys: &List<PathKey>,
    n: usize,
    tlist: &List<TargetEntry>,
) -> (r: Result<List<UniqueColumn>, PlannerError>)
    ensures
        r == unique_columns(*ctx, *pathkeys, n, *tlist),
    decreases pathkeys,
{
    if n == 0 {
        return Ok(List::Nil);
    }
    match pathkeys {
        List::Nil => Err(PlannerError::TooFewPathkeys),
        List::Cons(k, ks) => {
            let at: usize = k.eclass as usize;
            if at >= ctx.classes.len() {
                return Err(PlannerError::UnknownEquivalenceClass);
            }
            let ec = &ctx.classes[at];
            let none: Relids = List::Nil;
            match crate::sortcols::find_key_column(ec, tlist, &none, None) {
                Err(e) => Err(e),
                Ok(None) => Err(PlannerError::PathkeyItemNotFound),
                Ok(Some((resno, typid))) => match find_unique_columns(ctx, ks, n - 1, tlist) {
                    Err(e) => Err(e),
                    Ok(rest) => Ok(
                        List::Cons(
                            UniqueColumn {
                                resno,
                                operator: OperatorKey {
                                    opfamily: k.opfamily,
                                    typid,
                                    test: OrderTest::Equal,
                                },
                                collation: ec.collation,
                            },
                            Box::new(rest),
                        ),
                    ),
                },
            }
        },
    }
}

/// The target list with those expressions added at the end that it lacks.
pub open spec fn with_exprs(tlist: List<TargetEntry>, exprs: List<Expr>) -> List<TargetEntry>
    decreases exprs,
{
    match exprs {
        List::Nil => tlist,
        List::Cons(x, xs) => if crate::tlist::entry_for_expr(tlist, x) is Some {
            with_exprs(tlist, *xs)
        } else {
            with_exprs(
                tlist.then_list(
                    List::Cons(
                        crate::expr::plain_entry(
                            x,
                            crate::expr::resno_after(tlist, 0),
                            0,
                            false,
                        ),
                        Box::new(List::Nil),
                    ),
                ),
                *xs,
            )
        },
    }
}

/// Adds to a target list the expressions that it lacks.
pub fn add_exprs(tlist: List<TargetEntry>, exprs: &List<Expr>) -> (r: List<TargetEntry>)
    ensures
        r == with_exprs(tlist, *exprs),
    decreases exprs,
{
    match exprs {
        List::Nil => tlist,
        List::Cons(x, xs) => {
            let missing = expr_tle(x, &tlist).is_none();
            if !missing {
                add_exprs(tlist, xs)
            } else {
                let resno: i16 = next_column(&tlist, 0);
                let entry = make_entry(x.copy(), resno, 0, false);
                add_exprs(tlist.append(List::one(entry)), xs)
            }
        },
    }
}

/// The two lists have the same length.
pub open spec fn same_length(a: List<TargetEntry>, b: List<TargetEntry>) -> bool {
    a@.len() == b@.len()
}

/// Do the two lists have the same length?
pub fn equal_length(a: &List<TargetEntry>, b: &List<TargetEntry>) -> (r: bool)
    ensures
        r == same_length(*a, *b),
    decreases a,
{
    match a {
        List::Nil => b.is_nil(),
        List::Cons(_, xs) => match b {
            List::Nil => false,
            List::Cons(_, ys) => {
                proof {
                    assert(a@.len() == 1 + xs@.len());
                    assert(b@.len() == 1 + ys@.len());
                }
                equal_length(xs, ys)
            },
        },
    }
}

/// The columns of the expressions, with the equality of each for hashing or
/// after sorting.
pub open spec fn unique_expr_columns(
    exprs: List<Expr>,
    operators: List<UniqueOperators>,
    tlist: List<TargetEntry>,
    hashed: bool,
) -> Result<List<GroupColumn>, PlannerError>
    decreases exprs,
{
    match exprs {
        List::Nil => Ok(List::Nil),
        List::Cons(x, xs) => match crate::tlist::entry_for_expr(tlist, x) {
            None => Err(PlannerError::UniqueExprNotFound),
            Some(t) => {
                let (op, ops) = match operators {
                    List::Nil => (UniqueOperators { hash_eq: 0, sort: 0, sort_eq: 0 }, List::Nil),
                    List::Cons(o, os) => (o, *os),
                };
                match unique_expr_columns(*xs, ops, tlist, hashed) {
                    Err(e) => Err(e),
                    Ok(rest) => Ok(
                        List::Cons(
                            GroupColumn {
                                resno: t.resno,
                                operator: if hashed {
                                    op.hash_eq
                                } else {
                                    op.sort_eq
                                },
                                collation: crate::expr::collation_of(t.expr),
                            },
                            Box::new(rest),
                        ),
                    ),
                }
            },
        },
    }
}

/// Finds the columns of the expressions.
pub fn find_unique_expr_columns(
    exprs: &List<Expr>,
    operators: &List<UniqueOperators>,
    tlist: &List<TargetEntry>,
    hashed: bool,
) -> (r: Result<List<GroupColumn>, PlannerError>)
    ensures
        r == unique_expr_columns(*exprs, *operators, *tlist, hashed),
    decreases exprs,
{
    match exprs {
        List::Nil => Ok(List::Nil),
        List::Cons(x, xs) => match expr_tle(x, tlist) {
            None => Err(PlannerError::UniqueExprNotFound),
            Some(t) => {
                let op: UniqueOperators = match operators {
                    List::Nil => UniqueOperators { hash_eq: 0, sort: 0, sort_eq: 0 },
                    List::Cons(o, _) => *o,
                };
                let none: List<UniqueOperators> = List::Nil;
                let ops: &List<UniqueOperators> = match operators {
                    List::Nil => &none,
                    List::Cons(_, os) => os,
                };
                match find_unique_expr_columns(xs, ops, tlist, hashed) {
                    Err(e) => Err(e),
                    Ok(rest) => Ok(
                        List::Cons(
                            GroupColumn {
                                resno: t.resno,
                                operator: if hashed {
                                    op.hash_eq
                                } else {
                                    op.sort_eq
                                },
                                collation: expr_collation(&t.expr),
                            },
                            Box::new(rest),
                        ),
                    ),
                }
            },
        },
    }
}

/// The sort ahead of duplicate removal: the same columns with the sort
/// operators.
pub open spec fn unique_sort_columns(
    columns: List<GroupColumn>,
    operators: List<UniqueOperators>,
) -> List<SetOpColumn>
    decreases columns,
{
    match (columns, operators) {
        (List::Cons(c, cs), List::Cons(o, os)) => List::Cons(
            SetOpColumn {
                resno: c.resno,
                operator: o.sort,
                collation: c.collation,
                nulls_first: false,
            },
            Box::new(unique_sort_columns(*cs, *os)),
        ),
        _ => List::Nil,
    }
}

/// Makes the sort ahead of duplicate removal.
pub fn make_unique_sort_columns(
    columns: &List<GroupColumn>,
    operators: &List<UniqueOperators>,
) -> (r: List<SetOpColumn>)
    ensures
        r == unique_sort_columns(*columns, *operators),
    decreases columns,
{
    match columns {
        List::Nil => List::Nil,
        List::Cons(c, cs) => match operators {
            List::Nil => List::Nil,
            List::Cons(o, os) => List::Cons(
                SetOpColumn {
                    resno: c.resno,
                    operator: o.sort,
                    collation: c.collation,
                    nulls_first: false,
                },
                Box::new(make_unique_sort_columns(cs, os)),
            ),
        },
    }
}

/// The input of a sort, with the columns that had to be added. Where it cannot
/// compute them itself, a node that does is put on top.
pub open spec fn sort_input(plan: Plan, tlist: List<TargetEntry>) -> Plan {
    if same_length(tlist, plan.tlist) {
        plan
    } else if crate::plan::projects(plan.node) {
        Plan { tlist, ..plan }
    } else {
        crate::plan::projection_over(plan, tlist, plan.costs.parallel_safe)
    }
}

/// Prepares the input of a sort.
pub fn prepare_sort_input(plan: Plan, tlist: &List<TargetEntry>) -> (r: Plan)
    ensures
        r == sort_input(plan, *tlist),
{
    if equal_length(tlist, &plan.tlist) {
        plan
    } else if crate::plan::is_projection_capable(&plan.node) {
        let mut plan = plan;
        plan.tlist = copy_tlist(tlist);
        plan
    } else {
        let safe = plan.costs.parallel_safe;
        inject_projection_plan(plan, copy_tlist(tlist), safe)
    }
}

/// What a sort costs that is not a path of its own.
pub open spec fn sort_costs(plan: Plan, enable_sort: bool, limit: Option<u64>) -> PlanCosts {
    PlanCosts {
        disabled_nodes: if enable_sort {
            plan.costs.disabled_nodes
        } else {
            crate::plan::one_more(plan.costs.disabled_nodes)
        },
        amounts: Amounts::Sort(limit),
        width: plan.costs.width,
        parallel_aware: false,
        parallel_safe: plan.costs.parallel_safe,
    }
}

/// The plan sorted.
pub open spec fn sorted_plan(
    plan: Plan,
    cols: SortColumns,
    enable_sort: bool,
    limit: Option<u64>,
) -> Plan {
    let input = sort_input(plan, cols.tlist);
    Plan {
        node: PlanNode::Sort(Box::new(input), cols.columns),
        tlist: cols.tlist,
        qual: List::Nil,
        costs: sort_costs(input, enable_sort, limit),
    }
}

fn sort_over(plan: Plan, cols: SortColumns, enable_sort: bool, limit: Option<u64>) -> (r: Plan)
    ensures
        r == sorted_plan(plan, cols, enable_sort, limit),
{
    let input = prepare_sort_input(plan, &cols.tlist);
    let costs = PlanCosts {
        disabled_nodes: if enable_sort {
            input.costs.disabled_nodes
        } else {
            count_disabled(input.costs.disabled_nodes)
        },
        amounts: Amounts::Sort(limit),
        width: input.costs.width,
        parallel_aware: false,
        parallel_safe: input.costs.parallel_safe,
    };
    Plan {
        node: PlanNode::Sort(Box::new(input), cols.columns),
        tlist: cols.tlist,
        qual: List::Nil,
        costs,
    }
}

/// The plan sorted by a sort order.
pub open spec fn sorted_by_pathkeys(
    ctx: SortContext,
    plan: Plan,
    pathkeys: List<PathKey>,
    relids: Relids,
    enable_sort: bool,
) -> Result<Plan, PlannerError> {
    match crate::sortcols::sort_columns(ctx, pathkeys, plan.tlist, relids, None) {
        Err(e) => Err(e),
        Ok(cols) => Ok(sorted_plan(plan, cols, enable_sort, None)),
    }
}

/// Sorts a plan by a sort order.
pub fn make_sort_from_pathkeys(
    ctx: &SortContext,
    plan: Plan,
    pathkeys: &List<PathKey>,
    relids: &Relids,
    enable_sort: bool,
) -> (r: Result<Plan, PlannerError>)
    ensures
        r == sorted_by_pathkeys(*ctx, plan, *pathkeys, *relids, enable_sort),
{
    let tlist = copy_tlist(&plan.tlist);
    match prepare_sort_from_pathkeys(ctx, pathkeys, tlist, relids, None) {
        Err(e) => Err(e),
        Ok(cols) => Ok(sort_over(plan, cols, enable_sort, None)),
    }
}

/// The plan, sorted so far by the first `presorted` items, sorted by the whole
/// order.
pub open spec fn incrementally_sorted(
    ctx: SortContext,
    plan: Plan,
    pathkeys: List<PathKey>,
    relids: Relids,
    presorted: i32,
) -> Result<Plan, PlannerError> {
    match crate::sortcols::sort_columns(ctx, pathkeys, plan.tlist, relids, None) {
        Err(e) => Err(e),
        Ok(cols) => {
            let input = sort_input(plan, cols.tlist);
            Ok(
                Plan {
                    node: PlanNode::IncrementalSort(Box::new(input), cols.columns, presorted),
                    tlist: cols.tlist,
                    qual: List::Nil,
                    costs: PlanCosts {
                        disabled_nodes: 0,
                        amounts: Amounts::IncrementalSort(None),
                        width: input.costs.width,
                        parallel_aware: false,
                        parallel_safe: input.costs.parallel_safe,
                    },
                },
            )
        },
    }
}

/// Completes the sort order of a plan that is sorted by its first items.
pub fn make_incrementalsort_from_pathkeys(
    ctx: &SortContext,
    plan: Plan,
    pathkeys: &List<PathKey>,
    relids: &Relids,
    presorted: i32,
) -> (r: Result<Plan, PlannerError>)
    ensures
        r == incrementally_sorted(*ctx, plan, *pathkeys, *relids, presorted),
{
    let tlist = copy_tlist(&plan.tlist);
    match prepare_sort_from_pathkeys(ctx, pathkeys, tlist, relids, None) {
        Err(e) => Err(e),
        Ok(cols) => {
            let input = prepare_sort_input(plan, &cols.tlist);
            let costs = PlanCosts {
                disabled_nodes: 0,
                amounts: Amounts::IncrementalSort(None),
                width: input.costs.width,
                parallel_aware: false,
                parallel_safe: input.costs.parallel_safe,
            };
            Ok(
                Plan {
                    node: PlanNode::IncrementalSort(Box::new(input), cols.columns, presorted),
                    tlist: cols.tlist,
                    qual: List::Nil,
                    costs,
                },
            )
        },
    }
}

/// The column numbers of sort columns.
pub open spec fn column_numbers(columns: List<SortColumn>) -> List<i16>
    decreases columns,
{
    match columns {
        List::Nil => List::Nil,
        List::Cons(c, cs) => List::Cons(c.resno, Box::new(column_numbers(*cs))),
    }
}

/// Collects the column numbers of sort columns.
pub fn sort_column_numbers(columns: &List<SortColumn>) -> (r: List<i16>)
    ensures
        r == column_numbers(*columns),
    decreases columns,
{
    match columns {
        List::Nil => List::Nil,
        List::Cons(c, cs) => List::Cons(c.resno, Box::new(sort_column_numbers(cs))),
    }
}

fn same_numbers(a: &List<i16>, b: &List<i16>) -> (r: bool)
    ensures
        r == (*a == *b),
    decreases a,
{
    match a {
        List::Nil => match b {
            List::Nil => true,
            _ => false,
        },
        List::Cons(x, xs) => match b {
            List::Nil => false,
            List::Cons(y, ys) => *x == *y && same_numbers(xs, ys),
        },
    }
}

/// The order that is asked for is a beginning of the order that is there.
pub open spec fn order_contained(asked: List<PathKey>, there: List<PathKey>) -> bool
    decreases asked,
{
    match (asked, there) {
        (List::Nil, _) => true,
        (List::Cons(a, xs), List::Cons(b, ys)) => a == b && order_contained(*xs, *ys),
        _ => false,
    }
}

/// Is the order that is asked for a beginning of the order that is there?
pub fn pathkeys_contained_in(asked: &List<PathKey>, there: &List<PathKey>) -> (r: bool)
    ensures
        r == order_contained(*asked, *there),
    decreases asked,
{
    match asked {
        List::Nil => true,
        List::Cons(a, xs) => match there {
            List::Nil => false,
            List::Cons(b, ys) => *a == *b && pathkeys_contained_in(xs, ys),
        },
    }
}

/// The child of an ordered Append: its sort columns must be those of the
/// Append, and it is sorted where its own order does not do.
pub open spec fn ordered_child(
    ctx: SortContext,
    plan: Plan,
    child_order: List<PathKey>,
    child_relids: Relids,
    pathkeys: List<PathKey>,
    numbers: List<i16>,
    limit: Option<u64>,
    enable_sort: bool,
) -> Result<Plan, PlannerError> {
    match crate::sortcols::sort_columns(ctx, pathkeys, plan.tlist, child_relids, Some(numbers)) {
        Err(e) => Err(e),
        Ok(cols) => if column_numbers(cols.columns) != numbers {
            Err(PlannerError::AppendChildMismatch)
        } else if order_contained(pathkeys, child_order) {
            Ok(sort_input(plan, cols.tlist))
        } else {
            Ok(sorted_plan(plan, cols, enable_sort, limit))
        },
    }
}

/// Prepares the child of an ordered Append.
pub fn prepare_ordered_append_child(
    ctx: &SortContext,
    plan: Plan,
    child_order: &List<PathKey>,
    child_relids: &Relids,
    pathkeys: &List<PathKey>,
    numbers: &List<i16>,
    limit: Option<u64>,
    enable_sort: bool,
) -> (r: Result<Plan, PlannerError>)
    ensures
        r == ordered_child(
            *ctx,
            plan,
            *child_order,
            *child_relids,
            *pathkeys,
            *numbers,
            limit,
            enable_sort,
        ),
{
    let tlist = copy_tlist(&plan.tlist);
    match prepare_sort_from_pathkeys(ctx, pathkeys, tlist, child_relids, Some(numbers)) {
        Err(e) => Err(e),
        Ok(cols) => {
            let own = sort_column_numbers(&cols.columns);
            if !same_numbers(&own, numbers) {
                return Err(PlannerError::AppendChildMismatch);
            }
            if pathkeys_contained_in(pathkeys, child_order) {
                Ok(prepare_sort_input(plan, &cols.tlist))
            } else {
                Ok(sort_over(plan, cols, enable_sort, limit))
            }
        },
    }
}

/// Some column of the list carries the label of the clause, with the number and
/// the collation that are given.
pub open spec fn is_column_of(
    tlist: Seq<TargetEntry>,
    label: u32,
    resno: i16,
    collation: u32,
) -> bool {
    exists|k: int|
        0 <= k < tlist.len() && (#[trigger] tlist[k]).ressortgroupref == label && tlist[k].resno
            == resno && crate::expr::collation_of(tlist[k].expr) == collation
}

proof fn lemma_labelled_entry(tlist: List<TargetEntry>, label: u32)
    ensures
        crate::tlist::entry_for_ref(tlist, label) matches Some(t) ==> t.ressortgroupref == label
            && is_column_of(tlist@, label, t.resno, crate::expr::collation_of(t.expr)),
        crate::tlist::entry_for_ref(tlist, label) is None <==> forall|k: int|
            0 <= k < tlist@.len() ==> (#[trigger] tlist@[k]).ressortgroupref != label,
    decreases tlist,
{
    match tlist {
        List::Nil => {
            assert(tlist@.len() == 0);
        },
        List::Cons(t, ts) => {
            lemma_labelled_entry(*ts, label);
            assert(tlist@[0] == t);
            assert(forall|k: int| 0 <= k < ts@.len() ==> tlist@[k + 1] == #[trigger] ts@[k]);
            assert(forall|k: int| 1 <= k < tlist@.len() ==> #[trigger] tlist@[k] == ts@[k - 1]);
            if t.ressortgroupref != label {
                if let Some(e) = crate::tlist::entry_for_ref(*ts, label) {
                    let c = crate::expr::collation_of(e.expr);
                    let k = choose|k: int|
                        0 <= k < ts@.len() && (#[trigger] ts@[k]).ressortgroupref == label
                            && ts@[k].resno == e.resno && crate::expr::collation_of(ts@[k].expr)
                            == c;
                    assert(tlist@[k + 1] == ts@[k]);
                }
            }
        },
    }
}

/// Rows are grouped by one column for each clause, in the order of the clauses:
/// a column that carries the label of the clause, compared by the equality of
/// the clause under the collation of the column. It fails only where some label
/// is on no column.
pub proof fn lemma_group_columns(clauses: List<SortGroupClause>, tlist: List<TargetEntry>)
    ensures
        match group_columns(clauses, tlist) {
            Ok(cols) => cols@.len() == clauses@.len() && forall|i: int|
                0 <= i < cols@.len() ==> (#[trigger] cols@[i]).operator == clauses@[i].eqop
                    && is_column_of(
                    tlist@,
                    clauses@[i].tle_sort_group_ref,
                    cols@[i].resno,
                    cols@[i].collation,
                ),
            Err(_) => exists|i: int|
                0 <= i < clauses@.len() && forall|k: int|
                    0 <= k < tlist@.len() ==> (#[trigger] tlist@[k]).ressortgroupref != (
                    #[trigger] clauses@[i]).tle_sort_group_ref,
        },
    decreases clauses,
{
    match clauses {
        List::Nil => {
            assert(clauses@.len() == 0);
            let none: List<GroupColumn> = List::Nil;
            assert(none@.len() == 0);
        },
        List::Cons(c, cs) => {
            lemma_group_columns(*cs, tlist);
            lemma_labelled_entry(tlist, c.tle_sort_group_ref);
            assert(clauses@[0] == c);
            assert(forall|i: int| 0 <= i < cs@.len() ==> clauses@[i + 1] == #[trigger] cs@[i]);
            match group_columns(clauses, tlist) {
                Ok(cols) => {
                    let rest = group_columns(*cs, tlist)->Ok_0;
                    assert(forall|i: int|
                        1 <= i < cols@.len() ==> #[trigger] cols@[i] == rest@[i - 1]);
                    assert(forall|i: int|
                        1 <= i < clauses@.len() ==> #[trigger] clauses@[i] == cs@[i - 1]);
                },
                Err(_) => {
                    if crate::tlist::entry_for_ref(tlist, c.tle_sort_group_ref) is Some {
                        let i = choose|i: int|
                            0 <= i < cs@.len() && forall|k: int|
                                0 <= k < tlist@.len() ==> (#[trigger] tlist@[k]).ressortgroupref
                                    != (#[trigger] cs@[i]).tle_sort_group_ref;
                        assert(clauses@[i + 1] == cs@[i]);
                    }
                },
            }
        },
    }
}

/// The sides of a set operation are compared by one column for each clause, in
/// their order: by its equality where rows are hashed, by its sort operator
/// where they are sorted.
pub proof fn lemma_setop_columns(
    clauses: List<SortGroupClause>,
    tlist: List<TargetEntry>,
    hashed: bool,
)
    ensures
        setop_columns(clauses, tlist, hashed) matches Ok(cols) ==> cols@.len() == clauses@.len()
            && forall|i: int|
            0 <= i < cols@.len() ==> {
                &&& hashed ==> (#[trigger] cols@[i]).operator == clauses@[i].eqop
                &&& !hashed ==> cols@[i].operator == clauses@[i].sortop
                &&& cols@[i].nulls_first == clauses@[i].nulls_first
                &&& is_column_of(
                    tlist@,
                    clauses@[i].tle_sort_group_ref,
                    cols@[i].resno,
                    cols@[i].collation,
                )
            },
    decreases clauses,
{
    match clauses {
        List::Nil => {
            assert(clauses@.len() == 0);
            let none: List<SetOpColumn> = List::Nil;
            assert(none@.len() == 0);
        },
        List::Cons(c, cs) => {
            lemma_setop_columns(*cs, tlist, hashed);
            lemma_labelled_entry(tlist, c.tle_sort_group_ref);
            assert(clauses@[0] == c);
            if let Ok(cols) = setop_columns(clauses, tlist, hashed) {
                let rest = setop_columns(*cs, tlist, hashed)->Ok_0;
                assert(forall|i: int| 1 <= i < cols@.len() ==> #[trigger] cols@[i] == rest@[i - 1]);
                assert(forall|i: int|
                    1 <= i < clauses@.len() ==> #[trigger] clauses@[i] == cs@[i - 1]);
            }
        },
    }
}

/// Repeated rows are told by so many columns as are asked for, one for each of
/// the first keys of the order, and by equality.
pub proof fn lemma_unique_columns(
    ctx: SortContext,
    pathkeys: List<PathKey>,
    n: usize,
    tlist: List<TargetEntry>,
)
    ensures
        unique_columns(ctx, pathkeys, n, tlist) matches Ok(cols) ==> n <= pathkeys@.len()
            && cols@.len() == n && forall|i: int|
            0 <= i < n ==> (#[trigger] cols@[i]).operator.opfamily == pathkeys@[i].opfamily
                && cols@[i].operator.test == OrderTest::Equal && pathkeys@[i].eclass
                < ctx.classes@.len() && cols@[i].collation
                == ctx.classes@[pathkeys@[i].eclass as int].collation,
    decreases pathkeys,
{
    if n == 0 {
        let none: List<UniqueColumn> = List::Nil;
        assert(none@.len() == 0);
    } else if let List::Cons(k, ks) = pathkeys {
        lemma_unique_columns(ctx, *ks, (n - 1) as usize, tlist);
        assert(pathkeys@[0] == k);
        if let Ok(cols) = unique_columns(ctx, pathkeys, n, tlist) {
            let rest = unique_columns(ctx, *ks, (n - 1) as usize, tlist)->Ok_0;
            assert(forall|i: int| 1 <= i < cols@.len() ==> #[trigger] cols@[i] == rest@[i - 1]);
            assert(forall|i: int|
                1 <= i < pathkeys@.len() ==> #[trigger] pathkeys@[i] == ks@[i - 1]);
        }
    }
}

/// A child of an ordered Append has the order that is asked for: it is sorted
/// unless its own order begins with that. Its sort columns have the numbers of
/// those of the Append, so that rows of all children compare alike.
pub proof fn lemma_ordered_child(
    ctx: SortContext,
    plan: Plan,
    child_order: List<PathKey>,
    child_relids: Relids,
    pathkeys: List<PathKey>,
    numbers: List<i16>,
    limit: Option<u64>,
    enable_sort: bool,
)
    ensures
        ordered_child(
            ctx,
            plan,
            child_order,
            child_relids,
            pathkeys,
            numbers,
            limit,
            enable_sort,
        ) matches Ok(child) ==> {
            &&& numbers@.len() == pathkeys@.len()
            &&& plan.tlist@.len() <= child.tlist@.len()
            &&& !order_contained(pathkeys, child_order) ==> (
            child.node matches PlanNode::Sort(_, columns) && columns@.len() == pathkeys@.len()
                && forall|i: int|
                0 <= i < columns@.len() ==> (#[trigger] columns@[i]).resno == numbers@[i]
                    && columns@[i].operator.test == pathkeys@[i].direction
                    && columns@[i].nulls_first == pathkeys@[i].nulls_first)
        },
{
    crate::sortcols::lemma_sort_columns(
        ctx,
        pathkeys,
        plan.tlist,
        child_relids,
        Some(numbers),
    );
    if let Ok(cols) = crate::sortcols::sort_columns(
        ctx,
        pathkeys,
        plan.tlist,
        child_relids,
        Some(numbers),
    ) {
        lemma_column_numbers(cols.columns);
        lemma_same_length(cols.tlist, plan.tlist);
        assert forall|i: int| 0 <= i < pathkeys@.len() implies (
        #[trigger] cols.columns@[i]).operator.test == pathkeys@[i].direction
            && cols.columns@[i].nulls_first == pathkeys@[i].nulls_first by {
            crate::sortcols::lemma_sort_directions(
                ctx,
                pathkeys,
                plan.tlist,
                child_relids,
                Some(numbers),
                i,
            );
        }
    }
}

proof fn lemma_column_numbers(columns: List<SortColumn>)
    ensures
        column_numbers(columns)@.len() == columns@.len(),
        forall|i: int|
            0 <= i < columns@.len() ==> #[trigger] column_numbers(columns)@[i]
                == columns@[i].resno,
    decreases columns,
{
    match columns {
        List::Nil => {
            assert(columns@.len() == 0);
            let none: List<i16> = List::Nil;
            assert(none@.len() == 0);
        },
        List::Cons(c, cs) => {
            lemma_column_numbers(*cs);
            assert(forall|i: int|
                1 <= i < columns@.len() ==> #[trigger] column_numbers(columns)@[i]
                    == column_numbers(*cs)@[i - 1]);
        },
    }
}

proof fn lemma_same_length(a: List<TargetEntry>, b: List<TargetEntry>)
    ensures
        same_length(a, b) <==> a@.len() == b@.len(),
    decreases a,
{
    match a {
        List::Nil => {
            assert(a@.len() == 0);
            if let List::Cons(_, ys) = b {
                assert(b@.len() == 1 + ys@.len());
            }
        },
        List::Cons(_, xs) => {
            assert(a@.len() == 1 + xs@.len());
            match b {
                List::Nil => {
                    assert(b@.len() == 0);
                },
                List::Cons(_, ys) => {
                    lemma_same_length(*xs, *ys);
                },
            }
        },
    }
}

} // verus!

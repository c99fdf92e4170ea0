//! Plans that put the rows of several plans together.
use vstd::prelude::*;
use crate::error::PlannerError;
use crate::expr::{bind_exprs, Expr, TargetEntry};
use crate::list::List;
use crate::path::PathInfo;
use crate::plan::{inject_projection_plan, Plan, PlanNode};
use crate::planfinish::{build_own_tlist, make_node, PlanContext};
use crate::plangroup::{equal_length, prepare_ordered_append_child, sort_column_numbers};
use crate::quals::Rinfo;
use crate::relids::Relids;
use crate::sortcols::{prepare_sort_from_pathkeys, PathKey, SortColumn, SortColumns};
use crate::tlist::TlistFlags;

verus! {

/// The clauses that are not tested once.
pub open spec fn varying_clauses(clauses: List<Rinfo>) -> List<Expr>
    decreases clauses,
{
    match clauses {
        List::Nil => List::Nil,
        List::Cons(x, xs) => if x.pseudoconstant {
            varying_clauses(*xs)
        } else {
            List::Cons(x.clause, Box::new(varying_clauses(*xs)))
        },
    }
}

fn select_varying(clauses: &List<Rinfo>) -> (r: List<Expr>)
    ensures
        r == varying_clauses(*clauses),
    decreases clauses,
{
    match clauses {
        List::Nil => List::Nil,
        List::Cons(x, xs) => if x.pseudoconstant {
            select_varying(xs)
        } else {
            List::Cons(x.clause.copy(), Box::new(select_varying(xs)))
        },
    }
}

/// The conditions by which partitions can be left out: the restrictions, and
/// for a parameterized path the join clauses that it tests.
pub open spec fn prune_quals(
    ctx: PlanContext,
    info: PathInfo,
    clauses: List<Rinfo>,
    join_clauses: bool,
    outer: Relids,
) -> List<Expr> {
    if !ctx.enable_partition_pruning {
        List::Nil
    } else {
        match info.param {
            Some(param) if join_clauses => varying_clauses(clauses).then_list(
                crate::expr::bind_list(varying_clauses(param.clauses), outer),
            ),
            _ => varying_clauses(clauses),
        }
    }
}

fn collect_prune_quals(
    ctx: &PlanContext,
    info: &PathInfo,
    clauses: &List<Rinfo>,
    join_clauses: bool,
    outer: &Relids,
) -> (r: List<Expr>)
    ensures
        r == prune_quals(*ctx, *info, *clauses, join_clauses, *outer),
{
    if !ctx.enable_partition_pruning {
        return List::Nil;
    }
    let own = select_varying(clauses);
    match &info.param {
        Some(param) => if join_clauses {
            let more = bind_exprs(select_varying(&param.clauses), true, outer);
            own.append(more)
        } else {
            own
        },
        None => own,
    }
}

/// The columns that the rows are sorted by, for an order that is asked for.
#[verifier::opaque]
pub open spec fn append_columns(
    ctx: PlanContext,
    info: PathInfo,
    ordered: bool,
    outer: Relids,
) -> Result<SortColumns, PlannerError> {
    let own = crate::planfinish::own_tlist(info, outer);
    if ordered {
        crate::sortcols::sort_columns(ctx.sort, info.pathkeys, own, info.relids, None)
    } else {
        Ok(SortColumns { tlist: own, columns: List::Nil })
    }
}

/// Finds the columns that the rows are sorted by.
pub fn find_append_columns(
    ctx: &PlanContext,
    info: &PathInfo,
    ordered: bool,
    outer: &Relids,
) -> (r: Result<SortColumns, PlannerError>)
    ensures
        r == append_columns(*ctx, *info, ordered, *outer),
{
    proof {
        reveal(append_columns);
    }
    let own = build_own_tlist(info, outer);
    if ordered {
        prepare_sort_from_pathkeys(&ctx.sort, &info.pathkeys, own, &info.relids, None)
    } else {
        Ok(SortColumns { tlist: own, columns: List::Nil })
    }
}

/// One of the plans: in the order that is asked for, if there is one.
#[verifier::opaque]
pub open spec fn append_child(
    ctx: PlanContext,
    ordered: bool,
    pathkeys: List<PathKey>,
    columns: List<SortColumn>,
    limit: Option<u64>,
    child_order: List<PathKey>,
    child_relids: Relids,
    plan: Plan,
) -> Result<Plan, PlannerError> {
    if ordered {
        crate::plangroup::ordered_child(
            ctx.sort,
            plan,
            child_order,
            child_relids,
            pathkeys,
            crate::plangroup::column_numbers(columns),
            limit,
            ctx.enable_sort,
        )
    } else {
        Ok(plan)
    }
}

/// Brings one of the plans into the order that is asked for, if there is one.
pub fn prepare_append_child(
    ctx: &PlanContext,
    ordered: bool,
    pathkeys: &List<PathKey>,
    columns: &List<SortColumn>,
    limit: Option<u64>,
    child_order: &List<PathKey>,
    child_relids: &Relids,
    plan: Plan,
) -> (r: Result<Plan, PlannerError>)
    ensures
        r == append_child(
            *ctx,
            ordered,
            *pathkeys,
            *columns,
            limit,
            *child_order,
            *child_relids,
            plan,
        ),
{
    proof {
        reveal(append_child);
    }
    if ordered {
        let numbers = sort_column_numbers(columns);
        prepare_ordered_append_child(
            &ctx.sort,
            plan,
            child_order,
            child_relids,
            pathkeys,
            &numbers,
            limit,
            ctx.enable_sort,
        )
    } else {
        Ok(plan)
    }
}

/// The plan without the columns that were added to sort by, where the caller
/// wants none but its own.
pub open spec fn stripped(
    info: PathInfo,
    tlist: List<TargetEntry>,
    flags: TlistFlags,
    outer: Relids,
    plan: Plan,
) -> Plan {
    let own = crate::planfinish::own_tlist(info, outer);
    if !crate::plangroup::same_length(tlist, own) && (flags.exact || flags.small) {
        crate::plan::projection_over(plan, own, plan.costs.parallel_safe)
    } else {
        plan
    }
}

/// The rows of several plans, one after the other, or merged where `merge` is
/// set.
#[verifier::opaque]
pub open spec fn append_plan(
    ctx: PlanContext,
    info: PathInfo,
    merge: bool,
    first_partial: i32,
    clauses: List<Rinfo>,
    flags: TlistFlags,
    outer: Relids,
    cols: SortColumns,
    plans: List<Plan>,
) -> Plan {
    let quals = prune_quals(ctx, info, clauses, !merge, outer);
    stripped(
        info,
        cols.tlist,
        flags,
        outer,
        crate::planfinish::node_over(
            info,
            if merge {
                PlanNode::MergeAppend {
                    plans: Box::new(plans),
                    relids: info.relids,
                    columns: cols.columns,
                    prune_quals: quals,
                }
            } else {
                PlanNode::Append {
                    plans: Box::new(plans),
                    relids: info.relids,
                    first_partial,
                    prune_quals: quals,
                }
            },
            cols.tlist,
            List::Nil,
        ),
    )
}

/// Puts the rows of several plans together.
pub fn create_append_plan(
    ctx: &PlanContext,
    info: &PathInfo,
    merge: bool,
    first_partial: i32,
    clauses: &List<Rinfo>,
    flags: TlistFlags,
    outer: &Relids,
    cols: SortColumns,
    plans: List<Plan>,
) -> (r: Plan)
    ensures
        r == append_plan(
            *ctx,
            *info,
            merge,
            first_partial,
            *clauses,
            flags,
            *outer,
            cols,
            plans,
        ),
{
    proof {
        reveal(append_plan);
    }
    let quals = collect_prune_quals(ctx, info, clauses, !merge, outer);
    let own = build_own_tlist(info, outer);
    let strip = !equal_length(&cols.tlist, &own) && (flags.exact || flags.small);
    let node = if merge {
        PlanNode::MergeAppend {
            plans: Box::new(plans),
            relids: info.relids.copy(),
            columns: cols.columns,
            prune_quals: quals,
        }
    } else {
        PlanNode::Append {
            plans: Box::new(plans),
            relids: info.relids.copy(),
            first_partial,
            prune_quals: quals,
        }
    };
    let plan = make_node(info, node, cols.tlist, List::Nil);
    let safe = plan.costs.parallel_safe;
    if strip {
        inject_projection_plan(plan, own, safe)
    } else {
        plan
    }
}

/// Partitions are pruned by nothing but clauses that the rows have to satisfy:
/// each condition is one of the clauses, or, where those of a join are used, one
/// that the parameters allow; and none is used where pruning is off.
pub proof fn lemma_prune_quals(
    ctx: PlanContext,
    info: PathInfo,
    clauses: List<Rinfo>,
    join_clauses: bool,
    outer: Relids,
    k: int,
)
    requires
        0 <= k < prune_quals(ctx, info, clauses, join_clauses, outer)@.len(),
    ensures
        ({
            let e = prune_quals(ctx, info, clauses, join_clauses, outer)@[k];
            &&& ctx.enable_partition_pruning
            &&& {
                ||| exists|i: int|
                    0 <= i < clauses@.len() && !(#[trigger] clauses@[i]).pseudoconstant
                        && clauses@[i].clause == e
                ||| join_clauses && (info.param matches Some(p) && exists|i: int|
                    0 <= i < p.clauses@.len() && !(#[trigger] p.clauses@[i]).pseudoconstant
                        && crate::expr::bind(p.clauses@[i].clause, outer) == e)
            }
        }),
{
    let own = varying_clauses(clauses);
    let e = prune_quals(ctx, info, clauses, join_clauses, outer)@[k];
    let none: List<Expr> = List::Nil;
    assert(none@.len() == 0);
    match info.param {
        Some(p) if join_clauses => {
            let more = varying_clauses(p.clauses);
            let bound = crate::expr::bind_list(more, outer);
            crate::list::lemma_then_view(own, bound);
            lemma_bound_list(more, outer);
            if k < own@.len() {
                lemma_varying(clauses, k);
            } else {
                lemma_varying(p.clauses, k - own@.len());
                assert(e == crate::expr::bind(more@[k - own@.len()], outer));
            }
        },
        _ => {
            lemma_varying(clauses, k);
        },
    }
}

proof fn lemma_varying(clauses: List<Rinfo>, k: int)
    requires
        0 <= k < varying_clauses(clauses)@.len(),
    ensures
        exists|i: int|
            0 <= i < clauses@.len() && !(#[trigger] clauses@[i]).pseudoconstant
                && clauses@[i].clause == varying_clauses(clauses)@[k],
    decreases clauses,
{
    if let List::Cons(x, xs) = clauses {
        assert(clauses@[0] == x);
        if !x.pseudoconstant && k == 0 {
            assert(clauses@[0].clause == varying_clauses(clauses)@[k]);
        } else {
            let at = if x.pseudoconstant {
                k
            } else {
                k - 1
            };
            lemma_varying(*xs, at);
            let i = choose|i: int|
                0 <= i < xs@.len() && !(#[trigger] xs@[i]).pseudoconstant && xs@[i].clause
                    == varying_clauses(*xs)@[at];
            assert(clauses@[i + 1] == xs@[i]);
        }
    }
}

proof fn lemma_bound_list(l: List<Expr>, outer: Relids)
    ensures
        crate::expr::bind_list(l, outer)@.len() == l@.len(),
        forall|i: int|
            0 <= i < l@.len() ==> #[trigger] crate::expr::bind_list(l, outer)@[i]
                == crate::expr::bind(l@[i], outer),
    decreases l,
{
    match l {
        List::Nil => {
            assert(l@.len() == 0);
        },
        List::Cons(x, xs) => {
            lemma_bound_list(*xs, outer);
            assert(forall|i: int|
                1 <= i < l@.len() ==> #[trigger] crate::expr::bind_list(l, outer)@[i]
                    == crate::expr::bind_list(*xs, outer)@[i - 1]);
        },
    }
}

/// The rows of all plans are put together, in the order of the paths: one after
/// the other, or merged by the columns of the order.
pub proof fn lemma_append_plan(
    ctx: PlanContext,
    info: PathInfo,
    merge: bool,
    first_partial: i32,
    clauses: List<Rinfo>,
    flags: TlistFlags,
    outer: Relids,
    cols: SortColumns,
    plans: List<Plan>,
)
    ensures
        ({
            let top = append_plan(
                ctx,
                info,
                merge,
                first_partial,
                clauses,
                flags,
                outer,
                cols,
                plans,
            );
            let plan = crate::joinplan::below_gate(top);
            &&& plan.qual@.len() == 0
            &&& plan.tlist == cols.tlist
            &&& merge ==> (plan.node matches PlanNode::MergeAppend {
                plans: children,
                relids,
                columns,
                prune_quals,
            } && *children == plans && columns == cols.columns)
            &&& !merge ==> (plan.node matches PlanNode::Append {
                plans: children,
                relids,
                first_partial: first,
                prune_quals,
            } && *children == plans && first == first_partial)
        }),
{
    reveal(append_plan);
    let nothing: List<Expr> = List::Nil;
    assert(nothing@.len() == 0);
}

} // verus!

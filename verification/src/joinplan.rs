//! Plans of joins.
use vstd::prelude::*;
use crate::error::PlannerError;
use crate::expr::{
    bind_exprs, copy_exprs, copy_tlist, equal, make_entry, next_column, replace_nestloop_params, Expr,
    TargetEntry,
};
use crate::list::List;
use crate::path::{JoinClause, PathInfo};
use crate::plan::{
    change_plan_targetlist, Amounts, JoinFields, Plan, PlanCosts, PlanNode,
};
use crate::planfinish::{build_own_tlist, make_node, PlanContext};
use crate::plangroup::{make_incrementalsort_from_pathkeys, make_sort_from_pathkeys};
use crate::planjoin::{collect_join_clauses, find_merge_keys, get_switched_clauses};
use crate::quals::{
    extract_actual_clauses, extract_actual_join_clauses, get_gating_quals, list_difference,
    order_qual_clauses, Rinfo,
};
use crate::rel::{is_outer_join, JoinType};
use crate::relids::Relids;
use crate::scanplan::gate_plan;
use crate::sortcols::PathKey;

verus! {

/// The clauses that decide whether two rows match, in the order of their
/// tests. For an outer join, those that were pushed down to it from above are
/// not among them.
pub open spec fn join_quals(
    jointype: JoinType,
    clauses: List<Rinfo>,
    cheap: u64,
) -> List<Expr> {
    let ordered = crate::quals::ordered_quals(clauses, cheap);
    if crate::rel::is_outer_jointype(jointype) {
        crate::quals::actual_join_clauses(ordered, false)
    } else {
        crate::quals::actual_clauses(ordered)
    }
}

/// The clauses that are tested on the rows of an outer join.
pub open spec fn other_quals(
    jointype: JoinType,
    clauses: List<Rinfo>,
    cheap: u64,
) -> List<Expr> {
    let ordered = crate::quals::ordered_quals(clauses, cheap);
    if crate::rel::is_outer_jointype(jointype) {
        crate::quals::actual_join_clauses(ordered, true)
    } else {
        List::Nil
    }
}

fn split_join_quals(jointype: JoinType, clauses: &List<Rinfo>, cheap: u64) -> (r: (
    List<Expr>,
    List<Expr>,
))
    ensures
        r.0 == join_quals(jointype, *clauses, cheap),
        r.1 == other_quals(jointype, *clauses, cheap),
{
    let ordered = order_qual_clauses(clauses, cheap);
    if is_outer_join(jointype) {
        extract_actual_join_clauses(&ordered)
    } else {
        (extract_actual_clauses(&ordered), List::Nil)
    }
}

/// The join under the conditions that are tested once, if there are any.
pub open spec fn gated_join(
    ctx: PlanContext,
    info: PathInfo,
    restrictinfo: List<Rinfo>,
    outer: Relids,
    plan: Plan,
) -> Plan {
    crate::scanplan::gated_if(
        info,
        crate::quals::gating_quals(ctx.has_pseudoconstant_quals, restrictinfo, ctx.cheap),
        outer,
        plan,
    )
}

fn gate_join(
    ctx: &PlanContext,
    info: &PathInfo,
    restrictinfo: &List<Rinfo>,
    outer: &Relids,
    plan: Plan,
) -> (r: Plan)
    ensures
        r == gated_join(*ctx, *info, *restrictinfo, *outer, plan),
{
    let gating = get_gating_quals(ctx.has_pseudoconstant_quals, restrictinfo, ctx.cheap);
    gate_plan(info, gating, outer, plan)
}

/// Some entry computes the expression.
pub open spec fn computes(tlist: List<TargetEntry>, e: Expr) -> bool
    decreases tlist,
{
    match tlist {
        List::Nil => false,
        List::Cons(t, ts) => crate::expr::same_expr(t.expr, e) || computes(*ts, e),
    }
}

fn has_entry_for(tlist: &List<TargetEntry>, e: &Expr) -> (r: bool)
    ensures
        r == computes(*tlist, *e),
    decreases tlist,
{
    match tlist {
        List::Nil => false,
        List::Cons(t, ts) => equal(&t.expr, e) || has_entry_for(ts, e),
    }
}

/// A placeholder whose contents no longer refer to outer relations.
pub open spec fn bound_placeholder(e: Expr, outer: Relids) -> Expr {
    match e {
        Expr::PlaceHolder { phid, levelsup, nullingrels, eval_at, expr } => Expr::PlaceHolder {
            phid,
            levelsup,
            nullingrels,
            eval_at,
            expr: Box::new(crate::expr::bind(*expr, outer)),
        },
        _ => e,
    }
}

fn bind_placeholder(e: Expr, outer: &Relids) -> (r: Expr)
    ensures
        r == bound_placeholder(e, *outer),
{
    match e {
        Expr::PlaceHolder { phid, levelsup, nullingrels, eval_at, expr } => {
            let inner = replace_nestloop_params(&expr, outer);
            Expr::PlaceHolder { phid, levelsup, nullingrels, eval_at, expr: Box::new(inner) }
        },
        other => other,
    }
}

/// The target list of the outer side, with the placeholders that the inner
/// side takes as parameters, and whether all that was added is parallel-safe.
/// Columns are there already.
pub open spec fn with_params(
    tlist: List<TargetEntry>,
    params: List<Expr>,
    params_safe: List<bool>,
    safe: bool,
    outer: Relids,
) -> (List<TargetEntry>, bool)
    decreases params,
{
    match params {
        List::Nil => (tlist, safe),
        List::Cons(p, ps) => {
            let p_safe = params_safe matches List::Cons(s, _) && s;
            let rest_safe = match params_safe {
                List::Cons(_, rest) => *rest,
                List::Nil => List::Nil,
            };
            if p is Var || computes(tlist, p) {
                with_params(tlist, *ps, rest_safe, safe, outer)
            } else {
                with_params(
                    tlist.then_list(
                        List::Cons(
                            crate::expr::plain_entry(
                                bound_placeholder(p, outer),
                                crate::expr::resno_after(tlist, 0),
                                0,
                                true,
                            ),
                            Box::new(List::Nil),
                        ),
                    ),
                    *ps,
                    rest_safe,
                    safe && p_safe,
                    outer,
                )
            }
        },
    }
}

fn add_params(
    tlist: List<TargetEntry>,
    params: List<Expr>,
    params_safe: &List<bool>,
    safe: bool,
    outer: &Relids,
) -> (r: (List<TargetEntry>, bool))
    ensures
        r == with_params(tlist, params, *params_safe, safe, *outer),
    decreases params,
{
    match params {
        List::Nil => (tlist, safe),
        List::Cons(p, ps) => {
            let is_var = match &p {
                Expr::Var(_) => true,
                _ => false,
            };
            let there = is_var || has_entry_for(&tlist, &p);
            let (tlist, now_safe) = if there {
                (tlist, safe)
            } else {
                let resno: i16 = next_column(&tlist, 0);
                let p_safe = match params_safe {
                    List::Cons(s, _) => *s,
                    List::Nil => false,
                };
                let entry = make_entry(bind_placeholder(p, outer), resno, 0, true);
                (tlist.append(List::one(entry)), safe && p_safe)
            };
            match params_safe {
                List::Cons(_, rest) => add_params(tlist, *ps, rest, now_safe, outer),
                List::Nil => {
                    let none: List<bool> = List::Nil;
                    add_params(tlist, *ps, &none, now_safe, outer)
                },
            }
        },
    }
}

/// The outer side of a nested loop, which also computes the placeholders that
/// the inner side takes as parameters.
pub open spec fn nest_outer(
    params: List<Expr>,
    params_safe: List<bool>,
    outer: Relids,
    plan: Plan,
) -> Plan {
    let added = with_params(plan.tlist, params, params_safe, plan.costs.parallel_safe, outer);
    if crate::plangroup::same_length(added.0, plan.tlist) {
        plan
    } else {
        crate::plan::with_targetlist(plan, added.0, added.1)
    }
}

/// A nested loop.
#[verifier::opaque]
pub open spec fn nestloop_plan(
    ctx: PlanContext,
    info: PathInfo,
    jointype: JoinType,
    inner_unique: bool,
    restrictinfo: List<Rinfo>,
    params: List<Expr>,
    params_safe: List<bool>,
    outer: Relids,
    outer_plan: Plan,
    inner_plan: Plan,
) -> Plan {
    let p = info.param is Some;
    gated_join(
        ctx,
        info,
        restrictinfo,
        outer,
        crate::planfinish::node_over(
            info,
            PlanNode::NestLoop {
                join: JoinFields {
                    jointype,
                    inner_unique,
                    joinqual: crate::expr::bind_list_if(
                        join_quals(jointype, restrictinfo, ctx.cheap),
                        p,
                        outer,
                    ),
                },
                outer: Box::new(nest_outer(params, params_safe, outer, outer_plan)),
                inner: Box::new(inner_plan),
            },
            crate::planfinish::own_tlist(info, outer),
            crate::expr::bind_list_if(other_quals(jointype, restrictinfo, ctx.cheap), p, outer),
        ),
    )
}

/// Makes a nested loop.
pub fn create_nestloop_plan(
    ctx: &PlanContext,
    info: &PathInfo,
    jointype: JoinType,
    inner_unique: bool,
    restrictinfo: &List<Rinfo>,
    params: List<Expr>,
    params_safe: &List<bool>,
    outer: &Relids,
    outer_plan: Plan,
    inner_plan: Plan,
) -> (r: Plan)
    ensures
        r == nestloop_plan(
            *ctx,
            *info,
            jointype,
            inner_unique,
            *restrictinfo,
            params,
            *params_safe,
            *outer,
            outer_plan,
            inner_plan,
        ),
{
    proof {
        reveal(nestloop_plan);
    }
    let p = info.param.is_some();
    let (joinqual, otherqual) = split_join_quals(jointype, restrictinfo, ctx.cheap);
    let (tlist, safe) = add_params(
        copy_tlist(&outer_plan.tlist),
        params,
        params_safe,
        outer_plan.costs.parallel_safe,
        outer,
    );
    let outer_plan = if crate::plangroup::equal_length(&tlist, &outer_plan.tlist) {
        outer_plan
    } else {
        change_plan_targetlist(outer_plan, tlist, safe)
    };
    let node = PlanNode::NestLoop {
        join: JoinFields { jointype, inner_unique, joinqual: bind_exprs(joinqual, p, outer) },
        outer: Box::new(outer_plan),
        inner: Box::new(inner_plan),
    };
    let plan = make_node(
        info,
        node,
        build_own_tlist(info, outer),
        bind_exprs(otherqual, p, outer),
    );
    gate_join(ctx, info, restrictinfo, outer, plan)
}

/// The inner side of a hash join: a table of the rows.
pub open spec fn hash_of(
    inner_plan: Plan,
    hashkeys: List<Expr>,
    parallel_aware: bool,
    inner_rows_total: u64,
) -> Plan {
    Plan {
        tlist: inner_plan.tlist,
        qual: List::Nil,
        costs: PlanCosts {
            disabled_nodes: 0,
            amounts: Amounts::Hash,
            width: inner_plan.costs.width,
            parallel_aware,
            parallel_safe: false,
        },
        node: PlanNode::Hash {
            input: Box::new(inner_plan),
            hashkeys,
            rows_total: if parallel_aware {
                Some(inner_rows_total)
            } else {
                None
            },
        },
    }
}

/// A hash join. The clauses that it hashes by are not tested again.
#[verifier::opaque]
pub open spec fn hashjoin_plan(
    ctx: PlanContext,
    info: PathInfo,
    jointype: JoinType,
    inner_unique: bool,
    restrictinfo: List<Rinfo>,
    clauses: List<JoinClause>,
    inner_rows_total: u64,
    outer_relids: Relids,
    outer: Relids,
    outer_plan: Plan,
    inner_plan: Plan,
) -> Result<Plan, PlannerError> {
    let p = info.param is Some;
    match crate::planjoin::switched_clauses(clauses, outer_relids) {
        Err(e) => Err(e),
        Ok(switched) => Ok(
            gated_join(
                ctx,
                info,
                restrictinfo,
                outer,
                crate::planfinish::node_over(
                    info,
                    PlanNode::HashJoin {
                        join: JoinFields {
                            jointype,
                            inner_unique,
                            joinqual: crate::expr::bind_list_if(
                                crate::quals::expr_difference(
                                    join_quals(jointype, restrictinfo, ctx.cheap),
                                    crate::planjoin::join_clause_exprs(clauses),
                                ),
                                p,
                                outer,
                            ),
                        },
                        clauses: switched,
                        outer: Box::new(outer_plan),
                        inner: Box::new(
                            hash_of(
                                inner_plan,
                                switched.inner_keys,
                                info.parallel_aware,
                                inner_rows_total,
                            ),
                        ),
                    },
                    crate::planfinish::own_tlist(info, outer),
                    crate::expr::bind_list_if(
                        other_quals(jointype, restrictinfo, ctx.cheap),
                        p,
                        outer,
                    ),
                ),
            ),
        ),
    }
}

/// Makes a hash join.
pub fn create_hashjoin_plan(
    ctx: &PlanContext,
    info: &PathInfo,
    jointype: JoinType,
    inner_unique: bool,
    restrictinfo: &List<Rinfo>,
    clauses: &List<JoinClause>,
    inner_rows_total: u64,
    outer_relids: &Relids,
    outer: &Relids,
    outer_plan: Plan,
    inner_plan: Plan,
) -> (r: Result<Plan, PlannerError>)
    ensures
        r == hashjoin_plan(
            *ctx,
            *info,
            jointype,
            inner_unique,
            *restrictinfo,
            *clauses,
            inner_rows_total,
            *outer_relids,
            *outer,
            outer_plan,
            inner_plan,
        ),
{
    proof {
        reveal(hashjoin_plan);
    }
    let p = info.param.is_some();
    let (joinqual, otherqual) = split_join_quals(jointype, restrictinfo, ctx.cheap);
    let used = collect_join_clauses(clauses);
    let joinqual = list_difference(&joinqual, &used);
    let switched = match get_switched_clauses(clauses, outer_relids) {
        Err(e) => {
            return Err(e);
        },
        Ok(s) => s,
    };
    let aware = info.parallel_aware;
    let hash = Plan {
        tlist: copy_tlist(&inner_plan.tlist),
        qual: List::Nil,
        costs: PlanCosts {
            disabled_nodes: 0,
            amounts: Amounts::Hash,
            width: inner_plan.costs.width,
            parallel_aware: aware,
            parallel_safe: false,
        },
        node: PlanNode::Hash {
            input: Box::new(inner_plan),
            hashkeys: copy_exprs(&switched.inner_keys),
            rows_total: if aware {
                Some(inner_rows_total)
            } else {
                None
            },
        },
    };
    let node = PlanNode::HashJoin {
        join: JoinFields { jointype, inner_unique, joinqual: bind_exprs(joinqual, p, outer) },
        clauses: switched,
        outer: Box::new(outer_plan),
        inner: Box::new(hash),
    };
    let plan = make_node(
        info,
        node,
        build_own_tlist(info, outer),
        bind_exprs(otherqual, p, outer),
    );
    Ok(gate_join(ctx, info, restrictinfo, outer, plan))
}

/// One side of a merge join, sorted where that is asked for.
pub open spec fn merge_side(
    ctx: PlanContext,
    sortkeys: List<PathKey>,
    presorted: i32,
    relids: Relids,
    plan: Plan,
) -> Result<Plan, PlannerError> {
    if sortkeys is Nil {
        Ok(plan)
    } else if ctx.enable_incremental_sort && presorted > 0 {
        crate::plangroup::incrementally_sorted(ctx.sort, plan, sortkeys, relids, presorted)
    } else {
        crate::plangroup::sorted_by_pathkeys(ctx.sort, plan, sortkeys, relids, ctx.enable_sort)
    }
}

fn make_merge_side(
    ctx: &PlanContext,
    sortkeys: &List<PathKey>,
    presorted: i32,
    relids: &Relids,
    plan: Plan,
) -> (r: Result<Plan, PlannerError>)
    ensures
        r == merge_side(*ctx, *sortkeys, presorted, *relids, plan),
{
    if sortkeys.is_nil() {
        Ok(plan)
    } else if ctx.enable_incremental_sort && presorted > 0 {
        make_incrementalsort_from_pathkeys(&ctx.sort, plan, sortkeys, relids, presorted)
    } else {
        make_sort_from_pathkeys(&ctx.sort, plan, sortkeys, relids, ctx.enable_sort)
    }
}

/// The inner side of a merge join, kept where the join has to go back in it.
pub open spec fn kept_if(materialize: bool, plan: Plan) -> Plan {
    if materialize {
        Plan {
            tlist: plan.tlist,
            qual: List::Nil,
            costs: PlanCosts { amounts: Amounts::Material, parallel_aware: false, ..plan.costs },
            node: PlanNode::Material(Box::new(plan)),
        }
    } else {
        plan
    }
}

fn keep_if(materialize: bool, plan: Plan) -> (r: Plan)
    ensures
        r == kept_if(materialize, plan),
{
    if materialize {
        let mut costs = plan.costs;
        costs.amounts = Amounts::Material;
        costs.parallel_aware = false;
        Plan {
            tlist: copy_tlist(&plan.tlist),
            qual: List::Nil,
            costs,
            node: PlanNode::Material(Box::new(plan)),
        }
    } else {
        plan
    }
}

/// The order of one side of a merge join: the one that it is sorted into, or
/// its own.
pub open spec fn side_order(sortkeys: List<PathKey>, own: List<PathKey>) -> List<PathKey> {
    if sortkeys is Nil {
        own
    } else {
        sortkeys
    }
}

/// What a merge join does beside what every join does.
#[derive(Debug)]
pub struct MergeParts {
    pub clauses: List<JoinClause>,
    pub outersortkeys: List<PathKey>,
    pub innersortkeys: List<PathKey>,
    pub skip_mark_restore: bool,
    pub materialize_inner: bool,
    pub outer_presorted: i32,
}

/// What is known of a side of a join.
#[derive(Debug)]
pub struct JoinSide {
    pub relids: Relids,
    pub pathkeys: List<PathKey>,
}

/// A merge join. The clauses that it merges by are not tested again.
#[verifier::opaque]
pub open spec fn mergejoin_plan(
    ctx: PlanContext,
    info: PathInfo,
    jointype: JoinType,
    inner_unique: bool,
    restrictinfo: List<Rinfo>,
    parts: MergeParts,
    outer_side: JoinSide,
    inner_side: JoinSide,
    outer: Relids,
    outer_plan: Plan,
    inner_plan: Plan,
) -> Result<Plan, PlannerError> {
    let p = info.param is Some;
    match crate::planjoin::switched_clauses(parts.clauses, outer_side.relids) {
        Err(e) => Err(e),
        Ok(switched) => match merge_side(
            ctx,
            parts.outersortkeys,
            parts.outer_presorted,
            outer_side.relids,
            outer_plan,
        ) {
            Err(e) => Err(e),
            Ok(left) => match merge_side(
                ctx,
                parts.innersortkeys,
                0,
                inner_side.relids,
                inner_plan,
            ) {
                Err(e) => Err(e),
                Ok(right) => match crate::planjoin::merge_keys(
                    ctx.sort,
                    parts.clauses,
                    outer_side.relids,
                    None,
                    side_order(parts.outersortkeys, outer_side.pathkeys),
                    List::Nil,
                    side_order(parts.innersortkeys, inner_side.pathkeys),
                ) {
                    Err(e) => Err(e),
                    Ok(keys) => Ok(
                        gated_join(
                            ctx,
                            info,
                            restrictinfo,
                            outer,
                            crate::planfinish::node_over(
                                info,
                                PlanNode::MergeJoin {
                                    join: JoinFields {
                                        jointype,
                                        inner_unique,
                                        joinqual: crate::expr::bind_list_if(
                                            crate::quals::expr_difference(
                                                join_quals(jointype, restrictinfo, ctx.cheap),
                                                crate::planjoin::join_clause_exprs(parts.clauses),
                                            ),
                                            p,
                                            outer,
                                        ),
                                    },
                                    clauses: switched,
                                    keys,
                                    skip_mark_restore: parts.skip_mark_restore,
                                    outer: Box::new(left),
                                    inner: Box::new(kept_if(parts.materialize_inner, right)),
                                },
                                crate::planfinish::own_tlist(info, outer),
                                crate::expr::bind_list_if(
                                    other_quals(jointype, restrictinfo, ctx.cheap),
                                    p,
                                    outer,
                                ),
                            ),
                        ),
                    ),
                },
            },
        },
    }
}

/// Makes a merge join.
pub fn create_mergejoin_plan(
    ctx: &PlanContext,
    info: &PathInfo,
    jointype: JoinType,
    inner_unique: bool,
    restrictinfo: &List<Rinfo>,
    parts: &MergeParts,
    outer_side: &JoinSide,
    inner_side: &JoinSide,
    outer: &Relids,
    outer_plan: Plan,
    inner_plan: Plan,
) -> (r: Result<Plan, PlannerError>)
    ensures
        r == mergejoin_plan(
            *ctx,
            *info,
            jointype,
            inner_unique,
            *restrictinfo,
            *parts,
            *outer_side,
            *inner_side,
            *outer,
            outer_plan,
            inner_plan,
        ),
{
    proof {
        reveal(mergejoin_plan);
    }
    let p = info.param.is_some();
    let (joinqual, otherqual) = split_join_quals(jointype, restrictinfo, ctx.cheap);
    let used = collect_join_clauses(&parts.clauses);
    let joinqual = list_difference(&joinqual, &used);
    let switched = match get_switched_clauses(&parts.clauses, &outer_side.relids) {
        Err(e) => {
            return Err(e);
        },
        Ok(s) => s,
    };
    let left = match make_merge_side(
        ctx,
        &parts.outersortkeys,
        parts.outer_presorted,
        &outer_side.relids,
        outer_plan,
    ) {
        Err(e) => {
            return Err(e);
        },
        Ok(l) => l,
    };
    let right = match make_merge_side(
        ctx,
        &parts.innersortkeys,
        0,
        &inner_side.relids,
        inner_plan,
    ) {
        Err(e) => {
            return Err(e);
        },
        Ok(l) => l,
    };
    let outer_order = if parts.outersortkeys.is_nil() {
        &outer_side.pathkeys
    } else {
        &parts.outersortkeys
    };
    let inner_order = if parts.innersortkeys.is_nil() {
        &inner_side.pathkeys
    } else {
        &parts.innersortkeys
    };
    let keys = match find_merge_keys(
        &ctx.sort,
        &parts.clauses,
        &outer_side.relids,
        None,
        outer_order,
        List::Nil,
        inner_order,
    ) {
        Err(e) => {
            return Err(e);
        },
        Ok(k) => k,
    };
    let node = PlanNode::MergeJoin {
        join: JoinFields { jointype, inner_unique, joinqual: bind_exprs(joinqual, p, outer) },
        clauses: switched,
        keys,
        skip_mark_restore: parts.skip_mark_restore,
        outer: Box::new(left),
        inner: Box::new(keep_if(parts.materialize_inner, right)),
    };
    let plan = make_node(
        info,
        node,
        build_own_tlist(info, outer),
        bind_exprs(otherqual, p, outer),
    );
    Ok(gate_join(ctx, info, restrictinfo, outer, plan))
}

/// One of the clauses that a join hashes or merges by equals the expression.
pub open spec fn is_own_clause(own: Seq<JoinClause>, e: Expr) -> bool {
    exists|j: int|
        0 <= j < own.len() && crate::expr::same_expr((#[trigger] own[j]).rinfo.clause, e)
}

/// How the clauses of a join are tested. Where rows without a partner count, a
/// clause of the join itself decides which rows match, and one that was pushed
/// down to it is tested on the result; else all clauses decide which rows
/// match. Those that the join hashes or merges by are not tested again.
pub open spec fn quals_apart(
    jointype: JoinType,
    restrictinfo: Seq<Rinfo>,
    own: Seq<JoinClause>,
    parameterized: bool,
    outer: Relids,
    joinqual: Seq<Expr>,
    qual: Seq<Expr>,
) -> bool {
    let unmatched = jointype is Left || jointype is Full || jointype is Right || jointype is Anti
        || jointype is RightAnti;
    let shown = crate::quals::as_tested(parameterized, outer);
    &&& crate::quals::picks(
        restrictinfo,
        |r: Rinfo|
            crate::quals::is_row_test(r) && !(unmatched && r.pushed_down) && !is_own_clause(
                own,
                r.clause,
            ),
        shown,
        joinqual,
    )
    &&& crate::quals::picks(
        restrictinfo,
        |r: Rinfo| crate::quals::is_row_test(r) && unmatched && r.pushed_down,
        shown,
        qual,
    )
}

/// The plan below the conditions that are tested once, if there are any.
pub open spec fn below_gate(plan: Plan) -> Plan {
    match plan.node {
        PlanNode::Result(Some(input), _) => *input,
        _ => plan,
    }
}

proof fn lemma_gated_join(
    ctx: PlanContext,
    info: PathInfo,
    restrictinfo: List<Rinfo>,
    outer: Relids,
)
    ensures
        forall|plan: Plan|
            !(plan.node is Result) ==> crate::scanplan::is_gated_by(
                ctx,
                restrictinfo@,
                #[trigger] gated_join(ctx, info, restrictinfo, outer, plan),
            ),
{
    assert forall|plan: Plan| !(plan.node is Result) implies crate::scanplan::is_gated_by(
        ctx,
        restrictinfo@,
        #[trigger] gated_join(ctx, info, restrictinfo, outer, plan),
    ) by {
        crate::scanplan::lemma_gated(ctx, info, restrictinfo, outer, plan);
    }
}

proof fn lemma_own_clause(own: List<JoinClause>, e: Expr)
    ensures
        crate::expr::has_same(crate::planjoin::join_clause_exprs(own), e) <==> is_own_clause(
            own@,
            e,
        ),
    decreases own,
{
    match own {
        List::Nil => {
            assert(own@.len() == 0);
        },
        List::Cons(c, cs) => {
            lemma_own_clause(*cs, e);
            assert(own@[0] == c);
            if is_own_clause(cs@, e) {
                let j = choose|j: int|
                    0 <= j < cs@.len() && crate::expr::same_expr(
                        (#[trigger] cs@[j]).rinfo.clause,
                        e,
                    );
                assert(own@[j + 1] == cs@[j]);
            }
            if is_own_clause(own@, e) && !crate::expr::same_expr(c.rinfo.clause, e) {
                let j = choose|j: int|
                    0 <= j < own@.len() && crate::expr::same_expr(
                        (#[trigger] own@[j]).rinfo.clause,
                        e,
                    );
                assert(own@[j] == cs@[j - 1]);
            }
        },
    }
}

proof fn lemma_quals_apart(
    jointype: JoinType,
    restrictinfo: List<Rinfo>,
    own: List<JoinClause>,
    cheap: u64,
    parameterized: bool,
    outer: Relids,
)
    ensures
        quals_apart(
            jointype,
            restrictinfo@,
            own@,
            parameterized,
            outer,
            crate::expr::bind_list_if(
                crate::quals::expr_difference(
                    join_quals(jointype, restrictinfo, cheap),
                    crate::planjoin::join_clause_exprs(own),
                ),
                parameterized,
                outer,
            )@,
            crate::expr::bind_list_if(
                other_quals(jointype, restrictinfo, cheap),
                parameterized,
                outer,
            )@,
        ),
{
    let unmatched = jointype is Left || jointype is Full || jointype is Right || jointype is Anti
        || jointype is RightAnti;
    let shown = crate::quals::as_tested(parameterized, outer);
    let used = crate::planjoin::join_clause_exprs(own);
    let none: List<Expr> = List::Nil;
    let ordered = crate::quals::ordered_quals(restrictinfo, cheap);
    let deciding = |r: Rinfo|
        crate::quals::is_row_test(r) && !(unmatched && r.pushed_down) && !is_own_clause(
            own@,
            r.clause,
        );
    let filtering = |r: Rinfo| crate::quals::is_row_test(r) && unmatched && r.pushed_down;
    assert forall|e: Expr| crate::expr::has_same(used, e) == is_own_clause(own@, e) by {
        lemma_own_clause(own, e);
    }
    let joinqual = crate::expr::bind_list_if(
        crate::quals::expr_difference(join_quals(jointype, restrictinfo, cheap), used),
        parameterized,
        outer,
    )@;
    let qual = crate::expr::bind_list_if(
        other_quals(jointype, restrictinfo, cheap),
        parameterized,
        outer,
    )@;
    if unmatched {
        crate::quals::lemma_actual_join_picked(ordered, false, used, parameterized, outer);
        let f = |r: Rinfo|
            crate::quals::is_row_test(r) && r.pushed_down == false && !crate::expr::has_same(
                used,
                r.clause,
            );
        assert(f =~= deciding);
        crate::quals::lemma_actual_join_picked(ordered, true, none, parameterized, outer);
        crate::quals::lemma_difference_nothing(crate::quals::actual_join_clauses(ordered, true));
        let g = |r: Rinfo|
            crate::quals::is_row_test(r) && r.pushed_down == true && !crate::expr::has_same(
                none,
                r.clause,
            );
        assert(g =~= filtering);
    } else {
        crate::quals::lemma_actual_picked(ordered, used, parameterized, outer);
        let f = |r: Rinfo|
            crate::quals::is_row_test(r) && !crate::expr::has_same(used, r.clause);
        assert(f =~= deciding);
        assert(ordered@.filter(filtering).len() == 0) by {
            if ordered@.filter(filtering).len() > 0 {
                ordered@.lemma_filter_pred(filtering, 0);
            }
        }
        assert(qual =~= ordered@.filter(filtering).map_values(|r: Rinfo| shown(r.clause)));
    }
    crate::quals::lemma_picked_in_order(restrictinfo, cheap, deciding, shown, joinqual);
    crate::quals::lemma_picked_in_order(restrictinfo, cheap, filtering, shown, qual);
}

/// A nested loop tests every clause at its place: for an outer join, clauses
/// of the join decide which rows match, and clauses that were pushed down to it
/// are tested on the rows of the result, whether these have a partner or not.
pub proof fn lemma_nestloop_quals(
    ctx: PlanContext,
    info: PathInfo,
    jointype: JoinType,
    inner_unique: bool,
    restrictinfo: List<Rinfo>,
    params: List<Expr>,
    params_safe: List<bool>,
    outer: Relids,
    outer_plan: Plan,
    inner_plan: Plan,
)
    ensures
        ({
            let gated = nestloop_plan(
                ctx,
                info,
                jointype,
                inner_unique,
                restrictinfo,
                params,
                params_safe,
                outer,
                outer_plan,
                inner_plan,
            );
            let plan = below_gate(gated);
            &&& crate::scanplan::is_gated_by(ctx, restrictinfo@, gated)
            &&& plan.node matches PlanNode::NestLoop { join, outer: left, inner: right } && quals_apart(
                jointype,
                restrictinfo@,
                Seq::empty(),
                info.param is Some,
                outer,
                join.joinqual@,
                plan.qual@,
            ) && join.jointype == jointype && join.inner_unique == inner_unique && *right
                == inner_plan && (params is Nil ==> *left == outer_plan)
        }),
{
    reveal(nestloop_plan);
    lemma_gated_join(ctx, info, restrictinfo, outer);
    let none: List<JoinClause> = List::Nil;
    lemma_quals_apart(jointype, restrictinfo, none, ctx.cheap, info.param is Some, outer);
    crate::quals::lemma_difference_nothing(join_quals(jointype, restrictinfo, ctx.cheap));
    assert(none@ =~= Seq::<JoinClause>::empty());
    lemma_nest_outer(params_safe, outer, outer_plan);
}

/// A hash join tests every clause at its place, as a nested loop does, but for
/// those that it hashes by.
pub proof fn lemma_hashjoin_quals(
    ctx: PlanContext,
    info: PathInfo,
    jointype: JoinType,
    inner_unique: bool,
    restrictinfo: List<Rinfo>,
    clauses: List<JoinClause>,
    inner_rows_total: u64,
    outer_relids: Relids,
    outer: Relids,
    outer_plan: Plan,
    inner_plan: Plan,
)
    ensures
        hashjoin_plan(
            ctx,
            info,
            jointype,
            inner_unique,
            restrictinfo,
            clauses,
            inner_rows_total,
            outer_relids,
            outer,
            outer_plan,
            inner_plan,
        ) matches Ok(gated) ==> {
            let plan = below_gate(gated);
            &&& crate::scanplan::is_gated_by(ctx, restrictinfo@, gated)
            &&& plan.node matches PlanNode::HashJoin {
                join,
                clauses: hashed,
                outer: left,
                inner: right,
            } && quals_apart(
                jointype,
                restrictinfo@,
                clauses@,
                info.param is Some,
                outer,
                join.joinqual@,
                plan.qual@,
            ) && join.jointype == jointype && join.inner_unique == inner_unique && *left
                == outer_plan && hashed.clauses@.len() == clauses@.len()
        },
{
    reveal(hashjoin_plan);
    lemma_gated_join(ctx, info, restrictinfo, outer);
    lemma_quals_apart(jointype, restrictinfo, clauses, ctx.cheap, info.param is Some, outer);
    crate::planjoin::lemma_switched_lengths(clauses, outer_relids);
}

/// A merge join tests every clause at its place, as a nested loop does, but for
/// those that it merges by.
pub proof fn lemma_mergejoin_quals(
    ctx: PlanContext,
    info: PathInfo,
    jointype: JoinType,
    inner_unique: bool,
    restrictinfo: List<Rinfo>,
    parts: MergeParts,
    outer_side: JoinSide,
    inner_side: JoinSide,
    outer: Relids,
    outer_plan: Plan,
    inner_plan: Plan,
)
    ensures
        mergejoin_plan(
            ctx,
            info,
            jointype,
            inner_unique,
            restrictinfo,
            parts,
            outer_side,
            inner_side,
            outer,
            outer_plan,
            inner_plan,
        ) matches Ok(gated) ==> {
            let plan = below_gate(gated);
            &&& crate::scanplan::is_gated_by(ctx, restrictinfo@, gated)
            &&& plan.node matches PlanNode::MergeJoin {
                join,
                clauses: merged,
                keys,
                skip_mark_restore,
                outer: left,
                inner: right,
            } && quals_apart(
                jointype,
                restrictinfo@,
                parts.clauses@,
                info.param is Some,
                outer,
                join.joinqual@,
                plan.qual@,
            ) && join.jointype == jointype && join.inner_unique == inner_unique
                && merged.clauses@.len() == parts.clauses@.len() && skip_mark_restore
                == parts.skip_mark_restore && (parts.outersortkeys is Nil ==> *left == outer_plan)
                && (parts.innersortkeys is Nil && !parts.materialize_inner ==> *right
                == inner_plan) && (parts.materialize_inner ==> right.node is Material)
        },
{
    reveal(mergejoin_plan);
    lemma_gated_join(ctx, info, restrictinfo, outer);
    lemma_quals_apart(jointype, restrictinfo, parts.clauses, ctx.cheap, info.param is Some, outer);
    crate::planjoin::lemma_switched_lengths(parts.clauses, outer_side.relids);
}

proof fn lemma_nest_outer(params_safe: List<bool>, outer: Relids, plan: Plan)
    ensures
        nest_outer(List::Nil, params_safe, outer, plan) == plan,
{
    lemma_same_length_self(plan.tlist);
}

proof fn lemma_same_length_self(l: List<TargetEntry>)
    ensures
        crate::plangroup::same_length(l, l),
    decreases l,
{
    if let List::Cons(_, rest) = l {
        lemma_same_length_self(*rest);
    }
}

/// The inner side of a hash join is a table of the rows of the inner plan, by
/// the inner sides of the clauses.
pub proof fn lemma_hash_inner(
    ctx: PlanContext,
    info: PathInfo,
    jointype: JoinType,
    inner_unique: bool,
    restrictinfo: List<Rinfo>,
    clauses: List<JoinClause>,
    inner_rows_total: u64,
    outer_relids: Relids,
    outer: Relids,
    outer_plan: Plan,
    inner_plan: Plan,
)
    ensures
        hashjoin_plan(
            ctx,
            info,
            jointype,
            inner_unique,
            restrictinfo,
            clauses,
            inner_rows_total,
            outer_relids,
            outer,
            outer_plan,
            inner_plan,
        ) matches Ok(gated) ==> {
            &&& below_gate(gated).node matches PlanNode::HashJoin {
                join,
                clauses: hashed,
                outer: left,
                inner: table,
            }
            &&& table.tlist == inner_plan.tlist
            &&& table.node matches PlanNode::Hash { input, hashkeys, rows_total } && *input
                == inner_plan && hashkeys == hashed.inner_keys && (rows_total is Some
                <==> info.parallel_aware)
        },
{
    reveal(hashjoin_plan);
}

} // verus!

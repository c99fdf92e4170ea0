//! Plans out of paths.
use vstd::prelude::*;
use crate::appendplan::{create_append_plan, find_append_columns, prepare_append_child};
use crate::error::PlannerError;
use crate::expr::{copy_tlist, TargetEntry};
use crate::joinplan::{
    create_hashjoin_plan, create_mergejoin_plan, create_nestloop_plan, JoinSide, MergeParts,
};
use crate::list::List;
use crate::path::{ForeignRel, MinMaxPath, Path, PathInfo, PathNode};
use crate::plan::{Amounts, MinMaxAgg, Plan, PlanCosts, PlanNode};
use crate::planagg::{create_agg_plan, create_groupingsets_plan, create_unique_plan};
use crate::planfinish::{
    build_own_tlist, choose_projection_way, create_gather_merge_plan, create_group_plan,
    create_group_result_plan, create_incremental_sort_plan, create_limit_plan,
    create_lockrows_plan, create_material_plan, create_memoize_plan, create_projection_plan,
    create_recursiveunion_plan, create_setop_plan, create_sort_plan, create_upper_unique_plan,
    create_windowagg_plan, label_for_query, make_dummy_plan, make_node, order_bare_qual_clauses,
    PlanContext, ProjectionWay,
};
use crate::planmodify::{create_foreignscan_plan, create_modifytable_plan};
use crate::plannumber::assign_rescan_params;
use crate::planrole::depends_on_role;
use crate::quals::{order_qual_clauses, Rinfo};
use crate::relids::{relids_union, Relids};
use crate::scanplan::{
    create_bitmap_scan_plan, create_indexscan_plan, create_plain_scan_plan,
    create_subqueryscan_plan, create_tid_scan_plan, find_varno, gate_plan, start_scan,
};
use crate::sortcols::{PathKey, SortColumn};
use crate::tlist::TlistFlags;

verus! {

/// Just what the path computes is wanted.
pub open spec fn exact_flags() -> TlistFlags {
    TlistFlags { exact: true, small: false, label: false, ignore: false }
}

fn want_exact() -> (r: TlistFlags)
    ensures
        r == exact_flags(),
{
    TlistFlags { exact: true, small: false, label: false, ignore: false }
}

fn want_nothing() -> (r: TlistFlags)
    ensures
        r == crate::tlist::no_flags(),
{
    TlistFlags { exact: false, small: false, label: false, ignore: false }
}

/// Labels are wanted.
pub open spec fn label_flags(small: bool) -> TlistFlags {
    TlistFlags { exact: false, small, label: true, ignore: false }
}

fn want_labels(small: bool) -> (r: TlistFlags)
    ensures
        r == label_flags(small),
{
    TlistFlags { exact: false, small, label: true, ignore: false }
}

/// Narrow rows are wanted, or anything.
pub open spec fn small_flags(small: bool) -> TlistFlags {
    TlistFlags { exact: false, small, label: false, ignore: false }
}

fn want_small(small: bool) -> (r: TlistFlags)
    ensures
        r == small_flags(small),
{
    TlistFlags { exact: false, small, label: false, ignore: false }
}

/// What is wanted, and labels.
pub open spec fn and_label(flags: TlistFlags) -> TlistFlags {
    TlistFlags { label: true, ..flags }
}

fn with_label(flags: TlistFlags) -> (r: TlistFlags)
    ensures
        r == and_label(flags),
{
    let mut flags = flags;
    flags.label = true;
    flags
}

/// What is wanted, in narrow rows.
pub open spec fn and_small(flags: TlistFlags) -> TlistFlags {
    TlistFlags { small: true, ..flags }
}

fn with_small(flags: TlistFlags) -> (r: TlistFlags)
    ensures
        r == and_small(flags),
{
    let mut flags = flags;
    flags.small = true;
    flags
}

/// What a projection wants of its input.
pub open spec fn projection_flags(way: ProjectionWay) -> TlistFlags {
    TlistFlags { exact: false, small: false, label: false, ignore: way == ProjectionWay::Inside }
}

/// A single row taken off the plan that finds a least or greatest value.
pub open spec fn one_row(info: PathInfo, agg: MinMaxPath, sub: Plan) -> Plan {
    Plan {
        tlist: sub.tlist,
        qual: List::Nil,
        costs: PlanCosts {
            disabled_nodes: info.disabled_nodes,
            amounts: Amounts::OneRow { startup: info.startup, total: agg.cost },
            width: info.target.width,
            parallel_aware: false,
            parallel_safe: info.parallel_safe,
        },
        node: PlanNode::Limit {
            input: Box::new(sub),
            offset: agg.offset,
            count: agg.count,
            with_ties: false,
            ties: List::Nil,
        },
    }
}

/// The aggregates whose values are found by plans of their own, with the
/// parameters that hold them.
pub open spec fn minmax_aggs(infos: List<MinMaxPath>) -> List<MinMaxAgg>
    decreases infos,
{
    match infos {
        List::Nil => List::Nil,
        List::Cons(x, xs) => List::Cons(
            MinMaxAgg { func: x.func, target: x.target, param: x.param },
            Box::new(minmax_aggs(*xs)),
        ),
    }
}

fn collect_minmax_aggs(infos: &List<MinMaxPath>) -> (r: List<MinMaxAgg>)
    ensures
        r == minmax_aggs(*infos),
    decreases infos,
{
    match infos {
        List::Nil => List::Nil,
        List::Cons(x, xs) => {
            let first = MinMaxAgg { func: x.func, target: x.target.copy(), param: x.param };
            List::Cons(first, Box::new(collect_minmax_aggs(xs)))
        },
    }
}

/// The scan of a foreign table.
#[verifier::opaque]
pub open spec fn foreign_plan(
    ctx: PlanContext,
    info: PathInfo,
    qual: List<crate::expr::Expr>,
    scan: crate::plan::ForeignScan,
    rel: ForeignRel,
    clauses: List<Rinfo>,
    flags: TlistFlags,
    outer: Relids,
    sub: Option<Plan>,
) -> Result<Plan, PlannerError> {
    match crate::scanplan::scan_start(ctx, info, clauses, flags, None, false, outer) {
        Err(e) => Err(e),
        Ok(start) => Ok(
            crate::scanplan::gated_if(
                info,
                start.gating,
                outer,
                crate::planmodify::foreignscan_plan(
                    ctx,
                    info,
                    start.relid,
                    crate::scanplan::varno_of(start.relid),
                    start.tlist,
                    qual,
                    scan,
                    rel,
                    clauses,
                    outer,
                    sub,
                ),
            ),
        ),
    }
}

/// What a foreign data wrapper is given to make a scan: the target list of the
/// scan, and its clauses, in the order in which they are best tested.
pub fn find_wrapper_inputs(
    ctx: &PlanContext,
    info: &PathInfo,
    clauses: List<Rinfo>,
    flags: TlistFlags,
    outer: &Relids,
) -> (r: Result<(List<TargetEntry>, List<Rinfo>), PlannerError>)
    ensures
        r == match crate::scanplan::scan_start(*ctx, *info, clauses, flags, None, false, *outer) {
            Err(e) => Err(e),
            Ok(start) => Ok(
                (start.tlist, crate::quals::ordered_quals(start.clauses, ctx.cheap)),
            ),
        },
{
    match start_scan(ctx, info, clauses, flags, None, false, outer) {
        Err(e) => Err(e),
        Ok(start) => Ok((start.tlist, order_qual_clauses(&start.clauses, ctx.cheap))),
    }
}

fn create_foreign_plan(
    ctx: &PlanContext,
    info: &PathInfo,
    qual: List<crate::expr::Expr>,
    scan: crate::plan::ForeignScan,
    rel: ForeignRel,
    clauses: List<Rinfo>,
    flags: TlistFlags,
    outer: &Relids,
    sub: Option<Plan>,
) -> (r: Result<Plan, PlannerError>)
    ensures
        r == foreign_plan(*ctx, *info, qual, scan, rel, clauses, flags, *outer, sub),
{
    proof {
        reveal(foreign_plan);
    }
    let restrictions = crate::quals::copy_rinfos(&clauses);
    let start = match start_scan(ctx, info, clauses, flags, None, false, outer) {
        Err(e) => {
            return Err(e);
        },
        Ok(s) => s,
    };
    let plan = create_foreignscan_plan(
        ctx,
        info,
        start.relid,
        find_varno(start.relid),
        start.tlist,
        qual,
        scan,
        &rel,
        &restrictions,
        outer,
        sub,
    );
    Ok(gate_plan(info, start.gating, outer, plan))
}

/// The plan of a path, under the query level `root`, where relations of
/// `outer` are at hand as sources of parameters.
pub open spec fn plan_of(
    roots: Seq<PlanContext>,
    root: usize,
    path: Path,
    flags: TlistFlags,
    outer: Relids,
) -> Result<Plan, PlannerError>
    decreases path, 0int,
{
    let ctx = roots[root as int];
    let info = path.info;
    let none = crate::tlist::no_flags();
    if root >= roots.len() {
        Err(PlannerError::UnknownRelation)
    } else {
        match path.node {
            PathNode::Scan(kind, clauses) => crate::scanplan::plain_scan_plan(
                ctx,
                info,
                kind,
                clauses,
                flags,
                outer,
            ),
            PathNode::Index(index, clauses, implied) => crate::scanplan::index_scan_plan(
                ctx,
                info,
                index,
                clauses,
                implied,
                flags,
                outer,
            ),
            PathNode::BitmapHeap(bitmap, clauses, implied) => crate::scanplan::bitmap_scan_plan(
                ctx,
                info,
                *bitmap,
                clauses,
                implied,
                flags,
                outer,
            ),
            PathNode::BitmapAnd { quals, selectivity, tuples } => Err(
                PlannerError::UnexpectedPathType,
            ),
            PathNode::BitmapOr { quals, selectivity, tuples } => Err(
                PlannerError::UnexpectedPathType,
            ),
            PathNode::Tid(clauses, tidquals) => crate::scanplan::tid_scan_plan(
                ctx,
                info,
                false,
                clauses,
                tidquals,
                flags,
                outer,
            ),
            PathNode::TidRange(clauses, tidquals) => crate::scanplan::tid_scan_plan(
                ctx,
                info,
                true,
                clauses,
                tidquals,
                flags,
                outer,
            ),
            PathNode::Subquery { root: subroot, subpath, clauses } => match labelled_plan_of(
                roots,
                subroot,
                *subpath,
            ) {
                Err(e) => Err(e),
                Ok(sub) => crate::scanplan::subquery_scan_plan(
                    ctx,
                    info,
                    clauses,
                    flags,
                    outer,
                    sub,
                ),
            },
            PathNode::Foreign { outer: below, qual, scan, rel, clauses } => match below {
                None => foreign_plan(ctx, info, qual, scan, rel, clauses, flags, outer, None),
                Some(p) => match plan_of(roots, root, *p, exact_flags(), outer) {
                    Err(e) => Err(e),
                    Ok(sub) => foreign_plan(
                        ctx,
                        info,
                        qual,
                        scan,
                        rel,
                        clauses,
                        flags,
                        outer,
                        Some(sub),
                    ),
                },
            },
            PathNode::Append { subpaths, first_partial, limit, clauses } => if *subpaths is Nil {
                Ok(crate::planfinish::dummy_plan(info, outer))
            } else {
                match crate::appendplan::append_columns(ctx, info, !(info.pathkeys is Nil), outer) {
                    Err(e) => Err(e),
                    Ok(cols) => match children_of(
                        roots,
                        root,
                        *subpaths,
                        !(info.pathkeys is Nil),
                        info.pathkeys,
                        cols.columns,
                        limit,
                        outer,
                    ) {
                        Err(e) => Err(e),
                        Ok(plans) => Ok(
                            crate::appendplan::append_plan(
                                ctx,
                                info,
                                false,
                                first_partial,
                                clauses,
                                flags,
                                outer,
                                cols,
                                plans,
                            ),
                        ),
                    },
                }
            },
            PathNode::MergeAppend { subpaths, limit, clauses } => match
                crate::appendplan::append_columns(ctx, info, true, outer) {
                Err(e) => Err(e),
                Ok(cols) => match children_of(
                    roots,
                    root,
                    *subpaths,
                    true,
                    info.pathkeys,
                    cols.columns,
                    limit,
                    outer,
                ) {
                    Err(e) => Err(e),
                    Ok(plans) => Ok(
                        crate::appendplan::append_plan(
                            ctx,
                            info,
                            true,
                            0,
                            clauses,
                            flags,
                            outer,
                            cols,
                            plans,
                        ),
                    ),
                },
            },
            PathNode::SetOp { left, right, command, hashed, group_list, num_groups } => match
                plan_of(roots, root, *left, and_label(flags), outer) {
                Err(e) => Err(e),
                Ok(l) => match plan_of(roots, root, *right, and_label(flags), outer) {
                    Err(e) => Err(e),
                    Ok(r) => crate::planfinish::setop_plan(
                        info,
                        command,
                        hashed,
                        group_list,
                        num_groups,
                        outer,
                        l,
                        r,
                    ),
                },
            },
            PathNode::RecursiveUnion { left, right, wt_param, distinct_list, num_groups } => match
                plan_of(roots, root, *left, exact_flags(), outer) {
                Err(e) => Err(e),
                Ok(l) => match plan_of(roots, root, *right, exact_flags(), outer) {
                    Err(e) => Err(e),
                    Ok(r) => crate::planfinish::recursiveunion_plan(
                        info,
                        wt_param,
                        distinct_list,
                        num_groups,
                        outer,
                        l,
                        r,
                    ),
                },
            },
            PathNode::Projection(subpath) => {
                let way = crate::planfinish::projection_way(ctx, info, subpath.node, flags);
                match plan_of(roots, root, *subpath, projection_flags(way), outer) {
                    Err(e) => Err(e),
                    Ok(sub) => crate::planfinish::projection_plan(
                        info,
                        way,
                        flags.label,
                        outer,
                        sub,
                    ),
                }
            },
            PathNode::ProjectSet(subpath) => match plan_of(roots, root, *subpath, none, outer) {
                Err(e) => Err(e),
                Ok(sub) => Ok(
                    crate::planfinish::node_over(
                        info,
                        PlanNode::ProjectSet(Box::new(sub)),
                        crate::planfinish::own_tlist(info, outer),
                        List::Nil,
                    ),
                ),
            },
            PathNode::GroupResult(quals) => Ok(
                crate::planfinish::group_result_plan(info, quals, outer),
            ),
            PathNode::Group { subpath, group_clause, qual } => match plan_of(
                roots,
                root,
                *subpath,
                label_flags(false),
                outer,
            ) {
                Err(e) => Err(e),
                Ok(sub) => crate::planfinish::group_plan(info, group_clause, qual, outer, sub),
            },
            PathNode::Agg {
                subpath,
                strategy,
                split,
                group_clause,
                num_groups,
                transition_space,
                qual,
            } => match plan_of(roots, root, *subpath, label_flags(false), outer) {
                Err(e) => Err(e),
                Ok(sub) => crate::planagg::agg_plan(
                    info,
                    strategy,
                    split,
                    group_clause,
                    num_groups,
                    transition_space,
                    qual,
                    outer,
                    sub,
                ),
            },
            PathNode::MinMaxAgg { aggs, infos, qual } => match minmax_plans(roots, *aggs, infos) {
                Err(e) => Err(e),
                Ok(init) => Ok(
                    crate::planfinish::node_over(
                        info,
                        PlanNode::InitResult {
                            init: Box::new(init),
                            aggs: minmax_aggs(infos),
                            qual: crate::planfinish::cost_ordered(qual),
                        },
                        crate::planfinish::own_tlist(info, outer),
                        List::Nil,
                    ),
                ),
            },
            PathNode::GroupingSets { subpath, strategy, rollups, transition_space, qual } => match
                plan_of(roots, root, *subpath, label_flags(false), outer) {
                Err(e) => Err(e),
                Ok(sub) => crate::planagg::groupingsets_plan(
                    ctx,
                    info,
                    strategy,
                    rollups,
                    transition_space,
                    qual,
                    outer,
                    sub,
                ),
            },
            PathNode::WindowAgg {
                subpath,
                clause,
                partition,
                order,
                run_condition,
                qual,
                topwindow,
            } => match plan_of(roots, root, *subpath, label_flags(true), outer) {
                Err(e) => Err(e),
                Ok(sub) => crate::planfinish::windowagg_plan(
                    info,
                    clause,
                    partition,
                    order,
                    run_condition,
                    qual,
                    topwindow,
                    outer,
                    sub,
                ),
            },
            PathNode::UpperUnique { subpath, numkeys } => match plan_of(
                roots,
                root,
                *subpath,
                and_label(flags),
                outer,
            ) {
                Err(e) => Err(e),
                Ok(sub) => crate::planfinish::upper_unique_plan(ctx, info, numkeys, sub),
            },
            PathNode::Sort(subpath) => match plan_of(
                roots,
                root,
                *subpath,
                and_small(flags),
                outer,
            ) {
                Err(e) => Err(e),
                Ok(sub) => crate::planfinish::sort_plan(ctx, info, subpath.info.reloptkind, sub),
            },
            PathNode::IncrementalSort(subpath, presorted) => match plan_of(
                roots,
                root,
                *subpath,
                and_small(flags),
                outer,
            ) {
                Err(e) => Err(e),
                Ok(sub) => crate::planfinish::incremental_sort_plan(
                    ctx,
                    info,
                    subpath.info.reloptkind,
                    presorted,
                    sub,
                ),
            },
            PathNode::Material(subpath) => match plan_of(
                roots,
                root,
                *subpath,
                and_small(flags),
                outer,
            ) {
                Err(e) => Err(e),
                Ok(sub) => Ok(crate::planfinish::material_plan(info, sub)),
            },
            PathNode::Memoize {
                subpath,
                hash_operators,
                param_exprs,
                singlerow,
                binary_mode,
                est_entries,
            } => match plan_of(roots, root, *subpath, and_small(flags), outer) {
                Err(e) => Err(e),
                Ok(sub) => Ok(
                    crate::planfinish::memoize_plan(
                        info,
                        hash_operators,
                        param_exprs,
                        singlerow,
                        binary_mode,
                        est_entries,
                        outer,
                        sub,
                    ),
                ),
            },
            PathNode::Nest { join, params, params_safe } => match plan_of(
                roots,
                root,
                *join.outer,
                none,
                outer,
            ) {
                Err(e) => Err(e),
                Ok(left) => match plan_of(
                    roots,
                    root,
                    *join.inner,
                    none,
                    crate::relids::union_list(outer, join.outer.info.relids),
                ) {
                    Err(e) => Err(e),
                    Ok(right) => Ok(
                        crate::joinplan::nestloop_plan(
                            ctx,
                            info,
                            join.jointype,
                            join.inner_unique,
                            join.restrictinfo,
                            params,
                            params_safe,
                            outer,
                            left,
                            right,
                        ),
                    ),
                },
            },
            PathNode::Merge {
                join,
                clauses,
                outersortkeys,
                innersortkeys,
                skip_mark_restore,
                materialize_inner,
                outer_presorted,
            } => match plan_of(
                roots,
                root,
                *join.outer,
                small_flags(!(outersortkeys is Nil)),
                outer,
            ) {
                Err(e) => Err(e),
                Ok(left) => match plan_of(
                    roots,
                    root,
                    *join.inner,
                    small_flags(!(innersortkeys is Nil)),
                    outer,
                ) {
                    Err(e) => Err(e),
                    Ok(right) => crate::joinplan::mergejoin_plan(
                        ctx,
                        info,
                        join.jointype,
                        join.inner_unique,
                        join.restrictinfo,
                        MergeParts {
                            clauses,
                            outersortkeys,
                            innersortkeys,
                            skip_mark_restore,
                            materialize_inner,
                            outer_presorted,
                        },
                        JoinSide {
                            relids: join.outer.info.relids,
                            pathkeys: join.outer.info.pathkeys,
                        },
                        JoinSide {
                            relids: join.inner.info.relids,
                            pathkeys: join.inner.info.pathkeys,
                        },
                        outer,
                        left,
                        right,
                    ),
                },
            },
            PathNode::Hash { join, clauses, many_batches, inner_rows_total } => match plan_of(
                roots,
                root,
                *join.outer,
                small_flags(many_batches),
                outer,
            ) {
                Err(e) => Err(e),
                Ok(left) => match plan_of(roots, root, *join.inner, small_flags(true), outer) {
                    Err(e) => Err(e),
                    Ok(right) => crate::joinplan::hashjoin_plan(
                        ctx,
                        info,
                        join.jointype,
                        join.inner_unique,
                        join.restrictinfo,
                        clauses,
                        inner_rows_total,
                        join.outer.info.relids,
                        outer,
                        left,
                        right,
                    ),
                },
            },
            PathNode::Gather { subpath, num_workers, single_copy } => match plan_of(
                roots,
                root,
                *subpath,
                exact_flags(),
                outer,
            ) {
                Err(e) => Err(e),
                Ok(sub) => Ok(
                    crate::planfinish::node_over(
                        info,
                        PlanNode::Gather {
                            input: Box::new(sub),
                            num_workers,
                            single_copy,
                            rescan_param: None,
                        },
                        crate::planfinish::own_tlist(info, outer),
                        List::Nil,
                    ),
                ),
            },
            PathNode::GatherMerge { subpath, num_workers } => match plan_of(
                roots,
                root,
                *subpath,
                exact_flags(),
                outer,
            ) {
                Err(e) => Err(e),
                Ok(sub) => crate::planfinish::gather_merge_plan(
                    ctx,
                    info,
                    subpath.info.relids,
                    num_workers,
                    outer,
                    sub,
                ),
            },
            PathNode::Limit { subpath, offset, count, with_ties } => match plan_of(
                roots,
                root,
                *subpath,
                flags,
                outer,
            ) {
                Err(e) => Err(e),
                Ok(sub) => crate::planfinish::limit_plan(ctx, info, offset, count, with_ties, sub),
            },
            PathNode::LockRows { subpath, marks, epq_param } => match plan_of(
                roots,
                root,
                *subpath,
                flags,
                outer,
            ) {
                Err(e) => Err(e),
                Ok(sub) => Ok(crate::planfinish::lockrows_plan(info, marks, epq_param, sub)),
            },
            PathNode::Unique { subpath, method, exprs, operators } => match plan_of(
                roots,
                root,
                *subpath,
                flags,
                outer,
            ) {
                Err(e) => Err(e),
                Ok(sub) => crate::planagg::unique_plan(
                    ctx,
                    info,
                    method,
                    exprs,
                    operators,
                    outer,
                    sub,
                ),
            },
            PathNode::ModifyTable(subpath, table) => match plan_of(
                roots,
                root,
                *subpath,
                exact_flags(),
                outer,
            ) {
                Err(e) => Err(e),
                Ok(sub) => crate::planmodify::modifytable_plan(ctx, info, table, sub),
            },
        }
    }
}

/// The plans of paths whose rows are put together.
pub open spec fn children_of(
    roots: Seq<PlanContext>,
    root: usize,
    paths: List<Path>,
    ordered: bool,
    pathkeys: List<PathKey>,
    columns: List<SortColumn>,
    limit: Option<u64>,
    outer: Relids,
) -> Result<List<Plan>, PlannerError>
    decreases paths, 0int,
{
    match paths {
        List::Nil => Ok(List::Nil),
        List::Cons(p, ps) => match plan_of(roots, root, p, exact_flags(), outer) {
            Err(e) => Err(e),
            Ok(plan) => match crate::appendplan::append_child(
                roots[root as int],
                ordered,
                pathkeys,
                columns,
                limit,
                p.info.pathkeys,
                p.info.relids,
                plan,
            ) {
                Err(e) => Err(e),
                Ok(child) => match children_of(
                    roots,
                    root,
                    *ps,
                    ordered,
                    pathkeys,
                    columns,
                    limit,
                    outer,
                ) {
                    Err(e) => Err(e),
                    Ok(rest) => Ok(List::Cons(child, Box::new(rest))),
                },
            },
        },
    }
}

/// The plan of the best path of a query level. Its columns have the names and
/// labels of the query, unless it changes tables.
pub open spec fn labelled_plan_of(roots: Seq<PlanContext>, root: usize, path: Path) -> Result<
    Plan,
    PlannerError,
>
    decreases path, 1int,
{
    match plan_of(roots, root, path, exact_flags(), List::Nil) {
        Err(e) => Err(e),
        Ok(plan) => if plan.node is ModifyTable {
            Ok(plan)
        } else {
            crate::planfinish::with_query_labels(roots[root as int], plan)
        },
    }
}

/// The plans that find least and greatest values.
pub open spec fn minmax_plans(
    roots: Seq<PlanContext>,
    paths: List<Path>,
    infos: List<MinMaxPath>,
) -> Result<List<Plan>, PlannerError>
    decreases paths, 0int,
{
    match paths {
        List::Nil => Ok(List::Nil),
        List::Cons(p, ps) => match infos {
            List::Nil => Err(PlannerError::UnexpectedPathType),
            List::Cons(i, is) => match labelled_plan_of(roots, i.root, p) {
                Err(e) => Err(e),
                Ok(plan) => match minmax_plans(roots, *ps, *is) {
                    Err(e) => Err(e),
                    Ok(rest) => Ok(List::Cons(one_row(p.info, i, plan), Box::new(rest))),
                },
            },
        },
    }
}

/// Makes the plan of a path.
#[verifier::rlimit(100)]
pub fn create_plan_recurse(
    roots: &Vec<PlanContext>,
    root: usize,
    path: Path,
    flags: TlistFlags,
    outer: &Relids,
) -> (r: Result<Plan, PlannerError>)
    ensures
        r == plan_of(roots@, root, path, flags, *outer),
    decreases path, 0int,
{
    if root >= roots.len() {
        return Err(PlannerError::UnknownRelation);
    }
    let ctx = &roots[root];
    let info = path.info;
    match path.node {
        PathNode::Scan(kind, clauses) => create_plain_scan_plan(
            ctx,
            &info,
            kind,
            clauses,
            flags,
            outer,
        ),
        PathNode::Index(index, clauses, implied) => create_indexscan_plan(
            ctx,
            &info,
            &index,
            clauses,
            &implied,
            flags,
            outer,
        ),
        PathNode::BitmapHeap(bitmap, clauses, implied) => create_bitmap_scan_plan(
            ctx,
            &info,
            &bitmap,
            clauses,
            &implied,
            flags,
            outer,
        ),
        PathNode::BitmapAnd { .. } => Err(PlannerError::UnexpectedPathType),
        PathNode::BitmapOr { .. } => Err(PlannerError::UnexpectedPathType),
        PathNode::Tid(clauses, tidquals) => create_tid_scan_plan(
            ctx,
            &info,
            false,
            clauses,
            &tidquals,
            flags,
            outer,
        ),
        PathNode::TidRange(clauses, tidquals) => create_tid_scan_plan(
            ctx,
            &info,
            true,
            clauses,
            &tidquals,
            flags,
            outer,
        ),
        PathNode::Subquery { root: subroot, subpath, clauses } => {
            match create_labelled_plan(roots, subroot, *subpath) {
                Err(e) => Err(e),
                Ok(sub) => create_subqueryscan_plan(ctx, &info, clauses, flags, outer, sub),
            }
        },
        PathNode::Foreign { outer: below, qual, scan, rel, clauses } => match below {
            None => create_foreign_plan(ctx, &info, qual, scan, rel, clauses, flags, outer, None),
            Some(p) => match create_plan_recurse(roots, root, *p, want_exact(), outer) {
                Err(e) => Err(e),
                Ok(sub) => create_foreign_plan(
                    ctx,
                    &info,
                    qual,
                    scan,
                    rel,
                    clauses,
                    flags,
                    outer,
                    Some(sub),
                ),
            },
        },
        PathNode::Append { subpaths, first_partial, limit, clauses } => {
            if subpaths.is_nil() {
                return Ok(make_dummy_plan(&info, outer));
            }
            let ordered = !info.pathkeys.is_nil();
            match find_append_columns(ctx, &info, ordered, outer) {
                Err(e) => Err(e),
                Ok(cols) => match create_children(
                    roots,
                    root,
                    *subpaths,
                    ordered,
                    &info.pathkeys,
                    &cols.columns,
                    limit,
                    outer,
                ) {
                    Err(e) => Err(e),
                    Ok(plans) => Ok(
                        create_append_plan(
                            ctx,
                            &info,
                            false,
                            first_partial,
                            &clauses,
                            flags,
                            outer,
                            cols,
                            plans,
                        ),
                    ),
                },
            }
        },
        PathNode::MergeAppend { subpaths, limit, clauses } => {
            match find_append_columns(ctx, &info, true, outer) {
                Err(e) => Err(e),
                Ok(cols) => match create_children(
                    roots,
                    root,
                    *subpaths,
                    true,
                    &info.pathkeys,
                    &cols.columns,
                    limit,
                    outer,
                ) {
                    Err(e) => Err(e),
                    Ok(plans) => Ok(
                        create_append_plan(
                            ctx,
                            &info,
                            true,
                            0,
                            &clauses,
                            flags,
                            outer,
                            cols,
                            plans,
                        ),
                    ),
                },
            }
        },
        PathNode::SetOp { left, right, command, hashed, group_list, num_groups } => {
            match create_plan_recurse(roots, root, *left, with_label(flags), outer) {
                Err(e) => Err(e),
                Ok(l) => match create_plan_recurse(roots, root, *right, with_label(flags), outer) {
                    Err(e) => Err(e),
                    Ok(r) => create_setop_plan(
                        &info,
                        command,
                        hashed,
                        &group_list,
                        num_groups,
                        outer,
                        l,
                        r,
                    ),
                },
            }
        },
        PathNode::RecursiveUnion { left, right, wt_param, distinct_list, num_groups } => {
            match create_plan_recurse(roots, root, *left, want_exact(), outer) {
                Err(e) => Err(e),
                Ok(l) => match create_plan_recurse(roots, root, *right, want_exact(), outer) {
                    Err(e) => Err(e),
                    Ok(r) => create_recursiveunion_plan(
                        &info,
                        wt_param,
                        &distinct_list,
                        num_groups,
                        outer,
                        l,
                        r,
                    ),
                },
            }
        },
        PathNode::Projection(subpath) => {
            let way = choose_projection_way(ctx, &info, &subpath.node, flags);
            let sub_flags = TlistFlags {
                exact: false,
                small: false,
                label: false,
                ignore: way == ProjectionWay::Inside,
            };
            match create_plan_recurse(roots, root, *subpath, sub_flags, outer) {
                Err(e) => Err(e),
                Ok(sub) => create_projection_plan(&info, way, flags.label, outer, sub),
            }
        },
        PathNode::ProjectSet(subpath) => {
            match create_plan_recurse(roots, root, *subpath, want_nothing(), outer) {
                Err(e) => Err(e),
                Ok(sub) => Ok(
                    make_node(
                        &info,
                        PlanNode::ProjectSet(Box::new(sub)),
                        build_own_tlist(&info, outer),
                        List::Nil,
                    ),
                ),
            }
        },
        PathNode::GroupResult(quals) => Ok(create_group_result_plan(&info, quals, outer)),
        PathNode::Group { subpath, group_clause, qual } => {
            match create_plan_recurse(roots, root, *subpath, want_labels(false), outer) {
                Err(e) => Err(e),
                Ok(sub) => create_group_plan(&info, &group_clause, qual, outer, sub),
            }
        },
        PathNode::Agg {
            subpath,
            strategy,
            split,
            group_clause,
            num_groups,
            transition_space,
            qual,
        } => {
            match create_plan_recurse(roots, root, *subpath, want_labels(false), outer) {
                Err(e) => Err(e),
                Ok(sub) => create_agg_plan(
                    &info,
                    strategy,
                    split,
                    &group_clause,
                    num_groups,
                    transition_space,
                    qual,
                    outer,
                    sub,
                ),
            }
        },
        PathNode::MinMaxAgg { aggs, infos, qual } => {
            let found = collect_minmax_aggs(&infos);
            match create_minmax_plans(roots, *aggs, infos) {
                Err(e) => Err(e),
                Ok(init) => Ok(
                    make_node(
                        &info,
                        PlanNode::InitResult {
                            init: Box::new(init),
                            aggs: found,
                            qual: order_bare_qual_clauses(qual),
                        },
                        build_own_tlist(&info, outer),
                        List::Nil,
                    ),
                ),
            }
        },
        PathNode::GroupingSets { subpath, strategy, rollups, transition_space, qual } => {
            match create_plan_recurse(roots, root, *subpath, want_labels(false), outer) {
                Err(e) => Err(e),
                Ok(sub) => create_groupingsets_plan(
                    ctx,
                    &info,
                    strategy,
                    rollups,
                    transition_space,
                    qual,
                    outer,
                    sub,
                ),
            }
        },
        PathNode::WindowAgg {
            subpath,
            clause,
            partition,
            order,
            run_condition,
            qual,
            topwindow,
        } => {
            match create_plan_recurse(roots, root, *subpath, want_labels(true), outer) {
                Err(e) => Err(e),
                Ok(sub) => create_windowagg_plan(
                    &info,
                    clause,
                    &partition,
                    &order,
                    run_condition,
                    qual,
                    topwindow,
                    outer,
                    sub,
                ),
            }
        },
        PathNode::UpperUnique { subpath, numkeys } => {
            match create_plan_recurse(roots, root, *subpath, with_label(flags), outer) {
                Err(e) => Err(e),
                Ok(sub) => create_upper_unique_plan(ctx, &info, numkeys, sub),
            }
        },
        PathNode::Sort(subpath) => {
            let kind = subpath.info.reloptkind;
            match create_plan_recurse(roots, root, *subpath, with_small(flags), outer) {
                Err(e) => Err(e),
                Ok(sub) => create_sort_plan(ctx, &info, kind, sub),
            }
        },
        PathNode::IncrementalSort(subpath, presorted) => {
            let kind = subpath.info.reloptkind;
            match create_plan_recurse(roots, root, *subpath, with_small(flags), outer) {
                Err(e) => Err(e),
                Ok(sub) => create_incremental_sort_plan(ctx, &info, kind, presorted, sub),
            }
        },
        PathNode::Material(subpath) => {
            match create_plan_recurse(roots, root, *subpath, with_small(flags), outer) {
                Err(e) => Err(e),
                Ok(sub) => Ok(create_material_plan(&info, sub)),
            }
        },
        PathNode::Memoize {
            subpath,
            hash_operators,
            param_exprs,
            singlerow,
            binary_mode,
            est_entries,
        } => {
            match create_plan_recurse(roots, root, *subpath, with_small(flags), outer) {
                Err(e) => Err(e),
                Ok(sub) => Ok(
                    create_memoize_plan(
                        &info,
                        hash_operators,
                        param_exprs,
                        singlerow,
                        binary_mode,
                        est_entries,
                        outer,
                        sub,
                    ),
                ),
            }
        },
        PathNode::Nest { join, params, params_safe } => {
            let inner_outer = relids_union(outer, &join.outer.info.relids);
            match create_plan_recurse(roots, root, *join.outer, want_nothing(), outer) {
                Err(e) => Err(e),
                Ok(left) => match create_plan_recurse(
                    roots,
                    root,
                    *join.inner,
                    want_nothing(),
                    &inner_outer,
                ) {
                    Err(e) => Err(e),
                    Ok(right) => Ok(
                        create_nestloop_plan(
                            ctx,
                            &info,
                            join.jointype,
                            join.inner_unique,
                            &join.restrictinfo,
                            params,
                            &params_safe,
                            outer,
                            left,
                            right,
                        ),
                    ),
                },
            }
        },
        PathNode::Merge {
            join,
            clauses,
            outersortkeys,
            innersortkeys,
            skip_mark_restore,
            materialize_inner,
            outer_presorted,
        } => {
            let outer_side = JoinSide {
                relids: join.outer.info.relids.copy(),
                pathkeys: join.outer.info.pathkeys.copy(),
            };
            let inner_side = JoinSide {
                relids: join.inner.info.relids.copy(),
                pathkeys: join.inner.info.pathkeys.copy(),
            };
            let outer_flags = want_small(!outersortkeys.is_nil());
            let inner_flags = want_small(!innersortkeys.is_nil());
            let parts = MergeParts {
                clauses,
                outersortkeys,
                innersortkeys,
                skip_mark_restore,
                materialize_inner,
                outer_presorted,
            };
            match create_plan_recurse(roots, root, *join.outer, outer_flags, outer) {
                Err(e) => Err(e),
                Ok(left) => match create_plan_recurse(
                    roots,
                    root,
                    *join.inner,
                    inner_flags,
                    outer,
                ) {
                    Err(e) => Err(e),
                    Ok(right) => create_mergejoin_plan(
                        ctx,
                        &info,
                        join.jointype,
                        join.inner_unique,
                        &join.restrictinfo,
                        &parts,
                        &outer_side,
                        &inner_side,
                        outer,
                        left,
                        right,
                    ),
                },
            }
        },
        PathNode::Hash { join, clauses, many_batches, inner_rows_total } => {
            let outer_relids = join.outer.info.relids.copy();
            match create_plan_recurse(roots, root, *join.outer, want_small(many_batches), outer) {
                Err(e) => Err(e),
                Ok(left) => match create_plan_recurse(
                    roots,
                    root,
                    *join.inner,
                    want_small(true),
                    outer,
                ) {
                    Err(e) => Err(e),
                    Ok(right) => create_hashjoin_plan(
                        ctx,
                        &info,
                        join.jointype,
                        join.inner_unique,
                        &join.restrictinfo,
                        &clauses,
                        inner_rows_total,
                        &outer_relids,
                        outer,
                        left,
                        right,
                    ),
                },
            }
        },
        PathNode::Gather { subpath, num_workers, single_copy } => {
            match create_plan_recurse(roots, root, *subpath, want_exact(), outer) {
                Err(e) => Err(e),
                Ok(sub) => Ok(
                    make_node(
                        &info,
                        PlanNode::Gather {
                            input: Box::new(sub),
                            num_workers,
                            single_copy,
                            rescan_param: None,
                        },
                        build_own_tlist(&info, outer),
                        List::Nil,
                    ),
                ),
            }
        },
        PathNode::GatherMerge { subpath, num_workers } => {
            let sub_relids = subpath.info.relids.copy();
            match create_plan_recurse(roots, root, *subpath, want_exact(), outer) {
                Err(e) => Err(e),
                Ok(sub) => create_gather_merge_plan(
                    ctx,
                    &info,
                    &sub_relids,
                    num_workers,
                    outer,
                    sub,
                ),
            }
        },
        PathNode::Limit { subpath, offset, count, with_ties } => {
            match create_plan_recurse(roots, root, *subpath, flags, outer) {
                Err(e) => Err(e),
                Ok(sub) => create_limit_plan(ctx, &info, offset, count, with_ties, sub),
            }
        },
        PathNode::LockRows { subpath, marks, epq_param } => {
            match create_plan_recurse(roots, root, *subpath, flags, outer) {
                Err(e) => Err(e),
                Ok(sub) => Ok(create_lockrows_plan(&info, marks, epq_param, sub)),
            }
        },
        PathNode::Unique { subpath, method, exprs, operators } => {
            match create_plan_recurse(roots, root, *subpath, flags, outer) {
                Err(e) => Err(e),
                Ok(sub) => create_unique_plan(
                    ctx,
                    &info,
                    method,
                    &exprs,
                    &operators,
                    outer,
                    sub,
                ),
            }
        },
        PathNode::ModifyTable(subpath, table) => {
            match create_plan_recurse(roots, root, *subpath, want_exact(), outer) {
                Err(e) => Err(e),
                Ok(sub) => create_modifytable_plan(ctx, &info, table, sub),
            }
        },
    }
}

fn create_children(
    roots: &Vec<PlanContext>,
    root: usize,
    paths: List<Path>,
    ordered: bool,
    pathkeys: &List<PathKey>,
    columns: &List<SortColumn>,
    limit: Option<u64>,
    outer: &Relids,
) -> (r: Result<List<Plan>, PlannerError>)
    requires
        root < roots@.len(),
    ensures
        r == children_of(
            roots@,
            root,
            paths,
            ordered,
            *pathkeys,
            *columns,
            limit,
            *outer,
        ),
    decreases paths, 0int,
{
    match paths {
        List::Nil => Ok(List::Nil),
        List::Cons(p, ps) => {
            let child_order = p.info.pathkeys.copy();
            let child_relids = p.info.relids.copy();
            let plan = match create_plan_recurse(roots, root, p, want_exact(), outer) {
                Err(e) => {
                    return Err(e);
                },
                Ok(plan) => plan,
            };
            let child = match prepare_append_child(
                &roots[root],
                ordered,
                pathkeys,
                columns,
                limit,
                &child_order,
                &child_relids,
                plan,
            ) {
                Err(e) => {
                    return Err(e);
                },
                Ok(c) => c,
            };
            match create_children(roots, root, *ps, ordered, pathkeys, columns, limit, outer) {
                Err(e) => Err(e),
                Ok(rest) => Ok(List::Cons(child, Box::new(rest))),
            }
        },
    }
}

/// Makes the plan of the best path of a query level. Its columns get the names
/// and labels of the query, unless it changes tables.
fn create_labelled_plan(roots: &Vec<PlanContext>, root: usize, path: Path) -> (r: Result<
    Plan,
    PlannerError,
>)
    ensures
        r == labelled_plan_of(roots@, root, path),
    decreases path, 1int,
{
    let none: Relids = List::Nil;
    match create_plan_recurse(roots, root, path, want_exact(), &none) {
        Err(e) => Err(e),
        Ok(plan) => {
            let modifies = match &plan.node {
                PlanNode::ModifyTable(..) => true,
                _ => false,
            };
            if modifies || root >= roots.len() {
                Ok(plan)
            } else {
                label_for_query(&roots[root], plan)
            }
        },
    }
}

fn create_minmax_plans(
    roots: &Vec<PlanContext>,
    paths: List<Path>,
    infos: List<MinMaxPath>,
) -> (r: Result<List<Plan>, PlannerError>)
    ensures
        r == minmax_plans(roots@, paths, infos),
    decreases paths, 0int,
{
    match paths {
        List::Nil => Ok(List::Nil),
        List::Cons(p, ps) => match infos {
            List::Nil => Err(PlannerError::UnexpectedPathType),
            List::Cons(i, is) => {
                let disabled_nodes: i32 = p.info.disabled_nodes;
                let startup: u64 = p.info.startup;
                let width: i32 = p.info.target.width;
                let parallel_safe = p.info.parallel_safe;
                match create_labelled_plan(roots, i.root, p) {
                    Err(e) => Err(e),
                    Ok(sub) => match create_minmax_plans(roots, *ps, *is) {
                        Err(e) => Err(e),
                        Ok(rest) => {
                            let plan = Plan {
                                tlist: copy_tlist(&sub.tlist),
                                qual: List::Nil,
                                costs: PlanCosts {
                                    disabled_nodes,
                                    amounts: Amounts::OneRow { startup, total: i.cost },
                                    width,
                                    parallel_aware: false,
                                    parallel_safe,
                                },
                                node: PlanNode::Limit {
                                    input: Box::new(sub),
                                    offset: i.offset,
                                    count: i.count,
                                    with_ties: false,
                                    ties: List::Nil,
                                },
                            };
                            Ok(List::Cons(plan, Box::new(rest)))
                        },
                    },
                }
            },
        },
    }
}

/// The rows of all paths are put together: there is one plan for each.
pub proof fn lemma_children_count(
    roots: Seq<PlanContext>,
    root: usize,
    paths: List<Path>,
    ordered: bool,
    pathkeys: List<PathKey>,
    columns: List<SortColumn>,
    limit: Option<u64>,
    outer: Relids,
)
    ensures
        children_of(roots, root, paths, ordered, pathkeys, columns, limit, outer) matches Ok(plans)
            ==> plans@.len() == paths@.len(),
    decreases paths,
{
    if let List::Cons(_, ps) = paths {
        lemma_children_count(roots, root, *ps, ordered, pathkeys, columns, limit, outer);
    }
}

/// Each least or greatest value is found by a plan of its own.
pub proof fn lemma_minmax_count(roots: Seq<PlanContext>, paths: List<Path>, infos: List<MinMaxPath>)
    ensures
        minmax_plans(roots, paths, infos) matches Ok(plans) ==> plans@.len() == paths@.len(),
    decreases paths,
{
    if let List::Cons(_, ps) = paths {
        if let List::Cons(_, is) = infos {
            lemma_minmax_count(roots, *ps, *is);
        }
    }
}

/// Paths whose plans compute what they return, rather than hand on what their
/// input returns.
pub open spec fn computes_target(node: PathNode) -> bool {
    node is Scan || node is Index || node is BitmapHeap || node is Tid || node is TidRange || node
        is Subquery || node is Nest || node is Merge || node is Hash || node is Group || node is Agg
        || node is GroupingSets || node is WindowAgg || node is MinMaxAgg || node is GroupResult
        || node is ProjectSet || node is Gather || node is RecursiveUnion
}

proof fn lemma_start_columns(
    ctx: PlanContext,
    info: PathInfo,
    base: List<Rinfo>,
    index_columns: Option<(List<crate::expr::TargetEntry>, bool)>,
    empty_bitmap_target: bool,
    outer: Relids,
)
    ensures
        crate::scanplan::scan_start(
            ctx,
            info,
            base,
            exact_flags(),
            index_columns,
            empty_bitmap_target,
            outer,
        ) matches Ok(start) ==> start.gating is Nil ==> start.tlist
            == crate::planfinish::own_tlist(info, outer),
{
}

/// Asked for just what a path computes, the plan returns just that: its columns
/// are those of the target of the path, in order.
#[verifier::rlimit(60)]
pub proof fn lemma_exact_columns(
    roots: Seq<PlanContext>,
    root: usize,
    path: Path,
    outer: Relids,
)
    requires
        computes_target(path.node),
    ensures
        plan_of(roots, root, path, exact_flags(), outer) matches Ok(plan) ==> plan.tlist
            == crate::planfinish::own_tlist(path.info, outer),
{
    let ctx = roots[root as int];
    let info = path.info;
    match path.node {
        PathNode::Scan(kind, clauses) => {
            reveal(crate::scanplan::plain_scan_plan);
            lemma_start_columns(ctx, info, clauses, None, false, outer);
        },
        PathNode::Index(index, clauses, implied) => {
            reveal(crate::scanplan::index_scan_plan);
            let columns = if index.indexonly {
                Some(
                    (
                        crate::planindex::index_columns(index.indextlist, index.canreturn, false),
                        crate::planindex::hides_column(index.canreturn),
                    ),
                )
            } else {
                None
            };
            lemma_start_columns(ctx, info, clauses, columns, false, outer);
        },
        PathNode::BitmapHeap(bitmap, clauses, implied) => {
            reveal(crate::scanplan::bitmap_scan_plan);
            lemma_start_columns(ctx, info, clauses, None, info.target.exprs is Nil, outer);
        },
        PathNode::Tid(clauses, _) => {
            reveal(crate::scanplan::tid_scan_plan);
            lemma_start_columns(ctx, info, clauses, None, false, outer);
        },
        PathNode::TidRange(clauses, _) => {
            reveal(crate::scanplan::tid_scan_plan);
            lemma_start_columns(ctx, info, clauses, None, false, outer);
        },
        PathNode::Subquery { root: _, subpath, clauses } => {
            reveal(crate::scanplan::subquery_scan_plan);
            lemma_start_columns(ctx, info, clauses, None, false, outer);
        },
        PathNode::Nest { .. } => {
            reveal(crate::joinplan::nestloop_plan);
        },
        PathNode::Merge { .. } => {
            reveal(crate::joinplan::mergejoin_plan);
        },
        PathNode::Hash { .. } => {
            reveal(crate::joinplan::hashjoin_plan);
        },
        PathNode::Group { .. } => {
            reveal(crate::planfinish::group_plan);
        },
        PathNode::Agg { .. } => {
            reveal(crate::planagg::agg_plan);
        },
        PathNode::GroupingSets { .. } => {
            reveal(crate::planagg::groupingsets_plan);
        },
        PathNode::WindowAgg { .. } => {
            reveal(crate::planfinish::windowagg_plan);
        },
        PathNode::GroupResult(_) => {
            reveal(crate::planfinish::group_result_plan);
        },
        PathNode::RecursiveUnion { .. } => {
            reveal(crate::planfinish::recursiveunion_plan);
        },
        _ => {},
    }
}

/// The plan of a query, whether it needs parallel workers, and whether it is
/// good only for the user that it was made for.
#[derive(Debug)]
pub struct QueryPlan {
    pub plan: Plan,
    pub parallel_mode_needed: bool,
    pub depends_on_role: bool,
}

/// Makes the plan of a query out of a path. `types` are the types of the
/// parameters of plans: every node that collects the rows of parallel workers
/// gets one of its own.
pub fn create_plan(roots: &Vec<PlanContext>, root: usize, path: Path, types: &mut Vec<u32>) -> (r:
    Result<QueryPlan, PlannerError>)
    ensures
        r == match labelled_plan_of(roots@, root, path) {
            Err(e) => Err(e),
            Ok(p) => {
                let (plan, next) = crate::plannumber::numbered(p, old(types)@.len());
                Ok(
                    QueryPlan {
                        plan,
                        parallel_mode_needed: next > old(types)@.len(),
                        depends_on_role: crate::planrole::uses_role(p),
                    },
                )
            },
        },
        final(types)@ =~= match labelled_plan_of(roots@, root, path) {
            Err(_) => old(types)@,
            Ok(p) => crate::plannumber::grown_types(
                old(types)@,
                crate::plannumber::numbered(p, old(types)@.len()).1,
            ),
        },
{
    match create_labelled_plan(roots, root, path) {
        Err(e) => Err(e),
        Ok(p) => {
            let depends_on_role = depends_on_role(&p);
            let (plan, parallel_mode_needed) = assign_rescan_params(p, types);
            Ok(QueryPlan { plan, parallel_mode_needed, depends_on_role })
        },
    }
}

/// A nested loop joins the rows of the plan of its outer path with those of the
/// plan of its inner path, in the way that the path says, and tests every
/// clause of the path at its place.
pub proof fn lemma_nest_of_path(
    roots: Seq<PlanContext>,
    root: usize,
    path: Path,
    flags: TlistFlags,
    outer: Relids,
)
    ensures
        path.node matches PathNode::Nest { join, params, .. } ==> (plan_of(
            roots,
            root,
            path,
            flags,
            outer,
        ) matches Ok(gated) ==> {
            let plan = crate::joinplan::below_gate(gated);
            &&& crate::scanplan::is_gated_by(roots[root as int], join.restrictinfo@, gated)
            &&& plan.node matches PlanNode::NestLoop { join: f, outer: l, inner: r }
            &&& f.jointype == join.jointype
            &&& f.inner_unique == join.inner_unique
            &&& plan_of(
                roots,
                root,
                *join.inner,
                crate::tlist::no_flags(),
                crate::relids::union_list(outer, join.outer.info.relids),
            ) == Ok::<Plan, PlannerError>(*r)
            &&& params is Nil ==> plan_of(
                roots,
                root,
                *join.outer,
                crate::tlist::no_flags(),
                outer,
            ) == Ok::<Plan, PlannerError>(*l)
            &&& crate::joinplan::quals_apart(
                join.jointype,
                join.restrictinfo@,
                Seq::empty(),
                path.info.param is Some,
                outer,
                f.joinqual@,
                plan.qual@,
            )
        }),
{
    if let PathNode::Nest { join, params, params_safe } = path.node {
        let none = crate::tlist::no_flags();
        let around = crate::relids::union_list(outer, join.outer.info.relids);
        if root < roots.len() {
            if let Ok(left) = plan_of(roots, root, *join.outer, none, outer) {
                if let Ok(right) = plan_of(roots, root, *join.inner, none, around) {
                    crate::joinplan::lemma_nestloop_quals(
                        roots[root as int],
                        path.info,
                        join.jointype,
                        join.inner_unique,
                        join.restrictinfo,
                        params,
                        params_safe,
                        outer,
                        left,
                        right,
                    );
                }
            }
        }
    }
}

/// A hash join joins the rows of the plan of its outer path with a table of
/// those of the plan of its inner path, in the way that the path says, and
/// tests every clause of the path at its place.
pub proof fn lemma_hash_of_path(
    roots: Seq<PlanContext>,
    root: usize,
    path: Path,
    flags: TlistFlags,
    outer: Relids,
)
    ensures
        path.node matches PathNode::Hash { join, clauses, many_batches, .. } ==> (plan_of(
            roots,
            root,
            path,
            flags,
            outer,
        ) matches Ok(gated) ==> {
            let plan = crate::joinplan::below_gate(gated);
            &&& crate::scanplan::is_gated_by(roots[root as int], join.restrictinfo@, gated)
            &&& plan.node matches PlanNode::HashJoin { join: f, clauses: hashed, outer: l, inner: r }
            &&& f.jointype == join.jointype
            &&& f.inner_unique == join.inner_unique
            &&& plan_of(roots, root, *join.outer, small_flags(many_batches), outer) == Ok::<
                Plan,
                PlannerError,
            >(*l)
            &&& r.node matches PlanNode::Hash { input, hashkeys, .. }
            &&& hashkeys == hashed.inner_keys
            &&& plan_of(roots, root, *join.inner, small_flags(true), outer) == Ok::<
                Plan,
                PlannerError,
            >(*input)
            &&& crate::joinplan::quals_apart(
                join.jointype,
                join.restrictinfo@,
                clauses@,
                path.info.param is Some,
                outer,
                f.joinqual@,
                plan.qual@,
            )
        }),
{
    if let PathNode::Hash { join, clauses, many_batches, inner_rows_total } = path.node {
        if root < roots.len() {
            if let Ok(left) = plan_of(roots, root, *join.outer, small_flags(many_batches), outer) {
                if let Ok(right) = plan_of(roots, root, *join.inner, small_flags(true), outer) {
                    crate::joinplan::lemma_hashjoin_quals(
                        roots[root as int],
                        path.info,
                        join.jointype,
                        join.inner_unique,
                        join.restrictinfo,
                        clauses,
                        inner_rows_total,
                        join.outer.info.relids,
                        outer,
                        left,
                        right,
                    );
                    crate::joinplan::lemma_hash_inner(
                        roots[root as int],
                        path.info,
                        join.jointype,
                        join.inner_unique,
                        join.restrictinfo,
                        clauses,
                        inner_rows_total,
                        join.outer.info.relids,
                        outer,
                        left,
                        right,
                    );
                }
            }
        }
    }
}

/// Nodes above scans and joins work on the rows of the plans of their paths, in
/// the way that these say: a limit by its own numbers, a set operation with left
/// and right as they are, an aggregation to the extent that is asked for.
pub proof fn lemma_upper_of_path(
    roots: Seq<PlanContext>,
    root: usize,
    path: Path,
    flags: TlistFlags,
    outer: Relids,
)
    ensures
        plan_of(roots, root, path, flags, outer) matches Ok(plan) ==> {
            &&& path.node matches PathNode::Limit { subpath, offset, count, with_ties } ==> (
            plan.node matches PlanNode::Limit {
                input,
                offset: o,
                count: c,
                with_ties: t,
                ties,
            } && o == offset && c == count && t == with_ties && plan_of(
                roots,
                root,
                *subpath,
                flags,
                outer,
            ) == Ok::<Plan, PlannerError>(*input))
            &&& path.node matches PathNode::SetOp { left, right, command, hashed, .. } ==> (
            plan.node matches PlanNode::SetOp {
                left: l,
                right: r,
                command: c,
                hashed: h,
                columns,
                num_groups,
            } && c == command && h == hashed && plan_of(
                roots,
                root,
                *left,
                and_label(flags),
                outer,
            ) == Ok::<Plan, PlannerError>(*l) && plan_of(
                roots,
                root,
                *right,
                and_label(flags),
                outer,
            ) == Ok::<Plan, PlannerError>(*r))
            &&& path.node matches PathNode::Agg { subpath, strategy, split, qual, .. } ==> (
            plan.node matches PlanNode::Agg {
                input: Some(sub),
                strategy: w,
                split: x,
                columns,
                grouping_sets,
                grouping_map,
                chain,
                num_groups,
                transition_space,
            } && w == strategy && x == split && plan_of(
                roots,
                root,
                *subpath,
                label_flags(false),
                outer,
            ) == Ok::<Plan, PlannerError>(*sub) && crate::quals::picks(
                qual@,
                |r: Rinfo| true,
                |e: crate::expr::Expr| e,
                plan.qual@,
            ))
            &&& path.node matches PathNode::Group { subpath, group_clause, qual } ==> (
            plan.node matches PlanNode::Group(input, columns) && plan_of(
                roots,
                root,
                *subpath,
                label_flags(false),
                outer,
            ) == Ok::<Plan, PlannerError>(*input) && crate::quals::picks(
                qual@,
                |r: Rinfo| true,
                |e: crate::expr::Expr| e,
                plan.qual@,
            ))
            &&& path.node matches PathNode::UpperUnique { subpath, numkeys } ==> (
            plan.node matches PlanNode::Unique(input, columns) && columns@.len() == numkeys
                && plan_of(roots, root, *subpath, and_label(flags), outer) == Ok::<
                Plan,
                PlannerError,
            >(*input))
        },
{
    let ctx = roots[root as int];
    let info = path.info;
    if root < roots.len() {
        match path.node {
            PathNode::Limit { subpath, offset, count, with_ties } => {
                if let Ok(sub) = plan_of(roots, root, *subpath, flags, outer) {
                    crate::planfinish::lemma_limit_plan(
                        ctx,
                        info,
                        offset,
                        count,
                        with_ties,
                        sub,
                    );
                }
            },
            PathNode::SetOp { left, right, command, hashed, group_list, num_groups } => {
                if let Ok(l) = plan_of(roots, root, *left, and_label(flags), outer) {
                    if let Ok(r) = plan_of(roots, root, *right, and_label(flags), outer) {
                        crate::planfinish::lemma_setop_plan(
                            info,
                            command,
                            hashed,
                            group_list,
                            num_groups,
                            outer,
                            l,
                            r,
                        );
                    }
                }
            },
            PathNode::Agg {
                subpath,
                strategy,
                split,
                group_clause,
                num_groups,
                transition_space,
                qual,
            } => {
                if let Ok(sub) = plan_of(roots, root, *subpath, label_flags(false), outer) {
                    crate::planagg::lemma_agg_plan(
                        info,
                        strategy,
                        split,
                        group_clause,
                        num_groups,
                        transition_space,
                        qual,
                        outer,
                        sub,
                    );
                }
            },
            PathNode::Group { subpath, group_clause, qual } => {
                if let Ok(sub) = plan_of(roots, root, *subpath, label_flags(false), outer) {
                    crate::planfinish::lemma_group_plan(info, group_clause, qual, outer, sub);
                }
            },
            PathNode::UpperUnique { subpath, numkeys } => {
                if let Ok(sub) = plan_of(roots, root, *subpath, and_label(flags), outer) {
                    crate::planfinish::lemma_unique_plan(ctx, info, numkeys, sub);
                }
            },
            _ => {},
        }
    }
}

/// A merge join joins the rows of the plans of its two paths, in the way that the
/// path says, and tests every clause of the path at its place. A side that has
/// the order already is not sorted again.
pub proof fn lemma_merge_of_path(
    roots: Seq<PlanContext>,
    root: usize,
    path: Path,
    flags: TlistFlags,
    outer: Relids,
)
    ensures
        path.node matches PathNode::Merge {
            join,
            clauses,
            outersortkeys,
            innersortkeys,
            skip_mark_restore,
            materialize_inner,
            ..
        } ==> (plan_of(roots, root, path, flags, outer) matches Ok(gated) ==> {
            let plan = crate::joinplan::below_gate(gated);
            &&& crate::scanplan::is_gated_by(roots[root as int], join.restrictinfo@, gated)
            &&& plan.node matches PlanNode::MergeJoin {
                join: f,
                clauses: merged,
                keys,
                skip_mark_restore: skip,
                outer: l,
                inner: r,
            }
            &&& f.jointype == join.jointype
            &&& f.inner_unique == join.inner_unique
            &&& skip == skip_mark_restore
            &&& outersortkeys is Nil ==> plan_of(
                roots,
                root,
                *join.outer,
                small_flags(false),
                outer,
            ) == Ok::<Plan, PlannerError>(*l)
            &&& innersortkeys is Nil && !materialize_inner ==> plan_of(
                roots,
                root,
                *join.inner,
                small_flags(false),
                outer,
            ) == Ok::<Plan, PlannerError>(*r)
            &&& materialize_inner ==> r.node is Material
            &&& crate::joinplan::quals_apart(
                join.jointype,
                join.restrictinfo@,
                clauses@,
                path.info.param is Some,
                outer,
                f.joinqual@,
                plan.qual@,
            )
        }),
{
    if let PathNode::Merge {
        join,
        clauses,
        outersortkeys,
        innersortkeys,
        skip_mark_restore,
        materialize_inner,
        outer_presorted,
    } = path.node {
        if root < roots.len() {
            if let Ok(left) = plan_of(
                roots,
                root,
                *join.outer,
                small_flags(!(outersortkeys is Nil)),
                outer,
            ) {
                if let Ok(right) = plan_of(
                    roots,
                    root,
                    *join.inner,
                    small_flags(!(innersortkeys is Nil)),
                    outer,
                ) {
                    let parts = MergeParts {
                        clauses,
                        outersortkeys,
                        innersortkeys,
                        skip_mark_restore,
                        materialize_inner,
                        outer_presorted,
                    };
                    let a = JoinSide {
                        relids: join.outer.info.relids,
                        pathkeys: join.outer.info.pathkeys,
                    };
                    let b = JoinSide {
                        relids: join.inner.info.relids,
                        pathkeys: join.inner.info.pathkeys,
                    };
                    crate::joinplan::lemma_mergejoin_quals(
                        roots[root as int],
                        path.info,
                        join.jointype,
                        join.inner_unique,
                        join.restrictinfo,
                        parts,
                        a,
                        b,
                        outer,
                        left,
                        right,
                    );
                }
            }
        }
    }
}

} // verus!

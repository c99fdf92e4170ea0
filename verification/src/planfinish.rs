//! Plan nodes made from paths whose inputs are planned.
use vstd::prelude::*;
use crate::error::PlannerError;
use crate::expr::{
    build_path_tlist, copy_tlist, expr_collation, replace_nestloop_params_list, Const, Expr,
    TargetEntry, BOOLOID,
};
use crate::list::List;
use crate::path::{PathInfo, PathNode};
use crate::plan::{Amounts, Plan, PlanCosts, PlanNode};
use crate::plangroup::{
    find_group_columns, find_setop_columns, find_unique_columns, make_incrementalsort_from_pathkeys,
    make_sort_from_pathkeys,
};
use crate::planscan::PlanRel;
use crate::quals::{get_actual_clauses, order_qual_clauses, Rinfo};
use crate::rel::{other_rel, RelOptKind};
use crate::relids::Relids;
use crate::sortcols::SortContext;
use crate::sortgroup::SortGroupClause;
use crate::tlist::{apply_tlist_labeling, tlist_same_exprs, PlaceHolderInfo, TlistFlags};

verus! {

/// What plans are made with, for one level of a query.
#[derive(Debug)]
pub struct PlanContext {
    pub sort: SortContext,
    pub rels: Vec<PlanRel>,
    pub placeholders: List<PlaceHolderInfo>,
    pub outer_join_rels: Relids,
    pub processed_tlist: List<TargetEntry>,
    pub query_tlist: List<TargetEntry>,
    pub query_sort: List<SortGroupClause>,
    /// The names that RETURNING knows old and new rows by.
    pub returning_old_alias: Option<u32>,
    pub returning_new_alias: Option<u32>,
    pub processed_group_clause: List<SortGroupClause>,
    pub has_pseudoconstant_quals: bool,
    /// Below this cost a leakproof clause counts as cheap.
    pub cheap: u64,
    pub enable_sort: bool,
    pub enable_incremental_sort: bool,
    pub enable_partition_pruning: bool,
}

/// The figures of a path.
pub open spec fn path_costs(info: PathInfo) -> PlanCosts {
    PlanCosts {
        disabled_nodes: info.disabled_nodes,
        amounts: Amounts::Known { startup: info.startup, total: info.total, rows: info.rows },
        width: info.target.width,
        parallel_aware: info.parallel_aware,
        parallel_safe: info.parallel_safe,
    }
}

/// Copies the figures of a path.
pub fn copy_generic_path_info(info: &PathInfo) -> (r: PlanCosts)
    ensures
        r == path_costs(*info),
{
    PlanCosts {
        disabled_nodes: info.disabled_nodes,
        amounts: Amounts::Known { startup: info.startup, total: info.total, rows: info.rows },
        width: info.target.width,
        parallel_aware: info.parallel_aware,
        parallel_safe: info.parallel_safe,
    }
}

/// What a path computes, as a target list.
pub open spec fn own_tlist(info: PathInfo, outer: Relids) -> List<TargetEntry> {
    crate::expr::path_tlist(
        info.target.exprs,
        info.target.sortgrouprefs,
        1,
        info.param is Some,
        outer,
    )
}

/// Builds the target list of a path.
pub fn build_own_tlist(info: &PathInfo, outer: &Relids) -> (r: List<TargetEntry>)
    ensures
        r == own_tlist(*info, *outer),
{
    build_path_tlist(&info.target, info.param.is_some(), outer)
}

/// A node over a plan.
pub open spec fn node_over(
    info: PathInfo,
    node: PlanNode,
    tlist: List<TargetEntry>,
    qual: List<Expr>,
) -> Plan {
    Plan { node, tlist, qual, costs: path_costs(info) }
}

/// Makes a node under the figures of a path.
pub fn make_node(info: &PathInfo, node: PlanNode, tlist: List<TargetEntry>, qual: List<Expr>) -> (r:
    Plan)
    ensures
        r == node_over(*info, node, tlist, qual),
{
    Plan { node, tlist, qual, costs: copy_generic_path_info(info) }
}

/// Which relations sort columns are looked for in: for the child of another
/// relation those of the path, else none.
pub open spec fn child_relids(info: PathInfo, sub_kind: RelOptKind) -> Relids {
    if crate::rel::is_other_rel(sub_kind) {
        info.relids
    } else {
        List::Nil
    }
}

/// Decides which relations sort columns are looked for in.
pub fn sort_relids_for_child_ec(info: &PathInfo, sub_kind: RelOptKind) -> (r: Relids)
    ensures
        r == child_relids(*info, sub_kind),
{
    if other_rel(sub_kind) {
        info.relids.copy()
    } else {
        List::Nil
    }
}

/// A sort by the order of the path.
#[verifier::opaque]
pub open spec fn sort_plan(
    ctx: PlanContext,
    info: PathInfo,
    sub_kind: RelOptKind,
    sub: Plan,
) -> Result<Plan, PlannerError> {
    match crate::plangroup::sorted_by_pathkeys(
        ctx.sort,
        sub,
        info.pathkeys,
        child_relids(info, sub_kind),
        ctx.enable_sort,
    ) {
        Err(e) => Err(e),
        Ok(p) => Ok(Plan { costs: path_costs(info), ..p }),
    }
}

/// Makes a sort by the order of the path.
pub fn create_sort_plan(ctx: &PlanContext, info: &PathInfo, sub_kind: RelOptKind, sub: Plan) -> (r:
    Result<Plan, PlannerError>)
    ensures
        r == sort_plan(*ctx, *info, sub_kind, sub),
{
    proof {
        reveal(sort_plan);
    }
    let relids = sort_relids_for_child_ec(info, sub_kind);
    match make_sort_from_pathkeys(&ctx.sort, sub, &info.pathkeys, &relids, ctx.enable_sort) {
        Err(e) => Err(e),
        Ok(p) => {
            let mut p = p;
            p.costs = copy_generic_path_info(info);
            Ok(p)
        },
    }
}

/// An incremental sort by the order of the path.
#[verifier::opaque]
pub open spec fn incremental_sort_plan(
    ctx: PlanContext,
    info: PathInfo,
    sub_kind: RelOptKind,
    presorted: i32,
    sub: Plan,
) -> Result<Plan, PlannerError> {
    match crate::plangroup::incrementally_sorted(
        ctx.sort,
        sub,
        info.pathkeys,
        child_relids(info, sub_kind),
        presorted,
    ) {
        Err(e) => Err(e),
        Ok(p) => Ok(Plan { costs: path_costs(info), ..p }),
    }
}

/// Makes an incremental sort by the order of the path.
pub fn create_incremental_sort_plan(
    ctx: &PlanContext,
    info: &PathInfo,
    sub_kind: RelOptKind,
    presorted: i32,
    sub: Plan,
) -> (r: Result<Plan, PlannerError>)
    ensures
        r == incremental_sort_plan(*ctx, *info, sub_kind, presorted, sub),
{
    proof {
        reveal(incremental_sort_plan);
    }
    let relids = sort_relids_for_child_ec(info, sub_kind);
    match make_incrementalsort_from_pathkeys(&ctx.sort, sub, &info.pathkeys, &relids, presorted) {
        Err(e) => Err(e),
        Ok(p) => {
            let mut p = p;
            p.costs = copy_generic_path_info(info);
            Ok(p)
        },
    }
}

/// The rows of a plan, kept.
#[verifier::opaque]
pub open spec fn material_plan(info: PathInfo, sub: Plan) -> Plan {
    node_over(info, PlanNode::Material(Box::new(sub)), sub.tlist, List::Nil)
}

/// Keeps the rows of a plan.
pub fn create_material_plan(info: &PathInfo, sub: Plan) -> (r: Plan)
    ensures
        r == material_plan(*info, sub),
{
    proof {
        reveal(material_plan);
    }
    let tlist = copy_tlist(&sub.tlist);
    make_node(info, PlanNode::Material(Box::new(sub)), tlist, List::Nil)
}

/// A number of rows of a plan. WITH TIES goes by the sort columns of the query.
#[verifier::opaque]
pub open spec fn limit_plan(
    ctx: PlanContext,
    info: PathInfo,
    offset: Option<u32>,
    count: Option<u32>,
    with_ties: bool,
    sub: Plan,
) -> Result<Plan, PlannerError> {
    let ties = if with_ties {
        crate::plangroup::group_columns(ctx.query_sort, ctx.query_tlist)
    } else {
        Ok(List::Nil)
    };
    match ties {
        Err(e) => Err(e),
        Ok(ties) => Ok(
            node_over(
                info,
                PlanNode::Limit { input: Box::new(sub), offset, count, with_ties, ties },
                sub.tlist,
                List::Nil,
            ),
        ),
    }
}

/// Takes a number of rows of a plan.
pub fn create_limit_plan(
    ctx: &PlanContext,
    info: &PathInfo,
    offset: Option<u32>,
    count: Option<u32>,
    with_ties: bool,
    sub: Plan,
) -> (r: Result<Plan, PlannerError>)
    ensures
        r == limit_plan(*ctx, *info, offset, count, with_ties, sub),
{
    proof {
        reveal(limit_plan);
    }
    let ties = if with_ties {
        find_group_columns(&ctx.query_sort, &ctx.query_tlist)
    } else {
        Ok(List::Nil)
    };
    match ties {
        Err(e) => Err(e),
        Ok(ties) => {
            let tlist = copy_tlist(&sub.tlist);
            Ok(
                make_node(
                    info,
                    PlanNode::Limit { input: Box::new(sub), offset, count, with_ties, ties },
                    tlist,
                    List::Nil,
                ),
            )
        },
    }
}

/// Locks the rows of a plan.
#[verifier::opaque]
pub open spec fn lockrows_plan(info: PathInfo, marks: List<u32>, epq_param: i32, sub: Plan) -> Plan {
    node_over(
        info,
        PlanNode::LockRows { input: Box::new(sub), marks, epq_param },
        sub.tlist,
        List::Nil,
    )
}

/// Makes a node that locks the rows of a plan.
pub fn create_lockrows_plan(info: &PathInfo, marks: List<u32>, epq_param: i32, sub: Plan) -> (r:
    Plan)
    ensures
        r == lockrows_plan(*info, marks, epq_param, sub),
{
    proof {
        reveal(lockrows_plan);
    }
    let tlist = copy_tlist(&sub.tlist);
    make_node(
        info,
        PlanNode::LockRows { input: Box::new(sub), marks, epq_param },
        tlist,
        List::Nil,
    )
}

/// The collations of expressions.
pub open spec fn expr_collations(l: List<Expr>) -> List<u32>
    decreases l,
{
    match l {
        List::Nil => List::Nil,
        List::Cons(x, xs) => List::Cons(
            crate::expr::collation_of(x),
            Box::new(expr_collations(*xs)),
        ),
    }
}

fn collect_collations(l: &List<Expr>) -> (r: List<u32>)
    ensures
        r == expr_collations(*l),
    decreases l,
{
    match l {
        List::Nil => List::Nil,
        List::Cons(x, xs) => List::Cons(expr_collation(x), Box::new(collect_collations(xs))),
    }
}

/// The parameters that an expression depends on.
pub open spec fn params_of(e: Expr) -> List<Expr>
    decreases e,
{
    match e {
        Expr::Param(_, _, _) => List::Cons(e, Box::new(List::Nil)),
        Expr::OuterParam(_) => List::Cons(e, Box::new(List::Nil)),
        Expr::PlaceHolder { phid, levelsup, nullingrels, eval_at, expr } => params_of(*expr),
        Expr::Relabel { typid, collation, arg } => params_of(*arg),
        Expr::Call { head, args } => list_params_of(*args),
        _ => List::Nil,
    }
}

/// The parameters that the expressions of a list depend on.
pub open spec fn list_params_of(l: List<Expr>) -> List<Expr>
    decreases l,
{
    match l {
        List::Nil => List::Nil,
        List::Cons(x, xs) => params_of(x).then_list(list_params_of(*xs)),
    }
}

/// Collects the parameters that an expression depends on.
pub fn pull_paramids(e: &Expr) -> (r: List<Expr>)
    ensures
        r == params_of(*e),
    decreases e,
{
    match e {
        Expr::Param(_, _, _) => List::Cons(e.copy(), Box::new(List::Nil)),
        Expr::OuterParam(_) => List::Cons(e.copy(), Box::new(List::Nil)),
        Expr::PlaceHolder { expr, .. } => pull_paramids(expr),
        Expr::Relabel { arg, .. } => pull_paramids(arg),
        Expr::Call { args, .. } => pull_list_paramids(args),
        _ => List::Nil,
    }
}

fn pull_list_paramids(l: &List<Expr>) -> (r: List<Expr>)
    ensures
        r == list_params_of(*l),
    decreases l,
{
    match l {
        List::Nil => List::Nil,
        List::Cons(x, xs) => pull_paramids(x).append(pull_list_paramids(xs)),
    }
}

/// Rows kept by the values of parameters.
#[verifier::opaque]
pub open spec fn memoize_plan(
    info: PathInfo,
    hash_operators: List<u32>,
    param_exprs: List<Expr>,
    singlerow: bool,
    binary_mode: bool,
    est_entries: u32,
    outer: Relids,
    sub: Plan,
) -> Plan {
    let bound = crate::expr::bind_list(param_exprs, outer);
    node_over(
        info,
        PlanNode::Memoize {
            input: Box::new(sub),
            hash_operators,
            collations: expr_collations(bound),
            param_exprs: bound,
            singlerow,
            binary_mode,
            est_entries,
            key_params: list_params_of(bound),
        },
        sub.tlist,
        List::Nil,
    )
}

/// Makes a node that keeps rows by the values of parameters.
pub fn create_memoize_plan(
    info: &PathInfo,
    hash_operators: List<u32>,
    param_exprs: List<Expr>,
    singlerow: bool,
    binary_mode: bool,
    est_entries: u32,
    outer: &Relids,
    sub: Plan,
) -> (r: Plan)
    ensures
        r == memoize_plan(
            *info,
            hash_operators,
            param_exprs,
            singlerow,
            binary_mode,
            est_entries,
            *outer,
            sub,
        ),
{
    proof {
        reveal(memoize_plan);
    }
    let bound = replace_nestloop_params_list(&param_exprs, outer);
    let collations = collect_collations(&bound);
    let key_params = pull_list_paramids(&bound);
    let tlist = copy_tlist(&sub.tlist);
    make_node(
        info,
        PlanNode::Memoize {
            input: Box::new(sub),
            hash_operators,
            collations,
            param_exprs: bound,
            singlerow,
            binary_mode,
            est_entries,
            key_params,
        },
        tlist,
        List::Nil,
    )
}

/// Collects the rows of parallel workers, in order.
#[verifier::opaque]
pub open spec fn gather_merge_plan(
    ctx: PlanContext,
    info: PathInfo,
    sub_relids: Relids,
    num_workers: i32,
    outer: Relids,
    sub: Plan,
) -> Result<Plan, PlannerError> {
    if info.pathkeys is Nil {
        Err(PlannerError::TooFewPathkeys)
    } else {
        match crate::sortcols::sort_columns(ctx.sort, info.pathkeys, sub.tlist, sub_relids, None) {
            Err(e) => Err(e),
            Ok(cols) => Ok(
                node_over(
                    info,
                    PlanNode::GatherMerge {
                        input: Box::new(crate::plangroup::sort_input(sub, cols.tlist)),
                        num_workers,
                        columns: cols.columns,
                        rescan_param: None,
                    },
                    own_tlist(info, outer),
                    List::Nil,
                ),
            ),
        }
    }
}

/// Makes a node that collects the rows of parallel workers in order.
pub fn create_gather_merge_plan(
    ctx: &PlanContext,
    info: &PathInfo,
    sub_relids: &Relids,
    num_workers: i32,
    outer: &Relids,
    sub: Plan,
) -> (r: Result<Plan, PlannerError>)
    ensures
        r == gather_merge_plan(*ctx, *info, *sub_relids, num_workers, *outer, sub),
{
    proof {
        reveal(gather_merge_plan);
    }
    if info.pathkeys.is_nil() {
        return Err(PlannerError::TooFewPathkeys);
    }
    let tlist = copy_tlist(&sub.tlist);
    match crate::sortcols::prepare_sort_from_pathkeys(
        &ctx.sort,
        &info.pathkeys,
        tlist,
        sub_relids,
        None,
    ) {
        Err(e) => Err(e),
        Ok(cols) => {
            let input = crate::plangroup::prepare_sort_input(sub, &cols.tlist);
            Ok(
                make_node(
                    info,
                    PlanNode::GatherMerge {
                        input: Box::new(input),
                        num_workers,
                        columns: cols.columns,
                        rescan_param: None,
                    },
                    build_own_tlist(info, outer),
                    List::Nil,
                ),
            )
        },
    }
}

/// A path whose plan hands on the rows of its input as they are.
pub open spec fn path_projects(node: PathNode) -> bool {
    !(node is Material || node is Memoize || node is Sort || node is IncrementalSort || node
        is UpperUnique || node is Unique || node is SetOp || node is LockRows || node is Limit
        || node is ModifyTable || node is Append || node is MergeAppend || node
        is RecursiveUnion || node is ProjectSet)
}

/// Will the plan of the path compute its target list itself?
pub fn is_projection_capable_path(node: &PathNode) -> (r: bool)
    ensures
        r == path_projects(*node),
{
    match node {
        PathNode::Material(..) => false,
        PathNode::Memoize { .. } => false,
        PathNode::Sort(..) => false,
        PathNode::IncrementalSort(..) => false,
        PathNode::UpperUnique { .. } => false,
        PathNode::Unique { .. } => false,
        PathNode::SetOp { .. } => false,
        PathNode::LockRows { .. } => false,
        PathNode::Limit { .. } => false,
        PathNode::ModifyTable(..) => false,
        PathNode::Append { .. } => false,
        PathNode::MergeAppend { .. } => false,
        PathNode::RecursiveUnion { .. } => false,
        PathNode::ProjectSet(..) => false,
        _ => true,
    }
}

/// How a projection is made into a plan.
#[derive(Clone, Copy, Debug, PartialEq, Eq, Structural)]
pub enum ProjectionWay {
    /// The columns of the input will do.
    Physical,
    /// A node on top computes the columns, unless the input happens to.
    OnTop,
    /// The input computes the columns.
    Inside,
}

/// Which way a projection is made into a plan.
#[verifier::opaque]
pub open spec fn projection_way(
    ctx: PlanContext,
    info: PathInfo,
    sub: PathNode,
    flags: TlistFlags,
) -> ProjectionWay {
    if info.parent < ctx.rels@.len() && crate::tlist::physical_tlist_usable(
        flags,
        ctx.rels@[info.parent as int].scan,
        ctx.placeholders,
        false,
        false,
        info.target,
    ) {
        ProjectionWay::Physical
    } else if path_projects(sub) {
        ProjectionWay::Inside
    } else {
        ProjectionWay::OnTop
    }
}

/// Decides which way a projection is made into a plan.
pub fn choose_projection_way(
    ctx: &PlanContext,
    info: &PathInfo,
    sub: &PathNode,
    flags: TlistFlags,
) -> (r: ProjectionWay)
    ensures
        r == projection_way(*ctx, *info, *sub, flags),
{
    proof {
        reveal(projection_way);
    }
    if info.parent < ctx.rels.len() && crate::tlist::use_physical_tlist(
        flags,
        &ctx.rels[info.parent].scan,
        &ctx.placeholders,
        false,
        false,
        &info.target,
    ) {
        ProjectionWay::Physical
    } else if is_projection_capable_path(sub) {
        ProjectionWay::Inside
    } else {
        ProjectionWay::OnTop
    }
}

/// The plan under the figures of the path, with the given target list.
pub open spec fn relabelled(info: PathInfo, sub: Plan, tlist: List<TargetEntry>) -> Plan {
    Plan {
        tlist,
        costs: PlanCosts {
            amounts: Amounts::Known { startup: info.startup, total: info.total, rows: info.rows },
            width: info.target.width,
            parallel_safe: info.parallel_safe,
            ..sub.costs
        },
        ..sub
    }
}

fn relabel(info: &PathInfo, sub: Plan, tlist: List<TargetEntry>) -> (r: Plan)
    ensures
        r == relabelled(*info, sub, tlist),
{
    let mut sub = sub;
    sub.costs = PlanCosts {
        disabled_nodes: sub.costs.disabled_nodes,
        amounts: Amounts::Known { startup: info.startup, total: info.total, rows: info.rows },
        width: info.target.width,
        parallel_aware: sub.costs.parallel_aware,
        parallel_safe: info.parallel_safe,
    };
    sub.tlist = tlist;
    sub
}

/// The plan of a projection.
#[verifier::opaque]
pub open spec fn projection_plan(
    info: PathInfo,
    way: ProjectionWay,
    label: bool,
    outer: Relids,
    sub: Plan,
) -> Result<Plan, PlannerError> {
    let own = own_tlist(info, outer);
    match way {
        ProjectionWay::Physical => match crate::planscan::labelled_physical(
            sub.tlist,
            info.target,
            label,
        ) {
            Err(e) => Err(e),
            Ok(tlist) => Ok(relabelled(info, sub, tlist)),
        },
        ProjectionWay::OnTop => if crate::tlist::same_columns(own@, sub.tlist@) {
            Ok(relabelled(info, sub, own))
        } else {
            Ok(
                node_over(
                    info,
                    PlanNode::Result(Some(Box::new(sub)), List::Nil),
                    own,
                    List::Nil,
                ),
            )
        },
        ProjectionWay::Inside => Ok(relabelled(info, sub, own)),
    }
}

/// Makes the plan of a projection.
pub fn create_projection_plan(
    info: &PathInfo,
    way: ProjectionWay,
    label: bool,
    outer: &Relids,
    sub: Plan,
) -> (r: Result<Plan, PlannerError>)
    ensures
        r == projection_plan(*info, way, label, *outer, sub),
{
    proof {
        reveal(projection_plan);
    }
    match way {
        ProjectionWay::Physical => {
            let tlist = copy_tlist(&sub.tlist);
            match crate::planscan::label_physical(tlist, &info.target, label) {
                Err(e) => Err(e),
                Ok(tlist) => Ok(relabel(info, sub, tlist)),
            }
        },
        ProjectionWay::OnTop => {
            let own = build_own_tlist(info, outer);
            if tlist_same_exprs(&own, &sub.tlist) {
                Ok(relabel(info, sub, own))
            } else {
                Ok(
                    make_node(
                        info,
                        PlanNode::Result(Some(Box::new(sub)), List::Nil),
                        own,
                        List::Nil,
                    ),
                )
            }
        },
        ProjectionWay::Inside => {
            let own = build_own_tlist(info, outer);
            Ok(relabel(info, sub, own))
        },
    }
}

/// The clauses without regard to security: only their cost counts.
pub open spec fn without_security(l: List<Rinfo>) -> List<Rinfo>
    decreases l,
{
    match l {
        List::Nil => List::Nil,
        List::Cons(x, xs) => List::Cons(
            Rinfo { leakproof: false, security_level: 0, ..x },
            Box::new(without_security(*xs)),
        ),
    }
}

fn drop_security(l: List<Rinfo>) -> (r: List<Rinfo>)
    ensures
        r == without_security(l),
    decreases l,
{
    match l {
        List::Nil => List::Nil,
        List::Cons(x, xs) => {
            let mut x = x;
            x.leakproof = false;
            x.security_level = 0;
            List::Cons(x, Box::new(drop_security(*xs)))
        },
    }
}

/// The expressions in the order of their cost.
#[verifier::opaque]
pub open spec fn cost_ordered(quals: List<Rinfo>) -> List<Expr> {
    crate::quals::all_clauses(crate::quals::ordered_quals(without_security(quals), 0))
}

/// Sorts bare expressions by their cost.
pub fn order_bare_qual_clauses(quals: List<Rinfo>) -> (r: List<Expr>)
    ensures
        r == cost_ordered(quals),
{
    proof {
        reveal(cost_ordered);
    }
    let quals = drop_security(quals);
    let ordered = order_qual_clauses(&quals, 0);
    get_actual_clauses(&ordered)
}

/// A single row, if the clauses hold.
#[verifier::opaque]
pub open spec fn group_result_plan(info: PathInfo, quals: List<Rinfo>, outer: Relids) -> Plan {
    Plan {
        node: PlanNode::Result(None, cost_ordered(quals)),
        tlist: own_tlist(info, outer),
        qual: List::Nil,
        costs: PlanCosts { disabled_nodes: 0, parallel_aware: false, ..path_costs(info) },
    }
}

/// Makes a single row.
pub fn create_group_result_plan(info: &PathInfo, quals: List<Rinfo>, outer: &Relids) -> (r: Plan)
    ensures
        r == group_result_plan(*info, quals, *outer),
{
    proof {
        reveal(group_result_plan);
    }
    let costs = PlanCosts {
        disabled_nodes: 0,
        amounts: Amounts::Known { startup: info.startup, total: info.total, rows: info.rows },
        width: info.target.width,
        parallel_aware: false,
        parallel_safe: info.parallel_safe,
    };
    Plan {
        node: PlanNode::Result(None, order_bare_qual_clauses(quals)),
        tlist: build_own_tlist(info, outer),
        qual: List::Nil,
        costs,
    }
}

/// One row for each group of a sorted plan.
#[verifier::opaque]
pub open spec fn group_plan(
    info: PathInfo,
    group_clause: List<SortGroupClause>,
    qual: List<Rinfo>,
    outer: Relids,
    sub: Plan,
) -> Result<Plan, PlannerError> {
    match crate::plangroup::group_columns(group_clause, sub.tlist) {
        Err(e) => Err(e),
        Ok(columns) => Ok(
            node_over(
                info,
                PlanNode::Group(Box::new(sub), columns),
                own_tlist(info, outer),
                cost_ordered(qual),
            ),
        ),
    }
}

/// Makes a node that returns one row for each group.
pub fn create_group_plan(
    info: &PathInfo,
    group_clause: &List<SortGroupClause>,
    qual: List<Rinfo>,
    outer: &Relids,
    sub: Plan,
) -> (r: Result<Plan, PlannerError>)
    ensures
        r == group_plan(*info, *group_clause, qual, *outer, sub),
{
    proof {
        reveal(group_plan);
    }
    match find_group_columns(group_clause, &sub.tlist) {
        Err(e) => Err(e),
        Ok(columns) => Ok(
            make_node(
                info,
                PlanNode::Group(Box::new(sub), columns),
                build_own_tlist(info, outer),
                order_bare_qual_clauses(qual),
            ),
        ),
    }
}

/// The rows of a window computation.
#[verifier::opaque]
pub open spec fn windowagg_plan(
    info: PathInfo,
    clause: u32,
    partition: List<SortGroupClause>,
    order: List<SortGroupClause>,
    run_condition: List<Expr>,
    qual: List<Expr>,
    topwindow: bool,
    outer: Relids,
    sub: Plan,
) -> Result<Plan, PlannerError> {
    match (
        crate::plangroup::group_columns(partition, sub.tlist),
        crate::plangroup::group_columns(order, sub.tlist),
    ) {
        (Err(e), _) => Err(e),
        (_, Err(e)) => Err(e),
        (Ok(p), Ok(o)) => Ok(
            node_over(
                info,
                PlanNode::WindowAgg {
                    input: Box::new(sub),
                    clause,
                    partition: p,
                    order: o,
                    run_condition,
                    topwindow,
                },
                own_tlist(info, outer),
                qual,
            ),
        ),
    }
}

/// Makes a window computation.
pub fn create_windowagg_plan(
    info: &PathInfo,
    clause: u32,
    partition: &List<SortGroupClause>,
    order: &List<SortGroupClause>,
    run_condition: List<Expr>,
    qual: List<Expr>,
    topwindow: bool,
    outer: &Relids,
    sub: Plan,
) -> (r: Result<Plan, PlannerError>)
    ensures
        r == windowagg_plan(
            *info,
            clause,
            *partition,
            *order,
            run_condition,
            qual,
            topwindow,
            *outer,
            sub,
        ),
{
    proof {
        reveal(windowagg_plan);
    }
    let p = match find_group_columns(partition, &sub.tlist) {
        Err(e) => {
            return Err(e);
        },
        Ok(p) => p,
    };
    let o = match find_group_columns(order, &sub.tlist) {
        Err(e) => {
            return Err(e);
        },
        Ok(o) => o,
    };
    Ok(
        make_node(
            info,
            PlanNode::WindowAgg {
                input: Box::new(sub),
                clause,
                partition: p,
                order: o,
                run_condition,
                topwindow,
            },
            build_own_tlist(info, outer),
            qual,
        ),
    )
}

/// The rows of a sorted plan without those that repeat the one before.
#[verifier::opaque]
pub open spec fn upper_unique_plan(
    ctx: PlanContext,
    info: PathInfo,
    numkeys: usize,
    sub: Plan,
) -> Result<Plan, PlannerError> {
    match crate::plangroup::unique_columns(ctx.sort, info.pathkeys, numkeys, sub.tlist) {
        Err(e) => Err(e),
        Ok(columns) => Ok(
            node_over(info, PlanNode::Unique(Box::new(sub), columns), sub.tlist, List::Nil),
        ),
    }
}

/// Makes a node that removes repeated rows.
pub fn create_upper_unique_plan(
    ctx: &PlanContext,
    info: &PathInfo,
    numkeys: usize,
    sub: Plan,
) -> (r: Result<Plan, PlannerError>)
    ensures
        r == upper_unique_plan(*ctx, *info, numkeys, sub),
{
    proof {
        reveal(upper_unique_plan);
    }
    match find_unique_columns(&ctx.sort, &info.pathkeys, numkeys, &sub.tlist) {
        Err(e) => Err(e),
        Ok(columns) => {
            let tlist = copy_tlist(&sub.tlist);
            Ok(make_node(info, PlanNode::Unique(Box::new(sub), columns), tlist, List::Nil))
        },
    }
}

/// A set operation on two plans.
#[verifier::opaque]
pub open spec fn setop_plan(
    info: PathInfo,
    command: u32,
    hashed: bool,
    group_list: List<SortGroupClause>,
    num_groups: u64,
    outer: Relids,
    left: Plan,
    right: Plan,
) -> Result<Plan, PlannerError> {
    match crate::plangroup::setop_columns(group_list, own_tlist(info, outer), hashed) {
        Err(e) => Err(e),
        Ok(columns) => Ok(
            node_over(
                info,
                PlanNode::SetOp {
                    left: Box::new(left),
                    right: Box::new(right),
                    command,
                    hashed,
                    columns,
                    num_groups,
                },
                own_tlist(info, outer),
                List::Nil,
            ),
        ),
    }
}

/// Makes a set operation on two plans.
pub fn create_setop_plan(
    info: &PathInfo,
    command: u32,
    hashed: bool,
    group_list: &List<SortGroupClause>,
    num_groups: u64,
    outer: &Relids,
    left: Plan,
    right: Plan,
) -> (r: Result<Plan, PlannerError>)
    ensures
        r == setop_plan(
            *info,
            command,
            hashed,
            *group_list,
            num_groups,
            *outer,
            left,
            right,
        ),
{
    proof {
        reveal(setop_plan);
    }
    let tlist = build_own_tlist(info, outer);
    match find_setop_columns(group_list, &tlist, hashed) {
        Err(e) => Err(e),
        Ok(columns) => Ok(
            make_node(
                info,
                PlanNode::SetOp {
                    left: Box::new(left),
                    right: Box::new(right),
                    command,
                    hashed,
                    columns,
                    num_groups,
                },
                tlist,
                List::Nil,
            ),
        ),
    }
}

/// A recursive union of two plans.
#[verifier::opaque]
pub open spec fn recursiveunion_plan(
    info: PathInfo,
    wt_param: i32,
    distinct_list: List<SortGroupClause>,
    num_groups: u64,
    outer: Relids,
    left: Plan,
    right: Plan,
) -> Result<Plan, PlannerError> {
    match crate::plangroup::group_columns(distinct_list, own_tlist(info, outer)) {
        Err(e) => Err(e),
        Ok(columns) => Ok(
            node_over(
                info,
                PlanNode::RecursiveUnion {
                    left: Box::new(left),
                    right: Box::new(right),
                    wt_param,
                    columns,
                    num_groups,
                },
                own_tlist(info, outer),
                List::Nil,
            ),
        ),
    }
}

/// Makes a recursive union of two plans.
pub fn create_recursiveunion_plan(
    info: &PathInfo,
    wt_param: i32,
    distinct_list: &List<SortGroupClause>,
    num_groups: u64,
    outer: &Relids,
    left: Plan,
    right: Plan,
) -> (r: Result<Plan, PlannerError>)
    ensures
        r == recursiveunion_plan(
            *info,
            wt_param,
            *distinct_list,
            num_groups,
            *outer,
            left,
            right,
        ),
{
    proof {
        reveal(recursiveunion_plan);
    }
    let tlist = build_own_tlist(info, outer);
    match find_group_columns(distinct_list, &tlist) {
        Err(e) => Err(e),
        Ok(columns) => Ok(
            make_node(
                info,
                PlanNode::RecursiveUnion {
                    left: Box::new(left),
                    right: Box::new(right),
                    wt_param,
                    columns,
                    num_groups,
                },
                tlist,
                List::Nil,
            ),
        ),
    }
}

/// A plan under conditions that are tested once.
pub open spec fn gated(info: PathInfo, gating: List<Expr>, outer: Relids, plan: Plan) -> Plan {
    let input = if plan.node is Result && plan.node->Result_0 is None && plan.node->Result_1 is Nil {
        None
    } else {
        Some(Box::new(plan))
    };
    Plan {
        node: PlanNode::Result(input, gating),
        tlist: own_tlist(info, outer),
        qual: List::Nil,
        costs: PlanCosts {
            parallel_aware: false,
            parallel_safe: info.parallel_safe,
            ..plan.costs
        },
    }
}

/// Puts conditions that are tested once on top of a plan. A plan that is
/// nothing but a single row is replaced.
pub fn create_gating_plan(info: &PathInfo, gating: List<Expr>, outer: &Relids, plan: Plan) -> (r:
    Plan)
    ensures
        r == gated(*info, gating, *outer, plan),
{
    let costs = PlanCosts {
        disabled_nodes: plan.costs.disabled_nodes,
        amounts: plan.costs.amounts,
        width: plan.costs.width,
        parallel_aware: false,
        parallel_safe: info.parallel_safe,
    };
    let bare_row = match &plan.node {
        PlanNode::Result(input, qual) => input.is_none() && qual.is_nil(),
        _ => false,
    };
    let input = if bare_row {
        None
    } else {
        Some(Box::new(plan))
    };
    Plan {
        node: PlanNode::Result(input, gating),
        tlist: build_own_tlist(info, outer),
        qual: List::Nil,
        costs,
    }
}

/// The constant FALSE.
pub open spec fn const_false() -> Expr {
    Expr::Const(Const { typid: BOOLOID, collation: 0, value: 0, isnull: false })
}

/// No rows at all.
#[verifier::opaque]
pub open spec fn dummy_plan(info: PathInfo, outer: Relids) -> Plan {
    node_over(
        info,
        PlanNode::Result(None, List::Cons(const_false(), Box::new(List::Nil))),
        own_tlist(info, outer),
        List::Nil,
    )
}

/// Makes a plan that returns no rows.
pub fn make_dummy_plan(info: &PathInfo, outer: &Relids) -> (r: Plan)
    ensures
        r == dummy_plan(*info, *outer),
{
    proof {
        reveal(dummy_plan);
    }
    let never = Expr::Const(Const { typid: BOOLOID, collation: 0, value: 0, isnull: false });
    make_node(
        info,
        PlanNode::Result(None, List::one(never)),
        build_own_tlist(info, outer),
        List::Nil,
    )
}

/// The plan with the decoration of the target list of its query.
#[verifier::opaque]
pub open spec fn with_query_labels(ctx: PlanContext, plan: Plan) -> Result<Plan, PlannerError> {
    if plan.tlist@.len() == ctx.processed_tlist@.len() {
        Ok(
            Plan {
                tlist: crate::tlist::labelled_tlist(plan.tlist, ctx.processed_tlist),
                ..plan
            },
        )
    } else {
        Err(PlannerError::TargetListLengthMismatch)
    }
}

/// Puts the decoration of the target list of the query onto a plan.
pub fn label_for_query(ctx: &PlanContext, plan: Plan) -> (r: Result<Plan, PlannerError>)
    ensures
        r == with_query_labels(*ctx, plan),
{
    proof {
        reveal(with_query_labels);
    }
    if crate::plangroup::equal_length(&plan.tlist, &ctx.processed_tlist) {
        let mut plan = plan;
        let tlist = copy_tlist(&plan.tlist);
        plan.tlist = apply_tlist_labeling(tlist, &ctx.processed_tlist);
        Ok(plan)
    } else {
        Err(PlannerError::TargetListLengthMismatch)
    }
}

proof fn lemma_all_clauses(l: List<Rinfo>)
    ensures
        crate::quals::all_clauses(l)@ == l@.map_values(|r: Rinfo| r.clause),
    decreases l,
{
    match l {
        List::Nil => {
            assert(crate::quals::all_clauses(l)@ =~= l@.map_values(|r: Rinfo| r.clause));
        },
        List::Cons(x, xs) => {
            lemma_all_clauses(*xs);
            assert(l@.map_values(|r: Rinfo| r.clause) =~= seq![x.clause] + xs@.map_values(
                |r: Rinfo| r.clause,
            ));
        },
    }
}

proof fn lemma_without_security(l: List<Rinfo>)
    ensures
        without_security(l)@.len() == l@.len(),
        forall|i: int|
            0 <= i < l@.len() ==> (#[trigger] without_security(l)@[i]) == (Rinfo {
                leakproof: false,
                security_level: 0,
                ..l@[i]
            }),
    decreases l,
{
    match l {
        List::Nil => {
            assert(l@.len() == 0);
        },
        List::Cons(x, xs) => {
            lemma_without_security(*xs);
            assert(forall|i: int|
                1 <= i < l@.len() ==> #[trigger] without_security(l)@[i] == without_security(
                    *xs,
                )@[i - 1]);
        },
    }
}

/// All conditions are kept when they are put into the order of their cost, and
/// none is added.
pub proof fn lemma_conditions_kept(quals: List<Rinfo>)
    ensures
        crate::quals::picks(
            quals@,
            |r: Rinfo| true,
            |e: Expr| e,
            cost_ordered(quals)@,
        ),
{
    reveal(cost_ordered);
    let bare = without_security(quals);
    let ordered = crate::quals::ordered_quals(bare, 0);
    let result = cost_ordered(quals)@;
    let every = |r: Rinfo| true;
    let shown = |e: Expr| e;
    lemma_all_clauses(ordered);
    lemma_filter_every(ordered@);
    assert(result =~= ordered@.filter(every).map_values(|r: Rinfo| shown(r.clause)));
    crate::quals::lemma_picked_in_order(bare, 0, every, shown, result);
    lemma_without_security(quals);
    lemma_filter_every(quals@);
    lemma_filter_every(bare@);
    assert forall|i: int| 0 <= i < quals@.len() && every(#[trigger] quals@[i]) implies result.contains(
        shown(quals@[i].clause),
    ) by {
        assert(every(bare@[i]));
    }
    assert forall|k: int| 0 <= k < result.len() implies crate::quals::comes_from(
        quals@,
        every,
        shown,
        #[trigger] result[k],
    ) by {
        assert(crate::quals::comes_from(bare@, every, shown, result[k]));
        let i = choose|i: int|
            0 <= i < bare@.len() && every(#[trigger] bare@[i]) && shown(bare@[i].clause)
                == result[k];
        assert(every(quals@[i]) && shown(quals@[i].clause) == result[k]);
    }
}

proof fn lemma_filter_every(s: Seq<Rinfo>)
    ensures
        s.filter(|r: Rinfo| true) == s,
    decreases s.len(),
{
    reveal(Seq::filter);
    if s.len() > 0 {
        lemma_filter_every(s.drop_last());
        assert(s.drop_last().push(s.last()) =~= s);
    } else {
        assert(s =~= Seq::<Rinfo>::empty());
    }
}

/// Groups are formed by the columns of the clauses, from the rows of the input,
/// and every condition on them is tested.
pub proof fn lemma_group_plan(
    info: PathInfo,
    group_clause: List<SortGroupClause>,
    qual: List<Rinfo>,
    outer: Relids,
    sub: Plan,
)
    ensures
        group_plan(info, group_clause, qual, outer, sub) matches Ok(plan) ==> {
            &&& plan.node matches PlanNode::Group(input, columns) && *input == sub && columns@.len()
                == group_clause@.len() && forall|i: int|
                0 <= i < columns@.len() ==> (#[trigger] columns@[i]).operator
                    == group_clause@[i].eqop && crate::plangroup::is_column_of(
                    sub.tlist@,
                    group_clause@[i].tle_sort_group_ref,
                    columns@[i].resno,
                    columns@[i].collation,
                )
            &&& crate::quals::picks(qual@, |r: Rinfo| true, |e: Expr| e, plan.qual@)
        },
{
    reveal(group_plan);
    lemma_conditions_kept(qual);
    crate::plangroup::lemma_group_columns(group_clause, sub.tlist);
}

/// Window functions run over the rows of the input, divided by the columns of
/// PARTITION BY and in the order of those of ORDER BY.
pub proof fn lemma_windowagg_plan(
    info: PathInfo,
    clause: u32,
    partition_by: List<SortGroupClause>,
    order_by: List<SortGroupClause>,
    run_condition: List<Expr>,
    qual: List<Expr>,
    topwindow: bool,
    outer: Relids,
    sub: Plan,
)
    ensures
        windowagg_plan(
            info,
            clause,
            partition_by,
            order_by,
            run_condition,
            qual,
            topwindow,
            outer,
            sub,
        ) matches Ok(plan) ==> {
            &&& plan.qual == qual
            &&& plan.node matches PlanNode::WindowAgg {
                input,
                clause: number,
                partition,
                order,
                run_condition: condition,
                topwindow: top,
            } && *input == sub && number == clause && condition == run_condition && top
                == topwindow && partition@.len() == partition_by@.len() && order@.len()
                == order_by@.len() && (forall|i: int|
                0 <= i < partition@.len() ==> crate::plangroup::is_column_of(
                    sub.tlist@,
                    partition_by@[i].tle_sort_group_ref,
                    (#[trigger] partition@[i]).resno,
                    partition@[i].collation,
                )) && (forall|i: int|
                0 <= i < order@.len() ==> crate::plangroup::is_column_of(
                    sub.tlist@,
                    order_by@[i].tle_sort_group_ref,
                    (#[trigger] order@[i]).resno,
                    order@[i].collation,
                ))
        },
{
    reveal(windowagg_plan);
    crate::plangroup::lemma_group_columns(partition_by, sub.tlist);
    crate::plangroup::lemma_group_columns(order_by, sub.tlist);
}

/// LIMIT and OFFSET apply to the rows of the input, each by its own number, and
/// leave the columns as they are. With ties, rows count as equal by the columns
/// of ORDER BY; without, by none.
pub proof fn lemma_limit_plan(
    ctx: PlanContext,
    info: PathInfo,
    offset: Option<u32>,
    count: Option<u32>,
    with_ties: bool,
    sub: Plan,
)
    ensures
        !with_ties ==> limit_plan(ctx, info, offset, count, with_ties, sub) is Ok,
        limit_plan(ctx, info, offset, count, with_ties, sub) matches Ok(plan) ==> {
            &&& plan.tlist == sub.tlist
            &&& plan.qual@.len() == 0
            &&& plan.node matches PlanNode::Limit {
                input,
                offset: skipped,
                count: kept,
                with_ties: ties_count,
                ties,
            } && *input == sub && skipped == offset && kept == count && ties_count == with_ties
                && ties@.len() == (if with_ties {
                ctx.query_sort@.len()
            } else {
                0
            }) && forall|i: int|
                0 <= i < ties@.len() ==> (#[trigger] ties@[i]).operator == ctx.query_sort@[i].eqop
                    && crate::plangroup::is_column_of(
                    ctx.query_tlist@,
                    ctx.query_sort@[i].tle_sort_group_ref,
                    ties@[i].resno,
                    ties@[i].collation,
                )
        },
{
    reveal(limit_plan);
    crate::plangroup::lemma_group_columns(ctx.query_sort, ctx.query_tlist);
    let none: List<crate::plan::GroupColumn> = List::Nil;
    assert(none@.len() == 0);
    let nothing: List<Expr> = List::Nil;
    assert(nothing@.len() == 0);
}

/// Repeated rows of the input are removed by the first keys of its order, as
/// many as are asked for; columns stay as they are.
pub proof fn lemma_unique_plan(ctx: PlanContext, info: PathInfo, numkeys: usize, sub: Plan)
    ensures
        upper_unique_plan(ctx, info, numkeys, sub) matches Ok(plan) ==> {
            &&& plan.tlist == sub.tlist
            &&& plan.node matches PlanNode::Unique(input, columns) && *input == sub
                && columns@.len() == numkeys && numkeys <= info.pathkeys@.len() && forall|i: int|
                0 <= i < numkeys ==> (#[trigger] columns@[i]).operator.opfamily
                    == info.pathkeys@[i].opfamily && columns@[i].operator.test
                    == crate::expr::OrderTest::Equal
        },
{
    reveal(upper_unique_plan);
    crate::plangroup::lemma_unique_columns(ctx.sort, info.pathkeys, numkeys, sub.tlist);
}

/// A set operation takes the rows of its left input and those of its right one
/// as such, and compares them by the columns of its clauses.
pub proof fn lemma_setop_plan(
    info: PathInfo,
    command: u32,
    hashed: bool,
    group_list: List<SortGroupClause>,
    num_groups: u64,
    outer: Relids,
    left: Plan,
    right: Plan,
)
    ensures
        setop_plan(
            info,
            command,
            hashed,
            group_list,
            num_groups,
            outer,
            left,
            right,
        ) matches Ok(plan) ==> plan.node matches PlanNode::SetOp {
            left: l,
            right: r,
            command: c,
            hashed: h,
            columns,
            num_groups: n,
        } && *l == left && *r == right && c == command && h == hashed && n == num_groups
            && columns@.len() == group_list@.len() && forall|i: int|
            0 <= i < columns@.len() ==> {
                &&& hashed ==> (#[trigger] columns@[i]).operator == group_list@[i].eqop
                &&& !hashed ==> columns@[i].operator == group_list@[i].sortop
            },
{
    reveal(setop_plan);
    crate::plangroup::lemma_setop_columns(group_list, own_tlist(info, outer), hashed);
}

/// Locking rows, and keeping them, changes neither which rows there are nor
/// their columns.
pub proof fn lemma_rows_pass_through(
    info: PathInfo,
    marks: List<u32>,
    epq_param: i32,
    sub: Plan,
)
    ensures
        ({
            let locked = lockrows_plan(info, marks, epq_param, sub);
            let kept = material_plan(info, sub);
            &&& locked.tlist == sub.tlist && locked.qual@.len() == 0
            &&& kept.tlist == sub.tlist && kept.qual@.len() == 0
            &&& kept.node matches PlanNode::Material(input) && *input == sub
            &&& locked.node matches PlanNode::LockRows { input, marks: m, epq_param: p } && *input
                == sub && m == marks && p == epq_param
        }),
{
    reveal(lockrows_plan);
    reveal(material_plan);
    let nothing: List<Expr> = List::Nil;
    assert(nothing@.len() == 0);
}

/// A sort brings rows into the order of its path: by each of its keys, in their
/// order and in the direction of each. So does an incremental sort, which knows
/// by how many keys the rows are sorted already. Both compute at least what
/// their input does, and test nothing.
pub proof fn lemma_sort_plan(
    ctx: PlanContext,
    info: PathInfo,
    sub_kind: RelOptKind,
    presorted: i32,
    sub: Plan,
    i: int,
)
    requires
        0 <= i < info.pathkeys@.len(),
    ensures
        sort_plan(ctx, info, sub_kind, sub) matches Ok(plan) ==> {
            &&& sub.tlist@.is_prefix_of(plan.tlist@)
            &&& plan.qual@.len() == 0
            &&& plan.node matches PlanNode::Sort(_, columns) && columns@.len()
                == info.pathkeys@.len() && columns@[i].operator.test == info.pathkeys@[i].direction
                && columns@[i].nulls_first == info.pathkeys@[i].nulls_first
                && columns@[i].operator.opfamily == info.pathkeys@[i].opfamily
        },
        incremental_sort_plan(ctx, info, sub_kind, presorted, sub) matches Ok(plan) ==> {
            &&& sub.tlist@.is_prefix_of(plan.tlist@)
            &&& plan.qual@.len() == 0
            &&& plan.node matches PlanNode::IncrementalSort(_, columns, known) && known == presorted
                && columns@.len() == info.pathkeys@.len() && columns@[i].operator.test
                == info.pathkeys@[i].direction && columns@[i].nulls_first
                == info.pathkeys@[i].nulls_first && columns@[i].operator.opfamily
                == info.pathkeys@[i].opfamily
        },
{
    reveal(sort_plan);
    reveal(incremental_sort_plan);
    let relids = child_relids(info, sub_kind);
    crate::sortcols::lemma_sort_directions(ctx.sort, info.pathkeys, sub.tlist, relids, None, i);
    crate::sortcols::lemma_sort_columns(ctx.sort, info.pathkeys, sub.tlist, relids, None);
    let nothing: List<Expr> = List::Nil;
    assert(nothing@.len() == 0);
}

/// A plan for no rows tests a condition that never holds; one for a single row
/// tests just the conditions that it has.
pub proof fn lemma_single_rows(info: PathInfo, quals: List<Rinfo>, outer: Relids)
    ensures
        dummy_plan(info, outer).node matches PlanNode::Result(None, conditions) && exists|i: int|
            0 <= i < conditions@.len() && (#[trigger] conditions@[i] matches Expr::Const(c)
                && !c.isnull && c.value == 0),
        group_result_plan(info, quals, outer).node matches PlanNode::Result(None, conditions)
            && crate::quals::picks(quals@, |r: Rinfo| true, |e: Expr| e, conditions@),
{
    reveal(dummy_plan);
    reveal(group_result_plan);
    lemma_conditions_kept(quals);
    let never: List<Expr> = List::Cons(const_false(), Box::new(List::Nil));
    assert(never@[0] == const_false());
}

} // verus!

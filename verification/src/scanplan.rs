//! Plans of scans.
use vstd::prelude::*;
use crate::error::PlannerError;
use crate::expr::{
    bind_exprs, equal, replace_nestloop_params, Expr, Head, TargetEntry,
};
use crate::list::List;
use crate::path::{IndexPath, Path, PathInfo, PathNode, ScanKind};
use crate::plan::{Amounts, IndexScan, Plan, PlanCosts, PlanNode, ScanSource};
use crate::planfinish::{create_gating_plan, make_node, PlanContext};
use crate::planindex::{
    collect_bitmap_index_quals, fix_indexorderby_references, fix_indexqual_references,
    has_hidden_column, ios_indextlist_copy, make_ands_explicit, make_or_quals,
    orderby_sort_operators, BitmapQuals,
};
use crate::planscan::{
    choose_scan_tlist, collect_scan_clauses, rest_after_bitmap, rest_after_index, rest_after_tid,
    rest_after_tidrange, seqscan_consumed_cols,
};
use crate::quals::{
    extract_actual_clauses, get_gating_quals, list_concat_unique, order_qual_clauses, Rinfo,
};
use crate::recheck::{drop_tested, join_rechecks, require_all, require_one, Recheck};
use crate::relids::Relids;
use crate::tlist::TlistFlags;

verus! {

/// What every scan starts from: the relation, the target list, the clauses to
/// be tested, and those of them that are tested once.
#[derive(Debug)]
pub struct ScanStart {
    pub relid: u32,
    pub tlist: List<TargetEntry>,
    pub clauses: List<Rinfo>,
    pub gating: List<Expr>,
}

/// What a scan starts from. Where conditions are tested once ahead of it, the
/// node that tests them projects, so the scan need not heed the flags.
pub open spec fn scan_start(
    ctx: PlanContext,
    info: PathInfo,
    base: List<Rinfo>,
    flags: TlistFlags,
    index_columns: Option<(List<TargetEntry>, bool)>,
    empty_bitmap_target: bool,
    outer: Relids,
) -> Result<ScanStart, PlannerError> {
    let clauses = crate::planscan::scan_clauses(base, info.param);
    let gating = crate::quals::gating_quals(ctx.has_pseudoconstant_quals, clauses, ctx.cheap);
    let own_flags = if gating is Nil {
        flags
    } else {
        crate::tlist::no_flags()
    };
    if info.parent >= ctx.rels@.len() {
        Err(PlannerError::UnknownRelation)
    } else {
        match crate::planscan::scan_tlist(
            own_flags,
            ctx.rels@[info.parent as int],
            ctx.placeholders,
            index_columns,
            empty_bitmap_target,
            info.target,
            info.param is Some,
            outer,
        ) {
            Err(e) => Err(e),
            Ok(tlist) => Ok(
                ScanStart { relid: ctx.rels@[info.parent as int].relid, tlist, clauses, gating },
            ),
        }
    }
}

/// Starts a scan.
pub fn start_scan(
    ctx: &PlanContext,
    info: &PathInfo,
    base: List<Rinfo>,
    flags: TlistFlags,
    index_columns: Option<(List<TargetEntry>, bool)>,
    empty_bitmap_target: bool,
    outer: &Relids,
) -> (r: Result<ScanStart, PlannerError>)
    ensures
        r == scan_start(*ctx, *info, base, flags, index_columns, empty_bitmap_target, *outer),
{
    let clauses = collect_scan_clauses(base, &info.param);
    let gating = get_gating_quals(ctx.has_pseudoconstant_quals, &clauses, ctx.cheap);
    let own_flags = if gating.is_nil() {
        flags
    } else {
        TlistFlags { exact: false, small: false, label: false, ignore: false }
    };
    if info.parent >= ctx.rels.len() {
        return Err(PlannerError::UnknownRelation);
    }
    let relid: u32 = ctx.rels[info.parent].relid;
    match choose_scan_tlist(
        own_flags,
        &ctx.rels[info.parent],
        &ctx.placeholders,
        index_columns,
        empty_bitmap_target,
        &info.target,
        info.param.is_some(),
        outer,
    ) {
        Err(e) => Err(e),
        Ok(tlist) => Ok(ScanStart { relid, tlist, clauses, gating }),
    }
}

/// The plan under the conditions that are tested once, if there are any.
pub open spec fn gated_if(info: PathInfo, gating: List<Expr>, outer: Relids, plan: Plan) -> Plan {
    if gating is Nil {
        plan
    } else {
        crate::planfinish::gated(info, gating, outer, plan)
    }
}

/// Puts conditions that are tested once, if there are any, on top of a plan.
pub fn gate_plan(info: &PathInfo, gating: List<Expr>, outer: &Relids, plan: Plan) -> (r: Plan)
    ensures
        r == gated_if(*info, gating, *outer, plan),
{
    if gating.is_nil() {
        plan
    } else {
        create_gating_plan(info, gating, outer, plan)
    }
}

/// The clauses that are tested for each row, in the order of their tests.
pub open spec fn tested_quals(ctx: PlanContext, clauses: List<Rinfo>) -> List<Expr> {
    crate::quals::actual_clauses(crate::quals::ordered_quals(clauses, ctx.cheap))
}

fn order_tests(ctx: &PlanContext, clauses: &List<Rinfo>) -> (r: List<Expr>)
    ensures
        r == tested_quals(*ctx, *clauses),
{
    let ordered = order_qual_clauses(clauses, ctx.cheap);
    extract_actual_clauses(&ordered)
}

/// The number by which columns refer to a relation; 0 where there is none.
pub open spec fn varno_of(relid: u32) -> i32 {
    if relid <= i32::MAX {
        relid as i32
    } else {
        0
    }
}

/// The number by which columns refer to a relation.
pub fn find_varno(relid: u32) -> (r: i32)
    ensures
        r == varno_of(relid),
{
    if relid <= i32::MAX as u32 {
        relid as i32
    } else {
        0
    }
}

/// What a scan reads, with outer references as parameters.
pub open spec fn scan_source(
    kind: ScanKind,
    info: PathInfo,
    relid: u32,
    quals: List<Expr>,
    outer: Relids,
) -> Result<ScanSource, PlannerError> {
    let p = info.param is Some;
    match kind {
        ScanKind::Table | ScanKind::Result => Ok(
            ScanSource::Table(
                crate::planscan::consumed_columns(info.target.exprs, quals, varno_of(relid)),
            ),
        ),
        ScanKind::Sample(method, args, seed) => Ok(
            ScanSource::Sample(
                method,
                crate::expr::bind_list_if(args, p, outer),
                match seed {
                    Some(e) => Some(crate::expr::bind_if(e, p, outer)),
                    None => None,
                },
            ),
        ),
        ScanKind::Function(functions, ordinality) => Ok(
            ScanSource::Function(crate::expr::bind_list_if(functions, p, outer), ordinality),
        ),
        ScanKind::TableFunc(e) => Ok(ScanSource::TableFunc(crate::expr::bind_if(e, p, outer))),
        ScanKind::Values(rows) => Ok(
            ScanSource::Values(crate::expr::bind_list_if(rows, p, outer)),
        ),
        ScanKind::Cte(plan, param) => Ok(ScanSource::Cte(plan, param)),
        ScanKind::NamedTuplestore(name) => Ok(ScanSource::NamedTuplestore(name)),
        ScanKind::WorkTable(param) => if param < 0 {
            Err(PlannerError::WorkTableNotFound)
        } else {
            Ok(ScanSource::WorkTable(param))
        },
    }
}

fn bind_expr(e: Expr, parameterized: bool, outer: &Relids) -> (r: Expr)
    ensures
        r == crate::expr::bind_if(e, parameterized, *outer),
{
    if parameterized {
        replace_nestloop_params(&e, outer)
    } else {
        e
    }
}

fn make_scan_source(
    kind: ScanKind,
    info: &PathInfo,
    relid: u32,
    quals: &List<Expr>,
    outer: &Relids,
) -> (r: Result<ScanSource, PlannerError>)
    ensures
        r == scan_source(kind, *info, relid, *quals, *outer),
{
    let p = info.param.is_some();
    match kind {
        ScanKind::Table | ScanKind::Result => Ok(
            ScanSource::Table(
                seqscan_consumed_cols(&info.target.exprs, quals, find_varno(relid)),
            ),
        ),
        ScanKind::Sample(method, args, seed) => {
            let seed = match seed {
                Some(e) => Some(bind_expr(e, p, outer)),
                None => None,
            };
            Ok(ScanSource::Sample(method, bind_exprs(args, p, outer), seed))
        },
        ScanKind::Function(functions, ordinality) => Ok(
            ScanSource::Function(bind_exprs(functions, p, outer), ordinality),
        ),
        ScanKind::TableFunc(e) => Ok(ScanSource::TableFunc(bind_expr(e, p, outer))),
        ScanKind::Values(rows) => Ok(ScanSource::Values(bind_exprs(rows, p, outer))),
        ScanKind::Cte(plan, param) => Ok(ScanSource::Cte(plan, param)),
        ScanKind::NamedTuplestore(name) => Ok(ScanSource::NamedTuplestore(name)),
        ScanKind::WorkTable(param) => if param < 0 {
            Err(PlannerError::WorkTableNotFound)
        } else {
            Ok(ScanSource::WorkTable(param))
        },
    }
}

/// Outer references in the clauses of such a scan become parameters.
pub open spec fn binds_quals(kind: ScanKind) -> bool {
    !(kind is NamedTuplestore || kind is WorkTable)
}

/// A scan that needs no more than a relation.
#[verifier::opaque]
pub open spec fn plain_scan_plan(
    ctx: PlanContext,
    info: PathInfo,
    kind: ScanKind,
    base: List<Rinfo>,
    flags: TlistFlags,
    outer: Relids,
) -> Result<Plan, PlannerError> {
    match scan_start(ctx, info, base, flags, None, false, outer) {
        Err(e) => Err(e),
        Ok(start) => {
            let quals = crate::expr::bind_list_if(
                tested_quals(ctx, start.clauses),
                info.param is Some && binds_quals(kind),
                outer,
            );
            match scan_source(kind, info, start.relid, quals, outer) {
                Err(e) => Err(e),
                Ok(source) => Ok(
                    gated_if(
                        info,
                        start.gating,
                        outer,
                        if kind is Result {
                            crate::planfinish::node_over(
                                info,
                                PlanNode::Result(None, quals),
                                start.tlist,
                                List::Nil,
                            )
                        } else {
                            crate::planfinish::node_over(
                                info,
                                PlanNode::Scan(start.relid, source),
                                start.tlist,
                                quals,
                            )
                        },
                    ),
                ),
            }
        },
    }
}

/// Makes a scan that needs no more than a relation.
pub fn create_plain_scan_plan(
    ctx: &PlanContext,
    info: &PathInfo,
    kind: ScanKind,
    base: List<Rinfo>,
    flags: TlistFlags,
    outer: &Relids,
) -> (r: Result<Plan, PlannerError>)
    ensures
        r == plain_scan_plan(*ctx, *info, kind, base, flags, *outer),
{
    proof {
        reveal(plain_scan_plan);
    }
    let start = match start_scan(ctx, info, base, flags, None, false, outer) {
        Err(e) => {
            return Err(e);
        },
        Ok(s) => s,
    };
    let binds = match &kind {
        ScanKind::NamedTuplestore(_) => false,
        ScanKind::WorkTable(_) => false,
        _ => true,
    };
    let single = match &kind {
        ScanKind::Result => true,
        _ => false,
    };
    let quals = bind_exprs(
        order_tests(ctx, &start.clauses),
        info.param.is_some() && binds,
        outer,
    );
    let source = match make_scan_source(kind, info, start.relid, &quals, outer) {
        Err(e) => {
            return Err(e);
        },
        Ok(s) => s,
    };
    let plan = if single {
        make_node(info, PlanNode::Result(None, quals), start.tlist, List::Nil)
    } else {
        make_node(info, PlanNode::Scan(start.relid, source), start.tlist, quals)
    };
    Ok(gate_plan(info, start.gating, outer, plan))
}

/// The list without the expressions that equal `e`.
pub open spec fn without_expr(l: List<Expr>, e: Expr) -> List<Expr>
    decreases l,
{
    match l {
        List::Nil => List::Nil,
        List::Cons(x, xs) => if crate::expr::same_expr(x, e) {
            without_expr(*xs, e)
        } else {
            List::Cons(x, Box::new(without_expr(*xs, e)))
        },
    }
}

fn drop_expr(l: List<Expr>, e: &Expr) -> (r: List<Expr>)
    ensures
        r == without_expr(l, *e),
    decreases l,
{
    match l {
        List::Nil => List::Nil,
        List::Cons(x, xs) => if equal(&x, e) {
            drop_expr(*xs, e)
        } else {
            List::Cons(x, Box::new(drop_expr(*xs, e)))
        },
    }
}

/// The list has one element.
pub open spec fn is_single<T>(l: List<T>) -> bool {
    l matches List::Cons(_, rest) && *rest is Nil
}

/// The list has two elements or more.
pub open spec fn has_several<T>(l: List<T>) -> bool {
    l matches List::Cons(_, rest) && !(*rest is Nil)
}

fn single<T>(l: &List<T>) -> (r: bool)
    ensures
        r == is_single(*l),
{
    match l {
        List::Nil => false,
        List::Cons(_, rest) => rest.is_nil(),
    }
}

fn several<T>(l: &List<T>) -> (r: bool)
    ensures
        r == has_several(*l),
{
    match l {
        List::Nil => false,
        List::Cons(_, rest) => !rest.is_nil(),
    }
}

/// The clauses that a scan by row pointers still tests. Of one clause, the
/// scan makes the test of itself and of what it derives from superfluous; of
/// several, which are alternatives, only that of their disjunction.
pub open spec fn tid_quals(
    ctx: PlanContext,
    clauses: List<Rinfo>,
    tidquals: List<Rinfo>,
) -> List<Expr> {
    let tids = crate::quals::actual_clauses(tidquals);
    let rest = tested_quals(
        ctx,
        if is_single(tidquals) {
            crate::planscan::tid_rest(clauses, tidquals)
        } else {
            clauses
        },
    );
    if has_several(tids) {
        without_expr(rest, Expr::Call { head: Head::Or, args: Box::new(tids) })
    } else {
        rest
    }
}

fn find_tid_quals(ctx: &PlanContext, clauses: &List<Rinfo>, tidquals: &List<Rinfo>) -> (r: List<
    Expr,
>)
    ensures
        r == tid_quals(*ctx, *clauses, *tidquals),
{
    let tids = extract_actual_clauses(tidquals);
    let rest = if single(tidquals) {
        let left = rest_after_tid(clauses, tidquals);
        order_tests(ctx, &left)
    } else {
        order_tests(ctx, clauses)
    };
    if several(&tids) {
        let whole = Expr::Call { head: Head::Or, args: Box::new(tids) };
        drop_expr(rest, &whole)
    } else {
        rest
    }
}

/// A scan by row pointers, or by ranges of them.
#[verifier::opaque]
pub open spec fn tid_scan_plan(
    ctx: PlanContext,
    info: PathInfo,
    range: bool,
    base: List<Rinfo>,
    tidquals: List<Rinfo>,
    flags: TlistFlags,
    outer: Relids,
) -> Result<Plan, PlannerError> {
    let p = info.param is Some;
    match scan_start(ctx, info, base, flags, None, false, outer) {
        Err(e) => Err(e),
        Ok(start) => {
            let tids = crate::expr::bind_list_if(
                crate::quals::actual_clauses(tidquals),
                p,
                outer,
            );
            let quals = if range {
                tested_quals(ctx, crate::planscan::tidrange_rest(start.clauses, tidquals))
            } else {
                tid_quals(ctx, start.clauses, tidquals)
            };
            Ok(
                gated_if(
                    info,
                    start.gating,
                    outer,
                    crate::planfinish::node_over(
                        info,
                        PlanNode::Scan(
                            start.relid,
                            if range {
                                ScanSource::TidRange(tids)
                            } else {
                                ScanSource::Tid(tids)
                            },
                        ),
                        start.tlist,
                        crate::expr::bind_list_if(quals, p, outer),
                    ),
                ),
            )
        },
    }
}

/// Makes a scan by row pointers, or by ranges of them.
pub fn create_tid_scan_plan(
    ctx: &PlanContext,
    info: &PathInfo,
    range: bool,
    base: List<Rinfo>,
    tidquals: &List<Rinfo>,
    flags: TlistFlags,
    outer: &Relids,
) -> (r: Result<Plan, PlannerError>)
    ensures
        r == tid_scan_plan(*ctx, *info, range, base, *tidquals, flags, *outer),
{
    proof {
        reveal(tid_scan_plan);
    }
    let p = info.param.is_some();
    let start = match start_scan(ctx, info, base, flags, None, false, outer) {
        Err(e) => {
            return Err(e);
        },
        Ok(s) => s,
    };
    let tids = bind_exprs(extract_actual_clauses(tidquals), p, outer);
    let quals = if range {
        let left = rest_after_tidrange(&start.clauses, tidquals);
        order_tests(ctx, &left)
    } else {
        find_tid_quals(ctx, &start.clauses, tidquals)
    };
    let source = if range {
        ScanSource::TidRange(tids)
    } else {
        ScanSource::Tid(tids)
    };
    let plan = make_node(
        info,
        PlanNode::Scan(start.relid, source),
        start.tlist,
        bind_exprs(quals, p, outer),
    );
    Ok(gate_plan(info, start.gating, outer, plan))
}

/// How an index is scanned, as the plan states it.
pub open spec fn index_scan_node(info: PathInfo, index: IndexPath, outer: Relids) -> Result<
    IndexScan,
    PlannerError,
> {
    let p = info.param is Some;
    match crate::planindex::index_quals(index, index.clauses, outer) {
        Err(e) => Err(e),
        Ok(quals) => match crate::planindex::index_orderbys(
            index,
            index.orderbys,
            index.orderbycols,
            outer,
        ) {
            Err(e) => Err(e),
            Ok(orderbys) => {
                let orig = crate::expr::bind_list_if(index.orderbys, p, outer);
                Ok(
                    IndexScan {
                        indexid: index.indexid,
                        indexonly: index.indexonly,
                        direction: index.direction,
                        indexqual: quals.1,
                        indexqualorig: crate::expr::bind_list_if(quals.0, p, outer),
                        indexorderby: orderbys,
                        indexorderbyorig: if index.indexonly {
                            List::Nil
                        } else {
                            orig
                        },
                        indexorderbyops: if index.indexonly {
                            List::Nil
                        } else {
                            crate::planindex::orderby_operators(orig, info.pathkeys)
                        },
                        indextlist: if index.indexonly {
                            crate::planindex::index_columns(
                                index.indextlist,
                                index.canreturn,
                                true,
                            )
                        } else {
                            List::Nil
                        },
                    },
                )
            },
        },
    }
}

fn make_index_scan(info: &PathInfo, index: &IndexPath, outer: &Relids) -> (r: Result<
    IndexScan,
    PlannerError,
>)
    ensures
        r == index_scan_node(*info, *index, *outer),
{
    let p = info.param.is_some();
    let (stripped, fixed) = match fix_indexqual_references(index, outer) {
        Err(e) => {
            return Err(e);
        },
        Ok(q) => q,
    };
    let orderbys = match fix_indexorderby_references(
        index,
        &index.orderbys,
        &index.orderbycols,
        outer,
    ) {
        Err(e) => {
            return Err(e);
        },
        Ok(o) => o,
    };
    let orig = bind_exprs(crate::expr::copy_exprs(&index.orderbys), p, outer);
    let operators = orderby_sort_operators(&orig, &info.pathkeys);
    let only = index.indexonly;
    Ok(
        IndexScan {
            indexid: index.indexid,
            indexonly: only,
            direction: index.direction,
            indexqual: fixed,
            indexqualorig: bind_exprs(stripped, p, outer),
            indexorderby: orderbys,
            indexorderbyorig: if only {
                List::Nil
            } else {
                orig
            },
            indexorderbyops: if only {
                List::Nil
            } else {
                operators
            },
            indextlist: if only {
                ios_indextlist_copy(&index.indextlist, &index.canreturn, true)
            } else {
                List::Nil
            },
        },
    )
}

/// A scan by an index.
#[verifier::opaque]
pub open spec fn index_scan_plan(
    ctx: PlanContext,
    info: PathInfo,
    index: IndexPath,
    base: List<Rinfo>,
    implied: List<u32>,
    flags: TlistFlags,
    outer: Relids,
) -> Result<Plan, PlannerError> {
    let columns = if index.indexonly {
        Some(
            (
                crate::planindex::index_columns(index.indextlist, index.canreturn, false),
                crate::planindex::hides_column(index.canreturn),
            ),
        )
    } else {
        None
    };
    match scan_start(ctx, info, base, flags, columns, false, outer) {
        Err(e) => Err(e),
        Ok(start) => match index_scan_node(info, index, outer) {
            Err(e) => Err(e),
            Ok(scan) => Ok(
                gated_if(
                    info,
                    start.gating,
                    outer,
                    crate::planfinish::node_over(
                        info,
                        PlanNode::IndexScan(start.relid, scan),
                        start.tlist,
                        crate::expr::bind_list_if(
                            tested_quals(
                                ctx,
                                crate::planscan::index_rest(start.clauses, index.clauses, implied),
                            ),
                            info.param is Some,
                            outer,
                        ),
                    ),
                ),
            ),
        },
    }
}

/// Makes a scan by an index.
pub fn create_indexscan_plan(
    ctx: &PlanContext,
    info: &PathInfo,
    index: &IndexPath,
    base: List<Rinfo>,
    implied: &List<u32>,
    flags: TlistFlags,
    outer: &Relids,
) -> (r: Result<Plan, PlannerError>)
    ensures
        r == index_scan_plan(*ctx, *info, *index, base, *implied, flags, *outer),
{
    proof {
        reveal(index_scan_plan);
    }
    let columns = if index.indexonly {
        Some(
            (
                ios_indextlist_copy(&index.indextlist, &index.canreturn, false),
                has_hidden_column(&index.canreturn),
            ),
        )
    } else {
        None
    };
    let start = match start_scan(ctx, info, base, flags, columns, false, outer) {
        Err(e) => {
            return Err(e);
        },
        Ok(s) => s,
    };
    let scan = match make_index_scan(info, index, outer) {
        Err(e) => {
            return Err(e);
        },
        Ok(s) => s,
    };
    let left = rest_after_index(&start.clauses, &index.clauses, implied);
    let quals = bind_exprs(order_tests(ctx, &left), info.param.is_some(), outer);
    let plan = make_node(info, PlanNode::IndexScan(start.relid, scan), start.tlist, quals);
    Ok(gate_plan(info, start.gating, outer, plan))
}

/// A plan that yields a set of row pointers.
pub open spec fn bitmap_node(
    node: PlanNode,
    startup: u64,
    total: u64,
    selectivity: u64,
    tuples: u64,
    parallel_safe: bool,
) -> Plan {
    Plan {
        node,
        tlist: List::Nil,
        qual: List::Nil,
        costs: PlanCosts {
            disabled_nodes: 0,
            amounts: Amounts::Bitmap { startup, total, selectivity, tuples },
            width: 0,
            parallel_aware: false,
            parallel_safe,
        },
    }
}

fn make_bitmap_node(
    node: PlanNode,
    startup: u64,
    total: u64,
    selectivity: u64,
    tuples: u64,
    parallel_safe: bool,
) -> (r: Plan)
    ensures
        r == bitmap_node(node, startup, total, selectivity, tuples, parallel_safe),
{
    Plan {
        node,
        tlist: List::Nil,
        qual: List::Nil,
        costs: PlanCosts {
            disabled_nodes: 0,
            amounts: Amounts::Bitmap { startup, total, selectivity, tuples },
            width: 0,
            parallel_aware: false,
            parallel_safe,
        },
    }
}

/// The row pointers that an index gives.
pub open spec fn bitmap_leaf(info: PathInfo, index: IndexPath, outer: Relids) -> Result<
    Plan,
    PlannerError,
> {
    match crate::planindex::index_quals(index, index.clauses, outer) {
        Err(e) => Err(e),
        Ok(quals) => Ok(
            bitmap_node(
                PlanNode::BitmapIndexScan(
                    index.relid,
                    IndexScan {
                        indexid: index.indexid,
                        indexonly: false,
                        direction: 0,
                        indexqual: quals.1,
                        indexqualorig: crate::expr::bind_list_if(
                            quals.0,
                            info.param is Some,
                            outer,
                        ),
                        indexorderby: List::Nil,
                        indexorderbyorig: List::Nil,
                        indexorderbyops: List::Nil,
                        indextlist: List::Nil,
                    },
                ),
                0,
                index.indextotal,
                index.selectivity,
                index.tuples,
                info.parallel_safe,
            ),
        ),
    }
}

fn make_bitmap_leaf(info: &PathInfo, index: &IndexPath, outer: &Relids) -> (r: Result<
    Plan,
    PlannerError,
>)
    ensures
        r == bitmap_leaf(*info, *index, *outer),
{
    match fix_indexqual_references(index, outer) {
        Err(e) => Err(e),
        Ok((stripped, fixed)) => {
            let scan = IndexScan {
                indexid: index.indexid,
                indexonly: false,
                direction: 0,
                indexqual: fixed,
                indexqualorig: bind_exprs(stripped, info.param.is_some(), outer),
                indexorderby: List::Nil,
                indexorderbyorig: List::Nil,
                indexorderbyops: List::Nil,
                indextlist: List::Nil,
            };
            Ok(
                make_bitmap_node(
                    PlanNode::BitmapIndexScan(index.relid, scan),
                    0,
                    index.indextotal,
                    index.selectivity,
                    index.tuples,
                    info.parallel_safe,
                ),
            )
        },
    }
}

/// The plan of a path that yields row pointers, with the conditions that they
/// meet.
pub open spec fn bitmap_subplan(path: Path, outer: Relids) -> Result<
    (Plan, BitmapQuals),
    PlannerError,
>
    decreases path,
{
    match path.node {
        PathNode::BitmapAnd { quals, selectivity, tuples } => match bitmap_and(
            *quals,
            outer,
            List::Nil,
            List::Nil,
            List::Nil,
        ) {
            Err(e) => Err(e),
            Ok(parts) => Ok(
                (
                    bitmap_node(
                        PlanNode::BitmapAnd(Box::new(parts.0)),
                        path.info.startup,
                        path.info.total,
                        selectivity,
                        tuples,
                        path.info.parallel_safe,
                    ),
                    parts.1,
                ),
            ),
        },
        PathNode::BitmapOr { quals, selectivity, tuples } => match bitmap_or(*quals, outer) {
            Err(e) => Err(e),
            Ok(arms) => Ok(
                (
                    if is_single(arms.plans) {
                        arms.plans->Cons_0
                    } else {
                        bitmap_node(
                            PlanNode::BitmapOr(Box::new(arms.plans)),
                            path.info.startup,
                            path.info.total,
                            selectivity,
                            tuples,
                            path.info.parallel_safe,
                        )
                    },
                    BitmapQuals {
                        indexquals: crate::planindex::or_quals(arms.indexquals, arms.any_indexqual),
                        quals: crate::recheck::some_hold(arms.quals, arms.any_qual),
                        classes: List::Nil,
                    },
                ),
            ),
        },
        PathNode::Index(index, _, _) => match bitmap_leaf(path.info, index, outer) {
            Err(e) => Err(e),
            Ok(plan) => Ok((plan, crate::planindex::bitmap_index_quals(index))),
        },
        _ => Err(PlannerError::UnexpectedPathType),
    }
}

/// The plans of an intersection, and the conditions of all of them, each once.
pub open spec fn bitmap_and(
    paths: List<Path>,
    outer: Relids,
    indexquals: List<Expr>,
    quals: List<Recheck>,
    classes: List<u32>,
) -> Result<(List<Plan>, BitmapQuals), PlannerError>
    decreases paths,
{
    match paths {
        List::Nil => Ok((List::Nil, BitmapQuals { indexquals, quals, classes })),
        List::Cons(p, ps) => match bitmap_subplan(p, outer) {
            Err(e) => Err(e),
            Ok(sub) => match bitmap_and(
                *ps,
                outer,
                crate::quals::concat_unique(indexquals, sub.1.indexquals),
                crate::recheck::joined(quals, sub.1.quals),
                classes.then_list(sub.1.classes),
            ) {
                Err(e) => Err(e),
                Ok(rest) => Ok((List::Cons(sub.0, Box::new(rest.0)), rest.1)),
            },
        },
    }
}

/// The arms of a union of row pointers: their plans, the conditions of each
/// arm that has any, and whether some arm has none.
#[derive(Debug)]
pub struct BitmapArms {
    pub plans: List<Plan>,
    pub indexquals: List<Expr>,
    pub quals: List<Recheck>,
    pub any_indexqual: bool,
    pub any_qual: bool,
}

/// The list with the conjunction of the conditions in front, if there are any.
pub open spec fn with_arm(conditions: List<Expr>, rest: List<Expr>) -> List<Expr> {
    if conditions is Nil {
        rest
    } else {
        List::Cons(crate::planindex::ands_explicit(conditions), Box::new(rest))
    }
}

fn add_arm(conditions: List<Expr>, rest: List<Expr>) -> (r: List<Expr>)
    ensures
        r == with_arm(conditions, rest),
{
    if conditions.is_nil() {
        rest
    } else {
        List::Cons(make_ands_explicit(conditions), Box::new(rest))
    }
}

/// The list with the conjunction of the conditions in front, if there are any.
pub open spec fn with_recheck(conditions: List<Recheck>, rest: List<Recheck>) -> List<Recheck> {
    if conditions is Nil {
        rest
    } else {
        List::Cons(crate::recheck::all_hold(conditions), Box::new(rest))
    }
}

fn add_recheck(conditions: List<Recheck>, rest: List<Recheck>) -> (r: List<Recheck>)
    ensures
        r == with_recheck(conditions, rest),
{
    if conditions.is_nil() {
        rest
    } else {
        List::Cons(require_all(conditions), Box::new(rest))
    }
}

/// The arms of a union.
pub open spec fn bitmap_or(paths: List<Path>, outer: Relids) -> Result<BitmapArms, PlannerError>
    decreases paths,
{
    match paths {
        List::Nil => Ok(
            BitmapArms {
                plans: List::Nil,
                indexquals: List::Nil,
                quals: List::Nil,
                any_indexqual: false,
                any_qual: false,
            },
        ),
        List::Cons(p, ps) => match bitmap_subplan(p, outer) {
            Err(e) => Err(e),
            Ok(sub) => match bitmap_or(*ps, outer) {
                Err(e) => Err(e),
                Ok(rest) => Ok(
                    BitmapArms {
                        plans: List::Cons(sub.0, Box::new(rest.plans)),
                        indexquals: with_arm(sub.1.indexquals, rest.indexquals),
                        quals: with_recheck(sub.1.quals, rest.quals),
                        any_indexqual: sub.1.indexquals is Nil || rest.any_indexqual,
                        any_qual: sub.1.quals is Nil || rest.any_qual,
                    },
                ),
            },
        },
    }
}

/// Makes the plan of a path that yields row pointers, and collects the
/// conditions that they meet.
pub fn create_bitmap_subplan(path: &Path, outer: &Relids) -> (r: Result<
    (Plan, BitmapQuals),
    PlannerError,
>)
    ensures
        r == bitmap_subplan(*path, *outer),
    decreases path,
{
    match &path.node {
        PathNode::BitmapAnd { quals, selectivity, tuples } => {
            match create_bitmap_and(quals, outer, List::Nil, List::Nil, List::Nil) {
                Err(e) => Err(e),
                Ok((plans, found)) => {
                    let plan = make_bitmap_node(
                        PlanNode::BitmapAnd(Box::new(plans)),
                        path.info.startup,
                        path.info.total,
                        *selectivity,
                        *tuples,
                        path.info.parallel_safe,
                    );
                    Ok((plan, found))
                },
            }
        },
        PathNode::BitmapOr { quals, selectivity, tuples } => {
            match create_bitmap_or(quals, outer) {
                Err(e) => Err(e),
                Ok(arms) => {
                    let found = BitmapQuals {
                        indexquals: make_or_quals(arms.indexquals, arms.any_indexqual),
                        quals: require_one(arms.quals, arms.any_qual),
                        classes: List::Nil,
                    };
                    let plan = match arms.plans {
                        List::Cons(first, rest) => if rest.is_nil() {
                            first
                        } else {
                            make_bitmap_node(
                                PlanNode::BitmapOr(Box::new(List::Cons(first, rest))),
                                path.info.startup,
                                path.info.total,
                                *selectivity,
                                *tuples,
                                path.info.parallel_safe,
                            )
                        },
                        List::Nil => make_bitmap_node(
                            PlanNode::BitmapOr(Box::new(List::Nil)),
                            path.info.startup,
                            path.info.total,
                            *selectivity,
                            *tuples,
                            path.info.parallel_safe,
                        ),
                    };
                    Ok((plan, found))
                },
            }
        },
        PathNode::Index(index, _, _) => match make_bitmap_leaf(&path.info, index, outer) {
            Err(e) => Err(e),
            Ok(plan) => Ok((plan, collect_bitmap_index_quals(index))),
        },
        _ => Err(PlannerError::UnexpectedPathType),
    }
}

fn create_bitmap_and(
    paths: &List<Path>,
    outer: &Relids,
    indexquals: List<Expr>,
    quals: List<Recheck>,
    classes: List<u32>,
) -> (r: Result<(List<Plan>, BitmapQuals), PlannerError>)
    ensures
        r == bitmap_and(*paths, *outer, indexquals, quals, classes),
    decreases paths,
{
    match paths {
        List::Nil => Ok((List::Nil, BitmapQuals { indexquals, quals, classes })),
        List::Cons(p, ps) => {
            let (plan, found) = match create_bitmap_subplan(p, outer) {
                Err(e) => {
                    return Err(e);
                },
                Ok(s) => s,
            };
            let indexquals = list_concat_unique(indexquals, &found.indexquals);
            let quals = join_rechecks(quals, &found.quals);
            let classes = classes.append(found.classes);
            match create_bitmap_and(ps, outer, indexquals, quals, classes) {
                Err(e) => Err(e),
                Ok((plans, all)) => Ok((List::Cons(plan, Box::new(plans)), all)),
            }
        },
    }
}

fn create_bitmap_or(paths: &List<Path>, outer: &Relids) -> (r: Result<BitmapArms, PlannerError>)
    ensures
        r == bitmap_or(*paths, *outer),
    decreases paths,
{
    match paths {
        List::Nil => Ok(
            BitmapArms {
                plans: List::Nil,
                indexquals: List::Nil,
                quals: List::Nil,
                any_indexqual: false,
                any_qual: false,
            },
        ),
        List::Cons(p, ps) => {
            let (plan, found) = match create_bitmap_subplan(p, outer) {
                Err(e) => {
                    return Err(e);
                },
                Ok(s) => s,
            };
            let rest = match create_bitmap_or(ps, outer) {
                Err(e) => {
                    return Err(e);
                },
                Ok(a) => a,
            };
            let any_indexqual = found.indexquals.is_nil() || rest.any_indexqual;
            let any_qual = found.quals.is_nil() || rest.any_qual;
            Ok(
                BitmapArms {
                    plans: List::Cons(plan, Box::new(rest.plans)),
                    indexquals: add_arm(found.indexquals, rest.indexquals),
                    quals: add_recheck(found.quals, rest.quals),
                    any_indexqual,
                    any_qual,
                },
            )
        },
    }
}

/// A scan of the rows that row pointers lead to. The condition of a clause that
/// the scan tests anyhow is not tested a second time when a page is read whole.
#[verifier::opaque]
pub open spec fn bitmap_scan_plan(
    ctx: PlanContext,
    info: PathInfo,
    bitmap: Path,
    base: List<Rinfo>,
    implied: List<u32>,
    flags: TlistFlags,
    outer: Relids,
) -> Result<Plan, PlannerError> {
    let p = info.param is Some;
    match scan_start(ctx, info, base, flags, None, info.target.exprs is Nil, outer) {
        Err(e) => Err(e),
        Ok(start) => match bitmap_subplan(bitmap, outer) {
            Err(e) => Err(e),
            Ok(sub) => {
                let left = crate::planscan::bitmap_rest(start.clauses, sub.1.indexquals, implied);
                let quals = tested_quals(ctx, left);
                let recheck = crate::recheck::left_to_recheck(sub.1.quals, left);
                Ok(
                    gated_if(
                        info,
                        start.gating,
                        outer,
                        crate::planfinish::node_over(
                            info,
                            PlanNode::BitmapHeapScan(
                                start.relid,
                                crate::expr::bind_list_if(recheck, p, outer),
                                Box::new(sub.0),
                            ),
                            start.tlist,
                            crate::expr::bind_list_if(quals, p, outer),
                        ),
                    ),
                )
            },
        },
    }
}

/// Makes a scan of the rows that row pointers lead to.
pub fn create_bitmap_scan_plan(
    ctx: &PlanContext,
    info: &PathInfo,
    bitmap: &Path,
    base: List<Rinfo>,
    implied: &List<u32>,
    flags: TlistFlags,
    outer: &Relids,
) -> (r: Result<Plan, PlannerError>)
    ensures
        r == bitmap_scan_plan(*ctx, *info, *bitmap, base, *implied, flags, *outer),
{
    proof {
        reveal(bitmap_scan_plan);
    }
    let p = info.param.is_some();
    let start = match start_scan(ctx, info, base, flags, None, info.target.exprs.is_nil(), outer) {
        Err(e) => {
            return Err(e);
        },
        Ok(s) => s,
    };
    let (sub, found) = match create_bitmap_subplan(bitmap, outer) {
        Err(e) => {
            return Err(e);
        },
        Ok(s) => s,
    };
    let left = rest_after_bitmap(&start.clauses, &found.indexquals, implied);
    let quals = order_tests(ctx, &left);
    let recheck = drop_tested(found.quals, &left);
    let plan = make_node(
        info,
        PlanNode::BitmapHeapScan(start.relid, bind_exprs(recheck, p, outer), Box::new(sub)),
        start.tlist,
        bind_exprs(quals, p, outer),
    );
    Ok(gate_plan(info, start.gating, outer, plan))
}

/// A scan of the rows of a subquery.
#[verifier::opaque]
pub open spec fn subquery_scan_plan(
    ctx: PlanContext,
    info: PathInfo,
    base: List<Rinfo>,
    flags: TlistFlags,
    outer: Relids,
    sub: Plan,
) -> Result<Plan, PlannerError> {
    match scan_start(ctx, info, base, flags, None, false, outer) {
        Err(e) => Err(e),
        Ok(start) => Ok(
            gated_if(
                info,
                start.gating,
                outer,
                crate::planfinish::node_over(
                    info,
                    PlanNode::SubqueryScan(start.relid, Box::new(sub)),
                    start.tlist,
                    crate::expr::bind_list_if(
                        tested_quals(ctx, start.clauses),
                        info.param is Some,
                        outer,
                    ),
                ),
            ),
        ),
    }
}

/// Makes a scan of the rows of a subquery.
pub fn create_subqueryscan_plan(
    ctx: &PlanContext,
    info: &PathInfo,
    base: List<Rinfo>,
    flags: TlistFlags,
    outer: &Relids,
    sub: Plan,
) -> (r: Result<Plan, PlannerError>)
    ensures
        r == subquery_scan_plan(*ctx, *info, base, flags, *outer, sub),
{
    proof {
        reveal(subquery_scan_plan);
    }
    let start = match start_scan(ctx, info, base, flags, None, false, outer) {
        Err(e) => {
            return Err(e);
        },
        Ok(s) => s,
    };
    let quals = bind_exprs(order_tests(ctx, &start.clauses), info.param.is_some(), outer);
    let plan = make_node(
        info,
        PlanNode::SubqueryScan(start.relid, Box::new(sub)),
        start.tlist,
        quals,
    );
    Ok(gate_plan(info, start.gating, outer, plan))
}

/// Every alternative of a union of row pointers that has conditions
/// contributes one, so that none is lost: where no arm is without conditions,
/// there are as many conjunctions as there are arms.
pub proof fn lemma_arms_kept(paths: List<Path>, outer: Relids)
    ensures
        bitmap_or(paths, outer) matches Ok(arms) ==> {
            &&& arms.plans@.len() == paths@.len()
            &&& !arms.any_qual ==> arms.quals@.len() == paths@.len()
            &&& !arms.any_indexqual ==> arms.indexquals@.len() == paths@.len()
        },
    decreases paths,
{
    if let List::Cons(p, ps) = paths {
        lemma_arms_kept(*ps, outer);
    }
}

/// A plan is under the conditions that are tested once, if there are any: all
/// clauses that do not depend on its rows, and no others.
pub open spec fn is_gated_by(ctx: PlanContext, clauses: Seq<Rinfo>, plan: Plan) -> bool {
    if ctx.has_pseudoconstant_quals && exists|i: int|
        0 <= i < clauses.len() && (#[trigger] clauses[i]).pseudoconstant {
        plan.node matches PlanNode::Result(_, gating) && crate::quals::picks(
            clauses,
            |r: Rinfo| r.pseudoconstant,
            |e: Expr| e,
            gating@,
        ) && plan.qual@.len() == 0
    } else {
        !(plan.node is Result)
    }
}

/// Conditions are put on top of a plan as they should be.
pub proof fn lemma_gated(
    ctx: PlanContext,
    info: PathInfo,
    clauses: List<Rinfo>,
    outer: Relids,
    plan: Plan,
)
    requires
        !(plan.node is Result),
    ensures
        ({
            let gated = gated_if(
                info,
                crate::quals::gating_quals(ctx.has_pseudoconstant_quals, clauses, ctx.cheap),
                outer,
                plan,
            );
            &&& is_gated_by(ctx, clauses@, gated)
            &&& crate::joinplan::below_gate(gated) == plan
        }),
{
    let gating = crate::quals::gating_quals(ctx.has_pseudoconstant_quals, clauses, ctx.cheap);
    crate::quals::lemma_gating_picked(ctx.has_pseudoconstant_quals, clauses, ctx.cheap);
    match gating {
        List::Nil => {
            assert(gating@.len() == 0);
        },
        List::Cons(_, rest) => {
            assert(gating@.len() == 1 + rest@.len());
        },
    }
    let none: List<Expr> = List::Nil;
    assert(none@.len() == 0);
}

/// Nothing of what a scan has to test is lost: its clauses are those of the
/// relation, all of them and first, and of those that its parameters allow each
/// one that is not there already.
pub proof fn lemma_scan_clauses(base: List<Rinfo>, param: Option<crate::path::ParamInfo>)
    ensures
        ({
            let all = crate::planscan::scan_clauses(base, param)@;
            &&& base@.is_prefix_of(all)
            &&& param is None ==> all == base@
            &&& param matches Some(p) ==> (forall|j: int|
                0 <= j < p.clauses@.len() ==> is_one_of(#[trigger] p.clauses@[j], all))
                && (forall|i: int|
                base@.len() <= i < all.len() ==> p.clauses@.contains(#[trigger] all[i]))
        }),
{
    match param {
        None => {
            assert(base@ =~= base@.subrange(0, base@.len() as int));
        },
        Some(p) => {
            lemma_with_clauses(base, p.clauses);
        },
    }
}

proof fn lemma_has_rinfo(l: List<Rinfo>, id: u32)
    ensures
        crate::planscan::has_rinfo(l, id) <==> exists|i: int|
            0 <= i < l@.len() && (#[trigger] l@[i]).id == id,
    decreases l,
{
    match l {
        List::Nil => {
            assert(l@.len() == 0);
        },
        List::Cons(x, xs) => {
            lemma_has_rinfo(*xs, id);
            assert(l@[0] == x);
            if crate::planscan::has_rinfo(*xs, id) {
                let i = choose|i: int| 0 <= i < xs@.len() && (#[trigger] xs@[i]).id == id;
                assert(l@[i + 1] == xs@[i]);
            }
            if exists|i: int| 0 <= i < l@.len() && (#[trigger] l@[i]).id == id {
                let i = choose|i: int| 0 <= i < l@.len() && (#[trigger] l@[i]).id == id;
                if i > 0 {
                    assert(l@[i] == xs@[i - 1]);
                }
            }
        },
    }
}

proof fn lemma_with_clauses(base: List<Rinfo>, more: List<Rinfo>)
    ensures
        ({
            let all = crate::planscan::with_clauses(base, more)@;
            &&& base@.is_prefix_of(all)
            &&& forall|j: int|
                0 <= j < more@.len() ==> is_one_of(#[trigger] more@[j], all)
            &&& forall|i: int| base@.len() <= i < all.len() ==> more@.contains(#[trigger] all[i])
        }),
    decreases more,
{
    let all = crate::planscan::with_clauses(base, more)@;
    match more {
        List::Nil => {
            assert(more@.len() == 0);
            assert(base@ =~= base@.subrange(0, base@.len() as int));
        },
        List::Cons(x, xs) => {
            lemma_has_rinfo(base, x.id);
            let one = List::Cons(x, Box::new(List::Nil));
            let next = if crate::planscan::has_rinfo(base, x.id) {
                base
            } else {
                base.then_list(one)
            };
            crate::list::lemma_then_view(base, one);
            let none: List<Rinfo> = List::Nil;
            assert(none@.len() == 0);
            assert(one@ =~= seq![x]);
            lemma_with_clauses(next, *xs);
            assert(forall|i: int| 0 <= i < next@.len() ==> #[trigger] all[i] == next@[i]) by {
                assert(next@ == all.subrange(0, next@.len() as int));
            }
            assert(forall|i: int| 0 <= i < base@.len() ==> #[trigger] all[i] == base@[i]) by {
                assert forall|i: int| 0 <= i < base@.len() implies #[trigger] all[i] == base@[i] by {
                    assert(all[i] == next@[i]);
                }
            }
            assert(base@ =~= all.subrange(0, base@.len() as int));
            assert forall|j: int| 0 <= j < more@.len() implies is_one_of(
                #[trigger] more@[j],
                all,
            ) by {
                if j == 0 {
                    if crate::planscan::has_rinfo(base, x.id) {
                        let i = choose|i: int|
                            0 <= i < base@.len() && (#[trigger] base@[i]).id == x.id;
                        assert(all[i].id == more@[j].id);
                    } else {
                        assert(next@[base@.len() as int] == x);
                        assert(all[base@.len() as int].id == more@[j].id);
                    }
                } else {
                    assert(more@[j] == xs@[j - 1]);
                }
            }
            assert forall|i: int| base@.len() <= i < all.len() implies more@.contains(
                #[trigger] all[i],
            ) by {
                crate::list::lemma_cons_contains(x, *xs, all[i]);
                if i < next@.len() {
                    assert(all[i] == next@[i]);
                }
            }
        },
    }
}

/// A scan of a relation tests every clause that it has to test for each row,
/// and no other; conditions that do not depend on the rows are tested once,
/// ahead of it.
pub proof fn lemma_plain_scan_tests(
    ctx: PlanContext,
    info: PathInfo,
    kind: ScanKind,
    base: List<Rinfo>,
    flags: TlistFlags,
    outer: Relids,
)
    requires
        !(kind is Result),
    ensures
        plain_scan_plan(ctx, info, kind, base, flags, outer) matches Ok(gated) ==> {
            let plan = crate::joinplan::below_gate(gated);
            let clauses = crate::planscan::scan_clauses(base, info.param);
            &&& plan.node is Scan
            &&& is_gated_by(ctx, clauses@, gated)
            &&& crate::quals::picks(
                clauses@,
                |r: Rinfo| crate::quals::is_row_test(r),
                crate::quals::as_tested(
                    info.param is Some && !(kind is NamedTuplestore) && !(kind is WorkTable),
                    outer,
                ),
                plan.qual@,
            )
        },
{
    reveal(plain_scan_plan);
    let clauses = crate::planscan::scan_clauses(base, info.param);
    let p = info.param is Some && binds_quals(kind);
    crate::quals::lemma_tests_picked(clauses, ctx.cheap, p, outer);
    if let Ok(start) = scan_start(ctx, info, base, flags, None, false, outer) {
        let quals = crate::expr::bind_list_if(tested_quals(ctx, clauses), p, outer);
        if let Ok(source) = scan_source(kind, info, start.relid, quals, outer) {
            lemma_gated(
                ctx,
                info,
                clauses,
                outer,
                crate::planfinish::node_over(
                    info,
                    PlanNode::Scan(start.relid, source),
                    start.tlist,
                    quals,
                ),
            );
        }
    }
}

/// A scan of a subquery tests every clause that it has to test for each row,
/// and no other.
pub proof fn lemma_subquery_scan_tests(
    ctx: PlanContext,
    info: PathInfo,
    base: List<Rinfo>,
    flags: TlistFlags,
    outer: Relids,
    sub: Plan,
)
    ensures
        subquery_scan_plan(ctx, info, base, flags, outer, sub) matches Ok(gated) ==> {
            let plan = crate::joinplan::below_gate(gated);
            let clauses = crate::planscan::scan_clauses(base, info.param);
            &&& plan.node matches PlanNode::SubqueryScan(_, input) && *input == sub
            &&& is_gated_by(ctx, clauses@, gated)
            &&& crate::quals::picks(
                clauses@,
                |r: Rinfo| crate::quals::is_row_test(r),
                crate::quals::as_tested(info.param is Some, outer),
                plan.qual@,
            )
        },
{
    reveal(subquery_scan_plan);
    let clauses = crate::planscan::scan_clauses(base, info.param);
    let p = info.param is Some;
    crate::quals::lemma_tests_picked(clauses, ctx.cheap, p, outer);
    if let Ok(start) = scan_start(ctx, info, base, flags, None, false, outer) {
        lemma_gated(
            ctx,
            info,
            clauses,
            outer,
            crate::planfinish::node_over(
                info,
                PlanNode::SubqueryScan(start.relid, Box::new(sub)),
                start.tlist,
                crate::expr::bind_list_if(tested_quals(ctx, clauses), p, outer),
            ),
        );
    }
}

/// An exact index clause sees to the clause: it is the clause, or comes from
/// the same equivalence class.
pub open spec fn index_sees_to(clauses: Seq<crate::path::IndexClause>, r: Rinfo) -> bool {
    exists|j: int|
        0 <= j < clauses.len() && !(#[trigger] clauses[j]).lossy && (clauses[j].rinfo.id == r.id
            || (r.parent_ec is Some && clauses[j].rinfo.parent_ec == r.parent_ec))
}

proof fn lemma_index_sees_to(clauses: List<crate::path::IndexClause>, r: Rinfo)
    ensures
        crate::planscan::index_covers(clauses, r) <==> index_sees_to(clauses@, r),
    decreases clauses,
{
    match clauses {
        List::Nil => {
            assert(clauses@.len() == 0);
        },
        List::Cons(c, cs) => {
            lemma_index_sees_to(*cs, r);
            assert(clauses@[0] == c);
            if index_sees_to(cs@, r) {
                let j = choose|j: int|
                    0 <= j < cs@.len() && !(#[trigger] cs@[j]).lossy && (cs@[j].rinfo.id == r.id
                        || (r.parent_ec is Some && cs@[j].rinfo.parent_ec == r.parent_ec));
                assert(clauses@[j + 1] == cs@[j]);
            }
            if index_sees_to(clauses@, r) {
                let j = choose|j: int|
                    0 <= j < clauses@.len() && !(#[trigger] clauses@[j]).lossy && (
                    clauses@[j].rinfo.id == r.id || (r.parent_ec is Some
                        && clauses@[j].rinfo.parent_ec == r.parent_ec));
                if j > 0 {
                    assert(clauses@[j] == cs@[j - 1]);
                }
            }
        },
    }
}

proof fn lemma_index_rest(clauses: List<Rinfo>, index: List<crate::path::IndexClause>, implied: List<u32>)
    ensures
        crate::planscan::index_rest(clauses, index, implied)@ == clauses@.filter(
            |r: Rinfo|
                !r.pseudoconstant && !index_sees_to(index@, r) && !implied@.contains(r.id),
        ),
    decreases clauses,
{
    let f = |r: Rinfo|
        !r.pseudoconstant && !index_sees_to(index@, r) && !implied@.contains(r.id);
    match clauses {
        List::Nil => {
            reveal(Seq::filter);
        },
        List::Cons(x, xs) => {
            lemma_index_rest(*xs, index, implied);
            lemma_index_sees_to(index, x);
            crate::quals::lemma_filter_cons(x, xs@, f);
        },
    }
}

/// A scan by an index tests on each row every clause that it has to test and
/// that the index does not see to: a clause is left out only where an exact
/// index clause is that clause or equals it by its equivalence class, or where
/// it is implied.
pub proof fn lemma_index_scan_tests(
    ctx: PlanContext,
    info: PathInfo,
    index: IndexPath,
    base: List<Rinfo>,
    implied: List<u32>,
    flags: TlistFlags,
    outer: Relids,
)
    ensures
        index_scan_plan(ctx, info, index, base, implied, flags, outer) matches Ok(gated) ==> {
            let plan = crate::joinplan::below_gate(gated);
            let clauses = crate::planscan::scan_clauses(base, info.param);
            &&& plan.node matches PlanNode::IndexScan(_, scan) && scan.indexid == index.indexid
                && scan.indexonly == index.indexonly && scan.direction == index.direction
            &&& is_gated_by(ctx, clauses@, gated)
            &&& crate::quals::picks(
                clauses@,
                |r: Rinfo|
                    crate::quals::is_row_test(r) && !index_sees_to(index.clauses@, r)
                        && !implied@.contains(r.id),
                crate::quals::as_tested(info.param is Some, outer),
                plan.qual@,
            )
        },
{
    reveal(index_scan_plan);
    let columns = if index.indexonly {
        Some(
            (
                crate::planindex::index_columns(index.indextlist, index.canreturn, false),
                crate::planindex::hides_column(index.canreturn),
            ),
        )
    } else {
        None
    };
    let clauses = crate::planscan::scan_clauses(base, info.param);
    let p = info.param is Some;
    let left = crate::planscan::index_rest(clauses, index.clauses, implied);
    let quals = crate::expr::bind_list_if(tested_quals(ctx, left), p, outer);
    let kept = |r: Rinfo|
        !r.pseudoconstant && !index_sees_to(index.clauses@, r) && !implied@.contains(r.id);
    let row = |r: Rinfo| crate::quals::is_row_test(r);
    let shown = crate::quals::as_tested(p, outer);
    crate::quals::lemma_tests_picked(left, ctx.cheap, p, outer);
    lemma_index_rest(clauses, index.clauses, implied);
    crate::quals::lemma_picked_from_kept(clauses@, kept, row, shown, quals@);
    assert((|r: Rinfo| kept(r) && row(r)) =~= (|r: Rinfo|
        crate::quals::is_row_test(r) && !index_sees_to(index.clauses@, r) && !implied@.contains(
            r.id,
        )));
    if let Ok(start) = scan_start(ctx, info, base, flags, columns, false, outer) {
        if let Ok(scan) = index_scan_node(info, index, outer) {
            lemma_gated(
                ctx,
                info,
                clauses,
                outer,
                crate::planfinish::node_over(
                    info,
                    PlanNode::IndexScan(start.relid, scan),
                    start.tlist,
                    quals,
                ),
            );
        }
    }
}

proof fn lemma_bitmap_rest(clauses: List<Rinfo>, indexquals: List<Expr>, implied: List<u32>)
    ensures
        crate::planscan::bitmap_rest(clauses, indexquals, implied)@ == clauses@.filter(
            |r: Rinfo|
                !r.pseudoconstant && !crate::expr::has_same(indexquals, r.clause)
                    && !implied@.contains(r.id),
        ),
    decreases clauses,
{
    let f = |r: Rinfo|
        !r.pseudoconstant && !crate::expr::has_same(indexquals, r.clause) && !implied@.contains(
            r.id,
        );
    match clauses {
        List::Nil => {
            reveal(Seq::filter);
        },
        List::Cons(x, xs) => {
            lemma_bitmap_rest(*xs, indexquals, implied);
            crate::quals::lemma_filter_cons(x, xs@, f);
        },
    }
}

/// A scan by row pointers from indexes tests on each row every clause that it
/// has to test, but for those that the indexes see to and those that are
/// implied.
pub proof fn lemma_bitmap_scan_tests(
    ctx: PlanContext,
    info: PathInfo,
    bitmap: Path,
    base: List<Rinfo>,
    implied: List<u32>,
    flags: TlistFlags,
    outer: Relids,
)
    ensures
        bitmap_scan_plan(ctx, info, bitmap, base, implied, flags, outer) matches Ok(gated) ==> {
            let plan = crate::joinplan::below_gate(gated);
            let clauses = crate::planscan::scan_clauses(base, info.param);
            let sub = bitmap_subplan(bitmap, outer)->Ok_0;
            &&& bitmap_subplan(bitmap, outer) is Ok
            &&& plan.node matches PlanNode::BitmapHeapScan(_, _, input) && *input == sub.0
            &&& is_gated_by(ctx, clauses@, gated)
            &&& crate::quals::picks(
                clauses@,
                |r: Rinfo|
                    crate::quals::is_row_test(r) && !crate::expr::has_same(
                        sub.1.indexquals,
                        r.clause,
                    ) && !implied@.contains(r.id),
                crate::quals::as_tested(info.param is Some, outer),
                plan.qual@,
            )
        },
{
    reveal(bitmap_scan_plan);
    let clauses = crate::planscan::scan_clauses(base, info.param);
    let p = info.param is Some;
    if let Ok(start) = scan_start(
        ctx,
        info,
        base,
        flags,
        None,
        info.target.exprs is Nil,
        outer,
    ) {
        if let Ok(sub) = bitmap_subplan(bitmap, outer) {
            let left = crate::planscan::bitmap_rest(clauses, sub.1.indexquals, implied);
            let quals = crate::expr::bind_list_if(tested_quals(ctx, left), p, outer);
            let kept = |r: Rinfo|
                !r.pseudoconstant && !crate::expr::has_same(sub.1.indexquals, r.clause)
                    && !implied@.contains(r.id);
            let row = |r: Rinfo| crate::quals::is_row_test(r);
            let shown = crate::quals::as_tested(p, outer);
            crate::quals::lemma_tests_picked(left, ctx.cheap, p, outer);
            lemma_bitmap_rest(clauses, sub.1.indexquals, implied);
            crate::quals::lemma_picked_from_kept(clauses@, kept, row, shown, quals@);
            assert((|r: Rinfo| kept(r) && row(r)) =~= (|r: Rinfo|
                crate::quals::is_row_test(r) && !crate::expr::has_same(
                    sub.1.indexquals,
                    r.clause,
                ) && !implied@.contains(r.id)));
            let recheck = crate::recheck::left_to_recheck(sub.1.quals, left);
            lemma_gated(
                ctx,
                info,
                clauses,
                outer,
                crate::planfinish::node_over(
                    info,
                    PlanNode::BitmapHeapScan(
                        start.relid,
                        crate::expr::bind_list_if(recheck, p, outer),
                        Box::new(sub.0),
                    ),
                    start.tlist,
                    quals,
                ),
            );
        }
    }
}

/// The clause is one of the others, by its number.
pub open spec fn is_one_of(r: Rinfo, others: Seq<Rinfo>) -> bool {
    exists|j: int| 0 <= j < others.len() && (#[trigger] others[j]).id == r.id
}

proof fn lemma_tid_rests(clauses: List<Rinfo>, tidquals: List<Rinfo>)
    ensures
        crate::planscan::tidrange_rest(clauses, tidquals)@ == clauses@.filter(
            |r: Rinfo| !r.pseudoconstant && !is_one_of(r, tidquals@),
        ),
        crate::planscan::tid_rest(clauses, tidquals)@ == clauses@.filter(
            |r: Rinfo|
                !r.pseudoconstant && !is_one_of(r, tidquals@) && !crate::quals::derived_like(
                    r,
                    tidquals@,
                ),
        ),
    decreases clauses,
{
    let f = |r: Rinfo| !r.pseudoconstant && !is_one_of(r, tidquals@);
    let g = |r: Rinfo|
        !r.pseudoconstant && !is_one_of(r, tidquals@) && !crate::quals::derived_like(
            r,
            tidquals@,
        );
    match clauses {
        List::Nil => {
            reveal(Seq::filter);
        },
        List::Cons(x, xs) => {
            lemma_tid_rests(*xs, tidquals);
            lemma_has_rinfo(tidquals, x.id);
            crate::quals::lemma_filter_cons(x, xs@, f);
            crate::quals::lemma_filter_cons(x, xs@, g);
        },
    }
}

/// A scan by row pointers finds rows by all its clauses of that kind, and tests
/// on each row every other clause that it has to test. Where there are several
/// alternatives to find rows by, no clause but their disjunction is left out.
pub proof fn lemma_tid_scan_tests(
    ctx: PlanContext,
    info: PathInfo,
    range: bool,
    base: List<Rinfo>,
    tidquals: List<Rinfo>,
    flags: TlistFlags,
    outer: Relids,
)
    ensures
        tid_scan_plan(ctx, info, range, base, tidquals, flags, outer) matches Ok(gated) ==> {
            let plan = crate::joinplan::below_gate(gated);
            let clauses = crate::planscan::scan_clauses(base, info.param);
            let shown = crate::quals::as_tested(info.param is Some, outer);
            &&& is_gated_by(ctx, clauses@, gated)
            &&& plan.node matches PlanNode::Scan(_, source)
            &&& if range {
                source is TidRange
            } else {
                source is Tid
            }
            &&& range ==> crate::quals::picks(
                clauses@,
                |r: Rinfo| crate::quals::is_row_test(r) && !is_one_of(r, tidquals@),
                shown,
                plan.qual@,
            )
            &&& !range && tidquals@.len() == 1 ==> crate::quals::picks(
                clauses@,
                |r: Rinfo|
                    crate::quals::is_row_test(r) && !is_one_of(r, tidquals@)
                        && !crate::quals::derived_like(r, tidquals@),
                shown,
                plan.qual@,
            )
            &&& !range && tidquals@.len() > 1 && info.param is None ==> forall|i: int|
                0 <= i < clauses@.len() && crate::quals::is_row_test(#[trigger] clauses@[i])
                    ==> plan.qual@.contains(clauses@[i].clause) || (clauses@[i].clause matches Expr::Call {
                    head: Head::Or,
                    args,
                } && args@.len() > 1)
        },
{
    reveal(tid_scan_plan);
    let clauses = crate::planscan::scan_clauses(base, info.param);
    let p = info.param is Some;
    let shown = crate::quals::as_tested(p, outer);
    let row = |r: Rinfo| crate::quals::is_row_test(r);
    lemma_tid_rests(clauses, tidquals);
    if let Ok(start) = scan_start(ctx, info, base, flags, None, false, outer) {
        let tids = crate::expr::bind_list_if(crate::quals::actual_clauses(tidquals), p, outer);
        if range {
            let left = crate::planscan::tidrange_rest(clauses, tidquals);
            let quals = crate::expr::bind_list_if(tested_quals(ctx, left), p, outer);
            let kept = |r: Rinfo| !r.pseudoconstant && !is_one_of(r, tidquals@);
            crate::quals::lemma_tests_picked(left, ctx.cheap, p, outer);
            crate::quals::lemma_picked_from_kept(clauses@, kept, row, shown, quals@);
            assert((|r: Rinfo| kept(r) && row(r)) =~= (|r: Rinfo|
                crate::quals::is_row_test(r) && !is_one_of(r, tidquals@)));
            lemma_gated(
                ctx,
                info,
                clauses,
                outer,
                crate::planfinish::node_over(
                    info,
                    PlanNode::Scan(start.relid, ScanSource::TidRange(tids)),
                    start.tlist,
                    quals,
                ),
            );
        } else {
            let quals = crate::expr::bind_list_if(tid_quals(ctx, clauses, tidquals), p, outer);
            lemma_gated(
                ctx,
                info,
                clauses,
                outer,
                crate::planfinish::node_over(
                    info,
                    PlanNode::Scan(start.relid, ScanSource::Tid(tids)),
                    start.tlist,
                    quals,
                ),
            );
            lemma_single(tidquals);
            let actual = crate::quals::actual_clauses(tidquals);
            lemma_single(actual);
            if tidquals@.len() == 1 {
                let left = crate::planscan::tid_rest(clauses, tidquals);
                lemma_actual_length(tidquals);
                let kept = |r: Rinfo|
                    !r.pseudoconstant && !is_one_of(r, tidquals@) && !crate::quals::derived_like(
                        r,
                        tidquals@,
                    );
                crate::quals::lemma_tests_picked(left, ctx.cheap, p, outer);
                assert(quals == crate::expr::bind_list_if(tested_quals(ctx, left), p, outer));
                crate::quals::lemma_picked_from_kept(clauses@, kept, row, shown, quals@);
                assert((|r: Rinfo| kept(r) && row(r)) =~= (|r: Rinfo|
                    crate::quals::is_row_test(r) && !is_one_of(r, tidquals@)
                        && !crate::quals::derived_like(r, tidquals@)));
            } else if tidquals@.len() > 1 && !p {
                crate::quals::lemma_tests_picked(clauses, ctx.cheap, p, outer);
                let rest = tested_quals(ctx, clauses);
                let whole = Expr::Call { head: Head::Or, args: Box::new(actual) };
                assert forall|i: int|
                    0 <= i < clauses@.len() && crate::quals::is_row_test(
                        #[trigger] clauses@[i],
                    ) implies quals@.contains(clauses@[i].clause) || (
                clauses@[i].clause matches Expr::Call { head: Head::Or, args } && args@.len()
                    > 1) by {
                    let e = clauses@[i].clause;
                    assert(row(clauses@[i]));
                    assert(rest@.contains(shown(e)));
                    if has_several(actual) {
                        lemma_without_expr(rest, whole, e);
                        if crate::expr::same_expr(e, whole) {
                            let args = e->args;
                            lemma_same_length(*args, actual);
                        }
                    }
                }
            }
        }
    }
}

proof fn lemma_single<T>(l: List<T>)
    ensures
        is_single(l) <==> l@.len() == 1,
        has_several(l) <==> l@.len() > 1,
{
    match l {
        List::Nil => {
            assert(l@.len() == 0);
        },
        List::Cons(_, rest) => {
            match *rest {
                List::Nil => {
                    assert(rest@.len() == 0);
                },
                List::Cons(_, more) => {
                    assert(rest@.len() == 1 + more@.len());
                },
            }
        },
    }
}

proof fn lemma_actual_length(l: List<Rinfo>)
    ensures
        crate::quals::actual_clauses(l)@.len() <= l@.len(),
    decreases l,
{
    match l {
        List::Nil => {
            let none: List<Expr> = List::Nil;
            assert(none@.len() == 0);
        },
        List::Cons(_, rest) => {
            lemma_actual_length(*rest);
        },
    }
}

proof fn lemma_without_expr(l: List<Expr>, e: Expr, x: Expr)
    requires
        l@.contains(x),
    ensures
        crate::expr::same_expr(x, e) || without_expr(l, e)@.contains(x),
    decreases l,
{
    if let List::Cons(y, ys) = l {
        crate::list::lemma_cons_contains(y, *ys, x);
        crate::list::lemma_cons_contains(y, without_expr(*ys, e), x);
        if x != y {
            lemma_without_expr(*ys, e, x);
        }
    }
}

proof fn lemma_same_length(a: List<Expr>, b: List<Expr>)
    requires
        crate::expr::same_exprs(a, b),
    ensures
        a@.len() == b@.len(),
    decreases a,
{
    if let List::Cons(_, xs) = a {
        if let List::Cons(_, ys) = b {
            lemma_same_length(*xs, *ys);
        }
    }
}

} // verus!

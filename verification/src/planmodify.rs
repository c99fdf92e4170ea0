//! Plans that change tables, and scans of foreign tables.
use vstd::prelude::*;
use crate::error::PlannerError;
use crate::expr::{bind_exprs, increment_resno, Expr, TargetEntry};
use crate::list::List;
use crate::path::{ForeignRel, PathInfo};
use crate::plan::{Amounts, ForeignScan, ModifyTable, OnConflict, Plan, PlanCosts, PlanNode};
use crate::planfinish::{label_for_query, make_node, PlanContext};
use crate::quals::Rinfo;
use crate::relids::{relids_difference, Relids};

verus! {

/// The table columns that the entries stand for.
pub open spec fn target_columns(tlist: List<TargetEntry>) -> List<i16>
    decreases tlist,
{
    match tlist {
        List::Nil => List::Nil,
        List::Cons(t, ts) => if t.resjunk {
            target_columns(*ts)
        } else {
            List::Cons(t.resno, Box::new(target_columns(*ts)))
        },
    }
}

/// The entries numbered from `resno` on.
pub open spec fn renumbered(tlist: List<TargetEntry>, resno: i16) -> List<TargetEntry>
    decreases tlist,
{
    match tlist {
        List::Nil => List::Nil,
        List::Cons(t, ts) => List::Cons(
            TargetEntry { resno, ..t },
            Box::new(renumbered(*ts, crate::expr::next_resno(resno))),
        ),
    }
}

fn number_entries(tlist: List<TargetEntry>, resno: i16) -> (r: (List<TargetEntry>, List<i16>))
    ensures
        r.0 == renumbered(tlist, resno),
        r.1 == target_columns(tlist),
    decreases tlist,
{
    match tlist {
        List::Nil => (List::Nil, List::Nil),
        List::Cons(t, ts) => {
            let mut t = t;
            let column: i16 = t.resno;
            let junk = t.resjunk;
            t.resno = resno;
            let (rest, columns) = number_entries(*ts, increment_resno(resno));
            let columns = if junk {
                columns
            } else {
                List::Cons(column, Box::new(columns))
            };
            (List::Cons(t, Box::new(rest)), columns)
        },
    }
}

/// What is done on conflict, with the assignments numbered in order and the
/// columns that they are for listed apart.
pub open spec fn numbered_conflict(oc: Option<OnConflict>) -> Option<OnConflict> {
    match oc {
        None => None,
        Some(c) => Some(
            OnConflict {
                set: renumbered(c.set, 1),
                set_columns: target_columns(c.set),
                ..c
            },
        ),
    }
}

/// A plan that changes tables.
#[verifier::opaque]
pub open spec fn modifytable_plan(
    ctx: PlanContext,
    info: PathInfo,
    table: ModifyTable,
    sub: Plan,
) -> Result<Plan, PlannerError> {
    match crate::planfinish::with_query_labels(ctx, sub) {
        Err(e) => Err(e),
        Ok(labelled) => Ok(
            crate::planfinish::node_over(
                info,
                PlanNode::ModifyTable(
                    Box::new(labelled),
                    ModifyTable {
                        on_conflict: numbered_conflict(table.on_conflict),
                        returning_old_alias: ctx.returning_old_alias,
                        returning_new_alias: ctx.returning_new_alias,
                        ..table
                    },
                ),
                List::Nil,
                List::Nil,
            ),
        ),
    }
}

/// Makes a plan that changes tables. The rows to be stored carry the labels of
/// the query; the assignments made on conflict are numbered in order, and the
/// columns that they are for are listed apart.
pub fn create_modifytable_plan(
    ctx: &PlanContext,
    info: &PathInfo,
    table: ModifyTable,
    sub: Plan,
) -> (r: Result<Plan, PlannerError>)
    ensures
        r == modifytable_plan(*ctx, *info, table, sub),
{
    proof {
        reveal(modifytable_plan);
    }
    let labelled = match label_for_query(ctx, sub) {
        Err(e) => {
            return Err(e);
        },
        Ok(p) => p,
    };
    let mut table = table;
    let on_conflict = match table.on_conflict {
        None => None,
        Some(c) => {
            let mut c = c;
            let (set, columns) = number_entries(c.set, 1);
            c.set = set;
            c.set_columns = columns;
            Some(c)
        },
    };
    table.on_conflict = on_conflict;
    table.returning_old_alias = ctx.returning_old_alias;
    table.returning_new_alias = ctx.returning_new_alias;
    Ok(
        make_node(
            info,
            PlanNode::ModifyTable(Box::new(labelled), table),
            List::Nil,
            List::Nil,
        ),
    )
}

/// The assignments keep their order and their expressions; only their numbers
/// change.
pub proof fn lemma_renumbered(tlist: List<TargetEntry>, resno: i16, i: int)
    requires
        1 <= resno,
        0 <= i < tlist@.len(),
        resno + tlist@.len() <= i16::MAX,
    ensures
        renumbered(tlist, resno)@.len() == tlist@.len(),
        renumbered(tlist, resno)@[i] == (TargetEntry { resno: (resno + i) as i16, ..tlist@[i] }),
    decreases tlist,
{
    if let List::Cons(t, ts) = tlist {
        let tail = renumbered(*ts, crate::expr::next_resno(resno));
        lemma_renumbered_len(*ts, crate::expr::next_resno(resno));
        if i > 0 {
            lemma_renumbered(*ts, crate::expr::next_resno(resno), i - 1);
            assert(renumbered(tlist, resno)@[i] == tail@[i - 1]);
            assert(tlist@[i] == ts@[i - 1]);
        }
    }
}

proof fn lemma_renumbered_len(tlist: List<TargetEntry>, resno: i16)
    ensures
        renumbered(tlist, resno)@.len() == tlist@.len(),
    decreases tlist,
{
    if let List::Cons(t, ts) = tlist {
        lemma_renumbered_len(*ts, crate::expr::next_resno(resno));
    }
}

/// A scan of a foreign table, as a foreign data wrapper makes it. Its figures,
/// and the relations that it covers, are filled in later.
pub fn make_foreignscan(
    qptlist: List<TargetEntry>,
    qpqual: List<Expr>,
    scanrelid: u32,
    fdw_exprs: List<Expr>,
    fdw_private: List<Expr>,
    fdw_scan_tlist: List<TargetEntry>,
    fdw_recheck_quals: List<Expr>,
    outer_plan: Option<Plan>,
) -> (r: Plan)
    ensures
        r == (Plan {
            node: PlanNode::ForeignScan(
                scanrelid,
                match outer_plan {
                    Some(p) => Some(Box::new(p)),
                    None => None,
                },
                ForeignScan {
                    fdw_exprs,
                    fdw_private,
                    fdw_scan_tlist,
                    fdw_recheck_quals,
                    relids: List::Nil,
                    base_relids: List::Nil,
                    check_as_user: 0,
                    user_is_current: false,
                    server: 0,
                    system_col: false,
                },
            ),
            tlist: qptlist,
            qual: qpqual,
            costs: crate::planagg::no_costs(0),
        }),
{
    let input = match outer_plan {
        Some(p) => Some(Box::new(p)),
        None => None,
    };
    Plan {
        node: PlanNode::ForeignScan(
            scanrelid,
            input,
            ForeignScan {
                fdw_exprs,
                fdw_private,
                fdw_scan_tlist,
                fdw_recheck_quals,
                relids: List::Nil,
                base_relids: List::Nil,
                check_as_user: 0,
                user_is_current: false,
                server: 0,
                system_col: false,
            },
        ),
        tlist: qptlist,
        qual: qpqual,
        costs: PlanCosts {
            disabled_nodes: 0,
            amounts: Amounts::Known { startup: 0, total: 0, rows: 0 },
            width: 0,
            parallel_aware: false,
            parallel_safe: false,
        },
    }
}

/// The expression reads a system column of the relation.
pub open spec fn reads_system_column(e: Expr, relid: i32) -> bool
    decreases e,
{
    match e {
        Expr::Var(v) => v.varno == relid && v.levelsup == 0 && v.attno < 0,
        Expr::PlaceHolder { phid, levelsup, nullingrels, eval_at, expr } => reads_system_column(
            *expr,
            relid,
        ),
        Expr::Relabel { typid, collation, arg } => reads_system_column(*arg, relid),
        Expr::Call { head, args } => list_reads_system_column(*args, relid),
        _ => false,
    }
}

/// Some expression of the list reads a system column of the relation.
pub open spec fn list_reads_system_column(l: List<Expr>, relid: i32) -> bool
    decreases l,
{
    match l {
        List::Nil => false,
        List::Cons(x, xs) => reads_system_column(x, relid) || list_reads_system_column(*xs, relid),
    }
}

fn uses_system_column(e: &Expr, relid: i32) -> (r: bool)
    ensures
        r == reads_system_column(*e, relid),
    decreases e,
{
    match e {
        Expr::Var(v) => v.varno == relid && v.levelsup == 0 && v.attno < 0,
        Expr::PlaceHolder { expr, .. } => uses_system_column(expr, relid),
        Expr::Relabel { arg, .. } => uses_system_column(arg, relid),
        Expr::Call { args, .. } => list_uses_system_column(args, relid),
        _ => false,
    }
}

fn list_uses_system_column(l: &List<Expr>, relid: i32) -> (r: bool)
    ensures
        r == list_reads_system_column(*l, relid),
    decreases l,
{
    match l {
        List::Nil => false,
        List::Cons(x, xs) => uses_system_column(x, relid) || list_uses_system_column(xs, relid),
    }
}

/// Some clause reads a system column of the relation.
pub open spec fn clauses_read_system_column(l: List<Rinfo>, relid: i32) -> bool
    decreases l,
{
    match l {
        List::Nil => false,
        List::Cons(x, xs) => reads_system_column(x.clause, relid) || clauses_read_system_column(
            *xs,
            relid,
        ),
    }
}

fn clauses_use_system_column(l: &List<Rinfo>, relid: i32) -> (r: bool)
    ensures
        r == clauses_read_system_column(*l, relid),
    decreases l,
{
    match l {
        List::Nil => false,
        List::Cons(x, xs) => uses_system_column(&x.clause, relid) || clauses_use_system_column(
            xs,
            relid,
        ),
    }
}

/// What a foreign scan becomes once the wrapper has made it: references to
/// outer relations are parameters, and it says which relations it covers, whom
/// access is checked for, and whether a system column is wanted of the relation.
pub open spec fn foreignscan_plan(
    ctx: PlanContext,
    info: PathInfo,
    relid: u32,
    varno: i32,
    tlist: List<TargetEntry>,
    qual: List<Expr>,
    scan: ForeignScan,
    rel: ForeignRel,
    restrictions: List<Rinfo>,
    outer: Relids,
    sub: Option<Plan>,
) -> Plan {
    let parameterized = info.param is Some;
    crate::planfinish::node_over(
        info,
        PlanNode::ForeignScan(
            relid,
            match sub {
                Some(p) => Some(Box::new(p)),
                None => None,
            },
            ForeignScan {
                fdw_exprs: crate::expr::bind_list_if(scan.fdw_exprs, parameterized, outer),
                fdw_recheck_quals: crate::expr::bind_list_if(
                    scan.fdw_recheck_quals,
                    parameterized,
                    outer,
                ),
                relids: info.relids,
                base_relids: crate::relids::difference_list(info.relids, ctx.outer_join_rels),
                check_as_user: rel.userid,
                user_is_current: rel.user_is_current,
                server: rel.serverid,
                system_col: relid > 0 && (list_reads_system_column(rel.target, varno)
                    || clauses_read_system_column(restrictions, varno)),
                ..scan
            },
        ),
        tlist,
        crate::expr::bind_list_if(qual, parameterized, outer),
    )
}

/// Completes a foreign scan that the wrapper has made.
pub fn create_foreignscan_plan(
    ctx: &PlanContext,
    info: &PathInfo,
    relid: u32,
    varno: i32,
    tlist: List<TargetEntry>,
    qual: List<Expr>,
    scan: ForeignScan,
    rel: &ForeignRel,
    restrictions: &List<Rinfo>,
    outer: &Relids,
    sub: Option<Plan>,
) -> (r: Plan)
    ensures
        r == foreignscan_plan(
            *ctx,
            *info,
            relid,
            varno,
            tlist,
            qual,
            scan,
            *rel,
            *restrictions,
            *outer,
            sub,
        ),
{
    let parameterized = info.param.is_some();
    let system_col = relid > 0 && (list_uses_system_column(&rel.target, varno)
        || clauses_use_system_column(restrictions, varno));
    let input = match sub {
        Some(p) => Some(Box::new(p)),
        None => None,
    };
    let node = ForeignScan {
        fdw_exprs: bind_exprs(scan.fdw_exprs, parameterized, outer),
        fdw_private: scan.fdw_private,
        fdw_scan_tlist: scan.fdw_scan_tlist,
        fdw_recheck_quals: bind_exprs(scan.fdw_recheck_quals, parameterized, outer),
        relids: info.relids.copy(),
        base_relids: relids_difference(&info.relids, &ctx.outer_join_rels),
        check_as_user: rel.userid,
        user_is_current: rel.user_is_current,
        server: rel.serverid,
        system_col,
    };
    make_node(
        info,
        PlanNode::ForeignScan(relid, input, node),
        tlist,
        bind_exprs(qual, parameterized, outer),
    )
}

/// A plan that changes tables does to them what its path says, to the same
/// tables and with the same checks; the assignments made on conflict keep their
/// order and their expressions, and each is for the column that it was for.
pub proof fn lemma_modifytable_plan(
    ctx: PlanContext,
    info: PathInfo,
    table: ModifyTable,
    sub: Plan,
)
    ensures
        modifytable_plan(ctx, info, table, sub) matches Ok(plan) ==> {
            &&& plan.node matches PlanNode::ModifyTable(input, t)
            &&& t.operation == table.operation
            &&& t.result_relations == table.result_relations
            &&& t.update_colnos_lists == table.update_colnos_lists
            &&& t.with_check_options == table.with_check_options
            &&& t.returning_lists == table.returning_lists
            &&& t.merge_actions == table.merge_actions
            &&& t.merge_conditions == table.merge_conditions
            &&& t.row_marks == table.row_marks
            &&& t.nominal_relation == table.nominal_relation
            &&& t.root_relation == table.root_relation
            &&& t.on_conflict is Some <==> table.on_conflict is Some
            &&& table.on_conflict matches Some(c) ==> (t.on_conflict matches Some(n)
                && n.set@.len() == c.set@.len() && n.set_columns@ == c.set@.filter(
                |e: TargetEntry| !e.resjunk,
            ).map_values(|e: TargetEntry| e.resno) && (c.set@.len() < i16::MAX ==> forall|i: int|
                0 <= i < c.set@.len() ==> (#[trigger] n.set@[i]).expr == c.set@[i].expr
                    && n.set@[i].resjunk == c.set@[i].resjunk && n.set@[i].resno == i + 1))
        },
{
    reveal(modifytable_plan);
    if let Some(c) = table.on_conflict {
        lemma_renumbered_len(c.set, 1);
        lemma_target_columns(c.set);
        if c.set@.len() < i16::MAX {
            assert forall|i: int| 0 <= i < c.set@.len() implies (#[trigger] renumbered(
                c.set,
                1,
            )@[i]).expr == c.set@[i].expr && renumbered(c.set, 1)@[i].resjunk == c.set@[i].resjunk
                && renumbered(c.set, 1)@[i].resno == i + 1 by {
                lemma_renumbered(c.set, 1, i);
            }
        }
    }
}

proof fn lemma_target_columns(tlist: List<TargetEntry>)
    ensures
        target_columns(tlist)@ == tlist@.filter(|e: TargetEntry| !e.resjunk).map_values(
            |e: TargetEntry| e.resno,
        ),
    decreases tlist,
{
    let f = |e: TargetEntry| !e.resjunk;
    match tlist {
        List::Nil => {
            reveal(Seq::filter);
            assert(target_columns(tlist)@ =~= tlist@.filter(f).map_values(
                |e: TargetEntry| e.resno,
            ));
        },
        List::Cons(t, ts) => {
            lemma_target_columns(*ts);
            crate::quals::lemma_filter_cons(t, ts@, f);
            let kept = ts@.filter(f);
            assert((seq![t] + kept).map_values(|e: TargetEntry| e.resno) =~= seq![t.resno]
                + kept.map_values(|e: TargetEntry| e.resno));
        },
    }
}

} // verus!

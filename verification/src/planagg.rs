//! Plans of aggregation, grouping sets and duplicate removal.
use vstd::prelude::*;
use crate::error::PlannerError;
use crate::expr::{copy_tlist, AggSplit, Expr, TargetEntry};
use crate::groupingsets_paths::AggStrategy;
use crate::list::List;
use crate::path::{PathInfo, RollupPath, UniqueMethod, UniqueOperators};
use crate::plan::{
    change_plan_targetlist, count_disabled, Amounts, GroupColumn, Plan, PlanCosts, PlanNode,
};
use crate::planfinish::{build_own_tlist, make_node, order_bare_qual_clauses, PlanContext};
use crate::plangroup::{
    add_exprs, build_grouping_map, equal_length, find_group_columns, find_unique_expr_columns,
    make_sort_from_groupcols, make_unique_sort_columns, remap_group_col_idx, renumber,
};
use crate::quals::Rinfo;
use crate::relids::Relids;
use crate::sortgroup::SortGroupClause;

verus! {

/// An aggregation.
#[verifier::opaque]
pub open spec fn agg_plan(
    info: PathInfo,
    strategy: AggStrategy,
    split: AggSplit,
    group_clause: List<SortGroupClause>,
    num_groups: u64,
    transition_space: u64,
    qual: List<Rinfo>,
    outer: Relids,
    sub: Plan,
) -> Result<Plan, PlannerError> {
    match crate::plangroup::group_columns(group_clause, sub.tlist) {
        Err(e) => Err(e),
        Ok(columns) => Ok(
            crate::planfinish::node_over(
                info,
                PlanNode::Agg {
                    input: Some(Box::new(sub)),
                    strategy,
                    split,
                    columns,
                    grouping_sets: List::Nil,
                    grouping_map: List::Nil,
                    chain: Box::new(List::Nil),
                    num_groups,
                    transition_space,
                },
                crate::planfinish::own_tlist(info, outer),
                crate::planfinish::cost_ordered(qual),
            ),
        ),
    }
}

/// Makes an aggregation.
pub fn create_agg_plan(
    info: &PathInfo,
    strategy: AggStrategy,
    split: AggSplit,
    group_clause: &List<SortGroupClause>,
    num_groups: u64,
    transition_space: u64,
    qual: List<Rinfo>,
    outer: &Relids,
    sub: Plan,
) -> (r: Result<Plan, PlannerError>)
    ensures
        r == agg_plan(
            *info,
            strategy,
            split,
            *group_clause,
            num_groups,
            transition_space,
            qual,
            *outer,
            sub,
        ),
{
    proof {
        reveal(agg_plan);
    }
    match find_group_columns(group_clause, &sub.tlist) {
        Err(e) => Err(e),
        Ok(columns) => Ok(
            make_node(
                info,
                PlanNode::Agg {
                    input: Some(Box::new(sub)),
                    strategy,
                    split,
                    columns,
                    grouping_sets: List::Nil,
                    grouping_map: List::Nil,
                    chain: Box::new(List::Nil),
                    num_groups,
                    transition_space,
                },
                build_own_tlist(info, outer),
                order_bare_qual_clauses(qual),
            ),
        ),
    }
}

/// The figures of a node that is only there for its columns.
pub open spec fn no_costs(disabled_nodes: i32) -> PlanCosts {
    PlanCosts {
        disabled_nodes,
        amounts: Amounts::Known { startup: 0, total: 0, rows: 0 },
        width: 0,
        parallel_aware: false,
        parallel_safe: false,
    }
}

/// How a rollup after the first is computed.
pub open spec fn rollup_strategy(rollup: RollupPath) -> AggStrategy {
    if rollup.is_hashed {
        AggStrategy::Hashed
    } else if rollup.gsets matches List::Cons(first, _) && !(first is Nil) {
        AggStrategy::Sorted
    } else {
        AggStrategy::Plain
    }
}

/// The grouping columns of a rollup.
pub open spec fn rollup_columns(
    rollup: RollupPath,
    map: List<(u32, i16)>,
    tlist: List<TargetEntry>,
) -> Result<List<GroupColumn>, PlannerError> {
    match crate::plangroup::group_columns(rollup.group_clause, tlist) {
        Err(e) => Err(e),
        Ok(columns) => Ok(
            crate::plangroup::with_numbers(
                columns,
                crate::plangroup::mapped_columns(rollup.group_clause, map),
            ),
        ),
    }
}

fn find_rollup_columns(
    rollup: &RollupPath,
    map: &List<(u32, i16)>,
    tlist: &List<TargetEntry>,
) -> (r: Result<List<GroupColumn>, PlannerError>)
    ensures
        r == rollup_columns(*rollup, *map, *tlist),
{
    match find_group_columns(&rollup.group_clause, tlist) {
        Err(e) => Err(e),
        Ok(columns) => {
            let numbers = remap_group_col_idx(&rollup.group_clause, map);
            Ok(renumber(columns, &numbers))
        },
    }
}

/// How many disabled nodes a sort over a plan counts.
pub open spec fn sort_disabled(plan_disabled: i32, enable_sort: bool) -> i32 {
    if enable_sort {
        plan_disabled
    } else {
        crate::plan::one_more(plan_disabled)
    }
}

/// The sort that a rollup needs ahead of it, without input: none for one that
/// is hashed, nor for the first that is sorted where the rollups before it are
/// all hashed.
pub open spec fn rollup_sort(
    rollup: RollupPath,
    first_sort: bool,
    map: List<(u32, i16)>,
    tlist: List<TargetEntry>,
    disabled: i32,
) -> Result<Option<Plan>, PlannerError> {
    if rollup.is_hashed || first_sort {
        Ok(None)
    } else {
        match crate::plangroup::groupcol_sort(
            rollup.group_clause,
            crate::plangroup::mapped_columns(rollup.group_clause, map),
            tlist,
        ) {
            Err(e) => Err(e),
            Ok(columns) => Ok(
                Some(
                    Plan {
                        node: PlanNode::SortByColumns(None, columns),
                        tlist: List::Nil,
                        qual: List::Nil,
                        costs: no_costs(disabled),
                    },
                ),
            ),
        }
    }
}

fn make_rollup_sort(
    rollup: &RollupPath,
    first_sort: bool,
    map: &List<(u32, i16)>,
    tlist: &List<TargetEntry>,
    disabled: i32,
) -> (r: Result<Option<Plan>, PlannerError>)
    ensures
        r == rollup_sort(*rollup, first_sort, *map, *tlist, disabled),
{
    if rollup.is_hashed || first_sort {
        return Ok(None);
    }
    let numbers = remap_group_col_idx(&rollup.group_clause, map);
    match make_sort_from_groupcols(&rollup.group_clause, &numbers, tlist) {
        Err(e) => Err(e),
        Ok(columns) => Ok(
            Some(
                Plan {
                    node: PlanNode::SortByColumns(None, columns),
                    tlist: List::Nil,
                    qual: List::Nil,
                    costs: PlanCosts {
                        disabled_nodes: disabled,
                        amounts: Amounts::Known { startup: 0, total: 0, rows: 0 },
                        width: 0,
                        parallel_aware: false,
                        parallel_safe: false,
                    },
                },
            ),
        ),
    }
}

/// The nodes for the rollups after the first.
pub open spec fn rollup_chain(
    rollups: List<RollupPath>,
    first_sort: bool,
    map: List<(u32, i16)>,
    tlist: List<TargetEntry>,
    disabled: i32,
    transition_space: u64,
) -> Result<List<Plan>, PlannerError>
    decreases rollups,
{
    match rollups {
        List::Nil => Ok(List::Nil),
        List::Cons(r, rs) => match rollup_sort(r, first_sort, map, tlist, disabled) {
            Err(e) => Err(e),
            Ok(sort) => match rollup_columns(r, map, tlist) {
                Err(e) => Err(e),
                Ok(columns) => match rollup_chain(
                    *rs,
                    first_sort && r.is_hashed,
                    map,
                    tlist,
                    disabled,
                    transition_space,
                ) {
                    Err(e) => Err(e),
                    Ok(rest) => Ok(
                        List::Cons(
                            Plan {
                                node: PlanNode::Agg {
                                    input: match sort {
                                        Some(s) => Some(Box::new(s)),
                                        None => None,
                                    },
                                    strategy: rollup_strategy(r),
                                    split: AggSplit::Simple,
                                    columns,
                                    grouping_sets: r.gsets,
                                    grouping_map: List::Nil,
                                    chain: Box::new(List::Nil),
                                    num_groups: r.num_groups,
                                    transition_space,
                                },
                                tlist: List::Nil,
                                qual: List::Nil,
                                costs: no_costs(0),
                            },
                            Box::new(rest),
                        ),
                    ),
                },
            },
        },
    }
}

fn make_rollup_chain(
    rollups: List<RollupPath>,
    first_sort: bool,
    map: &List<(u32, i16)>,
    tlist: &List<TargetEntry>,
    disabled: i32,
    transition_space: u64,
) -> (r: Result<List<Plan>, PlannerError>)
    ensures
        r == rollup_chain(rollups, first_sort, *map, *tlist, disabled, transition_space),
    decreases rollups,
{
    match rollups {
        List::Nil => Ok(List::Nil),
        List::Cons(x, xs) => {
            let sort = match make_rollup_sort(&x, first_sort, map, tlist, disabled) {
                Err(e) => {
                    return Err(e);
                },
                Ok(s) => s,
            };
            let columns = match find_rollup_columns(&x, map, tlist) {
                Err(e) => {
                    return Err(e);
                },
                Ok(c) => c,
            };
            let strategy = if x.is_hashed {
                AggStrategy::Hashed
            } else {
                match &x.gsets {
                    List::Cons(first, _) => if first.is_nil() {
                        AggStrategy::Plain
                    } else {
                        AggStrategy::Sorted
                    },
                    List::Nil => AggStrategy::Plain,
                }
            };
            let rest = match make_rollup_chain(
                *xs,
                first_sort && x.is_hashed,
                map,
                tlist,
                disabled,
                transition_space,
            ) {
                Err(e) => {
                    return Err(e);
                },
                Ok(l) => l,
            };
            let plan = Plan {
                node: PlanNode::Agg {
                    input: match sort {
                        Some(s) => Some(Box::new(s)),
                        None => None,
                    },
                    strategy,
                    split: AggSplit::Simple,
                    columns,
                    grouping_sets: x.gsets,
                    grouping_map: List::Nil,
                    chain: Box::new(List::Nil),
                    num_groups: x.num_groups,
                    transition_space,
                },
                tlist: List::Nil,
                qual: List::Nil,
                costs: PlanCosts {
                    disabled_nodes: 0,
                    amounts: Amounts::Known { startup: 0, total: 0, rows: 0 },
                    width: 0,
                    parallel_aware: false,
                    parallel_safe: false,
                },
            };
            Ok(List::Cons(plan, Box::new(rest)))
        },
    }
}

/// An aggregation for grouping sets: the first rollup on top, the others
/// chained to it.
#[verifier::opaque]
pub open spec fn groupingsets_plan(
    ctx: PlanContext,
    info: PathInfo,
    strategy: AggStrategy,
    rollups: List<RollupPath>,
    transition_space: u64,
    qual: List<Expr>,
    outer: Relids,
    sub: Plan,
) -> Result<Plan, PlannerError> {
    match rollups {
        List::Nil => Err(PlannerError::UnexpectedPathType),
        List::Cons(first, rest) => match crate::plangroup::grouping_map(
            ctx.processed_group_clause,
            sub.tlist,
        ) {
            Err(e) => Err(e),
            Ok(map) => match rollup_chain(
                *rest,
                first.is_hashed,
                map,
                sub.tlist,
                sort_disabled(sub.costs.disabled_nodes, ctx.enable_sort),
                transition_space,
            ) {
                Err(e) => Err(e),
                Ok(chain) => match rollup_columns(first, map, sub.tlist) {
                    Err(e) => Err(e),
                    Ok(columns) => Ok(
                        crate::planfinish::node_over(
                            info,
                            PlanNode::Agg {
                                input: Some(Box::new(sub)),
                                strategy,
                                split: AggSplit::Simple,
                                columns,
                                grouping_sets: first.gsets,
                                grouping_map: map,
                                chain: Box::new(chain),
                                num_groups: first.num_groups,
                                transition_space,
                            },
                            crate::planfinish::own_tlist(info, outer),
                            qual,
                        ),
                    ),
                },
            },
        },
    }
}

/// Makes an aggregation for grouping sets.
pub fn create_groupingsets_plan(
    ctx: &PlanContext,
    info: &PathInfo,
    strategy: AggStrategy,
    rollups: List<RollupPath>,
    transition_space: u64,
    qual: List<Expr>,
    outer: &Relids,
    sub: Plan,
) -> (r: Result<Plan, PlannerError>)
    ensures
        r == groupingsets_plan(
            *ctx,
            *info,
            strategy,
            rollups,
            transition_space,
            qual,
            *outer,
            sub,
        ),
{
    proof {
        reveal(groupingsets_plan);
    }
    match rollups {
        List::Nil => Err(PlannerError::UnexpectedPathType),
        List::Cons(first, rest) => {
            let map = match build_grouping_map(&ctx.processed_group_clause, &sub.tlist) {
                Err(e) => {
                    return Err(e);
                },
                Ok(m) => m,
            };
            let disabled: i32 = if ctx.enable_sort {
                sub.costs.disabled_nodes
            } else {
                count_disabled(sub.costs.disabled_nodes)
            };
            let chain = match make_rollup_chain(
                *rest,
                first.is_hashed,
                &map,
                &sub.tlist,
                disabled,
                transition_space,
            ) {
                Err(e) => {
                    return Err(e);
                },
                Ok(c) => c,
            };
            let columns = match find_rollup_columns(&first, &map, &sub.tlist) {
                Err(e) => {
                    return Err(e);
                },
                Ok(c) => c,
            };
            Ok(
                make_node(
                    info,
                    PlanNode::Agg {
                        input: Some(Box::new(sub)),
                        strategy,
                        split: AggSplit::Simple,
                        columns,
                        grouping_sets: first.gsets,
                        grouping_map: map,
                        chain: Box::new(chain),
                        num_groups: first.num_groups,
                        transition_space,
                    },
                    build_own_tlist(info, outer),
                    qual,
                ),
            )
        },
    }
}

/// There is one node in the chain for each rollup after the first.
pub proof fn lemma_chain_length(
    rollups: List<RollupPath>,
    first_sort: bool,
    map: List<(u32, i16)>,
    tlist: List<TargetEntry>,
    disabled: i32,
    transition_space: u64,
)
    ensures
        rollup_chain(rollups, first_sort, map, tlist, disabled, transition_space) matches Ok(chain)
            ==> chain@.len() == rollups@.len(),
    decreases rollups,
{
    if let List::Cons(r, rs) = rollups {
        lemma_chain_length(
            *rs,
            first_sort && r.is_hashed,
            map,
            tlist,
            disabled,
            transition_space,
        );
    }
}

/// The greatest label of a target list.
pub open spec fn max_label(tlist: List<TargetEntry>) -> u32
    decreases tlist,
{
    match tlist {
        List::Nil => 0,
        List::Cons(t, ts) => if t.ressortgroupref > max_label(*ts) {
            t.ressortgroupref
        } else {
            max_label(*ts)
        },
    }
}

fn find_max_label(tlist: &List<TargetEntry>) -> (r: u32)
    ensures
        r == max_label(*tlist),
    decreases tlist,
{
    match tlist {
        List::Nil => 0,
        List::Cons(t, ts) => {
            let rest: u32 = find_max_label(ts);
            if t.ressortgroupref > rest {
                t.ressortgroupref
            } else {
                rest
            }
        },
    }
}

/// The list where the first entry with the number has a label: its own, or the
/// given one.
pub open spec fn with_label_at(tlist: List<TargetEntry>, resno: i16, label: u32) -> List<
    TargetEntry,
>
    decreases tlist,
{
    match tlist {
        List::Nil => List::Nil,
        List::Cons(t, ts) => if t.resno == resno {
            if t.ressortgroupref == 0 {
                List::Cons(TargetEntry { ressortgroupref: label, ..t }, ts)
            } else {
                tlist
            }
        } else {
            List::Cons(t, Box::new(with_label_at(*ts, resno, label)))
        },
    }
}

fn set_label_at(tlist: List<TargetEntry>, resno: i16, label: u32) -> (r: List<TargetEntry>)
    ensures
        r == with_label_at(tlist, resno, label),
    decreases tlist,
{
    match tlist {
        List::Nil => List::Nil,
        List::Cons(t, ts) => {
            if t.resno == resno {
                if t.ressortgroupref == 0 {
                    let mut t = t;
                    t.ressortgroupref = label;
                    List::Cons(t, ts)
                } else {
                    List::Cons(t, ts)
                }
            } else {
                List::Cons(t, Box::new(set_label_at(*ts, resno, label)))
            }
        },
    }
}

/// The label after all of those in use.
pub open spec fn fresh_label(tlist: List<TargetEntry>) -> u32 {
    if max_label(tlist) == u32::MAX {
        u32::MAX
    } else {
        (max_label(tlist) + 1) as u32
    }
}

/// The list where each of the columns has a label.
pub open spec fn with_labels(tlist: List<TargetEntry>, columns: List<GroupColumn>) -> List<
    TargetEntry,
>
    decreases columns,
{
    match columns {
        List::Nil => tlist,
        List::Cons(c, cs) => with_labels(with_label_at(tlist, c.resno, fresh_label(tlist)), *cs),
    }
}

fn assign_sort_group_refs(tlist: List<TargetEntry>, columns: &List<GroupColumn>) -> (r: List<
    TargetEntry,
>)
    ensures
        r == with_labels(tlist, *columns),
    decreases columns,
{
    match columns {
        List::Nil => tlist,
        List::Cons(c, cs) => {
            let max: u32 = find_max_label(&tlist);
            let label: u32 = if max == u32::MAX {
                u32::MAX
            } else {
                max + 1
            };
            assign_sort_group_refs(set_label_at(tlist, c.resno, label), cs)
        },
    }
}

/// Every equality can be used as asked.
pub open spec fn operators_usable(operators: List<UniqueOperators>, hashed: bool) -> bool
    decreases operators,
{
    match operators {
        List::Nil => true,
        List::Cons(o, os) => {
            &&& if hashed {
                o.hash_eq != 0
            } else {
                o.sort != 0 && o.sort_eq != 0
            }
            &&& operators_usable(*os, hashed)
        },
    }
}

fn check_operators(operators: &List<UniqueOperators>, hashed: bool) -> (r: bool)
    ensures
        r == operators_usable(*operators, hashed),
    decreases operators,
{
    match operators {
        List::Nil => true,
        List::Cons(o, os) => {
            let here = if hashed {
                o.hash_eq != 0
            } else {
                o.sort != 0 && o.sort_eq != 0
            };
            here && check_operators(os, hashed)
        },
    }
}

/// The input of duplicate removal: a plan that returns the expressions to be
/// made unique.
pub open spec fn unique_input(
    info: PathInfo,
    method: UniqueMethod,
    exprs: List<Expr>,
    outer: Relids,
    sub: Plan,
) -> Plan {
    let own = crate::planfinish::own_tlist(info, outer);
    let tlist = crate::plangroup::with_exprs(own, exprs);
    if !crate::plangroup::same_length(tlist, own) || method == UniqueMethod::Sort {
        crate::plan::with_targetlist(sub, tlist, info.parallel_safe)
    } else {
        sub
    }
}

/// The rows of a plan without duplicates.
#[verifier::opaque]
pub open spec fn unique_plan(
    ctx: PlanContext,
    info: PathInfo,
    method: UniqueMethod,
    exprs: List<Expr>,
    operators: List<UniqueOperators>,
    outer: Relids,
    sub: Plan,
) -> Result<Plan, PlannerError> {
    let hashed = method == UniqueMethod::Hash;
    let input = unique_input(info, method, exprs, outer, sub);
    if method == UniqueMethod::Noop {
        Ok(sub)
    } else {
        match crate::plangroup::unique_expr_columns(exprs, operators, input.tlist, hashed) {
            Err(e) => Err(e),
            Ok(columns) => if !operators_usable(operators, hashed) {
                Err(PlannerError::UniqueOperatorNotFound)
            } else if hashed {
                Ok(
                    crate::planfinish::node_over(
                        info,
                        PlanNode::Agg {
                            input: Some(Box::new(input)),
                            strategy: AggStrategy::Hashed,
                            split: AggSplit::Simple,
                            columns,
                            grouping_sets: List::Nil,
                            grouping_map: List::Nil,
                            chain: Box::new(List::Nil),
                            num_groups: info.rows,
                            transition_space: 0,
                        },
                        crate::planfinish::own_tlist(info, outer),
                        List::Nil,
                    ),
                )
            } else {
                let tlist = with_labels(input.tlist, columns);
                let labelled = Plan { tlist, ..input };
                let sorted = Plan {
                    node: PlanNode::SortByColumns(
                        Some(Box::new(labelled)),
                        crate::plangroup::unique_sort_columns(columns, operators),
                    ),
                    tlist,
                    qual: List::Nil,
                    costs: crate::plangroup::sort_costs(labelled, ctx.enable_sort, None),
                };
                Ok(
                    crate::planfinish::node_over(
                        info,
                        PlanNode::UniqueByColumns(Box::new(sorted), columns),
                        tlist,
                        List::Nil,
                    ),
                )
            },
        }
    }
}

/// Removes duplicates from the rows of a plan: by hashing, or by sorting.
pub fn create_unique_plan(
    ctx: &PlanContext,
    info: &PathInfo,
    method: UniqueMethod,
    exprs: &List<Expr>,
    operators: &List<UniqueOperators>,
    outer: &Relids,
    sub: Plan,
) -> (r: Result<Plan, PlannerError>)
    ensures
        r == unique_plan(*ctx, *info, method, *exprs, *operators, *outer, sub),
{
    proof {
        reveal(unique_plan);
    }
    if method == UniqueMethod::Noop {
        return Ok(sub);
    }
    let hashed = method == UniqueMethod::Hash;
    let own = build_own_tlist(info, outer);
    let tlist = add_exprs(copy_tlist(&own), exprs);
    let input = if !equal_length(&tlist, &own) || method == UniqueMethod::Sort {
        change_plan_targetlist(sub, tlist, info.parallel_safe)
    } else {
        sub
    };
    let columns = match find_unique_expr_columns(exprs, operators, &input.tlist, hashed) {
        Err(e) => {
            return Err(e);
        },
        Ok(c) => c,
    };
    if !check_operators(operators, hashed) {
        return Err(PlannerError::UniqueOperatorNotFound);
    }
    if hashed {
        return Ok(
            make_node(
                info,
                PlanNode::Agg {
                    input: Some(Box::new(input)),
                    strategy: AggStrategy::Hashed,
                    split: AggSplit::Simple,
                    columns,
                    grouping_sets: List::Nil,
                    grouping_map: List::Nil,
                    chain: Box::new(List::Nil),
                    num_groups: info.rows,
                    transition_space: 0,
                },
                own,
                List::Nil,
            ),
        );
    }
    let mut input = input;
    let tlist = assign_sort_group_refs(copy_tlist(&input.tlist), &columns);
    let sort_tlist = copy_tlist(&tlist);
    let unique_tlist = copy_tlist(&tlist);
    input.tlist = tlist;
    let costs = PlanCosts {
        disabled_nodes: if ctx.enable_sort {
            input.costs.disabled_nodes
        } else {
            count_disabled(input.costs.disabled_nodes)
        },
        amounts: Amounts::Sort(None),
        width: input.costs.width,
        parallel_aware: false,
        parallel_safe: input.costs.parallel_safe,
    };
    let sort_columns = make_unique_sort_columns(&columns, operators);
    let sorted = Plan {
        node: PlanNode::SortByColumns(Some(Box::new(input)), sort_columns),
        tlist: sort_tlist,
        qual: List::Nil,
        costs,
    };
    Ok(
        make_node(
            info,
            PlanNode::UniqueByColumns(Box::new(sorted), columns),
            unique_tlist,
            List::Nil,
        ),
    )
}

/// An aggregation groups the rows of the input by the columns of its clauses, in
/// the way and to the extent that are asked for, and tests every condition of
/// HAVING.
pub proof fn lemma_agg_plan(
    info: PathInfo,
    strategy: AggStrategy,
    split: AggSplit,
    group_clause: List<SortGroupClause>,
    num_groups: u64,
    transition_space: u64,
    qual: List<Rinfo>,
    outer: Relids,
    sub: Plan,
)
    ensures
        agg_plan(
            info,
            strategy,
            split,
            group_clause,
            num_groups,
            transition_space,
            qual,
            outer,
            sub,
        ) matches Ok(plan) ==> {
            &&& crate::quals::picks(qual@, |r: Rinfo| true, |e: Expr| e, plan.qual@)
            &&& plan.node matches PlanNode::Agg {
                input,
                strategy: way,
                split: extent,
                columns,
                grouping_sets,
                grouping_map,
                chain,
                num_groups: groups,
                transition_space: space,
            } && input == Some(Box::new(sub)) && way == strategy && extent == split && groups
                == num_groups && space == transition_space && grouping_sets@.len() == 0
                && columns@.len() == group_clause@.len() && forall|i: int|
                0 <= i < columns@.len() ==> (#[trigger] columns@[i]).operator
                    == group_clause@[i].eqop && crate::plangroup::is_column_of(
                    sub.tlist@,
                    group_clause@[i].tle_sort_group_ref,
                    columns@[i].resno,
                    columns@[i].collation,
                )
        },
{
    reveal(agg_plan);
    crate::planfinish::lemma_conditions_kept(qual);
    crate::plangroup::lemma_group_columns(group_clause, sub.tlist);
    let none: List<List<usize>> = List::Nil;
    assert(none@.len() == 0);
}

/// Grouping sets are computed from the rows of the input, in full: the first
/// rollup in the node itself, each of the others in one node of its chain, and
/// every condition of HAVING is tested.
pub proof fn lemma_groupingsets_plan(
    ctx: PlanContext,
    info: PathInfo,
    strategy: AggStrategy,
    rollups: List<RollupPath>,
    transition_space: u64,
    qual: List<Expr>,
    outer: Relids,
    sub: Plan,
)
    ensures
        groupingsets_plan(
            ctx,
            info,
            strategy,
            rollups,
            transition_space,
            qual,
            outer,
            sub,
        ) matches Ok(plan) ==> {
            &&& rollups@.len() > 0
            &&& plan.qual == qual
            &&& plan.node matches PlanNode::Agg {
                input,
                strategy: way,
                split,
                columns,
                grouping_sets,
                grouping_map,
                chain,
                num_groups,
                transition_space: space,
            } && input == Some(Box::new(sub)) && way == strategy && split == AggSplit::Simple
                && grouping_sets == rollups@[0].gsets && num_groups == rollups@[0].num_groups
                && chain@.len() == rollups@.len() - 1
        },
{
    reveal(groupingsets_plan);
    if let List::Cons(first, rest) = rollups {
        assert(rollups@[0] == first);
        if let Ok(map) = crate::plangroup::grouping_map(ctx.processed_group_clause, sub.tlist) {
            lemma_chain_length(
                *rest,
                first.is_hashed,
                map,
                sub.tlist,
                sort_disabled(sub.costs.disabled_nodes, ctx.enable_sort),
                transition_space,
            );
        }
    }
}

/// Duplicates are removed by hashing where that is asked for, else from sorted
/// rows; where there are none, the rows stay as they are.
pub proof fn lemma_unique_way(
    ctx: PlanContext,
    info: PathInfo,
    method: UniqueMethod,
    exprs: List<Expr>,
    operators: List<UniqueOperators>,
    outer: Relids,
    sub: Plan,
)
    ensures
        method == UniqueMethod::Noop ==> unique_plan(
            ctx,
            info,
            method,
            exprs,
            operators,
            outer,
            sub,
        ) == Ok::<Plan, PlannerError>(sub),
        unique_plan(ctx, info, method, exprs, operators, outer, sub) matches Ok(plan) ==> {
            &&& method == UniqueMethod::Hash ==> (plan.node matches PlanNode::Agg {
                input,
                strategy,
                split,
                columns,
                grouping_sets,
                grouping_map,
                chain,
                num_groups,
                transition_space,
            } && strategy == AggStrategy::Hashed && split == AggSplit::Simple)
            &&& method == UniqueMethod::Sort ==> (
            plan.node matches PlanNode::UniqueByColumns(sorted, columns) && (
            sorted.node matches PlanNode::SortByColumns(_, by) && by@.len() <= columns@.len()
                && forall|i: int|
                0 <= i < by@.len() ==> (#[trigger] by@[i]).resno == columns@[i].resno
                    && by@[i].collation == columns@[i].collation && by@[i].operator
                    == operators@[i].sort))
        },
{
    reveal(unique_plan);
    if method == UniqueMethod::Sort {
        let input = unique_input(info, method, exprs, outer, sub);
        if let Ok(columns) = crate::plangroup::unique_expr_columns(
            exprs,
            operators,
            input.tlist,
            false,
        ) {
            lemma_unique_sort(columns, operators);
        }
    }
}

proof fn lemma_unique_sort(columns: List<GroupColumn>, operators: List<UniqueOperators>)
    ensures
        ({
            let by = crate::plangroup::unique_sort_columns(columns, operators)@;
            &&& by.len() <= columns@.len()
            &&& by.len() <= operators@.len()
            &&& forall|i: int|
                0 <= i < by.len() ==> (#[trigger] by[i]).resno == columns@[i].resno
                    && by[i].collation == columns@[i].collation && by[i].operator
                    == operators@[i].sort
        }),
    decreases columns,
{
    let by = crate::plangroup::unique_sort_columns(columns, operators)@;
    let none: List<crate::plan::SetOpColumn> = List::Nil;
    assert(none@.len() == 0);
    if let List::Cons(c, cs) = columns {
        if let List::Cons(o, os) = operators {
            lemma_unique_sort(*cs, *os);
            let rest = crate::plangroup::unique_sort_columns(*cs, *os)@;
            assert(columns@[0] == c && operators@[0] == o);
            assert(forall|i: int| 1 <= i < by.len() ==> #[trigger] by[i] == rest[i - 1]);
            assert(forall|i: int| 1 <= i < columns@.len() ==> #[trigger] columns@[i] == cs@[i - 1]);
            assert(forall|i: int|
                1 <= i < operators@.len() ==> #[trigger] operators@[i] == os@[i - 1]);
        }
    }
}

} // verus!

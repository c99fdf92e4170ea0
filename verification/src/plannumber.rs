//! The parameters by which the rows of parallel workers are read again.
//!
//! The parameters that nested loops supply are known by the expressions that
//! they stand for and have no numbers here.
use vstd::prelude::*;
use crate::cte::assign_special_exec_param;
use crate::list::List;
use crate::plan::{Plan, PlanNode};

verus! {

/// The plan where every node that collects the rows of parallel workers has a
/// parameter of its own, numbered from `next` on in the order in which the nodes
/// are made: those below a node come before it. With it comes the next number.
pub open spec fn numbered(p: Plan, next: nat) -> (Plan, nat)
    decreases p,
{
    let (node, n) = numbered_node(p.node, next);
    (Plan { node, ..p }, n)
}

/// A node where those that collect rows have parameters.
pub open spec fn numbered_node(node: PlanNode, next: nat) -> (PlanNode, nat)
    decreases node,
{
    match node {
        PlanNode::BitmapHeapScan(relid, quals, sub) => {
            let (p1, n1) = numbered(*sub, next);
            (PlanNode::BitmapHeapScan(relid, quals, Box::new(p1)), n1)
        },
        PlanNode::BitmapAnd(plans) => {
            let (p1, n1) = numbered_list(*plans, next);
            (PlanNode::BitmapAnd(Box::new(p1)), n1)
        },
        PlanNode::BitmapOr(plans) => {
            let (p1, n1) = numbered_list(*plans, next);
            (PlanNode::BitmapOr(Box::new(p1)), n1)
        },
        PlanNode::SubqueryScan(relid, sub) => {
            let (p1, n1) = numbered(*sub, next);
            (PlanNode::SubqueryScan(relid, Box::new(p1)), n1)
        },
        PlanNode::Result(sub, quals) => {
            let (p1, n1) = match sub {
                Some(x) => {
                    let (y, n) = numbered(*x, next);
                    (Some(Box::new(y)), n)
                },
                None => (None, next),
            };
            (PlanNode::Result(p1, quals), n1)
        },
        PlanNode::InitResult { init, aggs, qual } => {
            let (p1, n1) = numbered_list(*init, next);
            (PlanNode::InitResult { init: Box::new(p1), aggs, qual }, n1)
        },
        PlanNode::ProjectSet(sub) => {
            let (p1, n1) = numbered(*sub, next);
            (PlanNode::ProjectSet(Box::new(p1)), n1)
        },
        PlanNode::Append { plans, relids, first_partial, prune_quals } => {
            let (p1, n1) = numbered_list(*plans, next);
            (PlanNode::Append { plans: Box::new(p1), relids, first_partial, prune_quals }, n1)
        },
        PlanNode::MergeAppend { plans, relids, columns, prune_quals } => {
            let (p1, n1) = numbered_list(*plans, next);
            (PlanNode::MergeAppend { plans: Box::new(p1), relids, columns, prune_quals }, n1)
        },
        PlanNode::Sort(sub, columns) => {
            let (p1, n1) = numbered(*sub, next);
            (PlanNode::Sort(Box::new(p1), columns), n1)
        },
        PlanNode::IncrementalSort(sub, columns, presorted) => {
            let (p1, n1) = numbered(*sub, next);
            (PlanNode::IncrementalSort(Box::new(p1), columns, presorted), n1)
        },
        PlanNode::SortByColumns(sub, columns) => {
            let (p1, n1) = match sub {
                Some(x) => {
                    let (y, n) = numbered(*x, next);
                    (Some(Box::new(y)), n)
                },
                None => (None, next),
            };
            (PlanNode::SortByColumns(p1, columns), n1)
        },
        PlanNode::Group(sub, columns) => {
            let (p1, n1) = numbered(*sub, next);
            (PlanNode::Group(Box::new(p1), columns), n1)
        },
        PlanNode::Agg {
            input,
            strategy,
            split,
            columns,
            grouping_sets,
            grouping_map,
            chain,
            num_groups,
            transition_space,
        } => {
            let (p1, n1) = match input {
                Some(x) => {
                    let (y, n) = numbered(*x, next);
                    (Some(Box::new(y)), n)
                },
                None => (None, next),
            };
            (
                PlanNode::Agg {
                    input: p1,
                    strategy,
                    split,
                    columns,
                    grouping_sets,
                    grouping_map,
                    chain,
                    num_groups,
                    transition_space,
                },
                n1,
            )
        },
        PlanNode::WindowAgg { input, clause, partition, order, run_condition, topwindow } => {
            let (p1, n1) = numbered(*input, next);
            (
                PlanNode::WindowAgg {
                    input: Box::new(p1),
                    clause,
                    partition,
                    order,
                    run_condition,
                    topwindow,
                },
                n1,
            )
        },
        PlanNode::Unique(sub, columns) => {
            let (p1, n1) = numbered(*sub, next);
            (PlanNode::Unique(Box::new(p1), columns), n1)
        },
        PlanNode::UniqueByColumns(sub, columns) => {
            let (p1, n1) = numbered(*sub, next);
            (PlanNode::UniqueByColumns(Box::new(p1), columns), n1)
        },
        PlanNode::Gather { input, num_workers, single_copy, rescan_param } => {
            let (p1, n1) = numbered(*input, next);
            (
                PlanNode::Gather {
                    input: Box::new(p1),
                    num_workers,
                    single_copy,
                    rescan_param: Some(n1 as usize),
                },
                n1 + 1,
            )
        },
        PlanNode::GatherMerge { input, num_workers, columns, rescan_param } => {
            let (p1, n1) = numbered(*input, next);
            (
                PlanNode::GatherMerge {
                    input: Box::new(p1),
                    num_workers,
                    columns,
                    rescan_param: Some(n1 as usize),
                },
                n1 + 1,
            )
        },
        PlanNode::Limit { input, offset, count, with_ties, ties } => {
            let (p1, n1) = numbered(*input, next);
            (PlanNode::Limit { input: Box::new(p1), offset, count, with_ties, ties }, n1)
        },
        PlanNode::LockRows { input, marks, epq_param } => {
            let (p1, n1) = numbered(*input, next);
            (PlanNode::LockRows { input: Box::new(p1), marks, epq_param }, n1)
        },
        PlanNode::Material(sub) => {
            let (p1, n1) = numbered(*sub, next);
            (PlanNode::Material(Box::new(p1)), n1)
        },
        PlanNode::Memoize {
            input,
            hash_operators,
            collations,
            param_exprs,
            singlerow,
            binary_mode,
            est_entries,
            key_params,
        } => {
            let (p1, n1) = numbered(*input, next);
            (
                PlanNode::Memoize {
                    input: Box::new(p1),
                    hash_operators,
                    collations,
                    param_exprs,
                    singlerow,
                    binary_mode,
                    est_entries,
                    key_params,
                },
                n1,
            )
        },
        PlanNode::NestLoop { join, outer, inner } => {
            let (p1, n1) = numbered(*outer, next);
            let (p2, n2) = numbered(*inner, n1);
            (PlanNode::NestLoop { join, outer: Box::new(p1), inner: Box::new(p2) }, n2)
        },
        PlanNode::MergeJoin { join, clauses, keys, skip_mark_restore, outer, inner } => {
            let (p1, n1) = numbered(*outer, next);
            let (p2, n2) = numbered(*inner, n1);
            (
                PlanNode::MergeJoin {
                    join,
                    clauses,
                    keys,
                    skip_mark_restore,
                    outer: Box::new(p1),
                    inner: Box::new(p2),
                },
                n2,
            )
        },
        PlanNode::HashJoin { join, clauses, outer, inner } => {
            let (p1, n1) = numbered(*outer, next);
            let (p2, n2) = numbered(*inner, n1);
            (PlanNode::HashJoin { join, clauses, outer: Box::new(p1), inner: Box::new(p2) }, n2)
        },
        PlanNode::Hash { input, hashkeys, rows_total } => {
            let (p1, n1) = numbered(*input, next);
            (PlanNode::Hash { input: Box::new(p1), hashkeys, rows_total }, n1)
        },
        PlanNode::SetOp { left, right, command, hashed, columns, num_groups } => {
            let (p1, n1) = numbered(*left, next);
            let (p2, n2) = numbered(*right, n1);
            (
                PlanNode::SetOp {
                    left: Box::new(p1),
                    right: Box::new(p2),
                    command,
                    hashed,
                    columns,
                    num_groups,
                },
                n2,
            )
        },
        PlanNode::RecursiveUnion { left, right, wt_param, columns, num_groups } => {
            let (p1, n1) = numbered(*left, next);
            let (p2, n2) = numbered(*right, n1);
            (
                PlanNode::RecursiveUnion {
                    left: Box::new(p1),
                    right: Box::new(p2),
                    wt_param,
                    columns,
                    num_groups,
                },
                n2,
            )
        },
        PlanNode::ModifyTable(sub, table) => {
            let (p1, n1) = numbered(*sub, next);
            (PlanNode::ModifyTable(Box::new(p1), table), n1)
        },
        PlanNode::ForeignScan(relid, sub, scan) => {
            let (p1, n1) = match sub {
                Some(x) => {
                    let (y, n) = numbered(*x, next);
                    (Some(Box::new(y)), n)
                },
                None => (None, next),
            };
            (PlanNode::ForeignScan(relid, p1, scan), n1)
        },
        PlanNode::Scan(_, _) | PlanNode::IndexScan(_, _) | PlanNode::BitmapIndexScan(_, _) => (
            node,
            next,
        ),
    }
}

/// The plans where the nodes that collect rows have parameters.
pub open spec fn numbered_list(l: List<Plan>, next: nat) -> (List<Plan>, nat)
    decreases l,
{
    match l {
        List::Nil => (List::Nil, next),
        List::Cons(x, xs) => {
            let (y, n) = numbered(x, next);
            let (ys, m) = numbered_list(*xs, n);
            (List::Cons(y, Box::new(ys)), m)
        },
    }
}

/// The types with parameters added that carry no value.
pub open spec fn grown_types(types: Seq<u32>, n: nat) -> Seq<u32> {
    types + Seq::new((n - types.len()) as nat, |i: int| 0u32)
}

fn number_plan(p: Plan, types: &mut Vec<u32>) -> (r: Plan)
    ensures
        (r, final(types)@.len()) == numbered(p, old(types)@.len()),
        old(types)@.len() <= final(types)@.len(),
        final(types)@ =~= grown_types(old(types)@, final(types)@.len()),
    decreases p,
{
    let Plan { node, tlist, qual, costs } = p;
    let node = number_node(node, types);
    Plan { node, tlist, qual, costs }
}

#[verifier::rlimit(60)]
fn number_node(node: PlanNode, types: &mut Vec<u32>) -> (r: PlanNode)
    ensures
        (r, final(types)@.len()) == numbered_node(node, old(types)@.len()),
        old(types)@.len() <= final(types)@.len(),
        final(types)@ =~= grown_types(old(types)@, final(types)@.len()),
    decreases node,
{
    match node {
        PlanNode::BitmapHeapScan(relid, quals, sub) => {
            let p1 = number_plan(*sub, types);
            PlanNode::BitmapHeapScan(relid, quals, Box::new(p1))
        },
        PlanNode::BitmapAnd(plans) => {
            let p1 = number_plans(*plans, types);
            PlanNode::BitmapAnd(Box::new(p1))
        },
        PlanNode::BitmapOr(plans) => {
            let p1 = number_plans(*plans, types);
            PlanNode::BitmapOr(Box::new(p1))
        },
        PlanNode::SubqueryScan(relid, sub) => {
            let p1 = number_plan(*sub, types);
            PlanNode::SubqueryScan(relid, Box::new(p1))
        },
        PlanNode::Result(sub, quals) => {
            let p1 = match sub {
                Some(x) => {
                    let y = number_plan(*x, types);
                    Some(Box::new(y))
                },
                None => None,
            };
            PlanNode::Result(p1, quals)
        },
        PlanNode::InitResult { init, aggs, qual } => {
            let p1 = number_plans(*init, types);
            PlanNode::InitResult { init: Box::new(p1), aggs, qual }
        },
        PlanNode::ProjectSet(sub) => {
            let p1 = number_plan(*sub, types);
            PlanNode::ProjectSet(Box::new(p1))
        },
        PlanNode::Append { plans, relids, first_partial, prune_quals } => {
            let p1 = number_plans(*plans, types);
            PlanNode::Append { plans: Box::new(p1), relids, first_partial, prune_quals }
        },
        PlanNode::MergeAppend { plans, relids, columns, prune_quals } => {
            let p1 = number_plans(*plans, types);
            PlanNode::MergeAppend { plans: Box::new(p1), relids, columns, prune_quals }
        },
        PlanNode::Sort(sub, columns) => {
            let p1 = number_plan(*sub, types);
            PlanNode::Sort(Box::new(p1), columns)
        },
        PlanNode::IncrementalSort(sub, columns, presorted) => {
            let p1 = number_plan(*sub, types);
            PlanNode::IncrementalSort(Box::new(p1), columns, presorted)
        },
        PlanNode::SortByColumns(sub, columns) => {
            let p1 = match sub {
                Some(x) => {
                    let y = number_plan(*x, types);
                    Some(Box::new(y))
                },
                None => None,
            };
            PlanNode::SortByColumns(p1, columns)
        },
        PlanNode::Group(sub, columns) => {
            let p1 = number_plan(*sub, types);
            PlanNode::Group(Box::new(p1), columns)
        },
        PlanNode::Agg {
            input,
            strategy,
            split,
            columns,
            grouping_sets,
            grouping_map,
            chain,
            num_groups,
            transition_space,
        } => {
            let p1 = match input {
                Some(x) => {
                    let y = number_plan(*x, types);
                    Some(Box::new(y))
                },
                None => None,
            };
            PlanNode::Agg {
                input: p1,
                strategy,
                split,
                columns,
                grouping_sets,
                grouping_map,
                chain,
                num_groups,
                transition_space,
            }
        },
        PlanNode::WindowAgg { input, clause, partition, order, run_condition, topwindow } => {
            let p1 = number_plan(*input, types);
            PlanNode::WindowAgg {
                input: Box::new(p1),
                clause,
                partition,
                order,
                run_condition,
                topwindow,
            }
        },
        PlanNode::Unique(sub, columns) => {
            let p1 = number_plan(*sub, types);
            PlanNode::Unique(Box::new(p1), columns)
        },
        PlanNode::UniqueByColumns(sub, columns) => {
            let p1 = number_plan(*sub, types);
            PlanNode::UniqueByColumns(Box::new(p1), columns)
        },
        PlanNode::Gather { input, num_workers, single_copy, .. } => {
            let p1 = number_plan(*input, types);
            let param: usize = assign_special_exec_param(types);
            PlanNode::Gather {
                input: Box::new(p1),
                num_workers,
                single_copy,
                rescan_param: Some(param),
            }
        },
        PlanNode::GatherMerge { input, num_workers, columns, .. } => {
            let p1 = number_plan(*input, types);
            let param: usize = assign_special_exec_param(types);
            PlanNode::GatherMerge {
                input: Box::new(p1),
                num_workers,
                columns,
                rescan_param: Some(param),
            }
        },
        PlanNode::Limit { input, offset, count, with_ties, ties } => {
            let p1 = number_plan(*input, types);
            PlanNode::Limit { input: Box::new(p1), offset, count, with_ties, ties }
        },
        PlanNode::LockRows { input, marks, epq_param } => {
            let p1 = number_plan(*input, types);
            PlanNode::LockRows { input: Box::new(p1), marks, epq_param }
        },
        PlanNode::Material(sub) => {
            let p1 = number_plan(*sub, types);
            PlanNode::Material(Box::new(p1))
        },
        PlanNode::Memoize {
            input,
            hash_operators,
            collations,
            param_exprs,
            singlerow,
            binary_mode,
            est_entries,
            key_params,
        } => {
            let p1 = number_plan(*input, types);
            PlanNode::Memoize {
                input: Box::new(p1),
                hash_operators,
                collations,
                param_exprs,
                singlerow,
                binary_mode,
                est_entries,
                key_params,
            }
        },
        PlanNode::NestLoop { join, outer, inner } => {
            let p1 = number_plan(*outer, types);
            let p2 = number_plan(*inner, types);
            PlanNode::NestLoop { join, outer: Box::new(p1), inner: Box::new(p2) }
        },
        PlanNode::MergeJoin { join, clauses, keys, skip_mark_restore, outer, inner } => {
            let p1 = number_plan(*outer, types);
            let p2 = number_plan(*inner, types);
            PlanNode::MergeJoin {
                join,
                clauses,
                keys,
                skip_mark_restore,
                outer: Box::new(p1),
                inner: Box::new(p2),
            }
        },
        PlanNode::HashJoin { join, clauses, outer, inner } => {
            let p1 = number_plan(*outer, types);
            let p2 = number_plan(*inner, types);
            PlanNode::HashJoin { join, clauses, outer: Box::new(p1), inner: Box::new(p2) }
        },
        PlanNode::Hash { input, hashkeys, rows_total } => {
            let p1 = number_plan(*input, types);
            PlanNode::Hash { input: Box::new(p1), hashkeys, rows_total }
        },
        PlanNode::SetOp { left, right, command, hashed, columns, num_groups } => {
            let p1 = number_plan(*left, types);
            let p2 = number_plan(*right, types);
            PlanNode::SetOp {
                left: Box::new(p1),
                right: Box::new(p2),
                command,
                hashed,
                columns,
                num_groups,
            }
        },
        PlanNode::RecursiveUnion { left, right, wt_param, columns, num_groups } => {
            let p1 = number_plan(*left, types);
            let p2 = number_plan(*right, types);
            PlanNode::RecursiveUnion {
                left: Box::new(p1),
                right: Box::new(p2),
                wt_param,
                columns,
                num_groups,
            }
        },
        PlanNode::ModifyTable(sub, table) => {
            let p1 = number_plan(*sub, types);
            PlanNode::ModifyTable(Box::new(p1), table)
        },
        PlanNode::ForeignScan(relid, sub, scan) => {
            let p1 = match sub {
                Some(x) => {
                    let y = number_plan(*x, types);
                    Some(Box::new(y))
                },
                None => None,
            };
            PlanNode::ForeignScan(relid, p1, scan)
        },
        PlanNode::Scan(relid, source) => PlanNode::Scan(relid, source),
        PlanNode::IndexScan(relid, scan) => PlanNode::IndexScan(relid, scan),
        PlanNode::BitmapIndexScan(relid, scan) => PlanNode::BitmapIndexScan(relid, scan),
    }
}

fn number_plans(l: List<Plan>, types: &mut Vec<u32>) -> (r: List<Plan>)
    ensures
        (r, final(types)@.len()) == numbered_list(l, old(types)@.len()),
        old(types)@.len() <= final(types)@.len(),
        final(types)@ =~= grown_types(old(types)@, final(types)@.len()),
    decreases l,
{
    match l {
        List::Nil => List::Nil,
        List::Cons(x, xs) => {
            let y = number_plan(x, types);
            let ys = number_plans(*xs, types);
            List::Cons(y, Box::new(ys))
        },
    }
}

/// Gives every node that collects the rows of parallel workers a parameter of
/// its own. `types` are the types of the parameters. Also tells whether there
/// is such a node: workers are needed then.
pub fn assign_rescan_params(p: Plan, types: &mut Vec<u32>) -> (r: (Plan, bool))
    ensures
        r.0 == numbered(p, old(types)@.len()).0,
        final(types)@ =~= grown_types(old(types)@, numbered(p, old(types)@.len()).1),
        r.1 == (numbered(p, old(types)@.len()).1 > old(types)@.len()),
{
    let before: usize = types.len();
    let plan = number_plan(p, types);
    (plan, types.len() > before)
}

/// The parameters of the nodes that collect rows, in the order in which the
/// nodes are made.
pub open spec fn rescan_params(p: Plan) -> Seq<Option<usize>>
    decreases p,
{
    rescan_params_node(p.node)
}

/// The parameters of a node and of those below it.
pub open spec fn rescan_params_node(node: PlanNode) -> Seq<Option<usize>>
    decreases node,
{
    match node {
        PlanNode::BitmapHeapScan(_, _, sub) => rescan_params(*sub),
        PlanNode::BitmapAnd(plans) => rescan_params_list(*plans),
        PlanNode::BitmapOr(plans) => rescan_params_list(*plans),
        PlanNode::SubqueryScan(_, sub) => rescan_params(*sub),
        PlanNode::Result(sub, _) => rescan_params_option(sub),
        PlanNode::InitResult { init, aggs, qual } => rescan_params_list(*init),
        PlanNode::ProjectSet(sub) => rescan_params(*sub),
        PlanNode::Append {
            plans,
            relids,
            first_partial,
            prune_quals,
        } => rescan_params_list(*plans),
        PlanNode::MergeAppend { plans, relids, columns, prune_quals } => rescan_params_list(*plans),
        PlanNode::Sort(sub, _) => rescan_params(*sub),
        PlanNode::IncrementalSort(sub, _, _) => rescan_params(*sub),
        PlanNode::SortByColumns(sub, _) => rescan_params_option(sub),
        PlanNode::Group(sub, _) => rescan_params(*sub),
        PlanNode::Agg {
            input,
            strategy,
            split,
            columns,
            grouping_sets,
            grouping_map,
            chain,
            num_groups,
            transition_space,
        } => rescan_params_option(input),
        PlanNode::WindowAgg {
            input,
            clause,
            partition,
            order,
            run_condition,
            topwindow,
        } => rescan_params(*input),
        PlanNode::Unique(sub, _) => rescan_params(*sub),
        PlanNode::UniqueByColumns(sub, _) => rescan_params(*sub),
        PlanNode::Gather {
            input,
            num_workers,
            single_copy,
            rescan_param,
        } => rescan_params(*input).push(rescan_param),
        PlanNode::GatherMerge {
            input,
            num_workers,
            columns,
            rescan_param,
        } => rescan_params(*input).push(rescan_param),
        PlanNode::Limit { input, offset, count, with_ties, ties } => rescan_params(*input),
        PlanNode::LockRows { input, marks, epq_param } => rescan_params(*input),
        PlanNode::Material(sub) => rescan_params(*sub),
        PlanNode::Memoize {
            input,
            hash_operators,
            collations,
            param_exprs,
            singlerow,
            binary_mode,
            est_entries,
            key_params,
        } => rescan_params(*input),
        PlanNode::NestLoop { join, outer, inner } => rescan_params(*outer) + rescan_params(*inner),
        PlanNode::MergeJoin {
            join,
            clauses,
            keys,
            skip_mark_restore,
            outer,
            inner,
        } => rescan_params(*outer) + rescan_params(*inner),
        PlanNode::HashJoin {
            join,
            clauses,
            outer,
            inner,
        } => rescan_params(*outer) + rescan_params(*inner),
        PlanNode::Hash { input, hashkeys, rows_total } => rescan_params(*input),
        PlanNode::SetOp {
            left,
            right,
            command,
            hashed,
            columns,
            num_groups,
        } => rescan_params(*left) + rescan_params(*right),
        PlanNode::RecursiveUnion {
            left,
            right,
            wt_param,
            columns,
            num_groups,
        } => rescan_params(*left) + rescan_params(*right),
        PlanNode::ModifyTable(sub, _) => rescan_params(*sub),
        PlanNode::ForeignScan(_, sub, _) => rescan_params_option(sub),
        PlanNode::Scan(_, _) | PlanNode::IndexScan(_, _) | PlanNode::BitmapIndexScan(_, _) => {
            Seq::empty()
        },
    }
}

/// The parameters of a plan that may be there.
pub open spec fn rescan_params_option(p: Option<Box<Plan>>) -> Seq<Option<usize>>
    decreases p,
{
    match p {
        Some(x) => rescan_params(*x),
        None => Seq::empty(),
    }
}

/// The parameters of plans, in order.
pub open spec fn rescan_params_list(l: List<Plan>) -> Seq<Option<usize>>
    decreases l,
{
    match l {
        List::Nil => Seq::empty(),
        List::Cons(x, xs) => rescan_params(x) + rescan_params_list(*xs),
    }
}

/// The parameters from `from` up to `to`.
pub open spec fn counted_params(from: nat, to: nat) -> Seq<Option<usize>> {
    Seq::new((to - from) as nat, |i: int| Some((from + i) as usize))
}

proof fn lemma_counted_joined(a: nat, b: nat, c: nat)
    requires
        a <= b <= c,
    ensures
        counted_params(a, b) + counted_params(b, c) == counted_params(a, c),
{
    assert(counted_params(a, b) + counted_params(b, c) =~= counted_params(a, c));
}

proof fn lemma_counted_pushed(a: nat, b: nat)
    requires
        a <= b,
    ensures
        counted_params(a, b).push(Some(b as usize)) == counted_params(a, b + 1),
{
    assert(counted_params(a, b).push(Some(b as usize)) =~= counted_params(a, b + 1));
}

/// Every node that collects rows has a parameter of its own: they are those from
/// `next` on, one after the other, and each is taken once. What a plan returns,
/// tests and costs stays the same.
pub proof fn lemma_numbered(p: Plan, next: nat)
    ensures
        next <= numbered(p, next).1,
        rescan_params(numbered(p, next).0) == counted_params(next, numbered(p, next).1),
        numbered(p, next).0.tlist == p.tlist,
        numbered(p, next).0.qual == p.qual,
        numbered(p, next).0.costs == p.costs,
    decreases p,
{
    lemma_numbered_node(p.node, next);
}

#[verifier::rlimit(60)]
proof fn lemma_numbered_node(node: PlanNode, next: nat)
    ensures
        next <= numbered_node(node, next).1,
        rescan_params_node(numbered_node(node, next).0) == counted_params(
            next,
            numbered_node(node, next).1,
        ),
    decreases node,
{
    assert(counted_params(next, next) =~= Seq::empty());
    match node {
        PlanNode::BitmapHeapScan(_, _, sub) => {
            lemma_numbered(*sub, next);
        },
        PlanNode::BitmapAnd(plans) => {
            lemma_numbered_list(*plans, next);
        },
        PlanNode::BitmapOr(plans) => {
            lemma_numbered_list(*plans, next);
        },
        PlanNode::SubqueryScan(_, sub) => {
            lemma_numbered(*sub, next);
        },
        PlanNode::Result(sub, _) => {
            if let Some(x) = sub {
                lemma_numbered(*x, next);
            }
        },
        PlanNode::InitResult { init, aggs, qual } => {
            lemma_numbered_list(*init, next);
        },
        PlanNode::ProjectSet(sub) => {
            lemma_numbered(*sub, next);
        },
        PlanNode::Append { plans, relids, first_partial, prune_quals } => {
            lemma_numbered_list(*plans, next);
        },
        PlanNode::MergeAppend { plans, relids, columns, prune_quals } => {
            lemma_numbered_list(*plans, next);
        },
        PlanNode::Sort(sub, _) => {
            lemma_numbered(*sub, next);
        },
        PlanNode::IncrementalSort(sub, _, _) => {
            lemma_numbered(*sub, next);
        },
        PlanNode::SortByColumns(sub, _) => {
            if let Some(x) = sub {
                lemma_numbered(*x, next);
            }
        },
        PlanNode::Group(sub, _) => {
            lemma_numbered(*sub, next);
        },
        PlanNode::Agg {
            input,
            strategy,
            split,
            columns,
            grouping_sets,
            grouping_map,
            chain,
            num_groups,
            transition_space,
        } => {
            if let Some(x) = input {
                lemma_numbered(*x, next);
            }
        },
        PlanNode::WindowAgg { input, clause, partition, order, run_condition, topwindow } => {
            lemma_numbered(*input, next);
        },
        PlanNode::Unique(sub, _) => {
            lemma_numbered(*sub, next);
        },
        PlanNode::UniqueByColumns(sub, _) => {
            lemma_numbered(*sub, next);
        },
        PlanNode::Gather { input, num_workers, single_copy, rescan_param } => {
            lemma_numbered(*input, next);
            lemma_counted_pushed(next, numbered(*input, next).1);
        },
        PlanNode::GatherMerge { input, num_workers, columns, rescan_param } => {
            lemma_numbered(*input, next);
            lemma_counted_pushed(next, numbered(*input, next).1);
        },
        PlanNode::Limit { input, offset, count, with_ties, ties } => {
            lemma_numbered(*input, next);
        },
        PlanNode::LockRows { input, marks, epq_param } => {
            lemma_numbered(*input, next);
        },
        PlanNode::Material(sub) => {
            lemma_numbered(*sub, next);
        },
        PlanNode::Memoize {
            input,
            hash_operators,
            collations,
            param_exprs,
            singlerow,
            binary_mode,
            est_entries,
            key_params,
        } => {
            lemma_numbered(*input, next);
        },
        PlanNode::NestLoop { join, outer, inner } => {
            lemma_numbered(*outer, next);
            let n1 = numbered(*outer, next).1;
            lemma_numbered(*inner, n1);
            lemma_counted_joined(next, n1, numbered(*inner, n1).1);
        },
        PlanNode::MergeJoin { join, clauses, keys, skip_mark_restore, outer, inner } => {
            lemma_numbered(*outer, next);
            let n1 = numbered(*outer, next).1;
            lemma_numbered(*inner, n1);
            lemma_counted_joined(next, n1, numbered(*inner, n1).1);
        },
        PlanNode::HashJoin { join, clauses, outer, inner } => {
            lemma_numbered(*outer, next);
            let n1 = numbered(*outer, next).1;
            lemma_numbered(*inner, n1);
            lemma_counted_joined(next, n1, numbered(*inner, n1).1);
        },
        PlanNode::Hash { input, hashkeys, rows_total } => {
            lemma_numbered(*input, next);
        },
        PlanNode::SetOp { left, right, command, hashed, columns, num_groups } => {
            lemma_numbered(*left, next);
            let n1 = numbered(*left, next).1;
            lemma_numbered(*right, n1);
            lemma_counted_joined(next, n1, numbered(*right, n1).1);
        },
        PlanNode::RecursiveUnion { left, right, wt_param, columns, num_groups } => {
            lemma_numbered(*left, next);
            let n1 = numbered(*left, next).1;
            lemma_numbered(*right, n1);
            lemma_counted_joined(next, n1, numbered(*right, n1).1);
        },
        PlanNode::ModifyTable(sub, _) => {
            lemma_numbered(*sub, next);
        },
        PlanNode::ForeignScan(_, sub, _) => {
            if let Some(x) = sub {
                lemma_numbered(*x, next);
            }
        },
        PlanNode::Scan(_, _) | PlanNode::IndexScan(_, _) | PlanNode::BitmapIndexScan(_, _) => {},
    }
}

proof fn lemma_numbered_list(l: List<Plan>, next: nat)
    ensures
        next <= numbered_list(l, next).1,
        rescan_params_list(numbered_list(l, next).0) == counted_params(
            next,
            numbered_list(l, next).1,
        ),
    decreases l,
{
    assert(counted_params(next, next) =~= Seq::empty());
    if let List::Cons(x, xs) = l {
        lemma_numbered(x, next);
        let n = numbered(x, next).1;
        lemma_numbered_list(*xs, n);
        lemma_counted_joined(next, n, numbered_list(*xs, n).1);
    }
}

} // verus!

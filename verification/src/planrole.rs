//! Whether a plan is good only for the user that it was made for.
use vstd::prelude::*;
use crate::list::List;
use crate::plan::{Plan, PlanNode};

verus! {

/// Somewhere in the plan access to a foreign relation is checked for the user
/// that runs it.
pub open spec fn uses_role(p: Plan) -> bool
    decreases p,
{
    node_uses_role(p.node)
}

/// The node, or one below it, checks access for the user that runs it.
pub open spec fn node_uses_role(node: PlanNode) -> bool
    decreases node,
{
    match node {
        PlanNode::BitmapHeapScan(_, _, sub) => uses_role(*sub),
        PlanNode::BitmapAnd(plans) => list_uses_role(*plans),
        PlanNode::BitmapOr(plans) => list_uses_role(*plans),
        PlanNode::SubqueryScan(_, sub) => uses_role(*sub),
        PlanNode::Result(sub, _) => option_uses_role(sub),
        PlanNode::InitResult { init, .. } => list_uses_role(*init),
        PlanNode::ProjectSet(sub) => uses_role(*sub),
        PlanNode::Append { plans, .. } => list_uses_role(*plans),
        PlanNode::MergeAppend { plans, .. } => list_uses_role(*plans),
        PlanNode::Sort(sub, _) => uses_role(*sub),
        PlanNode::IncrementalSort(sub, _, _) => uses_role(*sub),
        PlanNode::SortByColumns(sub, _) => option_uses_role(sub),
        PlanNode::Group(sub, _) => uses_role(*sub),
        PlanNode::Agg { input, .. } => option_uses_role(input),
        PlanNode::WindowAgg { input, .. } => uses_role(*input),
        PlanNode::Unique(sub, _) => uses_role(*sub),
        PlanNode::UniqueByColumns(sub, _) => uses_role(*sub),
        PlanNode::Gather { input, .. } => uses_role(*input),
        PlanNode::GatherMerge { input, .. } => uses_role(*input),
        PlanNode::Limit { input, .. } => uses_role(*input),
        PlanNode::LockRows { input, .. } => uses_role(*input),
        PlanNode::Material(sub) => uses_role(*sub),
        PlanNode::Memoize { input, .. } => uses_role(*input),
        PlanNode::NestLoop { outer, inner, .. } => uses_role(*outer) || uses_role(*inner),
        PlanNode::MergeJoin { outer, inner, .. } => uses_role(*outer) || uses_role(*inner),
        PlanNode::HashJoin { outer, inner, .. } => uses_role(*outer) || uses_role(*inner),
        PlanNode::Hash { input, .. } => uses_role(*input),
        PlanNode::SetOp { left, right, .. } => uses_role(*left) || uses_role(*right),
        PlanNode::RecursiveUnion { left, right, .. } => uses_role(*left) || uses_role(*right),
        PlanNode::ModifyTable(sub, _) => uses_role(*sub),
        PlanNode::ForeignScan(_, sub, scan) => scan.user_is_current || option_uses_role(sub),
        PlanNode::Scan(_, _) | PlanNode::IndexScan(_, _) | PlanNode::BitmapIndexScan(_, _) => {
            false
        },
    }
}

/// A plan that may be there checks access for the user that runs it.
pub open spec fn option_uses_role(p: Option<Box<Plan>>) -> bool
    decreases p,
{
    match p {
        Some(x) => uses_role(*x),
        None => false,
    }
}

/// Some of the plans checks access for the user that runs it.
pub open spec fn list_uses_role(l: List<Plan>) -> bool
    decreases l,
{
    match l {
        List::Nil => false,
        List::Cons(x, xs) => uses_role(x) || list_uses_role(*xs),
    }
}

/// Is the plan good only for the user that it was made for?
pub fn depends_on_role(p: &Plan) -> (r: bool)
    ensures
        r == uses_role(*p),
    decreases p,
{
    check_node(&p.node)
}

fn check_node(node: &PlanNode) -> (r: bool)
    ensures
        r == node_uses_role(*node),
    decreases node,
{
    match node {
        PlanNode::BitmapHeapScan(_, _, sub) => depends_on_role(sub),
        PlanNode::BitmapAnd(plans) => check_list(plans),
        PlanNode::BitmapOr(plans) => check_list(plans),
        PlanNode::SubqueryScan(_, sub) => depends_on_role(sub),
        PlanNode::Result(sub, _) => check_option(sub),
        PlanNode::InitResult { init, .. } => check_list(init),
        PlanNode::ProjectSet(sub) => depends_on_role(sub),
        PlanNode::Append { plans, .. } => check_list(plans),
        PlanNode::MergeAppend { plans, .. } => check_list(plans),
        PlanNode::Sort(sub, _) => depends_on_role(sub),
        PlanNode::IncrementalSort(sub, _, _) => depends_on_role(sub),
        PlanNode::SortByColumns(sub, _) => check_option(sub),
        PlanNode::Group(sub, _) => depends_on_role(sub),
        PlanNode::Agg { input, .. } => check_option(input),
        PlanNode::WindowAgg { input, .. } => depends_on_role(input),
        PlanNode::Unique(sub, _) => depends_on_role(sub),
        PlanNode::UniqueByColumns(sub, _) => depends_on_role(sub),
        PlanNode::Gather { input, .. } => depends_on_role(input),
        PlanNode::GatherMerge { input, .. } => depends_on_role(input),
        PlanNode::Limit { input, .. } => depends_on_role(input),
        PlanNode::LockRows { input, .. } => depends_on_role(input),
        PlanNode::Material(sub) => depends_on_role(sub),
        PlanNode::Memoize { input, .. } => depends_on_role(input),
        PlanNode::NestLoop { outer, inner, .. } => depends_on_role(outer) || depends_on_role(inner),
        PlanNode::MergeJoin { outer, inner, .. } => {
            depends_on_role(outer) || depends_on_role(inner)
        },
        PlanNode::HashJoin { outer, inner, .. } => depends_on_role(outer) || depends_on_role(inner),
        PlanNode::Hash { input, .. } => depends_on_role(input),
        PlanNode::SetOp { left, right, .. } => depends_on_role(left) || depends_on_role(right),
        PlanNode::RecursiveUnion { left, right, .. } => {
            depends_on_role(left) || depends_on_role(right)
        },
        PlanNode::ModifyTable(sub, _) => depends_on_role(sub),
        PlanNode::ForeignScan(_, sub, scan) => scan.user_is_current || check_option(sub),
        PlanNode::Scan(_, _) | PlanNode::IndexScan(_, _) | PlanNode::BitmapIndexScan(_, _) => {
            false
        },
    }
}

fn check_option(p: &Option<Box<Plan>>) -> (r: bool)
    ensures
        r == option_uses_role(*p),
    decreases p,
{
    match p {
        Some(x) => depends_on_role(x),
        None => false,
    }
}

fn check_list(l: &List<Plan>) -> (r: bool)
    ensures
        r == list_uses_role(*l),
    decreases l,
{
    match l {
        List::Nil => false,
        List::Cons(x, xs) => depends_on_role(x) || check_list(xs),
    }
}

} // verus!

//! Plan trees.
use vstd::prelude::*;
use crate::expr::{AggSplit, Expr, TargetEntry};
use crate::groupingsets_paths::AggStrategy;
use crate::list::List;
use crate::rel::JoinType;
use crate::relids::Relids;
use crate::sortcols::{OperatorKey, SortColumn};
use crate::tlist::tlist_same_exprs;

verus! {

/// What a plan costs and how many rows it returns. Numbers that are not whole
/// are given by the bits of a floating-point number.
#[derive(Clone, Copy, Debug, PartialEq, Eq, Structural)]
pub enum Amounts {
    /// The figures of the path that the plan was made from.
    Known { startup: u64, total: u64, rows: u64 },
    /// Those of a sort of the input, of which so many rows are needed.
    Sort(Option<u64>),
    /// Those of an incremental sort of the input.
    IncrementalSort(Option<u64>),
    /// Those of keeping the input, which never spills.
    Material,
    /// Those of the input, all of it paid before the first row.
    Hash,
    /// Those of a set of row pointers: a part of the rows of the relation.
    Bitmap { startup: u64, total: u64, selectivity: u64, tuples: u64 },
    /// Those of taking one row off a path whose cost is given.
    OneRow { startup: u64, total: u64 },
}

/// The figures that every plan node carries.
#[derive(Clone, Copy, Debug, PartialEq, Eq, Structural)]
pub struct PlanCosts {
    pub disabled_nodes: i32,
    pub amounts: Amounts,
    pub width: i32,
    pub parallel_aware: bool,
    pub parallel_safe: bool,
}

/// How rows are made unique, or grouped: a column, an operator and a
/// collation.
#[derive(Clone, Copy, Debug, PartialEq, Eq, Structural)]
pub struct GroupColumn {
    pub resno: i16,
    pub operator: u32,
    pub collation: u32,
}

/// A column that the left-hand and right-hand rows of a set operation are
/// compared by.
#[derive(Clone, Copy, Debug, PartialEq, Eq, Structural)]
pub struct SetOpColumn {
    pub resno: i16,
    pub operator: u32,
    pub collation: u32,
    pub nulls_first: bool,
}

/// A column that rows are made unique by, with the operator that tests it.
#[derive(Clone, Copy, Debug, PartialEq, Eq, Structural)]
pub struct UniqueColumn {
    pub resno: i16,
    pub operator: OperatorKey,
    pub collation: u32,
}

/// One clause of a merge join.
#[derive(Clone, Copy, Debug, PartialEq, Eq, Structural)]
pub struct MergeKey {
    pub family: u32,
    pub collation: u32,
    pub reversed: bool,
    pub nulls_first: bool,
}

/// The clauses of a merge or hash join, each with the outer side on the left,
/// and their parts.
#[derive(Debug)]
pub struct JoinClauses {
    pub clauses: List<Expr>,
    pub operators: List<u32>,
    pub collations: List<u32>,
    pub outer_keys: List<Expr>,
    pub inner_keys: List<Expr>,
}

/// What a scan reads.
#[derive(Debug)]
pub enum ScanSource {
    /// A table; the columns that are read, where they are known.
    Table(Option<Relids>),
    /// A sample of a table: the sampling method, its arguments and its seed.
    Sample(u32, List<Expr>, Option<Expr>),
    /// Functions, and whether their rows are numbered.
    Function(List<Expr>, bool),
    /// A table function.
    TableFunc(Expr),
    /// Rows of expressions.
    Values(List<Expr>),
    /// The result of a subplan, and the parameter that it is found by.
    Cte(i32, i32),
    /// A named tuple store.
    NamedTuplestore(u32),
    /// The working table of a recursive query, by its parameter.
    WorkTable(i32),
    /// Rows found by the row pointers that the clauses give.
    Tid(List<Expr>),
    /// Rows found by ranges of row pointers.
    TidRange(List<Expr>),
}

/// How an index is scanned.
#[derive(Debug)]
pub struct IndexScan {
    pub indexid: u32,
    pub indexonly: bool,
    pub direction: i32,
    /// The clauses in terms of index columns.
    pub indexqual: List<Expr>,
    /// The clauses in terms of table columns.
    pub indexqualorig: List<Expr>,
    pub indexorderby: List<Expr>,
    pub indexorderbyorig: List<Expr>,
    pub indexorderbyops: List<OperatorKey>,
    pub indextlist: List<TargetEntry>,
}

/// A node of a plan.
#[allow(inconsistent_fields)]
#[derive(Debug)]
pub enum PlanNode {
    /// Rows of a relation.
    Scan(u32, ScanSource),
    IndexScan(u32, IndexScan),
    BitmapIndexScan(u32, IndexScan),
    BitmapHeapScan(u32, List<Expr>, Box<Plan>),
    BitmapAnd(Box<List<Plan>>),
    BitmapOr(Box<List<Plan>>),
    SubqueryScan(u32, Box<Plan>),
    /// A single row, if the clauses hold, or those of the input.
    Result(Option<Box<Plan>>, List<Expr>),
    /// A single row whose parameters are computed by plans of their own.
    InitResult { init: Box<List<Plan>>, aggs: List<MinMaxAgg>, qual: List<Expr> },
    ProjectSet(Box<Plan>),
    Append { plans: Box<List<Plan>>, relids: Relids, first_partial: i32, prune_quals: List<Expr> },
    MergeAppend {
        plans: Box<List<Plan>>,
        relids: Relids,
        columns: List<SortColumn>,
        prune_quals: List<Expr>,
    },
    Sort(Box<Plan>, List<SortColumn>),
    IncrementalSort(Box<Plan>, List<SortColumn>, i32),
    /// A sort by clauses rather than by a sort order; without input where only
    /// its columns are wanted.
    SortByColumns(Option<Box<Plan>>, List<SetOpColumn>),
    Group(Box<Plan>, List<GroupColumn>),
    Agg {
        input: Option<Box<Plan>>,
        strategy: AggStrategy,
        split: AggSplit,
        columns: List<GroupColumn>,
        grouping_sets: List<List<usize>>,
        /// The column of the input that each group clause of the query stands
        /// for, which GROUPING goes by; empty without grouping sets.
        grouping_map: List<(u32, i16)>,
        chain: Box<List<Plan>>,
        num_groups: u64,
        transition_space: u64,
    },
    WindowAgg {
        input: Box<Plan>,
        clause: u32,
        partition: List<GroupColumn>,
        order: List<GroupColumn>,
        run_condition: List<Expr>,
        topwindow: bool,
    },
    Unique(Box<Plan>, List<UniqueColumn>),
    UniqueByColumns(Box<Plan>, List<GroupColumn>),
    /// The rows of parallel workers; the parameter tells when they have to be
    /// read again, once it is assigned.
    Gather { input: Box<Plan>, num_workers: i32, single_copy: bool, rescan_param: Option<usize> },
    /// The rows of parallel workers, in order.
    GatherMerge {
        input: Box<Plan>,
        num_workers: i32,
        columns: List<SortColumn>,
        rescan_param: Option<usize>,
    },
    /// The columns are those by which rows are as good as the last one, where
    /// these are wanted too.
    Limit {
        input: Box<Plan>,
        offset: Option<u32>,
        count: Option<u32>,
        with_ties: bool,
        ties: List<GroupColumn>,
    },
    LockRows { input: Box<Plan>, marks: List<u32>, epq_param: i32 },
    Material(Box<Plan>),
    Memoize {
        input: Box<Plan>,
        hash_operators: List<u32>,
        collations: List<u32>,
        param_exprs: List<Expr>,
        singlerow: bool,
        binary_mode: bool,
        est_entries: u32,
        key_params: List<Expr>,
    },
    NestLoop { join: JoinFields, outer: Box<Plan>, inner: Box<Plan> },
    MergeJoin {
        join: JoinFields,
        clauses: JoinClauses,
        keys: List<MergeKey>,
        skip_mark_restore: bool,
        outer: Box<Plan>,
        inner: Box<Plan>,
    },
    HashJoin { join: JoinFields, clauses: JoinClauses, outer: Box<Plan>, inner: Box<Plan> },
    Hash { input: Box<Plan>, hashkeys: List<Expr>, rows_total: Option<u64> },
    SetOp {
        left: Box<Plan>,
        right: Box<Plan>,
        command: u32,
        hashed: bool,
        columns: List<SetOpColumn>,
        num_groups: u64,
    },
    RecursiveUnion {
        left: Box<Plan>,
        right: Box<Plan>,
        wt_param: i32,
        columns: List<GroupColumn>,
        num_groups: u64,
    },
    ModifyTable(Box<Plan>, ModifyTable),
    ForeignScan(u32, Option<Box<Plan>>, ForeignScan),
}

/// What a row is changed into when it conflicts with one that is there.
#[derive(Debug)]
pub struct OnConflict {
    pub action: u32,
    pub set: List<TargetEntry>,
    pub set_columns: List<i16>,
    pub condition: Option<Expr>,
    pub arbiters: List<u32>,
    pub excl_rel: u32,
    pub excl_tlist: List<TargetEntry>,
}

/// The statements that change tables.
#[derive(Clone, Copy, Debug, PartialEq, Eq, Structural)]
pub enum Operation {
    Insert,
    Update,
    Delete,
    Merge,
}

/// How tables are changed.
#[derive(Debug)]
pub struct ModifyTable {
    pub operation: Operation,
    pub can_set_tag: bool,
    pub nominal_relation: u32,
    pub root_relation: u32,
    pub part_cols_updated: bool,
    pub result_relations: List<i32>,
    pub update_colnos_lists: List<List<i16>>,
    pub with_check_options: List<List<Expr>>,
    pub returning_lists: List<List<Expr>>,
    /// The names that RETURNING knows old and new rows by.
    pub returning_old_alias: Option<u32>,
    pub returning_new_alias: Option<u32>,
    pub row_marks: List<u32>,
    pub epq_param: i32,
    pub on_conflict: Option<OnConflict>,
    pub merge_actions: List<List<Expr>>,
    /// For each target; one without a condition always matches.
    pub merge_conditions: List<Option<Expr>>,
}

/// An aggregate that a plan of its own has computed into a parameter, which
/// takes the place of the aggregate.
#[derive(Debug)]
pub struct MinMaxAgg {
    pub func: u32,
    pub target: Expr,
    pub param: i32,
}

/// What a foreign data wrapper makes of a scan.
#[derive(Debug)]
pub struct ForeignScan {
    pub fdw_exprs: List<Expr>,
    pub fdw_private: List<Expr>,
    pub fdw_scan_tlist: List<TargetEntry>,
    pub fdw_recheck_quals: List<Expr>,
    pub relids: Relids,
    pub base_relids: Relids,
    pub check_as_user: u32,
    /// That is the user that runs the plan, so the plan is good for no other.
    pub user_is_current: bool,
    pub server: u32,
    pub system_col: bool,
}

/// What the nodes of all joins have.
#[derive(Debug)]
pub struct JoinFields {
    pub jointype: JoinType,
    pub inner_unique: bool,
    pub joinqual: List<Expr>,
}

/// A plan.
#[derive(Debug)]
pub struct Plan {
    pub node: PlanNode,
    pub tlist: List<TargetEntry>,
    pub qual: List<Expr>,
    pub costs: PlanCosts,
}

/// The node computes its target list itself, rather than handing on the rows
/// of its input as they are.
pub open spec fn projects(node: PlanNode) -> bool {
    !(node is Hash || node is Material || node is Memoize || node is Sort || node
        is IncrementalSort || node is SortByColumns || node is Unique || node is UniqueByColumns
        || node is SetOp || node is LockRows || node is Limit || node is ModifyTable || node
        is Append || node is MergeAppend || node is RecursiveUnion || node is ProjectSet)
}

/// Does the node compute its target list itself?
pub fn is_projection_capable(node: &PlanNode) -> (r: bool)
    ensures
        r == projects(*node),
{
    match node {
        PlanNode::Hash { .. } => false,
        PlanNode::Material(..) => false,
        PlanNode::Memoize { .. } => false,
        PlanNode::Sort(..) => false,
        PlanNode::IncrementalSort(..) => false,
        PlanNode::SortByColumns(..) => false,
        PlanNode::Unique(..) => false,
        PlanNode::UniqueByColumns(..) => false,
        PlanNode::SetOp { .. } => false,
        PlanNode::LockRows { .. } => false,
        PlanNode::Limit { .. } => false,
        PlanNode::ModifyTable(..) => false,
        PlanNode::Append { .. } => false,
        PlanNode::MergeAppend { .. } => false,
        PlanNode::RecursiveUnion { .. } => false,
        PlanNode::ProjectSet(..) => false,
        _ => true,
    }
}

/// A node that computes `tlist` over the plan, at the cost of the plan.
pub open spec fn projection_over(
    plan: Plan,
    tlist: List<TargetEntry>,
    parallel_safe: bool,
) -> Plan {
    Plan {
        costs: PlanCosts { parallel_aware: false, parallel_safe, ..plan.costs },
        node: PlanNode::Result(Some(Box::new(plan)), List::Nil),
        tlist,
        qual: List::Nil,
    }
}

/// Puts a node that computes `tlist` on top of a plan.
pub fn inject_projection_plan(
    plan: Plan,
    tlist: List<TargetEntry>,
    parallel_safe: bool,
) -> (r: Plan)
    ensures
        r == projection_over(plan, tlist, parallel_safe),
{
    let costs = PlanCosts {
        disabled_nodes: plan.costs.disabled_nodes,
        amounts: plan.costs.amounts,
        width: plan.costs.width,
        parallel_aware: false,
        parallel_safe,
    };
    Plan {
        node: PlanNode::Result(Some(Box::new(plan)), List::Nil),
        tlist,
        qual: List::Nil,
        costs,
    }
}

/// The plan made to compute `tlist`: by itself where it can, or where only
/// labels change, else with a node on top.
pub open spec fn with_targetlist(
    plan: Plan,
    tlist: List<TargetEntry>,
    tlist_parallel_safe: bool,
) -> Plan {
    let safe = plan.costs.parallel_safe && tlist_parallel_safe;
    if !projects(plan.node) && !crate::tlist::same_columns(tlist@, plan.tlist@) {
        projection_over(plan, tlist, safe)
    } else {
        Plan { tlist, costs: PlanCosts { parallel_safe: safe, ..plan.costs }, ..plan }
    }
}

/// Makes a plan compute `tlist`.
pub fn change_plan_targetlist(
    plan: Plan,
    tlist: List<TargetEntry>,
    tlist_parallel_safe: bool,
) -> (r: Plan)
    ensures
        r == with_targetlist(plan, tlist, tlist_parallel_safe),
{
    let safe = plan.costs.parallel_safe && tlist_parallel_safe;
    if !is_projection_capable(&plan.node) && !tlist_same_exprs(&tlist, &plan.tlist) {
        inject_projection_plan(plan, tlist, safe)
    } else {
        let mut plan = plan;
        plan.tlist = tlist;
        plan.costs = PlanCosts {
            disabled_nodes: plan.costs.disabled_nodes,
            amounts: plan.costs.amounts,
            width: plan.costs.width,
            parallel_aware: plan.costs.parallel_aware,
            parallel_safe: safe,
        };
        plan
    }
}

/// Whatever the plan, it computes the new target list afterwards, and is no
/// more parallel-safe than before.
pub proof fn lemma_with_targetlist(plan: Plan, tlist: List<TargetEntry>, safe: bool)
    ensures
        with_targetlist(plan, tlist, safe).tlist == tlist,
        with_targetlist(plan, tlist, safe).costs.parallel_safe ==> plan.costs.parallel_safe
            && safe,
        with_targetlist(plan, tlist, safe).costs.amounts == plan.costs.amounts,
{
}

/// One more disabled node.
pub open spec fn one_more(n: i32) -> i32 {
    if n == i32::MAX {
        n
    } else {
        (n + 1) as i32
    }
}

/// Counts one more disabled node.
pub fn count_disabled(n: i32) -> (r: i32)
    ensures
        r == one_more(n),
{
    if n == i32::MAX {
        n
    } else {
        n + 1
    }
}

} // verus!

//! Paths: ways to compute a relation, out of which plans are made.
use vstd::prelude::*;
use crate::expr::{AggSplit, Expr, PathTarget, TargetEntry};
use crate::groupingsets_paths::AggStrategy;
use crate::list::List;
use crate::plan::{ForeignScan, ModifyTable};
use crate::quals::Rinfo;
use crate::rel::{JoinType, RelOptKind};
use crate::relids::Relids;
use crate::sortcols::PathKey;
use crate::sortgroup::SortGroupClause;

verus! {

/// What a parameterized path gets from outer relations.
#[derive(Debug)]
pub struct ParamInfo {
    pub req_outer: Relids,
    /// The join clauses that it can evaluate with them.
    pub clauses: List<Rinfo>,
    pub rows: u64,
    pub serials: Relids,
}

/// What every path has. Numbers that are not whole are given by the bits of a
/// floating-point number.
#[derive(Debug)]
pub struct PathInfo {
    /// The relation that the path computes, by its place among those of the
    /// query.
    pub parent: usize,
    pub relids: Relids,
    pub reloptkind: RelOptKind,
    pub disabled_nodes: i32,
    pub startup: u64,
    pub total: u64,
    pub rows: u64,
    pub parallel_aware: bool,
    pub parallel_safe: bool,
    pub target: PathTarget,
    pub pathkeys: List<PathKey>,
    pub param: Option<ParamInfo>,
}

/// What a plain scan reads.
#[derive(Debug)]
pub enum ScanKind {
    Table,
    /// The sampling method, its arguments and its seed.
    Sample(u32, List<Expr>, Option<Expr>),
    Function(List<Expr>, bool),
    TableFunc(Expr),
    Values(List<Expr>),
    /// The number of the plan and of its parameter.
    Cte(i32, i32),
    NamedTuplestore(u32),
    /// The parameter of the working table; negative where it is not known.
    WorkTable(i32),
    /// A single row without columns.
    Result,
}

/// A clause that an index scan uses.
#[derive(Debug)]
pub struct IndexClause {
    pub rinfo: Rinfo,
    /// What the index evaluates for it.
    pub indexquals: List<Rinfo>,
    /// The index may return rows for which the clause does not hold.
    pub lossy: bool,
    pub indexcol: i16,
    /// For a comparison of rows: the index columns of its members.
    pub indexcols: List<i16>,
}

/// A condition of a partial index, and whether the clauses of the scan imply
/// it.
#[derive(Debug)]
pub struct IndexPredicate {
    pub clause: Expr,
    pub implied: bool,
}

/// An index and how it is scanned.
#[derive(Debug)]
pub struct IndexPath {
    pub indexid: u32,
    pub relid: u32,
    pub indexonly: bool,
    pub direction: i32,
    /// For each column the attribute number, or 0 for an expression.
    pub keys: List<i32>,
    pub key_exprs: List<Expr>,
    pub indextlist: List<TargetEntry>,
    pub canreturn: List<bool>,
    pub clauses: List<IndexClause>,
    pub orderbys: List<Expr>,
    pub orderbycols: List<i16>,
    pub predicate: List<IndexPredicate>,
    pub selectivity: u64,
    pub indextotal: u64,
    pub tuples: u64,
}

/// A join clause that a merge or hash join uses.
#[derive(Debug)]
pub struct JoinClause {
    pub rinfo: Rinfo,
    pub right_relids: Relids,
    /// The equivalence classes of the two sides.
    pub left_ec: u32,
    pub right_ec: u32,
    /// The operator that does the same with the sides exchanged, or 0.
    pub commutator: u32,
}

/// What every join path has.
#[derive(Debug)]
pub struct JoinPath {
    pub jointype: JoinType,
    pub inner_unique: bool,
    pub restrictinfo: List<Rinfo>,
    pub outer: Box<Path>,
    pub inner: Box<Path>,
}

/// Rollups as a plan sees them.
#[derive(Debug)]
pub struct RollupPath {
    pub group_clause: List<SortGroupClause>,
    pub gsets: List<List<usize>>,
    pub is_hashed: bool,
    pub num_groups: u64,
}

/// How duplicates are removed.
#[derive(Clone, Copy, Debug, PartialEq, Eq, Structural)]
pub enum UniqueMethod {
    Noop,
    Hash,
    Sort,
}

/// An equality that duplicates are removed by.
#[derive(Clone, Copy, Debug, PartialEq, Eq, Structural)]
pub struct UniqueOperators {
    pub hash_eq: u32,
    pub sort: u32,
    pub sort_eq: u32,
}

/// The least or greatest value of a column, found by a path of its own.
#[derive(Debug)]
pub struct MinMaxPath {
    /// The aggregate, and what it is computed of.
    pub func: u32,
    pub target: Expr,
    pub root: usize,
    pub cost: u64,
    pub param: i32,
    pub offset: Option<u32>,
    pub count: Option<u32>,
}

/// What a foreign relation is known by: what is wanted of it, whom access to it
/// is checked for, whether that is the user that runs the query, and where it is.
#[derive(Debug)]
pub struct ForeignRel {
    pub target: List<Expr>,
    pub userid: u32,
    pub user_is_current: bool,
    pub serverid: u32,
}

/// The kinds of paths.
#[allow(inconsistent_fields)]
#[derive(Debug)]
pub enum PathNode {
    /// A scan of a relation with its restriction clauses.
    Scan(ScanKind, List<Rinfo>),
    /// A scan by index, with restriction clauses, of which those whose numbers
    /// are given last follow from the index clauses.
    Index(IndexPath, List<Rinfo>, List<u32>),
    BitmapHeap(Box<Path>, List<Rinfo>, List<u32>),
    BitmapAnd { quals: Box<List<Path>>, selectivity: u64, tuples: u64 },
    BitmapOr { quals: Box<List<Path>>, selectivity: u64, tuples: u64 },
    Tid(List<Rinfo>, List<Rinfo>),
    TidRange(List<Rinfo>, List<Rinfo>),
    Subquery { root: usize, subpath: Box<Path>, clauses: List<Rinfo> },
    /// A scan of a foreign table, with what its wrapper makes of it.
    Foreign {
        outer: Option<Box<Path>>,
        qual: List<Expr>,
        scan: ForeignScan,
        rel: ForeignRel,
        clauses: List<Rinfo>,
    },
    Append { subpaths: Box<List<Path>>, first_partial: i32, limit: Option<u64>, clauses: List<Rinfo> },
    MergeAppend { subpaths: Box<List<Path>>, limit: Option<u64>, clauses: List<Rinfo> },
    SetOp {
        left: Box<Path>,
        right: Box<Path>,
        command: u32,
        hashed: bool,
        group_list: List<SortGroupClause>,
        num_groups: u64,
    },
    RecursiveUnion {
        left: Box<Path>,
        right: Box<Path>,
        wt_param: i32,
        distinct_list: List<SortGroupClause>,
        num_groups: u64,
    },
    Projection(Box<Path>),
    ProjectSet(Box<Path>),
    GroupResult(List<Rinfo>),
    Group { subpath: Box<Path>, group_clause: List<SortGroupClause>, qual: List<Rinfo> },
    Agg {
        subpath: Box<Path>,
        strategy: AggStrategy,
        split: AggSplit,
        group_clause: List<SortGroupClause>,
        num_groups: u64,
        transition_space: u64,
        qual: List<Rinfo>,
    },
    MinMaxAgg { aggs: Box<List<Path>>, infos: List<MinMaxPath>, qual: List<Rinfo> },
    GroupingSets {
        subpath: Box<Path>,
        strategy: AggStrategy,
        rollups: List<RollupPath>,
        transition_space: u64,
        qual: List<Expr>,
    },
    WindowAgg {
        subpath: Box<Path>,
        clause: u32,
        partition: List<SortGroupClause>,
        order: List<SortGroupClause>,
        run_condition: List<Expr>,
        qual: List<Expr>,
        topwindow: bool,
    },
    UpperUnique { subpath: Box<Path>, numkeys: usize },
    Sort(Box<Path>),
    IncrementalSort(Box<Path>, i32),
    Material(Box<Path>),
    Memoize {
        subpath: Box<Path>,
        hash_operators: List<u32>,
        param_exprs: List<Expr>,
        singlerow: bool,
        binary_mode: bool,
        est_entries: u32,
    },
    Nest {
        join: JoinPath,
        /// The placeholders of the outer side that the inner side gets as
        /// parameters, and whether each is parallel-safe.
        params: List<Expr>,
        params_safe: List<bool>,
    },
    Merge {
        join: JoinPath,
        clauses: List<JoinClause>,
        outersortkeys: List<PathKey>,
        innersortkeys: List<PathKey>,
        skip_mark_restore: bool,
        materialize_inner: bool,
        outer_presorted: i32,
    },
    Hash {
        join: JoinPath,
        clauses: List<JoinClause>,
        many_batches: bool,
        inner_rows_total: u64,
    },
    Gather { subpath: Box<Path>, num_workers: i32, single_copy: bool },
    GatherMerge { subpath: Box<Path>, num_workers: i32 },
    Limit { subpath: Box<Path>, offset: Option<u32>, count: Option<u32>, with_ties: bool },
    LockRows { subpath: Box<Path>, marks: List<u32>, epq_param: i32 },
    Unique {
        subpath: Box<Path>,
        method: UniqueMethod,
        exprs: List<Expr>,
        operators: List<UniqueOperators>,
    },
    ModifyTable(Box<Path>, ModifyTable),
}

/// A path.
#[derive(Debug)]
pub struct Path {
    pub info: PathInfo,
    pub node: PathNode,
}

} // verus!

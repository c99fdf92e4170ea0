//! The steps of planning above scans and joins.
use vstd::prelude::*;
use crate::aggorder::{adjust_group_pathkeys_for_groupagg, longer, AggOrder};
use crate::cte::assign_special_exec_param;
use crate::error::PlannerError;
use crate::expr::{equal, expr_collation, strip_label, unlabelled, Expr};
use crate::extstats::find_length;
use crate::list::List;
use crate::plan::Operation;
use crate::rel::{other_rel, RelOptKind};
use crate::sortcols::{PathKey, SortContext};
use crate::sortgroup::SortGroupClause;

verus! {

/// A limit is given that is not the constant NULL.
pub open spec fn counts_rows(count: Option<Expr>) -> bool {
    match count {
        None => false,
        Some(Expr::Const(c)) => !c.isnull,
        Some(_) => true,
    }
}

/// An offset is given that is neither the constant NULL nor the constant 0.
pub open spec fn skips_rows(offset: Option<Expr>) -> bool {
    match offset {
        None => false,
        Some(Expr::Const(c)) => !c.isnull && c.value != 0,
        Some(_) => true,
    }
}

/// Do the limit and offset leave out any rows? The constant NULL stands for no
/// limit, and for no offset.
pub fn limit_needed(count: &Option<Expr>, offset: &Option<Expr>) -> (r: bool)
    ensures
        r == (counts_rows(*count) || skips_rows(*offset)),
{
    let counts = match count {
        None => false,
        Some(Expr::Const(c)) => !c.isnull,
        Some(_) => true,
    };
    let skips = match offset {
        None => false,
        Some(Expr::Const(c)) => !c.isnull && c.value != 0,
        Some(_) => true,
    };
    counts || skips
}

/// What is known of the value of a limit or offset.
#[derive(Clone, Copy, Debug, PartialEq, Eq, Structural)]
pub enum LimitValue {
    /// None is given.
    Absent,
    Null,
    Value(i64),
    /// It is not known before execution.
    Unknown,
}

/// The number of rows that a limit leaves: 0 for no limit, -1 where it is not
/// known. A limit of no rows counts as one. The least number stands for NULL.
pub open spec fn limit_estimate(v: LimitValue) -> int {
    match v {
        LimitValue::Absent | LimitValue::Null => 0,
        LimitValue::Value(n) => if n == i64::MIN {
            0
        } else if n <= 0 {
            1
        } else {
            n as int
        },
        LimitValue::Unknown => -1,
    }
}

/// The number of rows that an offset leaves out: -1 where it is not known. A
/// negative offset counts as none.
pub open spec fn offset_estimate(v: LimitValue) -> int {
    match v {
        LimitValue::Absent | LimitValue::Null => 0,
        LimitValue::Value(n) => if n < 0 {
            0
        } else {
            n as int
        },
        LimitValue::Unknown => -1,
    }
}

/// How many rows a query is likely to be asked for.
#[derive(Clone, Copy, Debug, PartialEq, Eq, Structural)]
pub enum RowsWanted {
    /// Nothing changes.
    AsBefore,
    /// As many as limit and offset add up to.
    UpTo(i64, i64),
    /// A part that is not known.
    SomePart,
    /// As many more as the offset leaves out.
    More(i64),
    /// A part more that is not known.
    MorePart,
}

/// Estimates what limit and offset amount to, and how many rows that makes.
/// `fraction_given` says that only a part of the rows was wanted to begin with.
pub fn preprocess_limit(count: LimitValue, offset: LimitValue, fraction_given: bool) -> (r: (
    i64,
    i64,
    RowsWanted,
))
    ensures
        r.0 == limit_estimate(count),
        r.1 == offset_estimate(offset),
        r.2 == if r.0 != 0 {
            if r.0 < 0 || r.1 < 0 {
                RowsWanted::SomePart
            } else {
                RowsWanted::UpTo(r.0, r.1)
            }
        } else if r.1 != 0 && fraction_given {
            if r.1 < 0 {
                RowsWanted::MorePart
            } else {
                RowsWanted::More(r.1)
            }
        } else {
            RowsWanted::AsBefore
        },
{
    let count_est: i64 = match count {
        LimitValue::Absent => 0,
        LimitValue::Null => 0,
        LimitValue::Value(n) => if n == i64::MIN {
            0
        } else if n <= 0 {
            1
        } else {
            n
        },
        LimitValue::Unknown => -1,
    };
    let offset_est: i64 = match offset {
        LimitValue::Absent => 0,
        LimitValue::Null => 0,
        LimitValue::Value(n) => if n < 0 {
            0
        } else {
            n
        },
        LimitValue::Unknown => -1,
    };
    let wanted = if count_est != 0 {
        if count_est < 0 || offset_est < 0 {
            RowsWanted::SomePart
        } else {
            RowsWanted::UpTo(count_est, offset_est)
        }
    } else if offset_est != 0 && fraction_given {
        if offset_est < 0 {
            RowsWanted::MorePart
        } else {
            RowsWanted::More(offset_est)
        }
    } else {
        RowsWanted::AsBefore
    };
    (count_est, offset_est, wanted)
}

/// The rows that a sort need not go beyond, where limit and offset are known.
pub fn limit_tuples(count_est: i64, offset_est: i64) -> (r: Option<(i64, i64)>)
    ensures
        r == if count_est > 0 && offset_est >= 0 {
            Some((count_est, offset_est))
        } else {
            None
        },
{
    if count_est > 0 && offset_est >= 0 {
        Some((count_est, offset_est))
    } else {
        None
    }
}

/// Every clause can be sorted by.
pub open spec fn all_sortable(clauses: List<SortGroupClause>) -> bool {
    forall|i: int| 0 <= i < clauses@.len() ==> (#[trigger] clauses@[i]).sortop != 0
}

/// Every clause can be hashed.
pub open spec fn all_hashable(clauses: List<SortGroupClause>) -> bool {
    forall|i: int| 0 <= i < clauses@.len() ==> (#[trigger] clauses@[i]).hashable
}

/// Can every clause be sorted by?
pub fn grouping_is_sortable(clauses: &List<SortGroupClause>) -> (r: bool)
    ensures
        r == all_sortable(*clauses),
    decreases clauses,
{
    match clauses {
        List::Nil => true,
        List::Cons(c, cs) => {
            let rest = grouping_is_sortable(cs);
            proof {
                assert(clauses@[0] == *c);
                assert(forall|i: int| 0 <= i < cs@.len() ==> clauses@[i + 1] == #[trigger] cs@[i]);
                assert(forall|i: int|
                    0 < i < clauses@.len() ==> #[trigger] clauses@[i] == cs@[i - 1]);
            }
            c.sortop != 0 && rest
        },
    }
}

/// Can every clause be hashed?
pub fn grouping_is_hashable(clauses: &List<SortGroupClause>) -> (r: bool)
    ensures
        r == all_hashable(*clauses),
    decreases clauses,
{
    match clauses {
        List::Nil => true,
        List::Cons(c, cs) => {
            let rest = grouping_is_hashable(cs);
            proof {
                assert(clauses@[0] == *c);
                assert(forall|i: int| 0 <= i < cs@.len() ==> clauses@[i + 1] == #[trigger] cs@[i]);
                assert(forall|i: int|
                    0 < i < clauses@.len() ==> #[trigger] clauses@[i] == cs@[i - 1]);
            }
            c.hashable && rest
        },
    }
}

/// What is known of a query before it is planned.
#[derive(Debug)]
pub struct QueryFacts {
    pub set_operation: bool,
    pub has_aggs: bool,
    pub has_groups: bool,
    /// How many grouping sets there are.
    pub grouping_sets: usize,
    pub has_window_funcs: bool,
    /// Some window function is still there.
    pub active_windows: bool,
    pub has_target_srfs: bool,
    /// The HAVING clause is there still: parts of it may have been moved.
    pub has_having_clause: bool,
    /// There was a HAVING clause.
    pub has_having: bool,
    pub has_distinct: bool,
    pub has_sort: bool,
    /// Some aggregate cannot be computed in parts.
    pub non_partial_aggs: bool,
    /// The states of some aggregate cannot be written out.
    pub non_serial_aggs: bool,
    /// How many aggregates want their input in an order.
    pub ordered_aggs: usize,
}

/// Aggregates can be computed in parts.
pub open spec fn aggregates_in_parts(q: QueryFacts) -> bool {
    &&& q.has_aggs || q.has_groups
    &&& q.grouping_sets == 0
    &&& !q.non_partial_aggs
    &&& !q.non_serial_aggs
}

/// Can aggregates be computed in parts? There has to be something to
/// aggregate, no grouping sets, and every aggregate must allow it.
pub fn can_partial_agg(q: &QueryFacts) -> (r: bool)
    ensures
        r == aggregates_in_parts(*q),
{
    if !q.has_aggs && !q.has_groups {
        false
    } else if q.grouping_sets > 0 {
        false
    } else {
        !(q.non_partial_aggs || q.non_serial_aggs)
    }
}

/// How the number of groups is estimated.
#[derive(Clone, Copy, Debug, PartialEq, Eq, Structural)]
pub enum GroupEstimate {
    /// For each grouping set, and added up.
    EachSet,
    /// By what is grouped by.
    Clauses,
    /// It is known.
    Exactly(usize),
}

/// Decides how the number of groups is estimated.
pub fn get_number_of_groups(q: &QueryFacts) -> (r: GroupEstimate)
    ensures
        r == if q.has_groups {
            if q.grouping_sets > 0 {
                GroupEstimate::EachSet
            } else {
                GroupEstimate::Clauses
            }
        } else if q.grouping_sets > 0 {
            GroupEstimate::Exactly(q.grouping_sets)
        } else {
            GroupEstimate::Exactly(1)
        },
{
    if q.has_groups {
        if q.grouping_sets > 0 {
            return GroupEstimate::EachSet;
        }
        return GroupEstimate::Clauses;
    }
    if q.grouping_sets > 0 {
        return GroupEstimate::Exactly(q.grouping_sets);
    }
    GroupEstimate::Exactly(1)
}

/// Can a grouped relation be computed in parallel, and is it one of those that
/// stand for partitions?
pub fn make_grouping_rel(
    input_kind: RelOptKind,
    input_parallel: bool,
    target_parallel_safe: bool,
    having_parallel_safe: bool,
) -> (r: (RelOptKind, bool))
    ensures
        r.0 == if crate::rel::is_other_rel(input_kind) {
            RelOptKind::OtherUpperRel
        } else {
            RelOptKind::UpperRel
        },
        r.1 == (input_parallel && target_parallel_safe && having_parallel_safe),
{
    let kind = if other_rel(input_kind) {
        RelOptKind::OtherUpperRel
    } else {
        RelOptKind::UpperRel
    };
    (kind, input_parallel && target_parallel_safe && having_parallel_safe)
}

/// How the partitions of a relation are aggregated.
#[derive(Clone, Copy, Debug, PartialEq, Eq, Structural)]
pub enum Partitionwise {
    /// Each partition on its own and in full.
    Full,
    /// Each partition in part.
    Partial,
    Off,
}

/// How a query is grouped.
#[derive(Clone, Copy, Debug, PartialEq, Eq, Structural)]
pub enum GroupingWay {
    /// Nothing is aggregated: there are so many rows, if HAVING holds.
    Degenerate(usize),
    Ordinary {
        can_sort: bool,
        can_hash: bool,
        can_partial_agg: bool,
        partitionwise: Partitionwise,
    },
}

/// The grouping has neither aggregates nor groups.
pub open spec fn is_degenerate(q: QueryFacts) -> bool {
    (q.has_having || q.grouping_sets > 0) && !q.has_aggs && !q.has_groups
}

/// How a query is grouped. For grouping sets, `sets` says whether there are
/// rollups and whether any set can be hashed.
pub open spec fn grouping_way(
    q: QueryFacts,
    clauses: List<SortGroupClause>,
    sets: Option<(bool, bool)>,
    enable_partitionwise: bool,
) -> GroupingWay {
    if is_degenerate(q) {
        GroupingWay::Degenerate(
            if q.grouping_sets > 1 {
                q.grouping_sets
            } else {
                1
            },
        )
    } else {
        GroupingWay::Ordinary {
            can_sort: (sets matches Some(s) && s.0) || all_sortable(clauses),
            can_hash: q.has_groups && q.ordered_aggs == 0 && match sets {
                Some(s) => s.1,
                None => all_hashable(clauses),
            },
            can_partial_agg: aggregates_in_parts(q),
            partitionwise: if enable_partitionwise && q.grouping_sets == 0 {
                Partitionwise::Full
            } else {
                Partitionwise::Off
            },
        }
    }
}

/// Decides how a query is grouped.
pub fn create_grouping_paths(
    q: &QueryFacts,
    clauses: &List<SortGroupClause>,
    sets: Option<(bool, bool)>,
    enable_partitionwise: bool,
) -> (r: GroupingWay)
    ensures
        r == grouping_way(*q, *clauses, sets, enable_partitionwise),
{
    if (q.has_having || q.grouping_sets > 0) && !q.has_aggs && !q.has_groups {
        let rows: usize = if q.grouping_sets > 1 {
            q.grouping_sets
        } else {
            1
        };
        return GroupingWay::Degenerate(rows);
    }
    let rollups = match sets {
        Some(s) => s.0,
        None => false,
    };
    let can_sort = rollups || grouping_is_sortable(clauses);
    let hashable = match sets {
        Some(s) => s.1,
        None => grouping_is_hashable(clauses),
    };
    let can_hash = q.has_groups && q.ordered_aggs == 0 && hashable;
    let partitionwise = if enable_partitionwise && q.grouping_sets == 0 {
        Partitionwise::Full
    } else {
        Partitionwise::Off
    };
    GroupingWay::Ordinary {
        can_sort,
        can_hash,
        can_partial_agg: can_partial_agg(q),
        partitionwise,
    }
}

/// How the partitions of a relation are aggregated. Where the groups do not
/// lie inside partitions, they are aggregated in part if that can be done.
pub open spec fn partitionwise_way(
    asked: Partitionwise,
    partitioned: bool,
    groups_in_partitions: bool,
    can_partial_agg: bool,
) -> Partitionwise {
    if asked == Partitionwise::Off || !partitioned {
        Partitionwise::Off
    } else if asked == Partitionwise::Full && groups_in_partitions {
        Partitionwise::Full
    } else if can_partial_agg {
        Partitionwise::Partial
    } else {
        Partitionwise::Off
    }
}

/// Decides how the partitions of a relation are aggregated.
pub fn choose_partitionwise(
    asked: Partitionwise,
    partitioned: bool,
    groups_in_partitions: bool,
    can_partial_agg: bool,
) -> (r: Partitionwise)
    ensures
        r == partitionwise_way(asked, partitioned, groups_in_partitions, can_partial_agg),
{
    if asked == Partitionwise::Off || !partitioned {
        return Partitionwise::Off;
    }
    if asked == Partitionwise::Full && groups_in_partitions {
        Partitionwise::Full
    } else if can_partial_agg {
        Partitionwise::Partial
    } else {
        Partitionwise::Off
    }
}

/// How far an ordinary grouping has come.
#[derive(Clone, Copy, Debug, PartialEq, Eq, Structural)]
pub enum GroupingState {
    Start,
    /// Whether there is a relation for what is aggregated in part.
    PartialDone(bool),
    /// Whether there is such a relation, whether it has paths, and whether it
    /// has parallel paths.
    PartitionsDone(bool, bool, bool),
    GatherDone,
    /// Whether there are any paths.
    PathsAdded(bool),
    Finished,
}

/// What an ordinary grouping does next.
#[derive(Clone, Copy, Debug, PartialEq, Eq, Structural)]
pub enum GroupingAction {
    /// Build the paths that aggregate in part; the relation for them is needed
    /// in any case where that is set.
    PartialPaths(bool),
    /// Nothing is aggregated in part.
    NoPartialPaths,
    /// Aggregate the partitions.
    Partitions(Partitionwise),
    NoPartitions,
    /// Leave the rest to the parent, after choosing the cheapest path.
    LeaveToParent(bool),
    /// Gather the parallel paths, and choose the cheapest path.
    Gather,
    /// Build the paths that aggregate in full.
    AddPaths,
    Done,
    Fail(PlannerError),
}

/// What an ordinary grouping does next. `parent` is what the parent does, if
/// the relation is a partition; `own` what is done with its own partitions.
pub open spec fn grouping_action(
    state: GroupingState,
    parent: Partitionwise,
    own: Partitionwise,
    can_partial_agg: bool,
) -> GroupingAction {
    match state {
        GroupingState::Start => if can_partial_agg {
            GroupingAction::PartialPaths(own == Partitionwise::Partial)
        } else {
            GroupingAction::NoPartialPaths
        },
        GroupingState::PartialDone(_) => if own != Partitionwise::Off {
            GroupingAction::Partitions(own)
        } else {
            GroupingAction::NoPartitions
        },
        GroupingState::PartitionsDone(exists, has_paths, has_parallel) => if parent
            == Partitionwise::Partial {
            GroupingAction::LeaveToParent(exists && has_paths)
        } else if exists && has_parallel {
            GroupingAction::Gather
        } else {
            GroupingAction::AddPaths
        },
        GroupingState::GatherDone => GroupingAction::AddPaths,
        GroupingState::PathsAdded(any) => if any {
            GroupingAction::Done
        } else {
            GroupingAction::Fail(PlannerError::CouldNotImplementGroupBy)
        },
        GroupingState::Finished => GroupingAction::Done,
    }
}

/// Decides what an ordinary grouping does next.
pub fn create_ordinary_grouping_paths(
    state: GroupingState,
    parent: Partitionwise,
    own: Partitionwise,
    can_partial_agg: bool,
) -> (r: GroupingAction)
    ensures
        r == grouping_action(state, parent, own, can_partial_agg),
{
    match state {
        GroupingState::Start => if can_partial_agg {
            GroupingAction::PartialPaths(own == Partitionwise::Partial)
        } else {
            GroupingAction::NoPartialPaths
        },
        GroupingState::PartialDone(_) => if own != Partitionwise::Off {
            GroupingAction::Partitions(own)
        } else {
            GroupingAction::NoPartitions
        },
        GroupingState::PartitionsDone(exists, has_paths, has_parallel) => {
            if parent == Partitionwise::Partial {
                GroupingAction::LeaveToParent(exists && has_paths)
            } else if exists && has_parallel {
                GroupingAction::Gather
            } else {
                GroupingAction::AddPaths
            }
        },
        GroupingState::GatherDone => GroupingAction::AddPaths,
        GroupingState::PathsAdded(any) => if any {
            GroupingAction::Done
        } else {
            GroupingAction::Fail(PlannerError::CouldNotImplementGroupBy)
        },
        GroupingState::Finished => GroupingAction::Done,
    }
}

/// A partition that has been grouped on its own.
#[derive(Clone, Copy, Debug, PartialEq, Eq, Structural)]
pub struct GroupedPartition {
    /// It has no rows, so it was left out.
    pub dummy: bool,
    pub grouped: usize,
    /// The relation for what was aggregated in part, if there is one.
    pub partial: Option<usize>,
}

/// The partitions aggregated in full.
pub open spec fn grouped_partitions(parts: List<GroupedPartition>) -> List<usize>
    decreases parts,
{
    match parts {
        List::Nil => List::Nil,
        List::Cons(p, ps) => if p.dummy {
            grouped_partitions(*ps)
        } else {
            List::Cons(p.grouped, Box::new(grouped_partitions(*ps)))
        },
    }
}

/// The partitions aggregated in part; none where one of them is not.
pub open spec fn partial_partitions(parts: List<GroupedPartition>) -> Option<List<usize>>
    decreases parts,
{
    match parts {
        List::Nil => Some(List::Nil),
        List::Cons(p, ps) => if p.dummy {
            partial_partitions(*ps)
        } else {
            match (p.partial, partial_partitions(*ps)) {
                (Some(x), Some(rest)) => Some(List::Cons(x, Box::new(rest))),
                _ => None,
            }
        },
    }
}

fn collect_partitions(parts: &List<GroupedPartition>) -> (r: (List<usize>, Option<List<usize>>))
    ensures
        r.0 == grouped_partitions(*parts),
        r.1 == partial_partitions(*parts),
    decreases parts,
{
    match parts {
        List::Nil => (List::Nil, Some(List::Nil)),
        List::Cons(p, ps) => {
            let (full, partial) = collect_partitions(ps);
            if p.dummy {
                return (full, partial);
            }
            let partial = match p.partial {
                None => None,
                Some(x) => match partial {
                    None => None,
                    Some(rest) => Some(List::Cons(x, Box::new(rest))),
                },
            };
            (List::Cons(p.grouped, Box::new(full)), partial)
        },
    }
}

/// What is put together out of partitions: those aggregated in part, where
/// every one of them is, and those aggregated in full.
pub open spec fn appended_partitions(
    parts: List<GroupedPartition>,
    way: Partitionwise,
    partial_rel: bool,
) -> Result<(Option<List<usize>>, Option<List<usize>>), PlannerError> {
    let partial = if partial_rel {
        partial_partitions(parts)
    } else {
        None
    };
    if grouped_partitions(parts) is Nil && (partial_rel || way == Partitionwise::Full) {
        Err(PlannerError::NoLivePartition)
    } else {
        Ok(
            (
                partial,
                if way == Partitionwise::Full {
                    Some(grouped_partitions(parts))
                } else {
                    None
                },
            ),
        )
    }
}

/// Decides which partitions are put together.
pub fn create_partitionwise_grouping_paths(
    parts: &List<GroupedPartition>,
    way: Partitionwise,
    partial_rel: bool,
) -> (r: Result<(Option<List<usize>>, Option<List<usize>>), PlannerError>)
    ensures
        r == appended_partitions(*parts, way, partial_rel),
{
    let (full, partial) = collect_partitions(parts);
    if full.is_nil() && (partial_rel || way == Partitionwise::Full) {
        return Err(PlannerError::NoLivePartition);
    }
    let first = if partial_rel {
        partial
    } else {
        None
    };
    let second = if way == Partitionwise::Full {
        Some(full)
    } else {
        None
    };
    Ok((first, second))
}

/// Partitions aggregated in part are put together only if all of them are:
/// no rows are lost.
pub proof fn lemma_all_partitions(parts: List<GroupedPartition>)
    ensures
        partial_partitions(parts) matches Some(l) ==> l@.len() == grouped_partitions(parts)@.len(),
    decreases parts,
{
    if let List::Cons(_, ps) = parts {
        lemma_all_partitions(*ps);
    }
}

/// A column that a relation is partitioned by: expressions that are equal to
/// it, and its collation.
#[derive(Debug)]
pub struct PartitionKey {
    pub exprs: List<Expr>,
    pub collation: u32,
}

/// The first expression that is grouped by and equals the key: whether its
/// collation agrees.
pub open spec fn grouped_by(groups: List<Expr>, key: Expr, collation: u32) -> Option<bool>
    decreases groups,
{
    match groups {
        List::Nil => None,
        List::Cons(g, gs) => if crate::expr::same_expr(unlabelled(g), key) {
            let c = crate::expr::collation_of(g);
            Some(collation == 0 || c == 0 || collation == c)
        } else {
            grouped_by(*gs, key, collation)
        },
    }
}

fn find_grouped_by(groups: &List<Expr>, key: &Expr, collation: u32) -> (r: Option<bool>)
    ensures
        r == grouped_by(*groups, *key, collation),
    decreases groups,
{
    match groups {
        List::Nil => None,
        List::Cons(g, gs) => {
            if equal(strip_label(g), key) {
                let c: u32 = expr_collation(g);
                Some(collation == 0 || c == 0 || collation == c)
            } else {
                find_grouped_by(gs, key, collation)
            }
        },
    }
}

/// The first of the expressions of a key that is grouped by: whether its
/// collation agrees.
pub open spec fn key_grouped(groups: List<Expr>, exprs: List<Expr>, collation: u32) -> Option<bool>
    decreases exprs,
{
    match exprs {
        List::Nil => None,
        List::Cons(x, xs) => match grouped_by(groups, x, collation) {
            Some(b) => Some(b),
            None => key_grouped(groups, *xs, collation),
        },
    }
}

fn find_key_grouped(groups: &List<Expr>, exprs: &List<Expr>, collation: u32) -> (r: Option<bool>)
    ensures
        r == key_grouped(*groups, *exprs, collation),
    decreases exprs,
{
    match exprs {
        List::Nil => None,
        List::Cons(x, xs) => match find_grouped_by(groups, x, collation) {
            Some(b) => Some(b),
            None => find_key_grouped(groups, xs, collation),
        },
    }
}

/// Every column that a relation is partitioned by is grouped by, under a
/// collation that agrees.
pub open spec fn keys_grouped(groups: List<Expr>, keys: List<PartitionKey>) -> bool
    decreases keys,
{
    match keys {
        List::Nil => true,
        List::Cons(k, ks) => key_grouped(groups, k.exprs, k.collation) == Some(true)
            && keys_grouped(groups, *ks),
    }
}

/// Does every group lie inside one partition? `known` says that the columns
/// that the relation is partitioned by are known.
pub fn group_by_has_partkey(groups: &List<Expr>, keys: &List<PartitionKey>, known: bool) -> (r:
    bool)
    ensures
        r == (known && keys_grouped(*groups, *keys)),
    decreases keys,
{
    if !known {
        return false;
    }
    match keys {
        List::Nil => true,
        List::Cons(k, ks) => match find_key_grouped(groups, &k.exprs, k.collation) {
            Some(agrees) => agrees && group_by_has_partkey(groups, ks, known),
            None => false,
        },
    }
}

/// Some key of the order depends on a volatile function.
pub open spec fn volatile_order(ctx: SortContext, keys: List<PathKey>) -> bool
    decreases keys,
{
    match keys {
        List::Nil => false,
        List::Cons(k, ks) => (k.eclass < ctx.classes@.len()
            && ctx.classes@[k.eclass as int].has_volatile) || volatile_order(ctx, *ks),
    }
}

/// Does some key of the order depend on a volatile function?
pub fn has_volatile_pathkey(ctx: &SortContext, keys: &List<PathKey>) -> (r: bool)
    ensures
        r == volatile_order(*ctx, *keys),
    decreases keys,
{
    match keys {
        List::Nil => false,
        List::Cons(k, ks) => {
            let class: usize = k.eclass as usize;
            let here = class < ctx.classes.len() && ctx.classes[class].has_volatile;
            here || has_volatile_pathkey(ctx, ks)
        },
    }
}

/// The orders that the steps above scans and joins want.
#[derive(Debug)]
pub struct UpperKeys {
    pub group: List<PathKey>,
    pub window: List<PathKey>,
    pub distinct: List<PathKey>,
    pub sort: List<PathKey>,
    pub setop: List<PathKey>,
}

/// The order that is wanted of scans and joins: that of the first step above
/// them that wants one. DISTINCT comes before ORDER BY only if it asks for
/// more.
pub open spec fn query_keys(k: UpperKeys) -> List<PathKey> {
    if !(k.group is Nil) {
        k.group
    } else if !(k.window is Nil) {
        k.window
    } else if crate::aggorder::is_longer(k.distinct, k.sort) {
        k.distinct
    } else if !(k.sort is Nil) {
        k.sort
    } else {
        k.setop
    }
}

fn choose_query_keys(k: &UpperKeys) -> (r: List<PathKey>)
    ensures
        r == query_keys(*k),
{
    if !k.group.is_nil() {
        k.group.copy()
    } else if !k.window.is_nil() {
        k.window.copy()
    } else if longer(&k.distinct, &k.sort) {
        k.distinct.copy()
    } else if !k.sort.is_nil() {
        k.sort.copy()
    } else {
        k.setop.copy()
    }
}

/// An order made out of clauses, whether all of them can be sorted, and which
/// clauses are left once those are dropped that add nothing to the order.
#[derive(Debug)]
pub struct SortAttempt {
    pub keys: List<PathKey>,
    pub sortable: bool,
    pub clauses: List<SortGroupClause>,
}

/// The clauses of a rollup, and the order made out of them.
#[derive(Debug)]
pub struct RollupOrder {
    pub clauses: List<SortGroupClause>,
    pub keys: List<PathKey>,
}

/// The order of a rollup, where its clauses can be sorted.
pub open spec fn rollup_keys(r: RollupOrder) -> List<PathKey> {
    if all_sortable(r.clauses) {
        r.keys
    } else {
        List::Nil
    }
}

/// The order, where the clauses can be sorted.
pub open spec fn attempted(a: Option<SortAttempt>) -> List<PathKey> {
    match a {
        Some(x) if x.sortable => x.keys,
        _ => List::Nil,
    }
}

fn take_attempt(a: Option<SortAttempt>) -> (r: List<PathKey>)
    ensures
        r == attempted(a),
{
    match a {
        Some(x) => if x.sortable {
            x.keys
        } else {
            List::Nil
        },
        None => List::Nil,
    }
}

/// The orders that the clauses of a query lead to. What a query does not have
/// is not there.
#[derive(Debug)]
pub struct OrderInputs {
    /// For grouping sets, the order of the first rollup.
    pub rollup: Option<RollupOrder>,
    /// The order of GROUP BY, where redundant clauses are dropped.
    pub group: Option<SortAttempt>,
    /// The aggregates, which may want an order of their own after that.
    pub aggs: List<AggOrder>,
    pub enable_presorted_aggregate: bool,
    pub window: List<PathKey>,
    pub distinct: Option<SortAttempt>,
    pub sort: List<PathKey>,
    pub setop: Option<SortAttempt>,
}

/// The orders that a query wants: those of its steps, how much of that of the
/// grouping is for GROUP BY itself, the aggregates that need not sort on their
/// own, and what is wanted of scans and joins.
#[derive(Debug)]
pub struct QueryOrders {
    pub keys: UpperKeys,
    pub num_groupby_pathkeys: usize,
    pub presorted: List<u32>,
    pub query: List<PathKey>,
    /// The clauses of GROUP BY and of DISTINCT from now on, where they change.
    pub group_clauses: Option<List<SortGroupClause>>,
    pub distinct_clauses: Option<List<SortGroupClause>>,
}

/// The order that a grouping wants: for grouping sets that of the first rollup,
/// else that of GROUP BY, to which ordered aggregates may add. There is none
/// where the clauses cannot be sorted.
pub open spec fn grouping_keys(q: QueryFacts, o: OrderInputs) -> List<PathKey> {
    match o.rollup {
        Some(r) => rollup_keys(r),
        None => match o.group {
            Some(g) if g.sortable && (q.has_groups || q.ordered_aggs > 0) => if q.ordered_aggs > 0 {
                crate::aggorder::group_order(g.keys, o.aggs, o.enable_presorted_aggregate)
            } else {
                g.keys
            },
            _ => List::Nil,
        },
    }
}

/// How much of the order of a grouping is for GROUP BY itself.
pub open spec fn groupby_keys(q: QueryFacts, o: OrderInputs) -> usize {
    match o.rollup {
        Some(r) => crate::extstats::length(rollup_keys(r)),
        None => if q.has_groups || q.ordered_aggs > 0 {
            crate::extstats::length(attempted(o.group))
        } else {
            0
        },
    }
}

/// The aggregates that need not sort on their own.
pub open spec fn presorted_aggs(q: QueryFacts, o: OrderInputs) -> List<u32> {
    match (o.rollup, o.group) {
        (None, Some(g)) if g.sortable && q.ordered_aggs > 0 => crate::aggorder::presorted(
            o.aggs,
            o.enable_presorted_aggregate,
        ),
        _ => List::Nil,
    }
}

/// The clauses of GROUP BY, where an order has been made out of them.
pub open spec fn group_clauses_left(q: QueryFacts, o: OrderInputs) -> Option<
    List<SortGroupClause>,
> {
    match (o.rollup, o.group) {
        (None, Some(g)) if q.has_groups || q.ordered_aggs > 0 => Some(g.clauses),
        _ => None,
    }
}

/// The clauses of DISTINCT, where an order has been made out of them.
pub open spec fn distinct_clauses_left(o: OrderInputs) -> Option<List<SortGroupClause>> {
    match o.distinct {
        Some(d) => Some(d.clauses),
        None => None,
    }
}

/// Chooses the orders that a query wants, and the one that is wanted of its
/// scans and joins. Also tells which clauses of GROUP BY and of DISTINCT count
/// from then on.
pub fn standard_qp_callback(q: &QueryFacts, o: OrderInputs) -> (r: QueryOrders)
    ensures
        r.keys == (UpperKeys {
            group: grouping_keys(*q, o),
            window: o.window,
            distinct: attempted(o.distinct),
            sort: o.sort,
            setop: attempted(o.setop),
        }),
        r.num_groupby_pathkeys == groupby_keys(*q, o),
        r.presorted == presorted_aggs(*q, o),
        r.query == query_keys(r.keys),
        r.group_clauses == group_clauses_left(*q, o),
        r.distinct_clauses == distinct_clauses_left(o),
{
    let (group, n, presorted, group_clauses) = match o.rollup {
        Some(r) => {
            let keys = if grouping_is_sortable(&r.clauses) {
                r.keys
            } else {
                List::Nil
            };
            let n: usize = find_length(&keys);
            (keys, n, List::Nil, None)
        },
        None => match o.group {
            Some(g) => if !(q.has_groups || q.ordered_aggs > 0) {
                (List::Nil, 0, List::Nil, None)
            } else if g.sortable {
                let n: usize = find_length(&g.keys);
                if q.ordered_aggs > 0 {
                    let (keys, presorted) = adjust_group_pathkeys_for_groupagg(
                        g.keys,
                        o.aggs,
                        o.enable_presorted_aggregate,
                    );
                    (keys, n, presorted, Some(g.clauses))
                } else {
                    (g.keys, n, List::Nil, Some(g.clauses))
                }
            } else {
                (List::Nil, 0, List::Nil, Some(g.clauses))
            },
            None => (List::Nil, 0, List::Nil, None),
        },
    };
    let (distinct, distinct_clauses) = match o.distinct {
        Some(d) => {
            let keys = if d.sortable {
                d.keys
            } else {
                List::Nil
            };
            (keys, Some(d.clauses))
        },
        None => (List::Nil, None),
    };
    let keys = UpperKeys {
        group,
        window: o.window,
        distinct,
        sort: o.sort,
        setop: take_attempt(o.setop),
    };
    let query = choose_query_keys(&keys);
    QueryOrders {
        keys,
        num_groupby_pathkeys: n,
        presorted,
        query,
        group_clauses,
        distinct_clauses,
    }
}

/// What is done to the paths of a relation to make them compute a target.
#[derive(Clone, Copy, Debug, PartialEq, Eq, Structural)]
pub enum TargetAction {
    DropPaths,
    /// Gather the parallel paths as they are, then do without them and consider
    /// none from here on: workers cannot compute the target.
    GatherAndDropParallel,
    DropParallelPaths,
    /// Label the columns, which are the right ones, as this target does.
    Relabel(u32),
    /// Put a projection to this target on every path.
    Project(u32),
    /// Compute the set-returning functions, one target after the other.
    AdjustSetReturning,
    /// Let this be the target of the relation itself.
    SetTarget(u32),
    /// Do the same for the partitions, and put the paths of those together that
    /// are live then.
    Partitions,
    Gather,
    SetCheapest,
}

/// A list of one action, or of none.
pub open spec fn action_if(b: bool, a: TargetAction) -> List<TargetAction> {
    if b {
        List::Cons(a, Box::new(List::Nil))
    } else {
        List::Nil
    }
}

fn list_action_if(b: bool, a: TargetAction) -> (r: List<TargetAction>)
    ensures
        r == action_if(b, a),
{
    if b {
        List::one(a)
    } else {
        List::Nil
    }
}

/// What is done to the paths of a relation to make them compute a target. The
/// target is split at its set-returning functions: the paths are made to compute
/// the first part, and in the end the relation computes the last one.
pub open spec fn target_actions(
    targets: Seq<u32>,
    partitioned: bool,
    target_parallel_safe: bool,
    same_exprs: bool,
    consider_parallel: bool,
    other_rel: bool,
) -> List<TargetAction> {
    action_if(partitioned, TargetAction::DropPaths).then_list(
        action_if(!target_parallel_safe, TargetAction::GatherAndDropParallel).then_list(
            action_if(partitioned, TargetAction::DropParallelPaths).then_list(
                List::Cons(
                    if same_exprs {
                        TargetAction::Relabel(targets[0])
                    } else {
                        TargetAction::Project(targets[0])
                    },
                    Box::new(
                        List::Cons(
                            TargetAction::AdjustSetReturning,
                            Box::new(
                                List::Cons(
                                    TargetAction::SetTarget(targets.last()),
                                    Box::new(
                                        action_if(partitioned, TargetAction::Partitions).then_list(
                                            action_if(
                                                consider_parallel && target_parallel_safe
                                                    && !other_rel,
                                                TargetAction::Gather,
                                            ).then_list(
                                                action_if(true, TargetAction::SetCheapest),
                                            ),
                                        ),
                                    ),
                                ),
                            ),
                        ),
                    ),
                ),
            ),
        ),
    )
}

/// Decides what is done to the paths of a relation to make them compute a
/// target. The paths of a partitioned relation are built anew out of those of
/// its partitions.
pub fn apply_scanjoin_target_to_paths(
    targets: &Vec<u32>,
    partitioned: bool,
    target_parallel_safe: bool,
    same_exprs: bool,
    consider_parallel: bool,
    other_rel: bool,
) -> (r: List<TargetAction>)
    requires
        targets@.len() > 0,
    ensures
        r == target_actions(
            targets@,
            partitioned,
            target_parallel_safe,
            same_exprs,
            consider_parallel,
            other_rel,
        ),
{
    let last = list_action_if(partitioned, TargetAction::Partitions).append(
        list_action_if(
            consider_parallel && target_parallel_safe && !other_rel,
            TargetAction::Gather,
        ).append(list_action_if(true, TargetAction::SetCheapest)),
    );
    let change = if same_exprs {
        TargetAction::Relabel(targets[0])
    } else {
        TargetAction::Project(targets[0])
    };
    let set = TargetAction::SetTarget(targets[targets.len() - 1]);
    let middle = List::Cons(
        change,
        Box::new(
            List::Cons(
                TargetAction::AdjustSetReturning,
                Box::new(List::Cons(set, Box::new(last))),
            ),
        ),
    );
    list_action_if(partitioned, TargetAction::DropPaths).append(
        list_action_if(!target_parallel_safe, TargetAction::GatherAndDropParallel).append(
            list_action_if(partitioned, TargetAction::DropParallelPaths).append(middle),
        ),
    )
}

/// A partition, and whether it was shown to have no rows.
#[derive(Clone, Copy, Debug, PartialEq, Eq, Structural)]
pub struct TargetPartition {
    pub rel: u32,
    pub dummy: bool,
}

/// The partitions whose paths are put together.
pub open spec fn live_partitions(parts: List<TargetPartition>) -> List<u32>
    decreases parts,
{
    match parts {
        List::Nil => List::Nil,
        List::Cons(p, ps) => if p.dummy {
            live_partitions(*ps)
        } else {
            List::Cons(p.rel, Box::new(live_partitions(*ps)))
        },
    }
}

/// Collects the partitions whose paths are put together once they compute the
/// target.
pub fn collect_live_partitions(parts: &List<TargetPartition>) -> (r: List<u32>)
    ensures
        r == live_partitions(*parts),
    decreases parts,
{
    match parts {
        List::Nil => List::Nil,
        List::Cons(p, ps) => {
            let rest = collect_live_partitions(ps);
            if p.dummy {
                rest
            } else {
                List::Cons(p.rel, Box::new(rest))
            }
        },
    }
}

/// The targets that the steps of a query compute, by their numbers.
#[derive(Clone, Copy, Debug, PartialEq, Eq, Structural)]
pub struct LevelTargets {
    pub scanjoin: u32,
    pub grouping: u32,
    /// What window functions and DISTINCT compute.
    pub sort_input: u32,
    /// What ORDER BY and the query as a whole compute.
    pub last: u32,
}

/// The targets that the steps of a query compute. Each step computes what the
/// next one above it needs, and those that a query does not have compute
/// nothing of their own. `sort_input` is none where nothing can wait until
/// after the sort.
pub open spec fn level_targets(
    q: QueryFacts,
    last: u32,
    sort_input: Option<u32>,
    window_input: u32,
    group_input: u32,
) -> LevelTargets {
    let below_sort = match sort_input {
        Some(t) if q.has_sort => t,
        _ => last,
    };
    let grouping = if q.active_windows {
        window_input
    } else {
        below_sort
    };
    LevelTargets {
        scanjoin: if has_grouping(q) {
            group_input
        } else {
            grouping
        },
        grouping,
        sort_input: below_sort,
        last,
    }
}

/// Chooses the targets that the steps of a query compute.
pub fn choose_level_targets(
    q: &QueryFacts,
    last: u32,
    sort_input: Option<u32>,
    window_input: u32,
    group_input: u32,
) -> (r: LevelTargets)
    ensures
        r == level_targets(*q, last, sort_input, window_input, group_input),
{
    let below_sort: u32 = match sort_input {
        Some(t) => if q.has_sort {
            t
        } else {
            last
        },
        None => last,
    };
    let grouping: u32 = if q.active_windows {
        window_input
    } else {
        below_sort
    };
    let groups = q.has_aggs || q.has_groups || q.grouping_sets > 0 || q.has_having;
    let scanjoin: u32 = if groups {
        group_input
    } else {
        grouping
    };
    LevelTargets { scanjoin, grouping, sort_input: below_sort, last }
}

/// The targets whose columns that return sets are split off, each with the
/// target below it, whose columns are there already.
pub open spec fn target_splits(t: LevelTargets) -> List<(u32, Option<u32>)> {
    List::Cons(
        (t.last, Some(t.sort_input)),
        Box::new(
            List::Cons(
                (t.sort_input, Some(t.grouping)),
                Box::new(
                    List::Cons(
                        (t.grouping, Some(t.scanjoin)),
                        Box::new(List::Cons((t.scanjoin, None), Box::new(List::Nil))),
                    ),
                ),
            ),
        ),
    )
}

/// Lists the targets whose columns that return sets are split off.
pub fn list_target_splits(t: &LevelTargets) -> (r: List<(u32, Option<u32>)>)
    ensures
        r == target_splits(*t),
{
    let below = List::Cons((t.grouping, Some(t.scanjoin)), Box::new(List::one((t.scanjoin, None))));
    List::Cons(
        (t.last, Some(t.sort_input)),
        Box::new(List::Cons((t.sort_input, Some(t.grouping)), Box::new(below))),
    )
}

/// A step of planning a query.
#[derive(Clone, Copy, Debug, PartialEq, Eq, Structural)]
pub enum PlanningStep {
    SetOperations,
    GroupingSets,
    GroupClause,
    TargetList,
    /// Look at the aggregates, those of HAVING too where that is set.
    Aggregates(bool),
    Windows,
    MinMax,
    /// Plan scans and joins; a limit applies to them where that is set.
    ScanJoin(bool),
    /// What is computed below a sort differs from the final target.
    SortInputTarget,
    WindowInputTarget,
    GroupInputTarget,
    SplitSetReturning,
    ApplyTarget,
    /// Group, and then compute columns that return sets where that is set.
    Group(bool),
    Window(bool),
    Distinct,
    /// Sort, and then compute columns that return sets where that is set.
    Order(bool),
    Final,
}

/// A list of one step, or of none.
pub open spec fn step_if(b: bool, s: PlanningStep, rest: List<PlanningStep>) -> List<PlanningStep> {
    if b {
        List::Cons(s, Box::new(rest))
    } else {
        rest
    }
}

fn list_step_if(b: bool, s: PlanningStep, rest: List<PlanningStep>) -> (r: List<PlanningStep>)
    ensures
        r == step_if(b, s, rest),
{
    if b {
        List::Cons(s, Box::new(rest))
    } else {
        rest
    }
}

/// The query groups its rows.
pub open spec fn has_grouping(q: QueryFacts) -> bool {
    q.has_aggs || q.has_groups || q.grouping_sets > 0 || q.has_having
}

/// Scans and joins can stop early for a limit: nothing above them needs all
/// rows.
pub open spec fn limit_passes_down(q: QueryFacts) -> bool {
    !(has_grouping(q) || q.has_distinct || q.has_window_funcs || q.has_target_srfs)
}

/// The steps of planning a query.
pub open spec fn planning_steps(q: QueryFacts) -> List<PlanningStep> {
    let srfs = q.has_target_srfs;
    let tail = step_if(
        q.has_sort,
        PlanningStep::Order(srfs),
        List::Cons(PlanningStep::Final, Box::new(List::Nil)),
    );
    if q.set_operation {
        List::Cons(PlanningStep::SetOperations, Box::new(tail))
    } else {
        let upper = step_if(
            has_grouping(q),
            PlanningStep::Group(srfs),
            step_if(
                q.active_windows,
                PlanningStep::Window(srfs),
                step_if(q.has_distinct, PlanningStep::Distinct, tail),
            ),
        );
        let targets = step_if(
            q.has_sort,
            PlanningStep::SortInputTarget,
            step_if(
                q.active_windows,
                PlanningStep::WindowInputTarget,
                step_if(
                    has_grouping(q),
                    PlanningStep::GroupInputTarget,
                    step_if(
                        srfs,
                        PlanningStep::SplitSetReturning,
                        List::Cons(PlanningStep::ApplyTarget, Box::new(upper)),
                    ),
                ),
            ),
        );
        let aggs = step_if(
            q.has_aggs,
            PlanningStep::Aggregates(q.has_having_clause),
            step_if(
                q.has_window_funcs,
                PlanningStep::Windows,
                step_if(
                    q.has_aggs,
                    PlanningStep::MinMax,
                    List::Cons(
                        PlanningStep::ScanJoin(limit_passes_down(q)),
                        Box::new(targets),
                    ),
                ),
            ),
        );
        step_if(
            q.grouping_sets > 0,
            PlanningStep::GroupingSets,
            step_if(
                q.grouping_sets == 0 && q.has_groups,
                PlanningStep::GroupClause,
                List::Cons(PlanningStep::TargetList, Box::new(aggs)),
            ),
        )
    }
}

/// Lays out the steps of planning a query.
pub fn grouping_planner(q: &QueryFacts) -> (r: List<PlanningStep>)
    ensures
        r == planning_steps(*q),
{
    let srfs = q.has_target_srfs;
    let groups = q.has_aggs || q.has_groups || q.grouping_sets > 0 || q.has_having;
    let limit = !(groups || q.has_distinct || q.has_window_funcs || srfs);
    let last: List<PlanningStep> = List::one(PlanningStep::Final);
    let tail = list_step_if(q.has_sort, PlanningStep::Order(srfs), last);
    if q.set_operation {
        return List::Cons(PlanningStep::SetOperations, Box::new(tail));
    }
    let steps = list_step_if(q.has_distinct, PlanningStep::Distinct, tail);
    let steps = list_step_if(q.active_windows, PlanningStep::Window(srfs), steps);
    let steps = list_step_if(groups, PlanningStep::Group(srfs), steps);
    let steps = List::Cons(PlanningStep::ApplyTarget, Box::new(steps));
    let steps = list_step_if(srfs, PlanningStep::SplitSetReturning, steps);
    let steps = list_step_if(groups, PlanningStep::GroupInputTarget, steps);
    let steps = list_step_if(q.active_windows, PlanningStep::WindowInputTarget, steps);
    let steps = list_step_if(q.has_sort, PlanningStep::SortInputTarget, steps);
    let steps = List::Cons(PlanningStep::ScanJoin(limit), Box::new(steps));
    let steps = list_step_if(q.has_aggs, PlanningStep::MinMax, steps);
    let steps = list_step_if(q.has_window_funcs, PlanningStep::Windows, steps);
    let steps = list_step_if(q.has_aggs, PlanningStep::Aggregates(q.has_having_clause), steps);
    let steps = List::Cons(PlanningStep::TargetList, Box::new(steps));
    let steps = list_step_if(
        q.grouping_sets == 0 && q.has_groups,
        PlanningStep::GroupClause,
        steps,
    );
    list_step_if(q.grouping_sets > 0, PlanningStep::GroupingSets, steps)
}

/// What is put on top of every path of a query in the end.
#[derive(Clone, Copy, Debug, PartialEq, Eq, Structural)]
pub struct FinalSteps {
    pub lock_rows: bool,
    pub limit: bool,
    pub modify_table: bool,
    /// The result may be computed in parallel.
    pub consider_parallel: bool,
    /// The parallel paths are of use to the query around this one.
    pub keep_parallel_paths: bool,
}

fn choose_final_steps(
    has_row_marks: bool,
    count: &Option<Expr>,
    offset: &Option<Expr>,
    is_select: bool,
    input_parallel: bool,
    limits_parallel_safe: bool,
    query_level: u32,
) -> (r: FinalSteps)
    ensures
        r.lock_rows == has_row_marks,
        r.limit == (counts_rows(*count) || skips_rows(*offset)),
        r.modify_table == !is_select,
        r.consider_parallel == (input_parallel && limits_parallel_safe),
        r.keep_parallel_paths == (r.consider_parallel && query_level > 1 && !r.limit),
{
    let limit = limit_needed(count, offset);
    let consider_parallel = input_parallel && limits_parallel_safe;
    FinalSteps {
        lock_rows: has_row_marks,
        limit,
        modify_table: !is_select,
        consider_parallel,
        keep_parallel_paths: consider_parallel && query_level > 1 && !limit,
    }
}

/// What is changed in one table.
#[derive(Debug)]
pub struct TargetTable {
    pub relid: i32,
    /// No row of it can be meant.
    pub dummy: bool,
    pub colnos: List<i16>,
    pub checks: List<Expr>,
    pub returning: List<Expr>,
    pub actions: List<Expr>,
    pub condition: Option<Expr>,
}

/// What is changed in all tables.
#[derive(Debug)]
pub struct TargetLists {
    pub relations: List<i32>,
    pub colnos: List<List<i16>>,
    pub checks: List<List<Expr>>,
    pub returning: List<List<Expr>>,
    pub actions: List<List<Expr>>,
    pub conditions: List<Option<Expr>>,
}

/// Which lists a statement calls for.
#[derive(Clone, Copy, Debug, PartialEq, Eq, Structural)]
pub struct ListsWanted {
    pub checks: bool,
    pub returning: bool,
    pub actions: bool,
    pub operation: Operation,
}

/// The lists that a statement calls for: those that its table has.
pub open spec fn lists_wanted(top: TargetTable, op: Operation) -> ListsWanted {
    ListsWanted {
        checks: !(top.checks is Nil),
        returning: !(top.returning is Nil),
        actions: !(top.actions is Nil),
        operation: op,
    }
}

/// The lists with those of one table in front. A list that the statement does
/// not call for is left out.
pub open spec fn with_table(t: TargetTable, w: ListsWanted, rest: TargetLists) -> TargetLists {
    TargetLists {
        relations: List::Cons(t.relid, Box::new(rest.relations)),
        colnos: if w.operation == Operation::Update {
            List::Cons(t.colnos, Box::new(rest.colnos))
        } else {
            rest.colnos
        },
        checks: if w.checks {
            List::Cons(t.checks, Box::new(rest.checks))
        } else {
            rest.checks
        },
        returning: if w.returning {
            List::Cons(t.returning, Box::new(rest.returning))
        } else {
            rest.returning
        },
        actions: if w.actions {
            List::Cons(t.actions, Box::new(rest.actions))
        } else {
            rest.actions
        },
        conditions: if w.operation == Operation::Merge {
            List::Cons(t.condition, Box::new(rest.conditions))
        } else {
            rest.conditions
        },
    }
}

fn add_table(t: TargetTable, w: ListsWanted, rest: TargetLists) -> (r: TargetLists)
    ensures
        r == with_table(t, w, rest),
{
    let mut rest = rest;
    rest.relations = List::Cons(t.relid, Box::new(rest.relations));
    if w.operation == Operation::Update {
        rest.colnos = List::Cons(t.colnos, Box::new(rest.colnos));
    }
    if w.checks {
        rest.checks = List::Cons(t.checks, Box::new(rest.checks));
    }
    if w.returning {
        rest.returning = List::Cons(t.returning, Box::new(rest.returning));
    }
    if w.actions {
        rest.actions = List::Cons(t.actions, Box::new(rest.actions));
    }
    if w.operation == Operation::Merge {
        rest.conditions = List::Cons(t.condition, Box::new(rest.conditions));
    }
    rest
}

/// Nothing is changed.
pub open spec fn no_tables() -> TargetLists {
    TargetLists {
        relations: List::Nil,
        colnos: List::Nil,
        checks: List::Nil,
        returning: List::Nil,
        actions: List::Nil,
        conditions: List::Nil,
    }
}

/// What is changed in the tables that rows can be meant of.
pub open spec fn live_tables(tables: List<TargetTable>, w: ListsWanted) -> TargetLists
    decreases tables,
{
    match tables {
        List::Nil => no_tables(),
        List::Cons(t, ts) => if t.dummy {
            live_tables(*ts, w)
        } else {
            with_table(t, w, live_tables(*ts, w))
        },
    }
}

fn list_live_tables(tables: List<TargetTable>, w: ListsWanted) -> (r: TargetLists)
    ensures
        r == live_tables(tables, w),
    decreases tables,
{
    match tables {
        List::Nil => TargetLists {
            relations: List::Nil,
            colnos: List::Nil,
            checks: List::Nil,
            returning: List::Nil,
            actions: List::Nil,
            conditions: List::Nil,
        },
        List::Cons(t, ts) => {
            let rest = list_live_tables(*ts, w);
            if t.dummy {
                rest
            } else {
                add_table(t, w, rest)
            }
        },
    }
}

/// What a statement changes: its table, or the tables that inherit from it, of
/// those that rows can be meant of. If there are none, the table itself is
/// listed, so that its statement triggers fire.
pub open spec fn target_lists(
    top: TargetTable,
    inherited: bool,
    leaves: List<TargetTable>,
    op: Operation,
) -> TargetLists {
    let w = lists_wanted(top, op);
    let live = live_tables(leaves, w);
    if inherited && !(live.relations is Nil) {
        live
    } else {
        with_table(top, w, no_tables())
    }
}

fn collect_target_lists(
    top: TargetTable,
    inherited: bool,
    leaves: List<TargetTable>,
    op: Operation,
) -> (r: (TargetLists, i32))
    ensures
        r.0 == target_lists(top, inherited, leaves, op),
        r.1 == if inherited {
            top.relid
        } else {
            0
        },
{
    let w = ListsWanted {
        checks: !top.checks.is_nil(),
        returning: !top.returning.is_nil(),
        actions: !top.actions.is_nil(),
        operation: op,
    };
    let live = list_live_tables(leaves, w);
    let root: i32 = if inherited {
        top.relid
    } else {
        0
    };
    if inherited && !live.relations.is_nil() {
        return (live, root);
    }
    let none = TargetLists {
        relations: List::Nil,
        colnos: List::Nil,
        checks: List::Nil,
        returning: List::Nil,
        actions: List::Nil,
        conditions: List::Nil,
    };
    (add_table(top, w, none), root)
}

/// A path of the result of a query: the path below it, and what is put on top
/// of that, one above the other. Locking rows and changing tables each take a
/// parameter of their own.
#[derive(Clone, Copy, Debug, PartialEq, Eq, Structural)]
pub struct FinalPath {
    pub input: u32,
    pub lock_rows: Option<usize>,
    pub limit: bool,
    pub modify_table: Option<usize>,
}

/// How a query ends.
#[derive(Debug)]
pub struct QueryTail {
    pub steps: FinalSteps,
    pub paths: List<FinalPath>,
    /// The parallel paths that the query around this one can use.
    pub partial_paths: List<u32>,
    /// What is changed, with the relation at the root, where the query changes
    /// tables.
    pub targets: Option<(TargetLists, i32)>,
}

/// The parameter with the next number, where one is taken.
pub open spec fn param_if(taken: bool, next: nat) -> Option<usize> {
    if taken {
        Some(next as usize)
    } else {
        None
    }
}

/// How many parameters a path of the result takes.
pub open spec fn params_per_path(steps: FinalSteps) -> nat {
    (if steps.lock_rows {
        1nat
    } else {
        0nat
    }) + (if steps.modify_table {
        1nat
    } else {
        0nat
    })
}

/// The paths of the result, where `next` is the number of the next parameter.
pub open spec fn final_paths(paths: List<u32>, steps: FinalSteps, next: nat) -> List<FinalPath>
    decreases paths,
{
    match paths {
        List::Nil => List::Nil,
        List::Cons(p, ps) => List::Cons(
            FinalPath {
                input: p,
                lock_rows: param_if(steps.lock_rows, next),
                limit: steps.limit,
                modify_table: param_if(
                    steps.modify_table,
                    if steps.lock_rows {
                        next + 1
                    } else {
                        next
                    },
                ),
            },
            Box::new(final_paths(*ps, steps, next + params_per_path(steps))),
        ),
    }
}

/// The types of the parameters, with those that have been taken: they carry no
/// value and have the type 0.
pub open spec fn with_params(types: Seq<u32>, n: nat) -> Seq<u32> {
    types + Seq::new(n, |i: int| 0u32)
}

fn finish_paths(paths: &List<u32>, steps: FinalSteps, types: &mut Vec<u32>) -> (r: List<FinalPath>)
    ensures
        r == final_paths(*paths, steps, old(types)@.len()),
        final(types)@ =~= with_params(old(types)@, paths@.len() * params_per_path(steps)),
    decreases paths,
{
    match paths {
        List::Nil => {
            assert(paths@.len() == 0);
            List::Nil
        },
        List::Cons(p, ps) => {
            let lock_rows = if steps.lock_rows {
                Some(assign_special_exec_param(types))
            } else {
                None
            };
            let modify_table = if steps.modify_table {
                Some(assign_special_exec_param(types))
            } else {
                None
            };
            let rest = finish_paths(ps, steps, types);
            proof {
                let k = params_per_path(steps);
                assert(paths@.len() == ps@.len() + 1);
                assert(paths@.len() * k == ps@.len() * k + k) by (nonlinear_arith)
                    requires
                        paths@.len() == ps@.len() + 1,
                ;
            }
            let here = FinalPath { input: *p, lock_rows, limit: steps.limit, modify_table };
            List::Cons(here, Box::new(rest))
        },
    }
}

/// How many rows a sort has to deliver at most, if that is known. It cannot
/// stop early where columns that return sets come after it.
pub fn limit_of_sort(limit: Option<(i64, i64)>, postponed_srfs: bool) -> (r: Option<(i64, i64)>)
    ensures
        r == if postponed_srfs {
            None
        } else {
            limit
        },
{
    if postponed_srfs {
        None
    } else {
        limit
    }
}

/// What a query that changes tables changes.
#[derive(Debug)]
pub struct TableChange {
    pub top: TargetTable,
    /// Other tables inherit from it.
    pub inherited: bool,
    pub leaves: List<TargetTable>,
    pub operation: Operation,
}

/// What the end of a query depends on.
#[derive(Debug)]
pub struct TailFacts {
    pub has_row_marks: bool,
    pub count: Option<Expr>,
    pub offset: Option<Expr>,
    pub input_parallel: bool,
    pub limits_parallel_safe: bool,
    pub query_level: u32,
}

/// Lays out how a query ends: what is put on top of each of its paths, which
/// of its parallel paths are kept, and what is changed. `types` are the types
/// of the parameters.
pub fn grouping_planner_tail(
    f: &TailFacts,
    change: Option<TableChange>,
    paths: &List<u32>,
    partial_paths: &List<u32>,
    types: &mut Vec<u32>,
) -> (r: QueryTail)
    ensures
        r.steps.lock_rows == f.has_row_marks,
        r.steps.limit == (counts_rows(f.count) || skips_rows(f.offset)),
        r.steps.modify_table == (change is Some),
        r.steps.consider_parallel == (f.input_parallel && f.limits_parallel_safe),
        r.steps.keep_parallel_paths == (r.steps.consider_parallel && f.query_level > 1
            && !r.steps.limit),
        r.paths == final_paths(*paths, r.steps, old(types)@.len()),
        final(types)@ =~= with_params(old(types)@, paths@.len() * params_per_path(r.steps)),
        r.partial_paths == if r.steps.keep_parallel_paths {
            *partial_paths
        } else {
            List::Nil
        },
        r.targets == match change {
            None => None,
            Some(c) => Some(
                (
                    target_lists(c.top, c.inherited, c.leaves, c.operation),
                    if c.inherited {
                        c.top.relid
                    } else {
                        0
                    },
                ),
            ),
        },
{
    let steps = choose_final_steps(
        f.has_row_marks,
        &f.count,
        &f.offset,
        change.is_none(),
        f.input_parallel,
        f.limits_parallel_safe,
        f.query_level,
    );
    let paths = finish_paths(paths, steps, types);
    let partial_paths = if steps.keep_parallel_paths {
        partial_paths.copy()
    } else {
        List::Nil
    };
    let targets = match change {
        None => None,
        Some(c) => Some(collect_target_lists(c.top, c.inherited, c.leaves, c.operation)),
    };
    QueryTail { steps, paths, partial_paths, targets }
}

/// The parameter is one that the path takes.
pub open spec fn takes_param(p: FinalPath, n: usize) -> bool {
    p.lock_rows == Some(n) || p.modify_table == Some(n)
}

/// Every path of the result stands on one of the query, in the same order, and
/// takes parameters that are new and that no other path takes.
pub proof fn lemma_final_paths(
    paths: List<u32>,
    steps: FinalSteps,
    next: nat,
    i: int,
    j: int,
    n: usize,
)
    requires
        0 <= i < paths@.len(),
        0 <= j < paths@.len(),
        next + paths@.len() * params_per_path(steps) <= usize::MAX,
    ensures
        final_paths(paths, steps, next)@.len() == paths@.len(),
        final_paths(paths, steps, next)@[i].input == paths@[i],
        takes_param(final_paths(paths, steps, next)@[i], n) ==> next + i * params_per_path(steps)
            <= n < next + (i + 1) * params_per_path(steps),
        takes_param(final_paths(paths, steps, next)@[i], n) && takes_param(
            final_paths(paths, steps, next)@[j],
            n,
        ) ==> i == j,
{
    lemma_final_path(paths, steps, next, i, n);
    lemma_final_path(paths, steps, next, j, n);
    let k = params_per_path(steps);
    if i < j {
        assert((i + 1) * k <= j * k) by (nonlinear_arith)
            requires
                i + 1 <= j,
                k >= 0,
        ;
    }
    if j < i {
        assert((j + 1) * k <= i * k) by (nonlinear_arith)
            requires
                j + 1 <= i,
                k >= 0,
        ;
    }
}

proof fn lemma_final_path(paths: List<u32>, steps: FinalSteps, next: nat, i: int, n: usize)
    requires
        0 <= i < paths@.len(),
        next + paths@.len() * params_per_path(steps) <= usize::MAX,
    ensures
        final_paths(paths, steps, next)@.len() == paths@.len(),
        final_paths(paths, steps, next)@[i].input == paths@[i],
        takes_param(final_paths(paths, steps, next)@[i], n) ==> next + i * params_per_path(steps)
            <= n < next + (i + 1) * params_per_path(steps),
    decreases paths,
{
    if let List::Cons(p, ps) = paths {
        let k = params_per_path(steps);
        let all = final_paths(paths, steps, next);
        let rest = final_paths(*ps, steps, next + k);
        let len = paths@.len();
        assert(len == ps@.len() + 1);
        assert(len * k == ps@.len() * k + k) by (nonlinear_arith)
            requires
                len == ps@.len() + 1,
        ;
        lemma_final_length(*ps, steps, next + k);
        assert(paths@[0] == p);
        assert(0 * k == 0);
        assert(1 * k == k);
        if i > 0 {
            lemma_final_path(*ps, steps, next + k, i - 1, n);
            assert(paths@[i] == ps@[i - 1]);
            assert(all@[i] == rest@[i - 1]);
            assert(i * k == (i - 1) * k + k) by (nonlinear_arith);
            assert((i + 1) * k == i * k + k) by (nonlinear_arith);
        } else {
            assert(ps@.len() * k >= 0) by (nonlinear_arith)
                requires
                    ps@.len() >= 0,
                    k >= 0,
            ;
        }
    }
}

proof fn lemma_final_length(paths: List<u32>, steps: FinalSteps, next: nat)
    ensures
        final_paths(paths, steps, next)@.len() == paths@.len(),
    decreases paths,
{
    match paths {
        List::Nil => {
            let none: List<FinalPath> = List::Nil;
            assert(none@.len() == 0);
            assert(paths@.len() == 0);
        },
        List::Cons(_, ps) => {
            lemma_final_length(*ps, steps, next + params_per_path(steps));
        },
    }
}

/// A statement always has a table to work on, and each of the lists that go with
/// its tables has one item for each of them, if the statement calls for it.
pub proof fn lemma_target_lists(
    top: TargetTable,
    inherited: bool,
    leaves: List<TargetTable>,
    op: Operation,
)
    ensures
        ({
            let l = target_lists(top, inherited, leaves, op);
            l.relations@.len() > 0 && lists_fit(l, lists_wanted(top, op))
        }),
{
    let w = lists_wanted(top, op);
    lemma_live_tables(leaves, w);
    lemma_no_tables(w);
    lemma_with_table(top, w, no_tables());
}

/// Each list has an item for each table, if it is called for, or none.
pub open spec fn lists_fit(l: TargetLists, w: ListsWanted) -> bool {
    let n = l.relations@.len();
    &&& l.colnos@.len() == if w.operation == Operation::Update {
        n
    } else {
        0
    }
    &&& l.checks@.len() == if w.checks {
        n
    } else {
        0
    }
    &&& l.returning@.len() == if w.returning {
        n
    } else {
        0
    }
    &&& l.actions@.len() == if w.actions {
        n
    } else {
        0
    }
    &&& l.conditions@.len() == if w.operation == Operation::Merge {
        n
    } else {
        0
    }
}

proof fn lemma_no_tables(w: ListsWanted)
    ensures
        lists_fit(no_tables(), w),
{
    let none = no_tables();
    assert(none.relations@.len() == 0);
    assert(none.colnos@.len() == 0);
    assert(none.checks@.len() == 0);
    assert(none.returning@.len() == 0);
    assert(none.actions@.len() == 0);
    assert(none.conditions@.len() == 0);
}

proof fn lemma_with_table(t: TargetTable, w: ListsWanted, rest: TargetLists)
    requires
        lists_fit(rest, w),
    ensures
        lists_fit(with_table(t, w, rest), w),
        with_table(t, w, rest).relations@.len() == rest.relations@.len() + 1,
{
    let l = with_table(t, w, rest);
    assert(l.relations@.len() == rest.relations@.len() + 1);
    if w.operation == Operation::Update {
        assert(l.colnos@.len() == rest.colnos@.len() + 1);
    }
    if w.checks {
        assert(l.checks@.len() == rest.checks@.len() + 1);
    }
    if w.returning {
        assert(l.returning@.len() == rest.returning@.len() + 1);
    }
    if w.actions {
        assert(l.actions@.len() == rest.actions@.len() + 1);
    }
    if w.operation == Operation::Merge {
        assert(l.conditions@.len() == rest.conditions@.len() + 1);
    }
}

proof fn lemma_live_tables(tables: List<TargetTable>, w: ListsWanted)
    ensures
        lists_fit(live_tables(tables, w), w),
        !(live_tables(tables, w).relations is Nil) ==> live_tables(tables, w).relations@.len() > 0,
    decreases tables,
{
    match tables {
        List::Nil => {
            lemma_no_tables(w);
        },
        List::Cons(t, ts) => {
            lemma_live_tables(*ts, w);
            lemma_with_table(t, w, live_tables(*ts, w));
        },
    }
}

/// How late a step of planning comes.
pub open spec fn stage(s: PlanningStep) -> int {
    match s {
        PlanningStep::SetOperations => 0,
        PlanningStep::GroupingSets => 1,
        PlanningStep::GroupClause => 2,
        PlanningStep::TargetList => 3,
        PlanningStep::Aggregates(_) => 4,
        PlanningStep::Windows => 5,
        PlanningStep::MinMax => 6,
        PlanningStep::ScanJoin(_) => 7,
        PlanningStep::SortInputTarget => 8,
        PlanningStep::WindowInputTarget => 9,
        PlanningStep::GroupInputTarget => 10,
        PlanningStep::SplitSetReturning => 11,
        PlanningStep::ApplyTarget => 12,
        PlanningStep::Group(_) => 13,
        PlanningStep::Window(_) => 14,
        PlanningStep::Distinct => 15,
        PlanningStep::Order(_) => 16,
        PlanningStep::Final => 17,
    }
}

/// The steps come one after the other, none of them earlier than at a stage.
#[verifier::opaque]
pub open spec fn in_stages(l: Seq<PlanningStep>, from: int) -> bool {
    &&& forall|i: int, j: int|
        0 <= i < j < l.len() ==> stage(#[trigger] l[i]) < stage(#[trigger] l[j])
    &&& forall|i: int| 0 <= i < l.len() ==> from <= stage(#[trigger] l[i])
}

proof fn lemma_step_if(b: bool, s: PlanningStep, rest: List<PlanningStep>, x: PlanningStep)
    requires
        exists|from: int| stage(s) < from && in_stages(rest@, from),
    ensures
        in_stages(step_if(b, s, rest)@, stage(s)),
        step_if(b, s, rest)@.contains(x) <==> (b && x == s) || rest@.contains(x),
        step_if(b, s, rest)@.len() > 0 && rest@.len() > 0 ==> step_if(b, s, rest)@.last()
            == rest@.last(),
        step_if(b, s, rest)@.len() >= rest@.len(),
{
    reveal(in_stages);
    let from = choose|from: int| stage(s) < from && in_stages(rest@, from);
    let all = step_if(b, s, rest)@;
    if b {
        crate::list::lemma_cons_contains(s, rest, x);
        assert(all[0] == s);
        assert forall|i: int, j: int| 0 <= i < j < all.len() implies stage(#[trigger] all[i])
            < stage(#[trigger] all[j]) by {
            assert(all[j] == rest@[j - 1]);
            if i > 0 {
                assert(all[i] == rest@[i - 1]);
            }
        }
        assert forall|i: int| 0 <= i < all.len() implies stage(s) <= stage(#[trigger] all[i]) by {
            if i > 0 {
                assert(all[i] == rest@[i - 1]);
            }
        }
    }
}

/// The steps of planning a query come in their order: aggregates are looked at
/// before scans and joins are planned, what is computed is settled before paths
/// are made for it, rows are grouped before window functions run, and after that
/// come DISTINCT, ORDER BY and the end. Each step is there exactly if the query
/// asks for it, and a limit reaches scans and joins only where nothing between
/// needs all rows.
pub proof fn lemma_planning_steps(q: QueryFacts)
    ensures
        ({
            let steps = planning_steps(q)@;
            let srfs = q.has_target_srfs;
            let plain = !q.set_operation;
            let groups = q.has_aggs || q.has_groups || q.grouping_sets > 0 || q.has_having;
            let passes = !groups && !q.has_distinct && !q.has_window_funcs && !srfs;
            &&& in_stages(steps, 0)
            &&& steps.len() > 0 && steps.last() == PlanningStep::Final
            &&& steps.contains(PlanningStep::SetOperations) <==> !plain
            &&& steps.contains(PlanningStep::GroupingSets) <==> plain && q.grouping_sets > 0
            &&& steps.contains(PlanningStep::GroupClause) <==> plain && q.has_groups
                && q.grouping_sets == 0
            &&& steps.contains(PlanningStep::TargetList) <==> plain
            &&& steps.contains(PlanningStep::Aggregates(q.has_having_clause)) <==> plain
                && q.has_aggs
            &&& steps.contains(PlanningStep::Windows) <==> plain && q.has_window_funcs
            &&& steps.contains(PlanningStep::MinMax) <==> plain && q.has_aggs
            &&& steps.contains(PlanningStep::ScanJoin(true)) <==> plain && passes
            &&& steps.contains(PlanningStep::ScanJoin(false)) <==> plain && !passes
            &&& steps.contains(PlanningStep::SortInputTarget) <==> plain && q.has_sort
            &&& steps.contains(PlanningStep::WindowInputTarget) <==> plain && q.active_windows
            &&& steps.contains(PlanningStep::GroupInputTarget) <==> plain && groups
            &&& steps.contains(PlanningStep::SplitSetReturning) <==> plain && srfs
            &&& steps.contains(PlanningStep::ApplyTarget) <==> plain
            &&& steps.contains(PlanningStep::Group(srfs)) <==> plain && groups
            &&& steps.contains(PlanningStep::Window(srfs)) <==> plain && q.active_windows
            &&& steps.contains(PlanningStep::Distinct) <==> plain && q.has_distinct
            &&& steps.contains(PlanningStep::Order(srfs)) <==> q.has_sort
        }),
{
    let srfs = q.has_target_srfs;
    let steps = planning_steps(q)@;
    let plain = !q.set_operation;
    let groups = q.has_aggs || q.has_groups || q.grouping_sets > 0 || q.has_having;
    let passes = !groups && !q.has_distinct && !q.has_window_funcs && !srfs;
    let a = q.has_having_clause;
    assert forall|x: PlanningStep| #[trigger] steps.contains(x) <==> match x {
        PlanningStep::SetOperations => !plain,
        PlanningStep::GroupingSets => plain && q.grouping_sets > 0,
        PlanningStep::GroupClause => plain && q.has_groups && q.grouping_sets == 0,
        PlanningStep::TargetList => plain,
        PlanningStep::Aggregates(b) => plain && q.has_aggs && b == a,
        PlanningStep::Windows => plain && q.has_window_funcs,
        PlanningStep::MinMax => plain && q.has_aggs,
        PlanningStep::ScanJoin(b) => plain && b == passes,
        PlanningStep::SortInputTarget => plain && q.has_sort,
        PlanningStep::WindowInputTarget => plain && q.active_windows,
        PlanningStep::GroupInputTarget => plain && groups,
        PlanningStep::SplitSetReturning => plain && srfs,
        PlanningStep::ApplyTarget => plain,
        PlanningStep::Group(b) => plain && groups && b == srfs,
        PlanningStep::Window(b) => plain && q.active_windows && b == srfs,
        PlanningStep::Distinct => plain && q.has_distinct,
        PlanningStep::Order(b) => q.has_sort && b == srfs,
        PlanningStep::Final => true,
    } by {
        lemma_step_occurs(q, x);
    }
    lemma_step_occurs(q, PlanningStep::Final);
}

#[verifier::spinoff_prover]
#[verifier::rlimit(60)]
proof fn lemma_step_occurs(q: QueryFacts, x: PlanningStep)
    ensures
        ({
            let steps = planning_steps(q)@;
            let srfs = q.has_target_srfs;
            let plain = !q.set_operation;
            let groups = q.has_aggs || q.has_groups || q.grouping_sets > 0 || q.has_having;
            let passes = !groups && !q.has_distinct && !q.has_window_funcs && !srfs;
            &&& in_stages(steps, 0)
            &&& steps.len() > 0 && steps.last() == PlanningStep::Final
            &&& steps.contains(x) <==> match x {
                PlanningStep::SetOperations => !plain,
                PlanningStep::GroupingSets => plain && q.grouping_sets > 0,
                PlanningStep::GroupClause => plain && q.has_groups && q.grouping_sets == 0,
                PlanningStep::TargetList => plain,
                PlanningStep::Aggregates(b) => plain && q.has_aggs && b == q.has_having_clause,
                PlanningStep::Windows => plain && q.has_window_funcs,
                PlanningStep::MinMax => plain && q.has_aggs,
                PlanningStep::ScanJoin(b) => plain && b == passes,
                PlanningStep::SortInputTarget => plain && q.has_sort,
                PlanningStep::WindowInputTarget => plain && q.active_windows,
                PlanningStep::GroupInputTarget => plain && groups,
                PlanningStep::SplitSetReturning => plain && srfs,
                PlanningStep::ApplyTarget => plain,
                PlanningStep::Group(b) => plain && groups && b == srfs,
                PlanningStep::Window(b) => plain && q.active_windows && b == srfs,
                PlanningStep::Distinct => plain && q.has_distinct,
                PlanningStep::Order(b) => q.has_sort && b == srfs,
                PlanningStep::Final => true,
            }
        }),
{
    let srfs = q.has_target_srfs;
    let groups = has_grouping(q);
    let none: List<PlanningStep> = List::Nil;
    assert(none@.len() == 0);
    assert(in_stages(none@, 18)) by {
        reveal(in_stages);
    }
    lemma_step_if(true, PlanningStep::Final, none, x);
    let end = step_if(true, PlanningStep::Final, none);
    assert(end@.last() == PlanningStep::Final);
    lemma_step_if(q.has_sort, PlanningStep::Order(srfs), end, x);
    let tail = step_if(q.has_sort, PlanningStep::Order(srfs), end);
    if q.set_operation {
        lemma_step_if(true, PlanningStep::SetOperations, tail, x);
    } else {
        lemma_step_if(q.has_distinct, PlanningStep::Distinct, tail, x);
        let l = step_if(q.has_distinct, PlanningStep::Distinct, tail);
        lemma_step_if(q.active_windows, PlanningStep::Window(srfs), l, x);
        let l = step_if(q.active_windows, PlanningStep::Window(srfs), l);
        lemma_step_if(groups, PlanningStep::Group(srfs), l, x);
        let l = step_if(groups, PlanningStep::Group(srfs), l);
        lemma_step_if(true, PlanningStep::ApplyTarget, l, x);
        let l = step_if(true, PlanningStep::ApplyTarget, l);
        lemma_step_if(srfs, PlanningStep::SplitSetReturning, l, x);
        let l = step_if(srfs, PlanningStep::SplitSetReturning, l);
        lemma_step_if(groups, PlanningStep::GroupInputTarget, l, x);
        let l = step_if(groups, PlanningStep::GroupInputTarget, l);
        lemma_step_if(q.active_windows, PlanningStep::WindowInputTarget, l, x);
        let l = step_if(q.active_windows, PlanningStep::WindowInputTarget, l);
        lemma_step_if(q.has_sort, PlanningStep::SortInputTarget, l, x);
        let l = step_if(q.has_sort, PlanningStep::SortInputTarget, l);
        lemma_step_if(true, PlanningStep::ScanJoin(limit_passes_down(q)), l, x);
        let l = step_if(true, PlanningStep::ScanJoin(limit_passes_down(q)), l);
        lemma_step_if(q.has_aggs, PlanningStep::MinMax, l, x);
        let l = step_if(q.has_aggs, PlanningStep::MinMax, l);
        lemma_step_if(q.has_window_funcs, PlanningStep::Windows, l, x);
        let l = step_if(q.has_window_funcs, PlanningStep::Windows, l);
        lemma_step_if(q.has_aggs, PlanningStep::Aggregates(q.has_having_clause), l, x);
        let l = step_if(q.has_aggs, PlanningStep::Aggregates(q.has_having_clause), l);
        lemma_step_if(true, PlanningStep::TargetList, l, x);
        let l = step_if(true, PlanningStep::TargetList, l);
        lemma_step_if(
            q.grouping_sets == 0 && q.has_groups,
            PlanningStep::GroupClause,
            l,
            x,
        );
        let l = step_if(q.grouping_sets == 0 && q.has_groups, PlanningStep::GroupClause, l);
        lemma_step_if(q.grouping_sets > 0, PlanningStep::GroupingSets, l, x);
        let l = step_if(q.grouping_sets > 0, PlanningStep::GroupingSets, l);
        assert(planning_steps(q) == l);
        assert(in_stages(l@, 0)) by {
            reveal(in_stages);
        }
    }
}

/// A grouping is hashed only where every group clause can be hashed and no
/// aggregate wants an order, and sorted only where every clause can be sorted by;
/// it is computed in parts only where every aggregate allows that. Without
/// aggregates and groups, there is one row for each grouping set, and at least
/// one.
pub proof fn lemma_grouping_way(
    q: QueryFacts,
    clauses: List<SortGroupClause>,
    sets: Option<(bool, bool)>,
    enable_partitionwise: bool,
)
    ensures
        match grouping_way(q, clauses, sets, enable_partitionwise) {
            GroupingWay::Degenerate(n) => !q.has_aggs && !q.has_groups && n >= 1 && n
                >= q.grouping_sets && (n > 1 ==> n == q.grouping_sets),
            GroupingWay::Ordinary { can_sort, can_hash, can_partial_agg, partitionwise } => {
                &&& q.has_aggs || q.has_groups || (!q.has_having && q.grouping_sets == 0)
                &&& can_hash ==> q.has_groups && q.ordered_aggs == 0
                &&& can_hash && sets is None ==> forall|i: int|
                    0 <= i < clauses@.len() ==> (#[trigger] clauses@[i]).hashable
                &&& q.has_groups && q.ordered_aggs == 0 && sets is None && (forall|i: int|
                    0 <= i < clauses@.len() ==> (#[trigger] clauses@[i]).hashable) ==> can_hash
                &&& sets is None ==> (can_sort <==> forall|i: int|
                    0 <= i < clauses@.len() ==> (#[trigger] clauses@[i]).sortop != 0)
                &&& can_partial_agg ==> !q.non_partial_aggs && !q.non_serial_aggs
                    && q.grouping_sets == 0
                &&& !can_partial_agg ==> q.non_partial_aggs || q.non_serial_aggs
                    || q.grouping_sets > 0 || (!q.has_aggs && !q.has_groups)
                &&& partitionwise == Partitionwise::Full <==> enable_partitionwise
                    && q.grouping_sets == 0
                &&& partitionwise != Partitionwise::Partial
            },
        },
{
}

/// Partitions are grouped on their own and in full only where no group lies in
/// two of them; where groups may, only if aggregates can be computed in parts.
pub proof fn lemma_partitionwise(
    asked: Partitionwise,
    partitioned: bool,
    groups_in_partitions: bool,
    can_partial_agg: bool,
)
    ensures
        match partitionwise_way(asked, partitioned, groups_in_partitions, can_partial_agg) {
            Partitionwise::Full => partitioned && groups_in_partitions && asked
                == Partitionwise::Full,
            Partitionwise::Partial => partitioned && can_partial_agg && asked
                != Partitionwise::Off && !(groups_in_partitions && asked == Partitionwise::Full),
            Partitionwise::Off => !partitioned || asked == Partitionwise::Off || (
            !can_partial_agg && !(groups_in_partitions && asked == Partitionwise::Full)),
        },
{
}

/// The partitions that are put together are all those that have rows, in their
/// order, and no others; those aggregated in part are there only if every one of
/// them is.
pub proof fn lemma_live_partitions(parts: List<GroupedPartition>)
    ensures
        grouped_partitions(parts)@ == parts@.filter(|p: GroupedPartition| !p.dummy).map_values(
            |p: GroupedPartition| p.grouped,
        ),
        partial_partitions(parts) is Some <==> forall|i: int|
            0 <= i < parts@.len() && !(#[trigger] parts@[i]).dummy ==> parts@[i].partial is Some,
        partial_partitions(parts) matches Some(l) ==> l@ == parts@.filter(
            |p: GroupedPartition| !p.dummy,
        ).map_values(|p: GroupedPartition| p.partial->Some_0),
    decreases parts,
{
    let f = |p: GroupedPartition| !p.dummy;
    match parts {
        List::Nil => {
            reveal(Seq::filter);
            assert(parts@.len() == 0);
            assert(parts@.filter(f) =~= Seq::<GroupedPartition>::empty());
            let none: List<usize> = List::Nil;
            assert(none@ =~= parts@.filter(f).map_values(|p: GroupedPartition| p.grouped));
            assert(none@ =~= parts@.filter(f).map_values(
                |p: GroupedPartition| p.partial->Some_0,
            ));
        },
        List::Cons(p, ps) => {
            lemma_live_partitions(*ps);
            crate::quals::lemma_filter_cons(p, ps@, f);
            let kept = ps@.filter(f);
            assert((seq![p] + kept).map_values(|p: GroupedPartition| p.grouped) =~= seq![p.grouped]
                + kept.map_values(|p: GroupedPartition| p.grouped));
            assert((seq![p] + kept).map_values(|p: GroupedPartition| p.partial->Some_0)
                =~= seq![p.partial->Some_0] + kept.map_values(
                |p: GroupedPartition| p.partial->Some_0,
            ));
            assert(parts@[0] == p);
            assert(forall|i: int| 0 <= i < ps@.len() ==> parts@[i + 1] == #[trigger] ps@[i]);
            assert(forall|i: int| 1 <= i < parts@.len() ==> #[trigger] parts@[i] == ps@[i - 1]);
        },
    }
}

/// The key is grouped by, under a collation that agrees.
pub open spec fn is_grouped_by(groups: Seq<Expr>, exprs: Seq<Expr>, collation: u32) -> bool {
    exists|i: int, j: int|
        #![trigger groups[i], exprs[j]]
        0 <= i < groups.len() && 0 <= j < exprs.len() && crate::expr::same_expr(
            unlabelled(groups[i]),
            exprs[j],
        ) && (collation == 0 || crate::expr::collation_of(groups[i]) == 0 || collation
            == crate::expr::collation_of(groups[i]))
}

proof fn lemma_grouped_by(groups: List<Expr>, key: Expr, collation: u32) -> (i: int)
    requires
        grouped_by(groups, key, collation) == Some(true),
    ensures
        0 <= i < groups@.len(),
        crate::expr::same_expr(unlabelled(groups@[i]), key),
        collation == 0 || crate::expr::collation_of(groups@[i]) == 0 || collation
            == crate::expr::collation_of(groups@[i]),
    decreases groups,
{
    match groups {
        List::Nil => 0,
        List::Cons(g, gs) => {
            assert(groups@[0] == g);
            if crate::expr::same_expr(unlabelled(g), key) {
                0
            } else {
                let i = lemma_grouped_by(*gs, key, collation);
                assert(groups@[i + 1] == gs@[i]);
                i + 1
            }
        },
    }
}

proof fn lemma_key_grouped(groups: List<Expr>, exprs: List<Expr>, collation: u32)
    requires
        key_grouped(groups, exprs, collation) == Some(true),
    ensures
        is_grouped_by(groups@, exprs@, collation),
    decreases exprs,
{
    if let List::Cons(x, xs) = exprs {
        assert(exprs@[0] == x);
        if grouped_by(groups, x, collation) is Some {
            let i = lemma_grouped_by(groups, x, collation);
            assert(crate::expr::same_expr(unlabelled(groups@[i]), exprs@[0]));
        } else {
            lemma_key_grouped(groups, *xs, collation);
            let (i, j) = choose|i: int, j: int|
                #![trigger groups@[i], xs@[j]]
                0 <= i < groups@.len() && 0 <= j < xs@.len() && crate::expr::same_expr(
                    unlabelled(groups@[i]),
                    xs@[j],
                ) && (collation == 0 || crate::expr::collation_of(groups@[i]) == 0 || collation
                    == crate::expr::collation_of(groups@[i]));
            assert(exprs@[j + 1] == xs@[j]);
            assert(crate::expr::same_expr(unlabelled(groups@[i]), exprs@[j + 1]));
        }
    }
}

/// Groups are taken to lie inside partitions only if every column that the
/// relation is partitioned by is grouped by, under a collation that agrees: rows
/// of one group then are in one partition.
pub proof fn lemma_groups_in_partitions(groups: List<Expr>, keys: List<PartitionKey>, k: int)
    requires
        keys_grouped(groups, keys),
        0 <= k < keys@.len(),
    ensures
        is_grouped_by(groups@, keys@[k].exprs@, keys@[k].collation),
    decreases keys,
{
    if let List::Cons(x, xs) = keys {
        assert(keys@[0] == x);
        if k == 0 {
            lemma_key_grouped(groups, x.exprs, x.collation);
        } else {
            assert(keys@[k] == xs@[k - 1]);
            lemma_groups_in_partitions(groups, *xs, k - 1);
        }
    }
}

/// The order that is wanted of scans and joins serves the first step above them
/// that wants one, and there is none only where no step wants one.
pub proof fn lemma_query_keys(k: UpperKeys)
    ensures
        ({
            let r = query_keys(k)@;
            &&& k.group@.len() > 0 ==> r == k.group@
            &&& k.group@.len() == 0 && k.window@.len() > 0 ==> r == k.window@
            &&& k.group@.len() == 0 && k.window@.len() == 0 && (k.distinct@.len() > 0
                || k.sort@.len() > 0) ==> (r == k.distinct@ || r == k.sort@) && r.len()
                >= k.distinct@.len() && r.len() >= k.sort@.len()
            &&& r.len() == 0 ==> k.group@.len() == 0 && k.window@.len() == 0 && k.distinct@.len()
                == 0 && k.sort@.len() == 0 && k.setop@.len() == 0
        }),
{
    crate::aggorder::lemma_longer(k.distinct, k.sort);
    lemma_nil(k.group);
    lemma_nil(k.window);
    lemma_nil(k.sort);
    lemma_nil(k.distinct);
}

proof fn lemma_nil<T>(l: List<T>)
    ensures
        l is Nil <==> l@.len() == 0,
{
    match l {
        List::Nil => {
            assert(l@.len() == 0);
        },
        List::Cons(_, rest) => {
            assert(l@.len() == 1 + rest@.len());
        },
    }
}

/// A limit that is known counts as its number of rows, and as one row where it
/// lets none through; an offset counts as the rows that it leaves out. What is
/// not known counts as neither, and a greater number never as fewer rows.
pub proof fn lemma_limit_estimates(n: i64, m: i64)
    requires
        i64::MIN < n <= m,
    ensures
        n > 0 ==> limit_estimate(LimitValue::Value(n)) == n,
        n <= 0 ==> limit_estimate(LimitValue::Value(n)) == 1,
        n >= 0 ==> offset_estimate(LimitValue::Value(n)) == n,
        n <= 0 ==> offset_estimate(LimitValue::Value(n)) == 0,
        1 <= limit_estimate(LimitValue::Value(n)) <= limit_estimate(LimitValue::Value(m)),
        0 <= offset_estimate(LimitValue::Value(n)) <= offset_estimate(LimitValue::Value(m)),
        limit_estimate(LimitValue::Unknown) < 0,
        offset_estimate(LimitValue::Unknown) < 0,
        limit_estimate(LimitValue::Absent) == 0,
        limit_estimate(LimitValue::Null) == 0,
        offset_estimate(LimitValue::Absent) == 0,
        offset_estimate(LimitValue::Null) == 0,
{
}

/// Only where limit and offset surely leave no row out is no step for them
/// needed: a limit that is absent or NULL, and an offset that is absent, NULL or
/// zero.
pub proof fn lemma_limit_step(c: crate::expr::Const, e: Expr)
    ensures
        !counts_rows(None),
        !skips_rows(None),
        counts_rows(Some(Expr::Const(c))) <==> !c.isnull,
        skips_rows(Some(Expr::Const(c))) <==> !c.isnull && c.value != 0,
        !(e is Const) ==> counts_rows(Some(e)) && skips_rows(Some(e)),
{
}

/// The result is computed at the top, and each step below computes what the next
/// one needs: without window functions the grouping computes the input of the
/// sort, without a grouping scans and joins compute what it would.
pub proof fn lemma_level_targets(
    q: QueryFacts,
    last: u32,
    sort_input: Option<u32>,
    window_input: u32,
    group_input: u32,
)
    ensures
        ({
            let t = level_targets(q, last, sort_input, window_input, group_input);
            let groups = q.has_aggs || q.has_groups || q.grouping_sets > 0 || q.has_having;
            &&& t.last == last
            &&& !q.has_sort || sort_input is None ==> t.sort_input == last
            &&& q.has_sort && sort_input is Some ==> Some(t.sort_input) == sort_input
            &&& q.active_windows ==> t.grouping == window_input
            &&& !q.active_windows ==> t.grouping == t.sort_input
            &&& groups ==> t.scanjoin == group_input
            &&& !groups ==> t.scanjoin == t.grouping
        }),
{
}

/// A grouping wants no order where its clauses cannot be sorted; else the order
/// that it wants is that of its clauses, unless ordered aggregates change it.
/// The part that is for GROUP BY itself is all of that of the clauses.
pub proof fn lemma_grouping_keys(q: QueryFacts, o: OrderInputs)
    ensures
        o.rollup matches Some(r) ==> (if forall|i: int|
            0 <= i < r.clauses@.len() ==> (#[trigger] r.clauses@[i]).sortop != 0 {
            grouping_keys(q, o) == r.keys
        } else {
            grouping_keys(q, o)@.len() == 0
        }),
        o.rollup is None && (o.group matches Some(g) && !g.sortable) ==> grouping_keys(
            q,
            o,
        )@.len() == 0 && presorted_aggs(q, o)@.len() == 0 && groupby_keys(q, o) == 0,
        o.rollup is None && q.ordered_aggs == 0 && q.has_groups ==> (o.group matches Some(g) ==> (
        g.sortable ==> grouping_keys(q, o) == g.keys && (g.keys@.len() <= usize::MAX
            ==> groupby_keys(q, o) == g.keys@.len()))),
        q.ordered_aggs == 0 ==> presorted_aggs(q, o)@.len() == 0,
{
    let none: List<PathKey> = List::Nil;
    assert(none@.len() == 0);
    let nothing: List<u32> = List::Nil;
    assert(nothing@.len() == 0);
    if let Some(g) = o.group {
        if g.keys@.len() <= usize::MAX {
            lemma_length(g.keys);
        }
    }
}

proof fn lemma_length<T>(l: List<T>)
    requires
        l@.len() <= usize::MAX,
    ensures
        crate::extstats::length(l) == l@.len(),
    decreases l,
{
    if let List::Cons(_, xs) = l {
        lemma_length(*xs);
    }
}

/// The partitions whose paths are put together are all that have rows, in their
/// order.
pub proof fn lemma_target_partitions(parts: List<TargetPartition>)
    ensures
        live_partitions(parts)@ == parts@.filter(|p: TargetPartition| !p.dummy).map_values(
            |p: TargetPartition| p.rel,
        ),
    decreases parts,
{
    let f = |p: TargetPartition| !p.dummy;
    match parts {
        List::Nil => {
            reveal(Seq::filter);
            assert(live_partitions(parts)@ =~= parts@.filter(f).map_values(
                |p: TargetPartition| p.rel,
            ));
        },
        List::Cons(p, ps) => {
            lemma_target_partitions(*ps);
            crate::quals::lemma_filter_cons(p, ps@, f);
            let kept = ps@.filter(f);
            assert((seq![p] + kept).map_values(|p: TargetPartition| p.rel) =~= seq![p.rel]
                + kept.map_values(|p: TargetPartition| p.rel));
        },
    }
}

} // verus!

//! Which paths are tried above scans and joins: for grouping, for DISTINCT and
//! for ORDER BY.
//!
//! Costs decide among the paths afterwards. What stands here says which ones
//! are built, from which inputs and in which order.
use vstd::prelude::*;
use crate::aggorder::{compare_pathkeys, longer, KeysComparison};
use crate::error::PlannerError;
use crate::expr::{equal_lists, AggSplit, Expr};
use crate::extstats::find_length;
use crate::groupingsets_paths::AggStrategy;
use crate::list::{count_one, counted, List};
use crate::sortcols::PathKey;
use crate::sortgroup::SortGroupClause;
use crate::targets::{make_partial_grouping_target, TargetColumns};

verus! {

/// How an input is brought into an order.
#[derive(Clone, Copy, Debug, PartialEq, Eq, Structural)]
pub enum SortStep {
    /// It has the order.
    AsIs,
    Sort,
    /// It is sorted by so many keys already.
    IncrementalSort(usize),
}

/// How many of the keys that are asked for are there, from the first on.
pub open spec fn presorted_keys(asked: List<PathKey>, there: List<PathKey>) -> usize
    decreases asked,
{
    match (asked, there) {
        (List::Cons(a, xs), List::Cons(b, ys)) => if a == b {
            counted(presorted_keys(*xs, *ys))
        } else {
            0
        },
        _ => 0,
    }
}

/// Tests whether the order that is asked for is there, and counts its keys
/// that are.
pub fn pathkeys_count_contained_in(asked: &List<PathKey>, there: &List<PathKey>) -> (r: (
    bool,
    usize,
))
    ensures
        r.0 == crate::plangroup::order_contained(*asked, *there),
        r.1 == presorted_keys(*asked, *there),
    decreases asked,
{
    match asked {
        List::Nil => (true, 0),
        List::Cons(a, xs) => match there {
            List::Nil => (false, 0),
            List::Cons(b, ys) => if *a == *b {
                let (contained, n) = pathkeys_count_contained_in(xs, ys);
                (contained, count_one(n))
            } else {
                (false, 0)
            },
        },
    }
}

/// How a path is brought into an order; not at all where that takes a full
/// sort and the path is not the cheapest.
pub open spec fn ordered_step(
    there: List<PathKey>,
    cheapest: bool,
    asked: List<PathKey>,
    enable_incremental_sort: bool,
) -> Option<SortStep> {
    let n = presorted_keys(asked, there);
    if crate::plangroup::order_contained(asked, there) {
        Some(SortStep::AsIs)
    } else if n == 0 || !enable_incremental_sort {
        if cheapest {
            Some(SortStep::Sort)
        } else {
            None
        }
    } else {
        Some(SortStep::IncrementalSort(n))
    }
}

/// Decides how a path is brought into an order.
pub fn make_ordered_path(
    there: &List<PathKey>,
    cheapest: bool,
    asked: &List<PathKey>,
    enable_incremental_sort: bool,
) -> (r: Option<SortStep>)
    ensures
        r == ordered_step(*there, cheapest, *asked, enable_incremental_sort),
{
    let (is_sorted, n) = pathkeys_count_contained_in(asked, there);
    if is_sorted {
        return Some(SortStep::AsIs);
    }
    let full = n == 0 || !enable_incremental_sort;
    if !cheapest && full {
        return None;
    }
    if full {
        Some(SortStep::Sort)
    } else {
        Some(SortStep::IncrementalSort(n))
    }
}

/// An order that a grouping can make use of, with the clauses in that order.
#[derive(Debug)]
pub struct GroupOrdering {
    pub pathkeys: List<PathKey>,
    pub clauses: List<SortGroupClause>,
}

/// A path that is there, with what it computes, its order and the orders that a
/// grouping on top of it can make use of.
#[derive(Debug)]
pub struct InputPath {
    pub id: u32,
    pub target: List<Expr>,
    pub pathkeys: List<PathKey>,
    pub orderings: List<GroupOrdering>,
}

/// How rows are grouped.
#[derive(Clone, Copy, Debug, PartialEq, Eq, Structural)]
pub enum GroupStep {
    Agg(AggStrategy, AggSplit),
    Group,
    /// The paths for grouping sets: whether the input is sorted, and whether
    /// hashing may be used.
    Sets(bool, bool),
}

/// Which estimate of the number of groups applies.
#[derive(Clone, Copy, Debug, PartialEq, Eq, Structural)]
pub enum GroupsOf {
    /// That of all rows.
    All,
    /// That of the rows of a partition.
    Partition,
    /// That of the rows that one worker sees.
    Worker,
}

/// What the paths for a grouping have in common.
#[derive(Clone, Copy, Debug, PartialEq, Eq, Structural)]
pub struct GroupShape {
    pub step: GroupStep,
    /// HAVING is tested here.
    pub having: bool,
    pub groups: GroupsOf,
    /// The path is one of those that run in parallel.
    pub partial: bool,
}

/// A path for a grouping: an input, how it is sorted, and how its rows are
/// grouped.
#[derive(Debug)]
pub struct GroupProposal {
    pub input: u32,
    pub sort: SortStep,
    pub pathkeys: List<PathKey>,
    pub clauses: List<SortGroupClause>,
    pub shape: GroupShape,
}

fn copy_proposal_part(o: &GroupOrdering) -> (r: GroupOrdering)
    ensures
        r == *o,
{
    GroupOrdering { pathkeys: o.pathkeys.copy(), clauses: o.clauses.copy() }
}

/// The paths over one input: one for each order that can be had.
pub open spec fn path_proposals(
    shape: GroupShape,
    path: InputPath,
    orderings: List<GroupOrdering>,
    cheapest: u32,
    enable_incremental_sort: bool,
) -> List<GroupProposal>
    decreases orderings,
{
    match orderings {
        List::Nil => List::Nil,
        List::Cons(o, os) => {
            let rest = path_proposals(shape, path, *os, cheapest, enable_incremental_sort);
            match ordered_step(
                path.pathkeys,
                path.id == cheapest,
                o.pathkeys,
                enable_incremental_sort,
            ) {
                None => rest,
                Some(sort) => List::Cons(
                    GroupProposal {
                        input: path.id,
                        sort,
                        pathkeys: o.pathkeys,
                        clauses: o.clauses,
                        shape,
                    },
                    Box::new(rest),
                ),
            }
        },
    }
}

fn propose_over_path(
    shape: GroupShape,
    path: &InputPath,
    orderings: &List<GroupOrdering>,
    cheapest: u32,
    enable_incremental_sort: bool,
) -> (r: List<GroupProposal>)
    ensures
        r == path_proposals(shape, *path, *orderings, cheapest, enable_incremental_sort),
    decreases orderings,
{
    match orderings {
        List::Nil => List::Nil,
        List::Cons(o, os) => {
            let rest = propose_over_path(shape, path, os, cheapest, enable_incremental_sort);
            match make_ordered_path(
                &path.pathkeys,
                path.id == cheapest,
                &o.pathkeys,
                enable_incremental_sort,
            ) {
                None => rest,
                Some(sort) => {
                    let part = copy_proposal_part(o);
                    List::Cons(
                        GroupProposal {
                            input: path.id,
                            sort,
                            pathkeys: part.pathkeys,
                            clauses: part.clauses,
                            shape,
                        },
                        Box::new(rest),
                    )
                },
            }
        },
    }
}

/// The paths over sorted inputs.
pub open spec fn sorted_proposals(
    shape: GroupShape,
    paths: List<InputPath>,
    cheapest: u32,
    enable_incremental_sort: bool,
) -> List<GroupProposal>
    decreases paths,
{
    match paths {
        List::Nil => List::Nil,
        List::Cons(p, ps) => path_proposals(
            shape,
            p,
            p.orderings,
            cheapest,
            enable_incremental_sort,
        ).then_list(sorted_proposals(shape, *ps, cheapest, enable_incremental_sort)),
    }
}

fn propose_sorted(
    shape: GroupShape,
    paths: &List<InputPath>,
    cheapest: u32,
    enable_incremental_sort: bool,
) -> (r: List<GroupProposal>)
    ensures
        r == sorted_proposals(shape, *paths, cheapest, enable_incremental_sort),
    decreases paths,
{
    match paths {
        List::Nil => List::Nil,
        List::Cons(p, ps) => {
            let here = propose_over_path(
                shape,
                p,
                &p.orderings,
                cheapest,
                enable_incremental_sort,
            );
            here.append(propose_sorted(shape, ps, cheapest, enable_incremental_sort))
        },
    }
}

/// Only the cheapest input is sorted in full; every other one is used in the
/// order that it has, or in one that its order is the beginning of.
pub proof fn lemma_only_cheapest_sorted(
    shape: GroupShape,
    paths: List<InputPath>,
    cheapest: u32,
    enable_incremental_sort: bool,
    i: int,
)
    requires
        0 <= i < sorted_proposals(shape, paths, cheapest, enable_incremental_sort)@.len(),
    ensures
        ({
            let p = sorted_proposals(shape, paths, cheapest, enable_incremental_sort)@[i];
            &&& p.sort == SortStep::Sort ==> p.input == cheapest
            &&& p.sort is IncrementalSort ==> enable_incremental_sort
            &&& p.shape == shape
        }),
    decreases paths,
{
    if let List::Cons(p, ps) = paths {
        let here = path_proposals(shape, p, p.orderings, cheapest, enable_incremental_sort);
        let rest = sorted_proposals(shape, *ps, cheapest, enable_incremental_sort);
        crate::list::lemma_then_view(here, rest);
        if i < here@.len() {
            lemma_path_only_cheapest(shape, p, p.orderings, cheapest, enable_incremental_sort, i);
        } else {
            lemma_only_cheapest_sorted(
                shape,
                *ps,
                cheapest,
                enable_incremental_sort,
                i - here@.len(),
            );
        }
    }
}

proof fn lemma_path_only_cheapest(
    shape: GroupShape,
    path: InputPath,
    orderings: List<GroupOrdering>,
    cheapest: u32,
    enable_incremental_sort: bool,
    i: int,
)
    requires
        0 <= i < path_proposals(shape, path, orderings, cheapest, enable_incremental_sort)@.len(),
    ensures
        ({
            let p = path_proposals(
                shape,
                path,
                orderings,
                cheapest,
                enable_incremental_sort,
            )@[i];
            &&& p.sort == SortStep::Sort ==> p.input == cheapest
            &&& p.sort is IncrementalSort ==> enable_incremental_sort
            &&& p.shape == shape
        }),
    decreases orderings,
{
    if let List::Cons(o, os) = orderings {
        let rest = path_proposals(shape, path, *os, cheapest, enable_incremental_sort);
        let all = path_proposals(shape, path, orderings, cheapest, enable_incremental_sort);
        let step = ordered_step(
            path.pathkeys,
            path.id == cheapest,
            o.pathkeys,
            enable_incremental_sort,
        );
        if step is None {
            lemma_path_only_cheapest(shape, path, *os, cheapest, enable_incremental_sort, i);
        } else if i > 0 {
            lemma_path_only_cheapest(shape, path, *os, cheapest, enable_incremental_sort, i - 1);
            assert(all@[i] == rest@[i - 1]);
        }
    }
}

/// What the grouping of a query is known to be.
#[derive(Debug)]
pub struct Grouping {
    pub has_aggs: bool,
    /// There is a GROUP BY.
    pub has_groups: bool,
    pub has_grouping_sets: bool,
    pub can_sort: bool,
    pub can_hash: bool,
    pub clauses: List<SortGroupClause>,
    pub enable_incremental_sort: bool,
}

/// How sorted rows are grouped without grouping sets.
pub open spec fn sorted_step(g: Grouping, split: AggSplit) -> GroupStep {
    if g.has_aggs {
        GroupStep::Agg(
            if g.has_groups {
                AggStrategy::Sorted
            } else {
                AggStrategy::Plain
            },
            split,
        )
    } else {
        GroupStep::Group
    }
}

fn choose_sorted_step(g: &Grouping, split: AggSplit) -> (r: GroupStep)
    ensures
        r == sorted_step(*g, split),
{
    if g.has_aggs {
        let strategy = if g.has_groups {
            AggStrategy::Sorted
        } else {
            AggStrategy::Plain
        };
        GroupStep::Agg(strategy, split)
    } else {
        GroupStep::Group
    }
}

/// A path that groups by hashing.
pub open spec fn hashed_proposal(g: Grouping, input: u32, shape: GroupShape) -> List<
    GroupProposal,
> {
    List::Cons(
        GroupProposal {
            input,
            sort: SortStep::AsIs,
            pathkeys: List::Nil,
            clauses: g.clauses,
            shape,
        },
        Box::new(List::Nil),
    )
}

fn propose_hashed(g: &Grouping, input: u32, shape: GroupShape) -> (r: List<GroupProposal>)
    ensures
        r == hashed_proposal(*g, input, shape),
{
    List::one(
        GroupProposal {
            input,
            sort: SortStep::AsIs,
            pathkeys: List::Nil,
            clauses: g.clauses.copy(),
            shape,
        },
    )
}

/// What there is to aggregate in part.
#[derive(Debug)]
pub struct PartialInput {
    /// Partial aggregation is not wanted for this query.
    pub suppressed: bool,
    /// The result is needed even if it has no paths yet.
    pub force: bool,
    /// The relation is a partition whose parent aggregates in full.
    pub parent_finishes: bool,
    pub paths: List<InputPath>,
    pub cheapest: u32,
    /// The grouped relation may be computed in parallel.
    pub consider_parallel: bool,
    pub partial_paths: List<InputPath>,
}

/// What a grouping computes: its columns with their labels, and HAVING.
#[derive(Debug)]
pub struct GroupTarget {
    pub exprs: List<Expr>,
    pub refs: List<u32>,
    pub having: List<Expr>,
}

/// The relation for what is aggregated in part.
#[derive(Debug)]
pub struct PartialGroups {
    pub target: TargetColumns,
    pub consider_parallel: bool,
    pub paths: List<GroupProposal>,
}

/// The number of the first path.
pub open spec fn first_path(paths: List<InputPath>) -> u32 {
    match paths {
        List::Nil => 0,
        List::Cons(p, _) => p.id,
    }
}

fn find_first_path(paths: &List<InputPath>) -> (r: u32)
    ensures
        r == first_path(*paths),
{
    match paths {
        List::Nil => 0,
        List::Cons(p, _) => p.id,
    }
}

/// The paths that aggregate in part; none at all where there is nothing to
/// aggregate in part and the result is not needed.
pub open spec fn partial_grouping_paths(g: Grouping, input: PartialInput) -> Option<
    List<GroupProposal>,
> {
    let whole = !(input.paths is Nil) && input.parent_finishes;
    let parallel = input.consider_parallel && !(input.partial_paths is Nil);
    let worker_cheapest = first_path(input.partial_paths);
    let step = sorted_step(g, AggSplit::InitialSerial);
    let hash = GroupStep::Agg(AggStrategy::Hashed, AggSplit::InitialSerial);
    if (input.suppressed || (!whole && !parallel)) && !input.force {
        None
    } else {
        let sorted_whole = if g.can_sort && whole {
            sorted_proposals(
                GroupShape { step, having: false, groups: GroupsOf::Partition, partial: false },
                input.paths,
                input.cheapest,
                g.enable_incremental_sort,
            )
        } else {
            List::Nil
        };
        let sorted_parallel = if g.can_sort && parallel {
            sorted_proposals(
                GroupShape { step, having: false, groups: GroupsOf::Worker, partial: true },
                input.partial_paths,
                worker_cheapest,
                g.enable_incremental_sort,
            )
        } else {
            List::Nil
        };
        let hashed_whole = if g.can_hash && whole {
            hashed_proposal(
                g,
                input.cheapest,
                GroupShape {
                    step: hash,
                    having: false,
                    groups: GroupsOf::Partition,
                    partial: false,
                },
            )
        } else {
            List::Nil
        };
        let hashed_parallel = if g.can_hash && parallel {
            hashed_proposal(
                g,
                worker_cheapest,
                GroupShape { step: hash, having: false, groups: GroupsOf::Worker, partial: true },
            )
        } else {
            List::Nil
        };
        Some(
            sorted_whole.then_list(
                sorted_parallel.then_list(hashed_whole.then_list(hashed_parallel)),
            ),
        )
    }
}

/// The relation for what is aggregated in part: its target is what the grouping
/// is computed from, and it may be computed in parallel where the grouped
/// relation may be.
pub open spec fn partial_groups(g: Grouping, input: PartialInput, target: GroupTarget) -> Result<
    Option<PartialGroups>,
    PlannerError,
> {
    match partial_grouping_paths(g, input) {
        None => Ok(None),
        Some(paths) => match crate::targets::partial_target(
            target.exprs,
            target.refs,
            g.clauses,
            target.having,
        ) {
            Err(e) => Err(e),
            Ok(columns) => Ok(
                Some(
                    PartialGroups {
                        target: columns,
                        consider_parallel: input.consider_parallel,
                        paths,
                    },
                ),
            ),
        },
    }
}

/// Sets up the relation for what is aggregated in part, if there is to be one.
pub fn create_partial_grouping_paths(g: &Grouping, input: &PartialInput, target: &GroupTarget) -> (r:
    Result<Option<PartialGroups>, PlannerError>)
    ensures
        r == partial_groups(*g, *input, *target),
{
    match propose_partial(g, input) {
        None => Ok(None),
        Some(paths) => match make_partial_grouping_target(
            &target.exprs,
            &target.refs,
            &g.clauses,
            &target.having,
        ) {
            Err(e) => Err(e),
            Ok(columns) => Ok(
                Some(
                    PartialGroups {
                        target: columns,
                        consider_parallel: input.consider_parallel,
                        paths,
                    },
                ),
            ),
        },
    }
}

fn propose_partial(g: &Grouping, input: &PartialInput) -> (r: Option<List<GroupProposal>>)
    ensures
        r == partial_grouping_paths(*g, *input),
{
    let whole = !input.paths.is_nil() && input.parent_finishes;
    let parallel = input.consider_parallel && !input.partial_paths.is_nil();
    if (input.suppressed || (!whole && !parallel)) && !input.force {
        return None;
    }
    let worker_cheapest: u32 = find_first_path(&input.partial_paths);
    let step = choose_sorted_step(g, AggSplit::InitialSerial);
    let hash = GroupStep::Agg(AggStrategy::Hashed, AggSplit::InitialSerial);
    let sorted_whole = if g.can_sort && whole {
        propose_sorted(
            GroupShape { step, having: false, groups: GroupsOf::Partition, partial: false },
            &input.paths,
            input.cheapest,
            g.enable_incremental_sort,
        )
    } else {
        List::Nil
    };
    let sorted_parallel = if g.can_sort && parallel {
        propose_sorted(
            GroupShape { step, having: false, groups: GroupsOf::Worker, partial: true },
            &input.partial_paths,
            worker_cheapest,
            g.enable_incremental_sort,
        )
    } else {
        List::Nil
    };
    let hashed_whole = if g.can_hash && whole {
        propose_hashed(
            g,
            input.cheapest,
            GroupShape { step: hash, having: false, groups: GroupsOf::Partition, partial: false },
        )
    } else {
        List::Nil
    };
    let hashed_parallel = if g.can_hash && parallel {
        propose_hashed(
            g,
            worker_cheapest,
            GroupShape { step: hash, having: false, groups: GroupsOf::Worker, partial: true },
        )
    } else {
        List::Nil
    };
    Some(sorted_whole.append(sorted_parallel.append(hashed_whole.append(hashed_parallel))))
}

/// The paths that aggregate in full: over the input, and over what has been
/// aggregated in part.
pub open spec fn grouping_rel_paths(
    g: Grouping,
    paths: List<InputPath>,
    cheapest: u32,
    partial: Option<(List<InputPath>, u32)>,
) -> List<GroupProposal> {
    let sorted = if g.can_sort {
        sorted_proposals(
            GroupShape {
                step: if g.has_grouping_sets {
                    GroupStep::Sets(true, g.can_hash)
                } else {
                    sorted_step(g, AggSplit::Simple)
                },
                having: true,
                groups: GroupsOf::All,
                partial: false,
            },
            paths,
            cheapest,
            g.enable_incremental_sort,
        )
    } else {
        List::Nil
    };
    let finished = match partial {
        Some(p) if g.can_sort => sorted_proposals(
            GroupShape {
                step: sorted_step(g, AggSplit::FinalDeserial),
                having: true,
                groups: GroupsOf::All,
                partial: false,
            },
            p.0,
            p.1,
            g.enable_incremental_sort,
        ),
        _ => List::Nil,
    };
    let hashed = if g.can_hash {
        hashed_proposal(
            g,
            cheapest,
            GroupShape {
                step: if g.has_grouping_sets {
                    GroupStep::Sets(false, true)
                } else {
                    GroupStep::Agg(AggStrategy::Hashed, AggSplit::Simple)
                },
                having: true,
                groups: GroupsOf::All,
                partial: false,
            },
        )
    } else {
        List::Nil
    };
    let hash_finished = match partial {
        Some(p) if g.can_hash && !(p.0 is Nil) => hashed_proposal(
            g,
            p.1,
            GroupShape {
                step: GroupStep::Agg(AggStrategy::Hashed, AggSplit::FinalDeserial),
                having: true,
                groups: GroupsOf::All,
                partial: false,
            },
        ),
        _ => List::Nil,
    };
    sorted.then_list(finished.then_list(hashed.then_list(hash_finished)))
}

/// The paths that aggregate in full, and what is put on top of those of them
/// that run in parallel, if there are any: rows are gathered as they come, and
/// these are sorted by the given order and merged.
#[derive(Debug)]
pub struct GroupingPaths {
    pub proposals: List<GroupProposal>,
    pub gathered: Option<(List<PathKey>, List<MergedPath>)>,
}

/// The parallel paths of a grouped relation.
#[derive(Debug)]
pub struct ParallelGroups {
    pub group_pathkeys: List<PathKey>,
    pub num_groupby_pathkeys: usize,
    /// Those that aggregate in full: parallel paths of all partitions.
    pub paths: List<InputPath>,
}

/// Chooses the paths that aggregate in full. `partial` holds the paths that
/// have aggregated in part, with the cheapest of them. What the relation has of
/// parallel paths is gathered in the end.
pub fn add_paths_to_grouping_rel(
    g: &Grouping,
    paths: &List<InputPath>,
    cheapest: u32,
    partial: &Option<(List<InputPath>, u32)>,
    own: &ParallelGroups,
) -> (r: GroupingPaths)
    requires
        g.can_sort ==> g.has_aggs || g.has_groups || g.has_grouping_sets,
    ensures
        r.proposals == grouping_rel_paths(*g, *paths, cheapest, *partial),
        r.gathered == if own.paths is Nil {
            None
        } else {
            Some(
                (
                    first_keys(own.group_pathkeys, own.num_groupby_pathkeys),
                    merged_paths(
                        first_keys(own.group_pathkeys, own.num_groupby_pathkeys),
                        own.paths,
                        first_path(own.paths),
                        g.enable_incremental_sort,
                    ),
                ),
            )
        },
{
    let proposals = propose_grouping_paths(g, paths, cheapest, partial);
    let gathered = if own.paths.is_nil() {
        None
    } else {
        Some(
            gather_grouping_paths(
                &own.group_pathkeys,
                own.num_groupby_pathkeys,
                &own.paths,
                g.enable_incremental_sort,
            ),
        )
    };
    GroupingPaths { proposals, gathered }
}

fn propose_grouping_paths(
    g: &Grouping,
    paths: &List<InputPath>,
    cheapest: u32,
    partial: &Option<(List<InputPath>, u32)>,
) -> (r: List<GroupProposal>)
    ensures
        r == grouping_rel_paths(*g, *paths, cheapest, *partial),
{
    let sorted = if g.can_sort {
        let step = if g.has_grouping_sets {
            GroupStep::Sets(true, g.can_hash)
        } else {
            choose_sorted_step(g, AggSplit::Simple)
        };
        propose_sorted(
            GroupShape { step, having: true, groups: GroupsOf::All, partial: false },
            paths,
            cheapest,
            g.enable_incremental_sort,
        )
    } else {
        List::Nil
    };
    let finished = match partial {
        Some(p) => if g.can_sort {
            let step = choose_sorted_step(g, AggSplit::FinalDeserial);
            propose_sorted(
                GroupShape { step, having: true, groups: GroupsOf::All, partial: false },
                &p.0,
                p.1,
                g.enable_incremental_sort,
            )
        } else {
            List::Nil
        },
        None => List::Nil,
    };
    let hashed = if g.can_hash {
        let step = if g.has_grouping_sets {
            GroupStep::Sets(false, true)
        } else {
            GroupStep::Agg(AggStrategy::Hashed, AggSplit::Simple)
        };
        propose_hashed(
            g,
            cheapest,
            GroupShape { step, having: true, groups: GroupsOf::All, partial: false },
        )
    } else {
        List::Nil
    };
    let hash_finished = match partial {
        Some(p) => if g.can_hash && !p.0.is_nil() {
            propose_hashed(
                g,
                p.1,
                GroupShape {
                    step: GroupStep::Agg(AggStrategy::Hashed, AggSplit::FinalDeserial),
                    having: true,
                    groups: GroupsOf::All,
                    partial: false,
                },
            )
        } else {
            List::Nil
        },
        None => List::Nil,
    };
    sorted.append(finished.append(hashed.append(hash_finished)))
}

/// Without sorting and without hashing nothing is proposed, and where either
/// is possible at least the cheapest input is used: a grouping fails only
/// where it can neither be sorted nor hashed.
pub proof fn lemma_grouping_possible(
    g: Grouping,
    paths: List<InputPath>,
    cheapest: u32,
    partial: Option<(List<InputPath>, u32)>,
)
    ensures
        !g.can_sort && !g.can_hash ==> grouping_rel_paths(g, paths, cheapest, partial) is Nil,
        g.can_hash ==> !(grouping_rel_paths(g, paths, cheapest, partial) is Nil),
        g.can_sort && holds_usable(paths, cheapest) ==> !(grouping_rel_paths(
            g,
            paths,
            cheapest,
            partial,
        ) is Nil),
{
    let shape = GroupShape {
        step: if g.has_grouping_sets {
            GroupStep::Sets(true, g.can_hash)
        } else {
            sorted_step(g, AggSplit::Simple)
        },
        having: true,
        groups: GroupsOf::All,
        partial: false,
    };
    if g.can_sort && holds_usable(paths, cheapest) {
        lemma_usable(shape, paths, cheapest, g.enable_incremental_sort);
    }
}

/// The cheapest path is among the paths, and some order of it is of use.
pub open spec fn holds_usable(paths: List<InputPath>, cheapest: u32) -> bool
    decreases paths,
{
    match paths {
        List::Nil => false,
        List::Cons(p, ps) => (p.id == cheapest && !(p.orderings is Nil)) || holds_usable(
            *ps,
            cheapest,
        ),
    }
}

proof fn lemma_usable(
    shape: GroupShape,
    paths: List<InputPath>,
    cheapest: u32,
    enable_incremental_sort: bool,
)
    requires
        holds_usable(paths, cheapest),
    ensures
        !(sorted_proposals(shape, paths, cheapest, enable_incremental_sort) is Nil),
    decreases paths,
{
    if let List::Cons(p, ps) = paths {
        let here = path_proposals(shape, p, p.orderings, cheapest, enable_incremental_sort);
        let rest = sorted_proposals(shape, *ps, cheapest, enable_incremental_sort);
        crate::list::lemma_then_view(here, rest);
        if p.id == cheapest && !(p.orderings is Nil) {
            assert(here@.len() > 0);
        } else {
            lemma_usable(shape, *ps, cheapest, enable_incremental_sort);
            assert(rest@.len() > 0);
        }
        assert(here.then_list(rest)@.len() > 0);
    }
}

/// A parallel path that is sorted and whose rows are then merged.
#[derive(Debug)]
pub struct MergedPath {
    pub input: u32,
    pub sort: SortStep,
}

/// The parallel paths that are sorted to be merged: those that have the order
/// already have been merged before.
pub open spec fn merged_paths(
    keys: List<PathKey>,
    paths: List<InputPath>,
    cheapest: u32,
    enable_incremental_sort: bool,
) -> List<MergedPath>
    decreases paths,
{
    match paths {
        List::Nil => List::Nil,
        List::Cons(p, ps) => {
            let rest = merged_paths(keys, *ps, cheapest, enable_incremental_sort);
            match ordered_step(p.pathkeys, p.id == cheapest, keys, enable_incremental_sort) {
                None => rest,
                Some(sort) => if sort == SortStep::AsIs {
                    rest
                } else {
                    List::Cons(MergedPath { input: p.id, sort }, Box::new(rest))
                },
            }
        },
    }
}

fn propose_merged(
    keys: &List<PathKey>,
    paths: &List<InputPath>,
    cheapest: u32,
    enable_incremental_sort: bool,
) -> (r: List<MergedPath>)
    ensures
        r == merged_paths(*keys, *paths, cheapest, enable_incremental_sort),
    decreases paths,
{
    match paths {
        List::Nil => List::Nil,
        List::Cons(p, ps) => {
            let rest = propose_merged(keys, ps, cheapest, enable_incremental_sort);
            match make_ordered_path(&p.pathkeys, p.id == cheapest, keys, enable_incremental_sort) {
                None => rest,
                Some(sort) => if sort == SortStep::AsIs {
                    rest
                } else {
                    List::Cons(MergedPath { input: p.id, sort }, Box::new(rest))
                },
            }
        },
    }
}

/// The first keys of an order.
pub open spec fn first_keys(keys: List<PathKey>, n: usize) -> List<PathKey>
    decreases keys,
{
    match keys {
        List::Nil => List::Nil,
        List::Cons(k, ks) => if n == 0 {
            List::Nil
        } else {
            List::Cons(k, Box::new(first_keys(*ks, (n - 1) as usize)))
        },
    }
}

fn take_keys(keys: &List<PathKey>, n: usize) -> (r: List<PathKey>)
    ensures
        r == first_keys(*keys, n),
    decreases keys,
{
    match keys {
        List::Nil => List::Nil,
        List::Cons(k, ks) => if n == 0 {
            List::Nil
        } else {
            List::Cons(*k, Box::new(take_keys(ks, n - 1)))
        },
    }
}

/// Chooses the parallel grouping paths that are sorted and merged. The order
/// is that of GROUP BY, without what was added for ordered aggregates.
pub fn gather_grouping_paths(
    group_pathkeys: &List<PathKey>,
    num_groupby_pathkeys: usize,
    partial_paths: &List<InputPath>,
    enable_incremental_sort: bool,
) -> (r: (List<PathKey>, List<MergedPath>))
    ensures
        r.0 == first_keys(*group_pathkeys, num_groupby_pathkeys),
        r.1 == merged_paths(
            first_keys(*group_pathkeys, num_groupby_pathkeys),
            *partial_paths,
            first_path(*partial_paths),
            enable_incremental_sort,
        ),
{
    let keys = take_keys(group_pathkeys, num_groupby_pathkeys);
    let cheapest: u32 = find_first_path(partial_paths);
    let merged = propose_merged(&keys, partial_paths, cheapest, enable_incremental_sort);
    (keys, merged)
}

/// A path for ORDER BY: an input and how it is sorted.
#[derive(Clone, Copy, Debug, PartialEq, Eq, Structural)]
pub struct OrderedPath {
    pub input: u32,
    pub sort: SortStep,
    /// The input is a parallel one, and the sorted rows of the workers are
    /// merged.
    pub merged: bool,
    /// A projection on top computes the target of the query level.
    pub project: bool,
}

/// What ORDER BY asks of its inputs.
#[derive(Debug)]
pub struct OrderRequest {
    pub keys: List<PathKey>,
    /// What the query level computes.
    pub target: List<Expr>,
    /// The inputs may be computed in parallel.
    pub input_parallel: bool,
    /// What the query level computes may be computed in parallel.
    pub target_parallel_safe: bool,
    /// No rows of workers are gathered here.
    pub suppressed: bool,
    pub enable_incremental_sort: bool,
}

/// The ordered relation.
#[derive(Debug)]
pub struct OrderedRel {
    pub consider_parallel: bool,
    pub paths: List<OrderedPath>,
}

/// The paths for ORDER BY over some of the inputs. Sorting and merging leave
/// what a path computes as it is, so a projection goes on top unless that is
/// what the query level computes. Parallel inputs that have the order already
/// have been merged before.
pub open spec fn paths_in_order(
    request: OrderRequest,
    paths: List<InputPath>,
    cheapest: u32,
    merged: bool,
) -> List<OrderedPath>
    decreases paths,
{
    match paths {
        List::Nil => List::Nil,
        List::Cons(p, ps) => {
            let rest = paths_in_order(request, *ps, cheapest, merged);
            match ordered_step(
                p.pathkeys,
                p.id == cheapest,
                request.keys,
                request.enable_incremental_sort,
            ) {
                None => rest,
                Some(sort) => if merged && sort == SortStep::AsIs {
                    rest
                } else {
                    List::Cons(
                        OrderedPath {
                            input: p.id,
                            sort,
                            merged,
                            project: !crate::expr::same_exprs(p.target, request.target),
                        },
                        Box::new(rest),
                    )
                },
            }
        },
    }
}

fn propose_ordered(
    request: &OrderRequest,
    paths: &List<InputPath>,
    cheapest: u32,
    merged: bool,
) -> (r: List<OrderedPath>)
    ensures
        r == paths_in_order(*request, *paths, cheapest, merged),
    decreases paths,
{
    match paths {
        List::Nil => List::Nil,
        List::Cons(p, ps) => {
            let rest = propose_ordered(request, ps, cheapest, merged);
            match make_ordered_path(
                &p.pathkeys,
                p.id == cheapest,
                &request.keys,
                request.enable_incremental_sort,
            ) {
                None => rest,
                Some(sort) => if merged && sort == SortStep::AsIs {
                    rest
                } else {
                    let project = !equal_lists(&p.target, &request.target);
                    List::Cons(
                        OrderedPath { input: p.id, sort, merged, project },
                        Box::new(rest),
                    )
                },
            }
        },
    }
}

/// The ordered relation: every ordinary input that has the order or is worth
/// sorting, then, where the relation may be computed in parallel, every
/// parallel input that is sorted and merged.
pub open spec fn ordered_rel(
    request: OrderRequest,
    paths: List<InputPath>,
    cheapest: u32,
    partial_paths: List<InputPath>,
) -> OrderedRel {
    let plain = paths_in_order(request, paths, cheapest, false);
    let parallel = request.input_parallel && request.target_parallel_safe;
    OrderedRel {
        consider_parallel: parallel,
        paths: if parallel && !(request.keys is Nil) && !(partial_paths is Nil)
            && !request.suppressed {
            plain.then_list(
                paths_in_order(request, partial_paths, first_path(partial_paths), true),
            )
        } else {
            plain
        },
    }
}

/// Chooses the paths for ORDER BY.
pub fn create_ordered_paths(
    request: &OrderRequest,
    paths: &List<InputPath>,
    cheapest: u32,
    partial_paths: &List<InputPath>,
) -> (r: OrderedRel)
    ensures
        r == ordered_rel(*request, *paths, cheapest, *partial_paths),
{
    let plain = propose_ordered(request, paths, cheapest, false);
    let parallel = request.input_parallel && request.target_parallel_safe;
    let all = if parallel && !request.keys.is_nil() && !partial_paths.is_nil()
        && !request.suppressed {
        let first: u32 = find_first_path(partial_paths);
        let merged = propose_ordered(request, partial_paths, first, true);
        plain.append(merged)
    } else {
        plain
    };
    OrderedRel { consider_parallel: parallel, paths: all }
}

/// The path is among the paths.
pub open spec fn has_path(paths: List<InputPath>, id: u32) -> bool
    decreases paths,
{
    match paths {
        List::Nil => false,
        List::Cons(p, ps) => p.id == id || has_path(*ps, id),
    }
}

/// ORDER BY always finds a path: at worst the cheapest input is sorted.
pub proof fn lemma_order_possible(
    request: OrderRequest,
    paths: List<InputPath>,
    cheapest: u32,
    partial_paths: List<InputPath>,
)
    requires
        has_path(paths, cheapest),
    ensures
        !(ordered_rel(request, paths, cheapest, partial_paths).paths is Nil),
{
    lemma_plain_possible(request, paths, cheapest);
}

proof fn lemma_plain_possible(request: OrderRequest, paths: List<InputPath>, cheapest: u32)
    requires
        has_path(paths, cheapest),
    ensures
        !(paths_in_order(request, paths, cheapest, false) is Nil),
    decreases paths,
{
    if let List::Cons(p, ps) = paths {
        if p.id != cheapest {
            lemma_plain_possible(request, *ps, cheapest);
        }
    }
}

/// The key is in the order.
pub open spec fn has_key(keys: List<PathKey>, k: PathKey) -> bool
    decreases keys,
{
    match keys {
        List::Nil => false,
        List::Cons(x, xs) => x == k || has_key(*xs, k),
    }
}

fn contains_key(keys: &List<PathKey>, k: PathKey) -> (r: bool)
    ensures
        r == has_key(*keys, k),
    decreases keys,
{
    match keys {
        List::Nil => false,
        List::Cons(x, xs) => *x == k || contains_key(xs, k),
    }
}

/// The keys from the first on that DISTINCT needs, and where `on` is given,
/// that are among those of DISTINCT ON.
pub open spec fn useful_prefix(
    there: List<PathKey>,
    needed: List<PathKey>,
    on: Option<List<PathKey>>,
) -> List<PathKey>
    decreases there,
{
    match there {
        List::Nil => List::Nil,
        List::Cons(k, ks) => if has_key(needed, k) && (on matches Some(l) ==> has_key(l, k)) {
            List::Cons(k, Box::new(useful_prefix(*ks, needed, on)))
        } else {
            List::Nil
        },
    }
}

fn find_useful_prefix(
    there: &List<PathKey>,
    needed: &List<PathKey>,
    on: &Option<List<PathKey>>,
) -> (r: List<PathKey>)
    ensures
        r == useful_prefix(*there, *needed, *on),
    decreases there,
{
    match there {
        List::Nil => List::Nil,
        List::Cons(k, ks) => {
            let allowed = match on {
                Some(l) => contains_key(l, *k),
                None => true,
            };
            if contains_key(needed, *k) && allowed {
                List::Cons(*k, Box::new(find_useful_prefix(ks, needed, on)))
            } else {
                List::Nil
            }
        },
    }
}

/// The order, with those of the keys behind it that it lacks.
pub open spec fn completed(keys: List<PathKey>, needed: List<PathKey>) -> List<PathKey>
    decreases needed,
{
    match needed {
        List::Nil => keys,
        List::Cons(k, ks) => if has_key(keys, k) {
            completed(keys, *ks)
        } else {
            completed(keys.then_list(List::Cons(k, Box::new(List::Nil))), *ks)
        },
    }
}

fn complete(keys: List<PathKey>, needed: &List<PathKey>) -> (r: List<PathKey>)
    ensures
        r == completed(keys, *needed),
    decreases needed,
{
    match needed {
        List::Nil => keys,
        List::Cons(k, ks) => if contains_key(&keys, *k) {
            complete(keys, ks)
        } else {
            complete(keys.append(List::one(*k)), ks)
        },
    }
}

/// A second order that serves DISTINCT: the one that the input has, as far as
/// it is of use, then what is missing.
pub open spec fn reordered(
    needed: List<PathKey>,
    there: List<PathKey>,
    on: Option<List<PathKey>>,
    enable_reordering: bool,
    enable_incremental_sort: bool,
) -> Option<List<PathKey>> {
    let useful = useful_prefix(there, needed, on);
    let whole = completed(useful, needed);
    if !enable_reordering || useful is Nil || (crate::aggorder::is_longer(needed, useful)
        && !enable_incremental_sort) || whole == needed {
        None
    } else {
        Some(whole)
    }
}

/// Finds a second order that serves DISTINCT.
pub fn get_useful_pathkeys_for_distinct(
    needed: &List<PathKey>,
    there: &List<PathKey>,
    on: &Option<List<PathKey>>,
    enable_reordering: bool,
    enable_incremental_sort: bool,
) -> (r: Option<List<PathKey>>)
    ensures
        r == reordered(*needed, *there, *on, enable_reordering, enable_incremental_sort),
{
    if !enable_reordering {
        return None;
    }
    let useful = find_useful_prefix(there, needed, on);
    if useful.is_nil() {
        return None;
    }
    if longer(needed, &useful) && !enable_incremental_sort {
        return None;
    }
    let whole = complete(useful, needed);
    proof {
        crate::aggorder::lemma_keys_comparison(whole, *needed);
    }
    if compare_pathkeys(&whole, needed) == KeysComparison::Equal {
        None
    } else {
        Some(whole)
    }
}

proof fn lemma_has_key(keys: List<PathKey>, k: PathKey)
    ensures
        has_key(keys, k) <==> keys@.contains(k),
    decreases keys,
{
    if let List::Cons(x, xs) = keys {
        lemma_has_key(*xs, k);
        crate::list::lemma_cons_contains(x, *xs, k);
    }
}

proof fn lemma_has_key_then(a: List<PathKey>, b: List<PathKey>, k: PathKey)
    ensures
        has_key(a.then_list(b), k) <==> has_key(a, k) || has_key(b, k),
    decreases a,
{
    if let List::Cons(x, xs) = a {
        lemma_has_key_then(*xs, b, k);
    }
}

proof fn lemma_completed(keys: List<PathKey>, needed: List<PathKey>, k: PathKey)
    ensures
        has_key(completed(keys, needed), k) <==> has_key(keys, k) || has_key(needed, k),
    decreases needed,
{
    if let List::Cons(x, xs) = needed {
        let one = List::Cons(x, Box::new(List::Nil));
        lemma_completed(keys, *xs, k);
        lemma_completed(keys.then_list(one), *xs, k);
        lemma_has_key_then(keys, one, k);
        assert(!has_key(List::Nil, k));
        assert(has_key(one, k) <==> x == k);
    }
}

proof fn lemma_useful(
    there: List<PathKey>,
    needed: List<PathKey>,
    on: Option<List<PathKey>>,
    k: PathKey,
)
    ensures
        has_key(useful_prefix(there, needed, on), k) ==> has_key(needed, k),
    decreases there,
{
    if let List::Cons(x, xs) = there {
        lemma_useful(*xs, needed, on, k);
    }
}

/// The second order sorts by exactly the keys that DISTINCT needs.
pub proof fn lemma_reordered(
    needed: List<PathKey>,
    there: List<PathKey>,
    on: Option<List<PathKey>>,
    enable_reordering: bool,
    enable_incremental_sort: bool,
)
    ensures
        reordered(needed, there, on, enable_reordering, enable_incremental_sort) matches Some(w)
            ==> w@.to_set() =~= needed@.to_set(),
{
    if let Some(w) = reordered(needed, there, on, enable_reordering, enable_incremental_sort) {
        assert forall|k: PathKey| w@.contains(k) <==> needed@.contains(k) by {
            lemma_completed(useful_prefix(there, needed, on), needed, k);
            lemma_useful(there, needed, on, k);
            lemma_has_key(w, k);
            lemma_has_key(needed, k);
        }
    }
}

/// How duplicates are removed.
#[derive(Debug)]
pub enum DistinctStep {
    /// Of sorted rows the first of each group is kept, where the rows of a group
    /// agree in so many keys.
    Unique(usize),
    /// All rows are alike, so one is kept.
    LimitOne,
    Hash,
}

/// How many rows are left when duplicates are removed.
#[derive(Clone, Copy, Debug, PartialEq, Eq, Structural)]
pub enum DistinctRows {
    /// As many as the cheapest input has: a grouping has left few duplicates.
    OfInput,
    /// What is estimated from the columns of DISTINCT.
    Estimate,
}

/// A path for DISTINCT: an input, the order it is brought into, and how
/// duplicates are removed.
#[derive(Debug)]
pub struct DistinctPath {
    pub input: u32,
    pub sort: SortStep,
    pub pathkeys: List<PathKey>,
    /// The sort need not go on after the first row.
    pub first_row: bool,
    pub step: DistinctStep,
    pub rows: DistinctRows,
}

/// What DISTINCT is known to be.
#[derive(Debug)]
pub struct Distinct {
    pub distinct_on: bool,
    /// The rows have been grouped before.
    pub grouped: bool,
    /// No rows of workers are gathered here.
    pub suppressed: bool,
    pub pathkeys: List<PathKey>,
    pub sort_pathkeys: List<PathKey>,
    pub can_sort: bool,
    pub can_hash: bool,
    pub enable_hashagg: bool,
    pub enable_reordering: bool,
    pub enable_incremental_sort: bool,
}

/// How duplicates are removed from sorted rows.
pub open spec fn distinct_step(d: Distinct) -> DistinctStep {
    if d.pathkeys is Nil {
        DistinctStep::LimitOne
    } else {
        DistinctStep::Unique(crate::extstats::length(d.pathkeys))
    }
}

/// How many rows are left; `last` says that all duplicates go.
pub open spec fn distinct_rows(d: Distinct, last: bool) -> DistinctRows {
    if last && d.grouped {
        DistinctRows::OfInput
    } else {
        DistinctRows::Estimate
    }
}

fn choose_distinct_rows(d: &Distinct, last: bool) -> (r: DistinctRows)
    ensures
        r == distinct_rows(*d, last),
{
    if last && d.grouped {
        DistinctRows::OfInput
    } else {
        DistinctRows::Estimate
    }
}

fn choose_distinct_step(d: &Distinct) -> (r: DistinctStep)
    ensures
        r == distinct_step(*d),
{
    if d.pathkeys.is_nil() {
        DistinctStep::LimitOne
    } else {
        DistinctStep::Unique(find_length(&d.pathkeys))
    }
}

/// The path over an input in a given order, if it is tried, before the rest.
pub open spec fn with_distinct_path(
    d: Distinct,
    last: bool,
    path: InputPath,
    cheapest: u32,
    keys: List<PathKey>,
    rest: List<DistinctPath>,
) -> List<DistinctPath> {
    match ordered_step(path.pathkeys, path.id == cheapest, keys, d.enable_incremental_sort) {
        None => rest,
        Some(sort) => List::Cons(
            DistinctPath {
                input: path.id,
                sort,
                pathkeys: keys,
                first_row: last && d.pathkeys is Nil,
                step: distinct_step(d),
                rows: distinct_rows(d, last),
            },
            Box::new(rest),
        ),
    }
}

fn add_distinct_path(
    d: &Distinct,
    last: bool,
    path: &InputPath,
    cheapest: u32,
    keys: List<PathKey>,
    rest: List<DistinctPath>,
) -> (r: List<DistinctPath>)
    ensures
        r == with_distinct_path(*d, last, *path, cheapest, keys, rest),
{
    match make_ordered_path(
        &path.pathkeys,
        path.id == cheapest,
        &keys,
        d.enable_incremental_sort,
    ) {
        None => rest,
        Some(sort) => List::Cons(
            DistinctPath {
                input: path.id,
                sort,
                pathkeys: keys,
                first_row: last && d.pathkeys.is_nil(),
                step: choose_distinct_step(d),
                rows: choose_distinct_rows(d, last),
            },
            Box::new(rest),
        ),
    }
}

/// The keys that a reordering must keep to: those of DISTINCT ON.
pub open spec fn kept_keys(d: Distinct) -> Option<List<PathKey>> {
    if d.distinct_on {
        Some(d.pathkeys)
    } else {
        None
    }
}

/// The paths for DISTINCT over sorted inputs.
pub open spec fn sorted_distinct(
    d: Distinct,
    last: bool,
    needed: List<PathKey>,
    paths: List<InputPath>,
    cheapest: u32,
) -> List<DistinctPath>
    decreases paths,
{
    match paths {
        List::Nil => List::Nil,
        List::Cons(p, ps) => {
            let rest = sorted_distinct(d, last, needed, *ps, cheapest);
            let second = match reordered(
                needed,
                p.pathkeys,
                kept_keys(d),
                d.enable_reordering,
                d.enable_incremental_sort,
            ) {
                None => rest,
                Some(keys) => with_distinct_path(d, last, p, cheapest, keys, rest),
            };
            with_distinct_path(d, last, p, cheapest, needed, second)
        },
    }
}

fn propose_sorted_distinct(
    d: &Distinct,
    last: bool,
    needed: &List<PathKey>,
    paths: &List<InputPath>,
    cheapest: u32,
) -> (r: List<DistinctPath>)
    ensures
        r == sorted_distinct(*d, last, *needed, *paths, cheapest),
    decreases paths,
{
    match paths {
        List::Nil => List::Nil,
        List::Cons(p, ps) => {
            let rest = propose_sorted_distinct(d, last, needed, ps, cheapest);
            let kept = if d.distinct_on {
                Some(d.pathkeys.copy())
            } else {
                None
            };
            let second = match get_useful_pathkeys_for_distinct(
                needed,
                &p.pathkeys,
                &kept,
                d.enable_reordering,
                d.enable_incremental_sort,
            ) {
                None => rest,
                Some(keys) => add_distinct_path(d, last, p, cheapest, keys, rest),
            };
            add_distinct_path(d, last, p, cheapest, needed.copy(), second)
        },
    }
}

/// The order that DISTINCT needs. For DISTINCT ON it is the stricter one of
/// DISTINCT and ORDER BY.
pub open spec fn distinct_order(d: Distinct) -> List<PathKey> {
    if d.distinct_on && crate::aggorder::is_longer(d.sort_pathkeys, d.pathkeys) {
        d.sort_pathkeys
    } else {
        d.pathkeys
    }
}

/// A path that removes duplicates by hashing.
pub open spec fn hash_distinct(d: Distinct, last: bool, cheapest: u32) -> DistinctPath {
    DistinctPath {
        input: cheapest,
        sort: SortStep::AsIs,
        pathkeys: List::Nil,
        first_row: false,
        step: DistinctStep::Hash,
        rows: distinct_rows(d, last),
    }
}

fn hash_for_distinct(d: &Distinct, last: bool, cheapest: u32) -> (r: DistinctPath)
    ensures
        r == hash_distinct(*d, last, cheapest),
{
    DistinctPath {
        input: cheapest,
        sort: SortStep::AsIs,
        pathkeys: List::Nil,
        first_row: false,
        step: DistinctStep::Hash,
        rows: choose_distinct_rows(d, last),
    }
}

/// The paths that remove all duplicates; `before` says that there are some
/// already. Hashing is tried where it is wanted, or nothing else will do; with
/// DISTINCT ON it would lose which row is kept.
pub open spec fn final_distinct_paths(
    d: Distinct,
    paths: List<InputPath>,
    cheapest: u32,
    before: bool,
) -> List<DistinctPath> {
    let sorted = if d.can_sort {
        sorted_distinct(d, true, distinct_order(d), paths, cheapest)
    } else {
        List::Nil
    };
    let allow_hash = (!before && sorted is Nil) || (!d.distinct_on && d.enable_hashagg);
    if allow_hash && d.can_hash {
        sorted.then_list(List::Cons(hash_distinct(d, true, cheapest), Box::new(List::Nil)))
    } else {
        sorted
    }
}

/// Chooses the paths that remove all duplicates.
pub fn create_final_distinct_paths(
    d: &Distinct,
    paths: &List<InputPath>,
    cheapest: u32,
    before: bool,
) -> (r: List<DistinctPath>)
    ensures
        r == final_distinct_paths(*d, *paths, cheapest, before),
{
    let sorted = if d.can_sort {
        if d.distinct_on && longer(&d.sort_pathkeys, &d.pathkeys) {
            propose_sorted_distinct(d, true, &d.sort_pathkeys, paths, cheapest)
        } else {
            propose_sorted_distinct(d, true, &d.pathkeys, paths, cheapest)
        }
    } else {
        List::Nil
    };
    let allow_hash = (!before && sorted.is_nil()) || (!d.distinct_on && d.enable_hashagg);
    if allow_hash && d.can_hash {
        sorted.append(List::one(hash_for_distinct(d, true, cheapest)))
    } else {
        sorted
    }
}

/// The parallel paths that remove the duplicates that one worker sees. There
/// are none for DISTINCT ON, where the choice among rows would depend on how
/// they are spread.
pub open spec fn partial_distinct_paths(
    d: Distinct,
    paths: List<InputPath>,
    parallel: bool,
) -> List<DistinctPath> {
    let cheapest = first_path(paths);
    if !parallel || paths is Nil || d.suppressed || d.distinct_on {
        List::Nil
    } else {
        let sorted = if d.can_sort {
            sorted_distinct(d, false, d.pathkeys, paths, cheapest)
        } else {
            List::Nil
        };
        if d.enable_hashagg && d.can_hash {
            sorted.then_list(List::Cons(hash_distinct(d, false, cheapest), Box::new(List::Nil)))
        } else {
            sorted
        }
    }
}

/// Chooses the parallel paths that remove the duplicates that one worker sees.
pub fn create_partial_distinct_paths(d: &Distinct, paths: &List<InputPath>, parallel: bool) -> (r:
    List<DistinctPath>)
    ensures
        r == partial_distinct_paths(*d, *paths, parallel),
{
    if !parallel || paths.is_nil() || d.suppressed || d.distinct_on {
        return List::Nil;
    }
    let cheapest: u32 = find_first_path(paths);
    let sorted = if d.can_sort {
        propose_sorted_distinct(d, false, &d.pathkeys, paths, cheapest)
    } else {
        List::Nil
    };
    if d.enable_hashagg && d.can_hash {
        sorted.append(List::one(hash_for_distinct(d, false, cheapest)))
    } else {
        sorted
    }
}

/// The paths for DISTINCT: those that remove all duplicates, and the parallel
/// ones.
pub open spec fn distinct_paths(
    d: Distinct,
    paths: List<InputPath>,
    cheapest: u32,
    partial_paths: List<InputPath>,
    parallel: bool,
) -> Result<(List<DistinctPath>, List<DistinctPath>), PlannerError> {
    let whole = final_distinct_paths(d, paths, cheapest, false);
    let partial = partial_distinct_paths(d, partial_paths, parallel);
    if whole is Nil && partial is Nil {
        Err(PlannerError::CouldNotImplementDistinct)
    } else {
        Ok((whole, partial))
    }
}

/// Chooses the paths for DISTINCT.
pub fn create_distinct_paths(
    d: &Distinct,
    paths: &List<InputPath>,
    cheapest: u32,
    partial_paths: &List<InputPath>,
    parallel: bool,
) -> (r: Result<(List<DistinctPath>, List<DistinctPath>), PlannerError>)
    ensures
        r == distinct_paths(*d, *paths, cheapest, *partial_paths, parallel),
{
    let whole = create_final_distinct_paths(d, paths, cheapest, false);
    let partial = create_partial_distinct_paths(d, partial_paths, parallel);
    if whole.is_nil() && partial.is_nil() {
        return Err(PlannerError::CouldNotImplementDistinct);
    }
    Ok((whole, partial))
}

/// DISTINCT finds a path exactly where its columns can be sorted or hashed.
pub proof fn lemma_distinct_possible(d: Distinct, paths: List<InputPath>, cheapest: u32)
    requires
        has_path(paths, cheapest),
    ensures
        final_distinct_paths(d, paths, cheapest, false) is Nil <==> !d.can_sort && !d.can_hash,
{
    if d.can_sort {
        lemma_sorted_distinct(d, true, distinct_order(d), paths, cheapest);
        let sorted = sorted_distinct(d, true, distinct_order(d), paths, cheapest);
        let hash = List::Cons(hash_distinct(d, true, cheapest), Box::new(List::Nil));
        crate::list::lemma_then_view(sorted, hash);
    }
}

proof fn lemma_sorted_distinct(
    d: Distinct,
    last: bool,
    needed: List<PathKey>,
    paths: List<InputPath>,
    cheapest: u32,
)
    requires
        has_path(paths, cheapest),
    ensures
        !(sorted_distinct(d, last, needed, paths, cheapest) is Nil),
    decreases paths,
{
    if let List::Cons(p, ps) = paths {
        if p.id != cheapest {
            lemma_sorted_distinct(d, last, needed, *ps, cheapest);
        }
    }
}

/// So many keys are common to the two orders from the first on, and no more.
pub open spec fn common_keys(asked: Seq<PathKey>, there: Seq<PathKey>, n: int) -> bool {
    &&& 0 <= n <= asked.len() && n <= there.len()
    &&& asked.take(n) == there.take(n)
    &&& n < asked.len() && n < there.len() ==> asked[n] != there[n]
}

/// A path is worth being brought into an order: it has the order, or a part of
/// it that can be built on, or is the cheapest.
pub open spec fn worth_ordering(
    there: Seq<PathKey>,
    cheapest: bool,
    asked: Seq<PathKey>,
    enable_incremental_sort: bool,
) -> bool {
    ||| asked.is_prefix_of(there)
    ||| cheapest
    ||| enable_incremental_sort && asked.len() > 0 && there.len() > 0 && asked[0] == there[0]
}

/// The step brings a path into the order, with no more work than it takes: an
/// order that is there is not sorted for, one that is there in part is built
/// on, and only the cheapest path is sorted from scratch.
pub open spec fn brings_into_order(
    there: Seq<PathKey>,
    cheapest: bool,
    asked: Seq<PathKey>,
    enable_incremental_sort: bool,
    sort: SortStep,
) -> bool {
    match sort {
        SortStep::AsIs => asked.is_prefix_of(there),
        SortStep::Sort => cheapest && !asked.is_prefix_of(there) && !(enable_incremental_sort
            && there.len() > 0 && asked[0] == there[0]),
        SortStep::IncrementalSort(n) => enable_incremental_sort && !asked.is_prefix_of(there) && n
            > 0 && common_keys(asked, there, n as int),
    }
}

proof fn lemma_presorted(asked: List<PathKey>, there: List<PathKey>)
    requires
        asked@.len() <= usize::MAX,
    ensures
        common_keys(asked@, there@, presorted_keys(asked, there) as int),
        crate::plangroup::order_contained(asked, there) <==> asked@.is_prefix_of(there@),
    decreases asked,
{
    match asked {
        List::Nil => {
            assert(asked@.take(0) =~= there@.take(0));
            assert(asked@.is_prefix_of(there@));
        },
        List::Cons(a, xs) => {
            match there {
                List::Nil => {
                    assert(asked@.take(0) =~= there@.take(0));
                },
                List::Cons(b, ys) => {
                    assert(asked@[0] == a && there@[0] == b);
                    if a == b {
                        lemma_presorted(*xs, *ys);
                        let n = presorted_keys(*xs, *ys) as int;
                        assert(asked@.take(n + 1) =~= seq![a] + xs@.take(n));
                        assert(there@.take(n + 1) =~= seq![b] + ys@.take(n));
                        if n < xs@.len() && n < ys@.len() {
                            assert(asked@[n + 1] == xs@[n]);
                            assert(there@[n + 1] == ys@[n]);
                        }
                        if xs@.is_prefix_of(ys@) {
                            assert forall|i: int| 0 <= i < asked@.len() implies asked@[i]
                                == there@[i] by {
                                if i > 0 {
                                    assert(asked@[i] == xs@[i - 1]);
                                    assert(there@[i] == ys@[i - 1]);
                                    assert(ys@.subrange(0, xs@.len() as int)[i - 1] == ys@[i - 1]);
                                }
                            }
                            assert(asked@ =~= there@.subrange(0, asked@.len() as int));
                        }
                        if asked@.is_prefix_of(there@) {
                            assert forall|i: int| 0 <= i < xs@.len() implies xs@[i] == ys@[i] by {
                                assert(asked@[i + 1] == xs@[i]);
                                assert(there@[i + 1] == ys@[i]);
                                assert(there@.subrange(0, asked@.len() as int)[i + 1]
                                    == there@[i + 1]);
                            }
                            assert(xs@ =~= ys@.subrange(0, xs@.len() as int));
                        }
                    } else {
                        assert(asked@.take(0) =~= there@.take(0));
                        if asked@.is_prefix_of(there@) {
                            assert(there@.subrange(0, asked@.len() as int)[0] == there@[0]);
                        }
                    }
                },
            }
        },
    }
}

/// A path is brought into an order exactly if that is worth it, and what is
/// done then leads to that order.
pub proof fn lemma_ordered_step(
    there: List<PathKey>,
    cheapest: bool,
    asked: List<PathKey>,
    enable_incremental_sort: bool,
)
    requires
        asked@.len() <= usize::MAX,
    ensures
        match ordered_step(there, cheapest, asked, enable_incremental_sort) {
            None => !worth_ordering(there@, cheapest, asked@, enable_incremental_sort),
            Some(sort) => worth_ordering(there@, cheapest, asked@, enable_incremental_sort)
                && brings_into_order(there@, cheapest, asked@, enable_incremental_sort, sort),
        },
{
    lemma_presorted(asked, there);
    let n = presorted_keys(asked, there) as int;
    if n > 0 {
        assert(asked@.take(n)[0] == asked@[0]);
        assert(there@.take(n)[0] == there@[0]);
    }
    if asked@.len() == 0 {
        assert(asked@.is_prefix_of(there@));
    }
}

/// The proposal groups the rows of one of the paths in one of its orders,
/// with the clauses that go with it, and brings it into that order.
pub open spec fn groups_sorted(
    p: GroupProposal,
    paths: Seq<InputPath>,
    cheapest: u32,
    enable_incremental_sort: bool,
) -> bool {
    exists|j: int, k: int|
        #![trigger paths[j].orderings@[k]]
        0 <= j < paths.len() && 0 <= k < paths[j].orderings@.len() && p.input == paths[j].id
            && p.pathkeys == paths[j].orderings@[k].pathkeys && p.clauses
            == paths[j].orderings@[k].clauses && (p.pathkeys@.len() <= usize::MAX
            ==> brings_into_order(
            paths[j].pathkeys@,
            p.input == cheapest,
            p.pathkeys@,
            enable_incremental_sort,
            p.sort,
        ))
}

/// The proposal groups the rows of the cheapest path as they come.
pub open spec fn groups_hashed(p: GroupProposal, g: Grouping, cheapest: u32) -> bool {
    p.input == cheapest && p.sort == SortStep::AsIs && p.pathkeys is Nil && p.clauses == g.clauses
}

proof fn lemma_path_proposal(
    shape: GroupShape,
    path: InputPath,
    orderings: List<GroupOrdering>,
    cheapest: u32,
    enable_incremental_sort: bool,
    i: int,
) -> (k: int)
    requires
        0 <= i < path_proposals(shape, path, orderings, cheapest, enable_incremental_sort)@.len(),
    ensures
        ({
            let p = path_proposals(
                shape,
                path,
                orderings,
                cheapest,
                enable_incremental_sort,
            )@[i];
            &&& p.shape == shape
            &&& p.input == path.id
            &&& 0 <= k < orderings@.len()
            &&& p.pathkeys == orderings@[k].pathkeys
            &&& p.clauses == orderings@[k].clauses
            &&& p.pathkeys@.len() <= usize::MAX ==> brings_into_order(
                path.pathkeys@,
                p.input == cheapest,
                p.pathkeys@,
                enable_incremental_sort,
                p.sort,
            )
        }),
    decreases orderings,
{
    match orderings {
        List::Nil => 0,
        List::Cons(o, os) => {
            let rest = path_proposals(shape, path, *os, cheapest, enable_incremental_sort);
            let all = path_proposals(shape, path, orderings, cheapest, enable_incremental_sort);
            let step = ordered_step(
                path.pathkeys,
                path.id == cheapest,
                o.pathkeys,
                enable_incremental_sort,
            );
            if step is Some && i == 0 {
                if o.pathkeys@.len() <= usize::MAX {
                    lemma_ordered_step(
                        path.pathkeys,
                        path.id == cheapest,
                        o.pathkeys,
                        enable_incremental_sort,
                    );
                }
                assert(orderings@[0] == o);
                0
            } else {
                let at = if step is Some {
                    i - 1
                } else {
                    i
                };
                assert(all@[i] == rest@[at]);
                let k = lemma_path_proposal(
                    shape,
                    path,
                    *os,
                    cheapest,
                    enable_incremental_sort,
                    at,
                );
                assert(orderings@[k + 1] == os@[k]);
                k + 1
            }
        },
    }
}

proof fn lemma_sorted_proposal(
    shape: GroupShape,
    paths: List<InputPath>,
    cheapest: u32,
    enable_incremental_sort: bool,
    i: int,
)
    requires
        0 <= i < sorted_proposals(shape, paths, cheapest, enable_incremental_sort)@.len(),
    ensures
        ({
            let p = sorted_proposals(shape, paths, cheapest, enable_incremental_sort)@[i];
            &&& p.shape == shape
            &&& groups_sorted(p, paths@, cheapest, enable_incremental_sort)
        }),
    decreases paths,
{
    if let List::Cons(path, ps) = paths {
        let here = path_proposals(shape, path, path.orderings, cheapest, enable_incremental_sort);
        let rest = sorted_proposals(shape, *ps, cheapest, enable_incremental_sort);
        crate::list::lemma_then_view(here, rest);
        let p = sorted_proposals(shape, paths, cheapest, enable_incremental_sort)@[i];
        if i < here@.len() {
            let k = lemma_path_proposal(
                shape,
                path,
                path.orderings,
                cheapest,
                enable_incremental_sort,
                i,
            );
            assert(paths@[0] == path);
            assert(p.pathkeys == paths@[0].orderings@[k].pathkeys);
        } else {
            lemma_sorted_proposal(shape, *ps, cheapest, enable_incremental_sort, i - here@.len());
            let (j, k) = choose|j: int, k: int|
                #![trigger ps@[j].orderings@[k]]
                0 <= j < ps@.len() && 0 <= k < ps@[j].orderings@.len() && p.input == ps@[j].id
                    && p.pathkeys == ps@[j].orderings@[k].pathkeys && p.clauses
                    == ps@[j].orderings@[k].clauses && (p.pathkeys@.len() <= usize::MAX
                    ==> brings_into_order(
                    ps@[j].pathkeys@,
                    p.input == cheapest,
                    p.pathkeys@,
                    enable_incremental_sort,
                    p.sort,
                ));
            assert(paths@[j + 1] == ps@[j]);
            assert(p.pathkeys == paths@[j + 1].orderings@[k].pathkeys);
        }
    }
}

/// Every path for a grouping finishes it: HAVING is tested there, and whatever
/// aggregates are computed are computed to the end, from the rows themselves
/// or, only where there are some, from transition states. Rows are brought into
/// the order that they are grouped in, or are hashed.
pub proof fn lemma_grouping_finished(
    g: Grouping,
    paths: List<InputPath>,
    cheapest: u32,
    partial: Option<(List<InputPath>, u32)>,
    i: int,
)
    requires
        0 <= i < grouping_rel_paths(g, paths, cheapest, partial)@.len(),
    ensures
        ({
            let p = grouping_rel_paths(g, paths, cheapest, partial)@[i];
            let from_rows = groups_sorted(p, paths@, cheapest, g.enable_incremental_sort)
                && g.can_sort;
            let from_states = partial matches Some(l) && groups_sorted(
                p,
                l.0@,
                l.1,
                g.enable_incremental_sort,
            ) && g.can_sort;
            let hashed_rows = groups_hashed(p, g, cheapest) && g.can_hash;
            let hashed_states = partial matches Some(l) && groups_hashed(p, g, l.1)
                && l.0@.len() > 0 && g.can_hash;
            &&& p.shape.having
            &&& !p.shape.partial
            &&& p.shape.groups == GroupsOf::All
            &&& match p.shape.step {
                GroupStep::Sets(sorted, hashing) => g.has_grouping_sets && (sorted ==> from_rows
                    && hashing == g.can_hash) && (!sorted ==> hashing && hashed_rows),
                GroupStep::Group => !g.has_aggs && (from_rows || from_states),
                GroupStep::Agg(strategy, split) => (split == AggSplit::Simple || split
                    == AggSplit::FinalDeserial) && (split == AggSplit::Simple
                    ==> !g.has_grouping_sets) && match strategy {
                    AggStrategy::Hashed => if split == AggSplit::Simple {
                        hashed_rows
                    } else {
                        hashed_states
                    },
                    AggStrategy::Sorted => g.has_aggs && g.has_groups && if split
                        == AggSplit::Simple {
                        from_rows
                    } else {
                        from_states
                    },
                    AggStrategy::Plain => g.has_aggs && !g.has_groups && if split
                        == AggSplit::Simple {
                        from_rows
                    } else {
                        from_states
                    },
                    AggStrategy::Mixed => false,
                },
            }
        }),
{
    let all = grouping_rel_paths(g, paths, cheapest, partial);
    let shape = |step: GroupStep|
        GroupShape { step, having: true, groups: GroupsOf::All, partial: false };
    let none: List<GroupProposal> = List::Nil;
    assert(none@.len() == 0);
    let rows = shape(
        if g.has_grouping_sets {
            GroupStep::Sets(true, g.can_hash)
        } else {
            sorted_step(g, AggSplit::Simple)
        },
    );
    let states = shape(sorted_step(g, AggSplit::FinalDeserial));
    let sorted = if g.can_sort {
        sorted_proposals(rows, paths, cheapest, g.enable_incremental_sort)
    } else {
        none
    };
    let finished = match partial {
        Some(p) if g.can_sort => sorted_proposals(states, p.0, p.1, g.enable_incremental_sort),
        _ => none,
    };
    let hashed = if g.can_hash {
        hashed_proposal(
            g,
            cheapest,
            shape(
                if g.has_grouping_sets {
                    GroupStep::Sets(false, true)
                } else {
                    GroupStep::Agg(AggStrategy::Hashed, AggSplit::Simple)
                },
            ),
        )
    } else {
        none
    };
    let hash_finished = match partial {
        Some(p) if g.can_hash && !(p.0 is Nil) => hashed_proposal(
            g,
            p.1,
            shape(GroupStep::Agg(AggStrategy::Hashed, AggSplit::FinalDeserial)),
        ),
        _ => none,
    };
    assert(all == sorted.then_list(finished.then_list(hashed.then_list(hash_finished))));
    crate::list::lemma_then_view(hashed, hash_finished);
    crate::list::lemma_then_view(finished, hashed.then_list(hash_finished));
    crate::list::lemma_then_view(sorted, finished.then_list(hashed.then_list(hash_finished)));
    let a = sorted@.len() as int;
    let b = a + finished@.len();
    let c = b + hashed@.len();
    if i < a {
        lemma_sorted_proposal(rows, paths, cheapest, g.enable_incremental_sort, i);
        assert(all@[i] == sorted@[i]);
    } else if i < b {
        let l = partial->Some_0;
        lemma_sorted_proposal(states, l.0, l.1, g.enable_incremental_sort, i - a);
        assert(all@[i] == finished@[i - a]);
    } else if i < c {
        assert(all@[i] == hashed@[i - b]);
        assert(hashed@.len() == 1);
    } else {
        assert(all@[i] == hash_finished@[i - c]);
        assert(hash_finished@.len() == 1);
    }
}

/// No path that aggregates in part tests HAVING, and none computes more than
/// transition states; those that run in parallel are built from parallel paths,
/// and the others only for a partition whose parent finishes the aggregation.
pub proof fn lemma_partial_grouping(g: Grouping, input: PartialInput, i: int)
    requires
        partial_grouping_paths(g, input) matches Some(l) && 0 <= i < l@.len(),
    ensures
        ({
            let p = partial_grouping_paths(g, input)->Some_0@[i];
            let source = if p.shape.partial {
                input.partial_paths
            } else {
                input.paths
            };
            let cheapest = if p.shape.partial {
                input.partial_paths@[0].id
            } else {
                input.cheapest
            };
            &&& !p.shape.having
            &&& source@.len() > 0
            &&& p.shape.partial ==> input.consider_parallel && p.shape.groups == GroupsOf::Worker
            &&& !p.shape.partial ==> input.parent_finishes && p.shape.groups
                == GroupsOf::Partition
            &&& match p.shape.step {
                GroupStep::Sets(_, _) => false,
                GroupStep::Group => !g.has_aggs && g.can_sort && groups_sorted(
                    p,
                    source@,
                    cheapest,
                    g.enable_incremental_sort,
                ),
                GroupStep::Agg(strategy, split) => split == AggSplit::InitialSerial
                    && match strategy {
                    AggStrategy::Hashed => g.can_hash && groups_hashed(p, g, cheapest),
                    AggStrategy::Sorted => g.has_aggs && g.has_groups && g.can_sort
                        && groups_sorted(p, source@, cheapest, g.enable_incremental_sort),
                    AggStrategy::Plain => g.has_aggs && !g.has_groups && g.can_sort
                        && groups_sorted(p, source@, cheapest, g.enable_incremental_sort),
                    AggStrategy::Mixed => false,
                },
            }
        }),
{
    let all = partial_grouping_paths(g, input)->Some_0;
    let whole = !(input.paths is Nil) && input.parent_finishes;
    let parallel = input.consider_parallel && !(input.partial_paths is Nil);
    let worker_cheapest = first_path(input.partial_paths);
    let step = sorted_step(g, AggSplit::InitialSerial);
    let hash = GroupStep::Agg(AggStrategy::Hashed, AggSplit::InitialSerial);
    let none: List<GroupProposal> = List::Nil;
    assert(none@.len() == 0);
    let of_whole = |step: GroupStep|
        GroupShape { step, having: false, groups: GroupsOf::Partition, partial: false };
    let of_worker = |step: GroupStep|
        GroupShape { step, having: false, groups: GroupsOf::Worker, partial: true };
    let sorted_whole = if g.can_sort && whole {
        sorted_proposals(of_whole(step), input.paths, input.cheapest, g.enable_incremental_sort)
    } else {
        none
    };
    let sorted_parallel = if g.can_sort && parallel {
        sorted_proposals(
            of_worker(step),
            input.partial_paths,
            worker_cheapest,
            g.enable_incremental_sort,
        )
    } else {
        none
    };
    let hashed_whole = if g.can_hash && whole {
        hashed_proposal(g, input.cheapest, of_whole(hash))
    } else {
        none
    };
    let hashed_parallel = if g.can_hash && parallel {
        hashed_proposal(g, worker_cheapest, of_worker(hash))
    } else {
        none
    };
    let hashes = hashed_whole.then_list(hashed_parallel);
    assert(all == sorted_whole.then_list(sorted_parallel.then_list(hashes)));
    crate::list::lemma_then_view(hashed_whole, hashed_parallel);
    crate::list::lemma_then_view(sorted_parallel, hashes);
    crate::list::lemma_then_view(sorted_whole, sorted_parallel.then_list(hashes));
    let a = sorted_whole@.len() as int;
    let b = a + sorted_parallel@.len();
    let c = b + hashed_whole@.len();
    if i < a {
        lemma_sorted_proposal(
            of_whole(step),
            input.paths,
            input.cheapest,
            g.enable_incremental_sort,
            i,
        );
        assert(all@[i] == sorted_whole@[i]);
    } else if i < b {
        lemma_sorted_proposal(
            of_worker(step),
            input.partial_paths,
            worker_cheapest,
            g.enable_incremental_sort,
            i - a,
        );
        assert(all@[i] == sorted_parallel@[i - a]);
    } else if i < c {
        assert(all@[i] == hashed_whole@[i - b]);
        assert(hashed_whole@.len() == 1);
    } else {
        assert(all@[i] == hashed_parallel@[i - c]);
        assert(hashed_parallel@.len() == 1);
    }
    if let List::Cons(p, _) = input.partial_paths {
        assert(input.partial_paths@[0] == p);
    }
}

/// Among the proposals is one for the input in the order.
pub open spec fn proposes(l: Seq<GroupProposal>, input: u32, o: GroupOrdering, step: GroupStep) -> bool {
    exists|i: int|
        0 <= i < l.len() && (#[trigger] l[i]).input == input && l[i].pathkeys == o.pathkeys
            && l[i].clauses == o.clauses && l[i].shape.step == step
}

proof fn lemma_path_proposed(
    shape: GroupShape,
    path: InputPath,
    orderings: List<GroupOrdering>,
    cheapest: u32,
    enable_incremental_sort: bool,
    k: int,
)
    requires
        0 <= k < orderings@.len(),
        orderings@[k].pathkeys@.len() <= usize::MAX,
        worth_ordering(
            path.pathkeys@,
            path.id == cheapest,
            orderings@[k].pathkeys@,
            enable_incremental_sort,
        ),
    ensures
        proposes(
            path_proposals(shape, path, orderings, cheapest, enable_incremental_sort)@,
            path.id,
            orderings@[k],
            shape.step,
        ),
    decreases orderings,
{
    if let List::Cons(o, os) = orderings {
        let rest = path_proposals(shape, path, *os, cheapest, enable_incremental_sort);
        let all = path_proposals(shape, path, orderings, cheapest, enable_incremental_sort);
        if k == 0 {
            lemma_ordered_step(
                path.pathkeys,
                path.id == cheapest,
                o.pathkeys,
                enable_incremental_sort,
            );
            assert(all@[0].input == path.id);
        } else {
            assert(orderings@[k] == os@[k - 1]);
            lemma_path_proposed(shape, path, *os, cheapest, enable_incremental_sort, k - 1);
            let i = choose|i: int|
                0 <= i < rest@.len() && (#[trigger] rest@[i]).input == path.id && rest@[i].pathkeys
                    == os@[k - 1].pathkeys && rest@[i].clauses == os@[k - 1].clauses
                    && rest@[i].shape.step == shape.step;
            if all@.len() == rest@.len() {
                assert(all@[i] == rest@[i]);
            } else {
                assert(all@[i + 1] == rest@[i]);
            }
        }
    }
}

proof fn lemma_proposed(
    shape: GroupShape,
    paths: List<InputPath>,
    cheapest: u32,
    enable_incremental_sort: bool,
    j: int,
    k: int,
)
    requires
        0 <= j < paths@.len(),
        0 <= k < paths@[j].orderings@.len(),
        paths@[j].orderings@[k].pathkeys@.len() <= usize::MAX,
        worth_ordering(
            paths@[j].pathkeys@,
            paths@[j].id == cheapest,
            paths@[j].orderings@[k].pathkeys@,
            enable_incremental_sort,
        ),
    ensures
        proposes(
            sorted_proposals(shape, paths, cheapest, enable_incremental_sort)@,
            paths@[j].id,
            paths@[j].orderings@[k],
            shape.step,
        ),
    decreases paths,
{
    if let List::Cons(p, ps) = paths {
        let here = path_proposals(shape, p, p.orderings, cheapest, enable_incremental_sort);
        let rest = sorted_proposals(shape, *ps, cheapest, enable_incremental_sort);
        crate::list::lemma_then_view(here, rest);
        let all = sorted_proposals(shape, paths, cheapest, enable_incremental_sort)@;
        let o = paths@[j].orderings@[k];
        let id = paths@[j].id;
        if j == 0 {
            lemma_path_proposed(shape, p, p.orderings, cheapest, enable_incremental_sort, k);
            let i = choose|i: int|
                0 <= i < here@.len() && (#[trigger] here@[i]).input == id && here@[i].pathkeys
                    == o.pathkeys && here@[i].clauses == o.clauses && here@[i].shape.step
                    == shape.step;
            assert(all[i] == here@[i]);
        } else {
            assert(paths@[j] == ps@[j - 1]);
            lemma_proposed(shape, *ps, cheapest, enable_incremental_sort, j - 1, k);
            let i = choose|i: int|
                0 <= i < rest@.len() && (#[trigger] rest@[i]).input == id && rest@[i].pathkeys
                    == o.pathkeys && rest@[i].clauses == o.clauses && rest@[i].shape.step
                    == shape.step;
            assert(all[here@.len() + i] == rest@[i]);
        }
    }
}

/// Every input in every order that is worth it is tried where the groups can be
/// sorted: the rows themselves, and what has been aggregated in part.
pub proof fn lemma_grouping_complete(
    g: Grouping,
    paths: List<InputPath>,
    cheapest: u32,
    partial: Option<(List<InputPath>, u32)>,
    j: int,
    k: int,
)
    requires
        g.can_sort,
    ensures
        ({
            let all = grouping_rel_paths(g, paths, cheapest, partial)@;
            &&& 0 <= j < paths@.len() && 0 <= k < paths@[j].orderings@.len()
                && paths@[j].orderings@[k].pathkeys@.len() <= usize::MAX && worth_ordering(
                paths@[j].pathkeys@,
                paths@[j].id == cheapest,
                paths@[j].orderings@[k].pathkeys@,
                g.enable_incremental_sort,
            ) ==> proposes(
                all,
                paths@[j].id,
                paths@[j].orderings@[k],
                if g.has_grouping_sets {
                    GroupStep::Sets(true, g.can_hash)
                } else if !g.has_aggs {
                    GroupStep::Group
                } else if g.has_groups {
                    GroupStep::Agg(AggStrategy::Sorted, AggSplit::Simple)
                } else {
                    GroupStep::Agg(AggStrategy::Plain, AggSplit::Simple)
                },
            )
            &&& partial matches Some(l) ==> 0 <= j < l.0@.len() && 0 <= k
                < l.0@[j].orderings@.len() && l.0@[j].orderings@[k].pathkeys@.len() <= usize::MAX
                && worth_ordering(
                l.0@[j].pathkeys@,
                l.0@[j].id == l.1,
                l.0@[j].orderings@[k].pathkeys@,
                g.enable_incremental_sort,
            ) ==> proposes(
                all,
                l.0@[j].id,
                l.0@[j].orderings@[k],
                if !g.has_aggs {
                    GroupStep::Group
                } else if g.has_groups {
                    GroupStep::Agg(AggStrategy::Sorted, AggSplit::FinalDeserial)
                } else {
                    GroupStep::Agg(AggStrategy::Plain, AggSplit::FinalDeserial)
                },
            )
        }),
{
    let all = grouping_rel_paths(g, paths, cheapest, partial)@;
    let rows = GroupShape {
        step: if g.has_grouping_sets {
            GroupStep::Sets(true, g.can_hash)
        } else {
            sorted_step(g, AggSplit::Simple)
        },
        having: true,
        groups: GroupsOf::All,
        partial: false,
    };
    let states = GroupShape {
        step: sorted_step(g, AggSplit::FinalDeserial),
        having: true,
        groups: GroupsOf::All,
        partial: false,
    };
    let sorted = sorted_proposals(rows, paths, cheapest, g.enable_incremental_sort);
    let finished = match partial {
        Some(p) => sorted_proposals(states, p.0, p.1, g.enable_incremental_sort),
        _ => List::Nil,
    };
    assert(all.len() >= sorted@.len() + finished@.len() && (forall|i: int|
        0 <= i < sorted@.len() ==> all[i] == #[trigger] sorted@[i]) && (forall|i: int|
        0 <= i < finished@.len() ==> all[i + sorted@.len()] == #[trigger] finished@[i])) by {
        let hashed = if g.can_hash {
            hashed_proposal(
                g,
                cheapest,
                GroupShape {
                    step: if g.has_grouping_sets {
                        GroupStep::Sets(false, true)
                    } else {
                        GroupStep::Agg(AggStrategy::Hashed, AggSplit::Simple)
                    },
                    having: true,
                    groups: GroupsOf::All,
                    partial: false,
                },
            )
        } else {
            List::Nil
        };
        let hash_finished = match partial {
            Some(p) if g.can_hash && !(p.0 is Nil) => hashed_proposal(
                g,
                p.1,
                GroupShape {
                    step: GroupStep::Agg(AggStrategy::Hashed, AggSplit::FinalDeserial),
                    having: true,
                    groups: GroupsOf::All,
                    partial: false,
                },
            ),
            _ => List::Nil,
        };
        let hashes = hashed.then_list(hash_finished);
        crate::list::lemma_then_view(finished, hashes);
        crate::list::lemma_then_view(sorted, finished.then_list(hashes));
    }
    if 0 <= j < paths@.len() && 0 <= k < paths@[j].orderings@.len()
        && paths@[j].orderings@[k].pathkeys@.len() <= usize::MAX && worth_ordering(
        paths@[j].pathkeys@,
        paths@[j].id == cheapest,
        paths@[j].orderings@[k].pathkeys@,
        g.enable_incremental_sort,
    ) {
        lemma_proposed(rows, paths, cheapest, g.enable_incremental_sort, j, k);
        let o = paths@[j].orderings@[k];
        let i = choose|i: int|
            0 <= i < sorted@.len() && (#[trigger] sorted@[i]).input == paths@[j].id
                && sorted@[i].pathkeys == o.pathkeys && sorted@[i].clauses == o.clauses
                && sorted@[i].shape.step == rows.step;
        assert(all[i] == sorted@[i]);
    }
    if let Some(l) = partial {
        if 0 <= j < l.0@.len() && 0 <= k < l.0@[j].orderings@.len()
            && l.0@[j].orderings@[k].pathkeys@.len() <= usize::MAX && worth_ordering(
            l.0@[j].pathkeys@,
            l.0@[j].id == l.1,
            l.0@[j].orderings@[k].pathkeys@,
            g.enable_incremental_sort,
        ) {
            lemma_proposed(states, l.0, l.1, g.enable_incremental_sort, j, k);
            let o = l.0@[j].orderings@[k];
            let i = choose|i: int|
                0 <= i < finished@.len() && (#[trigger] finished@[i]).input == l.0@[j].id
                    && finished@[i].pathkeys == o.pathkeys && finished@[i].clauses == o.clauses
                    && finished@[i].shape.step == states.step;
            assert(all[i + sorted@.len()] == finished@[i]);
        }
    }
}

/// A relation for what is aggregated in part is set up exactly if its result is
/// needed, or if it is wanted and there is something to aggregate; its paths
/// are those that aggregate in part.
pub proof fn lemma_partial_rel(g: Grouping, input: PartialInput, target: GroupTarget)
    ensures
        partial_groups(g, input, target) matches Ok(None) <==> !input.force && (input.suppressed
            || !(input.paths@.len() > 0 && input.parent_finishes || input.partial_paths@.len() > 0
            && input.consider_parallel)),
        partial_groups(g, input, target) matches Ok(Some(r)) ==> partial_grouping_paths(g, input)
            == Some(r.paths) && r.consider_parallel == input.consider_parallel,
{
}

/// The expressions of the one list are those of the other.
pub open spec fn same_columns(a: Seq<Expr>, b: Seq<Expr>) -> bool {
    a.len() == b.len() && forall|i: int|
        0 <= i < a.len() ==> crate::expr::same_expr(#[trigger] a[i], b[i])
}

proof fn lemma_same_columns(a: List<Expr>, b: List<Expr>)
    ensures
        crate::expr::same_exprs(a, b) <==> same_columns(a@, b@),
    decreases a,
{
    match a {
        List::Nil => {
            assert(a@.len() == 0);
        },
        List::Cons(x, xs) => {
            if let List::Cons(y, ys) = b {
                lemma_same_columns(*xs, *ys);
                assert(a@[0] == x && b@[0] == y);
                if same_columns(xs@, ys@) && crate::expr::same_expr(x, y) {
                    assert forall|i: int| 0 <= i < a@.len() implies crate::expr::same_expr(
                        #[trigger] a@[i],
                        b@[i],
                    ) by {
                        if i > 0 {
                            assert(a@[i] == xs@[i - 1] && b@[i] == ys@[i - 1]);
                        }
                    }
                }
                if same_columns(a@, b@) {
                    assert forall|i: int| 0 <= i < xs@.len() implies crate::expr::same_expr(
                        #[trigger] xs@[i],
                        ys@[i],
                    ) by {
                        assert(a@[i + 1] == xs@[i] && b@[i + 1] == ys@[i]);
                    }
                }
            } else {
                assert(b@.len() == 0);
            }
        },
    }
}

/// The path for ORDER BY is built on one of the inputs: it brings this into the
/// order, and computes the target of the query level on top where the input
/// does not.
pub open spec fn serves_order(
    request: OrderRequest,
    paths: Seq<InputPath>,
    cheapest: u32,
    r: OrderedPath,
) -> bool {
    exists|j: int|
        0 <= j < paths.len() && (#[trigger] paths[j]).id == r.input && r.project
            == !same_columns(paths[j].target@, request.target@) && brings_into_order(
            paths[j].pathkeys@,
            r.input == cheapest,
            request.keys@,
            request.enable_incremental_sort,
            r.sort,
        )
}

proof fn lemma_in_order(
    request: OrderRequest,
    paths: List<InputPath>,
    cheapest: u32,
    merged: bool,
    i: int,
)
    requires
        request.keys@.len() <= usize::MAX,
        0 <= i < paths_in_order(request, paths, cheapest, merged)@.len(),
    ensures
        ({
            let r = paths_in_order(request, paths, cheapest, merged)@[i];
            &&& serves_order(request, paths@, cheapest, r)
            &&& r.merged == merged
            &&& merged ==> !(r.sort is AsIs)
        }),
    decreases paths,
{
    if let List::Cons(p, ps) = paths {
        let rest = paths_in_order(request, *ps, cheapest, merged);
        let all = paths_in_order(request, paths, cheapest, merged);
        let r = all@[i];
        lemma_ordered_step(
            p.pathkeys,
            p.id == cheapest,
            request.keys,
            request.enable_incremental_sort,
        );
        lemma_same_columns(p.target, request.target);
        assert(paths@[0] == p);
        if all@.len() != rest@.len() && i == 0 {
            assert(r.input == paths@[0].id);
        } else {
            let at = if all@.len() == rest@.len() {
                i
            } else {
                i - 1
            };
            assert(r == rest@[at]);
            lemma_in_order(request, *ps, cheapest, merged, at);
            let j = choose|j: int|
                0 <= j < ps@.len() && (#[trigger] ps@[j]).id == r.input && r.project
                    == !same_columns(ps@[j].target@, request.target@) && brings_into_order(
                    ps@[j].pathkeys@,
                    r.input == cheapest,
                    request.keys@,
                    request.enable_incremental_sort,
                    r.sort,
                );
            assert(paths@[j + 1] == ps@[j]);
        }
    }
}

/// Every path for ORDER BY delivers the order and what the query level
/// computes. Rows of workers are merged only where the relation may be computed
/// in parallel, and come from a parallel input.
pub proof fn lemma_order_served(
    request: OrderRequest,
    paths: List<InputPath>,
    cheapest: u32,
    partial_paths: List<InputPath>,
    i: int,
)
    requires
        request.keys@.len() <= usize::MAX,
        0 <= i < ordered_rel(request, paths, cheapest, partial_paths).paths@.len(),
    ensures
        ({
            let rel = ordered_rel(request, paths, cheapest, partial_paths);
            let r = rel.paths@[i];
            &&& rel.consider_parallel <==> request.input_parallel && request.target_parallel_safe
            &&& r.merged ==> rel.consider_parallel && !request.suppressed && request.keys@.len()
                > 0 && !(r.sort is AsIs) && serves_order(
                request,
                partial_paths@,
                partial_paths@[0].id,
                r,
            )
            &&& !r.merged ==> serves_order(request, paths@, cheapest, r)
        }),
{
    let plain = paths_in_order(request, paths, cheapest, false);
    let merged = paths_in_order(request, partial_paths, first_path(partial_paths), true);
    crate::list::lemma_then_view(plain, merged);
    if i < plain@.len() {
        lemma_in_order(request, paths, cheapest, false, i);
    } else {
        lemma_in_order(
            request,
            partial_paths,
            first_path(partial_paths),
            true,
            i - plain@.len(),
        );
        if let List::Cons(p, _) = partial_paths {
            assert(partial_paths@[0] == p);
        }
    }
}

proof fn lemma_length<T>(l: List<T>)
    requires
        l@.len() <= usize::MAX,
    ensures
        crate::extstats::length(l) == l@.len(),
    decreases l,
{
    if let List::Cons(_, xs) = l {
        lemma_length(*xs);
    }
}

proof fn lemma_first_keys(keys: List<PathKey>, n: usize)
    requires
        n <= keys@.len(),
    ensures
        first_keys(keys, n)@ == keys@.take(n as int),
    decreases keys,
{
    match keys {
        List::Nil => {
            assert(first_keys(keys, n)@ =~= keys@.take(n as int));
        },
        List::Cons(k, ks) => {
            if n == 0 {
                assert(first_keys(keys, n)@ =~= keys@.take(n as int));
            } else {
                lemma_first_keys(*ks, (n - 1) as usize);
                assert(first_keys(keys, n)@ =~= keys@.take(n as int));
            }
        },
    }
}

proof fn lemma_completed_begins(keys: List<PathKey>, needed: List<PathKey>)
    ensures
        keys@.is_prefix_of(completed(keys, needed)@),
        keys@.no_duplicates() ==> completed(keys, needed)@.no_duplicates(),
    decreases needed,
{
    match needed {
        List::Nil => {
            assert(keys@ =~= keys@.subrange(0, keys@.len() as int));
        },
        List::Cons(k, ks) => {
            if has_key(keys, k) {
                lemma_completed_begins(keys, *ks);
            } else {
                let one = List::Cons(k, Box::new(List::Nil));
                let more = keys.then_list(one);
                crate::list::lemma_then_view(keys, one);
                lemma_has_key(keys, k);
                let none: List<PathKey> = List::Nil;
                assert(none@ =~= Seq::<PathKey>::empty());
                assert(one@ =~= seq![k]);
                assert(more@ =~= keys@.push(k));
                lemma_completed_begins(more, *ks);
                let whole = completed(keys, needed)@;
                assert(more@ == whole.subrange(0, more@.len() as int));
                assert forall|i: int| 0 <= i < keys@.len() implies keys@[i] == whole[i] by {
                    assert(more@[i] == whole.subrange(0, more@.len() as int)[i]);
                }
                assert(keys@ =~= whole.subrange(0, keys@.len() as int));
            }
        },
    }
}

proof fn lemma_completed_first(keys: List<PathKey>, needed: List<PathKey>, n: usize)
    ensures
        completed(keys, first_keys(needed, n))@.is_prefix_of(completed(keys, needed)@),
    decreases needed,
{
    match needed {
        List::Nil => {
            assert(keys@ =~= keys@.subrange(0, keys@.len() as int));
        },
        List::Cons(k, ks) => {
            if n == 0 {
                lemma_completed_begins(keys, needed);
            } else {
                let one = List::Cons(k, Box::new(List::Nil));
                lemma_completed_first(keys, *ks, (n - 1) as usize);
                lemma_completed_first(keys.then_list(one), *ks, (n - 1) as usize);
            }
        },
    }
}

proof fn lemma_useful_keys(
    there: List<PathKey>,
    needed: List<PathKey>,
    on: Option<List<PathKey>>,
)
    ensures
        useful_prefix(there, needed, on)@.is_prefix_of(there@),
        forall|k: PathKey| #[trigger]
            useful_prefix(there, needed, on)@.contains(k) ==> needed@.contains(k) && (on matches Some(
                l,
            ) ==> l@.contains(k)),
    decreases there,
{
    let useful = useful_prefix(there, needed, on);
    match there {
        List::Nil => {
            assert(useful@ =~= there@.subrange(0, 0));
        },
        List::Cons(x, xs) => {
            lemma_useful_keys(*xs, needed, on);
            lemma_has_key(needed, x);
            if let Some(l) = on {
                lemma_has_key(l, x);
            }
            if useful is Nil {
                assert(useful@ =~= there@.subrange(0, 0));
            } else {
                let rest = useful_prefix(*xs, needed, on);
                assert forall|k: PathKey| #[trigger] useful@.contains(k) implies needed@.contains(k)
                    && (on matches Some(l) ==> l@.contains(k)) by {
                    crate::list::lemma_cons_contains(x, rest, k);
                }
                assert forall|i: int| 0 <= i < useful@.len() implies useful@[i] == there@[i] by {
                    if i > 0 {
                        assert(useful@[i] == rest@[i - 1]);
                        assert(there@[i] == xs@[i - 1]);
                        assert(rest@[i - 1] == xs@.subrange(0, rest@.len() as int)[i - 1]);
                    }
                }
                assert(useful@ =~= there@.subrange(0, useful@.len() as int));
            }
        },
    }
}

/// The order begins with the given keys, in whatever order.
pub open spec fn begins_with_keys(order: Seq<PathKey>, keys: Seq<PathKey>) -> bool {
    &&& keys.len() <= order.len()
    &&& forall|k: PathKey| #[trigger]
        order.take(keys.len() as int).contains(k) <==> keys.contains(k)
}

/// What holds of the orders that DISTINCT has to do with: no order has a key
/// twice, and for DISTINCT ON an ORDER BY that has more keys begins with those
/// of DISTINCT ON.
pub open spec fn orders_fit(d: Distinct, paths: Seq<InputPath>) -> bool {
    &&& d.pathkeys@.no_duplicates()
    &&& forall|j: int|
        0 <= j < paths.len() ==> (#[trigger] paths[j]).pathkeys@.no_duplicates()
    &&& d.distinct_on && d.sort_pathkeys@.len() > d.pathkeys@.len() ==> d.pathkeys@.is_prefix_of(
        d.sort_pathkeys@,
    )
}

proof fn lemma_second_order(
    needed: List<PathKey>,
    there: List<PathKey>,
    on: Option<List<PathKey>>,
    keys: Seq<PathKey>,
    enable_reordering: bool,
    enable_incremental_sort: bool,
)
    requires
        keys.len() <= usize::MAX,
        keys.no_duplicates(),
        there@.no_duplicates(),
        keys.is_prefix_of(needed@),
        on matches Some(l) ==> l@ == keys,
        on is None ==> needed@ == keys,
    ensures
        reordered(needed, there, on, enable_reordering, enable_incremental_sort) matches Some(w)
            ==> begins_with_keys(w@, keys),
{
    let useful = useful_prefix(there, needed, on);
    let whole = completed(useful, needed);
    let n = keys.len() as usize;
    lemma_useful_keys(there, needed, on);
    assert(useful@.no_duplicates()) by {
        assert forall|i: int, j: int| 0 <= i < j < useful@.len() implies useful@[i] != useful@[j] by {
            assert(useful@[i] == there@.subrange(0, useful@.len() as int)[i]);
            assert(useful@[j] == there@.subrange(0, useful@.len() as int)[j]);
        }
    }
    let first = first_keys(needed, n);
    lemma_first_keys(needed, n);
    assert(first@ =~= keys);
    let begun = completed(useful, first);
    lemma_completed_begins(useful, first);
    lemma_completed_first(useful, needed, n);
    assert forall|k: PathKey| begun@.contains(k) <==> keys.contains(k) by {
        lemma_completed(useful, first, k);
        lemma_has_key(begun, k);
        lemma_has_key(useful, k);
        lemma_has_key(first, k);
    }
    begun@.unique_seq_to_set();
    keys.unique_seq_to_set();
    assert(begun@.to_set() =~= keys.to_set());
    assert(begun@.len() == keys.len());
    assert(begun@ == whole@.subrange(0, keys.len() as int));
    assert(whole@.take(keys.len() as int) =~= begun@);
}

/// The path removes the duplicates of sorted rows of one of the inputs.
pub open spec fn removes_sorted(
    d: Distinct,
    last: bool,
    needed: Seq<PathKey>,
    paths: Seq<InputPath>,
    cheapest: u32,
    r: DistinctPath,
) -> bool {
    &&& exists|j: int|
        0 <= j < paths.len() && (#[trigger] paths[j]).id == r.input && (r.pathkeys@.len()
            <= usize::MAX ==> brings_into_order(
            paths[j].pathkeys@,
            r.input == cheapest,
            r.pathkeys@,
            d.enable_incremental_sort,
            r.sort,
        ))
    &&& match r.step {
        DistinctStep::LimitOne => d.pathkeys@.len() == 0,
        DistinctStep::Unique(n) => d.pathkeys@.len() > 0 && n == d.pathkeys@.len(),
        DistinctStep::Hash => false,
    }
    &&& r.first_row <==> last && d.pathkeys@.len() == 0
    &&& r.rows == DistinctRows::OfInput <==> last && d.grouped
    &&& forall|k: PathKey| #[trigger] r.pathkeys@.contains(k) <==> needed.contains(k)
    &&& orders_fit(d, paths) ==> begins_with_keys(r.pathkeys@, d.pathkeys@)
}

proof fn lemma_with_distinct(
    d: Distinct,
    last: bool,
    path: InputPath,
    cheapest: u32,
    keys: List<PathKey>,
    rest: List<DistinctPath>,
)
    requires
        d.pathkeys@.len() <= usize::MAX,
    ensures
        ({
            let all = with_distinct_path(d, last, path, cheapest, keys, rest)@;
            &&& all == rest@ || (all == seq![all[0]] + rest@ && all[0].input == path.id
                && all[0].pathkeys == keys && (all[0].first_row <==> last && d.pathkeys@.len() == 0)
                && (all[0].rows == DistinctRows::OfInput <==> last && d.grouped)
                && match all[0].step {
                DistinctStep::LimitOne => d.pathkeys@.len() == 0,
                DistinctStep::Unique(n) => d.pathkeys@.len() > 0 && n == d.pathkeys@.len(),
                DistinctStep::Hash => false,
            } && (keys@.len() <= usize::MAX ==> brings_into_order(
                path.pathkeys@,
                path.id == cheapest,
                keys@,
                d.enable_incremental_sort,
                all[0].sort,
            )))
            &&& keys@.len() <= usize::MAX && worth_ordering(
                path.pathkeys@,
                path.id == cheapest,
                keys@,
                d.enable_incremental_sort,
            ) ==> all.len() == rest@.len() + 1
        }),
{
    lemma_length(d.pathkeys);
    if keys@.len() <= usize::MAX {
        lemma_ordered_step(path.pathkeys, path.id == cheapest, keys, d.enable_incremental_sort);
    }
    if ordered_step(path.pathkeys, path.id == cheapest, keys, d.enable_incremental_sort) is Some {
        let all = with_distinct_path(d, last, path, cheapest, keys, rest)@;
        assert(all =~= seq![all[0]] + rest@);
    }
}

proof fn lemma_removes_more(
    d: Distinct,
    last: bool,
    needed: Seq<PathKey>,
    p: InputPath,
    ps: List<InputPath>,
    cheapest: u32,
    r: DistinctPath,
)
    requires
        removes_sorted(d, last, needed, ps@, cheapest, r),
    ensures
        removes_sorted(d, last, needed, List::Cons(p, Box::new(ps))@, cheapest, r),
{
    let paths = List::Cons(p, Box::new(ps))@;
    let j = choose|j: int|
        0 <= j < ps@.len() && (#[trigger] ps@[j]).id == r.input && (r.pathkeys@.len()
            <= usize::MAX ==> brings_into_order(
            ps@[j].pathkeys@,
            r.input == cheapest,
            r.pathkeys@,
            d.enable_incremental_sort,
            r.sort,
        ));
    assert(paths[j + 1] == ps@[j]);
    if orders_fit(d, paths) {
        assert forall|i: int| 0 <= i < ps@.len() implies (
        #[trigger] ps@[i]).pathkeys@.no_duplicates() by {
            assert(paths[i + 1] == ps@[i]);
        }
    }
}

proof fn lemma_removed_sorted(
    d: Distinct,
    last: bool,
    needed: List<PathKey>,
    paths: List<InputPath>,
    cheapest: u32,
    i: int,
)
    requires
        d.pathkeys@.len() <= usize::MAX,
        needed == d.pathkeys || (d.distinct_on && needed == d.sort_pathkeys
            && d.sort_pathkeys@.len() > d.pathkeys@.len()),
        0 <= i < sorted_distinct(d, last, needed, paths, cheapest)@.len(),
    ensures
        removes_sorted(
            d,
            last,
            needed@,
            paths@,
            cheapest,
            sorted_distinct(d, last, needed, paths, cheapest)@[i],
        ),
    decreases paths,
{
    if let List::Cons(p, ps) = paths {
        let all = sorted_distinct(d, last, needed, paths, cheapest);
        let rest = sorted_distinct(d, last, needed, *ps, cheapest);
        let other = reordered(
            needed,
            p.pathkeys,
            kept_keys(d),
            d.enable_reordering,
            d.enable_incremental_sort,
        );
        let second = match other {
            None => rest,
            Some(keys) => with_distinct_path(d, last, p, cheapest, keys, rest),
        };
        lemma_with_distinct(d, last, p, cheapest, needed, second);
        assert(paths@[0] == p);
        assert(d.pathkeys@ =~= d.pathkeys@.subrange(0, d.pathkeys@.len() as int));
        let at = if all@.len() == second@.len() {
            i
        } else {
            i - 1
        };
        if at < 0 {
            if orders_fit(d, paths@) {
                assert(d.pathkeys@.is_prefix_of(needed@));
                assert(needed@.take(d.pathkeys@.len() as int) =~= d.pathkeys@);
            }
        } else {
            assert(all@[i] == second@[at]);
            if let Some(keys) = other {
                lemma_with_distinct(d, last, p, cheapest, keys, rest);
                lemma_reordered(
                    needed,
                    p.pathkeys,
                    kept_keys(d),
                    d.enable_reordering,
                    d.enable_incremental_sort,
                );
                assert forall|k: PathKey| #[trigger] keys@.contains(k) <==> needed@.contains(k) by {
                    assert(keys@.to_set().contains(k) <==> needed@.to_set().contains(k));
                }
                if orders_fit(d, paths@) {
                    assert(paths@[0].pathkeys@.no_duplicates());
                    lemma_second_order(
                        needed,
                        p.pathkeys,
                        kept_keys(d),
                        d.pathkeys@,
                        d.enable_reordering,
                        d.enable_incremental_sort,
                    );
                }
            }
            let below = if second@.len() == rest@.len() {
                at
            } else {
                at - 1
            };
            if below >= 0 {
                assert(second@[at] == rest@[below]);
                lemma_removed_sorted(d, last, needed, *ps, cheapest, below);
                lemma_removes_more(d, last, needed@, p, *ps, cheapest, rest@[below]);
            }
        }
    }
}

/// The path removes duplicates by hashing the rows of the cheapest input.
pub open spec fn removes_hashed(d: Distinct, last: bool, cheapest: u32, r: DistinctPath) -> bool {
    &&& r.step is Hash
    &&& d.can_hash
    &&& r.input == cheapest
    &&& r.sort is AsIs
    &&& r.pathkeys@.len() == 0
    &&& !r.first_row
    &&& r.rows == DistinctRows::OfInput <==> last && d.grouped
}

/// The keys of the order in which all duplicates are removed.
pub open spec fn order_for_distinct(d: Distinct) -> Seq<PathKey> {
    if d.distinct_on && d.sort_pathkeys@.len() > d.pathkeys@.len() {
        d.sort_pathkeys@
    } else {
        d.pathkeys@
    }
}

/// Every path that removes all duplicates compares rows in the keys of DISTINCT,
/// all of them and no others, also where ORDER BY has more keys, and has them in
/// an order that begins with these. Rows are hashed only where the choice among
/// them does not matter, or where there is no other way.
pub proof fn lemma_final_distinct(
    d: Distinct,
    paths: List<InputPath>,
    cheapest: u32,
    before: bool,
    i: int,
)
    requires
        d.pathkeys@.len() <= usize::MAX,
        0 <= i < final_distinct_paths(d, paths, cheapest, before)@.len(),
    ensures
        ({
            let all = final_distinct_paths(d, paths, cheapest, before)@;
            let r = all[i];
            &&& r.step matches DistinctStep::Unique(n) ==> n == d.pathkeys@.len() && (orders_fit(
                d,
                paths@,
            ) ==> begins_with_keys(r.pathkeys@, d.pathkeys@))
            &&& if r.step is Hash {
                removes_hashed(d, true, cheapest, r) && i == all.len() - 1 && ((!d.distinct_on
                    && d.enable_hashagg) || (all.len() == 1 && !before))
            } else {
                d.can_sort && removes_sorted(d, true, order_for_distinct(d), paths@, cheapest, r)
            }
        }),
{
    crate::aggorder::lemma_longer(d.sort_pathkeys, d.pathkeys);
    let sorted = if d.can_sort {
        sorted_distinct(d, true, distinct_order(d), paths, cheapest)
    } else {
        List::Nil
    };
    let hash = List::Cons(hash_distinct(d, true, cheapest), Box::new(List::Nil));
    crate::list::lemma_then_view(sorted, hash);
    if i < sorted@.len() {
        lemma_removed_sorted(d, true, distinct_order(d), paths, cheapest, i);
    } else {
        let none: List<DistinctPath> = List::Nil;
        assert(none@.len() == 0);
        assert(hash@.len() == 1);
    }
}

/// The parallel paths that remove duplicates compare rows in the keys of
/// DISTINCT, all of them and no others. There are none for DISTINCT ON.
pub proof fn lemma_partial_distinct(d: Distinct, paths: List<InputPath>, parallel: bool, i: int)
    requires
        d.pathkeys@.len() <= usize::MAX,
        0 <= i < partial_distinct_paths(d, paths, parallel)@.len(),
    ensures
        ({
            let r = partial_distinct_paths(d, paths, parallel)@[i];
            &&& parallel && !d.suppressed && !d.distinct_on && paths@.len() > 0
            &&& r.step matches DistinctStep::Unique(n) ==> n == d.pathkeys@.len() && (orders_fit(
                d,
                paths@,
            ) ==> begins_with_keys(r.pathkeys@, d.pathkeys@))
            &&& if r.step is Hash {
                removes_hashed(d, false, paths@[0].id, r) && d.enable_hashagg
            } else {
                d.can_sort && removes_sorted(d, false, d.pathkeys@, paths@, paths@[0].id, r)
            }
        }),
{
    let cheapest = first_path(paths);
    if let List::Cons(p, _) = paths {
        assert(paths@[0] == p);
    }
    let sorted = if d.can_sort {
        sorted_distinct(d, false, d.pathkeys, paths, cheapest)
    } else {
        List::Nil
    };
    let hash = List::Cons(hash_distinct(d, false, cheapest), Box::new(List::Nil));
    crate::list::lemma_then_view(sorted, hash);
    if i < sorted@.len() {
        lemma_removed_sorted(d, false, d.pathkeys, paths, cheapest, i);
    } else {
        let none: List<DistinctPath> = List::Nil;
        assert(none@.len() == 0);
        assert(hash@.len() == 1);
    }
}

/// Among the paths is one over the input in the order.
pub open spec fn removes_over(l: Seq<DistinctPath>, input: u32, keys: Seq<PathKey>) -> bool {
    exists|i: int| 0 <= i < l.len() && (#[trigger] l[i]).input == input && l[i].pathkeys@ == keys
}

proof fn lemma_tried_sorted(
    d: Distinct,
    last: bool,
    needed: List<PathKey>,
    paths: List<InputPath>,
    cheapest: u32,
    j: int,
)
    requires
        d.pathkeys@.len() <= usize::MAX,
        needed@.len() <= usize::MAX,
        0 <= j < paths@.len(),
        worth_ordering(
            paths@[j].pathkeys@,
            paths@[j].id == cheapest,
            needed@,
            d.enable_incremental_sort,
        ),
    ensures
        removes_over(
            sorted_distinct(d, last, needed, paths, cheapest)@,
            paths@[j].id,
            needed@,
        ),
    decreases paths,
{
    if let List::Cons(p, ps) = paths {
        let all = sorted_distinct(d, last, needed, paths, cheapest);
        let rest = sorted_distinct(d, last, needed, *ps, cheapest);
        let other = reordered(
            needed,
            p.pathkeys,
            kept_keys(d),
            d.enable_reordering,
            d.enable_incremental_sort,
        );
        let second = match other {
            None => rest,
            Some(keys) => with_distinct_path(d, last, p, cheapest, keys, rest),
        };
        lemma_with_distinct(d, last, p, cheapest, needed, second);
        if j == 0 {
            assert(all@[0].input == p.id);
        } else {
            assert(paths@[j] == ps@[j - 1]);
            lemma_tried_sorted(d, last, needed, *ps, cheapest, j - 1);
            if let Some(keys) = other {
                lemma_with_distinct(d, last, p, cheapest, keys, rest);
            }
            let i = choose|i: int|
                0 <= i < rest@.len() && (#[trigger] rest@[i]).input == paths@[j].id
                    && rest@[i].pathkeys@ == needed@;
            let at = i + (second@.len() - rest@.len());
            assert(second@[at] == rest@[i]);
            assert(all@[at + (all@.len() - second@.len())] == second@[at]);
        }
    }
}

/// Whatever is worth it is tried: every input that has the order of DISTINCT, or
/// that can be brought into it at little cost, and hashing where it may be used
/// beside sorting.
pub proof fn lemma_distinct_complete(
    d: Distinct,
    paths: List<InputPath>,
    cheapest: u32,
    before: bool,
    j: int,
)
    requires
        d.pathkeys@.len() <= usize::MAX,
        d.sort_pathkeys@.len() <= usize::MAX,
    ensures
        ({
            let all = final_distinct_paths(d, paths, cheapest, before)@;
            &&& d.can_sort && 0 <= j < paths@.len() && worth_ordering(
                paths@[j].pathkeys@,
                paths@[j].id == cheapest,
                order_for_distinct(d),
                d.enable_incremental_sort,
            ) ==> removes_over(all, paths@[j].id, order_for_distinct(d))
            &&& d.can_hash && d.enable_hashagg && !d.distinct_on ==> all.len() > 0
                && all.last().step is Hash
        }),
{
    crate::aggorder::lemma_longer(d.sort_pathkeys, d.pathkeys);
    let sorted = if d.can_sort {
        sorted_distinct(d, true, distinct_order(d), paths, cheapest)
    } else {
        List::Nil
    };
    let hash = List::Cons(hash_distinct(d, true, cheapest), Box::new(List::Nil));
    crate::list::lemma_then_view(sorted, hash);
    let none: List<DistinctPath> = List::Nil;
    assert(none@.len() == 0);
    assert(hash@.len() == 1);
    let all = final_distinct_paths(d, paths, cheapest, before)@;
    if d.can_sort && 0 <= j < paths@.len() && worth_ordering(
        paths@[j].pathkeys@,
        paths@[j].id == cheapest,
        order_for_distinct(d),
        d.enable_incremental_sort,
    ) {
        lemma_tried_sorted(d, true, distinct_order(d), paths, cheapest, j);
        let i = choose|i: int|
            0 <= i < sorted@.len() && (#[trigger] sorted@[i]).input == paths@[j].id
                && sorted@[i].pathkeys@ == order_for_distinct(d);
        assert(all[i] == sorted@[i]);
    }
}

/// Among the paths is one over the input.
pub open spec fn orders_over(l: Seq<OrderedPath>, input: u32, merged: bool) -> bool {
    exists|i: int| 0 <= i < l.len() && (#[trigger] l[i]).input == input && l[i].merged == merged
}

proof fn lemma_tried_in_order(
    request: OrderRequest,
    paths: List<InputPath>,
    cheapest: u32,
    merged: bool,
    j: int,
)
    requires
        request.keys@.len() <= usize::MAX,
        0 <= j < paths@.len(),
        worth_ordering(
            paths@[j].pathkeys@,
            paths@[j].id == cheapest,
            request.keys@,
            request.enable_incremental_sort,
        ),
        merged ==> !request.keys@.is_prefix_of(paths@[j].pathkeys@),
    ensures
        orders_over(paths_in_order(request, paths, cheapest, merged)@, paths@[j].id, merged),
    decreases paths,
{
    if let List::Cons(p, ps) = paths {
        let rest = paths_in_order(request, *ps, cheapest, merged);
        let all = paths_in_order(request, paths, cheapest, merged);
        if j == 0 {
            lemma_ordered_step(
                p.pathkeys,
                p.id == cheapest,
                request.keys,
                request.enable_incremental_sort,
            );
            assert(all@[0].input == p.id);
        } else {
            assert(paths@[j] == ps@[j - 1]);
            lemma_tried_in_order(request, *ps, cheapest, merged, j - 1);
            let i = choose|i: int|
                0 <= i < rest@.len() && (#[trigger] rest@[i]).input == paths@[j].id
                    && rest@[i].merged == merged;
            if all@.len() == rest@.len() {
                assert(all@[i] == rest@[i]);
            } else {
                assert(all@[i + 1] == rest@[i]);
            }
        }
    }
}

/// Every input that has the order, or can be brought into it at little cost, is
/// used for ORDER BY; so is every parallel one that has to be sorted, where the
/// relation may be computed in parallel.
pub proof fn lemma_order_complete(
    request: OrderRequest,
    paths: List<InputPath>,
    cheapest: u32,
    partial_paths: List<InputPath>,
    j: int,
)
    requires
        request.keys@.len() <= usize::MAX,
    ensures
        ({
            let all = ordered_rel(request, paths, cheapest, partial_paths).paths@;
            &&& 0 <= j < paths@.len() && worth_ordering(
                paths@[j].pathkeys@,
                paths@[j].id == cheapest,
                request.keys@,
                request.enable_incremental_sort,
            ) ==> orders_over(all, paths@[j].id, false)
            &&& request.input_parallel && request.target_parallel_safe && !request.suppressed && 0
                <= j < partial_paths@.len() && worth_ordering(
                partial_paths@[j].pathkeys@,
                partial_paths@[j].id == partial_paths@[0].id,
                request.keys@,
                request.enable_incremental_sort,
            ) && !request.keys@.is_prefix_of(partial_paths@[j].pathkeys@) ==> orders_over(
                all,
                partial_paths@[j].id,
                true,
            )
        }),
{
    let all = ordered_rel(request, paths, cheapest, partial_paths).paths@;
    let plain = paths_in_order(request, paths, cheapest, false);
    let first = first_path(partial_paths);
    let merged = paths_in_order(request, partial_paths, first, true);
    crate::list::lemma_then_view(plain, merged);
    if 0 <= j < paths@.len() && worth_ordering(
        paths@[j].pathkeys@,
        paths@[j].id == cheapest,
        request.keys@,
        request.enable_incremental_sort,
    ) {
        lemma_tried_in_order(request, paths, cheapest, false, j);
        let i = choose|i: int|
            0 <= i < plain@.len() && (#[trigger] plain@[i]).input == paths@[j].id
                && plain@[i].merged == false;
        assert(all[i] == plain@[i]);
    }
    if let List::Cons(p, _) = partial_paths {
        assert(partial_paths@[0] == p);
    }
    if request.input_parallel && request.target_parallel_safe && !request.suppressed && 0 <= j
        < partial_paths@.len() && worth_ordering(
        partial_paths@[j].pathkeys@,
        partial_paths@[j].id == partial_paths@[0].id,
        request.keys@,
        request.enable_incremental_sort,
    ) && !request.keys@.is_prefix_of(partial_paths@[j].pathkeys@) {
        if request.keys is Nil {
            assert(request.keys@ =~= partial_paths@[j].pathkeys@.subrange(0, 0));
        }
        lemma_tried_in_order(request, partial_paths, first, true, j);
        let i = choose|i: int|
            0 <= i < merged@.len() && (#[trigger] merged@[i]).input == partial_paths@[j].id
                && merged@[i].merged == true;
        assert(all[plain@.len() + i] == merged@[i]);
    }
}

/// The parallel path is sorted by the keys before its rows are merged: it is one
/// of the paths, does not have the order already, and is brought into it.
pub open spec fn sorts_to_merge(
    keys: Seq<PathKey>,
    paths: Seq<InputPath>,
    cheapest: u32,
    enable_incremental_sort: bool,
    m: MergedPath,
) -> bool {
    exists|j: int|
        0 <= j < paths.len() && (#[trigger] paths[j]).id == m.input && !keys.is_prefix_of(
            paths[j].pathkeys@,
        ) && brings_into_order(
            paths[j].pathkeys@,
            m.input == cheapest,
            keys,
            enable_incremental_sort,
            m.sort,
        )
}

/// Of the parallel paths of a grouped relation, those that lack the order of
/// GROUP BY are sorted by it, and by nothing more, before their rows are merged.
pub proof fn lemma_gathered_groups(
    group_pathkeys: List<PathKey>,
    num_groupby_pathkeys: usize,
    paths: List<InputPath>,
    cheapest: u32,
    enable_incremental_sort: bool,
    i: int,
)
    requires
        num_groupby_pathkeys <= group_pathkeys@.len(),
        0 <= i < merged_paths(
            first_keys(group_pathkeys, num_groupby_pathkeys),
            paths,
            cheapest,
            enable_incremental_sort,
        )@.len(),
    ensures
        first_keys(group_pathkeys, num_groupby_pathkeys)@ == group_pathkeys@.take(
            num_groupby_pathkeys as int,
        ),
        sorts_to_merge(
            group_pathkeys@.take(num_groupby_pathkeys as int),
            paths@,
            cheapest,
            enable_incremental_sort,
            merged_paths(
                first_keys(group_pathkeys, num_groupby_pathkeys),
                paths,
                cheapest,
                enable_incremental_sort,
            )@[i],
        ),
{
    lemma_first_keys(group_pathkeys, num_groupby_pathkeys);
    lemma_merged_path(
        first_keys(group_pathkeys, num_groupby_pathkeys),
        paths,
        cheapest,
        enable_incremental_sort,
        i,
    );
}

proof fn lemma_merged_path(
    keys: List<PathKey>,
    paths: List<InputPath>,
    cheapest: u32,
    enable_incremental_sort: bool,
    i: int,
)
    requires
        keys@.len() <= usize::MAX,
        0 <= i < merged_paths(keys, paths, cheapest, enable_incremental_sort)@.len(),
    ensures
        sorts_to_merge(
            keys@,
            paths@,
            cheapest,
            enable_incremental_sort,
            merged_paths(keys, paths, cheapest, enable_incremental_sort)@[i],
        ),
    decreases paths,
{
    if let List::Cons(p, ps) = paths {
        let rest = merged_paths(keys, *ps, cheapest, enable_incremental_sort);
        let all = merged_paths(keys, paths, cheapest, enable_incremental_sort);
        let m = all@[i];
        lemma_ordered_step(p.pathkeys, p.id == cheapest, keys, enable_incremental_sort);
        assert(paths@[0] == p);
        if all@.len() != rest@.len() && i == 0 {
            assert(m.input == paths@[0].id);
        } else {
            let at = if all@.len() == rest@.len() {
                i
            } else {
                i - 1
            };
            assert(m == rest@[at]);
            lemma_merged_path(keys, *ps, cheapest, enable_incremental_sort, at);
            let j = choose|j: int|
                0 <= j < ps@.len() && (#[trigger] ps@[j]).id == m.input && !keys@.is_prefix_of(
                    ps@[j].pathkeys@,
                ) && brings_into_order(
                    ps@[j].pathkeys@,
                    m.input == cheapest,
                    keys@,
                    enable_incremental_sort,
                    m.sort,
                );
            assert(paths@[j + 1] == ps@[j]);
        }
    }
}

} // verus!

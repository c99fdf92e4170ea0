//! Queries that are named in a WITH clause.
use vstd::prelude::*;
use crate::error::PlannerError;
use crate::list::List;

verus! {

/// Whether a named query is kept as a table of its own.
#[derive(Clone, Copy, Debug, PartialEq, Eq, Structural)]
pub enum Materialize {
    Default,
    Always,
    Never,
}

/// What a query reads, or holds.
#[derive(Debug)]
pub enum Source {
    /// A named query: its name, how many levels up it is defined, and whether
    /// this is the query that it names.
    Named { name: u32, levelsup: u32, self_reference: bool },
    /// A query that it reads, or that stands in its expressions or in its own
    /// WITH clause.
    Subquery(Box<NamedQuery>),
    /// Anything else.
    Other(u32),
}

/// A query, as far as named queries go.
#[derive(Debug)]
pub struct NamedQuery {
    pub is_select: bool,
    pub has_row_marks: bool,
    /// How many levels up the columns are that its expressions refer to.
    pub var_levels: List<u32>,
    pub sources: List<Source>,
}

/// The query, or one inside it, changes or locks rows.
pub open spec fn has_dml(q: NamedQuery) -> bool
    decreases q,
{
    !q.is_select || q.has_row_marks || sources_have_dml(q.sources)
}

/// Some query that is read changes or locks rows.
pub open spec fn sources_have_dml(l: List<Source>) -> bool
    decreases l,
{
    match l {
        List::Nil => false,
        List::Cons(x, xs) => source_has_dml(x) || sources_have_dml(*xs),
    }
}

/// The query that is read changes or locks rows.
pub open spec fn source_has_dml(s: Source) -> bool
    decreases s,
{
    match s {
        Source::Subquery(q) => has_dml(*q),
        _ => false,
    }
}

/// Does the query, or one inside it, change or lock rows?
pub fn contain_dml(q: &NamedQuery) -> (r: bool)
    ensures
        r == has_dml(*q),
    decreases q,
{
    if !q.is_select || q.has_row_marks {
        return true;
    }
    sources_contain_dml(&q.sources)
}

fn sources_contain_dml(l: &List<Source>) -> (r: bool)
    ensures
        r == sources_have_dml(*l),
    decreases l,
{
    match l {
        List::Nil => false,
        List::Cons(x, xs) => {
            let here = match x {
                Source::Subquery(q) => {
                    let inside = contain_dml(q);
                    assert(source_has_dml(*x) == has_dml(**q));
                    inside
                },
                _ => {
                    assert(!source_has_dml(*x));
                    false
                },
            };
            here || sources_contain_dml(xs)
        },
    }
}

/// The query, which stands so many levels deep, reads a query that is defined
/// outside and names this one.
pub open spec fn has_outer_selfref(q: NamedQuery, depth: u32) -> bool
    decreases q,
{
    sources_have_selfref(q.sources, deeper(depth))
}

/// One level deeper.
pub open spec fn deeper(depth: u32) -> u32 {
    if depth == u32::MAX {
        depth
    } else {
        (depth + 1) as u32
    }
}

/// Some source names a query that is defined outside.
pub open spec fn sources_have_selfref(l: List<Source>, depth: u32) -> bool
    decreases l,
{
    match l {
        List::Nil => false,
        List::Cons(x, xs) => source_has_selfref(x, depth) || sources_have_selfref(*xs, depth),
    }
}

/// The source names a query that is defined outside.
pub open spec fn source_has_selfref(s: Source, depth: u32) -> bool
    decreases s,
{
    match s {
        Source::Named { name, levelsup, self_reference } => self_reference && levelsup >= depth,
        Source::Subquery(q) => has_outer_selfref(*q, depth),
        Source::Other(_) => false,
    }
}

/// Goes one level deeper.
pub fn go_deeper(depth: u32) -> (r: u32)
    ensures
        r == deeper(depth),
{
    if depth == u32::MAX {
        depth
    } else {
        depth + 1
    }
}

/// Does the query, which stands so many levels deep, read a query that is
/// defined outside and names this one?
pub fn contain_outer_selfref(q: &NamedQuery, depth: u32) -> (r: bool)
    ensures
        r == has_outer_selfref(*q, depth),
    decreases q,
{
    let below: u32 = go_deeper(depth);
    sources_contain_selfref(&q.sources, below)
}

fn sources_contain_selfref(l: &List<Source>, depth: u32) -> (r: bool)
    ensures
        r == sources_have_selfref(*l, depth),
    decreases l,
{
    match l {
        List::Nil => false,
        List::Cons(x, xs) => {
            let here = match x {
                Source::Named { levelsup, self_reference, .. } => {
                    assert(source_has_selfref(*x, depth) == (*self_reference && *levelsup
                        >= depth));
                    *self_reference && *levelsup >= depth
                },
                Source::Subquery(q) => {
                    let inside = contain_outer_selfref(q, depth);
                    assert(source_has_selfref(*x, depth) == has_outer_selfref(**q, depth));
                    inside
                },
                Source::Other(_) => {
                    assert(!source_has_selfref(*x, depth));
                    false
                },
            };
            here || sources_contain_selfref(xs, depth)
        },
    }
}

/// What is known of a named query.
#[derive(Debug)]
pub struct NamedQueryFacts {
    pub name: u32,
    /// How often it is read.
    pub refcount: i32,
    pub materialized: Materialize,
    pub recursive: bool,
    /// It calls a volatile function.
    pub volatile: bool,
    pub query: NamedQuery,
}

/// What is done with a named query.
#[derive(Clone, Copy, Debug, PartialEq, Eq, Structural)]
pub enum NamedQueryWay {
    /// Nothing, for nobody reads it.
    Skip,
    /// It is put in the place of those that read it; there is only one of them
    /// where that is set.
    Inline(bool),
    /// It is planned on its own.
    Plan,
}

/// A named query can be put in the place of those that read it: that is asked
/// for, or it is read once; it is not recursive and only reads; and nothing
/// would be computed differently there.
pub open spec fn is_inlinable(c: NamedQueryFacts) -> bool {
    &&& c.materialized == Materialize::Never || (c.materialized == Materialize::Default
        && c.refcount == 1)
    &&& !c.recursive
    &&& c.query.is_select
    &&& !has_dml(c.query)
    &&& c.refcount <= 1 || !has_outer_selfref(c.query, 0)
    &&& !c.volatile
}

/// What is done with a named query.
pub open spec fn named_query_way(c: NamedQueryFacts) -> NamedQueryWay {
    if c.refcount == 0 && c.query.is_select {
        NamedQueryWay::Skip
    } else if is_inlinable(c) {
        NamedQueryWay::Inline(c.refcount == 1)
    } else {
        NamedQueryWay::Plan
    }
}

/// Decides what is done with a named query.
pub fn choose_way(c: &NamedQueryFacts) -> (r: NamedQueryWay)
    ensures
        r == named_query_way(*c),
{
    if c.refcount == 0 && c.query.is_select {
        return NamedQueryWay::Skip;
    }
    let wanted = c.materialized == Materialize::Never || (c.materialized == Materialize::Default
        && c.refcount == 1);
    if wanted && !c.recursive && c.query.is_select && !contain_dml(&c.query) && (c.refcount <= 1
        || !contain_outer_selfref(&c.query, 0)) && !c.volatile {
        NamedQueryWay::Inline(c.refcount == 1)
    } else {
        NamedQueryWay::Plan
    }
}

/// A query that changes or locks rows is never put in the place of those that
/// read it, nor left out: it is carried out once.
pub proof fn lemma_dml_planned(c: NamedQueryFacts)
    requires
        !c.query.is_select,
    ensures
        named_query_way(c) == NamedQueryWay::Plan,
{
}

/// The level, raised by `n` if it is `min` or more.
pub open spec fn raised_level(level: u32, n: u32, min: u32) -> u32 {
    if level < min {
        level
    } else if level + n > u32::MAX {
        u32::MAX
    } else {
        (level + n) as u32
    }
}

/// Raises a level.
pub fn raise_level(level: u32, n: u32, min: u32) -> (r: u32)
    ensures
        r == raised_level(level, n, min),
{
    if level < min {
        level
    } else if level > u32::MAX - n {
        u32::MAX
    } else {
        level + n
    }
}

/// The levels, those of `min` or more raised by `n`.
pub open spec fn raised_levels(l: List<u32>, n: u32, min: u32) -> List<u32>
    decreases l,
{
    match l {
        List::Nil => List::Nil,
        List::Cons(x, xs) => List::Cons(
            raised_level(x, n, min),
            Box::new(raised_levels(*xs, n, min)),
        ),
    }
}

fn raise_levels(l: &List<u32>, n: u32, min: u32) -> (r: List<u32>)
    ensures
        r == raised_levels(*l, n, min),
    decreases l,
{
    match l {
        List::Nil => List::Nil,
        List::Cons(x, xs) => List::Cons(raise_level(*x, n, min), Box::new(raise_levels(xs, n, min))),
    }
}

/// The query as it reads `n` levels further down: what it refers to outside
/// itself is as many more levels up.
pub open spec fn raised(q: NamedQuery, n: u32, min: u32) -> NamedQuery
    decreases q,
{
    NamedQuery {
        var_levels: raised_levels(q.var_levels, n, min),
        sources: raised_sources(q.sources, n, min),
        ..q
    }
}

/// The sources `n` levels further down.
pub open spec fn raised_sources(l: List<Source>, n: u32, min: u32) -> List<Source>
    decreases l,
{
    match l {
        List::Nil => List::Nil,
        List::Cons(x, xs) => List::Cons(
            raised_source(x, n, min),
            Box::new(raised_sources(*xs, n, min)),
        ),
    }
}

/// A source `n` levels further down.
pub open spec fn raised_source(s: Source, n: u32, min: u32) -> Source
    decreases s,
{
    match s {
        Source::Named { name, levelsup, self_reference } => Source::Named {
            name,
            levelsup: raised_level(levelsup, n, min),
            self_reference,
        },
        Source::Subquery(q) => Source::Subquery(Box::new(raised(*q, n, deeper(min)))),
        Source::Other(x) => s,
    }
}

fn raise(q: &NamedQuery, n: u32, min: u32) -> (r: NamedQuery)
    ensures
        r == raised(*q, n, min),
    decreases q,
{
    NamedQuery {
        is_select: q.is_select,
        has_row_marks: q.has_row_marks,
        var_levels: raise_levels(&q.var_levels, n, min),
        sources: raise_sources(&q.sources, n, min),
    }
}

fn raise_sources(l: &List<Source>, n: u32, min: u32) -> (r: List<Source>)
    ensures
        r == raised_sources(*l, n, min),
    decreases l,
{
    match l {
        List::Nil => List::Nil,
        List::Cons(x, xs) => {
            let here = match x {
                Source::Named { name, levelsup, self_reference } => Source::Named {
                    name: *name,
                    levelsup: raise_level(*levelsup, n, min),
                    self_reference: *self_reference,
                },
                Source::Subquery(q) => Source::Subquery(Box::new(raise(q, n, go_deeper(min)))),
                Source::Other(o) => Source::Other(*o),
            };
            assert(here == raised_source(*x, n, min));
            List::Cons(here, Box::new(raise_sources(xs, n, min)))
        },
    }
}

/// The query where a named query stands in the place of those that read it;
/// `level` is how many levels up it is defined.
pub open spec fn inlined(q: NamedQuery, name: u32, level: u32, named: NamedQuery) -> NamedQuery
    decreases q,
{
    NamedQuery {
        sources: inlined_sources(q.sources, name, level, named),
        ..q
    }
}

/// The sources, where a named query stands in the place of those that name it.
pub open spec fn inlined_sources(l: List<Source>, name: u32, level: u32, named: NamedQuery) -> List<
    Source,
>
    decreases l,
{
    match l {
        List::Nil => List::Nil,
        List::Cons(x, xs) => List::Cons(
            inlined_source(x, name, level, named),
            Box::new(inlined_sources(*xs, name, level, named)),
        ),
    }
}

/// A source, or the named query in its place.
pub open spec fn inlined_source(s: Source, name: u32, level: u32, named: NamedQuery) -> Source
    decreases s,
{
    match s {
        Source::Named { name: other, levelsup, self_reference } => if other == name && levelsup
            == level {
            Source::Subquery(Box::new(raised(named, level, 1)))
        } else {
            s
        },
        Source::Subquery(q) => Source::Subquery(Box::new(inlined(*q, name, deeper(level), named))),
        Source::Other(_) => s,
    }
}

/// Puts a named query in the place of those that read it.
pub fn inline_cte(q: NamedQuery, name: u32, level: u32, named: &NamedQuery) -> (r: NamedQuery)
    ensures
        r == inlined(q, name, level, *named),
    decreases q,
{
    NamedQuery {
        is_select: q.is_select,
        has_row_marks: q.has_row_marks,
        var_levels: q.var_levels,
        sources: inline_sources(q.sources, name, level, named),
    }
}

fn inline_sources(l: List<Source>, name: u32, level: u32, named: &NamedQuery) -> (r: List<Source>)
    ensures
        r == inlined_sources(l, name, level, *named),
    decreases l,
{
    match l {
        List::Nil => List::Nil,
        List::Cons(x, xs) => {
            let ghost before = x;
            let here = match x {
                Source::Named { name: other, levelsup, self_reference } => if other == name
                    && levelsup == level {
                    Source::Subquery(Box::new(raise(named, level, 1)))
                } else {
                    Source::Named { name: other, levelsup, self_reference }
                },
                Source::Subquery(q) => Source::Subquery(
                    Box::new(inline_cte(*q, name, go_deeper(level), named)),
                ),
                Source::Other(o) => Source::Other(o),
            };
            assert(here == inlined_source(before, name, level, *named));
            List::Cons(here, Box::new(inline_sources(*xs, name, level, named)))
        },
    }
}

/// The query reads a named query that is defined `level` levels up.
pub open spec fn reads(q: NamedQuery, name: u32, level: u32) -> bool
    decreases q,
{
    sources_read(q.sources, name, level)
}

/// Some source is the named query, or reads it.
pub open spec fn sources_read(l: List<Source>, name: u32, level: u32) -> bool
    decreases l,
{
    match l {
        List::Nil => false,
        List::Cons(x, xs) => source_reads(x, name, level) || sources_read(*xs, name, level),
    }
}

/// The source is the named query, or reads it.
pub open spec fn source_reads(s: Source, name: u32, level: u32) -> bool
    decreases s,
{
    match s {
        Source::Named { name: other, levelsup, self_reference } => other == name && levelsup
            == level,
        Source::Subquery(q) => reads(*q, name, deeper(level)),
        Source::Other(_) => false,
    }
}

/// How deeply queries are nested in a query.
pub open spec fn nesting(q: NamedQuery) -> nat
    decreases q,
{
    1 + sources_nesting(q.sources)
}

/// How deeply queries are nested in sources.
pub open spec fn sources_nesting(l: List<Source>) -> nat
    decreases l,
{
    match l {
        List::Nil => 0,
        List::Cons(x, xs) => {
            let a = source_nesting(x);
            let b = sources_nesting(*xs);
            if a > b {
                a
            } else {
                b
            }
        },
    }
}

/// How deeply queries are nested in a source.
pub open spec fn source_nesting(s: Source) -> nat
    decreases s,
{
    match s {
        Source::Subquery(q) => nesting(*q),
        _ => 0,
    }
}

proof fn lemma_raised_reads(q: NamedQuery, n: u32, min: u32, name: u32, level: u32)
    requires
        level >= min,
        level + n + nesting(q) < u32::MAX,
        min + nesting(q) < u32::MAX,
        all_levels_fit(q, n),
    ensures
        reads(raised(q, n, min), name, (level + n) as u32) ==> reads(q, name, level),
    decreases q,
{
    lemma_raised_sources_read(q.sources, n, min, name, level);
}

/// No level overflows when it is raised by `n`.
pub open spec fn all_levels_fit(q: NamedQuery, n: u32) -> bool
    decreases q,
{
    sources_fit(q.sources, n)
}

/// No level of the sources overflows when it is raised by `n`.
pub open spec fn sources_fit(l: List<Source>, n: u32) -> bool
    decreases l,
{
    match l {
        List::Nil => true,
        List::Cons(x, xs) => source_fits(x, n) && sources_fit(*xs, n),
    }
}

/// No level of the source overflows when it is raised by `n`.
pub open spec fn source_fits(s: Source, n: u32) -> bool
    decreases s,
{
    match s {
        Source::Named { name, levelsup, self_reference } => levelsup + n < u32::MAX,
        Source::Subquery(q) => all_levels_fit(*q, n),
        Source::Other(_) => true,
    }
}

proof fn lemma_raised_sources_read(l: List<Source>, n: u32, min: u32, name: u32, level: u32)
    requires
        level >= min,
        level + n + sources_nesting(l) + 1 < u32::MAX,
        min + sources_nesting(l) + 1 < u32::MAX,
        sources_fit(l, n),
    ensures
        sources_read(raised_sources(l, n, min), name, (level + n) as u32) ==> sources_read(
            l,
            name,
            level,
        ),
    decreases l,
{
    if let List::Cons(x, xs) = l {
        lemma_raised_sources_read(*xs, n, min, name, level);
        let up = (level + n) as u32;
        let y = raised_source(x, n, min);
        match x {
            Source::Named { name: other, levelsup, self_reference } => {
                assert(source_reads(y, name, up) ==> source_reads(x, name, level));
            },
            Source::Subquery(q) => {
                assert(source_nesting(x) == nesting(*q));
                assert(source_fits(x, n) == all_levels_fit(*q, n));
                lemma_raised_reads(*q, n, deeper(min), name, deeper(level));
                assert(y == Source::Subquery(Box::new(raised(*q, n, deeper(min)))));
                assert(source_reads(y, name, up) == reads(
                    raised(*q, n, deeper(min)),
                    name,
                    deeper(up),
                ));
                assert(source_reads(x, name, level) == reads(*q, name, deeper(level)));
                assert(deeper(up) == (deeper(level) + n) as u32);
            },
            Source::Other(_) => {
                assert(!source_reads(y, name, up));
            },
        }
        let rest = raised_sources(*xs, n, min);
        assert(raised_sources(l, n, min) == List::Cons(y, Box::new(rest)));
        assert(sources_read(List::Cons(y, Box::new(rest)), name, up) == (source_reads(y, name, up)
            || sources_read(rest, name, up)));
    }
}

/// Levels fit for every amount up to `n`.
pub open spec fn fits_up_to(named: NamedQuery, n: u32) -> bool {
    forall|k: u32| k <= n ==> #[trigger] all_levels_fit(named, k)
}

/// Once a named query stands in the place of those that read it, nobody reads
/// it: it need not be planned. It must not read itself, and levels must stay
/// below what a number can hold.
pub proof fn lemma_inlined(q: NamedQuery, name: u32, level: u32, named: NamedQuery)
    requires
        !reads(named, name, 1),
        level + nesting(q) + nesting(named) + 2 < u32::MAX,
        fits_up_to(named, (level + nesting(q)) as u32),
    ensures
        !reads(inlined(q, name, level, named), name, level),
    decreases q,
{
    lemma_inlined_sources(q.sources, name, level, named);
}

proof fn lemma_inlined_sources(l: List<Source>, name: u32, level: u32, named: NamedQuery)
    requires
        !reads(named, name, 1),
        level + sources_nesting(l) + nesting(named) + 3 < u32::MAX,
        fits_up_to(named, (level + sources_nesting(l) + 1) as u32),
    ensures
        !sources_read(inlined_sources(l, name, level, named), name, level),
    decreases l,
{
    match l {
        List::Nil => {
            assert(!sources_read(List::Nil, name, level));
        },
        List::Cons(x, xs) => {
            lemma_inlined_sources(*xs, name, level, named);
            let y = inlined_source(x, name, level, named);
            match x {
                Source::Named { name: other, levelsup, self_reference } => {
                    if other == name && levelsup == level {
                        assert(all_levels_fit(named, level));
                        lemma_raised_reads(named, level, 1, name, 1);
                        assert(y == Source::Subquery(Box::new(raised(named, level, 1))));
                        assert(source_reads(y, name, level) == reads(
                            raised(named, level, 1),
                            name,
                            deeper(level),
                        ));
                    } else {
                        assert(!source_reads(y, name, level));
                    }
                },
                Source::Subquery(q) => {
                    assert(source_nesting(x) == nesting(*q));
                    assert forall|k: u32| k <= (deeper(level) + nesting(*q)) as u32 implies
                        #[trigger] all_levels_fit(named, k) by {}
                    lemma_inlined(*q, name, deeper(level), named);
                    assert(y == Source::Subquery(
                        Box::new(inlined(*q, name, deeper(level), named)),
                    ));
                    assert(source_reads(y, name, level) == reads(
                        inlined(*q, name, deeper(level), named),
                        name,
                        deeper(level),
                    ));
                },
                Source::Other(_) => {
                    assert(!source_reads(y, name, level));
                },
            }
            let rest = inlined_sources(*xs, name, level, named);
            assert(inlined_sources(l, name, level, named) == List::Cons(y, Box::new(rest)));
            assert(sources_read(List::Cons(y, Box::new(rest)), name, level) == (source_reads(
                y,
                name,
                level,
            ) || sources_read(rest, name, level)));
        },
    }
}

/// A query level: the named queries that are defined there, the numbers of
/// their plans, and the parameters that plans are found by.
#[derive(Debug)]
pub struct NamedLevel {
    pub names: List<u32>,
    pub plan_ids: List<i32>,
    pub init_plans: List<(i32, i32)>,
}

/// The named queries of a WITH clause, part of which are dealt with: the query
/// that they belong to, those that are left, and what is known of the others.
/// `level.plan_ids` holds a number for each that was dealt with: that of its
/// plan, or -1.
#[derive(Debug)]
pub struct NamedProgress {
    pub query: NamedQuery,
    pub left: List<NamedQueryFacts>,
    pub level: NamedLevel,
}

/// The number that stands for no plan.
pub const NO_PLAN: i32 = -1;

/// The named queries, where one of them stands in the place of those that read
/// it.
pub open spec fn inlined_into(l: List<NamedQueryFacts>, name: u32, named: NamedQuery) -> List<
    NamedQueryFacts,
>
    decreases l,
{
    match l {
        List::Nil => List::Nil,
        List::Cons(x, xs) => List::Cons(
            NamedQueryFacts { query: inlined(x.query, name, 1, named), ..x },
            Box::new(inlined_into(*xs, name, named)),
        ),
    }
}

proof fn lemma_inlined_into(l: List<NamedQueryFacts>, name: u32, named: NamedQuery)
    ensures
        inlined_into(l, name, named)@.len() == l@.len(),
    decreases l,
{
    match l {
        List::Nil => {
            assert(l@.len() == 0);
        },
        List::Cons(_, xs) => {
            lemma_inlined_into(*xs, name, named);
        },
    }
}

fn inline_into(l: List<NamedQueryFacts>, name: u32, named: &NamedQuery) -> (r: List<
    NamedQueryFacts,
>)
    ensures
        r == inlined_into(l, name, *named),
    decreases l,
{
    match l {
        List::Nil => List::Nil,
        List::Cons(x, xs) => {
            let mut x = x;
            x.query = inline_cte(x.query, name, 1, named);
            List::Cons(x, Box::new(inline_into(*xs, name, named)))
        },
    }
}

/// The level, with the number of one more plan.
pub open spec fn with_plan_id(level: NamedLevel, id: i32) -> NamedLevel {
    NamedLevel {
        plan_ids: level.plan_ids.then_list(List::Cons(id, Box::new(List::Nil))),
        ..level
    }
}

/// The named queries after those that need no plan were dealt with, up to the
/// next one that does. One that is put in the place of those that read it is
/// put there before the next one is looked at: in the query, and in the named
/// queries that are left.
pub open spec fn advanced(p: NamedProgress) -> NamedProgress
    decreases p.left@.len(),
    via advanced_decreases
{
    match p.left {
        List::Nil => p,
        List::Cons(x, xs) => match named_query_way(x) {
            NamedQueryWay::Plan => p,
            NamedQueryWay::Skip => advanced(
                NamedProgress { left: *xs, level: with_plan_id(p.level, NO_PLAN), ..p },
            ),
            NamedQueryWay::Inline(_) => advanced(
                NamedProgress {
                    query: inlined(p.query, x.name, 0, x.query),
                    left: inlined_into(*xs, x.name, x.query),
                    level: with_plan_id(p.level, NO_PLAN),
                },
            ),
        },
    }
}

#[via_fn]
proof fn advanced_decreases(p: NamedProgress) {
    if let List::Cons(x, xs) = p.left {
        assert(p.left@.len() == xs@.len() + 1);
        lemma_inlined_into(*xs, x.name, x.query);
    }
}

/// Deals with the named queries of a WITH clause up to the next one that has to
/// be planned, which is then the first of those that are left.
pub fn ss_process_ctes(p: NamedProgress) -> (r: NamedProgress)
    ensures
        r == advanced(p),
    decreases p.left@.len(),
{
    match p.left {
        List::Nil => NamedProgress { query: p.query, left: List::Nil, level: p.level },
        List::Cons(x, xs) => {
            proof {
                assert(p.left@.len() == xs@.len() + 1);
                lemma_inlined_into(*xs, x.name, x.query);
            }
            match choose_way(&x) {
                NamedQueryWay::Plan => NamedProgress {
                    query: p.query,
                    left: List::Cons(x, xs),
                    level: p.level,
                },
                NamedQueryWay::Skip => {
                    let mut level = p.level;
                    level.plan_ids = level.plan_ids.append(List::one(NO_PLAN));
                    ss_process_ctes(NamedProgress { query: p.query, left: *xs, level })
                },
                NamedQueryWay::Inline(_) => {
                    let mut level = p.level;
                    level.plan_ids = level.plan_ids.append(List::one(NO_PLAN));
                    let query = inline_cte(p.query, x.name, 0, &x.query);
                    let left = inline_into(*xs, x.name, &x.query);
                    ss_process_ctes(NamedProgress { query, left, level })
                },
            }
        },
    }
}

/// The named queries after the first that was left got a plan: the plan comes
/// after `plans` others, and is found by a parameter of its own.
pub open spec fn after_plan(p: NamedProgress, plans: i32, param: i32) -> NamedProgress {
    match p.left {
        List::Nil => p,
        List::Cons(_, xs) => NamedProgress {
            query: p.query,
            left: *xs,
            level: NamedLevel {
                init_plans: p.level.init_plans.then_list(
                    List::Cons(((plans + 1) as i32, param), Box::new(List::Nil)),
                ),
                ..with_plan_id(p.level, (plans + 1) as i32)
            },
        },
    }
}

/// Takes the plan of the first named query that was left into account. `plans`
/// is how many plans there were before it, and `types` are the types of the
/// parameters, to which one without a value is added.
pub fn note_cte_plan(p: NamedProgress, plans: i32, types: &mut Vec<u32>) -> (r: NamedProgress)
    requires
        0 <= plans < i32::MAX,
        old(types)@.len() <= i32::MAX,
        !(p.left is Nil),
    ensures
        r == after_plan(p, plans, old(types)@.len() as i32),
        final(types)@ == old(types)@.push(0),
{
    let param: i32 = assign_special_exec_param(types) as i32;
    let mut level = p.level;
    level.plan_ids = level.plan_ids.append(List::one(plans + 1));
    level.init_plans = level.init_plans.append(List::one((plans + 1, param)));
    match p.left {
        List::Nil => NamedProgress { query: p.query, left: List::Nil, level },
        List::Cons(_, xs) => NamedProgress { query: p.query, left: *xs, level },
    }
}

/// The parameter of a plan is found, where no plan before it has its number.
pub proof fn lemma_plan_found(init_plans: List<(i32, i32)>, plan_id: i32, param: i32)
    requires
        param_of_plan(init_plans, plan_id) is None,
    ensures
        param_of_plan(
            init_plans.then_list(List::Cons((plan_id, param), Box::new(List::Nil))),
            plan_id,
        ) == Some(param),
    decreases init_plans,
{
    if let List::Cons(_, xs) = init_plans {
        lemma_plan_found(*xs, plan_id, param);
    }
}

/// Every named query that is dealt with gets one number: with those that are
/// left, there are as many as before. The first that is left has to be planned.
pub proof fn lemma_all_dealt_with(p: NamedProgress)
    ensures
        advanced(p).level.plan_ids@.len() + advanced(p).left@.len() == p.level.plan_ids@.len()
            + p.left@.len(),
        advanced(p).left matches List::Cons(x, _) ==> named_query_way(x) == NamedQueryWay::Plan,
        advanced(p).level.init_plans == p.level.init_plans,
    decreases p.left@.len(),
{
    if let List::Cons(x, xs) = p.left {
        assert(p.left@.len() == xs@.len() + 1);
        lemma_inlined_into(*xs, x.name, x.query);
        let none: List<i32> = List::Nil;
        assert(none@.len() == 0);
        crate::list::lemma_then_view(p.level.plan_ids, List::Cons(NO_PLAN, Box::new(List::Nil)));
        match named_query_way(x) {
            NamedQueryWay::Plan => {},
            NamedQueryWay::Skip => {
                lemma_all_dealt_with(
                    NamedProgress { left: *xs, level: with_plan_id(p.level, NO_PLAN), ..p },
                );
            },
            NamedQueryWay::Inline(_) => {
                lemma_all_dealt_with(
                    NamedProgress {
                        query: inlined(p.query, x.name, 0, x.query),
                        left: inlined_into(*xs, x.name, x.query),
                        level: with_plan_id(p.level, NO_PLAN),
                    },
                );
            },
        }
    }
}

/// The level so many levels up, where the list starts with the own level.
pub open spec fn level_at(levels: List<NamedLevel>, up: u32) -> Option<NamedLevel>
    decreases levels,
{
    match levels {
        List::Nil => None,
        List::Cons(x, xs) => if up == 0 {
            Some(x)
        } else {
            level_at(*xs, (up - 1) as u32)
        },
    }
}

fn find_level(levels: &List<NamedLevel>, up: u32) -> (r: Option<&NamedLevel>)
    ensures
        r is Some <==> level_at(*levels, up) is Some,
        r matches Some(x) ==> level_at(*levels, up) == Some(*x),
    decreases levels,
{
    match levels {
        List::Nil => None,
        List::Cons(x, xs) => if up == 0 {
            Some(x)
        } else {
            find_level(xs, up - 1)
        },
    }
}

/// The plan of a named query: its number, at the place of the name; none where
/// there is no such name, and none inside where there is no number for it.
pub open spec fn plan_of_name(names: List<u32>, plan_ids: List<i32>, name: u32) -> Option<
    Option<i32>,
>
    decreases names,
{
    match names {
        List::Nil => None,
        List::Cons(n, ns) => {
            let (here, rest) = match plan_ids {
                List::Nil => (None, List::Nil),
                List::Cons(p, ps) => (Some(p), *ps),
            };
            if n == name {
                Some(here)
            } else {
                plan_of_name(*ns, rest, name)
            }
        },
    }
}

fn find_plan_of_name(names: &List<u32>, plan_ids: &List<i32>, name: u32) -> (r: Option<Option<i32>>)
    ensures
        r == plan_of_name(*names, *plan_ids, name),
    decreases names,
{
    match names {
        List::Nil => None,
        List::Cons(n, ns) => {
            let none: List<i32> = List::Nil;
            let (here, rest) = match plan_ids {
                List::Nil => (None, &none),
                List::Cons(p, ps) => (Some(*p), &**ps),
            };
            if *n == name {
                Some(here)
            } else {
                find_plan_of_name(ns, rest, name)
            }
        },
    }
}

/// The parameter that a plan is found by.
pub open spec fn param_of_plan(init_plans: List<(i32, i32)>, plan_id: i32) -> Option<i32>
    decreases init_plans,
{
    match init_plans {
        List::Nil => None,
        List::Cons(x, xs) => if x.0 == plan_id {
            Some(x.1)
        } else {
            param_of_plan(*xs, plan_id)
        },
    }
}

fn find_param_of_plan(init_plans: &List<(i32, i32)>, plan_id: i32) -> (r: Option<i32>)
    ensures
        r == param_of_plan(*init_plans, plan_id),
    decreases init_plans,
{
    match init_plans {
        List::Nil => None,
        List::Cons(x, xs) => if x.0 == plan_id {
            Some(x.1)
        } else {
            find_param_of_plan(xs, plan_id)
        },
    }
}

/// The plan of a named query that is defined so many levels up, and the
/// parameter that it is found by.
pub open spec fn resolved(levels: List<NamedLevel>, name: u32, up: u32) -> Result<
    (i32, i32),
    PlannerError,
> {
    match level_at(levels, up) {
        None => Err(PlannerError::BadQueryLevel),
        Some(l) => match plan_of_name(l.names, l.plan_ids, name) {
            None => Err(PlannerError::NamedQueryNotFound),
            Some(None) => Err(PlannerError::NamedPlanNotFound),
            Some(Some(p)) => if p <= 0 {
                Err(PlannerError::NamedQueryNotPlanned)
            } else {
                match param_of_plan(l.init_plans, p) {
                    None => Err(PlannerError::NamedPlanNotFound),
                    Some(param) => Ok((p, param)),
                }
            },
        },
    }
}

/// Finds the plan of a named query that is defined so many levels up.
pub fn resolve_cte_plan(levels: &List<NamedLevel>, name: u32, up: u32) -> (r: Result<
    (i32, i32),
    PlannerError,
>)
    ensures
        r == resolved(*levels, name, up),
{
    let level = match find_level(levels, up) {
        None => {
            return Err(PlannerError::BadQueryLevel);
        },
        Some(l) => l,
    };
    match find_plan_of_name(&level.names, &level.plan_ids, name) {
        None => Err(PlannerError::NamedQueryNotFound),
        Some(None) => Err(PlannerError::NamedPlanNotFound),
        Some(Some(p)) => {
            if p <= 0 {
                return Err(PlannerError::NamedQueryNotPlanned);
            }
            match find_param_of_plan(&level.init_plans, p) {
                None => Err(PlannerError::NamedPlanNotFound),
                Some(param) => Ok((p, param)),
            }
        },
    }
}

/// The plan that a scan of a named query reads, by the relation that it is.
#[derive(Clone, Copy, Debug, PartialEq, Eq, Structural)]
pub struct NamedScan {
    pub rti: u32,
    pub plan_id: i32,
    pub param: i32,
}

/// Finds the plan that a scan of a named query will read, and remembers it for
/// when the scan is planned.
pub fn set_cte_pathlist(
    scans: List<NamedScan>,
    levels: &List<NamedLevel>,
    rti: u32,
    name: u32,
    up: u32,
) -> (r: Result<List<NamedScan>, PlannerError>)
    ensures
        r == match resolved(*levels, name, up) {
            Err(e) => Err(e),
            Ok(p) => Ok(
                scans.then_list(
                    List::Cons(
                        NamedScan { rti, plan_id: p.0, param: p.1 },
                        Box::new(List::Nil),
                    ),
                ),
            ),
        },
{
    match resolve_cte_plan(levels, name, up) {
        Err(e) => Err(e),
        Ok((plan_id, param)) => Ok(scans.append(List::one(NamedScan { rti, plan_id, param }))),
    }
}

/// The plan and parameter that were remembered for a relation.
pub open spec fn remembered(scans: List<NamedScan>, rti: u32) -> Option<(i32, i32)>
    decreases scans,
{
    match scans {
        List::Nil => None,
        List::Cons(s, ss) => if s.rti == rti {
            Some((s.plan_id, s.param))
        } else {
            remembered(*ss, rti)
        },
    }
}

/// Finds the plan and parameter that were remembered for a relation.
pub fn cte_plan_id_and_param(scans: &List<NamedScan>, rti: u32) -> (r: (i32, i32))
    requires
        remembered(*scans, rti) is Some,
    ensures
        remembered(*scans, rti) == Some(r),
    decreases scans,
{
    match scans {
        List::Nil => (NO_PLAN, 0),
        List::Cons(s, ss) => if s.rti == rti {
            (s.plan_id, s.param)
        } else {
            cte_plan_id_and_param(ss, rti)
        },
    }
}

/// What is remembered for a relation is found again, and what was remembered
/// for others stays.
pub proof fn lemma_remembered(scans: List<NamedScan>, scan: NamedScan, rti: u32)
    ensures
        remembered(scans.then_list(List::Cons(scan, Box::new(List::Nil))), rti) == match remembered(
            scans,
            rti,
        ) {
            Some(p) => Some(p),
            None => if scan.rti == rti {
                Some((scan.plan_id, scan.param))
            } else {
                None
            },
        },
    decreases scans,
{
    match scans {
        List::Nil => {
            assert(remembered(List::Nil, rti) is None);
        },
        List::Cons(_, ss) => {
            lemma_remembered(*ss, scan, rti);
        },
    }
}

/// What a query level knows of its own recursion: the parameter of its working
/// table, negative where there is none, and whether the part that is not
/// recursive has a path.
#[derive(Clone, Copy, Debug, PartialEq, Eq, Structural)]
pub struct RecursionLevel {
    pub wt_param: i32,
    pub has_path: bool,
}

/// The level so many levels up.
pub open spec fn recursion_at(levels: List<RecursionLevel>, up: u32) -> Option<RecursionLevel>
    decreases levels,
{
    match levels {
        List::Nil => None,
        List::Cons(x, xs) => if up == 0 {
            Some(x)
        } else {
            recursion_at(*xs, (up - 1) as u32)
        },
    }
}

fn find_recursion(levels: &List<RecursionLevel>, up: u32) -> (r: Option<RecursionLevel>)
    ensures
        r == recursion_at(*levels, up),
    decreases levels,
{
    match levels {
        List::Nil => None,
        List::Cons(x, xs) => if up == 0 {
            Some(*x)
        } else {
            find_recursion(xs, up - 1)
        },
    }
}

/// Finds the parameter of the working table that a recursive reference reads.
/// The reference counts the level of the WITH clause too; the recursion belongs
/// to the level below it.
pub fn set_worktable_pathlist(levels: &List<RecursionLevel>, levelsup: u32) -> (r: Result<
    i32,
    PlannerError,
>)
    ensures
        r == if levelsup == 0 {
            Err(PlannerError::BadQueryLevel)
        } else {
            match recursion_at(*levels, (levelsup - 1) as u32) {
                None => Err(PlannerError::BadQueryLevel),
                Some(l) => if l.wt_param < 0 {
                    Err(PlannerError::WorkTableNotFound)
                } else if !l.has_path {
                    Err(PlannerError::NamedPlanNotFound)
                } else {
                    Ok(l.wt_param)
                },
            }
        },
{
    if levelsup == 0 {
        return Err(PlannerError::BadQueryLevel);
    }
    match find_recursion(levels, levelsup - 1) {
        None => Err(PlannerError::BadQueryLevel),
        Some(l) => if l.wt_param < 0 {
            Err(PlannerError::WorkTableNotFound)
        } else if !l.has_path {
            Err(PlannerError::NamedPlanNotFound)
        } else {
            Ok(l.wt_param)
        },
    }
}

/// Assigns the number of a parameter that carries no value: the types of all
/// parameters are listed, and such a one has the type 0.
pub fn assign_special_exec_param(types: &mut Vec<u32>) -> (r: usize)
    ensures
        r == old(types)@.len(),
        final(types)@ == old(types)@.push(0),
{
    let id: usize = types.len();
    types.push(0);
    id
}

/// A query changes or locks rows exactly if it does so itself, or one of the
/// queries in it does, however deep it is.
pub proof fn lemma_dml_anywhere(q: NamedQuery)
    ensures
        has_dml(q) <==> !q.is_select || q.has_row_marks || exists|i: int|
            0 <= i < q.sources@.len() && (#[trigger] q.sources@[i] matches Source::Subquery(s)
                && has_dml(*s)),
{
    lemma_sources_dml(q.sources);
}

proof fn lemma_sources_dml(l: List<Source>)
    ensures
        sources_have_dml(l) <==> exists|i: int|
            0 <= i < l@.len() && (#[trigger] l@[i] matches Source::Subquery(s) && has_dml(*s)),
    decreases l,
{
    reveal_with_fuel(sources_have_dml, 2);
    reveal_with_fuel(source_has_dml, 2);
    match l {
        List::Nil => {
            assert(l@.len() == 0);
        },
        List::Cons(x, xs) => {
            lemma_sources_dml(*xs);
            assert(l@[0] == x);
            assert(forall|i: int| 0 <= i < xs@.len() ==> l@[i + 1] == #[trigger] xs@[i]);
            assert(forall|i: int| 1 <= i < l@.len() ==> #[trigger] l@[i] == xs@[i - 1]);
        },
    }
}

/// A named query is left out only if nobody reads it and it only reads. It is
/// put in the place of its readers only if that can make no difference: it is
/// not recursive, only reads, calls nothing volatile, is not asked to be kept,
/// and has one reader, unless several are asked for. In all other cases it is
/// planned once.
pub proof fn lemma_named_query_way(c: NamedQueryFacts)
    ensures
        match named_query_way(c) {
            NamedQueryWay::Skip => c.refcount == 0 && c.query.is_select,
            NamedQueryWay::Inline(once) => {
                &&& once <==> c.refcount == 1
                &&& c.refcount != 0
                &&& c.query.is_select && !has_dml(c.query)
                &&& !c.recursive
                &&& !c.volatile
                &&& c.materialized != Materialize::Always
                &&& c.materialized == Materialize::Never || c.refcount == 1
                &&& c.refcount > 1 ==> !has_outer_selfref(c.query, 0)
            },
            NamedQueryWay::Plan => {
                &&& c.refcount != 0 || !c.query.is_select
                &&& c.recursive || c.volatile || has_dml(c.query) || c.materialized
                    == Materialize::Always || (c.materialized == Materialize::Default
                    && c.refcount != 1) || (c.refcount > 1 && has_outer_selfref(c.query, 0))
            },
        },
{
}

} // verus!

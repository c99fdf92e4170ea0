//! The use of statistics on several columns for the clauses of a relation.
use vstd::prelude::*;
use crate::clausesel::{
    clauselist_selectivity_ext, pull_varnos, KeptSelectivity, SelClause, SelContext, Selectivity,
};
use crate::dependencies::{dependencies_clauselist_selectivity, DependencyStat, DependencyUse};
use crate::expr::Expr;
use crate::extstats::{
    find_single_rel_for_clauses, statext_is_compatible_clause, statext_mcv_clauselist_selectivity,
    statext_mcv_clauselist_selectivity_or_nodes, ClauseData, OperatorFacts, StatClause, StatInfo,
    StatUse,
};
use crate::list::List;
use crate::rel::RteKind;
use crate::relids::{relids_difference, Relids};
use crate::scanplan::find_varno;

verus! {

/// What a clause is about, where statistics on common values can help with it:
/// it is not estimated yet, and gives nothing away that may not be read.
pub open spec fn usable_data(
    c: StatClause,
    relid: u32,
    varno: i32,
    facts: OperatorFacts,
) -> Option<ClauseData> {
    if c.estimated {
        None
    } else {
        match crate::extstats::compatible_clause(
            c.clause,
            c.pseudoconstant,
            c.relids,
            relid,
            varno,
            facts,
        ) {
            Some(d) if d.leakproof || c.readable => Some(d),
            _ => None,
        }
    }
}

/// What the clauses are about.
pub open spec fn all_usable_data(
    l: List<StatClause>,
    relid: u32,
    varno: i32,
    facts: OperatorFacts,
) -> List<Option<ClauseData>>
    decreases l,
{
    match l {
        List::Nil => List::Nil,
        List::Cons(c, cs) => List::Cons(
            usable_data(c, relid, varno, facts),
            Box::new(all_usable_data(*cs, relid, varno, facts)),
        ),
    }
}

fn collect_usable_data(
    l: &List<StatClause>,
    relid: u32,
    varno: i32,
    facts: &OperatorFacts,
) -> (r: List<Option<ClauseData>>)
    ensures
        r == all_usable_data(*l, relid, varno, *facts),
    decreases l,
{
    match l {
        List::Nil => List::Nil,
        List::Cons(c, cs) => {
            let here = if c.estimated {
                None
            } else {
                match statext_is_compatible_clause(
                    &c.clause,
                    c.pseudoconstant,
                    &c.relids,
                    relid,
                    varno,
                    facts,
                ) {
                    Some(d) => if d.leakproof || c.readable {
                        Some(d)
                    } else {
                        None
                    },
                    None => None,
                }
            };
            List::Cons(here, Box::new(collect_usable_data(cs, relid, varno, facts)))
        },
    }
}

/// The flags that either list sets, as many as there are in the first.
pub open spec fn either_flag(a: List<bool>, b: List<bool>) -> List<bool>
    decreases a,
{
    match a {
        List::Nil => List::Nil,
        List::Cons(x, xs) => match b {
            List::Nil => a,
            List::Cons(y, ys) => List::Cons(x || y, Box::new(either_flag(*xs, *ys))),
        },
    }
}

fn merge_flags(a: List<bool>, b: &List<bool>) -> (r: List<bool>)
    ensures
        r == either_flag(a, *b),
    decreases a,
{
    match a {
        List::Nil => List::Nil,
        List::Cons(x, xs) => match b {
            List::Nil => List::Cons(x, xs),
            List::Cons(y, ys) => List::Cons(x || *y, Box::new(merge_flags(*xs, ys))),
        },
    }
}

/// The flags, and those of the clauses that some use of statistics is for.
pub open spec fn with_uses(flags: List<bool>, uses: List<StatUse>) -> List<bool>
    decreases uses,
{
    match uses {
        List::Nil => flags,
        List::Cons(u, us) => with_uses(either_flag(flags, u.clauses), *us),
    }
}

fn mark_uses(flags: List<bool>, uses: &List<StatUse>) -> (r: List<bool>)
    ensures
        r == with_uses(flags, *uses),
    decreases uses,
{
    match uses {
        List::Nil => flags,
        List::Cons(u, us) => mark_uses(merge_flags(flags, &u.clauses), us),
    }
}

/// Which clauses are estimated.
pub open spec fn estimated_flags(l: List<StatClause>) -> List<bool>
    decreases l,
{
    match l {
        List::Nil => List::Nil,
        List::Cons(c, cs) => List::Cons(c.estimated, Box::new(estimated_flags(*cs))),
    }
}

fn collect_flags(l: &List<StatClause>) -> (r: List<bool>)
    ensures
        r == estimated_flags(*l),
    decreases l,
{
    match l {
        List::Nil => List::Nil,
        List::Cons(c, cs) => List::Cons(c.estimated, Box::new(collect_flags(cs))),
    }
}

/// The clauses, with other flags for which are estimated.
pub open spec fn flagged(l: List<StatClause>, flags: List<bool>) -> List<StatClause>
    decreases l,
{
    match l {
        List::Nil => List::Nil,
        List::Cons(c, cs) => match flags {
            List::Nil => l,
            List::Cons(f, fs) => List::Cons(
                StatClause { estimated: f, ..c },
                Box::new(flagged(*cs, *fs)),
            ),
        },
    }
}

fn set_flags(l: List<StatClause>, flags: &List<bool>) -> (r: List<StatClause>)
    ensures
        r == flagged(l, *flags),
    decreases l,
{
    match l {
        List::Nil => List::Nil,
        List::Cons(c, cs) => match flags {
            List::Nil => List::Cons(c, cs),
            List::Cons(f, fs) => {
                let mut c = c;
                c.estimated = *f;
                List::Cons(c, Box::new(set_flags(*cs, fs)))
            },
        },
    }
}

/// What the statistics objects are.
pub open spec fn infos(stats: List<DependencyStat>) -> List<StatInfo>
    decreases stats,
{
    match stats {
        List::Nil => List::Nil,
        List::Cons(s, ss) => List::Cons(s.info, Box::new(infos(*ss))),
    }
}

fn collect_infos(stats: &List<DependencyStat>) -> (r: List<StatInfo>)
    ensures
        r == infos(*stats),
    decreases stats,
{
    match stats {
        List::Nil => List::Nil,
        List::Cons(s, ss) => {
            let info = StatInfo {
                id: s.info.id,
                inherit: s.info.inherit,
                kind: s.info.kind,
                keys: s.info.keys.copy(),
                exprs: crate::expr::copy_exprs(&s.info.exprs),
            };
            List::Cons(info, Box::new(collect_infos(ss)))
        },
    }
}

/// How statistics on several columns are used: common values first, then
/// dependencies; and which clauses are accounted for in the end.
#[derive(Debug)]
pub struct StatisticsUse {
    pub common_values: List<StatUse>,
    pub dependencies: Option<DependencyUse>,
    pub estimated: List<bool>,
}

/// The clauses that are estimated once common values have been used.
pub open spec fn after_common_values(
    stats: List<DependencyStat>,
    inherit: bool,
    clauses: List<StatClause>,
    relid: u32,
    varno: i32,
    facts: OperatorFacts,
) -> List<bool> {
    with_uses(
        estimated_flags(clauses),
        crate::extstats::stat_uses(
            infos(stats),
            inherit,
            all_usable_data(clauses, relid, varno, facts),
        ),
    )
}

/// How statistics are used for clauses that all have to hold.
pub open spec fn statistics_use(
    stats: List<DependencyStat>,
    inherit: bool,
    clauses: List<StatClause>,
    relid: u32,
    varno: i32,
    facts: OperatorFacts,
) -> StatisticsUse {
    let flags = after_common_values(stats, inherit, clauses, relid, varno, facts);
    let deps = crate::dependencies::dependency_use(
        stats,
        inherit,
        flagged(clauses, flags),
        varno,
        facts,
    );
    StatisticsUse {
        common_values: crate::extstats::stat_uses(
            infos(stats),
            inherit,
            all_usable_data(clauses, relid, varno, facts),
        ),
        dependencies: deps,
        estimated: match deps {
            Some(d) => either_flag(flags, d.accounted),
            None => flags,
        },
    }
}

/// Decides how statistics are used for clauses that all have to hold.
pub fn statext_clauselist_selectivity(
    stats: &List<DependencyStat>,
    inherit: bool,
    clauses: List<StatClause>,
    relid: u32,
    varno: i32,
    facts: &OperatorFacts,
) -> (r: StatisticsUse)
    ensures
        r == statistics_use(*stats, inherit, clauses, relid, varno, *facts),
{
    let data = collect_usable_data(&clauses, relid, varno, facts);
    let objects = collect_infos(stats);
    let common_values = statext_mcv_clauselist_selectivity(&objects, inherit, data);
    let flags = mark_uses(collect_flags(&clauses), &common_values);
    let rest = set_flags(clauses, &flags);
    let dependencies = dependencies_clauselist_selectivity(stats, inherit, &rest, varno, facts);
    let estimated = match &dependencies {
        Some(d) => merge_flags(flags, &d.accounted),
        None => flags,
    };
    StatisticsUse { common_values, dependencies, estimated }
}

/// An alternative of a disjunction, whether all rows of the columns that it
/// refers to may be read, and whether it is accounted for already.
#[derive(Debug)]
pub struct Alternative {
    pub clause: Expr,
    pub readable: bool,
    pub estimated: bool,
}

/// What the alternatives are about. Outer joins do not count as relations that
/// they refer to.
pub open spec fn alternatives_data(
    l: List<Alternative>,
    outer_joins: Relids,
    relid: u32,
    varno: i32,
    facts: OperatorFacts,
) -> List<Option<ClauseData>>
    decreases l,
{
    match l {
        List::Nil => List::Nil,
        List::Cons(c, cs) => List::Cons(
            match crate::extstats::compatible_clause(
                c.clause,
                false,
                crate::relids::difference_list(crate::clausesel::varnos(c.clause), outer_joins),
                relid,
                varno,
                facts,
            ) {
                Some(d) if !c.estimated && (d.leakproof || c.readable) => Some(d),
                _ => None,
            },
            Box::new(alternatives_data(*cs, outer_joins, relid, varno, facts)),
        ),
    }
}

fn collect_alternatives(
    l: &List<Alternative>,
    outer_joins: &Relids,
    relid: u32,
    varno: i32,
    facts: &OperatorFacts,
) -> (r: List<Option<ClauseData>>)
    ensures
        r == alternatives_data(*l, *outer_joins, relid, varno, *facts),
    decreases l,
{
    match l {
        List::Nil => List::Nil,
        List::Cons(c, cs) => {
            let all = pull_varnos(&c.clause);
            let relids = relids_difference(&all, outer_joins);
            let here = match statext_is_compatible_clause(
                &c.clause,
                false,
                &relids,
                relid,
                varno,
                facts,
            ) {
                Some(d) => if !c.estimated && (d.leakproof || c.readable) {
                    Some(d)
                } else {
                    None
                },
                None => None,
            };
            List::Cons(
                here,
                Box::new(collect_alternatives(cs, outer_joins, relid, varno, facts)),
            )
        },
    }
}

/// Which alternatives are accounted for already.
pub open spec fn alternative_flags(l: List<Alternative>) -> List<bool>
    decreases l,
{
    match l {
        List::Nil => List::Nil,
        List::Cons(c, cs) => List::Cons(c.estimated, Box::new(alternative_flags(*cs))),
    }
}

fn collect_alternative_flags(l: &List<Alternative>) -> (r: List<bool>)
    ensures
        r == alternative_flags(*l),
    decreases l,
{
    match l {
        List::Nil => List::Nil,
        List::Cons(c, cs) => List::Cons(c.estimated, Box::new(collect_alternative_flags(cs))),
    }
}

/// How statistics are used for a disjunction: the uses of common values, which
/// alternatives are about a single column or expression, and which are
/// accounted for.
#[derive(Debug)]
pub struct DisjunctionUse {
    pub common_values: List<StatUse>,
    pub simple: List<bool>,
    pub estimated: List<bool>,
}

/// Decides how statistics are used for the alternatives of a disjunction:
/// dependencies are of no use there.
pub fn statext_clauselist_selectivity_or_nodes(
    stats: &List<StatInfo>,
    inherit: bool,
    alternatives: &List<Alternative>,
    outer_joins: &Relids,
    relid: u32,
    varno: i32,
    facts: &OperatorFacts,
) -> (r: DisjunctionUse)
    ensures
        r.common_values == crate::extstats::stat_uses(
            *stats,
            inherit,
            alternatives_data(*alternatives, *outer_joins, relid, varno, *facts),
        ),
        r.simple == crate::extstats::simple_clauses(
            alternatives_data(*alternatives, *outer_joins, relid, varno, *facts),
        ),
        r.estimated == with_uses(alternative_flags(*alternatives), r.common_values),
{
    let data = collect_alternatives(alternatives, outer_joins, relid, varno, facts);
    let (common_values, simple) = statext_mcv_clauselist_selectivity_or_nodes(stats, inherit, data);
    let estimated = mark_uses(collect_alternative_flags(alternatives), &common_values);
    DisjunctionUse { common_values, simple, estimated }
}

proof fn lemma_either_flag(a: List<bool>, b: List<bool>, i: int)
    requires
        0 <= i < a@.len(),
    ensures
        either_flag(a, b)@.len() == a@.len(),
        either_flag(a, b)@[i] == (a@[i] || crate::extstats::flag_at(b, i)),
    decreases a,
{
    if let List::Cons(x, xs) = a {
        assert(a@[0] == x);
        lemma_either_length(a, b);
        match b {
            List::Nil => {
                assert(b@.len() == 0);
            },
            List::Cons(y, ys) => {
                let r = either_flag(a, b);
                assert(b@[0] == y);
                assert(r@[0] == (x || y));
                if i > 0 {
                    lemma_either_flag(*xs, *ys, i - 1);
                    assert(a@[i] == xs@[i - 1]);
                    assert(r@[i] == either_flag(*xs, *ys)@[i - 1]);
                    if i < b@.len() {
                        assert(b@[i] == ys@[i - 1]);
                    }
                }
            },
        }
    }
}

proof fn lemma_either_length(a: List<bool>, b: List<bool>)
    ensures
        either_flag(a, b)@.len() == a@.len(),
    decreases a,
{
    if let List::Cons(_, xs) = a {
        if let List::Cons(_, ys) = b {
            lemma_either_length(*xs, *ys);
        }
    }
}

/// A clause is marked by uses of statistics just where it was before, or some
/// use is for it.
pub proof fn lemma_with_uses(flags: List<bool>, uses: List<StatUse>, i: int)
    requires
        0 <= i < flags@.len(),
    ensures
        with_uses(flags, uses)@.len() == flags@.len(),
        with_uses(flags, uses)@[i] <==> flags@[i] || exists|j: int|
            0 <= j < uses@.len() && crate::extstats::flag_at(#[trigger] uses@[j].clauses, i),
    decreases uses,
{
    match uses {
        List::Nil => {
            assert(uses@.len() == 0);
        },
        List::Cons(u, us) => {
            lemma_either_flag(flags, u.clauses, i);
            lemma_with_uses(either_flag(flags, u.clauses), *us, i);
            assert(uses@[0] == u);
            assert(forall|j: int| 0 <= j < us@.len() ==> uses@[j + 1] == #[trigger] us@[j]);
            if exists|j: int|
                0 <= j < us@.len() && crate::extstats::flag_at(#[trigger] us@[j].clauses, i) {
                let j = choose|j: int|
                    0 <= j < us@.len() && crate::extstats::flag_at(#[trigger] us@[j].clauses, i);
                assert(crate::extstats::flag_at(uses@[j + 1].clauses, i));
            }
            if exists|j: int|
                0 <= j < uses@.len() && crate::extstats::flag_at(#[trigger] uses@[j].clauses, i) {
                let j = choose|j: int|
                    0 <= j < uses@.len() && crate::extstats::flag_at(#[trigger] uses@[j].clauses, i);
                if j > 0 {
                    assert(us@[j - 1] == uses@[j]);
                }
            }
        },
    }
}

proof fn lemma_estimated_flags(l: List<StatClause>, i: int)
    ensures
        estimated_flags(l)@.len() == l@.len(),
        0 <= i < l@.len() ==> estimated_flags(l)@[i] == l@[i].estimated,
    decreases l,
{
    match l {
        List::Nil => {
            let none: List<bool> = List::Nil;
            assert(none@.len() == 0);
            assert(l@.len() == 0);
        },
        List::Cons(c, cs) => {
            lemma_estimated_flags(*cs, i - 1);
            assert(l@[0] == c);
            assert(estimated_flags(l)@[0] == c.estimated);
            if i > 0 && i < l@.len() {
                assert(l@[i] == cs@[i - 1]);
                assert(estimated_flags(l)@[i] == estimated_flags(*cs)@[i - 1]);
            }
        },
    }
}

proof fn lemma_usable_data(
    l: List<StatClause>,
    relid: u32,
    varno: i32,
    facts: OperatorFacts,
    i: int,
)
    ensures
        all_usable_data(l, relid, varno, facts)@.len() == l@.len(),
        0 <= i < l@.len() ==> all_usable_data(l, relid, varno, facts)@[i] == usable_data(
            l@[i],
            relid,
            varno,
            facts,
        ),
    decreases l,
{
    match l {
        List::Nil => {
            let none: List<Option<ClauseData>> = List::Nil;
            assert(none@.len() == 0);
            assert(l@.len() == 0);
        },
        List::Cons(c, cs) => {
            let all = all_usable_data(l, relid, varno, facts);
            lemma_usable_data(*cs, relid, varno, facts, i - 1);
            assert(l@[0] == c);
            assert(all@[0] == usable_data(c, relid, varno, facts));
            if i > 0 && i < l@.len() {
                assert(l@[i] == cs@[i - 1]);
                assert(all@[i] == all_usable_data(*cs, relid, varno, facts)@[i - 1]);
            }
        },
    }
}

proof fn lemma_flagged(l: List<StatClause>, flags: List<bool>, i: int)
    requires
        0 <= i < l@.len(),
        flags@.len() == l@.len(),
    ensures
        flagged(l, flags)@.len() == l@.len(),
        flagged(l, flags)@[i].estimated == flags@[i],
    decreases l,
{
    let none: List<bool> = List::Nil;
    assert(none@.len() == 0);
    if let List::Cons(c, cs) = l {
        if let List::Cons(f, fs) = flags {
            lemma_flagged_length(l, flags);
            assert(l@[0] == c);
            assert(flags@[0] == f);
            let r = flagged(l, flags);
            assert(r@[0].estimated == f);
            if i > 0 {
                lemma_flagged(*cs, *fs, i - 1);
                assert(r@[i] == flagged(*cs, *fs)@[i - 1]);
                assert(flags@[i] == fs@[i - 1]);
            }
        }
    }
}

proof fn lemma_flagged_length(l: List<StatClause>, flags: List<bool>)
    ensures
        flagged(l, flags)@.len() == l@.len(),
    decreases l,
{
    if let List::Cons(_, cs) = l {
        if let List::Cons(_, fs) = flags {
            lemma_flagged_length(*cs, *fs);
        }
    }
}

proof fn lemma_accounted(
    clauses: List<StatClause>,
    varno: i32,
    stat_exprs: List<Expr>,
    facts: OperatorFacts,
    exprs: List<Expr>,
    attributes: List<i32>,
    i: int,
)
    requires
        0 <= i < clauses@.len(),
        clauses@[i].estimated,
    ensures
        !crate::extstats::flag_at(
            crate::dependencies::accounted_for(
                crate::dependencies::numbering(clauses, varno, stat_exprs, facts, exprs).numbers,
                attributes,
            ),
            i,
        ),
    decreases clauses,
{
    if let List::Cons(c, cs) = clauses {
        let n = crate::dependencies::numbering(clauses, varno, stat_exprs, facts, exprs);
        let a = crate::dependencies::accounted_for(n.numbers, attributes);
        if let List::Cons(x, xs) = n.numbers {
            assert(clauses@[0] == c);
            let rest = crate::dependencies::accounted_for(*xs, attributes);
            assert(a@[0] == (x matches Some(k) && attributes@.contains(k)));
            if i == 0 {
                assert(x is None);
            } else {
                assert(clauses@[i] == cs@[i - 1]);
                let column = if c.estimated || !crate::dependencies::is_eligible(c) {
                    None
                } else {
                    crate::dependencies::fixed_column(c.clause, varno, facts)
                };
                let expr = if c.estimated || !crate::dependencies::is_eligible(c) || column is Some {
                    None
                } else {
                    crate::dependencies::fixed_expr(c.clause, stat_exprs, facts)
                };
                let more = match (column, expr) {
                    (Some(_), _) => exprs,
                    (None, Some(e)) => crate::dependencies::with_unique(exprs, e),
                    (None, None) => exprs,
                };
                lemma_accounted(*cs, varno, stat_exprs, facts, more, attributes, i - 1);
                if i < a@.len() {
                    assert(a@[i] == rest@[i - 1]);
                }
            }
        }
    }
}

/// No clause is accounted for twice: one that was estimated before is not
/// estimated by common values, and one that was estimated by either is not
/// estimated by dependencies. One that was estimated stays so.
pub proof fn lemma_estimated_once(
    stats: List<DependencyStat>,
    inherit: bool,
    clauses: List<StatClause>,
    relid: u32,
    varno: i32,
    facts: OperatorFacts,
    i: int,
    j: int,
)
    requires
        0 <= i < clauses@.len(),
    ensures
        ({
            let u = statistics_use(stats, inherit, clauses, relid, varno, facts);
            &&& u.estimated@.len() == clauses@.len()
            &&& clauses@[i].estimated ==> u.estimated@[i]
            &&& 0 <= j < u.common_values@.len() && crate::extstats::flag_at(
                u.common_values@[j].clauses,
                i,
            ) ==> !clauses@[i].estimated && u.estimated@[i]
            &&& u.dependencies matches Some(d) ==> crate::extstats::flag_at(d.accounted, i)
                ==> !clauses@[i].estimated && !(0 <= j < u.common_values@.len()
                && crate::extstats::flag_at(u.common_values@[j].clauses, i)) && u.estimated@[i]
        }),
{
    let u = statistics_use(stats, inherit, clauses, relid, varno, facts);
    let data = all_usable_data(clauses, relid, varno, facts);
    let flags = after_common_values(stats, inherit, clauses, relid, varno, facts);
    lemma_estimated_flags(clauses, i);
    lemma_usable_data(clauses, relid, varno, facts, i);
    lemma_with_uses(estimated_flags(clauses), u.common_values, i);
    if 0 <= j < u.common_values@.len() && crate::extstats::flag_at(
        u.common_values@[j].clauses,
        i,
    ) {
        crate::extstats::lemma_used_once(infos(stats), inherit, data, i, j, j);
    }
    lemma_flagged(clauses, flags, i);
    if let Some(d) = u.dependencies {
        lemma_either_flag(flags, d.accounted, i);
        if flags@[i] {
            lemma_accounted(
                flagged(clauses, flags),
                varno,
                crate::dependencies::dependency_exprs(stats),
                facts,
                List::Nil,
                d.attributes,
                i,
            );
        }
    }
}

/// What is known of a relation that statistics might be used for.
#[derive(Debug)]
pub struct RelationStatistics {
    pub relid: u32,
    pub rtekind: RteKind,
    /// Tables that inherit from it are read too.
    pub inherit: bool,
    pub stats: List<DependencyStat>,
}

/// The statistics of a relation.
pub open spec fn statistics_of(l: List<RelationStatistics>, relid: u32) -> Option<
    RelationStatistics,
>
    decreases l,
{
    match l {
        List::Nil => None,
        List::Cons(x, xs) => if x.relid == relid {
            Some(x)
        } else {
            statistics_of(*xs, relid)
        },
    }
}

fn find_statistics(l: &List<RelationStatistics>, relid: u32) -> (r: Option<&RelationStatistics>)
    ensures
        r is Some <==> statistics_of(*l, relid) is Some,
        r matches Some(x) ==> statistics_of(*l, relid) == Some(*x),
    decreases l,
{
    match l {
        List::Nil => None,
        List::Cons(x, xs) => if x.relid == relid {
            Some(x)
        } else {
            find_statistics(xs, relid)
        },
    }
}

/// The relations that each clause refers to.
pub open spec fn all_clause_relids(l: List<SelClause>) -> List<Relids>
    decreases l,
{
    match l {
        List::Nil => List::Nil,
        List::Cons(c, cs) => List::Cons(c.clause_relids, Box::new(all_clause_relids(*cs))),
    }
}

fn collect_clause_relids(l: &List<SelClause>) -> (r: List<Relids>)
    ensures
        r == all_clause_relids(*l),
    decreases l,
{
    match l {
        List::Nil => List::Nil,
        List::Cons(c, cs) => List::Cons(
            c.clause_relids.copy(),
            Box::new(collect_clause_relids(cs)),
        ),
    }
}

/// The clauses as statistics see them: none of them is estimated yet.
pub open spec fn stat_clauses(l: List<SelClause>) -> List<StatClause>
    decreases l,
{
    match l {
        List::Nil => List::Nil,
        List::Cons(c, cs) => List::Cons(
            StatClause {
                clause: c.clause,
                pseudoconstant: c.pseudoconstant,
                relids: c.clause_relids,
                readable: c.readable,
                estimated: false,
            },
            Box::new(stat_clauses(*cs)),
        ),
    }
}

fn make_stat_clauses(l: &List<SelClause>) -> (r: List<StatClause>)
    ensures
        r == stat_clauses(*l),
    decreases l,
{
    match l {
        List::Nil => List::Nil,
        List::Cons(c, cs) => List::Cons(
            StatClause {
                clause: c.clause.copy(),
                pseudoconstant: c.pseudoconstant,
                relids: c.clause_relids.copy(),
                readable: c.readable,
                estimated: false,
            },
            Box::new(make_stat_clauses(cs)),
        ),
    }
}

/// The clauses, with flags for which are estimated; those without a flag are
/// not.
pub open spec fn sel_flagged(l: List<SelClause>, flags: List<bool>) -> List<SelClause>
    decreases l,
{
    match l {
        List::Nil => List::Nil,
        List::Cons(c, cs) => {
            let (f, fs) = match flags {
                List::Nil => (false, List::Nil),
                List::Cons(f, fs) => (f, *fs),
            };
            List::Cons(SelClause { estimated: f, ..c }, Box::new(sel_flagged(*cs, fs)))
        },
    }
}

fn set_sel_flags(l: List<SelClause>, flags: &List<bool>) -> (r: List<SelClause>)
    ensures
        r == sel_flagged(l, *flags),
    decreases l,
{
    match l {
        List::Nil => List::Nil,
        List::Cons(c, cs) => {
            let none: List<bool> = List::Nil;
            let (f, fs) = match flags {
                List::Nil => (false, &none),
                List::Cons(f, fs) => (*f, &**fs),
            };
            let mut c = c;
            c.estimated = f;
            List::Cons(c, Box::new(set_sel_flags(*cs, fs)))
        },
    }
}

/// How statistics on several columns are used for a list of two or more clauses:
/// where they are all about one relation, which is a table and has such
/// statistics.
pub open spec fn list_statistics_use(
    l: List<SelClause>,
    use_extended: bool,
    rels: List<RelationStatistics>,
    facts: OperatorFacts,
) -> Option<StatisticsUse> {
    match crate::extstats::single_rel(all_clause_relids(l), None) {
        Some(relid) if use_extended => match statistics_of(rels, relid) {
            Some(r) if r.rtekind == RteKind::Relation && !(r.stats is Nil) => Some(
                statistics_use(
                    r.stats,
                    r.inherit,
                    stat_clauses(l),
                    relid,
                    crate::scanplan::varno_of(relid),
                    facts,
                ),
            ),
            _ => None,
        },
        _ => None,
    }
}

/// The selectivity of clauses that all have to hold, how statistics on several
/// columns are used for it, and which selectivities of clauses are kept. A single
/// clause goes by its own estimate.
pub open spec fn clauses_selectivity(
    l: List<SelClause>,
    ctx: crate::clausesel::SelContext,
    use_extended: bool,
    rels: List<RelationStatistics>,
    facts: OperatorFacts,
) -> (Selectivity, Option<StatisticsUse>, List<KeptSelectivity>) {
    if crate::clausesel::is_single(l) {
        let flagged = sel_flagged(l, List::Nil);
        (
            crate::clausesel::list_selectivity(flagged, ctx, false),
            None,
            crate::clausesel::kept_selectivities(flagged, ctx, true),
        )
    } else {
        let used = list_statistics_use(l, use_extended, rels, facts);
        let flagged = sel_flagged(
            l,
            match used {
                Some(u) => u.estimated,
                None => List::Nil,
            },
        );
        (
            crate::clausesel::list_selectivity(flagged, ctx, used is Some),
            used,
            crate::clausesel::kept_selectivities(flagged, ctx, false),
        )
    }
}

/// Finds the selectivity of clauses that all have to hold, decides how statistics
/// on several columns are used for it, and tells which selectivities of clauses
/// are kept for later. Those statistics themselves ask for the selectivity of
/// clauses without such use, which keeps others.
pub fn clauselist_selectivity(
    l: List<SelClause>,
    ctx: &SelContext,
    use_extended: bool,
    rels: &List<RelationStatistics>,
    facts: &OperatorFacts,
) -> (r: (Selectivity, Option<StatisticsUse>, List<KeptSelectivity>))
    ensures
        r == clauses_selectivity(l, *ctx, use_extended, *rels, *facts),
{
    proof {
        reveal_with_fuel(sel_flagged, 3);
    }
    let no_flags: List<bool> = List::Nil;
    let single = match &l {
        List::Cons(_, rest) => rest.is_nil(),
        List::Nil => false,
    };
    if single {
        let l = set_sel_flags(l, &no_flags);
        let (s, kept) = clauselist_selectivity_ext(&l, ctx, false);
        return (s, None, kept);
    }
    let mut used: Option<StatisticsUse> = None;
    let relids = collect_clause_relids(&l);
    if use_extended {
        if let Some(relid) = find_single_rel_for_clauses(&relids) {
            if let Some(r) = find_statistics(rels, relid) {
                if r.rtekind == RteKind::Relation && !r.stats.is_nil() {
                    let clauses = make_stat_clauses(&l);
                    used = Some(
                        statext_clauselist_selectivity(
                            &r.stats,
                            r.inherit,
                            clauses,
                            relid,
                            find_varno(relid),
                            facts,
                        ),
                    );
                }
            }
        }
    }
    let l = match &used {
        Some(u) => set_sel_flags(l, &u.estimated),
        None => set_sel_flags(l, &no_flags),
    };
    let (s, kept) = clauselist_selectivity_ext(&l, ctx, used.is_some());
    (s, used, kept)
}

} // verus!

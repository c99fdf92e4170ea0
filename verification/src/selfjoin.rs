//! Removal of joins of a table with itself.
use vstd::prelude::*;
use crate::error::PlannerError;
use crate::expr::{equal, strip_label, unlabelled, Expr, Head};
use crate::joinremoval::{
    find_clause, find_clauses, find_rel, keep_result, keep_results, remove_base_rel,
    remove_join_clause_from_rels, remove_rel_from_joinlist, BaseRel, JoinState, Joinlist,
    PlaceHolderUse, SpecialJoin,
};
use crate::list::{list_has, List};
use crate::quals::list_concat_unique;
use crate::rel::RteKind;
use crate::relids::{
    relids_del_member, relids_difference, relids_equal, relids_is_member, relids_is_multiple,
    relids_singleton_member, relids_union, Relids,
};
use crate::restriction::{
    adjust_relid_set, rename_relation, rename_relation_list, replace_relid_rinfo,
    restrict_infos_logically_equal, Restriction,
};

verus! {

/// The operands of an operator with two of them.
pub open spec fn operands(e: Expr) -> Option<(Expr, Expr)> {
    match e {
        Expr::Call { head, args } => if head is Op {
            match *args {
                List::Cons(a, rest) => match *rest {
                    List::Cons(b, end) => if *end is Nil {
                        Some((a, b))
                    } else {
                        None
                    },
                    List::Nil => None,
                },
                List::Nil => None,
            }
        } else {
            None
        },
        _ => None,
    }
}

fn find_operands(e: &Expr) -> (r: Option<(&Expr, &Expr)>)
    ensures
        r is Some <==> operands(*e) is Some,
        r matches Some(p) ==> operands(*e) == Some((*p.0, *p.1)),
{
    match e {
        Expr::Call { head, args } => match head {
            Head::Op { .. } => match &**args {
                List::Cons(a, rest) => match &**rest {
                    List::Cons(b, end) => if end.is_nil() {
                        Some((a, b))
                    } else {
                        None
                    },
                    List::Nil => None,
                },
                List::Nil => None,
            },
            _ => None,
        },
        _ => None,
    }
}

/// There are just two relations.
pub open spec fn is_pair(l: Relids) -> bool {
    l matches List::Cons(x, _) && crate::relids::the_only(crate::relids::del(l, x)) is Some
}

fn check_pair_of(l: &Relids) -> (r: bool)
    ensures
        r == is_pair(*l),
{
    match l {
        List::Nil => false,
        List::Cons(x, _) => {
            let rest = relids_del_member(l, *x);
            relids_singleton_member(&rest).is_some()
        },
    }
}

/// The clause compares a column of a table with the same column of the table
/// under its other name.
pub open spec fn is_selfjoin_qual(r: Restriction) -> bool {
    match (
        operands(r.clause),
        crate::relids::the_only(r.left_relids),
        crate::relids::the_only(r.right_relids),
    ) {
        (Some(p), Some(to), Some(from)) => r.mergeable && is_pair(r.clause_relids)
            && crate::expr::same_expr(
            unlabelled(p.0),
            crate::restriction::renamed(unlabelled(p.1), from, Some(to)),
        ),
        _ => false,
    }
}

fn check_selfjoin_qual(r: &Restriction) -> (b: bool)
    ensures
        b == is_selfjoin_qual(*r),
{
    let to: u32 = match relids_singleton_member(&r.left_relids) {
        None => {
            return false;
        },
        Some(x) => x,
    };
    let from: u32 = match relids_singleton_member(&r.right_relids) {
        None => {
            return false;
        },
        Some(x) => x,
    };
    if !r.mergeable || !check_pair_of(&r.clause_relids) {
        return false;
    }
    match find_operands(&r.clause) {
        None => false,
        Some((left, right)) => {
            let moved = rename_relation(strip_label(right).copy(), from, Some(to));
            equal(strip_label(left), &moved)
        },
    }
}

/// The clauses that compare a column with itself.
pub open spec fn selfjoin_quals(l: List<Restriction>) -> List<Restriction>
    decreases l,
{
    match l {
        List::Nil => List::Nil,
        List::Cons(x, xs) => if is_selfjoin_qual(x) {
            List::Cons(x, Box::new(selfjoin_quals(*xs)))
        } else {
            selfjoin_quals(*xs)
        },
    }
}

/// The other clauses.
pub open spec fn otherjoin_quals(l: List<Restriction>) -> List<Restriction>
    decreases l,
{
    match l {
        List::Nil => List::Nil,
        List::Cons(x, xs) => if is_selfjoin_qual(x) {
            otherjoin_quals(*xs)
        } else {
            List::Cons(x, Box::new(otherjoin_quals(*xs)))
        },
    }
}

/// Tells the clauses that compare a column with itself from the others.
pub fn split_selfjoin_quals(l: List<Restriction>) -> (r: (List<Restriction>, List<Restriction>))
    ensures
        r.0 == selfjoin_quals(l),
        r.1 == otherjoin_quals(l),
    decreases l,
{
    match l {
        List::Nil => (List::Nil, List::Nil),
        List::Cons(x, xs) => {
            let (own, others) = split_selfjoin_quals(*xs);
            if check_selfjoin_qual(&x) {
                (List::Cons(x, Box::new(own)), others)
            } else {
                (own, List::Cons(x, Box::new(others)))
            }
        },
    }
}

/// No clause is lost.
pub proof fn lemma_split_quals(l: List<Restriction>)
    ensures
        l@.len() == selfjoin_quals(l)@.len() + otherjoin_quals(l)@.len(),
    decreases l,
{
    if let List::Cons(_, xs) = l {
        lemma_split_quals(*xs);
    }
}

/// The column and the value that a clause of one relation compares.
pub open spec fn column_and_value(r: Restriction, clause: Expr) -> Option<(Expr, Expr)> {
    match operands(clause) {
        None => None,
        Some(p) => if r.left_relids is Nil {
            Some((p.1, p.0))
        } else {
            Some(p)
        },
    }
}

/// Some clause compares the column with the value.
pub open spec fn has_comparison(l: List<Restriction>, column: Expr, value: Expr) -> Result<
    bool,
    PlannerError,
>
    decreases l,
{
    match l {
        List::Nil => Ok(false),
        List::Cons(x, xs) => if !x.mergeable {
            has_comparison(*xs, column, value)
        } else {
            match column_and_value(x, x.clause) {
                None => Err(PlannerError::NotAnOperatorClause),
                Some(p) => if crate::expr::same_expr(column, p.0) && crate::expr::same_expr(
                    value,
                    p.1,
                ) {
                    Ok(true)
                } else {
                    has_comparison(*xs, column, value)
                },
            }
        },
    }
}

fn find_comparison(l: &List<Restriction>, column: &Expr, value: &Expr) -> (r: Result<
    bool,
    PlannerError,
>)
    ensures
        r == has_comparison(*l, *column, *value),
    decreases l,
{
    match l {
        List::Nil => Ok(false),
        List::Cons(x, xs) => {
            if !x.mergeable {
                return find_comparison(xs, column, value);
            }
            match find_operands(&x.clause) {
                None => Err(PlannerError::NotAnOperatorClause),
                Some((a, b)) => {
                    let (c, v) = if x.left_relids.is_nil() {
                        (b, a)
                    } else {
                        (a, b)
                    };
                    if equal(column, c) && equal(value, v) {
                        Ok(true)
                    } else {
                        find_comparison(xs, column, value)
                    }
                },
            }
        },
    }
}

/// Every clause that makes one side unique is there for the other side too.
pub open spec fn unique_clauses_match(
    outer: List<Restriction>,
    outer_relid: u32,
    uclauses: List<Restriction>,
    relid: u32,
) -> Result<bool, PlannerError>
    decreases uclauses,
{
    match uclauses {
        List::Nil => Ok(true),
        List::Cons(u, us) => match column_and_value(
            u,
            crate::restriction::renamed(u.clause, relid, Some(outer_relid)),
        ) {
            None => Err(PlannerError::NotAnOperatorClause),
            Some(p) => match has_comparison(outer, p.0, p.1) {
                Err(e) => Err(e),
                Ok(false) => Ok(false),
                Ok(true) => unique_clauses_match(outer, outer_relid, *us, relid),
            },
        },
    }
}

/// Is every clause that makes one side unique there for the other side too?
pub fn match_unique_clauses(
    outer: &List<Restriction>,
    outer_relid: u32,
    uclauses: &List<Restriction>,
    relid: u32,
) -> (r: Result<bool, PlannerError>)
    ensures
        r == unique_clauses_match(*outer, outer_relid, *uclauses, relid),
    decreases uclauses,
{
    match uclauses {
        List::Nil => Ok(true),
        List::Cons(u, us) => {
            let clause = rename_relation(u.clause.copy(), relid, Some(outer_relid));
            let found = match find_operands(&clause) {
                None => {
                    return Err(PlannerError::NotAnOperatorClause);
                },
                Some((a, b)) => if u.left_relids.is_nil() {
                    find_comparison(outer, b, a)
                } else {
                    find_comparison(outer, a, b)
                },
            };
            match found {
                Err(e) => Err(e),
                Ok(there) => if there {
                    match_unique_clauses(outer, outer_relid, us, relid)
                } else {
                    Ok(false)
                },
            }
        },
    }
}

/// No outer or semi join separates the two relations.
pub open spec fn same_place(joins: List<SpecialJoin>, a: u32, b: u32) -> bool
    decreases joins,
{
    match joins {
        List::Nil => true,
        List::Cons(j, js) => {
            let l = crate::relids::ids(j.syn_lefthand);
            let r = crate::relids::ids(j.syn_righthand);
            l.contains(a) == l.contains(b) && r.contains(a) == r.contains(b) && same_place(
                *js,
                a,
                b,
            )
        },
    }
}

fn check_same_place(joins: &List<SpecialJoin>, a: u32, b: u32) -> (r: bool)
    ensures
        r == same_place(*joins, a, b),
    decreases joins,
{
    match joins {
        List::Nil => true,
        List::Cons(j, js) => {
            let left = relids_is_member(a, &j.syn_lefthand) == relids_is_member(
                b,
                &j.syn_lefthand,
            );
            let right = relids_is_member(a, &j.syn_righthand) == relids_is_member(
                b,
                &j.syn_righthand,
            );
            left && right && check_same_place(js, a, b)
        },
    }
}

/// How the rows of a relation are locked.
#[derive(Clone, Copy, Debug, PartialEq, Eq, Structural)]
pub struct RowMark {
    pub rti: u32,
    pub mark_type: u32,
}

/// How the rows of a relation are locked.
pub open spec fn mark_of(marks: List<RowMark>, rti: u32) -> Option<u32>
    decreases marks,
{
    match marks {
        List::Nil => None,
        List::Cons(m, ms) => if m.rti == rti {
            Some(m.mark_type)
        } else {
            mark_of(*ms, rti)
        },
    }
}

fn find_mark(marks: &List<RowMark>, rti: u32) -> (r: Option<u32>)
    ensures
        r == mark_of(*marks, rti),
    decreases marks,
{
    match marks {
        List::Nil => None,
        List::Cons(m, ms) => if m.rti == rti {
            Some(m.mark_type)
        } else {
            find_mark(ms, rti)
        },
    }
}

/// Two relations might be one: no join separates them, and their rows are not
/// locked in different ways.
pub open spec fn pair_possible(
    joins: List<SpecialJoin>,
    marks: List<RowMark>,
    kept: u32,
    removed: u32,
) -> bool {
    &&& same_place(joins, kept, removed)
    &&& match (mark_of(marks, kept), mark_of(marks, removed)) {
        (Some(a), Some(b)) => a == b,
        _ => true,
    }
}

/// Might two relations be one?
pub fn check_pair(joins: &List<SpecialJoin>, marks: &List<RowMark>, kept: u32, removed: u32) -> (r:
    bool)
    ensures
        r == pair_possible(*joins, *marks, kept, removed),
{
    if !check_same_place(joins, kept, removed) {
        return false;
    }
    match (find_mark(marks, kept), find_mark(marks, removed)) {
        (Some(a), Some(b)) => a == b,
        _ => true,
    }
}

/// The clauses by which one of two relations has to be unique for each row of
/// the other, for the two to be one: those between them that compare a column
/// with itself, and those on the relation alone. With it comes whether there
/// are no others between them. None where the two cannot be one in any case.
pub open spec fn merging_clauses(
    joins: List<SpecialJoin>,
    marks: List<RowMark>,
    kept: u32,
    removed: u32,
    between: List<Restriction>,
    on_kept: List<Restriction>,
) -> Option<(List<Restriction>, bool)> {
    if !pair_possible(joins, marks, kept, removed) || between is Nil {
        None
    } else {
        Some((selfjoin_quals(between).then_list(on_kept), otherjoin_quals(between) is Nil))
    }
}

/// Finds the clauses by which one of two relations has to be unique, for the
/// two to be one.
pub fn find_merging_clauses(
    joins: &List<SpecialJoin>,
    marks: &List<RowMark>,
    kept: u32,
    removed: u32,
    between: List<Restriction>,
    on_kept: List<Restriction>,
) -> (r: Option<(List<Restriction>, bool)>)
    ensures
        r == merging_clauses(*joins, *marks, kept, removed, between, on_kept),
{
    if !check_pair(joins, marks, kept, removed) || between.is_nil() {
        return None;
    }
    let (own, others) = split_selfjoin_quals(between);
    let self_join = others.is_nil();
    Some((own.append(on_kept), self_join))
}

/// The pair of relations to look at next: each relation with all that follow
/// it, until it is removed.
pub open spec fn following_pair(n: usize, at: (usize, usize), removed: bool) -> Option<
    (usize, usize),
> {
    if !removed && at.1 < n && at.1 + 1 < n {
        Some((at.0, (at.1 + 1) as usize))
    } else if at.0 < n && at.0 + 2 < n {
        Some(((at.0 + 1) as usize, (at.0 + 2) as usize))
    } else {
        None
    }
}

/// Finds the pair of relations to look at next in a group of `n`.
pub fn remove_self_joins_one_group(n: usize, at: (usize, usize), removed: bool) -> (r: Option<
    (usize, usize),
>)
    ensures
        r == following_pair(n, at, removed),
{
    if !removed && at.1 < n && n - at.1 > 1 {
        Some((at.0, at.1 + 1))
    } else if at.0 < n && n - at.0 > 2 {
        Some((at.0 + 1, at.0 + 2))
    } else {
        None
    }
}

/// The pairs that are looked at consist of two different relations of the
/// group, and the search comes to an end.
pub proof fn lemma_following_pair(n: usize, at: (usize, usize), removed: bool)
    requires
        at.0 < at.1 < n,
    ensures
        following_pair(n, at, removed) matches Some(p) ==> p.0 < p.1 < n && (p.0 > at.0 || (p.0
            == at.0 && p.1 > at.1)),
{
}

/// A relation that might be joined with itself, and the table that it is.
#[derive(Clone, Copy, Debug, PartialEq, Eq, Structural)]
pub struct Candidate {
    pub relid: u32,
    pub table: u32,
}

/// The kind of an ordinary table.
pub const RELKIND_RELATION: u8 = 114;

/// What a relation of a query is.
#[derive(Clone, Copy, Debug, PartialEq, Eq, Structural)]
pub struct TableFacts {
    pub relid: u32,
    pub table: u32,
    pub rtekind: RteKind,
    pub relkind: u8,
    /// Only a sample of it is read.
    pub sampled: bool,
    /// The query changes it.
    pub is_target: bool,
}

/// The facts of a relation, given the relation that the query changes and the
/// one that it merges into; 0 where there is none.
pub fn describe_table(
    relid: u32,
    table: u32,
    rtekind: RteKind,
    relkind: u8,
    sampled: bool,
    result_relation: u32,
    merge_target: u32,
) -> (r: TableFacts)
    ensures
        r == (TableFacts {
            relid,
            table,
            rtekind,
            relkind,
            sampled,
            is_target: relid == result_relation || relid == merge_target,
        }),
{
    TableFacts {
        relid,
        table,
        rtekind,
        relkind,
        sampled,
        is_target: relid == result_relation || relid == merge_target,
    }
}

/// A relation can be joined with itself if it is an ordinary table that is
/// neither sampled nor changed.
pub open spec fn is_eligible(f: TableFacts) -> bool {
    f.rtekind == RteKind::Relation && f.relkind == RELKIND_RELATION && !f.sampled && !f.is_target
}

fn check_eligible(f: &TableFacts) -> (r: bool)
    ensures
        r == is_eligible(*f),
{
    f.rtekind == RteKind::Relation && f.relkind == RELKIND_RELATION && !f.sampled && !f.is_target
}

/// The table that a relation is, if it can be joined with itself.
pub open spec fn table_of(facts: List<TableFacts>, relid: u32) -> Option<u32>
    decreases facts,
{
    match facts {
        List::Nil => None,
        List::Cons(f, fs) => if f.relid == relid {
            if is_eligible(f) {
                Some(f.table)
            } else {
                None
            }
        } else {
            table_of(*fs, relid)
        },
    }
}

fn find_table(facts: &List<TableFacts>, relid: u32) -> (r: Option<u32>)
    ensures
        r == table_of(*facts, relid),
    decreases facts,
{
    match facts {
        List::Nil => None,
        List::Cons(f, fs) => if f.relid == relid {
            if check_eligible(f) {
                Some(f.table)
            } else {
                None
            }
        } else {
            find_table(fs, relid)
        },
    }
}

/// Candidates are ordered by table, then by number.
pub open spec fn comes_first(a: Candidate, b: Candidate) -> bool {
    a.table < b.table || (a.table == b.table && a.relid <= b.relid)
}

/// The list with a candidate at its place.
pub open spec fn inserted(c: Candidate, l: List<Candidate>) -> List<Candidate>
    decreases l,
{
    match l {
        List::Nil => List::Cons(c, Box::new(List::Nil)),
        List::Cons(x, xs) => if comes_first(c, x) {
            List::Cons(c, Box::new(l))
        } else {
            List::Cons(x, Box::new(inserted(c, *xs)))
        },
    }
}

fn insert_candidate(c: Candidate, l: List<Candidate>) -> (r: List<Candidate>)
    ensures
        r == inserted(c, l),
    decreases l,
{
    match l {
        List::Nil => List::one(c),
        List::Cons(x, xs) => if c.table < x.table || (c.table == x.table && c.relid <= x.relid) {
            List::Cons(c, Box::new(List::Cons(x, xs)))
        } else {
            List::Cons(x, Box::new(insert_candidate(c, *xs)))
        },
    }
}

/// The candidates among the relations that are joined directly, in order.
pub open spec fn level_candidates(l: List<Joinlist>, facts: List<TableFacts>) -> List<Candidate>
    decreases l,
{
    match l {
        List::Nil => List::Nil,
        List::Cons(x, xs) => {
            let rest = level_candidates(*xs, facts);
            match x {
                Joinlist::Rel(v) => match table_of(facts, v) {
                    Some(t) => inserted(Candidate { relid: v, table: t }, rest),
                    None => rest,
                },
                Joinlist::Sub(_) => rest,
            }
        },
    }
}

fn collect_candidates(l: &List<Joinlist>, facts: &List<TableFacts>) -> (r: List<Candidate>)
    ensures
        r == level_candidates(*l, *facts),
    decreases l,
{
    match l {
        List::Nil => List::Nil,
        List::Cons(x, xs) => {
            let rest = collect_candidates(xs, facts);
            match x {
                Joinlist::Rel(v) => match find_table(facts, *v) {
                    Some(t) => insert_candidate(Candidate { relid: *v, table: t }, rest),
                    None => rest,
                },
                Joinlist::Sub(_) => rest,
            }
        },
    }
}

/// The candidates for one table at the beginning of a list.
pub open spec fn leading_group(table: u32, l: List<Candidate>) -> List<u32>
    decreases l,
{
    match l {
        List::Nil => List::Nil,
        List::Cons(x, xs) => if x.table == table {
            List::Cons(x.relid, Box::new(leading_group(table, *xs)))
        } else {
            List::Nil
        },
    }
}

/// What follows them.
pub open spec fn after_group(table: u32, l: List<Candidate>) -> List<Candidate>
    decreases l,
{
    match l {
        List::Nil => List::Nil,
        List::Cons(x, xs) => if x.table == table {
            after_group(table, *xs)
        } else {
            l
        },
    }
}

fn split_group(table: u32, l: List<Candidate>) -> (r: (List<u32>, List<Candidate>))
    ensures
        r.0 == leading_group(table, l),
        r.1 == after_group(table, l),
    decreases l,
{
    match l {
        List::Nil => (List::Nil, List::Nil),
        List::Cons(x, xs) => if x.table == table {
            let (group, rest) = split_group(table, *xs);
            (List::Cons(x.relid, Box::new(group)), rest)
        } else {
            (List::Nil, List::Cons(x, xs))
        },
    }
}

proof fn lemma_after_group(table: u32, l: List<Candidate>)
    ensures
        after_group(table, l)@.len() <= l@.len(),
    decreases l,
{
    if let List::Cons(x, xs) = l {
        lemma_after_group(table, *xs);
    }
}

/// The groups of two or more relations that are the same table.
pub open spec fn table_groups(l: List<Candidate>) -> List<List<u32>>
    decreases l@.len(),
    via table_groups_decreases
{
    match l {
        List::Nil => List::Nil,
        List::Cons(x, xs) => {
            let group = leading_group(x.table, *xs);
            let rest = table_groups(after_group(x.table, *xs));
            if group is Nil {
                rest
            } else {
                List::Cons(List::Cons(x.relid, Box::new(group)), Box::new(rest))
            }
        },
    }
}

#[via_fn]
proof fn table_groups_decreases(l: List<Candidate>) {
    if let List::Cons(x, xs) = l {
        lemma_after_group(x.table, *xs);
    }
}

fn find_table_groups(l: List<Candidate>) -> (r: List<List<u32>>)
    ensures
        r == table_groups(l),
    decreases l@.len(),
{
    match l {
        List::Nil => List::Nil,
        List::Cons(x, xs) => {
            proof {
                lemma_after_group(x.table, *xs);
            }
            let (group, after) = split_group(x.table, *xs);
            let rest = find_table_groups(after);
            if group.is_nil() {
                rest
            } else {
                List::Cons(List::Cons(x.relid, Box::new(group)), Box::new(rest))
            }
        },
    }
}

/// The groups of relations that are the same table and are joined with each
/// other: those of lists inside the list first.
pub open spec fn selfjoin_groups(l: List<Joinlist>, facts: List<TableFacts>) -> List<List<u32>>
    decreases l, 1int,
{
    inner_groups(l, facts).then_list(table_groups(level_candidates(l, facts)))
}

/// The groups of the lists inside a list.
pub open spec fn inner_groups(l: List<Joinlist>, facts: List<TableFacts>) -> List<List<u32>>
    decreases l, 0int,
{
    match l {
        List::Nil => List::Nil,
        List::Cons(x, xs) => {
            let rest = inner_groups(*xs, facts);
            match x {
                Joinlist::Rel(_) => rest,
                Joinlist::Sub(sub) => selfjoin_groups(*sub, facts).then_list(rest),
            }
        },
    }
}

/// Finds the groups of relations that are the same table and are joined with
/// each other.
pub fn remove_self_joins_recurse(l: &List<Joinlist>, facts: &List<TableFacts>) -> (r: List<
    List<u32>,
>)
    ensures
        r == selfjoin_groups(*l, *facts),
    decreases l, 1int,
{
    let inner = collect_inner_groups(l, facts);
    let own = find_table_groups(collect_candidates(l, facts));
    inner.append(own)
}

fn collect_inner_groups(l: &List<Joinlist>, facts: &List<TableFacts>) -> (r: List<List<u32>>)
    ensures
        r == inner_groups(*l, *facts),
    decreases l, 0int,
{
    match l {
        List::Nil => List::Nil,
        List::Cons(x, xs) => {
            let rest = collect_inner_groups(xs, facts);
            match x {
                Joinlist::Rel(_) => rest,
                Joinlist::Sub(sub) => remove_self_joins_recurse(sub, facts).append(rest),
            }
        },
    }
}

/// All relations of the list are the table.
pub open spec fn all_of_table(l: List<u32>, table: u32, facts: List<TableFacts>) -> bool
    decreases l,
{
    match l {
        List::Nil => true,
        List::Cons(x, xs) => table_of(facts, x) == Some(table) && all_of_table(*xs, table, facts),
    }
}

/// All candidates are what the facts say.
pub open spec fn candidates_true(l: List<Candidate>, facts: List<TableFacts>) -> bool
    decreases l,
{
    match l {
        List::Nil => true,
        List::Cons(x, xs) => table_of(facts, x.relid) == Some(x.table) && candidates_true(
            *xs,
            facts,
        ),
    }
}

proof fn lemma_inserted_true(c: Candidate, l: List<Candidate>, facts: List<TableFacts>)
    requires
        table_of(facts, c.relid) == Some(c.table),
        candidates_true(l, facts),
    ensures
        candidates_true(inserted(c, l), facts),
    decreases l,
{
    if let List::Cons(x, xs) = l {
        lemma_inserted_true(c, *xs, facts);
    } else {
        assert(candidates_true(List::Nil, facts));
    }
}

proof fn lemma_candidates_true(l: List<Joinlist>, facts: List<TableFacts>)
    ensures
        candidates_true(level_candidates(l, facts), facts),
    decreases l,
{
    if let List::Cons(x, xs) = l {
        lemma_candidates_true(*xs, facts);
        if let Joinlist::Rel(v) = x {
            if let Some(t) = table_of(facts, v) {
                lemma_inserted_true(
                    Candidate { relid: v, table: t },
                    level_candidates(*xs, facts),
                    facts,
                );
            }
        }
    }
}

proof fn lemma_leading_group(table: u32, l: List<Candidate>, facts: List<TableFacts>)
    requires
        candidates_true(l, facts),
    ensures
        all_of_table(leading_group(table, l), table, facts),
        candidates_true(after_group(table, l), facts),
    decreases l,
{
    if let List::Cons(x, xs) = l {
        lemma_leading_group(table, *xs, facts);
    }
}

proof fn lemma_table_groups(l: List<Candidate>, facts: List<TableFacts>, i: int)
    requires
        candidates_true(l, facts),
        0 <= i < table_groups(l)@.len(),
    ensures
        exists|t: u32| #[trigger] all_of_table(table_groups(l)@[i], t, facts),
        table_groups(l)@[i]@.len() >= 2,
    decreases l@.len(),
{
    if let List::Cons(x, xs) = l {
        lemma_leading_group(x.table, *xs, facts);
        lemma_after_group(x.table, *xs);
        let group = leading_group(x.table, *xs);
        let rest = table_groups(after_group(x.table, *xs));
        if group is Nil {
            lemma_table_groups(after_group(x.table, *xs), facts, i);
        } else if i > 0 {
            lemma_table_groups(after_group(x.table, *xs), facts, i - 1);
            assert(table_groups(l)@[i] == rest@[i - 1]);
        } else {
            let whole = List::Cons(x.relid, Box::new(group));
            assert(all_of_table(whole, x.table, facts));
            assert(group@.len() >= 1);
            assert(table_groups(l)@[0] == whole);
        }
    }
}

/// The relations of a group of the list itself are two or more, and all of
/// them the same table.
pub proof fn lemma_level_groups(l: List<Joinlist>, facts: List<TableFacts>, i: int)
    requires
        0 <= i < table_groups(level_candidates(l, facts))@.len(),
    ensures
        exists|t: u32|
            #[trigger] all_of_table(table_groups(level_candidates(l, facts))@[i], t, facts),
        table_groups(level_candidates(l, facts))@[i]@.len() >= 2,
{
    lemma_candidates_true(l, facts);
    lemma_table_groups(level_candidates(l, facts), facts, i);
}

/// A group that may still hold relations to be removed: some were, and two or
/// more are left.
pub fn group_goes_on(group: &Relids, removed: &Relids) -> (r: Option<Relids>)
    ensures
        r == if removed is Nil || !crate::relids::is_multiple(
            crate::relids::difference_list(*group, *removed),
        ) {
            None
        } else {
            Some(crate::relids::difference_list(*group, *removed))
        },
{
    let left = relids_difference(group, removed);
    if removed.is_nil() || !relids_is_multiple(&left) {
        None
    } else {
        Some(left)
    }
}

/// There is nothing to be joined with itself.
pub open spec fn nothing_to_remove(l: List<Joinlist>, enabled: bool) -> bool {
    !enabled || match l {
        List::Nil => true,
        List::Cons(x, rest) => *rest is Nil && x is Rel,
    }
}

/// The order of joining without some relations.
pub open spec fn without_rels(l: List<Joinlist>, removed: List<u32>) -> Result<
    List<Joinlist>,
    PlannerError,
>
    decreases removed,
{
    match removed {
        List::Nil => Ok(l),
        List::Cons(x, xs) => if crate::joinremoval::occurrences(l, x) != 1 {
            Err(PlannerError::RelationNotInJoinlist)
        } else {
            without_rels(crate::joinremoval::without_rel(l, x), *xs)
        },
    }
}

fn remove_rels(l: List<Joinlist>, removed: &List<u32>) -> (r: Result<List<Joinlist>, PlannerError>)
    ensures
        r == without_rels(l, *removed),
    decreases removed,
{
    match removed {
        List::Nil => Ok(l),
        List::Cons(x, xs) => {
            let (left, n) = remove_rel_from_joinlist(l, *x);
            if n != 1 {
                Err(PlannerError::RelationNotInJoinlist)
            } else {
                remove_rels(left, xs)
            }
        },
    }
}

/// Removes from the order of joining the relations that were found to be the
/// same as others.
pub fn remove_useless_self_joins(l: List<Joinlist>, enabled: bool, removed: &List<u32>) -> (r:
    Result<List<Joinlist>, PlannerError>)
    ensures
        r == if nothing_to_remove(l, enabled) {
            Ok(l)
        } else {
            without_rels(l, *removed)
        },
{
    if !enabled {
        return Ok(l);
    }
    let nothing = match &l {
        List::Nil => true,
        List::Cons(x, rest) => {
            let single = match x {
                Joinlist::Rel(_) => true,
                Joinlist::Sub(_) => false,
            };
            rest.is_nil() && single
        },
    };
    if nothing {
        return Ok(l);
    }
    remove_rels(l, removed)
}

/// The clauses, where a relation is replaced by another.
pub open spec fn all_replaced(l: List<Restriction>, from: u32, to: u32) -> List<Restriction>
    decreases l,
{
    match l {
        List::Nil => List::Nil,
        List::Cons(x, xs) => List::Cons(
            crate::restriction::replaced(x, from, to),
            Box::new(all_replaced(*xs, from, to)),
        ),
    }
}

fn replace_all(l: List<Restriction>, from: u32, to: u32) -> (r: List<Restriction>)
    ensures
        r == all_replaced(l, from, to),
    decreases l,
{
    match l {
        List::Nil => List::Nil,
        List::Cons(x, xs) => List::Cons(
            replace_relid_rinfo(x, from, to),
            Box::new(replace_all(*xs, from, to)),
        ),
    }
}

/// The clauses that concern several relations, or just one.
pub open spec fn by_relations(l: List<Restriction>, several: bool) -> List<Restriction>
    decreases l,
{
    match l {
        List::Nil => List::Nil,
        List::Cons(x, xs) => if crate::relids::is_multiple(x.required_relids) == several {
            List::Cons(x, Box::new(by_relations(*xs, several)))
        } else {
            by_relations(*xs, several)
        },
    }
}

fn split_by_relations(l: List<Restriction>) -> (r: (List<Restriction>, List<Restriction>))
    ensures
        r.0 == by_relations(l, true),
        r.1 == by_relations(l, false),
    decreases l,
{
    match l {
        List::Nil => (List::Nil, List::Nil),
        List::Cons(x, xs) => {
            let (joins, bases) = split_by_relations(*xs);
            if relids_is_multiple(&x.required_relids) {
                (List::Cons(x, Box::new(joins)), bases)
            } else {
                (joins, List::Cons(x, Box::new(bases)))
            }
        },
    }
}

/// The clause says nothing that the clauses do not say.
pub open spec fn is_redundant(r: Restriction, l: List<Restriction>) -> bool
    decreases l,
{
    match l {
        List::Nil => false,
        List::Cons(x, xs) => (crate::relids::ids(x.clause_relids) == crate::relids::ids(
            r.clause_relids,
        ) && (x.id == r.id || (r.parent_ec is Some && x.parent_ec == r.parent_ec)
            || crate::restriction::logically_equal(r, x))) || is_redundant(r, *xs),
    }
}

fn check_redundant(r: &Restriction, l: &List<Restriction>) -> (b: bool)
    ensures
        b == is_redundant(*r, *l),
    decreases l,
{
    match l {
        List::Nil => false,
        List::Cons(x, xs) => {
            let same_class = match (r.parent_ec, x.parent_ec) {
                (Some(a), Some(b)) => a == b,
                _ => false,
            };
            let here = relids_equal(&x.clause_relids, &r.clause_relids) && (x.id == r.id
                || same_class || restrict_infos_logically_equal(r, x));
            here || check_redundant(r, xs)
        },
    }
}

/// The clauses that say something new, each compared also with those before
/// it that do.
pub open spec fn new_clauses(candidates: List<Restriction>, there: List<Restriction>) -> List<
    Restriction,
>
    decreases candidates,
{
    match candidates {
        List::Nil => List::Nil,
        List::Cons(c, cs) => if is_redundant(c, there) {
            new_clauses(*cs, there)
        } else {
            List::Cons(
                c,
                Box::new(
                    new_clauses(*cs, there.then_list(List::Cons(c, Box::new(List::Nil)))),
                ),
            )
        },
    }
}

/// Selects the clauses that say something new.
pub fn add_non_redundant_clauses(candidates: List<Restriction>, there: List<Restriction>) -> (r:
    List<Restriction>)
    ensures
        r == new_clauses(candidates, there),
    decreases candidates,
{
    match candidates {
        List::Nil => List::Nil,
        List::Cons(c, cs) => if check_redundant(&c, &there) {
            add_non_redundant_clauses(*cs, there)
        } else {
            let more = there.append(List::one(c.copy()));
            List::Cons(c, Box::new(add_non_redundant_clauses(*cs, more)))
        },
    }
}

/// A member of an equivalence class.
#[derive(Debug)]
pub struct ClassMember {
    pub relids: Relids,
    pub expr: Expr,
    pub is_const: bool,
    /// The join domain that it belongs to.
    pub domain: u32,
}

/// An equivalence class.
#[derive(Debug)]
pub struct ClassState {
    pub relids: Relids,
    pub members: List<ClassMember>,
    pub sources: List<Restriction>,
}

/// Some member is the same.
pub open spec fn has_member(l: List<ClassMember>, m: ClassMember) -> bool
    decreases l,
{
    match l {
        List::Nil => false,
        List::Cons(x, xs) => (crate::relids::ids(m.relids) == crate::relids::ids(x.relids)
            && crate::expr::same_expr(m.expr, x.expr)) || has_member(*xs, m),
    }
}

fn find_member(l: &List<ClassMember>, m: &ClassMember) -> (r: bool)
    ensures
        r == has_member(*l, *m),
    decreases l,
{
    match l {
        List::Nil => false,
        List::Cons(x, xs) => (relids_equal(&m.relids, &x.relids) && equal(&m.expr, &x.expr))
            || find_member(xs, m),
    }
}

/// The members in terms of another relation, each once; `before` are those
/// before them.
pub open spec fn moved_members(
    l: List<ClassMember>,
    from: u32,
    to: u32,
    before: List<ClassMember>,
) -> List<ClassMember>
    decreases l,
{
    match l {
        List::Nil => before,
        List::Cons(x, xs) => {
            let touched = crate::relids::ids(x.relids).contains(from);
            let m = if touched {
                ClassMember {
                    relids: crate::restriction::adjusted_set(x.relids, from, Some(to)),
                    expr: crate::restriction::renamed(x.expr, from, Some(to)),
                    ..x
                }
            } else {
                x
            };
            if touched && has_member(before, m) {
                moved_members(*xs, from, to, before)
            } else {
                moved_members(
                    *xs,
                    from,
                    to,
                    before.then_list(List::Cons(m, Box::new(List::Nil))),
                )
            }
        },
    }
}

fn move_members(
    l: List<ClassMember>,
    from: u32,
    to: u32,
    before: List<ClassMember>,
) -> (r: List<ClassMember>)
    ensures
        r == moved_members(l, from, to, before),
    decreases l,
{
    match l {
        List::Nil => before,
        List::Cons(x, xs) => {
            let mut x = x;
            let touched = relids_is_member(from, &x.relids);
            if touched {
                x.relids = adjust_relid_set(&x.relids, from, Some(to));
                x.expr = rename_relation(x.expr, from, Some(to));
            }
            if touched && find_member(&before, &x) {
                move_members(*xs, from, to, before)
            } else {
                move_members(*xs, from, to, before.append(List::one(x)))
            }
        },
    }
}

/// Some clause is the same.
pub open spec fn has_source(l: List<Restriction>, r: Restriction) -> bool
    decreases l,
{
    match l {
        List::Nil => false,
        List::Cons(x, xs) => (crate::relids::ids(r.clause_relids) == crate::relids::ids(
            x.clause_relids,
        ) && crate::expr::same_expr(r.clause, x.clause)) || has_source(*xs, r),
    }
}

fn find_source(l: &List<Restriction>, r: &Restriction) -> (b: bool)
    ensures
        b == has_source(*l, *r),
    decreases l,
{
    match l {
        List::Nil => false,
        List::Cons(x, xs) => (relids_equal(&r.clause_relids, &x.clause_relids) && equal(
            &r.clause,
            &x.clause,
        )) || find_source(xs, r),
    }
}

/// The clauses that a class comes from in terms of another relation, each once.
pub open spec fn moved_sources(
    l: List<Restriction>,
    from: u32,
    to: u32,
    before: List<Restriction>,
) -> List<Restriction>
    decreases l,
{
    match l {
        List::Nil => before,
        List::Cons(x, xs) => {
            let touched = crate::relids::ids(x.required_relids).contains(from);
            let m = if touched {
                crate::restriction::replaced(x, from, to)
            } else {
                x
            };
            if touched && has_source(before, m) {
                moved_sources(*xs, from, to, before)
            } else {
                moved_sources(
                    *xs,
                    from,
                    to,
                    before.then_list(List::Cons(m, Box::new(List::Nil))),
                )
            }
        },
    }
}

fn move_sources(l: List<Restriction>, from: u32, to: u32, before: List<Restriction>) -> (r: List<
    Restriction,
>)
    ensures
        r == moved_sources(l, from, to, before),
    decreases l,
{
    match l {
        List::Nil => before,
        List::Cons(x, xs) => {
            let touched = relids_is_member(from, &x.required_relids);
            let x = if touched {
                replace_relid_rinfo(x, from, to)
            } else {
                x
            };
            if touched && find_source(&before, &x) {
                move_sources(*xs, from, to, before)
            } else {
                move_sources(*xs, from, to, before.append(List::one(x)))
            }
        },
    }
}

/// The join domains of the members that concern a relation.
pub open spec fn touched_domains(l: List<ClassMember>, from: u32) -> List<u32>
    decreases l,
{
    match l {
        List::Nil => List::Nil,
        List::Cons(x, xs) => if crate::relids::ids(x.relids).contains(from) {
            List::Cons(x.domain, Box::new(touched_domains(*xs, from)))
        } else {
            touched_domains(*xs, from)
        },
    }
}

fn find_touched_domains(l: &List<ClassMember>, from: u32) -> (r: List<u32>)
    ensures
        r == touched_domains(*l, from),
    decreases l,
{
    match l {
        List::Nil => List::Nil,
        List::Cons(x, xs) => {
            let rest = find_touched_domains(xs, from);
            if relids_is_member(from, &x.relids) {
                List::Cons(x.domain, Box::new(rest))
            } else {
                rest
            }
        },
    }
}

/// Puts an equivalence class in terms of another relation. Also tells the join
/// domains in which the relation has to be replaced as well.
pub fn update_eclasses(ec: ClassState, from: u32, to: u32) -> (r: (ClassState, List<u32>))
    ensures
        r.0.relids == crate::restriction::adjusted_set(ec.relids, from, Some(to)),
        r.0.members == moved_members(ec.members, from, to, List::Nil),
        r.0.sources == moved_sources(ec.sources, from, to, List::Nil),
        r.1 == touched_domains(ec.members, from),
{
    let domains = find_touched_domains(&ec.members, from);
    let new = ClassState {
        relids: adjust_relid_set(&ec.relids, from, Some(to)),
        members: move_members(ec.members, from, to, List::Nil),
        sources: move_sources(ec.sources, from, to, List::Nil),
    };
    (new, domains)
}

/// The members where one relation is replaced by another; what then concerns
/// no relation is dropped.
pub open spec fn substituted_members(l: List<ClassMember>, relid: u32, subst: u32) -> List<
    ClassMember,
>
    decreases l,
{
    match l {
        List::Nil => List::Nil,
        List::Cons(x, xs) => {
            let rest = substituted_members(*xs, relid, subst);
            if crate::relids::ids(x.relids).contains(relid) {
                let relids = crate::restriction::adjusted_set(x.relids, relid, Some(subst));
                if relids is Nil {
                    rest
                } else {
                    List::Cons(ClassMember { relids, ..x }, Box::new(rest))
                }
            } else {
                List::Cons(x, Box::new(rest))
            }
        },
    }
}

fn substitute_members(l: List<ClassMember>, relid: u32, subst: u32) -> (r: List<ClassMember>)
    ensures
        r == substituted_members(l, relid, subst),
    decreases l,
{
    match l {
        List::Nil => List::Nil,
        List::Cons(x, xs) => {
            let rest = substitute_members(*xs, relid, subst);
            if relids_is_member(relid, &x.relids) {
                let mut x = x;
                x.relids = adjust_relid_set(&x.relids, relid, Some(subst));
                if x.relids.is_nil() {
                    rest
                } else {
                    List::Cons(x, Box::new(rest))
                }
            } else {
                List::Cons(x, Box::new(rest))
            }
        },
    }
}

/// Replaces one relation by another in an equivalence class.
pub fn remove_rel_from_eclass(ec: ClassState, relid: u32, subst: u32) -> (r: ClassState)
    ensures
        r.relids == crate::restriction::adjusted_set(ec.relids, relid, Some(subst)),
        r.members == substituted_members(ec.members, relid, subst),
        r.sources == all_replaced(ec.sources, relid, subst),
{
    ClassState {
        relids: adjust_relid_set(&ec.relids, relid, Some(subst)),
        members: substitute_members(ec.members, relid, subst),
        sources: replace_all(ec.sources, relid, subst),
    }
}

/// The join in terms of another relation.
pub open spec fn moved_join(sj: SpecialJoin, from: u32, to: u32) -> SpecialJoin {
    SpecialJoin {
        min_lefthand: crate::restriction::adjusted_set(sj.min_lefthand, from, Some(to)),
        min_righthand: crate::restriction::adjusted_set(sj.min_righthand, from, Some(to)),
        syn_lefthand: crate::restriction::adjusted_set(sj.syn_lefthand, from, Some(to)),
        syn_righthand: crate::restriction::adjusted_set(sj.syn_righthand, from, Some(to)),
        semi_rhs_exprs: crate::restriction::renamed_list(sj.semi_rhs_exprs, from, Some(to)),
        ..sj
    }
}

/// The joins in terms of another relation.
pub open spec fn moved_joins(l: List<SpecialJoin>, from: u32, to: u32) -> List<SpecialJoin>
    decreases l,
{
    match l {
        List::Nil => List::Nil,
        List::Cons(x, xs) => List::Cons(
            moved_join(x, from, to),
            Box::new(moved_joins(*xs, from, to)),
        ),
    }
}

fn move_joins(l: List<SpecialJoin>, from: u32, to: u32) -> (r: List<SpecialJoin>)
    ensures
        r == moved_joins(l, from, to),
    decreases l,
{
    match l {
        List::Nil => List::Nil,
        List::Cons(x, xs) => {
            let mut x = x;
            x.min_lefthand = adjust_relid_set(&x.min_lefthand, from, Some(to));
            x.min_righthand = adjust_relid_set(&x.min_righthand, from, Some(to));
            x.syn_lefthand = adjust_relid_set(&x.syn_lefthand, from, Some(to));
            x.syn_righthand = adjust_relid_set(&x.syn_righthand, from, Some(to));
            x.semi_rhs_exprs = rename_relation_list(x.semi_rhs_exprs, from, Some(to));
            List::Cons(x, Box::new(move_joins(*xs, from, to)))
        },
    }
}

/// The placeholder in terms of another relation.
pub open spec fn moved_placeholder(ph: PlaceHolderUse, from: u32, to: u32) -> PlaceHolderUse {
    let eval_at = crate::restriction::adjusted_set(ph.eval_at, from, Some(to));
    PlaceHolderUse {
        eval_at,
        needed: crate::joinremoval::only_result(ph.needed),
        lateral: crate::relids::difference_list(
            crate::restriction::adjusted_set(ph.lateral, from, Some(to)),
            eval_at,
        ),
        phrels: crate::restriction::adjusted_set(ph.phrels, from, Some(to)),
        expr: crate::restriction::renamed(ph.expr, from, Some(to)),
        ..ph
    }
}

/// The placeholders in terms of another relation.
pub open spec fn moved_placeholders(l: List<PlaceHolderUse>, from: u32, to: u32) -> List<
    PlaceHolderUse,
>
    decreases l,
{
    match l {
        List::Nil => List::Nil,
        List::Cons(x, xs) => List::Cons(
            moved_placeholder(x, from, to),
            Box::new(moved_placeholders(*xs, from, to)),
        ),
    }
}

fn move_placeholders(l: List<PlaceHolderUse>, from: u32, to: u32) -> (r: List<PlaceHolderUse>)
    ensures
        r == moved_placeholders(l, from, to),
    decreases l,
{
    match l {
        List::Nil => List::Nil,
        List::Cons(x, xs) => {
            let mut x = x;
            x.eval_at = adjust_relid_set(&x.eval_at, from, Some(to));
            x.needed = keep_result(&x.needed);
            let lateral = adjust_relid_set(&x.lateral, from, Some(to));
            x.lateral = relids_difference(&lateral, &x.eval_at);
            x.phrels = adjust_relid_set(&x.phrels, from, Some(to));
            x.expr = rename_relation(x.expr, from, Some(to));
            List::Cons(x, Box::new(move_placeholders(*xs, from, to)))
        },
    }
}

/// The relations in terms of another one.
pub open spec fn moved_rels(l: List<BaseRel>, from: u32, to: u32) -> List<BaseRel>
    decreases l,
{
    match l {
        List::Nil => List::Nil,
        List::Cons(x, xs) => List::Cons(
            BaseRel {
                attr_needed: crate::joinremoval::reset_needed(x.attr_needed),
                lateral_vars: crate::restriction::renamed_list(x.lateral_vars, from, Some(to)),
                ..x
            },
            Box::new(moved_rels(*xs, from, to)),
        ),
    }
}

fn move_rels(l: List<BaseRel>, from: u32, to: u32) -> (r: List<BaseRel>)
    ensures
        r == moved_rels(l, from, to),
    decreases l,
{
    match l {
        List::Nil => List::Nil,
        List::Cons(x, xs) => {
            let mut x = x;
            x.attr_needed = keep_results(&x.attr_needed);
            x.lateral_vars = rename_relation_list(x.lateral_vars, from, Some(to));
            List::Cons(x, Box::new(move_rels(*xs, from, to)))
        },
    }
}

/// The query where one relation stands for another as well, which is gone.
pub open spec fn merged_query(state: JoinState, from: u32, to: u32) -> JoinState {
    JoinState {
        all_baserels: crate::restriction::adjusted_set(state.all_baserels, from, Some(to)),
        all_query_rels: crate::restriction::adjusted_set(state.all_query_rels, from, Some(to)),
        joins: moved_joins(state.joins, from, to),
        placeholders: moved_placeholders(state.placeholders, from, to),
        rels: crate::joinremoval::without_base_rel(moved_rels(state.rels, from, to), from),
        ..state
    }
}

/// Lets one relation of a query stand for another as well.
pub fn remove_rel_from_query(state: JoinState, from: u32, to: u32) -> (r: JoinState)
    ensures
        r == merged_query(state, from, to),
{
    let mut state = state;
    state.all_baserels = adjust_relid_set(&state.all_baserels, from, Some(to));
    state.all_query_rels = adjust_relid_set(&state.all_query_rels, from, Some(to));
    state.joins = move_joins(state.joins, from, to);
    state.placeholders = move_placeholders(state.placeholders, from, to);
    state.rels = remove_base_rel(move_rels(state.rels, from, to), from);
    state
}

/// Afterwards the query has the relation no more, and all others.
pub proof fn lemma_merged_query(state: JoinState, from: u32, to: u32)
    requires
        from > 0,
        from != to,
        crate::relids::ids(state.all_query_rels).contains(to),
    ensures
        crate::relids::ids(merged_query(state, from, to).all_query_rels) =~= crate::relids::ids(
            state.all_query_rels,
        ).remove(from),
{
    crate::restriction::lemma_adjusted_set(state.all_query_rels, from, Some(to));
}

/// For each column the relations at which either relation needs it.
pub open spec fn merged_needed(
    kept: List<Relids>,
    removed: List<Relids>,
    from: u32,
    to: u32,
) -> List<Relids>
    decreases kept,
{
    match (kept, removed) {
        (List::Cons(k, ks), List::Cons(r, rs)) => List::Cons(
            crate::relids::union_list(k, crate::restriction::adjusted_set(r, from, Some(to))),
            Box::new(merged_needed(*ks, *rs, from, to)),
        ),
        _ => kept,
    }
}

fn merge_needed(kept: List<Relids>, removed: &List<Relids>, from: u32, to: u32) -> (r: List<Relids>)
    ensures
        r == merged_needed(kept, *removed, from, to),
    decreases kept,
{
    match kept {
        List::Nil => List::Nil,
        List::Cons(k, ks) => match removed {
            List::Nil => List::Cons(k, ks),
            List::Cons(x, xs) => {
                let moved = adjust_relid_set(x, from, Some(to));
                let both = relids_union(&k, &moved);
                List::Cons(both, Box::new(merge_needed(*ks, xs, from, to)))
            },
        },
    }
}

/// The row marks after a relation was merged with another: its own mark goes
/// if the other has one, else it moves.
pub open spec fn merged_marks(marks: List<RowMark>, from: u32, to: u32, kept_has: bool) -> List<
    RowMark,
>
    decreases marks,
{
    match marks {
        List::Nil => List::Nil,
        List::Cons(m, ms) => if m.rti == from {
            if kept_has {
                *ms
            } else {
                List::Cons(RowMark { rti: to, ..m }, ms)
            }
        } else {
            List::Cons(m, Box::new(merged_marks(*ms, from, to, kept_has)))
        },
    }
}

fn merge_marks(marks: List<RowMark>, from: u32, to: u32, kept_has: bool) -> (r: List<RowMark>)
    ensures
        r == merged_marks(marks, from, to, kept_has),
    decreases marks,
{
    match marks {
        List::Nil => List::Nil,
        List::Cons(m, ms) => if m.rti == from {
            if kept_has {
                *ms
            } else {
                List::Cons(RowMark { rti: to, mark_type: m.mark_type }, ms)
            }
        } else {
            List::Cons(m, Box::new(merge_marks(*ms, from, to, kept_has)))
        },
    }
}

/// A query in which relations may turn out to be the same: what it is made of,
/// its equivalence classes, its join domains and its row marks.
#[derive(Debug)]
pub struct SelfJoinQuery {
    pub state: JoinState,
    pub classes: List<ClassState>,
    pub domains: List<Relids>,
    pub marks: List<RowMark>,
}

/// The clauses, where those with the given numbers concern another relation.
pub open spec fn replaced_by_number(
    clauses: List<Restriction>,
    numbers: List<u32>,
    from: u32,
    to: u32,
) -> List<Restriction>
    decreases clauses,
{
    match clauses {
        List::Nil => List::Nil,
        List::Cons(x, xs) => List::Cons(
            if numbers@.contains(x.id) {
                crate::restriction::replaced(x, from, to)
            } else {
                x
            },
            Box::new(replaced_by_number(*xs, numbers, from, to)),
        ),
    }
}

fn replace_by_number(clauses: List<Restriction>, numbers: &List<u32>, from: u32, to: u32) -> (r:
    List<Restriction>)
    ensures
        r == replaced_by_number(clauses, *numbers, from, to),
    decreases clauses,
{
    match clauses {
        List::Nil => List::Nil,
        List::Cons(x, xs) => {
            let rest = replace_by_number(*xs, numbers, from, to);
            let x = if list_has(numbers, x.id) {
                replace_relid_rinfo(x, from, to)
            } else {
                x
            };
            List::Cons(x, Box::new(rest))
        },
    }
}

/// The relations without join clauses of theirs.
pub open spec fn without_join_clauses(
    rels: List<BaseRel>,
    numbers: List<u32>,
    clauses: List<Restriction>,
) -> List<BaseRel>
    decreases numbers,
{
    match numbers {
        List::Nil => rels,
        List::Cons(i, is) => without_join_clauses(
            match crate::joinremoval::clause_of(clauses, i) {
                Some(c) => crate::joinremoval::without_clause(rels, i, c.required_relids),
                None => rels,
            },
            *is,
            clauses,
        ),
    }
}

fn remove_join_clauses(rels: List<BaseRel>, numbers: &List<u32>, clauses: &List<Restriction>) -> (r:
    List<BaseRel>)
    ensures
        r == without_join_clauses(rels, *numbers, *clauses),
    decreases numbers,
{
    match numbers {
        List::Nil => rels,
        List::Cons(i, is) => {
            let rels = match find_clause(clauses, *i) {
                Some(c) => remove_join_clause_from_rels(rels, *i, &c.required_relids),
                None => rels,
            };
            remove_join_clauses(rels, is, clauses)
        },
    }
}

/// The relation that stays, with what the other one computed and needed, and
/// with its equivalence classes.
pub open spec fn with_partner(kept: BaseRel, gone: BaseRel) -> BaseRel {
    BaseRel {
        target: crate::quals::concat_unique(
            kept.target,
            crate::restriction::renamed_list(gone.target, gone.relid, Some(kept.relid)),
        ),
        attr_needed: merged_needed(kept.attr_needed, gone.attr_needed, gone.relid, kept.relid),
        eclasses: crate::relids::union_list(kept.eclasses, gone.eclasses),
        ..kept
    }
}

/// The relations, where one has taken over from another.
pub open spec fn partner_merged(rels: List<BaseRel>, kept: u32, gone: BaseRel) -> List<BaseRel>
    decreases rels,
{
    match rels {
        List::Nil => List::Nil,
        List::Cons(x, xs) => if x.relid == kept {
            List::Cons(with_partner(x, gone), xs)
        } else {
            List::Cons(x, Box::new(partner_merged(*xs, kept, gone)))
        },
    }
}

fn merge_partner(rels: List<BaseRel>, kept: u32, gone: &BaseRel) -> (r: List<BaseRel>)
    ensures
        r == partner_merged(rels, kept, *gone),
    decreases rels,
{
    match rels {
        List::Nil => List::Nil,
        List::Cons(x, xs) => if x.relid == kept {
            let mut x = x;
            let moved = rename_relation_list(
                crate::expr::copy_exprs(&gone.target),
                gone.relid,
                Some(kept),
            );
            x.target = list_concat_unique(x.target, &moved);
            x.attr_needed = merge_needed(x.attr_needed, &gone.attr_needed, gone.relid, kept);
            x.eclasses = relids_union(&x.eclasses, &gone.eclasses);
            List::Cons(x, xs)
        } else {
            List::Cons(x, Box::new(merge_partner(*xs, kept, gone)))
        },
    }
}

/// A class in terms of another relation.
pub open spec fn updated_class(ec: ClassState, from: u32, to: u32) -> ClassState {
    ClassState {
        relids: crate::restriction::adjusted_set(ec.relids, from, Some(to)),
        members: moved_members(ec.members, from, to, List::Nil),
        sources: moved_sources(ec.sources, from, to, List::Nil),
    }
}

/// A class where one relation is replaced by another.
pub open spec fn substituted_class(ec: ClassState, relid: u32, subst: u32) -> ClassState {
    ClassState {
        relids: crate::restriction::adjusted_set(ec.relids, relid, Some(subst)),
        members: substituted_members(ec.members, relid, subst),
        sources: all_replaced(ec.sources, relid, subst),
    }
}

/// The classes, numbered from `n`: those of the relation that goes are put in
/// terms of the other, and then it is replaced in all of them.
pub open spec fn merged_classes(
    classes: List<ClassState>,
    n: u32,
    own: Relids,
    from: u32,
    to: u32,
) -> List<ClassState>
    decreases classes,
{
    match classes {
        List::Nil => List::Nil,
        List::Cons(c, cs) => List::Cons(
            substituted_class(
                if crate::relids::ids(own).contains(n) {
                    updated_class(c, from, to)
                } else {
                    c
                },
                from,
                to,
            ),
            Box::new(merged_classes(*cs, next_number(n), own, from, to)),
        ),
    }
}

/// The number after this one.
pub open spec fn next_number(n: u32) -> u32 {
    if n == u32::MAX {
        n
    } else {
        (n + 1) as u32
    }
}

/// The join domains of the members that are put in terms of another relation.
pub open spec fn all_touched_domains(
    classes: List<ClassState>,
    n: u32,
    own: Relids,
    from: u32,
) -> List<u32>
    decreases classes,
{
    match classes {
        List::Nil => List::Nil,
        List::Cons(c, cs) => {
            let rest = all_touched_domains(*cs, next_number(n), own, from);
            if crate::relids::ids(own).contains(n) {
                touched_domains(c.members, from).then_list(rest)
            } else {
                rest
            }
        },
    }
}

fn merge_classes(classes: List<ClassState>, n: u32, own: &Relids, from: u32, to: u32) -> (r: (
    List<ClassState>,
    List<u32>,
))
    ensures
        r.0 == merged_classes(classes, n, *own, from, to),
        r.1 == all_touched_domains(classes, n, *own, from),
    decreases classes,
{
    match classes {
        List::Nil => (List::Nil, List::Nil),
        List::Cons(c, cs) => {
            let next: u32 = if n == u32::MAX {
                n
            } else {
                n + 1
            };
            let (rest, later) = merge_classes(*cs, next, own, from, to);
            if relids_is_member(n, own) {
                let (c, domains) = update_eclasses(c, from, to);
                let c = remove_rel_from_eclass(c, from, to);
                (List::Cons(c, Box::new(rest)), domains.append(later))
            } else {
                let c = remove_rel_from_eclass(c, from, to);
                (List::Cons(c, Box::new(rest)), later)
            }
        },
    }
}

/// The join domains, numbered from `n`, where those that are touched are in
/// terms of another relation.
pub open spec fn moved_domains(
    domains: List<Relids>,
    n: u32,
    touched: List<u32>,
    from: u32,
    to: u32,
) -> List<Relids>
    decreases domains,
{
    match domains {
        List::Nil => List::Nil,
        List::Cons(d, ds) => List::Cons(
            if touched@.contains(n) {
                crate::restriction::adjusted_set(d, from, Some(to))
            } else {
                d
            },
            Box::new(moved_domains(*ds, next_number(n), touched, from, to)),
        ),
    }
}

fn move_domains(domains: List<Relids>, n: u32, touched: &List<u32>, from: u32, to: u32) -> (r: List<
    Relids,
>)
    ensures
        r == moved_domains(domains, n, *touched, from, to),
    decreases domains,
{
    match domains {
        List::Nil => List::Nil,
        List::Cons(d, ds) => {
            let next: u32 = if n == u32::MAX {
                n
            } else {
                n + 1
            };
            let rest = move_domains(*ds, next, touched, from, to);
            let d = if list_has(touched, n) {
                adjust_relid_set(&d, from, Some(to))
            } else {
                d
            };
            List::Cons(d, Box::new(rest))
        },
    }
}

/// The query after a relation was merged with another. Clauses that say
/// something new have to find their place: those that concern one relation, and
/// those that concern several. Of where columns are needed only the result is
/// left: once the clauses have their places, `rebuild_attr_needed` puts the
/// rest back.
#[derive(Debug)]
pub struct MergedQuery {
    pub query: SelfJoinQuery,
    pub new_restrictions: List<Restriction>,
    pub new_joinclauses: List<Restriction>,
}

/// The clauses that go from one relation to another: its join clauses, those
/// that concern it alone, and those between the two.
pub open spec fn moving_numbers(gone: BaseRel, between: List<u32>) -> List<u32> {
    gone.joininfo.then_list(gone.restrictinfo.then_list(between))
}

/// The query after a relation was merged with another that is the same.
pub open spec fn merged_self_join(
    q: SelfJoinQuery,
    kept: BaseRel,
    gone: BaseRel,
    between: List<u32>,
) -> MergedQuery {
    let from = gone.relid;
    let to = kept.relid;
    let numbers = moving_numbers(gone, between);
    let clauses = replaced_by_number(q.state.clauses, numbers, from, to);
    let rels = without_join_clauses(q.state.rels, gone.joininfo, q.state.clauses);
    let moved = crate::joinremoval::clauses_of(clauses, numbers);
    let there = match crate::joinremoval::rel_of(rels, to) {
        Some(r) => (
            crate::joinremoval::clauses_of(clauses, r.restrictinfo),
            crate::joinremoval::clauses_of(clauses, r.joininfo),
        ),
        None => (List::Nil, List::Nil),
    };
    MergedQuery {
        query: SelfJoinQuery {
            state: merged_query(
                JoinState { rels: partner_merged(rels, to, gone), clauses, ..q.state },
                from,
                to,
            ),
            classes: merged_classes(q.classes, 0, gone.eclasses, from, to),
            domains: moved_domains(
                q.domains,
                0,
                all_touched_domains(q.classes, 0, gone.eclasses, from),
                from,
                to,
            ),
            marks: merged_marks(q.marks, from, to, mark_of(q.marks, to) is Some),
        },
        new_restrictions: new_clauses(by_relations(moved, false), there.0),
        new_joinclauses: new_clauses(by_relations(moved, true), there.1),
    }
}

fn copy_rel(r: &BaseRel) -> (s: BaseRel)
    ensures
        s == *r,
{
    BaseRel {
        relid: r.relid,
        min_attr: r.min_attr,
        attr_needed: copy_relid_sets(&r.attr_needed),
        joininfo: r.joininfo.copy(),
        restrictinfo: r.restrictinfo.copy(),
        lateral_vars: crate::expr::copy_exprs(&r.lateral_vars),
        target: crate::expr::copy_exprs(&r.target),
        eclasses: r.eclasses.copy(),
    }
}

fn copy_relid_sets(l: &List<Relids>) -> (r: List<Relids>)
    ensures
        r == *l,
    decreases l,
{
    match l {
        List::Nil => List::Nil,
        List::Cons(x, xs) => List::Cons(x.copy(), Box::new(copy_relid_sets(xs))),
    }
}

/// Merges a relation with another that is the same; fails where one of them is
/// not known.
pub fn remove_self_join_rel(q: SelfJoinQuery, kept: u32, gone: u32, between: &List<u32>) -> (r:
    Result<MergedQuery, PlannerError>)
    ensures
        r == match (
            crate::joinremoval::rel_of(q.state.rels, kept),
            crate::joinremoval::rel_of(q.state.rels, gone),
        ) {
            (Some(k), Some(g)) => Ok(merged_self_join(q, k, g, *between)),
            _ => Err(PlannerError::UnknownRelation),
        },
{
    proof {
        lemma_rel_of(q.state.rels, kept);
        lemma_rel_of(q.state.rels, gone);
    }
    if find_rel(&q.state.rels, kept).is_none() {
        return Err(PlannerError::UnknownRelation);
    }
    let partner = match find_rel(&q.state.rels, gone) {
        None => {
            return Err(PlannerError::UnknownRelation);
        },
        Some(g) => copy_rel(g),
    };
    let numbers = partner.joininfo.copy().append(
        partner.restrictinfo.copy().append(between.copy()),
    );
    let mut state = q.state;
    let rels = remove_join_clauses(state.rels, &partner.joininfo, &state.clauses);
    let clauses = replace_by_number(state.clauses, &numbers, gone, kept);
    let moved = find_clauses(&clauses, &numbers);
    let (on_kept, joins_kept) = match find_rel(&rels, kept) {
        Some(r) => (find_clauses(&clauses, &r.restrictinfo), find_clauses(&clauses, &r.joininfo)),
        None => (List::Nil, List::Nil),
    };
    let (joins, bases) = split_by_relations(moved);
    let new_restrictions = add_non_redundant_clauses(bases, on_kept);
    let new_joinclauses = add_non_redundant_clauses(joins, joins_kept);
    let kept_has = find_mark(&q.marks, kept).is_some();
    let marks = merge_marks(q.marks, gone, kept, kept_has);
    let (classes, touched) = merge_classes(q.classes, 0, &partner.eclasses, gone, kept);
    let domains = move_domains(q.domains, 0, &touched, gone, kept);
    state.rels = merge_partner(rels, kept, &partner);
    state.clauses = clauses;
    let state = remove_rel_from_query(state, gone, kept);
    Ok(
        MergedQuery {
            query: SelfJoinQuery { state, classes, domains, marks },
            new_restrictions,
            new_joinclauses,
        },
    )
}

proof fn lemma_rel_of(rels: List<BaseRel>, relid: u32)
    ensures
        crate::joinremoval::rel_of(rels, relid) matches Some(r) ==> r.relid == relid,
    decreases rels,
{
    if let List::Cons(_, xs) = rels {
        lemma_rel_of(*xs, relid);
    }
}

proof fn lemma_replaced_by_number(
    clauses: List<Restriction>,
    numbers: List<u32>,
    from: u32,
    to: u32,
    id: u32,
)
    requires
        from > 0,
        from != to,
        numbers@.contains(id),
    ensures
        crate::joinremoval::clause_of(
            replaced_by_number(clauses, numbers, from, to),
            id,
        ) matches Some(c) ==> !crate::relids::ids(c.required_relids).contains(from),
    decreases clauses,
{
    if let List::Cons(x, xs) = clauses {
        crate::restriction::lemma_replaced(x, from, to);
        lemma_replaced_by_number(*xs, numbers, from, to, id);
    }
}

proof fn lemma_none_concern(
    clauses: List<Restriction>,
    numbers: List<u32>,
    all: List<u32>,
    from: u32,
    to: u32,
    i: int,
)
    requires
        from > 0,
        from != to,
        forall|x: u32| #[trigger] numbers@.contains(x) ==> all@.contains(x),
        0 <= i < crate::joinremoval::clauses_of(
            replaced_by_number(clauses, all, from, to),
            numbers,
        )@.len(),
    ensures
        !crate::relids::ids(
            crate::joinremoval::clauses_of(
                replaced_by_number(clauses, all, from, to),
                numbers,
            )@[i].required_relids,
        ).contains(from),
    decreases numbers,
{
    let new = replaced_by_number(clauses, all, from, to);
    match numbers {
        List::Nil => {
            let none: List<Restriction> = List::Nil;
            assert(none@.len() == 0);
        },
        List::Cons(n, ns) => {
            crate::list::lemma_cons_contains(n, *ns, n);
            assert(all@.contains(n));
            lemma_replaced_by_number(clauses, all, from, to, n);
            assert forall|x: u32| #[trigger] ns@.contains(x) implies all@.contains(x) by {
                crate::list::lemma_cons_contains(n, *ns, x);
                assert(numbers@.contains(x));
            }
            let l = crate::joinremoval::clauses_of(new, numbers);
            let rest = crate::joinremoval::clauses_of(new, *ns);
            match crate::joinremoval::clause_of(new, n) {
                Some(c) => {
                    assert(l@[0] == c);
                    if i > 0 {
                        lemma_none_concern(clauses, *ns, all, from, to, i - 1);
                        assert(l@[i] == rest@[i - 1]);
                    }
                },
                None => {
                    lemma_none_concern(clauses, *ns, all, from, to, i);
                },
            }
        },
    }
}

/// No clause that is moved concerns the relation that goes.
pub proof fn lemma_moved_clauses(
    clauses: List<Restriction>,
    gone: BaseRel,
    kept: u32,
    between: List<u32>,
    i: int,
)
    requires
        gone.relid > 0,
        gone.relid != kept,
        0 <= i < crate::joinremoval::clauses_of(
            replaced_by_number(clauses, moving_numbers(gone, between), gone.relid, kept),
            moving_numbers(gone, between),
        )@.len(),
    ensures
        !crate::relids::ids(
            crate::joinremoval::clauses_of(
                replaced_by_number(clauses, moving_numbers(gone, between), gone.relid, kept),
                moving_numbers(gone, between),
            )@[i].required_relids,
        ).contains(gone.relid),
{
    let numbers = moving_numbers(gone, between);
    lemma_none_concern(clauses, numbers, numbers, gone.relid, kept, i);
}

/// What came of a look at a pair of relations: the query, the clauses that have
/// to find a place if the first was merged with the second, and the pair to
/// look at next.
#[derive(Debug)]
pub struct PairOutcome {
    pub query: SelfJoinQuery,
    pub merged: Option<(List<Restriction>, List<Restriction>)>,
    pub next: Option<(usize, usize)>,
}

/// The clauses by which the second relation of a pair has to be unique for each
/// row of the first, where the two might be one.
pub open spec fn pair_clauses(q: SelfJoinQuery, gone: u32, kept: u32, between: List<u32>) -> Option<
    (List<Restriction>, bool),
> {
    match crate::joinremoval::rel_of(q.state.rels, kept) {
        None => None,
        Some(k) => merging_clauses(
            q.state.joins,
            q.marks,
            kept,
            gone,
            crate::joinremoval::clauses_of(q.state.clauses, between),
            crate::joinremoval::clauses_of(q.state.clauses, k.restrictinfo),
        ),
    }
}

/// Finds the clauses by which the second relation of a pair has to be unique
/// for each row of the first, where the two might be one. With it comes whether
/// the clauses between them do nothing but compare columns with themselves.
pub fn find_pair_clauses(q: &SelfJoinQuery, gone: u32, kept: u32, between: &List<u32>) -> (r:
    Option<(List<Restriction>, bool)>)
    ensures
        r == pair_clauses(*q, gone, kept, *between),
{
    match find_rel(&q.state.rels, kept) {
        None => None,
        Some(k) => find_merging_clauses(
            &q.state.joins,
            &q.marks,
            kept,
            gone,
            find_clauses(&q.state.clauses, between),
            find_clauses(&q.state.clauses, &k.restrictinfo),
        ),
    }
}

/// The first relation of a pair goes into the second: the two might be one, the
/// second is unique, and the clauses that are not between the two but make it
/// unique are there for the first too. `proved` holds those clauses where
/// uniqueness was proved.
pub open spec fn pair_merges(
    q: SelfJoinQuery,
    gone: u32,
    kept: u32,
    between: List<u32>,
    proved: Option<List<u32>>,
) -> Result<bool, PlannerError> {
    match (pair_clauses(q, gone, kept, between), proved) {
        (Some(_), Some(unique)) => unique_clauses_match(
            match crate::joinremoval::rel_of(q.state.rels, gone) {
                Some(g) => crate::joinremoval::clauses_of(q.state.clauses, g.restrictinfo),
                None => List::Nil,
            },
            gone,
            crate::joinremoval::clauses_of(q.state.clauses, unique),
            kept,
        ),
        _ => Ok(false),
    }
}

fn check_pair_merges(
    q: &SelfJoinQuery,
    gone: u32,
    kept: u32,
    between: &List<u32>,
    proved: &Option<List<u32>>,
) -> (r: Result<bool, PlannerError>)
    ensures
        r == pair_merges(*q, gone, kept, *between, *proved),
{
    if find_pair_clauses(q, gone, kept, between).is_none() {
        return Ok(false);
    }
    match proved {
        None => Ok(false),
        Some(unique) => {
            let on_gone = match find_rel(&q.state.rels, gone) {
                Some(g) => find_clauses(&q.state.clauses, &g.restrictinfo),
                None => List::Nil,
            };
            let uclauses = find_clauses(&q.state.clauses, unique);
            match_unique_clauses(&on_gone, gone, &uclauses, kept)
        },
    }
}

/// What comes of a look at the pair at `at` of a group: the first relation goes
/// into the second where that can be, and then its other pairs are passed over.
pub open spec fn pair_outcome(
    q: SelfJoinQuery,
    members: Seq<u32>,
    at: (usize, usize),
    between: List<u32>,
    proved: Option<List<u32>>,
) -> Result<PairOutcome, PlannerError> {
    let n = members.len() as usize;
    let gone = members[at.0 as int];
    let kept = members[at.1 as int];
    match pair_merges(q, gone, kept, between, proved) {
        Err(e) => Err(e),
        Ok(false) => Ok(
            PairOutcome { query: q, merged: None, next: following_pair(n, at, false) },
        ),
        Ok(true) => match (
            crate::joinremoval::rel_of(q.state.rels, kept),
            crate::joinremoval::rel_of(q.state.rels, gone),
        ) {
            (Some(k), Some(g)) => {
                let m = merged_self_join(q, k, g, between);
                Ok(
                    PairOutcome {
                        query: m.query,
                        merged: Some((m.new_restrictions, m.new_joinclauses)),
                        next: following_pair(n, at, true),
                    },
                )
            },
            _ => Err(PlannerError::UnknownRelation),
        },
    }
}

/// Looks at a pair of relations of a group. `between` are the clauses between
/// the two, and `proved` tells whether the second is unique by the clauses of
/// `find_pair_clauses`, and by which others.
pub fn look_at_pair(
    q: SelfJoinQuery,
    members: &Vec<u32>,
    at: (usize, usize),
    between: &List<u32>,
    proved: &Option<List<u32>>,
) -> (r: Result<PairOutcome, PlannerError>)
    requires
        at.0 < at.1 < members@.len(),
    ensures
        r == pair_outcome(q, members@, at, *between, *proved),
{
    let gone: u32 = members[at.0];
    let kept: u32 = members[at.1];
    match check_pair_merges(&q, gone, kept, between, proved) {
        Err(e) => Err(e),
        Ok(false) => {
            let next = remove_self_joins_one_group(members.len(), at, false);
            Ok(PairOutcome { query: q, merged: None, next })
        },
        Ok(true) => match remove_self_join_rel(q, kept, gone, between) {
            Err(e) => Err(e),
            Ok(m) => {
                let next = remove_self_joins_one_group(members.len(), at, true);
                Ok(
                    PairOutcome {
                        query: m.query,
                        merged: Some((m.new_restrictions, m.new_joinclauses)),
                        next,
                    },
                )
            },
        },
    }
}

/// The two relations are on the same side of every join: none that is outer or
/// semi separates them.
pub open spec fn on_same_side(joins: Seq<SpecialJoin>, a: u32, b: u32) -> bool {
    forall|i: int|
        0 <= i < joins.len() ==> ((#[trigger] joins[i]).syn_lefthand@.contains(a)
            <==> joins[i].syn_lefthand@.contains(b)) && (joins[i].syn_righthand@.contains(a)
            <==> joins[i].syn_righthand@.contains(b))
}

proof fn lemma_same_place(joins: List<SpecialJoin>, a: u32, b: u32)
    ensures
        same_place(joins, a, b) <==> on_same_side(joins@, a, b),
    decreases joins,
{
    match joins {
        List::Nil => {
            assert(joins@.len() == 0);
        },
        List::Cons(j, js) => {
            lemma_same_place(*js, a, b);
            assert(joins@[0] == j);
            assert(forall|i: int| 0 <= i < js@.len() ==> joins@[i + 1] == #[trigger] js@[i]);
            assert(forall|i: int| 1 <= i < joins@.len() ==> #[trigger] joins@[i] == js@[i - 1]);
        },
    }
}

/// The clauses that compare a column with itself are all those that do, and the
/// others all the rest; none is in both or in neither.
pub proof fn lemma_quals_split(l: List<Restriction>)
    ensures
        selfjoin_quals(l)@ == l@.filter(|r: Restriction| is_selfjoin_qual(r)),
        otherjoin_quals(l)@ == l@.filter(|r: Restriction| !is_selfjoin_qual(r)),
    decreases l,
{
    let f = |r: Restriction| is_selfjoin_qual(r);
    let g = |r: Restriction| !is_selfjoin_qual(r);
    match l {
        List::Nil => {
            reveal(Seq::filter);
        },
        List::Cons(x, xs) => {
            lemma_quals_split(*xs);
            crate::quals::lemma_filter_cons(x, xs@, f);
            crate::quals::lemma_filter_cons(x, xs@, g);
        },
    }
}

proof fn lemma_pair_members(l: Relids) -> (p: (u32, u32))
    requires
        is_pair(l),
    ensures
        p.0 != p.1,
        forall|m: u32| #[trigger] l@.contains(m) <==> m == p.0 || m == p.1,
{
    match l {
        List::Nil => (0, 0),
        List::Cons(x, xs) => {
            let rest = crate::relids::del(l, x);
            let y = crate::relids::the_only(rest)->0;
            lemma_only(rest, y);
            crate::relids::lemma_del(l, x);
            crate::list::lemma_cons_contains(x, *xs, x);
            assert(rest@.contains(y));
            assert(crate::relids::ids(rest).contains(y));
            assert forall|m: u32| #[trigger] l@.contains(m) <==> m == x || m == y by {
                assert(crate::relids::ids(l).contains(m) <==> l@.contains(m));
                assert(crate::relids::ids(rest).contains(m) <==> crate::relids::ids(l).contains(m)
                    && m != x);
                assert(rest@.contains(m) <==> m == y);
            }
            (x, y)
        },
    }
}

/// A clause that compares a column of a table with itself is an equality that
/// concerns two relations, no more and no fewer.
pub proof fn lemma_selfjoin_relations(r: Restriction) -> (p: (u32, u32))
    requires
        is_selfjoin_qual(r),
    ensures
        r.mergeable,
        p.0 != p.1,
        forall|m: u32| #[trigger] r.clause_relids@.contains(m) <==> m == p.0 || m == p.1,
{
    lemma_pair_members(r.clause_relids)
}

/// Each side of a clause that compares a column of a table with itself refers
/// to one relation alone, and the sides are the same once the one relation is
/// put for the other.
pub proof fn lemma_selfjoin_sides(r: Restriction, to: u32, from: u32)
    requires
        is_selfjoin_qual(r),
        r.left_relids@.contains(to),
        r.right_relids@.contains(from),
    ensures
        forall|m: u32| #[trigger] r.left_relids@.contains(m) ==> m == to,
        forall|m: u32| #[trigger] r.right_relids@.contains(m) ==> m == from,
        operands(r.clause) matches Some(p) && crate::expr::same_expr(
            unlabelled(p.0),
            crate::restriction::renamed(unlabelled(p.1), from, Some(to)),
        ),
{
    let a = crate::relids::the_only(r.left_relids)->0;
    let b = crate::relids::the_only(r.right_relids)->0;
    lemma_only(r.left_relids, a);
    lemma_only(r.right_relids, b);
}

proof fn lemma_only(l: Relids, x: u32)
    requires
        crate::relids::the_only(l) == Some(x),
    ensures
        forall|m: u32| #[trigger] l@.contains(m) <==> m == x,
{
    crate::relids::lemma_the_only(l, x);
    assert forall|m: u32| #[trigger] l@.contains(m) <==> m == x by {
        assert(crate::relids::ids(l).contains(m) <==> (set![x]).contains(m));
    }
}

/// The comparison is made by one of the clauses.
pub open spec fn compares(l: Seq<Restriction>, column: Expr, value: Expr) -> bool {
    exists|i: int|
        0 <= i < l.len() && (#[trigger] l[i]).mergeable && (column_and_value(
            l[i],
            l[i].clause,
        ) matches Some(p) && crate::expr::same_expr(column, p.0) && crate::expr::same_expr(
            value,
            p.1,
        ))
}

proof fn lemma_has_comparison(l: List<Restriction>, column: Expr, value: Expr)
    requires
        has_comparison(l, column, value) == Ok::<bool, PlannerError>(true),
    ensures
        compares(l@, column, value),
    decreases l,
{
    if let List::Cons(x, xs) = l {
        assert(l@[0] == x);
        let here = x.mergeable && (column_and_value(x, x.clause) matches Some(p)
            && crate::expr::same_expr(column, p.0) && crate::expr::same_expr(value, p.1));
        if !here {
            lemma_has_comparison(*xs, column, value);
            let i = choose|i: int|
                0 <= i < xs@.len() && (#[trigger] xs@[i]).mergeable && (column_and_value(
                    xs@[i],
                    xs@[i].clause,
                ) matches Some(p) && crate::expr::same_expr(column, p.0)
                    && crate::expr::same_expr(value, p.1));
            assert(l@[i + 1] == xs@[i]);
        }
    }
}

proof fn lemma_all_matched(
    outer: List<Restriction>,
    outer_relid: u32,
    uclauses: List<Restriction>,
    relid: u32,
    i: int,
)
    requires
        unique_clauses_match(outer, outer_relid, uclauses, relid) == Ok::<bool, PlannerError>(
            true,
        ),
        0 <= i < uclauses@.len(),
    ensures
        column_and_value(
            uclauses@[i],
            crate::restriction::renamed(uclauses@[i].clause, relid, Some(outer_relid)),
        ) matches Some(p) && compares(outer@, p.0, p.1),
    decreases uclauses,
{
    if let List::Cons(u, us) = uclauses {
        assert(uclauses@[0] == u);
        let p = column_and_value(
            u,
            crate::restriction::renamed(u.clause, relid, Some(outer_relid)),
        )->0;
        lemma_has_comparison(outer, p.0, p.1);
        if i > 0 {
            assert(uclauses@[i] == us@[i - 1]);
            lemma_all_matched(outer, outer_relid, *us, relid, i - 1);
        }
    }
}

/// One of two relations goes into the other only for a good reason: no outer or
/// semi join separates the two, their rows are not locked in different ways,
/// there are clauses between them, the one that stays was proved unique, and
/// every clause on it alone that this took, with the one relation put for the
/// other, holds of the relation that goes too.
pub proof fn lemma_merged_for_reason(
    q: SelfJoinQuery,
    gone: u32,
    kept: u32,
    between: List<u32>,
    proved: Option<List<u32>>,
    i: int,
)
    requires
        pair_merges(q, gone, kept, between, proved) == Ok::<bool, PlannerError>(true),
    ensures
        on_same_side(q.state.joins@, kept, gone),
        (mark_of(q.marks, kept) is Some && mark_of(q.marks, gone) is Some) ==> mark_of(
            q.marks,
            kept,
        ) == mark_of(q.marks, gone),
        between@.len() > 0,
        proved matches Some(unique) && ({
            let uclauses = crate::joinremoval::clauses_of(q.state.clauses, unique)@;
            let on_gone = match crate::joinremoval::rel_of(q.state.rels, gone) {
                Some(g) => crate::joinremoval::clauses_of(q.state.clauses, g.restrictinfo)@,
                None => Seq::empty(),
            };
            0 <= i < uclauses.len() ==> (column_and_value(
                uclauses[i],
                crate::restriction::renamed(uclauses[i].clause, kept, Some(gone)),
            ) matches Some(p) && compares(on_gone, p.0, p.1))
        }),
{
    lemma_same_place(q.state.joins, kept, gone);
    let unique = proved->0;
    let uclauses = crate::joinremoval::clauses_of(q.state.clauses, unique);
    let on_gone = match crate::joinremoval::rel_of(q.state.rels, gone) {
        Some(g) => crate::joinremoval::clauses_of(q.state.clauses, g.restrictinfo),
        None => List::Nil,
    };
    let none: List<Restriction> = List::Nil;
    assert(none@ =~= Seq::<Restriction>::empty());
    if 0 <= i < uclauses@.len() {
        lemma_all_matched(on_gone, gone, uclauses, kept, i);
    }
    if let List::Cons(_, rest) = between {
        assert(between@.len() == 1 + rest@.len());
    }
}

} // verus!

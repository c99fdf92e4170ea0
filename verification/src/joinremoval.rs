//! Removal of outer joins that contribute nothing.
use vstd::prelude::*;
use crate::clausesel::pull_varnos;
use crate::distinctness::{
    find_cached_answer, innerrel_is_unique, rel_is_distinct_for, rel_supports_distinctness,
    select_usable_clauses, EqualityFacts, RelFacts, UniqueAnswer, UniqueCache, UsableClause,
};
use crate::error::PlannerError;
use crate::expr::Expr;
use crate::list::List;
use crate::rel::JoinType;
use crate::relids::{
    relids_add_member, relids_del_member, relids_difference, relids_is_member, relids_is_subset,
    relids_is_multiple, relids_overlap, relids_singleton_member, relids_union, Relids,
};
use crate::restriction::{
    adjust_relid_set, remove_rel_from_restrictinfo, rename_relation, rinfo_is_pushed_down,
    Restriction,
};
use crate::scanplan::find_varno;
use crate::targets::pull_agg_input_vars;

verus! {

/// The order in which relations may be joined: single relations and lists that
/// are joined on their own.
#[derive(Debug)]
pub enum Joinlist {
    Rel(u32),
    Sub(Box<List<Joinlist>>),
}

/// The relations of a list.
pub open spec fn list_rels(l: List<Joinlist>) -> Set<u32>
    decreases l,
{
    match l {
        List::Nil => Set::empty(),
        List::Cons(x, xs) => node_rels(x).union(list_rels(*xs)),
    }
}

/// The relations of an item.
pub open spec fn node_rels(j: Joinlist) -> Set<u32>
    decreases j,
{
    match j {
        Joinlist::Rel(v) => set![v],
        Joinlist::Sub(sub) => list_rels(*sub),
    }
}

/// How often a relation occurs in a list.
pub open spec fn occurrences(l: List<Joinlist>, relid: u32) -> nat
    decreases l,
{
    match l {
        List::Nil => 0,
        List::Cons(x, xs) => node_occurrences(x, relid) + occurrences(*xs, relid),
    }
}

/// How often a relation occurs in an item.
pub open spec fn node_occurrences(j: Joinlist, relid: u32) -> nat
    decreases j,
{
    match j {
        Joinlist::Rel(v) => if v == relid {
            1
        } else {
            0
        },
        Joinlist::Sub(sub) => occurrences(*sub, relid),
    }
}

/// The list without a relation. A list inside it that becomes empty is left
/// out.
pub open spec fn without_rel(l: List<Joinlist>, relid: u32) -> List<Joinlist>
    decreases l,
{
    match l {
        List::Nil => List::Nil,
        List::Cons(x, xs) => {
            let rest = without_rel(*xs, relid);
            match x {
                Joinlist::Rel(v) => if v == relid {
                    rest
                } else {
                    List::Cons(x, Box::new(rest))
                },
                Joinlist::Sub(sub) => {
                    let s = without_rel(*sub, relid);
                    if s is Nil {
                        rest
                    } else {
                        List::Cons(Joinlist::Sub(Box::new(s)), Box::new(rest))
                    }
                },
            }
        },
    }
}

/// None, one, or more.
pub open spec fn up_to_two(n: nat) -> u8 {
    if n == 0 {
        0
    } else if n == 1 {
        1
    } else {
        2
    }
}

fn sum_up_to_two(a: u8, b: u8) -> (r: u8)
    requires
        a <= 2,
        b <= 2,
    ensures
        r == up_to_two((a + b) as nat),
{
    if a + b >= 2 {
        2
    } else {
        a + b
    }
}

/// Removes a relation from a list, and tells whether it was there not at all,
/// once or more often.
pub fn remove_rel_from_joinlist(l: List<Joinlist>, relid: u32) -> (r: (List<Joinlist>, u8))
    ensures
        r.0 == without_rel(l, relid),
        r.1 == up_to_two(occurrences(l, relid)),
    decreases l,
{
    match l {
        List::Nil => (List::Nil, 0),
        List::Cons(x, xs) => {
            let (rest, more) = remove_rel_from_joinlist(*xs, relid);
            match x {
                Joinlist::Rel(v) => {
                    assert(node_occurrences(Joinlist::Rel(v), relid) == if v == relid {
                        1nat
                    } else {
                        0nat
                    });
                    if v == relid {
                        (rest, sum_up_to_two(1, more))
                    } else {
                        (List::Cons(Joinlist::Rel(v), Box::new(rest)), more)
                    }
                },
                Joinlist::Sub(sub) => {
                    assert(node_occurrences(Joinlist::Sub(sub), relid) == occurrences(*sub, relid));
                    let (s, here) = remove_rel_from_joinlist(*sub, relid);
                    let n: u8 = sum_up_to_two(here, more);
                    if s.is_nil() {
                        (rest, n)
                    } else {
                        (List::Cons(Joinlist::Sub(Box::new(s)), Box::new(rest)), n)
                    }
                },
            }
        },
    }
}

/// Exactly that relation is removed: all others stay.
pub proof fn lemma_without_rel(l: List<Joinlist>, relid: u32)
    ensures
        list_rels(without_rel(l, relid)) =~= list_rels(l).remove(relid),
    decreases l,
{
    if let List::Cons(x, xs) = l {
        lemma_without_rel(*xs, relid);
        let rest = without_rel(*xs, relid);
        assert(list_rels(l) =~= node_rels(x).union(list_rels(*xs)));
        match x {
            Joinlist::Rel(v) => {
                assert(node_rels(x) =~= set![v]);
                let kept = List::Cons(x, Box::new(rest));
                assert(list_rels(kept) =~= node_rels(x).union(list_rels(rest)));
            },
            Joinlist::Sub(sub) => {
                lemma_without_rel(*sub, relid);
                assert(node_rels(x) =~= list_rels(*sub));
                let s = without_rel(*sub, relid);
                let y = Joinlist::Sub(Box::new(s));
                assert(node_rels(y) =~= list_rels(s));
                let kept = List::Cons(y, Box::new(rest));
                assert(list_rels(kept) =~= node_rels(y).union(list_rels(rest)));
                if s is Nil {
                    assert(list_rels(s) =~= Set::<u32>::empty());
                }
            },
        }
    }
}

/// A relation occurs in a list exactly if it is one of its relations.
pub proof fn lemma_occurrences(l: List<Joinlist>, relid: u32)
    ensures
        occurrences(l, relid) > 0 <==> list_rels(l).contains(relid),
    decreases l,
{
    if let List::Cons(x, xs) = l {
        lemma_occurrences(*xs, relid);
        assert(list_rels(l) =~= node_rels(x).union(list_rels(*xs)));
        match x {
            Joinlist::Rel(v) => {
                assert(node_rels(x) =~= set![v]);
                assert(node_occurrences(x, relid) == if v == relid {
                    1nat
                } else {
                    0nat
                });
            },
            Joinlist::Sub(sub) => {
                lemma_occurrences(*sub, relid);
                assert(node_rels(x) =~= list_rels(*sub));
                assert(node_occurrences(x, relid) == occurrences(*sub, relid));
            },
        }
    }
}

/// An outer or semi join.
#[derive(Debug)]
pub struct SpecialJoin {
    pub min_lefthand: Relids,
    pub min_righthand: Relids,
    pub syn_lefthand: Relids,
    pub syn_righthand: Relids,
    pub jointype: JoinType,
    /// The number of an outer join, or 0.
    pub ojrelid: u32,
    pub commute_above_l: Relids,
    pub commute_above_r: Relids,
    pub commute_below_l: Relids,
    pub commute_below_r: Relids,
    pub semi_rhs_exprs: List<Expr>,
}

/// A placeholder of a query.
#[derive(Debug)]
pub struct PlaceHolderUse {
    pub phid: u32,
    pub eval_at: Relids,
    pub lateral: Relids,
    pub needed: Relids,
    /// The relations that it stands at in the query.
    pub phrels: Relids,
    pub expr: Expr,
}

/// A relation of a query.
#[derive(Debug)]
pub struct BaseRel {
    pub relid: u32,
    /// The number of its first column: system columns have negative numbers.
    pub min_attr: i16,
    /// For each column, from the first on, the relations at which it is needed;
    /// 0 stands for the result.
    pub attr_needed: List<Relids>,
    /// The join clauses that it takes part in, by their numbers.
    pub joininfo: List<u32>,
    /// The clauses that concern it alone, by their numbers.
    pub restrictinfo: List<u32>,
    pub lateral_vars: List<Expr>,
    /// What a scan of it computes.
    pub target: List<Expr>,
    /// The equivalence classes that it has members of, by their numbers.
    pub eclasses: Relids,
}

/// What a query is made of, as far as removing joins goes.
#[derive(Debug)]
pub struct JoinState {
    pub all_baserels: Relids,
    pub all_query_rels: Relids,
    pub outer_join_rels: Relids,
    pub joins: List<SpecialJoin>,
    pub placeholders: List<PlaceHolderUse>,
    pub rels: List<BaseRel>,
    pub clauses: List<Restriction>,
}

/// The relation with a number.
pub open spec fn rel_of(rels: List<BaseRel>, relid: u32) -> Option<BaseRel>
    decreases rels,
{
    match rels {
        List::Nil => None,
        List::Cons(r, rs) => if r.relid == relid {
            Some(r)
        } else {
            rel_of(*rs, relid)
        },
    }
}

/// Finds what has the given number.
pub fn find_rel(rels: &List<BaseRel>, relid: u32) -> (r: Option<&BaseRel>)
    ensures
        r is Some <==> rel_of(*rels, relid) is Some,
        r matches Some(x) ==> rel_of(*rels, relid) == Some(*x),
    decreases rels,
{
    match rels {
        List::Nil => None,
        List::Cons(r, rs) => if r.relid == relid {
            Some(r)
        } else {
            find_rel(rs, relid)
        },
    }
}

/// The clause with a number.
pub open spec fn clause_of(clauses: List<Restriction>, id: u32) -> Option<Restriction>
    decreases clauses,
{
    match clauses {
        List::Nil => None,
        List::Cons(c, cs) => if c.id == id {
            Some(c)
        } else {
            clause_of(*cs, id)
        },
    }
}

/// Finds what has the given number.
pub fn find_clause(clauses: &List<Restriction>, id: u32) -> (r: Option<&Restriction>)
    ensures
        r is Some <==> clause_of(*clauses, id) is Some,
        r matches Some(x) ==> clause_of(*clauses, id) == Some(*x),
    decreases clauses,
{
    match clauses {
        List::Nil => None,
        List::Cons(c, cs) => if c.id == id {
            Some(c)
        } else {
            find_clause(cs, id)
        },
    }
}

/// The clauses with the given numbers; numbers without a clause are passed
/// over.
pub open spec fn clauses_of(clauses: List<Restriction>, numbers: List<u32>) -> List<Restriction>
    decreases numbers,
{
    match numbers {
        List::Nil => List::Nil,
        List::Cons(i, is) => match clause_of(clauses, i) {
            Some(c) => List::Cons(c, Box::new(clauses_of(clauses, *is))),
            None => clauses_of(clauses, *is),
        },
    }
}

/// Finds the clauses that have the given numbers.
pub fn find_clauses(clauses: &List<Restriction>, numbers: &List<u32>) -> (r: List<Restriction>)
    ensures
        r == clauses_of(*clauses, *numbers),
    decreases numbers,
{
    match numbers {
        List::Nil => List::Nil,
        List::Cons(i, is) => {
            let rest = find_clauses(clauses, is);
            match find_clause(clauses, *i) {
                Some(c) => List::Cons(c.copy(), Box::new(rest)),
                None => rest,
            }
        },
    }
}

/// No column is needed outside of the relations.
pub open spec fn needed_within(needed: List<Relids>, within: Relids) -> bool
    decreases needed,
{
    match needed {
        List::Nil => true,
        List::Cons(x, xs) => crate::relids::ids(x).subset_of(crate::relids::ids(within))
            && needed_within(*xs, within),
    }
}

fn check_needed(needed: &List<Relids>, within: &Relids) -> (r: bool)
    ensures
        r == needed_within(*needed, *within),
    decreases needed,
{
    match needed {
        List::Nil => true,
        List::Cons(x, xs) => relids_is_subset(x, within) && check_needed(xs, within),
    }
}

/// A placeholder stands in the way of removing a join: it is computed at the
/// inner relation, or refers to it, and is needed above the join.
pub open spec fn placeholder_blocks(
    ph: PlaceHolderUse,
    inner: u32,
    inputrelids: Relids,
    sj: SpecialJoin,
) -> bool {
    let eval_at = crate::relids::ids(ph.eval_at);
    if crate::relids::ids(ph.lateral).contains(inner) {
        true
    } else if !eval_at.contains(inner) || crate::relids::ids(ph.needed).subset_of(
        crate::relids::ids(inputrelids),
    ) {
        false
    } else {
        !eval_at.contains(sj.ojrelid) || crate::relids::ids(sj.min_lefthand).disjoint(eval_at)
            || crate::relids::ids(crate::clausesel::varnos(ph.expr)).contains(inner)
    }
}

fn check_placeholder(ph: &PlaceHolderUse, inner: u32, inputrelids: &Relids, sj: &SpecialJoin) -> (r:
    bool)
    ensures
        r == placeholder_blocks(*ph, inner, *inputrelids, *sj),
{
    if relids_is_member(inner, &ph.lateral) {
        return true;
    }
    if !relids_is_member(inner, &ph.eval_at) || relids_is_subset(&ph.needed, inputrelids) {
        return false;
    }
    !relids_is_member(sj.ojrelid, &ph.eval_at) || !relids_overlap(&sj.min_lefthand, &ph.eval_at)
        || relids_is_member(inner, &pull_varnos(&ph.expr))
}

/// Some placeholder stands in the way.
pub open spec fn placeholders_block(
    l: List<PlaceHolderUse>,
    inner: u32,
    inputrelids: Relids,
    sj: SpecialJoin,
) -> bool
    decreases l,
{
    match l {
        List::Nil => false,
        List::Cons(x, xs) => placeholder_blocks(x, inner, inputrelids, sj) || placeholders_block(
            *xs,
            inner,
            inputrelids,
            sj,
        ),
    }
}

fn check_placeholders(
    l: &List<PlaceHolderUse>,
    inner: u32,
    inputrelids: &Relids,
    sj: &SpecialJoin,
) -> (r: bool)
    ensures
        r == placeholders_block(*l, inner, *inputrelids, *sj),
    decreases l,
{
    match l {
        List::Nil => false,
        List::Cons(x, xs) => check_placeholder(x, inner, inputrelids, sj) || check_placeholders(
            xs,
            inner,
            inputrelids,
            sj,
        ),
    }
}

/// The clauses, without copies of other ones.
pub open spec fn originals(l: List<Restriction>) -> List<Restriction>
    decreases l,
{
    match l {
        List::Nil => List::Nil,
        List::Cons(x, xs) => if x.is_clone {
            originals(*xs)
        } else {
            List::Cons(x, Box::new(originals(*xs)))
        },
    }
}

fn select_originals(l: List<Restriction>) -> (r: List<Restriction>)
    ensures
        r == originals(l),
    decreases l,
{
    match l {
        List::Nil => List::Nil,
        List::Cons(x, xs) => if x.is_clone {
            select_originals(*xs)
        } else {
            List::Cons(x, Box::new(select_originals(*xs)))
        },
    }
}

/// The relations that an outer join joins.
pub open spec fn input_relids(sj: SpecialJoin) -> Relids {
    crate::relids::union_list(sj.min_lefthand, sj.min_righthand)
}

/// The relations that an outer join joins, and the join.
pub open spec fn join_relids(sj: SpecialJoin) -> Relids {
    crate::relids::ins(input_relids(sj), sj.ojrelid)
}

/// A left join can be removed if its inner side is a single relation that is
/// not changed by the query, of which nothing is needed above the join, and
/// that is unique by the clauses given here. None where it cannot be removed in
/// any case.
pub open spec fn removal_clauses(
    state: JoinState,
    sj: SpecialJoin,
    result_relation: u32,
    possible: bool,
) -> Option<List<UsableClause>> {
    match (sj.jointype, crate::relids::the_only(sj.min_righthand)) {
        (JoinType::Left, Some(inner)) => match rel_of(state.rels, inner) {
            Some(rel) => if inner != result_relation && possible && needed_within(
                rel.attr_needed,
                input_relids(sj),
            ) && !placeholders_block(state.placeholders, inner, input_relids(sj), sj) {
                Some(
                    crate::distinctness::usable_clauses(
                        originals(clauses_of(state.clauses, rel.joininfo)),
                        JoinType::Left,
                        join_relids(sj),
                        sj.min_lefthand,
                        List::Cons(inner, Box::new(List::Nil)),
                    ),
                )
            } else {
                None
            },
            None => None,
        },
        _ => None,
    }
}

/// Decides whether a left join can be removed, and gives the clauses by which
/// its inner side has to be unique for that. `possible` says whether the inner
/// relation might be unique at all.
pub fn join_is_removable(
    state: &JoinState,
    sj: &SpecialJoin,
    result_relation: u32,
    possible: bool,
) -> (r: Option<List<UsableClause>>)
    ensures
        r == removal_clauses(*state, *sj, result_relation, possible),
{
    if sj.jointype != JoinType::Left {
        return None;
    }
    let inner: u32 = match relids_singleton_member(&sj.min_righthand) {
        None => {
            return None;
        },
        Some(x) => x,
    };
    let rel = match find_rel(&state.rels, inner) {
        None => {
            return None;
        },
        Some(r) => r,
    };
    if inner == result_relation || !possible {
        return None;
    }
    let inputs = relids_union(&sj.min_lefthand, &sj.min_righthand);
    if !check_needed(&rel.attr_needed, &inputs) {
        return None;
    }
    if check_placeholders(&state.placeholders, inner, &inputs, sj) {
        return None;
    }
    let joined = relids_add_member(&inputs, sj.ojrelid);
    let clauses = select_originals(find_clauses(&state.clauses, &rel.joininfo));
    let inner_relids: Relids = List::one(inner);
    Some(
        select_usable_clauses(
            &clauses,
            JoinType::Left,
            &joined,
            &sj.min_lefthand,
            &inner_relids,
        ),
    )
}

/// The join without a relation and an outer join.
pub open spec fn stripped_join(sj: SpecialJoin, relid: u32, ojrelid: u32) -> SpecialJoin {
    SpecialJoin {
        min_lefthand: crate::relids::del(crate::relids::del(sj.min_lefthand, relid), ojrelid),
        min_righthand: crate::relids::del(crate::relids::del(sj.min_righthand, relid), ojrelid),
        syn_lefthand: crate::relids::del(crate::relids::del(sj.syn_lefthand, relid), ojrelid),
        syn_righthand: crate::relids::del(crate::relids::del(sj.syn_righthand, relid), ojrelid),
        commute_above_l: crate::relids::del(sj.commute_above_l, ojrelid),
        commute_above_r: crate::relids::del(sj.commute_above_r, ojrelid),
        commute_below_l: crate::relids::del(sj.commute_below_l, ojrelid),
        commute_below_r: crate::relids::del(sj.commute_below_r, ojrelid),
        ..sj
    }
}

fn del_both(l: &Relids, a: u32, b: u32) -> (r: Relids)
    ensures
        r == crate::relids::del(crate::relids::del(*l, a), b),
{
    let first = relids_del_member(l, a);
    relids_del_member(&first, b)
}

fn strip_join(sj: SpecialJoin, relid: u32, ojrelid: u32) -> (r: SpecialJoin)
    ensures
        r == stripped_join(sj, relid, ojrelid),
{
    let mut sj = sj;
    sj.min_lefthand = del_both(&sj.min_lefthand, relid, ojrelid);
    sj.min_righthand = del_both(&sj.min_righthand, relid, ojrelid);
    sj.syn_lefthand = del_both(&sj.syn_lefthand, relid, ojrelid);
    sj.syn_righthand = del_both(&sj.syn_righthand, relid, ojrelid);
    sj.commute_above_l = relids_del_member(&sj.commute_above_l, ojrelid);
    sj.commute_above_r = relids_del_member(&sj.commute_above_r, ojrelid);
    sj.commute_below_l = relids_del_member(&sj.commute_below_l, ojrelid);
    sj.commute_below_r = relids_del_member(&sj.commute_below_r, ojrelid);
    sj
}

/// The joins without the one at a place, and the others without a relation and
/// an outer join.
pub open spec fn stripped_joins(l: List<SpecialJoin>, at: usize, relid: u32, ojrelid: u32) -> List<
    SpecialJoin,
>
    decreases l,
{
    match l {
        List::Nil => List::Nil,
        List::Cons(x, xs) => if at == 0 {
            all_stripped(*xs, relid, ojrelid)
        } else {
            List::Cons(
                stripped_join(x, relid, ojrelid),
                Box::new(stripped_joins(*xs, (at - 1) as usize, relid, ojrelid)),
            )
        },
    }
}

/// The joins without a relation and an outer join.
pub open spec fn all_stripped(l: List<SpecialJoin>, relid: u32, ojrelid: u32) -> List<SpecialJoin>
    decreases l,
{
    match l {
        List::Nil => List::Nil,
        List::Cons(x, xs) => List::Cons(
            stripped_join(x, relid, ojrelid),
            Box::new(all_stripped(*xs, relid, ojrelid)),
        ),
    }
}

fn strip_all(l: List<SpecialJoin>, relid: u32, ojrelid: u32) -> (r: List<SpecialJoin>)
    ensures
        r == all_stripped(l, relid, ojrelid),
    decreases l,
{
    match l {
        List::Nil => List::Nil,
        List::Cons(x, xs) => List::Cons(
            strip_join(x, relid, ojrelid),
            Box::new(strip_all(*xs, relid, ojrelid)),
        ),
    }
}

fn strip_joins(l: List<SpecialJoin>, at: usize, relid: u32, ojrelid: u32) -> (r: List<SpecialJoin>)
    ensures
        r == stripped_joins(l, at, relid, ojrelid),
    decreases l,
{
    match l {
        List::Nil => List::Nil,
        List::Cons(x, xs) => if at == 0 {
            strip_all(*xs, relid, ojrelid)
        } else {
            List::Cons(
                strip_join(x, relid, ojrelid),
                Box::new(strip_joins(*xs, at - 1, relid, ojrelid)),
            )
        },
    }
}

/// Only whether the result needs it.
pub open spec fn only_result(l: Relids) -> Relids {
    if crate::relids::ids(l).contains(0) {
        List::Cons(0, Box::new(List::Nil))
    } else {
        List::Nil
    }
}

/// Keeps only whether the result needs it.
pub fn keep_result(l: &Relids) -> (r: Relids)
    ensures
        r == only_result(*l),
{
    if relids_is_member(0, l) {
        List::one(0)
    } else {
        List::Nil
    }
}

/// A placeholder that goes with a join: it is computed at the inner relation
/// and needed nowhere but in the join.
pub open spec fn placeholder_goes(
    ph: PlaceHolderUse,
    relid: u32,
    ojrelid: u32,
    joinrelids: Relids,
) -> bool {
    &&& crate::relids::ids(ph.needed).subset_of(crate::relids::ids(joinrelids))
    &&& crate::relids::ids(ph.eval_at).contains(relid)
    &&& !crate::relids::ids(ph.eval_at).contains(ojrelid)
}

/// A placeholder without an inner relation and its join.
pub open spec fn updated_placeholder(ph: PlaceHolderUse, relid: u32, ojrelid: u32) -> PlaceHolderUse {
    let eval_at = crate::restriction::adjusted_set(
        crate::restriction::adjusted_set(ph.eval_at, relid, None),
        ojrelid,
        None,
    );
    PlaceHolderUse {
        eval_at,
        needed: only_result(ph.needed),
        lateral: crate::relids::difference_list(
            crate::restriction::adjusted_set(ph.lateral, relid, None),
            eval_at,
        ),
        phrels: crate::restriction::adjusted_set(
            crate::restriction::adjusted_set(ph.phrels, relid, None),
            ojrelid,
            None,
        ),
        expr: crate::restriction::renamed(ph.expr, relid, None),
        ..ph
    }
}

/// The placeholders that stay.
pub open spec fn updated_placeholders(
    l: List<PlaceHolderUse>,
    relid: u32,
    ojrelid: u32,
    joinrelids: Relids,
) -> List<PlaceHolderUse>
    decreases l,
{
    match l {
        List::Nil => List::Nil,
        List::Cons(x, xs) => {
            let rest = updated_placeholders(*xs, relid, ojrelid, joinrelids);
            if placeholder_goes(x, relid, ojrelid, joinrelids) {
                rest
            } else {
                List::Cons(updated_placeholder(x, relid, ojrelid), Box::new(rest))
            }
        },
    }
}

fn update_placeholders(
    l: List<PlaceHolderUse>,
    relid: u32,
    ojrelid: u32,
    joinrelids: &Relids,
) -> (r: List<PlaceHolderUse>)
    ensures
        r == updated_placeholders(l, relid, ojrelid, *joinrelids),
    decreases l,
{
    match l {
        List::Nil => List::Nil,
        List::Cons(x, xs) => {
            let rest = update_placeholders(*xs, relid, ojrelid, joinrelids);
            let goes = relids_is_subset(&x.needed, joinrelids) && relids_is_member(
                relid,
                &x.eval_at,
            ) && !relids_is_member(ojrelid, &x.eval_at);
            if goes {
                return rest;
            }
            let mut x = x;
            let first = adjust_relid_set(&x.eval_at, relid, None);
            x.eval_at = adjust_relid_set(&first, ojrelid, None);
            x.needed = keep_result(&x.needed);
            let lateral = adjust_relid_set(&x.lateral, relid, None);
            x.lateral = relids_difference(&lateral, &x.eval_at);
            let phrels = adjust_relid_set(&x.phrels, relid, None);
            x.phrels = adjust_relid_set(&phrels, ojrelid, None);
            x.expr = rename_relation(x.expr, relid, None);
            List::Cons(x, Box::new(rest))
        },
    }
}

/// The columns, with only whether the result needs them.
pub open spec fn reset_needed(l: List<Relids>) -> List<Relids>
    decreases l,
{
    match l {
        List::Nil => List::Nil,
        List::Cons(x, xs) => List::Cons(only_result(x), Box::new(reset_needed(*xs))),
    }
}

/// Keeps only whether the result needs the columns.
pub fn keep_results(l: &List<Relids>) -> (r: List<Relids>)
    ensures
        r == reset_needed(*l),
    decreases l,
{
    match l {
        List::Nil => List::Nil,
        List::Cons(x, xs) => List::Cons(keep_result(x), Box::new(keep_results(xs))),
    }
}

/// The relations, with only whether the result needs their columns.
pub open spec fn reset_rels(l: List<BaseRel>) -> List<BaseRel>
    decreases l,
{
    match l {
        List::Nil => List::Nil,
        List::Cons(x, xs) => List::Cons(
            BaseRel { attr_needed: reset_needed(x.attr_needed), ..x },
            Box::new(reset_rels(*xs)),
        ),
    }
}

fn reset_all_rels(l: List<BaseRel>) -> (r: List<BaseRel>)
    ensures
        r == reset_rels(l),
    decreases l,
{
    match l {
        List::Nil => List::Nil,
        List::Cons(x, xs) => {
            let mut x = x;
            x.attr_needed = keep_results(&x.attr_needed);
            List::Cons(x, Box::new(reset_all_rels(*xs)))
        },
    }
}

/// The numbers without the first occurrence of one.
pub open spec fn without_first(l: List<u32>, id: u32) -> List<u32>
    decreases l,
{
    match l {
        List::Nil => List::Nil,
        List::Cons(x, xs) => if x == id {
            *xs
        } else {
            List::Cons(x, Box::new(without_first(*xs, id)))
        },
    }
}

fn remove_first(l: List<u32>, id: u32) -> (r: List<u32>)
    ensures
        r == without_first(l, id),
    decreases l,
{
    match l {
        List::Nil => List::Nil,
        List::Cons(x, xs) => if x == id {
            *xs
        } else {
            List::Cons(x, Box::new(remove_first(*xs, id)))
        },
    }
}

/// The relations without a join clause of theirs.
pub open spec fn without_clause(rels: List<BaseRel>, id: u32, required: Relids) -> List<BaseRel>
    decreases rels,
{
    match rels {
        List::Nil => List::Nil,
        List::Cons(x, xs) => List::Cons(
            if crate::relids::ids(required).contains(x.relid) {
                BaseRel { joininfo: without_first(x.joininfo, id), ..x }
            } else {
                x
            },
            Box::new(without_clause(*xs, id, required)),
        ),
    }
}

/// Removes a join clause from the relations that it is a clause of.
pub fn remove_join_clause_from_rels(rels: List<BaseRel>, id: u32, required: &Relids) -> (r: List<
    BaseRel,
>)
    ensures
        r == without_clause(rels, id, *required),
    decreases rels,
{
    match rels {
        List::Nil => List::Nil,
        List::Cons(x, xs) => {
            let rest = remove_join_clause_from_rels(*xs, id, required);
            let mut x = x;
            if relids_is_member(x.relid, required) {
                x.joininfo = remove_first(x.joininfo, id);
            }
            List::Cons(x, Box::new(rest))
        },
    }
}

/// The clauses, where the one with a number has lost a relation and a join.
pub open spec fn clause_stripped(l: List<Restriction>, id: u32, relid: u32, ojrelid: u32) -> List<
    Restriction,
>
    decreases l,
{
    match l {
        List::Nil => List::Nil,
        List::Cons(x, xs) => if x.id == id {
            List::Cons(crate::restriction::without_join(x, relid, ojrelid), xs)
        } else {
            List::Cons(x, Box::new(clause_stripped(*xs, id, relid, ojrelid)))
        },
    }
}

fn strip_clause(l: List<Restriction>, id: u32, relid: u32, ojrelid: u32) -> (r: List<Restriction>)
    ensures
        r == clause_stripped(l, id, relid, ojrelid),
    decreases l,
{
    match l {
        List::Nil => List::Nil,
        List::Cons(x, xs) => if x.id == id {
            List::Cons(remove_rel_from_restrictinfo(x, relid, ojrelid), xs)
        } else {
            List::Cons(x, Box::new(strip_clause(*xs, id, relid, ojrelid)))
        },
    }
}

/// What becomes of the join clauses of a removed relation: relations, clauses,
/// and the clauses that have to find a new place.
#[derive(Debug)]
pub struct ClauseChanges {
    pub rels: List<BaseRel>,
    pub clauses: List<Restriction>,
    pub moved: List<u32>,
}

/// What becomes of the join clauses of a removed relation. Those that belong to
/// the join go with it; those from above it lose the relation and find a new
/// place.
pub open spec fn clause_changes(
    numbers: List<u32>,
    rels: List<BaseRel>,
    clauses: List<Restriction>,
    joinrelids: Relids,
    relid: u32,
    ojrelid: u32,
) -> ClauseChanges
    decreases numbers,
{
    match numbers {
        List::Nil => ClauseChanges { rels, clauses, moved: List::Nil },
        List::Cons(i, is) => match clause_of(clauses, i) {
            None => clause_changes(*is, rels, clauses, joinrelids, relid, ojrelid),
            Some(c) => {
                let left = without_clause(rels, i, c.required_relids);
                if crate::restriction::is_pushed_down(c, joinrelids) {
                    let rest = clause_changes(
                        *is,
                        left,
                        clause_stripped(clauses, i, relid, ojrelid),
                        joinrelids,
                        relid,
                        ojrelid,
                    );
                    ClauseChanges { moved: List::Cons(i, Box::new(rest.moved)), ..rest }
                } else {
                    clause_changes(*is, left, clauses, joinrelids, relid, ojrelid)
                }
            },
        },
    }
}

fn change_clauses(
    numbers: &List<u32>,
    rels: List<BaseRel>,
    clauses: List<Restriction>,
    joinrelids: &Relids,
    relid: u32,
    ojrelid: u32,
) -> (r: ClauseChanges)
    ensures
        r == clause_changes(*numbers, rels, clauses, *joinrelids, relid, ojrelid),
    decreases numbers,
{
    match numbers {
        List::Nil => ClauseChanges { rels, clauses, moved: List::Nil },
        List::Cons(i, is) => {
            let (required, moves) = match find_clause(&clauses, *i) {
                None => {
                    return change_clauses(is, rels, clauses, joinrelids, relid, ojrelid);
                },
                Some(c) => (c.required_relids.copy(), rinfo_is_pushed_down(c, joinrelids)),
            };
            let left = remove_join_clause_from_rels(rels, *i, &required);
            if moves {
                let clauses = strip_clause(clauses, *i, relid, ojrelid);
                let rest = change_clauses(is, left, clauses, joinrelids, relid, ojrelid);
                ClauseChanges {
                    rels: rest.rels,
                    clauses: rest.clauses,
                    moved: List::Cons(*i, Box::new(rest.moved)),
                }
            } else {
                change_clauses(is, left, clauses, joinrelids, relid, ojrelid)
            }
        },
    }
}

/// The relations without one.
pub open spec fn without_base_rel(l: List<BaseRel>, relid: u32) -> List<BaseRel>
    decreases l,
{
    match l {
        List::Nil => List::Nil,
        List::Cons(x, xs) => if x.relid == relid {
            without_base_rel(*xs, relid)
        } else {
            List::Cons(x, Box::new(without_base_rel(*xs, relid)))
        },
    }
}

/// Removes a relation.
pub fn remove_base_rel(l: List<BaseRel>, relid: u32) -> (r: List<BaseRel>)
    ensures
        r == without_base_rel(l, relid),
    decreases l,
{
    match l {
        List::Nil => List::Nil,
        List::Cons(x, xs) => if x.relid == relid {
            remove_base_rel(*xs, relid)
        } else {
            List::Cons(x, Box::new(remove_base_rel(*xs, relid)))
        },
    }
}

/// The join clauses of a relation.
pub open spec fn joininfo_of(rels: List<BaseRel>, relid: u32) -> List<u32> {
    match rel_of(rels, relid) {
        Some(r) => r.joininfo,
        None => List::Nil,
    }
}

/// The joins that clauses belong to: the one that is removed and those that it
/// can change places with.
pub open spec fn commuting_relids(sj: SpecialJoin) -> Relids {
    crate::relids::union_list(
        crate::relids::union_list(join_relids(sj), sj.commute_above_r),
        sj.commute_below_l,
    )
}

/// The query without a left join and its inner relation, and the clauses that
/// have to find a new place.
pub open spec fn without_leftjoin(
    state: JoinState,
    at: usize,
    relid: u32,
    sj: SpecialJoin,
) -> (JoinState, List<u32>) {
    let oj = sj.ojrelid;
    let changes = clause_changes(
        joininfo_of(state.rels, relid),
        reset_rels(state.rels),
        state.clauses,
        commuting_relids(sj),
        relid,
        oj,
    );
    (
        JoinState {
            all_baserels: crate::relids::del(state.all_baserels, relid),
            all_query_rels: crate::relids::del(crate::relids::del(state.all_query_rels, relid), oj),
            outer_join_rels: crate::relids::del(state.outer_join_rels, oj),
            joins: stripped_joins(state.joins, at, relid, oj),
            placeholders: updated_placeholders(state.placeholders, relid, oj, join_relids(sj)),
            rels: without_base_rel(changes.rels, relid),
            clauses: changes.clauses,
        },
        changes.moved,
    )
}

/// Removes a left join and its inner relation from a query.
pub fn remove_leftjoinrel_from_query(
    state: JoinState,
    at: usize,
    relid: u32,
    sj: &SpecialJoin,
) -> (r: (JoinState, List<u32>))
    ensures
        r == without_leftjoin(state, at, relid, *sj),
{
    let oj: u32 = sj.ojrelid;
    let inputs = relids_union(&sj.min_lefthand, &sj.min_righthand);
    let joined = relids_add_member(&inputs, oj);
    let with_above = relids_union(&joined, &sj.commute_above_r);
    let commuting = relids_union(&with_above, &sj.commute_below_l);
    let numbers = match find_rel(&state.rels, relid) {
        Some(r) => r.joininfo.copy(),
        None => List::Nil,
    };
    let rels = reset_all_rels(state.rels);
    let changes = change_clauses(&numbers, rels, state.clauses, &commuting, relid, oj);
    let new = JoinState {
        all_baserels: relids_del_member(&state.all_baserels, relid),
        all_query_rels: del_both(&state.all_query_rels, relid, oj),
        outer_join_rels: relids_del_member(&state.outer_join_rels, oj),
        joins: strip_joins(state.joins, at, relid, oj),
        placeholders: update_placeholders(state.placeholders, relid, oj, &joined),
        rels: remove_base_rel(changes.rels, relid),
        clauses: changes.clauses,
    };
    (new, changes.moved)
}

/// The join at a place.
pub open spec fn join_at(l: List<SpecialJoin>, at: usize) -> Option<SpecialJoin>
    decreases l,
{
    match l {
        List::Nil => None,
        List::Cons(x, xs) => if at == 0 {
            Some(x)
        } else {
            join_at(*xs, (at - 1) as usize)
        },
    }
}

fn find_join(l: &List<SpecialJoin>, at: usize) -> (r: Option<&SpecialJoin>)
    ensures
        r is Some <==> join_at(*l, at) is Some,
        r matches Some(x) ==> join_at(*l, at) == Some(*x),
    decreases l,
{
    match l {
        List::Nil => None,
        List::Cons(x, xs) => if at == 0 {
            Some(x)
        } else {
            find_join(xs, at - 1)
        },
    }
}

fn copy_join(sj: &SpecialJoin) -> (r: SpecialJoin)
    ensures
        r == *sj,
{
    SpecialJoin {
        min_lefthand: sj.min_lefthand.copy(),
        min_righthand: sj.min_righthand.copy(),
        syn_lefthand: sj.syn_lefthand.copy(),
        syn_righthand: sj.syn_righthand.copy(),
        jointype: sj.jointype,
        ojrelid: sj.ojrelid,
        commute_above_l: sj.commute_above_l.copy(),
        commute_above_r: sj.commute_above_r.copy(),
        commute_below_l: sj.commute_below_l.copy(),
        commute_below_r: sj.commute_below_r.copy(),
        semi_rhs_exprs: crate::expr::copy_exprs(&sj.semi_rhs_exprs),
    }
}

/// A query after a join was removed: what it is made of, the order in which its
/// relations may be joined, and the clauses that have to find a new place. Of
/// where columns are needed only the result is left in it: before it may be
/// asked for other joins that can be removed, the rest has to be put back, as
/// `resume_search` does.
#[derive(Debug)]
pub struct Removal {
    pub state: JoinState,
    pub joinlist: List<Joinlist>,
    pub moved: List<u32>,
}

/// The query without the join at a place, if that contributes nothing.
/// `distinct` says that the inner relation is unique by the clauses that this
/// takes.
pub open spec fn without_useless_join(
    state: JoinState,
    joinlist: List<Joinlist>,
    at: usize,
    result_relation: u32,
    possible: bool,
    distinct: bool,
) -> Result<Option<Removal>, PlannerError> {
    match join_at(state.joins, at) {
        None => Ok(None),
        Some(sj) => if removal_clauses(state, sj, result_relation, possible) is None || !distinct {
            Ok(None)
        } else {
            let inner = crate::relids::the_only(sj.min_righthand)->0;
            if occurrences(joinlist, inner) != 1 {
                Err(PlannerError::RelationNotInJoinlist)
            } else {
                let (new, moved) = without_leftjoin(state, at, inner, sj);
                Ok(Some(Removal { state: new, joinlist: without_rel(joinlist, inner), moved }))
            }
        },
    }
}

/// Removes the join at a place from a query, if that contributes nothing. A
/// removal may make others possible, so that all joins have to be looked at
/// again after it.
pub fn remove_useless_joins(
    state: JoinState,
    joinlist: List<Joinlist>,
    at: usize,
    result_relation: u32,
    possible: bool,
    distinct: bool,
) -> (r: Result<Option<Removal>, PlannerError>)
    ensures
        r == without_useless_join(state, joinlist, at, result_relation, possible, distinct),
{
    let sj = match find_join(&state.joins, at) {
        None => {
            return Ok(None);
        },
        Some(j) => copy_join(j),
    };
    if !distinct {
        return Ok(None);
    }
    if join_is_removable(&state, &sj, result_relation, possible).is_none() {
        return Ok(None);
    }
    match relids_singleton_member(&sj.min_righthand) {
        None => Ok(None),
        Some(inner) => {
            let (left, n) = remove_rel_from_joinlist(joinlist, inner);
            if n != 1 {
                return Err(PlannerError::RelationNotInJoinlist);
            }
            let (new, moved) = remove_leftjoinrel_from_query(state, at, inner, &sj);
            Ok(Some(Removal { state: new, joinlist: left, moved }))
        },
    }
}

/// After a join was removed, neither its inner relation nor the join itself is
/// part of the query, and no other relation is lost from the order of joining.
pub proof fn lemma_join_removed(
    state: JoinState,
    joinlist: List<Joinlist>,
    at: usize,
    result_relation: u32,
)
    requires
        without_useless_join(state, joinlist, at, result_relation, true, true) matches Ok(Some(_)),
    ensures
        ({
            let sj = join_at(state.joins, at)->0;
            let inner = crate::relids::the_only(sj.min_righthand)->0;
            let new = without_useless_join(
                state,
                joinlist,
                at,
                result_relation,
                true,
                true,
            )->Ok_0->0;
            &&& list_rels(new.joinlist) =~= list_rels(joinlist).remove(inner)
            &&& crate::relids::ids(new.state.all_query_rels) =~= crate::relids::ids(
                state.all_query_rels,
            ).remove(inner).remove(sj.ojrelid)
            &&& crate::relids::ids(new.state.all_baserels) =~= crate::relids::ids(
                state.all_baserels,
            ).remove(inner)
            &&& inner != result_relation
        }),
{
    let sj = join_at(state.joins, at)->0;
    let inner = crate::relids::the_only(sj.min_righthand)->0;
    lemma_without_rel(joinlist, inner);
    crate::relids::lemma_del(state.all_query_rels, inner);
    crate::relids::lemma_del(crate::relids::del(state.all_query_rels, inner), sj.ojrelid);
    crate::relids::lemma_del(state.all_baserels, inner);
}

/// What is known of a semijoin: whether its inner relation might be unique at
/// all, and whether it is.
#[derive(Clone, Copy, Debug, PartialEq, Eq, Structural)]
pub struct SemiFacts {
    pub possible: bool,
    pub unique: bool,
}

/// A semijoin whose inner side is a single unique relation: it is as good as
/// an ordinary join.
pub open spec fn is_plain_semijoin(sj: SpecialJoin, f: SemiFacts) -> bool {
    sj.jointype == JoinType::Semi && crate::relids::the_only(sj.min_righthand) is Some
        && f.possible && f.unique
}

/// The joins without the semijoins that are as good as ordinary joins.
pub open spec fn without_plain_semijoins(l: List<SpecialJoin>, facts: List<SemiFacts>) -> List<
    SpecialJoin,
>
    decreases l,
{
    match l {
        List::Nil => List::Nil,
        List::Cons(x, xs) => match facts {
            List::Nil => l,
            List::Cons(f, fs) => if is_plain_semijoin(x, f) {
                without_plain_semijoins(*xs, *fs)
            } else {
                List::Cons(x, Box::new(without_plain_semijoins(*xs, *fs)))
            },
        },
    }
}

/// Makes semijoins whose inner side is unique ordinary joins.
pub fn reduce_unique_semijoins(l: List<SpecialJoin>, facts: &List<SemiFacts>) -> (r: List<
    SpecialJoin,
>)
    ensures
        r == without_plain_semijoins(l, *facts),
    decreases l,
{
    match l {
        List::Nil => List::Nil,
        List::Cons(x, xs) => match facts {
            List::Nil => List::Cons(x, xs),
            List::Cons(f, fs) => {
                let plain = x.jointype == JoinType::Semi && relids_singleton_member(
                    &x.min_righthand,
                ).is_some() && f.possible && f.unique;
                let rest = reduce_unique_semijoins(*xs, fs);
                if plain {
                    rest
                } else {
                    List::Cons(x, Box::new(rest))
                }
            },
        },
    }
}

/// A copy of the clauses, and others after them.
fn copy_before(l: &List<Restriction>, others: List<Restriction>) -> (r: List<Restriction>)
    ensures
        r == l.then_list(others),
    decreases l,
{
    match l {
        List::Nil => others,
        List::Cons(x, xs) => List::Cons(x.copy(), Box::new(copy_before(xs, others))),
    }
}

/// The inner relation of a semijoin, where it is a single one.
pub open spec fn semijoin_inner(sj: SpecialJoin) -> Option<u32> {
    if sj.jointype == JoinType::Semi {
        crate::relids::the_only(sj.min_righthand)
    } else {
        None
    }
}

/// Finds the inner relation of a semijoin, where it is a single one.
pub fn find_semijoin_inner(sj: &SpecialJoin) -> (r: Option<u32>)
    ensures
        r == semijoin_inner(*sj),
{
    if sj.jointype != JoinType::Semi {
        return None;
    }
    relids_singleton_member(&sj.min_righthand)
}

/// The clauses that hold of a semijoin: the equalities that equivalence classes
/// imply between its two sides, then the join clauses of its inner relation.
pub open spec fn semijoin_restrictions(
    state: JoinState,
    inner: u32,
    implied: List<Restriction>,
) -> List<Restriction> {
    implied.then_list(clauses_of(state.clauses, joininfo_of(state.rels, inner)))
}

/// The clauses by which the inner relation of a semijoin has to be unique.
pub open spec fn semijoin_clauses(
    state: JoinState,
    sj: SpecialJoin,
    inner: u32,
    implied: List<Restriction>,
) -> List<UsableClause> {
    crate::distinctness::usable_clauses(
        semijoin_restrictions(state, inner, implied),
        JoinType::Semi,
        input_relids(sj),
        sj.min_lefthand,
        List::Cons(inner, Box::new(List::Nil)),
    )
}

fn list_semijoin_restrictions(
    state: &JoinState,
    inner: u32,
    implied: &List<Restriction>,
) -> (r: List<Restriction>)
    ensures
        r == semijoin_restrictions(*state, inner, *implied),
{
    let own = match find_rel(&state.rels, inner) {
        Some(rel) => find_clauses(&state.clauses, &rel.joininfo),
        None => List::Nil,
    };
    copy_before(implied, own)
}

/// Finds the clauses by which the inner relation of a semijoin has to be unique.
pub fn find_semijoin_clauses(
    state: &JoinState,
    sj: &SpecialJoin,
    inner: u32,
    implied: &List<Restriction>,
) -> (r: List<UsableClause>)
    requires
        rel_of(state.rels, inner) is Some,
    ensures
        r == semijoin_clauses(*state, *sj, inner, *implied),
{
    let clauses = list_semijoin_restrictions(state, inner, implied);
    let inputs = relids_union(&sj.min_lefthand, &sj.min_righthand);
    let inner_relids: Relids = List::one(inner);
    select_usable_clauses(&clauses, JoinType::Semi, &inputs, &sj.min_lefthand, &inner_relids)
}

/// What is known of a semijoin after a look at it, and what has been found out
/// about its inner relation then. What is known of the relation beforehand
/// answers first; where that does not, a proof is tried, and its outcome is
/// remembered either way. `index_says` is what the unique indexes of a table say
/// of the clauses of `semijoin_clauses`.
pub open spec fn after_semijoin_look(
    state: JoinState,
    sj: SpecialJoin,
    implied: List<Restriction>,
    inner: RelFacts,
    index_says: bool,
    facts: EqualityFacts,
    cache: UniqueCache,
) -> Result<(SemiFacts, UniqueCache), PlannerError> {
    let possible = crate::distinctness::rel_distinct_possible(inner);
    match semijoin_inner(sj) {
        None => Ok((SemiFacts { possible, unique: false }, cache)),
        Some(relid) => match crate::distinctness::cached_answer(
            cache,
            possible,
            !(semijoin_restrictions(state, relid, implied) is Nil),
            sj.min_lefthand,
            false,
        ) {
            UniqueAnswer::Unique(_) => Ok((SemiFacts { possible, unique: true }, cache)),
            UniqueAnswer::NotUnique => Ok((SemiFacts { possible, unique: false }, cache)),
            UniqueAnswer::Unknown => match crate::distinctness::rel_distinct_for(
                inner,
                crate::scanplan::varno_of(relid),
                semijoin_clauses(state, sj, relid, implied),
                index_says,
                facts,
            ) {
                Err(e) => Err(e),
                Ok(unique) => Ok(
                    (
                        SemiFacts { possible, unique },
                        crate::distinctness::remembered(
                            cache,
                            sj.min_lefthand,
                            false,
                            if unique {
                                Some(List::Nil)
                            } else {
                                None
                            },
                            true,
                        ),
                    ),
                ),
            },
        },
    }
}

/// Looks at a semijoin, for `reduce_unique_semijoins`: has its inner relation at
/// most one row for each outer row? `implied` are the equalities that equivalence
/// classes imply between its two sides, and `cache` is what is known of the inner
/// relation.
pub fn look_at_semijoin(
    state: &JoinState,
    sj: &SpecialJoin,
    implied: &List<Restriction>,
    inner: &RelFacts,
    index_says: bool,
    facts: &EqualityFacts,
    cache: UniqueCache,
) -> (r: Result<(SemiFacts, UniqueCache), PlannerError>)
    requires
        semijoin_inner(*sj) matches Some(relid) ==> rel_of(state.rels, relid) is Some,
    ensures
        r == after_semijoin_look(*state, *sj, *implied, *inner, index_says, *facts, cache),
{
    let possible = rel_supports_distinctness(inner);
    let relid: u32 = match find_semijoin_inner(sj) {
        None => {
            return Ok((SemiFacts { possible, unique: false }, cache));
        },
        Some(x) => x,
    };
    let has_clauses = !list_semijoin_restrictions(state, relid, implied).is_nil();
    let mut proved = false;
    match find_cached_answer(&cache, possible, has_clauses, &sj.min_lefthand, false) {
        UniqueAnswer::Unknown => {
            let clauses = find_semijoin_clauses(state, sj, relid, implied);
            let varno: i32 = find_varno(relid);
            match rel_is_distinct_for(inner, varno, &clauses, index_says, facts) {
                Err(e) => {
                    return Err(e);
                },
                Ok(d) => {
                    proved = d;
                },
            }
        },
        _ => {},
    }
    let (unique, cache) = innerrel_is_unique(
        cache,
        possible,
        has_clauses,
        &sj.min_lefthand,
        true,
        proved,
    );
    Ok((SemiFacts { possible, unique }, cache))
}

/// A semijoin that becomes an ordinary join has an inner relation that might be
/// unique, and clauses; and the relation is known to be unique from then on.
pub proof fn lemma_plain_semijoin(
    state: JoinState,
    sj: SpecialJoin,
    implied: List<Restriction>,
    inner: RelFacts,
    index_says: bool,
    facts: EqualityFacts,
    cache: UniqueCache,
)
    ensures
        match after_semijoin_look(state, sj, implied, inner, index_says, facts, cache) {
            Ok(r) => is_plain_semijoin(sj, r.0) ==> {
                &&& crate::distinctness::rel_distinct_possible(inner)
                &&& (semijoin_inner(sj) matches Some(relid) && !(semijoin_restrictions(
                    state,
                    relid,
                    implied,
                ) is Nil))
                &&& crate::distinctness::known_unique(r.1.unique, sj.min_lefthand, false) is Some
            },
            Err(_) => true,
        },
{
    crate::distinctness::lemma_unique_remembered(
        cache,
        sj.min_lefthand,
        false,
        Some(List::Nil),
        true,
        sj.min_lefthand,
        false,
    );
}

/// Where the columns that placeholders are computed from are needed: where the
/// placeholders are computed.
pub open spec fn placeholder_needs(l: List<PlaceHolderUse>) -> List<(List<Expr>, Relids)>
    decreases l,
{
    match l {
        List::Nil => List::Nil,
        List::Cons(x, xs) => {
            let rest = placeholder_needs(*xs);
            let sources = crate::targets::pulled(x.expr, false, false);
            if sources is Nil {
                rest
            } else {
                List::Cons((sources, x.eval_at), Box::new(rest))
            }
        },
    }
}

/// Finds where the columns that placeholders are computed from are needed.
pub fn rebuild_placeholder_attr_needed(l: &List<PlaceHolderUse>) -> (r: List<(List<Expr>, Relids)>)
    ensures
        r == placeholder_needs(*l),
    decreases l,
{
    match l {
        List::Nil => List::Nil,
        List::Cons(x, xs) => {
            let rest = rebuild_placeholder_attr_needed(xs);
            let sources = pull_agg_input_vars(&x.expr);
            if sources.is_nil() {
                rest
            } else {
                List::Cons((sources, x.eval_at.copy()), Box::new(rest))
            }
        },
    }
}

/// The relations that are in both sets.
pub open spec fn common(a: Relids, b: Relids) -> Relids {
    crate::relids::difference_list(a, crate::relids::difference_list(a, b))
}

/// Where the columns of join clauses are needed: those of each clause, by its
/// number, at the relations that it concerns. Copies of a clause are needed at
/// tables only; of other clauses that occur more than once, the first counts.
pub open spec fn clause_needs(
    clauses: List<Restriction>,
    all_baserels: Relids,
    seen: List<i32>,
) -> List<(u32, Relids)>
    decreases clauses,
{
    match clauses {
        List::Nil => List::Nil,
        List::Cons(c, cs) => if !c.is_clone && seen@.contains(c.serial) {
            clause_needs(*cs, all_baserels, seen)
        } else {
            let seen = if c.is_clone {
                seen
            } else {
                List::Cons(c.serial, Box::new(seen))
            };
            let rest = clause_needs(*cs, all_baserels, seen);
            if crate::relids::is_multiple(c.required_relids) {
                List::Cons(
                    (
                        c.id,
                        if c.is_clone {
                            common(c.required_relids, all_baserels)
                        } else {
                            c.required_relids
                        },
                    ),
                    Box::new(rest),
                )
            } else {
                rest
            }
        },
    }
}

/// Finds where the columns of join clauses are needed.
pub fn rebuild_joinclause_attr_needed(
    clauses: &List<Restriction>,
    all_baserels: &Relids,
    seen: List<i32>,
) -> (r: List<(u32, Relids)>)
    ensures
        r == clause_needs(*clauses, *all_baserels, seen),
    decreases clauses,
{
    match clauses {
        List::Nil => List::Nil,
        List::Cons(c, cs) => {
            if !c.is_clone && crate::list::has_number(&seen, c.serial) {
                return rebuild_joinclause_attr_needed(cs, all_baserels, seen);
            }
            let seen = if c.is_clone {
                seen
            } else {
                List::Cons(c.serial, Box::new(seen))
            };
            let rest = rebuild_joinclause_attr_needed(cs, all_baserels, seen);
            if relids_is_multiple(&c.required_relids) {
                let at = if c.is_clone {
                    let others = relids_difference(&c.required_relids, all_baserels);
                    relids_difference(&c.required_relids, &others)
                } else {
                    c.required_relids.copy()
                };
                List::Cons((c.id, at), Box::new(rest))
            } else {
                rest
            }
        },
    }
}

/// The columns, where one is needed at more relations.
pub open spec fn with_needed_at(l: List<Relids>, i: nat, at: Relids) -> List<Relids>
    decreases l,
{
    match l {
        List::Nil => List::Nil,
        List::Cons(x, xs) => if i == 0 {
            List::Cons(crate::relids::union_list(x, at), xs)
        } else {
            List::Cons(x, Box::new(with_needed_at(*xs, (i - 1) as nat, at)))
        },
    }
}

fn add_needed_at(l: List<Relids>, i: u32, at: &Relids) -> (r: List<Relids>)
    ensures
        r == with_needed_at(l, i as nat, *at),
    decreases l,
{
    match l {
        List::Nil => List::Nil,
        List::Cons(x, xs) => if i == 0 {
            List::Cons(relids_union(&x, at), xs)
        } else {
            List::Cons(x, Box::new(add_needed_at(*xs, i - 1, at)))
        },
    }
}

/// The relations, where a column is needed at more relations.
pub open spec fn with_column_need(rels: List<BaseRel>, varno: i32, attno: i16, at: Relids) -> List<
    BaseRel,
>
    decreases rels,
{
    match rels {
        List::Nil => List::Nil,
        List::Cons(x, xs) => if x.relid == varno {
            List::Cons(
                BaseRel {
                    attr_needed: if attno >= x.min_attr {
                        with_needed_at(x.attr_needed, (attno - x.min_attr) as nat, at)
                    } else {
                        x.attr_needed
                    },
                    ..x
                },
                xs,
            )
        } else {
            List::Cons(x, Box::new(with_column_need(*xs, varno, attno, at)))
        },
    }
}

fn add_column_need(rels: List<BaseRel>, varno: i32, attno: i16, at: &Relids) -> (r: List<BaseRel>)
    ensures
        r == with_column_need(rels, varno, attno, *at),
    decreases rels,
{
    match rels {
        List::Nil => List::Nil,
        List::Cons(x, xs) => if varno >= 0 && x.relid == varno as u32 {
            let mut x = x;
            if attno >= x.min_attr {
                let i: u32 = (attno as i32 - x.min_attr as i32) as u32;
                x.attr_needed = add_needed_at(x.attr_needed, i, at);
            }
            List::Cons(x, xs)
        } else {
            List::Cons(x, Box::new(add_column_need(*xs, varno, attno, at)))
        },
    }
}

/// The placeholders, where one is needed at more relations.
pub open spec fn with_placeholder_need(l: List<PlaceHolderUse>, phid: u32, at: Relids) -> List<
    PlaceHolderUse,
>
    decreases l,
{
    match l {
        List::Nil => List::Nil,
        List::Cons(x, xs) => if x.phid == phid {
            List::Cons(
                PlaceHolderUse { needed: crate::relids::union_list(x.needed, at), ..x },
                xs,
            )
        } else {
            List::Cons(x, Box::new(with_placeholder_need(*xs, phid, at)))
        },
    }
}

fn add_placeholder_need(l: List<PlaceHolderUse>, phid: u32, at: &Relids) -> (r: List<
    PlaceHolderUse,
>)
    ensures
        r == with_placeholder_need(l, phid, *at),
    decreases l,
{
    match l {
        List::Nil => List::Nil,
        List::Cons(x, xs) => if x.phid == phid {
            let mut x = x;
            x.needed = relids_union(&x.needed, at);
            List::Cons(x, xs)
        } else {
            List::Cons(x, Box::new(add_placeholder_need(*xs, phid, at)))
        },
    }
}

/// The query, where columns and placeholders are needed at more relations.
pub open spec fn with_vars_need(state: JoinState, vars: List<Expr>, at: Relids) -> JoinState
    decreases vars,
{
    match vars {
        List::Nil => state,
        List::Cons(x, xs) => with_vars_need(
            match x {
                Expr::Var(v) => JoinState {
                    rels: with_column_need(state.rels, v.varno, v.attno, at),
                    ..state
                },
                Expr::PlaceHolder { phid, levelsup, nullingrels, eval_at, expr } => JoinState {
                    placeholders: with_placeholder_need(state.placeholders, phid, at),
                    ..state
                },
                _ => state,
            },
            *xs,
            at,
        ),
    }
}

/// Notes that columns and placeholders are needed at more relations.
pub fn add_vars_to_attr_needed(state: JoinState, vars: &List<Expr>, at: &Relids) -> (r: JoinState)
    ensures
        r == with_vars_need(state, *vars, *at),
    decreases vars,
{
    match vars {
        List::Nil => state,
        List::Cons(x, xs) => {
            let mut state = state;
            match x {
                Expr::Var(v) => {
                    state.rels = add_column_need(state.rels, v.varno, v.attno, at);
                },
                Expr::PlaceHolder { phid, .. } => {
                    state.placeholders = add_placeholder_need(state.placeholders, *phid, at);
                },
                _ => {},
            }
            add_vars_to_attr_needed(state, xs, at)
        },
    }
}

/// The query, with needs of several places.
pub open spec fn with_needs(state: JoinState, needs: List<(List<Expr>, Relids)>) -> JoinState
    decreases needs,
{
    match needs {
        List::Nil => state,
        List::Cons(n, ns) => with_needs(with_vars_need(state, n.0, n.1), *ns),
    }
}

fn add_needs(state: JoinState, needs: &List<(List<Expr>, Relids)>) -> (r: JoinState)
    ensures
        r == with_needs(state, *needs),
    decreases needs,
{
    match needs {
        List::Nil => state,
        List::Cons(n, ns) => {
            let next = add_vars_to_attr_needed(state, &n.0, &n.1);
            add_needs(next, ns)
        },
    }
}

/// The join clauses of all relations, in the order of the relations.
pub open spec fn all_join_clauses(rels: List<BaseRel>, clauses: List<Restriction>) -> List<
    Restriction,
>
    decreases rels,
{
    match rels {
        List::Nil => List::Nil,
        List::Cons(x, xs) => clauses_of(clauses, x.joininfo).then_list(
            all_join_clauses(*xs, clauses),
        ),
    }
}

fn collect_join_clauses(rels: &List<BaseRel>, clauses: &List<Restriction>) -> (r: List<Restriction>)
    ensures
        r == all_join_clauses(*rels, *clauses),
    decreases rels,
{
    match rels {
        List::Nil => List::Nil,
        List::Cons(x, xs) => find_clauses(clauses, &x.joininfo).append(
            collect_join_clauses(xs, clauses),
        ),
    }
}

/// Where the columns that join clauses refer to are needed.
pub open spec fn clause_column_needs(l: List<(u32, Relids)>, clauses: List<Restriction>) -> List<
    (List<Expr>, Relids),
>
    decreases l,
{
    match l {
        List::Nil => List::Nil,
        List::Cons(x, xs) => {
            let rest = clause_column_needs(*xs, clauses);
            match clause_of(clauses, x.0) {
                Some(c) => List::Cons(
                    (crate::targets::pulled(c.clause, false, false), x.1),
                    Box::new(rest),
                ),
                None => rest,
            }
        },
    }
}

fn find_clause_column_needs(l: List<(u32, Relids)>, clauses: &List<Restriction>) -> (r: List<
    (List<Expr>, Relids),
>)
    ensures
        r == clause_column_needs(l, *clauses),
    decreases l,
{
    match l {
        List::Nil => List::Nil,
        List::Cons(x, xs) => {
            let rest = find_clause_column_needs(*xs, clauses);
            match find_clause(clauses, x.0) {
                Some(c) => List::Cons((pull_agg_input_vars(&c.clause), x.1), Box::new(rest)),
                None => rest,
            }
        },
    }
}

/// The query with all needs of its columns and placeholders: those of
/// placeholders, those of join clauses, and those that equivalence classes and
/// lateral references have, which are given.
pub open spec fn with_all_needs(
    state: JoinState,
    others: List<(List<Expr>, Relids)>,
) -> JoinState {
    let clause_part = clause_column_needs(
        clause_needs(
            all_join_clauses(state.rels, state.clauses),
            state.all_baserels,
            List::Nil,
        ),
        state.clauses,
    );
    with_needs(
        with_needs(with_needs(state, placeholder_needs(state.placeholders)), clause_part),
        others,
    )
}

/// Puts the needs of columns and placeholders back into a query in which only
/// those of the result are left.
pub fn rebuild_attr_needed(state: JoinState, others: &List<(List<Expr>, Relids)>) -> (r: JoinState)
    ensures
        r == with_all_needs(state, *others),
{
    let by_placeholders = rebuild_placeholder_attr_needed(&state.placeholders);
    let joining = collect_join_clauses(&state.rels, &state.clauses);
    let by_clauses = rebuild_joinclause_attr_needed(&joining, &state.all_baserels, List::Nil);
    let by_clauses = find_clause_column_needs(by_clauses, &state.clauses);
    let state = add_needs(state, &by_placeholders);
    let state = add_needs(state, &by_clauses);
    add_needs(state, others)
}

/// The search for outer joins that contribute nothing.
#[derive(Debug)]
pub enum JoinSearch {
    /// The join at a place is to be looked at.
    Looking { state: JoinState, joinlist: List<Joinlist>, at: usize },
    /// A join was removed; the search goes on with `resume_search`.
    Removed(Removal),
    /// No join is left that can be removed.
    Done { state: JoinState, joinlist: List<Joinlist> },
}

/// The search at a place, or its end.
pub open spec fn looking_at(state: JoinState, joinlist: List<Joinlist>, at: usize) -> JoinSearch {
    if join_at(state.joins, at) is Some {
        JoinSearch::Looking { state, joinlist, at }
    } else {
        JoinSearch::Done { state, joinlist }
    }
}

/// Looks at the join at a place, or ends the search.
pub fn look_at(state: JoinState, joinlist: List<Joinlist>, at: usize) -> (r: JoinSearch)
    ensures
        r == looking_at(state, joinlist, at),
{
    if find_join(&state.joins, at).is_some() {
        JoinSearch::Looking { state, joinlist, at }
    } else {
        JoinSearch::Done { state, joinlist }
    }
}

/// The search after a look at a join: whether its inner relation might be
/// unique, and whether it is unique by the clauses of `join_is_removable`, is
/// given.
pub open spec fn after_look(
    s: JoinSearch,
    result_relation: u32,
    possible: bool,
    distinct: bool,
) -> Result<JoinSearch, PlannerError> {
    match s {
        JoinSearch::Looking { state, joinlist, at } => match without_useless_join(
            state,
            joinlist,
            at,
            result_relation,
            possible,
            distinct,
        ) {
            Err(e) => Err(e),
            Ok(Some(r)) => Ok(JoinSearch::Removed(r)),
            Ok(None) => Ok(
                if at < usize::MAX {
                    looking_at(state, joinlist, (at + 1) as usize)
                } else {
                    JoinSearch::Done { state, joinlist }
                },
            ),
        },
        _ => Ok(s),
    }
}

/// Takes a look at a join into account.
pub fn search_useless_joins(
    s: JoinSearch,
    result_relation: u32,
    possible: bool,
    distinct: bool,
) -> (r: Result<JoinSearch, PlannerError>)
    ensures
        r == after_look(s, result_relation, possible, distinct),
{
    match s {
        JoinSearch::Looking { state, joinlist, at } => {
            let goes = match find_join(&state.joins, at) {
                None => false,
                Some(sj) => distinct && join_is_removable(
                    &state,
                    sj,
                    result_relation,
                    possible,
                ).is_some(),
            };
            if !goes {
                if at < usize::MAX {
                    return Ok(look_at(state, joinlist, at + 1));
                }
                return Ok(JoinSearch::Done { state, joinlist });
            }
            match remove_useless_joins(state, joinlist, at, result_relation, possible, distinct) {
                Err(e) => Err(e),
                Ok(Some(r)) => Ok(JoinSearch::Removed(r)),
                Ok(None) => {
                    proof {
                        assert(false);
                    }
                    Err(PlannerError::RelationNotInJoinlist)
                },
            }
        },
        other => Ok(other),
    }
}

/// The search after a look at a join, given what is known of its inner relation:
/// `index_says` is what the unique indexes of a table say of the clauses of
/// `join_is_removable`.
pub open spec fn after_join_look(
    s: JoinSearch,
    result_relation: u32,
    inner: RelFacts,
    index_says: bool,
    facts: EqualityFacts,
) -> Result<JoinSearch, PlannerError> {
    let possible = crate::distinctness::rel_distinct_possible(inner);
    match s {
        JoinSearch::Looking { state, joinlist, at } => match join_at(state.joins, at) {
            Some(sj) => match (
                removal_clauses(state, sj, result_relation, possible),
                crate::relids::the_only(sj.min_righthand),
            ) {
                (Some(clauses), Some(relid)) => match crate::distinctness::rel_distinct_for(
                    inner,
                    crate::scanplan::varno_of(relid),
                    clauses,
                    index_says,
                    facts,
                ) {
                    Err(e) => Err(e),
                    Ok(distinct) => after_look(s, result_relation, possible, distinct),
                },
                _ => after_look(s, result_relation, possible, false),
            },
            None => after_look(s, result_relation, possible, false),
        },
        _ => Ok(s),
    }
}

/// Looks at a join: it is removed where nothing above it needs its inner
/// relation, and that has at most one row for each outer row.
pub fn look_at_join(
    s: JoinSearch,
    result_relation: u32,
    inner: &RelFacts,
    index_says: bool,
    facts: &EqualityFacts,
) -> (r: Result<JoinSearch, PlannerError>)
    ensures
        r == after_join_look(s, result_relation, *inner, index_says, *facts),
{
    let possible = rel_supports_distinctness(inner);
    let mut distinct = false;
    match &s {
        JoinSearch::Looking { state, at, .. } => {
            if let Some(sj) = find_join(&state.joins, *at) {
                if let Some(clauses) = join_is_removable(state, sj, result_relation, possible) {
                    if let Some(relid) = relids_singleton_member(&sj.min_righthand) {
                        let varno: i32 = find_varno(relid);
                        match rel_is_distinct_for(inner, varno, &clauses, index_says, facts) {
                            Err(e) => {
                                return Err(e);
                            },
                            Ok(d) => {
                                distinct = d;
                            },
                        }
                    }
                }
            }
        },
        _ => {},
    }
    search_useless_joins(s, result_relation, possible, distinct)
}

/// The search after a removal: `state` is the query once the clauses that were
/// moved have found a new place. The needs of its columns are put back, and all
/// joins are looked at again.
pub fn resume_search(
    state: JoinState,
    joinlist: List<Joinlist>,
    others: &List<(List<Expr>, Relids)>,
) -> (r: JoinSearch)
    ensures
        r == looking_at(with_all_needs(state, *others), joinlist, 0),
{
    let state = rebuild_attr_needed(state, others);
    look_at(state, joinlist, 0)
}

proof fn lemma_stripped_length(l: List<SpecialJoin>, at: usize, relid: u32, ojrelid: u32)
    requires
        join_at(l, at) is Some,
    ensures
        stripped_joins(l, at, relid, ojrelid)@.len() + 1 == l@.len(),
    decreases l,
{
    if let List::Cons(_, xs) = l {
        assert(l@.len() == xs@.len() + 1);
        if at == 0 {
            lemma_all_stripped_length(*xs, relid, ojrelid);
        } else {
            lemma_stripped_length(*xs, (at - 1) as usize, relid, ojrelid);
        }
    }
}

proof fn lemma_all_stripped_length(l: List<SpecialJoin>, relid: u32, ojrelid: u32)
    ensures
        all_stripped(l, relid, ojrelid)@.len() == l@.len(),
    decreases l,
{
    match l {
        List::Nil => {
            let none: List<SpecialJoin> = List::Nil;
            assert(none@.len() == 0);
        },
        List::Cons(_, xs) => {
            lemma_all_stripped_length(*xs, relid, ojrelid);
        },
    }
}

/// Every removal takes one join away, and every other look goes on to the next
/// join, so the search comes to an end.
pub proof fn lemma_search_progress(
    s: JoinSearch,
    result_relation: u32,
    possible: bool,
    distinct: bool,
)
    ensures
        s matches JoinSearch::Looking { state, joinlist, at } ==> match after_look(
            s,
            result_relation,
            possible,
            distinct,
        ) {
            Ok(JoinSearch::Removed(r)) => r.state.joins@.len() + 1 == state.joins@.len(),
            Ok(JoinSearch::Looking { state: next, joinlist: l, at: place }) => next == state && l
                == joinlist && place == at + 1,
            Ok(JoinSearch::Done { state: last, joinlist: l }) => last == state && l == joinlist,
            Err(_) => true,
        },
{
    if let JoinSearch::Looking { state, joinlist, at } = s {
        if let Ok(JoinSearch::Removed(r)) = after_look(s, result_relation, possible, distinct) {
            let sj = join_at(state.joins, at)->0;
            let inner = crate::relids::the_only(sj.min_righthand)->0;
            lemma_stripped_length(state.joins, at, inner, sj.ojrelid);
        }
    }
}

/// Whatever is in the set is in the inputs of the join.
pub open spec fn within_inputs(l: Relids, sj: SpecialJoin) -> bool {
    forall|m: u32| #[trigger]
        l@.contains(m) ==> sj.min_lefthand@.contains(m) || sj.min_righthand@.contains(m)
}

/// The placeholder can do without the inner relation of a join: it does not
/// refer to it from the side, and it is not computed there, or is of no use
/// above the join, or is computed at the join from something else.
pub open spec fn placeholder_spares(ph: PlaceHolderUse, inner: u32, sj: SpecialJoin) -> bool {
    &&& !ph.lateral@.contains(inner)
    &&& {
        ||| !ph.eval_at@.contains(inner)
        ||| within_inputs(ph.needed, sj)
        ||| {
            &&& ph.eval_at@.contains(sj.ojrelid)
            &&& exists|m: u32| #[trigger]
                sj.min_lefthand@.contains(m) && ph.eval_at@.contains(m)
            &&& !crate::clausesel::varnos(ph.expr)@.contains(inner)
        }
    }
}

/// A join adds nothing but rows: it is a left join with a single inner relation
/// that the query does not change, no column of that is needed anywhere but in
/// the inputs of the join, and every placeholder can do without it.
pub open spec fn adds_only_rows(
    state: JoinState,
    sj: SpecialJoin,
    inner: u32,
    r: int,
    result_relation: u32,
) -> bool {
    &&& sj.jointype is Left
    &&& forall|m: u32| #[trigger] sj.min_righthand@.contains(m) <==> m == inner
    &&& inner != result_relation
    &&& 0 <= r < state.rels@.len()
    &&& state.rels@[r].relid == inner
    &&& forall|q: int| 0 <= q < r ==> (#[trigger] state.rels@[q]).relid != inner
    &&& forall|i: int|
        0 <= i < state.rels@[r].attr_needed@.len() ==> within_inputs(
            #[trigger] state.rels@[r].attr_needed@[i],
            sj,
        )
    &&& forall|h: int|
        0 <= h < state.placeholders@.len() ==> placeholder_spares(
            #[trigger] state.placeholders@[h],
            inner,
            sj,
        )
}

proof fn lemma_within_inputs(l: Relids, sj: SpecialJoin)
    ensures
        within_inputs(l, sj) <==> crate::relids::ids(l).subset_of(
            crate::relids::ids(input_relids(sj)),
        ),
{
    crate::relids::lemma_union_list(sj.min_lefthand, sj.min_righthand);
    if within_inputs(l, sj) {
        assert forall|m: u32| crate::relids::ids(l).contains(m) implies crate::relids::ids(
            input_relids(sj),
        ).contains(m) by {
            assert(l@.contains(m));
        }
    }
    if crate::relids::ids(l).subset_of(crate::relids::ids(input_relids(sj))) {
        assert forall|m: u32| #[trigger] l@.contains(m) implies sj.min_lefthand@.contains(m)
            || sj.min_righthand@.contains(m) by {
            assert(crate::relids::ids(l).contains(m));
            assert(crate::relids::ids(input_relids(sj)).contains(m));
        }
    }
}

proof fn lemma_needed_within(needed: List<Relids>, sj: SpecialJoin)
    ensures
        needed_within(needed, input_relids(sj)) <==> forall|i: int|
            0 <= i < needed@.len() ==> within_inputs(#[trigger] needed@[i], sj),
    decreases needed,
{
    match needed {
        List::Nil => {
            assert(needed@.len() == 0);
        },
        List::Cons(x, xs) => {
            lemma_needed_within(*xs, sj);
            lemma_within_inputs(x, sj);
            assert(needed@[0] == x);
            assert(forall|i: int| 0 <= i < xs@.len() ==> needed@[i + 1] == #[trigger] xs@[i]);
            if needed_within(needed, input_relids(sj)) {
                assert forall|i: int| 0 <= i < needed@.len() implies within_inputs(
                    #[trigger] needed@[i],
                    sj,
                ) by {
                    if i > 0 {
                        assert(needed@[i] == xs@[i - 1]);
                    }
                }
            }
        },
    }
}

proof fn lemma_placeholders_spare(l: List<PlaceHolderUse>, inner: u32, sj: SpecialJoin)
    ensures
        !placeholders_block(l, inner, input_relids(sj), sj) <==> forall|h: int|
            0 <= h < l@.len() ==> placeholder_spares(#[trigger] l@[h], inner, sj),
    decreases l,
{
    match l {
        List::Nil => {
            assert(l@.len() == 0);
        },
        List::Cons(x, xs) => {
            lemma_placeholders_spare(*xs, inner, sj);
            lemma_within_inputs(x.needed, sj);
            assert(crate::relids::ids(sj.min_lefthand).disjoint(crate::relids::ids(x.eval_at))
                <==> !(exists|m: u32| #[trigger]
                sj.min_lefthand@.contains(m) && x.eval_at@.contains(m))) by {
                let a = crate::relids::ids(sj.min_lefthand);
                let b = crate::relids::ids(x.eval_at);
                if !a.disjoint(b) {
                    let m = choose|m: u32| a.contains(m) && b.contains(m);
                    assert(sj.min_lefthand@.contains(m));
                }
                if exists|m: u32| #[trigger]
                    sj.min_lefthand@.contains(m) && x.eval_at@.contains(m) {
                    let m = choose|m: u32| #[trigger]
                        sj.min_lefthand@.contains(m) && x.eval_at@.contains(m);
                    assert(a.contains(m) && b.contains(m));
                }
            }
            assert(placeholder_blocks(x, inner, input_relids(sj), sj) <==> !placeholder_spares(
                x,
                inner,
                sj,
            ));
            assert(l@[0] == x);
            assert(forall|h: int| 0 <= h < xs@.len() ==> l@[h + 1] == #[trigger] xs@[h]);
            if !placeholders_block(l, inner, input_relids(sj), sj) {
                assert forall|h: int| 0 <= h < l@.len() implies placeholder_spares(
                    #[trigger] l@[h],
                    inner,
                    sj,
                ) by {
                    if h > 0 {
                        assert(l@[h] == xs@[h - 1]);
                    }
                }
            }
        },
    }
}

proof fn lemma_rel_of(rels: List<BaseRel>, relid: u32)
    ensures
        match rel_of(rels, relid) {
            None => forall|q: int| 0 <= q < rels@.len() ==> (#[trigger] rels@[q]).relid != relid,
            Some(x) => exists|r: int|
                0 <= r < rels@.len() && #[trigger] rels@[r] == x && x.relid == relid && forall|
                    q: int,
                |
                    0 <= q < r ==> (#[trigger] rels@[q]).relid != relid,
        },
    decreases rels,
{
    match rels {
        List::Nil => {
            assert(rels@.len() == 0);
        },
        List::Cons(y, ys) => {
            lemma_rel_of(*ys, relid);
            assert(rels@[0] == y);
            assert(forall|q: int| 1 <= q < rels@.len() ==> #[trigger] rels@[q] == ys@[q - 1]);
            if y.relid != relid {
                if let Some(x) = rel_of(*ys, relid) {
                    let r = choose|r: int|
                        0 <= r < ys@.len() && #[trigger] ys@[r] == x && x.relid == relid && forall|
                            q: int,
                        |
                            0 <= q < r ==> (#[trigger] ys@[q]).relid != relid;
                    assert(rels@[r + 1] == x);
                }
            }
        },
    }
}

/// A left join may be removed, as far as its clauses then prove the inner
/// relation unique, exactly if it adds nothing but rows: no column of the inner
/// relation, not one, is needed outside of the inputs of the join.
pub proof fn lemma_removable(
    state: JoinState,
    sj: SpecialJoin,
    result_relation: u32,
    possible: bool,
)
    ensures
        removal_clauses(state, sj, result_relation, possible) is Some <==> possible && exists|
            inner: u32,
            r: int,
        | adds_only_rows(state, sj, inner, r, result_relation),
{
    let only = crate::relids::the_only(sj.min_righthand);
    if removal_clauses(state, sj, result_relation, possible) is Some {
        let inner = only->0;
        lemma_only_member(sj.min_righthand, inner);
        lemma_rel_of(state.rels, inner);
        let rel = rel_of(state.rels, inner)->0;
        let r = choose|r: int|
            0 <= r < state.rels@.len() && #[trigger] state.rels@[r] == rel && rel.relid == inner
                && forall|q: int| 0 <= q < r ==> (#[trigger] state.rels@[q]).relid != inner;
        lemma_needed_within(rel.attr_needed, sj);
        lemma_placeholders_spare(state.placeholders, inner, sj);
        assert(adds_only_rows(state, sj, inner, r, result_relation));
    }
    if possible && exists|inner: u32, r: int|
        adds_only_rows(state, sj, inner, r, result_relation) {
        let (inner, r) = choose|inner: u32, r: int|
            adds_only_rows(state, sj, inner, r, result_relation);
        lemma_only_member(sj.min_righthand, inner);
        lemma_rel_of(state.rels, inner);
        let rel = state.rels@[r];
        assert(rel_of(state.rels, inner) is Some);
        let x = rel_of(state.rels, inner)->0;
        let q = choose|q: int|
            0 <= q < state.rels@.len() && #[trigger] state.rels@[q] == x && x.relid == inner
                && forall|k: int| 0 <= k < q ==> (#[trigger] state.rels@[k]).relid != inner;
        assert(q == r);
        lemma_needed_within(rel.attr_needed, sj);
        lemma_placeholders_spare(state.placeholders, inner, sj);
    }
}

proof fn lemma_only_member(l: Relids, x: u32)
    ensures
        crate::relids::the_only(l) == Some(x) <==> forall|m: u32| #[trigger]
            l@.contains(m) <==> m == x,
{
    crate::relids::lemma_the_only(l, x);
    if crate::relids::the_only(l) == Some(x) {
        assert forall|m: u32| #[trigger] l@.contains(m) <==> m == x by {
            assert(crate::relids::ids(l).contains(m) <==> (set![x]).contains(m));
        }
    }
    if forall|m: u32| #[trigger] l@.contains(m) <==> m == x {
        assert forall|m: u32| crate::relids::ids(l).contains(m) <==> (set![x]).contains(m) by {
            assert(l@.contains(m) <==> m == x);
        }
        assert(crate::relids::ids(l) =~= set![x]);
    }
}

/// A join is removed only if it adds nothing but rows and its inner relation is
/// unique, so that it adds none either; and whenever that is so it is removed,
/// unless its inner relation is missing from the order of joining.
pub proof fn lemma_removed_if_useless(
    state: JoinState,
    joinlist: List<Joinlist>,
    at: usize,
    result_relation: u32,
    possible: bool,
    distinct: bool,
)
    ensures
        ({
            let useless = possible && distinct && at < state.joins@.len() && exists|
                inner: u32,
                r: int,
            | adds_only_rows(state, state.joins@[at as int], inner, r, result_relation);
            match without_useless_join(
                state,
                joinlist,
                at,
                result_relation,
                possible,
                distinct,
            ) {
                Ok(Some(_)) => useless,
                Ok(None) => !useless,
                Err(_) => useless && exists|inner: u32| #[trigger]
                    state.joins@[at as int].min_righthand@.contains(inner) && occurrences(
                        joinlist,
                        inner,
                    ) != 1,
            }
        }),
{
    lemma_join_at(state.joins, at);
    if at < state.joins@.len() {
        let sj = state.joins@[at as int];
        lemma_removable(state, sj, result_relation, possible);
        if let Some(inner) = crate::relids::the_only(sj.min_righthand) {
            lemma_only_member(sj.min_righthand, inner);
            assert(sj.min_righthand@.contains(inner));
        }
    }
}

proof fn lemma_join_at(l: List<SpecialJoin>, at: usize)
    ensures
        at < l@.len() ==> join_at(l, at) == Some(l@[at as int]),
        at >= l@.len() ==> join_at(l, at) is None,
    decreases l,
{
    match l {
        List::Nil => {
            assert(l@.len() == 0);
        },
        List::Cons(x, xs) => {
            assert(l@[0] == x);
            if at > 0 {
                lemma_join_at(*xs, (at - 1) as usize);
                if at < l@.len() {
                    assert(l@[at as int] == xs@[at - 1]);
                }
            }
        },
    }
}

/// The set is the other one without two numbers.
pub open spec fn lacks(new: Relids, old_set: Relids, a: u32, b: u32) -> bool {
    forall|m: u32| #[trigger] new@.contains(m) <==> old_set@.contains(m) && m != a && m != b
}

proof fn lemma_deleted(l: Relids, a: u32, b: u32)
    ensures
        lacks(crate::relids::del(crate::relids::del(l, a), b), l, a, b),
        lacks(crate::relids::del(l, b), l, b, b),
{
    let one = crate::relids::del(l, a);
    let two = crate::relids::del(one, b);
    let other = crate::relids::del(l, b);
    crate::relids::lemma_del(l, a);
    crate::relids::lemma_del(one, b);
    crate::relids::lemma_del(l, b);
    assert forall|m: u32| #[trigger] two@.contains(m) <==> l@.contains(m) && m != a && m != b by {
        assert(crate::relids::ids(two).contains(m) <==> crate::relids::ids(l).contains(m) && m != a
            && m != b);
    }
    assert forall|m: u32| #[trigger] other@.contains(m) <==> l@.contains(m) && m != b && m != b by {
        assert(crate::relids::ids(other).contains(m) <==> crate::relids::ids(l).contains(m) && m
            != b);
    }
}

/// The join is the other one without a relation and an outer join: it joins the
/// same relations otherwise, in the same way.
pub open spec fn join_lacks(new: SpecialJoin, old_join: SpecialJoin, relid: u32, oj: u32) -> bool {
    &&& new.jointype == old_join.jointype
    &&& new.ojrelid == old_join.ojrelid
    &&& new.semi_rhs_exprs == old_join.semi_rhs_exprs
    &&& lacks(new.min_lefthand, old_join.min_lefthand, relid, oj)
    &&& lacks(new.min_righthand, old_join.min_righthand, relid, oj)
    &&& lacks(new.syn_lefthand, old_join.syn_lefthand, relid, oj)
    &&& lacks(new.syn_righthand, old_join.syn_righthand, relid, oj)
    &&& lacks(new.commute_above_l, old_join.commute_above_l, oj, oj)
    &&& lacks(new.commute_above_r, old_join.commute_above_r, oj, oj)
    &&& lacks(new.commute_below_l, old_join.commute_below_l, oj, oj)
    &&& lacks(new.commute_below_r, old_join.commute_below_r, oj, oj)
}

proof fn lemma_join_lacks(sj: SpecialJoin, relid: u32, oj: u32)
    ensures
        join_lacks(stripped_join(sj, relid, oj), sj, relid, oj),
{
    lemma_deleted(sj.min_lefthand, relid, oj);
    lemma_deleted(sj.min_righthand, relid, oj);
    lemma_deleted(sj.syn_lefthand, relid, oj);
    lemma_deleted(sj.syn_righthand, relid, oj);
    lemma_deleted(sj.commute_above_l, relid, oj);
    lemma_deleted(sj.commute_above_r, relid, oj);
    lemma_deleted(sj.commute_below_l, relid, oj);
    lemma_deleted(sj.commute_below_r, relid, oj);
}

proof fn lemma_all_lack(l: List<SpecialJoin>, relid: u32, oj: u32, i: int)
    requires
        0 <= i < l@.len(),
    ensures
        all_stripped(l, relid, oj)@.len() == l@.len(),
        join_lacks(all_stripped(l, relid, oj)@[i], l@[i], relid, oj),
    decreases l,
{
    if let List::Cons(x, xs) = l {
        lemma_join_lacks(x, relid, oj);
        lemma_all_stripped_length(l, relid, oj);
        if i > 0 {
            lemma_all_lack(*xs, relid, oj, i - 1);
            assert(l@[i] == xs@[i - 1]);
            assert(all_stripped(l, relid, oj)@[i] == all_stripped(*xs, relid, oj)@[i - 1]);
        }
    }
}

/// When a left join is removed, the other joins stay, in their order, without
/// its inner relation and itself.
pub proof fn lemma_other_joins_stay(l: List<SpecialJoin>, at: usize, relid: u32, oj: u32, i: int)
    requires
        at < l@.len(),
        0 <= i < l@.len(),
        i != at,
    ensures
        stripped_joins(l, at, relid, oj)@.len() == l@.len() - 1,
        join_lacks(
            stripped_joins(l, at, relid, oj)@[if i < at {
                i
            } else {
                i - 1
            }],
            l@[i],
            relid,
            oj,
        ),
    decreases l,
{
    if let List::Cons(x, xs) = l {
        if at == 0 {
            lemma_all_lack(*xs, relid, oj, i - 1);
            assert(l@[i] == xs@[i - 1]);
        } else {
            lemma_join_lacks(x, relid, oj);
            let rest = stripped_joins(*xs, (at - 1) as usize, relid, oj);
            let all = stripped_joins(l, at, relid, oj);
            if i > 0 {
                lemma_other_joins_stay(*xs, (at - 1) as usize, relid, oj, i - 1);
                assert(l@[i] == xs@[i - 1]);
                if i < at {
                    assert(all@[i] == rest@[i - 1]);
                } else {
                    assert(all@[i - 1] == rest@[i - 2]);
                }
            } else {
                lemma_join_at(l, at);
                lemma_join_at(*xs, (at - 1) as usize);
                lemma_stripped_length(*xs, (at - 1) as usize, relid, oj);
                assert(all@[0] == stripped_join(x, relid, oj));
            }
        }
    }
}

/// Whatever is in the set belongs to the join, or to one that it can change
/// places with.
pub open spec fn within_joins(l: Relids, sj: SpecialJoin) -> bool {
    forall|m: u32| #[trigger]
        l@.contains(m) ==> sj.min_lefthand@.contains(m) || sj.min_righthand@.contains(m) || m
            == sj.ojrelid || sj.commute_above_r@.contains(m) || sj.commute_below_l@.contains(m)
}

proof fn lemma_within_joins(l: Relids, sj: SpecialJoin)
    ensures
        within_joins(l, sj) <==> crate::relids::ids(l).subset_of(
            crate::relids::ids(commuting_relids(sj)),
        ),
{
    let inputs = input_relids(sj);
    let joined = join_relids(sj);
    let above = crate::relids::union_list(joined, sj.commute_above_r);
    crate::relids::lemma_union_list(sj.min_lefthand, sj.min_righthand);
    crate::relids::lemma_ins(inputs, sj.ojrelid);
    crate::relids::lemma_union_list(joined, sj.commute_above_r);
    crate::relids::lemma_union_list(above, sj.commute_below_l);
    assert forall|m: u32|
        crate::relids::ids(commuting_relids(sj)).contains(m) <==> sj.min_lefthand@.contains(m)
            || sj.min_righthand@.contains(m) || m == sj.ojrelid || sj.commute_above_r@.contains(m)
            || sj.commute_below_l@.contains(m) by {
        assert(crate::relids::ids(inputs).contains(m) <==> crate::relids::ids(
            sj.min_lefthand,
        ).contains(m) || crate::relids::ids(sj.min_righthand).contains(m));
        assert(crate::relids::ids(joined).contains(m) <==> crate::relids::ids(inputs).contains(m)
            || m == sj.ojrelid);
        assert(crate::relids::ids(above).contains(m) <==> crate::relids::ids(joined).contains(m)
            || crate::relids::ids(sj.commute_above_r).contains(m));
    }
    if within_joins(l, sj) {
        assert forall|m: u32| crate::relids::ids(l).contains(m) implies crate::relids::ids(
            commuting_relids(sj),
        ).contains(m) by {
            assert(l@.contains(m));
        }
    }
    if crate::relids::ids(l).subset_of(crate::relids::ids(commuting_relids(sj))) {
        assert forall|m: u32| #[trigger] l@.contains(m) implies sj.min_lefthand@.contains(m)
            || sj.min_righthand@.contains(m) || m == sj.ojrelid || sj.commute_above_r@.contains(m)
            || sj.commute_below_l@.contains(m) by {
            assert(crate::relids::ids(l).contains(m));
        }
    }
}

proof fn lemma_other_clause(l: List<Restriction>, id: u32, relid: u32, oj: u32, n: u32)
    requires
        n != id,
    ensures
        clause_of(clause_stripped(l, id, relid, oj), n) == clause_of(l, n),
    decreases l,
{
    if let List::Cons(x, xs) = l {
        if x.id != id {
            lemma_other_clause(*xs, id, relid, oj, n);
        }
    }
}

proof fn lemma_clauses_moved(
    numbers: List<u32>,
    rels: List<BaseRel>,
    clauses: List<Restriction>,
    sj: SpecialJoin,
    relid: u32,
    oj: u32,
    n: u32,
)
    requires
        numbers@.no_duplicates(),
    ensures
        ({
            let changes = clause_changes(numbers, rels, clauses, commuting_relids(sj), relid, oj);
            &&& changes.moved@.contains(n) <==> numbers@.contains(n) && (clause_of(
                clauses,
                n,
            ) matches Some(c) && (c.pushed_down || !within_joins(c.required_relids, sj)))
            &&& !numbers@.contains(n) ==> clause_of(changes.clauses, n) == clause_of(clauses, n)
        }),
    decreases numbers,
{
    match numbers {
        List::Nil => {
            assert(numbers@.len() == 0);
        },
        List::Cons(i, later) => {
            crate::list::lemma_cons_contains(i, *later, n);
            crate::list::lemma_cons_contains(i, *later, i);
            assert(numbers@[0] == i);
            assert(forall|k: int| 0 <= k < later@.len() ==> numbers@[k + 1] == #[trigger] later@[k]);
            assert(!later@.contains(i)) by {
                if later@.contains(i) {
                    let k = choose|k: int| 0 <= k < later@.len() && later@[k] == i;
                    assert(numbers@[k + 1] == numbers@[0]);
                }
            }
            assert(later@.no_duplicates()) by {
                assert forall|a: int, b: int| 0 <= a < later@.len() && 0 <= b < later@.len() && a
                    != b implies later@[a] != later@[b] by {
                    assert(numbers@[a + 1] != numbers@[b + 1]);
                }
            }
            match clause_of(clauses, i) {
                None => {
                    lemma_clauses_moved(*later, rels, clauses, sj, relid, oj, n);
                },
                Some(c) => {
                    lemma_within_joins(c.required_relids, sj);
                    let left = without_clause(rels, i, c.required_relids);
                    if crate::restriction::is_pushed_down(c, commuting_relids(sj)) {
                        let stripped = clause_stripped(clauses, i, relid, oj);
                        lemma_clauses_moved(*later, left, stripped, sj, relid, oj, n);
                        let rest = clause_changes(
                            *later,
                            left,
                            stripped,
                            commuting_relids(sj),
                            relid,
                            oj,
                        );
                        crate::list::lemma_cons_contains(i, rest.moved, n);
                        if n != i {
                            lemma_other_clause(clauses, i, relid, oj, n);
                        }
                    } else {
                        lemma_clauses_moved(*later, left, clauses, sj, relid, oj, n);
                    }
                },
            }
        },
    }
}

/// The relations stay, in their order, but for the clauses that they are joined
/// by, of which none is new and none is lost that is not among the numbers.
pub open spec fn rels_kept(new: Seq<BaseRel>, before: Seq<BaseRel>, numbers: Seq<u32>) -> bool {
    &&& new.len() == before.len()
    &&& forall|q: int|
        0 <= q < new.len() ==> {
            &&& (#[trigger] new[q]).relid == before[q].relid
            &&& new[q].restrictinfo == before[q].restrictinfo
            &&& new[q].min_attr == before[q].min_attr
            &&& new[q].attr_needed == before[q].attr_needed
            &&& new[q].lateral_vars == before[q].lateral_vars
            &&& new[q].target == before[q].target
            &&& new[q].eclasses == before[q].eclasses
            &&& forall|n: u32| #[trigger]
                new[q].joininfo@.contains(n) ==> before[q].joininfo@.contains(n)
            &&& forall|n: u32|
                #![trigger new[q].joininfo@.contains(n)]
                before[q].joininfo@.contains(n) && !numbers.contains(n)
                    ==> new[q].joininfo@.contains(n)
        }
}

proof fn lemma_without_first(l: List<u32>, id: u32, n: u32)
    ensures
        without_first(l, id)@.contains(n) ==> l@.contains(n),
        l@.contains(n) && n != id ==> without_first(l, id)@.contains(n),
    decreases l,
{
    if let List::Cons(x, xs) = l {
        lemma_without_first(*xs, id, n);
        crate::list::lemma_cons_contains(x, *xs, n);
        crate::list::lemma_cons_contains(x, without_first(*xs, id), n);
    }
}

proof fn lemma_without_clause(rels: List<BaseRel>, id: u32, required: Relids)
    ensures
        rels_kept(without_clause(rels, id, required)@, rels@, seq![id]),
    decreases rels,
{
    match rels {
        List::Nil => {
            assert(rels@.len() == 0);
        },
        List::Cons(x, xs) => {
            lemma_without_clause(*xs, id, required);
            let new = without_clause(rels, id, required);
            let rest = without_clause(*xs, id, required);
            let ids = seq![id];
            assert(ids.contains(id)) by {
                assert(ids[0] == id);
            }
            assert(new@[0].relid == x.relid && rels@[0] == x);
            assert(forall|q: int| 1 <= q < new@.len() ==> #[trigger] new@[q] == rest@[q - 1]);
            assert(forall|q: int| 1 <= q < rels@.len() ==> #[trigger] rels@[q] == xs@[q - 1]);
            assert forall|n: u32| #[trigger] new@[0].joininfo@.contains(n) implies x.joininfo@.contains(
                n,
            ) by {
                lemma_without_first(x.joininfo, id, n);
            }
            assert forall|n: u32|
                #![trigger new@[0].joininfo@.contains(n)]
                x.joininfo@.contains(n) && !ids.contains(n) implies new@[0].joininfo@.contains(n) by {
                lemma_without_first(x.joininfo, id, n);
            }
        },
    }
}

proof fn lemma_rels_kept(
    numbers: List<u32>,
    rels: List<BaseRel>,
    clauses: List<Restriction>,
    joinrelids: Relids,
    relid: u32,
    oj: u32,
)
    ensures
        rels_kept(
            clause_changes(numbers, rels, clauses, joinrelids, relid, oj).rels@,
            rels@,
            numbers@,
        ),
    decreases numbers,
{
    if let List::Cons(i, later) = numbers {
        assert forall|n: u32| numbers@.contains(n) <==> n == i || later@.contains(n) by {
            crate::list::lemma_cons_contains(i, *later, n);
        }
        match clause_of(clauses, i) {
            None => {
                lemma_rels_kept(*later, rels, clauses, joinrelids, relid, oj);
            },
            Some(c) => {
                let left = without_clause(rels, i, c.required_relids);
                lemma_without_clause(rels, i, c.required_relids);
                let next = if crate::restriction::is_pushed_down(c, joinrelids) {
                    clause_stripped(clauses, i, relid, oj)
                } else {
                    clauses
                };
                lemma_rels_kept(*later, left, next, joinrelids, relid, oj);
                let last = clause_changes(*later, left, next, joinrelids, relid, oj).rels;
                assert(clause_changes(numbers, rels, clauses, joinrelids, relid, oj).rels == last);
                assert(forall|n: u32| seq![i].contains(n) ==> n == i);
                assert forall|q: int| 0 <= q < last@.len() implies {
                    &&& (#[trigger] last@[q]).relid == rels@[q].relid
                    &&& last@[q].restrictinfo == rels@[q].restrictinfo
                    &&& last@[q].min_attr == rels@[q].min_attr
                    &&& last@[q].attr_needed == rels@[q].attr_needed
                    &&& last@[q].lateral_vars == rels@[q].lateral_vars
                    &&& last@[q].target == rels@[q].target
                    &&& last@[q].eclasses == rels@[q].eclasses
                    &&& forall|n: u32| #[trigger]
                        last@[q].joininfo@.contains(n) ==> rels@[q].joininfo@.contains(n)
                    &&& forall|n: u32|
                        #![trigger last@[q].joininfo@.contains(n)]
                        rels@[q].joininfo@.contains(n) && !numbers@.contains(n)
                            ==> last@[q].joininfo@.contains(n)
                } by {
                    assert(left@[q].relid == rels@[q].relid);
                    assert forall|n: u32|
                        #![trigger last@[q].joininfo@.contains(n)]
                        rels@[q].joininfo@.contains(n) && !numbers@.contains(n) implies last@[q].joininfo@.contains(
                        n,
                    ) by {
                        assert(left@[q].joininfo@.contains(n));
                    }
                }
            },
        }
    }
}

/// When a left join is removed, just those of the join clauses of its inner
/// relation find a new place that come from above the join; those that belong
/// to it go with it. No other clause changes. The other joins stay, without the
/// relation and the join.
pub proof fn lemma_clauses_after_removal(
    state: JoinState,
    at: usize,
    r: int,
    sj: SpecialJoin,
    n: u32,
)
    requires
        at < state.joins@.len(),
        0 <= r < state.rels@.len(),
        forall|q: int| 0 <= q < r ==> (#[trigger] state.rels@[q]).relid != state.rels@[r].relid,
        state.rels@[r].joininfo@.no_duplicates(),
    ensures
        ({
            let inner = state.rels@[r].relid;
            let own = state.rels@[r].joininfo@;
            let (new, moved) = without_leftjoin(state, at, inner, sj);
            &&& moved@.contains(n) <==> own.contains(n) && (clause_of(state.clauses, n) matches Some(
                c,
            ) && (c.pushed_down || !within_joins(c.required_relids, sj)))
            &&& !own.contains(n) ==> clause_of(new.clauses, n) == clause_of(state.clauses, n)
            &&& new.joins@.len() == state.joins@.len() - 1
            &&& forall|i: int|
                0 <= i < state.joins@.len() && i != at ==> join_lacks(
                    new.joins@[if i < at {
                        i
                    } else {
                        i - 1
                    }],
                    #[trigger] state.joins@[i],
                    inner,
                    sj.ojrelid,
                )
            &&& forall|q: int| 0 <= q < new.rels@.len() ==> (#[trigger] new.rels@[q]).relid != inner
        }),
{
    let inner = state.rels@[r].relid;
    lemma_rel_of(state.rels, inner);
    let x = rel_of(state.rels, inner)->0;
    let q = choose|q: int|
        0 <= q < state.rels@.len() && #[trigger] state.rels@[q] == x && x.relid == inner && forall|
            k: int,
        |
            0 <= k < q ==> (#[trigger] state.rels@[k]).relid != inner;
    assert(q == r);
    lemma_clauses_moved(
        x.joininfo,
        reset_rels(state.rels),
        state.clauses,
        sj,
        inner,
        sj.ojrelid,
        n,
    );
    let changes = clause_changes(
        x.joininfo,
        reset_rels(state.rels),
        state.clauses,
        commuting_relids(sj),
        inner,
        sj.ojrelid,
    );
    lemma_rel_gone(changes.rels, inner);
    lemma_join_at(state.joins, at);
    lemma_stripped_length(state.joins, at, inner, sj.ojrelid);
    assert forall|i: int| 0 <= i < state.joins@.len() && i != at implies join_lacks(
        stripped_joins(state.joins, at, inner, sj.ojrelid)@[if i < at {
            i
        } else {
            i - 1
        }],
        #[trigger] state.joins@[i],
        inner,
        sj.ojrelid,
    ) by {
        lemma_other_joins_stay(state.joins, at, inner, sj.ojrelid, i);
    }
}

proof fn lemma_rel_gone(l: List<BaseRel>, relid: u32)
    ensures
        forall|q: int|
            0 <= q < without_base_rel(l, relid)@.len() ==> (#[trigger] without_base_rel(
                l,
                relid,
            )@[q]).relid != relid,
        forall|q: int|
            0 <= q < l@.len() && (#[trigger] l@[q]).relid != relid ==> without_base_rel(
                l,
                relid,
            )@.contains(l@[q]),
    decreases l,
{
    match l {
        List::Nil => {
            assert(l@.len() == 0);
        },
        List::Cons(x, xs) => {
            lemma_rel_gone(*xs, relid);
            let rest = without_base_rel(*xs, relid);
            let all = without_base_rel(l, relid);
            assert forall|q: int| 0 <= q < all@.len() implies (#[trigger] all@[q]).relid != relid by {
                if x.relid == relid {
                    assert(all@[q] == rest@[q]);
                } else if q > 0 {
                    assert(all@[q] == rest@[q - 1]);
                }
            }
            assert forall|q: int| 0 <= q < l@.len() && (#[trigger] l@[q]).relid != relid implies all@.contains(
                l@[q],
            ) by {
                if q > 0 {
                    assert(l@[q] == xs@[q - 1]);
                }
                crate::list::lemma_cons_contains(x, rest, l@[q]);
            }
        },
    }
}

proof fn lemma_reset(l: List<BaseRel>)
    ensures
        reset_rels(l)@.len() == l@.len(),
        forall|q: int|
            0 <= q < l@.len() ==> (#[trigger] reset_rels(l)@[q]) == (BaseRel {
                attr_needed: reset_needed(l@[q].attr_needed),
                ..l@[q]
            }),
    decreases l,
{
    match l {
        List::Nil => {
            assert(l@.len() == 0);
        },
        List::Cons(x, xs) => {
            lemma_reset(*xs);
            assert(forall|q: int|
                1 <= q < l@.len() ==> #[trigger] reset_rels(l)@[q] == reset_rels(*xs)@[q - 1]);
        },
    }
}

/// When a left join is removed, every other relation stays, with the clauses
/// that concern it alone and with every join clause that is not one of the
/// relation that goes; it gets no new ones.
pub proof fn lemma_rels_after_removal(state: JoinState, at: usize, inner: u32, sj: SpecialJoin, q: int)
    requires
        0 <= q < state.rels@.len(),
        state.rels@[q].relid != inner,
    ensures
        ({
            let new = without_leftjoin(state, at, inner, sj).0;
            exists|k: int|
                0 <= k < new.rels@.len() && (#[trigger] new.rels@[k]).relid == state.rels@[q].relid
                    && new.rels@[k].restrictinfo == state.rels@[q].restrictinfo
                    && new.rels@[k].target == state.rels@[q].target && new.rels@[k].lateral_vars
                    == state.rels@[q].lateral_vars && (forall|n: u32| #[trigger]
                    new.rels@[k].joininfo@.contains(n) ==> state.rels@[q].joininfo@.contains(n))
                    && (forall|n: u32|
                    #![trigger new.rels@[k].joininfo@.contains(n)]
                    state.rels@[q].joininfo@.contains(n) && !joininfo_of(
                        state.rels,
                        inner,
                    )@.contains(n) ==> new.rels@[k].joininfo@.contains(n))
        }),
{
    let numbers = joininfo_of(state.rels, inner);
    let reset = reset_rels(state.rels);
    lemma_reset(state.rels);
    lemma_rels_kept(numbers, reset, state.clauses, commuting_relids(sj), inner, sj.ojrelid);
    let changes = clause_changes(
        numbers,
        reset,
        state.clauses,
        commuting_relids(sj),
        inner,
        sj.ojrelid,
    );
    lemma_rel_gone(changes.rels, inner);
    let new = without_leftjoin(state, at, inner, sj).0;
    assert(reset@[q].relid == state.rels@[q].relid);
    assert(changes.rels@[q].relid == reset@[q].relid);
    let k = choose|k: int| 0 <= k < new.rels@.len() && new.rels@[k] == changes.rels@[q];
    assert(new.rels@[k].relid == state.rels@[q].relid);
}

/// A semijoin becomes an ordinary join exactly if its inner side is a single
/// relation that might be unique and is; every other join stays as it is, in its
/// place.
pub proof fn lemma_semijoins_kept(l: List<SpecialJoin>, facts: List<SemiFacts>, i: int)
    requires
        0 <= i < l@.len(),
    ensures
        ({
            let goes = i < facts@.len() && l@[i].jointype is Semi && facts@[i].possible
                && facts@[i].unique && exists|inner: u32| #[trigger]
                l@[i].min_righthand@.contains(inner) && forall|m: u32| #[trigger]
                    l@[i].min_righthand@.contains(m) ==> m == inner;
            !goes ==> without_plain_semijoins(l, facts)@.contains(l@[i])
        }),
        without_plain_semijoins(l, facts)@.len() <= l@.len(),
        i < facts@.len() && is_plain_semijoin(l@[i], facts@[i]) ==> without_plain_semijoins(
            l,
            facts,
        )@.len() < l@.len() && l@[i].jointype is Semi && facts@[i].possible && facts@[i].unique,
    decreases l,
{
    if let List::Cons(x, xs) = l {
        assert(l@[0] == x);
        match facts {
            List::Nil => {
                assert(facts@.len() == 0);
            },
            List::Cons(f, fs) => {
                assert(facts@[0] == f);
                let rest = without_plain_semijoins(*xs, *fs);
                if is_plain_semijoin(x, f) {
                    let inner = crate::relids::the_only(x.min_righthand)->0;
                    lemma_only_member(x.min_righthand, inner);
                    assert(x.min_righthand@.contains(inner));
                }
                crate::list::lemma_cons_contains(x, rest, l@[i]);
                if i > 0 {
                    assert(l@[i] == xs@[i - 1]);
                    if i < facts@.len() {
                        assert(facts@[i] == fs@[i - 1]);
                    }
                    lemma_semijoins_kept(*xs, *fs, i - 1);
                } else if xs@.len() > 0 {
                    lemma_semijoins_kept(*xs, *fs, 0);
                } else {
                    assert(*xs is Nil) by {
                        if let List::Cons(_, ys) = *xs {
                            assert(xs@.len() == 1 + ys@.len());
                        }
                    }
                }
            },
        }
    }
}

} // verus!

//! What the plans of joins are made of.
use vstd::prelude::*;
use crate::error::PlannerError;
use crate::expr::{Expr, Head, OrderTest};
use crate::list::List;
use crate::path::JoinClause;
use crate::plan::{JoinClauses, MergeKey};
use crate::relids::{relids_is_subset, Relids};
use crate::sortcols::{PathKey, SortContext};

verus! {

/// The clause is written with the outer side on the right.
pub open spec fn is_switched(c: JoinClause, outer_relids: Relids) -> bool {
    crate::relids::ids(c.right_relids).subset_of(crate::relids::ids(outer_relids))
}

/// A clause with the outer side on the left: its operator, collation and
/// operands.
pub open spec fn outer_left(c: JoinClause, outer_relids: Relids) -> Result<
    (Head, u32, u32, Expr, Expr),
    PlannerError,
> {
    match c.rinfo.clause {
        Expr::Call { head, args } => match head {
            Head::Op { opno, typid, collation, inputcollid } => match *args {
                List::Cons(a, rest) => match *rest {
                    List::Cons(b, _) => if !is_switched(c, outer_relids) {
                        Ok((head, opno, inputcollid, a, b))
                    } else if c.commutator == 0 {
                        Err(PlannerError::NoCommutator)
                    } else {
                        Ok(
                            (
                                Head::Op { opno: c.commutator, typid, collation, inputcollid },
                                c.commutator,
                                inputcollid,
                                b,
                                a,
                            ),
                        )
                    },
                    List::Nil => Err(PlannerError::NotAnOperatorClause),
                },
                List::Nil => Err(PlannerError::NotAnOperatorClause),
            },
            _ => Err(PlannerError::NotAnOperatorClause),
        },
        _ => Err(PlannerError::NotAnOperatorClause),
    }
}

/// The call of an operator.
pub open spec fn op_call(head: Head, a: Expr, b: Expr) -> Expr {
    Expr::Call {
        head,
        args: Box::new(List::Cons(a, Box::new(List::Cons(b, Box::new(List::Nil))))),
    }
}

/// All clauses with the outer side on the left.
pub open spec fn switched_clauses(clauses: List<JoinClause>, outer_relids: Relids) -> Result<
    JoinClauses,
    PlannerError,
>
    decreases clauses,
{
    match clauses {
        List::Nil => Ok(
            JoinClauses {
                clauses: List::Nil,
                operators: List::Nil,
                collations: List::Nil,
                outer_keys: List::Nil,
                inner_keys: List::Nil,
            },
        ),
        List::Cons(c, cs) => match outer_left(c, outer_relids) {
            Err(e) => Err(e),
            Ok((head, opno, collid, a, b)) => match switched_clauses(*cs, outer_relids) {
                Err(e) => Err(e),
                Ok(rest) => Ok(
                    JoinClauses {
                        clauses: List::Cons(op_call(head, a, b), Box::new(rest.clauses)),
                        operators: List::Cons(opno, Box::new(rest.operators)),
                        collations: List::Cons(collid, Box::new(rest.collations)),
                        outer_keys: List::Cons(a, Box::new(rest.outer_keys)),
                        inner_keys: List::Cons(b, Box::new(rest.inner_keys)),
                    },
                ),
            },
        },
    }
}

fn put_outer_left(c: &JoinClause, outer_relids: &Relids) -> (r: Result<
    (Head, u32, u32, Expr, Expr),
    PlannerError,
>)
    ensures
        r == outer_left(*c, *outer_relids),
{
    match &c.rinfo.clause {
        Expr::Call { head, args } => match head {
            Head::Op { opno, typid, collation, inputcollid } => match &**args {
                List::Cons(a, rest) => match &**rest {
                    List::Cons(b, _) => {
                        if !relids_is_subset(&c.right_relids, outer_relids) {
                            return Ok((*head, *opno, *inputcollid, a.copy(), b.copy()));
                        }
                        if c.commutator == 0 {
                            return Err(PlannerError::NoCommutator);
                        }
                        Ok(
                            (
                                Head::Op {
                                    opno: c.commutator,
                                    typid: *typid,
                                    collation: *collation,
                                    inputcollid: *inputcollid,
                                },
                                c.commutator,
                                *inputcollid,
                                b.copy(),
                                a.copy(),
                            ),
                        )
                    },
                    List::Nil => Err(PlannerError::NotAnOperatorClause),
                },
                List::Nil => Err(PlannerError::NotAnOperatorClause),
            },
            _ => Err(PlannerError::NotAnOperatorClause),
        },
        _ => Err(PlannerError::NotAnOperatorClause),
    }
}

/// Puts the outer side of each clause on the left, with the commutator of its
/// operator where the sides are exchanged.
pub fn get_switched_clauses(clauses: &List<JoinClause>, outer_relids: &Relids) -> (r: Result<
    JoinClauses,
    PlannerError,
>)
    ensures
        r == switched_clauses(*clauses, *outer_relids),
    decreases clauses,
{
    match clauses {
        List::Nil => Ok(
            JoinClauses {
                clauses: List::Nil,
                operators: List::Nil,
                collations: List::Nil,
                outer_keys: List::Nil,
                inner_keys: List::Nil,
            },
        ),
        List::Cons(c, cs) => match put_outer_left(c, outer_relids) {
            Err(e) => Err(e),
            Ok((head, opno, collid, a, b)) => match get_switched_clauses(cs, outer_relids) {
                Err(e) => Err(e),
                Ok(rest) => {
                    let clause = Expr::Call {
                        head,
                        args: Box::new(
                            List::Cons(
                                a.copy(),
                                Box::new(List::Cons(b.copy(), Box::new(List::Nil))),
                            ),
                        ),
                    };
                    Ok(
                        JoinClauses {
                            clauses: List::Cons(clause, Box::new(rest.clauses)),
                            operators: List::Cons(opno, Box::new(rest.operators)),
                            collations: List::Cons(collid, Box::new(rest.collations)),
                            outer_keys: List::Cons(a, Box::new(rest.outer_keys)),
                            inner_keys: List::Cons(b, Box::new(rest.inner_keys)),
                        },
                    )
                },
            },
        },
    }
}

/// There is one operator, one collation and one pair of keys for each clause.
pub proof fn lemma_switched_lengths(clauses: List<JoinClause>, outer_relids: Relids)
    ensures
        switched_clauses(clauses, outer_relids) matches Ok(j) ==> {
            &&& j.clauses@.len() == clauses@.len()
            &&& j.operators@.len() == clauses@.len()
            &&& j.collations@.len() == clauses@.len()
            &&& j.outer_keys@.len() == clauses@.len()
            &&& j.inner_keys@.len() == clauses@.len()
        },
    decreases clauses,
{
    if let List::Cons(c, cs) = clauses {
        lemma_switched_lengths(*cs, outer_relids);
    }
}

/// The clauses themselves.
pub open spec fn join_clause_exprs(clauses: List<JoinClause>) -> List<Expr>
    decreases clauses,
{
    match clauses {
        List::Nil => List::Nil,
        List::Cons(c, cs) => List::Cons(c.rinfo.clause, Box::new(join_clause_exprs(*cs))),
    }
}

/// Collects the clauses themselves.
pub fn collect_join_clauses(clauses: &List<JoinClause>) -> (r: List<Expr>)
    ensures
        r == join_clause_exprs(*clauses),
    decreases clauses,
{
    match clauses {
        List::Nil => List::Nil,
        List::Cons(c, cs) => List::Cons(c.rinfo.clause.copy(), Box::new(collect_join_clauses(cs))),
    }
}

/// The first item of the sort order that is for the class.
pub open spec fn key_for_class(keys: List<PathKey>, ec: u32) -> Option<PathKey>
    decreases keys,
{
    match keys {
        List::Nil => None,
        List::Cons(k, ks) => if k.eclass == ec {
            Some(k)
        } else {
            key_for_class(*ks, ec)
        },
    }
}

fn find_key_for_class(keys: &List<PathKey>, ec: u32) -> (r: Option<PathKey>)
    ensures
        r == key_for_class(*keys, ec),
    decreases keys,
{
    match keys {
        List::Nil => None,
        List::Cons(k, ks) => if k.eclass == ec {
            Some(*k)
        } else {
            find_key_for_class(ks, ec)
        },
    }
}

/// The outer item of the sort order for the next clause: the one at hand where
/// it is for the class, else the next one, which must be.
pub open spec fn next_outer(current: Option<PathKey>, rest: List<PathKey>, ec: u32) -> Option<
    (PathKey, List<PathKey>),
> {
    if current matches Some(k) && k.eclass == ec {
        Some((current->0, rest))
    } else {
        match rest {
            List::Nil => None,
            List::Cons(k, ks) => if k.eclass == ec {
                Some((k, *ks))
            } else {
                None
            },
        }
    }
}

/// The inner item of the sort order for the next clause: the next one where it
/// is for the class, else one that was used before. Returns it with what is
/// used and what is left, and whether it is used for the first time.
pub open spec fn next_inner(used: List<PathKey>, rest: List<PathKey>, ec: u32) -> Option<
    (PathKey, List<PathKey>, List<PathKey>, bool),
> {
    let old = match key_for_class(used, ec) {
        Some(k) => Some((k, used, rest, false)),
        None => None,
    };
    match rest {
        List::Nil => old,
        List::Cons(k, ks) => if k.eclass == ec {
            Some((k, used.then_list(List::Cons(k, Box::new(List::Nil))), *ks, true))
        } else {
            old
        },
    }
}

/// The collation of a class, 0 for one that is not there.
pub open spec fn class_collation(ctx: SortContext, ec: u32) -> u32 {
    if ec < ctx.classes@.len() {
        ctx.classes@[ec as int].collation
    } else {
        0
    }
}

/// The outer and the inner item sort the same way. Where the inner one is used
/// for the first time, the directions must agree too.
pub open spec fn keys_agree(ctx: SortContext, o: PathKey, i: PathKey, first_use: bool) -> bool {
    &&& o.opfamily == i.opfamily
    &&& class_collation(ctx, o.eclass) == class_collation(ctx, i.eclass)
    &&& first_use ==> o.direction == i.direction && o.nulls_first == i.nulls_first
}

/// How the merge join sorts by each clause: as the sort order of the outer
/// input has it. The orders of both inputs must match the clauses.
pub open spec fn merge_keys(
    ctx: SortContext,
    clauses: List<JoinClause>,
    outer_relids: Relids,
    current: Option<PathKey>,
    outer_rest: List<PathKey>,
    inner_used: List<PathKey>,
    inner_rest: List<PathKey>,
) -> Result<List<MergeKey>, PlannerError>
    decreases clauses,
{
    match clauses {
        List::Nil => Ok(List::Nil),
        List::Cons(c, cs) => {
            let (oec, iec) = if is_switched(c, outer_relids) {
                (c.right_ec, c.left_ec)
            } else {
                (c.left_ec, c.right_ec)
            };
            match next_outer(current, outer_rest, oec) {
                None => Err(PlannerError::OuterPathkeysMismatch),
                Some((o, orest)) => match next_inner(inner_used, inner_rest, iec) {
                    None => Err(PlannerError::InnerPathkeysMismatch),
                    Some((i, iused, irest, first_use)) => if keys_agree(ctx, o, i, first_use) {
                        match merge_keys(ctx, *cs, outer_relids, Some(o), orest, iused, irest) {
                            Err(e) => Err(e),
                            Ok(more) => Ok(
                                List::Cons(
                                    MergeKey {
                                        family: o.opfamily,
                                        collation: class_collation(ctx, o.eclass),
                                        reversed: o.direction == OrderTest::Greater,
                                        nulls_first: o.nulls_first,
                                    },
                                    Box::new(more),
                                ),
                            ),
                        }
                    } else {
                        Err(PlannerError::MergePathkeysMismatch)
                    },
                },
            }
        },
    }
}

fn find_collation(ctx: &SortContext, ec: u32) -> (r: u32)
    ensures
        r == class_collation(*ctx, ec),
{
    let at: usize = ec as usize;
    if at < ctx.classes.len() {
        ctx.classes[at].collation
    } else {
        0
    }
}

/// Finds how a merge join sorts by each clause.
pub fn find_merge_keys(
    ctx: &SortContext,
    clauses: &List<JoinClause>,
    outer_relids: &Relids,
    current: Option<PathKey>,
    outer_rest: &List<PathKey>,
    inner_used: List<PathKey>,
    inner_rest: &List<PathKey>,
) -> (r: Result<List<MergeKey>, PlannerError>)
    ensures
        r == merge_keys(
            *ctx,
            *clauses,
            *outer_relids,
            current,
            *outer_rest,
            inner_used,
            *inner_rest,
        ),
    decreases clauses,
{
    match clauses {
        List::Nil => Ok(List::Nil),
        List::Cons(c, cs) => {
            let switched = relids_is_subset(&c.right_relids, outer_relids);
            let oec: u32 = if switched {
                c.right_ec
            } else {
                c.left_ec
            };
            let iec: u32 = if switched {
                c.left_ec
            } else {
                c.right_ec
            };
            let mut o: Option<PathKey> = None;
            let mut orest: &List<PathKey> = outer_rest;
            if let Some(k) = current {
                if k.eclass == oec {
                    o = Some(k);
                }
            }
            if o.is_none() {
                if let List::Cons(k, ks) = outer_rest {
                    if k.eclass == oec {
                        o = Some(*k);
                        orest = ks;
                    }
                }
            }
            let o: PathKey = match o {
                Some(k) => k,
                None => {
                    return Err(PlannerError::OuterPathkeysMismatch);
                },
            };
            let mut first: Option<PathKey> = None;
            let mut irest: &List<PathKey> = inner_rest;
            if let List::Cons(k, ks) = inner_rest {
                if k.eclass == iec {
                    first = Some(*k);
                    irest = ks;
                }
            }
            let first_use = first.is_some();
            let i: PathKey = match first {
                Some(k) => k,
                None => match find_key_for_class(&inner_used, iec) {
                    Some(k) => k,
                    None => {
                        return Err(PlannerError::InnerPathkeysMismatch);
                    },
                },
            };
            let iused = if first_use {
                inner_used.append(List::one(i))
            } else {
                inner_used
            };
            let agree = o.opfamily == i.opfamily && find_collation(ctx, o.eclass)
                == find_collation(ctx, i.eclass) && (!first_use || (o.direction == i.direction
                && o.nulls_first == i.nulls_first));
            if !agree {
                return Err(PlannerError::MergePathkeysMismatch);
            }
            match find_merge_keys(ctx, cs, outer_relids, Some(o), orest, iused, irest) {
                Err(e) => Err(e),
                Ok(more) => Ok(
                    List::Cons(
                        MergeKey {
                            family: o.opfamily,
                            collation: find_collation(ctx, o.eclass),
                            reversed: o.direction == OrderTest::Greater,
                            nulls_first: o.nulls_first,
                        },
                        Box::new(more),
                    ),
                ),
            }
        },
    }
}

/// There is one key for each clause.
pub proof fn lemma_merge_keys(
    ctx: SortContext,
    clauses: List<JoinClause>,
    outer_relids: Relids,
    current: Option<PathKey>,
    outer_rest: List<PathKey>,
    inner_used: List<PathKey>,
    inner_rest: List<PathKey>,
)
    ensures
        merge_keys(
            ctx,
            clauses,
            outer_relids,
            current,
            outer_rest,
            inner_used,
            inner_rest,
        ) matches Ok(keys) ==> keys@.len() == clauses@.len(),
    decreases clauses,
{
    if let List::Cons(c, cs) = clauses {
        let (oec, iec) = if is_switched(c, outer_relids) {
            (c.right_ec, c.left_ec)
        } else {
            (c.left_ec, c.right_ec)
        };
        if let Some((o, orest)) = next_outer(current, outer_rest, oec) {
            if let Some((i, iused, irest, first_use)) = next_inner(inner_used, inner_rest, iec) {
                lemma_merge_keys(ctx, *cs, outer_relids, Some(o), orest, iused, irest);
            }
        }
    }
}

/// Every clause that a join hashes or merges by compares the outer side with
/// the inner one: as it is written where its right side does not belong to the
/// outer relations, and else with the sides exchanged and the operator that does
/// the same then.
pub proof fn lemma_outer_on_left(clauses: List<JoinClause>, outer_relids: Relids, i: int)
    requires
        0 <= i < clauses@.len(),
        switched_clauses(clauses, outer_relids) is Ok,
    ensures
        ({
            let j = switched_clauses(clauses, outer_relids)->Ok_0;
            let c = clauses@[i];
            let exchanged = forall|m: u32| #[trigger]
                c.right_relids@.contains(m) ==> outer_relids@.contains(m);
            c.rinfo.clause matches Expr::Call { head: Head::Op { opno, .. }, args } && args@.len()
                >= 2 && j.outer_keys@[i] == args@[if exchanged {
                1
            } else {
                0
            }] && j.inner_keys@[i] == args@[if exchanged {
                0
            } else {
                1
            }] && j.operators@[i] == (if exchanged {
                c.commutator
            } else {
                opno
            }) && (exchanged ==> c.commutator != 0)
        }),
    decreases clauses,
{
    lemma_switched_lengths(clauses, outer_relids);
    if let List::Cons(c, cs) = clauses {
        assert(clauses@[0] == c);
        if i > 0 {
            lemma_outer_on_left(*cs, outer_relids, i - 1);
            lemma_switched_lengths(*cs, outer_relids);
            assert(clauses@[i] == cs@[i - 1]);
            let all = switched_clauses(clauses, outer_relids)->Ok_0;
            let rest = switched_clauses(*cs, outer_relids)->Ok_0;
            assert(all.outer_keys@[i] == rest.outer_keys@[i - 1]);
            assert(all.inner_keys@[i] == rest.inner_keys@[i - 1]);
            assert(all.operators@[i] == rest.operators@[i - 1]);
        } else {
            let args = c.rinfo.clause->args;
            if let List::Cons(a, rest) = *args {
                if let List::Cons(b, more) = *rest {
                    assert(rest@ == seq![b] + more@);
                    assert(args@[0] == a && args@[1] == b);
                }
            }
            let right = crate::relids::ids(c.right_relids);
            let left = crate::relids::ids(outer_relids);
            if right.subset_of(left) {
                assert forall|m: u32| #[trigger]
                    c.right_relids@.contains(m) implies outer_relids@.contains(m) by {
                    assert(right.contains(m));
                }
            } else {
                let m = choose|m: u32| right.contains(m) && !left.contains(m);
                assert(c.right_relids@.contains(m) && !outer_relids@.contains(m));
            }
        }
    }
}

/// The key is that of one of the orders that is for the equivalence class.
pub open spec fn is_key_of(order: Seq<PathKey>, eclass: u32, ctx: SortContext, k: MergeKey) -> bool {
    exists|j: int|
        0 <= j < order.len() && (#[trigger] order[j]).eclass == eclass && k.family
            == order[j].opfamily && k.collation == class_collation(ctx, order[j].eclass)
            && k.nulls_first == order[j].nulls_first && (k.reversed <==> order[j].direction
            == OrderTest::Greater)
}

/// What is left of an order, with the key at hand before it.
pub open spec fn with_current(current: Option<PathKey>, rest: Seq<PathKey>) -> Seq<PathKey> {
    match current {
        Some(k) => seq![k] + rest,
        None => rest,
    }
}

/// A merge join compares by each of its clauses as the order of the outer side
/// has it: by a key of that order for the outer side of the clause, in its
/// direction, and with nulls on its side.
pub proof fn lemma_merge_directions(
    ctx: SortContext,
    clauses: List<JoinClause>,
    outer_relids: Relids,
    current: Option<PathKey>,
    outer_rest: List<PathKey>,
    inner_used: List<PathKey>,
    inner_rest: List<PathKey>,
    i: int,
)
    requires
        0 <= i < clauses@.len(),
    ensures
        merge_keys(
            ctx,
            clauses,
            outer_relids,
            current,
            outer_rest,
            inner_used,
            inner_rest,
        ) matches Ok(keys) ==> keys@.len() == clauses@.len() && is_key_of(
            with_current(current, outer_rest@),
            if is_switched(clauses@[i], outer_relids) {
                clauses@[i].right_ec
            } else {
                clauses@[i].left_ec
            },
            ctx,
            keys@[i],
        ),
    decreases clauses,
{
    lemma_merge_keys(ctx, clauses, outer_relids, current, outer_rest, inner_used, inner_rest);
    if let List::Cons(c, cs) = clauses {
        let (oec, iec) = if is_switched(c, outer_relids) {
            (c.right_ec, c.left_ec)
        } else {
            (c.left_ec, c.right_ec)
        };
        assert(clauses@[0] == c);
        if let Some((o, orest)) = next_outer(current, outer_rest, oec) {
            let pool = with_current(current, outer_rest@);
            let next = with_current(Some(o), orest@);
            lemma_next_outer(current, outer_rest, oec);
            if let Some((k, iused, irest, first_use)) = next_inner(inner_used, inner_rest, iec) {
                if let Ok(keys) = merge_keys(
                    ctx,
                    clauses,
                    outer_relids,
                    current,
                    outer_rest,
                    inner_used,
                    inner_rest,
                ) {
                    let more = merge_keys(ctx, *cs, outer_relids, Some(o), orest, iused, irest)->Ok_0;
                    if i == 0 {
                        let j = choose|j: int| 0 <= j < pool.len() && pool[j] == o;
                        assert(pool[j].eclass == oec);
                    } else {
                        lemma_merge_directions(
                            ctx,
                            *cs,
                            outer_relids,
                            Some(o),
                            orest,
                            iused,
                            irest,
                            i - 1,
                        );
                        assert(clauses@[i] == cs@[i - 1]);
                        assert(keys@[i] == more@[i - 1]);
                        let ec = if is_switched(clauses@[i], outer_relids) {
                            clauses@[i].right_ec
                        } else {
                            clauses@[i].left_ec
                        };
                        let j = choose|j: int|
                            0 <= j < next.len() && (#[trigger] next[j]).eclass == ec
                                && keys@[i].family == next[j].opfamily && keys@[i].collation
                                == class_collation(ctx, next[j].eclass) && keys@[i].nulls_first
                                == next[j].nulls_first && (keys@[i].reversed <==> next[j].direction
                                == OrderTest::Greater);
                        assert(pool.contains(next[j]));
                        let q = choose|q: int| 0 <= q < pool.len() && pool[q] == next[j];
                        assert(pool[q].eclass == ec);
                    }
                }
            }
        }
    }
}

proof fn lemma_next_outer(current: Option<PathKey>, rest: List<PathKey>, ec: u32)
    ensures
        next_outer(current, rest, ec) matches Some((o, left)) ==> {
            &&& o.eclass == ec
            &&& with_current(current, rest@).contains(o)
            &&& forall|j: int|
                0 <= j < with_current(Some(o), left@).len() ==> with_current(
                    current,
                    rest@,
                ).contains(#[trigger] with_current(Some(o), left@)[j])
        },
{
    if let Some((o, left)) = next_outer(current, rest, ec) {
        let pool = with_current(current, rest@);
        let next = with_current(Some(o), left@);
        if current == Some(o) && left == rest {
            assert(pool[0] == o);
            assert forall|j: int| 0 <= j < next.len() implies pool.contains(#[trigger] next[j]) by {
                assert(next[j] == pool[j]);
            }
        } else if let List::Cons(k, ks) = rest {
            let at = if current is Some {
                1int
            } else {
                0int
            };
            assert(rest@[0] == k);
            assert(pool[at] == k);
            assert forall|j: int| 0 <= j < next.len() implies pool.contains(#[trigger] next[j]) by {
                if j == 0 {
                    assert(pool[at] == next[0]);
                } else {
                    assert(next[j] == left@[j - 1]);
                    assert(rest@[j] == ks@[j - 1]);
                    assert(pool[at + j] == rest@[j]);
                }
            }
        }
    }
}

} // verus!

//! Restriction clauses, and how plans order and select them.
use vstd::prelude::*;
use crate::expr::{list_member, Expr};
use crate::list::List;
use crate::relids::Relids;

verus! {

/// A restriction clause.
#[derive(Debug)]
pub struct Rinfo {
    pub id: u32,
    pub clause: Expr,
    /// It holds no variable of the level at hand.
    pub pseudoconstant: bool,
    pub leakproof: bool,
    pub security_level: u32,
    /// What one evaluation costs, as the bits of a nonnegative floating-point
    /// number, which order as the numbers do.
    pub per_tuple: u64,
    pub parent_ec: Option<u32>,
    /// It was pushed down to the join rather than written for it.
    pub pushed_down: bool,
}

impl Rinfo {
    /// A second one with the same contents.
    pub fn copy(&self) -> (r: Rinfo)
        ensures
            r == *self,
    {
        Rinfo {
            id: self.id,
            clause: self.clause.copy(),
            pseudoconstant: self.pseudoconstant,
            leakproof: self.leakproof,
            security_level: self.security_level,
            per_tuple: self.per_tuple,
            parent_ec: self.parent_ec,
            pushed_down: self.pushed_down,
        }
    }
}

/// A second list of the same clauses.
pub fn copy_rinfos(l: &List<Rinfo>) -> (r: List<Rinfo>)
    ensures
        r == *l,
    decreases l,
{
    match l {
        List::Nil => List::Nil,
        List::Cons(x, xs) => List::Cons(x.copy(), Box::new(copy_rinfos(xs))),
    }
}

/// The level that decides when a clause is evaluated: a leakproof clause that
/// costs less than `cheap` may run ahead of all others.
pub open spec fn effective_level(r: Rinfo, cheap: u64) -> u32 {
    if r.leakproof && r.per_tuple < cheap {
        0
    } else {
        r.security_level
    }
}

/// `a` may be evaluated before `b`: its level is lower, or the levels are the
/// same and it costs no more.
pub open spec fn evaluates_before(a: Rinfo, b: Rinfo, cheap: u64) -> bool {
    let la = effective_level(a, cheap);
    let lb = effective_level(b, cheap);
    la < lb || (la == lb && a.per_tuple <= b.per_tuple)
}

fn may_precede(a: &Rinfo, b: &Rinfo, cheap: u64) -> (r: bool)
    ensures
        r == evaluates_before(*a, *b, cheap),
{
    let la: u32 = if a.leakproof && a.per_tuple < cheap {
        0
    } else {
        a.security_level
    };
    let lb: u32 = if b.leakproof && b.per_tuple < cheap {
        0
    } else {
        b.security_level
    };
    la < lb || (la == lb && a.per_tuple <= b.per_tuple)
}

/// The list with `x` put before the first clause that it may precede.
pub open spec fn insert_qual(x: Rinfo, sorted: List<Rinfo>, cheap: u64) -> List<Rinfo>
    decreases sorted,
{
    match sorted {
        List::Nil => List::Cons(x, Box::new(List::Nil)),
        List::Cons(y, more) => if evaluates_before(x, y, cheap) {
            List::Cons(x, Box::new(sorted))
        } else {
            List::Cons(y, Box::new(insert_qual(x, *more, cheap)))
        },
    }
}

/// The clauses in the order in which they are evaluated.
pub open spec fn ordered_quals(clauses: List<Rinfo>, cheap: u64) -> List<Rinfo>
    decreases clauses,
{
    match clauses {
        List::Nil => List::Nil,
        List::Cons(x, more) => insert_qual(x, ordered_quals(*more, cheap), cheap),
    }
}

fn insert_ordered(x: Rinfo, sorted: List<Rinfo>, cheap: u64) -> (r: List<Rinfo>)
    ensures
        r == insert_qual(x, sorted, cheap),
    decreases sorted,
{
    match sorted {
        List::Nil => List::Cons(x, Box::new(List::Nil)),
        List::Cons(y, more) => if may_precede(&x, &y, cheap) {
            List::Cons(x, Box::new(List::Cons(y, more)))
        } else {
            List::Cons(y, Box::new(insert_ordered(x, *more, cheap)))
        },
    }
}

/// Sorts the clauses by security level and cost, keeping the order of those
/// that do not differ in either.
pub fn order_qual_clauses(clauses: &List<Rinfo>, cheap: u64) -> (r: List<Rinfo>)
    ensures
        r == ordered_quals(*clauses, cheap),
    decreases clauses,
{
    match clauses {
        List::Nil => List::Nil,
        List::Cons(x, more) => insert_ordered(x.copy(), order_qual_clauses(more, cheap), cheap),
    }
}

/// Those of the clauses that have the given level and cost.
pub open spec fn quals_with_key(clauses: Seq<Rinfo>, level: u32, cost: u64, cheap: u64) -> Seq<
    Rinfo,
> {
    clauses.filter(|r: Rinfo| effective_level(r, cheap) == level && r.per_tuple == cost)
}

/// The clauses are in the order of evaluation.
pub open spec fn is_ordered(clauses: Seq<Rinfo>, cheap: u64) -> bool {
    forall|i: int, j: int|
        0 <= i <= j < clauses.len() ==> evaluates_before(
            #[trigger] clauses[i],
            #[trigger] clauses[j],
            cheap,
        )
}

/// Selecting from a list is selecting from its first element and its others.
pub proof fn lemma_filter_cons<T>(head: T, tail: Seq<T>, f: spec_fn(T) -> bool)
    ensures
        (seq![head] + tail).filter(f) == (if f(head) {
            seq![head] + tail.filter(f)
        } else {
            tail.filter(f)
        }),
    decreases tail.len(),
{
    reveal(Seq::filter);
    let all = seq![head] + tail;
    if tail.len() == 0 {
        assert(all =~= seq![head]);
        assert(all.drop_last() =~= Seq::<T>::empty());
        assert(tail =~= Seq::<T>::empty());
        assert(tail.filter(f) =~= Seq::<T>::empty());
        assert(all.last() == head);
        assert(all.filter(f) == (if f(head) {
            all.drop_last().filter(f).push(head)
        } else {
            all.drop_last().filter(f)
        }));
        assert(all.filter(f) =~= (if f(head) {
            seq![head] + tail.filter(f)
        } else {
            tail.filter(f)
        }));
    } else {
        assert(all.drop_last() =~= seq![head] + tail.drop_last());
        assert(all.last() == tail.last());
        lemma_filter_cons(head, tail.drop_last(), f);
        assert(all.filter(f) =~= (if f(head) {
            seq![head] + tail.filter(f)
        } else {
            tail.filter(f)
        }));
    }
}

proof fn lemma_insert_qual(
    x: Rinfo,
    sorted: List<Rinfo>,
    cheap: u64,
    level: u32,
    cost: u64,
)
    requires
        is_ordered(sorted@, cheap),
    ensures
        is_ordered(insert_qual(x, sorted, cheap)@, cheap),
        quals_with_key(insert_qual(x, sorted, cheap)@, level, cost, cheap) == quals_with_key(
            seq![x] + sorted@,
            level,
            cost,
            cheap,
        ),
        forall|i: int|
            0 <= i < insert_qual(x, sorted, cheap)@.len() ==> {
                ||| #[trigger] insert_qual(x, sorted, cheap)@[i] == x
                ||| sorted@.contains(insert_qual(x, sorted, cheap)@[i])
            },
    decreases sorted,
{
    let f = |r: Rinfo| effective_level(r, cheap) == level && r.per_tuple == cost;
    let result = insert_qual(x, sorted, cheap);
    match sorted {
        List::Nil => {
            let none: List<Rinfo> = List::Nil;
            assert(none@ =~= Seq::<Rinfo>::empty());
            assert(result@ =~= seq![x] + none@);
        },
        List::Cons(y, more) => {
            assert(sorted@ == seq![y] + more@);
            assert(sorted@[0] == y);
            assert(sorted@.drop_first() =~= more@);
            if evaluates_before(x, y, cheap) {
                assert(result@ == seq![x] + sorted@);
                assert forall|i: int, j: int| 0 <= i <= j < result@.len() implies evaluates_before(
                    #[trigger] result@[i],
                    #[trigger] result@[j],
                    cheap,
                ) by {
                    if i > 0 {
                        assert(result@[i] == sorted@[i - 1]);
                        assert(result@[j] == sorted@[j - 1]);
                    } else if j > 0 {
                        assert(result@[j] == sorted@[j - 1]);
                        assert(evaluates_before(sorted@[0], sorted@[j - 1], cheap));
                    }
                }
                assert forall|i: int| 0 <= i < result@.len() implies #[trigger] result@[i] == x
                    || sorted@.contains(result@[i]) by {
                    if i > 0 {
                        assert(result@[i] == sorted@[i - 1]);
                    }
                }
            } else {
                let tail = insert_qual(x, *more, cheap);
                assert forall|i: int, j: int| 0 <= i <= j < more@.len() implies evaluates_before(
                    #[trigger] more@[i],
                    #[trigger] more@[j],
                    cheap,
                ) by {
                    assert(sorted@[i + 1] == more@[i]);
                    assert(sorted@[j + 1] == more@[j]);
                }
                lemma_insert_qual(x, *more, cheap, level, cost);
                assert(result@ == seq![y] + tail@);
                assert forall|i: int, j: int| 0 <= i <= j < result@.len() implies evaluates_before(
                    #[trigger] result@[i],
                    #[trigger] result@[j],
                    cheap,
                ) by {
                    if i > 0 {
                        assert(result@[i] == tail@[i - 1]);
                        assert(result@[j] == tail@[j - 1]);
                    } else if j > 0 {
                        assert(result@[j] == tail@[j - 1]);
                        if tail@[j - 1] != x {
                            assert(more@.contains(tail@[j - 1]));
                            let k = choose|k: int| 0 <= k < more@.len() && more@[k] == tail@[j - 1];
                            assert(sorted@[k + 1] == more@[k]);
                        }
                    }
                }
                assert forall|i: int| 0 <= i < result@.len() implies #[trigger] result@[i] == x
                    || sorted@.contains(result@[i]) by {
                    if i == 0 {
                        assert(sorted@[0] == result@[0]);
                    } else {
                        assert(result@[i] == tail@[i - 1]);
                        if tail@[i - 1] != x {
                            let k = choose|k: int| 0 <= k < more@.len() && more@[k] == tail@[i - 1];
                            assert(sorted@[k + 1] == more@[k]);
                        }
                    }
                }
                lemma_filter_cons(y, tail@, f);
                lemma_filter_cons(x, more@, f);
                lemma_filter_cons(y, more@, f);
                lemma_filter_cons(x, sorted@, f);
                assert(!(f(x) && f(y)));
                assert(result@.filter(f) =~= (seq![x] + sorted@).filter(f));
            }
        },
    }
}

/// The clauses come out in the order of evaluation, none is lost or added, and
/// those that do not differ in level and cost stay in their order.
pub proof fn lemma_ordered_quals(clauses: List<Rinfo>, cheap: u64, level: u32, cost: u64)
    ensures
        is_ordered(ordered_quals(clauses, cheap)@, cheap),
        quals_with_key(ordered_quals(clauses, cheap)@, level, cost, cheap) == quals_with_key(
            clauses@,
            level,
            cost,
            cheap,
        ),
    decreases clauses,
{
    let f = |r: Rinfo| effective_level(r, cheap) == level && r.per_tuple == cost;
    match clauses {
        List::Nil => {
            assert(clauses@.len() == 0);
        },
        List::Cons(x, more) => {
            lemma_ordered_quals(*more, cheap, level, cost);
            let rest = ordered_quals(*more, cheap);
            lemma_insert_qual(x, rest, cheap, level, cost);
            lemma_filter_cons(x, rest@, f);
            lemma_filter_cons(x, more@, f);
            assert(clauses@ == seq![x] + more@);
        },
    }
}

/// The expression is the constant TRUE.
pub open spec fn is_constant_true(e: Expr) -> bool {
    e matches Expr::Const(c) && !c.isnull && c.value != 0
}

/// The clause is left out of plans: it is evaluated once ahead of them, or is
/// always true.
pub open spec fn is_dropped(r: Rinfo) -> bool {
    r.pseudoconstant || is_constant_true(r.clause)
}

/// Is the clause the constant TRUE?
pub fn rinfo_is_constant_true(r: &Rinfo) -> (b: bool)
    ensures
        b == is_constant_true(r.clause),
{
    match &r.clause {
        Expr::Const(c) => !c.isnull && c.value != 0,
        _ => false,
    }
}

/// The expressions of the clauses that plans evaluate.
pub open spec fn actual_clauses(rinfos: List<Rinfo>) -> List<Expr>
    decreases rinfos,
{
    match rinfos {
        List::Nil => List::Nil,
        List::Cons(r, more) => if is_dropped(r) {
            actual_clauses(*more)
        } else {
            List::Cons(r.clause, Box::new(actual_clauses(*more)))
        },
    }
}

/// The expressions of the clauses, without those that are evaluated once ahead
/// of the plan and those that are always true.
pub fn extract_actual_clauses(rinfos: &List<Rinfo>) -> (r: List<Expr>)
    ensures
        r == actual_clauses(*rinfos),
    decreases rinfos,
{
    match rinfos {
        List::Nil => List::Nil,
        List::Cons(x, more) => {
            let rest = extract_actual_clauses(more);
            if x.pseudoconstant || rinfo_is_constant_true(x) {
                rest
            } else {
                List::Cons(x.clause.copy(), Box::new(rest))
            }
        },
    }
}

/// Of the clauses that plans evaluate, those that were pushed down to the join
/// or those that were not.
pub open spec fn actual_join_clauses(rinfos: List<Rinfo>, pushed_down: bool) -> List<Expr>
    decreases rinfos,
{
    match rinfos {
        List::Nil => List::Nil,
        List::Cons(r, more) => if is_dropped(r) || r.pushed_down != pushed_down {
            actual_join_clauses(*more, pushed_down)
        } else {
            List::Cons(r.clause, Box::new(actual_join_clauses(*more, pushed_down)))
        },
    }
}

/// Splits the clauses of an outer join into those that decide which rows match
/// and those that filter the result.
pub fn extract_actual_join_clauses(rinfos: &List<Rinfo>) -> (r: (List<Expr>, List<Expr>))
    ensures
        r.0 == actual_join_clauses(*rinfos, false),
        r.1 == actual_join_clauses(*rinfos, true),
    decreases rinfos,
{
    match rinfos {
        List::Nil => (List::Nil, List::Nil),
        List::Cons(x, more) => {
            let (joinquals, otherquals) = extract_actual_join_clauses(more);
            if x.pseudoconstant || rinfo_is_constant_true(x) {
                (joinquals, otherquals)
            } else if x.pushed_down {
                (joinquals, List::Cons(x.clause.copy(), Box::new(otherquals)))
            } else {
                (List::Cons(x.clause.copy(), Box::new(joinquals)), otherquals)
            }
        },
    }
}

/// The expressions of the pseudoconstant clauses.
pub open spec fn pseudoconstant_clauses(rinfos: List<Rinfo>) -> List<Expr>
    decreases rinfos,
{
    match rinfos {
        List::Nil => List::Nil,
        List::Cons(r, more) => if r.pseudoconstant {
            List::Cons(r.clause, Box::new(pseudoconstant_clauses(*more)))
        } else {
            pseudoconstant_clauses(*more)
        },
    }
}

fn select_pseudoconstant(rinfos: &List<Rinfo>) -> (r: List<Expr>)
    ensures
        r == pseudoconstant_clauses(*rinfos),
    decreases rinfos,
{
    match rinfos {
        List::Nil => List::Nil,
        List::Cons(x, more) => {
            let rest = select_pseudoconstant(more);
            if x.pseudoconstant {
                List::Cons(x.clause.copy(), Box::new(rest))
            } else {
                rest
            }
        },
    }
}

/// The clauses that are evaluated once, ahead of a plan, in their order.
pub open spec fn gating_quals(
    has_pseudoconstant_quals: bool,
    quals: List<Rinfo>,
    cheap: u64,
) -> List<Expr> {
    if has_pseudoconstant_quals {
        pseudoconstant_clauses(ordered_quals(quals, cheap))
    } else {
        List::Nil
    }
}

/// Selects the clauses that are evaluated once, ahead of a plan.
pub fn get_gating_quals(
    has_pseudoconstant_quals: bool,
    quals: &List<Rinfo>,
    cheap: u64,
) -> (r: List<Expr>)
    ensures
        r == gating_quals(has_pseudoconstant_quals, *quals, cheap),
{
    if !has_pseudoconstant_quals {
        return List::Nil;
    }
    let ordered = order_qual_clauses(quals, cheap);
    select_pseudoconstant(&ordered)
}

/// Every clause is either evaluated once ahead of the plan, always true, or
/// one of those that the plan evaluates.
pub proof fn lemma_no_clause_lost(rinfos: List<Rinfo>, i: int)
    requires
        0 <= i < rinfos@.len(),
    ensures
        rinfos@[i].pseudoconstant ==> pseudoconstant_clauses(rinfos)@.contains(
            rinfos@[i].clause,
        ),
        !is_dropped(rinfos@[i]) ==> actual_clauses(rinfos)@.contains(rinfos@[i].clause),
    decreases rinfos,
{
    if let List::Cons(r, more) = rinfos {
        let x = rinfos@[i].clause;
        assert(rinfos@[0] == r);
        if i > 0 {
            assert(rinfos@[i] == more@[i - 1]);
            lemma_no_clause_lost(*more, i - 1);
        }
        if r.pseudoconstant {
            crate::list::lemma_cons_contains(r.clause, pseudoconstant_clauses(*more), x);
        }
        if !is_dropped(r) {
            crate::list::lemma_cons_contains(r.clause, actual_clauses(*more), x);
        }
    }
}

/// The expressions of all clauses.
pub open spec fn all_clauses(rinfos: List<Rinfo>) -> List<Expr>
    decreases rinfos,
{
    match rinfos {
        List::Nil => List::Nil,
        List::Cons(r, more) => List::Cons(r.clause, Box::new(all_clauses(*more))),
    }
}

/// The expressions of the clauses.
pub fn get_actual_clauses(rinfos: &List<Rinfo>) -> (r: List<Expr>)
    ensures
        r == all_clauses(*rinfos),
    decreases rinfos,
{
    match rinfos {
        List::Nil => List::Nil,
        List::Cons(x, more) => List::Cons(x.clause.copy(), Box::new(get_actual_clauses(more))),
    }
}

/// The expressions of `a` that are not in `b`.
pub open spec fn expr_difference(a: List<Expr>, b: List<Expr>) -> List<Expr>
    decreases a,
{
    match a {
        List::Nil => List::Nil,
        List::Cons(x, more) => if crate::expr::has_same(b, x) {
            expr_difference(*more, b)
        } else {
            List::Cons(x, Box::new(expr_difference(*more, b)))
        },
    }
}

/// The expressions of `a` that are not in `b`, in their order.
pub fn list_difference(a: &List<Expr>, b: &List<Expr>) -> (r: List<Expr>)
    ensures
        r == expr_difference(*a, *b),
    decreases a,
{
    match a {
        List::Nil => List::Nil,
        List::Cons(x, more) => {
            let rest = list_difference(more, b);
            if list_member(b, x) {
                rest
            } else {
                List::Cons(x.copy(), Box::new(rest))
            }
        },
    }
}

/// `dest` and then those of `add` that are not there yet.
pub open spec fn concat_unique(dest: List<Expr>, add: List<Expr>) -> List<Expr>
    decreases add,
{
    match add {
        List::Nil => dest,
        List::Cons(x, more) => if crate::expr::has_same(dest, x) {
            concat_unique(dest, *more)
        } else {
            concat_unique(dest.then_list(List::Cons(x, Box::new(List::Nil))), *more)
        },
    }
}

/// Appends to `dest` those of `add` that are not there yet.
pub fn list_concat_unique(dest: List<Expr>, add: &List<Expr>) -> (r: List<Expr>)
    ensures
        r == concat_unique(dest, *add),
    decreases add,
{
    match add {
        List::Nil => dest,
        List::Cons(x, more) => if list_member(&dest, x) {
            list_concat_unique(dest, more)
        } else {
            list_concat_unique(dest.append(List::one(x.copy())), more)
        },
    }
}

/// The clause comes from the same equivalence class as one of `others`.
pub open spec fn derived_like(rinfo: Rinfo, others: Seq<Rinfo>) -> bool {
    rinfo.parent_ec is Some && exists|i: int|
        0 <= i < others.len() && (#[trigger] others[i]).parent_ec == rinfo.parent_ec
}

/// Is the clause implied by one of `others` that comes from the same
/// equivalence class?
pub fn is_redundant_derived_clause(rinfo: &Rinfo, others: &List<Rinfo>) -> (r: bool)
    ensures
        r == derived_like(*rinfo, others@),
    decreases others,
{
    match others {
        List::Nil => false,
        List::Cons(o, more) => {
            proof {
                assert(others@[0] == o);
                assert(others@.drop_first() =~= more@);
                if derived_like(*rinfo, more@) {
                    let i = choose|i: int|
                        0 <= i < more@.len() && (#[trigger] more@[i]).parent_ec == rinfo.parent_ec;
                    assert(others@[i + 1] == more@[i]);
                }
                if derived_like(*rinfo, others@) && o.parent_ec != rinfo.parent_ec {
                    let i = choose|i: int|
                        0 <= i < others@.len() && (#[trigger] others@[i]).parent_ec
                            == rinfo.parent_ec;
                    assert(others@[i] == more@[i - 1]);
                }
            }
            let same = match (rinfo.parent_ec, o.parent_ec) {
                (Some(a), Some(b)) => a == b,
                _ => false,
            };
            same || is_redundant_derived_clause(rinfo, more)
        },
    }
}

proof fn lemma_has_same_then(a: List<Expr>, b: List<Expr>, x: Expr)
    ensures
        crate::expr::has_same(a.then_list(b), x) <==> crate::expr::has_same(a, x)
            || crate::expr::has_same(b, x),
    decreases a,
{
    if let List::Cons(_, xs) = a {
        lemma_has_same_then(*xs, b, x);
    }
}

/// Adding expressions to others loses none: what was there stays, and what is
/// added is there, itself or one that equals it.
pub proof fn lemma_concat_unique(dest: List<Expr>, add: List<Expr>, x: Expr)
    ensures
        crate::expr::has_same(dest, x) ==> crate::expr::has_same(concat_unique(dest, add), x),
        add@.contains(x) ==> crate::expr::has_same(concat_unique(dest, add), x),
    decreases add,
{
    match add {
        List::Nil => {
            assert(add@.len() == 0);
        },
        List::Cons(y, more) => {
            let one = List::Cons(y, Box::new(List::Nil));
            crate::list::lemma_cons_contains(y, *more, x);
            crate::expr::lemma_same_reflexive(y);
            assert(crate::expr::has_same(one, y));
            lemma_has_same_then(dest, one, x);
            lemma_has_same_then(dest, one, y);
            lemma_concat_unique(dest, *more, x);
            lemma_concat_unique(dest.then_list(one), *more, x);
            if x == y {
                lemma_concat_unique(dest, *more, y);
                lemma_concat_unique(dest.then_list(one), *more, y);
            }
        },
    }
}

/// The clause is one that is tested for each row: it depends on the rows, and
/// is not just the constant TRUE.
pub open spec fn is_row_test(r: Rinfo) -> bool {
    !r.pseudoconstant && !(r.clause matches Expr::Const(c) && !c.isnull && c.value != 0)
}

/// The expression is that of one of the wanted clauses, as it is shown.
pub open spec fn comes_from(
    clauses: Seq<Rinfo>,
    wanted: spec_fn(Rinfo) -> bool,
    shown: spec_fn(Expr) -> Expr,
    e: Expr,
) -> bool {
    exists|i: int|
        0 <= i < clauses.len() && wanted(#[trigger] clauses[i]) && shown(clauses[i].clause) == e
}

/// The expressions are those of the wanted clauses, as they are shown: every
/// wanted clause is there, nothing else is, and there are as many as there are
/// wanted clauses.
pub open spec fn picks(
    clauses: Seq<Rinfo>,
    wanted: spec_fn(Rinfo) -> bool,
    shown: spec_fn(Expr) -> Expr,
    result: Seq<Expr>,
) -> bool {
    &&& forall|i: int|
        0 <= i < clauses.len() && wanted(#[trigger] clauses[i]) ==> result.contains(
            shown(clauses[i].clause),
        )
    &&& forall|k: int|
        0 <= k < result.len() ==> comes_from(clauses, wanted, shown, #[trigger] result[k])
    &&& result.len() == clauses.filter(wanted).len()
}

proof fn lemma_inserted(x: Rinfo, sorted: List<Rinfo>, cheap: u64, f: spec_fn(Rinfo) -> bool, r: Rinfo)
    ensures
        insert_qual(x, sorted, cheap)@.contains(r) <==> r == x || sorted@.contains(r),
        insert_qual(x, sorted, cheap)@.filter(f).len() == (seq![x] + sorted@).filter(f).len(),
    decreases sorted,
{
    match sorted {
        List::Nil => {
            let none: List<Rinfo> = List::Nil;
            assert(insert_qual(x, sorted, cheap)@ =~= seq![x] + none@);
            crate::list::lemma_cons_contains(x, none, r);
        },
        List::Cons(y, more) => {
            crate::list::lemma_cons_contains(y, *more, r);
            if evaluates_before(x, y, cheap) {
                crate::list::lemma_cons_contains(x, sorted, r);
            } else {
                let tail = insert_qual(x, *more, cheap);
                lemma_inserted(x, *more, cheap, f, r);
                crate::list::lemma_cons_contains(y, tail, r);
                lemma_filter_cons(y, tail@, f);
                lemma_filter_cons(x, more@, f);
                lemma_filter_cons(y, more@, f);
                lemma_filter_cons(x, sorted@, f);
            }
        },
    }
}

proof fn lemma_reordered(clauses: List<Rinfo>, cheap: u64, f: spec_fn(Rinfo) -> bool, r: Rinfo)
    ensures
        ordered_quals(clauses, cheap)@.contains(r) <==> clauses@.contains(r),
        ordered_quals(clauses, cheap)@.filter(f).len() == clauses@.filter(f).len(),
    decreases clauses,
{
    if let List::Cons(x, more) = clauses {
        let rest = ordered_quals(*more, cheap);
        lemma_reordered(*more, cheap, f, r);
        lemma_inserted(x, rest, cheap, f, r);
        crate::list::lemma_cons_contains(x, *more, r);
        lemma_filter_cons(x, rest@, f);
        lemma_filter_cons(x, more@, f);
    }
}

/// What is picked from the clauses in the order of their tests is picked from
/// the clauses.
pub proof fn lemma_picked_in_order(
    clauses: List<Rinfo>,
    cheap: u64,
    wanted: spec_fn(Rinfo) -> bool,
    shown: spec_fn(Expr) -> Expr,
    result: Seq<Expr>,
)
    requires
        result == ordered_quals(clauses, cheap)@.filter(wanted).map_values(
            |r: Rinfo| shown(r.clause),
        ),
    ensures
        picks(clauses@, wanted, shown, result),
{
    let ordered = ordered_quals(clauses, cheap)@;
    let kept = ordered.filter(wanted);
    lemma_reordered(clauses, cheap, wanted, clauses@[0]);
    assert forall|i: int| 0 <= i < clauses@.len() && wanted(#[trigger] clauses@[i]) implies result.contains(
        shown(clauses@[i].clause),
    ) by {
        lemma_reordered(clauses, cheap, wanted, clauses@[i]);
        let j = choose|j: int| 0 <= j < ordered.len() && ordered[j] == clauses@[i];
        ordered.lemma_filter_contains(wanted, j);
        let k = choose|k: int| 0 <= k < kept.len() && kept[k] == clauses@[i];
        assert(result[k] == shown(clauses@[i].clause));
    }
    assert forall|k: int| 0 <= k < result.len() implies comes_from(
        clauses@,
        wanted,
        shown,
        #[trigger] result[k],
    ) by {
        ordered.lemma_filter_pred(wanted, k);
        ordered.lemma_filter_contains_rev(wanted, kept[k]);
        lemma_reordered(clauses, cheap, wanted, kept[k]);
        let i = choose|i: int| 0 <= i < clauses@.len() && clauses@[i] == kept[k];
        assert(wanted(clauses@[i]) && shown(clauses@[i].clause) == result[k]);
    }
}

/// The expression as it is tested by a plan whose path takes parameters from
/// outer relations, or does not.
pub open spec fn as_tested(parameterized: bool, outer: Relids) -> spec_fn(Expr) -> Expr {
    |e: Expr|
        if parameterized {
            crate::expr::bind(e, outer)
        } else {
            e
        }
}

proof fn lemma_mapped_cons(head: Rinfo, tail: Seq<Rinfo>, shown: spec_fn(Expr) -> Expr)
    ensures
        (seq![head] + tail).map_values(|r: Rinfo| shown(r.clause)) == seq![shown(head.clause)]
            + tail.map_values(|r: Rinfo| shown(r.clause)),
{
    let f = |r: Rinfo| shown(r.clause);
    assert((seq![head] + tail).map_values(f) =~= seq![f(head)] + tail.map_values(f));
}

/// The clauses that a plan tests are those that are to be tested for each row,
/// without those that equal one of `own`.
pub proof fn lemma_actual_picked(
    clauses: List<Rinfo>,
    own: List<Expr>,
    parameterized: bool,
    outer: Relids,
)
    ensures
        crate::expr::bind_list_if(
            expr_difference(actual_clauses(clauses), own),
            parameterized,
            outer,
        )@ == clauses@.filter(
            |r: Rinfo| is_row_test(r) && !crate::expr::has_same(own, r.clause),
        ).map_values(|r: Rinfo| as_tested(parameterized, outer)(r.clause)),
    decreases clauses,
{
    let f = |r: Rinfo| is_row_test(r) && !crate::expr::has_same(own, r.clause);
    let shown = as_tested(parameterized, outer);
    match clauses {
        List::Nil => {
            reveal(Seq::filter);
            assert(clauses@.filter(f).map_values(|r: Rinfo| shown(r.clause)) =~= Seq::<Expr>::empty());
        },
        List::Cons(x, more) => {
            lemma_actual_picked(*more, own, parameterized, outer);
            lemma_filter_cons(x, more@, f);
            lemma_mapped_cons(x, more@.filter(f), shown);
        },
    }
}

/// The same for the clauses that were pushed down to a join, or those that
/// were not.
pub proof fn lemma_actual_join_picked(
    clauses: List<Rinfo>,
    pushed_down: bool,
    own: List<Expr>,
    parameterized: bool,
    outer: Relids,
)
    ensures
        crate::expr::bind_list_if(
            expr_difference(actual_join_clauses(clauses, pushed_down), own),
            parameterized,
            outer,
        )@ == clauses@.filter(
            |r: Rinfo|
                is_row_test(r) && r.pushed_down == pushed_down && !crate::expr::has_same(
                    own,
                    r.clause,
                ),
        ).map_values(|r: Rinfo| as_tested(parameterized, outer)(r.clause)),
    decreases clauses,
{
    let f = |r: Rinfo|
        is_row_test(r) && r.pushed_down == pushed_down && !crate::expr::has_same(own, r.clause);
    let shown = as_tested(parameterized, outer);
    match clauses {
        List::Nil => {
            reveal(Seq::filter);
            assert(clauses@.filter(f).map_values(|r: Rinfo| shown(r.clause)) =~= Seq::<Expr>::empty());
        },
        List::Cons(x, more) => {
            lemma_actual_join_picked(*more, pushed_down, own, parameterized, outer);
            lemma_filter_cons(x, more@, f);
            lemma_mapped_cons(x, more@.filter(f), shown);
        },
    }
}

/// Taking away nothing changes nothing.
pub proof fn lemma_difference_nothing(l: List<Expr>)
    ensures
        expr_difference(l, List::Nil) == l,
    decreases l,
{
    if let List::Cons(_, more) = l {
        lemma_difference_nothing(*more);
    }
}

proof fn lemma_filter_twice<T>(s: Seq<T>, f: spec_fn(T) -> bool, g: spec_fn(T) -> bool)
    ensures
        s.filter(f).filter(g) == s.filter(|x: T| f(x) && g(x)),
    decreases s.len(),
{
    reveal(Seq::filter);
    let h = |x: T| f(x) && g(x);
    if s.len() > 0 {
        let rest = s.drop_last();
        lemma_filter_twice(rest, f, g);
        if f(s.last()) {
            let kept = rest.filter(f).push(s.last());
            assert(kept.drop_last() =~= rest.filter(f));
            assert(kept.last() == s.last());
        }
    }
}

/// What is picked from clauses that were kept is picked from all of them.
pub proof fn lemma_picked_from_kept(
    clauses: Seq<Rinfo>,
    kept: spec_fn(Rinfo) -> bool,
    wanted: spec_fn(Rinfo) -> bool,
    shown: spec_fn(Expr) -> Expr,
    result: Seq<Expr>,
)
    requires
        picks(clauses.filter(kept), wanted, shown, result),
    ensures
        picks(clauses, |r: Rinfo| kept(r) && wanted(r), shown, result),
{
    let both = |r: Rinfo| kept(r) && wanted(r);
    let rest = clauses.filter(kept);
    lemma_filter_twice(clauses, kept, wanted);
    assert forall|i: int| 0 <= i < clauses.len() && both(#[trigger] clauses[i]) implies result.contains(
        shown(clauses[i].clause),
    ) by {
        clauses.lemma_filter_contains(kept, i);
        let j = choose|j: int| 0 <= j < rest.len() && rest[j] == clauses[i];
        assert(wanted(rest[j]));
    }
    assert forall|k: int| 0 <= k < result.len() implies comes_from(
        clauses,
        both,
        shown,
        #[trigger] result[k],
    ) by {
        assert(comes_from(rest, wanted, shown, result[k]));
        let j = choose|j: int|
            0 <= j < rest.len() && wanted(#[trigger] rest[j]) && shown(rest[j].clause) == result[k];
        clauses.lemma_filter_pred(kept, j);
        clauses.lemma_filter_contains_rev(kept, rest[j]);
        let i = choose|i: int| 0 <= i < clauses.len() && clauses[i] == rest[j];
        assert(both(clauses[i]));
    }
}

/// The tests of a plan for each row are those clauses that are to be tested for
/// each row.
pub proof fn lemma_tests_picked(
    clauses: List<Rinfo>,
    cheap: u64,
    parameterized: bool,
    outer: Relids,
)
    ensures
        picks(
            clauses@,
            |r: Rinfo| is_row_test(r),
            as_tested(parameterized, outer),
            crate::expr::bind_list_if(
                actual_clauses(ordered_quals(clauses, cheap)),
                parameterized,
                outer,
            )@,
        ),
{
    let ordered = ordered_quals(clauses, cheap);
    let none: List<Expr> = List::Nil;
    lemma_actual_picked(ordered, none, parameterized, outer);
    lemma_difference_nothing(actual_clauses(ordered));
    let f = |r: Rinfo| is_row_test(r) && !crate::expr::has_same(none, r.clause);
    let g = |r: Rinfo| is_row_test(r);
    assert(f =~= g);
    lemma_picked_in_order(
        clauses,
        cheap,
        g,
        as_tested(parameterized, outer),
        crate::expr::bind_list_if(actual_clauses(ordered), parameterized, outer)@,
    );
}

proof fn lemma_constants_picked(clauses: List<Rinfo>)
    ensures
        pseudoconstant_clauses(clauses)@ == clauses@.filter(
            |r: Rinfo| r.pseudoconstant,
        ).map_values(|r: Rinfo| r.clause),
    decreases clauses,
{
    let f = |r: Rinfo| r.pseudoconstant;
    let shown = |e: Expr| e;
    match clauses {
        List::Nil => {
            reveal(Seq::filter);
            assert(clauses@.filter(f).map_values(|r: Rinfo| r.clause) =~= Seq::<Expr>::empty());
        },
        List::Cons(x, more) => {
            lemma_constants_picked(*more);
            lemma_filter_cons(x, more@, f);
            let kept = more@.filter(f);
            assert((seq![x] + kept).map_values(|r: Rinfo| r.clause) =~= seq![x.clause]
                + kept.map_values(|r: Rinfo| r.clause));
        },
    }
}

/// The conditions that are tested once, ahead of a plan, are the clauses that
/// do not depend on its rows.
pub proof fn lemma_gating_picked(has_pseudoconstant_quals: bool, clauses: List<Rinfo>, cheap: u64)
    ensures
        has_pseudoconstant_quals ==> picks(
            clauses@,
            |r: Rinfo| r.pseudoconstant,
            |e: Expr| e,
            gating_quals(has_pseudoconstant_quals, clauses, cheap)@,
        ),
        gating_quals(has_pseudoconstant_quals, clauses, cheap)@.len() > 0 <==>
            has_pseudoconstant_quals && exists|i: int|
            0 <= i < clauses@.len() && (#[trigger] clauses@[i]).pseudoconstant,
{
    if has_pseudoconstant_quals {
        let ordered = ordered_quals(clauses, cheap);
        let f = |r: Rinfo| r.pseudoconstant;
        let shown = |e: Expr| e;
        let gating = gating_quals(has_pseudoconstant_quals, clauses, cheap)@;
        lemma_constants_picked(ordered);
        assert(ordered@.filter(f).map_values(|r: Rinfo| r.clause) =~= ordered@.filter(f).map_values(
            |r: Rinfo| shown(r.clause),
        ));
        lemma_picked_in_order(clauses, cheap, f, shown, gating);
        if gating.len() > 0 {
            assert(comes_from(clauses@, f, shown, gating[0]));
            let i = choose|i: int|
                0 <= i < clauses@.len() && f(#[trigger] clauses@[i]) && shown(clauses@[i].clause)
                    == gating[0];
            assert(clauses@[i].pseudoconstant);
        }
        if exists|i: int| 0 <= i < clauses@.len() && (#[trigger] clauses@[i]).pseudoconstant {
            let i = choose|i: int|
                0 <= i < clauses@.len() && (#[trigger] clauses@[i]).pseudoconstant;
            assert(f(clauses@[i]));
            assert(gating.contains(shown(clauses@[i].clause)));
        }
    } else {
        let none: List<Expr> = List::Nil;
        assert(none@.len() == 0);
    }
}

} // verus!

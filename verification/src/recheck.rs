//! Conditions that are tested again for rows of a page that is read whole.
use vstd::prelude::*;
use crate::expr::{equal, Expr, Head};
use crate::list::List;
use crate::planindex::make_ands_explicit;
use crate::quals::{rinfo_is_constant_true, Rinfo};

verus! {

/// A condition, and the number of the restriction clause whose very condition
/// it is. A condition that was put together, or that belongs to an index, is
/// nobody's.
#[derive(Debug)]
pub struct Recheck {
    pub expr: Expr,
    pub clause: Option<u32>,
}

impl Recheck {
    /// A second one with the same contents.
    pub fn copy(&self) -> (r: Recheck)
        ensures
            r == *self,
    {
        Recheck { expr: self.expr.copy(), clause: self.clause }
    }
}

/// The conditions alone.
pub open spec fn conditions(l: List<Recheck>) -> List<Expr>
    decreases l,
{
    match l {
        List::Nil => List::Nil,
        List::Cons(x, xs) => List::Cons(x.expr, Box::new(conditions(*xs))),
    }
}

/// Takes the conditions out.
pub fn take_conditions(l: List<Recheck>) -> (r: List<Expr>)
    ensures
        r == conditions(l),
    decreases l,
{
    match l {
        List::Nil => List::Nil,
        List::Cons(x, xs) => {
            let rest = take_conditions(*xs);
            List::Cons(x.expr, Box::new(rest))
        },
    }
}

/// Conditions that belong to no restriction clause.
pub open spec fn unowned(l: List<Expr>) -> List<Recheck>
    decreases l,
{
    match l {
        List::Nil => List::Nil,
        List::Cons(x, xs) => List::Cons(
            Recheck { expr: x, clause: None },
            Box::new(unowned(*xs)),
        ),
    }
}

/// Marks conditions as belonging to no restriction clause.
pub fn disown(l: List<Expr>) -> (r: List<Recheck>)
    ensures
        r == unowned(l),
    decreases l,
{
    match l {
        List::Nil => List::Nil,
        List::Cons(x, xs) => {
            let rest = disown(*xs);
            List::Cons(Recheck { expr: x, clause: None }, Box::new(rest))
        },
    }
}

/// One of the conditions equals `x`.
pub open spec fn tests_same(l: List<Recheck>, x: Expr) -> bool
    decreases l,
{
    match l {
        List::Nil => false,
        List::Cons(y, ys) => crate::expr::same_expr(y.expr, x) || tests_same(*ys, x),
    }
}

fn is_tested(l: &List<Recheck>, x: &Expr) -> (r: bool)
    ensures
        r == tests_same(*l, *x),
    decreases l,
{
    match l {
        List::Nil => false,
        List::Cons(y, ys) => equal(&y.expr, x) || is_tested(ys, x),
    }
}

/// `dest` and then those of `add` that equal none that is there already.
pub open spec fn joined(dest: List<Recheck>, add: List<Recheck>) -> List<Recheck>
    decreases add,
{
    match add {
        List::Nil => dest,
        List::Cons(x, more) => if tests_same(dest, x.expr) {
            joined(dest, *more)
        } else {
            joined(dest.then_list(List::Cons(x, Box::new(List::Nil))), *more)
        },
    }
}

/// Appends to `dest` those of `add` that equal none that is there already.
pub fn join_rechecks(dest: List<Recheck>, add: &List<Recheck>) -> (r: List<Recheck>)
    ensures
        r == joined(dest, *add),
    decreases add,
{
    match add {
        List::Nil => dest,
        List::Cons(x, more) => if is_tested(&dest, &x.expr) {
            join_rechecks(dest, more)
        } else {
            join_rechecks(dest.append(List::one(x.copy())), more)
        },
    }
}

/// All of the conditions as one. A single one stays what it is.
pub open spec fn all_hold(l: List<Recheck>) -> Recheck {
    match l {
        List::Nil => Recheck { expr: crate::planindex::ands_explicit(List::Nil), clause: None },
        List::Cons(x, xs) => if *xs is Nil {
            x
        } else {
            Recheck { expr: crate::planindex::ands_explicit(conditions(l)), clause: None }
        },
    }
}

/// Joins conditions by AND.
pub fn require_all(l: List<Recheck>) -> (r: Recheck)
    ensures
        r == all_hold(l),
{
    match l {
        List::Nil => Recheck { expr: make_ands_explicit(List::Nil), clause: None },
        List::Cons(x, xs) => if xs.is_nil() {
            x
        } else {
            let all = take_conditions(List::Cons(x, xs));
            Recheck { expr: make_ands_explicit(all), clause: None }
        },
    }
}

/// The conditions of branches as a list of at most one: none where one of the
/// branches has no condition, the condition of the only branch as it is, else
/// the branches joined by OR.
pub open spec fn some_hold(branches: List<Recheck>, unconditional: bool) -> List<Recheck> {
    if unconditional {
        List::Nil
    } else {
        match branches {
            List::Nil => List::Nil,
            List::Cons(x, xs) => if *xs is Nil {
                branches
            } else {
                List::Cons(
                    Recheck {
                        expr: Expr::Call {
                            head: Head::Or,
                            args: Box::new(conditions(branches)),
                        },
                        clause: None,
                    },
                    Box::new(List::Nil),
                )
            },
        }
    }
}

/// Joins the conditions of branches by OR.
pub fn require_one(branches: List<Recheck>, unconditional: bool) -> (r: List<Recheck>)
    ensures
        r == some_hold(branches, unconditional),
{
    if unconditional {
        return List::Nil;
    }
    match branches {
        List::Nil => List::Nil,
        List::Cons(x, xs) => if xs.is_nil() {
            List::Cons(x, xs)
        } else {
            let all = take_conditions(List::Cons(x, xs));
            List::one(
                Recheck { expr: Expr::Call { head: Head::Or, args: Box::new(all) }, clause: None },
            )
        },
    }
}

/// The condition is that of one of the clauses that a plan evaluates, not
/// merely equal to it.
pub open spec fn belongs_to(x: Recheck, clauses: List<Rinfo>) -> bool
    decreases clauses,
{
    match clauses {
        List::Nil => false,
        List::Cons(c, cs) => (x.clause == Some(c.id) && !crate::quals::is_dropped(c))
            || belongs_to(x, *cs),
    }
}

fn is_of(x: &Recheck, clauses: &List<Rinfo>) -> (r: bool)
    ensures
        r == belongs_to(*x, *clauses),
    decreases clauses,
{
    match clauses {
        List::Nil => false,
        List::Cons(c, cs) => {
            let own = match x.clause {
                Some(id) => id == c.id,
                None => false,
            };
            (own && !c.pseudoconstant && !rinfo_is_constant_true(c)) || is_of(x, cs)
        },
    }
}

/// The conditions without those of clauses that are tested anyhow. A clause that
/// no plan evaluates is not.
pub open spec fn left_to_recheck(l: List<Recheck>, tested: List<Rinfo>) -> List<Expr>
    decreases l,
{
    match l {
        List::Nil => List::Nil,
        List::Cons(x, xs) => if belongs_to(x, tested) {
            left_to_recheck(*xs, tested)
        } else {
            List::Cons(x.expr, Box::new(left_to_recheck(*xs, tested)))
        },
    }
}

/// Drops the conditions of clauses that are tested anyhow. A condition that
/// only equals that of such a clause stays.
pub fn drop_tested(l: List<Recheck>, tested: &List<Rinfo>) -> (r: List<Expr>)
    ensures
        r == left_to_recheck(l, *tested),
    decreases l,
{
    match l {
        List::Nil => List::Nil,
        List::Cons(x, xs) => {
            let own = is_of(&x, tested);
            let rest = drop_tested(*xs, tested);
            if own {
                rest
            } else {
                List::Cons(x.expr, Box::new(rest))
            }
        },
    }
}

/// Where no clause is tested, every condition is left.
pub proof fn lemma_nothing_tested(l: List<Recheck>)
    ensures
        left_to_recheck(l, List::Nil) == conditions(l),
    decreases l,
{
    match l {
        List::Nil => {},
        List::Cons(x, xs) => {
            lemma_nothing_tested(*xs);
        },
    }
}

} // verus!

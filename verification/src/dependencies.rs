//! Functional dependencies between columns, and the clauses that they apply
//! to.
use vstd::prelude::*;
use crate::aggorder::longer;
use crate::expr::{equal, strip_label, Expr, Head};
use crate::extstats::{add_counts, find_two_args, OperatorFacts, StatClause, StatInfo, StatKind};
use crate::list::{all_in, check_all_in, count_one, counted, has_number, list_has, List};
use crate::relids::relids_singleton_member;

verus! {

/// The expression is the same for all rows: it refers to no column of the
/// query and to nothing volatile.
pub open spec fn is_constant_like(e: Expr, volatile: List<u32>) -> bool
    decreases e,
{
    match e {
        Expr::Var(v) => v.levelsup > 0,
        Expr::PlaceHolder { phid, levelsup, nullingrels, eval_at, expr } => levelsup > 0
            && is_constant_like(*expr, volatile),
        Expr::Relabel { typid, collation, arg } => is_constant_like(*arg, volatile),
        Expr::Call { head, args } => !is_volatile(head, volatile) && all_constant_like(
            *args,
            volatile,
        ),
        _ => true,
    }
}

/// The operator or function is volatile.
pub open spec fn is_volatile(head: Head, volatile: List<u32>) -> bool {
    match head {
        Head::Op { opno, typid, collation, inputcollid } => volatile@.contains(opno),
        Head::ArrayOp { opno, use_or, inputcollid } => volatile@.contains(opno),
        Head::Func { func, typid, collation } => volatile@.contains(func),
        Head::Distinct { opno, inputcollid } => volatile@.contains(opno),
        _ => false,
    }
}

/// All expressions are the same for all rows.
pub open spec fn all_constant_like(l: List<Expr>, volatile: List<u32>) -> bool
    decreases l,
{
    match l {
        List::Nil => true,
        List::Cons(x, xs) => is_constant_like(x, volatile) && all_constant_like(*xs, volatile),
    }
}

fn check_volatile(head: &Head, volatile: &List<u32>) -> (r: bool)
    ensures
        r == is_volatile(*head, *volatile),
{
    match head {
        Head::Op { opno, .. } => list_has(volatile, *opno),
        Head::ArrayOp { opno, .. } => list_has(volatile, *opno),
        Head::Func { func, .. } => list_has(volatile, *func),
        Head::Distinct { opno, .. } => list_has(volatile, *opno),
        _ => false,
    }
}

/// Is the expression the same for all rows?
pub fn check_constant_like(e: &Expr, volatile: &List<u32>) -> (r: bool)
    ensures
        r == is_constant_like(*e, *volatile),
    decreases e,
{
    match e {
        Expr::Var(v) => v.levelsup > 0,
        Expr::PlaceHolder { levelsup, expr, .. } => *levelsup > 0 && check_constant_like(
            expr,
            volatile,
        ),
        Expr::Relabel { arg, .. } => check_constant_like(arg, volatile),
        Expr::Call { head, args } => !check_volatile(head, volatile) && check_all_constant_like(
            args,
            volatile,
        ),
        _ => true,
    }
}

fn check_all_constant_like(l: &List<Expr>, volatile: &List<u32>) -> (r: bool)
    ensures
        r == all_constant_like(*l, *volatile),
    decreases l,
{
    match l {
        List::Nil => true,
        List::Cons(x, xs) => check_constant_like(x, volatile) && check_all_constant_like(
            xs,
            volatile,
        ),
    }
}

/// What a clause fixes: the operand that is compared with a constant by an
/// equality, or with the elements of one; or the clause itself, negated or
/// not.
pub open spec fn fixed_operand(clause: Expr, facts: OperatorFacts) -> Option<Expr> {
    match clause {
        Expr::Call { head, args } => match head {
            Head::Op { opno, typid, collation, inputcollid } => match crate::extstats::two_args(
                *args,
            ) {
                None => None,
                Some(p) => if !facts.equalities@.contains(opno) {
                    None
                } else if is_constant_like(p.1, facts.volatile) {
                    Some(crate::expr::unlabelled(p.0))
                } else if is_constant_like(p.0, facts.volatile) {
                    Some(crate::expr::unlabelled(p.1))
                } else {
                    None
                },
            },
            Head::ArrayOp { opno, use_or, inputcollid } => match crate::extstats::two_args(*args) {
                None => None,
                Some(p) => if use_or && is_constant_like(p.1, facts.volatile)
                    && facts.equalities@.contains(opno) {
                    Some(crate::expr::unlabelled(p.0))
                } else {
                    None
                },
            },
            Head::Not => match *args {
                List::Cons(a, _) => Some(crate::expr::unlabelled(a)),
                List::Nil => None,
            },
            Head::And => None,
            _ => Some(clause),
        },
        _ => Some(crate::expr::unlabelled(clause)),
    }
}

fn find_fixed_operand<'a>(clause: &'a Expr, facts: &OperatorFacts) -> (r: Option<&'a Expr>)
    ensures
        r is Some <==> fixed_operand(*clause, *facts) is Some,
        r matches Some(x) ==> fixed_operand(*clause, *facts) == Some(*x),
{
    match clause {
        Expr::Call { head, args } => match head {
            Head::Op { opno, .. } => match find_two_args(args) {
                None => None,
                Some((a, b)) => if !list_has(&facts.equalities, *opno) {
                    None
                } else if check_constant_like(b, &facts.volatile) {
                    Some(strip_label(a))
                } else if check_constant_like(a, &facts.volatile) {
                    Some(strip_label(b))
                } else {
                    None
                },
            },
            Head::ArrayOp { opno, use_or, .. } => match find_two_args(args) {
                None => None,
                Some((a, b)) => if *use_or && check_constant_like(b, &facts.volatile) && list_has(
                    &facts.equalities,
                    *opno,
                ) {
                    Some(strip_label(a))
                } else {
                    None
                },
            },
            Head::Not => match &**args {
                List::Cons(a, _) => Some(strip_label(a)),
                List::Nil => None,
            },
            Head::And => None,
            _ => Some(clause),
        },
        other => Some(strip_label(other)),
    }
}

/// The column that a clause fixes. The alternatives of a disjunction all have
/// to fix the same.
pub open spec fn fixed_column(clause: Expr, varno: i32, facts: OperatorFacts) -> Option<i16>
    decreases clause,
{
    match clause {
        Expr::Call { head: Head::Or, args } => common_column(*args, varno, facts, None),
        _ => match fixed_operand(clause, facts) {
            Some(Expr::Var(v)) => if v.varno == varno && v.levelsup == 0 && v.attno > 0 {
                Some(v.attno)
            } else {
                None
            },
            _ => None,
        },
    }
}

/// The column that all alternatives fix.
pub open spec fn common_column(
    l: List<Expr>,
    varno: i32,
    facts: OperatorFacts,
    found: Option<i16>,
) -> Option<i16>
    decreases l,
{
    match l {
        List::Nil => found,
        List::Cons(x, xs) => match fixed_column(x, varno, facts) {
            None => None,
            Some(a) => match found {
                Some(b) if a != b => None,
                _ => common_column(*xs, varno, facts, Some(a)),
            },
        },
    }
}

/// Finds the column that a clause fixes.
pub fn dependency_is_compatible_clause(clause: &Expr, varno: i32, facts: &OperatorFacts) -> (r:
    Option<i16>)
    ensures
        r == fixed_column(*clause, varno, *facts),
    decreases clause,
{
    match clause {
        Expr::Call { head: Head::Or, args } => find_common_column(args, varno, facts, None),
        other => match find_fixed_operand(other, facts) {
            Some(Expr::Var(v)) => if v.varno == varno && v.levelsup == 0 && v.attno > 0 {
                Some(v.attno)
            } else {
                None
            },
            _ => None,
        },
    }
}

fn find_common_column(l: &List<Expr>, varno: i32, facts: &OperatorFacts, found: Option<i16>) -> (r:
    Option<i16>)
    ensures
        r == common_column(*l, varno, *facts, found),
    decreases l,
{
    match l {
        List::Nil => found,
        List::Cons(x, xs) => match dependency_is_compatible_clause(x, varno, facts) {
            None => None,
            Some(a) => match found {
                Some(b) => if a != b {
                    None
                } else {
                    find_common_column(xs, varno, facts, Some(a))
                },
                None => find_common_column(xs, varno, facts, Some(a)),
            },
        },
    }
}

/// The first of the expressions that equals `e`.
pub open spec fn known_expr(l: List<Expr>, e: Expr) -> Option<Expr>
    decreases l,
{
    match l {
        List::Nil => None,
        List::Cons(x, xs) => if crate::expr::same_expr(e, x) {
            Some(x)
        } else {
            known_expr(*xs, e)
        },
    }
}

fn find_known_expr<'a>(l: &'a List<Expr>, e: &Expr) -> (r: Option<&'a Expr>)
    ensures
        r is Some <==> known_expr(*l, *e) is Some,
        r matches Some(x) ==> known_expr(*l, *e) == Some(*x),
    decreases l,
{
    match l {
        List::Nil => None,
        List::Cons(x, xs) => if equal(e, x) {
            Some(x)
        } else {
            find_known_expr(xs, e)
        },
    }
}

/// The expression of the statistics that a clause fixes.
pub open spec fn fixed_expr(clause: Expr, stat_exprs: List<Expr>, facts: OperatorFacts) -> Option<
    Expr,
>
    decreases clause,
{
    match clause {
        Expr::Call { head: Head::Or, args } => common_expr(*args, stat_exprs, facts, None),
        _ => match fixed_operand(clause, facts) {
            Some(e) => known_expr(stat_exprs, e),
            None => None,
        },
    }
}

/// The expression that all alternatives fix.
pub open spec fn common_expr(
    l: List<Expr>,
    stat_exprs: List<Expr>,
    facts: OperatorFacts,
    found: Option<Expr>,
) -> Option<Expr>
    decreases l,
{
    match l {
        List::Nil => found,
        List::Cons(x, xs) => match fixed_expr(x, stat_exprs, facts) {
            None => None,
            Some(a) => match found {
                Some(b) => if crate::expr::same_expr(b, a) {
                    common_expr(*xs, stat_exprs, facts, Some(b))
                } else {
                    None
                },
                None => common_expr(*xs, stat_exprs, facts, Some(a)),
            },
        },
    }
}

/// Finds the expression of the statistics that a clause fixes.
pub fn dependency_is_compatible_expression<'a>(
    clause: &Expr,
    stat_exprs: &'a List<Expr>,
    facts: &OperatorFacts,
) -> (r: Option<&'a Expr>)
    ensures
        (match r {
            Some(x) => Some(*x),
            None => None,
        }) == fixed_expr(*clause, *stat_exprs, *facts),
    decreases clause,
{
    match clause {
        Expr::Call { head: Head::Or, args } => find_common_expr(args, stat_exprs, facts, None),
        other => match find_fixed_operand(other, facts) {
            Some(e) => find_known_expr(stat_exprs, e),
            None => None,
        },
    }
}

fn find_common_expr<'a>(
    l: &List<Expr>,
    stat_exprs: &'a List<Expr>,
    facts: &OperatorFacts,
    found: Option<&'a Expr>,
) -> (r: Option<&'a Expr>)
    ensures
        (match r {
            Some(x) => Some(*x),
            None => None,
        }) == common_expr(
            *l,
            *stat_exprs,
            *facts,
            match found {
                Some(x) => Some(*x),
                None => None,
            },
        ),
    decreases l,
{
    match l {
        List::Nil => found,
        List::Cons(x, xs) => match dependency_is_compatible_expression(x, stat_exprs, facts) {
            None => None,
            Some(a) => match found {
                Some(b) => if equal(b, a) {
                    find_common_expr(xs, stat_exprs, facts, Some(b))
                } else {
                    None
                },
                None => find_common_expr(xs, stat_exprs, facts, Some(a)),
            },
        },
    }
}

/// What is numbered: columns have their own numbers, expressions negative ones
/// from -1 down, in the order in which they are met.
#[derive(Debug)]
pub struct Numbering {
    /// For each clause the number of what it fixes.
    pub numbers: List<Option<i32>>,
    pub exprs: List<Expr>,
}

/// The number of the first expression.
pub const FIRST_EXPR: i32 = -1;

/// The number of an expression, counted from `next` down.
pub open spec fn unique_number(exprs: List<Expr>, e: Expr, next: i32) -> i32
    decreases exprs,
{
    match exprs {
        List::Nil => next,
        List::Cons(x, xs) => if crate::expr::same_expr(x, e) || next == i32::MIN {
            next
        } else {
            unique_number(*xs, e, (next - 1) as i32)
        },
    }
}

fn find_unique_number(exprs: &List<Expr>, e: &Expr, next: i32) -> (r: i32)
    ensures
        r == unique_number(*exprs, *e, next),
    decreases exprs,
{
    match exprs {
        List::Nil => next,
        List::Cons(x, xs) => if equal(x, e) || next == i32::MIN {
            next
        } else {
            find_unique_number(xs, e, next - 1)
        },
    }
}

/// The expressions with one more, unless it is there.
pub open spec fn with_unique(exprs: List<Expr>, e: Expr) -> List<Expr>
    decreases exprs,
{
    match exprs {
        List::Nil => List::Cons(e, Box::new(List::Nil)),
        List::Cons(x, xs) => if crate::expr::same_expr(x, e) {
            exprs
        } else {
            List::Cons(x, Box::new(with_unique(*xs, e)))
        },
    }
}

fn add_unique(exprs: List<Expr>, e: &Expr) -> (r: List<Expr>)
    ensures
        r == with_unique(exprs, *e),
    decreases exprs,
{
    match exprs {
        List::Nil => List::one(e.copy()),
        List::Cons(x, xs) => if equal(&x, e) {
            List::Cons(x, xs)
        } else {
            List::Cons(x, Box::new(add_unique(*xs, e)))
        },
    }
}

/// The clause is about a single relation, and depends on its rows.
pub open spec fn is_eligible(c: StatClause) -> bool {
    !c.pseudoconstant && crate::relids::the_only(c.relids) is Some
}

fn check_eligible(c: &StatClause) -> (r: bool)
    ensures
        r == is_eligible(*c),
{
    !c.pseudoconstant && relids_singleton_member(&c.relids).is_some()
}

/// The numbering of what clauses fix, where `exprs` were met before.
pub open spec fn numbering(
    clauses: List<StatClause>,
    varno: i32,
    stat_exprs: List<Expr>,
    facts: OperatorFacts,
    exprs: List<Expr>,
) -> Numbering
    decreases clauses,
{
    match clauses {
        List::Nil => Numbering { numbers: List::Nil, exprs },
        List::Cons(c, cs) => {
            let column = if c.estimated || !is_eligible(c) {
                None
            } else {
                fixed_column(c.clause, varno, facts)
            };
            let expr = if c.estimated || !is_eligible(c) || column is Some {
                None
            } else {
                fixed_expr(c.clause, stat_exprs, facts)
            };
            let (number, more) = match (column, expr) {
                (Some(a), _) => (Some(a as i32), exprs),
                (None, Some(e)) => (Some(unique_number(exprs, e, FIRST_EXPR)), with_unique(exprs, e)),
                (None, None) => (None, exprs),
            };
            let rest = numbering(*cs, varno, stat_exprs, facts, more);
            Numbering { numbers: List::Cons(number, Box::new(rest.numbers)), exprs: rest.exprs }
        },
    }
}

/// Numbers what clauses fix.
pub fn number_clauses(
    clauses: &List<StatClause>,
    varno: i32,
    stat_exprs: &List<Expr>,
    facts: &OperatorFacts,
    exprs: List<Expr>,
) -> (r: Numbering)
    ensures
        r == numbering(*clauses, varno, *stat_exprs, *facts, exprs),
    decreases clauses,
{
    match clauses {
        List::Nil => Numbering { numbers: List::Nil, exprs },
        List::Cons(c, cs) => {
            let column = if c.estimated || !check_eligible(c) {
                None
            } else {
                dependency_is_compatible_clause(&c.clause, varno, facts)
            };
            let (number, more) = match column {
                Some(a) => (Some(a as i32), exprs),
                None => {
                    let expr = if c.estimated || !check_eligible(c) {
                        None
                    } else {
                        dependency_is_compatible_expression(&c.clause, stat_exprs, facts)
                    };
                    match expr {
                        Some(e) => {
                            let n: i32 = find_unique_number(&exprs, e, FIRST_EXPR);
                            (Some(n), add_unique(exprs, e))
                        },
                        None => (None, exprs),
                    }
                },
            };
            let rest = number_clauses(cs, varno, stat_exprs, facts, more);
            Numbering { numbers: List::Cons(number, Box::new(rest.numbers)), exprs: rest.exprs }
        },
    }
}

/// The numbers that occur, each once.
pub open spec fn occurring(numbers: List<Option<i32>>) -> List<i32>
    decreases numbers,
{
    match numbers {
        List::Nil => List::Nil,
        List::Cons(x, xs) => {
            let rest = occurring(*xs);
            match x {
                Some(n) if !rest@.contains(n) => List::Cons(n, Box::new(rest)),
                _ => rest,
            }
        },
    }
}

/// Lists the numbers that occur.
pub fn list_occurring(numbers: &List<Option<i32>>) -> (r: List<i32>)
    ensures
        r == occurring(*numbers),
    decreases numbers,
{
    match numbers {
        List::Nil => List::Nil,
        List::Cons(x, xs) => {
            let rest = list_occurring(xs);
            match x {
                Some(n) => if has_number(&rest, *n) {
                    rest
                } else {
                    List::Cons(*n, Box::new(rest))
                },
                None => rest,
            }
        },
    }
}

/// How many columns of a statistics object are fixed.
pub open spec fn keys_fixed(keys: List<u32>, fixed: List<i32>) -> usize
    decreases keys,
{
    match keys {
        List::Nil => 0,
        List::Cons(k, ks) => if !ks@.contains(k) && k <= i32::MAX && fixed@.contains(k as i32) {
            counted(keys_fixed(*ks, fixed))
        } else {
            keys_fixed(*ks, fixed)
        },
    }
}

fn count_keys_fixed(keys: &List<u32>, fixed: &List<i32>) -> (r: usize)
    ensures
        r == keys_fixed(*keys, *fixed),
    decreases keys,
{
    match keys {
        List::Nil => 0,
        List::Cons(k, ks) => {
            let rest: usize = count_keys_fixed(ks, fixed);
            if !list_has(ks, *k) && *k <= i32::MAX as u32 && has_number(fixed, *k as i32) {
                count_one(rest)
            } else {
                rest
            }
        },
    }
}

/// How often an expression is among those of a statistics object.
pub open spec fn times_among(stat: List<Expr>, e: Expr) -> usize
    decreases stat,
{
    match stat {
        List::Nil => 0,
        List::Cons(x, xs) => if crate::expr::same_expr(x, e) {
            counted(times_among(*xs, e))
        } else {
            times_among(*xs, e)
        },
    }
}

fn count_times_among(stat: &List<Expr>, e: &Expr) -> (r: usize)
    ensures
        r == times_among(*stat, *e),
    decreases stat,
{
    match stat {
        List::Nil => 0,
        List::Cons(x, xs) => {
            let rest: usize = count_times_among(xs, e);
            if equal(x, e) {
                count_one(rest)
            } else {
                rest
            }
        },
    }
}

/// How many of the numbered expressions a statistics object has.
pub open spec fn exprs_fixed(exprs: List<Expr>, stat: List<Expr>) -> usize
    decreases exprs,
{
    match exprs {
        List::Nil => 0,
        List::Cons(x, xs) => crate::extstats::sum(times_among(stat, x), exprs_fixed(*xs, stat)),
    }
}

fn count_exprs_fixed(exprs: &List<Expr>, stat: &List<Expr>) -> (r: usize)
    ensures
        r == exprs_fixed(*exprs, *stat),
    decreases exprs,
{
    match exprs {
        List::Nil => 0,
        List::Cons(x, xs) => {
            let here: usize = count_times_among(stat, x);
            let rest: usize = count_exprs_fixed(xs, stat);
            add_counts(here, rest)
        },
    }
}

/// The dependencies of a statistics object can apply: two or more of its
/// columns and expressions are fixed.
pub open spec fn may_apply(s: StatInfo, inherit: bool, fixed: List<i32>, exprs: List<Expr>) -> bool {
    s.kind == StatKind::Dependencies && s.inherit == inherit && keys_fixed(s.keys, fixed)
        + exprs_fixed(exprs, s.exprs) >= 2
}

/// Can the dependencies of a statistics object apply?
pub fn stat_may_apply(s: &StatInfo, inherit: bool, fixed: &List<i32>, exprs: &List<Expr>) -> (r:
    bool)
    ensures
        r == may_apply(*s, inherit, *fixed, *exprs),
{
    if s.kind != StatKind::Dependencies || s.inherit != inherit {
        return false;
    }
    let keys: usize = count_keys_fixed(&s.keys, fixed);
    let others: usize = count_exprs_fixed(exprs, &s.exprs);
    keys >= 2 || others >= 2 || (keys >= 1 && others >= 1)
}

/// A dependency: the last attribute follows from those before it. The degree
/// is given by the bits of a floating-point number that is not negative, so
/// that greater degrees have greater bits.
#[derive(Debug)]
pub struct Dependency {
    pub degree: u64,
    pub attributes: List<i32>,
}

impl Dependency {
    /// A second one that is the same.
    pub fn copy(&self) -> (r: Dependency)
        ensures
            r == *self,
    {
        Dependency { degree: self.degree, attributes: self.attributes.copy() }
    }
}

/// The expression of a statistics object that has a negative number.
pub open spec fn stat_expr(exprs: List<Expr>, n: i32) -> Option<Expr>
    decreases exprs,
{
    match exprs {
        List::Nil => None,
        List::Cons(x, xs) => if n == -1 {
            Some(x)
        } else if n >= 0 {
            None
        } else {
            stat_expr(*xs, (n + 1) as i32)
        },
    }
}

fn find_stat_expr(exprs: &List<Expr>, n: i32) -> (r: Option<&Expr>)
    ensures
        r is Some <==> stat_expr(*exprs, n) is Some,
        r matches Some(x) ==> stat_expr(*exprs, n) == Some(*x),
    decreases exprs,
{
    match exprs {
        List::Nil => None,
        List::Cons(x, xs) => if n == -1 {
            Some(x)
        } else if n >= 0 {
            None
        } else {
            find_stat_expr(xs, n + 1)
        },
    }
}

/// The numbers of the attributes of a dependency, where expressions are
/// numbered as met in the clauses; none where an attribute is not fixed.
pub open spec fn mapped_attributes(
    l: List<i32>,
    stat_exprs: List<Expr>,
    fixed: List<i32>,
    exprs: List<Expr>,
) -> Option<List<i32>>
    decreases l,
{
    match l {
        List::Nil => Some(List::Nil),
        List::Cons(a, rest) => {
            let first = if a > 0 {
                if fixed@.contains(a) {
                    Some(a)
                } else {
                    None
                }
            } else {
                match stat_expr(stat_exprs, a) {
                    None => None,
                    Some(e) => if crate::expr::has_same(exprs, e) {
                        Some(unique_number(exprs, e, FIRST_EXPR))
                    } else {
                        None
                    },
                }
            };
            match (first, mapped_attributes(*rest, stat_exprs, fixed, exprs)) {
                (Some(n), Some(ns)) => Some(List::Cons(n, Box::new(ns))),
                _ => None,
            }
        },
    }
}

fn map_attributes(
    l: &List<i32>,
    stat_exprs: &List<Expr>,
    fixed: &List<i32>,
    exprs: &List<Expr>,
) -> (r: Option<List<i32>>)
    ensures
        r == mapped_attributes(*l, *stat_exprs, *fixed, *exprs),
    decreases l,
{
    match l {
        List::Nil => Some(List::Nil),
        List::Cons(a, rest) => {
            let first = if *a > 0 {
                if has_number(fixed, *a) {
                    Some(*a)
                } else {
                    None
                }
            } else {
                match find_stat_expr(stat_exprs, *a) {
                    None => None,
                    Some(e) => if crate::expr::list_member(exprs, e) {
                        Some(find_unique_number(exprs, e, FIRST_EXPR))
                    } else {
                        None
                    },
                }
            };
            match first {
                None => None,
                Some(n) => match map_attributes(rest, stat_exprs, fixed, exprs) {
                    None => None,
                    Some(ns) => Some(List::Cons(n, Box::new(ns))),
                },
            }
        },
    }
}

/// The dependencies of a statistics object whose attributes are all fixed.
pub open spec fn mapped_dependencies(
    l: List<Dependency>,
    stat_exprs: List<Expr>,
    fixed: List<i32>,
    exprs: List<Expr>,
) -> List<Dependency>
    decreases l,
{
    match l {
        List::Nil => List::Nil,
        List::Cons(d, ds) => {
            let rest = mapped_dependencies(*ds, stat_exprs, fixed, exprs);
            match mapped_attributes(d.attributes, stat_exprs, fixed, exprs) {
                Some(attributes) => List::Cons(
                    Dependency { degree: d.degree, attributes },
                    Box::new(rest),
                ),
                None => rest,
            }
        },
    }
}

/// Selects the dependencies of a statistics object whose attributes are all
/// fixed.
pub fn map_dependencies(
    l: &List<Dependency>,
    stat_exprs: &List<Expr>,
    fixed: &List<i32>,
    exprs: &List<Expr>,
) -> (r: List<Dependency>)
    ensures
        r == mapped_dependencies(*l, *stat_exprs, *fixed, *exprs),
    decreases l,
{
    match l {
        List::Nil => List::Nil,
        List::Cons(d, ds) => {
            let rest = map_dependencies(ds, stat_exprs, fixed, exprs);
            match map_attributes(&d.attributes, stat_exprs, fixed, exprs) {
                Some(attributes) => List::Cons(
                    Dependency { degree: d.degree, attributes },
                    Box::new(rest),
                ),
                None => rest,
            }
        },
    }
}

/// The dependency says something about the attributes.
pub open spec fn is_matched(d: Dependency, attnums: List<i32>) -> bool {
    !(d.attributes is Nil) && !crate::aggorder::is_longer(d.attributes, attnums) && all_in(
        d.attributes,
        attnums,
    )
}

/// The first dependency is weaker than the second: it has fewer attributes, or
/// as many and a smaller degree.
pub open spec fn is_weaker(d: Dependency, best: Dependency) -> bool {
    crate::aggorder::is_longer(best.attributes, d.attributes) || (!crate::aggorder::is_longer(
        d.attributes,
        best.attributes,
    ) && best.degree > d.degree)
}

/// The strongest dependency that says something about the attributes, where
/// `best` is the strongest so far.
pub open spec fn strongest(
    deps: List<Dependency>,
    attnums: List<i32>,
    best: Option<Dependency>,
) -> Option<Dependency>
    decreases deps,
{
    match deps {
        List::Nil => best,
        List::Cons(d, ds) => if is_matched(d, attnums) && (best matches Some(b) ==> !is_weaker(
            d,
            b,
        )) {
            strongest(*ds, attnums, Some(d))
        } else {
            strongest(*ds, attnums, best)
        },
    }
}

fn find_strongest<'a>(
    deps: &'a List<Dependency>,
    attnums: &List<i32>,
    best: Option<&'a Dependency>,
) -> (r: Option<&'a Dependency>)
    ensures
        (match r {
            Some(d) => Some(*d),
            None => None,
        }) == strongest(
            *deps,
            *attnums,
            match best {
                Some(d) => Some(*d),
                None => None,
            },
        ),
    decreases deps,
{
    match deps {
        List::Nil => best,
        List::Cons(d, ds) => {
            let weaker = match best {
                None => false,
                Some(b) => longer(&b.attributes, &d.attributes) || (!longer(
                    &d.attributes,
                    &b.attributes,
                ) && b.degree > d.degree),
            };
            let matched = !d.attributes.is_nil() && !longer(&d.attributes, attnums)
                && check_all_in(&d.attributes, attnums);
            if matched && !weaker {
                find_strongest(ds, attnums, Some(d))
            } else {
                find_strongest(ds, attnums, best)
            }
        },
    }
}

/// Finds the strongest dependency that says something about the attributes:
/// of those with the most attributes, the one with the greatest degree.
pub fn find_strongest_dependency<'a>(deps: &'a List<Dependency>, attnums: &List<i32>) -> (r: Option<
    &'a Dependency,
>)
    ensures
        (match r {
            Some(d) => Some(*d),
            None => None,
        }) == strongest(*deps, *attnums, None),
{
    find_strongest(deps, attnums, None)
}

/// The dependency that is found says something about the attributes, and none
/// that does is stronger: it has no more attributes, and no greater degree if
/// it has as many.
pub proof fn lemma_strongest(
    deps: List<Dependency>,
    attnums: List<i32>,
    best: Option<Dependency>,
    i: int,
)
    requires
        best matches Some(b) ==> is_matched(b, attnums),
    ensures
        strongest(deps, attnums, best) matches Some(s) ==> is_matched(s, attnums) && (best matches
            Some(b) ==> !stronger(b, s)),
        0 <= i < deps@.len() && is_matched(deps@[i], attnums) ==> (strongest(deps, attnums, best)
            matches Some(s) && !stronger(deps@[i], s)),
        best is Some ==> strongest(deps, attnums, best) is Some,
    decreases deps,
{
    if let List::Cons(d, ds) = deps {
        assert(deps@[0] == d);
        if i > 0 && i < deps@.len() {
            assert(deps@[i] == ds@[i - 1]);
        }
        let takes = is_matched(d, attnums) && (best matches Some(b) ==> !is_weaker(d, b));
        crate::aggorder::lemma_longer(d.attributes, d.attributes);
        if let Some(b) = best {
            crate::aggorder::lemma_longer(d.attributes, b.attributes);
            crate::aggorder::lemma_longer(b.attributes, d.attributes);
        }
        let next = if takes {
            Some(d)
        } else {
            best
        };
        lemma_strongest(*ds, attnums, next, i - 1);
        if let Some(s) = strongest(deps, attnums, best) {
            crate::aggorder::lemma_longer(d.attributes, s.attributes);
            crate::aggorder::lemma_longer(s.attributes, d.attributes);
            if let Some(b) = best {
                crate::aggorder::lemma_longer(b.attributes, s.attributes);
                crate::aggorder::lemma_longer(s.attributes, b.attributes);
            }
        }
    } else if let Some(b) = best {
        crate::aggorder::lemma_longer(b.attributes, b.attributes);
    }
}

/// The first dependency is stronger than the second.
pub open spec fn stronger(a: Dependency, b: Dependency) -> bool {
    a.attributes@.len() > b.attributes@.len() || (a.attributes@.len() == b.attributes@.len()
        && a.degree > b.degree)
}

/// The last number of a list.
pub open spec fn last(l: List<i32>) -> Option<i32>
    decreases l,
{
    match l {
        List::Nil => None,
        List::Cons(x, xs) => if *xs is Nil {
            Some(x)
        } else {
            last(*xs)
        },
    }
}

fn find_last(l: &List<i32>) -> (r: Option<i32>)
    ensures
        r == last(*l),
    decreases l,
{
    match l {
        List::Nil => None,
        List::Cons(x, xs) => if xs.is_nil() {
            Some(*x)
        } else {
            find_last(xs)
        },
    }
}

/// The numbers without one.
pub open spec fn without(l: List<i32>, x: i32) -> List<i32>
    decreases l,
{
    match l {
        List::Nil => List::Nil,
        List::Cons(y, ys) => if y == x {
            without(*ys, x)
        } else {
            List::Cons(y, Box::new(without(*ys, x)))
        },
    }
}

fn remove_number(l: &List<i32>, x: i32) -> (r: List<i32>)
    ensures
        r == without(*l, x),
    decreases l,
{
    match l {
        List::Nil => List::Nil,
        List::Cons(y, ys) => if *y == x {
            remove_number(ys, x)
        } else {
            List::Cons(*y, Box::new(remove_number(ys, x)))
        },
    }
}

proof fn lemma_without(l: List<i32>, x: i32, z: i32)
    ensures
        without(l, x)@.contains(z) <==> l@.contains(z) && z != x,
        without(l, x)@.len() <= l@.len(),
        l@.contains(x) ==> without(l, x)@.len() < l@.len(),
    decreases l,
{
    match l {
        List::Nil => {
            assert(l@.len() == 0);
        },
        List::Cons(y, ys) => {
            lemma_without(*ys, x, z);
            crate::list::lemma_cons_contains(y, *ys, z);
            crate::list::lemma_cons_contains(y, *ys, x);
            if y != x {
                crate::list::lemma_cons_contains(y, without(*ys, x), z);
            }
        },
    }
}

proof fn lemma_last_in(l: List<i32>, set: List<i32>)
    requires
        all_in(l, set),
        !(l is Nil),
    ensures
        last(l) is Some,
        set@.contains(last(l)->0),
    decreases l,
{
    if let List::Cons(x, xs) = l {
        if !(*xs is Nil) {
            lemma_last_in(*xs, set);
        }
    }
}

/// The dependencies that are applied: the strongest about the attributes, then
/// the strongest about those that do not follow from it, and so on.
pub open spec fn applied(deps: List<Dependency>, attnums: List<i32>) -> List<Dependency>
    decreases attnums@.len(),
    via applied_decreases
{
    match strongest(deps, attnums, None) {
        None => List::Nil,
        Some(d) => List::Cons(
            d,
            Box::new(applied(deps, without(attnums, last(d.attributes)->0))),
        ),
    }
}

#[via_fn]
proof fn applied_decreases(deps: List<Dependency>, attnums: List<i32>) {
    lemma_strongest(deps, attnums, None, 0);
    if let Some(d) = strongest(deps, attnums, None) {
        lemma_last_in(d.attributes, attnums);
        lemma_without(attnums, last(d.attributes)->0, 0);
    }
}

/// Chooses the dependencies that are applied.
pub fn choose_dependencies(deps: &List<Dependency>, attnums: &List<i32>) -> (r: List<Dependency>)
    ensures
        r == applied(*deps, *attnums),
    decreases attnums@.len(),
{
    match find_strongest_dependency(deps, attnums) {
        None => List::Nil,
        Some(d) => {
            proof {
                lemma_strongest(*deps, *attnums, None, 0);
                lemma_last_in(d.attributes, *attnums);
                lemma_without(*attnums, last(d.attributes)->0, 0);
            }
            match find_last(&d.attributes) {
                None => List::Nil,
                Some(implied) => {
                    let left = remove_number(attnums, implied);
                    let rest = choose_dependencies(deps, &left);
                    List::Cons(d.copy(), Box::new(rest))
                },
            }
        },
    }
}

proof fn lemma_applied_within(deps: List<Dependency>, attnums: List<i32>, i: int)
    requires
        0 <= i < applied(deps, attnums)@.len(),
    ensures
        all_in(applied(deps, attnums)@[i].attributes, attnums),
    decreases attnums@.len(),
{
    lemma_strongest(deps, attnums, None, 0);
    if let Some(d) = strongest(deps, attnums, None) {
        lemma_last_in(d.attributes, attnums);
        let implied = last(d.attributes)->0;
        lemma_without(attnums, implied, 0);
        let left = without(attnums, implied);
        let all = applied(deps, attnums);
        assert(all@[0] == d);
        if i > 0 {
            lemma_applied_within(deps, left, i - 1);
            assert(all@[i] == applied(deps, left)@[i - 1]);
            lemma_all_in_more(all@[i].attributes, attnums, implied);
        }
    }
}

proof fn lemma_all_in_more(l: List<i32>, set: List<i32>, x: i32)
    requires
        all_in(l, without(set, x)),
    ensures
        all_in(l, set),
    decreases l,
{
    if let List::Cons(y, ys) = l {
        lemma_without(set, x, y);
        lemma_all_in_more(*ys, set, x);
    }
}

proof fn lemma_all_in_without(l: List<i32>, set: List<i32>, x: i32)
    requires
        all_in(l, without(set, x)),
    ensures
        !l@.contains(x),
    decreases l,
{
    match l {
        List::Nil => {
            assert(l@.len() == 0);
        },
        List::Cons(y, ys) => {
            lemma_without(set, x, y);
            lemma_all_in_without(*ys, set, x);
            crate::list::lemma_cons_contains(y, *ys, x);
        },
    }
}

/// What follows from one dependency that is applied plays no part in those
/// that are applied after it: no attribute is accounted for twice.
pub proof fn lemma_applied_once(deps: List<Dependency>, attnums: List<i32>, i: int, j: int)
    requires
        0 <= i < j < applied(deps, attnums)@.len(),
    ensures
        last(applied(deps, attnums)@[i].attributes) is Some,
        !applied(deps, attnums)@[j].attributes@.contains(
            last(applied(deps, attnums)@[i].attributes)->0,
        ),
    decreases attnums@.len(),
{
    lemma_strongest(deps, attnums, None, 0);
    if let Some(d) = strongest(deps, attnums, None) {
        lemma_last_in(d.attributes, attnums);
        let implied = last(d.attributes)->0;
        lemma_without(attnums, implied, 0);
        let left = without(attnums, implied);
        let all = applied(deps, attnums);
        let rest = applied(deps, left);
        assert(all@[0] == d);
        assert(all@[j] == rest@[j - 1]);
        if i > 0 {
            assert(all@[i] == rest@[i - 1]);
            lemma_applied_once(deps, left, i - 1, j - 1);
        } else {
            lemma_applied_within(deps, left, j - 1);
            lemma_all_in_without(rest@[j - 1].attributes, attnums, implied);
        }
    }
}

/// The list with a number at its place, unless it is there.
pub open spec fn inserted(l: List<i32>, x: i32) -> List<i32>
    decreases l,
{
    match l {
        List::Nil => List::Cons(x, Box::new(List::Nil)),
        List::Cons(y, ys) => if x == y {
            l
        } else if x < y {
            List::Cons(x, Box::new(l))
        } else {
            List::Cons(y, Box::new(inserted(*ys, x)))
        },
    }
}

fn insert_number(l: List<i32>, x: i32) -> (r: List<i32>)
    ensures
        r == inserted(l, x),
    decreases l,
{
    match l {
        List::Nil => List::one(x),
        List::Cons(y, ys) => if x == y {
            List::Cons(y, ys)
        } else if x < y {
            List::Cons(x, Box::new(List::Cons(y, ys)))
        } else {
            List::Cons(y, Box::new(insert_number(*ys, x)))
        },
    }
}

/// The list with several numbers at their places.
pub open spec fn all_inserted(l: List<i32>, xs: List<i32>) -> List<i32>
    decreases xs,
{
    match xs {
        List::Nil => l,
        List::Cons(x, rest) => all_inserted(inserted(l, x), *rest),
    }
}

fn insert_numbers(l: List<i32>, xs: &List<i32>) -> (r: List<i32>)
    ensures
        r == all_inserted(l, *xs),
    decreases xs,
{
    match xs {
        List::Nil => l,
        List::Cons(x, rest) => insert_numbers(insert_number(l, *x), rest),
    }
}

/// The attributes of dependencies, in order, each once.
pub open spec fn attributes_of(deps: List<Dependency>) -> List<i32>
    decreases deps,
{
    match deps {
        List::Nil => List::Nil,
        List::Cons(d, ds) => all_inserted(attributes_of(*ds), d.attributes),
    }
}

/// Lists the attributes of dependencies in order.
pub fn collect_attributes(deps: &List<Dependency>) -> (r: List<i32>)
    ensures
        r == attributes_of(*deps),
    decreases deps,
{
    match deps {
        List::Nil => List::Nil,
        List::Cons(d, ds) => insert_numbers(collect_attributes(ds), &d.attributes),
    }
}

/// In ascending order.
pub open spec fn ascending(l: List<i32>) -> bool
    decreases l,
{
    match l {
        List::Nil => true,
        List::Cons(x, xs) => ascending(*xs) && match *xs {
            List::Nil => true,
            List::Cons(y, _) => x < y,
        },
    }
}

proof fn lemma_inserted(l: List<i32>, x: i32, z: i32)
    requires
        ascending(l),
    ensures
        ascending(inserted(l, x)),
        inserted(l, x)@.contains(z) <==> z == x || l@.contains(z),
    decreases l,
{
    match l {
        List::Nil => {
            let none: List<i32> = List::Nil;
            assert(none@.len() == 0);
            crate::list::lemma_cons_contains(x, none, z);
            assert(ascending(none));
        },
        List::Cons(y, ys) => {
            lemma_inserted(*ys, x, z);
            crate::list::lemma_cons_contains(y, *ys, z);
            crate::list::lemma_cons_contains(x, l, z);
            crate::list::lemma_cons_contains(y, inserted(*ys, x), z);
        },
    }
}

proof fn lemma_all_inserted(l: List<i32>, xs: List<i32>, z: i32)
    requires
        ascending(l),
    ensures
        ascending(all_inserted(l, xs)),
        all_inserted(l, xs)@.contains(z) <==> xs@.contains(z) || l@.contains(z),
    decreases xs,
{
    match xs {
        List::Nil => {
            assert(xs@.len() == 0);
        },
        List::Cons(x, rest) => {
            lemma_inserted(l, x, z);
            lemma_all_inserted(inserted(l, x), *rest, z);
            crate::list::lemma_cons_contains(x, *rest, z);
        },
    }
}

/// The attributes come in ascending order, and are just those of the
/// dependencies.
pub proof fn lemma_attributes_of(deps: List<Dependency>, z: i32)
    ensures
        ascending(attributes_of(deps)),
        attributes_of(deps)@.contains(z) <==> exists|i: int|
            0 <= i < deps@.len() && (#[trigger] deps@[i]).attributes@.contains(z),
    decreases deps,
{
    match deps {
        List::Nil => {
            let none: List<i32> = List::Nil;
            assert(none@.len() == 0);
            assert(deps@.len() == 0);
        },
        List::Cons(d, ds) => {
            lemma_attributes_of(*ds, z);
            lemma_all_inserted(attributes_of(*ds), d.attributes, z);
            assert(deps@[0] == d);
            assert(forall|i: int| 0 <= i < ds@.len() ==> deps@[i + 1] == #[trigger] ds@[i]);
            if attributes_of(*ds)@.contains(z) {
                let i = choose|i: int|
                    0 <= i < ds@.len() && (#[trigger] ds@[i]).attributes@.contains(z);
                assert(deps@[i + 1].attributes@.contains(z));
            }
            if exists|i: int| 0 <= i < deps@.len() && (#[trigger] deps@[i]).attributes@.contains(
                z,
            ) {
                let i = choose|i: int|
                    0 <= i < deps@.len() && (#[trigger] deps@[i]).attributes@.contains(z);
                if i > 0 {
                    assert(ds@[i - 1] == deps@[i]);
                }
            }
        },
    }
}

/// The clauses that dependencies account for: those that fix one of the
/// attributes.
pub open spec fn accounted_for(numbers: List<Option<i32>>, attributes: List<i32>) -> List<bool>
    decreases numbers,
{
    match numbers {
        List::Nil => List::Nil,
        List::Cons(x, xs) => List::Cons(
            (x matches Some(n) && attributes@.contains(n)),
            Box::new(accounted_for(*xs, attributes)),
        ),
    }
}

/// Marks the clauses that dependencies account for.
pub fn mark_accounted_for(numbers: &List<Option<i32>>, attributes: &List<i32>) -> (r: List<bool>)
    ensures
        r == accounted_for(*numbers, *attributes),
    decreases numbers,
{
    match numbers {
        List::Nil => List::Nil,
        List::Cons(x, xs) => {
            let here = match x {
                Some(n) => has_number(attributes, *n),
                None => false,
            };
            List::Cons(here, Box::new(mark_accounted_for(xs, attributes)))
        },
    }
}

/// A statistics object with the dependencies that were found for it; objects
/// of other kinds have none.
#[derive(Debug)]
pub struct DependencyStat {
    pub info: StatInfo,
    pub deps: List<Dependency>,
}

/// The expressions of all statistics objects on dependencies.
pub open spec fn dependency_exprs(stats: List<DependencyStat>) -> List<Expr>
    decreases stats,
{
    match stats {
        List::Nil => List::Nil,
        List::Cons(s, ss) => if s.info.kind == StatKind::Dependencies {
            s.info.exprs.then_list(dependency_exprs(*ss))
        } else {
            dependency_exprs(*ss)
        },
    }
}

fn collect_dependency_exprs(stats: &List<DependencyStat>) -> (r: List<Expr>)
    ensures
        r == dependency_exprs(*stats),
    decreases stats,
{
    match stats {
        List::Nil => List::Nil,
        List::Cons(s, ss) => {
            let rest = collect_dependency_exprs(ss);
            if s.info.kind == StatKind::Dependencies {
                crate::expr::copy_exprs(&s.info.exprs).append(rest)
            } else {
                rest
            }
        },
    }
}

/// The dependencies of all statistics objects that can apply, as far as their
/// attributes are fixed.
pub open spec fn all_dependencies(
    stats: List<DependencyStat>,
    inherit: bool,
    fixed: List<i32>,
    exprs: List<Expr>,
) -> List<Dependency>
    decreases stats,
{
    match stats {
        List::Nil => List::Nil,
        List::Cons(s, ss) => {
            let rest = all_dependencies(*ss, inherit, fixed, exprs);
            if may_apply(s.info, inherit, fixed, exprs) {
                mapped_dependencies(s.deps, s.info.exprs, fixed, exprs).then_list(rest)
            } else {
                rest
            }
        },
    }
}

fn collect_dependencies(
    stats: &List<DependencyStat>,
    inherit: bool,
    fixed: &List<i32>,
    exprs: &List<Expr>,
) -> (r: List<Dependency>)
    ensures
        r == all_dependencies(*stats, inherit, *fixed, *exprs),
    decreases stats,
{
    match stats {
        List::Nil => List::Nil,
        List::Cons(s, ss) => {
            let rest = collect_dependencies(ss, inherit, fixed, exprs);
            if stat_may_apply(&s.info, inherit, fixed, exprs) {
                map_dependencies(&s.deps, &s.info.exprs, fixed, exprs).append(rest)
            } else {
                rest
            }
        },
    }
}

/// How dependencies are used for clauses: which are applied, in this order;
/// what they are about; what each clause fixes; and which clauses are accounted
/// for.
#[derive(Debug)]
pub struct DependencyUse {
    pub applied: List<Dependency>,
    pub attributes: List<i32>,
    pub numbers: List<Option<i32>>,
    pub accounted: List<bool>,
}

/// How dependencies are used for the clauses of a relation; none where no
/// dependency applies. It takes two attributes that are fixed.
pub open spec fn dependency_use(
    stats: List<DependencyStat>,
    inherit: bool,
    clauses: List<StatClause>,
    varno: i32,
    facts: OperatorFacts,
) -> Option<DependencyUse> {
    let n = numbering(clauses, varno, dependency_exprs(stats), facts, List::Nil);
    let fixed = occurring(n.numbers);
    let used = applied(all_dependencies(stats, inherit, fixed, n.exprs), fixed);
    if fixed@.len() < 2 || used is Nil {
        None
    } else {
        Some(
            DependencyUse {
                applied: used,
                attributes: attributes_of(used),
                numbers: n.numbers,
                accounted: accounted_for(n.numbers, attributes_of(used)),
            },
        )
    }
}

fn has_two(l: &List<i32>) -> (r: bool)
    ensures
        r == (l@.len() >= 2),
{
    proof {
        let none: List<i32> = List::Nil;
        assert(none@.len() == 0);
    }
    match l {
        List::Nil => false,
        List::Cons(_, xs) => !xs.is_nil(),
    }
}

/// Decides how dependencies are used for the clauses of a relation.
pub fn dependencies_clauselist_selectivity(
    stats: &List<DependencyStat>,
    inherit: bool,
    clauses: &List<StatClause>,
    varno: i32,
    facts: &OperatorFacts,
) -> (r: Option<DependencyUse>)
    ensures
        r == dependency_use(*stats, inherit, *clauses, varno, *facts),
{
    let exprs = collect_dependency_exprs(stats);
    let n = number_clauses(clauses, varno, &exprs, facts, List::Nil);
    let fixed = list_occurring(&n.numbers);
    if !has_two(&fixed) {
        return None;
    }
    let deps = collect_dependencies(stats, inherit, &fixed, &n.exprs);
    let used = choose_dependencies(&deps, &fixed);
    if used.is_nil() {
        return None;
    }
    let attributes = collect_attributes(&used);
    let accounted = mark_accounted_for(&n.numbers, &attributes);
    Some(DependencyUse { applied: used, attributes, numbers: n.numbers, accounted })
}

} // verus!

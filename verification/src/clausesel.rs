//! How the selectivity of clauses is put together.
//!
//! A selectivity is given as a formula over estimates; the numbers are
//! computed from it afterwards.
use vstd::prelude::*;
use crate::expr::{equal, Expr, Head};
use crate::extstats::find_two_args;
use crate::list::{list_has, List};
use crate::relids::{
    relids_add_member, relids_difference, relids_is_member, relids_is_multiple,
    relids_singleton_member, relids_union, Relids,
};

verus! {

/// A selectivity.
#[derive(Debug)]
pub enum Selectivity {
    Zero,
    One,
    /// Nothing is known.
    Half,
    /// What the estimator of an operator says of a restriction.
    Restriction(Box<Expr>),
    /// What the estimator of an operator says of a join clause.
    Join(Box<Expr>),
    /// What is said of a function, as a join clause where that is set.
    Function(Box<Expr>, bool),
    /// What is said of a comparison with the elements of an array.
    Array(Box<Expr>, bool),
    /// What is said of a comparison of rows, by its first column.
    Row(Box<Expr>, bool),
    NullTest(Box<Expr>),
    BooleanTest(Box<Expr>),
    /// One row of a relation.
    OneRowOf(i32),
    /// What is said of an expression as a truth value.
    Truth(Box<Expr>),
    /// What was found earlier for a clause.
    Cached(u32),
    /// What statistics on several columns say of clauses that all have to
    /// hold.
    Extended,
    /// What statistics on several columns say of the alternatives of a
    /// disjunction.
    ExtendedOr(Box<Expr>),
    Product(Box<Selectivity>, Box<Selectivity>),
    /// Of two that are independent, one or the other.
    Either(Box<Selectivity>, Box<Selectivity>),
    Complement(Box<Selectivity>),
    /// The smaller one.
    Least(Box<Selectivity>, Box<Selectivity>),
    /// That of a value between a lower and an upper bound.
    Between { var: Box<Expr>, low: Box<Selectivity>, high: Box<Selectivity> },
}

/// What selectivities are wanted for.
#[derive(Debug)]
pub struct SelContext {
    /// Only columns of this relation count, unless it is 0.
    pub varrelid: u32,
    pub inner_join: bool,
    /// The join is known.
    pub has_join: bool,
    pub outer_joins: Relids,
    /// Operators that select lesser values, and greater ones.
    pub less: List<u32>,
    pub greater: List<u32>,
    pub volatile: List<u32>,
    /// The disjunctions that statistics on several columns help with.
    pub disjunctions: List<OrStatistics>,
}

/// A disjunction, and which of its alternatives statistics on several columns
/// account for.
#[derive(Debug)]
pub struct OrStatistics {
    pub clause: Expr,
    pub estimated: List<bool>,
}

/// The alternatives of a disjunction that statistics on several columns account
/// for.
pub open spec fn or_estimated(l: List<OrStatistics>, e: Expr) -> Option<List<bool>>
    decreases l,
{
    match l {
        List::Nil => None,
        List::Cons(x, xs) => if crate::expr::same_expr(x.clause, e) {
            Some(x.estimated)
        } else {
            or_estimated(*xs, e)
        },
    }
}

fn find_or_estimated(l: &List<OrStatistics>, e: &Expr) -> (r: Option<List<bool>>)
    ensures
        r == or_estimated(*l, *e),
    decreases l,
{
    match l {
        List::Nil => None,
        List::Cons(x, xs) => if equal(&x.clause, e) {
            Some(x.estimated.copy())
        } else {
            find_or_estimated(xs, e)
        },
    }
}

/// The relations that an expression refers to.
pub open spec fn varnos(e: Expr) -> Relids
    decreases e,
{
    match e {
        Expr::Var(v) => if v.levelsup == 0 && v.varno > 0 {
            crate::relids::ins(v.nullingrels, v.varno as u32)
        } else {
            List::Nil
        },
        Expr::PlaceHolder { phid, levelsup, nullingrels, eval_at, expr } => if levelsup == 0 {
            crate::relids::union_list(eval_at, nullingrels)
        } else {
            varnos(*expr)
        },
        Expr::Relabel { typid, collation, arg } => varnos(*arg),
        Expr::Call { head, args } => list_varnos(*args),
        _ => List::Nil,
    }
}

/// The relations that expressions refer to.
pub open spec fn list_varnos(l: List<Expr>) -> Relids
    decreases l,
{
    match l {
        List::Nil => List::Nil,
        List::Cons(x, xs) => crate::relids::union_list(varnos(x), list_varnos(*xs)),
    }
}

/// Finds the relations that an expression refers to.
pub fn pull_varnos(e: &Expr) -> (r: Relids)
    ensures
        r == varnos(*e),
    decreases e,
{
    match e {
        Expr::Var(v) => if v.levelsup == 0 && v.varno > 0 {
            relids_add_member(&v.nullingrels, v.varno as u32)
        } else {
            List::Nil
        },
        Expr::PlaceHolder { levelsup, nullingrels, eval_at, expr, .. } => if *levelsup == 0 {
            relids_union(eval_at, nullingrels)
        } else {
            pull_varnos(expr)
        },
        Expr::Relabel { arg, .. } => pull_varnos(arg),
        Expr::Call { args, .. } => pull_list_varnos(args),
        _ => List::Nil,
    }
}

fn pull_list_varnos(l: &List<Expr>) -> (r: Relids)
    ensures
        r == list_varnos(*l),
    decreases l,
{
    match l {
        List::Nil => List::Nil,
        List::Cons(x, xs) => {
            let here = pull_varnos(x);
            let rest = pull_list_varnos(xs);
            relids_union(&here, &rest)
        },
    }
}

/// The tables that an expression refers to, outer joins aside.
pub open spec fn tables_of(e: Expr, ctx: SelContext) -> Relids {
    crate::relids::difference_list(varnos(e), ctx.outer_joins)
}

fn find_tables(e: &Expr, ctx: &SelContext) -> (r: Relids)
    ensures
        r == tables_of(*e, *ctx),
{
    let all = pull_varnos(e);
    relids_difference(&all, &ctx.outer_joins)
}

/// A clause that refers to several tables is a join clause, if it is for a
/// join that it is estimated and not for one side of it.
pub open spec fn is_join_clause(several: bool, ctx: SelContext) -> bool {
    ctx.varrelid == 0 && ctx.has_join && several
}

/// Is a clause treated as a join clause?
pub fn treat_as_join_clause(several: bool, ctx: &SelContext) -> (r: bool)
    ensures
        r == is_join_clause(several, *ctx),
{
    ctx.varrelid == 0 && ctx.has_join && several
}

/// The expression calls something volatile.
pub open spec fn has_volatile(e: Expr, volatile: List<u32>) -> bool
    decreases e,
{
    match e {
        Expr::PlaceHolder { phid, levelsup, nullingrels, eval_at, expr } => has_volatile(
            *expr,
            volatile,
        ),
        Expr::Relabel { typid, collation, arg } => has_volatile(*arg, volatile),
        Expr::Call { head, args } => crate::dependencies::is_volatile(head, volatile)
            || list_has_volatile(*args, volatile),
        _ => false,
    }
}

/// Some expression calls something volatile.
pub open spec fn list_has_volatile(l: List<Expr>, volatile: List<u32>) -> bool
    decreases l,
{
    match l {
        List::Nil => false,
        List::Cons(x, xs) => has_volatile(x, volatile) || list_has_volatile(*xs, volatile),
    }
}

fn contains_volatile(e: &Expr, volatile: &List<u32>) -> (r: bool)
    ensures
        r == has_volatile(*e, *volatile),
    decreases e,
{
    match e {
        Expr::PlaceHolder { expr, .. } => contains_volatile(expr, volatile),
        Expr::Relabel { arg, .. } => contains_volatile(arg, volatile),
        Expr::Call { head, args } => {
            let here = match head {
                Head::Op { opno, .. } => list_has(volatile, *opno),
                Head::ArrayOp { opno, .. } => list_has(volatile, *opno),
                Head::Func { func, .. } => list_has(volatile, *func),
                Head::Distinct { opno, .. } => list_has(volatile, *opno),
                _ => false,
            };
            here || list_contains_volatile(args, volatile)
        },
        _ => false,
    }
}

fn list_contains_volatile(l: &List<Expr>, volatile: &List<u32>) -> (r: bool)
    ensures
        r == list_has_volatile(*l, *volatile),
    decreases l,
{
    match l {
        List::Nil => false,
        List::Cons(x, xs) => contains_volatile(x, volatile) || list_contains_volatile(
            xs,
            volatile,
        ),
    }
}

/// The bounds that clauses set on an expression.
#[derive(Debug)]
pub struct RangeQuery {
    pub var: Expr,
    pub low: Option<Selectivity>,
    pub high: Option<Selectivity>,
}

/// A bound and another one: the smaller selectivity counts.
pub open spec fn with_bound(b: Option<Selectivity>, s: Selectivity) -> Option<Selectivity> {
    match b {
        None => Some(s),
        Some(x) => Some(Selectivity::Least(Box::new(x), Box::new(s))),
    }
}

fn add_bound(b: Option<Selectivity>, s: Selectivity) -> (r: Option<Selectivity>)
    ensures
        r == with_bound(b, s),
{
    match b {
        None => Some(s),
        Some(x) => Some(Selectivity::Least(Box::new(x), Box::new(s))),
    }
}

/// The bounds, with one more on an expression.
pub open spec fn with_range(
    l: List<RangeQuery>,
    var: Expr,
    is_low: bool,
    s: Selectivity,
) -> List<RangeQuery>
    decreases l,
{
    match l {
        List::Nil => List::Cons(
            if is_low {
                RangeQuery { var, low: Some(s), high: None }
            } else {
                RangeQuery { var, low: None, high: Some(s) }
            },
            Box::new(List::Nil),
        ),
        List::Cons(x, xs) => if crate::expr::same_expr(var, x.var) {
            List::Cons(
                if is_low {
                    RangeQuery { low: with_bound(x.low, s), ..x }
                } else {
                    RangeQuery { high: with_bound(x.high, s), ..x }
                },
                xs,
            )
        } else {
            List::Cons(x, Box::new(with_range(*xs, var, is_low, s)))
        },
    }
}

/// Adds a bound on an expression.
pub fn add_range_clause(l: List<RangeQuery>, var: Expr, is_low: bool, s: Selectivity) -> (r: List<
    RangeQuery,
>)
    ensures
        r == with_range(l, var, is_low, s),
    decreases l,
{
    match l {
        List::Nil => if is_low {
            List::one(RangeQuery { var, low: Some(s), high: None })
        } else {
            List::one(RangeQuery { var, low: None, high: Some(s) })
        },
        List::Cons(x, xs) => if equal(&var, &x.var) {
            let mut x = x;
            if is_low {
                x.low = add_bound(x.low, s);
            } else {
                x.high = add_bound(x.high, s);
            }
            List::Cons(x, xs)
        } else {
            List::Cons(x, Box::new(add_range_clause(*xs, var, is_low, s)))
        },
    }
}

/// The product of two selectivities.
pub open spec fn product(a: Selectivity, b: Selectivity) -> Selectivity {
    Selectivity::Product(Box::new(a), Box::new(b))
}

fn multiply(a: Selectivity, b: Selectivity) -> (r: Selectivity)
    ensures
        r == product(a, b),
{
    Selectivity::Product(Box::new(a), Box::new(b))
}

/// The selectivity with that of the bounds: two bounds on one expression make
/// a range.
pub open spec fn with_ranges(s: Selectivity, l: List<RangeQuery>) -> Selectivity
    decreases l,
{
    match l {
        List::Nil => s,
        List::Cons(x, xs) => with_ranges(
            match (x.low, x.high) {
                (Some(low), Some(high)) => product(
                    s,
                    Selectivity::Between {
                        var: Box::new(x.var),
                        low: Box::new(low),
                        high: Box::new(high),
                    },
                ),
                (Some(low), None) => product(s, low),
                (None, Some(high)) => product(s, high),
                (None, None) => s,
            },
            *xs,
        ),
    }
}

/// Puts the bounds into a selectivity.
pub fn merge_range_pairs(s: Selectivity, l: List<RangeQuery>) -> (r: Selectivity)
    ensures
        r == with_ranges(s, l),
    decreases l,
{
    match l {
        List::Nil => s,
        List::Cons(x, xs) => {
            let next = match x.low {
                Some(low) => match x.high {
                    Some(high) => multiply(
                        s,
                        Selectivity::Between {
                            var: Box::new(x.var),
                            low: Box::new(low),
                            high: Box::new(high),
                        },
                    ),
                    None => multiply(s, low),
                },
                None => match x.high {
                    Some(high) => multiply(s, high),
                    None => s,
                },
            };
            merge_range_pairs(next, *xs)
        },
    }
}

/// What is known of the sides of a clause: on which of them the expression
/// stands that is bounded by the other.
#[derive(Clone, Copy, Debug, PartialEq, Eq, Structural)]
pub enum BoundedSide {
    Left,
    Right,
    Neither,
}

/// The side of an expression that is bounded by the other.
pub open spec fn node_side(clause: Expr, a: Expr, b: Expr, ctx: SelContext) -> BoundedSide {
    if crate::relids::the_only(tables_of(clause, ctx)) is None {
        BoundedSide::Neither
    } else if crate::dependencies::is_constant_like(b, ctx.volatile) {
        BoundedSide::Left
    } else if crate::dependencies::is_constant_like(a, ctx.volatile) {
        BoundedSide::Right
    } else {
        BoundedSide::Neither
    }
}

fn find_node_side(clause: &Expr, a: &Expr, b: &Expr, ctx: &SelContext) -> (r: BoundedSide)
    ensures
        r == node_side(*clause, *a, *b, *ctx),
{
    let tables = find_tables(clause, ctx);
    if relids_singleton_member(&tables).is_none() {
        BoundedSide::Neither
    } else if crate::dependencies::check_constant_like(b, &ctx.volatile) {
        BoundedSide::Left
    } else if crate::dependencies::check_constant_like(a, &ctx.volatile) {
        BoundedSide::Right
    } else {
        BoundedSide::Neither
    }
}

/// A selectivity that is being put together, and the bounds found so far.
#[derive(Debug)]
pub struct Conjunction {
    pub product: Selectivity,
    pub ranges: List<RangeQuery>,
}

/// The conjunction with a clause whose selectivity is known. A comparison with
/// a constant is a bound on its other side.
pub open spec fn with_clause(
    c: Conjunction,
    clause: Expr,
    s: Selectivity,
    side: BoundedSide,
    ctx: SelContext,
) -> Conjunction {
    let plain = Conjunction { product: product(c.product, s), ranges: c.ranges };
    match clause {
        Expr::Call { head, args } => match head {
            Head::Op { opno, typid, collation, inputcollid } => match crate::extstats::two_args(
                *args,
            ) {
                None => plain,
                Some(p) => {
                    let less = ctx.less@.contains(opno);
                    if side == BoundedSide::Neither || (!less && !ctx.greater@.contains(opno)) {
                        plain
                    } else if side == BoundedSide::Left {
                        Conjunction {
                            product: c.product,
                            ranges: with_range(c.ranges, p.0, !less, s),
                        }
                    } else {
                        Conjunction {
                            product: c.product,
                            ranges: with_range(c.ranges, p.1, less, s),
                        }
                    }
                },
            },
            _ => plain,
        },
        _ => plain,
    }
}

fn merge_clause(
    c: Conjunction,
    clause: &Expr,
    s: Selectivity,
    side: BoundedSide,
    ctx: &SelContext,
) -> (r: Conjunction)
    ensures
        r == with_clause(c, *clause, s, side, *ctx),
{
    if let Expr::Call { head, args } = clause {
        if let Head::Op { opno, .. } = head {
            if let Some((a, b)) = find_two_args(args) {
                let less = list_has(&ctx.less, *opno);
                let greater = list_has(&ctx.greater, *opno);
                if side != BoundedSide::Neither && (less || greater) {
                    let ranges = if side == BoundedSide::Left {
                        add_range_clause(c.ranges, a.copy(), !less, s)
                    } else {
                        add_range_clause(c.ranges, b.copy(), less, s)
                    };
                    return Conjunction { product: c.product, ranges };
                }
            }
        }
    }
    Conjunction { product: multiply(c.product, s), ranges: c.ranges }
}

/// The selectivity of an expression.
pub open spec fn node_selectivity(e: Expr, ctx: SelContext) -> Selectivity
    decreases e, 1int,
{
    let join = is_join_clause(crate::relids::is_multiple(tables_of(e, ctx)), ctx);
    match e {
        Expr::Var(v) => if v.levelsup == 0 && (ctx.varrelid == 0 || v.varno == ctx.varrelid) {
            Selectivity::Truth(Box::new(e))
        } else {
            Selectivity::Half
        },
        Expr::Const(c) => if c.isnull || c.value == 0 {
            Selectivity::Zero
        } else {
            Selectivity::One
        },
        Expr::Param(_, _, _) | Expr::OuterParam(_) => Selectivity::Half,
        Expr::PlaceHolder { .. } => Selectivity::Truth(Box::new(e)),
        Expr::Relabel { typid, collation, arg } => node_selectivity(*arg, ctx),
        Expr::Call { head, args } => match head {
            Head::And => nodes_selectivity(*args, ctx),
            Head::Or => match or_estimated(ctx.disjunctions, e) {
                Some(estimated) => either_of(
                    *args,
                    estimated,
                    ctx,
                    Selectivity::ExtendedOr(Box::new(e)),
                ),
                None => either_of(*args, List::Nil, ctx, Selectivity::Zero),
            },
            Head::Not => match *args {
                List::Cons(a, _) => Selectivity::Complement(Box::new(node_selectivity(a, ctx))),
                List::Nil => Selectivity::Half,
            },
            Head::Op { opno, typid, collation, inputcollid } => if join {
                Selectivity::Join(Box::new(e))
            } else {
                Selectivity::Restriction(Box::new(e))
            },
            Head::Func { func, typid, collation } => Selectivity::Function(Box::new(e), join),
            Head::ArrayOp { opno, use_or, inputcollid } => Selectivity::Array(Box::new(e), join),
            Head::Row { test, detail, left } => Selectivity::Row(
                Box::new(e),
                is_join_clause(crate::relids::is_multiple(first_pair_varnos(*args, left)), ctx),
            ),
            Head::NullTest { is_null } => Selectivity::NullTest(Box::new(e)),
            Head::BooleanTest { kind } => Selectivity::BooleanTest(Box::new(e)),
            Head::CurrentOf { varno, cursor } => Selectivity::OneRowOf(varno),
            Head::Distinct { opno, inputcollid } => Selectivity::Half,
            Head::SubPlan { plan, typid, collation } => Selectivity::Half,
            _ => Selectivity::Truth(Box::new(e)),
        },
    }
}

/// The relations that the first column of a comparison of rows refers to.
pub open spec fn first_pair_varnos(args: List<Expr>, left: usize) -> Relids {
    match (nth(args, 0), nth(args, left)) {
        (Some(a), Some(b)) => crate::relids::union_list(varnos(a), varnos(b)),
        _ => List::Nil,
    }
}

/// The expression at a place.
pub open spec fn nth(l: List<Expr>, n: usize) -> Option<Expr>
    decreases l,
{
    match l {
        List::Nil => None,
        List::Cons(x, xs) => if n == 0 {
            Some(x)
        } else {
            nth(*xs, (n - 1) as usize)
        },
    }
}

fn find_nth(l: &List<Expr>, n: usize) -> (r: Option<&Expr>)
    ensures
        r is Some <==> nth(*l, n) is Some,
        r matches Some(x) ==> nth(*l, n) == Some(*x),
    decreases l,
{
    match l {
        List::Nil => None,
        List::Cons(x, xs) => if n == 0 {
            Some(x)
        } else {
            find_nth(xs, n - 1)
        },
    }
}

fn find_first_pair_varnos(args: &List<Expr>, left: usize) -> (r: Relids)
    ensures
        r == first_pair_varnos(*args, left),
{
    match (find_nth(args, 0), find_nth(args, left)) {
        (Some(a), Some(b)) => {
            let x = pull_varnos(a);
            let y = pull_varnos(b);
            relids_union(&x, &y)
        },
        _ => List::Nil,
    }
}

/// The selectivity of expressions that all have to hold.
pub open spec fn nodes_selectivity(l: List<Expr>, ctx: SelContext) -> Selectivity
    decreases l, 1int,
{
    match l {
        List::Cons(x, xs) => if *xs is Nil {
            node_selectivity(x, ctx)
        } else {
            finished(all_of(l, ctx, empty_conjunction()))
        },
        List::Nil => Selectivity::One,
    }
}

/// Nothing has to hold.
pub open spec fn empty_conjunction() -> Conjunction {
    Conjunction { product: Selectivity::One, ranges: List::Nil }
}

/// The selectivity of a conjunction.
pub open spec fn finished(c: Conjunction) -> Selectivity {
    with_ranges(c.product, c.ranges)
}

/// The conjunction with more expressions.
pub open spec fn all_of(l: List<Expr>, ctx: SelContext, c: Conjunction) -> Conjunction
    decreases l, 0int,
{
    match l {
        List::Nil => c,
        List::Cons(x, xs) => {
            let side = match x {
                Expr::Call { head, args } => match crate::extstats::two_args(*args) {
                    Some(p) => node_side(x, p.0, p.1, ctx),
                    None => BoundedSide::Neither,
                },
                _ => BoundedSide::Neither,
            };
            all_of(*xs, ctx, with_clause(c, x, node_selectivity(x, ctx), side, ctx))
        },
    }
}

/// The first flag, and the others.
pub open spec fn split_flags(flags: List<bool>) -> (bool, List<bool>) {
    match flags {
        List::Nil => (false, List::Nil),
        List::Cons(f, fs) => (f, *fs),
    }
}

/// The selectivity of expressions one of which has to hold, added to that of
/// others; those that are marked are accounted for already.
pub open spec fn either_of(
    l: List<Expr>,
    marked: List<bool>,
    ctx: SelContext,
    s: Selectivity,
) -> Selectivity
    decreases l, 0int,
{
    match l {
        List::Nil => s,
        List::Cons(x, xs) => {
            let (skip, rest) = split_flags(marked);
            either_of(
                *xs,
                rest,
                ctx,
                if skip {
                    s
                } else {
                    Selectivity::Either(Box::new(s), Box::new(node_selectivity(x, ctx)))
                },
            )
        },
    }
}

/// Finds the selectivity of an expression.
pub fn clause_selectivity_node(e: &Expr, ctx: &SelContext) -> (r: Selectivity)
    ensures
        r == node_selectivity(*e, *ctx),
    decreases e, 1int,
{
    match e {
        Expr::Var(v) => {
            let own = ctx.varrelid == 0 || (v.varno >= 0 && v.varno as u32 == ctx.varrelid);
            if v.levelsup == 0 && own {
                Selectivity::Truth(Box::new(e.copy()))
            } else {
                Selectivity::Half
            }
        },
        Expr::Const(c) => if c.isnull || c.value == 0 {
            Selectivity::Zero
        } else {
            Selectivity::One
        },
        Expr::Param(_, _, _) => Selectivity::Half,
        Expr::OuterParam(_) => Selectivity::Half,
        Expr::PlaceHolder { .. } => Selectivity::Truth(Box::new(e.copy())),
        Expr::Relabel { arg, .. } => clause_selectivity_node(arg, ctx),
        Expr::Call { head, args } => {
            let tables = find_tables(e, ctx);
            let join = treat_as_join_clause(relids_is_multiple(&tables), ctx);
            match head {
                Head::And => clauselist_selectivity_nodes(args, ctx),
                Head::Or => match find_or_estimated(&ctx.disjunctions, e) {
                    Some(estimated) => clauselist_selectivity_or(
                        args,
                        estimated,
                        ctx,
                        Selectivity::ExtendedOr(Box::new(e.copy())),
                    ),
                    None => clauselist_selectivity_or(args, List::Nil, ctx, Selectivity::Zero),
                },
                Head::Not => match &**args {
                    List::Cons(a, _) => Selectivity::Complement(
                        Box::new(clause_selectivity_node(a, ctx)),
                    ),
                    List::Nil => Selectivity::Half,
                },
                Head::Op { .. } => if join {
                    Selectivity::Join(Box::new(e.copy()))
                } else {
                    Selectivity::Restriction(Box::new(e.copy()))
                },
                Head::Func { .. } => Selectivity::Function(Box::new(e.copy()), join),
                Head::ArrayOp { .. } => Selectivity::Array(Box::new(e.copy()), join),
                Head::Row { left, .. } => {
                    let pair = find_first_pair_varnos(args, *left);
                    let both = treat_as_join_clause(relids_is_multiple(&pair), ctx);
                    Selectivity::Row(Box::new(e.copy()), both)
                },
                Head::NullTest { .. } => Selectivity::NullTest(Box::new(e.copy())),
                Head::BooleanTest { .. } => Selectivity::BooleanTest(Box::new(e.copy())),
                Head::CurrentOf { varno, .. } => Selectivity::OneRowOf(*varno),
                Head::Distinct { .. } => Selectivity::Half,
                Head::SubPlan { .. } => Selectivity::Half,
                _ => Selectivity::Truth(Box::new(e.copy())),
            }
        },
    }
}

fn clauselist_selectivity_nodes(l: &List<Expr>, ctx: &SelContext) -> (r: Selectivity)
    ensures
        r == nodes_selectivity(*l, *ctx),
    decreases l, 1int,
{
    match l {
        List::Cons(x, xs) => {
            if xs.is_nil() {
                return clause_selectivity_node(x, ctx);
            }
            let none = Conjunction { product: Selectivity::One, ranges: List::Nil };
            let c = add_all(l, ctx, none);
            merge_range_pairs(c.product, c.ranges)
        },
        List::Nil => Selectivity::One,
    }
}

fn add_all(l: &List<Expr>, ctx: &SelContext, c: Conjunction) -> (r: Conjunction)
    ensures
        r == all_of(*l, *ctx, c),
    decreases l, 0int,
{
    match l {
        List::Nil => c,
        List::Cons(x, xs) => {
            let s = clause_selectivity_node(x, ctx);
            let side = match x {
                Expr::Call { args, .. } => match find_two_args(args) {
                    Some((a, b)) => find_node_side(x, a, b, ctx),
                    None => BoundedSide::Neither,
                },
                _ => BoundedSide::Neither,
            };
            add_all(xs, ctx, merge_clause(c, x, s, side, ctx))
        },
    }
}

/// Finds the selectivity of expressions one of which has to hold, added to
/// that of others; those that are marked are accounted for already.
pub fn clauselist_selectivity_or(
    l: &List<Expr>,
    marked: List<bool>,
    ctx: &SelContext,
    s: Selectivity,
) -> (r: Selectivity)
    ensures
        r == either_of(*l, marked, *ctx, s),
    decreases l, 0int,
{
    match l {
        List::Nil => s,
        List::Cons(x, xs) => {
            let (skip, rest) = match marked {
                List::Nil => (false, List::Nil),
                List::Cons(f, fs) => (f, *fs),
            };
            if skip {
                return clauselist_selectivity_or(xs, rest, ctx, s);
            }
            let here = clause_selectivity_node(x, ctx);
            clauselist_selectivity_or(
                xs,
                rest,
                ctx,
                Selectivity::Either(Box::new(s), Box::new(here)),
            )
        },
    }
}

/// A clause of a query, with what is known of it.
#[derive(Debug)]
pub struct SelClause {
    pub id: u32,
    pub clause: Expr,
    pub pseudoconstant: bool,
    pub num_base_rels: i32,
    pub clause_relids: Relids,
    pub left_relids: Relids,
    pub right_relids: Relids,
    /// Its selectivity has been found before, in an inner join and otherwise.
    pub has_norm: bool,
    pub has_outer: bool,
    /// All rows of the columns that it refers to may be read.
    pub readable: bool,
    /// Statistics on several columns account for it.
    pub estimated: bool,
}

/// The selectivity of the clause does not depend on where it is wanted, but
/// for the kind of join.
pub open spec fn is_cacheable(c: SelClause, ctx: SelContext) -> bool {
    ctx.varrelid == 0 || c.num_base_rels == 0 || (c.num_base_rels == 1 && crate::relids::ids(
        c.clause_relids,
    ).contains(ctx.varrelid))
}

/// The selectivity of the clause has been found before, for the kind of join.
pub open spec fn is_known(c: SelClause, ctx: SelContext) -> bool {
    if ctx.inner_join {
        c.has_norm
    } else {
        c.has_outer
    }
}

/// The selectivity of the clause is found now and kept for later.
pub open spec fn is_kept(c: SelClause, ctx: SelContext) -> bool {
    !(c.pseudoconstant && !(c.clause is Const)) && is_cacheable(c, ctx) && !is_known(c, ctx)
}

/// The selectivity of a clause.
pub open spec fn rinfo_selectivity(c: SelClause, ctx: SelContext) -> Selectivity {
    if c.pseudoconstant && !(c.clause is Const) {
        Selectivity::One
    } else if is_cacheable(c, ctx) && is_known(c, ctx) {
        Selectivity::Cached(c.id)
    } else if c.clause is Call && c.clause->Call_head is Op {
        if is_join_clause(c.num_base_rels > 1, ctx) {
            Selectivity::Join(Box::new(c.clause))
        } else {
            Selectivity::Restriction(Box::new(c.clause))
        }
    } else {
        node_selectivity(c.clause, ctx)
    }
}

/// Finds the selectivity of a clause, and tells whether it is to be kept for
/// later.
pub fn clause_selectivity(c: &SelClause, ctx: &SelContext) -> (r: (Selectivity, bool))
    ensures
        r.0 == rinfo_selectivity(*c, *ctx),
        r.1 == is_kept(*c, *ctx),
{
    let is_const = match &c.clause {
        Expr::Const(_) => true,
        _ => false,
    };
    if c.pseudoconstant && !is_const {
        return (Selectivity::One, false);
    }
    let cacheable = ctx.varrelid == 0 || c.num_base_rels == 0 || (c.num_base_rels == 1
        && relids_is_member(ctx.varrelid, &c.clause_relids));
    let known = if ctx.inner_join {
        c.has_norm
    } else {
        c.has_outer
    };
    if cacheable && known {
        return (Selectivity::Cached(c.id), false);
    }
    let is_op = match &c.clause {
        Expr::Call { head: Head::Op { .. }, .. } => true,
        _ => false,
    };
    if is_op {
        let copy = c.clause.copy();
        if treat_as_join_clause(c.num_base_rels > 1, ctx) {
            return (Selectivity::Join(Box::new(copy)), cacheable);
        }
        return (Selectivity::Restriction(Box::new(copy)), cacheable);
    }
    (clause_selectivity_node(&c.clause, ctx), cacheable)
}

/// The side of a clause that is bounded by the other.
pub open spec fn clause_side(c: SelClause, ctx: SelContext) -> BoundedSide {
    match c.clause {
        Expr::Call { head, args } => match crate::extstats::two_args(*args) {
            Some(p) => if c.num_base_rels != 1 {
                BoundedSide::Neither
            } else if c.right_relids is Nil && !has_volatile(p.1, ctx.volatile) {
                BoundedSide::Left
            } else if c.left_relids is Nil && !has_volatile(p.0, ctx.volatile) {
                BoundedSide::Right
            } else {
                BoundedSide::Neither
            },
            None => BoundedSide::Neither,
        },
        _ => BoundedSide::Neither,
    }
}

fn find_clause_side(c: &SelClause, ctx: &SelContext) -> (r: BoundedSide)
    ensures
        r == clause_side(*c, *ctx),
{
    match &c.clause {
        Expr::Call { args, .. } => match find_two_args(args) {
            Some((a, b)) => if c.num_base_rels != 1 {
                BoundedSide::Neither
            } else if c.right_relids.is_nil() && !contains_volatile(b, &ctx.volatile) {
                BoundedSide::Left
            } else if c.left_relids.is_nil() && !contains_volatile(a, &ctx.volatile) {
                BoundedSide::Right
            } else {
                BoundedSide::Neither
            },
            None => BoundedSide::Neither,
        },
        _ => BoundedSide::Neither,
    }
}

/// The conjunction with more clauses; those that statistics on several columns
/// account for are passed over.
pub open spec fn all_clauses(l: List<SelClause>, ctx: SelContext, c: Conjunction) -> Conjunction
    decreases l,
{
    match l {
        List::Nil => c,
        List::Cons(x, xs) => {
            let s = rinfo_selectivity(x, ctx);
            all_clauses(
                *xs,
                ctx,
                if x.estimated {
                    c
                } else if x.pseudoconstant {
                    Conjunction { product: product(c.product, s), ranges: c.ranges }
                } else {
                    with_clause(c, x.clause, s, clause_side(x, ctx), ctx)
                },
            )
        },
    }
}

fn add_clauses(l: &List<SelClause>, ctx: &SelContext, c: Conjunction) -> (r: Conjunction)
    ensures
        r == all_clauses(*l, *ctx, c),
    decreases l,
{
    match l {
        List::Nil => c,
        List::Cons(x, xs) => {
            if x.estimated {
                return add_clauses(xs, ctx, c);
            }
            let (s, _) = clause_selectivity(x, ctx);
            if x.pseudoconstant {
                let next = Conjunction { product: multiply(c.product, s), ranges: c.ranges };
                return add_clauses(xs, ctx, next);
            }
            let side = find_clause_side(x, ctx);
            add_clauses(xs, ctx, merge_clause(c, &x.clause, s, side, ctx))
        },
    }
}

/// The selectivity of clauses that all have to hold; `extended` says that
/// statistics on several columns account for some of them.
pub open spec fn list_selectivity(l: List<SelClause>, ctx: SelContext, extended: bool) -> Selectivity {
    match l {
        List::Cons(x, xs) if *xs is Nil => rinfo_selectivity(x, ctx),
        _ => finished(
            all_clauses(
                l,
                ctx,
                Conjunction {
                    product: if extended {
                        product(Selectivity::One, Selectivity::Extended)
                    } else {
                        Selectivity::One
                    },
                    ranges: List::Nil,
                },
            ),
        ),
    }
}

/// The selectivity of a clause that is kept for later: what an inner join goes
/// by, or what other joins go by.
#[derive(Debug)]
pub struct KeptSelectivity {
    pub clause: u32,
    pub inner_join: bool,
    pub value: Selectivity,
}

/// The selectivities that are kept when those of the clauses are found, except
/// for clauses that statistics on several columns account for; `all` says that
/// there are none of those.
pub open spec fn kept_selectivities(l: List<SelClause>, ctx: SelContext, all: bool) -> List<
    KeptSelectivity,
>
    decreases l,
{
    match l {
        List::Nil => List::Nil,
        List::Cons(x, xs) => {
            let rest = kept_selectivities(*xs, ctx, all);
            if (all || !x.estimated) && is_kept(x, ctx) {
                List::Cons(
                    KeptSelectivity {
                        clause: x.id,
                        inner_join: ctx.inner_join,
                        value: rinfo_selectivity(x, ctx),
                    },
                    Box::new(rest),
                )
            } else {
                rest
            }
        },
    }
}

fn keep_selectivities(l: &List<SelClause>, ctx: &SelContext, all: bool) -> (r: List<
    KeptSelectivity,
>)
    ensures
        r == kept_selectivities(*l, *ctx, all),
    decreases l,
{
    match l {
        List::Nil => List::Nil,
        List::Cons(x, xs) => {
            let rest = keep_selectivities(xs, ctx, all);
            if all || !x.estimated {
                let (value, kept) = clause_selectivity(x, ctx);
                if kept {
                    let first = KeptSelectivity {
                        clause: x.id,
                        inner_join: ctx.inner_join,
                        value,
                    };
                    return List::Cons(first, Box::new(rest));
                }
            }
            rest
        },
    }
}

/// The list has a single clause, which goes by its own estimate.
pub open spec fn is_single(l: List<SelClause>) -> bool {
    l matches List::Cons(_, rest) && *rest is Nil
}

/// Finds the selectivity of clauses that all have to hold, and which of those of
/// the clauses are kept for later.
pub fn clauselist_selectivity_ext(l: &List<SelClause>, ctx: &SelContext, extended: bool) -> (r: (
    Selectivity,
    List<KeptSelectivity>,
))
    ensures
        r.0 == list_selectivity(*l, *ctx, extended),
        r.1 == kept_selectivities(*l, *ctx, is_single(*l)),
{
    if let List::Cons(x, xs) = l {
        if xs.is_nil() {
            let (s, _) = clause_selectivity(x, ctx);
            return (s, keep_selectivities(l, ctx, true));
        }
    }
    let first = if extended {
        multiply(Selectivity::One, Selectivity::Extended)
    } else {
        Selectivity::One
    };
    let c = add_clauses(l, ctx, Conjunction { product: first, ranges: List::Nil });
    let s = merge_range_pairs(c.product, c.ranges);
    (s, keep_selectivities(l, ctx, false))
}

/// The clause once its selectivity has been kept.
pub open spec fn after_keeping(c: SelClause, inner_join: bool) -> SelClause {
    if inner_join {
        SelClause { has_norm: true, ..c }
    } else {
        SelClause { has_outer: true, ..c }
    }
}

/// A selectivity that is kept is not found a second time: later it is taken as
/// it is, and nothing is left to be kept.
pub proof fn lemma_kept_once(c: SelClause, ctx: SelContext)
    requires
        is_kept(c, ctx),
    ensures
        rinfo_selectivity(after_keeping(c, ctx.inner_join), ctx) == Selectivity::Cached(c.id),
        !is_kept(after_keeping(c, ctx.inner_join), ctx),
{
}

/// How many bounds there are.
pub open spec fn num_bounds(l: List<RangeQuery>) -> nat
    decreases l,
{
    match l {
        List::Nil => 0,
        List::Cons(x, xs) => num_bounds(*xs) + (if x.low is Some {
            1nat
        } else {
            0nat
        }) + (if x.high is Some {
            1nat
        } else {
            0nat
        }),
    }
}

/// Of bounds in one direction on one expression, only one counts; a bound in
/// the other direction, or on another expression, is a new one.
pub proof fn lemma_with_range(l: List<RangeQuery>, var: Expr, is_low: bool, s: Selectivity)
    ensures
        num_bounds(l) <= num_bounds(with_range(l, var, is_low, s)) <= num_bounds(l) + 1,
        num_bounds(with_range(with_range(l, var, is_low, s), var, is_low, s)) == num_bounds(
            with_range(l, var, is_low, s),
        ),
    decreases l,
{
    crate::expr::lemma_same_reflexive(var);
    match l {
        List::Nil => {
            assert(num_bounds(List::Nil) == 0);
        },
        List::Cons(x, xs) => {
            lemma_with_range(*xs, var, is_low, s);
        },
    }
}

/// The number that a selectivity comes to when numbers are given for the
/// estimates that it is made of.
pub open spec fn value(s: Selectivity, estimate: spec_fn(Selectivity) -> int) -> int
    decreases s,
{
    match s {
        Selectivity::Zero => 0,
        Selectivity::One => 1,
        Selectivity::Product(a, b) => value(*a, estimate) * value(*b, estimate),
        Selectivity::Either(a, b) => value(*a, estimate) + value(*b, estimate) - value(*a, estimate)
            * value(*b, estimate),
        Selectivity::Complement(a) => 1 - value(*a, estimate),
        Selectivity::Least(a, b) => if value(*a, estimate) <= value(*b, estimate) {
            value(*a, estimate)
        } else {
            value(*b, estimate)
        },
        _ => estimate(s),
    }
}

/// NOT of an expression.
pub open spec fn negation(e: Expr) -> Expr {
    Expr::Call { head: Head::Not, args: Box::new(List::Cons(e, Box::new(List::Nil))) }
}

/// NOT selects the rows that the expression does not: whatever the estimates
/// are, the two selectivities make up one. So NOT of NOT selects what the
/// expression does.
pub proof fn lemma_negated(e: Expr, ctx: SelContext, estimate: spec_fn(Selectivity) -> int)
    ensures
        value(node_selectivity(negation(e), ctx), estimate) == 1 - value(
            node_selectivity(e, ctx),
            estimate,
        ),
        value(node_selectivity(negation(negation(e)), ctx), estimate) == value(
            node_selectivity(e, ctx),
            estimate,
        ),
{
    reveal_with_fuel(node_selectivity, 4);
    reveal_with_fuel(value, 4);
}

/// A constant selects all rows or none: TRUE all, FALSE and NULL none. A change
/// of the type alone selects no other rows.
pub proof fn lemma_constant_selects(
    c: crate::expr::Const,
    typid: u32,
    collation: u32,
    e: Expr,
    ctx: SelContext,
    estimate: spec_fn(Selectivity) -> int,
)
    ensures
        value(node_selectivity(Expr::Const(c), ctx), estimate) == (if !c.isnull && c.value != 0 {
            1int
        } else {
            0int
        }),
        node_selectivity(Expr::Relabel { typid, collation, arg: Box::new(e) }, ctx)
            == node_selectivity(e, ctx),
{
    reveal_with_fuel(node_selectivity, 3);
}

/// The selectivity of none of the expressions holding, those that are marked
/// aside, where they are independent.
pub open spec fn none_holds(
    l: Seq<Expr>,
    marked: Seq<bool>,
    ctx: SelContext,
    estimate: spec_fn(Selectivity) -> int,
) -> int
    decreases l.len(),
{
    if l.len() == 0 {
        1
    } else {
        let rest = none_holds(l.drop_last(), marked, ctx, estimate);
        if l.len() <= marked.len() && marked[l.len() - 1] {
            rest
        } else {
            rest * (1 - value(node_selectivity(l.last(), ctx), estimate))
        }
    }
}

proof fn lemma_none_holds_cons(
    x: Expr,
    xs: Seq<Expr>,
    marked: Seq<bool>,
    ctx: SelContext,
    estimate: spec_fn(Selectivity) -> int,
)
    ensures
        none_holds(seq![x] + xs, marked, ctx, estimate) == (if marked.len() > 0 && marked[0] {
            1
        } else {
            1 - value(node_selectivity(x, ctx), estimate)
        }) * none_holds(
            xs,
            if marked.len() > 0 {
                marked.drop_first()
            } else {
                marked
            },
            ctx,
            estimate,
        ),
    decreases xs.len(),
{
    let all = seq![x] + xs;
    let rest = if marked.len() > 0 {
        marked.drop_first()
    } else {
        marked
    };
    let f = if marked.len() > 0 && marked[0] {
        1
    } else {
        1 - value(node_selectivity(x, ctx), estimate)
    };
    reveal_with_fuel(none_holds, 2);
    if xs.len() == 0 {
        assert(all.drop_last() =~= Seq::<Expr>::empty());
        assert(all.last() == x);
    } else {
        assert(all.drop_last() =~= seq![x] + xs.drop_last());
        lemma_none_holds_cons(x, xs.drop_last(), marked, ctx, estimate);
        assert(all.last() == xs.last());
        let a = none_holds(xs.drop_last(), rest, ctx, estimate);
        let b = 1 - value(node_selectivity(xs.last(), ctx), estimate);
        assert((f * a) * b == f * (a * b)) by (nonlinear_arith);
    }
}

proof fn lemma_either_of(
    l: List<Expr>,
    marked: List<bool>,
    ctx: SelContext,
    s: Selectivity,
    estimate: spec_fn(Selectivity) -> int,
)
    ensures
        1 - value(either_of(l, marked, ctx, s), estimate) == (1 - value(s, estimate)) * none_holds(
            l@,
            marked@,
            ctx,
            estimate,
        ),
    decreases l,
{
    match l {
        List::Nil => {
            assert(l@.len() == 0);
        },
        List::Cons(x, xs) => {
            let (skip, rest) = split_flags(marked);
            let here = node_selectivity(x, ctx);
            let next = if skip {
                s
            } else {
                Selectivity::Either(Box::new(s), Box::new(here))
            };
            lemma_either_of(*xs, rest, ctx, next, estimate);
            lemma_none_holds_cons(x, xs@, marked@, ctx, estimate);
            match marked {
                List::Nil => {
                    assert(marked@.len() == 0);
                    assert(rest@ =~= marked@);
                },
                List::Cons(f, fs) => {
                    assert(marked@[0] == f);
                    assert(marked@.drop_first() =~= fs@);
                },
            }
            let a = value(s, estimate);
            let b = value(here, estimate);
            let n = none_holds(xs@, rest@, ctx, estimate);
            if !skip {
                assert(value(next, estimate) == a + b - a * b);
                assert((1 - (a + b - a * b)) * n == (1 - a) * ((1 - b) * n)) by (nonlinear_arith);
            }
        },
    }
}

/// OR fails to select a row where all of its alternatives fail to: these are
/// taken to be independent, but for those that statistics on several columns
/// account for.
pub proof fn lemma_disjunction(
    l: List<Expr>,
    ctx: SelContext,
    estimate: spec_fn(Selectivity) -> int,
)
    ensures
        ({
            let e = Expr::Call { head: Head::Or, args: Box::new(l) };
            let fails = 1 - value(node_selectivity(e, ctx), estimate);
            match or_estimated(ctx.disjunctions, e) {
                None => fails == none_holds(l@, Seq::empty(), ctx, estimate),
                Some(marked) => fails == (1 - estimate(Selectivity::ExtendedOr(Box::new(e))))
                    * none_holds(l@, marked@, ctx, estimate),
            }
        }),
{
    reveal_with_fuel(node_selectivity, 2);
    let e = Expr::Call { head: Head::Or, args: Box::new(l) };
    let none: List<bool> = List::Nil;
    assert(none@ =~= Seq::<bool>::empty());
    match or_estimated(ctx.disjunctions, e) {
        None => {
            lemma_either_of(l, none, ctx, Selectivity::Zero, estimate);
            let n = none_holds(l@, none@, ctx, estimate);
            assert(value(Selectivity::Zero, estimate) == 0);
            assert((1 - 0) * n == n) by (nonlinear_arith);
            assert(node_selectivity(e, ctx) == either_of(l, none, ctx, Selectivity::Zero));
        },
        Some(marked) => {
            let first = Selectivity::ExtendedOr(Box::new(e));
            assert(value(first, estimate) == estimate(first));
            assert(node_selectivity(e, ctx) == either_of(l, marked, ctx, first));
            lemma_either_of(
                l,
                marked,
                ctx,
                Selectivity::ExtendedOr(Box::new(e)),
                estimate,
            );
        },
    }
}

/// Bounds on the expression have been found.
pub open spec fn is_bounded(l: Seq<RangeQuery>, var: Expr) -> bool {
    exists|i: int| 0 <= i < l.len() && crate::expr::same_expr(var, (#[trigger] l[i]).var)
}

/// The clause compares something with a value, as lesser or greater.
pub open spec fn is_bound(clause: Expr, ctx: SelContext) -> bool {
    clause matches Expr::Call { head: Head::Op { opno, .. }, args } && args@.len() == 2 && (
    ctx.less@.contains(opno) || ctx.greater@.contains(opno))
}

proof fn lemma_ranges_value(
    s: Selectivity,
    t: Selectivity,
    f: int,
    l: List<RangeQuery>,
    estimate: spec_fn(Selectivity) -> int,
)
    requires
        value(t, estimate) == value(s, estimate) * f,
    ensures
        value(with_ranges(t, l), estimate) == value(with_ranges(s, l), estimate) * f,
    decreases l,
{
    if let List::Cons(x, xs) = l {
        let part = match (x.low, x.high) {
            (Some(low), Some(high)) => Some(
                Selectivity::Between {
                    var: Box::new(x.var),
                    low: Box::new(low),
                    high: Box::new(high),
                },
            ),
            (Some(low), None) => Some(low),
            (None, Some(high)) => Some(high),
            (None, None) => None,
        };
        match part {
            None => {
                lemma_ranges_value(s, t, f, *xs, estimate);
            },
            Some(p) => {
                let a = value(s, estimate);
                let b = value(p, estimate);
                assert((a * f) * b == (a * b) * f) by (nonlinear_arith);
                assert(value(product(s, p), estimate) == a * b);
                assert(value(product(t, p), estimate) == (a * f) * b);
                lemma_ranges_value(product(s, p), product(t, p), f, *xs, estimate);
            },
        }
    }
}

proof fn lemma_new_range(
    s: Selectivity,
    l: List<RangeQuery>,
    var: Expr,
    is_low: bool,
    bound: Selectivity,
    estimate: spec_fn(Selectivity) -> int,
)
    requires
        !is_bounded(l@, var),
    ensures
        value(with_ranges(s, with_range(l, var, is_low, bound)), estimate) == value(
            with_ranges(s, l),
            estimate,
        ) * value(bound, estimate),
    decreases l,
{
    match l {
        List::Nil => {
            let q = if is_low {
                RangeQuery { var, low: Some(bound), high: None }
            } else {
                RangeQuery { var, low: None, high: Some(bound) }
            };
            let none: List<RangeQuery> = List::Nil;
            assert(with_range(l, var, is_low, bound) == List::Cons(q, Box::new(none)));
            assert(with_ranges(product(s, bound), none) == product(s, bound));
            assert(value(product(s, bound), estimate) == value(s, estimate) * value(
                bound,
                estimate,
            ));
        },
        List::Cons(x, xs) => {
            assert(l@[0] == x);
            assert(!is_bounded(xs@, var)) by {
                if is_bounded(xs@, var) {
                    let i = choose|i: int|
                        0 <= i < xs@.len() && crate::expr::same_expr(var, (#[trigger] xs@[i]).var);
                    assert(l@[i + 1] == xs@[i]);
                }
            }
            let next = match (x.low, x.high) {
                (Some(low), Some(high)) => product(
                    s,
                    Selectivity::Between {
                        var: Box::new(x.var),
                        low: Box::new(low),
                        high: Box::new(high),
                    },
                ),
                (Some(low), None) => product(s, low),
                (None, Some(high)) => product(s, high),
                (None, None) => s,
            };
            lemma_new_range(next, *xs, var, is_low, bound, estimate);
        },
    }
}

/// A clause that has to hold as well reduces a selectivity by the factor of its
/// own, unless it sets a bound on an expression that has a bound already.
pub proof fn lemma_clause_multiplies(
    c: Conjunction,
    clause: Expr,
    s: Selectivity,
    side: BoundedSide,
    ctx: SelContext,
    estimate: spec_fn(Selectivity) -> int,
)
    requires
        is_bound(clause, ctx) && side != BoundedSide::Neither ==> !is_bounded(
            c.ranges@,
            clause->args@[if side == BoundedSide::Left {
                0
            } else {
                1
            }],
        ),
    ensures
        value(finished(with_clause(c, clause, s, side, ctx)), estimate) == value(
            finished(c),
            estimate,
        ) * value(s, estimate),
{
    let plain = Conjunction { product: product(c.product, s), ranges: c.ranges };
    assert(value(product(c.product, s), estimate) == value(c.product, estimate) * value(
        s,
        estimate,
    ));
    lemma_ranges_value(
        c.product,
        product(c.product, s),
        value(s, estimate),
        c.ranges,
        estimate,
    );
    if with_clause(c, clause, s, side, ctx) != plain {
        let args = clause->args;
        lemma_two_args(*args);
        let opno = clause->Call_head->Op_opno;
        let less = ctx.less@.contains(opno);
        if side == BoundedSide::Left {
            lemma_new_range(c.product, c.ranges, args@[0], !less, s, estimate);
        } else {
            lemma_new_range(c.product, c.ranges, args@[1], less, s, estimate);
        }
    }
}

proof fn lemma_two_args(args: List<Expr>)
    ensures
        crate::extstats::two_args(args) is Some <==> args@.len() == 2,
        crate::extstats::two_args(args) matches Some(p) ==> p.0 == args@[0] && p.1 == args@[1],
{
    match args {
        List::Nil => {
            assert(args@.len() == 0);
        },
        List::Cons(a, rest) => {
            match *rest {
                List::Nil => {
                    assert(rest@.len() == 0);
                },
                List::Cons(b, more) => {
                    assert(rest@ == seq![b] + more@);
                    assert(args@[1] == b);
                    match *more {
                        List::Nil => {
                            assert(more@.len() == 0);
                        },
                        List::Cons(_, last) => {
                            assert(more@.len() == 1 + last@.len());
                        },
                    }
                },
            }
        },
    }
}

/// The product of the selectivities of the expressions.
pub open spec fn all_hold(
    l: Seq<Expr>,
    ctx: SelContext,
    estimate: spec_fn(Selectivity) -> int,
) -> int
    decreases l.len(),
{
    if l.len() == 0 {
        1
    } else {
        value(node_selectivity(l[0], ctx), estimate) * all_hold(l.drop_first(), ctx, estimate)
    }
}

proof fn lemma_all_of(
    l: List<Expr>,
    ctx: SelContext,
    c: Conjunction,
    estimate: spec_fn(Selectivity) -> int,
)
    requires
        forall|i: int| 0 <= i < l@.len() ==> !is_bound(#[trigger] l@[i], ctx),
    ensures
        value(finished(all_of(l, ctx, c)), estimate) == value(finished(c), estimate) * all_hold(
            l@,
            ctx,
            estimate,
        ),
    decreases l,
{
    match l {
        List::Nil => {
            assert(l@.len() == 0);
        },
        List::Cons(x, xs) => {
            let side = match x {
                Expr::Call { head, args } => match crate::extstats::two_args(*args) {
                    Some(p) => node_side(x, p.0, p.1, ctx),
                    None => BoundedSide::Neither,
                },
                _ => BoundedSide::Neither,
            };
            let s = node_selectivity(x, ctx);
            let next = with_clause(c, x, s, side, ctx);
            assert(l@[0] == x);
            assert(l@.drop_first() =~= xs@);
            lemma_clause_multiplies(c, x, s, side, ctx, estimate);
            assert forall|i: int| 0 <= i < xs@.len() implies !is_bound(#[trigger] xs@[i], ctx) by {
                assert(l@[i + 1] == xs@[i]);
            }
            lemma_all_of(*xs, ctx, next, estimate);
            let a = value(finished(c), estimate);
            let b = value(s, estimate);
            let n = all_hold(xs@, ctx, estimate);
            assert((a * b) * n == a * (b * n)) by (nonlinear_arith);
        },
    }
}

/// AND selects a row where all of its parts do: these are taken to be
/// independent, but for bounds, which may make up a range.
pub proof fn lemma_conjunction(
    l: List<Expr>,
    ctx: SelContext,
    estimate: spec_fn(Selectivity) -> int,
)
    requires
        forall|i: int| 0 <= i < l@.len() ==> !is_bound(#[trigger] l@[i], ctx),
    ensures
        value(
            node_selectivity(Expr::Call { head: Head::And, args: Box::new(l) }, ctx),
            estimate,
        ) == all_hold(l@, ctx, estimate),
{
    reveal_with_fuel(node_selectivity, 2);
    reveal_with_fuel(nodes_selectivity, 2);
    match l {
        List::Nil => {
            assert(l@.len() == 0);
        },
        List::Cons(x, xs) => {
            assert(l@[0] == x);
            assert(l@.drop_first() =~= xs@);
            if *xs is Nil {
                assert(xs@.len() == 0);
                assert(all_hold(xs@, ctx, estimate) == 1);
            } else {
                lemma_all_of(l, ctx, empty_conjunction(), estimate);
                let none: List<RangeQuery> = List::Nil;
                assert(with_ranges(Selectivity::One, none) == Selectivity::One);
            }
        },
    }
}

/// A clause that does not depend on rows selects all of them. What was found
/// before is taken as it is. NOT of an expression, as a clause, selects the rows
/// that the expression does not.
pub proof fn lemma_clause_estimate(
    c: SelClause,
    e: Expr,
    ctx: SelContext,
    estimate: spec_fn(Selectivity) -> int,
)
    ensures
        c.pseudoconstant && !(c.clause is Const) ==> value(rinfo_selectivity(c, ctx), estimate)
            == 1,
        !c.has_norm && !c.has_outer && !c.pseudoconstant && c.clause == negation(e) ==> value(
            rinfo_selectivity(c, ctx),
            estimate,
        ) == 1 - value(node_selectivity(e, ctx), estimate),
        !c.pseudoconstant && ctx.varrelid == 0 && (if ctx.inner_join {
            c.has_norm
        } else {
            c.has_outer
        }) ==> rinfo_selectivity(c, ctx) == Selectivity::Cached(c.id),
{
    reveal_with_fuel(node_selectivity, 3);
    reveal_with_fuel(value, 3);
}

proof fn lemma_several(l: Relids)
    ensures
        crate::relids::is_multiple(l) <==> exists|a: u32, b: u32|
            #![trigger l@.contains(a), l@.contains(b)]
            a != b && l@.contains(a) && l@.contains(b),
{
    match l {
        List::Nil => {
            assert(l@.len() == 0);
        },
        List::Cons(x, xs) => {
            lemma_all_same(*xs, x);
            crate::list::lemma_cons_contains(x, *xs, x);
            if !crate::relids::all_are(*xs, x) {
                let y = choose|y: u32| xs@.contains(y) && y != x;
                crate::list::lemma_cons_contains(x, *xs, y);
                assert(l@.contains(x) && l@.contains(y));
            } else {
                assert forall|a: u32| l@.contains(a) implies a == x by {
                    crate::list::lemma_cons_contains(x, *xs, a);
                }
            }
        },
    }
}

proof fn lemma_all_same(l: Relids, x: u32)
    ensures
        crate::relids::all_are(l, x) <==> forall|y: u32| #[trigger] l@.contains(y) ==> y == x,
    decreases l,
{
    match l {
        List::Nil => {
            assert(l@.len() == 0);
        },
        List::Cons(z, zs) => {
            lemma_all_same(*zs, x);
            assert forall|y: u32| #[trigger] l@.contains(y) <==> y == z || zs@.contains(y) by {
                crate::list::lemma_cons_contains(z, *zs, y);
            }
            assert forall|y: u32| #[trigger] zs@.contains(y) implies l@.contains(y) by {
                crate::list::lemma_cons_contains(z, *zs, y);
            }
            assert(l@.contains(z));
        },
    }
}

/// An operator is estimated as a join clause exactly if a join is what the
/// estimate is for, no side of it is singled out, and the operands refer to two
/// tables or more; else as a restriction. In either case it is the operator
/// itself that is estimated.
pub proof fn lemma_operator_estimate(e: Expr, ctx: SelContext)
    requires
        e matches Expr::Call { head, args } && head is Op,
    ensures
        ({
            let several = exists|a: u32, b: u32|
                #![trigger tables_of(e, ctx)@.contains(a), tables_of(e, ctx)@.contains(b)]
                a != b && tables_of(e, ctx)@.contains(a) && tables_of(e, ctx)@.contains(b);
            node_selectivity(e, ctx) == (if ctx.varrelid == 0 && ctx.has_join && several {
                Selectivity::Join(Box::new(e))
            } else {
                Selectivity::Restriction(Box::new(e))
            })
        }),
{
    reveal_with_fuel(node_selectivity, 2);
    lemma_several(tables_of(e, ctx));
}

/// The tables that an expression refers to are those that occur in it, but for
/// outer joins.
pub proof fn lemma_tables_of(e: Expr, ctx: SelContext, m: u32)
    ensures
        tables_of(e, ctx)@.contains(m) <==> varnos(e)@.contains(m) && !ctx.outer_joins@.contains(m),
{
    lemma_difference(varnos(e), ctx.outer_joins, m);
}

proof fn lemma_difference(a: Relids, b: Relids, m: u32)
    ensures
        crate::relids::difference_list(a, b)@.contains(m) <==> a@.contains(m) && !b@.contains(m),
    decreases a,
{
    match a {
        List::Nil => {
            assert(a@.len() == 0);
        },
        List::Cons(x, xs) => {
            lemma_difference(*xs, b, m);
            crate::list::lemma_cons_contains(x, *xs, m);
            crate::list::lemma_cons_contains(x, crate::relids::difference_list(*xs, b), m);
        },
    }
}

proof fn lemma_paired_range(
    s: Selectivity,
    l: List<RangeQuery>,
    first: Expr,
    second: Expr,
    first_is_low: bool,
    a: Selectivity,
    b: Selectivity,
    estimate: spec_fn(Selectivity) -> int,
)
    requires
        !is_bounded(l@, first),
        !is_bounded(l@, second),
        crate::expr::same_expr(second, first),
    ensures
        value(
            with_ranges(
                s,
                with_range(with_range(l, first, first_is_low, a), second, !first_is_low, b),
            ),
            estimate,
        ) == value(with_ranges(s, l), estimate) * estimate(
            Selectivity::Between {
                var: Box::new(first),
                low: Box::new(
                    if first_is_low {
                        a
                    } else {
                        b
                    },
                ),
                high: Box::new(
                    if first_is_low {
                        b
                    } else {
                        a
                    },
                ),
            },
        ),
    decreases l,
{
    let between = Selectivity::Between {
        var: Box::new(first),
        low: Box::new(
            if first_is_low {
                a
            } else {
                b
            },
        ),
        high: Box::new(
            if first_is_low {
                b
            } else {
                a
            },
        ),
    };
    let one = with_range(l, first, first_is_low, a);
    let two = with_range(one, second, !first_is_low, b);
    match l {
        List::Nil => {
            let none: List<RangeQuery> = List::Nil;
            let q = RangeQuery {
                var: first,
                low: Some(
                    if first_is_low {
                        a
                    } else {
                        b
                    },
                ),
                high: Some(
                    if first_is_low {
                        b
                    } else {
                        a
                    },
                ),
            };
            assert(two == List::Cons(q, Box::new(none)));
            assert(with_ranges(product(s, between), none) == product(s, between));
            assert(with_ranges(s, two) == with_ranges(product(s, between), none));
            assert(value(product(s, between), estimate) == value(s, estimate) * value(
                between,
                estimate,
            ));
        },
        List::Cons(x, xs) => {
            assert(l@[0] == x);
            assert(forall|i: int| 0 <= i < xs@.len() ==> l@[i + 1] == #[trigger] xs@[i]);
            assert(!is_bounded(xs@, first)) by {
                if is_bounded(xs@, first) {
                    let i = choose|i: int|
                        0 <= i < xs@.len() && crate::expr::same_expr(
                            first,
                            (#[trigger] xs@[i]).var,
                        );
                    assert(l@[i + 1] == xs@[i]);
                }
            }
            assert(!is_bounded(xs@, second)) by {
                if is_bounded(xs@, second) {
                    let i = choose|i: int|
                        0 <= i < xs@.len() && crate::expr::same_expr(
                            second,
                            (#[trigger] xs@[i]).var,
                        );
                    assert(l@[i + 1] == xs@[i]);
                }
            }
            let rest = with_range(
                with_range(*xs, first, first_is_low, a),
                second,
                !first_is_low,
                b,
            );
            assert(two == List::Cons(x, Box::new(rest)));
            let next = match (x.low, x.high) {
                (Some(low), Some(high)) => product(
                    s,
                    Selectivity::Between {
                        var: Box::new(x.var),
                        low: Box::new(low),
                        high: Box::new(high),
                    },
                ),
                (Some(low), None) => product(s, low),
                (None, Some(high)) => product(s, high),
                (None, None) => s,
            };
            lemma_paired_range(next, *xs, first, second, first_is_low, a, b, estimate);
        },
    }
}

/// Two clauses that bound one expression from both sides make up a range: the
/// clause that selects greater values is its lower bound, the one that selects
/// lesser values its upper bound, and the two are not taken to be independent.
pub proof fn lemma_range_of_two(
    c: Conjunction,
    greater: Expr,
    less: Expr,
    low: Selectivity,
    high: Selectivity,
    ctx: SelContext,
    estimate: spec_fn(Selectivity) -> int,
)
    requires
        greater matches Expr::Call { head: Head::Op { opno, .. }, args } && args@.len() == 2
            && ctx.greater@.contains(opno) && !ctx.less@.contains(opno),
        less matches Expr::Call { head: Head::Op { opno, .. }, args } && args@.len() == 2
            && ctx.less@.contains(opno),
        crate::expr::same_expr(less->args@[0], greater->args@[0]),
        !is_bounded(c.ranges@, greater->args@[0]),
        !is_bounded(c.ranges@, less->args@[0]),
    ensures
        value(
            finished(
                with_clause(
                    with_clause(c, greater, low, BoundedSide::Left, ctx),
                    less,
                    high,
                    BoundedSide::Left,
                    ctx,
                ),
            ),
            estimate,
        ) == value(finished(c), estimate) * estimate(
            Selectivity::Between {
                var: Box::new(greater->args@[0]),
                low: Box::new(low),
                high: Box::new(high),
            },
        ),
{
    lemma_two_args(*greater->args);
    lemma_two_args(*less->args);
    lemma_paired_range(
        c.product,
        c.ranges,
        greater->args@[0],
        less->args@[0],
        true,
        low,
        high,
        estimate,
    );
}

} // verus!

//! Expressions and target lists.
use vstd::prelude::*;
use crate::list::List;
use crate::relids::{relids_equal, relids_is_member, relids_is_subset, Relids};

verus! {

/// The type of truth values.
pub const BOOLOID: u32 = 16;

/// The type of the numbers that GROUPING gives.
pub const INT4OID: u32 = 23;

/// What an operator of a sort order tests.
#[derive(Clone, Copy, Debug, PartialEq, Eq, Structural)]
pub enum OrderTest {
    Less,
    Equal,
    Greater,
}

/// A column of a relation.
#[derive(Debug)]
pub struct Var {
    pub varno: i32,
    pub attno: i16,
    pub typid: u32,
    pub typmod: i32,
    pub collation: u32,
    pub levelsup: u32,
    /// The outer joins that can make it null.
    pub nullingrels: Relids,
}

/// A constant.
#[derive(Clone, Copy, Debug, PartialEq, Eq, Structural)]
pub struct Const {
    pub typid: u32,
    pub collation: u32,
    pub value: u64,
    pub isnull: bool,
}

/// How much of an aggregate is computed at one place.
#[derive(Clone, Copy, Debug, PartialEq, Eq, Structural)]
pub enum AggSplit {
    /// All of it.
    Simple,
    /// The transition states of a part of the input.
    InitialSerial,
    /// The result, out of transition states.
    FinalDeserial,
}

/// What is computed from the arguments of a call.
#[derive(Clone, Copy, Debug, PartialEq, Eq, Structural)]
pub enum Head {
    Op { opno: u32, typid: u32, collation: u32, inputcollid: u32 },
    And,
    Or,
    Not,
    /// An operator between a value and the elements of an array.
    ArrayOp { opno: u32, use_or: bool, inputcollid: u32 },
    /// A comparison of rows: the first `left` arguments with the others.
    Row { test: OrderTest, detail: u32, left: usize },
    NullTest { is_null: bool },
    /// An aggregate; `transtype` is the type of its transition states.
    Aggref { func: u32, typid: u32, transtype: u32, collation: u32, split: AggSplit },
    Window { func: u32, typid: u32, collation: u32 },
    /// GROUPING: which of its arguments are not grouped by.
    Grouping { levelsup: u32 },
    Func { func: u32, typid: u32, collation: u32 },
    /// IS DISTINCT FROM.
    Distinct { opno: u32, inputcollid: u32 },
    /// IS TRUE, IS NOT FALSE and the like.
    BooleanTest { kind: u32 },
    /// The row that a cursor is on, of a relation.
    CurrentOf { varno: i32, cursor: u32 },
    /// A query in an expression.
    SubPlan { plan: i32, typid: u32, collation: u32 },
    /// Any other expression, such as CASE, COALESCE or NULLIF.
    Other { kind: u32, typid: u32, collation: u32 },
}

/// An expression.
#[derive(Debug)]
pub enum Expr {
    Var(Var),
    Const(Const),
    /// A parameter: its number, type and collation.
    Param(i32, u32, u32),
    /// The parameter by which an enclosing nested loop supplies an expression
    /// of its outer side.
    OuterParam(Box<Expr>),
    /// An expression that is computed at `eval_at` and kept as a column.
    PlaceHolder {
        phid: u32,
        levelsup: u32,
        nullingrels: Relids,
        eval_at: Relids,
        expr: Box<Expr>,
    },
    /// The same value under another type.
    Relabel { typid: u32, collation: u32, arg: Box<Expr> },
    /// An expression with all of its parts, in the order in which they are
    /// visited; `exprnode` says for each kind which these are.
    Call { head: Head, args: Box<List<Expr>> },
}

/// The two columns are the same.
pub open spec fn same_var(a: Var, b: Var) -> bool {
    &&& a.varno == b.varno
    &&& a.attno == b.attno
    &&& a.typid == b.typid
    &&& a.typmod == b.typmod
    &&& a.collation == b.collation
    &&& a.levelsup == b.levelsup
    &&& crate::relids::ids(a.nullingrels) == crate::relids::ids(b.nullingrels)
}

/// The two expressions are equal. A placeholder is known by its number: what
/// it stands for does not count.
pub open spec fn same_expr(a: Expr, b: Expr) -> bool
    decreases a,
{
    match (a, b) {
        (Expr::Var(x), Expr::Var(y)) => same_var(x, y),
        (Expr::Const(x), Expr::Const(y)) => x == y,
        (Expr::Param(i, t, c), Expr::Param(j, u, d)) => i == j && t == u && c == d,
        (Expr::OuterParam(x), Expr::OuterParam(y)) => same_expr(*x, *y),
        (
            Expr::PlaceHolder { phid, levelsup, nullingrels, eval_at, expr },
            Expr::PlaceHolder {
                phid: phid2,
                levelsup: levelsup2,
                nullingrels: nullingrels2,
                eval_at: eval_at2,
                expr: expr2,
            },
        ) => phid == phid2 && levelsup == levelsup2 && crate::relids::ids(nullingrels)
            == crate::relids::ids(nullingrels2),
        (
            Expr::Relabel { typid, collation, arg },
            Expr::Relabel { typid: typid2, collation: collation2, arg: arg2 },
        ) => typid == typid2 && collation == collation2 && same_expr(*arg, *arg2),
        (Expr::Call { head, args }, Expr::Call { head: head2, args: args2 }) => head == head2
            && same_exprs(*args, *args2),
        _ => false,
    }
}

/// The two lists hold equal expressions in the same order.
pub open spec fn same_exprs(a: List<Expr>, b: List<Expr>) -> bool
    decreases a,
{
    match (a, b) {
        (List::Nil, List::Nil) => true,
        (List::Cons(x, xs), List::Cons(y, ys)) => same_expr(x, y) && same_exprs(*xs, *ys),
        _ => false,
    }
}

fn equal_vars(a: &Var, b: &Var) -> (r: bool)
    ensures
        r == same_var(*a, *b),
{
    a.varno == b.varno && a.attno == b.attno && a.typid == b.typid && a.typmod == b.typmod
        && a.collation == b.collation && a.levelsup == b.levelsup && relids_equal(
        &a.nullingrels,
        &b.nullingrels,
    )
}

/// Are the two expressions equal?
pub fn equal(a: &Expr, b: &Expr) -> (r: bool)
    ensures
        r == same_expr(*a, *b),
    decreases a,
{
    match a {
        Expr::Var(x) => match b {
            Expr::Var(y) => equal_vars(x, y),
            _ => false,
        },
        Expr::Const(x) => match b {
            Expr::Const(y) => *x == *y,
            _ => false,
        },
        Expr::Param(i, t, c) => match b {
            Expr::Param(j, u, d) => *i == *j && *t == *u && *c == *d,
            _ => false,
        },
        Expr::OuterParam(x) => match b {
            Expr::OuterParam(y) => equal(x, y),
            _ => false,
        },
        Expr::PlaceHolder { phid, levelsup, nullingrels, eval_at: _, expr: _ } => match b {
            Expr::PlaceHolder {
                phid: phid2,
                levelsup: levelsup2,
                nullingrels: nullingrels2,
                eval_at: _,
                expr: _,
            } => *phid == *phid2 && *levelsup == *levelsup2 && relids_equal(
                nullingrels,
                nullingrels2,
            ),
            _ => false,
        },
        Expr::Relabel { typid, collation, arg } => match b {
            Expr::Relabel { typid: typid2, collation: collation2, arg: arg2 } => *typid == *typid2
                && *collation == *collation2 && equal(arg, arg2),
            _ => false,
        },
        Expr::Call { head, args } => match b {
            Expr::Call { head: head2, args: args2 } => *head == *head2 && equal_lists(args, args2),
            _ => false,
        },
    }
}

/// Do the two lists hold equal expressions in the same order?
pub fn equal_lists(a: &List<Expr>, b: &List<Expr>) -> (r: bool)
    ensures
        r == same_exprs(*a, *b),
    decreases a,
{
    match a {
        List::Nil => match b {
            List::Nil => true,
            _ => false,
        },
        List::Cons(x, xs) => match b {
            List::Nil => false,
            List::Cons(y, ys) => equal(x, y) && equal_lists(xs, ys),
        },
    }
}

/// Every expression equals itself.
pub proof fn lemma_same_reflexive(a: Expr)
    ensures
        same_expr(a, a),
    decreases a,
{
    match a {
        Expr::OuterParam(x) => lemma_same_reflexive(*x),
        Expr::Relabel { typid, collation, arg } => lemma_same_reflexive(*arg),
        Expr::Call { head, args } => lemma_same_list_reflexive(*args),
        _ => {},
    }
}

proof fn lemma_same_list_reflexive(a: List<Expr>)
    ensures
        same_exprs(a, a),
    decreases a,
{
    if let List::Cons(x, xs) = a {
        lemma_same_reflexive(x);
        lemma_same_list_reflexive(*xs);
    }
}

/// Equality does not depend on the order of the two expressions.
pub proof fn lemma_same_symmetric(a: Expr, b: Expr)
    ensures
        same_expr(a, b) == same_expr(b, a),
    decreases a,
{
    match (a, b) {
        (Expr::OuterParam(x), Expr::OuterParam(y)) => lemma_same_symmetric(*x, *y),
        (
            Expr::Relabel { typid, collation, arg },
            Expr::Relabel { typid: t2, collation: c2, arg: arg2 },
        ) => lemma_same_symmetric(*arg, *arg2),
        (Expr::Call { head, args }, Expr::Call { head: head2, args: args2 }) =>
            lemma_same_list_symmetric(*args, *args2),
        _ => {},
    }
}

proof fn lemma_same_list_symmetric(a: List<Expr>, b: List<Expr>)
    ensures
        same_exprs(a, b) == same_exprs(b, a),
    decreases a,
{
    if let (List::Cons(x, xs), List::Cons(y, ys)) = (a, b) {
        lemma_same_symmetric(x, y);
        lemma_same_list_symmetric(*xs, *ys);
    }
}

impl Var {
    /// A second one with the same contents.
    pub fn copy(&self) -> (r: Var)
        ensures
            r == *self,
    {
        Var {
            varno: self.varno,
            attno: self.attno,
            typid: self.typid,
            typmod: self.typmod,
            collation: self.collation,
            levelsup: self.levelsup,
            nullingrels: self.nullingrels.copy(),
        }
    }
}

impl Expr {
    /// A second one with the same contents.
    pub fn copy(&self) -> (r: Expr)
        ensures
            r == *self,
        decreases self,
    {
        match self {
            Expr::Var(v) => Expr::Var(v.copy()),
            Expr::Const(c) => Expr::Const(*c),
            Expr::Param(i, t, c) => Expr::Param(*i, *t, *c),
            Expr::OuterParam(x) => Expr::OuterParam(Box::new(x.copy())),
            Expr::PlaceHolder { phid, levelsup, nullingrels, eval_at, expr } => Expr::PlaceHolder {
                phid: *phid,
                levelsup: *levelsup,
                nullingrels: nullingrels.copy(),
                eval_at: eval_at.copy(),
                expr: Box::new(expr.copy()),
            },
            Expr::Relabel { typid, collation, arg } => Expr::Relabel {
                typid: *typid,
                collation: *collation,
                arg: Box::new(arg.copy()),
            },
            Expr::Call { head, args } => Expr::Call {
                head: *head,
                args: Box::new(copy_exprs(args)),
            },
        }
    }
}

/// A second list of the same expressions.
pub fn copy_exprs(l: &List<Expr>) -> (r: List<Expr>)
    ensures
        r == *l,
    decreases l,
{
    match l {
        List::Nil => List::Nil,
        List::Cons(x, xs) => List::Cons(x.copy(), Box::new(copy_exprs(xs))),
    }
}

/// The type of an expression.
pub open spec fn type_of(e: Expr) -> u32
    decreases e,
{
    match e {
        Expr::Var(v) => v.typid,
        Expr::Const(c) => c.typid,
        Expr::Param(_, t, _) => t,
        Expr::OuterParam(x) => type_of(*x),
        Expr::PlaceHolder { phid, levelsup, nullingrels, eval_at, expr } => type_of(*expr),
        Expr::Relabel { typid, collation, arg } => typid,
        Expr::Call { head, args } => match head {
            Head::Op { opno, typid, collation, inputcollid } => typid,
            Head::Aggref { func, typid, transtype, collation, split } => typid,
            Head::Window { func, typid, collation } => typid,
            Head::Grouping { levelsup } => INT4OID,
            Head::Func { func, typid, collation } => typid,
            Head::SubPlan { plan, typid, collation } => typid,
            Head::Other { kind, typid, collation } => typid,
            _ => BOOLOID,
        },
    }
}

/// The collation of the values of an expression; 0 where they have none.
pub open spec fn collation_of(e: Expr) -> u32
    decreases e,
{
    match e {
        Expr::Var(v) => v.collation,
        Expr::Const(c) => c.collation,
        Expr::Param(_, _, c) => c,
        Expr::OuterParam(x) => collation_of(*x),
        Expr::PlaceHolder { phid, levelsup, nullingrels, eval_at, expr } => collation_of(*expr),
        Expr::Relabel { typid, collation, arg } => collation,
        Expr::Call { head, args } => match head {
            Head::Op { opno, typid, collation, inputcollid } => collation,
            Head::Aggref { func, typid, transtype, collation, split } => collation,
            Head::Window { func, typid, collation } => collation,
            Head::Func { func, typid, collation } => collation,
            Head::SubPlan { plan, typid, collation } => collation,
            Head::Other { kind, typid, collation } => collation,
            _ => 0,
        },
    }
}

/// Computes the type of an expression.
pub fn expr_type(e: &Expr) -> (r: u32)
    ensures
        r == type_of(*e),
    decreases e,
{
    match e {
        Expr::Var(v) => v.typid,
        Expr::Const(c) => c.typid,
        Expr::Param(_, t, _) => *t,
        Expr::OuterParam(x) => expr_type(x),
        Expr::PlaceHolder { expr, .. } => expr_type(expr),
        Expr::Relabel { typid, .. } => *typid,
        Expr::Call { head, .. } => match head {
            Head::Op { typid, .. } => *typid,
            Head::Aggref { typid, .. } => *typid,
            Head::Window { typid, .. } => *typid,
            Head::Grouping { .. } => INT4OID,
            Head::Func { typid, .. } => *typid,
            Head::SubPlan { typid, .. } => *typid,
            Head::Other { typid, .. } => *typid,
            _ => BOOLOID,
        },
    }
}

/// Computes the collation of the values of an expression.
pub fn expr_collation(e: &Expr) -> (r: u32)
    ensures
        r == collation_of(*e),
    decreases e,
{
    match e {
        Expr::Var(v) => v.collation,
        Expr::Const(c) => c.collation,
        Expr::Param(_, _, c) => *c,
        Expr::OuterParam(x) => expr_collation(x),
        Expr::PlaceHolder { expr, .. } => expr_collation(expr),
        Expr::Relabel { collation, .. } => *collation,
        Expr::Call { head, .. } => match head {
            Head::Op { collation, .. } => *collation,
            Head::Aggref { collation, .. } => *collation,
            Head::Window { collation, .. } => *collation,
            Head::Func { collation, .. } => *collation,
            Head::SubPlan { collation, .. } => *collation,
            Head::Other { collation, .. } => *collation,
            _ => 0,
        },
    }
}

/// What is left of an expression without the relabelings at its top.
pub open spec fn bare(e: Expr) -> Expr
    decreases e,
{
    match e {
        Expr::Relabel { typid, collation, arg } => bare(*arg),
        _ => e,
    }
}

/// Strips the relabelings from the top of an expression.
pub fn strip_relabel(e: &Expr) -> (r: &Expr)
    ensures
        *r == bare(*e),
    decreases e,
{
    match e {
        Expr::Relabel { arg, .. } => strip_relabel(arg),
        _ => e,
    }
}

/// Some expression of the list equals `x`.
pub open spec fn has_same(l: List<Expr>, x: Expr) -> bool
    decreases l,
{
    match l {
        List::Nil => false,
        List::Cons(y, ys) => same_expr(y, x) || has_same(*ys, x),
    }
}

/// The expression without one outer relabelling.
pub open spec fn unlabelled(e: Expr) -> Expr {
    match e {
        Expr::Relabel { typid, collation, arg } => *arg,
        _ => e,
    }
}

/// Takes off one outer relabelling.
pub fn strip_label(e: &Expr) -> (r: &Expr)
    ensures
        *r == unlabelled(*e),
{
    match e {
        Expr::Relabel { arg, .. } => arg,
        other => other,
    }
}

/// Does some expression of the list equal `x`?
pub fn list_member(l: &List<Expr>, x: &Expr) -> (r: bool)
    ensures
        r == has_same(*l, *x),
    decreases l,
{
    match l {
        List::Nil => false,
        List::Cons(y, ys) => equal(y, x) || list_member(ys, x),
    }
}

/// An aggregate or GROUPING, which are both known only where rows are grouped.
pub open spec fn is_grouped(head: Head) -> bool {
    head is Aggref || head is Grouping
}

/// An aggregate, GROUPING or a window function.
pub open spec fn is_aggregation(head: Head) -> bool {
    is_grouped(head) || head is Window
}

/// What an expression is computed from: columns, placeholders, aggregates,
/// GROUPING and window functions.
pub open spec fn leaves(e: Expr) -> List<Expr>
    decreases e,
{
    match e {
        Expr::Var(_) => List::Cons(e, Box::new(List::Nil)),
        Expr::PlaceHolder { phid, levelsup, nullingrels, eval_at, expr } => List::Cons(
            e,
            Box::new(List::Nil),
        ),
        Expr::Relabel { typid, collation, arg } => leaves(*arg),
        Expr::Call { head, args } => if is_aggregation(head) {
            List::Cons(e, Box::new(List::Nil))
        } else {
            list_leaves(*args)
        },
        _ => List::Nil,
    }
}

/// What the expressions of a list are computed from.
pub open spec fn list_leaves(l: List<Expr>) -> List<Expr>
    decreases l,
{
    match l {
        List::Nil => List::Nil,
        List::Cons(x, xs) => leaves(x).then_list(list_leaves(*xs)),
    }
}

/// Collects what an expression is computed from, in order.
pub fn pull_var_clause(e: &Expr) -> (r: List<Expr>)
    ensures
        r == leaves(*e),
    decreases e,
{
    match e {
        Expr::Var(_) => List::Cons(e.copy(), Box::new(List::Nil)),
        Expr::PlaceHolder { .. } => List::Cons(e.copy(), Box::new(List::Nil)),
        Expr::Relabel { arg, .. } => pull_var_clause(arg),
        Expr::Call { head, args } => {
            let whole = match head {
                Head::Aggref { .. } => true,
                Head::Grouping { .. } => true,
                Head::Window { .. } => true,
                _ => false,
            };
            if whole {
                List::Cons(e.copy(), Box::new(List::Nil))
            } else {
                pull_vars(args)
            }
        },
        _ => List::Nil,
    }
}

/// Collects what the expressions of a list are computed from.
pub fn pull_vars(l: &List<Expr>) -> (r: List<Expr>)
    ensures
        r == list_leaves(*l),
    decreases l,
{
    match l {
        List::Nil => List::Nil,
        List::Cons(x, xs) => pull_var_clause(x).append(pull_vars(xs)),
    }
}

/// The relation of a column is supplied by an enclosing nested loop.
pub open spec fn is_outer_var(v: Var, outer: Relids) -> bool {
    v.varno > 0 && crate::relids::ids(outer).contains(v.varno as u32)
}

/// The expression with columns and placeholders of outer relations replaced by
/// parameters. A placeholder that the outer relations do not supply as a whole
/// is searched further.
pub open spec fn bind(e: Expr, outer: Relids) -> Expr
    decreases e,
{
    match e {
        Expr::Var(v) => if is_outer_var(v, outer) {
            Expr::OuterParam(Box::new(e))
        } else {
            e
        },
        Expr::PlaceHolder { phid, levelsup, nullingrels, eval_at, expr } => if crate::relids::ids(
            eval_at,
        ).subset_of(crate::relids::ids(outer)) {
            Expr::OuterParam(Box::new(e))
        } else {
            Expr::PlaceHolder {
                phid,
                levelsup,
                nullingrels,
                eval_at,
                expr: Box::new(bind(*expr, outer)),
            }
        },
        Expr::Relabel { typid, collation, arg } => Expr::Relabel {
            typid,
            collation,
            arg: Box::new(bind(*arg, outer)),
        },
        Expr::Call { head, args } => Expr::Call { head, args: Box::new(bind_list(*args, outer)) },
        _ => e,
    }
}

/// The same for each expression of a list.
pub open spec fn bind_list(l: List<Expr>, outer: Relids) -> List<Expr>
    decreases l,
{
    match l {
        List::Nil => List::Nil,
        List::Cons(x, xs) => List::Cons(bind(x, outer), Box::new(bind_list(*xs, outer))),
    }
}

/// Replaces columns and placeholders of outer relations by parameters.
pub fn replace_nestloop_params(e: &Expr, outer: &Relids) -> (r: Expr)
    ensures
        r == bind(*e, *outer),
    decreases e,
{
    match e {
        Expr::Var(v) => if v.varno > 0 && relids_is_member(v.varno as u32, outer) {
            Expr::OuterParam(Box::new(e.copy()))
        } else {
            e.copy()
        },
        Expr::PlaceHolder { phid, levelsup, nullingrels, eval_at, expr } => if relids_is_subset(
            eval_at,
            outer,
        ) {
            Expr::OuterParam(Box::new(e.copy()))
        } else {
            Expr::PlaceHolder {
                phid: *phid,
                levelsup: *levelsup,
                nullingrels: nullingrels.copy(),
                eval_at: eval_at.copy(),
                expr: Box::new(replace_nestloop_params(expr, outer)),
            }
        },
        Expr::Relabel { typid, collation, arg } => Expr::Relabel {
            typid: *typid,
            collation: *collation,
            arg: Box::new(replace_nestloop_params(arg, outer)),
        },
        Expr::Call { head, args } => Expr::Call {
            head: *head,
            args: Box::new(replace_nestloop_params_list(args, outer)),
        },
        _ => e.copy(),
    }
}

/// Replaces columns and placeholders of outer relations in each expression.
pub fn replace_nestloop_params_list(l: &List<Expr>, outer: &Relids) -> (r: List<Expr>)
    ensures
        r == bind_list(*l, *outer),
    decreases l,
{
    match l {
        List::Nil => List::Nil,
        List::Cons(x, xs) => List::Cons(
            replace_nestloop_params(x, outer),
            Box::new(replace_nestloop_params_list(xs, outer)),
        ),
    }
}

/// No column of an outer relation occurs outside a parameter.
pub open spec fn is_bound(e: Expr, outer: Relids) -> bool
    decreases e,
{
    match e {
        Expr::Var(v) => !is_outer_var(v, outer),
        Expr::PlaceHolder { phid, levelsup, nullingrels, eval_at, expr } => is_bound(*expr, outer),
        Expr::Relabel { typid, collation, arg } => is_bound(*arg, outer),
        Expr::Call { head, args } => all_bound(*args, outer),
        _ => true,
    }
}

/// The same for each expression of a list.
pub open spec fn all_bound(l: List<Expr>, outer: Relids) -> bool
    decreases l,
{
    match l {
        List::Nil => true,
        List::Cons(x, xs) => is_bound(x, outer) && all_bound(*xs, outer),
    }
}

/// After the replacement no column of an outer relation is left, the type and
/// collation are as before, and a second replacement changes nothing.
pub proof fn lemma_bind(e: Expr, outer: Relids)
    ensures
        is_bound(bind(e, outer), outer),
        bind(bind(e, outer), outer) == bind(e, outer),
        type_of(bind(e, outer)) == type_of(e),
        collation_of(bind(e, outer)) == collation_of(e),
    decreases e,
{
    match e {
        Expr::PlaceHolder { phid, levelsup, nullingrels, eval_at, expr } => lemma_bind(
            *expr,
            outer,
        ),
        Expr::Relabel { typid, collation, arg } => lemma_bind(*arg, outer),
        Expr::Call { head, args } => lemma_bind_list(*args, outer),
        _ => {},
    }
}

/// The same for the expressions of a list.
pub proof fn lemma_bind_list(l: List<Expr>, outer: Relids)
    ensures
        all_bound(bind_list(l, outer), outer),
        bind_list(bind_list(l, outer), outer) == bind_list(l, outer),
        bind_list(l, outer)@.len() == l@.len(),
    decreases l,
{
    if let List::Cons(x, xs) = l {
        lemma_bind(x, outer);
        lemma_bind_list(*xs, outer);
    }
}

/// The expression where a path is parameterized, else as it is.
pub open spec fn bind_if(e: Expr, parameterized: bool, outer: Relids) -> Expr {
    if parameterized {
        bind(e, outer)
    } else {
        e
    }
}

/// The expressions where a path is parameterized, else as they are.
pub open spec fn bind_list_if(l: List<Expr>, parameterized: bool, outer: Relids) -> List<Expr> {
    if parameterized {
        bind_list(l, outer)
    } else {
        l
    }
}

/// Replaces columns and placeholders of outer relations where a path is
/// parameterized.
pub fn bind_exprs(l: List<Expr>, parameterized: bool, outer: &Relids) -> (r: List<Expr>)
    ensures
        r == bind_list_if(l, parameterized, *outer),
{
    if parameterized {
        replace_nestloop_params_list(&l, outer)
    } else {
        l
    }
}

/// An entry of a target list.
#[derive(Debug)]
pub struct TargetEntry {
    pub expr: Expr,
    pub resno: i16,
    pub resname: Option<u32>,
    pub ressortgroupref: u32,
    pub resorigtbl: u32,
    pub resorigcol: i16,
    pub resjunk: bool,
}

impl TargetEntry {
    /// A second one with the same contents.
    pub fn copy(&self) -> (r: TargetEntry)
        ensures
            r == *self,
    {
        TargetEntry {
            expr: self.expr.copy(),
            resno: self.resno,
            resname: self.resname,
            ressortgroupref: self.ressortgroupref,
            resorigtbl: self.resorigtbl,
            resorigcol: self.resorigcol,
            resjunk: self.resjunk,
        }
    }
}

/// A second list of the same entries.
pub fn copy_tlist(l: &List<TargetEntry>) -> (r: List<TargetEntry>)
    ensures
        r == *l,
    decreases l,
{
    match l {
        List::Nil => List::Nil,
        List::Cons(x, xs) => List::Cons(x.copy(), Box::new(copy_tlist(xs))),
    }
}

/// The columns that a path computes.
#[derive(Debug)]
pub struct PathTarget {
    pub exprs: List<Expr>,
    pub sortgrouprefs: List<u32>,
    pub width: i32,
}

/// The column number after `resno`; the numbers have 16 bits and wrap.
pub open spec fn next_resno(resno: i16) -> i16 {
    if resno == i16::MAX {
        i16::MIN
    } else {
        (resno + 1) as i16
    }
}

/// Computes the next column number.
pub fn increment_resno(resno: i16) -> (r: i16)
    ensures
        r == next_resno(resno),
{
    if resno == i16::MAX {
        i16::MIN
    } else {
        resno + 1
    }
}

/// An entry without decoration.
pub open spec fn plain_entry(expr: Expr, resno: i16, sgref: u32, resjunk: bool) -> TargetEntry {
    TargetEntry {
        expr,
        resno,
        resname: None,
        ressortgroupref: sgref,
        resorigtbl: 0,
        resorigcol: 0,
        resjunk,
    }
}

/// Makes an entry without decoration.
pub fn make_entry(expr: Expr, resno: i16, sgref: u32, resjunk: bool) -> (r: TargetEntry)
    ensures
        r == plain_entry(expr, resno, sgref, resjunk),
{
    TargetEntry {
        expr,
        resno,
        resname: None,
        ressortgroupref: sgref,
        resorigtbl: 0,
        resorigcol: 0,
        resjunk,
    }
}

/// The column number that follows those of a list of entries counted from
/// `resno`.
pub open spec fn resno_after(tlist: List<TargetEntry>, resno: i16) -> i16
    decreases tlist,
{
    match tlist {
        List::Nil => next_resno(resno),
        List::Cons(_, tail) => resno_after(*tail, next_resno(resno)),
    }
}

/// Computes the column number for an entry to be added at the end.
pub fn next_column(tlist: &List<TargetEntry>, resno: i16) -> (r: i16)
    ensures
        r == resno_after(*tlist, resno),
    decreases tlist,
{
    match tlist {
        List::Nil => increment_resno(resno),
        List::Cons(_, tail) => next_column(tail, increment_resno(resno)),
    }
}

/// The target list that computes `exprs`, numbered from `resno` on and
/// labelled with the references.
pub open spec fn path_tlist(
    exprs: List<Expr>,
    refs: List<u32>,
    resno: i16,
    parameterized: bool,
    outer: Relids,
) -> List<TargetEntry>
    decreases exprs,
{
    match exprs {
        List::Nil => List::Nil,
        List::Cons(expr, more) => {
            let (sgref, rest) = match refs {
                List::Nil => (0u32, List::Nil),
                List::Cons(r, rs) => (r, *rs),
            };
            List::Cons(
                plain_entry(bind_if(expr, parameterized, outer), resno, sgref, false),
                Box::new(path_tlist(*more, rest, next_resno(resno), parameterized, outer)),
            )
        },
    }
}

fn tlist_from(
    exprs: &List<Expr>,
    refs: &List<u32>,
    resno: i16,
    parameterized: bool,
    outer: &Relids,
) -> (r: List<TargetEntry>)
    ensures
        r == path_tlist(*exprs, *refs, resno, parameterized, *outer),
    decreases exprs,
{
    match exprs {
        List::Nil => List::Nil,
        List::Cons(expr, more) => {
            let entry_expr = if parameterized {
                replace_nestloop_params(expr, outer)
            } else {
                expr.copy()
            };
            let next: i16 = increment_resno(resno);
            match refs {
                List::Nil => {
                    let none: List<u32> = List::Nil;
                    List::Cons(
                        make_entry(entry_expr, resno, 0, false),
                        Box::new(tlist_from(more, &none, next, parameterized, outer)),
                    )
                },
                List::Cons(r, rs) => List::Cons(
                    make_entry(entry_expr, resno, *r, false),
                    Box::new(tlist_from(more, rs, next, parameterized, outer)),
                ),
            }
        },
    }
}

/// The target list of a path: its columns in order, numbered from 1, with
/// their labels. Where the path is parameterized, references to outer
/// relations become parameters.
pub fn build_path_tlist(
    target: &PathTarget,
    parameterized: bool,
    outer: &Relids,
) -> (r: List<TargetEntry>)
    ensures
        r == path_tlist(target.exprs, target.sortgrouprefs, 1, parameterized, *outer),
{
    tlist_from(&target.exprs, &target.sortgrouprefs, 1, parameterized, outer)
}

/// Column `i` of a path's target list computes its expression `i` and has its
/// number and label.
pub proof fn lemma_path_tlist(
    exprs: List<Expr>,
    refs: List<u32>,
    resno: i16,
    parameterized: bool,
    outer: Relids,
    i: int,
)
    requires
        1 <= resno,
        0 <= i < exprs@.len(),
        resno + exprs@.len() <= i16::MAX,
    ensures
        path_tlist(exprs, refs, resno, parameterized, outer)@.len() == exprs@.len(),
        path_tlist(exprs, refs, resno, parameterized, outer)@[i] == plain_entry(
            bind_if(exprs@[i], parameterized, outer),
            (resno + i) as i16,
            if i < refs@.len() {
                refs@[i]
            } else {
                0
            },
            false,
        ),
    decreases exprs,
{
    if let List::Cons(expr, more) = exprs {
        let rest = match refs {
            List::Nil => List::Nil,
            List::Cons(r, rs) => *rs,
        };
        let tail = path_tlist(*more, rest, next_resno(resno), parameterized, outer);
        assert(exprs@.len() == 1 + more@.len());
        if refs is Cons {
            assert(refs@ =~= seq![refs->Cons_0] + rest@);
        } else {
            assert(rest@.len() == 0);
        }
        if i > 0 {
            lemma_path_tlist(*more, rest, next_resno(resno), parameterized, outer, i - 1);
            assert(path_tlist(exprs, refs, resno, parameterized, outer)@[i] == tail@[i - 1]);
        } else {
            lemma_path_tlist_len(*more, rest, next_resno(resno), parameterized, outer);
        }
    }
}

/// A path's target list has one entry for each column.
pub proof fn lemma_path_tlist_len(
    exprs: List<Expr>,
    refs: List<u32>,
    resno: i16,
    parameterized: bool,
    outer: Relids,
)
    ensures
        path_tlist(exprs, refs, resno, parameterized, outer)@.len() == exprs@.len(),
    decreases exprs,
{
    if let List::Cons(expr, more) = exprs {
        let rest = match refs {
            List::Nil => List::Nil,
            List::Cons(r, rs) => *rs,
        };
        lemma_path_tlist_len(*more, rest, next_resno(resno), parameterized, outer);
    }
}

} // verus!

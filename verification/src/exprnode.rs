//! Expressions by kind: which parts each kind of expression is computed from.
use vstd::prelude::*;
use crate::expr::{AggSplit, Const, Expr, Head, OrderTest, Var};
use crate::extstats::find_length;
use crate::list::List;
use crate::relids::Relids;
use crate::targets::pull_agg_input_vars;

verus! {

/// What an expression is besides its parts: a number for its kind and for all
/// that sets it apart from others of the kind, its type and its collation.
#[derive(Clone, Copy, Debug, PartialEq, Eq, Structural)]
pub struct Label {
    pub kind: u32,
    pub typid: u32,
    pub collation: u32,
}

/// How conditions are connected.
#[derive(Clone, Copy, Debug, PartialEq, Eq, Structural)]
pub enum Connective {
    And,
    Or,
    Not,
}

/// An expression with its parts by name.
#[derive(Debug)]
pub enum Node {
    /// A column.
    Var(Var),
    /// A constant.
    Const(Const),
    /// A parameter: its number, type and collation.
    Param { id: i32, typid: u32, collation: u32 },
    /// The value that CASE tests or a domain checks, a value of the session, or
    /// the next one of a sequence.
    Leaf(Label),
    /// An aggregate.
    Aggref {
        func: u32,
        typid: u32,
        transtype: u32,
        collation: u32,
        split: AggSplit,
        direct: Box<List<Node>>,
        args: Box<List<Node>>,
        filter: Option<Box<Node>>,
    },
    /// A window function.
    WindowFunc {
        func: u32,
        typid: u32,
        collation: u32,
        args: Box<List<Node>>,
        filter: Option<Box<Node>>,
    },
    /// Which columns of a grouping set are not grouped by.
    GroupingFunc { levelsup: u32, args: Box<List<Node>> },
    /// A column of a target list or an argument of an aggregate.
    TargetEntry(Box<Node>),
    /// AND, OR or NOT.
    Bool { connective: Connective, args: Box<List<Node>> },
    /// A row.
    Row { label: Label, args: Box<List<Node>> },
    /// Several expressions where one is expected.
    Members { label: Label, args: Box<List<Node>> },
    /// An operator.
    Op { opno: u32, typid: u32, collation: u32, inputcollid: u32, args: Box<List<Node>> },
    /// A function.
    Func { func: u32, typid: u32, collation: u32, args: Box<List<Node>> },
    /// The same value under another type.
    Relabel { typid: u32, collation: u32, arg: Box<Node> },
    /// A field of a row.
    FieldSelect { label: Label, arg: Box<Node> },
    /// A part of an array, or an array where a part is replaced. A slice may
    /// leave a bound out.
    Subscripting {
        label: Label,
        upper: Box<List<Option<Node>>>,
        lower: Box<List<Option<Node>>>,
        array: Option<Box<Node>>,
        assigned: Option<Box<Node>>,
    },
    /// IS NULL or IS NOT NULL.
    NullTest { is_null: bool, arg: Option<Box<Node>> },
    /// IS TRUE, IS NOT FALSE and the like.
    BooleanTest { kind: u32, arg: Option<Box<Node>> },
    /// IS DISTINCT FROM.
    Distinct { opno: u32, inputcollid: u32, args: Box<List<Node>> },
    /// NULLIF.
    NullIf { label: Label, args: Box<List<Node>> },
    /// A row where fields are replaced.
    FieldStore { label: Label, arg: Box<Node>, newvals: Box<List<Node>> },
    /// Plans for a query in an expression, of which one is chosen.
    AlternativeSubPlan { label: Label, subplans: Box<List<Node>> },
    /// A query in an expression.
    SubPlan {
        plan: i32,
        typid: u32,
        collation: u32,
        testexpr: Option<Box<Node>>,
        args: Box<List<Node>>,
    },
    /// CASE: what is tested, conditions with results, and the result otherwise.
    Case {
        label: Label,
        arg: Option<Box<Node>>,
        whens: Box<List<(Node, Node)>>,
        otherwise: Option<Box<Node>>,
    },
    /// COALESCE.
    Coalesce { label: Label, args: Box<List<Node>> },
    /// GREATEST or LEAST.
    MinMax { label: Label, args: Box<List<Node>> },
    /// An array.
    Array { label: Label, elements: Box<List<Node>> },
    /// An operator between a value and the elements of an array.
    ArrayOp { opno: u32, use_or: bool, inputcollid: u32, args: Box<List<Node>> },
    /// A comparison of rows.
    RowCompare { test: OrderTest, detail: u32, left: Box<List<Node>>, right: Box<List<Node>> },
    /// A conversion through text.
    CoerceViaIo { label: Label, arg: Box<Node> },
    /// A conversion of an array, element by element.
    ArrayCoerce { label: Label, arg: Box<Node>, element: Option<Box<Node>> },
    /// A row under another row type.
    ConvertRowtype { label: Label, arg: Box<Node> },
    /// A value under a domain.
    CoerceToDomain { label: Label, arg: Box<Node> },
    /// A value as JSON: as it was, and converted.
    JsonValue { label: Label, raw: Option<Box<Node>>, formatted: Option<Box<Node>> },
    /// A JSON object or array.
    JsonConstructor {
        label: Label,
        args: Box<List<Node>>,
        func: Option<Box<Node>>,
        coercion: Option<Box<Node>>,
    },
    /// IS JSON.
    JsonIsPredicate { label: Label, expr: Option<Box<Node>> },
    /// What a query of JSON gives where it finds nothing or fails.
    JsonBehavior { label: Label, expr: Option<Box<Node>> },
    /// A query of JSON.
    Json {
        label: Label,
        formatted: Option<Box<Node>>,
        path: Option<Box<Node>>,
        on_empty: Option<Box<Node>>,
        on_error: Option<Box<Node>>,
        passing: Box<List<Node>>,
    },
    /// An expression over XML.
    Xml { label: Label, named: Box<List<Node>>, args: Box<List<Node>> },
    /// An expression that is kept as a column.
    PlaceHolder { phid: u32, levelsup: u32, nullingrels: Relids, eval_at: Relids, expr: Box<Node> },
}

/// What is computed from the parts of an expression of a kind that is known by
/// its label.
pub open spec fn label_head(l: Label) -> Head {
    Head::Other { kind: l.kind, typid: l.typid, collation: l.collation }
}

fn make_head(l: Label) -> (r: Head)
    ensures
        r == label_head(l),
{
    Head::Other { kind: l.kind, typid: l.typid, collation: l.collation }
}

/// What is computed from conditions.
pub open spec fn connective_head(c: Connective) -> Head {
    match c {
        Connective::And => Head::And,
        Connective::Or => Head::Or,
        Connective::Not => Head::Not,
    }
}

fn make_connective(c: Connective) -> (r: Head)
    ensures
        r == connective_head(c),
{
    match c {
        Connective::And => Head::And,
        Connective::Or => Head::Or,
        Connective::Not => Head::Not,
    }
}

/// A list of one.
pub open spec fn single(e: Expr) -> List<Expr> {
    List::Cons(e, Box::new(List::Nil))
}

/// The expression with its parts in one list, in the order in which they are
/// visited. A column of a target list is what it holds, a placeholder keeps
/// what it stands for to itself, and what is not there leaves no gap.
pub open spec fn flattened(node: Node) -> Expr
    decreases node,
{
    match node {
        Node::Var(v) => Expr::Var(v),
        Node::Const(c) => Expr::Const(c),
        Node::Param { id, typid, collation } => Expr::Param(id, typid, collation),
        Node::Leaf(label) => Expr::Call {
            head: label_head(label),
            args: Box::new(List::Nil),
        },
        Node::Aggref {
            func,
            typid,
            transtype,
            collation,
            split,
            direct,
            args,
            filter,
        } => Expr::Call {
            head: Head::Aggref { func, typid, transtype, collation, split },
            args: Box::new(flattened_list(*direct).then_list(
                flattened_list(*args).then_list(flattened_option(filter)),
            )),
        },
        Node::WindowFunc { func, typid, collation, args, filter } => Expr::Call {
            head: Head::Window { func, typid, collation },
            args: Box::new(flattened_list(*args).then_list(flattened_option(filter))),
        },
        Node::GroupingFunc { levelsup, args } => Expr::Call {
            head: Head::Grouping { levelsup },
            args: Box::new(flattened_list(*args)),
        },
        Node::TargetEntry(expr) => flattened(*expr),
        Node::Bool { connective, args } => Expr::Call {
            head: connective_head(connective),
            args: Box::new(flattened_list(*args)),
        },
        Node::Row { label, args } => Expr::Call {
            head: label_head(label),
            args: Box::new(flattened_list(*args)),
        },
        Node::Members { label, args } => Expr::Call {
            head: label_head(label),
            args: Box::new(flattened_list(*args)),
        },
        Node::Op { opno, typid, collation, inputcollid, args } => Expr::Call {
            head: Head::Op { opno, typid, collation, inputcollid },
            args: Box::new(flattened_list(*args)),
        },
        Node::Func { func, typid, collation, args } => Expr::Call {
            head: Head::Func { func, typid, collation },
            args: Box::new(flattened_list(*args)),
        },
        Node::Relabel {
            typid,
            collation,
            arg,
        } => Expr::Relabel { typid, collation, arg: Box::new(flattened(*arg)) },
        Node::FieldSelect { label, arg } => Expr::Call {
            head: label_head(label),
            args: Box::new(single(flattened(*arg))),
        },
        Node::Subscripting { label, upper, lower, array, assigned } => Expr::Call {
            head: label_head(label),
            args: Box::new(flattened_given(*upper).then_list(
                flattened_given(*lower).then_list(
                    flattened_option(array).then_list(
                        flattened_option(assigned),
                    ),
                ),
            )),
        },
        Node::NullTest { is_null, arg } => Expr::Call {
            head: Head::NullTest { is_null },
            args: Box::new(flattened_option(arg)),
        },
        Node::BooleanTest { kind, arg } => Expr::Call {
            head: Head::BooleanTest { kind },
            args: Box::new(flattened_option(arg)),
        },
        Node::Distinct { opno, inputcollid, args } => Expr::Call {
            head: Head::Distinct { opno, inputcollid },
            args: Box::new(flattened_list(*args)),
        },
        Node::NullIf { label, args } => Expr::Call {
            head: label_head(label),
            args: Box::new(flattened_list(*args)),
        },
        Node::FieldStore { label, arg, newvals } => Expr::Call {
            head: label_head(label),
            args: Box::new(single(flattened(*arg)).then_list(flattened_list(*newvals))),
        },
        Node::AlternativeSubPlan { label, subplans } => Expr::Call {
            head: label_head(label),
            args: Box::new(flattened_list(*subplans)),
        },
        Node::SubPlan { plan, typid, collation, testexpr, args } => Expr::Call {
            head: Head::SubPlan { plan, typid, collation },
            args: Box::new(flattened_option(testexpr).then_list(flattened_list(*args))),
        },
        Node::Case { label, arg, whens, otherwise } => Expr::Call {
            head: label_head(label),
            args: Box::new(flattened_option(arg).then_list(
                flattened_pairs(*whens).then_list(
                    flattened_option(otherwise),
                ),
            )),
        },
        Node::Coalesce { label, args } => Expr::Call {
            head: label_head(label),
            args: Box::new(flattened_list(*args)),
        },
        Node::MinMax { label, args } => Expr::Call {
            head: label_head(label),
            args: Box::new(flattened_list(*args)),
        },
        Node::Array { label, elements } => Expr::Call {
            head: label_head(label),
            args: Box::new(flattened_list(*elements)),
        },
        Node::ArrayOp { opno, use_or, inputcollid, args } => Expr::Call {
            head: Head::ArrayOp { opno, use_or, inputcollid },
            args: Box::new(flattened_list(*args)),
        },
        Node::RowCompare { test, detail, left, right } => Expr::Call {
            head: Head::Row { test, detail, left: crate::extstats::length(*left) },
            args: Box::new(flattened_list(*left).then_list(flattened_list(*right))),
        },
        Node::CoerceViaIo { label, arg } => Expr::Call {
            head: label_head(label),
            args: Box::new(single(flattened(*arg))),
        },
        Node::ArrayCoerce { label, arg, element } => Expr::Call {
            head: label_head(label),
            args: Box::new(single(flattened(*arg)).then_list(flattened_option(element))),
        },
        Node::ConvertRowtype { label, arg } => Expr::Call {
            head: label_head(label),
            args: Box::new(single(flattened(*arg))),
        },
        Node::CoerceToDomain { label, arg } => Expr::Call {
            head: label_head(label),
            args: Box::new(single(flattened(*arg))),
        },
        Node::JsonValue { label, raw, formatted } => Expr::Call {
            head: label_head(label),
            args: Box::new(flattened_option(raw).then_list(flattened_option(formatted))),
        },
        Node::JsonConstructor { label, args, func, coercion } => Expr::Call {
            head: label_head(label),
            args: Box::new(flattened_list(*args).then_list(
                flattened_option(func).then_list(flattened_option(coercion)),
            )),
        },
        Node::JsonIsPredicate { label, expr } => Expr::Call {
            head: label_head(label),
            args: Box::new(flattened_option(expr)),
        },
        Node::JsonBehavior { label, expr } => Expr::Call {
            head: label_head(label),
            args: Box::new(flattened_option(expr)),
        },
        Node::Json { label, formatted, path, on_empty, on_error, passing } => Expr::Call {
            head: label_head(label),
            args: Box::new(flattened_option(formatted).then_list(
                flattened_option(path).then_list(
                    flattened_option(on_empty).then_list(
                        flattened_option(on_error).then_list(
                            flattened_list(*passing),
                        ),
                    ),
                ),
            )),
        },
        Node::Xml { label, named, args } => Expr::Call {
            head: label_head(label),
            args: Box::new(flattened_list(*named).then_list(flattened_list(*args))),
        },
        Node::PlaceHolder { phid, levelsup, nullingrels, eval_at, expr } => Expr::PlaceHolder {
            phid,
            levelsup,
            nullingrels,
            eval_at,
            expr: Box::new(flattened(*expr)),
        },
    }
}

/// The part, if it is there.
pub open spec fn flattened_option(node: Option<Box<Node>>) -> List<Expr>
    decreases node,
{
    match node {
        Some(x) => single(flattened(*x)),
        None => List::Nil,
    }
}

/// The parts of a list.
pub open spec fn flattened_list(l: List<Node>) -> List<Expr>
    decreases l,
{
    match l {
        List::Nil => List::Nil,
        List::Cons(x, xs) => List::Cons(flattened(x), Box::new(flattened_list(*xs))),
    }
}

/// The parts of a list that are there.
pub open spec fn flattened_given(l: List<Option<Node>>) -> List<Expr>
    decreases l,
{
    match l {
        List::Nil => List::Nil,
        List::Cons(x, xs) => match x {
            Some(y) => List::Cons(flattened(y), Box::new(flattened_given(*xs))),
            None => flattened_given(*xs),
        },
    }
}

/// Conditions and results, each condition before its result.
pub open spec fn flattened_pairs(l: List<(Node, Node)>) -> List<Expr>
    decreases l,
{
    match l {
        List::Nil => List::Nil,
        List::Cons(x, xs) => List::Cons(
            flattened(x.0),
            Box::new(List::Cons(flattened(x.1), Box::new(flattened_pairs(*xs)))),
        ),
    }
}

/// Puts the parts of an expression into one list, at every level.
pub fn flatten_node(node: Node) -> (r: Expr)
    ensures
        r == flattened(node),
    decreases node,
{
    match node {
        Node::Var(v) => Expr::Var(v),
        Node::Const(c) => Expr::Const(c),
        Node::Param { id, typid, collation } => Expr::Param(id, typid, collation),
        Node::Leaf(label) => {
            let args = List::Nil;
            Expr::Call { head: make_head(label), args: Box::new(args) }
        },
        Node::Aggref { func, typid, transtype, collation, split, direct, args, filter } => {
            let args = flatten_list(*direct).append(
                flatten_list(*args).append(flatten_option(filter)),
            );
            Expr::Call { head: Head::Aggref { func, typid, transtype, collation, split }, args: Box::new(args) }
        },
        Node::WindowFunc { func, typid, collation, args, filter } => {
            let args = flatten_list(*args).append(flatten_option(filter));
            Expr::Call { head: Head::Window { func, typid, collation }, args: Box::new(args) }
        },
        Node::GroupingFunc { levelsup, args } => {
            let args = flatten_list(*args);
            Expr::Call { head: Head::Grouping { levelsup }, args: Box::new(args) }
        },
        Node::TargetEntry(expr) => flatten_node(*expr),
        Node::Bool { connective, args } => {
            let args = flatten_list(*args);
            Expr::Call { head: make_connective(connective), args: Box::new(args) }
        },
        Node::Row { label, args } => {
            let args = flatten_list(*args);
            Expr::Call { head: make_head(label), args: Box::new(args) }
        },
        Node::Members { label, args } => {
            let args = flatten_list(*args);
            Expr::Call { head: make_head(label), args: Box::new(args) }
        },
        Node::Op { opno, typid, collation, inputcollid, args } => {
            let args = flatten_list(*args);
            Expr::Call { head: Head::Op { opno, typid, collation, inputcollid }, args: Box::new(args) }
        },
        Node::Func { func, typid, collation, args } => {
            let args = flatten_list(*args);
            Expr::Call { head: Head::Func { func, typid, collation }, args: Box::new(args) }
        },
        Node::Relabel { typid, collation, arg } => {
            let inner = flatten_node(*arg);
            Expr::Relabel { typid, collation, arg: Box::new(inner) }
        },
        Node::FieldSelect { label, arg } => {
            let args = List::one(flatten_node(*arg));
            Expr::Call { head: make_head(label), args: Box::new(args) }
        },
        Node::Subscripting { label, upper, lower, array, assigned } => {
            let args = flatten_given(*upper).append(
                flatten_given(*lower).append(
                    flatten_option(array).append(flatten_option(assigned)),
                ),
            );
            Expr::Call { head: make_head(label), args: Box::new(args) }
        },
        Node::NullTest { is_null, arg } => {
            let args = flatten_option(arg);
            Expr::Call { head: Head::NullTest { is_null }, args: Box::new(args) }
        },
        Node::BooleanTest { kind, arg } => {
            let args = flatten_option(arg);
            Expr::Call { head: Head::BooleanTest { kind }, args: Box::new(args) }
        },
        Node::Distinct { opno, inputcollid, args } => {
            let args = flatten_list(*args);
            Expr::Call { head: Head::Distinct { opno, inputcollid }, args: Box::new(args) }
        },
        Node::NullIf { label, args } => {
            let args = flatten_list(*args);
            Expr::Call { head: make_head(label), args: Box::new(args) }
        },
        Node::FieldStore { label, arg, newvals } => {
            let args = List::one(flatten_node(*arg)).append(flatten_list(*newvals));
            Expr::Call { head: make_head(label), args: Box::new(args) }
        },
        Node::AlternativeSubPlan { label, subplans } => {
            let args = flatten_list(*subplans);
            Expr::Call { head: make_head(label), args: Box::new(args) }
        },
        Node::SubPlan { plan, typid, collation, testexpr, args } => {
            let args = flatten_option(testexpr).append(flatten_list(*args));
            Expr::Call { head: Head::SubPlan { plan, typid, collation }, args: Box::new(args) }
        },
        Node::Case { label, arg, whens, otherwise } => {
            let args = flatten_option(arg).append(
                flatten_pairs(*whens).append(flatten_option(otherwise)),
            );
            Expr::Call { head: make_head(label), args: Box::new(args) }
        },
        Node::Coalesce { label, args } => {
            let args = flatten_list(*args);
            Expr::Call { head: make_head(label), args: Box::new(args) }
        },
        Node::MinMax { label, args } => {
            let args = flatten_list(*args);
            Expr::Call { head: make_head(label), args: Box::new(args) }
        },
        Node::Array { label, elements } => {
            let args = flatten_list(*elements);
            Expr::Call { head: make_head(label), args: Box::new(args) }
        },
        Node::ArrayOp { opno, use_or, inputcollid, args } => {
            let args = flatten_list(*args);
            Expr::Call { head: Head::ArrayOp { opno, use_or, inputcollid }, args: Box::new(args) }
        },
        Node::RowCompare { test, detail, left, right } => {
            let count: usize = find_length(&left);
            let args = flatten_list(*left).append(flatten_list(*right));
            Expr::Call { head: Head::Row { test, detail, left: count }, args: Box::new(args) }
        },
        Node::CoerceViaIo { label, arg } => {
            let args = List::one(flatten_node(*arg));
            Expr::Call { head: make_head(label), args: Box::new(args) }
        },
        Node::ArrayCoerce { label, arg, element } => {
            let args = List::one(flatten_node(*arg)).append(
                flatten_option(element),
            );
            Expr::Call { head: make_head(label), args: Box::new(args) }
        },
        Node::ConvertRowtype { label, arg } => {
            let args = List::one(flatten_node(*arg));
            Expr::Call { head: make_head(label), args: Box::new(args) }
        },
        Node::CoerceToDomain { label, arg } => {
            let args = List::one(flatten_node(*arg));
            Expr::Call { head: make_head(label), args: Box::new(args) }
        },
        Node::JsonValue { label, raw, formatted } => {
            let args = flatten_option(raw).append(flatten_option(formatted));
            Expr::Call { head: make_head(label), args: Box::new(args) }
        },
        Node::JsonConstructor { label, args, func, coercion } => {
            let args = flatten_list(*args).append(
                flatten_option(func).append(flatten_option(coercion)),
            );
            Expr::Call { head: make_head(label), args: Box::new(args) }
        },
        Node::JsonIsPredicate { label, expr } => {
            let args = flatten_option(expr);
            Expr::Call { head: make_head(label), args: Box::new(args) }
        },
        Node::JsonBehavior { label, expr } => {
            let args = flatten_option(expr);
            Expr::Call { head: make_head(label), args: Box::new(args) }
        },
        Node::Json { label, formatted, path, on_empty, on_error, passing } => {
            let args = flatten_option(formatted).append(
                flatten_option(path).append(
                    flatten_option(on_empty).append(
                        flatten_option(on_error).append(flatten_list(*passing)),
                    ),
                ),
            );
            Expr::Call { head: make_head(label), args: Box::new(args) }
        },
        Node::Xml { label, named, args } => {
            let args = flatten_list(*named).append(flatten_list(*args));
            Expr::Call { head: make_head(label), args: Box::new(args) }
        },
        Node::PlaceHolder { phid, levelsup, nullingrels, eval_at, expr } => {
            let inner = flatten_node(*expr);
            Expr::PlaceHolder { phid, levelsup, nullingrels, eval_at, expr: Box::new(inner) }
        },
    }
}

fn flatten_option(node: Option<Box<Node>>) -> (r: List<Expr>)
    ensures
        r == flattened_option(node),
    decreases node,
{
    match node {
        Some(x) => List::one(flatten_node(*x)),
        None => List::Nil,
    }
}

fn flatten_list(l: List<Node>) -> (r: List<Expr>)
    ensures
        r == flattened_list(l),
    decreases l,
{
    match l {
        List::Nil => List::Nil,
        List::Cons(x, xs) => {
            let first = flatten_node(x);
            let rest = flatten_list(*xs);
            List::Cons(first, Box::new(rest))
        },
    }
}

fn flatten_given(l: List<Option<Node>>) -> (r: List<Expr>)
    ensures
        r == flattened_given(l),
    decreases l,
{
    match l {
        List::Nil => List::Nil,
        List::Cons(x, xs) => match x {
            Some(y) => {
                let first = flatten_node(y);
                let rest = flatten_given(*xs);
                List::Cons(first, Box::new(rest))
            },
            None => flatten_given(*xs),
        },
    }
}

fn flatten_pairs(l: List<(Node, Node)>) -> (r: List<Expr>)
    ensures
        r == flattened_pairs(l),
    decreases l,
{
    match l {
        List::Nil => List::Nil,
        List::Cons(x, xs) => {
            let condition = flatten_node(x.0);
            let result = flatten_node(x.1);
            let rest = flatten_pairs(*xs);
            List::Cons(condition, Box::new(List::Cons(result, Box::new(rest))))
        },
    }
}

/// Collects the columns and placeholders that an expression is computed from,
/// in the order in which its parts are visited.
pub fn pull_node_input_vars(node: Node) -> (r: List<Expr>)
    ensures
        r == crate::targets::pulled(flattened(node), false, false),
{
    pull_agg_input_vars(&flatten_node(node))
}

} // verus!

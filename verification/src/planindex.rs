//! Index clauses in terms of index columns, and bitmap conditions.
use vstd::prelude::*;
use crate::error::PlannerError;
use crate::expr::{
    copy_exprs, equal, expr_collation, expr_type, increment_resno, replace_nestloop_params,
    strip_label, strip_relabel, Const, Expr, Head, TargetEntry, Var, BOOLOID,
};
use crate::list::List;
use crate::path::{IndexClause, IndexPath, IndexPredicate};
use crate::quals::Rinfo;
use crate::recheck::{disown, Recheck};
use crate::relids::Relids;
use crate::sortcols::{OperatorKey, PathKey};

verus! {

/// The relation number of columns of an index.
pub const INDEX_VAR: i32 = -3;

/// No type modifier.
pub const NO_TYPMOD: i32 = -1;

/// The key of an index column: the attribute number, or 0 for an expression.
pub open spec fn key_at(keys: List<i32>, col: i16) -> Option<i32>
    decreases keys,
{
    match keys {
        List::Nil => None,
        List::Cons(k, more) => if col <= 0 {
            Some(k)
        } else {
            key_at(*more, (col - 1) as i16)
        },
    }
}

/// The expression of the index column, for one that is an expression: they
/// are listed in the order of the columns.
pub open spec fn key_expr_at(keys: List<i32>, exprs: List<Expr>, col: i16) -> Option<Expr>
    decreases keys,
{
    match keys {
        List::Nil => None,
        List::Cons(k, more) => if col <= 0 {
            match exprs {
                List::Nil => None,
                List::Cons(e, _) => Some(e),
            }
        } else if k == 0 {
            match exprs {
                List::Nil => None,
                List::Cons(_, es) => key_expr_at(*more, *es, (col - 1) as i16),
            }
        } else {
            key_expr_at(*more, exprs, (col - 1) as i16)
        },
    }
}

fn find_key(keys: &List<i32>, col: i16) -> (r: Option<i32>)
    ensures
        r == key_at(*keys, col),
    decreases keys,
{
    match keys {
        List::Nil => None,
        List::Cons(k, more) => if col <= 0 {
            Some(*k)
        } else {
            find_key(more, col - 1)
        },
    }
}

fn find_key_expr<'a>(keys: &List<i32>, exprs: &'a List<Expr>, col: i16) -> (r: Option<&'a Expr>)
    ensures
        match r {
            Some(e) => key_expr_at(*keys, *exprs, col) == Some(*e),
            None => key_expr_at(*keys, *exprs, col) is None,
        },
    decreases keys,
{
    match keys {
        List::Nil => None,
        List::Cons(k, more) => if col <= 0 {
            match exprs {
                List::Nil => None,
                List::Cons(e, _) => Some(e),
            }
        } else if *k == 0 {
            match exprs {
                List::Nil => None,
                List::Cons(_, es) => find_key_expr(more, es, col - 1),
            }
        } else {
            find_key_expr(more, exprs, col - 1)
        },
    }
}

/// The column `col` of an index.
pub open spec fn index_var(col: i16, typid: u32, typmod: i32, collation: u32) -> Expr {
    Expr::Var(
        Var {
            varno: INDEX_VAR,
            attno: crate::expr::next_resno(col),
            typid,
            typmod,
            collation,
            levelsup: 0,
            nullingrels: List::Nil,
        },
    )
}

fn make_index_var(col: i16, typid: u32, typmod: i32, collation: u32) -> (r: Expr)
    ensures
        r == index_var(col, typid, typmod, collation),
{
    Expr::Var(
        Var {
            varno: INDEX_VAR,
            attno: increment_resno(col),
            typid,
            typmod,
            collation,
            levelsup: 0,
            nullingrels: List::Nil,
        },
    )
}

/// The operand in terms of the index column: the column's attribute or its
/// expression, and nothing else.
pub open spec fn index_operand(index: IndexPath, col: i16, operand: Expr) -> Result<
    Expr,
    PlannerError,
> {
    let node = crate::expr::bare(operand);
    match key_at(index.keys, col) {
        None => Err(PlannerError::IndexKeyMismatch),
        Some(key) => if key != 0 {
            match node {
                Expr::Var(v) => if v.varno == index.relid && v.attno == key {
                    Ok(index_var(col, v.typid, v.typmod, v.collation))
                } else {
                    Err(PlannerError::IndexKeyMismatch)
                },
                _ => Err(PlannerError::IndexKeyMismatch),
            }
        } else {
            match key_expr_at(index.keys, index.key_exprs, col) {
                None => Err(PlannerError::IndexKeyMismatch),
                Some(raw) => if crate::expr::same_expr(node, crate::expr::unlabelled(raw)) {
                    Ok(
                        index_var(
                            col,
                            crate::expr::type_of(raw),
                            NO_TYPMOD,
                            crate::expr::collation_of(raw),
                        ),
                    )
                } else {
                    Err(PlannerError::IndexKeyMismatch)
                },
            }
        },
    }
}

/// Replaces the operand of an index clause by a reference to the index column.
pub fn fix_indexqual_operand(index: &IndexPath, col: i16, operand: &Expr) -> (r: Result<
    Expr,
    PlannerError,
>)
    ensures
        r == index_operand(*index, col, *operand),
{
    let node = strip_relabel(operand);
    match find_key(&index.keys, col) {
        None => Err(PlannerError::IndexKeyMismatch),
        Some(key) => {
            if key != 0 {
                match node {
                    Expr::Var(v) => if v.varno as i64 == index.relid as i64 && v.attno as i32
                        == key {
                        Ok(make_index_var(col, v.typid, v.typmod, v.collation))
                    } else {
                        Err(PlannerError::IndexKeyMismatch)
                    },
                    _ => Err(PlannerError::IndexKeyMismatch),
                }
            } else {
                match find_key_expr(&index.keys, &index.key_exprs, col) {
                    None => Err(PlannerError::IndexKeyMismatch),
                    Some(raw) => {
                        if equal(node, strip_label(raw)) {
                            Ok(make_index_var(col, expr_type(raw), NO_TYPMOD, expr_collation(raw)))
                        } else {
                            Err(PlannerError::IndexKeyMismatch)
                        }
                    },
                }
            }
        },
    }
}

/// The arguments with those on the left of a comparison of rows replaced, each
/// by its index column.
pub open spec fn row_operands(
    index: IndexPath,
    cols: List<i16>,
    left: usize,
    args: List<Expr>,
) -> Result<List<Expr>, PlannerError>
    decreases args,
{
    match args {
        List::Nil => Ok(List::Nil),
        List::Cons(x, xs) => if left == 0 {
            Ok(args)
        } else {
            match cols {
                List::Nil => Err(PlannerError::IndexKeyMismatch),
                List::Cons(c, cs) => match (
                    index_operand(index, c, x),
                    row_operands(index, *cs, (left - 1) as usize, *xs),
                ) {
                    (Ok(y), Ok(ys)) => Ok(List::Cons(y, Box::new(ys))),
                    _ => Err(PlannerError::IndexKeyMismatch),
                },
            }
        },
    }
}

fn fix_row_operands(
    index: &IndexPath,
    cols: &List<i16>,
    left: usize,
    args: &List<Expr>,
) -> (r: Result<List<Expr>, PlannerError>)
    ensures
        r == row_operands(*index, *cols, left, *args),
    decreases args,
{
    match args {
        List::Nil => Ok(List::Nil),
        List::Cons(x, xs) => {
            if left == 0 {
                return Ok(copy_exprs(args));
            }
            match cols {
                List::Nil => Err(PlannerError::IndexKeyMismatch),
                List::Cons(c, cs) => {
                    let first = fix_indexqual_operand(index, *c, x);
                    let rest = fix_row_operands(index, cs, left - 1, xs);
                    match first {
                        Ok(y) => match rest {
                            Ok(ys) => Ok(List::Cons(y, Box::new(ys))),
                            Err(_) => Err(PlannerError::IndexKeyMismatch),
                        },
                        Err(_) => Err(PlannerError::IndexKeyMismatch),
                    }
                },
            }
        },
    }
}

/// The clause in terms of index columns.
pub open spec fn index_clause(
    index: IndexPath,
    col: i16,
    cols: List<i16>,
    clause: Expr,
    outer: Relids,
) -> Result<Expr, PlannerError> {
    match crate::expr::bind(clause, outer) {
        Expr::Call { head, args } => match head {
            Head::Row { test, detail, left } => match row_operands(index, cols, left, *args) {
                Ok(fixed) => Ok(Expr::Call { head, args: Box::new(fixed) }),
                Err(e) => Err(e),
            },
            Head::Op { opno, typid, collation, inputcollid } => first_operand(
                index,
                col,
                head,
                *args,
            ),
            Head::ArrayOp { opno, use_or, inputcollid } => first_operand(index, col, head, *args),
            Head::NullTest { is_null } => first_operand(index, col, head, *args),
            _ => Err(PlannerError::IndexKeyMismatch),
        },
        _ => Err(PlannerError::IndexKeyMismatch),
    }
}

/// The call with its first argument replaced by the index column.
pub open spec fn first_operand(index: IndexPath, col: i16, head: Head, args: List<Expr>) -> Result<
    Expr,
    PlannerError,
> {
    match args {
        List::Nil => Err(PlannerError::IndexKeyMismatch),
        List::Cons(x, xs) => match index_operand(index, col, x) {
            Ok(y) => Ok(Expr::Call { head, args: Box::new(List::Cons(y, xs)) }),
            Err(e) => Err(e),
        },
    }
}

fn fix_first_operand(index: &IndexPath, col: i16, head: Head, args: List<Expr>) -> (r: Result<
    Expr,
    PlannerError,
>)
    ensures
        r == first_operand(*index, col, head, args),
{
    match args {
        List::Nil => Err(PlannerError::IndexKeyMismatch),
        List::Cons(x, xs) => match fix_indexqual_operand(index, col, &x) {
            Ok(y) => Ok(Expr::Call { head, args: Box::new(List::Cons(y, xs)) }),
            Err(e) => Err(e),
        },
    }
}

/// Puts an index clause into terms of index columns. References to outer
/// relations become parameters.
pub fn fix_indexqual_clause(
    index: &IndexPath,
    col: i16,
    cols: &List<i16>,
    clause: &Expr,
    outer: &Relids,
) -> (r: Result<Expr, PlannerError>)
    ensures
        r == index_clause(*index, col, *cols, *clause, *outer),
{
    match replace_nestloop_params(clause, outer) {
        Expr::Call { head, args } => match head {
            Head::Row { test: _, detail: _, left } => match fix_row_operands(
                index,
                cols,
                left,
                &args,
            ) {
                Ok(fixed) => Ok(Expr::Call { head, args: Box::new(fixed) }),
                Err(e) => Err(e),
            },
            Head::Op { .. } => fix_first_operand(index, col, head, *args),
            Head::ArrayOp { .. } => fix_first_operand(index, col, head, *args),
            Head::NullTest { .. } => fix_first_operand(index, col, head, *args),
            _ => Err(PlannerError::IndexKeyMismatch),
        },
        _ => Err(PlannerError::IndexKeyMismatch),
    }
}

/// What an index evaluates for one clause: as written, and in terms of index
/// columns.
pub open spec fn clause_quals(
    index: IndexPath,
    col: i16,
    cols: List<i16>,
    quals: List<Rinfo>,
    outer: Relids,
) -> Result<(List<Expr>, List<Expr>), PlannerError>
    decreases quals,
{
    match quals {
        List::Nil => Ok((List::Nil, List::Nil)),
        List::Cons(q, qs) => match index_clause(index, col, cols, q.clause, outer) {
            Err(e) => Err(e),
            Ok(fixed) => match clause_quals(index, col, cols, *qs, outer) {
                Err(e) => Err(e),
                Ok((stripped, more)) => Ok(
                    (
                        List::Cons(q.clause, Box::new(stripped)),
                        List::Cons(fixed, Box::new(more)),
                    ),
                ),
            },
        },
    }
}

fn fix_clause_quals(
    index: &IndexPath,
    col: i16,
    cols: &List<i16>,
    quals: &List<Rinfo>,
    outer: &Relids,
) -> (r: Result<(List<Expr>, List<Expr>), PlannerError>)
    ensures
        r == clause_quals(*index, col, *cols, *quals, *outer),
    decreases quals,
{
    match quals {
        List::Nil => Ok((List::Nil, List::Nil)),
        List::Cons(q, qs) => match fix_indexqual_clause(index, col, cols, &q.clause, outer) {
            Err(e) => Err(e),
            Ok(fixed) => match fix_clause_quals(index, col, cols, qs, outer) {
                Err(e) => Err(e),
                Ok((stripped, more)) => Ok(
                    (
                        List::Cons(q.clause.copy(), Box::new(stripped)),
                        List::Cons(fixed, Box::new(more)),
                    ),
                ),
            },
        },
    }
}

/// The same for all clauses of an index scan.
pub open spec fn index_quals(
    index: IndexPath,
    clauses: List<IndexClause>,
    outer: Relids,
) -> Result<(List<Expr>, List<Expr>), PlannerError>
    decreases clauses,
{
    match clauses {
        List::Nil => Ok((List::Nil, List::Nil)),
        List::Cons(c, cs) => match clause_quals(index, c.indexcol, c.indexcols, c.indexquals, outer)
        {
            Err(e) => Err(e),
            Ok((stripped, fixed)) => match index_quals(index, *cs, outer) {
                Err(e) => Err(e),
                Ok((more_stripped, more_fixed)) => Ok(
                    (stripped.then_list(more_stripped), fixed.then_list(more_fixed)),
                ),
            },
        },
    }
}

fn fix_quals(index: &IndexPath, clauses: &List<IndexClause>, outer: &Relids) -> (r: Result<
    (List<Expr>, List<Expr>),
    PlannerError,
>)
    ensures
        r == index_quals(*index, *clauses, *outer),
    decreases clauses,
{
    match clauses {
        List::Nil => Ok((List::Nil, List::Nil)),
        List::Cons(c, cs) => match fix_clause_quals(
            index,
            c.indexcol,
            &c.indexcols,
            &c.indexquals,
            outer,
        ) {
            Err(e) => Err(e),
            Ok((stripped, fixed)) => match fix_quals(index, cs, outer) {
                Err(e) => Err(e),
                Ok((more_stripped, more_fixed)) => Ok(
                    (stripped.append(more_stripped), fixed.append(more_fixed)),
                ),
            },
        },
    }
}

/// What an index evaluates, as written and in terms of index columns.
pub fn fix_indexqual_references(index: &IndexPath, outer: &Relids) -> (r: Result<
    (List<Expr>, List<Expr>),
    PlannerError,
>)
    ensures
        r == index_quals(*index, index.clauses, *outer),
{
    fix_quals(index, &index.clauses, outer)
}

/// The orderings that an index computes, in terms of index columns.
pub open spec fn index_orderbys(
    index: IndexPath,
    exprs: List<Expr>,
    cols: List<i16>,
    outer: Relids,
) -> Result<List<Expr>, PlannerError>
    decreases exprs,
{
    match (exprs, cols) {
        (List::Cons(x, xs), List::Cons(c, cs)) => match index_clause(
            index,
            c,
            List::Nil,
            x,
            outer,
        ) {
            Err(e) => Err(e),
            Ok(y) => match index_orderbys(index, *xs, *cs, outer) {
                Err(e) => Err(e),
                Ok(ys) => Ok(List::Cons(y, Box::new(ys))),
            },
        },
        _ => Ok(List::Nil),
    }
}

/// Puts the orderings that an index computes into terms of index columns.
pub fn fix_indexorderby_references(
    index: &IndexPath,
    exprs: &List<Expr>,
    cols: &List<i16>,
    outer: &Relids,
) -> (r: Result<List<Expr>, PlannerError>)
    ensures
        r == index_orderbys(*index, *exprs, *cols, *outer),
    decreases exprs,
{
    match exprs {
        List::Nil => Ok(List::Nil),
        List::Cons(x, xs) => match cols {
            List::Nil => Ok(List::Nil),
            List::Cons(c, cs) => {
                let none: List<i16> = List::Nil;
                match fix_indexqual_clause(index, *c, &none, x, outer) {
                    Err(e) => Err(e),
                    Ok(y) => match fix_indexorderby_references(index, xs, cs, outer) {
                        Err(e) => Err(e),
                        Ok(ys) => Ok(List::Cons(y, Box::new(ys))),
                    },
                }
            },
        },
    }
}

/// The operators that sort the orderings: those of the sort order for the
/// types of the expressions.
pub open spec fn orderby_operators(exprs: List<Expr>, keys: List<PathKey>) -> List<OperatorKey>
    decreases exprs,
{
    match (exprs, keys) {
        (List::Cons(x, xs), List::Cons(k, ks)) => List::Cons(
            OperatorKey {
                opfamily: k.opfamily,
                typid: crate::expr::type_of(x),
                test: k.direction,
            },
            Box::new(orderby_operators(*xs, *ks)),
        ),
        _ => List::Nil,
    }
}

/// Finds the operators that sort the orderings.
pub fn orderby_sort_operators(exprs: &List<Expr>, keys: &List<PathKey>) -> (r: List<OperatorKey>)
    ensures
        r == orderby_operators(*exprs, *keys),
    decreases exprs,
{
    match exprs {
        List::Nil => List::Nil,
        List::Cons(x, xs) => match keys {
            List::Nil => List::Nil,
            List::Cons(k, ks) => List::Cons(
                OperatorKey { opfamily: k.opfamily, typid: expr_type(x), test: k.direction },
                Box::new(orderby_sort_operators(xs, ks)),
            ),
        },
    }
}

/// The columns of an index, those that it cannot return marked as junk where
/// that is asked for.
pub open spec fn index_columns(
    tlist: List<TargetEntry>,
    canreturn: List<bool>,
    mark_returnable: bool,
) -> List<TargetEntry>
    decreases tlist,
{
    match tlist {
        List::Nil => List::Nil,
        List::Cons(t, ts) => {
            let (can, rest) = match canreturn {
                List::Nil => (false, List::Nil),
                List::Cons(c, cs) => (c, *cs),
            };
            let entry = TargetEntry {
                expr: t.expr,
                resno: t.resno,
                resname: t.resname,
                ressortgroupref: 0,
                resorigtbl: 0,
                resorigcol: 0,
                resjunk: if mark_returnable {
                    !can
                } else {
                    t.resjunk
                },
            };
            List::Cons(entry, Box::new(index_columns(*ts, rest, mark_returnable)))
        },
    }
}

/// Copies the columns of an index.
pub fn ios_indextlist_copy(
    tlist: &List<TargetEntry>,
    canreturn: &List<bool>,
    mark_returnable: bool,
) -> (r: List<TargetEntry>)
    ensures
        r == index_columns(*tlist, *canreturn, mark_returnable),
    decreases tlist,
{
    match tlist {
        List::Nil => List::Nil,
        List::Cons(t, ts) => {
            let can = match canreturn {
                List::Nil => false,
                List::Cons(c, _) => *c,
            };
            let entry = TargetEntry {
                expr: t.expr.copy(),
                resno: t.resno,
                resname: t.resname,
                ressortgroupref: 0,
                resorigtbl: 0,
                resorigcol: 0,
                resjunk: if mark_returnable {
                    !can
                } else {
                    t.resjunk
                },
            };
            let none: List<bool> = List::Nil;
            let rest: &List<bool> = match canreturn {
                List::Nil => &none,
                List::Cons(_, cs) => cs,
            };
            List::Cons(entry, Box::new(ios_indextlist_copy(ts, rest, mark_returnable)))
        },
    }
}

/// Some column of the index cannot be returned.
pub open spec fn hides_column(canreturn: List<bool>) -> bool
    decreases canreturn,
{
    match canreturn {
        List::Nil => false,
        List::Cons(c, cs) => !c || hides_column(*cs),
    }
}

/// Can some column of the index not be returned?
pub fn has_hidden_column(canreturn: &List<bool>) -> (r: bool)
    ensures
        r == hides_column(*canreturn),
    decreases canreturn,
{
    match canreturn {
        List::Nil => false,
        List::Cons(c, cs) => !*c || has_hidden_column(cs),
    }
}

/// All of the conditions as one.
pub open spec fn ands_explicit(l: List<Expr>) -> Expr {
    match l {
        List::Nil => Expr::Const(
            Const { typid: BOOLOID, collation: 0, value: 1, isnull: false },
        ),
        List::Cons(x, xs) => if *xs is Nil {
            x
        } else {
            Expr::Call { head: Head::And, args: Box::new(l) }
        },
    }
}

/// Joins conditions by AND.
pub fn make_ands_explicit(l: List<Expr>) -> (r: Expr)
    ensures
        r == ands_explicit(l),
{
    match l {
        List::Nil => Expr::Const(
            Const { typid: BOOLOID, collation: 0, value: 1, isnull: false },
        ),
        List::Cons(x, xs) => if xs.is_nil() {
            x
        } else {
            Expr::Call { head: Head::And, args: Box::new(List::Cons(x, xs)) }
        },
    }
}

/// The conditions as a list of at most one: none where one of the branches has
/// no condition, else the branches joined by OR.
pub open spec fn or_quals(branches: List<Expr>, unconditional: bool) -> List<Expr> {
    if unconditional {
        List::Nil
    } else {
        match branches {
            List::Nil => List::Nil,
            List::Cons(x, xs) => if *xs is Nil {
                branches
            } else {
                List::Cons(
                    Expr::Call { head: Head::Or, args: Box::new(branches) },
                    Box::new(List::Nil),
                )
            },
        }
    }
}

/// Joins the conditions of branches by OR.
pub fn make_or_quals(branches: List<Expr>, unconditional: bool) -> (r: List<Expr>)
    ensures
        r == or_quals(branches, unconditional),
{
    if unconditional {
        return List::Nil;
    }
    match branches {
        List::Nil => List::Nil,
        List::Cons(x, xs) => if xs.is_nil() {
            List::Cons(x, xs)
        } else {
            List::one(Expr::Call { head: Head::Or, args: Box::new(List::Cons(x, xs)) })
        },
    }
}

/// The conditions that an index scan in a bitmap stands for: as index quals,
/// as written, and the equivalence classes that they come from.
#[derive(Debug)]
pub struct BitmapQuals {
    pub indexquals: List<Expr>,
    pub quals: List<Recheck>,
    pub classes: List<u32>,
}

/// The clauses of an index scan, without those that come from the same
/// equivalence class as an earlier one.
pub open spec fn bitmap_clauses(clauses: List<IndexClause>, seen: List<u32>) -> BitmapQuals
    decreases clauses,
{
    match clauses {
        List::Nil => BitmapQuals { indexquals: List::Nil, quals: List::Nil, classes: List::Nil },
        List::Cons(c, cs) => match c.rinfo.parent_ec {
            Some(ec) => if seen@.contains(ec) {
                bitmap_clauses(*cs, seen)
            } else {
                let rest = bitmap_clauses(*cs, List::Cons(ec, Box::new(seen)));
                BitmapQuals {
                    indexquals: crate::quals::all_clauses(c.indexquals).then_list(rest.indexquals),
                    quals: List::Cons(
                        Recheck { expr: c.rinfo.clause, clause: Some(c.rinfo.id) },
                        Box::new(rest.quals),
                    ),
                    classes: List::Cons(ec, Box::new(rest.classes)),
                }
            },
            None => {
                let rest = bitmap_clauses(*cs, seen);
                BitmapQuals {
                    indexquals: crate::quals::all_clauses(c.indexquals).then_list(rest.indexquals),
                    quals: List::Cons(
                        Recheck { expr: c.rinfo.clause, clause: Some(c.rinfo.id) },
                        Box::new(rest.quals),
                    ),
                    classes: rest.classes,
                }
            },
        },
    }
}

fn collect_bitmap_clauses(clauses: &List<IndexClause>, seen: List<u32>) -> (r: BitmapQuals)
    ensures
        r == bitmap_clauses(*clauses, seen),
    decreases clauses,
{
    match clauses {
        List::Nil => BitmapQuals { indexquals: List::Nil, quals: List::Nil, classes: List::Nil },
        List::Cons(c, cs) => match c.rinfo.parent_ec {
            Some(ec) => {
                if crate::list::list_has(&seen, ec) {
                    return collect_bitmap_clauses(cs, seen);
                }
                let rest = collect_bitmap_clauses(cs, List::Cons(ec, Box::new(seen)));
                BitmapQuals {
                    indexquals: crate::quals::get_actual_clauses(&c.indexquals).append(
                        rest.indexquals,
                    ),
                    quals: List::Cons(
                        Recheck { expr: c.rinfo.clause.copy(), clause: Some(c.rinfo.id) },
                        Box::new(rest.quals),
                    ),
                    classes: List::Cons(ec, Box::new(rest.classes)),
                }
            },
            None => {
                let rest = collect_bitmap_clauses(cs, seen);
                BitmapQuals {
                    indexquals: crate::quals::get_actual_clauses(&c.indexquals).append(
                        rest.indexquals,
                    ),
                    quals: List::Cons(
                        Recheck { expr: c.rinfo.clause.copy(), clause: Some(c.rinfo.id) },
                        Box::new(rest.quals),
                    ),
                    classes: rest.classes,
                }
            },
        },
    }
}

/// The conditions of a partial index that the clauses do not imply.
pub open spec fn unimplied(predicate: List<IndexPredicate>) -> List<Expr>
    decreases predicate,
{
    match predicate {
        List::Nil => List::Nil,
        List::Cons(p, ps) => if p.implied {
            unimplied(*ps)
        } else {
            List::Cons(p.clause, Box::new(unimplied(*ps)))
        },
    }
}

fn select_unimplied(predicate: &List<IndexPredicate>) -> (r: List<Expr>)
    ensures
        r == unimplied(*predicate),
    decreases predicate,
{
    match predicate {
        List::Nil => List::Nil,
        List::Cons(p, ps) => {
            let rest = select_unimplied(ps);
            if p.implied {
                rest
            } else {
                List::Cons(p.clause.copy(), Box::new(rest))
            }
        },
    }
}

/// What an index scan in a bitmap stands for: its clauses, and the conditions
/// of a partial index that they do not imply.
pub open spec fn bitmap_index_quals(index: IndexPath) -> BitmapQuals {
    let own = bitmap_clauses(index.clauses, List::Nil);
    let extra = unimplied(index.predicate);
    BitmapQuals {
        indexquals: own.indexquals.then_list(extra),
        quals: own.quals.then_list(crate::recheck::unowned(extra)),
        classes: own.classes,
    }
}

/// Collects the conditions that an index scan in a bitmap stands for.
pub fn collect_bitmap_index_quals(index: &IndexPath) -> (r: BitmapQuals)
    ensures
        r == bitmap_index_quals(*index),
{
    let own = collect_bitmap_clauses(&index.clauses, List::Nil);
    let first = select_unimplied(&index.predicate);
    let second = select_unimplied(&index.predicate);
    BitmapQuals {
        indexquals: own.indexquals.append(first),
        quals: own.quals.append(disown(second)),
        classes: own.classes,
    }
}

} // verus!

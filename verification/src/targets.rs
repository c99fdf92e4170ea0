//! What is computed below a grouping, by a partial grouping and below a sort.
use vstd::prelude::*;
use crate::error::PlannerError;
use crate::expr::{copy_exprs, pull_vars, AggSplit, Expr, Head, TargetEntry};
use crate::list::List;
use crate::quals::list_concat_unique;
use crate::relids::{lemma_del_twice, relids_del_member};
use crate::sortgroup::SortGroupClause;

verus! {

/// The type of the internal transition states of aggregates.
pub const INTERNALOID: u32 = 2281;

/// The type of transition states written out as bytes.
pub const BYTEAOID: u32 = 17;

/// The expression where nothing is made null by the relation `rt`.
pub open spec fn stripped(e: Expr, rt: u32) -> Expr
    decreases e,
{
    match e {
        Expr::Var(v) => if v.levelsup == 0 {
            Expr::Var(crate::expr::Var { nullingrels: crate::relids::del(v.nullingrels, rt), ..v })
        } else {
            e
        },
        Expr::PlaceHolder { phid, levelsup, nullingrels, eval_at, expr } => Expr::PlaceHolder {
            phid,
            levelsup,
            nullingrels: if levelsup == 0 {
                crate::relids::del(nullingrels, rt)
            } else {
                nullingrels
            },
            eval_at,
            expr: Box::new(stripped(*expr, rt)),
        },
        Expr::Relabel { typid, collation, arg } => Expr::Relabel {
            typid,
            collation,
            arg: Box::new(stripped(*arg, rt)),
        },
        Expr::Call { head, args } => Expr::Call { head, args: Box::new(stripped_list(*args, rt)) },
        _ => e,
    }
}

/// The expressions where nothing is made null by the relation `rt`.
pub open spec fn stripped_list(l: List<Expr>, rt: u32) -> List<Expr>
    decreases l,
{
    match l {
        List::Nil => List::Nil,
        List::Cons(x, xs) => List::Cons(stripped(x, rt), Box::new(stripped_list(*xs, rt))),
    }
}

/// Removes the relation `rt` from what can make the columns of an expression
/// null.
pub fn strip_group_nulling(e: Expr, rt: u32) -> (r: Expr)
    ensures
        r == stripped(e, rt),
    decreases e,
{
    match e {
        Expr::Var(v) => {
            let mut v = v;
            if v.levelsup == 0 {
                v.nullingrels = relids_del_member(&v.nullingrels, rt);
            }
            Expr::Var(v)
        },
        Expr::PlaceHolder { phid, levelsup, nullingrels, eval_at, expr } => {
            let rels = if levelsup == 0 {
                relids_del_member(&nullingrels, rt)
            } else {
                nullingrels
            };
            Expr::PlaceHolder {
                phid,
                levelsup,
                nullingrels: rels,
                eval_at,
                expr: Box::new(strip_group_nulling(*expr, rt)),
            }
        },
        Expr::Relabel { typid, collation, arg } => Expr::Relabel {
            typid,
            collation,
            arg: Box::new(strip_group_nulling(*arg, rt)),
        },
        Expr::Call { head, args } => Expr::Call {
            head,
            args: Box::new(strip_group_nulling_list(*args, rt)),
        },
        other => other,
    }
}

/// Removes the relation `rt` from what can make the columns of expressions
/// null.
pub fn strip_group_nulling_list(l: List<Expr>, rt: u32) -> (r: List<Expr>)
    ensures
        r == stripped_list(l, rt),
    decreases l,
{
    match l {
        List::Nil => List::Nil,
        List::Cons(x, xs) => List::Cons(
            strip_group_nulling(x, rt),
            Box::new(strip_group_nulling_list(*xs, rt)),
        ),
    }
}

/// The expressions that are stripped where that is asked for.
pub open spec fn strip_if(l: List<Expr>, rt: Option<u32>) -> List<Expr> {
    match rt {
        Some(r) => stripped_list(l, r),
        None => l,
    }
}

fn strip_list_if(l: List<Expr>, rt: Option<u32>) -> (r: List<Expr>)
    ensures
        r == strip_if(l, rt),
{
    match rt {
        Some(rt) => strip_group_nulling_list(l, rt),
        None => l,
    }
}

/// Stripping twice is stripping once.
pub proof fn lemma_strip_idempotent(e: Expr, rt: u32)
    ensures
        stripped(stripped(e, rt), rt) == stripped(e, rt),
    decreases e,
{
    match e {
        Expr::Var(v) => {
            lemma_del_twice(v.nullingrels, rt);
        },
        Expr::PlaceHolder { phid, levelsup, nullingrels, eval_at, expr } => {
            lemma_del_twice(nullingrels, rt);
            lemma_strip_idempotent(*expr, rt);
        },
        Expr::Relabel { typid, collation, arg } => {
            lemma_strip_idempotent(*arg, rt);
        },
        Expr::Call { head, args } => {
            lemma_strip_list_idempotent(*args, rt);
        },
        _ => {},
    }
}

proof fn lemma_strip_list_idempotent(l: List<Expr>, rt: u32)
    ensures
        stripped_list(stripped_list(l, rt), rt) == stripped_list(l, rt),
    decreases l,
{
    if let List::Cons(x, xs) = l {
        lemma_strip_idempotent(x, rt);
        lemma_strip_list_idempotent(*xs, rt);
    }
}

/// The label is one of those that are grouped by.
pub open spec fn is_group_label(clauses: List<SortGroupClause>, sgref: u32) -> bool
    decreases clauses,
{
    sgref != 0 && match clauses {
        List::Nil => false,
        List::Cons(c, cs) => c.tle_sort_group_ref == sgref || is_group_label(*cs, sgref),
    }
}

/// Is the label one of those that are grouped by?
pub fn target_sgref_in_group_clause(clauses: &List<SortGroupClause>, sgref: u32) -> (r: bool)
    ensures
        r == is_group_label(*clauses, sgref),
        r == (sgref != 0 && exists|i: int|
            0 <= i < clauses@.len() && clauses@[i].tle_sort_group_ref == sgref),
    decreases clauses,
{
    match clauses {
        List::Nil => false,
        List::Cons(c, cs) => {
            let rest = target_sgref_in_group_clause(cs, sgref);
            proof {
                assert(clauses@[0] == *c);
                assert(forall|i: int| 0 <= i < cs@.len() ==> clauses@[i + 1] == #[trigger] cs@[i]);
                assert forall|i: int|
                    0 <= i < clauses@.len() && clauses@[i].tle_sort_group_ref
                        == sgref && i > 0 implies cs@[i - 1].tle_sort_group_ref == sgref by {}
            }
            sgref != 0 && (c.tle_sort_group_ref == sgref || rest)
        },
    }
}

/// What an expression is computed from: columns and placeholders, and also
/// aggregates with GROUPING, and window functions, where those are asked for as
/// wholes.
pub open spec fn pulled(e: Expr, aggs: bool, windows: bool) -> List<Expr>
    decreases e,
{
    match e {
        Expr::Var(_) | Expr::PlaceHolder { .. } => List::Cons(e, Box::new(List::Nil)),
        Expr::Relabel { typid, collation, arg } => pulled(*arg, aggs, windows),
        Expr::Call { head, args } => if (crate::expr::is_grouped(head) && aggs) || (head is Window
            && windows) {
            List::Cons(e, Box::new(List::Nil))
        } else {
            pulled_list(*args, aggs, windows)
        },
        _ => List::Nil,
    }
}

/// What expressions are computed from.
pub open spec fn pulled_list(l: List<Expr>, aggs: bool, windows: bool) -> List<Expr>
    decreases l,
{
    match l {
        List::Nil => List::Nil,
        List::Cons(x, xs) => pulled(x, aggs, windows).then_list(pulled_list(*xs, aggs, windows)),
    }
}

fn pull(e: &Expr, aggs: bool, windows: bool) -> (r: List<Expr>)
    ensures
        r == pulled(*e, aggs, windows),
    decreases e,
{
    match e {
        Expr::Var(_) => List::one(e.copy()),
        Expr::PlaceHolder { .. } => List::one(e.copy()),
        Expr::Relabel { arg, .. } => pull(arg, aggs, windows),
        Expr::Call { head, args } => {
            let whole = match head {
                Head::Aggref { .. } => aggs,
                Head::Grouping { .. } => aggs,
                Head::Window { .. } => windows,
                _ => false,
            };
            if whole {
                List::one(e.copy())
            } else {
                pull_list(args, aggs, windows)
            }
        },
        _ => List::Nil,
    }
}

fn pull_list(l: &List<Expr>, aggs: bool, windows: bool) -> (r: List<Expr>)
    ensures
        r == pulled_list(*l, aggs, windows),
    decreases l,
{
    match l {
        List::Nil => List::Nil,
        List::Cons(x, xs) => pull(x, aggs, windows).append(pull_list(xs, aggs, windows)),
    }
}

/// Collects the columns and placeholders that an expression is computed from,
/// those inside aggregates and window functions as well.
pub fn pull_agg_input_vars(e: &Expr) -> (r: List<Expr>)
    ensures
        r == pulled(*e, false, false),
{
    pull(e, false, false)
}

/// A column or a placeholder.
pub open spec fn is_source(e: Expr) -> bool {
    e is Var || e is PlaceHolder
}

/// What aggregates are computed from holds no aggregate: only columns and
/// placeholders.
pub proof fn lemma_agg_inputs(e: Expr, i: int)
    requires
        0 <= i < pulled(e, false, false)@.len(),
    ensures
        is_source(pulled(e, false, false)@[i]),
    decreases e,
{
    match e {
        Expr::Relabel { typid, collation, arg } => {
            lemma_agg_inputs(*arg, i);
        },
        Expr::Call { head, args } => {
            lemma_agg_inputs_list(*args, i);
        },
        _ => {
            let none: List<Expr> = List::Nil;
            assert(none@.len() == 0);
            assert(pulled(e, false, false)@.len() == 1);
        },
    }
}

proof fn lemma_agg_inputs_list(l: List<Expr>, i: int)
    requires
        0 <= i < pulled_list(l, false, false)@.len(),
    ensures
        is_source(pulled_list(l, false, false)@[i]),
    decreases l,
{
    if let List::Cons(x, xs) = l {
        let here = pulled(x, false, false);
        let rest = pulled_list(*xs, false, false);
        crate::list::lemma_then_view(here, rest);
        if i < here@.len() {
            lemma_agg_inputs(x, i);
        } else {
            lemma_agg_inputs_list(*xs, i - here@.len());
        }
    }
}

/// What is to be computed: expressions, of which the first ones have labels.
#[derive(Debug)]
pub struct TargetColumns {
    pub exprs: List<Expr>,
    pub refs: List<u32>,
}

/// The first label and the rest.
pub open spec fn split_refs(refs: List<u32>) -> (u32, List<u32>) {
    match refs {
        List::Nil => (0, List::Nil),
        List::Cons(r, rs) => (r, *rs),
    }
}

/// The columns that are grouped by.
pub open spec fn group_part(
    exprs: List<Expr>,
    refs: List<u32>,
    clauses: List<SortGroupClause>,
) -> TargetColumns
    decreases exprs,
{
    match exprs {
        List::Nil => TargetColumns { exprs: List::Nil, refs: List::Nil },
        List::Cons(x, xs) => {
            let (r, rest_refs) = split_refs(refs);
            let rest = group_part(*xs, rest_refs, clauses);
            if is_group_label(clauses, r) {
                TargetColumns {
                    exprs: List::Cons(x, Box::new(rest.exprs)),
                    refs: List::Cons(r, Box::new(rest.refs)),
                }
            } else {
                rest
            }
        },
    }
}

/// The columns that are not grouped by.
pub open spec fn other_part(
    exprs: List<Expr>,
    refs: List<u32>,
    clauses: List<SortGroupClause>,
) -> List<Expr>
    decreases exprs,
{
    match exprs {
        List::Nil => List::Nil,
        List::Cons(x, xs) => {
            let (r, rest_refs) = split_refs(refs);
            let rest = other_part(*xs, rest_refs, clauses);
            if is_group_label(clauses, r) {
                rest
            } else {
                List::Cons(x, Box::new(rest))
            }
        },
    }
}

fn split_columns(
    exprs: &List<Expr>,
    refs: &List<u32>,
    clauses: &List<SortGroupClause>,
) -> (r: (TargetColumns, List<Expr>))
    ensures
        r.0 == group_part(*exprs, *refs, *clauses),
        r.1 == other_part(*exprs, *refs, *clauses),
    decreases exprs,
{
    match exprs {
        List::Nil => (TargetColumns { exprs: List::Nil, refs: List::Nil }, List::Nil),
        List::Cons(x, xs) => {
            let none: List<u32> = List::Nil;
            let (label, (group, others)) = match refs {
                List::Nil => (0u32, split_columns(xs, &none, clauses)),
                List::Cons(l, ls) => (*l, split_columns(xs, ls, clauses)),
            };
            if target_sgref_in_group_clause(clauses, label) {
                (
                    TargetColumns {
                        exprs: List::Cons(x.copy(), Box::new(group.exprs)),
                        refs: List::Cons(label, Box::new(group.refs)),
                    },
                    others,
                )
            } else {
                (group, List::Cons(x.copy(), Box::new(others)))
            }
        },
    }
}

/// What is computed below a grouping: the columns that are grouped by, and
/// what the others and HAVING are computed from. `strip` is the relation that
/// stands for the grouping, where grouping sets make columns null: below the
/// grouping they are not null yet.
pub open spec fn group_input(
    exprs: List<Expr>,
    refs: List<u32>,
    clauses: List<SortGroupClause>,
    having: List<Expr>,
    strip: Option<u32>,
) -> TargetColumns {
    let group = group_part(exprs, refs, clauses);
    let sources = pulled_list(
        other_part(exprs, refs, clauses).then_list(having),
        false,
        false,
    );
    TargetColumns {
        exprs: crate::quals::concat_unique(
            strip_if(group.exprs, strip),
            strip_if(sources, strip),
        ),
        refs: group.refs,
    }
}

/// Finds what is computed below a grouping.
pub fn make_group_input_target(
    exprs: &List<Expr>,
    refs: &List<u32>,
    clauses: &List<SortGroupClause>,
    having: &List<Expr>,
    strip: Option<u32>,
) -> (r: TargetColumns)
    ensures
        r == group_input(*exprs, *refs, *clauses, *having, strip),
{
    let (group, others) = split_columns(exprs, refs, clauses);
    let wanted = others.append(copy_exprs(having));
    let sources = strip_list_if(pull_list(&wanted, false, false), strip);
    let kept = strip_list_if(group.exprs, strip);
    TargetColumns { exprs: list_concat_unique(kept, &sources), refs: group.refs }
}

/// The aggregate computes transition states only.
pub open spec fn initial_aggref(head: Head) -> Result<Head, PlannerError> {
    match head {
        Head::Aggref { func, typid, transtype, collation, split } => if transtype == 0 || split
            != AggSplit::Simple {
            Err(PlannerError::AggregateNotSplittable)
        } else {
            Ok(
                Head::Aggref {
                    func,
                    typid: if transtype == INTERNALOID {
                        BYTEAOID
                    } else {
                        transtype
                    },
                    transtype,
                    collation,
                    split: AggSplit::InitialSerial,
                },
            )
        },
        _ => Ok(head),
    }
}

/// Makes an aggregate compute transition states only.
pub fn mark_partial_aggref(head: Head) -> (r: Result<Head, PlannerError>)
    ensures
        r == initial_aggref(head),
{
    match head {
        Head::Aggref { func, typid: _, transtype, collation, split } => {
            if transtype == 0 || split != AggSplit::Simple {
                return Err(PlannerError::AggregateNotSplittable);
            }
            let typid: u32 = if transtype == INTERNALOID {
                BYTEAOID
            } else {
                transtype
            };
            Ok(Head::Aggref { func, typid, transtype, collation, split: AggSplit::InitialSerial })
        },
        other => Ok(other),
    }
}

/// The columns where aggregates compute transition states only.
pub open spec fn initial_columns(l: List<Expr>) -> Result<List<Expr>, PlannerError>
    decreases l,
{
    match l {
        List::Nil => Ok(List::Nil),
        List::Cons(x, xs) => {
            let first = match x {
                Expr::Call { head, args } => match initial_aggref(head) {
                    Err(e) => Err(e),
                    Ok(h) => Ok(Expr::Call { head: h, args }),
                },
                _ => Ok(x),
            };
            match first {
                Err(e) => Err(e),
                Ok(f) => match initial_columns(*xs) {
                    Err(e) => Err(e),
                    Ok(rest) => Ok(List::Cons(f, Box::new(rest))),
                },
            }
        },
    }
}

fn mark_partial_columns(l: List<Expr>) -> (r: Result<List<Expr>, PlannerError>)
    ensures
        r == initial_columns(l),
    decreases l,
{
    match l {
        List::Nil => Ok(List::Nil),
        List::Cons(x, xs) => {
            let first = match x {
                Expr::Call { head, args } => match mark_partial_aggref(head) {
                    Err(e) => {
                        return Err(e);
                    },
                    Ok(h) => Expr::Call { head: h, args },
                },
                other => other,
            };
            match mark_partial_columns(*xs) {
                Err(e) => Err(e),
                Ok(rest) => Ok(List::Cons(first, Box::new(rest))),
            }
        },
    }
}

/// What a partial grouping computes: the columns that are grouped by, and the
/// columns and aggregates that the others and HAVING are computed from, the
/// aggregates as transition states.
pub open spec fn partial_target(
    exprs: List<Expr>,
    refs: List<u32>,
    clauses: List<SortGroupClause>,
    having: List<Expr>,
) -> Result<TargetColumns, PlannerError> {
    let group = group_part(exprs, refs, clauses);
    let parts = pulled_list(other_part(exprs, refs, clauses).then_list(having), true, false);
    match initial_columns(crate::quals::concat_unique(group.exprs, parts)) {
        Err(e) => Err(e),
        Ok(all) => Ok(TargetColumns { exprs: all, refs: group.refs }),
    }
}

/// Finds what a partial grouping computes.
pub fn make_partial_grouping_target(
    exprs: &List<Expr>,
    refs: &List<u32>,
    clauses: &List<SortGroupClause>,
    having: &List<Expr>,
) -> (r: Result<TargetColumns, PlannerError>)
    ensures
        r == partial_target(*exprs, *refs, *clauses, *having),
{
    let (group, others) = split_columns(exprs, refs, clauses);
    let wanted = others.append(copy_exprs(having));
    let parts = pull_list(&wanted, true, false);
    match mark_partial_columns(list_concat_unique(group.exprs, &parts)) {
        Err(e) => Err(e),
        Ok(all) => Ok(TargetColumns { exprs: all, refs: group.refs }),
    }
}

/// What is known of a column that might be computed after the sort.
#[derive(Clone, Copy, Debug, PartialEq, Eq, Structural)]
pub struct ColumnFacts {
    pub returns_set: bool,
    pub volatile: bool,
    pub expensive: bool,
}

/// How a column is dealt with.
#[derive(Clone, Copy, Debug, PartialEq, Eq, Structural)]
pub enum ColumnKind {
    /// It is labelled, or cheap.
    Kept,
    /// It is labelled and returns a set.
    KeptSet,
    /// It returns a set.
    SetReturning,
    Volatile,
    Expensive,
}

/// How a column is dealt with.
pub open spec fn column_kind(f: ColumnFacts, label: u32, has_srfs: bool) -> ColumnKind {
    if label != 0 {
        if has_srfs && f.returns_set {
            ColumnKind::KeptSet
        } else {
            ColumnKind::Kept
        }
    } else if has_srfs && f.returns_set {
        ColumnKind::SetReturning
    } else if f.volatile {
        ColumnKind::Volatile
    } else if f.expensive {
        ColumnKind::Expensive
    } else {
        ColumnKind::Kept
    }
}

fn classify_column(f: ColumnFacts, label: u32, has_srfs: bool) -> (r: ColumnKind)
    ensures
        r == column_kind(f, label, has_srfs),
{
    if label != 0 {
        if has_srfs && f.returns_set {
            ColumnKind::KeptSet
        } else {
            ColumnKind::Kept
        }
    } else if has_srfs && f.returns_set {
        ColumnKind::SetReturning
    } else if f.volatile {
        ColumnKind::Volatile
    } else if f.expensive {
        ColumnKind::Expensive
    } else {
        ColumnKind::Kept
    }
}

/// How the columns are dealt with.
pub open spec fn column_kinds(
    facts: List<ColumnFacts>,
    refs: List<u32>,
    has_srfs: bool,
) -> List<ColumnKind>
    decreases facts,
{
    match facts {
        List::Nil => List::Nil,
        List::Cons(f, fs) => {
            let (r, rest) = split_refs(refs);
            List::Cons(column_kind(f, r, has_srfs), Box::new(column_kinds(*fs, rest, has_srfs)))
        },
    }
}

fn classify_columns(facts: &List<ColumnFacts>, refs: &List<u32>, has_srfs: bool) -> (r: List<
    ColumnKind,
>)
    ensures
        r == column_kinds(*facts, *refs, has_srfs),
    decreases facts,
{
    match facts {
        List::Nil => List::Nil,
        List::Cons(f, fs) => {
            let none: List<u32> = List::Nil;
            let (label, rest) = match refs {
                List::Nil => (0u32, classify_columns(fs, &none, has_srfs)),
                List::Cons(l, ls) => (*l, classify_columns(fs, ls, has_srfs)),
            };
            List::Cons(classify_column(*f, label, has_srfs), Box::new(rest))
        },
    }
}

/// Some column is dealt with in the given way.
pub open spec fn has_kind(kinds: List<ColumnKind>, k: ColumnKind) -> bool
    decreases kinds,
{
    match kinds {
        List::Nil => false,
        List::Cons(x, xs) => x == k || has_kind(*xs, k),
    }
}

fn find_kind(kinds: &List<ColumnKind>, k: ColumnKind) -> (r: bool)
    ensures
        r == has_kind(*kinds, k),
    decreases kinds,
{
    match kinds {
        List::Nil => false,
        List::Cons(x, xs) => *x == k || find_kind(xs, k),
    }
}

/// A column of this kind is computed after the sort.
pub open spec fn is_postponed(k: ColumnKind, postpone_srfs: bool) -> bool {
    k == ColumnKind::Volatile || k == ColumnKind::Expensive || (k == ColumnKind::SetReturning
        && postpone_srfs)
}

/// The columns that are computed before the sort, with their labels.
pub open spec fn kept_columns(
    exprs: List<Expr>,
    refs: List<u32>,
    kinds: List<ColumnKind>,
    postpone_srfs: bool,
) -> TargetColumns
    decreases exprs,
{
    match exprs {
        List::Nil => TargetColumns { exprs: List::Nil, refs: List::Nil },
        List::Cons(x, xs) => {
            let (r, rest_refs) = split_refs(refs);
            let (k, rest_kinds) = match kinds {
                List::Nil => (ColumnKind::Kept, List::Nil),
                List::Cons(k, ks) => (k, *ks),
            };
            let rest = kept_columns(*xs, rest_refs, rest_kinds, postpone_srfs);
            if is_postponed(k, postpone_srfs) {
                rest
            } else {
                TargetColumns {
                    exprs: List::Cons(x, Box::new(rest.exprs)),
                    refs: List::Cons(r, Box::new(rest.refs)),
                }
            }
        },
    }
}

/// The columns that are computed after the sort.
pub open spec fn postponed_columns(
    exprs: List<Expr>,
    kinds: List<ColumnKind>,
    postpone_srfs: bool,
) -> List<Expr>
    decreases exprs,
{
    match exprs {
        List::Nil => List::Nil,
        List::Cons(x, xs) => {
            let (k, rest_kinds) = match kinds {
                List::Nil => (ColumnKind::Kept, List::Nil),
                List::Cons(k, ks) => (k, *ks),
            };
            let rest = postponed_columns(*xs, rest_kinds, postpone_srfs);
            if is_postponed(k, postpone_srfs) {
                List::Cons(x, Box::new(rest))
            } else {
                rest
            }
        },
    }
}

fn split_postponed(
    exprs: &List<Expr>,
    refs: &List<u32>,
    kinds: &List<ColumnKind>,
    postpone_srfs: bool,
) -> (r: (TargetColumns, List<Expr>))
    ensures
        r.0 == kept_columns(*exprs, *refs, *kinds, postpone_srfs),
        r.1 == postponed_columns(*exprs, *kinds, postpone_srfs),
    decreases exprs,
{
    match exprs {
        List::Nil => (TargetColumns { exprs: List::Nil, refs: List::Nil }, List::Nil),
        List::Cons(x, xs) => {
            let no_refs: List<u32> = List::Nil;
            let no_kinds: List<ColumnKind> = List::Nil;
            let (label, rest_refs) = match refs {
                List::Nil => (0u32, &no_refs),
                List::Cons(l, ls) => (*l, &**ls),
            };
            let (kind, rest_kinds) = match kinds {
                List::Nil => (ColumnKind::Kept, &no_kinds),
                List::Cons(k, ks) => (*k, &**ks),
            };
            let (kept, postponed) = split_postponed(xs, rest_refs, rest_kinds, postpone_srfs);
            let later = kind == ColumnKind::Volatile || kind == ColumnKind::Expensive || (kind
                == ColumnKind::SetReturning && postpone_srfs);
            if later {
                (kept, List::Cons(x.copy(), Box::new(postponed)))
            } else {
                (
                    TargetColumns {
                        exprs: List::Cons(x.copy(), Box::new(kept.exprs)),
                        refs: List::Cons(label, Box::new(kept.refs)),
                    },
                    postponed,
                )
            }
        },
    }
}

/// Columns that return sets can wait for the sort if none of them is sorted
/// by.
pub open spec fn can_postpone_srfs(kinds: List<ColumnKind>) -> bool {
    has_kind(kinds, ColumnKind::SetReturning) && !has_kind(kinds, ColumnKind::KeptSet)
}

/// What is computed below a sort, where something can wait until after it:
/// columns that return sets, volatile ones, and expensive ones where not all
/// rows may be wanted. What they are computed from is computed below the sort.
pub open spec fn sort_input_target(
    exprs: List<Expr>,
    refs: List<u32>,
    facts: List<ColumnFacts>,
    has_srfs: bool,
    few_rows: bool,
) -> Option<(TargetColumns, bool)> {
    let kinds = column_kinds(facts, refs, has_srfs);
    let postpone_srfs = can_postpone_srfs(kinds);
    if !(postpone_srfs || has_kind(kinds, ColumnKind::Volatile) || (has_kind(
        kinds,
        ColumnKind::Expensive,
    ) && few_rows)) {
        None
    } else {
        let kept = kept_columns(exprs, refs, kinds, postpone_srfs);
        let sources = crate::expr::list_leaves(postponed_columns(exprs, kinds, postpone_srfs));
        Some(
            (
                TargetColumns {
                    exprs: crate::quals::concat_unique(kept.exprs, sources),
                    refs: kept.refs,
                },
                postpone_srfs,
            ),
        )
    }
}

/// Finds what is computed below a sort; nothing where no column can wait. Also
/// tells whether columns that return sets wait. `few_rows` says that not all
/// rows may be wanted.
pub fn make_sort_input_target(
    exprs: &List<Expr>,
    refs: &List<u32>,
    facts: &List<ColumnFacts>,
    has_srfs: bool,
    few_rows: bool,
) -> (r: Option<(TargetColumns, bool)>)
    ensures
        r == sort_input_target(*exprs, *refs, *facts, has_srfs, few_rows),
{
    let kinds = classify_columns(facts, refs, has_srfs);
    let postpone_srfs = find_kind(&kinds, ColumnKind::SetReturning) && !find_kind(
        &kinds,
        ColumnKind::KeptSet,
    );
    let waits = postpone_srfs || find_kind(&kinds, ColumnKind::Volatile) || (find_kind(
        &kinds,
        ColumnKind::Expensive,
    ) && few_rows);
    if !waits {
        return None;
    }
    let (kept, postponed) = split_postponed(exprs, refs, &kinds, postpone_srfs);
    let sources = pull_vars(&postponed);
    Some(
        (
            TargetColumns {
                exprs: list_concat_unique(kept.exprs, &sources),
                refs: kept.refs,
            },
            postpone_srfs,
        ),
    )
}

/// The labels, those that are not 0.
pub open spec fn real_labels(refs: List<u32>) -> Seq<u32>
    decreases refs,
{
    match refs {
        List::Nil => Seq::empty(),
        List::Cons(r, rs) => if r == 0 {
            real_labels(*rs)
        } else {
            seq![r] + real_labels(*rs)
        },
    }
}

/// The labels of the first columns.
pub open spec fn labels_of(exprs: List<Expr>, refs: List<u32>) -> Seq<u32>
    decreases exprs,
{
    match exprs {
        List::Nil => Seq::empty(),
        List::Cons(_, xs) => {
            let (r, rest) = split_refs(refs);
            if r == 0 {
                labels_of(*xs, rest)
            } else {
                seq![r] + labels_of(*xs, rest)
            }
        },
    }
}

/// No column that is sorted or grouped by waits until after the sort: all
/// labels are still there below it, in their order.
pub proof fn lemma_labels_kept(
    exprs: List<Expr>,
    refs: List<u32>,
    facts: List<ColumnFacts>,
    has_srfs: bool,
    postpone_srfs: bool,
)
    requires
        exprs@.len() == facts@.len(),
    ensures
        real_labels(
            kept_columns(exprs, refs, column_kinds(facts, refs, has_srfs), postpone_srfs).refs,
        ) =~= labels_of(exprs, refs),
    decreases exprs,
{
    if let List::Cons(x, xs) = exprs {
        if let List::Cons(f, fs) = facts {
            lemma_labels_kept(*xs, split_refs(refs).1, *fs, has_srfs, postpone_srfs);
        }
    }
}

/// The columns of a set operation with the labels of the query.
pub open spec fn setop_tlist(new: List<TargetEntry>, orig: List<TargetEntry>) -> Result<
    List<TargetEntry>,
    PlannerError,
>
    decreases new,
{
    match new {
        List::Nil => if orig is Nil {
            Ok(List::Nil)
        } else {
            Err(PlannerError::JunkColumnInSetOperation)
        },
        List::Cons(n, ns) => match orig {
            List::Nil => Err(PlannerError::TargetListLengthMismatch),
            List::Cons(o, os) => if o.resjunk {
                Err(PlannerError::JunkColumnInSetOperation)
            } else {
                match setop_tlist(*ns, *os) {
                    Err(e) => Err(e),
                    Ok(rest) => Ok(
                        List::Cons(
                            TargetEntry { ressortgroupref: o.ressortgroupref, ..n },
                            Box::new(rest),
                        ),
                    ),
                }
            },
        },
    }
}

/// Puts the labels of the query on the columns of a set operation.
pub fn postprocess_setop_tlist(new: List<TargetEntry>, orig: &List<TargetEntry>) -> (r: Result<
    List<TargetEntry>,
    PlannerError,
>)
    ensures
        r == setop_tlist(new, *orig),
    decreases new,
{
    match new {
        List::Nil => if orig.is_nil() {
            Ok(List::Nil)
        } else {
            Err(PlannerError::JunkColumnInSetOperation)
        },
        List::Cons(n, ns) => match orig {
            List::Nil => Err(PlannerError::TargetListLengthMismatch),
            List::Cons(o, os) => {
                if o.resjunk {
                    return Err(PlannerError::JunkColumnInSetOperation);
                }
                let mut n = n;
                n.ressortgroupref = o.ressortgroupref;
                match postprocess_setop_tlist(*ns, os) {
                    Err(e) => Err(e),
                    Ok(rest) => Ok(List::Cons(n, Box::new(rest))),
                }
            },
        },
    }
}

/// Whatever the columns above a grouping are computed from is computed below
/// it: every source of a column that is not grouped by, and of HAVING, is among
/// what the input computes, and so is every column that is grouped by.
pub proof fn lemma_group_input_complete(
    exprs: List<Expr>,
    refs: List<u32>,
    clauses: List<SortGroupClause>,
    having: List<Expr>,
    strip: Option<u32>,
    x: Expr,
)
    ensures
        strip_if(group_part(exprs, refs, clauses).exprs, strip)@.contains(x)
            ==> crate::expr::has_same(
            group_input(exprs, refs, clauses, having, strip).exprs,
            x,
        ),
        strip_if(
            pulled_list(other_part(exprs, refs, clauses).then_list(having), false, false),
            strip,
        )@.contains(x) ==> crate::expr::has_same(
            group_input(exprs, refs, clauses, having, strip).exprs,
            x,
        ),
{
    let kept = strip_if(group_part(exprs, refs, clauses).exprs, strip);
    let sources = strip_if(
        pulled_list(other_part(exprs, refs, clauses).then_list(having), false, false),
        strip,
    );
    lemma_contains_same(kept, x);
    crate::quals::lemma_concat_unique(kept, sources, x);
}

proof fn lemma_contains_same(l: List<Expr>, x: Expr)
    ensures
        l@.contains(x) ==> crate::expr::has_same(l, x),
    decreases l,
{
    match l {
        List::Nil => {
            assert(l@.len() == 0);
        },
        List::Cons(y, ys) => {
            crate::list::lemma_cons_contains(y, *ys, x);
            crate::expr::lemma_same_reflexive(x);
            lemma_contains_same(*ys, x);
        },
    }
}

/// A partial grouping computes transition states only: none of its columns is
/// an aggregate that is computed in full.
pub proof fn lemma_partial_states(l: List<Expr>, i: int)
    ensures
        initial_columns(l) matches Ok(r) ==> {
            &&& r@.len() == l@.len()
            &&& 0 <= i < r@.len() ==> match r@[i] {
                Expr::Call { head: Head::Aggref { func, typid, transtype, collation, split }, args }
                => split == AggSplit::InitialSerial && typid != INTERNALOID && transtype != 0,
                _ => true,
            }
        },
    decreases l,
{
    match l {
        List::Nil => {},
        List::Cons(x, xs) => {
            lemma_partial_states(*xs, i - 1);
            if let Ok(r) = initial_columns(l) {
                if let Ok(rest) = initial_columns(*xs) {
                    if 0 < i < r@.len() {
                        assert(r@[i] == rest@[i - 1]);
                    }
                    if i == 0 {
                        assert(r@[0] == match x {
                            Expr::Call { head, args } => Expr::Call {
                                head: initial_aggref(head)->Ok_0,
                                args,
                            },
                            _ => x,
                        });
                    }
                }
            }
        },
    }
}

} // verus!

//! What the plans of scans are made of.
use vstd::prelude::*;
use crate::error::PlannerError;
use crate::expr::{list_member, Expr, PathTarget, TargetEntry};
use crate::list::List;
use crate::path::{IndexClause, ParamInfo};
use crate::quals::{is_redundant_derived_clause, Rinfo};
use crate::relids::{relids_union, Relids};
use crate::tlist::{
    apply_pathtarget_labeling_to_tlist, build_physical_tlist, use_physical_tlist, PhysicalColumn,
    PlaceHolderInfo, ScanRel, TlistFlags,
};

verus! {

/// The columns of the relation that an expression reads; nothing where it
/// reads a whole row or a system column.
pub open spec fn columns_read(e: Expr, relid: i32) -> Option<Relids>
    decreases e,
{
    match e {
        Expr::Var(v) => if v.varno == relid && v.levelsup == 0 {
            if v.attno <= 0 {
                None
            } else {
                Some(List::Cons(v.attno as u32, Box::new(List::Nil)))
            }
        } else {
            Some(List::Nil)
        },
        Expr::PlaceHolder { phid, levelsup, nullingrels, eval_at, expr } => columns_read(
            *expr,
            relid,
        ),
        Expr::Relabel { typid, collation, arg } => columns_read(*arg, relid),
        Expr::Call { head, args } => list_columns_read(*args, relid),
        _ => Some(List::Nil),
    }
}

/// The columns of the relation that the expressions of a list read.
pub open spec fn list_columns_read(l: List<Expr>, relid: i32) -> Option<Relids>
    decreases l,
{
    match l {
        List::Nil => Some(List::Nil),
        List::Cons(x, xs) => match (columns_read(x, relid), list_columns_read(*xs, relid)) {
            (Some(a), Some(b)) => Some(crate::relids::union_list(a, b)),
            _ => None,
        },
    }
}

fn read_columns(e: &Expr, relid: i32) -> (r: Option<Relids>)
    ensures
        r == columns_read(*e, relid),
    decreases e,
{
    match e {
        Expr::Var(v) => if v.varno == relid && v.levelsup == 0 {
            if v.attno <= 0 {
                None
            } else {
                Some(List::Cons(v.attno as u32, Box::new(List::Nil)))
            }
        } else {
            Some(List::Nil)
        },
        Expr::PlaceHolder { expr, .. } => read_columns(expr, relid),
        Expr::Relabel { arg, .. } => read_columns(arg, relid),
        Expr::Call { args, .. } => read_columns_list(args, relid),
        _ => Some(List::Nil),
    }
}

fn read_columns_list(l: &List<Expr>, relid: i32) -> (r: Option<Relids>)
    ensures
        r == list_columns_read(*l, relid),
    decreases l,
{
    match l {
        List::Nil => Some(List::Nil),
        List::Cons(x, xs) => {
            let first = read_columns(x, relid);
            let rest = read_columns_list(xs, relid);
            match first {
                Some(a) => match rest {
                    Some(b) => Some(relids_union(&a, &b)),
                    None => None,
                },
                None => None,
            }
        },
    }
}

/// The columns that a scan has to deliver.
pub open spec fn consumed_columns(
    exprs: List<Expr>,
    quals: List<Expr>,
    relid: i32,
) -> Option<Relids> {
    match (list_columns_read(exprs, relid), list_columns_read(quals, relid)) {
        (Some(a), Some(b)) => Some(crate::relids::union_list(a, b)),
        _ => None,
    }
}

/// The columns that a scan has to deliver: those that its path computes with
/// and those of its clauses. Nothing where a whole row or a system column is
/// read.
pub fn seqscan_consumed_cols(exprs: &List<Expr>, quals: &List<Expr>, relid: i32) -> (r: Option<
    Relids,
>)
    ensures
        r == consumed_columns(*exprs, *quals, relid),
{
    let first = read_columns_list(exprs, relid);
    let rest = read_columns_list(quals, relid);
    match first {
        Some(a) => match rest {
            Some(b) => Some(relids_union(&a, &b)),
            None => None,
        },
        None => None,
    }
}

/// The column occurs in the expression.
pub open spec fn reads_column(e: Expr, relid: i32, attno: i16) -> bool
    decreases e,
{
    match e {
        Expr::Var(v) => v.varno == relid && v.levelsup == 0 && v.attno == attno,
        Expr::PlaceHolder { phid, levelsup, nullingrels, eval_at, expr } => reads_column(
            *expr,
            relid,
            attno,
        ),
        Expr::Relabel { typid, collation, arg } => reads_column(*arg, relid, attno),
        Expr::Call { head, args } => list_reads_column(*args, relid, attno),
        _ => false,
    }
}

/// The column occurs in an expression of the list.
pub open spec fn list_reads_column(l: List<Expr>, relid: i32, attno: i16) -> bool
    decreases l,
{
    match l {
        List::Nil => false,
        List::Cons(x, xs) => reads_column(x, relid, attno) || list_reads_column(*xs, relid, attno),
    }
}

/// A column is delivered exactly where it occurs.
pub proof fn lemma_columns_read(e: Expr, relid: i32, attno: i16)
    requires
        attno > 0,
    ensures
        columns_read(e, relid) matches Some(cols) ==> (crate::relids::ids(cols).contains(
            attno as u32,
        ) <==> reads_column(e, relid, attno)),
        attno > 0 && columns_read(e, relid) is None ==> exists|a: i16|
            a <= 0 && #[trigger] reads_column(e, relid, a),
    decreases e,
{
    match e {
        Expr::Var(v) => {
            if v.varno == relid && v.levelsup == 0 {
                if v.attno <= 0 {
                    assert(reads_column(e, relid, v.attno));
                } else {
                    let none: Relids = List::Nil;
                    crate::list::lemma_cons_contains(v.attno as u32, none, attno as u32);
                    assert(none@.len() == 0);
                }
            } else {
                let none: Relids = List::Nil;
                assert(none@.len() == 0);
            }
        },
        Expr::PlaceHolder { phid, levelsup, nullingrels, eval_at, expr } => {
            lemma_columns_read(*expr, relid, attno);
            if columns_read(e, relid) is None {
                let a = choose|a: i16| a <= 0 && #[trigger] reads_column(*expr, relid, a);
                assert(reads_column(e, relid, a));
            }
        },
        Expr::Relabel { typid, collation, arg } => {
            lemma_columns_read(*arg, relid, attno);
            if columns_read(e, relid) is None {
                let a = choose|a: i16| a <= 0 && #[trigger] reads_column(*arg, relid, a);
                assert(reads_column(e, relid, a));
            }
        },
        Expr::Call { head, args } => {
            lemma_list_columns_read(*args, relid, attno);
            if columns_read(e, relid) is None {
                let a = choose|a: i16| a <= 0 && #[trigger] list_reads_column(*args, relid, a);
                assert(reads_column(e, relid, a));
            }
        },
        _ => {
            let none: Relids = List::Nil;
            assert(none@.len() == 0);
        },
    }
}

/// The same for the expressions of a list.
pub proof fn lemma_list_columns_read(l: List<Expr>, relid: i32, attno: i16)
    requires
        attno > 0,
    ensures
        list_columns_read(l, relid) matches Some(cols) ==> (crate::relids::ids(cols).contains(
            attno as u32,
        ) <==> list_reads_column(l, relid, attno)),
        list_columns_read(l, relid) is None ==> exists|a: i16|
            a <= 0 && #[trigger] list_reads_column(l, relid, a),
    decreases l,
{
    match l {
        List::Nil => {
            let none: Relids = List::Nil;
            assert(none@.len() == 0);
        },
        List::Cons(x, xs) => {
            lemma_columns_read(x, relid, attno);
            lemma_list_columns_read(*xs, relid, attno);
            match (columns_read(x, relid), list_columns_read(*xs, relid)) {
                (Some(a), Some(b)) => {
                    crate::relids::lemma_union_list(a, b);
                },
                (None, _) => {
                    let a = choose|a: i16| a <= 0 && #[trigger] reads_column(x, relid, a);
                    assert(list_reads_column(l, relid, a));
                },
                (_, None) => {
                    let a = choose|a: i16| a <= 0 && #[trigger] list_reads_column(*xs, relid, a);
                    assert(list_reads_column(l, relid, a));
                },
            }
        },
    }
}

/// The clause is among those of the list.
pub open spec fn has_rinfo(l: List<Rinfo>, id: u32) -> bool
    decreases l,
{
    match l {
        List::Nil => false,
        List::Cons(x, xs) => x.id == id || has_rinfo(*xs, id),
    }
}

/// Is the clause among those of the list?
pub fn contains_rinfo(l: &List<Rinfo>, id: u32) -> (r: bool)
    ensures
        r == has_rinfo(*l, id),
    decreases l,
{
    match l {
        List::Nil => false,
        List::Cons(x, xs) => x.id == id || contains_rinfo(xs, id),
    }
}

/// The clauses and then those of `more` that are not there yet.
pub open spec fn with_clauses(base: List<Rinfo>, more: List<Rinfo>) -> List<Rinfo>
    decreases more,
{
    match more {
        List::Nil => base,
        List::Cons(x, xs) => if has_rinfo(base, x.id) {
            with_clauses(base, *xs)
        } else {
            with_clauses(base.then_list(List::Cons(x, Box::new(List::Nil))), *xs)
        },
    }
}

fn add_clauses(base: List<Rinfo>, more: &List<Rinfo>) -> (r: List<Rinfo>)
    ensures
        r == with_clauses(base, *more),
    decreases more,
{
    match more {
        List::Nil => base,
        List::Cons(x, xs) => if contains_rinfo(&base, x.id) {
            add_clauses(base, xs)
        } else {
            add_clauses(base.append(List::one(x.copy())), xs)
        },
    }
}

/// What a scan evaluates: its restriction clauses, and the join clauses that
/// its parameters let it evaluate.
pub open spec fn scan_clauses(base: List<Rinfo>, param: Option<ParamInfo>) -> List<Rinfo> {
    match param {
        Some(p) => with_clauses(base, p.clauses),
        None => base,
    }
}

/// Collects what a scan evaluates.
pub fn collect_scan_clauses(base: List<Rinfo>, param: &Option<ParamInfo>) -> (r: List<Rinfo>)
    ensures
        r == scan_clauses(base, *param),
{
    match param {
        Some(p) => add_clauses(base, &p.clauses),
        None => base,
    }
}

/// What is known of a relation when a plan for its scan is made.
#[derive(Debug)]
pub struct PlanRel {
    pub scan: ScanRel,
    pub relid: u32,
    pub columns: List<PhysicalColumn>,
}

/// Every label of the target is on a column that the list holds.
fn labels_found(tlist: &List<TargetEntry>, exprs: &List<Expr>, refs: &List<u32>) -> (r: bool)
    ensures
        r == crate::tlist::labels_match(*tlist, *exprs, *refs),
    decreases refs,
{
    match exprs {
        List::Nil => true,
        List::Cons(e, es) => match refs {
            List::Nil => true,
            List::Cons(x, rs) => {
                let here = if *x == 0 {
                    true
                } else {
                    match e {
                        Expr::Var(v) => holds_column(tlist, v.varno, v.attno),
                        _ => false,
                    }
                };
                here && labels_found(tlist, es, rs)
            },
        },
    }
}

fn holds_column(tlist: &List<TargetEntry>, varno: i32, attno: i16) -> (r: bool)
    ensures
        r == crate::tlist::has_var_entry(*tlist, varno, attno),
    decreases tlist,
{
    match tlist {
        List::Nil => false,
        List::Cons(t, more) => {
            let here = match &t.expr {
                Expr::Var(v) => v.varno == varno && v.attno == attno,
                _ => false,
            };
            here || holds_column(more, varno, attno)
        },
    }
}

/// The list with sort labels, where they are asked for.
pub open spec fn labelled_physical(
    physical: List<TargetEntry>,
    target: PathTarget,
    label: bool,
) -> Result<List<TargetEntry>, PlannerError> {
    if !label {
        Ok(physical)
    } else if crate::tlist::labels_match(physical, target.exprs, target.sortgrouprefs) {
        Ok(crate::tlist::with_target_labels(physical, target.exprs, target.sortgrouprefs))
    } else {
        Err(PlannerError::LabelNotFound)
    }
}

/// Puts the sort labels of a path target onto a list of stored columns, where
/// they are asked for.
pub fn label_physical(
    physical: List<TargetEntry>,
    target: &PathTarget,
    label: bool,
) -> (r: Result<List<TargetEntry>, PlannerError>)
    ensures
        r == labelled_physical(physical, *target, label),
{
    if !label {
        return Ok(physical);
    }
    if labels_found(&physical, &target.exprs, &target.sortgrouprefs) {
        Ok(apply_pathtarget_labeling_to_tlist(physical, target))
    } else {
        Err(PlannerError::LabelNotFound)
    }
}

/// The target list of a scan. `index_columns` is that of the index, for an
/// index-only scan.
pub open spec fn scan_tlist(
    flags: TlistFlags,
    rel: PlanRel,
    placeholders: List<PlaceHolderInfo>,
    index_columns: Option<(List<TargetEntry>, bool)>,
    empty_bitmap_target: bool,
    target: PathTarget,
    parameterized: bool,
    outer: Relids,
) -> Result<List<TargetEntry>, PlannerError> {
    let own = crate::expr::path_tlist(
        target.exprs,
        target.sortgrouprefs,
        1,
        parameterized,
        outer,
    );
    let hidden = index_columns matches Some(c) && c.1;
    if flags.ignore && !flags.exact && !flags.small && !flags.label {
        Ok(List::Nil)
    } else if crate::tlist::physical_tlist_usable(
        flags,
        rel.scan,
        placeholders,
        empty_bitmap_target,
        hidden,
        target,
    ) {
        let physical = match index_columns {
            Some(c) => c.0,
            None => if crate::tlist::all_usable(rel.columns@) {
                crate::tlist::column_entries(rel.columns)
            } else {
                List::Nil
            },
        };
        if physical is Nil {
            Ok(own)
        } else {
            labelled_physical(physical, target, flags.label)
        }
    } else {
        Ok(own)
    }
}

/// Chooses the target list of a scan: nothing where the caller replaces it,
/// the columns as they are stored where that will do, else what the path
/// computes.
pub fn choose_scan_tlist(
    flags: TlistFlags,
    rel: &PlanRel,
    placeholders: &List<PlaceHolderInfo>,
    index_columns: Option<(List<TargetEntry>, bool)>,
    empty_bitmap_target: bool,
    target: &PathTarget,
    parameterized: bool,
    outer: &Relids,
) -> (r: Result<List<TargetEntry>, PlannerError>)
    ensures
        r == scan_tlist(
            flags,
            *rel,
            *placeholders,
            index_columns,
            empty_bitmap_target,
            *target,
            parameterized,
            *outer,
        ),
{
    if flags.ignore && !flags.exact && !flags.small && !flags.label {
        return Ok(List::Nil);
    }
    let hidden = match &index_columns {
        Some(c) => c.1,
        None => false,
    };
    if use_physical_tlist(flags, &rel.scan, placeholders, empty_bitmap_target, hidden, target) {
        let physical = match index_columns {
            Some(c) => c.0,
            None => build_physical_tlist(&rel.columns),
        };
        if !physical.is_nil() {
            return label_physical(physical, target, flags.label);
        }
    }
    Ok(crate::expr::build_path_tlist(target, parameterized, outer))
}

/// Which of the scan clauses are left to evaluate on the rows that a scan by
/// row pointers finds: with a single such clause, those that it does not
/// cover.
pub open spec fn tid_rest(clauses: List<Rinfo>, tidquals: List<Rinfo>) -> List<Rinfo>
    decreases clauses,
{
    match clauses {
        List::Nil => List::Nil,
        List::Cons(x, xs) => if x.pseudoconstant || has_rinfo(tidquals, x.id)
            || crate::quals::derived_like(x, tidquals@) {
            tid_rest(*xs, tidquals)
        } else {
            List::Cons(x, Box::new(tid_rest(*xs, tidquals)))
        },
    }
}

/// Selects the scan clauses that a single row pointer clause does not cover.
pub fn rest_after_tid(clauses: &List<Rinfo>, tidquals: &List<Rinfo>) -> (r: List<Rinfo>)
    ensures
        r == tid_rest(*clauses, *tidquals),
    decreases clauses,
{
    match clauses {
        List::Nil => List::Nil,
        List::Cons(x, xs) => {
            let rest = rest_after_tid(xs, tidquals);
            if x.pseudoconstant || contains_rinfo(tidquals, x.id) || is_redundant_derived_clause(
                x,
                tidquals,
            ) {
                rest
            } else {
                List::Cons(x.copy(), Box::new(rest))
            }
        },
    }
}

/// The scan clauses that ranges of row pointers do not cover.
pub open spec fn tidrange_rest(clauses: List<Rinfo>, quals: List<Rinfo>) -> List<Rinfo>
    decreases clauses,
{
    match clauses {
        List::Nil => List::Nil,
        List::Cons(x, xs) => if x.pseudoconstant || has_rinfo(quals, x.id) {
            tidrange_rest(*xs, quals)
        } else {
            List::Cons(x, Box::new(tidrange_rest(*xs, quals)))
        },
    }
}

/// Selects the scan clauses that ranges of row pointers do not cover.
pub fn rest_after_tidrange(clauses: &List<Rinfo>, quals: &List<Rinfo>) -> (r: List<Rinfo>)
    ensures
        r == tidrange_rest(*clauses, *quals),
    decreases clauses,
{
    match clauses {
        List::Nil => List::Nil,
        List::Cons(x, xs) => {
            let rest = rest_after_tidrange(xs, quals);
            if x.pseudoconstant || contains_rinfo(quals, x.id) {
                rest
            } else {
                List::Cons(x.copy(), Box::new(rest))
            }
        },
    }
}

/// Some exact index clause is the clause, or comes from the same equivalence
/// class.
pub open spec fn index_covers(clauses: List<IndexClause>, x: Rinfo) -> bool
    decreases clauses,
{
    match clauses {
        List::Nil => false,
        List::Cons(c, cs) => (!c.lossy && (c.rinfo.id == x.id || (c.rinfo.parent_ec is Some
            && c.rinfo.parent_ec == x.parent_ec))) || index_covers(*cs, x),
    }
}

fn covered_by_index(clauses: &List<IndexClause>, x: &Rinfo) -> (r: bool)
    ensures
        r == index_covers(*clauses, *x),
    decreases clauses,
{
    match clauses {
        List::Nil => false,
        List::Cons(c, cs) => {
            let same_class = match (c.rinfo.parent_ec, x.parent_ec) {
                (Some(a), Some(b)) => a == b,
                _ => false,
            };
            (!c.lossy && (c.rinfo.id == x.id || same_class)) || covered_by_index(cs, x)
        },
    }
}

/// The scan clauses that an index scan leaves to be evaluated: those that are
/// neither index clauses nor implied by them.
pub open spec fn index_rest(
    clauses: List<Rinfo>,
    indexclauses: List<IndexClause>,
    implied: List<u32>,
) -> List<Rinfo>
    decreases clauses,
{
    match clauses {
        List::Nil => List::Nil,
        List::Cons(x, xs) => if x.pseudoconstant || index_covers(indexclauses, x)
            || implied@.contains(x.id) {
            index_rest(*xs, indexclauses, implied)
        } else {
            List::Cons(x, Box::new(index_rest(*xs, indexclauses, implied)))
        },
    }
}

/// Selects the scan clauses that an index scan leaves to be evaluated.
pub fn rest_after_index(
    clauses: &List<Rinfo>,
    indexclauses: &List<IndexClause>,
    implied: &List<u32>,
) -> (r: List<Rinfo>)
    ensures
        r == index_rest(*clauses, *indexclauses, *implied),
    decreases clauses,
{
    match clauses {
        List::Nil => List::Nil,
        List::Cons(x, xs) => {
            let rest = rest_after_index(xs, indexclauses, implied);
            if x.pseudoconstant || covered_by_index(indexclauses, x) || crate::list::list_has(
                implied,
                x.id,
            ) {
                rest
            } else {
                List::Cons(x.copy(), Box::new(rest))
            }
        },
    }
}

/// The scan clauses that a bitmap scan leaves to be evaluated.
pub open spec fn bitmap_rest(
    clauses: List<Rinfo>,
    indexquals: List<Expr>,
    implied: List<u32>,
) -> List<Rinfo>
    decreases clauses,
{
    match clauses {
        List::Nil => List::Nil,
        List::Cons(x, xs) => if x.pseudoconstant || crate::expr::has_same(indexquals, x.clause)
            || implied@.contains(x.id) {
            bitmap_rest(*xs, indexquals, implied)
        } else {
            List::Cons(x, Box::new(bitmap_rest(*xs, indexquals, implied)))
        },
    }
}

/// Selects the scan clauses that a bitmap scan leaves to be evaluated.
pub fn rest_after_bitmap(
    clauses: &List<Rinfo>,
    indexquals: &List<Expr>,
    implied: &List<u32>,
) -> (r: List<Rinfo>)
    ensures
        r == bitmap_rest(*clauses, *indexquals, *implied),
    decreases clauses,
{
    match clauses {
        List::Nil => List::Nil,
        List::Cons(x, xs) => {
            let rest = rest_after_bitmap(xs, indexquals, implied);
            if x.pseudoconstant || list_member(indexquals, &x.clause) || crate::list::list_has(
                implied,
                x.id,
            ) {
                rest
            } else {
                List::Cons(x.copy(), Box::new(rest))
            }
        },
    }
}

} // verus!

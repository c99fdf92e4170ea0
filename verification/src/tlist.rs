//! Operations on target lists.
use vstd::prelude::*;
use crate::expr::{equal, Expr, PathTarget, TargetEntry};
use crate::list::List;
use crate::rel::{RelOptKind, RteKind};
use crate::relids::{relids_is_empty, relids_is_subset, Relids};

verus! {

/// What a caller asks of the target list of a subplan.
#[derive(Clone, Copy, Debug, PartialEq, Eq, Structural)]
pub struct TlistFlags {
    /// The list must hold exactly what the path computes.
    pub exact: bool,
    /// The list should be no wider than needed.
    pub small: bool,
    /// Sort and group columns must be labelled.
    pub label: bool,
    /// The list will be replaced.
    pub ignore: bool,
}

/// Nothing is asked.
pub open spec fn no_flags() -> TlistFlags {
    TlistFlags { exact: false, small: false, label: false, ignore: false }
}

/// The entry with the decoration of `src`.
pub open spec fn labelled_entry(dest: TargetEntry, src: TargetEntry) -> TargetEntry {
    TargetEntry {
        resname: src.resname,
        ressortgroupref: src.ressortgroupref,
        resorigtbl: src.resorigtbl,
        resorigcol: src.resorigcol,
        resjunk: src.resjunk,
        ..dest
    }
}

/// The entries with the decoration of those of `src`, one for one.
pub open spec fn labelled_tlist(
    dest: List<TargetEntry>,
    src: List<TargetEntry>,
) -> List<TargetEntry>
    decreases dest,
{
    match (dest, src) {
        (List::Cons(d, ds), List::Cons(s, ss)) => List::Cons(
            labelled_entry(d, s),
            Box::new(labelled_tlist(*ds, *ss)),
        ),
        _ => List::Nil,
    }
}

/// Copies names, labels and origins from the target list of the query onto
/// that of the plan.
pub fn apply_tlist_labeling(
    dest: List<TargetEntry>,
    src: &List<TargetEntry>,
) -> (r: List<TargetEntry>)
    requires
        dest@.len() == src@.len(),
    ensures
        r == labelled_tlist(dest, *src),
        r@.len() == dest@.len(),
    decreases dest,
{
    match dest {
        List::Nil => List::Nil,
        List::Cons(d, ds) => match src {
            List::Nil => {
                proof {
                    assert(dest@.len() == 1 + ds@.len());
                }
                List::Nil
            },
            List::Cons(s, ss) => {
                let entry = TargetEntry {
                    expr: d.expr,
                    resno: d.resno,
                    resname: s.resname,
                    ressortgroupref: s.ressortgroupref,
                    resorigtbl: s.resorigtbl,
                    resorigcol: s.resorigcol,
                    resjunk: s.resjunk,
                };
                List::Cons(entry, Box::new(apply_tlist_labeling(*ds, ss)))
            },
        },
    }
}

/// Labelling changes neither what a column computes nor its number.
pub proof fn lemma_labelling_keeps_columns(dest: List<TargetEntry>, src: List<TargetEntry>, i: int)
    requires
        dest@.len() == src@.len(),
        0 <= i < dest@.len(),
    ensures
        labelled_tlist(dest, src)@.len() == dest@.len(),
        labelled_tlist(dest, src)@[i] == labelled_entry(dest@[i], src@[i]),
    decreases dest,
{
    if let (List::Cons(d, ds), List::Cons(s, ss)) = (dest, src) {
        let tail = labelled_tlist(*ds, *ss);
        if i > 0 {
            lemma_labelling_keeps_columns(*ds, *ss, i - 1);
            assert(labelled_tlist(dest, src)@[i] == tail@[i - 1]);
        } else {
            lemma_labelled_len(*ds, *ss);
        }
    }
}

proof fn lemma_labelled_len(dest: List<TargetEntry>, src: List<TargetEntry>)
    requires
        dest@.len() == src@.len(),
    ensures
        labelled_tlist(dest, src)@.len() == dest@.len(),
    decreases dest,
{
    if let (List::Cons(d, ds), List::Cons(s, ss)) = (dest, src) {
        lemma_labelled_len(*ds, *ss);
    }
}

/// The two lists compute the same expressions in the same order.
pub open spec fn same_columns(a: Seq<TargetEntry>, b: Seq<TargetEntry>) -> bool {
    &&& a.len() == b.len()
    &&& forall|i: int| 0 <= i < a.len() ==> crate::expr::same_expr((#[trigger] a[i]).expr, b[i].expr)
}

/// Do the two lists compute the same expressions in the same order?
pub fn tlist_same_exprs(a: &List<TargetEntry>, b: &List<TargetEntry>) -> (r: bool)
    ensures
        r == same_columns(a@, b@),
    decreases a,
{
    match a {
        List::Nil => b.is_nil(),
        List::Cons(x, xs) => match b {
            List::Nil => false,
            List::Cons(y, ys) => {
                let r = equal(&x.expr, &y.expr) && tlist_same_exprs(xs, ys);
                proof {
                    assert(a@[0] == x && b@[0] == y);
                    assert(a@.drop_first() =~= xs@);
                    assert(b@.drop_first() =~= ys@);
                    if same_columns(a@, b@) {
                        assert(crate::expr::same_expr(a@[0].expr, b@[0].expr));
                        assert forall|i: int| 0 <= i < xs@.len() implies crate::expr::same_expr(
                            (#[trigger] xs@[i]).expr,
                            ys@[i].expr,
                        ) by {
                            assert(a@[i + 1] == xs@[i]);
                            assert(b@[i + 1] == ys@[i]);
                        }
                    }
                    if r {
                        assert forall|i: int| 0 <= i < a@.len() implies crate::expr::same_expr(
                            (#[trigger] a@[i]).expr,
                            b@[i].expr,
                        ) by {
                            if i > 0 {
                                assert(a@[i] == xs@[i - 1]);
                                assert(b@[i] == ys@[i - 1]);
                            }
                        }
                    }
                }
                r
            },
        },
    }
}

/// The first entry labelled with the reference.
pub open spec fn entry_for_ref(tlist: List<TargetEntry>, sgref: u32) -> Option<TargetEntry>
    decreases tlist,
{
    match tlist {
        List::Nil => None,
        List::Cons(t, more) => if t.ressortgroupref == sgref {
            Some(t)
        } else {
            entry_for_ref(*more, sgref)
        },
    }
}

/// Finds the first entry labelled with the reference.
pub fn sortgroupref_tle(sgref: u32, tlist: &List<TargetEntry>) -> (r: Option<&TargetEntry>)
    ensures
        match r {
            Some(t) => entry_for_ref(*tlist, sgref) == Some(*t),
            None => entry_for_ref(*tlist, sgref) is None,
        },
    decreases tlist,
{
    match tlist {
        List::Nil => None,
        List::Cons(t, more) => if t.ressortgroupref == sgref {
            Some(t)
        } else {
            sortgroupref_tle(sgref, more)
        },
    }
}

/// The first entry with the column number.
pub open spec fn entry_for_resno(tlist: List<TargetEntry>, resno: i16) -> Option<TargetEntry>
    decreases tlist,
{
    match tlist {
        List::Nil => None,
        List::Cons(t, more) => if t.resno == resno {
            Some(t)
        } else {
            entry_for_resno(*more, resno)
        },
    }
}

/// Finds the first entry with the column number.
pub fn resno_tle(resno: i16, tlist: &List<TargetEntry>) -> (r: Option<&TargetEntry>)
    ensures
        match r {
            Some(t) => entry_for_resno(*tlist, resno) == Some(*t),
            None => entry_for_resno(*tlist, resno) is None,
        },
    decreases tlist,
{
    match tlist {
        List::Nil => None,
        List::Cons(t, more) => if t.resno == resno {
            Some(t)
        } else {
            resno_tle(resno, more)
        },
    }
}

/// The first entry that computes the expression.
pub open spec fn entry_for_expr(tlist: List<TargetEntry>, expr: Expr) -> Option<TargetEntry>
    decreases tlist,
{
    match tlist {
        List::Nil => None,
        List::Cons(t, more) => if crate::expr::same_expr(t.expr, expr) {
            Some(t)
        } else {
            entry_for_expr(*more, expr)
        },
    }
}

/// Finds the first entry that computes the expression.
pub fn expr_tle<'a>(expr: &Expr, tlist: &'a List<TargetEntry>) -> (r: Option<&'a TargetEntry>)
    ensures
        match r {
            Some(t) => entry_for_expr(*tlist, *expr) == Some(*t),
            None => entry_for_expr(*tlist, *expr) is None,
        },
    decreases tlist,
{
    match tlist {
        List::Nil => None,
        List::Cons(t, more) => if equal(&t.expr, expr) {
            Some(t)
        } else {
            expr_tle(expr, more)
        },
    }
}

/// What is known of a relation when a target list for its scan is chosen.
#[derive(Debug)]
pub struct ScanRel {
    pub rtekind: RteKind,
    pub reloptkind: RelOptKind,
    pub relids: Relids,
    /// For whole-row and system columns: who needs them.
    pub special_attr_needed: List<Relids>,
}

/// The columns of such a relation can be listed.
pub open spec fn listable(rtekind: RteKind, reloptkind: RelOptKind) -> bool {
    &&& reloptkind == RelOptKind::BaseRel
    &&& (rtekind == RteKind::Relation || rtekind == RteKind::Subquery || rtekind
        == RteKind::Function || rtekind == RteKind::TableFunc || rtekind == RteKind::Values
        || rtekind == RteKind::Cte)
}

/// Where a placeholder is computed and where it is needed.
#[derive(Debug)]
pub struct PlaceHolderInfo {
    pub ph_eval_at: Relids,
    pub ph_needed: Relids,
}

/// Some of the sets is not empty.
pub open spec fn any_needed(needed: List<Relids>) -> bool
    decreases needed,
{
    match needed {
        List::Nil => false,
        List::Cons(r, more) => crate::relids::ids(r) != Set::<u32>::empty() || any_needed(*more),
    }
}

fn has_needed(needed: &List<Relids>) -> (r: bool)
    ensures
        r == any_needed(*needed),
    decreases needed,
{
    match needed {
        List::Nil => false,
        List::Cons(r, more) => !relids_is_empty(r) || has_needed(more),
    }
}

/// Some placeholder is computed at the relation for use elsewhere.
pub open spec fn computes_placeholder(infos: List<PlaceHolderInfo>, relids: Relids) -> bool
    decreases infos,
{
    match infos {
        List::Nil => false,
        List::Cons(ph, more) => {
            ||| !crate::relids::ids(ph.ph_needed).subset_of(crate::relids::ids(relids))
                && crate::relids::ids(ph.ph_eval_at).subset_of(crate::relids::ids(relids))
            ||| computes_placeholder(*more, relids)
        },
    }
}

fn has_placeholder(infos: &List<PlaceHolderInfo>, relids: &Relids) -> (r: bool)
    ensures
        r == computes_placeholder(*infos, *relids),
    decreases infos,
{
    match infos {
        List::Nil => false,
        List::Cons(ph, more) => (!relids_is_subset(&ph.ph_needed, relids) && relids_is_subset(
            &ph.ph_eval_at,
            relids,
        )) || has_placeholder(more, relids),
    }
}

/// Each labelled column is a plain variable, and no two are the same attribute
/// as each other or as one of `seen`.
pub open spec fn labels_are_distinct_vars(
    exprs: List<Expr>,
    refs: List<u32>,
    seen: Seq<i16>,
) -> bool
    decreases refs,
{
    match (exprs, refs) {
        (List::Cons(e, es), List::Cons(r, rs)) => if r == 0 {
            labels_are_distinct_vars(*es, *rs, seen)
        } else {
            match e {
                Expr::Var(v) => !seen.contains(v.attno) && labels_are_distinct_vars(
                    *es,
                    *rs,
                    seen.push(v.attno),
                ),
                _ => false,
            }
        },
        _ => true,
    }
}

fn has_attno(seen: &Vec<i16>, attno: i16) -> (r: bool)
    ensures
        r == seen@.contains(attno),
{
    let mut i: usize = 0;
    while i < seen.len()
        invariant
            i <= seen@.len(),
            forall|k: int| 0 <= k < i ==> seen@[k] != attno,
        decreases seen@.len() - i,
    {
        if seen[i] == attno {
            return true;
        }
        i = i + 1;
    }
    false
}

fn check_labels(exprs: &List<Expr>, refs: &List<u32>, seen: &mut Vec<i16>) -> (r: bool)
    ensures
        r == labels_are_distinct_vars(*exprs, *refs, old(seen)@),
    decreases refs,
{
    match exprs {
        List::Nil => true,
        List::Cons(e, es) => match refs {
            List::Nil => true,
            List::Cons(r, rs) => {
                if *r == 0 {
                    return check_labels(es, rs, seen);
                }
                match e {
                    Expr::Var(v) => {
                        if has_attno(seen, v.attno) {
                            return false;
                        }
                        seen.push(v.attno);
                        check_labels(es, rs, seen)
                    },
                    _ => false,
                }
            },
        },
    }
}

/// What decides whether a scan can return all columns of its relation as they
/// are stored.
pub open spec fn physical_tlist_usable(
    flags: TlistFlags,
    rel: ScanRel,
    placeholders: List<PlaceHolderInfo>,
    empty_bitmap_target: bool,
    hidden_index_column: bool,
    target: PathTarget,
) -> bool {
    &&& !flags.exact
    &&& !flags.small
    &&& listable(rel.rtekind, rel.reloptkind)
    &&& !empty_bitmap_target
    &&& !any_needed(rel.special_attr_needed)
    &&& !computes_placeholder(placeholders, rel.relids)
    &&& !hidden_index_column
    &&& flags.label ==> labels_are_distinct_vars(
        target.exprs,
        target.sortgrouprefs,
        Seq::empty(),
    )
}

/// Can the scan return all columns of its relation as they are stored? An
/// index-only scan cannot where the index hides a column, and a bitmap scan
/// that needs no column stays without one.
pub fn use_physical_tlist(
    flags: TlistFlags,
    rel: &ScanRel,
    placeholders: &List<PlaceHolderInfo>,
    empty_bitmap_target: bool,
    hidden_index_column: bool,
    target: &PathTarget,
) -> (r: bool)
    ensures
        r == physical_tlist_usable(
            flags,
            *rel,
            *placeholders,
            empty_bitmap_target,
            hidden_index_column,
            *target,
        ),
{
    if flags.exact || flags.small {
        return false;
    }
    if rel.reloptkind != RelOptKind::BaseRel || !(rel.rtekind == RteKind::Relation || rel.rtekind
        == RteKind::Subquery || rel.rtekind == RteKind::Function || rel.rtekind
        == RteKind::TableFunc || rel.rtekind == RteKind::Values || rel.rtekind == RteKind::Cte) {
        return false;
    }
    if empty_bitmap_target {
        return false;
    }
    if has_needed(&rel.special_attr_needed) {
        return false;
    }
    if has_placeholder(placeholders, &rel.relids) {
        return false;
    }
    if hidden_index_column {
        return false;
    }
    if flags.label {
        let mut seen: Vec<i16> = Vec::new();
        return check_labels(&target.exprs, &target.sortgrouprefs, &mut seen);
    }
    true
}

/// The expression is the column `attno` of the relation `varno`.
pub open spec fn is_column(e: Expr, varno: i32, attno: i16) -> bool {
    e matches Expr::Var(v) && v.varno == varno && v.attno == attno
}

/// Some entry is the column `attno` of the relation `varno`.
pub open spec fn has_var_entry(tlist: List<TargetEntry>, varno: i32, attno: i16) -> bool
    decreases tlist,
{
    match tlist {
        List::Nil => false,
        List::Cons(t, more) => is_column(t.expr, varno, attno) || has_var_entry(
            *more,
            varno,
            attno,
        ),
    }
}

/// The first entry that is that column gets the label.
pub open spec fn with_var_label(
    tlist: List<TargetEntry>,
    varno: i32,
    attno: i16,
    sgref: u32,
) -> List<TargetEntry>
    decreases tlist,
{
    match tlist {
        List::Nil => List::Nil,
        List::Cons(t, more) => if is_column(t.expr, varno, attno) {
            List::Cons(TargetEntry { ressortgroupref: sgref, ..t }, more)
        } else {
            List::Cons(t, Box::new(with_var_label(*more, varno, attno, sgref)))
        },
    }
}

/// Every labelled column of a path target is a variable that the list holds.
pub open spec fn labels_match(
    tlist: List<TargetEntry>,
    exprs: List<Expr>,
    refs: List<u32>,
) -> bool
    decreases refs,
{
    match (exprs, refs) {
        (List::Cons(e, es), List::Cons(r, rs)) => {
            &&& r != 0 ==> (e matches Expr::Var(v) && has_var_entry(tlist, v.varno, v.attno))
            &&& labels_match(tlist, *es, *rs)
        },
        _ => true,
    }
}

/// The list with the labels of a path target put onto the entries of the same
/// columns.
pub open spec fn with_target_labels(
    tlist: List<TargetEntry>,
    exprs: List<Expr>,
    refs: List<u32>,
) -> List<TargetEntry>
    decreases refs,
{
    match (exprs, refs) {
        (List::Cons(e, es), List::Cons(r, rs)) => match e {
            Expr::Var(v) => if r != 0 {
                with_target_labels(with_var_label(tlist, v.varno, v.attno, r), *es, *rs)
            } else {
                with_target_labels(tlist, *es, *rs)
            },
            _ => with_target_labels(tlist, *es, *rs),
        },
        _ => tlist,
    }
}

fn label_var(tlist: List<TargetEntry>, varno: i32, attno: i16, sgref: u32) -> (r: List<TargetEntry>)
    ensures
        r == with_var_label(tlist, varno, attno, sgref),
    decreases tlist,
{
    match tlist {
        List::Nil => List::Nil,
        List::Cons(t, more) => {
            let same = match &t.expr {
                Expr::Var(v) => v.varno == varno && v.attno == attno,
                _ => false,
            };
            if same {
                let entry = TargetEntry {
                    expr: t.expr,
                    resno: t.resno,
                    resname: t.resname,
                    ressortgroupref: sgref,
                    resorigtbl: t.resorigtbl,
                    resorigcol: t.resorigcol,
                    resjunk: t.resjunk,
                };
                List::Cons(entry, more)
            } else {
                List::Cons(t, Box::new(label_var(*more, varno, attno, sgref)))
            }
        },
    }
}

proof fn lemma_var_entry_kept(
    tlist: List<TargetEntry>,
    varno: i32,
    attno: i16,
    sgref: u32,
    v: i32,
    a: i16,
)
    ensures
        has_var_entry(with_var_label(tlist, varno, attno, sgref), v, a) == has_var_entry(
            tlist,
            v,
            a,
        ),
    decreases tlist,
{
    if let List::Cons(t, more) = tlist {
        lemma_var_entry_kept(*more, varno, attno, sgref, v, a);
    }
}

proof fn lemma_labels_match_kept(
    tlist: List<TargetEntry>,
    varno: i32,
    attno: i16,
    sgref: u32,
    exprs: List<Expr>,
    refs: List<u32>,
)
    requires
        labels_match(tlist, exprs, refs),
    ensures
        labels_match(with_var_label(tlist, varno, attno, sgref), exprs, refs),
    decreases refs,
{
    if let (List::Cons(e, es), List::Cons(r, rs)) = (exprs, refs) {
        lemma_labels_match_kept(tlist, varno, attno, sgref, *es, *rs);
        if let Expr::Var(v) = e {
            lemma_var_entry_kept(tlist, varno, attno, sgref, v.varno, v.attno);
        }
    }
}

fn label_columns(
    tlist: List<TargetEntry>,
    exprs: &List<Expr>,
    refs: &List<u32>,
) -> (r: List<TargetEntry>)
    requires
        labels_match(tlist, *exprs, *refs),
    ensures
        r == with_target_labels(tlist, *exprs, *refs),
    decreases refs,
{
    match exprs {
        List::Nil => tlist,
        List::Cons(e, es) => match refs {
            List::Nil => tlist,
            List::Cons(r, rs) => match e {
                Expr::Var(v) => {
                    if *r != 0 {
                        let ghost before = tlist;
                        let labelled = label_var(tlist, v.varno, v.attno, *r);
                        proof {
                            lemma_labels_match_kept(before, v.varno, v.attno, *r, **es, **rs);
                        }
                        label_columns(labelled, es, rs)
                    } else {
                        label_columns(tlist, es, rs)
                    }
                },
                _ => label_columns(tlist, es, rs),
            },
        },
    }
}

/// Puts the sort and group labels of a path target onto the entries of a list
/// of stored columns.
pub fn apply_pathtarget_labeling_to_tlist(
    tlist: List<TargetEntry>,
    target: &PathTarget,
) -> (r: List<TargetEntry>)
    requires
        labels_match(tlist, target.exprs, target.sortgrouprefs),
    ensures
        r == with_target_labels(tlist, target.exprs, target.sortgrouprefs),
{
    label_columns(tlist, &target.exprs, &target.sortgrouprefs)
}

/// A column of a relation as it is stored. One that was dropped, or whose
/// value is filled in on reading, cannot be returned as it is.
#[derive(Debug)]
pub struct PhysicalColumn {
    pub expr: Expr,
    pub attnum: i16,
    pub resjunk: bool,
    pub usable: bool,
}

/// Every column can be returned as it is stored.
pub open spec fn all_usable(columns: Seq<PhysicalColumn>) -> bool {
    forall|i: int| 0 <= i < columns.len() ==> (#[trigger] columns[i]).usable
}

/// One entry for each column.
pub open spec fn column_entries(columns: List<PhysicalColumn>) -> List<TargetEntry>
    decreases columns,
{
    match columns {
        List::Nil => List::Nil,
        List::Cons(c, more) => List::Cons(
            crate::expr::plain_entry(
                c.expr,
                c.attnum,
                0,
                c.resjunk,
            ),
            Box::new(column_entries(*more)),
        ),
    }
}

/// All columns of a relation as they are stored, or nothing where one of them
/// cannot be returned so.
pub fn build_physical_tlist(columns: &List<PhysicalColumn>) -> (r: List<TargetEntry>)
    ensures
        r == (if all_usable(columns@) {
            column_entries(*columns)
        } else {
            List::Nil
        }),
{
    match list_columns(columns) {
        Some(l) => l,
        None => List::Nil,
    }
}

fn list_columns(columns: &List<PhysicalColumn>) -> (r: Option<List<TargetEntry>>)
    ensures
        r == (if all_usable(columns@) {
            Some(column_entries(*columns))
        } else {
            None
        }),
    decreases columns,
{
    match columns {
        List::Nil => {
            assert(columns@.len() == 0);
            Some(List::Nil)
        },
        List::Cons(c, more) => {
            proof {
                assert(columns@[0] == c);
                assert(columns@.drop_first() =~= more@);
                if all_usable(columns@) {
                    assert forall|i: int| 0 <= i < more@.len() implies (
                    #[trigger] more@[i]).usable by {
                        assert(columns@[i + 1] == more@[i]);
                    }
                }
                if c.usable && all_usable(more@) {
                    assert forall|i: int| 0 <= i < columns@.len() implies (
                    #[trigger] columns@[i]).usable by {
                        if i > 0 {
                            assert(columns@[i] == more@[i - 1]);
                        }
                    }
                }
            }
            if !c.usable {
                return None;
            }
            match list_columns(more) {
                Some(rest) => Some(
                    List::Cons(
                        crate::expr::make_entry(
                            c.expr.copy(),
                            c.attnum,
                            0,
                            c.resjunk,
                        ),
                        Box::new(rest),
                    ),
                ),
                None => None,
            }
        },
    }
}

} // verus!

//! Parameterized paths for the children of a partitioned relation.
//!
//! A path that takes parameters from a partitioned relation can be used with
//! one of its partitions: what it refers to is turned from the parent into
//! the child.
use vstd::prelude::*;
use crate::error::PlannerError;
use crate::expr::{equal, Expr, PathTarget};
use crate::list::List;
use crate::path::{
    IndexClause, IndexPath, JoinClause, JoinPath, ParamInfo, Path, PathInfo, PathNode, ScanKind,
};
use crate::quals::{copy_rinfos, Rinfo};
use crate::relids::{relids_equal, relids_overlap, Relids};

verus! {

/// What the parent is translated to: clauses by their number, expressions as
/// wholes and relations one by one. What is not listed stays as it is.
#[derive(Debug)]
pub struct ChildTranslation {
    /// The relations that the topmost parent is made of.
    pub top_parent_relids: Relids,
    pub rinfos: List<(u32, Rinfo)>,
    pub exprs: List<(Expr, Expr)>,
    pub relids: List<(u32, u32)>,
    /// For each relation the ones that it refers to laterally.
    pub laterals: List<(usize, Relids)>,
}

/// What the clause becomes.
pub open spec fn adjusted_rinfo(table: List<(u32, Rinfo)>, r: Rinfo) -> Rinfo
    decreases table,
{
    match table {
        List::Nil => r,
        List::Cons(x, xs) => if x.0 == r.id {
            x.1
        } else {
            adjusted_rinfo(*xs, r)
        },
    }
}

fn adjust_rinfo(table: &List<(u32, Rinfo)>, r: Rinfo) -> (a: Rinfo)
    ensures
        a == adjusted_rinfo(*table, r),
    decreases table,
{
    match table {
        List::Nil => r,
        List::Cons(x, xs) => if x.0 == r.id {
            x.1.copy()
        } else {
            adjust_rinfo(xs, r)
        },
    }
}

/// What the clauses become.
pub open spec fn adjusted_rinfos(table: List<(u32, Rinfo)>, l: List<Rinfo>) -> List<Rinfo>
    decreases l,
{
    match l {
        List::Nil => List::Nil,
        List::Cons(x, xs) => List::Cons(
            adjusted_rinfo(table, x),
            Box::new(adjusted_rinfos(table, *xs)),
        ),
    }
}

fn adjust_rinfos(table: &List<(u32, Rinfo)>, l: List<Rinfo>) -> (r: List<Rinfo>)
    ensures
        r == adjusted_rinfos(*table, l),
    decreases l,
{
    match l {
        List::Nil => List::Nil,
        List::Cons(x, xs) => List::Cons(
            adjust_rinfo(table, x),
            Box::new(adjust_rinfos(table, *xs)),
        ),
    }
}

/// What the expression becomes.
pub open spec fn adjusted_expr(table: List<(Expr, Expr)>, e: Expr) -> Expr
    decreases table,
{
    match table {
        List::Nil => e,
        List::Cons(x, xs) => if crate::expr::same_expr(x.0, e) {
            x.1
        } else {
            adjusted_expr(*xs, e)
        },
    }
}

fn adjust_expr(table: &List<(Expr, Expr)>, e: Expr) -> (r: Expr)
    ensures
        r == adjusted_expr(*table, e),
    decreases table,
{
    match table {
        List::Nil => e,
        List::Cons(x, xs) => if equal(&x.0, &e) {
            x.1.copy()
        } else {
            adjust_expr(xs, e)
        },
    }
}

/// What the expressions become.
pub open spec fn adjusted_exprs(table: List<(Expr, Expr)>, l: List<Expr>) -> List<Expr>
    decreases l,
{
    match l {
        List::Nil => List::Nil,
        List::Cons(x, xs) => List::Cons(
            adjusted_expr(table, x),
            Box::new(adjusted_exprs(table, *xs)),
        ),
    }
}

fn adjust_exprs(table: &List<(Expr, Expr)>, l: List<Expr>) -> (r: List<Expr>)
    ensures
        r == adjusted_exprs(*table, l),
    decreases l,
{
    match l {
        List::Nil => List::Nil,
        List::Cons(x, xs) => List::Cons(adjust_expr(table, x), Box::new(adjust_exprs(table, *xs))),
    }
}

/// What the relation becomes.
pub open spec fn adjusted_relid(table: List<(u32, u32)>, x: u32) -> u32
    decreases table,
{
    match table {
        List::Nil => x,
        List::Cons(t, ts) => if t.0 == x {
            t.1
        } else {
            adjusted_relid(*ts, x)
        },
    }
}

fn adjust_relid(table: &List<(u32, u32)>, x: u32) -> (r: u32)
    ensures
        r == adjusted_relid(*table, x),
    decreases table,
{
    match table {
        List::Nil => x,
        List::Cons(t, ts) => if t.0 == x {
            t.1
        } else {
            adjust_relid(ts, x)
        },
    }
}

/// What the relations become.
pub open spec fn adjusted_relids(table: List<(u32, u32)>, l: Relids) -> Relids
    decreases l,
{
    match l {
        List::Nil => List::Nil,
        List::Cons(x, xs) => List::Cons(
            adjusted_relid(table, x),
            Box::new(adjusted_relids(table, *xs)),
        ),
    }
}

fn adjust_relids(table: &List<(u32, u32)>, l: &Relids) -> (r: Relids)
    ensures
        r == adjusted_relids(*table, *l),
    decreases l,
{
    match l {
        List::Nil => List::Nil,
        List::Cons(x, xs) => List::Cons(
            adjust_relid(table, *x),
            Box::new(adjust_relids(table, xs)),
        ),
    }
}

/// What the clauses of an index scan become.
pub open spec fn adjusted_index_clauses(
    table: List<(u32, Rinfo)>,
    l: List<IndexClause>,
) -> List<IndexClause>
    decreases l,
{
    match l {
        List::Nil => List::Nil,
        List::Cons(x, xs) => List::Cons(
            IndexClause {
                rinfo: adjusted_rinfo(table, x.rinfo),
                indexquals: adjusted_rinfos(table, x.indexquals),
                ..x
            },
            Box::new(adjusted_index_clauses(table, *xs)),
        ),
    }
}

fn adjust_index_clauses(table: &List<(u32, Rinfo)>, l: List<IndexClause>) -> (r: List<IndexClause>)
    ensures
        r == adjusted_index_clauses(*table, l),
    decreases l,
{
    match l {
        List::Nil => List::Nil,
        List::Cons(x, xs) => {
            let clause = IndexClause {
                rinfo: adjust_rinfo(table, x.rinfo),
                indexquals: adjust_rinfos(table, x.indexquals),
                lossy: x.lossy,
                indexcol: x.indexcol,
                indexcols: x.indexcols,
            };
            List::Cons(clause, Box::new(adjust_index_clauses(table, *xs)))
        },
    }
}

/// What the clauses of a merge or hash join become.
pub open spec fn adjusted_join_clauses(t: ChildTranslation, l: List<JoinClause>) -> List<JoinClause>
    decreases l,
{
    match l {
        List::Nil => List::Nil,
        List::Cons(x, xs) => List::Cons(
            JoinClause {
                rinfo: adjusted_rinfo(t.rinfos, x.rinfo),
                right_relids: adjusted_relids(t.relids, x.right_relids),
                ..x
            },
            Box::new(adjusted_join_clauses(t, *xs)),
        ),
    }
}

fn adjust_join_clauses(t: &ChildTranslation, l: List<JoinClause>) -> (r: List<JoinClause>)
    ensures
        r == adjusted_join_clauses(*t, l),
    decreases l,
{
    match l {
        List::Nil => List::Nil,
        List::Cons(x, xs) => {
            let clause = JoinClause {
                rinfo: adjust_rinfo(&t.rinfos, x.rinfo),
                right_relids: adjust_relids(&t.relids, &x.right_relids),
                left_ec: x.left_ec,
                right_ec: x.right_ec,
                commutator: x.commutator,
            };
            List::Cons(clause, Box::new(adjust_join_clauses(t, *xs)))
        },
    }
}

/// What a scan reads becomes: the arguments of a sampling method may refer to
/// the parent.
pub open spec fn adjusted_kind(t: ChildTranslation, kind: ScanKind) -> ScanKind {
    match kind {
        ScanKind::Sample(method, args, seed) => ScanKind::Sample(
            method,
            adjusted_exprs(t.exprs, args),
            match seed {
                Some(e) => Some(adjusted_expr(t.exprs, e)),
                None => None,
            },
        ),
        _ => kind,
    }
}

fn adjust_kind(t: &ChildTranslation, kind: ScanKind) -> (r: ScanKind)
    ensures
        r == adjusted_kind(*t, kind),
{
    match kind {
        ScanKind::Sample(method, args, seed) => {
            let seed = match seed {
                Some(e) => Some(adjust_expr(&t.exprs, e)),
                None => None,
            };
            ScanKind::Sample(method, adjust_exprs(&t.exprs, args), seed)
        },
        other => other,
    }
}

/// The path takes parameters from the parent of the child.
pub open spec fn needs_reparam(info: PathInfo, t: ChildTranslation) -> bool {
    info.param matches Some(p) && !crate::relids::ids(p.req_outer).disjoint(
        crate::relids::ids(t.top_parent_relids),
    )
}

/// Does the path take parameters from the parent of the child?
pub fn path_needs_child_reparam(info: &PathInfo, t: &ChildTranslation) -> (r: bool)
    ensures
        r == needs_reparam(*info, *t),
{
    match &info.param {
        Some(p) => relids_overlap(&p.req_outer, &t.top_parent_relids),
        None => false,
    }
}

/// The parameters that a relation is known to take from given relations.
pub open spec fn known_param(
    known: List<(usize, ParamInfo)>,
    parent: usize,
    required: Relids,
) -> Option<ParamInfo>
    decreases known,
{
    match known {
        List::Nil => None,
        List::Cons(x, xs) => if x.0 == parent && crate::relids::ids(x.1.req_outer)
            == crate::relids::ids(required) {
            Some(x.1)
        } else {
            known_param(*xs, parent, required)
        },
    }
}

fn copy_param(p: &ParamInfo) -> (r: ParamInfo)
    ensures
        r == *p,
{
    ParamInfo {
        req_outer: p.req_outer.copy(),
        clauses: copy_rinfos(&p.clauses),
        rows: p.rows,
        serials: p.serials.copy(),
    }
}

fn find_known_param(
    known: &List<(usize, ParamInfo)>,
    parent: usize,
    required: &Relids,
) -> (r: Option<ParamInfo>)
    ensures
        r == known_param(*known, parent, *required),
    decreases known,
{
    match known {
        List::Nil => None,
        List::Cons(x, xs) => if x.0 == parent && relids_equal(&x.1.req_outer, required) {
            Some(copy_param(&x.1))
        } else {
            find_known_param(xs, parent, required)
        },
    }
}

/// The parameters in terms of the child.
pub open spec fn translated_param(t: ChildTranslation, p: ParamInfo) -> ParamInfo {
    ParamInfo {
        req_outer: adjusted_relids(t.relids, p.req_outer),
        clauses: adjusted_rinfos(t.rinfos, p.clauses),
        ..p
    }
}

/// The parameters of a path in terms of the child: those that are known for
/// its relation, or else the translated ones, which are then known.
pub open spec fn adjusted_param(
    t: ChildTranslation,
    parent: usize,
    p: ParamInfo,
    known: List<(usize, ParamInfo)>,
) -> (ParamInfo, List<(usize, ParamInfo)>) {
    let new = translated_param(t, p);
    match known_param(known, parent, new.req_outer) {
        Some(k) => (k, known),
        None => (new, known.then_list(List::Cons((parent, new), Box::new(List::Nil)))),
    }
}

fn adjust_param(
    t: &ChildTranslation,
    parent: usize,
    p: ParamInfo,
    known: List<(usize, ParamInfo)>,
) -> (r: (ParamInfo, List<(usize, ParamInfo)>))
    ensures
        r == adjusted_param(*t, parent, p, known),
{
    let required = adjust_relids(&t.relids, &p.req_outer);
    match find_known_param(&known, parent, &required) {
        Some(k) => (k, known),
        None => {
            let new = ParamInfo {
                req_outer: required,
                clauses: adjust_rinfos(&t.rinfos, p.clauses),
                rows: p.rows,
                serials: p.serials,
            };
            let listed = copy_param(&new);
            (new, known.append(List::one((parent, listed))))
        },
    }
}

/// The relation refers laterally to the parent of the child.
pub open spec fn refers_laterally(
    laterals: List<(usize, Relids)>,
    parent: usize,
    top: Relids,
) -> bool
    decreases laterals,
{
    match laterals {
        List::Nil => false,
        List::Cons(x, xs) => (x.0 == parent && !crate::relids::ids(x.1).disjoint(
            crate::relids::ids(top),
        )) || refers_laterally(*xs, parent, top),
    }
}

fn has_lateral(laterals: &List<(usize, Relids)>, parent: usize, top: &Relids) -> (r: bool)
    ensures
        r == refers_laterally(*laterals, parent, *top),
    decreases laterals,
{
    match laterals {
        List::Nil => false,
        List::Cons(x, xs) => (x.0 == parent && relids_overlap(&x.1, top)) || has_lateral(
            xs,
            parent,
            top,
        ),
    }
}

/// What every path has, in terms of the child: its parameters, and what it
/// computes where that refers to the parent.
pub open spec fn adjusted_info(
    t: ChildTranslation,
    info: PathInfo,
    known: List<(usize, ParamInfo)>,
) -> (PathInfo, List<(usize, ParamInfo)>) {
    match info.param {
        None => (info, known),
        Some(p) => {
            let new = adjusted_param(t, info.parent, p, known);
            (
                PathInfo {
                    param: Some(new.0),
                    target: if refers_laterally(t.laterals, info.parent, t.top_parent_relids) {
                        PathTarget {
                            exprs: adjusted_exprs(t.exprs, info.target.exprs),
                            ..info.target
                        }
                    } else {
                        info.target
                    },
                    ..info
                },
                new.1,
            )
        },
    }
}

fn adjust_info(
    t: &ChildTranslation,
    info: PathInfo,
    known: List<(usize, ParamInfo)>,
) -> (r: (PathInfo, List<(usize, ParamInfo)>))
    ensures
        r == adjusted_info(*t, info, known),
{
    let mut info = info;
    match info.param {
        None => {
            info.param = None;
            (info, known)
        },
        Some(p) => {
            let (param, known) = adjust_param(t, info.parent, p, known);
            info.param = Some(param);
            if has_lateral(&t.laterals, info.parent, &t.top_parent_relids) {
                info.target.exprs = adjust_exprs(&t.exprs, info.target.exprs);
            }
            (info, known)
        },
    }
}

/// The path in terms of the child, and the parameters that are then known;
/// none where the path is of a kind that cannot be translated.
pub open spec fn reparameterized(
    t: ChildTranslation,
    path: Path,
    known: List<(usize, ParamInfo)>,
) -> Option<(Path, List<(usize, ParamInfo)>)>
    decreases path, 1int,
{
    if !needs_reparam(path.info, t) {
        Some((path, known))
    } else {
        match reparameterized_node(t, path, known) {
            None => None,
            Some(n) => {
                let i = adjusted_info(t, path.info, n.1);
                Some((Path { info: i.0, node: n.0 }, i.1))
            },
        }
    }
}

/// The two sides of a join and its clauses, in terms of the child.
pub open spec fn reparameterized_join(
    t: ChildTranslation,
    join: JoinPath,
    known: List<(usize, ParamInfo)>,
) -> Option<(JoinPath, List<(usize, ParamInfo)>)>
    decreases join, 0int,
{
    match reparameterized(t, *join.outer, known) {
        None => None,
        Some(o) => match reparameterized(t, *join.inner, o.1) {
            None => None,
            Some(i) => Some(
                (
                    JoinPath {
                        outer: Box::new(o.0),
                        inner: Box::new(i.0),
                        restrictinfo: adjusted_rinfos(t.rinfos, join.restrictinfo),
                        ..join
                    },
                    i.1,
                ),
            ),
        },
    }
}

/// Several paths in terms of the child.
pub open spec fn reparameterized_list(
    t: ChildTranslation,
    paths: List<Path>,
    known: List<(usize, ParamInfo)>,
) -> Option<(List<Path>, List<(usize, ParamInfo)>)>
    decreases paths, 0int,
{
    match paths {
        List::Nil => Some((List::Nil, known)),
        List::Cons(p, ps) => match reparameterized(t, p, known) {
            None => None,
            Some(x) => match reparameterized_list(t, *ps, x.1) {
                None => None,
                Some(rest) => Some((List::Cons(x.0, Box::new(rest.0)), rest.1)),
            },
        },
    }
}

/// What the kind of path has of its own, in terms of the child.
pub open spec fn reparameterized_node(
    t: ChildTranslation,
    path: Path,
    known: List<(usize, ParamInfo)>,
) -> Option<(PathNode, List<(usize, ParamInfo)>)>
    decreases path, 0int,
{
    match path.node {
        PathNode::Scan(kind, clauses) => Some(
            (
                PathNode::Scan(adjusted_kind(t, kind), adjusted_rinfos(t.rinfos, clauses)),
                known,
            ),
        ),
        PathNode::Index(index, clauses, implied) => Some(
            (
                PathNode::Index(
                    IndexPath {
                        clauses: adjusted_index_clauses(t.rinfos, index.clauses),
                        ..index
                    },
                    adjusted_rinfos(t.rinfos, clauses),
                    implied,
                ),
                known,
            ),
        ),
        PathNode::BitmapHeap(bitmap, clauses, implied) => match reparameterized(
            t,
            *bitmap,
            known,
        ) {
            None => None,
            Some(b) => Some(
                (
                    PathNode::BitmapHeap(
                        Box::new(b.0),
                        adjusted_rinfos(t.rinfos, clauses),
                        implied,
                    ),
                    b.1,
                ),
            ),
        },
        PathNode::BitmapAnd { quals, selectivity, tuples } => match reparameterized_list(
            t,
            *quals,
            known,
        ) {
            None => None,
            Some(q) => Some(
                (PathNode::BitmapAnd { quals: Box::new(q.0), selectivity, tuples }, q.1),
            ),
        },
        PathNode::BitmapOr { quals, selectivity, tuples } => match reparameterized_list(
            t,
            *quals,
            known,
        ) {
            None => None,
            Some(q) => Some(
                (PathNode::BitmapOr { quals: Box::new(q.0), selectivity, tuples }, q.1),
            ),
        },
        PathNode::Nest { join, params, params_safe } => match reparameterized_join(
            t,
            join,
            known,
        ) {
            None => None,
            Some(j) => Some((PathNode::Nest { join: j.0, params, params_safe }, j.1)),
        },
        PathNode::Merge {
            join,
            clauses,
            outersortkeys,
            innersortkeys,
            skip_mark_restore,
            materialize_inner,
            outer_presorted,
        } => match reparameterized_join(t, join, known) {
            None => None,
            Some(j) => Some(
                (
                    PathNode::Merge {
                        join: j.0,
                        clauses: adjusted_join_clauses(t, clauses),
                        outersortkeys,
                        innersortkeys,
                        skip_mark_restore,
                        materialize_inner,
                        outer_presorted,
                    },
                    j.1,
                ),
            ),
        },
        PathNode::Hash { join, clauses, many_batches, inner_rows_total } => match
            reparameterized_join(t, join, known) {
            None => None,
            Some(j) => Some(
                (
                    PathNode::Hash {
                        join: j.0,
                        clauses: adjusted_join_clauses(t, clauses),
                        many_batches,
                        inner_rows_total,
                    },
                    j.1,
                ),
            ),
        },
        PathNode::Append { subpaths, first_partial, limit, clauses } => match
            reparameterized_list(t, *subpaths, known) {
            None => None,
            Some(s) => Some(
                (
                    PathNode::Append { subpaths: Box::new(s.0), first_partial, limit, clauses },
                    s.1,
                ),
            ),
        },
        PathNode::Material(subpath) => match reparameterized(t, *subpath, known) {
            None => None,
            Some(s) => Some((PathNode::Material(Box::new(s.0)), s.1)),
        },
        PathNode::Memoize {
            subpath,
            hash_operators,
            param_exprs,
            singlerow,
            binary_mode,
            est_entries,
        } => match reparameterized(t, *subpath, known) {
            None => None,
            Some(s) => Some(
                (
                    PathNode::Memoize {
                        subpath: Box::new(s.0),
                        hash_operators,
                        param_exprs: adjusted_exprs(t.exprs, param_exprs),
                        singlerow,
                        binary_mode,
                        est_entries,
                    },
                    s.1,
                ),
            ),
        },
        _ => None,
    }
}

/// Turns a path from the parent over to the child; gives nothing where the
/// path is of a kind that cannot be translated.
pub fn reparameterize_path_by_child(
    t: &ChildTranslation,
    path: Path,
    known: List<(usize, ParamInfo)>,
) -> (r: Option<(Path, List<(usize, ParamInfo)>)>)
    ensures
        r == reparameterized(*t, path, known),
    decreases path, 1int,
{
    if !path_needs_child_reparam(&path.info, t) {
        return Some((path, known));
    }
    let info = path.info;
    let (node, known) = match path.node {
        PathNode::Scan(kind, clauses) => (
            PathNode::Scan(adjust_kind(t, kind), adjust_rinfos(&t.rinfos, clauses)),
            known,
        ),
        PathNode::Index(index, clauses, implied) => {
            let mut index = index;
            index.clauses = adjust_index_clauses(&t.rinfos, index.clauses);
            (PathNode::Index(index, adjust_rinfos(&t.rinfos, clauses), implied), known)
        },
        PathNode::BitmapHeap(bitmap, clauses, implied) => {
            match reparameterize_path_by_child(t, *bitmap, known) {
                None => {
                    return None;
                },
                Some((b, known)) => (
                    PathNode::BitmapHeap(
                        Box::new(b),
                        adjust_rinfos(&t.rinfos, clauses),
                        implied,
                    ),
                    known,
                ),
            }
        },
        PathNode::BitmapAnd { quals, selectivity, tuples } => {
            match reparameterize_list(t, *quals, known) {
                None => {
                    return None;
                },
                Some((q, known)) => (
                    PathNode::BitmapAnd { quals: Box::new(q), selectivity, tuples },
                    known,
                ),
            }
        },
        PathNode::BitmapOr { quals, selectivity, tuples } => {
            match reparameterize_list(t, *quals, known) {
                None => {
                    return None;
                },
                Some((q, known)) => (
                    PathNode::BitmapOr { quals: Box::new(q), selectivity, tuples },
                    known,
                ),
            }
        },
        PathNode::Nest { join, params, params_safe } => {
            match reparameterize_join(t, join, known) {
                None => {
                    return None;
                },
                Some((join, known)) => (PathNode::Nest { join, params, params_safe }, known),
            }
        },
        PathNode::Merge {
            join,
            clauses,
            outersortkeys,
            innersortkeys,
            skip_mark_restore,
            materialize_inner,
            outer_presorted,
        } => {
            match reparameterize_join(t, join, known) {
                None => {
                    return None;
                },
                Some((join, known)) => (
                    PathNode::Merge {
                        join,
                        clauses: adjust_join_clauses(t, clauses),
                        outersortkeys,
                        innersortkeys,
                        skip_mark_restore,
                        materialize_inner,
                        outer_presorted,
                    },
                    known,
                ),
            }
        },
        PathNode::Hash { join, clauses, many_batches, inner_rows_total } => {
            match reparameterize_join(t, join, known) {
                None => {
                    return None;
                },
                Some((join, known)) => (
                    PathNode::Hash {
                        join,
                        clauses: adjust_join_clauses(t, clauses),
                        many_batches,
                        inner_rows_total,
                    },
                    known,
                ),
            }
        },
        PathNode::Append { subpaths, first_partial, limit, clauses } => {
            match reparameterize_list(t, *subpaths, known) {
                None => {
                    return None;
                },
                Some((s, known)) => (
                    PathNode::Append { subpaths: Box::new(s), first_partial, limit, clauses },
                    known,
                ),
            }
        },
        PathNode::Material(subpath) => {
            match reparameterize_path_by_child(t, *subpath, known) {
                None => {
                    return None;
                },
                Some((s, known)) => (PathNode::Material(Box::new(s)), known),
            }
        },
        PathNode::Memoize {
            subpath,
            hash_operators,
            param_exprs,
            singlerow,
            binary_mode,
            est_entries,
        } => {
            match reparameterize_path_by_child(t, *subpath, known) {
                None => {
                    return None;
                },
                Some((s, known)) => (
                    PathNode::Memoize {
                        subpath: Box::new(s),
                        hash_operators,
                        param_exprs: adjust_exprs(&t.exprs, param_exprs),
                        singlerow,
                        binary_mode,
                        est_entries,
                    },
                    known,
                ),
            }
        },
        _ => {
            return None;
        },
    };
    let (info, known) = adjust_info(t, info, known);
    Some((Path { info, node }, known))
}

fn reparameterize_join(
    t: &ChildTranslation,
    join: JoinPath,
    known: List<(usize, ParamInfo)>,
) -> (r: Option<(JoinPath, List<(usize, ParamInfo)>)>)
    ensures
        r == reparameterized_join(*t, join, known),
    decreases join, 0int,
{
    let (outer, known) = match reparameterize_path_by_child(t, *join.outer, known) {
        None => {
            return None;
        },
        Some(o) => o,
    };
    let (inner, known) = match reparameterize_path_by_child(t, *join.inner, known) {
        None => {
            return None;
        },
        Some(i) => i,
    };
    let join = JoinPath {
        jointype: join.jointype,
        inner_unique: join.inner_unique,
        restrictinfo: adjust_rinfos(&t.rinfos, join.restrictinfo),
        outer: Box::new(outer),
        inner: Box::new(inner),
    };
    Some((join, known))
}

fn reparameterize_list(
    t: &ChildTranslation,
    paths: List<Path>,
    known: List<(usize, ParamInfo)>,
) -> (r: Option<(List<Path>, List<(usize, ParamInfo)>)>)
    ensures
        r == reparameterized_list(*t, paths, known),
    decreases paths, 0int,
{
    match paths {
        List::Nil => Some((List::Nil, known)),
        List::Cons(p, ps) => {
            let (path, known) = match reparameterize_path_by_child(t, p, known) {
                None => {
                    return None;
                },
                Some(x) => x,
            };
            match reparameterize_list(t, *ps, known) {
                None => None,
                Some((rest, known)) => Some((List::Cons(path, Box::new(rest)), known)),
            }
        },
    }
}

/// The path, and every path below it that takes parameters from the parent,
/// is of a kind that can be translated.
pub open spec fn reparameterizable(t: ChildTranslation, path: Path) -> bool
    decreases path,
{
    !needs_reparam(path.info, t) || match path.node {
        PathNode::Scan(..) => true,
        PathNode::Index(..) => true,
        PathNode::BitmapHeap(bitmap, _, _) => reparameterizable(t, *bitmap),
        PathNode::BitmapAnd { quals, selectivity, tuples } => all_reparameterizable(t, *quals),
        PathNode::BitmapOr { quals, selectivity, tuples } => all_reparameterizable(t, *quals),
        PathNode::Nest { join, params, params_safe } => reparameterizable(t, *join.outer)
            && reparameterizable(t, *join.inner),
        PathNode::Merge {
            join,
            clauses,
            outersortkeys,
            innersortkeys,
            skip_mark_restore,
            materialize_inner,
            outer_presorted,
        } => reparameterizable(t, *join.outer) && reparameterizable(t, *join.inner),
        PathNode::Hash { join, clauses, many_batches, inner_rows_total } => reparameterizable(
            t,
            *join.outer,
        ) && reparameterizable(t, *join.inner),
        PathNode::Append { subpaths, first_partial, limit, clauses } => all_reparameterizable(
            t,
            *subpaths,
        ),
        PathNode::Material(subpath) => reparameterizable(t, *subpath),
        PathNode::Memoize {
            subpath,
            hash_operators,
            param_exprs,
            singlerow,
            binary_mode,
            est_entries,
        } => reparameterizable(t, *subpath),
        _ => false,
    }
}

/// All paths of the list can be translated.
pub open spec fn all_reparameterizable(t: ChildTranslation, paths: List<Path>) -> bool
    decreases paths,
{
    match paths {
        List::Nil => true,
        List::Cons(p, ps) => reparameterizable(t, p) && all_reparameterizable(t, *ps),
    }
}

/// Can the path be turned over from the parent to the child?
pub fn path_is_reparameterizable_by_child(t: &ChildTranslation, path: &Path) -> (r: bool)
    ensures
        r == reparameterizable(*t, *path),
    decreases path,
{
    if !path_needs_child_reparam(&path.info, t) {
        return true;
    }
    match &path.node {
        PathNode::Scan(..) => true,
        PathNode::Index(..) => true,
        PathNode::BitmapHeap(bitmap, _, _) => path_is_reparameterizable_by_child(t, bitmap),
        PathNode::BitmapAnd { quals, .. } => all_are_reparameterizable(t, quals),
        PathNode::BitmapOr { quals, .. } => all_are_reparameterizable(t, quals),
        PathNode::Nest { join, .. } => path_is_reparameterizable_by_child(t, &join.outer)
            && path_is_reparameterizable_by_child(t, &join.inner),
        PathNode::Merge { join, .. } => path_is_reparameterizable_by_child(t, &join.outer)
            && path_is_reparameterizable_by_child(t, &join.inner),
        PathNode::Hash { join, .. } => path_is_reparameterizable_by_child(t, &join.outer)
            && path_is_reparameterizable_by_child(t, &join.inner),
        PathNode::Append { subpaths, .. } => all_are_reparameterizable(t, subpaths),
        PathNode::Material(subpath) => path_is_reparameterizable_by_child(t, subpath),
        PathNode::Memoize { subpath, .. } => path_is_reparameterizable_by_child(t, subpath),
        _ => false,
    }
}

fn all_are_reparameterizable(t: &ChildTranslation, paths: &List<Path>) -> (r: bool)
    ensures
        r == all_reparameterizable(*t, *paths),
    decreases paths,
{
    match paths {
        List::Nil => true,
        List::Cons(p, ps) => path_is_reparameterizable_by_child(t, p)
            && all_are_reparameterizable(t, ps),
    }
}

/// A path is translated exactly if the test beforehand says that it can be.
pub proof fn lemma_reparameterizable(
    t: ChildTranslation,
    path: Path,
    known: List<(usize, ParamInfo)>,
)
    ensures
        reparameterized(t, path, known) is Some <==> reparameterizable(t, path),
    decreases path,
{
    if needs_reparam(path.info, t) {
        match path.node {
            PathNode::BitmapHeap(bitmap, _, _) => {
                lemma_reparameterizable(t, *bitmap, known);
            },
            PathNode::BitmapAnd { quals, .. } => {
                lemma_all_reparameterizable(t, *quals, known);
            },
            PathNode::BitmapOr { quals, .. } => {
                lemma_all_reparameterizable(t, *quals, known);
            },
            PathNode::Nest { join, .. } => {
                lemma_join_reparameterizable(t, join, known);
            },
            PathNode::Merge { join, .. } => {
                lemma_join_reparameterizable(t, join, known);
            },
            PathNode::Hash { join, .. } => {
                lemma_join_reparameterizable(t, join, known);
            },
            PathNode::Append { subpaths, .. } => {
                lemma_all_reparameterizable(t, *subpaths, known);
            },
            PathNode::Material(subpath) => {
                lemma_reparameterizable(t, *subpath, known);
            },
            PathNode::Memoize { subpath, .. } => {
                lemma_reparameterizable(t, *subpath, known);
            },
            _ => {},
        }
    }
}

proof fn lemma_join_reparameterizable(
    t: ChildTranslation,
    join: JoinPath,
    known: List<(usize, ParamInfo)>,
)
    ensures
        reparameterized_join(t, join, known) is Some <==> reparameterizable(t, *join.outer)
            && reparameterizable(t, *join.inner),
    decreases join,
{
    lemma_reparameterizable(t, *join.outer, known);
    if let Some(o) = reparameterized(t, *join.outer, known) {
        lemma_reparameterizable(t, *join.inner, o.1);
    }
}

proof fn lemma_all_reparameterizable(
    t: ChildTranslation,
    paths: List<Path>,
    known: List<(usize, ParamInfo)>,
)
    ensures
        reparameterized_list(t, paths, known) is Some <==> all_reparameterizable(t, paths),
    decreases paths,
{
    if let List::Cons(p, ps) = paths {
        lemma_reparameterizable(t, p, known);
        if let Some(x) = reparameterized(t, p, known) {
            lemma_all_reparameterizable(t, *ps, x.1);
        }
    }
}

/// The inner side of a nested loop whose outer side is a partition: turned
/// over to the partition where it takes parameters from the parent.
pub fn translate_nest_inner(
    t: &ChildTranslation,
    inner: Path,
    known: List<(usize, ParamInfo)>,
) -> (r: Result<(Path, List<(usize, ParamInfo)>), PlannerError>)
    ensures
        r == match reparameterized(*t, inner, known) {
            Some(x) => Ok(x),
            None => Err(PlannerError::PathNotReparameterizable),
        },
        r is Err <==> !reparameterizable(*t, inner),
{
    proof {
        lemma_reparameterizable(*t, inner, known);
    }
    match reparameterize_path_by_child(t, inner, known) {
        Some(x) => Ok(x),
        None => Err(PlannerError::PathNotReparameterizable),
    }
}

/// The relations of the parent become others, which are not its own; no other
/// relation becomes one of the parent.
pub open spec fn leads_away(t: ChildTranslation) -> bool {
    forall|x: u32|
        !crate::relids::ids(t.top_parent_relids).contains(#[trigger] adjusted_relid(t.relids, x))
}

proof fn lemma_adjusted_relids(t: ChildTranslation, l: Relids)
    requires
        leads_away(t),
    ensures
        crate::relids::ids(adjusted_relids(t.relids, l)).disjoint(
            crate::relids::ids(t.top_parent_relids),
        ),
    decreases l,
{
    match l {
        List::Nil => {
            let none: Relids = List::Nil;
            assert(none@.len() == 0);
        },
        List::Cons(x, xs) => {
            lemma_adjusted_relids(t, *xs);
            let all = adjusted_relids(t.relids, l);
            assert forall|z: u32| crate::relids::ids(all).contains(z) implies !crate::relids::ids(
                t.top_parent_relids,
            ).contains(z) by {
                crate::list::lemma_cons_contains(
                    adjusted_relid(t.relids, x),
                    adjusted_relids(t.relids, *xs),
                    z,
                );
                assert(all@.contains(z));
            }
        },
    }
}

proof fn lemma_known_param(known: List<(usize, ParamInfo)>, parent: usize, required: Relids)
    ensures
        known_param(known, parent, required) matches Some(k) ==> crate::relids::ids(k.req_outer)
            == crate::relids::ids(required),
    decreases known,
{
    if let List::Cons(_, xs) = known {
        lemma_known_param(*xs, parent, required);
    }
}

/// A path that has been turned over to the child takes no parameters from the
/// parent any more.
pub proof fn lemma_reparameterized_done(
    t: ChildTranslation,
    path: Path,
    known: List<(usize, ParamInfo)>,
)
    requires
        leads_away(t),
    ensures
        reparameterized(t, path, known) matches Some(r) ==> !needs_reparam(r.0.info, t),
{
    if needs_reparam(path.info, t) {
        if let Some(n) = reparameterized_node(t, path, known) {
            let p = path.info.param->0;
            let new = translated_param(t, p);
            lemma_adjusted_relids(t, p.req_outer);
            lemma_known_param(n.1, path.info.parent, new.req_outer);
        }
    }
}

} // verus!

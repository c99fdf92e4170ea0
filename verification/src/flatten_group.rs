//! Expressions that are grouped by, in the place of references to the grouping.
use vstd::prelude::*;
use crate::cte::{deeper, go_deeper, raise_level, raised_level};
use crate::list::List;
use crate::relids::{relids_is_member, relids_union, Relids};

verus! {

/// An expression of a query, as far as references to the grouping go.
#[derive(Debug)]
pub enum GroupExpr {
    Var { varno: u32, attno: u32, levelsup: u32, nullingrels: Relids },
    PlaceHolder { levelsup: u32, nullingrels: Relids, rels: Relids, expr: Box<GroupExpr> },
    /// An aggregate; its direct arguments are evaluated once for each group.
    Aggref { levelsup: u32, direct: Box<List<GroupExpr>>, args: Box<List<GroupExpr>>, tag: u32 },
    /// The function that tells what is grouped by.
    Grouping { levelsup: u32, args: Box<List<GroupExpr>>, tag: u32 },
    /// A query: its expressions, whether one of them holds a query, and whether
    /// it stands in an expression itself.
    Query { sublink: bool, has_sublinks: bool, exprs: Box<List<GroupExpr>> },
    Other { args: Box<List<GroupExpr>>, volatile: bool, returns_set: bool, tag: u32 },
}

/// What a query is grouped by: the relation that stands for the grouping, the
/// expressions, the relations of the query, and whether its expressions hold
/// queries.
#[derive(Debug)]
pub struct GroupContext {
    pub rtindex: u32,
    pub exprs: List<GroupExpr>,
    pub rels: Relids,
    pub has_sublinks: bool,
}

/// The expression as it reads `n` levels further down.
pub open spec fn raised(e: GroupExpr, n: u32, min: u32) -> GroupExpr
    decreases e,
{
    match e {
        GroupExpr::Var { varno, attno, levelsup, nullingrels } => GroupExpr::Var {
            varno,
            attno,
            levelsup: raised_level(levelsup, n, min),
            nullingrels,
        },
        GroupExpr::PlaceHolder { levelsup, nullingrels, rels, expr } => GroupExpr::PlaceHolder {
            levelsup: raised_level(levelsup, n, min),
            nullingrels,
            rels,
            expr: Box::new(raised(*expr, n, min)),
        },
        GroupExpr::Aggref { levelsup, direct, args, tag } => GroupExpr::Aggref {
            levelsup: raised_level(levelsup, n, min),
            direct: Box::new(raised_list(*direct, n, min)),
            args: Box::new(raised_list(*args, n, min)),
            tag,
        },
        GroupExpr::Grouping { levelsup, args, tag } => GroupExpr::Grouping {
            levelsup: raised_level(levelsup, n, min),
            args: Box::new(raised_list(*args, n, min)),
            tag,
        },
        GroupExpr::Query { sublink, has_sublinks, exprs } => GroupExpr::Query {
            sublink,
            has_sublinks,
            exprs: Box::new(raised_list(*exprs, n, deeper(min))),
        },
        GroupExpr::Other { args, volatile, returns_set, tag } => GroupExpr::Other {
            args: Box::new(raised_list(*args, n, min)),
            volatile,
            returns_set,
            tag,
        },
    }
}

/// The expressions as they read `n` levels further down.
pub open spec fn raised_list(l: List<GroupExpr>, n: u32, min: u32) -> List<GroupExpr>
    decreases l,
{
    match l {
        List::Nil => List::Nil,
        List::Cons(x, xs) => List::Cons(raised(x, n, min), Box::new(raised_list(*xs, n, min))),
    }
}

fn raise(e: &GroupExpr, n: u32, min: u32) -> (r: GroupExpr)
    ensures
        r == raised(*e, n, min),
    decreases e,
{
    match e {
        GroupExpr::Var { varno, attno, levelsup, nullingrels } => GroupExpr::Var {
            varno: *varno,
            attno: *attno,
            levelsup: raise_level(*levelsup, n, min),
            nullingrels: nullingrels.copy(),
        },
        GroupExpr::PlaceHolder { levelsup, nullingrels, rels, expr } => GroupExpr::PlaceHolder {
            levelsup: raise_level(*levelsup, n, min),
            nullingrels: nullingrels.copy(),
            rels: rels.copy(),
            expr: Box::new(raise(expr, n, min)),
        },
        GroupExpr::Aggref { levelsup, direct, args, tag } => GroupExpr::Aggref {
            levelsup: raise_level(*levelsup, n, min),
            direct: Box::new(raise_list(direct, n, min)),
            args: Box::new(raise_list(args, n, min)),
            tag: *tag,
        },
        GroupExpr::Grouping { levelsup, args, tag } => GroupExpr::Grouping {
            levelsup: raise_level(*levelsup, n, min),
            args: Box::new(raise_list(args, n, min)),
            tag: *tag,
        },
        GroupExpr::Query { sublink, has_sublinks, exprs } => GroupExpr::Query {
            sublink: *sublink,
            has_sublinks: *has_sublinks,
            exprs: Box::new(raise_list(exprs, n, go_deeper(min))),
        },
        GroupExpr::Other { args, volatile, returns_set, tag } => GroupExpr::Other {
            args: Box::new(raise_list(args, n, min)),
            volatile: *volatile,
            returns_set: *returns_set,
            tag: *tag,
        },
    }
}

fn raise_list(l: &List<GroupExpr>, n: u32, min: u32) -> (r: List<GroupExpr>)
    ensures
        r == raised_list(*l, n, min),
    decreases l,
{
    match l {
        List::Nil => List::Nil,
        List::Cons(x, xs) => List::Cons(raise(x, n, min), Box::new(raise_list(xs, n, min))),
    }
}

/// The expression holds a query that stands in an expression.
pub open spec fn has_sublink(e: GroupExpr) -> bool
    decreases e,
{
    match e {
        GroupExpr::Var { .. } => false,
        GroupExpr::PlaceHolder { levelsup, nullingrels, rels, expr } => has_sublink(*expr),
        GroupExpr::Aggref { levelsup, direct, args, tag } => list_has_sublink(*direct)
            || list_has_sublink(*args),
        GroupExpr::Grouping { levelsup, args, tag } => list_has_sublink(*args),
        GroupExpr::Query { sublink, has_sublinks, exprs } => sublink || list_has_sublink(*exprs),
        GroupExpr::Other { args, volatile, returns_set, tag } => list_has_sublink(*args),
    }
}

/// Some expression holds a query that stands in an expression.
pub open spec fn list_has_sublink(l: List<GroupExpr>) -> bool
    decreases l,
{
    match l {
        List::Nil => false,
        List::Cons(x, xs) => has_sublink(x) || list_has_sublink(*xs),
    }
}

fn check_sublink(e: &GroupExpr) -> (r: bool)
    ensures
        r == has_sublink(*e),
    decreases e,
{
    match e {
        GroupExpr::Var { .. } => false,
        GroupExpr::PlaceHolder { expr, .. } => check_sublink(expr),
        GroupExpr::Aggref { direct, args, .. } => check_list_sublink(direct) || check_list_sublink(
            args,
        ),
        GroupExpr::Grouping { args, .. } => check_list_sublink(args),
        GroupExpr::Query { sublink, exprs, .. } => *sublink || check_list_sublink(exprs),
        GroupExpr::Other { args, .. } => check_list_sublink(args),
    }
}

fn check_list_sublink(l: &List<GroupExpr>) -> (r: bool)
    ensures
        r == list_has_sublink(*l),
    decreases l,
{
    match l {
        List::Nil => false,
        List::Cons(x, xs) => check_sublink(x) || check_list_sublink(xs),
    }
}

/// The relations of a query level that an expression refers to.
pub open spec fn varnos_at(e: GroupExpr, level: u32) -> Relids
    decreases e,
{
    match e {
        GroupExpr::Var { varno, attno, levelsup, nullingrels } => if levelsup == level {
            crate::relids::ins(nullingrels, varno)
        } else {
            List::Nil
        },
        GroupExpr::PlaceHolder { levelsup, nullingrels, rels, expr } => if levelsup == level {
            crate::relids::union_list(rels, nullingrels)
        } else {
            varnos_at(*expr, level)
        },
        GroupExpr::Aggref { levelsup, direct, args, tag } => crate::relids::union_list(
            list_varnos_at(*direct, level),
            list_varnos_at(*args, level),
        ),
        GroupExpr::Grouping { levelsup, args, tag } => list_varnos_at(*args, level),
        GroupExpr::Query { sublink, has_sublinks, exprs } => list_varnos_at(*exprs, deeper(level)),
        GroupExpr::Other { args, volatile, returns_set, tag } => list_varnos_at(*args, level),
    }
}

/// The relations of a query level that expressions refer to.
pub open spec fn list_varnos_at(l: List<GroupExpr>, level: u32) -> Relids
    decreases l,
{
    match l {
        List::Nil => List::Nil,
        List::Cons(x, xs) => crate::relids::union_list(
            varnos_at(x, level),
            list_varnos_at(*xs, level),
        ),
    }
}

fn find_varnos_at(e: &GroupExpr, level: u32) -> (r: Relids)
    ensures
        r == varnos_at(*e, level),
    decreases e,
{
    match e {
        GroupExpr::Var { varno, levelsup, nullingrels, .. } => if *levelsup == level {
            crate::relids::relids_add_member(nullingrels, *varno)
        } else {
            List::Nil
        },
        GroupExpr::PlaceHolder { levelsup, nullingrels, rels, expr } => if *levelsup == level {
            relids_union(rels, nullingrels)
        } else {
            find_varnos_at(expr, level)
        },
        GroupExpr::Aggref { direct, args, .. } => {
            let a = find_list_varnos_at(direct, level);
            let b = find_list_varnos_at(args, level);
            relids_union(&a, &b)
        },
        GroupExpr::Grouping { args, .. } => find_list_varnos_at(args, level),
        GroupExpr::Query { exprs, .. } => find_list_varnos_at(exprs, go_deeper(level)),
        GroupExpr::Other { args, .. } => find_list_varnos_at(args, level),
    }
}

fn find_list_varnos_at(l: &List<GroupExpr>, level: u32) -> (r: Relids)
    ensures
        r == list_varnos_at(*l, level),
    decreases l,
{
    match l {
        List::Nil => List::Nil,
        List::Cons(x, xs) => {
            let here = find_varnos_at(x, level);
            let rest = find_list_varnos_at(xs, level);
            relids_union(&here, &rest)
        },
    }
}

/// The expression where columns and placeholders of the target relations can
/// be made null by more.
pub open spec fn nulled(e: GroupExpr, target: Relids, added: Relids, level: u32) -> GroupExpr
    decreases e,
{
    match e {
        GroupExpr::Var { varno, attno, levelsup, nullingrels } => GroupExpr::Var {
            varno,
            attno,
            levelsup,
            nullingrels: if levelsup == level && crate::relids::ids(target).contains(varno) {
                crate::relids::union_list(nullingrels, added)
            } else {
                nullingrels
            },
        },
        GroupExpr::PlaceHolder { levelsup, nullingrels, rels, expr } => if levelsup == level
            && !crate::relids::ids(rels).disjoint(crate::relids::ids(target)) {
            GroupExpr::PlaceHolder {
                levelsup,
                nullingrels: crate::relids::union_list(nullingrels, added),
                rels,
                expr,
            }
        } else {
            GroupExpr::PlaceHolder {
                levelsup,
                nullingrels,
                rels,
                expr: Box::new(nulled(*expr, target, added, level)),
            }
        },
        GroupExpr::Aggref { levelsup, direct, args, tag } => GroupExpr::Aggref {
            levelsup,
            direct: Box::new(nulled_list(*direct, target, added, level)),
            args: Box::new(nulled_list(*args, target, added, level)),
            tag,
        },
        GroupExpr::Grouping { levelsup, args, tag } => GroupExpr::Grouping {
            levelsup,
            args: Box::new(nulled_list(*args, target, added, level)),
            tag,
        },
        GroupExpr::Query { sublink, has_sublinks, exprs } => GroupExpr::Query {
            sublink,
            has_sublinks,
            exprs: Box::new(nulled_list(*exprs, target, added, deeper(level))),
        },
        GroupExpr::Other { args, volatile, returns_set, tag } => GroupExpr::Other {
            args: Box::new(nulled_list(*args, target, added, level)),
            volatile,
            returns_set,
            tag,
        },
    }
}

/// The expressions where columns and placeholders of the target relations can
/// be made null by more.
pub open spec fn nulled_list(
    l: List<GroupExpr>,
    target: Relids,
    added: Relids,
    level: u32,
) -> List<GroupExpr>
    decreases l,
{
    match l {
        List::Nil => List::Nil,
        List::Cons(x, xs) => List::Cons(
            nulled(x, target, added, level),
            Box::new(nulled_list(*xs, target, added, level)),
        ),
    }
}

fn add_nulling_relids(e: GroupExpr, target: &Relids, added: &Relids, level: u32) -> (r: GroupExpr)
    ensures
        r == nulled(e, *target, *added, level),
    decreases e,
{
    match e {
        GroupExpr::Var { varno, attno, levelsup, nullingrels } => {
            let rels = if levelsup == level && relids_is_member(varno, target) {
                relids_union(&nullingrels, added)
            } else {
                nullingrels
            };
            GroupExpr::Var { varno, attno, levelsup, nullingrels: rels }
        },
        GroupExpr::PlaceHolder { levelsup, nullingrels, rels, expr } => {
            if levelsup == level && crate::relids::relids_overlap(&rels, target) {
                let both = relids_union(&nullingrels, added);
                GroupExpr::PlaceHolder { levelsup, nullingrels: both, rels, expr }
            } else {
                let inner = add_nulling_relids(*expr, target, added, level);
                GroupExpr::PlaceHolder { levelsup, nullingrels, rels, expr: Box::new(inner) }
            }
        },
        GroupExpr::Aggref { levelsup, direct, args, tag } => GroupExpr::Aggref {
            levelsup,
            direct: Box::new(add_nulling_list(*direct, target, added, level)),
            args: Box::new(add_nulling_list(*args, target, added, level)),
            tag,
        },
        GroupExpr::Grouping { levelsup, args, tag } => GroupExpr::Grouping {
            levelsup,
            args: Box::new(add_nulling_list(*args, target, added, level)),
            tag,
        },
        GroupExpr::Query { sublink, has_sublinks, exprs } => GroupExpr::Query {
            sublink,
            has_sublinks,
            exprs: Box::new(add_nulling_list(*exprs, target, added, go_deeper(level))),
        },
        GroupExpr::Other { args, volatile, returns_set, tag } => GroupExpr::Other {
            args: Box::new(add_nulling_list(*args, target, added, level)),
            volatile,
            returns_set,
            tag,
        },
    }
}

fn add_nulling_list(l: List<GroupExpr>, target: &Relids, added: &Relids, level: u32) -> (r: List<
    GroupExpr,
>)
    ensures
        r == nulled_list(l, *target, *added, level),
    decreases l,
{
    match l {
        List::Nil => List::Nil,
        List::Cons(x, xs) => List::Cons(
            add_nulling_relids(x, target, added, level),
            Box::new(add_nulling_list(*xs, target, added, level)),
        ),
    }
}

/// The expression calls something volatile, or returns a set, at some place.
pub open spec fn is_unstable(e: GroupExpr) -> bool
    decreases e,
{
    match e {
        GroupExpr::Var { .. } => false,
        GroupExpr::PlaceHolder { levelsup, nullingrels, rels, expr } => is_unstable(*expr),
        GroupExpr::Aggref { levelsup, direct, args, tag } => list_is_unstable(*direct)
            || list_is_unstable(*args),
        GroupExpr::Grouping { levelsup, args, tag } => list_is_unstable(*args),
        GroupExpr::Query { sublink, has_sublinks, exprs } => list_is_unstable(*exprs),
        GroupExpr::Other { args, volatile, returns_set, tag } => volatile || returns_set
            || list_is_unstable(*args),
    }
}

/// Some expression calls something volatile, or returns a set.
pub open spec fn list_is_unstable(l: List<GroupExpr>) -> bool
    decreases l,
{
    match l {
        List::Nil => false,
        List::Cons(x, xs) => is_unstable(x) || list_is_unstable(*xs),
    }
}

fn check_unstable(e: &GroupExpr) -> (r: bool)
    ensures
        r == is_unstable(*e),
    decreases e,
{
    match e {
        GroupExpr::Var { .. } => false,
        GroupExpr::PlaceHolder { expr, .. } => check_unstable(expr),
        GroupExpr::Aggref { direct, args, .. } => check_list_unstable(direct)
            || check_list_unstable(args),
        GroupExpr::Grouping { args, .. } => check_list_unstable(args),
        GroupExpr::Query { exprs, .. } => check_list_unstable(exprs),
        GroupExpr::Other { args, volatile, returns_set, .. } => *volatile || *returns_set
            || check_list_unstable(args),
    }
}

fn check_list_unstable(l: &List<GroupExpr>) -> (r: bool)
    ensures
        r == list_is_unstable(*l),
    decreases l,
{
    match l {
        List::Nil => false,
        List::Cons(x, xs) => check_unstable(x) || check_list_unstable(xs),
    }
}

/// The expression that is grouped by, in the place of a reference that the
/// grouping can make null: its columns carry that mark, or, if it has none, a
/// placeholder around it does.
pub open spec fn marked(
    e: GroupExpr,
    levelsup: u32,
    nullingrels: Relids,
    rels: Relids,
) -> GroupExpr {
    if nullingrels is Nil {
        e
    } else if !(varnos_at(e, levelsup) is Nil) {
        nulled(e, varnos_at(e, levelsup), nullingrels, 0)
    } else if !is_unstable(e) {
        GroupExpr::PlaceHolder { levelsup, nullingrels, rels, expr: Box::new(e) }
    } else {
        e
    }
}

/// Marks an expression that the grouping can make null.
pub fn mark_nullable_by_grouping(
    e: GroupExpr,
    levelsup: u32,
    nullingrels: &Relids,
    rels: &Relids,
) -> (r: GroupExpr)
    ensures
        r == marked(e, levelsup, *nullingrels, *rels),
{
    if nullingrels.is_nil() {
        return e;
    }
    let varnos = find_varnos_at(&e, levelsup);
    if !varnos.is_nil() {
        return add_nulling_relids(e, &varnos, nullingrels, 0);
    }
    if !check_unstable(&e) {
        return GroupExpr::PlaceHolder {
            levelsup,
            nullingrels: nullingrels.copy(),
            rels: rels.copy(),
            expr: Box::new(e),
        };
    }
    e
}

/// The expression that a column of the grouping stands for.
pub open spec fn grouped_by(exprs: List<GroupExpr>, attno: u32) -> Option<GroupExpr>
    decreases exprs,
{
    match exprs {
        List::Nil => None,
        List::Cons(x, xs) => if attno == 1 {
            Some(x)
        } else if attno == 0 {
            None
        } else {
            grouped_by(*xs, (attno - 1) as u32)
        },
    }
}

fn find_grouped_by(exprs: &List<GroupExpr>, attno: u32) -> (r: Option<&GroupExpr>)
    ensures
        r is Some <==> grouped_by(*exprs, attno) is Some,
        r matches Some(x) ==> grouped_by(*exprs, attno) == Some(*x),
    decreases exprs,
{
    match exprs {
        List::Nil => None,
        List::Cons(x, xs) => if attno == 1 {
            Some(x)
        } else if attno == 0 {
            None
        } else {
            find_grouped_by(xs, attno - 1)
        },
    }
}

/// The expression where what is grouped by stands in the place of references
/// to the grouping, `up` levels down. The arguments of an aggregate of the same
/// level hold none, for they are evaluated before grouping; only its direct
/// arguments do.
pub open spec fn flattened(e: GroupExpr, g: GroupContext, up: u32) -> GroupExpr
    decreases e,
{
    match e {
        GroupExpr::Var { varno, attno, levelsup, nullingrels } => if levelsup == up && varno
            == g.rtindex {
            match grouped_by(g.exprs, attno) {
                Some(x) => marked(raised(x, up, 0), levelsup, nullingrels, g.rels),
                None => e,
            }
        } else {
            e
        },
        GroupExpr::PlaceHolder { levelsup, nullingrels, rels, expr } => GroupExpr::PlaceHolder {
            levelsup,
            nullingrels,
            rels,
            expr: Box::new(flattened(*expr, g, up)),
        },
        GroupExpr::Aggref { levelsup, direct, args, tag } => if levelsup > up {
            e
        } else {
            GroupExpr::Aggref {
                levelsup,
                direct: Box::new(flattened_list(*direct, g, up)),
                args: if levelsup == up {
                    args
                } else {
                    Box::new(flattened_list(*args, g, up))
                },
                tag,
            }
        },
        GroupExpr::Grouping { levelsup, args, tag } => if levelsup >= up {
            e
        } else {
            GroupExpr::Grouping { levelsup, args: Box::new(flattened_list(*args, g, up)), tag }
        },
        GroupExpr::Query { sublink, has_sublinks, exprs } => GroupExpr::Query {
            sublink,
            has_sublinks: has_sublinks || (g.has_sublinks && list_brings_sublink(
                *exprs,
                g,
                deeper(up),
            )),
            exprs: Box::new(flattened_list(*exprs, g, deeper(up))),
        },
        GroupExpr::Other { args, volatile, returns_set, tag } => GroupExpr::Other {
            args: Box::new(flattened_list(*args, g, up)),
            volatile,
            returns_set,
            tag,
        },
    }
}

/// The expressions where what is grouped by stands in the place of references
/// to the grouping.
pub open spec fn flattened_list(l: List<GroupExpr>, g: GroupContext, up: u32) -> List<GroupExpr>
    decreases l,
{
    match l {
        List::Nil => List::Nil,
        List::Cons(x, xs) => List::Cons(
            flattened(x, g, up),
            Box::new(flattened_list(*xs, g, up)),
        ),
    }
}

/// What is put in the place of a reference of this query level holds a query.
pub open spec fn brings_sublink(e: GroupExpr, g: GroupContext, up: u32) -> bool
    decreases e,
{
    match e {
        GroupExpr::Var { varno, attno, levelsup, nullingrels } => levelsup == up && varno
            == g.rtindex && (grouped_by(g.exprs, attno) matches Some(x) && has_sublink(x)),
        GroupExpr::PlaceHolder { levelsup, nullingrels, rels, expr } => brings_sublink(*expr, g, up),
        GroupExpr::Aggref { levelsup, direct, args, tag } => levelsup <= up && (
        list_brings_sublink(*direct, g, up) || (levelsup < up && list_brings_sublink(*args, g, up))),
        GroupExpr::Grouping { levelsup, args, tag } => levelsup < up && list_brings_sublink(
            *args,
            g,
            up,
        ),
        GroupExpr::Query { .. } => false,
        GroupExpr::Other { args, volatile, returns_set, tag } => list_brings_sublink(*args, g, up),
    }
}

/// What is put in the place of some reference of this query level holds a
/// query.
pub open spec fn list_brings_sublink(l: List<GroupExpr>, g: GroupContext, up: u32) -> bool
    decreases l,
{
    match l {
        List::Nil => false,
        List::Cons(x, xs) => brings_sublink(x, g, up) || list_brings_sublink(*xs, g, up),
    }
}

fn check_brings_sublink(e: &GroupExpr, g: &GroupContext, up: u32) -> (r: bool)
    ensures
        r == brings_sublink(*e, *g, up),
    decreases e,
{
    match e {
        GroupExpr::Var { varno, attno, levelsup, .. } => {
            if *levelsup != up || *varno != g.rtindex {
                return false;
            }
            match find_grouped_by(&g.exprs, *attno) {
                Some(x) => check_sublink(x),
                None => false,
            }
        },
        GroupExpr::PlaceHolder { expr, .. } => check_brings_sublink(expr, g, up),
        GroupExpr::Aggref { levelsup, direct, args, .. } => *levelsup <= up && (
        check_list_brings_sublink(direct, g, up) || (*levelsup < up && check_list_brings_sublink(
            args,
            g,
            up,
        ))),
        GroupExpr::Grouping { levelsup, args, .. } => *levelsup < up && check_list_brings_sublink(
            args,
            g,
            up,
        ),
        GroupExpr::Query { .. } => false,
        GroupExpr::Other { args, .. } => check_list_brings_sublink(args, g, up),
    }
}

fn check_list_brings_sublink(l: &List<GroupExpr>, g: &GroupContext, up: u32) -> (r: bool)
    ensures
        r == list_brings_sublink(*l, *g, up),
    decreases l,
{
    match l {
        List::Nil => false,
        List::Cons(x, xs) => check_brings_sublink(x, g, up) || check_list_brings_sublink(xs, g, up),
    }
}

/// Puts what is grouped by in the place of references to the grouping.
pub fn flatten_group_exprs(e: GroupExpr, g: &GroupContext, up: u32) -> (r: GroupExpr)
    ensures
        r == flattened(e, *g, up),
    decreases e,
{
    match e {
        GroupExpr::Var { varno, attno, levelsup, nullingrels } => {
            if levelsup == up && varno == g.rtindex {
                if let Some(x) = find_grouped_by(&g.exprs, attno) {
                    let new = raise(x, up, 0);
                    return mark_nullable_by_grouping(new, levelsup, &nullingrels, &g.rels);
                }
            }
            GroupExpr::Var { varno, attno, levelsup, nullingrels }
        },
        GroupExpr::PlaceHolder { levelsup, nullingrels, rels, expr } => GroupExpr::PlaceHolder {
            levelsup,
            nullingrels,
            rels,
            expr: Box::new(flatten_group_exprs(*expr, g, up)),
        },
        GroupExpr::Aggref { levelsup, direct, args, tag } => {
            if levelsup > up {
                return GroupExpr::Aggref { levelsup, direct, args, tag };
            }
            let direct = Box::new(flatten_group_exprs_list(*direct, g, up));
            let args = if levelsup == up {
                args
            } else {
                Box::new(flatten_group_exprs_list(*args, g, up))
            };
            GroupExpr::Aggref { levelsup, direct, args, tag }
        },
        GroupExpr::Grouping { levelsup, args, tag } => {
            if levelsup >= up {
                return GroupExpr::Grouping { levelsup, args, tag };
            }
            let args = Box::new(flatten_group_exprs_list(*args, g, up));
            GroupExpr::Grouping { levelsup, args, tag }
        },
        GroupExpr::Query { sublink, has_sublinks, exprs } => {
            let below: u32 = go_deeper(up);
            let brings = g.has_sublinks && check_list_brings_sublink(&exprs, g, below);
            let exprs = Box::new(flatten_group_exprs_list(*exprs, g, below));
            GroupExpr::Query { sublink, has_sublinks: has_sublinks || brings, exprs }
        },
        GroupExpr::Other { args, volatile, returns_set, tag } => GroupExpr::Other {
            args: Box::new(flatten_group_exprs_list(*args, g, up)),
            volatile,
            returns_set,
            tag,
        },
    }
}

/// Puts what is grouped by in the place of references to the grouping in a
/// list.
pub fn flatten_group_exprs_list(l: List<GroupExpr>, g: &GroupContext, up: u32) -> (r: List<
    GroupExpr,
>)
    ensures
        r == flattened_list(l, *g, up),
    decreases l,
{
    match l {
        List::Nil => List::Nil,
        List::Cons(x, xs) => List::Cons(
            flatten_group_exprs(x, g, up),
            Box::new(flatten_group_exprs_list(*xs, g, up)),
        ),
    }
}

/// No reference to the relation `rt`, `up` levels up, is left, except where
/// none is looked for: in the arguments of aggregates of that level or of one
/// further out.
pub open spec fn is_free(e: GroupExpr, rt: u32, up: u32) -> bool
    decreases e,
{
    match e {
        GroupExpr::Var { varno, attno, levelsup, nullingrels } => !(levelsup == up && varno == rt),
        GroupExpr::PlaceHolder { levelsup, nullingrels, rels, expr } => is_free(*expr, rt, up),
        GroupExpr::Aggref { levelsup, direct, args, tag } => levelsup > up || (list_is_free(
            *direct,
            rt,
            up,
        ) && (levelsup == up || list_is_free(*args, rt, up))),
        GroupExpr::Grouping { levelsup, args, tag } => levelsup >= up || list_is_free(
            *args,
            rt,
            up,
        ),
        GroupExpr::Query { sublink, has_sublinks, exprs } => list_is_free(*exprs, rt, deeper(up)),
        GroupExpr::Other { args, volatile, returns_set, tag } => list_is_free(*args, rt, up),
    }
}

/// No reference to the relation is left in the list.
pub open spec fn list_is_free(l: List<GroupExpr>, rt: u32, up: u32) -> bool
    decreases l,
{
    match l {
        List::Nil => true,
        List::Cons(x, xs) => is_free(x, rt, up) && list_is_free(*xs, rt, up),
    }
}

/// All levels in the expression, and its nesting, stay below what a number can
/// hold when `n` is added.
pub open spec fn fits(e: GroupExpr, n: u32, depth: u32) -> bool
    decreases e,
{
    match e {
        GroupExpr::Var { varno, attno, levelsup, nullingrels } => levelsup + n < u32::MAX,
        GroupExpr::PlaceHolder { levelsup, nullingrels, rels, expr } => levelsup + n < u32::MAX
            && fits(*expr, n, depth),
        GroupExpr::Aggref { levelsup, direct, args, tag } => levelsup + n < u32::MAX && list_fits(
            *direct,
            n,
            depth,
        ) && list_fits(*args, n, depth),
        GroupExpr::Grouping { levelsup, args, tag } => levelsup + n < u32::MAX && list_fits(
            *args,
            n,
            depth,
        ),
        GroupExpr::Query { sublink, has_sublinks, exprs } => depth + n + 1 < u32::MAX && list_fits(
            *exprs,
            n,
            deeper(depth),
        ),
        GroupExpr::Other { args, volatile, returns_set, tag } => list_fits(*args, n, depth),
    }
}

/// All levels in the list fit.
pub open spec fn list_fits(l: List<GroupExpr>, n: u32, depth: u32) -> bool
    decreases l,
{
    match l {
        List::Nil => true,
        List::Cons(x, xs) => fits(x, n, depth) && list_fits(*xs, n, depth),
    }
}

proof fn lemma_raised_free(e: GroupExpr, rt: u32, n: u32, depth: u32)
    requires
        is_free(e, rt, depth),
        fits(e, n, depth),
        depth + n < u32::MAX,
    ensures
        is_free(raised(e, n, depth), rt, (depth + n) as u32),
    decreases e,
{
    match e {
        GroupExpr::Var { .. } => {},
        GroupExpr::PlaceHolder { levelsup, nullingrels, rels, expr } => {
            lemma_raised_free(*expr, rt, n, depth);
        },
        GroupExpr::Aggref { levelsup, direct, args, tag } => {
            if levelsup <= depth {
                lemma_raised_list_free(*direct, rt, n, depth);
                if levelsup < depth {
                    lemma_raised_list_free(*args, rt, n, depth);
                }
            }
        },
        GroupExpr::Grouping { levelsup, args, tag } => {
            if levelsup < depth {
                lemma_raised_list_free(*args, rt, n, depth);
            }
        },
        GroupExpr::Query { sublink, has_sublinks, exprs } => {
            lemma_raised_list_free(*exprs, rt, n, deeper(depth));
            assert(deeper((depth + n) as u32) == (deeper(depth) + n) as u32);
        },
        GroupExpr::Other { args, volatile, returns_set, tag } => {
            lemma_raised_list_free(*args, rt, n, depth);
        },
    }
}

proof fn lemma_raised_list_free(l: List<GroupExpr>, rt: u32, n: u32, depth: u32)
    requires
        list_is_free(l, rt, depth),
        list_fits(l, n, depth),
        depth + n < u32::MAX,
    ensures
        list_is_free(raised_list(l, n, depth), rt, (depth + n) as u32),
    decreases l,
{
    if let List::Cons(x, xs) = l {
        lemma_raised_free(x, rt, n, depth);
        lemma_raised_list_free(*xs, rt, n, depth);
    }
}

proof fn lemma_nulled_free(
    e: GroupExpr,
    target: Relids,
    added: Relids,
    level: u32,
    rt: u32,
    up: u32,
)
    requires
        is_free(e, rt, up),
    ensures
        is_free(nulled(e, target, added, level), rt, up),
    decreases e,
{
    match e {
        GroupExpr::Var { .. } => {},
        GroupExpr::PlaceHolder { levelsup, nullingrels, rels, expr } => {
            lemma_nulled_free(*expr, target, added, level, rt, up);
        },
        GroupExpr::Aggref { levelsup, direct, args, tag } => {
            if levelsup <= up {
                lemma_nulled_list_free(*direct, target, added, level, rt, up);
                if levelsup < up {
                    lemma_nulled_list_free(*args, target, added, level, rt, up);
                }
            }
        },
        GroupExpr::Grouping { levelsup, args, tag } => {
            if levelsup < up {
                lemma_nulled_list_free(*args, target, added, level, rt, up);
            }
        },
        GroupExpr::Query { sublink, has_sublinks, exprs } => {
            lemma_nulled_list_free(*exprs, target, added, deeper(level), rt, deeper(up));
        },
        GroupExpr::Other { args, volatile, returns_set, tag } => {
            lemma_nulled_list_free(*args, target, added, level, rt, up);
        },
    }
}

proof fn lemma_nulled_list_free(
    l: List<GroupExpr>,
    target: Relids,
    added: Relids,
    level: u32,
    rt: u32,
    up: u32,
)
    requires
        list_is_free(l, rt, up),
    ensures
        list_is_free(nulled_list(l, target, added, level), rt, up),
    decreases l,
{
    if let List::Cons(x, xs) = l {
        lemma_nulled_free(x, target, added, level, rt, up);
        lemma_nulled_list_free(*xs, target, added, level, rt, up);
    }
}

/// What is grouped by does not refer to the grouping itself, and its levels
/// stay below what a number can hold down to any depth up to `n`.
pub open spec fn all_usable(exprs: List<GroupExpr>, rt: u32, n: u32) -> bool
    decreases exprs,
{
    match exprs {
        List::Nil => true,
        List::Cons(x, xs) => is_free(x, rt, 0) && (forall|k: u32| k <= n ==> #[trigger] fits(x, k, 0))
            && all_usable(*xs, rt, n),
    }
}

proof fn lemma_usable(exprs: List<GroupExpr>, rt: u32, n: u32, attno: u32)
    requires
        all_usable(exprs, rt, n),
        grouped_by(exprs, attno) is Some,
    ensures
        is_free(grouped_by(exprs, attno)->0, rt, 0),
        forall|k: u32| k <= n ==> #[trigger] fits(grouped_by(exprs, attno)->0, k, 0),
    decreases exprs,
{
    if let List::Cons(x, xs) = exprs {
        if attno > 1 {
            lemma_usable(*xs, rt, n, (attno - 1) as u32);
        }
    }
}

/// Every reference to the grouping is to one of the expressions that it is by,
/// and queries are not nested deeper than `n`.
pub open spec fn refers_well(e: GroupExpr, g: GroupContext, up: u32, n: u32) -> bool
    decreases e,
{
    up <= n < u32::MAX && match e {
        GroupExpr::Var { varno, attno, levelsup, nullingrels } => levelsup == up && varno
            == g.rtindex ==> grouped_by(g.exprs, attno) is Some,
        GroupExpr::PlaceHolder { levelsup, nullingrels, rels, expr } => refers_well(
            *expr,
            g,
            up,
            n,
        ),
        GroupExpr::Aggref { levelsup, direct, args, tag } => levelsup > up || (list_refers_well(
            *direct,
            g,
            up,
            n,
        ) && (levelsup == up || list_refers_well(*args, g, up, n))),
        GroupExpr::Grouping { levelsup, args, tag } => levelsup >= up || list_refers_well(
            *args,
            g,
            up,
            n,
        ),
        GroupExpr::Query { sublink, has_sublinks, exprs } => up < n && list_refers_well(
            *exprs,
            g,
            deeper(up),
            n,
        ),
        GroupExpr::Other { args, volatile, returns_set, tag } => list_refers_well(*args, g, up, n),
    }
}

/// Every reference in the list is to one of the expressions.
pub open spec fn list_refers_well(l: List<GroupExpr>, g: GroupContext, up: u32, n: u32) -> bool
    decreases l,
{
    match l {
        List::Nil => true,
        List::Cons(x, xs) => refers_well(x, g, up, n) && list_refers_well(*xs, g, up, n),
    }
}

/// Afterwards no reference to the grouping is left.
pub proof fn lemma_flattened(e: GroupExpr, g: GroupContext, up: u32, n: u32)
    requires
        all_usable(g.exprs, g.rtindex, n),
        refers_well(e, g, up, n),
    ensures
        is_free(flattened(e, g, up), g.rtindex, up),
    decreases e,
{
    match e {
        GroupExpr::Var { varno, attno, levelsup, nullingrels } => {
            if levelsup == up && varno == g.rtindex {
                lemma_usable(g.exprs, g.rtindex, n, attno);
                let x = grouped_by(g.exprs, attno)->0;
                assert(fits(x, up, 0));
                lemma_raised_free(x, g.rtindex, up, 0);
                let y = raised(x, up, 0);
                lemma_nulled_free(y, varnos_at(y, levelsup), nullingrels, 0, g.rtindex, up);
            }
        },
        GroupExpr::PlaceHolder { levelsup, nullingrels, rels, expr } => {
            lemma_flattened(*expr, g, up, n);
        },
        GroupExpr::Aggref { levelsup, direct, args, tag } => {
            if levelsup <= up {
                lemma_flattened_list(*direct, g, up, n);
                if levelsup < up {
                    lemma_flattened_list(*args, g, up, n);
                }
            }
        },
        GroupExpr::Grouping { levelsup, args, tag } => {
            if levelsup < up {
                lemma_flattened_list(*args, g, up, n);
            }
        },
        GroupExpr::Query { sublink, has_sublinks, exprs } => {
            lemma_flattened_list(*exprs, g, deeper(up), n);
        },
        GroupExpr::Other { args, volatile, returns_set, tag } => {
            lemma_flattened_list(*args, g, up, n);
        },
    }
}

proof fn lemma_flattened_list(l: List<GroupExpr>, g: GroupContext, up: u32, n: u32)
    requires
        all_usable(g.exprs, g.rtindex, n),
        list_refers_well(l, g, up, n),
    ensures
        list_is_free(flattened_list(l, g, up), g.rtindex, up),
    decreases l,
{
    if let List::Cons(x, xs) = l {
        lemma_flattened(x, g, up, n);
        lemma_flattened_list(*xs, g, up, n);
    }
}

/// The expression refers to the grouping, `up` levels down, at any place.
pub open spec fn refers_to_group(e: GroupExpr, rt: u32, up: u32) -> bool
    decreases e,
{
    match e {
        GroupExpr::Var { varno, attno, levelsup, nullingrels } => levelsup == up && varno == rt,
        GroupExpr::PlaceHolder { levelsup, nullingrels, rels, expr } => refers_to_group(
            *expr,
            rt,
            up,
        ),
        GroupExpr::Aggref { levelsup, direct, args, tag } => list_refers_to_group(*direct, rt, up)
            || list_refers_to_group(*args, rt, up),
        GroupExpr::Grouping { levelsup, args, tag } => list_refers_to_group(*args, rt, up),
        GroupExpr::Query { sublink, has_sublinks, exprs } => list_refers_to_group(
            *exprs,
            rt,
            deeper(up),
        ),
        GroupExpr::Other { args, volatile, returns_set, tag } => list_refers_to_group(
            *args,
            rt,
            up,
        ),
    }
}

/// Some expression refers to the grouping.
pub open spec fn list_refers_to_group(l: List<GroupExpr>, rt: u32, up: u32) -> bool
    decreases l,
{
    match l {
        List::Nil => false,
        List::Cons(x, xs) => refers_to_group(x, rt, up) || list_refers_to_group(*xs, rt, up),
    }
}

fn check_group_reference(e: &GroupExpr, rt: u32, up: u32) -> (r: bool)
    ensures
        r == refers_to_group(*e, rt, up),
    decreases e,
{
    match e {
        GroupExpr::Var { varno, levelsup, .. } => *levelsup == up && *varno == rt,
        GroupExpr::PlaceHolder { expr, .. } => check_group_reference(expr, rt, up),
        GroupExpr::Aggref { direct, args, .. } => check_group_references(direct, rt, up)
            || check_group_references(args, rt, up),
        GroupExpr::Grouping { args, .. } => check_group_references(args, rt, up),
        GroupExpr::Query { exprs, .. } => check_group_references(exprs, rt, go_deeper(up)),
        GroupExpr::Other { args, .. } => check_group_references(args, rt, up),
    }
}

fn check_group_references(l: &List<GroupExpr>, rt: u32, up: u32) -> (r: bool)
    ensures
        r == list_refers_to_group(*l, rt, up),
    decreases l,
{
    match l {
        List::Nil => false,
        List::Cons(x, xs) => check_group_reference(x, rt, up) || check_group_references(xs, rt, up),
    }
}

/// Do the expressions of a query that stands `up` levels down refer to the
/// grouping?
pub fn grouped_outer_var_in_subquery(exprs: &List<GroupExpr>, rtindex: u32, up: u32) -> (r: bool)
    ensures
        r == list_refers_to_group(*exprs, rtindex, deeper(up)),
{
    check_group_references(exprs, rtindex, go_deeper(up))
}

proof fn lemma_list_unreferenced(l: List<GroupExpr>, g: GroupContext, up: u32)
    requires
        !list_refers_to_group(l, g.rtindex, up),
    ensures
        flattened_list(l, g, up) == l,
        !list_brings_sublink(l, g, up),
    decreases l,
{
    if let List::Cons(x, xs) = l {
        lemma_unreferenced(x, g, up);
        lemma_list_unreferenced(*xs, g, up);
    }
}

/// An expression that does not refer to the grouping stays as it is.
pub proof fn lemma_unreferenced(e: GroupExpr, g: GroupContext, up: u32)
    requires
        !refers_to_group(e, g.rtindex, up),
    ensures
        flattened(e, g, up) == e,
        !brings_sublink(e, g, up),
    decreases e,
{
    match e {
        GroupExpr::Var { .. } => {},
        GroupExpr::PlaceHolder { levelsup, nullingrels, rels, expr } => {
            lemma_unreferenced(*expr, g, up);
        },
        GroupExpr::Aggref { levelsup, direct, args, tag } => {
            lemma_list_unreferenced(*direct, g, up);
            lemma_list_unreferenced(*args, g, up);
        },
        GroupExpr::Grouping { levelsup, args, tag } => {
            lemma_list_unreferenced(*args, g, up);
        },
        GroupExpr::Query { sublink, has_sublinks, exprs } => {
            lemma_list_unreferenced(*exprs, g, deeper(up));
        },
        GroupExpr::Other { args, volatile, returns_set, tag } => {
            lemma_list_unreferenced(*args, g, up);
        },
    }
}

} // verus!

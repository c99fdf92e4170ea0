//! Which columns a plan sorts by.
use vstd::prelude::*;
use crate::error::PlannerError;
use crate::expr::{
    equal, list_member, make_entry, next_column, pull_var_clause, strip_relabel, Expr, OrderTest, TargetEntry,
};
use crate::list::List;
use crate::relids::{relids_is_subset, Relids};
use crate::tlist::sortgroupref_tle;

verus! {

/// One item of a sort order.
#[derive(Clone, Copy, Debug, PartialEq, Eq, Structural)]
pub struct PathKey {
    /// The equivalence class of the values sorted by.
    pub eclass: u32,
    pub opfamily: u32,
    pub direction: OrderTest,
    pub nulls_first: bool,
}

/// A member of an equivalence class.
#[derive(Debug)]
pub struct EcMember {
    pub expr: Expr,
    pub is_const: bool,
    pub is_child: bool,
    pub relids: Relids,
    pub datatype: u32,
}

/// The members that stand for one child relation.
#[derive(Debug)]
pub struct ChildMembers {
    pub relid: u32,
    pub members: List<EcMember>,
}

/// Values that are known to be equal.
#[derive(Debug)]
pub struct EquivalenceClass {
    pub has_volatile: bool,
    pub sortref: u32,
    pub collation: u32,
    pub members: List<EcMember>,
    pub childmembers: List<ChildMembers>,
}

/// The operator of a family that tests two values of a type.
#[derive(Clone, Copy, Debug, PartialEq, Eq, Structural)]
pub struct OperatorKey {
    pub opfamily: u32,
    pub typid: u32,
    pub test: OrderTest,
}

/// A column that is sorted by.
#[derive(Clone, Copy, Debug, PartialEq, Eq, Structural)]
pub struct SortColumn {
    pub resno: i16,
    pub operator: OperatorKey,
    pub collation: u32,
    pub nulls_first: bool,
}

/// The equivalence classes of a query.
#[derive(Debug)]
pub struct SortContext {
    pub classes: Vec<EquivalenceClass>,
}

/// The member can be used for the given relations.
pub open spec fn is_candidate(m: EcMember, relids: Relids) -> bool {
    &&& !m.is_const
    &&& m.is_child ==> crate::relids::ids(m.relids).subset_of(crate::relids::ids(relids))
}

fn candidate(m: &EcMember, relids: &Relids) -> (r: bool)
    ensures
        r == is_candidate(*m, *relids),
{
    !m.is_const && (!m.is_child || relids_is_subset(&m.relids, relids))
}

/// The type of the first usable member that is the expression, apart from
/// relabelings.
pub open spec fn match_member(members: List<EcMember>, expr: Expr, relids: Relids) -> Option<
    u32,
>
    decreases members,
{
    match members {
        List::Nil => None,
        List::Cons(m, more) => if is_candidate(m, relids) && crate::expr::same_expr(
            crate::expr::bare(m.expr),
            crate::expr::bare(expr),
        ) {
            Some(m.datatype)
        } else {
            match_member(*more, expr, relids)
        },
    }
}

fn find_member(members: &List<EcMember>, expr: &Expr, relids: &Relids) -> (r: Option<u32>)
    ensures
        r == match_member(*members, *expr, *relids),
    decreases members,
{
    match members {
        List::Nil => None,
        List::Cons(m, more) => if candidate(m, relids) && equal(
            strip_relabel(&m.expr),
            strip_relabel(expr),
        ) {
            Some(m.datatype)
        } else {
            find_member(more, expr, relids)
        },
    }
}

/// The members of a class that stand for a child relation.
pub open spec fn members_for(groups: List<ChildMembers>, relid: u32) -> List<EcMember>
    decreases groups,
{
    match groups {
        List::Nil => List::Nil,
        List::Cons(g, more) => if g.relid == relid {
            g.members
        } else {
            members_for(*more, relid)
        },
    }
}

/// The same among the members for each of the relations in turn.
pub open spec fn match_child(
    groups: List<ChildMembers>,
    each: Relids,
    expr: Expr,
    relids: Relids,
) -> Option<u32>
    decreases each,
{
    match each {
        List::Nil => None,
        List::Cons(r, more) => match match_member(members_for(groups, r), expr, relids) {
            Some(t) => Some(t),
            None => match_child(groups, *more, expr, relids),
        },
    }
}

fn find_for_relid(
    groups: &List<ChildMembers>,
    relid: u32,
    expr: &Expr,
    relids: &Relids,
) -> (r: Option<u32>)
    ensures
        r == match_member(members_for(*groups, relid), *expr, *relids),
    decreases groups,
{
    match groups {
        List::Nil => None,
        List::Cons(g, more) => if g.relid == relid {
            find_member(&g.members, expr, relids)
        } else {
            find_for_relid(more, relid, expr, relids)
        },
    }
}

fn find_child(
    groups: &List<ChildMembers>,
    each: &Relids,
    expr: &Expr,
    relids: &Relids,
) -> (r: Option<u32>)
    ensures
        r == match_child(*groups, *each, *expr, *relids),
    decreases each,
{
    match each {
        List::Nil => None,
        List::Cons(x, more) => match find_for_relid(groups, *x, expr, relids) {
            Some(t) => Some(t),
            None => find_child(groups, more, expr, relids),
        },
    }
}

/// The type of the first member of the class that is the expression.
pub open spec fn ec_match(ec: EquivalenceClass, expr: Expr, relids: Relids) -> Option<u32> {
    match match_member(ec.members, expr, relids) {
        Some(t) => Some(t),
        None => match_child(ec.childmembers, relids, expr, relids),
    }
}

/// Finds the member of the class that is the expression, apart from
/// relabelings. Members of child relations count only where they can be
/// computed from the given relations.
pub fn find_ec_member_matching_expr(
    ec: &EquivalenceClass,
    expr: &Expr,
    relids: &Relids,
) -> (r: Option<u32>)
    ensures
        r == ec_match(*ec, *expr, *relids),
{
    match find_member(&ec.members, expr, relids) {
        Some(t) => Some(t),
        None => find_child(&ec.childmembers, relids, expr, relids),
    }
}

/// Some column is computed from `v`.
pub open spec fn tlist_uses(tlist: List<TargetEntry>, v: Expr) -> bool
    decreases tlist,
{
    match tlist {
        List::Nil => false,
        List::Cons(t, more) => crate::expr::has_same(crate::expr::leaves(t.expr), v) || tlist_uses(
            *more,
            v,
        ),
    }
}

fn uses_leaf(tlist: &List<TargetEntry>, v: &Expr) -> (r: bool)
    ensures
        r == tlist_uses(*tlist, *v),
    decreases tlist,
{
    match tlist {
        List::Nil => false,
        List::Cons(t, more) => {
            let leaves = pull_var_clause(&t.expr);
            list_member(&leaves, v) || uses_leaf(more, v)
        },
    }
}

/// Each of the expressions is what some column is computed from.
pub open spec fn tlist_uses_all(tlist: List<TargetEntry>, vars: List<Expr>) -> bool
    decreases vars,
{
    match vars {
        List::Nil => true,
        List::Cons(v, more) => tlist_uses(tlist, v) && tlist_uses_all(tlist, *more),
    }
}

fn uses_leaves(tlist: &List<TargetEntry>, vars: &List<Expr>) -> (r: bool)
    ensures
        r == tlist_uses_all(*tlist, *vars),
    decreases vars,
{
    match vars {
        List::Nil => true,
        List::Cons(v, more) => uses_leaf(tlist, v) && uses_leaves(tlist, more),
    }
}

/// The first usable member that can be computed from the columns.
pub open spec fn computable_member(
    members: List<EcMember>,
    tlist: List<TargetEntry>,
    relids: Relids,
) -> Option<(Expr, u32)>
    decreases members,
{
    match members {
        List::Nil => None,
        List::Cons(m, more) => if is_candidate(m, relids) && tlist_uses_all(
            tlist,
            crate::expr::leaves(m.expr),
        ) {
            Some((m.expr, m.datatype))
        } else {
            computable_member(*more, tlist, relids)
        },
    }
}

fn find_computable(
    members: &List<EcMember>,
    tlist: &List<TargetEntry>,
    relids: &Relids,
) -> (r: Option<(Expr, u32)>)
    ensures
        r == computable_member(*members, *tlist, *relids),
    decreases members,
{
    match members {
        List::Nil => None,
        List::Cons(m, more) => {
            let leaves = pull_var_clause(&m.expr);
            if candidate(m, relids) && uses_leaves(tlist, &leaves) {
                Some((m.expr.copy(), m.datatype))
            } else {
                find_computable(more, tlist, relids)
            }
        },
    }
}

/// The same among the members for each of the relations in turn.
pub open spec fn computable_child(
    groups: List<ChildMembers>,
    each: Relids,
    tlist: List<TargetEntry>,
    relids: Relids,
) -> Option<(Expr, u32)>
    decreases each,
{
    match each {
        List::Nil => None,
        List::Cons(r, more) => match computable_member(members_for(groups, r),
            tlist,
            relids,
        ) {
            Some(m) => Some(m),
            None => computable_child(groups, *more, tlist, relids),
        },
    }
}

fn find_computable_for_relid(
    groups: &List<ChildMembers>,
    relid: u32,
    tlist: &List<TargetEntry>,
    relids: &Relids,
) -> (r: Option<(Expr, u32)>)
    ensures
        r == computable_member(members_for(*groups, relid), *tlist, *relids),
    decreases groups,
{
    match groups {
        List::Nil => None,
        List::Cons(g, more) => if g.relid == relid {
            find_computable(&g.members, tlist, relids)
        } else {
            find_computable_for_relid(more, relid, tlist, relids)
        },
    }
}

fn find_computable_child(
    groups: &List<ChildMembers>,
    each: &Relids,
    tlist: &List<TargetEntry>,
    relids: &Relids,
) -> (r: Option<(Expr, u32)>)
    ensures
        r == computable_child(*groups, *each, *tlist, *relids),
    decreases each,
{
    match each {
        List::Nil => None,
        List::Cons(x, more) => match find_computable_for_relid(groups, *x, tlist, relids) {
            Some(m) => Some(m),
            None => find_computable_child(groups, more, tlist, relids),
        },
    }
}

/// The first member of the class that can be computed from the columns.
pub open spec fn ec_computable(
    ec: EquivalenceClass,
    tlist: List<TargetEntry>,
    relids: Relids,
) -> Option<(Expr, u32)> {
    match computable_member(ec.members, tlist, relids) {
        Some(m) => Some(m),
        None => computable_child(ec.childmembers, relids, tlist, relids),
    }
}

/// Finds a member of the class that can be computed from the columns of a
/// target list.
pub fn find_computable_ec_member_tlist(
    ec: &EquivalenceClass,
    tlist: &List<TargetEntry>,
    relids: &Relids,
) -> (r: Option<(Expr, u32)>)
    ensures
        r == ec_computable(*ec, *tlist, *relids),
{
    match find_computable(&ec.members, tlist, relids) {
        Some(m) => Some(m),
        None => find_computable_child(&ec.childmembers, relids, tlist, relids),
    }
}

/// The first column whose expression is a member of the class, and its type.
pub open spec fn column_in_class(
    ec: EquivalenceClass,
    tlist: List<TargetEntry>,
    relids: Relids,
) -> Option<(i16, u32)>
    decreases tlist,
{
    match tlist {
        List::Nil => None,
        List::Cons(t, more) => match ec_match(ec, t.expr, relids) {
            Some(typid) => Some((t.resno, typid)),
            None => column_in_class(ec, *more, relids),
        },
    }
}

fn find_column(
    ec: &EquivalenceClass,
    tlist: &List<TargetEntry>,
    relids: &Relids,
) -> (r: Option<(i16, u32)>)
    ensures
        r == column_in_class(*ec, *tlist, *relids),
    decreases tlist,
{
    match tlist {
        List::Nil => None,
        List::Cons(t, more) => match find_ec_member_matching_expr(ec, &t.expr, relids) {
            Some(typid) => Some((t.resno, typid)),
            None => find_column(ec, more, relids),
        },
    }
}

/// The column with the given number, if its expression is a member.
pub open spec fn required_column(
    ec: EquivalenceClass,
    tlist: List<TargetEntry>,
    relids: Relids,
    want: i16,
) -> Option<(i16, u32)>
    decreases tlist,
{
    match tlist {
        List::Nil => None,
        List::Cons(t, more) => if t.resno != want {
            required_column(ec, *more, relids, want)
        } else {
            match ec_match(ec, t.expr, relids) {
                Some(typid) => Some((t.resno, typid)),
                None => None,
            }
        },
    }
}

fn find_required(
    ec: &EquivalenceClass,
    tlist: &List<TargetEntry>,
    relids: &Relids,
    want: i16,
) -> (r: Option<(i16, u32)>)
    ensures
        r == required_column(*ec, *tlist, *relids, want),
    decreases tlist,
{
    match tlist {
        List::Nil => None,
        List::Cons(t, more) => if t.resno != want {
            find_required(ec, more, relids, want)
        } else {
            match find_ec_member_matching_expr(ec, &t.expr, relids) {
                Some(typid) => Some((t.resno, typid)),
                None => None,
            }
        },
    }
}

/// The column for one item of a sort order, if there is one: for a volatile
/// class the one that carries its label, else the one required, else the first
/// that is a member.
pub open spec fn key_column(
    ec: EquivalenceClass,
    tlist: List<TargetEntry>,
    relids: Relids,
    required: Option<i16>,
) -> Result<Option<(i16, u32)>, PlannerError> {
    if ec.has_volatile {
        if ec.sortref == 0 {
            Err(PlannerError::VolatileClassWithoutSortref)
        } else {
            match (crate::tlist::entry_for_ref(tlist, ec.sortref), ec.members) {
                (None, _) => Err(PlannerError::SortGroupRefNotFound),
                (Some(t), List::Cons(m, _)) => Ok(Some((t.resno, m.datatype))),
                (Some(t), List::Nil) => Err(PlannerError::PathkeyItemNotFound),
            }
        }
    } else {
        match required {
            Some(want) => Ok(required_column(ec, tlist, relids, want)),
            None => Ok(column_in_class(ec, tlist, relids)),
        }
    }
}

/// Finds the column for one item of a sort order.
pub fn find_key_column(
    ec: &EquivalenceClass,
    tlist: &List<TargetEntry>,
    relids: &Relids,
    required: Option<i16>,
) -> (r: Result<Option<(i16, u32)>, PlannerError>)
    ensures
        r == key_column(*ec, *tlist, *relids, required),
{
    if ec.has_volatile {
        if ec.sortref == 0 {
            return Err(PlannerError::VolatileClassWithoutSortref);
        }
        match sortgroupref_tle(ec.sortref, tlist) {
            None => Err(PlannerError::SortGroupRefNotFound),
            Some(t) => match &ec.members {
                List::Cons(m, _) => Ok(Some((t.resno, m.datatype))),
                List::Nil => Err(PlannerError::PathkeyItemNotFound),
            },
        }
    } else {
        match required {
            Some(want) => Ok(find_required(ec, tlist, relids, want)),
            None => Ok(find_column(ec, tlist, relids)),
        }
    }
}

/// The column for one item of a sort order; where none is there yet, one that
/// can be computed from the others is added at the end, marked as junk.
pub open spec fn key_column_added(
    ctx: SortContext,
    key: PathKey,
    tlist: List<TargetEntry>,
    relids: Relids,
    required: Option<i16>,
) -> Result<(List<TargetEntry>, SortColumn), PlannerError> {
    if key.eclass >= ctx.classes@.len() {
        Err(PlannerError::UnknownEquivalenceClass)
    } else {
        let ec = ctx.classes@[key.eclass as int];
        match key_column(ec, tlist, relids, required) {
            Err(e) => Err(e),
            Ok(Some((resno, typid))) => Ok((tlist, sort_column(key, ec, resno, typid))),
            Ok(None) => match ec_computable(ec, tlist, relids) {
                None => Err(PlannerError::PathkeyItemNotFound),
                Some((expr, typid)) => {
                    let resno = crate::expr::resno_after(tlist, 0);
                    let entry = crate::expr::plain_entry(
                        expr,
                        resno,
                        0,
                        true,
                    );
                    Ok(
                        (
                            tlist.then_list(List::Cons(entry, Box::new(List::Nil))),
                            sort_column(key, ec, resno, typid),
                        ),
                    )
                },
            },
        }
    }
}

/// How a column is sorted for an item of a sort order.
pub open spec fn sort_column(
    key: PathKey,
    ec: EquivalenceClass,
    resno: i16,
    typid: u32,
) -> SortColumn {
    SortColumn {
        resno,
        operator: OperatorKey { opfamily: key.opfamily, typid, test: key.direction },
        collation: ec.collation,
        nulls_first: key.nulls_first,
    }
}

fn add_key_column(
    ctx: &SortContext,
    key: PathKey,
    tlist: List<TargetEntry>,
    relids: &Relids,
    required: Option<i16>,
) -> (r: Result<(List<TargetEntry>, SortColumn), PlannerError>)
    ensures
        r == key_column_added(*ctx, key, tlist, *relids, required),
{
    let at: usize = key.eclass as usize;
    if at >= ctx.classes.len() {
        return Err(PlannerError::UnknownEquivalenceClass);
    }
    let ec = &ctx.classes[at];
    match find_key_column(ec, &tlist, relids, required) {
        Err(e) => Err(e),
        Ok(Some((resno, typid))) => Ok(
            (
                tlist,
                SortColumn {
                    resno,
                    operator: OperatorKey { opfamily: key.opfamily, typid, test: key.direction },
                    collation: ec.collation,
                    nulls_first: key.nulls_first,
                },
            ),
        ),
        Ok(None) => match find_computable_ec_member_tlist(ec, &tlist, relids) {
            None => Err(PlannerError::PathkeyItemNotFound),
            Some((expr, typid)) => {
                let resno: i16 = next_column(&tlist, 0);
                let entry = make_entry(
                    expr,
                    resno,
                    0,
                    true,
                );
                Ok(
                    (
                        tlist.append(List::one(entry)),
                        SortColumn {
                            resno,
                            operator: OperatorKey {
                                opfamily: key.opfamily,
                                typid,
                                test: key.direction,
                            },
                            collation: ec.collation,
                            nulls_first: key.nulls_first,
                        },
                    ),
                )
            },
        },
    }
}

/// The columns that a plan sorts by, with the target list as far as it had to
/// be extended for them. `required` pins each item to a column number.
#[derive(Debug)]
pub struct SortColumns {
    pub tlist: List<TargetEntry>,
    pub columns: List<SortColumn>,
}

/// The columns for a sort order.
pub open spec fn sort_columns(
    ctx: SortContext,
    pathkeys: List<PathKey>,
    tlist: List<TargetEntry>,
    relids: Relids,
    required: Option<List<i16>>,
) -> Result<SortColumns, PlannerError>
    decreases pathkeys,
{
    match pathkeys {
        List::Nil => Ok(SortColumns { tlist, columns: List::Nil }),
        List::Cons(key, more) => {
            let (want, rest) = match required {
                Some(List::Cons(w, ws)) => (Some(w), Some(*ws)),
                other => (None, other),
            };
            match key_column_added(ctx, key, tlist, relids, want) {
                Err(e) => Err(e),
                Ok((now, column)) => match sort_columns(ctx, *more, now, relids, rest) {
                    Err(e) => Err(e),
                    Ok(cols) => Ok(
                        SortColumns {
                            tlist: cols.tlist,
                            columns: List::Cons(column, Box::new(cols.columns)),
                        },
                    ),
                },
            }
        },
    }
}

/// Finds the columns for a sort order, adding columns that are marked as junk
/// where the target list lacks one.
pub fn prepare_sort_from_pathkeys(
    ctx: &SortContext,
    pathkeys: &List<PathKey>,
    tlist: List<TargetEntry>,
    relids: &Relids,
    required: Option<&List<i16>>,
) -> (r: Result<SortColumns, PlannerError>)
    ensures
        r == sort_columns(
            *ctx,
            *pathkeys,
            tlist,
            *relids,
            match required {
                Some(l) => Some(*l),
                None => None,
            },
        ),
    decreases pathkeys,
{
    match pathkeys {
        List::Nil => Ok(SortColumns { tlist, columns: List::Nil }),
        List::Cons(key, more) => {
            let mut want: Option<i16> = None;
            let mut rest: Option<&List<i16>> = required;
            if let Some(l) = required {
                if let List::Cons(w, ws) = l {
                    want = Some(*w);
                    rest = Some(ws);
                }
            }
            match add_key_column(ctx, *key, tlist, relids, want) {
                Err(e) => Err(e),
                Ok((now, column)) => match prepare_sort_from_pathkeys(
                    ctx,
                    more,
                    now,
                    relids,
                    rest,
                ) {
                    Err(e) => Err(e),
                    Ok(cols) => Ok(
                        SortColumns {
                            tlist: cols.tlist,
                            columns: List::Cons(column, Box::new(cols.columns)),
                        },
                    ),
                },
            }
        },
    }
}

/// There is one sort column for each item of the sort order, and the columns
/// that were there before stay in front.
pub proof fn lemma_sort_columns(
    ctx: SortContext,
    pathkeys: List<PathKey>,
    tlist: List<TargetEntry>,
    relids: Relids,
    required: Option<List<i16>>,
)
    ensures
        sort_columns(ctx, pathkeys, tlist, relids, required) matches Ok(cols) ==> {
            &&& cols.columns@.len() == pathkeys@.len()
            &&& tlist@.is_prefix_of(cols.tlist@)
        },
    decreases pathkeys,
{
    if let List::Cons(key, more) = pathkeys {
        let (want, rest) = match required {
            Some(List::Cons(w, ws)) => (Some(w), Some(*ws)),
            other => (None, other),
        };
        if let Ok((now, column)) = key_column_added(ctx, key, tlist, relids, want) {
            lemma_sort_columns(ctx, *more, now, relids, rest);
            if let Ok(cols) = sort_columns(ctx, *more, now, relids, rest) {
                assert(tlist@.is_prefix_of(now@)) by {
                    lemma_then_prefix(tlist, now);
                }
                assert forall|i: int| 0 <= i < tlist@.len() implies tlist@[i]
                    == cols.tlist@[i] by {
                    assert(tlist@[i] == now@[i]);
                }
                assert(tlist@ =~= cols.tlist@.take(tlist@.len() as int));
            }
        }
    }
}

proof fn lemma_then_prefix(a: List<TargetEntry>, b: List<TargetEntry>)
    requires
        a == b || exists|x: TargetEntry| b == #[trigger] a.then_list(
            List::Cons(x, Box::new(List::Nil)),
        ),
    ensures
        a@.is_prefix_of(b@),
{
    if a == b {
        assert(a@ =~= b@.take(a@.len() as int));
    } else {
        let x = choose|x: TargetEntry|
            b == #[trigger] a.then_list(List::Cons(x, Box::new(List::Nil)));
        crate::list::lemma_then_view(a, List::Cons(x, Box::new(List::Nil)));
        assert(a@ =~= b@.take(a@.len() as int));
    }
}

/// Every item of a sort order is sorted for as it says: in its direction, with
/// nulls on its side, under the collation of its values.
pub proof fn lemma_sort_directions(
    ctx: SortContext,
    pathkeys: List<PathKey>,
    tlist: List<TargetEntry>,
    relids: Relids,
    required: Option<List<i16>>,
    i: int,
)
    requires
        0 <= i < pathkeys@.len(),
    ensures
        sort_columns(ctx, pathkeys, tlist, relids, required) matches Ok(cols) ==> {
            let key = pathkeys@[i];
            let column = cols.columns@[i];
            &&& cols.columns@.len() == pathkeys@.len()
            &&& column.operator.opfamily == key.opfamily
            &&& column.operator.test == key.direction
            &&& column.nulls_first == key.nulls_first
            &&& key.eclass < ctx.classes@.len()
            &&& column.collation == ctx.classes@[key.eclass as int].collation
        },
    decreases pathkeys,
{
    lemma_sort_columns(ctx, pathkeys, tlist, relids, required);
    if let List::Cons(key, more) = pathkeys {
        let (want, rest) = match required {
            Some(List::Cons(w, ws)) => (Some(w), Some(*ws)),
            other => (None, other),
        };
        assert(pathkeys@[0] == key);
        if let Ok((now, column)) = key_column_added(ctx, key, tlist, relids, want) {
            if let Ok(cols) = sort_columns(ctx, *more, now, relids, rest) {
                let all = sort_columns(ctx, pathkeys, tlist, relids, required)->Ok_0;
                assert(all.columns@[0] == column);
                if i > 0 {
                    lemma_sort_directions(ctx, *more, now, relids, rest, i - 1);
                    assert(pathkeys@[i] == more@[i - 1]);
                    assert(all.columns@[i] == cols.columns@[i - 1]);
                }
            }
        }
    }
}

} // verus!

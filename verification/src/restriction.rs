//! Clauses of a query with the relations that they concern.
use vstd::prelude::*;
use crate::expr::{equal, Expr, Head, Var};
use crate::list::List;
use crate::relids::{
    relids_add_member, relids_del_member, relids_equal, relids_is_member, relids_is_multiple,
    relids_is_subset, relids_singleton_member, Relids,
};

verus! {

/// A clause of a query.
#[derive(Debug)]
pub struct Restriction {
    pub id: u32,
    pub serial: i32,
    pub clause: Expr,
    /// The relations that the clause refers to.
    pub clause_relids: Relids,
    /// The relations that it can be evaluated at.
    pub required_relids: Relids,
    pub left_relids: Relids,
    pub right_relids: Relids,
    pub outer_relids: Relids,
    pub incompatible_relids: Relids,
    pub pushed_down: bool,
    pub has_clone: bool,
    pub is_clone: bool,
    pub can_join: bool,
    /// It is an equality that a merge join can use.
    pub mergeable: bool,
    pub security_level: u32,
    pub parent_ec: Option<u32>,
    pub num_base_rels: i32,
    /// The members of an equivalence class that its sides are.
    pub left_em: Option<u32>,
    pub right_em: Option<u32>,
}

impl Restriction {
    /// A second one that is the same.
    pub fn copy(&self) -> (r: Restriction)
        ensures
            r == *self,
    {
        Restriction {
            id: self.id,
            serial: self.serial,
            clause: self.clause.copy(),
            clause_relids: self.clause_relids.copy(),
            required_relids: self.required_relids.copy(),
            left_relids: self.left_relids.copy(),
            right_relids: self.right_relids.copy(),
            outer_relids: self.outer_relids.copy(),
            incompatible_relids: self.incompatible_relids.copy(),
            pushed_down: self.pushed_down,
            has_clone: self.has_clone,
            is_clone: self.is_clone,
            can_join: self.can_join,
            mergeable: self.mergeable,
            security_level: self.security_level,
            parent_ec: self.parent_ec,
            num_base_rels: self.num_base_rels,
            left_em: self.left_em,
            right_em: self.right_em,
        }
    }
}

/// The clause comes from above a join.
pub open spec fn is_pushed_down(r: Restriction, joinrelids: Relids) -> bool {
    r.pushed_down || !crate::relids::ids(r.required_relids).subset_of(
        crate::relids::ids(joinrelids),
    )
}

/// Does the clause come from above a join?
pub fn rinfo_is_pushed_down(r: &Restriction, joinrelids: &Relids) -> (b: bool)
    ensures
        b == is_pushed_down(*r, *joinrelids),
{
    r.pushed_down || !relids_is_subset(&r.required_relids, joinrelids)
}

/// Which side of the clause belongs to the outer relations, where the other
/// belongs to the inner ones.
pub open spec fn outer_is_left(r: Restriction, outer: Relids, inner: Relids) -> Option<bool> {
    let l = crate::relids::ids(r.left_relids);
    let h = crate::relids::ids(r.right_relids);
    let o = crate::relids::ids(outer);
    let i = crate::relids::ids(inner);
    if l.subset_of(o) && h.subset_of(i) {
        Some(true)
    } else if l.subset_of(i) && h.subset_of(o) {
        Some(false)
    } else {
        None
    }
}

/// Finds which side of the clause belongs to the outer relations.
pub fn clause_sides_match_join(r: &Restriction, outer: &Relids, inner: &Relids) -> (s: Option<bool>)
    ensures
        s == outer_is_left(*r, *outer, *inner),
{
    if relids_is_subset(&r.left_relids, outer) && relids_is_subset(&r.right_relids, inner) {
        Some(true)
    } else if relids_is_subset(&r.left_relids, inner) && relids_is_subset(&r.right_relids, outer) {
        Some(false)
    } else {
        None
    }
}

/// The relations, where one is replaced by another, or removed. The number 0,
/// which stands for the result of the query, is never replaced.
pub open spec fn adjusted_set(l: Relids, from: u32, to: Option<u32>) -> Relids {
    if from > 0 && crate::relids::ids(l).contains(from) {
        match to {
            Some(t) => crate::relids::ins(crate::relids::del(l, from), t),
            None => crate::relids::del(l, from),
        }
    } else {
        l
    }
}

/// Replaces a relation by another, or removes it.
pub fn adjust_relid_set(l: &Relids, from: u32, to: Option<u32>) -> (r: Relids)
    ensures
        r == adjusted_set(*l, from, to),
{
    if from > 0 && relids_is_member(from, l) {
        let rest = relids_del_member(l, from);
        match to {
            Some(t) => relids_add_member(&rest, t),
            None => rest,
        }
    } else {
        l.copy()
    }
}

/// Afterwards the relation is gone, and the other one stands in its place if
/// it was there; all others stay.
pub proof fn lemma_adjusted_set(l: Relids, from: u32, to: Option<u32>)
    requires
        from > 0,
        to != Some(from),
    ensures
        !crate::relids::ids(adjusted_set(l, from, to)).contains(from),
        crate::relids::ids(adjusted_set(l, from, to)) =~= if crate::relids::ids(l).contains(from) {
            match to {
                Some(t) => crate::relids::ids(l).remove(from).insert(t),
                None => crate::relids::ids(l).remove(from),
            }
        } else {
            crate::relids::ids(l)
        },
{
    crate::relids::lemma_del(l, from);
    if let Some(t) = to {
        crate::relids::lemma_ins(crate::relids::del(l, from), t);
    }
}

/// The number by which columns refer to a relation.
pub open spec fn refers_to(varno: i32, relid: u32) -> bool {
    varno == relid as int
}

/// What columns of a relation that is no more refer to.
pub const NO_RELATION: i32 = -1;

/// The number by which columns refer to a relation, or to none.
pub open spec fn new_varno(to: Option<u32>) -> i32 {
    match to {
        Some(t) if t <= i32::MAX => t as i32,
        _ => NO_RELATION,
    }
}

/// The expression, where columns of one relation are those of another, or of
/// none.
pub open spec fn renamed(e: Expr, from: u32, to: Option<u32>) -> Expr
    decreases e,
{
    match e {
        Expr::Var(v) => if v.levelsup == 0 {
            Expr::Var(
                Var {
                    varno: if refers_to(v.varno, from) {
                        new_varno(to)
                    } else {
                        v.varno
                    },
                    nullingrels: adjusted_set(v.nullingrels, from, to),
                    ..v
                },
            )
        } else {
            e
        },
        Expr::PlaceHolder { phid, levelsup, nullingrels, eval_at, expr } => if levelsup == 0 {
            Expr::PlaceHolder {
                phid,
                levelsup,
                nullingrels: adjusted_set(nullingrels, from, to),
                eval_at: adjusted_set(eval_at, from, to),
                expr: Box::new(renamed(*expr, from, to)),
            }
        } else {
            Expr::PlaceHolder {
                phid,
                levelsup,
                nullingrels,
                eval_at,
                expr: Box::new(renamed(*expr, from, to)),
            }
        },
        Expr::Relabel { typid, collation, arg } => Expr::Relabel {
            typid,
            collation,
            arg: Box::new(renamed(*arg, from, to)),
        },
        Expr::Call { head, args } => Expr::Call {
            head,
            args: Box::new(renamed_list(*args, from, to)),
        },
        _ => e,
    }
}

/// The expressions, where columns of one relation are those of another.
pub open spec fn renamed_list(l: List<Expr>, from: u32, to: Option<u32>) -> List<Expr>
    decreases l,
{
    match l {
        List::Nil => List::Nil,
        List::Cons(x, xs) => List::Cons(renamed(x, from, to), Box::new(renamed_list(*xs, from, to))),
    }
}

/// Makes columns of one relation those of another.
pub fn rename_relation(e: Expr, from: u32, to: Option<u32>) -> (r: Expr)
    ensures
        r == renamed(e, from, to),
    decreases e,
{
    match e {
        Expr::Var(v) => {
            let mut v = v;
            if v.levelsup == 0 {
                if v.varno >= 0 && v.varno as u32 == from {
                    v.varno = match to {
                        Some(t) => if t <= i32::MAX as u32 {
                            t as i32
                        } else {
                            NO_RELATION
                        },
                        None => NO_RELATION,
                    };
                }
                v.nullingrels = adjust_relid_set(&v.nullingrels, from, to);
            }
            Expr::Var(v)
        },
        Expr::PlaceHolder { phid, levelsup, nullingrels, eval_at, expr } => {
            let expr = Box::new(rename_relation(*expr, from, to));
            if levelsup == 0 {
                Expr::PlaceHolder {
                    phid,
                    levelsup,
                    nullingrels: adjust_relid_set(&nullingrels, from, to),
                    eval_at: adjust_relid_set(&eval_at, from, to),
                    expr,
                }
            } else {
                Expr::PlaceHolder { phid, levelsup, nullingrels, eval_at, expr }
            }
        },
        Expr::Relabel { typid, collation, arg } => Expr::Relabel {
            typid,
            collation,
            arg: Box::new(rename_relation(*arg, from, to)),
        },
        Expr::Call { head, args } => Expr::Call {
            head,
            args: Box::new(rename_relation_list(*args, from, to)),
        },
        other => other,
    }
}

/// Makes columns of one relation those of another in a list.
pub fn rename_relation_list(l: List<Expr>, from: u32, to: Option<u32>) -> (r: List<Expr>)
    ensures
        r == renamed_list(l, from, to),
    decreases l,
{
    match l {
        List::Nil => List::Nil,
        List::Cons(x, xs) => List::Cons(
            rename_relation(x, from, to),
            Box::new(rename_relation_list(*xs, from, to)),
        ),
    }
}

/// The expression refers to the relation.
pub open spec fn mentions(e: Expr, relid: u32) -> bool
    decreases e,
{
    match e {
        Expr::Var(v) => v.levelsup == 0 && (refers_to(v.varno, relid) || crate::relids::ids(
            v.nullingrels,
        ).contains(relid)),
        Expr::PlaceHolder { phid, levelsup, nullingrels, eval_at, expr } => (levelsup == 0 && (
        crate::relids::ids(nullingrels).contains(relid) || crate::relids::ids(eval_at).contains(
            relid,
        ))) || mentions(*expr, relid),
        Expr::Relabel { typid, collation, arg } => mentions(*arg, relid),
        Expr::Call { head, args } => list_mentions(*args, relid),
        _ => false,
    }
}

/// Some expression refers to the relation.
pub open spec fn list_mentions(l: List<Expr>, relid: u32) -> bool
    decreases l,
{
    match l {
        List::Nil => false,
        List::Cons(x, xs) => mentions(x, relid) || list_mentions(*xs, relid),
    }
}

/// Once the columns of a relation are those of another, nothing refers to it.
pub proof fn lemma_renamed(e: Expr, from: u32, to: Option<u32>)
    requires
        from > 0,
        to != Some(from),
    ensures
        !mentions(renamed(e, from, to), from),
    decreases e,
{
    match e {
        Expr::Var(v) => {
            lemma_adjusted_set(v.nullingrels, from, to);
        },
        Expr::PlaceHolder { phid, levelsup, nullingrels, eval_at, expr } => {
            lemma_adjusted_set(nullingrels, from, to);
            lemma_adjusted_set(eval_at, from, to);
            lemma_renamed(*expr, from, to);
        },
        Expr::Relabel { typid, collation, arg } => {
            lemma_renamed(*arg, from, to);
        },
        Expr::Call { head, args } => {
            lemma_renamed_list(*args, from, to);
        },
        _ => {},
    }
}

proof fn lemma_renamed_list(l: List<Expr>, from: u32, to: Option<u32>)
    requires
        from > 0,
        to != Some(from),
    ensures
        !list_mentions(renamed_list(l, from, to), from),
    decreases l,
{
    if let List::Cons(x, xs) = l {
        lemma_renamed(x, from, to);
        lemma_renamed_list(*xs, from, to);
    }
}

/// The clause, where one relation is replaced by another. A comparison of a
/// column with itself, which that may lead to, tests that it is not null.
pub open spec fn replaced(r: Restriction, from: u32, to: u32) -> Restriction {
    let t = Some(to);
    let c = crate::relids::ids(r.clause_relids);
    let touched = c.contains(from) || crate::relids::ids(r.required_relids).contains(from);
    let clause = if touched {
        renamed(r.clause, from, t)
    } else {
        r.clause
    };
    let clause_relids = if touched {
        adjusted_set(r.clause_relids, from, t)
    } else {
        r.clause_relids
    };
    let required_equal = crate::relids::ids(r.required_relids) == c;
    let same_sides = crate::relids::is_multiple(r.clause_relids) && r.mergeable
        && crate::relids::the_only(clause_relids) == t && is_self_comparison(clause);
    Restriction {
        clause: if same_sides {
            not_null_test(clause)
        } else {
            clause
        },
        clause_relids,
        left_relids: if touched {
            adjusted_set(r.left_relids, from, t)
        } else {
            r.left_relids
        },
        right_relids: if touched {
            adjusted_set(r.right_relids, from, t)
        } else {
            r.right_relids
        },
        num_base_rels: if from > 0 && from != to && c.contains(from) && c.contains(to)
            && r.num_base_rels > i32::MIN {
            (r.num_base_rels - 1) as i32
        } else {
            r.num_base_rels
        },
        required_relids: if required_equal {
            clause_relids
        } else {
            adjusted_set(r.required_relids, from, t)
        },
        outer_relids: adjusted_set(r.outer_relids, from, t),
        incompatible_relids: adjusted_set(r.incompatible_relids, from, t),
        mergeable: r.mergeable && !same_sides,
        left_em: if same_sides {
            None
        } else {
            r.left_em
        },
        right_em: if same_sides {
            None
        } else {
            r.right_em
        },
        ..r
    }
}

/// An operator applied to two equal operands.
pub open spec fn is_self_comparison(e: Expr) -> bool {
    match e {
        Expr::Call { head, args } => head is Op && match *args {
            List::Cons(a, rest) => match *rest {
                List::Cons(b, end) => *end is Nil && crate::expr::same_expr(a, b),
                List::Nil => false,
            },
            List::Nil => false,
        },
        _ => false,
    }
}

/// The test that the first operand is not null.
pub open spec fn not_null_test(e: Expr) -> Expr {
    match e {
        Expr::Call { head, args } => match *args {
            List::Cons(a, _) => Expr::Call {
                head: Head::NullTest { is_null: false },
                args: Box::new(List::Cons(a, Box::new(List::Nil))),
            },
            List::Nil => e,
        },
        _ => e,
    }
}

fn compares_itself(e: &Expr) -> (r: bool)
    ensures
        r == is_self_comparison(*e),
{
    match e {
        Expr::Call { head, args } => {
            let op = match head {
                Head::Op { .. } => true,
                _ => false,
            };
            op && match &**args {
                List::Cons(a, rest) => match &**rest {
                    List::Cons(b, end) => end.is_nil() && equal(a, b),
                    List::Nil => false,
                },
                List::Nil => false,
            }
        },
        _ => false,
    }
}

fn make_not_null_test(e: Expr) -> (r: Expr)
    ensures
        r == not_null_test(e),
{
    match e {
        Expr::Call { head, args } => match *args {
            List::Cons(a, _) => Expr::Call {
                head: Head::NullTest { is_null: false },
                args: Box::new(List::one(a)),
            },
            List::Nil => Expr::Call { head, args: Box::new(List::Nil) },
        },
        other => other,
    }
}

/// Replaces one relation by another in a clause.
pub fn replace_relid_rinfo(r: Restriction, from: u32, to: u32) -> (s: Restriction)
    ensures
        s == replaced(r, from, to),
{
    let mut r = r;
    let required_equal = relids_equal(&r.required_relids, &r.clause_relids);
    let was_multiple = relids_is_multiple(&r.clause_relids);
    let in_clause = relids_is_member(from, &r.clause_relids);
    let touched = in_clause || relids_is_member(from, &r.required_relids);
    if from > 0 && from != to && in_clause && relids_is_member(to, &r.clause_relids)
        && r.num_base_rels > i32::MIN {
        r.num_base_rels = r.num_base_rels - 1;
    }
    if touched {
        r.clause = rename_relation(r.clause, from, Some(to));
        r.clause_relids = adjust_relid_set(&r.clause_relids, from, Some(to));
        r.left_relids = adjust_relid_set(&r.left_relids, from, Some(to));
        r.right_relids = adjust_relid_set(&r.right_relids, from, Some(to));
    }
    if required_equal {
        r.required_relids = r.clause_relids.copy();
    } else {
        r.required_relids = adjust_relid_set(&r.required_relids, from, Some(to));
    }
    r.outer_relids = adjust_relid_set(&r.outer_relids, from, Some(to));
    r.incompatible_relids = adjust_relid_set(&r.incompatible_relids, from, Some(to));
    let only = match relids_singleton_member(&r.clause_relids) {
        Some(x) => x == to,
        None => false,
    };
    if was_multiple && r.mergeable && only && compares_itself(&r.clause) {
        r.clause = make_not_null_test(r.clause);
        r.mergeable = false;
        r.left_em = None;
        r.right_em = None;
    }
    r
}

/// Once a relation is replaced by another, the clause concerns it no more.
pub proof fn lemma_replaced(r: Restriction, from: u32, to: u32)
    requires
        from > 0,
        from != to,
    ensures
        ({
            let s = replaced(r, from, to);
            &&& !crate::relids::ids(s.clause_relids).contains(from)
            &&& !crate::relids::ids(s.required_relids).contains(from)
            &&& !crate::relids::ids(s.outer_relids).contains(from)
            &&& !crate::relids::ids(s.incompatible_relids).contains(from)
        }),
{
    lemma_adjusted_set(r.clause_relids, from, Some(to));
    lemma_adjusted_set(r.required_relids, from, Some(to));
    lemma_adjusted_set(r.outer_relids, from, Some(to));
    lemma_adjusted_set(r.incompatible_relids, from, Some(to));
}

/// The clause without an outer join and its inner relation.
pub open spec fn without_join(r: Restriction, relid: u32, ojrelid: u32) -> Restriction {
    Restriction {
        clause_relids: crate::relids::del(crate::relids::del(r.clause_relids, relid), ojrelid),
        required_relids: crate::relids::del(
            crate::relids::del(r.required_relids, relid),
            ojrelid,
        ),
        ..r
    }
}

/// Removes an outer join and its inner relation from a clause.
pub fn remove_rel_from_restrictinfo(r: Restriction, relid: u32, ojrelid: u32) -> (s: Restriction)
    ensures
        s == without_join(r, relid, ojrelid),
{
    let mut r = r;
    let c = relids_del_member(&r.clause_relids, relid);
    r.clause_relids = relids_del_member(&c, ojrelid);
    let q = relids_del_member(&r.required_relids, relid);
    r.required_relids = relids_del_member(&q, ojrelid);
    r
}

/// The clauses say the same, whatever their numbers.
pub open spec fn logically_equal(a: Restriction, b: Restriction) -> bool {
    &&& a.pushed_down == b.pushed_down
    &&& a.has_clone == b.has_clone
    &&& a.is_clone == b.is_clone
    &&& a.security_level == b.security_level
    &&& crate::relids::ids(a.required_relids) == crate::relids::ids(b.required_relids)
    &&& crate::relids::ids(a.incompatible_relids) == crate::relids::ids(b.incompatible_relids)
    &&& crate::relids::ids(a.outer_relids) == crate::relids::ids(b.outer_relids)
    &&& crate::expr::same_expr(a.clause, b.clause)
}

/// Do the clauses say the same, whatever their numbers?
pub fn restrict_infos_logically_equal(a: &Restriction, b: &Restriction) -> (r: bool)
    ensures
        r == logically_equal(*a, *b),
{
    a.pushed_down == b.pushed_down && a.has_clone == b.has_clone && a.is_clone == b.is_clone
        && a.security_level == b.security_level && relids_equal(
        &a.required_relids,
        &b.required_relids,
    ) && relids_equal(&a.incompatible_relids, &b.incompatible_relids) && relids_equal(
        &a.outer_relids,
        &b.outer_relids,
    ) && equal(&a.clause, &b.clause)
}

} // verus!

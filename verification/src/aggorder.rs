//! A sort order that suits as many ordered aggregates as possible.
use vstd::prelude::*;
use crate::expr::{strip_relabel, Expr};
use crate::list::List;
use crate::sortcols::PathKey;

verus! {

/// How two sort orders compare.
#[derive(Clone, Copy, Debug, PartialEq, Eq, Structural)]
pub enum KeysComparison {
    Equal,
    /// The second is a proper prefix of the first.
    Better1,
    /// The first is a proper prefix of the second.
    Better2,
    Different,
}

/// How two sort orders compare.
pub open spec fn keys_comparison(a: List<PathKey>, b: List<PathKey>) -> KeysComparison
    decreases a,
{
    match a {
        List::Nil => if b is Nil {
            KeysComparison::Equal
        } else {
            KeysComparison::Better2
        },
        List::Cons(x, xs) => match b {
            List::Nil => KeysComparison::Better1,
            List::Cons(y, ys) => if x == y {
                keys_comparison(*xs, *ys)
            } else {
                KeysComparison::Different
            },
        },
    }
}

/// Compares two sort orders.
pub fn compare_pathkeys(a: &List<PathKey>, b: &List<PathKey>) -> (r: KeysComparison)
    ensures
        r == keys_comparison(*a, *b),
    decreases a,
{
    match a {
        List::Nil => if b.is_nil() {
            KeysComparison::Equal
        } else {
            KeysComparison::Better2
        },
        List::Cons(x, xs) => match b {
            List::Nil => KeysComparison::Better1,
            List::Cons(y, ys) => if *x == *y {
                compare_pathkeys(xs, ys)
            } else {
                KeysComparison::Different
            },
        },
    }
}

/// The first order is a prefix of the second.
pub open spec fn is_prefix(a: List<PathKey>, b: List<PathKey>) -> bool {
    keys_comparison(a, b) == KeysComparison::Equal || keys_comparison(a, b)
        == KeysComparison::Better2
}

/// The comparison says what it is about: prefixes, in one direction or the
/// other.
pub proof fn lemma_keys_comparison(a: List<PathKey>, b: List<PathKey>)
    ensures
        is_prefix(a, b) <==> a@.len() <= b@.len() && a@ =~= b@.subrange(0, a@.len() as int),
        keys_comparison(a, b) == KeysComparison::Equal <==> a == b,
        keys_comparison(a, b) == KeysComparison::Better1 <==> keys_comparison(b, a)
            == KeysComparison::Better2,
        keys_comparison(a, b) == KeysComparison::Different <==> keys_comparison(b, a)
            == KeysComparison::Different,
    decreases a,
{
    match a {
        List::Nil => {},
        List::Cons(x, xs) => match b {
            List::Nil => {},
            List::Cons(y, ys) => {
                lemma_keys_comparison(*xs, *ys);
                assert(a@.len() == xs@.len() + 1);
                assert(b@.len() == ys@.len() + 1);
                if a@.len() <= b@.len() {
                    let p = b@.subrange(0, a@.len() as int);
                    let q = ys@.subrange(0, xs@.len() as int);
                    assert(forall|i: int| 0 <= i < xs@.len() ==> p[i + 1] == #[trigger] q[i]);
                    assert(forall|i: int| 0 <= i < xs@.len() ==> a@[i + 1] == #[trigger] xs@[i]);
                    if a@ =~= p {
                        assert(a@[0] == p[0]);
                        assert forall|i: int| 0 <= i < xs@.len() implies xs@[i] == q[i] by {
                            assert(a@[i + 1] == p[i + 1]);
                        }
                        assert(xs@ =~= q);
                    }
                    if x == y && xs@ =~= q {
                        assert forall|i: int| 0 <= i < a@.len() implies a@[i] == p[i] by {
                            if i > 0 {
                                assert(a@[i] == xs@[i - 1]);
                                assert(p[i] == q[i - 1]);
                            }
                        }
                        assert(a@ =~= p);
                    }
                }
            },
        },
    }
}

proof fn lemma_prefix_transitive(a: List<PathKey>, b: List<PathKey>, c: List<PathKey>)
    requires
        is_prefix(a, b),
        is_prefix(b, c),
    ensures
        is_prefix(a, c),
    decreases a,
{
    if let List::Cons(x, xs) = a {
        if let List::Cons(y, ys) = b {
            if let List::Cons(z, zs) = c {
                lemma_prefix_transitive(*xs, *ys, *zs);
            }
        }
    }
}

/// An aggregate, as far as the order of its input goes.
#[derive(Debug)]
pub struct AggOrder {
    pub id: u32,
    /// An ordinary one, neither ordered-set nor hypothetical.
    pub normal: bool,
    /// It has DISTINCT or ORDER BY.
    pub ordered: bool,
    pub has_filter: bool,
    pub args: List<Expr>,
    /// Its order depends on a volatile function.
    pub volatile: bool,
    /// The order that it wants, behind that of the grouping.
    pub keys: List<PathKey>,
}

/// Evaluating the expressions cannot fail: they are columns or constants.
pub open spec fn all_plain(args: List<Expr>) -> bool
    decreases args,
{
    match args {
        List::Nil => true,
        List::Cons(x, xs) => (crate::expr::bare(x) is Var || crate::expr::bare(x) is Const)
            && all_plain(*xs),
    }
}

fn are_plain(args: &List<Expr>) -> (r: bool)
    ensures
        r == all_plain(*args),
    decreases args,
{
    match args {
        List::Nil => true,
        List::Cons(x, xs) => {
            let plain = match strip_relabel(x) {
                Expr::Var(_) => true,
                Expr::Const(_) => true,
                _ => false,
            };
            plain && are_plain(xs)
        },
    }
}

/// The input of the aggregate may be sorted ahead of it. Behind a filter that
/// takes arguments whose evaluation cannot fail, for they are evaluated before
/// the filter has removed rows.
pub open spec fn presortable(a: AggOrder) -> bool {
    a.normal && a.ordered && (!a.has_filter || all_plain(a.args))
}

/// The aggregates whose input may be sorted ahead of them.
pub open spec fn candidates(aggs: List<AggOrder>) -> List<AggOrder>
    decreases aggs,
{
    match aggs {
        List::Nil => List::Nil,
        List::Cons(a, rest) => if presortable(a) {
            List::Cons(a, Box::new(candidates(*rest)))
        } else {
            candidates(*rest)
        },
    }
}

fn select_candidates(aggs: List<AggOrder>) -> (r: List<AggOrder>)
    ensures
        r == candidates(aggs),
    decreases aggs,
{
    match aggs {
        List::Nil => List::Nil,
        List::Cons(a, rest) => {
            let ok = a.normal && a.ordered && (!a.has_filter || are_plain(&a.args));
            if ok {
                List::Cons(a, Box::new(select_candidates(*rest)))
            } else {
                select_candidates(*rest)
            }
        },
    }
}

/// One pass over the aggregates: the ones that share an order, the order, and
/// the ones that are left for a later pass.
#[derive(Debug)]
pub struct Pass {
    pub taken: List<u32>,
    pub keys: Option<List<PathKey>>,
    pub left: List<AggOrder>,
}

/// One pass over the aggregates, where `keys` is the order of those taken so
/// far. An aggregate joins where its order extends that one or is extended by
/// it. One that depends on a volatile function is dropped.
pub open spec fn pass(aggs: List<AggOrder>, keys: Option<List<PathKey>>) -> Pass
    decreases aggs,
{
    match aggs {
        List::Nil => Pass { taken: List::Nil, keys, left: List::Nil },
        List::Cons(a, rest) => {
            let joins = match keys {
                None => true,
                Some(k) => keys_comparison(k, a.keys) != KeysComparison::Different,
            };
            if a.volatile {
                pass(*rest, keys)
            } else if joins {
                let next = match keys {
                    None => a.keys,
                    Some(k) => if keys_comparison(k, a.keys) == KeysComparison::Better2 {
                        a.keys
                    } else {
                        k
                    },
                };
                let p = pass(*rest, Some(next));
                Pass { taken: List::Cons(a.id, Box::new(p.taken)), ..p }
            } else {
                let p = pass(*rest, keys);
                Pass { left: List::Cons(a, Box::new(p.left)), ..p }
            }
        },
    }
}

fn run_pass(aggs: List<AggOrder>, keys: Option<List<PathKey>>) -> (r: Pass)
    ensures
        r == pass(aggs, keys),
    decreases aggs,
{
    match aggs {
        List::Nil => Pass { taken: List::Nil, keys, left: List::Nil },
        List::Cons(a, rest) => {
            if a.volatile {
                return run_pass(*rest, keys);
            }
            match keys {
                None => {
                    let id: u32 = a.id;
                    let p = run_pass(*rest, Some(a.keys));
                    Pass { taken: List::Cons(id, Box::new(p.taken)), keys: p.keys, left: p.left }
                },
                Some(k) => match compare_pathkeys(&k, &a.keys) {
                    KeysComparison::Different => {
                        let p = run_pass(*rest, Some(k));
                        Pass {
                            taken: p.taken,
                            keys: p.keys,
                            left: List::Cons(a, Box::new(p.left)),
                        }
                    },
                    KeysComparison::Better2 => {
                        let id: u32 = a.id;
                        let p = run_pass(*rest, Some(a.keys));
                        Pass {
                            taken: List::Cons(id, Box::new(p.taken)),
                            keys: p.keys,
                            left: p.left,
                        }
                    },
                    _ => {
                        let p = run_pass(*rest, Some(k));
                        Pass {
                            taken: List::Cons(a.id, Box::new(p.taken)),
                            keys: p.keys,
                            left: p.left,
                        }
                    },
                },
            }
        },
    }
}

/// The first list is longer.
pub open spec fn is_longer<A, B>(a: List<A>, b: List<B>) -> bool
    decreases a,
{
    match a {
        List::Nil => false,
        List::Cons(_, xs) => match b {
            List::Nil => true,
            List::Cons(_, ys) => is_longer(*xs, *ys),
        },
    }
}

/// Is the first list longer?
pub fn longer<A, B>(a: &List<A>, b: &List<B>) -> (r: bool)
    ensures
        r == is_longer(*a, *b),
    decreases a,
{
    match a {
        List::Nil => false,
        List::Cons(_, xs) => match b {
            List::Nil => true,
            List::Cons(_, ys) => longer(xs, ys),
        },
    }
}

/// Comparing lists by length is comparing their lengths.
pub proof fn lemma_longer<A, B>(a: List<A>, b: List<B>)
    ensures
        is_longer(a, b) <==> a@.len() > b@.len(),
    decreases a,
{
    if let List::Cons(_, xs) = a {
        if let List::Cons(_, ys) = b {
            lemma_longer(*xs, *ys);
        }
    }
}

/// A pass leaves fewer aggregates than it was given.
proof fn lemma_pass_shrinks(aggs: List<AggOrder>, keys: Option<List<PathKey>>)
    ensures
        pass(aggs, keys).left@.len() <= aggs@.len(),
        keys is None && !(aggs is Nil) ==> pass(aggs, keys).left@.len() < aggs@.len(),
        pass(aggs, keys).taken@.len() <= aggs@.len(),
    decreases aggs,
{
    if let List::Cons(a, rest) = aggs {
        let next = match keys {
            None => a.keys,
            Some(k) => if keys_comparison(k, a.keys) == KeysComparison::Better2 {
                a.keys
            } else {
                k
            },
        };
        lemma_pass_shrinks(*rest, keys);
        lemma_pass_shrinks(*rest, Some(next));
    }
}

/// The order that suits the most aggregates, with those aggregates: the pass
/// that took the most, where passes go on for as long as more are left than
/// the best has taken.
pub open spec fn best_pass(aggs: List<AggOrder>, best: Pass) -> Pass
    decreases aggs@.len(),
    via best_pass_decreases
{
    if !is_longer(aggs, best.taken) {
        best
    } else {
        let p = pass(aggs, None);
        if is_longer(p.taken, best.taken) {
            best_pass(p.left, p)
        } else {
            best_pass(p.left, best)
        }
    }
}

#[via_fn]
proof fn best_pass_decreases(aggs: List<AggOrder>, best: Pass) {
    lemma_pass_shrinks(aggs, None);
    lemma_longer(aggs, best.taken);
}

fn copy_left(l: &List<AggOrder>) -> (r: List<AggOrder>)
    ensures
        r == *l,
    decreases l,
{
    match l {
        List::Nil => List::Nil,
        List::Cons(a, rest) => {
            let c = AggOrder {
                id: a.id,
                normal: a.normal,
                ordered: a.ordered,
                has_filter: a.has_filter,
                args: crate::expr::copy_exprs(&a.args),
                volatile: a.volatile,
                keys: a.keys.copy(),
            };
            List::Cons(c, Box::new(copy_left(rest)))
        },
    }
}

fn find_best_pass(aggs: List<AggOrder>, best: Pass) -> (r: Pass)
    ensures
        r == best_pass(aggs, best),
    decreases aggs@.len(),
{
    if !longer(&aggs, &best.taken) {
        return best;
    }
    proof {
        lemma_pass_shrinks(aggs, None);
        lemma_longer(aggs, best.taken);
    }
    let p = run_pass(aggs, None);
    let left = copy_left(&p.left);
    if longer(&p.taken, &best.taken) {
        find_best_pass(left, p)
    } else {
        find_best_pass(left, best)
    }
}

/// Nothing taken yet.
pub open spec fn no_pass() -> Pass {
    Pass { taken: List::Nil, keys: None, left: List::Nil }
}

/// The order of the grouping that suits its ordered aggregates: the given one,
/// or a longer one that suits the most of them.
pub open spec fn group_order(group: List<PathKey>, aggs: List<AggOrder>, enabled: bool) -> List<
    PathKey,
> {
    if !enabled {
        group
    } else {
        match best_pass(candidates(aggs), no_pass()).keys {
            Some(k) if !(k is Nil) => k,
            _ => group,
        }
    }
}

/// The aggregates whose input then comes sorted.
pub open spec fn presorted(aggs: List<AggOrder>, enabled: bool) -> List<u32> {
    if !enabled {
        List::Nil
    } else {
        best_pass(candidates(aggs), no_pass()).taken
    }
}

/// Extends the order of a grouping so that it suits as many ordered aggregates
/// as possible, and tells which they are.
pub fn adjust_group_pathkeys_for_groupagg(
    group: List<PathKey>,
    aggs: List<AggOrder>,
    enabled: bool,
) -> (r: (List<PathKey>, List<u32>))
    ensures
        r.0 == group_order(group, aggs, enabled),
        r.1 == presorted(aggs, enabled),
{
    if !enabled {
        return (group, List::Nil);
    }
    let none = Pass { taken: List::Nil, keys: None, left: List::Nil };
    let best = find_best_pass(select_candidates(aggs), none);
    let keys = match best.keys {
        Some(k) => if k.is_nil() {
            group
        } else {
            k
        },
        None => group,
    };
    (keys, best.taken)
}

/// Some aggregate of the list has the number and wants an order that `keys`
/// begins with.
pub open spec fn suits_one(aggs: List<AggOrder>, id: u32, keys: List<PathKey>) -> bool
    decreases aggs,
{
    match aggs {
        List::Nil => false,
        List::Cons(a, rest) => (a.id == id && !a.volatile && is_prefix(a.keys, keys)) || suits_one(
            *rest,
            id,
            keys,
        ),
    }
}

proof fn lemma_pass_suits(aggs: List<AggOrder>, keys: Option<List<PathKey>>, i: int)
    ensures
        pass(aggs, keys).keys is None ==> pass(aggs, keys).taken is Nil && keys is None,
        keys matches Some(k) ==> pass(aggs, keys).keys is Some && is_prefix(
            k,
            pass(aggs, keys).keys->0,
        ),
        0 <= i < pass(aggs, keys).taken@.len() ==> suits_one(
            aggs,
            pass(aggs, keys).taken@[i],
            pass(aggs, keys).keys->0,
        ),
    decreases aggs,
{
    match aggs {
        List::Nil => {
            if let Some(k) = keys {
                lemma_keys_comparison(k, k);
            }
        },
        List::Cons(a, rest) => {
            let joins = match keys {
                None => true,
                Some(k) => keys_comparison(k, a.keys) != KeysComparison::Different,
            };
            if a.volatile {
                lemma_pass_suits(*rest, keys, i);
            } else if joins {
                let next = match keys {
                    None => a.keys,
                    Some(k) => if keys_comparison(k, a.keys) == KeysComparison::Better2 {
                        a.keys
                    } else {
                        k
                    },
                };
                lemma_pass_suits(*rest, Some(next), i - 1);
                let end = pass(*rest, Some(next)).keys->0;
                lemma_keys_comparison(a.keys, a.keys);
                if let Some(k) = keys {
                    lemma_keys_comparison(k, k);
                    lemma_keys_comparison(k, a.keys);
                    lemma_keys_comparison(a.keys, k);
                    lemma_prefix_transitive(k, next, end);
                }
                assert(is_prefix(a.keys, next));
                lemma_prefix_transitive(a.keys, next, end);
                if 0 < i < pass(aggs, keys).taken@.len() {
                    assert(pass(aggs, keys).taken@[i] == pass(*rest, Some(next)).taken@[i - 1]);
                }
            } else {
                lemma_pass_suits(*rest, keys, i);
            }
        },
    }
}

proof fn lemma_left_suits(
    aggs: List<AggOrder>,
    keys: Option<List<PathKey>>,
    id: u32,
    order: List<PathKey>,
)
    ensures
        suits_one(pass(aggs, keys).left, id, order) ==> suits_one(aggs, id, order),
    decreases aggs,
{
    if let List::Cons(a, rest) = aggs {
        let next = match keys {
            None => a.keys,
            Some(k) => if keys_comparison(k, a.keys) == KeysComparison::Better2 {
                a.keys
            } else {
                k
            },
        };
        lemma_left_suits(*rest, keys, id, order);
        lemma_left_suits(*rest, Some(next), id, order);
    }
}

proof fn lemma_best_suits(all: List<AggOrder>, aggs: List<AggOrder>, best: Pass, i: int)
    requires
        0 <= i < best_pass(aggs, best).taken@.len(),
        0 <= i < best.taken@.len() ==> best.keys is Some && suits_one(
            all,
            best.taken@[i],
            best.keys->0,
        ),
        best.keys is None ==> best.taken is Nil,
        forall|id: u32, order: List<PathKey>|
            #[trigger] suits_one(aggs, id, order) ==> suits_one(all, id, order),
    ensures
        best_pass(aggs, best).keys is Some,
        suits_one(all, best_pass(aggs, best).taken@[i], best_pass(aggs, best).keys->0),
    decreases aggs@.len(),
{
    if is_longer(aggs, best.taken) {
        let p = pass(aggs, None);
        lemma_pass_shrinks(aggs, None);
        lemma_longer(aggs, best.taken);
        lemma_pass_suits(aggs, None, i);
        assert forall|id: u32, order: List<PathKey>|
            #[trigger] suits_one(p.left, id, order) implies suits_one(all, id, order) by {
            lemma_left_suits(aggs, None, id, order);
        }
        if is_longer(p.taken, best.taken) {
            lemma_best_suits(all, p.left, p, i);
        } else {
            lemma_best_suits(all, p.left, best, i);
        }
    }
}

/// Every aggregate whose input is said to come sorted wants an order that the
/// chosen one begins with.
pub proof fn lemma_presorted_suited(group: List<PathKey>, aggs: List<AggOrder>, i: int)
    requires
        0 <= i < presorted(aggs, true)@.len(),
    ensures
        suits_one(
            candidates(aggs),
            presorted(aggs, true)@[i],
            best_pass(candidates(aggs), no_pass()).keys->0,
        ),
        group_order(group, aggs, true) == best_pass(candidates(aggs), no_pass()).keys->0 || best_pass(
            candidates(aggs),
            no_pass(),
        ).keys->0 is Nil,
{
    lemma_best_suits(candidates(aggs), candidates(aggs), no_pass(), i);
}

/// No pass over the aggregates takes more than are said to come sorted.
pub proof fn lemma_presorted_most(aggs: List<AggOrder>)
    ensures
        pass(candidates(aggs), None).taken@.len() <= presorted(aggs, true)@.len(),
{
    let c = candidates(aggs);
    let p = pass(c, None);
    lemma_pass_shrinks(c, None);
    lemma_longer(c, no_pass().taken);
    lemma_longer(p.taken, no_pass().taken);
    if is_longer(c, no_pass().taken) {
        if is_longer(p.taken, no_pass().taken) {
            lemma_best_grows(p.left, p);
        }
    }
}

proof fn lemma_best_grows(aggs: List<AggOrder>, best: Pass)
    ensures
        best_pass(aggs, best).taken@.len() >= best.taken@.len(),
    decreases aggs@.len(),
{
    if is_longer(aggs, best.taken) {
        let p = pass(aggs, None);
        lemma_pass_shrinks(aggs, None);
        lemma_longer(aggs, best.taken);
        lemma_longer(p.taken, best.taken);
        if is_longer(p.taken, best.taken) {
            lemma_best_grows(p.left, p);
        } else {
            lemma_best_grows(p.left, best);
        }
    }
}

} // verus!

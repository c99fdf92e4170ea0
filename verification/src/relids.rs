//! Sets of relation numbers.
use vstd::prelude::*;
use crate::list::{lemma_cons_contains, list_has, List};

verus! {

/// A set of relation numbers, kept as a list.
pub type Relids = List<u32>;

/// The numbers in the set.
pub open spec fn ids(r: Relids) -> Set<u32> {
    r@.to_set()
}

proof fn lemma_ids_cons(head: u32, tail: Relids)
    ensures
        ids(List::Cons(head, Box::new(tail))) == ids(tail).insert(head),
{
    let all = List::Cons(head, Box::new(tail));
    assert forall|x: u32| ids(all).contains(x) <==> #[trigger] ids(tail).insert(head).contains(x) by {
        lemma_cons_contains(head, tail, x);
    }
    assert(ids(all) =~= ids(tail).insert(head));
}

proof fn lemma_ids_nil()
    ensures
        ids(List::Nil) == Set::<u32>::empty(),
{
    let none: Relids = List::Nil;
    assert(none@ =~= Seq::<u32>::empty());
    assert(ids(none) =~= Set::<u32>::empty());
}

/// Is `x` in the set?
pub fn relids_is_member(x: u32, r: &Relids) -> (b: bool)
    ensures
        b == ids(*r).contains(x),
{
    list_has(r, x)
}

/// Is the set empty?
pub fn relids_is_empty(r: &Relids) -> (b: bool)
    ensures
        b == (ids(*r) == Set::<u32>::empty()),
{
    proof {
        match r {
            List::Nil => {
                lemma_ids_nil();
            },
            List::Cons(head, tail) => {
                lemma_ids_cons(*head, **tail);
                assert(ids(*r).contains(*head));
            },
        }
    }
    r.is_nil()
}

/// Is every number of `a` in `b`?
pub fn relids_is_subset(a: &Relids, b: &Relids) -> (r: bool)
    ensures
        r == ids(*a).subset_of(ids(*b)),
    decreases a,
{
    match a {
        List::Nil => {
            proof {
                lemma_ids_nil();
            }
            true
        },
        List::Cons(head, tail) => {
            proof {
                lemma_ids_cons(*head, **tail);
                assert(ids(*a).contains(*head));
                assert(ids(**tail).subset_of(ids(*a)));
            }
            relids_is_member(*head, b) && relids_is_subset(tail, b)
        },
    }
}

/// Are the two sets equal?
pub fn relids_equal(a: &Relids, b: &Relids) -> (r: bool)
    ensures
        r == (ids(*a) == ids(*b)),
{
    let r = relids_is_subset(a, b) && relids_is_subset(b, a);
    proof {
        if r {
            assert(ids(*a) =~= ids(*b));
        }
    }
    r
}

/// Is some number in both sets?
pub fn relids_overlap(a: &Relids, b: &Relids) -> (r: bool)
    ensures
        r == !ids(*a).disjoint(ids(*b)),
    decreases a,
{
    match a {
        List::Nil => {
            proof {
                lemma_ids_nil();
            }
            false
        },
        List::Cons(head, tail) => {
            proof {
                lemma_ids_cons(*head, **tail);
                assert(ids(*a).contains(*head));
                assert(ids(*a) =~= ids(**tail).insert(*head));
                if !ids(**tail).disjoint(ids(*b)) {
                    let x = choose|x: u32| ids(**tail).contains(x) && ids(*b).contains(x);
                    assert(ids(*a).contains(x));
                }
            }
            relids_is_member(*head, b) || relids_overlap(tail, b)
        },
    }
}

/// The list that stands for the union: what `a` has beyond `b`, then `b`.
pub open spec fn union_list(a: Relids, b: Relids) -> Relids
    decreases a,
{
    match a {
        List::Nil => b,
        List::Cons(head, tail) => if b@.contains(head) {
            union_list(*tail, b)
        } else {
            List::Cons(head, Box::new(union_list(*tail, b)))
        },
    }
}

/// The list for the union holds what either list holds.
pub proof fn lemma_union_list(a: Relids, b: Relids)
    ensures
        ids(union_list(a, b)) == ids(a).union(ids(b)),
    decreases a,
{
    match a {
        List::Nil => {
            lemma_ids_nil();
            assert(ids(a).union(ids(b)) =~= ids(b));
        },
        List::Cons(head, tail) => {
            lemma_union_list(*tail, b);
            lemma_ids_cons(head, *tail);
            lemma_ids_cons(head, union_list(*tail, b));
            if b@.contains(head) {
                assert(ids(b).contains(head));
                assert(ids(a).union(ids(b)) =~= ids(union_list(*tail, b)));
            } else {
                assert(ids(a).union(ids(b)) =~= ids(union_list(*tail, b)).insert(head));
            }
        },
    }
}

/// The union of two sets.
pub fn relids_union(a: &Relids, b: &Relids) -> (r: Relids)
    ensures
        r == union_list(*a, *b),
        ids(r) == ids(*a).union(ids(*b)),
    decreases a,
{
    match a {
        List::Nil => {
            proof {
                lemma_ids_nil();
                assert(ids(*a).union(ids(*b)) =~= ids(*b));
            }
            b.copy()
        },
        List::Cons(head, tail) => {
            let rest = relids_union(tail, b);
            proof {
                lemma_ids_cons(*head, **tail);
                lemma_ids_cons(*head, rest);
            }
            if list_has(b, *head) {
                proof {
                    assert(ids(*b).contains(*head));
                    assert(ids(*a).union(ids(*b)) =~= ids(rest));
                }
                rest
            } else {
                proof {
                    assert(ids(*a).union(ids(*b)) =~= ids(rest).insert(*head));
                }
                List::Cons(*head, Box::new(rest))
            }
        },
    }
}

/// The list that stands for the difference.
pub open spec fn difference_list(a: Relids, b: Relids) -> Relids
    decreases a,
{
    match a {
        List::Nil => List::Nil,
        List::Cons(head, tail) => if b@.contains(head) {
            difference_list(*tail, b)
        } else {
            List::Cons(head, Box::new(difference_list(*tail, b)))
        },
    }
}

/// The numbers of `a` that are not in `b`.
pub fn relids_difference(a: &Relids, b: &Relids) -> (r: Relids)
    ensures
        r == difference_list(*a, *b),
        ids(r) == ids(*a).difference(ids(*b)),
    decreases a,
{
    match a {
        List::Nil => {
            proof {
                lemma_ids_nil();
                assert(ids(*a).difference(ids(*b)) =~= Set::<u32>::empty());
            }
            List::Nil
        },
        List::Cons(head, tail) => {
            let rest = relids_difference(tail, b);
            proof {
                lemma_ids_cons(*head, **tail);
                lemma_ids_cons(*head, rest);
            }
            if list_has(b, *head) {
                proof {
                    assert(ids(*b).contains(*head));
                    assert(ids(*a).difference(ids(*b)) =~= ids(rest));
                }
                rest
            } else {
                proof {
                    assert(!ids(*b).contains(*head));
                    assert(ids(*a).difference(ids(*b)) =~= ids(rest).insert(*head));
                }
                List::Cons(*head, Box::new(rest))
            }
        },
    }
}

/// The list without a number.
pub open spec fn del(l: Relids, x: u32) -> Relids
    decreases l,
{
    match l {
        List::Nil => List::Nil,
        List::Cons(y, ys) => if y == x {
            del(*ys, x)
        } else {
            List::Cons(y, Box::new(del(*ys, x)))
        },
    }
}

/// Removes a number.
pub fn relids_del_member(l: &Relids, x: u32) -> (r: Relids)
    ensures
        r == del(*l, x),
        ids(r) =~= ids(*l).remove(x),
    decreases l,
{
    proof {
        lemma_del(*l, x);
    }
    match l {
        List::Nil => List::Nil,
        List::Cons(y, ys) => if *y == x {
            relids_del_member(ys, x)
        } else {
            List::Cons(*y, Box::new(relids_del_member(ys, x)))
        },
    }
}

/// What is left are the other numbers.
pub proof fn lemma_del(l: Relids, x: u32)
    ensures
        ids(del(l, x)) =~= ids(l).remove(x),
    decreases l,
{
    if let List::Cons(y, ys) = l {
        lemma_del(*ys, x);
        assert forall|z: u32| l@.contains(z) <==> z == y || ys@.contains(z) by {
            crate::list::lemma_cons_contains(y, *ys, z);
        }
        if y != x {
            assert forall|z: u32|
                del(l, x)@.contains(z) <==> z == y || del(*ys, x)@.contains(z) by {
                crate::list::lemma_cons_contains(y, del(*ys, x), z);
            }
        }
        assert forall|z: u32| ids(del(l, x)).contains(z) <==> ids(l).remove(x).contains(z) by {
            assert(ids(del(*ys, x)).contains(z) <==> ids(*ys).remove(x).contains(z));
        }
    }
}

/// Removing a number twice is removing it once.
pub proof fn lemma_del_twice(l: Relids, x: u32)
    ensures
        del(del(l, x), x) == del(l, x),
    decreases l,
{
    if let List::Cons(_, ys) = l {
        lemma_del_twice(*ys, x);
    }
}

/// The list with a number at the end, where it was not there.
pub open spec fn ins(l: Relids, x: u32) -> Relids {
    if l@.contains(x) {
        l
    } else {
        l.then_list(List::Cons(x, Box::new(List::Nil)))
    }
}

/// Adds a number.
pub fn relids_add_member(l: &Relids, x: u32) -> (r: Relids)
    ensures
        r == ins(*l, x),
        ids(r) =~= ids(*l).insert(x),
{
    proof {
        lemma_ins(*l, x);
    }
    if relids_is_member(x, l) {
        l.copy()
    } else {
        l.copy().append(List::one(x))
    }
}

/// What is there then are the numbers and the new one.
pub proof fn lemma_ins(l: Relids, x: u32)
    ensures
        ids(ins(l, x)) =~= ids(l).insert(x),
{
    let one = List::Cons(x, Box::new(List::Nil));
    crate::list::lemma_then_view(l, one);
    let none: Relids = List::Nil;
    assert(none@.len() == 0);
    assert(one@ =~= seq![x]);
    if !l@.contains(x) {
        assert forall|z: u32| ids(ins(l, x)).contains(z) <==> ids(l).insert(x).contains(z) by {
            if l@.contains(z) {
                let i = choose|i: int| 0 <= i < l@.len() && l@[i] == z;
                assert(ins(l, x)@[i] == z);
            }
            if z == x {
                assert(ins(l, x)@[l@.len() as int] == x);
            }
            if ins(l, x)@.contains(z) {
                let i = choose|i: int| 0 <= i < ins(l, x)@.len() && ins(l, x)@[i] == z;
                if i < l@.len() {
                    assert(l@[i] == z);
                }
            }
        }
    }
}

/// All numbers of the list are `x`.
pub open spec fn all_are(l: Relids, x: u32) -> bool
    decreases l,
{
    match l {
        List::Nil => true,
        List::Cons(y, ys) => y == x && all_are(*ys, x),
    }
}

fn check_all_are(l: &Relids, x: u32) -> (r: bool)
    ensures
        r == all_are(*l, x),
    decreases l,
{
    match l {
        List::Nil => true,
        List::Cons(y, ys) => *y == x && check_all_are(ys, x),
    }
}

/// The only number, where there is just one.
pub open spec fn the_only(l: Relids) -> Option<u32> {
    match l {
        List::Nil => None,
        List::Cons(x, xs) => if all_are(*xs, x) {
            Some(x)
        } else {
            None
        },
    }
}

/// There are two numbers or more.
pub open spec fn is_multiple(l: Relids) -> bool {
    l matches List::Cons(x, xs) && !all_are(*xs, x)
}

/// Finds the only number.
pub fn relids_singleton_member(l: &Relids) -> (r: Option<u32>)
    ensures
        r == the_only(*l),
{
    match l {
        List::Nil => None,
        List::Cons(x, xs) => if check_all_are(xs, *x) {
            Some(*x)
        } else {
            None
        },
    }
}

/// Are there two numbers or more?
pub fn relids_is_multiple(l: &Relids) -> (r: bool)
    ensures
        r == is_multiple(*l),
{
    match l {
        List::Nil => false,
        List::Cons(x, xs) => !check_all_are(xs, *x),
    }
}

proof fn lemma_all_are(l: Relids, x: u32)
    ensures
        all_are(l, x) <==> forall|z: u32| l@.contains(z) ==> z == x,
    decreases l,
{
    if let List::Cons(y, ys) = l {
        lemma_all_are(*ys, x);
        assert forall|z: u32| l@.contains(z) <==> z == y || ys@.contains(z) by {
            crate::list::lemma_cons_contains(y, *ys, z);
        }
        assert(l@.contains(y));
    }
}

/// The only number makes up the whole set.
pub proof fn lemma_the_only(l: Relids, x: u32)
    ensures
        the_only(l) == Some(x) <==> ids(l) =~= set![x],
{
    match l {
        List::Nil => {
            assert(!ids(l).contains(x));
            assert((set![x]).contains(x));
        },
        List::Cons(y, ys) => {
            lemma_all_are(*ys, y);
            assert forall|z: u32| l@.contains(z) <==> z == y || ys@.contains(z) by {
                crate::list::lemma_cons_contains(y, *ys, z);
            }
            assert(ids(l).contains(y));
            if the_only(l) == Some(x) {
                assert(ids(l) =~= set![x]);
            }
            if ids(l) =~= set![x] {
                assert((set![x]).contains(y));
                assert forall|z: u32| ys@.contains(z) implies z == y by {
                    assert(ids(l).contains(z));
                    assert((set![x]).contains(z));
                }
            }
        },
    }
}

} // verus!

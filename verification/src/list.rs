//! Linked lists, whose values are equal when their elements are.
use vstd::prelude::*;

verus! {

/// A linked list.
#[derive(Debug)]
pub enum List<T> {
    Nil,
    Cons(T, Box<List<T>>),
}

impl<T> List<T> {
    /// The elements in order.
    pub open spec fn elements(self) -> Seq<T>
        decreases self,
    {
        match self {
            List::Nil => Seq::empty(),
            List::Cons(head, tail) => seq![head] + tail.elements(),
        }
    }
}

impl<T> View for List<T> {
    type V = Seq<T>;

    open spec fn view(&self) -> Seq<T> {
        self.elements()
    }
}

/// Two lists with the same elements are the same list.
pub proof fn lemma_list_ext<T>(a: List<T>, b: List<T>)
    requires
        a@ == b@,
    ensures
        a == b,
    decreases a,
{
    match (a, b) {
        (List::Cons(h, t), List::Cons(g, u)) => {
            assert(a@[0] == h && b@[0] == g);
            assert(a@.drop_first() =~= t@);
            assert(b@.drop_first() =~= u@);
            lemma_list_ext(*t, *u);
        },
        (List::Nil, List::Cons(g, u)) => {
            assert(b@.len() == 1 + u@.len());
        },
        (List::Cons(h, t), List::Nil) => {
            assert(a@.len() == 1 + t@.len());
        },
        _ => {},
    }
}

impl<T> List<T> {
    /// The elements of this list, then those of `other`.
    pub open spec fn then_list(self, other: List<T>) -> List<T>
        decreases self,
    {
        match self {
            List::Nil => other,
            List::Cons(head, tail) => List::Cons(head, Box::new(tail.then_list(other))),
        }
    }

    /// Appends `other`.
    pub fn append(self, other: List<T>) -> (r: List<T>)
        ensures
            r == self.then_list(other),
            r@ == self@ + other@,
        decreases self,
    {
        match self {
            List::Nil => {
                proof {
                    assert(Seq::<T>::empty() + other@ =~= other@);
                }
                other
            },
            List::Cons(head, tail) => {
                let ghost t = tail@;
                let rest = tail.append(other);
                proof {
                    assert(seq![head] + (t + other@) =~= (seq![head] + t) + other@);
                }
                List::Cons(head, Box::new(rest))
            },
        }
    }

    /// Are there no elements?
    pub fn is_nil(&self) -> (r: bool)
        ensures
            r == (*self is Nil),
            r == (self@.len() == 0),
    {
        match self {
            List::Nil => true,
            List::Cons(_, tail) => {
                proof {
                    assert(self@.len() == 1 + tail@.len());
                }
                false
            },
        }
    }

    /// A list of one element.
    pub fn one(x: T) -> (r: List<T>)
        ensures
            r == List::Cons(x, Box::new(List::Nil)),
            r@ == seq![x],
    {
        let r = List::Cons(x, Box::new(List::Nil));
        proof {
            let none: List<T> = List::Nil;
            assert(none@ =~= Seq::<T>::empty());
            assert(r@ =~= seq![x]);
        }
        r
    }

    /// A list of the elements of a vector, in order.
    pub fn from_vec(v: Vec<T>) -> (r: List<T>)
        ensures
            r@ == v@,
    {
        let mut v = v;
        let ghost all = v@;
        let mut r: List<T> = List::Nil;
        while v.len() > 0
            invariant
                v@ + r@ == all,
            decreases v@.len(),
        {
            let ghost before = v@;
            let ghost tail = r@;
            match v.pop() {
                Some(x) => {
                    r = List::Cons(x, Box::new(r));
                    proof {
                        assert(before =~= v@.push(x));
                        assert(v@ + (seq![x] + tail) =~= before + tail);
                    }
                },
                None => {},
            }
        }
        proof {
            assert(v@ + r@ =~= r@);
        }
        r
    }
}

impl<T: Copy> List<T> {
    /// A second list of the same elements.
    pub fn copy(&self) -> (r: List<T>)
        ensures
            r == *self,
        decreases self,
    {
        match self {
            List::Nil => List::Nil,
            List::Cons(head, tail) => List::Cons(*head, Box::new(tail.copy())),
        }
    }

    /// The elements as a vector, in order.
    pub fn to_vec(&self) -> (r: Vec<T>)
        ensures
            r@ == self@,
    {
        let mut r: Vec<T> = Vec::new();
        let mut cur: &List<T> = self;
        let mut more = true;
        while more
            invariant
                r@ + cur@ == self@,
                !more ==> cur@.len() == 0,
            decreases
                cur@.len(),
                (if more {
                    1int
                } else {
                    0
                }),
        {
            match cur {
                List::Nil => {
                    more = false;
                },
                List::Cons(head, tail) => {
                    let ghost done = r@;
                    r.push(*head);
                    proof {
                        assert(done.push(*head) + tail@ =~= done + (seq![*head] + tail@));
                        assert(cur@.len() == 1 + tail@.len());
                    }
                    cur = tail;
                },
            }
        }
        proof {
            assert(r@ + cur@ =~= r@);
        }
        r
    }
}

/// Appending puts the elements of the second list after those of the first.
pub proof fn lemma_then_view<T>(a: List<T>, b: List<T>)
    ensures
        a.then_list(b)@ == a@ + b@,
    decreases a,
{
    match a {
        List::Nil => {
            assert(a@ + b@ =~= b@);
        },
        List::Cons(head, tail) => {
            lemma_then_view(*tail, b);
            assert(seq![head] + (tail@ + b@) =~= (seq![head] + tail@) + b@);
        },
    }
}

/// Is `x` among the elements?
pub fn list_has(l: &List<u32>, x: u32) -> (r: bool)
    ensures
        r == l@.contains(x),
    decreases l,
{
    match l {
        List::Nil => false,
        List::Cons(head, tail) => {
            proof {
                lemma_cons_contains(*head, **tail, x);
            }
            *head == x || list_has(tail, x)
        },
    }
}

/// What a list holds is its first element and what the others are.
pub proof fn lemma_cons_contains<T>(head: T, tail: List<T>, x: T)
    ensures
        List::Cons(head, Box::new(tail))@.contains(x) <==> head == x || tail@.contains(x),
{
    let all = List::Cons(head, Box::new(tail))@;
    assert(all[0] == head);
    if tail@.contains(x) {
        let i = choose|i: int| 0 <= i < tail@.len() && tail@[i] == x;
        assert(all[i + 1] == x);
    }
    if all.contains(x) {
        let i = choose|i: int| 0 <= i < all.len() && all[i] == x;
        if i > 0 {
            assert(tail@[i - 1] == x);
        }
    }
}

/// One more, as far as the number goes.
pub open spec fn counted(n: usize) -> usize {
    if n == usize::MAX {
        n
    } else {
        (n + 1) as usize
    }
}

/// Counts one more, as far as the number goes.
pub fn count_one(n: usize) -> (r: usize)
    ensures
        r == counted(n),
{
    if n == usize::MAX {
        n
    } else {
        n + 1
    }
}

/// Does the list hold the number?
pub fn has_number(l: &List<i32>, x: i32) -> (r: bool)
    ensures
        r == l@.contains(x),
    decreases l,
{
    match l {
        List::Nil => {
            proof {
                let none: List<i32> = List::Nil;
                assert(none@.len() == 0);
            }
            false
        },
        List::Cons(y, ys) => {
            proof {
                lemma_cons_contains(*y, **ys, x);
            }
            *y == x || has_number(ys, x)
        },
    }
}

/// Every number is in the other list.
pub open spec fn all_in(l: List<i32>, set: List<i32>) -> bool
    decreases l,
{
    match l {
        List::Nil => true,
        List::Cons(x, xs) => set@.contains(x) && all_in(*xs, set),
    }
}

/// Is every number in the other list?
pub fn check_all_in(l: &List<i32>, set: &List<i32>) -> (r: bool)
    ensures
        r == all_in(*l, *set),
    decreases l,
{
    match l {
        List::Nil => true,
        List::Cons(x, xs) => has_number(set, *x) && check_all_in(xs, set),
    }
}

} // verus!

//! How the elements of an array are matched with the most common elements of a
//! column.
//!
//! Elements are given by numbers in the order in which their type sorts them.
use vstd::prelude::*;
use vstd::arithmetic::power2::{lemma2_to64, lemma_pow2_adds, pow2};
use crate::error::PlannerError;
use crate::list::List;

verus! {

proof fn lemma_shift(start: u32, n: u32, next: u32, log: nat, k: nat)
    requires
        next as int == n as int / pow2(k) as int,
        n * pow2(log) <= start < (n + 1) * pow2(log),
    ensures
        next * pow2(log + k) <= start < (next + 1) * pow2(log + k),
{
    lemma_pow2_adds(log, k);
    vstd::arithmetic::power2::lemma_pow2_pos(k);
    vstd::arithmetic::power2::lemma_pow2_pos(log);
    let p = pow2(log) as int;
    let q = pow2(k) as int;
    let a = n as int;
    let b = next as int;
    assert(b * q <= a && a < (b + 1) * q) by (nonlinear_arith)
        requires
            b == a / q,
            q > 0,
    ;
    assert(b * (p * q) <= a * p) by (nonlinear_arith)
        requires
            b * q <= a,
            p > 0,
    ;
    assert((a + 1) * p <= (b + 1) * (p * q)) by (nonlinear_arith)
        requires
            a + 1 <= (b + 1) * q,
            p > 0,
    ;
}

/// The greatest number whose power of two is not above `n`, or -1 for 0.
pub fn floor_log2(n: u32) -> (r: i32)
    ensures
        n == 0 ==> r == -1,
        n > 0 ==> 0 <= r <= 31 && pow2(r as nat) <= n && n < pow2((r + 1) as nat),
{
    proof {
        lemma2_to64();
    }
    let start: u32 = n;
    let mut n: u32 = n;
    let mut log: i32 = 0;
    if n == 0 {
        return -1;
    }
    assert(n * pow2(0) <= start < (n + 1) * pow2(0)) by (nonlinear_arith)
        requires
            pow2(0) == 1,
            n == start,
    ;
    if n >= 65536 {
        assert((n >> 16) == n / 65536) by (bit_vector);
        proof {
            lemma_shift(start, n, n >> 16, log as nat, 16);
        }
        n = n >> 16;
        log = log + 16;
    }
    if n >= 256 {
        assert((n >> 8) == n / 256) by (bit_vector);
        proof {
            lemma_shift(start, n, n >> 8, log as nat, 8);
        }
        n = n >> 8;
        log = log + 8;
    }
    if n >= 16 {
        assert((n >> 4) == n / 16) by (bit_vector);
        proof {
            lemma_shift(start, n, n >> 4, log as nat, 4);
        }
        n = n >> 4;
        log = log + 4;
    }
    if n >= 4 {
        assert((n >> 2) == n / 4) by (bit_vector);
        proof {
            lemma_shift(start, n, n >> 2, log as nat, 2);
        }
        n = n >> 2;
        log = log + 2;
    }
    proof {
        lemma_pow2_adds(log as nat, 1);
        lemma_pow2_adds(log as nat, 2);
        let p = pow2(log as nat) as int;
        let a = n as int;
        assert(a == 1 ==> p <= start && start < 2 * p) by (nonlinear_arith)
            requires
                a * p <= start,
                start < (a + 1) * p,
        ;
        assert(a == 2 || a == 3 ==> 2 * p <= start && start < 4 * p) by (nonlinear_arith)
            requires
                a * p <= start,
                start < (a + 1) * p,
                p >= 0,
        ;
    }
    if n >= 2 {
        log = log + 1;
    }
    log
}

/// Two arrays overlap.
pub const ARRAY_OVERLAP_OP: u32 = 2750;

/// An array contains another.
pub const ARRAY_CONTAINS_OP: u32 = 2751;

/// An array is contained in another.
pub const ARRAY_CONTAINED_OP: u32 = 2752;

/// How an estimate is made.
#[derive(Clone, Copy, Debug, PartialEq, Eq, Structural)]
pub enum ArrayEstimate {
    /// That of two arrays that overlap, where nothing is known.
    DefaultOverlap,
    /// That of an array that contains another, where nothing is known.
    DefaultContain,
    Zero,
    /// By the elements, under the operator with the column on the left.
    Elements(u32),
}

/// The estimate where nothing is known.
pub open spec fn default_estimate(operator: u32) -> ArrayEstimate {
    if operator == ARRAY_OVERLAP_OP {
        ArrayEstimate::DefaultOverlap
    } else {
        ArrayEstimate::DefaultContain
    }
}

/// The estimate of an operator between arrays of two relations.
pub fn arraycontjoinsel(operator: u32) -> (r: ArrayEstimate)
    ensures
        r == default_estimate(operator),
{
    if operator == ARRAY_OVERLAP_OP {
        ArrayEstimate::DefaultOverlap
    } else {
        ArrayEstimate::DefaultContain
    }
}

/// The operator that says the same with its sides exchanged.
pub open spec fn exchanged(operator: u32) -> u32 {
    if operator == ARRAY_CONTAINS_OP {
        ARRAY_CONTAINED_OP
    } else if operator == ARRAY_CONTAINED_OP {
        ARRAY_CONTAINS_OP
    } else {
        operator
    }
}

/// What the other side of an operator is.
#[derive(Clone, Copy, Debug, PartialEq, Eq, Structural)]
pub enum OtherSide {
    /// There is no column, or the other side is no constant.
    Unknown,
    Null,
    /// A constant; whether its elements are of the type of those of the column.
    Array(bool),
}

/// How an operator between a column and an array is estimated. The operators
/// are strict: null never matches.
pub fn arraycontsel(operator: u32, other: OtherSide, var_on_left: bool) -> (r: ArrayEstimate)
    ensures
        r == match other {
            OtherSide::Unknown => default_estimate(operator),
            OtherSide::Null => ArrayEstimate::Zero,
            OtherSide::Array(same_type) => {
                let op = if var_on_left {
                    operator
                } else {
                    exchanged(operator)
                };
                if same_type {
                    ArrayEstimate::Elements(op)
                } else {
                    default_estimate(op)
                }
            },
        },
{
    match other {
        OtherSide::Unknown => arraycontjoinsel(operator),
        OtherSide::Null => ArrayEstimate::Zero,
        OtherSide::Array(same_type) => {
            let mut op: u32 = operator;
            if !var_on_left {
                if operator == ARRAY_CONTAINS_OP {
                    op = ARRAY_CONTAINED_OP;
                } else if operator == ARRAY_CONTAINED_OP {
                    op = ARRAY_CONTAINS_OP;
                }
            }
            if same_type {
                ArrayEstimate::Elements(op)
            } else {
                arraycontjoinsel(op)
            }
        },
    }
}

/// What an estimate by the elements can go by.
#[derive(Clone, Copy, Debug, PartialEq, Eq, Structural)]
pub enum ElementStatistics {
    /// Elements cannot be compared.
    NoOrder,
    /// Nothing is known of the elements.
    Nothing,
    /// The part of rows that are null is known.
    NullsOnly,
    /// The most common elements are known; also how many elements there are,
    /// where that is set.
    CommonElements { counts: bool },
}

/// Decides what an estimate by the elements goes by: statistics that may be
/// used, of which the numbers of elements matter only for whether an array is
/// contained in another.
pub fn calc_arraycontsel(has_order: bool, stats: ColumnStatistics, operator: u32) -> (r:
    ElementStatistics)
    ensures
        r == if !has_order {
            ElementStatistics::NoOrder
        } else {
            statistics_for(stats, operator == ARRAY_CONTAINED_OP)
        },
{
    if !has_order {
        return ElementStatistics::NoOrder;
    }
    choose_statistics(stats, operator == ARRAY_CONTAINED_OP)
}

/// How a comparison of a constant with the elements of a column is estimated.
#[derive(Clone, Copy, Debug, PartialEq, Eq, Structural)]
pub enum ContainmentEstimate {
    CannotSay,
    Zero,
    /// As an array that contains the constant, or its complement, by the
    /// statistics given.
    Contains { complement: bool, by: ElementStatistics },
    /// As an array that holds nothing but the constant, or its complement.
    Contained { complement: bool, by: ElementStatistics },
}

/// What is known of a column of arrays.
#[derive(Clone, Copy, Debug, PartialEq, Eq, Structural)]
pub struct ColumnStatistics {
    /// There are statistics that may be used.
    pub usable: bool,
    /// They hold the most common elements.
    pub has_common: bool,
    /// They hold how many elements there are.
    pub has_counts: bool,
}

/// What an estimate goes by: how many elements there are matters only for
/// whether an array is contained in another, and only where the most common
/// elements are known.
pub open spec fn statistics_for(s: ColumnStatistics, contained: bool) -> ElementStatistics {
    if !s.usable {
        ElementStatistics::Nothing
    } else if !s.has_common {
        ElementStatistics::NullsOnly
    } else {
        ElementStatistics::CommonElements { counts: contained && s.has_counts }
    }
}

fn choose_statistics(s: ColumnStatistics, contained: bool) -> (r: ElementStatistics)
    ensures
        r == statistics_for(s, contained),
{
    if !s.usable {
        ElementStatistics::Nothing
    } else if !s.has_common {
        ElementStatistics::NullsOnly
    } else {
        ElementStatistics::CommonElements { counts: contained && s.has_counts }
    }
}

/// How a comparison of a constant with some or all elements of a column is
/// estimated. That a constant differs from some elements is the complement of
/// its being equal to all, and the other way round.
pub fn scalararraysel_containment(
    has_column: bool,
    constant: Option<bool>,
    can_compare: bool,
    is_equality: bool,
    use_or: bool,
    stats: ColumnStatistics,
) -> (r: ContainmentEstimate)
    ensures
        r == if !has_column || constant is None {
            ContainmentEstimate::CannotSay
        } else if constant == Some(true) {
            ContainmentEstimate::Zero
        } else if !can_compare {
            ContainmentEstimate::CannotSay
        } else if use_or == is_equality {
            ContainmentEstimate::Contains {
                complement: !is_equality,
                by: statistics_for(stats, false),
            }
        } else {
            ContainmentEstimate::Contained {
                complement: !is_equality,
                by: statistics_for(stats, true),
            }
        },
{
    if !has_column {
        return ContainmentEstimate::CannotSay;
    }
    match constant {
        None => ContainmentEstimate::CannotSay,
        Some(isnull) => {
            if isnull {
                return ContainmentEstimate::Zero;
            }
            if !can_compare {
                return ContainmentEstimate::CannotSay;
            }
            let any = if is_equality {
                use_or
            } else {
                !use_or
            };
            if any {
                ContainmentEstimate::Contains {
                    complement: !is_equality,
                    by: choose_statistics(stats, false),
                }
            } else {
                ContainmentEstimate::Contained {
                    complement: !is_equality,
                    by: choose_statistics(stats, true),
                }
            }
        },
    }
}

/// The list with an element at its place.
pub open spec fn inserted(x: u64, l: List<u64>) -> List<u64>
    decreases l,
{
    match l {
        List::Nil => List::Cons(x, Box::new(List::Nil)),
        List::Cons(y, ys) => if x <= y {
            List::Cons(x, Box::new(l))
        } else {
            List::Cons(y, Box::new(inserted(x, *ys)))
        },
    }
}

fn insert(x: u64, l: List<u64>) -> (r: List<u64>)
    ensures
        r == inserted(x, l),
    decreases l,
{
    match l {
        List::Nil => List::one(x),
        List::Cons(y, ys) => if x <= y {
            List::Cons(x, Box::new(List::Cons(y, ys)))
        } else {
            List::Cons(y, Box::new(insert(x, *ys)))
        },
    }
}

/// The elements that are not null, in order.
pub open spec fn sorted_elements(l: List<Option<u64>>) -> List<u64>
    decreases l,
{
    match l {
        List::Nil => List::Nil,
        List::Cons(x, xs) => match x {
            Some(v) => inserted(v, sorted_elements(*xs)),
            None => sorted_elements(*xs),
        },
    }
}

/// Some element is null.
pub open spec fn has_null(l: List<Option<u64>>) -> bool
    decreases l,
{
    match l {
        List::Nil => false,
        List::Cons(x, xs) => x is None || has_null(*xs),
    }
}

fn sort_elements(l: &List<Option<u64>>) -> (r: (List<u64>, bool))
    ensures
        r.0 == sorted_elements(*l),
        r.1 == has_null(*l),
    decreases l,
{
    match l {
        List::Nil => (List::Nil, false),
        List::Cons(x, xs) => {
            let (rest, nulls) = sort_elements(xs);
            match x {
                Some(v) => (insert(*v, rest), nulls),
                None => (rest, true),
            }
        },
    }
}

/// In ascending order.
pub open spec fn is_sorted(l: List<u64>) -> bool
    decreases l,
{
    match l {
        List::Nil => true,
        List::Cons(x, xs) => is_sorted(*xs) && match *xs {
            List::Nil => true,
            List::Cons(y, _) => x <= y,
        },
    }
}

proof fn lemma_inserted(x: u64, l: List<u64>)
    requires
        is_sorted(l),
    ensures
        is_sorted(inserted(x, l)),
        inserted(x, l)@.to_multiset() =~= l@.to_multiset().insert(x),
    decreases l,
{
    match l {
        List::Nil => {
            let none: List<u64> = List::Nil;
            assert(is_sorted(none));
            assert(none@ =~= Seq::<u64>::empty());
            assert(inserted(x, l)@ =~= none@.push(x));
            none@.to_multiset_ensures();
        },
        List::Cons(y, ys) => {
            lemma_inserted(x, *ys);
            let a = List::Cons(x, Box::new(l));
            assert(a@ =~= seq![x] + l@);
            vstd::seq_lib::lemma_multiset_commutative(seq![x], l@);
            lemma_single_multiset(x);
            let b = List::Cons(y, Box::new(inserted(x, *ys)));
            assert(b@ =~= seq![y] + inserted(x, *ys)@);
            vstd::seq_lib::lemma_multiset_commutative(seq![y], inserted(x, *ys)@);
            assert(l@ =~= seq![y] + ys@);
            vstd::seq_lib::lemma_multiset_commutative(seq![y], ys@);
            lemma_single_multiset(y);
        },
    }
}

proof fn lemma_single_multiset(x: u64)
    ensures
        (seq![x]).to_multiset() =~= vstd::multiset::Multiset::empty().insert(x),
{
    let none = Seq::<u64>::empty();
    none.to_multiset_ensures();
    assert(none.push(x) =~= seq![x]);
}

/// The elements that are not null.
pub open spec fn present(l: List<Option<u64>>) -> Seq<u64>
    decreases l,
{
    match l {
        List::Nil => Seq::empty(),
        List::Cons(x, xs) => match x {
            Some(v) => seq![v] + present(*xs),
            None => present(*xs),
        },
    }
}

/// Sorting brings the elements into order, and neither loses nor adds any.
pub proof fn lemma_sorted_elements(l: List<Option<u64>>)
    ensures
        is_sorted(sorted_elements(l)),
        sorted_elements(l)@.to_multiset() =~= present(l).to_multiset(),
    decreases l,
{
    match l {
        List::Nil => {
            let none: List<u64> = List::Nil;
            assert(none@ =~= present(l));
        },
        List::Cons(x, xs) => {
            lemma_sorted_elements(*xs);
            if let Some(v) = x {
                lemma_inserted(v, sorted_elements(*xs));
                vstd::seq_lib::lemma_multiset_commutative(seq![v], present(*xs));
                lemma_single_multiset(v);
            }
        },
    }
}

/// The elements of an array that a column is compared with.
#[derive(Debug)]
pub enum ArrayElements {
    /// No array contains null.
    Nothing,
    /// The elements in order, for whether an array contains or overlaps them.
    Contain(List<u64>),
    /// The elements in order, for whether an array is contained in them.
    Contained(List<u64>),
}

/// Prepares the elements of an array for the operator.
pub fn mcelem_array_selec(elements: &List<Option<u64>>, operator: u32) -> (r: Result<
    ArrayElements,
    PlannerError,
>)
    ensures
        r == if has_null(*elements) && operator == ARRAY_CONTAINS_OP {
            Ok::<ArrayElements, PlannerError>(ArrayElements::Nothing)
        } else if operator == ARRAY_CONTAINS_OP || operator == ARRAY_OVERLAP_OP {
            Ok(ArrayElements::Contain(sorted_elements(*elements)))
        } else if operator == ARRAY_CONTAINED_OP {
            Ok(ArrayElements::Contained(sorted_elements(*elements)))
        } else {
            Err(PlannerError::UnknownArrayOperator)
        },
{
    let (sorted, nulls) = sort_elements(elements);
    if nulls && operator == ARRAY_CONTAINS_OP {
        return Ok(ArrayElements::Nothing);
    }
    if operator == ARRAY_CONTAINS_OP || operator == ARRAY_OVERLAP_OP {
        Ok(ArrayElements::Contain(sorted))
    } else if operator == ARRAY_CONTAINED_OP {
        Ok(ArrayElements::Contained(sorted))
    } else {
        Err(PlannerError::UnknownArrayOperator)
    }
}

/// Every element is greater than those before it.
pub open spec fn strictly_ascending(s: Seq<u64>) -> bool {
    forall|i: int, j: int| 0 <= i < j < s.len() ==> s[i] < s[j]
}

/// Finds the first of the common elements from `index` on that is not less
/// than the value, by halving; tells whether it is the value.
pub fn find_next_mcelem(mcelem: &Vec<u64>, value: u64, index: usize) -> (r: (bool, usize))
    requires
        strictly_ascending(mcelem@),
        index <= mcelem@.len(),
    ensures
        index <= r.1 <= mcelem@.len(),
        forall|j: int| index <= j < r.1 ==> mcelem@[j] < value,
        r.1 < mcelem@.len() ==> mcelem@[r.1 as int] >= value,
        r.0 == (r.1 < mcelem@.len() && mcelem@[r.1 as int] == value),
{
    let mut l: usize = index;
    let mut h: usize = mcelem.len();
    while l < h
        invariant
            index <= l <= h <= mcelem@.len(),
            strictly_ascending(mcelem@),
            forall|j: int| index <= j < l ==> mcelem@[j] < value,
            forall|j: int| h <= j < mcelem@.len() ==> mcelem@[j] > value,
        decreases h - l,
    {
        let i: usize = l + (h - l) / 2;
        if mcelem[i] == value {
            assert(forall|j: int| index <= j < i ==> mcelem@[j] < mcelem@[i as int]);
            return (true, i);
        } else if mcelem[i] < value {
            assert(forall|j: int| index <= j < i ==> mcelem@[j] < mcelem@[i as int]);
            l = i + 1;
        } else {
            assert(forall|j: int| i < j < mcelem@.len() ==> mcelem@[j] > mcelem@[i as int]);
            h = i;
        }
    }
    (false, l)
}

/// The place is where the value stands, or the value is nowhere.
pub open spec fn is_place(mcelem: Seq<u64>, value: u64, place: Option<usize>) -> bool {
    match place {
        Some(k) => k < mcelem.len() && mcelem[k as int] == value,
        None => !mcelem.contains(value),
    }
}

/// The elements of a sorted list, each once.
pub open spec fn once(l: List<u64>) -> List<u64>
    decreases l,
{
    match l {
        List::Nil => List::Nil,
        List::Cons(x, xs) => match *xs {
            List::Nil => l,
            List::Cons(y, _) => if x == y {
                once(*xs)
            } else {
                List::Cons(x, Box::new(once(*xs)))
            },
        },
    }
}

fn keep_once(l: &List<u64>) -> (r: List<u64>)
    ensures
        r == once(*l),
    decreases l,
{
    match l {
        List::Nil => List::Nil,
        List::Cons(x, xs) => {
            let rest = keep_once(xs);
            match &**xs {
                List::Nil => List::one(*x),
                List::Cons(y, _) => if *x == *y {
                    rest
                } else {
                    List::Cons(*x, Box::new(rest))
                },
            }
        },
    }
}

/// The places of elements among the common ones.
pub open spec fn are_places(mcelem: Seq<u64>, l: List<u64>, places: List<Option<usize>>) -> bool
    decreases l,
{
    match (l, places) {
        (List::Nil, List::Nil) => true,
        (List::Cons(x, xs), List::Cons(p, ps)) => is_place(mcelem, x, p) && are_places(
            mcelem,
            *xs,
            *ps,
        ),
        _ => false,
    }
}

fn find_places(mcelem: &Vec<u64>, l: &List<u64>, index: usize, halving: bool) -> (r: List<
    Option<usize>,
>)
    requires
        strictly_ascending(mcelem@),
        index <= mcelem@.len(),
        is_sorted(*l),
        *l matches List::Cons(x, _) ==> forall|j: int| 0 <= j < index ==> mcelem@[j] < x,
    ensures
        are_places(mcelem@, *l, r),
    decreases l,
{
    match l {
        List::Nil => List::Nil,
        List::Cons(x, xs) => {
            let (found, at) = if halving {
                find_next_mcelem(mcelem, *x, index)
            } else {
                step_to_mcelem(mcelem, *x, index)
            };
            let place = if found {
                Some(at)
            } else {
                None
            };
            proof {
                if !found {
                    assert forall|j: int| 0 <= j < mcelem@.len() implies mcelem@[j] != *x by {
                        if at < j {
                            assert(mcelem@[at as int] < mcelem@[j]);
                        }
                    }
                }
            }
            let rest = find_places(mcelem, xs, at, halving);
            List::Cons(place, Box::new(rest))
        },
    }
}

fn step_to_mcelem(mcelem: &Vec<u64>, value: u64, index: usize) -> (r: (bool, usize))
    requires
        index <= mcelem@.len(),
    ensures
        index <= r.1 <= mcelem@.len(),
        forall|j: int| index <= j < r.1 ==> mcelem@[j] < value,
        r.1 < mcelem@.len() ==> mcelem@[r.1 as int] >= value,
        r.0 == (r.1 < mcelem@.len() && mcelem@[r.1 as int] == value),
{
    let mut i: usize = index;
    while i < mcelem.len() && mcelem[i] < value
        invariant
            index <= i <= mcelem@.len(),
            forall|j: int| index <= j < i ==> mcelem@[j] < value,
        decreases mcelem@.len() - i,
    {
        i = i + 1;
    }
    (i < mcelem.len() && mcelem[i] == value, i)
}

fn count(l: &List<u64>, so_far: u64) -> (r: u64)
    decreases l,
{
    match l {
        List::Nil => so_far,
        List::Cons(_, xs) => if so_far == u64::MAX {
            so_far
        } else {
            count(xs, so_far + 1)
        },
    }
}

proof fn lemma_once_sorted(l: List<u64>)
    requires
        is_sorted(l),
    ensures
        is_sorted(once(l)),
        l matches List::Cons(x, _) ==> (once(l) matches List::Cons(y, _) && y == x),
    decreases l,
{
    if let List::Cons(x, xs) = l {
        lemma_once_sorted(*xs);
    }
}

/// Finds each element of an array, which come in order, among the most common
/// elements: by halving where that takes fewer steps, else one after the other.
/// An element that occurs more than once is looked for once.
pub fn mcelem_array_contain_overlap_selec(mcelem: &Vec<u64>, elements: &List<u64>) -> (r: List<
    Option<usize>,
>)
    requires
        strictly_ascending(mcelem@),
        is_sorted(*elements),
    ensures
        are_places(mcelem@, once(*elements), r),
{
    let distinct = keep_once(elements);
    proof {
        lemma_once_sorted(*elements);
    }
    let items: i128 = count(elements, 0) as i128;
    let n: i128 = mcelem.len() as i128;
    let halving = if mcelem.len() > u32::MAX as usize {
        false
    } else {
        let log: i128 = floor_log2(mcelem.len() as u32) as i128;
        assert(-1 <= log <= 31);
        assert(0 <= items <= u64::MAX);
        assert(-1 * u64::MAX <= items * log <= 31 * u64::MAX) by (nonlinear_arith)
            requires
                -1 <= log <= 31,
                0 <= items <= u64::MAX,
        ;
        items * log < n + items
    };
    find_places(mcelem, &distinct, 0, halving)
}

/// Which of the common elements are among the places.
pub open spec fn is_used(places: List<Option<usize>>, k: usize) -> bool
    decreases places,
{
    match places {
        List::Nil => false,
        List::Cons(p, ps) => p == Some(k) || is_used(*ps, k),
    }
}

fn check_used(places: &List<Option<usize>>, k: usize) -> (r: bool)
    ensures
        r == is_used(*places, k),
    decreases places,
{
    match places {
        List::Nil => false,
        List::Cons(p, ps) => {
            let here = match p {
                Some(x) => *x == k,
                None => false,
            };
            here || check_used(ps, k)
        },
    }
}

proof fn lemma_used(mcelem: Seq<u64>, l: List<u64>, places: List<Option<usize>>, k: usize)
    requires
        strictly_ascending(mcelem),
        are_places(mcelem, l, places),
        k < mcelem.len(),
    ensures
        is_used(places, k) <==> l@.contains(mcelem[k as int]),
    decreases l,
{
    match (l, places) {
        (List::Cons(x, xs), List::Cons(p, ps)) => {
            lemma_used(mcelem, *xs, *ps, k);
            crate::list::lemma_cons_contains(x, *xs, mcelem[k as int]);
            if let Some(q) = p {
                if q < k {
                    assert(mcelem[q as int] < mcelem[k as int]);
                } else if q > k {
                    assert(mcelem[k as int] < mcelem[q as int]);
                }
            } else {
                assert(mcelem.contains(mcelem[k as int]));
            }
        },
        _ => {
            assert(l@.len() == 0);
        },
    }
}

proof fn lemma_once_contains(l: List<u64>, x: u64)
    ensures
        once(l)@.contains(x) <==> l@.contains(x),
    decreases l,
{
    if let List::Cons(y, ys) = l {
        lemma_once_contains(*ys, x);
        crate::list::lemma_cons_contains(y, *ys, x);
        match *ys {
            List::Nil => {},
            List::Cons(z, zs) => {
                crate::list::lemma_cons_contains(z, *zs, x);
                crate::list::lemma_cons_contains(y, once(*ys), x);
            },
        }
    }
}

/// Finds each element of an array, which come in order, among the most common
/// elements, and tells which of those occur in the array.
pub fn mcelem_array_contained_selec(mcelem: &Vec<u64>, elements: &List<u64>) -> (r: (
    List<Option<usize>>,
    Vec<bool>,
))
    requires
        strictly_ascending(mcelem@),
        is_sorted(*elements),
    ensures
        are_places(mcelem@, once(*elements), r.0),
        r.1@.len() == mcelem@.len(),
        forall|k: int|
            0 <= k < mcelem@.len() ==> #[trigger] r.1@[k] == elements@.contains(mcelem@[k]),
{
    let distinct = keep_once(elements);
    proof {
        lemma_once_sorted(*elements);
    }
    let places = find_places(mcelem, &distinct, 0, false);
    let mut used: Vec<bool> = Vec::new();
    let mut k: usize = 0;
    while k < mcelem.len()
        invariant
            k <= mcelem@.len(),
            used@.len() == k,
            strictly_ascending(mcelem@),
            are_places(mcelem@, once(*elements), places),
            forall|j: int|
                0 <= j < k ==> #[trigger] used@[j] == elements@.contains(mcelem@[j]),
        decreases mcelem@.len() - k,
    {
        let here = check_used(&places, k);
        proof {
            lemma_used(mcelem@, once(*elements), places, k);
            lemma_once_contains(*elements, mcelem@[k as int]);
        }
        used.push(here);
        k = k + 1;
    }
    (places, used)
}

/// How many elements, times all elements, may be worked through for each common
/// element.
pub const EFFORT: u64 = 100;

/// Are there so many elements that only the most common of them are worked
/// through?
pub fn too_many_elements(common: u32, distinct: u32) -> (r: bool)
    ensures
        r == (common + distinct > 0 && distinct > EFFORT * common / (common as int
            + distinct as int)),
{
    let c: u64 = common as u64;
    let d: u64 = distinct as u64;
    c + d > 0 && d > EFFORT * c / (c + d)
}

} // verus!

//! Which of the most common values satisfy clauses.
use vstd::prelude::*;
use crate::error::PlannerError;
use crate::expr::{expr_collation, strip_label, Const, Expr, Head};
use crate::extstats::{add_counts, count_distinct, find_expr_number, find_two_args};
use crate::list::{count_one, counted, list_has, List};

verus! {

/// Adds an outcome to those of other clauses: to a disjunction, or to a
/// conjunction.
pub fn result_merge(value: bool, is_or: bool, m: bool) -> (r: bool)
    ensures
        r == if is_or {
            value || m
        } else {
            value && m
        },
{
    if is_or {
        value || m
    } else {
        value && m
    }
}

/// Can no further outcome change the result?
pub fn result_is_final(value: bool, is_or: bool) -> (r: bool)
    ensures
        r == is_final(value, is_or),
        r == if is_or {
            value
        } else {
            !value
        },
{
    proof {
        assert(merged(value, is_or, true) == if is_or {
            true
        } else {
            value
        });
        assert(merged(value, is_or, false) == if is_or {
            value
        } else {
            false
        });
    }
    if is_or {
        value
    } else {
        !value
    }
}

/// No further outcome can change the result.
pub open spec fn is_final(value: bool, is_or: bool) -> bool {
    forall|m: bool| #[trigger] merged(value, is_or, m) == value
}

/// An outcome added to those of other clauses.
pub open spec fn merged(value: bool, is_or: bool, m: bool) -> bool {
    if is_or {
        value || m
    } else {
        value && m
    }
}

/// An element of an array that a column is compared with: whether it is null,
/// and the outcome of the comparison for each item.
#[derive(Debug)]
pub struct ArrayElement {
    pub isnull: bool,
    pub outcomes: Vec<bool>,
}

/// A clause to be tested on common values. Comparisons come with their
/// outcomes for each item.
#[derive(Debug)]
pub enum MatchClause {
    /// A comparison of a dimension with a constant, and whether that is null.
    Compare { dim: usize, null_const: bool, outcomes: Vec<bool> },
    /// A comparison of a dimension with the elements of an array, of which one
    /// or all have to match.
    CompareAny { dim: usize, null_const: bool, use_or: bool, elements: List<ArrayElement> },
    NullTest { dim: usize, is_null: bool },
    And(Box<List<MatchClause>>),
    Or(Box<List<MatchClause>>),
    /// Not all of the clauses hold.
    Not(Box<List<MatchClause>>),
    /// A truth value.
    Truth { dim: usize, outcomes: Vec<bool> },
}

/// The outcome for an item; that of an item without outcome does not match.
pub open spec fn outcome(outcomes: Seq<bool>, i: int) -> bool {
    0 <= i < outcomes.len() && outcomes[i]
}

/// A dimension of an item is null; so is one that it does not have.
pub open spec fn dim_null(nulls: Seq<bool>, dim: usize) -> bool {
    dim >= nulls.len() || nulls[dim as int]
}

/// Some element of the array matches an item, or all do.
pub open spec fn elements_match(l: List<ArrayElement>, use_or: bool, i: int) -> bool
    decreases l,
{
    match l {
        List::Nil => !use_or,
        List::Cons(x, xs) => {
            let here = !x.isnull && outcome(x.outcomes@, i);
            merged(here, use_or, elements_match(*xs, use_or, i))
        },
    }
}

/// An item satisfies a clause. Comparisons with null do not hold.
pub open spec fn matches_clause(c: MatchClause, nulls: Seq<bool>, i: int) -> bool
    decreases c,
{
    match c {
        MatchClause::Compare { dim, null_const, outcomes } => !dim_null(nulls, dim) && !null_const
            && outcome(outcomes@, i),
        MatchClause::CompareAny { dim, null_const, use_or, elements } => !dim_null(nulls, dim)
            && !null_const && elements_match(elements, use_or, i),
        MatchClause::NullTest { dim, is_null } => dim_null(nulls, dim) == is_null,
        MatchClause::And(l) => matches_all(*l, nulls, i),
        MatchClause::Or(l) => matches_any(*l, nulls, i),
        MatchClause::Not(l) => !matches_all(*l, nulls, i),
        MatchClause::Truth { dim, outcomes } => !dim_null(nulls, dim) && outcome(outcomes@, i),
    }
}

/// An item satisfies all clauses.
pub open spec fn matches_all(l: List<MatchClause>, nulls: Seq<bool>, i: int) -> bool
    decreases l,
{
    match l {
        List::Nil => true,
        List::Cons(x, xs) => matches_clause(x, nulls, i) && matches_all(*xs, nulls, i),
    }
}

/// An item satisfies some clause.
pub open spec fn matches_any(l: List<MatchClause>, nulls: Seq<bool>, i: int) -> bool
    decreases l,
{
    match l {
        List::Nil => false,
        List::Cons(x, xs) => matches_clause(x, nulls, i) || matches_any(*xs, nulls, i),
    }
}

fn get_outcome(outcomes: &Vec<bool>, i: usize) -> (r: bool)
    ensures
        r == outcome(outcomes@, i as int),
{
    i < outcomes.len() && outcomes[i]
}

fn is_dim_null(nulls: &Vec<bool>, dim: usize) -> (r: bool)
    ensures
        r == dim_null(nulls@, dim),
{
    dim >= nulls.len() || nulls[dim]
}

proof fn lemma_elements_final(l: List<ArrayElement>, use_or: bool, i: int, value: bool)
    requires
        is_final(value, use_or),
    ensures
        merged(value, use_or, elements_match(l, use_or, i)) == value,
{
}

fn match_elements(l: &List<ArrayElement>, use_or: bool, i: usize, value: bool) -> (r: bool)
    ensures
        r == merged(value, use_or, elements_match(*l, use_or, i as int)),
    decreases l,
{
    match l {
        List::Nil => value,
        List::Cons(x, xs) => {
            if x.isnull {
                return match_elements(xs, use_or, i, result_merge(value, use_or, false));
            }
            if result_is_final(value, use_or) {
                proof {
                    lemma_elements_final(*l, use_or, i as int, value);
                }
                return value;
            }
            let here = get_outcome(&x.outcomes, i);
            match_elements(xs, use_or, i, result_merge(value, use_or, here))
        },
    }
}

fn match_clause(c: &MatchClause, nulls: &Vec<bool>, i: usize) -> (r: bool)
    ensures
        r == matches_clause(*c, nulls@, i as int),
    decreases c,
{
    match c {
        MatchClause::Compare { dim, null_const, outcomes } => !is_dim_null(nulls, *dim)
            && !*null_const && get_outcome(outcomes, i),
        MatchClause::CompareAny { dim, null_const, use_or, elements } => {
            if is_dim_null(nulls, *dim) || *null_const {
                return false;
            }
            match_elements(elements, *use_or, i, !*use_or)
        },
        MatchClause::NullTest { dim, is_null } => is_dim_null(nulls, *dim) == *is_null,
        MatchClause::And(l) => match_list(l, nulls, i, false, true),
        MatchClause::Or(l) => match_list(l, nulls, i, true, false),
        MatchClause::Not(l) => !match_list(l, nulls, i, false, true),
        MatchClause::Truth { dim, outcomes } => !is_dim_null(nulls, *dim) && get_outcome(
            outcomes,
            i,
        ),
    }
}

fn match_list(l: &List<MatchClause>, nulls: &Vec<bool>, i: usize, is_or: bool, value: bool) -> (r:
    bool)
    ensures
        r == merged(
            value,
            is_or,
            if is_or {
                matches_any(*l, nulls@, i as int)
            } else {
                matches_all(*l, nulls@, i as int)
            },
        ),
    decreases l,
{
    match l {
        List::Nil => value,
        List::Cons(x, xs) => {
            if result_is_final(value, is_or) {
                assert(merged(value, is_or, true) == value && merged(value, is_or, false) == value);
                return value;
            }
            let here = match_clause(x, nulls, i);
            match_list(xs, nulls, i, is_or, result_merge(value, is_or, here))
        },
    }
}

/// Finds the items that satisfy the clauses: some of them, or all. Each item
/// is given by which of its dimensions are null.
pub fn mcv_get_match_bitmap(clauses: &List<MatchClause>, items: &Vec<Vec<bool>>, is_or: bool) -> (r:
    Vec<bool>)
    ensures
        r@.len() == items@.len(),
        forall|i: int|
            0 <= i < items@.len() ==> #[trigger] r@[i] == if is_or {
                matches_any(*clauses, items@[i]@, i)
            } else {
                matches_all(*clauses, items@[i]@, i)
            },
{
    let mut r: Vec<bool> = Vec::new();
    let mut i: usize = 0;
    while i < items.len()
        invariant
            i <= items@.len(),
            r@.len() == i,
            forall|k: int|
                0 <= k < i ==> #[trigger] r@[k] == if is_or {
                    matches_any(*clauses, items@[k]@, k)
                } else {
                    matches_all(*clauses, items@[k]@, k)
                },
        decreases items@.len() - i,
    {
        let m = match_list(clauses, &items[i], i, is_or, !is_or);
        r.push(m);
        i = i + 1;
    }
    r
}

/// Clauses that all have to hold match fewer items than any one of them, and
/// an added clause never matches more.
pub proof fn lemma_conjunction_shrinks(
    c: MatchClause,
    l: List<MatchClause>,
    nulls: Seq<bool>,
    i: int,
)
    ensures
        matches_all(List::Cons(c, Box::new(l)), nulls, i) ==> matches_all(l, nulls, i),
        matches_any(l, nulls, i) ==> matches_any(List::Cons(c, Box::new(l)), nulls, i),
{
}

/// How many numbers of a set are smaller.
pub open spec fn smaller_members(keys: List<u32>, x: u32) -> usize
    decreases keys,
{
    match keys {
        List::Nil => 0,
        List::Cons(y, ys) => if y < x && !ys@.contains(y) {
            counted(smaller_members(*ys, x))
        } else {
            smaller_members(*ys, x)
        },
    }
}

fn count_smaller(keys: &List<u32>, x: u32) -> (r: usize)
    ensures
        r == smaller_members(*keys, x),
    decreases keys,
{
    match keys {
        List::Nil => 0,
        List::Cons(y, ys) => {
            let rest: usize = count_smaller(ys, x);
            if *y < x && !list_has(ys, *y) {
                count_one(rest)
            } else {
                rest
            }
        },
    }
}

/// The place of a number in a set, in ascending order.
pub open spec fn member_index(keys: List<u32>, x: u32) -> Option<usize> {
    if keys@.contains(x) {
        Some(smaller_members(keys, x))
    } else {
        None
    }
}

/// Finds the place of a number in a set, in ascending order.
pub fn bms_member_index(keys: &List<u32>, attnum: u32) -> (r: Option<usize>)
    ensures
        r == member_index(*keys, attnum),
{
    if list_has(keys, attnum) {
        Some(count_smaller(keys, attnum))
    } else {
        None
    }
}

/// The dimension of a statistics object that an expression is: columns come
/// first, in the order of their numbers, then expressions.
pub open spec fn dimension(e: Expr, keys: List<u32>, exprs: List<Expr>) -> Option<usize> {
    match e {
        Expr::Var(v) => if v.attno > 0 {
            member_index(keys, v.attno as u32)
        } else {
            None
        },
        _ => match crate::extstats::expr_number(exprs, e, 0) {
            Some(n) => Some(
                crate::extstats::sum(crate::extstats::distinct_count(keys), n as usize),
            ),
            None => None,
        },
    }
}

/// Finds the dimension of a statistics object that an expression is, with its
/// collation.
pub fn mcv_match_expression(e: &Expr, keys: &List<u32>, exprs: &List<Expr>) -> (r: Result<
    (usize, u32),
    PlannerError,
>)
    ensures
        r == match dimension(*e, *keys, *exprs) {
            Some(d) => Ok((d, crate::expr::collation_of(*e))),
            None => Err(PlannerError::NotInStatistics),
        },
{
    let collation: u32 = expr_collation(e);
    let found = match e {
        Expr::Var(v) => if v.attno > 0 {
            bms_member_index(keys, v.attno as u32)
        } else {
            None
        },
        _ => match find_expr_number(exprs, e, 0) {
            Some(n) => Some(add_counts(count_distinct(keys), n as usize)),
            None => None,
        },
    };
    match found {
        Some(d) => Ok((d, collation)),
        None => Err(PlannerError::NotInStatistics),
    }
}

/// A test of common values, before it is made: where an operator is to be
/// applied, it says to which dimension, under which collation and with which
/// constant.
#[derive(Debug)]
pub enum MatchTest {
    Compare { dim: usize, opno: u32, collation: u32, constant: Const, expr_on_left: bool },
    /// The constant is an array, of which one or all elements have to match.
    CompareAny { dim: usize, opno: u32, collation: u32, constant: Const, use_or: bool },
    NullTest { dim: usize, is_null: bool },
    And(Box<List<MatchTest>>),
    Or(Box<List<MatchTest>>),
    Not(Box<List<MatchTest>>),
    /// The dimension is a truth value.
    Truth(usize),
}

/// The operand of a comparison and the constant that it is compared with, and
/// whether the operand stands on the left.
pub open spec fn comparison(args: List<Expr>) -> Option<(Expr, Const, bool)> {
    match args {
        List::Cons(a, rest) => match *rest {
            List::Cons(b, _) => match (
                crate::expr::unlabelled(a),
                crate::expr::unlabelled(b),
            ) {
                (l, Expr::Const(c)) => Some((l, c, true)),
                (Expr::Const(c), r) => Some((r, c, false)),
                _ => None,
            },
            List::Nil => None,
        },
        List::Nil => None,
    }
}

fn find_comparison(args: &List<Expr>) -> (r: Option<(&Expr, Const, bool)>)
    ensures
        match r {
            Some(x) => comparison(*args) == Some((*x.0, x.1, x.2)),
            None => comparison(*args) is None,
        },
{
    match args {
        List::Cons(a, rest) => match &**rest {
            List::Cons(b, _) => {
                let l = strip_label(a);
                let r = strip_label(b);
                if let Expr::Const(c) = r {
                    return Some((l, *c, true));
                }
                if let Expr::Const(c) = l {
                    return Some((r, *c, false));
                }
                None
            },
            List::Nil => None,
        },
        List::Nil => None,
    }
}

/// The test of a truth value.
pub open spec fn truth_test(e: Expr, keys: List<u32>, exprs: List<Expr>) -> Result<
    MatchTest,
    PlannerError,
> {
    match dimension(e, keys, exprs) {
        Some(d) => Ok(MatchTest::Truth(d)),
        None => Err(PlannerError::NotInStatistics),
    }
}

/// The test that a clause makes of common values.
pub open spec fn clause_test(e: Expr, keys: List<u32>, exprs: List<Expr>) -> Result<
    MatchTest,
    PlannerError,
>
    decreases e,
{
    match e {
        Expr::Call { head, args } => match head {
            Head::Op { opno, typid, collation, inputcollid } => if crate::extstats::two_args(
                *args,
            ) is None {
                truth_test(e, keys, exprs)
            } else {
                match comparison(*args) {
                    None => Err(PlannerError::IncompatibleClause),
                    Some((operand, constant, expr_on_left)) => match dimension(
                        operand,
                        keys,
                        exprs,
                    ) {
                        None => Err(PlannerError::NotInStatistics),
                        Some(dim) => Ok(
                            MatchTest::Compare {
                                dim,
                                opno,
                                collation: crate::expr::collation_of(operand),
                                constant,
                                expr_on_left,
                            },
                        ),
                    },
                }
            },
            Head::ArrayOp { opno, use_or, inputcollid } => match comparison(*args) {
                Some((operand, constant, true)) => match dimension(operand, keys, exprs) {
                    None => Err(PlannerError::NotInStatistics),
                    Some(dim) => Ok(
                        MatchTest::CompareAny {
                            dim,
                            opno,
                            collation: crate::expr::collation_of(operand),
                            constant,
                            use_or,
                        },
                    ),
                },
                _ => Err(PlannerError::IncompatibleClause),
            },
            Head::NullTest { is_null } => match *args {
                List::Cons(arg, _) => match dimension(arg, keys, exprs) {
                    None => Err(PlannerError::NotInStatistics),
                    Some(dim) => Ok(MatchTest::NullTest { dim, is_null }),
                },
                List::Nil => Err(PlannerError::IncompatibleClause),
            },
            Head::And => match clause_tests(*args, keys, exprs) {
                Err(x) => Err(x),
                Ok(l) => Ok(MatchTest::And(Box::new(l))),
            },
            Head::Or => match clause_tests(*args, keys, exprs) {
                Err(x) => Err(x),
                Ok(l) => Ok(MatchTest::Or(Box::new(l))),
            },
            Head::Not => match clause_tests(*args, keys, exprs) {
                Err(x) => Err(x),
                Ok(l) => Ok(MatchTest::Not(Box::new(l))),
            },
            _ => truth_test(e, keys, exprs),
        },
        _ => truth_test(e, keys, exprs),
    }
}

/// The tests that clauses make of common values.
pub open spec fn clause_tests(l: List<Expr>, keys: List<u32>, exprs: List<Expr>) -> Result<
    List<MatchTest>,
    PlannerError,
>
    decreases l,
{
    match l {
        List::Nil => Ok(List::Nil),
        List::Cons(x, xs) => match clause_test(x, keys, exprs) {
            Err(e) => Err(e),
            Ok(first) => match clause_tests(*xs, keys, exprs) {
                Err(e) => Err(e),
                Ok(rest) => Ok(List::Cons(first, Box::new(rest))),
            },
        },
    }
}

fn make_truth_test(e: &Expr, keys: &List<u32>, exprs: &List<Expr>) -> (r: Result<
    MatchTest,
    PlannerError,
>)
    ensures
        r == truth_test(*e, *keys, *exprs),
{
    match mcv_match_expression(e, keys, exprs) {
        Ok((dim, _)) => Ok(MatchTest::Truth(dim)),
        Err(x) => Err(x),
    }
}

fn make_clause_test(e: &Expr, keys: &List<u32>, exprs: &List<Expr>) -> (r: Result<
    MatchTest,
    PlannerError,
>)
    ensures
        r == clause_test(*e, *keys, *exprs),
    decreases e,
{
    match e {
        Expr::Call { head, args } => match head {
            Head::Op { opno, .. } => {
                if find_two_args(args).is_none() {
                    return make_truth_test(e, keys, exprs);
                }
                match find_comparison(args) {
                    None => Err(PlannerError::IncompatibleClause),
                    Some((operand, constant, expr_on_left)) => match mcv_match_expression(
                        operand,
                        keys,
                        exprs,
                    ) {
                        Err(x) => Err(x),
                        Ok((dim, collation)) => Ok(
                            MatchTest::Compare {
                                dim,
                                opno: *opno,
                                collation,
                                constant,
                                expr_on_left,
                            },
                        ),
                    },
                }
            },
            Head::ArrayOp { opno, use_or, .. } => match find_comparison(args) {
                None => Err(PlannerError::IncompatibleClause),
                Some((operand, constant, expr_on_left)) => {
                    if !expr_on_left {
                        return Err(PlannerError::IncompatibleClause);
                    }
                    match mcv_match_expression(operand, keys, exprs) {
                        Err(x) => Err(x),
                        Ok((dim, collation)) => Ok(
                            MatchTest::CompareAny {
                                dim,
                                opno: *opno,
                                collation,
                                constant,
                                use_or: *use_or,
                            },
                        ),
                    }
                },
            },
            Head::NullTest { is_null } => match &**args {
                List::Cons(arg, _) => match mcv_match_expression(arg, keys, exprs) {
                    Err(x) => Err(x),
                    Ok((dim, _)) => Ok(MatchTest::NullTest { dim, is_null: *is_null }),
                },
                List::Nil => Err(PlannerError::IncompatibleClause),
            },
            Head::And => match make_clause_tests(args, keys, exprs) {
                Err(x) => Err(x),
                Ok(l) => Ok(MatchTest::And(Box::new(l))),
            },
            Head::Or => match make_clause_tests(args, keys, exprs) {
                Err(x) => Err(x),
                Ok(l) => Ok(MatchTest::Or(Box::new(l))),
            },
            Head::Not => match make_clause_tests(args, keys, exprs) {
                Err(x) => Err(x),
                Ok(l) => Ok(MatchTest::Not(Box::new(l))),
            },
            _ => make_truth_test(e, keys, exprs),
        },
        _ => make_truth_test(e, keys, exprs),
    }
}

/// Finds the tests that clauses make of common values.
pub fn make_clause_tests(l: &List<Expr>, keys: &List<u32>, exprs: &List<Expr>) -> (r: Result<
    List<MatchTest>,
    PlannerError,
>)
    ensures
        r == clause_tests(*l, *keys, *exprs),
    decreases l,
{
    match l {
        List::Nil => Ok(List::Nil),
        List::Cons(x, xs) => match make_clause_test(x, keys, exprs) {
            Err(e) => Err(e),
            Ok(first) => match make_clause_tests(xs, keys, exprs) {
                Err(e) => Err(e),
                Ok(rest) => Ok(List::Cons(first, Box::new(rest))),
            },
        },
    }
}

proof fn lemma_smaller_bound(keys: List<u32>, x: u32)
    requires
        keys@.len() <= usize::MAX,
    ensures
        smaller_members(keys, x) <= keys@.len(),
    decreases keys,
{
    match keys {
        List::Nil => {
            assert(keys@.len() == 0);
        },
        List::Cons(_, ys) => {
            assert(keys@.len() == ys@.len() + 1);
            lemma_smaller_bound(*ys, x);
        },
    }
}

/// Columns have dimensions of their own, in the order of their numbers.
pub proof fn lemma_column_dimensions(keys: List<u32>, x: u32, y: u32)
    requires
        keys@.len() <= usize::MAX,
        keys@.contains(x),
        x < y,
    ensures
        smaller_members(keys, x) < smaller_members(keys, y),
    decreases keys,
{
    match keys {
        List::Nil => {
            assert(keys@.len() == 0);
        },
        List::Cons(k, ks) => {
            assert(keys@.len() == ks@.len() + 1);
            crate::list::lemma_cons_contains(k, *ks, x);
            lemma_smaller_bound(*ks, x);
            lemma_smaller_bound(*ks, y);
            if ks@.contains(x) {
                lemma_column_dimensions(*ks, x, y);
            } else {
                lemma_smaller_grows(*ks, x, y);
            }
        },
    }
}

proof fn lemma_smaller_grows(keys: List<u32>, x: u32, y: u32)
    requires
        keys@.len() <= usize::MAX,
        x < y,
    ensures
        smaller_members(keys, x) <= smaller_members(keys, y),
    decreases keys,
{
    if let List::Cons(_, ks) = keys {
        assert(keys@.len() == ks@.len() + 1);
        lemma_smaller_grows(*ks, x, y);
        lemma_smaller_bound(*ks, x);
        lemma_smaller_bound(*ks, y);
    }
}

/// Clauses that all have to hold match an item exactly if each of them does;
/// alternatives match it exactly if one of them does.
pub proof fn lemma_all_and_any(l: List<MatchClause>, nulls: Seq<bool>, i: int)
    ensures
        matches_all(l, nulls, i) <==> forall|k: int|
            0 <= k < l@.len() ==> matches_clause(#[trigger] l@[k], nulls, i),
        matches_any(l, nulls, i) <==> exists|k: int|
            0 <= k < l@.len() && matches_clause(#[trigger] l@[k], nulls, i),
    decreases l,
{
    match l {
        List::Nil => {
            assert(l@.len() == 0);
        },
        List::Cons(x, xs) => {
            lemma_all_and_any(*xs, nulls, i);
            assert(l@[0] == x);
            assert(forall|k: int| 0 <= k < xs@.len() ==> l@[k + 1] == #[trigger] xs@[k]);
            assert(forall|k: int| 1 <= k < l@.len() ==> #[trigger] l@[k] == xs@[k - 1]);
        },
    }
}

/// Each clause of the one list is NOT of that of the other.
pub open spec fn are_negations(a: Seq<MatchClause>, b: Seq<MatchClause>) -> bool {
    &&& a.len() == b.len()
    &&& forall|k: int|
        0 <= k < a.len() ==> (#[trigger] a[k] matches MatchClause::Not(l) && *l == List::Cons(
            b[k],
            Box::new(List::Nil),
        ))
}

/// NOT matches the items that its clauses do not, and an item is matched by NOT
/// of a disjunction exactly if NOT of each alternative matches it. A test for
/// null and the one for its absence never both match.
pub proof fn lemma_negated_match(
    l: List<MatchClause>,
    negated: List<MatchClause>,
    dim: usize,
    nulls: Seq<bool>,
    i: int,
)
    requires
        are_negations(negated@, l@),
    ensures
        matches_clause(MatchClause::Not(Box::new(l)), nulls, i) == !matches_clause(
            MatchClause::And(Box::new(l)),
            nulls,
            i,
        ),
        matches_clause(MatchClause::And(Box::new(negated)), nulls, i) == !matches_clause(
            MatchClause::Or(Box::new(l)),
            nulls,
            i,
        ),
        matches_clause(MatchClause::NullTest { dim, is_null: true }, nulls, i) != matches_clause(
            MatchClause::NullTest { dim, is_null: false },
            nulls,
            i,
        ),
{
    reveal_with_fuel(matches_clause, 2);
    lemma_all_and_any(l, nulls, i);
    lemma_all_and_any(negated, nulls, i);
    let none: List<MatchClause> = List::Nil;
    assert(matches_all(none, nulls, i));
    assert forall|k: int| 0 <= k < l@.len() implies matches_clause(#[trigger] negated@[k], nulls, i)
        == !matches_clause(l@[k], nulls, i) by {
        let one = List::Cons(l@[k], Box::new(none));
        assert(negated@[k] is Not);
        assert(matches_all(one, nulls, i) == matches_clause(l@[k], nulls, i));
        assert(negated@[k] == MatchClause::Not(Box::new(one)));
    }
    if matches_any(l, nulls, i) {
        let k = choose|k: int| 0 <= k < l@.len() && matches_clause(#[trigger] l@[k], nulls, i);
        assert(!matches_clause(negated@[k], nulls, i));
    } else {
        assert forall|k: int| 0 <= k < negated@.len() implies matches_clause(
            #[trigger] negated@[k],
            nulls,
            i,
        ) by {
            assert(!matches_clause(l@[k], nulls, i));
        }
    }
}

/// A comparison never matches an item whose dimension is null, nor one with a
/// null constant.
pub proof fn lemma_null_never_compares(c: MatchClause, nulls: Seq<bool>, i: int)
    requires
        matches_clause(c, nulls, i),
    ensures
        c matches MatchClause::Compare { dim, null_const, .. } ==> dim < nulls.len()
            && !nulls[dim as int] && !null_const,
        c matches MatchClause::CompareAny { dim, null_const, .. } ==> dim < nulls.len()
            && !nulls[dim as int] && !null_const,
        c matches MatchClause::Truth { dim, .. } ==> dim < nulls.len() && !nulls[dim as int],
{
}

/// A comparison with the elements of an array matches an item if one of them
/// does, or all do, as is asked for; an element that is null never does.
pub proof fn lemma_elements(l: List<ArrayElement>, i: int)
    ensures
        elements_match(l, true, i) <==> exists|k: int|
            0 <= k < l@.len() && !(#[trigger] l@[k]).isnull && outcome(l@[k].outcomes@, i),
        elements_match(l, false, i) <==> forall|k: int|
            0 <= k < l@.len() ==> !(#[trigger] l@[k]).isnull && outcome(l@[k].outcomes@, i),
    decreases l,
{
    match l {
        List::Nil => {
            assert(l@.len() == 0);
        },
        List::Cons(x, xs) => {
            lemma_elements(*xs, i);
            assert(l@[0] == x);
            assert(forall|k: int| 0 <= k < xs@.len() ==> l@[k + 1] == #[trigger] xs@[k]);
            assert(forall|k: int| 1 <= k < l@.len() ==> #[trigger] l@[k] == xs@[k - 1]);
        },
    }
}

} // verus!

//! The choice among statistics on several columns.
use vstd::prelude::*;
use crate::expr::{equal, strip_label, Expr, Head};
use crate::list::{all_in, check_all_in, count_one, counted, has_number, List};
use crate::relids::{
    relids_add_member, relids_difference, relids_is_subset, relids_singleton_member, Relids,
};
use crate::restriction::rename_relation_list;

verus! {

/// The kinds of statistics on several columns.
#[derive(Clone, Copy, Debug, PartialEq, Eq, Structural)]
pub enum StatKind {
    Ndistinct,
    Dependencies,
    Mcv,
    Expressions,
}

/// Statistics on several columns and expressions of a table. The columns are
/// listed by their numbers, in order.
#[derive(Debug)]
pub struct StatInfo {
    pub id: u32,
    /// They are about the table with those that inherit from it.
    pub inherit: bool,
    pub kind: StatKind,
    pub keys: List<u32>,
    pub exprs: List<Expr>,
}

/// One truth value for each kind of statistics.
#[derive(Clone, Copy, Debug, PartialEq, Eq, Structural)]
pub struct Kinds {
    pub ndistinct: bool,
    pub dependencies: bool,
    pub mcv: bool,
    pub expressions: bool,
}

/// A statistics object: the kinds that it is meant for, and those that have
/// been built, with and without the tables that inherit.
#[derive(Debug)]
pub struct StatForm {
    pub id: u32,
    pub keys: List<u32>,
    pub exprs: List<Expr>,
    pub kinds: Kinds,
    pub built_inherited: Option<Kinds>,
    pub built_plain: Option<Kinds>,
}

/// The statistics of one kind, if they are meant and built, before the rest.
pub open spec fn with_kind(
    f: StatForm,
    exprs: List<Expr>,
    inherit: bool,
    wanted: bool,
    kind: StatKind,
    rest: List<StatInfo>,
) -> List<StatInfo> {
    if wanted {
        List::Cons(
            StatInfo { id: f.id, inherit, kind, keys: f.keys, exprs },
            Box::new(rest),
        )
    } else {
        rest
    }
}

fn add_kind(
    f: &StatForm,
    exprs: &List<Expr>,
    inherit: bool,
    wanted: bool,
    kind: StatKind,
    rest: List<StatInfo>,
) -> (r: List<StatInfo>)
    ensures
        r == with_kind(*f, *exprs, inherit, wanted, kind, rest),
{
    if wanted {
        let info = StatInfo {
            id: f.id,
            inherit,
            kind,
            keys: f.keys.copy(),
            exprs: crate::expr::copy_exprs(exprs),
        };
        List::Cons(info, Box::new(rest))
    } else {
        rest
    }
}

/// The statistics that have been built, before the rest.
pub open spec fn with_built(
    f: StatForm,
    exprs: List<Expr>,
    inherit: bool,
    built: Option<Kinds>,
    rest: List<StatInfo>,
) -> List<StatInfo> {
    match built {
        None => rest,
        Some(b) => {
            let k = f.kinds;
            let l = with_kind(
                f,
                exprs,
                inherit,
                b.expressions && k.expressions,
                StatKind::Expressions,
                rest,
            );
            let l = with_kind(f, exprs, inherit, b.mcv && k.mcv, StatKind::Mcv, l);
            let l = with_kind(
                f,
                exprs,
                inherit,
                b.dependencies && k.dependencies,
                StatKind::Dependencies,
                l,
            );
            with_kind(f, exprs, inherit, b.ndistinct && k.ndistinct, StatKind::Ndistinct, l)
        },
    }
}

fn add_built(
    f: &StatForm,
    exprs: &List<Expr>,
    inherit: bool,
    built: Option<Kinds>,
    rest: List<StatInfo>,
) -> (r: List<StatInfo>)
    ensures
        r == with_built(*f, *exprs, inherit, built, rest),
{
    match built {
        None => rest,
        Some(b) => {
            let k = f.kinds;
            let l = add_kind(
                f,
                exprs,
                inherit,
                b.expressions && k.expressions,
                StatKind::Expressions,
                rest,
            );
            let l = add_kind(f, exprs, inherit, b.mcv && k.mcv, StatKind::Mcv, l);
            let l = add_kind(
                f,
                exprs,
                inherit,
                b.dependencies && k.dependencies,
                StatKind::Dependencies,
                l,
            );
            add_kind(f, exprs, inherit, b.ndistinct && k.ndistinct, StatKind::Ndistinct, l)
        },
    }
}

/// The expressions of a statistics object, in terms of a relation of the
/// query.
pub open spec fn query_exprs(l: List<Expr>, relid: u32) -> List<Expr> {
    if relid == 1 {
        l
    } else {
        crate::restriction::renamed_list(l, 1, Some(relid))
    }
}

/// The statistics of a relation: for each object and each kind that is meant
/// and has been built, those that include inheriting tables first.
pub open spec fn relation_statistics(forms: List<StatForm>, relid: u32) -> List<StatInfo>
    decreases forms,
{
    match forms {
        List::Nil => List::Nil,
        List::Cons(f, fs) => {
            let exprs = query_exprs(f.exprs, relid);
            with_built(
                f,
                exprs,
                true,
                f.built_inherited,
                with_built(f, exprs, false, f.built_plain, relation_statistics(*fs, relid)),
            )
        },
    }
}

/// Lists the statistics of a relation.
pub fn get_relation_statistics(forms: &List<StatForm>, relid: u32) -> (r: List<StatInfo>)
    ensures
        r == relation_statistics(*forms, relid),
    decreases forms,
{
    match forms {
        List::Nil => List::Nil,
        List::Cons(f, fs) => {
            let own = crate::expr::copy_exprs(&f.exprs);
            let exprs = if relid == 1 {
                own
            } else {
                rename_relation_list(own, 1, Some(relid))
            };
            let rest = get_relation_statistics(fs, relid);
            let plain = add_built(f, &exprs, false, f.built_plain, rest);
            add_built(f, &exprs, true, f.built_inherited, plain)
        },
    }
}

/// The one relation that all clauses are about: none where they are about
/// several, or about none at all. Clauses about no relation do not count.
pub open spec fn single_rel(clauses: List<Relids>, found: Option<u32>) -> Option<u32>
    decreases clauses,
{
    match clauses {
        List::Nil => found,
        List::Cons(c, cs) => if c is Nil {
            single_rel(*cs, found)
        } else {
            match crate::relids::the_only(c) {
                None => None,
                Some(x) => match found {
                    Some(y) if x != y => None,
                    _ => single_rel(*cs, Some(x)),
                },
            }
        },
    }
}

fn find_single(clauses: &List<Relids>, found: Option<u32>) -> (r: Option<u32>)
    ensures
        r == single_rel(*clauses, found),
    decreases clauses,
{
    match clauses {
        List::Nil => found,
        List::Cons(c, cs) => {
            if c.is_nil() {
                return find_single(cs, found);
            }
            match relids_singleton_member(c) {
                None => None,
                Some(x) => match found {
                    Some(y) => if x != y {
                        None
                    } else {
                        find_single(cs, Some(x))
                    },
                    None => find_single(cs, Some(x)),
                },
            }
        },
    }
}

/// Finds the one relation that all clauses are about.
pub fn find_single_rel_for_clauses(clauses: &List<Relids>) -> (r: Option<u32>)
    ensures
        r == single_rel(*clauses, None),
{
    find_single(clauses, None)
}

/// The relations that clauses refer to, without outer joins.
pub open spec fn without_joins(clauses: List<Relids>, outer_joins: Relids) -> List<Relids>
    decreases clauses,
{
    match clauses {
        List::Nil => List::Nil,
        List::Cons(c, cs) => List::Cons(
            crate::relids::difference_list(c, outer_joins),
            Box::new(without_joins(*cs, outer_joins)),
        ),
    }
}

fn drop_joins(clauses: &List<Relids>, outer_joins: &Relids) -> (r: List<Relids>)
    ensures
        r == without_joins(*clauses, *outer_joins),
    decreases clauses,
{
    match clauses {
        List::Nil => List::Nil,
        List::Cons(c, cs) => List::Cons(
            relids_difference(c, outer_joins),
            Box::new(drop_joins(cs, outer_joins)),
        ),
    }
}

/// Finds the one relation that all expressions are about, given the relations
/// that each refers to, outer joins aside.
pub fn find_single_rel_for_clause_nodes(clauses: &List<Relids>, outer_joins: &Relids) -> (r: Option<
    u32,
>)
    ensures
        r == single_rel(without_joins(*clauses, *outer_joins), None),
{
    let own = drop_joins(clauses, outer_joins);
    find_single(&own, None)
}

/// If a single relation is found, every clause is about it alone, or about
/// none.
pub proof fn lemma_single_rel(clauses: List<Relids>, found: Option<u32>, i: int)
    requires
        0 <= i < clauses@.len(),
        single_rel(clauses, found) is Some,
    ensures
        clauses@[i] is Nil || crate::relids::the_only(clauses@[i]) == single_rel(clauses, found),
        found is Some ==> single_rel(clauses, found) == found,
    decreases clauses,
{
    if let List::Cons(c, cs) = clauses {
        assert(clauses@[0] == c);
        let next = if c is Nil {
            found
        } else {
            crate::relids::the_only(c)
        };
        lemma_single_kept(*cs, next);
        if i > 0 {
            assert(clauses@[i] == cs@[i - 1]);
            lemma_single_rel(*cs, next, i - 1);
        }
    }
}

proof fn lemma_single_kept(clauses: List<Relids>, found: Option<u32>)
    ensures
        found is Some && single_rel(clauses, found) is Some ==> single_rel(clauses, found) == found,
    decreases clauses,
{
    if let List::Cons(c, cs) = clauses {
        let next = if c is Nil {
            found
        } else {
            crate::relids::the_only(c)
        };
        lemma_single_kept(*cs, next);
    }
}

/// What is known of operators.
#[derive(Debug)]
pub struct OperatorFacts {
    /// Those whose selectivity is that of a comparison.
    pub comparisons: List<u32>,
    /// Those whose selectivity is that of an equality.
    pub equalities: List<u32>,
    pub leakproof: List<u32>,
    /// The operators and functions that are volatile.
    pub volatile: List<u32>,
}

/// What a clause is about: columns, and expressions that are not columns; and
/// whether it gives nothing away.
#[derive(Debug)]
pub struct ClauseData {
    pub attnums: Relids,
    pub exprs: List<Expr>,
    pub leakproof: bool,
}

/// The operand that is compared with a constant, and whether it stands on the
/// left.
pub open spec fn compared_operand(a: Expr, b: Expr) -> Option<(Expr, bool)> {
    let l = crate::expr::unlabelled(a);
    let r = crate::expr::unlabelled(b);
    if r is Const {
        Some((l, true))
    } else if l is Const {
        Some((r, false))
    } else {
        None
    }
}

fn is_const(e: &Expr) -> (r: bool)
    ensures
        r == (*e is Const),
{
    match e {
        Expr::Const(_) => true,
        _ => false,
    }
}

/// Finds the operand that is compared with a constant.
pub fn examine_opclause_args<'a>(a: &'a Expr, b: &'a Expr) -> (r: Option<(&'a Expr, bool)>)
    ensures
        r is Some <==> compared_operand(*a, *b) is Some,
        r matches Some(x) ==> compared_operand(*a, *b) == Some((*x.0, x.1)),
{
    let l = strip_label(a);
    let r = strip_label(b);
    if is_const(r) {
        Some((l, true))
    } else if is_const(l) {
        Some((r, false))
    } else {
        None
    }
}

/// The two arguments of a call.
pub open spec fn two_args(l: List<Expr>) -> Option<(Expr, Expr)> {
    match l {
        List::Cons(a, rest) => match *rest {
            List::Cons(b, end) => if *end is Nil {
                Some((a, b))
            } else {
                None
            },
            List::Nil => None,
        },
        List::Nil => None,
    }
}

/// Finds the two arguments of a call.
pub fn find_two_args(l: &List<Expr>) -> (r: Option<(&Expr, &Expr)>)
    ensures
        r is Some <==> two_args(*l) is Some,
        r matches Some(x) ==> two_args(*l) == Some((*x.0, *x.1)),
{
    match l {
        List::Cons(a, rest) => match &**rest {
            List::Cons(b, end) => if end.is_nil() {
                Some((a, b))
            } else {
                None
            },
            List::Nil => None,
        },
        List::Nil => None,
    }
}

/// What was found, and a column of the relation.
pub open spec fn with_column(e: Expr, varno: i32, data: ClauseData) -> Option<ClauseData> {
    match e {
        Expr::Var(v) => if v.varno == varno && v.levelsup == 0 && v.attno > 0 {
            Some(
                ClauseData { attnums: crate::relids::ins(data.attnums, v.attno as u32), ..data },
            )
        } else {
            None
        },
        _ => Some(
            ClauseData {
                exprs: data.exprs.then_list(List::Cons(e, Box::new(List::Nil))),
                ..data
            },
        ),
    }
}

fn add_column(e: &Expr, varno: i32, data: ClauseData) -> (r: Option<ClauseData>)
    ensures
        r == with_column(*e, varno, data),
{
    match e {
        Expr::Var(v) => {
            if v.varno != varno || v.levelsup != 0 || v.attno <= 0 {
                return None;
            }
            let mut data = data;
            data.attnums = relids_add_member(&data.attnums, v.attno as u32);
            Some(data)
        },
        other => {
            let mut data = data;
            data.exprs = data.exprs.append(List::one(other.copy()));
            Some(data)
        },
    }
}

/// What was found, and what an operator with a constant is about.
pub open spec fn with_comparison(
    opno: u32,
    args: List<Expr>,
    only_left: bool,
    varno: i32,
    facts: OperatorFacts,
    data: ClauseData,
) -> Option<ClauseData> {
    match two_args(args) {
        None => None,
        Some(p) => match compared_operand(p.0, p.1) {
            None => None,
            Some(o) => if (only_left && !o.1) || !facts.comparisons@.contains(opno) {
                None
            } else {
                with_column(
                    o.0,
                    varno,
                    ClauseData {
                        leakproof: data.leakproof && facts.leakproof@.contains(opno),
                        ..data
                    },
                )
            },
        },
    }
}

fn add_comparison(
    opno: u32,
    args: &List<Expr>,
    only_left: bool,
    varno: i32,
    facts: &OperatorFacts,
    data: ClauseData,
) -> (r: Option<ClauseData>)
    ensures
        r == with_comparison(opno, *args, only_left, varno, *facts, data),
{
    let (a, b) = match find_two_args(args) {
        None => {
            return None;
        },
        Some(p) => p,
    };
    let (operand, left) = match examine_opclause_args(a, b) {
        None => {
            return None;
        },
        Some(o) => o,
    };
    if (only_left && !left) || !crate::list::list_has(&facts.comparisons, opno) {
        return None;
    }
    let mut data = data;
    data.leakproof = data.leakproof && crate::list::list_has(&facts.leakproof, opno);
    add_column(operand, varno, data)
}

/// A clause that statistics on several columns might help with.
#[derive(Debug)]
pub struct StatClause {
    pub clause: Expr,
    /// It does not depend on the rows.
    pub pseudoconstant: bool,
    /// The relations that it refers to.
    pub relids: Relids,
    /// All rows of the columns that it refers to may be read.
    pub readable: bool,
    /// Its selectivity is accounted for already.
    pub estimated: bool,
}

/// What a clause is about, added to what was found; none where the clause is
/// not of a kind that statistics help with.
pub open spec fn clause_data(
    clause: Expr,
    varno: i32,
    facts: OperatorFacts,
    data: ClauseData,
) -> Option<ClauseData>
    decreases clause, 1int,
{
    match clause {
        Expr::Relabel { typid, collation, arg } => bare_clause_data(*arg, varno, facts, data),
        _ => bare_clause_data(clause, varno, facts, data),
    }
}

/// What a clause without a relabelling is about.
pub open spec fn bare_clause_data(
    clause: Expr,
    varno: i32,
    facts: OperatorFacts,
    data: ClauseData,
) -> Option<ClauseData>
    decreases clause, 0int,
{
    match clause {
        Expr::Call { head, args } => match head {
            Head::Op { opno, typid, collation, inputcollid } => with_comparison(
                opno,
                *args,
                false,
                varno,
                facts,
                data,
            ),
            Head::ArrayOp { opno, use_or, inputcollid } => with_comparison(
                opno,
                *args,
                true,
                varno,
                facts,
                data,
            ),
            Head::And | Head::Or | Head::Not => clauses_data(*args, varno, facts, data),
            Head::NullTest { is_null } => match *args {
                List::Cons(a, _) => with_column(a, varno, data),
                List::Nil => None,
            },
            _ => with_column(clause, varno, data),
        },
        _ => with_column(clause, varno, data),
    }
}

/// What several clauses are about.
pub open spec fn clauses_data(
    l: List<Expr>,
    varno: i32,
    facts: OperatorFacts,
    data: ClauseData,
) -> Option<ClauseData>
    decreases l, 0int,
{
    match l {
        List::Nil => Some(data),
        List::Cons(x, xs) => match clause_data(x, varno, facts, data) {
            None => None,
            Some(d) => clauses_data(*xs, varno, facts, d),
        },
    }
}

fn collect_clause_data(clause: &Expr, varno: i32, facts: &OperatorFacts, data: ClauseData) -> (r:
    Option<ClauseData>)
    ensures
        r == clause_data(*clause, varno, *facts, data),
    decreases clause, 1int,
{
    match clause {
        Expr::Relabel { arg, .. } => collect_bare_data(arg, varno, facts, data),
        other => collect_bare_data(other, varno, facts, data),
    }
}

fn collect_bare_data(clause: &Expr, varno: i32, facts: &OperatorFacts, data: ClauseData) -> (r:
    Option<ClauseData>)
    ensures
        r == bare_clause_data(*clause, varno, *facts, data),
    decreases clause, 0int,
{
    match clause {
        Expr::Call { head, args } => match head {
            Head::Op { opno, .. } => add_comparison(*opno, args, false, varno, facts, data),
            Head::ArrayOp { opno, .. } => add_comparison(*opno, args, true, varno, facts, data),
            Head::And => collect_clauses_data(args, varno, facts, data),
            Head::Or => collect_clauses_data(args, varno, facts, data),
            Head::Not => collect_clauses_data(args, varno, facts, data),
            Head::NullTest { .. } => match &**args {
                List::Cons(a, _) => add_column(a, varno, data),
                List::Nil => None,
            },
            _ => add_column(clause, varno, data),
        },
        _ => add_column(clause, varno, data),
    }
}

fn collect_clauses_data(l: &List<Expr>, varno: i32, facts: &OperatorFacts, data: ClauseData) -> (r:
    Option<ClauseData>)
    ensures
        r == clauses_data(*l, varno, *facts, data),
    decreases l, 0int,
{
    match l {
        List::Nil => Some(data),
        List::Cons(x, xs) => match collect_clause_data(x, varno, facts, data) {
            None => None,
            Some(d) => collect_clauses_data(xs, varno, facts, d),
        },
    }
}

/// Nothing was found yet.
pub open spec fn no_data() -> ClauseData {
    ClauseData { attnums: List::Nil, exprs: List::Nil, leakproof: true }
}

/// What a clause of a single relation is about, where statistics on several
/// columns can help with it. `relids` are the relations that it refers to.
pub open spec fn compatible_clause(
    clause: Expr,
    pseudoconstant: bool,
    relids: Relids,
    relid: u32,
    varno: i32,
    facts: OperatorFacts,
) -> Option<ClauseData> {
    if pseudoconstant || crate::relids::the_only(relids) != Some(relid) {
        None
    } else {
        clause_data(clause, varno, facts, no_data())
    }
}

/// Finds what a clause is about, where statistics on several columns can help
/// with it. If the clause might give something away, all rows must be readable
/// for that.
pub fn statext_is_compatible_clause(
    clause: &Expr,
    pseudoconstant: bool,
    relids: &Relids,
    relid: u32,
    varno: i32,
    facts: &OperatorFacts,
) -> (r: Option<ClauseData>)
    ensures
        r == compatible_clause(*clause, pseudoconstant, *relids, relid, varno, *facts),
{
    if pseudoconstant {
        return None;
    }
    let own = match relids_singleton_member(relids) {
        Some(x) => x == relid,
        None => false,
    };
    if !own {
        return None;
    }
    let none = ClauseData { attnums: List::Nil, exprs: List::Nil, leakproof: true };
    collect_clause_data(clause, varno, facts, none)
}

/// Every expression is one of the statistics object.
pub open spec fn covers_exprs(stat: List<Expr>, exprs: List<Expr>) -> bool
    decreases exprs,
{
    match exprs {
        List::Nil => true,
        List::Cons(x, xs) => expr_number(stat, x, 0) is Some && covers_exprs(stat, *xs),
    }
}

/// Is every expression one of the statistics object?
pub fn stat_covers_expressions(stat: &List<Expr>, exprs: &List<Expr>) -> (r: bool)
    ensures
        r == covers_exprs(*stat, *exprs),
    decreases exprs,
{
    match exprs {
        List::Nil => true,
        List::Cons(x, xs) => find_expr_number(stat, x, 0).is_some() && stat_covers_expressions(stat, xs),
    }
}

/// The statistics object covers what a clause is about.
pub open spec fn covers_clause(s: StatInfo, d: ClauseData) -> bool {
    crate::relids::ids(d.attnums).subset_of(crate::relids::ids(s.keys)) && covers_exprs(
        s.exprs,
        d.exprs,
    )
}

fn check_covers(s: &StatInfo, d: &ClauseData) -> (r: bool)
    ensures
        r == covers_clause(*s, *d),
{
    relids_is_subset(&d.attnums, &s.keys) && stat_covers_expressions(&s.exprs, &d.exprs)
}

/// The sum, as far as the number goes.
pub open spec fn sum(a: usize, b: usize) -> usize {
    if a + b > usize::MAX {
        usize::MAX
    } else {
        (a + b) as usize
    }
}

/// Adds, as far as the number goes.
pub fn add_counts(a: usize, b: usize) -> (r: usize)
    ensures
        r == sum(a, b),
{
    if a > usize::MAX - b {
        usize::MAX
    } else {
        a + b
    }
}

/// How many different numbers a list holds.
pub open spec fn distinct_count(l: List<u32>) -> usize
    decreases l,
{
    match l {
        List::Nil => 0,
        List::Cons(x, xs) => if xs@.contains(x) {
            distinct_count(*xs)
        } else {
            counted(distinct_count(*xs))
        },
    }
}

/// Counts the different numbers of a list.
pub fn count_distinct(l: &List<u32>) -> (r: usize)
    ensures
        r == distinct_count(*l),
    decreases l,
{
    match l {
        List::Nil => 0,
        List::Cons(x, xs) => {
            let rest: usize = count_distinct(xs);
            if crate::list::list_has(xs, *x) {
                rest
            } else {
                count_one(rest)
            }
        },
    }
}

/// Counting different numbers is counting the members of the set.
pub proof fn lemma_distinct_count(l: List<u32>)
    requires
        l@.len() <= usize::MAX,
    ensures
        crate::relids::ids(l).finite(),
        distinct_count(l) == crate::relids::ids(l).len(),
        crate::relids::ids(l).len() <= l@.len(),
    decreases l,
{
    match l {
        List::Nil => {
            assert(crate::relids::ids(l) =~= Set::<u32>::empty());
        },
        List::Cons(x, xs) => {
            lemma_distinct_count(*xs);
            assert forall|z: u32| l@.contains(z) <==> z == x || xs@.contains(z) by {
                crate::list::lemma_cons_contains(x, *xs, z);
            }
            assert(crate::relids::ids(l) =~= crate::relids::ids(*xs).insert(x));
        },
    }
}

/// How long a list is.
pub open spec fn length<T>(l: List<T>) -> usize
    decreases l,
{
    match l {
        List::Nil => 0,
        List::Cons(_, xs) => counted(length(*xs)),
    }
}

/// Finds how long a list is.
pub fn find_length<T>(l: &List<T>) -> (r: usize)
    ensures
        r == length(*l),
    decreases l,
{
    match l {
        List::Nil => 0,
        List::Cons(_, xs) => count_one(find_length(xs)),
    }
}

/// Which expression of a statistics object an expression is, counted from
/// `base`.
pub open spec fn expr_number(stat: List<Expr>, e: Expr, base: u32) -> Option<u32>
    decreases stat,
{
    match stat {
        List::Nil => None,
        List::Cons(y, ys) => if crate::expr::same_expr(e, y) {
            Some(base)
        } else if base == u32::MAX {
            None
        } else {
            expr_number(*ys, e, (base + 1) as u32)
        },
    }
}

/// Finds which expression of a statistics object an expression is, counted
/// from `base`.
pub fn find_expr_number(stat: &List<Expr>, e: &Expr, base: u32) -> (r: Option<u32>)
    ensures
        r == expr_number(*stat, *e, base),
    decreases stat,
{
    match stat {
        List::Nil => None,
        List::Cons(y, ys) => if equal(e, y) {
            Some(base)
        } else if base == u32::MAX {
            None
        } else {
            find_expr_number(ys, e, base + 1)
        },
    }
}

/// Which expressions of a statistics object the expressions are.
pub open spec fn expr_numbers(stat: List<Expr>, exprs: List<Expr>) -> List<u32>
    decreases exprs,
{
    match exprs {
        List::Nil => List::Nil,
        List::Cons(x, xs) => match expr_number(stat, x, 0) {
            Some(n) => List::Cons(n, Box::new(expr_numbers(stat, *xs))),
            None => expr_numbers(stat, *xs),
        },
    }
}

fn find_expr_numbers(stat: &List<Expr>, exprs: &List<Expr>) -> (r: List<u32>)
    ensures
        r == expr_numbers(*stat, *exprs),
    decreases exprs,
{
    match exprs {
        List::Nil => List::Nil,
        List::Cons(x, xs) => {
            let rest = find_expr_numbers(stat, xs);
            match find_expr_number(stat, x, 0) {
                Some(n) => List::Cons(n, Box::new(rest)),
                None => rest,
            }
        },
    }
}

/// The columns that the clauses that a statistics object covers are about.
pub open spec fn matched_columns(s: StatInfo, clauses: List<Option<ClauseData>>) -> List<u32>
    decreases clauses,
{
    match clauses {
        List::Nil => List::Nil,
        List::Cons(c, cs) => match c {
            Some(d) if covers_clause(s, d) => d.attnums.then_list(matched_columns(s, *cs)),
            _ => matched_columns(s, *cs),
        },
    }
}

/// The expressions of a statistics object that the clauses that it covers are
/// about.
pub open spec fn matched_exprs(s: StatInfo, clauses: List<Option<ClauseData>>) -> List<u32>
    decreases clauses,
{
    match clauses {
        List::Nil => List::Nil,
        List::Cons(c, cs) => match c {
            Some(d) if covers_clause(s, d) => expr_numbers(s.exprs, d.exprs).then_list(
                matched_exprs(s, *cs),
            ),
            _ => matched_exprs(s, *cs),
        },
    }
}

fn collect_matches(s: &StatInfo, clauses: &List<Option<ClauseData>>) -> (r: (List<u32>, List<u32>))
    ensures
        r.0 == matched_columns(*s, *clauses),
        r.1 == matched_exprs(*s, *clauses),
    decreases clauses,
{
    match clauses {
        List::Nil => (List::Nil, List::Nil),
        List::Cons(c, cs) => {
            let (columns, exprs) = collect_matches(s, cs);
            match c {
                None => (columns, exprs),
                Some(d) => if check_covers(s, d) {
                    let numbers = find_expr_numbers(&s.exprs, &d.exprs);
                    (d.attnums.copy().append(columns), numbers.append(exprs))
                } else {
                    (columns, exprs)
                },
            }
        },
    }
}

/// How many columns and expressions of a statistics object the clauses that it
/// covers are about.
pub open spec fn num_matched(s: StatInfo, clauses: List<Option<ClauseData>>) -> usize {
    sum(
        distinct_count(matched_columns(s, clauses)),
        distinct_count(matched_exprs(s, clauses)),
    )
}

/// How many columns and expressions a statistics object is about.
pub open spec fn num_keys(s: StatInfo) -> usize {
    sum(distinct_count(s.keys), length(s.exprs))
}

/// A statistics object of the right kind.
pub open spec fn is_applicable(s: StatInfo, kind: StatKind, inherit: bool) -> bool {
    s.kind == kind && s.inherit == inherit
}

/// The best statistics object of a list, where `best` is the best so far and
/// has `matched` columns and expressions that count, of `keys`: the one with
/// the most of them that count, and of those, the first with the fewest.
pub open spec fn best_of(
    stats: List<StatInfo>,
    kind: StatKind,
    inherit: bool,
    clauses: List<Option<ClauseData>>,
    best: Option<StatInfo>,
    matched: usize,
    keys: usize,
) -> Option<StatInfo>
    decreases stats,
{
    match stats {
        List::Nil => best,
        List::Cons(s, ss) => {
            let m = num_matched(s, clauses);
            let k = num_keys(s);
            if is_applicable(s, kind, inherit) && (m > matched || (m == matched && k < keys)) {
                best_of(*ss, kind, inherit, clauses, Some(s), m, k)
            } else {
                best_of(*ss, kind, inherit, clauses, best, matched, keys)
            }
        },
    }
}

/// The most columns and expressions that statistics can be about.
pub const MAX_DIMENSIONS: usize = 8;

/// The best statistics object for clauses: at least two of its columns and
/// expressions have to count.
pub open spec fn best_statistics(
    stats: List<StatInfo>,
    kind: StatKind,
    inherit: bool,
    clauses: List<Option<ClauseData>>,
) -> Option<StatInfo> {
    best_of(stats, kind, inherit, clauses, None, 2, (MAX_DIMENSIONS + 1) as usize)
}

fn find_best<'a>(
    stats: &'a List<StatInfo>,
    kind: StatKind,
    inherit: bool,
    clauses: &List<Option<ClauseData>>,
    best: Option<&'a StatInfo>,
    matched: usize,
    keys: usize,
) -> (r: Option<&'a StatInfo>)
    ensures
        (match r {
            Some(s) => Some(*s),
            None => None,
        }) == best_of(
            *stats,
            kind,
            inherit,
            *clauses,
            match best {
                Some(s) => Some(*s),
                None => None,
            },
            matched,
            keys,
        ),
    decreases stats,
{
    match stats {
        List::Nil => best,
        List::Cons(s, ss) => {
            let (columns, exprs) = collect_matches(s, clauses);
            let m: usize = add_counts(count_distinct(&columns), count_distinct(&exprs));
            let k: usize = add_counts(count_distinct(&s.keys), find_length(&s.exprs));
            if s.kind == kind && s.inherit == inherit && (m > matched || (m == matched && k
                < keys)) {
                find_best(ss, kind, inherit, clauses, Some(s), m, k)
            } else {
                find_best(ss, kind, inherit, clauses, best, matched, keys)
            }
        },
    }
}

/// Chooses the best statistics object for clauses.
pub fn choose_best_statistics<'a>(
    stats: &'a List<StatInfo>,
    kind: StatKind,
    inherit: bool,
    clauses: &List<Option<ClauseData>>,
) -> (r: Option<&'a StatInfo>)
    ensures
        (match r {
            Some(s) => Some(*s),
            None => None,
        }) == best_statistics(*stats, kind, inherit, *clauses),
{
    find_best(stats, kind, inherit, clauses, None, 2, MAX_DIMENSIONS + 1)
}

proof fn lemma_best_of(
    stats: List<StatInfo>,
    kind: StatKind,
    inherit: bool,
    clauses: List<Option<ClauseData>>,
    best: Option<StatInfo>,
    matched: usize,
    keys: usize,
    i: int,
)
    requires
        best matches Some(b) ==> is_applicable(b, kind, inherit) && num_matched(b, clauses)
            == matched,
        matched >= 2,
    ensures
        best_of(stats, kind, inherit, clauses, best, matched, keys) matches Some(b) ==> {
            &&& is_applicable(b, kind, inherit)
            &&& num_matched(b, clauses) >= matched
        },
        0 <= i < stats@.len() && is_applicable(stats@[i], kind, inherit) ==> match best_of(
            stats,
            kind,
            inherit,
            clauses,
            best,
            matched,
            keys,
        ) {
            Some(b) => num_matched(stats@[i], clauses) <= num_matched(b, clauses),
            None => num_matched(stats@[i], clauses) <= matched,
        },
        best is Some ==> best_of(stats, kind, inherit, clauses, best, matched, keys) is Some,
    decreases stats,
{
    if let List::Cons(s, ss) = stats {
        let m = num_matched(s, clauses);
        let k = num_keys(s);
        assert(stats@[0] == s);
        if i > 0 && i < stats@.len() {
            assert(stats@[i] == ss@[i - 1]);
        }
        if is_applicable(s, kind, inherit) && (m > matched || (m == matched && k < keys)) {
            lemma_best_of(*ss, kind, inherit, clauses, Some(s), m, k, i - 1);
        } else {
            lemma_best_of(*ss, kind, inherit, clauses, best, matched, keys, i - 1);
        }
    }
}

/// The statistics object that is chosen is of the right kind, at least two of
/// its columns and expressions count, and no other of its kind has more of
/// them that do.
pub proof fn lemma_best_statistics(
    stats: List<StatInfo>,
    kind: StatKind,
    inherit: bool,
    clauses: List<Option<ClauseData>>,
    i: int,
)
    ensures
        best_statistics(stats, kind, inherit, clauses) matches Some(b) ==> {
            &&& is_applicable(b, kind, inherit)
            &&& num_matched(b, clauses) >= 2
            &&& 0 <= i < stats@.len() && is_applicable(stats@[i], kind, inherit) ==> num_matched(
                stats@[i],
                clauses,
            ) <= num_matched(b, clauses)
        },
{
    lemma_best_of(
        stats,
        kind,
        inherit,
        clauses,
        None,
        2,
        (MAX_DIMENSIONS + 1) as usize,
        i,
    );
}

/// The clauses that a statistics object covers.
pub open spec fn covered(s: StatInfo, clauses: List<Option<ClauseData>>) -> List<bool>
    decreases clauses,
{
    match clauses {
        List::Nil => List::Nil,
        List::Cons(c, cs) => List::Cons(
            (c matches Some(d) && covers_clause(s, d)),
            Box::new(covered(s, *cs)),
        ),
    }
}

/// The clauses that it does not cover.
pub open spec fn uncovered(s: StatInfo, clauses: List<Option<ClauseData>>) -> List<
    Option<ClauseData>,
>
    decreases clauses,
{
    match clauses {
        List::Nil => List::Nil,
        List::Cons(c, cs) => List::Cons(
            match c {
                Some(d) if covers_clause(s, d) => None,
                _ => c,
            },
            Box::new(uncovered(s, *cs)),
        ),
    }
}

fn split_covered(s: &StatInfo, clauses: List<Option<ClauseData>>) -> (r: (
    List<bool>,
    List<Option<ClauseData>>,
))
    ensures
        r.0 == covered(*s, clauses),
        r.1 == uncovered(*s, clauses),
    decreases clauses,
{
    match clauses {
        List::Nil => (List::Nil, List::Nil),
        List::Cons(c, cs) => {
            let (flags, rest) = split_covered(s, *cs);
            let here = match &c {
                Some(d) => check_covers(s, d),
                None => false,
            };
            let left = if here {
                None
            } else {
                c
            };
            (List::Cons(here, Box::new(flags)), List::Cons(left, Box::new(rest)))
        },
    }
}

/// How many clauses are left.
pub open spec fn num_left(clauses: List<Option<ClauseData>>) -> nat
    decreases clauses,
{
    match clauses {
        List::Nil => 0,
        List::Cons(c, cs) => num_left(*cs) + if c is Some {
            1nat
        } else {
            0nat
        },
    }
}

proof fn lemma_num_left(s: StatInfo, clauses: List<Option<ClauseData>>)
    ensures
        num_left(uncovered(s, clauses)) <= num_left(clauses),
        num_matched(s, clauses) > 0 ==> num_left(uncovered(s, clauses)) < num_left(clauses),
    decreases clauses,
{
    if let List::Cons(c, cs) = clauses {
        lemma_num_left(s, *cs);
    }
}

/// One use of statistics: which object, and for which clauses.
#[derive(Debug)]
pub struct StatUse {
    pub stat: u32,
    pub clauses: List<bool>,
}

/// The uses of statistics on common values: the best object for the clauses,
/// then the best for those that are left, and so on.
pub open spec fn stat_uses(
    stats: List<StatInfo>,
    inherit: bool,
    clauses: List<Option<ClauseData>>,
) -> List<StatUse>
    decreases num_left(clauses),
    via stat_uses_decreases
{
    match best_statistics(stats, StatKind::Mcv, inherit, clauses) {
        None => List::Nil,
        Some(s) => List::Cons(
            StatUse { stat: s.id, clauses: covered(s, clauses) },
            Box::new(stat_uses(stats, inherit, uncovered(s, clauses))),
        ),
    }
}

#[via_fn]
proof fn stat_uses_decreases(
    stats: List<StatInfo>,
    inherit: bool,
    clauses: List<Option<ClauseData>>,
) {
    lemma_best_statistics(stats, StatKind::Mcv, inherit, clauses, 0);
    if let Some(s) = best_statistics(stats, StatKind::Mcv, inherit, clauses) {
        lemma_num_left(s, clauses);
    }
}

/// Decides which statistics on common values are used for which clauses.
/// Clauses without data are estimated already, or not of a kind that these
/// statistics help with.
pub fn statext_mcv_clauselist_selectivity(
    stats: &List<StatInfo>,
    inherit: bool,
    clauses: List<Option<ClauseData>>,
) -> (r: List<StatUse>)
    ensures
        r == stat_uses(*stats, inherit, clauses),
    decreases num_left(clauses),
{
    match choose_best_statistics(stats, StatKind::Mcv, inherit, &clauses) {
        None => List::Nil,
        Some(s) => {
            proof {
                lemma_best_statistics(*stats, StatKind::Mcv, inherit, clauses, 0);
                lemma_num_left(*s, clauses);
            }
            let (flags, left) = split_covered(s, clauses);
            let first = StatUse { stat: s.id, clauses: flags };
            List::Cons(first, Box::new(statext_mcv_clauselist_selectivity(stats, inherit, left)))
        },
    }
}

/// The clause is about a single column or expression: its own statistics serve
/// it as well.
pub open spec fn is_simple(d: ClauseData) -> bool {
    if d.attnums is Nil {
        d.exprs matches List::Cons(_, rest) && *rest is Nil
    } else {
        d.exprs is Nil && crate::relids::the_only(d.attnums) is Some
    }
}

/// Decides which statistics on common values are used for which alternatives
/// of a disjunction, and which alternatives are about a single column or
/// expression.
pub fn statext_mcv_clauselist_selectivity_or_nodes(
    stats: &List<StatInfo>,
    inherit: bool,
    clauses: List<Option<ClauseData>>,
) -> (r: (List<StatUse>, List<bool>))
    ensures
        r.0 == stat_uses(*stats, inherit, clauses),
        r.1 == simple_clauses(clauses),
{
    let simple = find_simple_clauses(&clauses);
    (statext_mcv_clauselist_selectivity(stats, inherit, clauses), simple)
}

/// The clauses that are about a single column or expression.
pub open spec fn simple_clauses(clauses: List<Option<ClauseData>>) -> List<bool>
    decreases clauses,
{
    match clauses {
        List::Nil => List::Nil,
        List::Cons(c, cs) => List::Cons(
            (c matches Some(d) && is_simple(d)),
            Box::new(simple_clauses(*cs)),
        ),
    }
}

fn find_simple_clauses(clauses: &List<Option<ClauseData>>) -> (r: List<bool>)
    ensures
        r == simple_clauses(*clauses),
    decreases clauses,
{
    match clauses {
        List::Nil => List::Nil,
        List::Cons(c, cs) => {
            let here = match c {
                None => false,
                Some(d) => if d.attnums.is_nil() {
                    match &d.exprs {
                        List::Cons(_, rest) => rest.is_nil(),
                        List::Nil => false,
                    }
                } else {
                    d.exprs.is_nil() && relids_singleton_member(&d.attnums).is_some()
                },
            };
            List::Cons(here, Box::new(find_simple_clauses(cs)))
        },
    }
}

/// The flag at a place.
pub open spec fn flag_at(l: List<bool>, i: int) -> bool {
    0 <= i < l@.len() && l@[i]
}

proof fn lemma_covered(s: StatInfo, clauses: List<Option<ClauseData>>, i: int)
    requires
        0 <= i < clauses@.len(),
    ensures
        covered(s, clauses)@.len() == clauses@.len(),
        uncovered(s, clauses)@.len() == clauses@.len(),
        covered(s, clauses)@[i] ==> clauses@[i] is Some && uncovered(s, clauses)@[i] is None,
        !covered(s, clauses)@[i] ==> uncovered(s, clauses)@[i] == clauses@[i],
    decreases clauses,
{
    if let List::Cons(c, cs) = clauses {
        assert(clauses@[0] == c);
        let f = covered(s, clauses);
        let u = uncovered(s, clauses);
        lemma_covered_len(s, *cs);
        if i > 0 {
            lemma_covered(s, *cs, i - 1);
            assert(clauses@[i] == cs@[i - 1]);
            assert(f@[i] == covered(s, *cs)@[i - 1]);
            assert(u@[i] == uncovered(s, *cs)@[i - 1]);
        }
    }
}

proof fn lemma_covered_len(s: StatInfo, clauses: List<Option<ClauseData>>)
    ensures
        covered(s, clauses)@.len() == clauses@.len(),
        uncovered(s, clauses)@.len() == clauses@.len(),
    decreases clauses,
{
    if let List::Cons(_, cs) = clauses {
        lemma_covered_len(s, *cs);
    }
}

/// No clause is estimated twice: of the uses of statistics, at most one is for
/// a given clause, and none for a clause without data.
pub proof fn lemma_used_once(
    stats: List<StatInfo>,
    inherit: bool,
    clauses: List<Option<ClauseData>>,
    i: int,
    j: int,
    k: int,
)
    requires
        0 <= i < clauses@.len(),
        0 <= j < stat_uses(stats, inherit, clauses)@.len(),
        0 <= k < stat_uses(stats, inherit, clauses)@.len(),
        flag_at(stat_uses(stats, inherit, clauses)@[j].clauses, i),
        flag_at(stat_uses(stats, inherit, clauses)@[k].clauses, i),
    ensures
        j == k,
        clauses@[i] is Some,
    decreases num_left(clauses),
{
    lemma_best_statistics(stats, StatKind::Mcv, inherit, clauses, 0);
    if let Some(s) = best_statistics(stats, StatKind::Mcv, inherit, clauses) {
        lemma_num_left(s, clauses);
        lemma_covered(s, clauses, i);
        let rest = stat_uses(stats, inherit, uncovered(s, clauses));
        let all = stat_uses(stats, inherit, clauses);
        assert(all@[0] == StatUse { stat: s.id, clauses: covered(s, clauses) });
        if j > 0 {
            assert(all@[j] == rest@[j - 1]);
        }
        if k > 0 {
            assert(all@[k] == rest@[k - 1]);
        }
        if j > 0 && k > 0 {
            lemma_used_once(stats, inherit, uncovered(s, clauses), i, j - 1, k - 1);
        } else if j > 0 {
            lemma_used_once(stats, inherit, uncovered(s, clauses), i, j - 1, j - 1);
        } else if k > 0 {
            lemma_used_once(stats, inherit, uncovered(s, clauses), i, k - 1, k - 1);
        }
    }
}

/// A column of a statistics object.
pub open spec fn shares_column(e: Expr, keys: List<u32>) -> bool {
    e matches Expr::Var(v) && v.attno > 0 && keys@.contains(v.attno as u32)
}

/// An expression of a statistics object.
pub open spec fn shares_expr(e: Expr, exprs: List<Expr>) -> bool {
    !(e is Var) && expr_number(exprs, e, 0) is Some
}

fn check_column(e: &Expr, keys: &List<u32>) -> (r: bool)
    ensures
        r == shares_column(*e, *keys),
{
    match e {
        Expr::Var(v) => v.attno > 0 && crate::list::list_has(keys, v.attno as u32),
        _ => false,
    }
}

fn check_expr(e: &Expr, exprs: &List<Expr>) -> (r: bool)
    ensures
        r == shares_expr(*e, *exprs),
{
    match e {
        Expr::Var(_) => false,
        other => find_expr_number(exprs, other, 0).is_some(),
    }
}

/// How many of the nodes are columns of a statistics object, and how many are
/// expressions of it.
pub open spec fn shared(nodes: List<Expr>, s: StatInfo) -> (usize, usize)
    decreases nodes,
{
    match nodes {
        List::Nil => (0, 0),
        List::Cons(x, xs) => {
            let rest = shared(*xs, s);
            (
                if shares_column(x, s.keys) {
                    counted(rest.0)
                } else {
                    rest.0
                },
                if shares_expr(x, s.exprs) {
                    counted(rest.1)
                } else {
                    rest.1
                },
            )
        },
    }
}

fn count_shared(nodes: &List<Expr>, s: &StatInfo) -> (r: (usize, usize))
    ensures
        r == shared(*nodes, *s),
    decreases nodes,
{
    match nodes {
        List::Nil => (0, 0),
        List::Cons(x, xs) => {
            let (columns, exprs) = count_shared(xs, s);
            let columns: usize = if check_column(x, &s.keys) {
                count_one(columns)
            } else {
                columns
            };
            let exprs: usize = if check_expr(x, &s.exprs) {
                count_one(exprs)
            } else {
                exprs
            };
            (columns, exprs)
        },
    }
}

/// The statistics object on numbers of distinct values that has the most
/// expressions in common with the nodes, and then the most columns; at least
/// two in all.
pub open spec fn best_ndistinct(
    stats: List<StatInfo>,
    inherit: bool,
    nodes: List<Expr>,
    best: Option<StatInfo>,
    columns: usize,
    exprs: usize,
) -> Option<StatInfo>
    decreases stats,
{
    match stats {
        List::Nil => best,
        List::Cons(s, ss) => {
            let n = shared(nodes, s);
            if is_applicable(s, StatKind::Ndistinct, inherit) && sum(n.0, n.1) >= 2 && (n.1 > exprs
                || (n.1 == exprs && n.0 > columns)) {
                best_ndistinct(*ss, inherit, nodes, Some(s), n.0, n.1)
            } else {
                best_ndistinct(*ss, inherit, nodes, best, columns, exprs)
            }
        },
    }
}

fn find_best_ndistinct<'a>(
    stats: &'a List<StatInfo>,
    inherit: bool,
    nodes: &List<Expr>,
    best: Option<&'a StatInfo>,
    columns: usize,
    exprs: usize,
) -> (r: Option<&'a StatInfo>)
    ensures
        (match r {
            Some(s) => Some(*s),
            None => None,
        }) == best_ndistinct(
            *stats,
            inherit,
            *nodes,
            match best {
                Some(s) => Some(*s),
                None => None,
            },
            columns,
            exprs,
        ),
    decreases stats,
{
    match stats {
        List::Nil => best,
        List::Cons(s, ss) => {
            let (n, m) = count_shared(nodes, s);
            if s.kind == StatKind::Ndistinct && s.inherit == inherit && add_counts(n, m) >= 2 && (m
                > exprs || (m == exprs && n > columns)) {
                find_best_ndistinct(ss, inherit, nodes, Some(s), n, m)
            } else {
                find_best_ndistinct(ss, inherit, nodes, best, columns, exprs)
            }
        },
    }
}

/// Chooses the statistics object on numbers of distinct values for the nodes.
pub fn choose_ndistinct<'a>(stats: &'a List<StatInfo>, inherit: bool, nodes: &List<Expr>) -> (r:
    Option<&'a StatInfo>)
    ensures
        (match r {
            Some(s) => Some(*s),
            None => None,
        }) == best_ndistinct(*stats, inherit, *nodes, None, 0, 0),
{
    find_best_ndistinct(stats, inherit, nodes, None, 0, 0)
}

/// The number of an item of a statistics object: columns by their own numbers,
/// expressions by negative ones.
pub open spec fn node_number(e: Expr, s: StatInfo) -> Option<i32> {
    match e {
        Expr::Var(v) => if shares_column(e, s.keys) {
            Some(v.attno as i32)
        } else {
            None
        },
        _ => match expr_number(s.exprs, e, 0) {
            Some(n) if n < i32::MAX => Some((-1 - n) as i32),
            _ => None,
        },
    }
}

fn find_node_number(e: &Expr, s: &StatInfo) -> (r: Option<i32>)
    ensures
        r == node_number(*e, *s),
{
    match e {
        Expr::Var(v) => if check_column(e, &s.keys) {
            Some(v.attno as i32)
        } else {
            None
        },
        other => match find_expr_number(&s.exprs, other, 0) {
            Some(n) => if n < i32::MAX as u32 {
                Some(-1 - (n as i32))
            } else {
                None
            },
            None => None,
        },
    }
}

/// The numbers of the nodes that a statistics object is about, each once.
pub open spec fn node_numbers(nodes: List<Expr>, s: StatInfo) -> List<i32>
    decreases nodes,
{
    match nodes {
        List::Nil => List::Nil,
        List::Cons(x, xs) => {
            let rest = node_numbers(*xs, s);
            match node_number(x, s) {
                Some(n) if !rest@.contains(n) => List::Cons(n, Box::new(rest)),
                _ => rest,
            }
        },
    }
}

fn find_node_numbers(nodes: &List<Expr>, s: &StatInfo) -> (r: List<i32>)
    ensures
        r == node_numbers(*nodes, *s),
    decreases nodes,
{
    match nodes {
        List::Nil => List::Nil,
        List::Cons(x, xs) => {
            let rest = find_node_numbers(xs, s);
            match find_node_number(x, s) {
                Some(n) => if has_number(&rest, n) {
                    rest
                } else {
                    List::Cons(n, Box::new(rest))
                },
                None => rest,
            }
        },
    }
}

/// The number of distinct values of some columns and expressions.
#[derive(Debug)]
pub struct NdistinctItem {
    pub attributes: List<i32>,
    pub ndistinct: u64,
}

/// The item for just the given numbers.
pub open spec fn item_for(items: List<NdistinctItem>, numbers: List<i32>) -> Option<u64>
    decreases items,
{
    match items {
        List::Nil => None,
        List::Cons(x, xs) => if !crate::aggorder::is_longer(x.attributes, numbers)
            && !crate::aggorder::is_longer(numbers, x.attributes) && all_in(
            x.attributes,
            numbers,
        ) {
            Some(x.ndistinct)
        } else {
            item_for(*xs, numbers)
        },
    }
}

fn find_item(items: &List<NdistinctItem>, numbers: &List<i32>) -> (r: Option<u64>)
    ensures
        r == item_for(*items, *numbers),
    decreases items,
{
    match items {
        List::Nil => None,
        List::Cons(x, xs) => if !crate::aggorder::longer(&x.attributes, numbers)
            && !crate::aggorder::longer(numbers, &x.attributes) && check_all_in(
            &x.attributes,
            numbers,
        ) {
            Some(x.ndistinct)
        } else {
            find_item(xs, numbers)
        },
    }
}

/// The nodes that a statistics object is about.
pub open spec fn consumed_nodes(nodes: List<Expr>, s: StatInfo) -> List<bool>
    decreases nodes,
{
    match nodes {
        List::Nil => List::Nil,
        List::Cons(x, xs) => List::Cons(
            shares_column(x, s.keys) || shares_expr(x, s.exprs),
            Box::new(consumed_nodes(*xs, s)),
        ),
    }
}

fn find_consumed(nodes: &List<Expr>, s: &StatInfo) -> (r: List<bool>)
    ensures
        r == consumed_nodes(*nodes, *s),
    decreases nodes,
{
    match nodes {
        List::Nil => List::Nil,
        List::Cons(x, xs) => {
            let here = check_column(x, &s.keys) || check_expr(x, &s.exprs);
            List::Cons(here, Box::new(find_consumed(xs, s)))
        },
    }
}

/// Finds the number of distinct values of those nodes that a statistics object
/// is about, and tells which they are.
pub fn estimate_multivariate_ndistinct(s: &StatInfo, items: &List<NdistinctItem>, nodes: &List<Expr>) -> (r:
    Result<(u64, List<bool>), crate::error::PlannerError>)
    ensures
        r == match item_for(*items, node_numbers(*nodes, *s)) {
            Some(n) => Ok((n, consumed_nodes(*nodes, *s))),
            None => Err(crate::error::PlannerError::NotInStatistics),
        },
{
    let numbers = find_node_numbers(nodes, s);
    match find_item(items, &numbers) {
        Some(n) => Ok((n, find_consumed(nodes, s))),
        None => Err(crate::error::PlannerError::NotInStatistics),
    }
}

proof fn lemma_expr_number(stat: List<Expr>, e: Expr, base: u32)
    requires
        expr_number(stat, e, base) is Some,
    ensures
        exists|k: int| 0 <= k < stat@.len() && crate::expr::same_expr(e, #[trigger] stat@[k]),
    decreases stat,
{
    if let List::Cons(y, ys) = stat {
        assert(stat@[0] == y);
        if !crate::expr::same_expr(e, y) {
            lemma_expr_number(*ys, e, (base + 1) as u32);
            let k = choose|k: int|
                0 <= k < ys@.len() && crate::expr::same_expr(e, #[trigger] ys@[k]);
            assert(stat@[k + 1] == ys@[k]);
        }
    }
}

proof fn lemma_covers_exprs(stat: List<Expr>, exprs: List<Expr>, i: int)
    requires
        covers_exprs(stat, exprs),
        0 <= i < exprs@.len(),
    ensures
        exists|k: int|
            0 <= k < stat@.len() && crate::expr::same_expr(exprs@[i], #[trigger] stat@[k]),
    decreases exprs,
{
    if let List::Cons(x, xs) = exprs {
        assert(exprs@[0] == x);
        if i == 0 {
            lemma_expr_number(stat, x, 0);
        } else {
            assert(exprs@[i] == xs@[i - 1]);
            lemma_covers_exprs(stat, *xs, i - 1);
        }
    }
}

/// Statistics are used for a clause only if they are about every column and
/// every expression of it.
pub proof fn lemma_covers_all(s: StatInfo, d: ClauseData, column: u32, i: int)
    requires
        covers_clause(s, d),
    ensures
        d.attnums@.contains(column) ==> s.keys@.contains(column),
        0 <= i < d.exprs@.len() ==> exists|k: int|
            0 <= k < s.exprs@.len() && crate::expr::same_expr(
                d.exprs@[i],
                #[trigger] s.exprs@[k],
            ),
{
    if d.attnums@.contains(column) {
        assert(crate::relids::ids(d.attnums).contains(column));
        assert(crate::relids::ids(s.keys).contains(column));
    }
    if 0 <= i < d.exprs@.len() {
        lemma_covers_exprs(s.exprs, d.exprs, i);
    }
}

} // verus!

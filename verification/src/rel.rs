//! Kinds of relations.
use vstd::prelude::*;

verus! {

/// What a range table entry stands for.
#[derive(Clone, Copy, Debug, PartialEq, Eq, Structural)]
pub enum RteKind {
    Relation,
    Subquery,
    Join,
    Function,
    TableFunc,
    Values,
    Cte,
    NamedTuplestore,
    Result,
    Group,
}

/// What a planner relation stands for.
#[derive(Clone, Copy, Debug, PartialEq, Eq, Structural)]
pub enum RelOptKind {
    BaseRel,
    JoinRel,
    OtherMemberRel,
    OtherJoinRel,
    UpperRel,
    OtherUpperRel,
}

/// The kinds of joins.
#[derive(Clone, Copy, Debug, PartialEq, Eq, Structural)]
pub enum JoinType {
    Inner,
    Left,
    Full,
    Right,
    Semi,
    Anti,
    RightSemi,
    RightAnti,
    UniqueOuter,
    UniqueInner,
}

/// The relation is a child of another one.
pub open spec fn is_other_rel(kind: RelOptKind) -> bool {
    kind == RelOptKind::OtherMemberRel || kind == RelOptKind::OtherJoinRel || kind
        == RelOptKind::OtherUpperRel
}

/// Is the relation a child of another one?
pub fn other_rel(kind: RelOptKind) -> (r: bool)
    ensures
        r == is_other_rel(kind),
{
    kind == RelOptKind::OtherMemberRel || kind == RelOptKind::OtherJoinRel || kind
        == RelOptKind::OtherUpperRel
}

/// The join can add rows that have no partner, or keep only those without.
pub open spec fn is_outer_jointype(jointype: JoinType) -> bool {
    jointype == JoinType::Left || jointype == JoinType::Full || jointype == JoinType::Right
        || jointype == JoinType::Anti || jointype == JoinType::RightAnti
}

/// Is it an outer join?
pub fn is_outer_join(jointype: JoinType) -> (r: bool)
    ensures
        r == is_outer_jointype(jointype),
{
    jointype == JoinType::Left || jointype == JoinType::Full || jointype == JoinType::Right
        || jointype == JoinType::Anti || jointype == JoinType::RightAnti
}

} // verus!

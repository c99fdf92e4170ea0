//! What planning can fail with.
use vstd::prelude::*;

verus! {

/// A query that cannot be planned, or a path that does not fit together.
#[derive(Clone, Copy, Debug, PartialEq, Eq, Structural)]
pub enum PlannerError {
    /// Some of the GROUP BY types support only hashing, others only sorting.
    CouldNotImplementGroupBy,
    /// Some of the DISTINCT types support only hashing, others only sorting.
    CouldNotImplementDistinct,
    /// A path key names an equivalence class that does not exist.
    UnknownEquivalenceClass,
    /// A volatile equivalence class does not say which column it stands for.
    VolatileClassWithoutSortref,
    /// No column carries the label of an ORDER BY or GROUP BY item.
    SortGroupRefNotFound,
    /// No column can be sorted for a path key.
    PathkeyItemNotFound,
    /// A column to be compared is not in the target list.
    GroupColumnNotFound,
    /// An expression to be made unique is not in the target list.
    UniqueExprNotFound,
    /// An equality that duplicates are removed by can neither be hashed nor sorted
    /// as asked.
    UniqueOperatorNotFound,
    /// A path takes parameters from a parent and cannot be translated to its child.
    PathNotReparameterizable,
    /// There are fewer path keys than columns to be made unique.
    TooFewPathkeys,
    /// The outer path keys do not match the merge clauses.
    OuterPathkeysMismatch,
    /// The inner path keys do not match the merge clauses.
    InnerPathkeysMismatch,
    /// The outer and inner path keys of a merge join do not match.
    MergePathkeysMismatch,
    /// The columns of an Append child are not those of the Append.
    AppendChildMismatch,
    /// An index clause does not match its index column.
    IndexKeyMismatch,
    /// A join clause is not an operator with two operands.
    NotAnOperatorClause,
    /// The operator of a join clause has no commutator.
    NoCommutator,
    /// The work table of a recursive query is not known.
    WorkTableNotFound,
    /// The target lists of a plan and of its query have different lengths.
    TargetListLengthMismatch,
    /// A column of a set operation is not one of its result.
    JunkColumnInSetOperation,
    /// The transition type of an aggregate is not known, or the aggregate is
    /// split already.
    AggregateNotSplittable,
    /// A sort label of a stored column is not in the target list.
    LabelNotFound,
    /// No partition of a partitioned relation has any rows.
    NoLivePartition,
    /// A relation to be removed is not in the order of joining, or more than once.
    RelationNotInJoinlist,
    /// A statistics object does not hold what it was chosen for.
    NotInStatistics,
    /// A clause is not of a kind that common values can be tested by.
    IncompatibleClause,
    /// An operator is not one between arrays.
    UnknownArrayOperator,
    /// A reference leads further up than there are query levels.
    BadQueryLevel,
    /// A query of that name is not defined.
    NamedQueryNotFound,
    /// A named query has no plan that could be read.
    NamedPlanNotFound,
    /// A named query was not planned.
    NamedQueryNotPlanned,
    /// Nothing is known of the relation that a path is for.
    UnknownRelation,
    /// A path of this kind cannot be made into a plan at this place.
    UnexpectedPathType,
    /// The genetic search found no order in which the relations can be joined.
    NoValidPlan,
}

} // verus!

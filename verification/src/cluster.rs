//! How a table is brought into the order of an index.
use vstd::prelude::*;
use crate::list::{list_has, List};

verus! {

/// Is a table scanned and sorted, rather than read by the index? It is where
/// index scans are not wanted, where the index is not among those that can be
/// relied on, and where sorting costs less. Costs are given as the bits of
/// nonnegative floating-point numbers, which order as the numbers do.
pub fn plan_cluster_use_sort(
    enable_indexscan: bool,
    indexes: &List<u32>,
    index: u32,
    sort_total: u64,
    index_total: u64,
) -> (r: bool)
    ensures
        r == (!enable_indexscan || !indexes@.contains(index) || sort_total < index_total),
{
    if !enable_indexscan {
        return true;
    }
    if !list_has(indexes, index) {
        return true;
    }
    sort_total < index_total
}

} // verus!

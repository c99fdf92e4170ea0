//! The decision logic of a relational query planner.
use vstd::prelude::*;

pub mod aggorder;
pub mod appendplan;
pub mod arraysel;
pub mod clausesel;
pub mod cluster;
pub mod createplan;
pub mod cte;
pub mod dependencies;
pub mod distinctness;
pub mod error;
pub mod expr;
pub mod exprnode;
pub mod extstats;
pub mod flatten_group;
pub mod geqo;
pub mod grouping;
pub mod groupingsets;
pub mod groupingsets_paths;
pub mod joinplan;
pub mod joinremoval;
pub mod knapsack;
pub mod list;
pub mod matching;
pub mod mcvmatch;
pub mod path;
pub mod plan;
pub mod planagg;
pub mod planfinish;
pub mod plangroup;
pub mod planindex;
pub mod planjoin;
pub mod planmodify;
pub mod plannumber;
pub mod planrole;
pub mod planscan;
pub mod quals;
pub mod rel;
pub mod recheck;
pub mod relids;
pub mod reparam;
pub mod restriction;
pub mod rollup;
pub mod scanplan;
pub mod selfjoin;
pub mod sortcols;
pub mod sortgroup;
pub mod statuse;
pub mod targets;
pub mod tlist;
pub mod upperpaths;

verus! {

} // verus!

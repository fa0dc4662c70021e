use vstd::prelude::*;

verus! {

/// Identifier of a cluster member: a small unsigned integer, compared for
/// equality only.
pub type NodeId = u64;

/// Logical epoch. Terms never decrease on a node; an election increments the
/// term by one.
pub type Term = u64;

/// One-based position in the replicated log; `0` denotes "before the log".
pub type LogIndex = u64;

} // verus!

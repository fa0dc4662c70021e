use vstd::prelude::*;

verus! {

/// Role of a node. Every node starts as `Follower`; it steps up to
/// `Candidate` on an election timeout, to `Leader` on winning a quorum, and
/// back to `Follower` on observing a higher term.
#[derive(Clone, Copy, Debug, PartialEq, Eq, Structural)]
pub enum NodeState {
    Follower,
    Candidate,
    Leader,
}

} // verus!

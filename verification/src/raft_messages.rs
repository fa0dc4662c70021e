use vstd::prelude::*;
use crate::types::{LogIndex, NodeId, Term};

verus! {

/// The wire messages of the protocol. `P` is the payload type and `L` the
/// batch of entries carried by `AppendEntries` (a `LogEntryCollection`).
/// Every message and every response carries the sender's current term.
pub enum RaftMsg<P, L> {
    RequestVote { term: Term, candidate_id: NodeId, last_log_index: LogIndex, last_log_term: Term },
    RequestVoteResponse { term: Term, granted: bool },
    AppendEntries {
        term: Term,
        leader_id: NodeId,
        prev_log_index: LogIndex,
        prev_log_term: Term,
        entries: L,
        leader_commit: LogIndex,
    },
    AppendEntriesResponse { term: Term, success: bool, match_index: LogIndex },
    ClientSubmit { payload: P },
    ClientSubmitResponse { ok: bool, leader_hint: Option<NodeId> },
}

} // verus!

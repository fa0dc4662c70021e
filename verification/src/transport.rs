use vstd::prelude::*;
use crate::raft_messages::RaftMsg;
use crate::types::NodeId;

verus! {

/// Outbound message channel: fire-and-forget. The network may drop,
/// duplicate or reorder what is handed over; `sent()` records what this
/// node asked to be delivered, in order, so callers can state exactly
/// which messages a protocol step emits.
pub trait Transport: Sized {
    type Payload;

    type LogEntries;

    spec fn sent(&self) -> Seq<(NodeId, RaftMsg<Self::Payload, Self::LogEntries>)>;

    fn send(&mut self, target: NodeId, msg: RaftMsg<Self::Payload, Self::LogEntries>)
        ensures
            final(self).sent() == old(self).sent().push((target, msg)),
    ;
}

} // verus!

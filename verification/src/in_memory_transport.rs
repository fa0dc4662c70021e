use vstd::prelude::*;
use crate::in_memory_log_entry_collection::InMemoryLogEntryCollection;
use crate::raft_messages::RaftMsg;
use crate::transport::Transport;
use crate::types::NodeId;

verus! {

/// A transport for hosted simulation: `send` queues the message in an
/// outbox, and the simulation driver drains the outbox into its message
/// broker between steps.
pub struct InMemoryTransport {
    node_id: NodeId,
    outbox: Vec<(NodeId, RaftMsg<String, InMemoryLogEntryCollection>)>,
}

impl InMemoryTransport {
    pub fn new(node_id: NodeId) -> (r: Self)
        ensures
            r.sent() == Seq::<(NodeId, RaftMsg<String, InMemoryLogEntryCollection>)>::empty(),
    {
        let r = InMemoryTransport { node_id, outbox: Vec::new() };
        proof {
            assert(r.outbox@ =~= Seq::<
                (NodeId, RaftMsg<String, InMemoryLogEntryCollection>),
            >::empty());
        }
        r
    }

    /// Hands the queued messages to the driver and empties the outbox.
    pub fn take_outbox(&mut self) -> (r: Vec<
        (NodeId, RaftMsg<String, InMemoryLogEntryCollection>),
    >)
        ensures
            r@ == old(self).sent(),
            final(self).sent() == Seq::<
                (NodeId, RaftMsg<String, InMemoryLogEntryCollection>),
            >::empty(),
    {
        let mut out: Vec<(NodeId, RaftMsg<String, InMemoryLogEntryCollection>)> = Vec::new();
        proof {
            assert(out@ =~= Seq::<(NodeId, RaftMsg<String, InMemoryLogEntryCollection>)>::empty());
        }
        core::mem::swap(&mut self.outbox, &mut out);
        out
    }
}

impl Transport for InMemoryTransport {
    type Payload = String;

    type LogEntries = InMemoryLogEntryCollection;

    closed spec fn sent(&self) -> Seq<(NodeId, RaftMsg<String, InMemoryLogEntryCollection>)> {
        self.outbox@
    }

    fn send(&mut self, target: NodeId, msg: RaftMsg<String, InMemoryLogEntryCollection>)
    {
        self.outbox.push((target, msg));
    }
}

} // verus!

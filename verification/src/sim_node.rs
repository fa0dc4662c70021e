use vstd::prelude::*;
use crate::in_memory_map_collection::InMemoryMapCollection;
use crate::in_memory_node_collection::InMemoryNodeCollection;
use crate::in_memory_state_machine::InMemoryStateMachine;
use crate::in_memory_storage::InMemoryStorage;
use crate::in_memory_transport::InMemoryTransport;
use crate::node::Node;
use crate::raft_messages::RaftMsg;
use crate::tick_timer::TickTimer;
use crate::types::NodeId;

verus! {

/// A node assembled from the hosted-simulation parts: in-memory storage of
/// string commands, an outbox transport, and the deterministic tick timer.
pub type SimNode = Node<
    InMemoryStorage<String>,
    InMemoryStateMachine,
    InMemoryTransport,
    TickTimer,
    InMemoryNodeCollection,
    InMemoryMapCollection,
>;

impl SimNode {
    /// Moves the simulated clock of this node's timer forward, touching
    /// nothing else.
    pub fn advance_time(&mut self, ticks: u64)
        requires
            old(self).wf(),
        ensures
            final(self).wf(),
            final(self).timer.spec_now() == crate::tick_timer::sat_add(
                old(self).timer.spec_now(),
                ticks,
            ),
            final(self).timer.spec_election_deadline() == old(self).timer.spec_election_deadline(),
            final(self).timer.spec_heartbeat_deadline()
                == old(self).timer.spec_heartbeat_deadline(),
            final(self).spec_current_term() == old(self).spec_current_term(),
            final(self).spec_role() == old(self).spec_role(),
            final(self).spec_log() == old(self).spec_log(),
            final(self).spec_commit_index() == old(self).spec_commit_index(),
            final(self).spec_applied() == old(self).spec_applied(),
            final(self).spec_sent() == old(self).spec_sent(),
    {
        self.timer.advance(ticks);
    }

    /// Hands the driver everything the node wants delivered, emptying the
    /// outbox.
    pub fn take_outbox(&mut self) -> (r: Vec<
        (NodeId, RaftMsg<String, crate::in_memory_log_entry_collection::InMemoryLogEntryCollection>),
    >)
        requires
            old(self).wf(),
        ensures
            final(self).wf(),
            r@ == old(self).spec_sent(),
            final(self).spec_sent() == Seq::<
                (
                    NodeId,
                    RaftMsg<
                        String,
                        crate::in_memory_log_entry_collection::InMemoryLogEntryCollection,
                    >,
                ),
            >::empty(),
            final(self).spec_current_term() == old(self).spec_current_term(),
            final(self).spec_role() == old(self).spec_role(),
            final(self).spec_log() == old(self).spec_log(),
            final(self).spec_commit_index() == old(self).spec_commit_index(),
            final(self).spec_applied() == old(self).spec_applied(),
    {
        self.transport.take_outbox()
    }

    /// How many committed commands the state machine has applied.
    pub fn applied_len(&self) -> (r: usize)
        ensures
            r == self.spec_applied().len(),
    {
        self.state_machine.state.len()
    }

    /// The applied commands, in application order.
    pub fn applied(&self) -> (r: &Vec<String>)
        ensures
            r@ == self.spec_applied(),
    {
        &self.state_machine.state
    }
}

} // verus!

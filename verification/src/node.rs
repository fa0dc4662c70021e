use vstd::prelude::*;
use crate::election_manager::{heartbeat_broadcast_ok, vote_broadcast_ok, vote_granted, ElectionManager};
use crate::log_entry::LogEntry;
use crate::log_entry_collection::LogEntryCollection;
use crate::log_entry::payloads_of;
use crate::log_replication_manager::{
    advanced_commit, append_accepted, apply_target, decremented_next, follower_commit, merged_log,
    updated_match, LogReplicationManager,
};
use crate::map_collection::assoc_put;
use crate::map_collection::MapCollection;
use crate::node_collection::NodeCollection;
use crate::node_state::NodeState;
use crate::payload::Payload;
use crate::raft_messages::RaftMsg;
use crate::state_machine::StateMachine;
use crate::storage::Storage;
use crate::timer_service::TimerService;
use crate::transport::Transport;
use crate::types::{LogIndex, NodeId, Term};

verus! {

/// The errors a caller of the node can see. Protocol events — stale terms,
/// missing entries, lost or duplicated messages — are not errors; the
/// algorithm absorbs them.
#[derive(Clone, Copy, Debug, PartialEq, Eq, Structural)]
pub enum RaftError {
    /// A submission reached a node that is not the leader; the hint names
    /// the leader the node last heard from, when it knows one.
    NotLeader { leader_hint: Option<NodeId> },
}

/// One consensus participant: its identity, role, term, and the subsystems
/// it owns. A driver feeds it inbound messages and ticks; everything it
/// says to the outside world goes through its transport's outbox.
pub struct Node<S, SM, T, TM, N, M> where
    S: Storage,
    SM: StateMachine<Payload = S::Payload>,
    T: Transport<Payload = S::Payload>,
    T::LogEntries: LogEntryCollection<Payload = S::Payload>,
    TM: TimerService,
    N: NodeCollection,
    M: MapCollection,
{
    pub node_id: NodeId,
    pub peers: N,
    pub role: NodeState,
    pub current_term: Term,
    pub leader_hint: Option<NodeId>,
    pub election: ElectionManager<N>,
    pub replication: LogReplicationManager<M>,
    pub storage: S,
    pub transport: T,
    pub timer: TM,
    pub state_machine: SM,
}

impl<S, SM, T, TM, N, M> Node<S, SM, T, TM, N, M> where
    S: Storage,
    SM: StateMachine<Payload = S::Payload>,
    T: Transport<Payload = S::Payload>,
    T::LogEntries: LogEntryCollection<Payload = S::Payload>,
    TM: TimerService,
    N: NodeCollection,
    M: MapCollection,
    S::Payload: Payload,
{
    pub open spec fn spec_role(&self) -> NodeState {
        self.role
    }

    pub open spec fn spec_current_term(&self) -> Term {
        self.current_term
    }

    pub open spec fn spec_node_id(&self) -> NodeId {
        self.node_id
    }

    pub open spec fn spec_log(&self) -> Seq<LogEntry<S::Payload>> {
        self.storage.log()
    }

    pub open spec fn spec_voted_for(&self) -> Option<NodeId> {
        self.storage.spec_voted_for()
    }

    pub open spec fn spec_commit_index(&self) -> LogIndex {
        self.replication.spec_commit_index()
    }

    pub open spec fn spec_applied(&self) -> Seq<S::Payload> {
        self.state_machine.applied()
    }

    pub open spec fn spec_sent(&self) -> Seq<(NodeId, RaftMsg<S::Payload, T::LogEntries>)> {
        self.transport.sent()
    }

    /// The node's invariant: the cached term mirrors storage, the
    /// subsystems are well formed, and the log leaves room for at least
    /// one more entry (a machine limit, not a protocol rule).
    pub open spec fn wf(&self) -> bool {
        &&& self.current_term == self.storage.spec_current_term()
        &&& self.replication.wf()
        &&& self.election.wf()
        &&& self.storage.log().len() < LogIndex::MAX
    }

    /// A fresh or restarted node: always a follower, its term and log
    /// recovered from storage, with the election timer running so that a
    /// silent cluster eventually elects a leader.
    pub fn new(
        self_id: NodeId,
        peers: N,
        storage: S,
        transport: T,
        state_machine: SM,
        mut timer: TM,
    ) -> (r: Self)
        requires
            storage.log().len() < LogIndex::MAX,
        ensures
            r.wf(),
            r.spec_role() == NodeState::Follower,
            r.spec_node_id() == self_id,
            r.spec_current_term() == storage.spec_current_term(),
            r.spec_log() == storage.log(),
            r.timer.election_armed(),
    {
        let current_term = storage.current_term();
        timer.reset_election_timer();
        Node {
            node_id: self_id,
            peers,
            role: NodeState::Follower,
            current_term,
            leader_hint: None,
            election: ElectionManager::new(),
            replication: LogReplicationManager::new(),
            storage,
            transport,
            timer,
            state_machine,
        }
    }

    pub fn role(&self) -> (r: NodeState)
        ensures
            r == self.spec_role(),
    {
        self.role
    }

    pub fn current_term(&self) -> (r: Term)
        ensures
            r == self.spec_current_term(),
    {
        self.current_term
    }

    pub fn commit_index(&self) -> (r: LogIndex)
        ensures
            r == self.spec_commit_index(),
    {
        self.replication.commit_index()
    }

    /// The one-based position of the node's last log entry — what a caller
    /// checks against the log-headroom preconditions of `submit`, `step`
    /// and `handle_message` before calling them.
    pub fn last_log_index(&self) -> (r: LogIndex)
        ensures
            r == self.spec_log().len(),
    {
        self.storage.last_log_index()
    }

    /// Client entry point: only a leader accepts a command. The leader
    /// appends it to its own log under the current term and reports the
    /// entry's index; anyone else declines, hinting at the leader it last
    /// heard from.
    pub fn submit(&mut self, payload: S::Payload) -> (r: Result<LogIndex, RaftError>)
        requires
            old(self).wf(),
            old(self).spec_log().len() + 1 < LogIndex::MAX,
        ensures
            final(self).wf(),
            final(self).spec_current_term() == old(self).spec_current_term(),
            final(self).spec_role() == old(self).spec_role(),
            final(self).spec_commit_index() == old(self).spec_commit_index(),
            final(self).spec_applied() == old(self).spec_applied(),
            final(self).spec_voted_for() == old(self).spec_voted_for(),
            final(self).spec_sent() == old(self).spec_sent(),
            old(self).spec_role() == NodeState::Leader ==> {
                &&& final(self).spec_log() == old(self).spec_log().push(
                    LogEntry { term: old(self).spec_current_term(), payload },
                )
                &&& r == Ok::<LogIndex, RaftError>(final(self).spec_log().len() as LogIndex)
            },
            old(self).spec_role() != NodeState::Leader ==> {
                &&& final(self).spec_log() == old(self).spec_log()
                &&& r is Err
            },
    {
        if !matches!(self.role, NodeState::Leader) {
            return Err(RaftError::NotLeader { leader_hint: self.leader_hint });
        }
        let entry = LogEntry { term: self.current_term, payload };
        let batch = vec![entry];
        proof {
            assert(old(self).spec_log().push(
                LogEntry { term: old(self).spec_current_term(), payload },
            ) =~= old(self).spec_log() + batch@);
        }
        self.storage.append_entries(batch.as_slice());
        let idx = self.storage.last_log_index();
        Ok(idx)
    }

    /// One scheduler wake-up: an expired election timer turns a follower
    /// or candidate into a candidate of the next term (when the term can
    /// still grow); an expired heartbeat timer makes a leader re-send
    /// `AppendEntries` to every peer and re-arm the heartbeat.
    pub fn tick(&mut self)
        requires
            old(self).wf(),
        ensures
            final(self).wf(),
            final(self).spec_current_term() >= old(self).spec_current_term(),
            final(self).spec_commit_index() == old(self).spec_commit_index(),
            final(self).spec_applied() == old(self).spec_applied(),
            final(self).spec_log() == old(self).spec_log(),
            // A tick has exactly three observable outcomes. Nothing
            // happened: no message went out and nothing changed. An
            // election started (non-leaders only): the node is a candidate
            // of the next term, voted for itself, and put one
            // `RequestVote` per peer on the wire. A leader's heartbeat
            // fired: the heartbeat broadcast went out and the heartbeat
            // timer is re-armed.
            old(self).spec_role() != NodeState::Leader && final(self).spec_current_term() == old(self).spec_current_term() ==> final(self).spec_sent() == old(self).spec_sent() && final(self).spec_role() == old(self).spec_role() && final(self).spec_voted_for() == old(self).spec_voted_for(),
            old(self).spec_role() != NodeState::Leader && final(self).spec_current_term() != old(self).spec_current_term() ==> final(self).spec_current_term() == old(self).spec_current_term() + 1 && final(self).spec_role() == NodeState::Candidate && final(self).spec_voted_for() == Some(old(self).spec_node_id()) && final(self).timer.election_armed() && vote_broadcast_ok(
                old(self).spec_sent(),
                final(self).spec_sent(),
                old(self).peers.nodes(),
                old(self).spec_node_id(),
                final(self).spec_current_term(),
                old(self).spec_log(),
            ),
            old(self).spec_role() == NodeState::Leader ==> final(self).spec_current_term() == old(self).spec_current_term() && final(self).spec_role() == NodeState::Leader && final(self).spec_voted_for() == old(self).spec_voted_for() && (final(self).spec_sent() == old(self).spec_sent() || (final(self).timer.heartbeat_armed() && heartbeat_broadcast_ok(
                old(self).spec_sent(),
                final(self).spec_sent(),
                old(self).peers.nodes(),
                old(self).spec_node_id(),
                old(self).spec_current_term(),
                old(self).spec_log(),
                old(self).replication.spec_next_index(),
                old(self).spec_commit_index(),
            ))),
    {
        let expired = self.timer.check_expired();
        if expired.election && !matches!(self.role, NodeState::Leader) && self.current_term
            < u64::MAX {
            self.election.start_election(
                self.node_id,
                &self.peers,
                &mut self.current_term,
                &mut self.role,
                &mut self.storage,
                &mut self.transport,
                &mut self.timer,
            );
        } else if expired.heartbeat && matches!(self.role, NodeState::Leader) {
            self.replication.broadcast_append_entries(
                &self.peers,
                self.node_id,
                self.current_term,
                &self.storage,
                &mut self.transport,
            );
            self.timer.reset_heartbeat_timer();
        }
    }

    /// Routes one inbound message. The universal preamble — a higher term
    /// steps the node down to follower and clears its vote — runs first,
    /// in the protocol handlers for requests and here for responses; a
    /// stale message is answered (requests) or dropped (responses) without
    /// side effects. The term never decreases and the commit index never
    /// moves back.
    pub fn handle_message(&mut self, from: NodeId, msg: RaftMsg<S::Payload, T::LogEntries>)
        requires
            old(self).wf(),
            msg matches RaftMsg::AppendEntries { entries, .. } ==> old(self).spec_log().len()
                + entries.entries().len() < LogIndex::MAX,
            msg matches RaftMsg::ClientSubmit { .. } ==> old(self).spec_log().len() + 1
                < LogIndex::MAX,
        ensures
            final(self).wf(),
            final(self).spec_current_term() >= old(self).spec_current_term(),
            final(self).spec_commit_index() >= old(self).spec_commit_index(),
            msg matches RaftMsg::RequestVote { term, candidate_id, last_log_index, last_log_term }
                ==> {
                &&& final(self).spec_log() == old(self).spec_log()
                &&& final(self).spec_current_term() == if term > old(self).spec_current_term() {
                    term
                } else {
                    old(self).spec_current_term()
                }
                &&& final(self).spec_role() == if term > old(self).spec_current_term() {
                    NodeState::Follower
                } else {
                    old(self).spec_role()
                }
                &&& final(self).spec_commit_index() == old(self).spec_commit_index()
                &&& final(self).spec_applied() == old(self).spec_applied()
                &&& ((term > old(self).spec_current_term() || vote_granted(
                    old(self).spec_log(),
                    old(self).spec_current_term(),
                    old(self).spec_voted_for(),
                    term,
                    candidate_id,
                    last_log_index,
                    last_log_term,
                )) ==> final(self).timer.election_armed())
                &&& final(self).spec_voted_for() == if vote_granted(
                    old(self).spec_log(),
                    old(self).spec_current_term(),
                    old(self).spec_voted_for(),
                    term,
                    candidate_id,
                    last_log_index,
                    last_log_term,
                ) {
                    Some(candidate_id)
                } else if term > old(self).spec_current_term() {
                    None::<NodeId>
                } else {
                    old(self).spec_voted_for()
                }
                &&& final(self).spec_sent() == old(self).spec_sent().push(
                    (
                        from,
                        RaftMsg::RequestVoteResponse {
                            term: final(self).spec_current_term(),
                            granted: vote_granted(
                                old(self).spec_log(),
                                old(self).spec_current_term(),
                                old(self).spec_voted_for(),
                                term,
                                candidate_id,
                                last_log_index,
                                last_log_term,
                            ),
                        },
                    ),
                )
            },
            msg matches RaftMsg::AppendEntries {
                term,
                leader_id,
                prev_log_index,
                prev_log_term,
                entries,
                leader_commit,
            } ==> {
                &&& final(self).spec_log() == if append_accepted(
                    old(self).spec_log(),
                    term,
                    old(self).spec_current_term(),
                    prev_log_index as int,
                    prev_log_term,
                ) {
                    merged_log(old(self).spec_log(), prev_log_index as int, entries.entries())
                } else {
                    old(self).spec_log()
                }
                &&& final(self).spec_current_term() == if term > old(self).spec_current_term() {
                    term
                } else {
                    old(self).spec_current_term()
                }
                &&& final(self).spec_voted_for() == if term > old(self).spec_current_term() {
                    None::<NodeId>
                } else {
                    old(self).spec_voted_for()
                }
                &&& final(self).spec_role() == if term < old(self).spec_current_term() {
                    old(self).spec_role()
                } else if term > old(self).spec_current_term() {
                    NodeState::Follower
                } else if old(self).spec_role() == NodeState::Candidate {
                    NodeState::Follower
                } else {
                    old(self).spec_role()
                }
                &&& final(self).spec_commit_index() == if append_accepted(
                    old(self).spec_log(),
                    term,
                    old(self).spec_current_term(),
                    prev_log_index as int,
                    prev_log_term,
                ) {
                    follower_commit(
                        old(self).spec_commit_index() as int,
                        leader_commit as int,
                        final(self).spec_log().len() as int,
                    )
                } else {
                    old(self).spec_commit_index() as int
                }
                &&& (append_accepted(
                    old(self).spec_log(),
                    term,
                    old(self).spec_current_term(),
                    prev_log_index as int,
                    prev_log_term,
                ) ==> {
                    &&& final(self).replication.spec_last_applied() == apply_target(
                        old(self).replication.spec_last_applied() as int,
                        final(self).spec_commit_index() as int,
                        final(self).spec_log().len() as int,
                    )
                    &&& if final(self).replication.spec_last_applied() > old(self).replication.spec_last_applied() {
                        final(self).spec_applied() == old(self).spec_applied() + payloads_of(
                            final(self).spec_log().subrange(
                                old(self).replication.spec_last_applied() as int,
                                final(self).replication.spec_last_applied() as int,
                            ),
                        )
                    } else {
                        final(self).spec_applied() == old(self).spec_applied()
                    }
                })
                &&& (!append_accepted(
                    old(self).spec_log(),
                    term,
                    old(self).spec_current_term(),
                    prev_log_index as int,
                    prev_log_term,
                ) ==> final(self).spec_applied() == old(self).spec_applied())
                &&& (term >= old(self).spec_current_term() ==> final(self).timer.election_armed())
                &&& final(self).spec_sent() == old(self).spec_sent().push(
                    (
                        from,
                        RaftMsg::AppendEntriesResponse {
                            term: final(self).spec_current_term(),
                            success: append_accepted(
                                old(self).spec_log(),
                                term,
                                old(self).spec_current_term(),
                                prev_log_index as int,
                                prev_log_term,
                            ),
                            match_index: if append_accepted(
                                old(self).spec_log(),
                                term,
                                old(self).spec_current_term(),
                                prev_log_index as int,
                                prev_log_term,
                            ) {
                                final(self).spec_log().len() as LogIndex
                            } else {
                                0
                            },
                        },
                    ),
                )
            },
            msg matches RaftMsg::RequestVoteResponse { term, granted } ==> {
                &&& final(self).spec_log() == old(self).spec_log()
                &&& final(self).spec_applied() == old(self).spec_applied()
                &&& final(self).spec_commit_index() == old(self).spec_commit_index()
                &&& (term > old(self).spec_current_term() ==> final(self).spec_current_term()
                    == term && final(self).spec_role() == NodeState::Follower && final(self).spec_voted_for() is None && final(self).spec_sent() == old(self).spec_sent()
                    && final(self).replication == old(self).replication && final(self).timer.election_armed())
                &&& (term <= old(self).spec_current_term() ==> final(self).spec_current_term()
                    == old(self).spec_current_term() && final(self).spec_voted_for() == old(self).spec_voted_for())
                &&& (term <= old(self).spec_current_term() && (old(self).spec_role()
                    != NodeState::Candidate || term != old(self).spec_current_term() || !granted)
                    ==> final(self).spec_role() == old(self).spec_role() && final(self).replication == old(self).replication && final(self).spec_sent() == old(self).spec_sent())
                &&& (old(self).spec_role() == NodeState::Candidate && term == old(self).spec_current_term() && granted ==> {
                    &&& (final(self).spec_role() == NodeState::Leader <==> 2 * final(self).election.spec_votes().len() > old(self).peers.nodes().len() + 1)
                    &&& (final(self).spec_role() != NodeState::Leader ==> final(self).spec_role()
                        == old(self).spec_role() && final(self).replication == old(self).replication && final(self).spec_sent() == old(self).spec_sent())
                    &&& (final(self).spec_role() == NodeState::Leader ==> {
                        &&& final(self).replication.spec_next_index()
                            == crate::map_collection::put_all(
                            Seq::<(NodeId, u64)>::empty(),
                            old(self).peers.nodes(),
                            crate::log_replication_manager::inc_index(
                                old(self).spec_log().len() as u64,
                            ),
                        )
                        &&& final(self).replication.spec_match_index()
                            == crate::map_collection::put_all(
                            Seq::<(NodeId, u64)>::empty(),
                            old(self).peers.nodes(),
                            0,
                        )
                        &&& heartbeat_broadcast_ok(
                            old(self).spec_sent(),
                            final(self).spec_sent(),
                            old(self).peers.nodes(),
                            old(self).spec_node_id(),
                            old(self).spec_current_term(),
                            old(self).spec_log(),
                            final(self).replication.spec_next_index(),
                            final(self).spec_commit_index(),
                        )
                        &&& final(self).timer.heartbeat_armed()
                        &&& !final(self).timer.election_armed()
                    })
                })
            },
            msg matches RaftMsg::AppendEntriesResponse { term, success, match_index } ==> {
                &&& final(self).spec_log() == old(self).spec_log()
                &&& final(self).spec_sent() == old(self).spec_sent()
                &&& (term > old(self).spec_current_term() ==> final(self).spec_current_term()
                    == term && final(self).spec_role() == NodeState::Follower && final(self).spec_voted_for() is None && final(self).replication == old(self).replication
                    && final(self).spec_applied() == old(self).spec_applied() && final(self).timer.election_armed())
                &&& (term <= old(self).spec_current_term() ==> final(self).spec_current_term()
                    == old(self).spec_current_term() && final(self).spec_role() == old(self).spec_role() && final(self).spec_voted_for() == old(self).spec_voted_for())
                &&& (term <= old(self).spec_current_term() && !(old(self).spec_role()
                    == NodeState::Leader && term == old(self).spec_current_term()) ==> final(self).replication == old(self).replication && final(self).spec_applied() == old(self).spec_applied())
                &&& (old(self).spec_role() == NodeState::Leader && term == old(self).spec_current_term() ==> {
                    &&& (success ==> {
                        let m1 = assoc_put(
                            old(self).replication.spec_match_index(),
                            from,
                            updated_match(
                                old(self).replication.spec_match_index(),
                                from,
                                match_index,
                            ),
                        );
                        &&& final(self).replication.spec_match_index() == m1
                        &&& final(self).replication.spec_next_index() == assoc_put(
                            old(self).replication.spec_next_index(),
                            from,
                            crate::log_replication_manager::inc_index(
                                updated_match(
                                    old(self).replication.spec_match_index(),
                                    from,
                                    match_index,
                                ),
                            ),
                        )
                        &&& final(self).spec_commit_index() == advanced_commit(
                            m1,
                            old(self).spec_log(),
                            old(self).spec_current_term(),
                            old(self).spec_commit_index(),
                        )
                        &&& final(self).replication.spec_last_applied() == apply_target(
                            old(self).replication.spec_last_applied() as int,
                            final(self).spec_commit_index() as int,
                            old(self).spec_log().len() as int,
                        )
                        &&& if final(self).replication.spec_last_applied() > old(self).replication.spec_last_applied() {
                            final(self).spec_applied() == old(self).spec_applied() + payloads_of(
                                old(self).spec_log().subrange(
                                    old(self).replication.spec_last_applied() as int,
                                    final(self).replication.spec_last_applied() as int,
                                ),
                            )
                        } else {
                            final(self).spec_applied() == old(self).spec_applied()
                        }
                    })
                    &&& (!success ==> {
                        &&& final(self).replication.spec_next_index() == assoc_put(
                            old(self).replication.spec_next_index(),
                            from,
                            decremented_next(old(self).replication.spec_next_index(), from),
                        )
                        &&& final(self).replication.spec_match_index() == old(self).replication.spec_match_index()
                        &&& final(self).spec_commit_index() == old(self).spec_commit_index()
                        &&& final(self).spec_applied() == old(self).spec_applied()
                    })
                })
            },
            msg matches RaftMsg::ClientSubmit { .. } ==> {
                &&& final(self).spec_current_term() == old(self).spec_current_term()
                &&& final(self).spec_role() == old(self).spec_role()
                &&& final(self).spec_commit_index() == old(self).spec_commit_index()
                &&& final(self).spec_applied() == old(self).spec_applied()
                &&& final(self).spec_voted_for() == old(self).spec_voted_for()
                &&& (old(self).spec_role() == NodeState::Leader ==> final(self).spec_log() == old(self).spec_log().push(
                    LogEntry {
                        term: old(self).spec_current_term(),
                        payload: msg->ClientSubmit_payload,
                    },
                ))
                &&& (old(self).spec_role() != NodeState::Leader ==> final(self).spec_log() == old(self).spec_log())
                &&& final(self).spec_sent().len() == old(self).spec_sent().len() + 1
                &&& final(self).spec_sent().subrange(0, old(self).spec_sent().len() as int) == old(self).spec_sent()
                &&& final(self).spec_sent().last().0 == from
                &&& final(self).spec_sent().last().1 matches RaftMsg::ClientSubmitResponse {
                    ok,
                    ..
                } && ok == (old(self).spec_role() == NodeState::Leader)
            },
            msg matches RaftMsg::ClientSubmitResponse { .. } ==> final(self).spec_current_term()
                == old(self).spec_current_term() && final(self).spec_role() == old(self).spec_role() && final(self).spec_log() == old(self).spec_log() && final(self).spec_applied() == old(self).spec_applied() && final(self).spec_sent() == old(self).spec_sent() && final(self).spec_voted_for() == old(self).spec_voted_for() && final(self).replication == old(self).replication,
    {
        match msg {
            RaftMsg::RequestVote { term, candidate_id, last_log_index, last_log_term } => {
                let resp: RaftMsg<S::Payload, T::LogEntries> = self.election.handle_request_vote(
                    term,
                    candidate_id,
                    last_log_index,
                    last_log_term,
                    &mut self.current_term,
                    &mut self.role,
                    &mut self.storage,
                    &mut self.timer,
                );
                self.transport.send(from, resp);
            },
            RaftMsg::RequestVoteResponse { term, granted } => {
                if term > self.current_term {
                    self.step_down(term);
                } else {
                    self.election.handle_request_vote_response(
                        term,
                        granted,
                        from,
                        self.node_id,
                        &self.peers,
                        &self.current_term,
                        &mut self.role,
                        &mut self.replication,
                        &self.storage,
                        &mut self.transport,
                        &mut self.timer,
                    );
                }
            },
            RaftMsg::AppendEntries {
                term,
                leader_id,
                prev_log_index,
                prev_log_term,
                entries,
                leader_commit,
            } => {
                if term >= self.current_term {
                    self.leader_hint = Some(leader_id);
                    self.timer.reset_election_timer();
                }
                let ghost log0 = self.storage.log();
                let ghost ct0 = self.current_term;
                let ghost es = entries.entries();
                let resp = self.replication.handle_append_entries(
                    term,
                    prev_log_index,
                    prev_log_term,
                    entries,
                    leader_commit,
                    &mut self.current_term,
                    &mut self.storage,
                    &mut self.state_machine,
                    &mut self.role,
                );
                proof {
                    if append_accepted(log0, term, ct0, prev_log_index as int, prev_log_term) {
                        crate::log_replication_manager::lemma_merged_log_len(
                            log0,
                            prev_log_index as int,
                            es,
                        );
                    }
                }
                self.transport.send(from, resp);
            },
            RaftMsg::AppendEntriesResponse { term, success, match_index } => {
                if term > self.current_term {
                    self.step_down(term);
                } else if matches!(self.role, NodeState::Leader) && term == self.current_term {
                    self.replication.handle_append_entries_response(
                        from,
                        success,
                        match_index,
                        &self.storage,
                        &mut self.state_machine,
                    );
                }
            },
            RaftMsg::ClientSubmit { payload } => {
                let r = self.submit(payload);
                let ok = r.is_ok();
                self.transport.send(
                    from,
                    RaftMsg::ClientSubmitResponse { ok, leader_hint: self.leader_hint },
                );
            },
            RaftMsg::ClientSubmitResponse { .. } => {},
        }
    }

    /// One driver step: a tick, then the inbound message when there is
    /// one. The tick never touches the log, the commit index or the state
    /// machine, so the message's effect on those reads against the state
    /// before the step; a request always leaves its response as the last
    /// message on the wire.
    pub fn step(&mut self, inbound: Option<(NodeId, RaftMsg<S::Payload, T::LogEntries>)>)
        requires
            old(self).wf(),
            inbound matches Some((_, RaftMsg::AppendEntries { entries, .. })) ==> old(self).spec_log().len() + entries.entries().len() < LogIndex::MAX,
            inbound matches Some((_, RaftMsg::ClientSubmit { .. })) ==> old(self).spec_log().len()
                + 1 < LogIndex::MAX,
        ensures
            final(self).wf(),
            final(self).spec_current_term() >= old(self).spec_current_term(),
            final(self).spec_commit_index() >= old(self).spec_commit_index(),
            inbound is None ==> final(self).spec_log() == old(self).spec_log() && final(self).spec_applied() == old(self).spec_applied() && final(self).spec_commit_index() == old(self).spec_commit_index(),
            inbound matches Some((from, RaftMsg::RequestVote { .. })) ==> {
                &&& final(self).spec_log() == old(self).spec_log()
                &&& final(self).spec_applied() == old(self).spec_applied()
                &&& final(self).spec_commit_index() == old(self).spec_commit_index()
                &&& final(self).spec_sent().len() > old(self).spec_sent().len()
                &&& final(self).spec_sent().last().0 == from
                &&& final(self).spec_sent().last().1 matches RaftMsg::RequestVoteResponse {
                    term,
                    ..
                } && term == final(self).spec_current_term()
            },
            inbound matches Some(
                (from, RaftMsg::AppendEntries { prev_log_index, entries, leader_commit, .. }),
            ) ==> {
                &&& final(self).spec_sent().len() > old(self).spec_sent().len()
                &&& final(self).spec_sent().last().0 == from
                &&& final(self).spec_sent().last().1 matches RaftMsg::AppendEntriesResponse {
                    term,
                    success,
                    match_index,
                } && term == final(self).spec_current_term() && (success ==> {
                    &&& final(self).spec_log() == merged_log(
                        old(self).spec_log(),
                        prev_log_index as int,
                        entries.entries(),
                    )
                    &&& match_index == final(self).spec_log().len()
                    &&& final(self).spec_commit_index() == follower_commit(
                        old(self).spec_commit_index() as int,
                        leader_commit as int,
                        final(self).spec_log().len() as int,
                    )
                }) && (!success ==> final(self).spec_log() == old(self).spec_log() && final(self).spec_commit_index() == old(self).spec_commit_index() && final(self).spec_applied() == old(self).spec_applied())
            },
            inbound matches Some((from, RaftMsg::ClientSubmit { .. })) ==> {
                &&& final(self).spec_applied() == old(self).spec_applied()
                &&& final(self).spec_commit_index() == old(self).spec_commit_index()
                &&& final(self).spec_sent().len() > old(self).spec_sent().len()
                &&& final(self).spec_sent().last().0 == from
                &&& final(self).spec_sent().last().1 matches RaftMsg::ClientSubmitResponse {
                    ok,
                    ..
                } && (ok ==> final(self).spec_current_term() == old(self).spec_current_term()
                    && final(self).spec_log() == old(self).spec_log().push(
                    LogEntry {
                        term: old(self).spec_current_term(),
                        payload: inbound->Some_0.1->ClientSubmit_payload,
                    },
                )) && (!ok ==> final(self).spec_log() == old(self).spec_log())
            },
            inbound matches Some((_, RaftMsg::RequestVoteResponse { .. })) ==> final(self).spec_log() == old(self).spec_log() && final(self).spec_applied() == old(self).spec_applied() && final(self).spec_commit_index() == old(self).spec_commit_index(),
            inbound matches Some((_, RaftMsg::AppendEntriesResponse { .. })) ==> final(self).spec_log() == old(self).spec_log(),
    {
        self.tick();
        match inbound {
            Some((from, msg)) => {
                self.handle_message(from, msg);
            },
            None => {},
        }
    }

    /// The universal step-down: a message from a higher term makes the
    /// node a follower of that term, with its vote cleared and its
    /// election timer restarted.
    fn step_down(&mut self, term: Term)
        requires
            old(self).wf(),
            term > old(self).spec_current_term(),
        ensures
            final(self).wf(),
            final(self).spec_current_term() == term,
            final(self).spec_role() == NodeState::Follower,
            final(self).spec_voted_for() is None,
            final(self).spec_log() == old(self).spec_log(),
            final(self).replication == old(self).replication,
            final(self).election == old(self).election,
            final(self).spec_commit_index() == old(self).spec_commit_index(),
            final(self).spec_applied() == old(self).spec_applied(),
            final(self).spec_sent() == old(self).spec_sent(),
            final(self).timer.election_armed(),
    {
        self.current_term = term;
        self.storage.set_current_term(term);
        self.storage.set_voted_for(None);
        self.role = NodeState::Follower;
        self.timer.reset_election_timer();
    }
}

} // verus!

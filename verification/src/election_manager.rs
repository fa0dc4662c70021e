use vstd::prelude::*;
use crate::log_entry::{term_at_spec, LogEntry};
use crate::log_entry_collection::LogEntryCollection;
use crate::log_replication_manager::{expected_append_entries, LogReplicationManager};
use crate::map_collection::MapCollection;
use crate::node_collection::NodeCollection;
use crate::node_state::NodeState;
use crate::raft_messages::RaftMsg;
use crate::storage::Storage;
use crate::timer_service::TimerService;
use crate::transport::Transport;
use crate::types::{LogIndex, NodeId, Term};

verus! {

/// The up-to-date comparison of the election rule: the candidate's log
/// (summarized by its last term and last index) is at least as complete as
/// the local log, by (last term, last index) lexicographic order.
pub open spec fn log_up_to_date<P>(
    log: Seq<LogEntry<P>>,
    last_log_term: Term,
    last_log_index: LogIndex,
) -> bool {
    let my_last = term_at_spec(log, log.len() as u64);
    ||| last_log_term > my_last
    ||| (last_log_term == my_last && last_log_index >= log.len())
}

/// Whether a vote request is granted, given the voter's persistent state
/// before the request arrived. A higher term first clears the old vote (the
/// step-down of the universal preamble); at the resulting term the vote
/// goes out only if none was given to anyone else and the candidate's log
/// is at least as up-to-date.
pub open spec fn vote_granted<P>(
    log: Seq<LogEntry<P>>,
    current_term: Term,
    voted_for: Option<NodeId>,
    term: Term,
    candidate_id: NodeId,
    last_log_index: LogIndex,
    last_log_term: Term,
) -> bool {
    let vf = if term > current_term {
        None
    } else {
        voted_for
    };
    &&& term >= current_term
    &&& (vf is None || vf == Some(candidate_id))
    &&& log_up_to_date(log, last_log_term, last_log_index)
}

/// What a broadcast of `AppendEntries` to every peer leaves on the wire:
/// the old traffic is untouched and one message per peer follows it, each
/// built as `expected_append_entries` says.
pub open spec fn heartbeat_broadcast_ok<P, L: LogEntryCollection<Payload = P>>(
    sent0: Seq<(NodeId, RaftMsg<P, L>)>,
    sent1: Seq<(NodeId, RaftMsg<P, L>)>,
    peers: Seq<NodeId>,
    self_id: NodeId,
    current_term: Term,
    log: Seq<LogEntry<P>>,
    next: Seq<(NodeId, u64)>,
    commit_index: LogIndex,
) -> bool {
    &&& sent1.len() == sent0.len() + peers.len()
    &&& sent1.subrange(0, sent0.len() as int) == sent0
    &&& forall|i: int|
        0 <= i < peers.len() ==> expected_append_entries(
            #[trigger] sent1[sent0.len() + i],
            peers[i],
            self_id,
            current_term,
            log,
            next,
            commit_index,
        )
}

/// What starting an election leaves on the wire: the old traffic is
/// untouched and one `RequestVote` per peer follows it, each carrying the
/// candidate's new term and its log summary.
pub open spec fn vote_broadcast_ok<P, L>(
    sent0: Seq<(NodeId, RaftMsg<P, L>)>,
    sent1: Seq<(NodeId, RaftMsg<P, L>)>,
    peers: Seq<NodeId>,
    candidate_id: NodeId,
    term: Term,
    log: Seq<LogEntry<P>>,
) -> bool {
    &&& sent1.len() == sent0.len() + peers.len()
    &&& sent1.subrange(0, sent0.len() as int) == sent0
    &&& forall|i: int|
        0 <= i < peers.len() ==> #[trigger] sent1[sent0.len() + i] == (
        peers[i],
        RaftMsg::<P, L>::RequestVote {
            term,
            candidate_id,
            last_log_index: log.len() as LogIndex,
            last_log_term: term_at_spec(log, log.len() as LogIndex),
        },
    )
}

/// Candidate-side election lifecycle: who voted for us, and whether an
/// election is still under way.
pub struct ElectionManager<N: NodeCollection> {
    votes_granted: N,
    election_in_progress: bool,
}

impl<N: NodeCollection> ElectionManager<N> {
    pub closed spec fn spec_votes(&self) -> Seq<NodeId> {
        self.votes_granted.nodes()
    }

    pub closed spec fn spec_in_progress(&self) -> bool {
        self.election_in_progress
    }

    /// No voter is counted twice.
    pub open spec fn wf(&self) -> bool {
        self.spec_votes().no_duplicates()
    }

    pub fn new() -> (r: Self)
        ensures
            r.wf(),
            r.spec_votes() == Seq::<NodeId>::empty(),
            !r.spec_in_progress(),
    {
        ElectionManager { votes_granted: N::new(), election_in_progress: false }
    }

    fn contains_vote(&self, id: NodeId) -> (r: bool)
        ensures
            r == self.spec_votes().contains(id),
    {
        let n = self.votes_granted.len();
        let mut i: usize = 0;
        while i < n
            invariant
                n == self.spec_votes().len(),
                i <= n,
                forall|j: int| 0 <= j < i ==> self.spec_votes()[j] != id,
            decreases n - i,
        {
            if self.votes_granted.get(i) == id {
                return true;
            }
            i = i + 1;
        }
        false
    }

    /// Starts a new election: the term advances by one, the node votes for
    /// itself and becomes a candidate, the election timer restarts, and a
    /// `RequestVote` goes to every peer. (Should the vote collection refuse
    /// even the node's own vote, the tally simply stays empty.)
    pub fn start_election<S, T, TM>(
        &mut self,
        self_id: NodeId,
        peers: &N,
        current_term: &mut Term,
        role: &mut NodeState,
        storage: &mut S,
        transport: &mut T,
        timer: &mut TM,
    ) where S: Storage, T: Transport<Payload = S::Payload>, TM: TimerService
        requires
            *old(current_term) < Term::MAX,
            old(storage).spec_current_term() == *old(current_term),
        ensures
            *final(current_term) == *old(current_term) + 1,
            final(storage).spec_current_term() == *final(current_term),
            final(storage).spec_voted_for() == Some(self_id),
            final(storage).log() == old(storage).log(),
            *final(role) == NodeState::Candidate,
            final(self).wf(),
            final(self).spec_in_progress(),
            final(self).spec_votes() == seq![self_id] || final(self).spec_votes() == Seq::<
                NodeId,
            >::empty(),
            final(timer).election_armed(),
            final(timer).heartbeat_armed() == old(timer).heartbeat_armed(),
            vote_broadcast_ok(
                old(transport).sent(),
                final(transport).sent(),
                peers.nodes(),
                self_id,
                *final(current_term),
                old(storage).log(),
            ),
    {
        let ghost sent0 = old(transport).sent();
        *current_term = *current_term + 1;
        let new_term = *current_term;
        storage.set_current_term(new_term);
        storage.set_voted_for(Some(self_id));
        *role = NodeState::Candidate;
        self.votes_granted.clear();
        let _ = self.votes_granted.push(self_id);
        self.election_in_progress = true;
        timer.reset_election_timer();
        let last_log_index = storage.last_log_index();
        let last_log_term = storage.last_log_term();
        let n = peers.len();
        let mut i: usize = 0;
        proof {
            assert(transport.sent().subrange(0, sent0.len() as int) =~= sent0);
            if self.votes_granted.nodes().len() > 0 {
                assert(self.votes_granted.nodes() =~= seq![self_id]);
            } else {
                assert(self.votes_granted.nodes() =~= Seq::<NodeId>::empty());
            }
        }
        while i < n
            invariant
                n == peers.nodes().len(),
                i <= n,
                new_term == *current_term,
                last_log_index == storage.log().len(),
                last_log_term == term_at_spec(storage.log(), storage.log().len() as LogIndex),
                storage.log() == old(storage).log(),
                transport.sent().len() == sent0.len() + i,
                transport.sent().subrange(0, sent0.len() as int) == sent0,
                forall|j: int|
                    0 <= j < i ==> #[trigger] transport.sent()[sent0.len() + j] == (
                    peers.nodes()[j],
                    RaftMsg::<S::Payload, T::LogEntries>::RequestVote {
                        term: new_term,
                        candidate_id: self_id,
                        last_log_index,
                        last_log_term,
                    },
                ),
            decreases n - i,
        {
            let ghost sent_before = transport.sent();
            let peer = peers.get(i);
            transport.send(
                peer,
                RaftMsg::RequestVote {
                    term: new_term,
                    candidate_id: self_id,
                    last_log_index,
                    last_log_term,
                },
            );
            proof {
                assert(transport.sent().subrange(0, sent0.len() as int) =~= sent0);
                assert(forall|j: int|
                    0 <= j < i ==> #[trigger] transport.sent()[sent0.len() + j]
                        == sent_before[sent0.len() + j]);
            }
            i = i + 1;
        }
    }

    /// Voter-side handling of `RequestVote`, preamble included: a stale
    /// request is refused with the local term; a higher term steps the node
    /// down, clears its old vote and restarts the election timer (the
    /// universal preamble); the vote is granted exactly under
    /// `vote_granted`, in which case it is persisted and the election timer
    /// restarts too. A request that neither carries a higher term nor wins
    /// the vote leaves the timer untouched.
    pub fn handle_request_vote<S, L, TM>(
        &self,
        term: Term,
        candidate_id: NodeId,
        last_log_index: LogIndex,
        last_log_term: Term,
        current_term: &mut Term,
        role: &mut NodeState,
        storage: &mut S,
        timer: &mut TM,
    ) -> (r: RaftMsg<S::Payload, L>) where
        S: Storage,
        L: LogEntryCollection<Payload = S::Payload>,
        TM: TimerService,

        requires
            old(storage).spec_current_term() == *old(current_term),
        ensures
            *final(current_term) == if term > *old(current_term) {
                term
            } else {
                *old(current_term)
            },
            final(storage).spec_current_term() == *final(current_term),
            final(storage).log() == old(storage).log(),
            *final(role) == if term > *old(current_term) {
                NodeState::Follower
            } else {
                *old(role)
            },
            final(storage).spec_voted_for() == if vote_granted(
                old(storage).log(),
                *old(current_term),
                old(storage).spec_voted_for(),
                term,
                candidate_id,
                last_log_index,
                last_log_term,
            ) {
                Some(candidate_id)
            } else if term > *old(current_term) {
                None::<NodeId>
            } else {
                old(storage).spec_voted_for()
            },
            (term > *old(current_term) || vote_granted(
                old(storage).log(),
                *old(current_term),
                old(storage).spec_voted_for(),
                term,
                candidate_id,
                last_log_index,
                last_log_term,
            )) ==> final(timer).election_armed(),
            !(term > *old(current_term) || vote_granted(
                old(storage).log(),
                *old(current_term),
                old(storage).spec_voted_for(),
                term,
                candidate_id,
                last_log_index,
                last_log_term,
            )) ==> *final(timer) == *old(timer),
            r == (RaftMsg::RequestVoteResponse::<S::Payload, L> {
                term: *final(current_term),
                granted: vote_granted(
                    old(storage).log(),
                    *old(current_term),
                    old(storage).spec_voted_for(),
                    term,
                    candidate_id,
                    last_log_index,
                    last_log_term,
                ),
            }),
    {
        if term < *current_term {
            return RaftMsg::RequestVoteResponse { term: *current_term, granted: false };
        }
        if term > *current_term {
            *current_term = term;
            storage.set_current_term(term);
            storage.set_voted_for(None);
            *role = NodeState::Follower;
            timer.reset_election_timer();
        }
        let vote_free = match storage.voted_for() {
            None => true,
            Some(v) => v == candidate_id,
        };
        let my_last_term = storage.last_log_term();
        let my_last_index = storage.last_log_index();
        let up_to_date = last_log_term > my_last_term || (last_log_term == my_last_term
            && last_log_index >= my_last_index);
        let granted = vote_free && up_to_date;
        if granted {
            storage.set_voted_for(Some(candidate_id));
            timer.reset_election_timer();
        }
        RaftMsg::RequestVoteResponse { term: *current_term, granted }
    }

    /// Candidate-side handling of a vote response. Responses from another
    /// term, or arriving when the node is no longer a candidate, are
    /// discarded. A granted vote is tallied once per voter; on reaching a
    /// strict majority of the cluster (the peers plus the node itself) the
    /// node becomes leader: replication bookkeeping restarts, the election
    /// timer stops, the heartbeat timer starts, and an immediate heartbeat
    /// broadcast goes out.
    pub fn handle_request_vote_response<M, S, T, TM>(
        &mut self,
        term: Term,
        granted: bool,
        from: NodeId,
        self_id: NodeId,
        peers: &N,
        current_term: &Term,
        role: &mut NodeState,
        replication: &mut LogReplicationManager<M>,
        storage: &S,
        transport: &mut T,
        timer: &mut TM,
    ) where
        M: MapCollection,
        S: Storage,
        T: Transport<Payload = S::Payload>,
        T::LogEntries: LogEntryCollection<Payload = S::Payload>,
        TM: TimerService,

        requires
            old(self).wf(),
            old(replication).wf(),
            storage.log().len() < LogIndex::MAX,
        ensures
            final(self).wf(),
            final(replication).wf(),
            (*old(role) != NodeState::Candidate || term != current_term || !granted) ==> {
                &&& final(self).spec_votes() == old(self).spec_votes()
                &&& *final(role) == *old(role)
                &&& *final(replication) == *old(replication)
                &&& final(transport).sent() == old(transport).sent()
                &&& *final(timer) == *old(timer)
            },
            (*old(role) == NodeState::Candidate && term == current_term && granted) ==> {
                &&& (final(self).spec_votes() == old(self).spec_votes() || final(self).spec_votes() == old(self).spec_votes().push(from))
                &&& (old(self).spec_votes().contains(from) ==> final(self).spec_votes() == old(self).spec_votes())
                &&& (*final(role) == NodeState::Leader <==> 2 * final(self).spec_votes().len()
                    > peers.nodes().len() + 1)
                &&& (*final(role) != NodeState::Leader ==> *final(role) == *old(role) && *final(replication) == *old(replication) && final(transport).sent() == old(transport).sent())
                &&& (*final(role) == NodeState::Leader ==> !final(self).spec_in_progress())
                &&& (*final(role) == NodeState::Leader ==> final(replication).spec_next_index()
                    == crate::map_collection::put_all(
                    Seq::<(NodeId, u64)>::empty(),
                    peers.nodes(),
                    crate::log_replication_manager::inc_index(storage.log().len() as u64),
                ))
                &&& (*final(role) == NodeState::Leader ==> final(replication).spec_match_index()
                    == crate::map_collection::put_all(
                    Seq::<(NodeId, u64)>::empty(),
                    peers.nodes(),
                    0,
                ))
                &&& (*final(role) == NodeState::Leader ==> final(replication).spec_commit_index()
                    == old(replication).spec_commit_index())
                &&& (*final(role) == NodeState::Leader ==> !final(timer).election_armed() && final(timer).heartbeat_armed())
                &&& (*final(role) == NodeState::Leader ==> heartbeat_broadcast_ok(
                    old(transport).sent(),
                    final(transport).sent(),
                    peers.nodes(),
                    self_id,
                    *current_term,
                    storage.log(),
                    final(replication).spec_next_index(),
                    final(replication).spec_commit_index(),
                ))
            },
    {
        if !matches!(*role, NodeState::Candidate) || term != *current_term {
            return;
        }
        if !granted {
            return;
        }
        if !self.contains_vote(from) {
            let ghost votes0 = self.votes_granted.nodes();
            let r = self.votes_granted.push(from);
            proof {
                if r is Ok {
                    assert(self.votes_granted.nodes().drop_last() =~= votes0);
                }
            }
        }
        let votes = self.votes_granted.len();
        let cluster = peers.len();
        if 2 * (votes as u128) > cluster as u128 + 1 {
            *role = NodeState::Leader;
            self.election_in_progress = false;
            replication.initialize_leader_state(peers, storage);
            timer.stop_election_timer();
            timer.reset_heartbeat_timer();
            replication.broadcast_append_entries(peers, self_id, *current_term, storage, transport);
        }
    }
}

} // verus!

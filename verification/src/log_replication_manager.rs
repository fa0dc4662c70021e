use vstd::prelude::*;
use crate::log_entry::{payloads_of, term_at_spec, LogEntry};
use crate::log_entry_collection::LogEntryCollection;
use crate::map_collection::{
    assoc_get, assoc_put, count_at_least, lemma_assoc_get_in, lemma_assoc_put_get, unique_keys,
    MapCollection,
};
use crate::node_collection::NodeCollection;
use crate::node_state::NodeState;
use crate::payload::Payload;
use crate::raft_messages::RaftMsg;
use crate::state_machine::StateMachine;
use crate::storage::Storage;
use crate::transport::Transport;
use crate::types::{LogIndex, NodeId, Term};

verus! {

/// `x + 1`, saturating at the top of the index range.
pub open spec fn inc_index(x: u64) -> u64 {
    if x == u64::MAX {
        x
    } else {
        (x + 1) as u64
    }
}

/// `x - 1`, bounded below at one: the retry point after a rejected
/// `AppendEntries`.
pub open spec fn dec_next(x: u64) -> u64 {
    if x <= 2 {
        1
    } else {
        (x - 1) as u64
    }
}

/// The value a successful response leaves in `match_index[from]`: reports
/// never decrease what is already recorded.
pub open spec fn updated_match(m: Seq<(NodeId, u64)>, from: NodeId, reported: LogIndex) -> u64 {
    let cur = match assoc_get(m, from) {
        Some(v) => v,
        None => 0,
    };
    if reported > cur {
        reported
    } else {
        cur
    }
}

/// Position `k` of the first entry of `es` that conflicts with the log when
/// `es` is laid down after one-based position `prev`: the entry is past the
/// end of the log, or the log holds a different term there. `es.len()` when
/// every entry is already present with its term.
pub open spec fn first_conflict_from<P>(
    log: Seq<LogEntry<P>>,
    prev: int,
    es: Seq<LogEntry<P>>,
    k: int,
) -> int
    decreases es.len() - k,
{
    if k < 0 || k >= es.len() {
        es.len() as int
    } else if prev + k >= log.len() || log[prev + k].term != es[k].term {
        k
    } else {
        first_conflict_from(log, prev, es, k + 1)
    }
}

pub open spec fn first_conflict<P>(log: Seq<LogEntry<P>>, prev: int, es: Seq<LogEntry<P>>) -> int {
    first_conflict_from(log, prev, es, 0)
}

/// The follower's log after accepting `AppendEntries{prev, es}`: entries
/// already present with a matching term stay untouched; at the first
/// conflict the log is truncated and the rest of `es` appended. When
/// nothing conflicts the log is unchanged, a longer suffix included.
pub open spec fn merged_log<P>(log: Seq<LogEntry<P>>, prev: int, es: Seq<LogEntry<P>>) -> Seq<
    LogEntry<P>,
> {
    let c = first_conflict(log, prev, es);
    if c == es.len() {
        log
    } else {
        log.take(prev + c) + es.skip(c)
    }
}

/// Basic facts about the first conflict position: it never passes the
/// first divergence, everything before it matches, and it stays within the
/// log.
pub proof fn lemma_first_conflict_from<P>(
    log: Seq<LogEntry<P>>,
    prev: int,
    es: Seq<LogEntry<P>>,
    k: int,
)
    requires
        0 <= k <= es.len(),
        0 <= prev,
        prev + k <= log.len(),
    ensures
        k <= first_conflict_from(log, prev, es, k) <= es.len(),
        prev + first_conflict_from(log, prev, es, k) <= log.len(),
        forall|j: int|
            k <= j < first_conflict_from(log, prev, es, k) ==> prev + j < log.len()
                && log[prev + j].term == (#[trigger] es[j]).term,
    decreases es.len() - k,
{
    if k < es.len() && !(prev + k >= log.len() || log[prev + k].term != es[k].term) {
        lemma_first_conflict_from(log, prev, es, k + 1);
    }
}

/// Merging never grows the log past the old length plus the batch.
pub proof fn lemma_merged_log_len<P>(log: Seq<LogEntry<P>>, prev: int, es: Seq<LogEntry<P>>)
    requires
        0 <= prev <= log.len(),
    ensures
        merged_log(log, prev, es).len() <= log.len() + es.len(),
{
    lemma_first_conflict_from(log, prev, es, 0);
}

/// Whether one-based position `n` may be committed by the leader: the entry
/// exists, carries the current term, and a strict majority of the cluster
/// (the leader plus the peers recorded in `m`) holds it.
pub open spec fn is_committable<P>(
    m: Seq<(NodeId, u64)>,
    log: Seq<LogEntry<P>>,
    current_term: Term,
    n: int,
) -> bool {
    1 <= n <= log.len() && log[n - 1].term == current_term && 2 * (1 + count_at_least(
        m,
        n as u64,
    )) > m.len() + 1
}

/// The highest committable position at most `n`, or `0` when none is.
pub open spec fn highest_committable_upto<P>(
    m: Seq<(NodeId, u64)>,
    log: Seq<LogEntry<P>>,
    current_term: Term,
    n: int,
) -> int
    decreases n,
{
    if n <= 0 {
        0
    } else if is_committable(m, log, current_term, n) {
        n
    } else {
        highest_committable_upto(m, log, current_term, n - 1)
    }
}

/// Where the commit index stands after the leader re-examines the match
/// bookkeeping `m`: it advances to the highest committable position and
/// never moves back.
pub open spec fn advanced_commit<P>(
    m: Seq<(NodeId, u64)>,
    log: Seq<LogEntry<P>>,
    current_term: Term,
    commit_index: LogIndex,
) -> int {
    let h = highest_committable_upto(m, log, current_term, log.len() as int);
    if h > commit_index {
        h
    } else {
        commit_index as int
    }
}

/// The log-matching check of `AppendEntries`: the follower holds the
/// leader's previous entry with the right term (position `0` always
/// matches, it is the sentinel before the log).
pub open spec fn prev_matches<P>(log: Seq<LogEntry<P>>, prev: int, prev_term: Term) -> bool {
    prev == 0 || (1 <= prev <= log.len() && log[prev - 1].term == prev_term)
}

/// Whether a follower accepts `AppendEntries`: the message is not stale and
/// the logs match at the previous position.
pub open spec fn append_accepted<P>(
    log: Seq<LogEntry<P>>,
    term: Term,
    current_term: Term,
    prev: int,
    prev_term: Term,
) -> bool {
    term >= current_term && prev_matches(log, prev, prev_term)
}

/// The follower's commit index after an accepted `AppendEntries`: it
/// follows the leader's, but never past the local log and never backwards.
pub open spec fn follower_commit(commit_index: int, leader_commit: int, log_len: int) -> int {
    if leader_commit > commit_index {
        let m = if leader_commit < log_len {
            leader_commit
        } else {
            log_len
        };
        if m > commit_index {
            m
        } else {
            commit_index
        }
    } else {
        commit_index
    }
}

/// The batch a leader sends to a peer whose next index is `nx`: everything
/// from position `nx` to the end of the log, empty when the peer is
/// already caught up (or believed past the end).
pub open spec fn entries_from<P>(log: Seq<LogEntry<P>>, nx: u64) -> Seq<LogEntry<P>> {
    if 1 <= nx && nx <= log.len() {
        log.subrange(nx - 1, log.len() as int)
    } else {
        Seq::empty()
    }
}

/// The next index a leader assumes for a peer it has no record of: just
/// past its own log, as on leader initialization.
pub open spec fn next_for<P>(next: Seq<(NodeId, u64)>, peer: NodeId, log: Seq<LogEntry<P>>) -> u64 {
    match assoc_get(next, peer) {
        Some(v) => v,
        None => inc_index(log.len() as u64),
    }
}

/// What a leader's broadcast puts on the wire for one peer: an
/// `AppendEntries` built from the peer's next index, carrying the leader's
/// term, commit index, and the tail of its log.
pub open spec fn expected_append_entries<P, L: LogEntryCollection<Payload = P>>(
    sent: (NodeId, RaftMsg<P, L>),
    peer: NodeId,
    leader: NodeId,
    current_term: Term,
    log: Seq<LogEntry<P>>,
    next: Seq<(NodeId, u64)>,
    commit_index: LogIndex,
) -> bool {
    let nx = next_for(next, peer, log);
    &&& sent.0 == peer
    &&& match sent.1 {
        RaftMsg::AppendEntries {
            term,
            leader_id,
            prev_log_index,
            prev_log_term,
            entries,
            leader_commit,
        } => {
            &&& term == current_term
            &&& leader_id == leader
            &&& nx >= 1 && prev_log_index == nx - 1
            &&& prev_log_term == term_at_spec(log, (nx - 1) as u64)
            &&& entries.entries() == entries_from(log, nx)
            &&& leader_commit == commit_index
        },
        _ => false,
    }
}

/// The value a failed response leaves in `next_index[from]`: one less than
/// before, bounded below at one, so the next heartbeat retries from a
/// lower point.
pub open spec fn decremented_next(n: Seq<(NodeId, u64)>, from: NodeId) -> u64 {
    match assoc_get(n, from) {
        Some(v) => dec_next(v),
        None => 1,
    }
}

/// The apply cursor after catching up with the commit index: entries are
/// applied up to the commit index but never past the end of the log, and
/// the cursor never moves back.
pub open spec fn apply_target(last_applied: int, commit_index: int, log_len: int) -> int {
    let t = if commit_index < log_len {
        commit_index
    } else {
        log_len
    };
    if t > last_applied {
        t
    } else {
        last_applied
    }
}

/// Leader-side replication bookkeeping and the follower-side append path:
/// one of these sits inside every node, owning `next_index`/`match_index`,
/// the volatile commit index, and the apply cursor.
pub struct LogReplicationManager<M: MapCollection> {
    next_index: M,
    match_index: M,
    commit_index: LogIndex,
    last_applied: LogIndex,
}

impl<M: MapCollection> LogReplicationManager<M> {
    pub closed spec fn spec_next_index(&self) -> Seq<(NodeId, u64)> {
        self.next_index.entries()
    }

    pub closed spec fn spec_match_index(&self) -> Seq<(NodeId, u64)> {
        self.match_index.entries()
    }

    pub closed spec fn spec_commit_index(&self) -> LogIndex {
        self.commit_index
    }

    pub closed spec fn spec_last_applied(&self) -> LogIndex {
        self.last_applied
    }

    /// The manager's invariant: each peer appears at most once in either
    /// map, every recorded next index is at least one, and nothing is
    /// applied beyond the commit index.
    pub open spec fn wf(&self) -> bool {
        &&& unique_keys(self.spec_next_index())
        &&& unique_keys(self.spec_match_index())
        &&& forall|i: int|
            0 <= i < self.spec_next_index().len() ==> (#[trigger] self.spec_next_index()[i]).1 >= 1
        &&& self.spec_last_applied() <= self.spec_commit_index()
    }

    pub fn new() -> (r: Self)
        ensures
            r.wf(),
            r.spec_next_index() == Seq::<(NodeId, u64)>::empty(),
            r.spec_match_index() == Seq::<(NodeId, u64)>::empty(),
            r.spec_commit_index() == 0,
            r.spec_last_applied() == 0,
    {
        LogReplicationManager {
            next_index: M::new(),
            match_index: M::new(),
            commit_index: 0,
            last_applied: 0,
        }
    }

    pub fn commit_index(&self) -> (r: LogIndex)
        ensures
            r == self.spec_commit_index(),
    {
        self.commit_index
    }

    pub fn last_applied(&self) -> (r: LogIndex)
        ensures
            r == self.spec_last_applied(),
    {
        self.last_applied
    }

    /// On winning an election the new leader guesses that every peer's log
    /// already matches its own: `next_index[peer]` starts just past the
    /// leader's last entry, and `match_index[peer]` at zero until the peer
    /// confirms something.
    pub fn initialize_leader_state<N: NodeCollection, S: Storage>(&mut self, peers: &N, storage: &S)
        requires
            old(self).wf(),
        ensures
            final(self).wf(),
            final(self).spec_next_index() == crate::map_collection::put_all(
                Seq::<(NodeId, u64)>::empty(),
                peers.nodes(),
                inc_index(storage.log().len() as u64),
            ),
            final(self).spec_match_index() == crate::map_collection::put_all(
                Seq::<(NodeId, u64)>::empty(),
                peers.nodes(),
                0,
            ),
            final(self).spec_commit_index() == old(self).spec_commit_index(),
            final(self).spec_last_applied() == old(self).spec_last_applied(),
    {
        let last = storage.last_log_index();
        let next0 = if last == u64::MAX {
            last
        } else {
            last + 1
        };
        self.next_index.clear();
        self.match_index.clear();
        let n = peers.len();
        let mut i: usize = 0;
        while i < n
            invariant
                n == peers.nodes().len(),
                i <= n,
                next0 == inc_index(storage.log().len() as u64),
                self.next_index.entries() == crate::map_collection::put_all(
                    Seq::<(NodeId, u64)>::empty(),
                    peers.nodes().take(i as int),
                    next0,
                ),
                self.match_index.entries() == crate::map_collection::put_all(
                    Seq::<(NodeId, u64)>::empty(),
                    peers.nodes().take(i as int),
                    0,
                ),
                unique_keys(self.next_index.entries()),
                unique_keys(self.match_index.entries()),
                forall|j: int|
                    0 <= j < self.next_index.entries().len() ==> (
                    #[trigger] self.next_index.entries()[j]).1 >= 1,
                self.commit_index == old(self).commit_index,
                self.last_applied == old(self).last_applied,
            decreases n - i,
        {
            let peer = peers.get(i);
            proof {
                crate::map_collection::lemma_put_all_push(
                    Seq::<(NodeId, u64)>::empty(),
                    peers.nodes().take(i as int),
                    peers.nodes()[i as int],
                    next0,
                );
                crate::map_collection::lemma_put_all_push(
                    Seq::<(NodeId, u64)>::empty(),
                    peers.nodes().take(i as int),
                    peers.nodes()[i as int],
                    0,
                );
                assert(peers.nodes().take(i + 1) =~= peers.nodes().take(i as int).push(
                    peers.nodes()[i as int],
                ));
                lemma_assoc_put_get(self.next_index.entries(), peer, next0);
                lemma_assoc_put_get(self.match_index.entries(), peer, 0);
                crate::map_collection::lemma_assoc_put_preserves_lower_bound(
                    self.next_index.entries(),
                    peer,
                    next0,
                    1,
                );
            }
            self.next_index.insert(peer, next0);
            self.match_index.insert(peer, 0);
            i = i + 1;
        }
        proof {
            assert(peers.nodes().take(n as int) =~= peers.nodes());
        }
    }

    /// How many recorded peers have confirmed at least position `n`.
    fn count_matching(m: &M, n: u64) -> (c: usize)
        ensures
            c == count_at_least(m.entries(), n),
    {
        let len = m.len();
        let ghost pred = |p: (NodeId, u64)| p.1 >= n;
        let mut c: usize = 0;
        let mut i: usize = 0;
        proof {
            reveal(Seq::filter);
            assert(m.entries().take(0).filter(pred) =~= Seq::<(NodeId, u64)>::empty());
        }
        while i < len
            invariant
                len == m.entries().len(),
                i <= len,
                pred == (|p: (NodeId, u64)| p.1 >= n),
                c == m.entries().take(i as int).filter(pred).len(),
                c <= i,
            decreases len - i,
        {
            let e = m.entry_at(i);
            proof {
                reveal(Seq::filter);
                let t1 = m.entries().take(i + 1);
                assert(t1.drop_last() =~= m.entries().take(i as int));
                assert(t1.last() == m.entries()[i as int]);
            }
            if e.1 >= n {
                c = c + 1;
            }
            i = i + 1;
        }
        proof {
            assert(m.entries().take(len as int) =~= m.entries());
        }
        c
    }

    /// `highest_committable_upto` never exceeds its bound.
    proof fn lemma_highest_committable_bound<P>(
        m: Seq<(NodeId, u64)>,
        log: Seq<LogEntry<P>>,
        current_term: Term,
        n: int,
    )
        ensures
            0 <= highest_committable_upto(m, log, current_term, n),
            highest_committable_upto(m, log, current_term, n) <= if n >= 0 {
                n
            } else {
                0
            },
        decreases n,
    {
        if n > 0 && !is_committable(m, log, current_term, n) {
            Self::lemma_highest_committable_bound(m, log, current_term, n - 1);
        }
    }

    /// Scans down from the end of the log for the highest committable
    /// position above the current commit index.
    fn compute_advanced_commit<S: Storage>(m: &M, storage: &S, commit_index: LogIndex) -> (r:
        LogIndex)
        ensures
            r == advanced_commit(m.entries(), storage.log(), storage.spec_current_term(),
                commit_index),
            r >= commit_index,
    {
        let ghost log = storage.log();
        let ghost ct_g = storage.spec_current_term();
        let last = storage.last_log_index();
        let ct = storage.current_term();
        let mut n: u64 = last;
        while n > commit_index
            invariant
                n <= last,
                last == log.len(),
                ct == ct_g,
                log == storage.log(),
                ct_g == storage.spec_current_term(),
                highest_committable_upto(m.entries(), log, ct_g, last as int)
                    == highest_committable_upto(m.entries(), log, ct_g, n as int),
            decreases n,
        {
            let t = storage.term_at(n);
            if t == ct {
                let cnt = Self::count_matching(m, n);
                let peers = m.len();
                if 2 * (1 + cnt as u128) > peers as u128 + 1 {
                    proof {
                        assert(is_committable(m.entries(), log, ct_g, n as int));
                    }
                    return n;
                }
            }
            proof {
                assert(!is_committable(m.entries(), log, ct_g, n as int));
            }
            n = n - 1;
        }
        proof {
            Self::lemma_highest_committable_bound(m.entries(), log, ct_g, n as int);
        }
        commit_index
    }

    /// Applies every newly committed entry, in log order, moving the apply
    /// cursor up to the commit index (or the end of the log, whichever is
    /// lower).
    fn apply_committed<S, SM>(&mut self, storage: &S, state_machine: &mut SM) where
        S: Storage,
        SM: StateMachine<Payload = S::Payload>,

        requires
            storage.log().len() < LogIndex::MAX,
        ensures
            final(self).spec_next_index() == old(self).spec_next_index(),
            final(self).spec_match_index() == old(self).spec_match_index(),
            final(self).spec_commit_index() == old(self).spec_commit_index(),
            final(self).spec_last_applied() == apply_target(
                old(self).spec_last_applied() as int,
                old(self).spec_commit_index() as int,
                storage.log().len() as int,
            ),
            final(self).spec_last_applied() >= old(self).spec_last_applied(),
            if final(self).spec_last_applied() > old(self).spec_last_applied() {
                final(state_machine).applied() == old(state_machine).applied() + payloads_of(
                    storage.log().subrange(
                        old(self).spec_last_applied() as int,
                        final(self).spec_last_applied() as int,
                    ),
                )
            } else {
                final(state_machine).applied() == old(state_machine).applied()
            },
    {
        let ghost log = storage.log();
        let ghost la0 = self.last_applied;
        let last = storage.last_log_index();
        let target = if self.commit_index < last {
            self.commit_index
        } else {
            last
        };
        while self.last_applied < target
            invariant
                if target > la0 {
                    la0 <= self.last_applied <= target
                } else {
                    self.last_applied == la0
                },
                target <= log.len() < LogIndex::MAX,
                log == storage.log(),
                target == if self.commit_index < log.len() {
                    self.commit_index as int
                } else {
                    log.len() as int
                },
                self.next_index == old(self).next_index,
                self.match_index == old(self).match_index,
                self.commit_index == old(self).commit_index,
                if self.last_applied > la0 {
                    state_machine.applied() == old(state_machine).applied() + payloads_of(
                        log.subrange(la0 as int, self.last_applied as int),
                    )
                } else {
                    state_machine.applied() == old(state_machine).applied()
                },
            decreases target - self.last_applied,
        {
            let idx = self.last_applied + 1;
            let batch = storage.get_entries(idx, idx + 1);
            proof {
                assert(batch@[0] == log[idx - 1]);
            }
            state_machine.apply(&batch[0].payload);
            proof {
                assert(payloads_of(log.subrange(la0 as int, idx as int)) =~= payloads_of(
                    log.subrange(la0 as int, idx - 1),
                ).push(log[idx - 1].payload));
            }
            self.last_applied = idx;
        }
    }

    /// Leader-side bookkeeping after a peer answered an `AppendEntries`.
    /// On success the peer's match index takes the reported value (never
    /// moving back), its next index follows one past it, and the commit
    /// index advances to the highest position that a strict majority holds
    /// in the current term; newly committed entries are applied in order.
    /// On failure only the peer's next index moves, one step down and
    /// never below one. Stale responses are the node's concern: it
    /// discards them before they reach this method.
    pub fn handle_append_entries_response<S, SM>(
        &mut self,
        from: NodeId,
        success: bool,
        match_index_reported: LogIndex,
        storage: &S,
        state_machine: &mut SM,
    ) where S: Storage, SM: StateMachine<Payload = S::Payload>
        requires
            old(self).wf(),
            storage.log().len() < LogIndex::MAX,
        ensures
            final(self).wf(),
            final(self).spec_commit_index() >= old(self).spec_commit_index(),
            success ==> {
                let m1 = assoc_put(
                    old(self).spec_match_index(),
                    from,
                    updated_match(old(self).spec_match_index(), from, match_index_reported),
                );
                &&& final(self).spec_match_index() == m1
                &&& final(self).spec_next_index() == assoc_put(
                    old(self).spec_next_index(),
                    from,
                    inc_index(updated_match(old(self).spec_match_index(), from,
                        match_index_reported)),
                )
                &&& final(self).spec_commit_index() == advanced_commit(
                    m1,
                    storage.log(),
                    storage.spec_current_term(),
                    old(self).spec_commit_index(),
                )
                &&& final(self).spec_last_applied() == apply_target(
                    old(self).spec_last_applied() as int,
                    final(self).spec_commit_index() as int,
                    storage.log().len() as int,
                )
                &&& if final(self).spec_last_applied() > old(self).spec_last_applied() {
                    final(state_machine).applied() == old(state_machine).applied() + payloads_of(
                        storage.log().subrange(
                            old(self).spec_last_applied() as int,
                            final(self).spec_last_applied() as int,
                        ),
                    )
                } else {
                    final(state_machine).applied() == old(state_machine).applied()
                }
            },
            !success ==> {
                &&& final(self).spec_next_index() == assoc_put(
                    old(self).spec_next_index(),
                    from,
                    decremented_next(old(self).spec_next_index(), from),
                )
                &&& final(self).spec_match_index() == old(self).spec_match_index()
                &&& final(self).spec_commit_index() == old(self).spec_commit_index()
                &&& final(self).spec_last_applied() == old(self).spec_last_applied()
                &&& final(state_machine).applied() == old(state_machine).applied()
            },
    {
        if success {
            let cur = match self.match_index.get(from) {
                Some(v) => v,
                None => 0,
            };
            let newm = if match_index_reported > cur {
                match_index_reported
            } else {
                cur
            };
            let newn = if newm == u64::MAX {
                newm
            } else {
                newm + 1
            };
            proof {
                lemma_assoc_put_get(self.match_index.entries(), from, newm);
                lemma_assoc_put_get(self.next_index.entries(), from, newn);
                crate::map_collection::lemma_assoc_put_preserves_lower_bound(
                    self.next_index.entries(),
                    from,
                    newn,
                    1,
                );
            }
            self.match_index.insert(from, newm);
            self.next_index.insert(from, newn);
            let new_commit = Self::compute_advanced_commit(&self.match_index, storage,
                self.commit_index);
            self.commit_index = new_commit;
            self.apply_committed(storage, state_machine);
        } else {
            let newn = match self.next_index.get(from) {
                Some(v) => if v <= 2 {
                    1
                } else {
                    v - 1
                },
                None => 1,
            };
            proof {
                lemma_assoc_put_get(self.next_index.entries(), from, newn);
                crate::map_collection::lemma_assoc_put_preserves_lower_bound(
                    self.next_index.entries(),
                    from,
                    newn,
                    1,
                );
            }
            self.next_index.insert(from, newn);
        }
    }

    /// Position of the first entry of the batch that the log does not
    /// already hold with the same term.
    fn find_conflict<L, S>(storage: &S, prev_log_index: LogIndex, entries: &L) -> (c: usize) where
        S: Storage,
        L: LogEntryCollection<Payload = S::Payload>,

        requires
            prev_log_index <= storage.log().len(),
            storage.log().len() + entries.entries().len() < LogIndex::MAX,
        ensures
            c == first_conflict(storage.log(), prev_log_index as int, entries.entries()),
            c <= entries.entries().len(),
            prev_log_index + c <= storage.log().len(),
            forall|j: int|
                0 <= j < c ==> prev_log_index + j < storage.log().len()
                    && storage.log()[prev_log_index + j].term == (
                #[trigger] entries.entries()[j]).term,
    {
        let ghost log = storage.log();
        let ghost es = entries.entries();
        let ghost prev = prev_log_index as int;
        let n = entries.len();
        let last = storage.last_log_index();
        let mut c: usize = 0;
        while c < n
            invariant
                n == es.len(),
                last == log.len(),
                log == storage.log(),
                es == entries.entries(),
                prev == prev_log_index as int,
                0 <= c <= n,
                prev + c <= log.len(),
                first_conflict(log, prev, es) == first_conflict_from(log, prev, es, c as int),
                forall|j: int|
                    0 <= j < c ==> prev + j < log.len() && log[prev + j].term == (
                    #[trigger] es[j]).term,
            decreases n - c,
        {
            let pos = prev_log_index + c as u64;
            if pos >= last {
                proof {
                    assert(first_conflict_from(log, prev, es, c as int) == c as int);
                }
                return c;
            }
            if storage.term_at(pos + 1) != entries.get(c).term {
                proof {
                    assert(first_conflict_from(log, prev, es, c as int) == c as int);
                }
                return c;
            }
            proof {
                assert(term_at_spec(log, (pos + 1) as u64) == log[prev + c].term);
                assert(first_conflict_from(log, prev, es, c as int) == first_conflict_from(
                    log,
                    prev,
                    es,
                    c + 1,
                ));
            }
            c = c + 1;
        }
        c
    }

    /// Follower-side handling of `AppendEntries`, the whole of it: stale
    /// terms are rejected with the local term; a higher term (and, at the
    /// same term, a candidate's role) steps the node down to follower; a
    /// prev-log mismatch is rejected; otherwise conflicting entries are cut
    /// away, missing entries appended, entries already present are left
    /// untouched, the commit index follows the leader's, and newly
    /// committed entries are applied in order. The response reports the
    /// node's term and, on success, its last log index.
    pub fn handle_append_entries<L, S, SM>(
        &mut self,
        term: Term,
        prev_log_index: LogIndex,
        prev_log_term: Term,
        entries: L,
        leader_commit: LogIndex,
        current_term: &mut Term,
        storage: &mut S,
        state_machine: &mut SM,
        role: &mut NodeState,
    ) -> (r: RaftMsg<S::Payload, L>) where
        S: Storage,
        L: LogEntryCollection<Payload = S::Payload>,
        SM: StateMachine<Payload = S::Payload>,
        S::Payload: Payload,

        requires
            old(self).wf(),
            old(storage).spec_current_term() == *old(current_term),
            old(storage).log().len() + entries.entries().len() < LogIndex::MAX,
        ensures
            final(self).wf(),
            final(self).spec_next_index() == old(self).spec_next_index(),
            final(self).spec_match_index() == old(self).spec_match_index(),
            *final(current_term) == if term > *old(current_term) {
                term
            } else {
                *old(current_term)
            },
            final(storage).spec_current_term() == *final(current_term),
            final(storage).spec_voted_for() == if term > *old(current_term) {
                None::<NodeId>
            } else {
                old(storage).spec_voted_for()
            },
            *final(role) == if term < *old(current_term) {
                *old(role)
            } else if term > *old(current_term) {
                NodeState::Follower
            } else if *old(role) == NodeState::Candidate {
                NodeState::Follower
            } else {
                *old(role)
            },
            final(storage).log() == if append_accepted(
                old(storage).log(),
                term,
                *old(current_term),
                prev_log_index as int,
                prev_log_term,
            ) {
                merged_log(old(storage).log(), prev_log_index as int, entries.entries())
            } else {
                old(storage).log()
            },
            final(self).spec_commit_index() == if append_accepted(
                old(storage).log(),
                term,
                *old(current_term),
                prev_log_index as int,
                prev_log_term,
            ) {
                follower_commit(
                    old(self).spec_commit_index() as int,
                    leader_commit as int,
                    final(storage).log().len() as int,
                )
            } else {
                old(self).spec_commit_index() as int
            },
            final(self).spec_commit_index() >= old(self).spec_commit_index(),
            if append_accepted(
                old(storage).log(),
                term,
                *old(current_term),
                prev_log_index as int,
                prev_log_term,
            ) {
                &&& final(self).spec_last_applied() == apply_target(
                    old(self).spec_last_applied() as int,
                    final(self).spec_commit_index() as int,
                    final(storage).log().len() as int,
                )
                &&& if final(self).spec_last_applied() > old(self).spec_last_applied() {
                    final(state_machine).applied() == old(state_machine).applied() + payloads_of(
                        final(storage).log().subrange(
                            old(self).spec_last_applied() as int,
                            final(self).spec_last_applied() as int,
                        ),
                    )
                } else {
                    final(state_machine).applied() == old(state_machine).applied()
                }
            } else {
                &&& final(self).spec_last_applied() == old(self).spec_last_applied()
                &&& final(state_machine).applied() == old(state_machine).applied()
            },
            r == (RaftMsg::AppendEntriesResponse::<S::Payload, L> {
                term: *final(current_term),
                success: append_accepted(
                    old(storage).log(),
                    term,
                    *old(current_term),
                    prev_log_index as int,
                    prev_log_term,
                ),
                match_index: if append_accepted(
                    old(storage).log(),
                    term,
                    *old(current_term),
                    prev_log_index as int,
                    prev_log_term,
                ) {
                    final(storage).log().len() as LogIndex
                } else {
                    0
                },
            }),
    {
        let ghost ct0 = *current_term;
        let ghost log0 = storage.log();
        let ghost es = entries.entries();
        let ghost prev = prev_log_index as int;
        if term < *current_term {
            return RaftMsg::AppendEntriesResponse {
                term: *current_term,
                success: false,
                match_index: 0,
            };
        }
        if term > *current_term {
            *current_term = term;
            storage.set_current_term(term);
            storage.set_voted_for(None);
            *role = NodeState::Follower;
        } else if *role == NodeState::Candidate {
            *role = NodeState::Follower;
        }
        let last0 = storage.last_log_index();
        if prev_log_index > 0 {
            if last0 < prev_log_index || storage.term_at(prev_log_index) != prev_log_term {
                return RaftMsg::AppendEntriesResponse {
                    term: *current_term,
                    success: false,
                    match_index: 0,
                };
            }
        }
        let n_entries = entries.len();
        let c = Self::find_conflict(storage, prev_log_index, &entries);
        if c < n_entries {
            let trunc_at = prev_log_index + c as u64 + 1;
            storage.truncate_from(trunc_at);
            let mut suffix: Vec<LogEntry<S::Payload>> = Vec::new();
            let mut k = c;
            proof {
                assert(suffix@ =~= es.subrange(c as int, c as int));
            }
            while k < n_entries
                invariant
                    c <= k <= n_entries,
                    n_entries == es.len(),
                    es == entries.entries(),
                    suffix@ == es.subrange(c as int, k as int),
                decreases n_entries - k,
            {
                suffix.push(entries.get(k).duplicate());
                proof {
                    assert(es.subrange(c as int, k + 1) =~= es.subrange(c as int, k as int).push(
                        es[k as int],
                    ));
                }
                k = k + 1;
            }
            storage.append_entries(suffix.as_slice());
            proof {
                assert(suffix@ =~= es.skip(c as int));
                assert(storage.log() == log0.take(prev + c) + es.skip(c as int));
            }
        }
        let len1 = storage.last_log_index();
        if leader_commit > self.commit_index {
            let m = if leader_commit < len1 {
                leader_commit
            } else {
                len1
            };
            if m > self.commit_index {
                self.commit_index = m;
            }
        }
        self.apply_committed(storage, state_machine);
        RaftMsg::AppendEntriesResponse { term: *current_term, success: true, match_index: len1 }
    }

    /// Leader-side broadcast: one `AppendEntries` per peer, each built from
    /// that peer's next index — the previous position, its term, and every
    /// entry from the next index onward (none when the peer is caught up).
    /// Heartbeats are the same broadcast; a peer with pending entries gets
    /// them again, which is the retry path.
    pub fn broadcast_append_entries<N, S, T>(
        &self,
        peers: &N,
        self_id: NodeId,
        current_term: Term,
        storage: &S,
        transport: &mut T,
    ) where
        N: NodeCollection,
        S: Storage,
        T: Transport<Payload = S::Payload>,
        T::LogEntries: LogEntryCollection<Payload = S::Payload>,

        requires
            self.wf(),
            storage.log().len() < LogIndex::MAX,
        ensures
            final(transport).sent().len() == old(transport).sent().len() + peers.nodes().len(),
            final(transport).sent().subrange(0, old(transport).sent().len() as int) == old(
                transport,
            ).sent(),
            forall|i: int|
                0 <= i < peers.nodes().len() ==> expected_append_entries(
                    #[trigger] final(transport).sent()[old(transport).sent().len() + i],
                    peers.nodes()[i],
                    self_id,
                    current_term,
                    storage.log(),
                    self.spec_next_index(),
                    self.spec_commit_index(),
                ),
    {
        let ghost sent0 = old(transport).sent();
        let last = storage.last_log_index();
        let n = peers.len();
        let mut i: usize = 0;
        proof {
            assert(transport.sent().subrange(0, sent0.len() as int) =~= sent0);
        }
        while i < n
            invariant
                n == peers.nodes().len(),
                i <= n,
                self.wf(),
                last == storage.log().len(),
                storage.log().len() < LogIndex::MAX,
                transport.sent().len() == sent0.len() + i,
                transport.sent().subrange(0, sent0.len() as int) == sent0,
                forall|j: int|
                    0 <= j < i ==> expected_append_entries(
                        #[trigger] transport.sent()[sent0.len() + j],
                        peers.nodes()[j],
                        self_id,
                        current_term,
                        storage.log(),
                        self.spec_next_index(),
                        self.spec_commit_index(),
                    ),
            decreases n - i,
        {
            let ghost sent_before = transport.sent();
            let peer = peers.get(i);
            let nx = match self.next_index.get(peer) {
                Some(v) => {
                    proof {
                        lemma_assoc_get_in(self.next_index.entries(), peer);
                    }
                    v
                },
                None => {
                    if last == u64::MAX {
                        last
                    } else {
                        last + 1
                    }
                },
            };
            let prev = nx - 1;
            let prev_term = storage.term_at(prev);
            let batch: Vec<LogEntry<S::Payload>> = if nx <= last {
                storage.get_entries(nx, last + 1)
            } else {
                let empty_batch: Vec<LogEntry<S::Payload>> = Vec::new();
                proof {
                    assert(empty_batch@ =~= entries_from(storage.log(), nx));
                }
                empty_batch
            };
            let wire = T::LogEntries::from_vec(batch);
            transport.send(
                peer,
                RaftMsg::AppendEntries {
                    term: current_term,
                    leader_id: self_id,
                    prev_log_index: prev,
                    prev_log_term: prev_term,
                    entries: wire,
                    leader_commit: self.commit_index,
                },
            );
            proof {
                assert(transport.sent().subrange(0, sent0.len() as int) =~= sent0);
                assert(forall|j: int|
                    0 <= j < i ==> #[trigger] transport.sent()[sent0.len() + j]
                        == sent_before[sent0.len() + j]);
                assert(expected_append_entries(
                    transport.sent()[sent0.len() + i],
                    peers.nodes()[i as int],
                    self_id,
                    current_term,
                    storage.log(),
                    self.spec_next_index(),
                    self.spec_commit_index(),
                ));
            }
            i = i + 1;
        }
    }

    pub fn next_index(&self) -> (r: &M)
        ensures
            r.entries() == self.spec_next_index(),
    {
        &self.next_index
    }

    pub fn match_index(&self) -> (r: &M)
        ensures
            r.entries() == self.spec_match_index(),
    {
        &self.match_index
    }
}

} // verus!

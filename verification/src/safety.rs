use vstd::prelude::*;
use vstd::set_lib::lemma_len_subset;
use crate::election_manager::{log_up_to_date, vote_granted};
use crate::log_entry::{term_at_spec, LogEntry};
use crate::log_replication_manager::{first_conflict, lemma_first_conflict_from, merged_log};
use crate::types::{LogIndex, NodeId, Term};

verus! {

/// Two finite sets that are each more than half of a finite universe
/// cannot be disjoint.
proof fn lemma_disjoint_union_len(a: Set<NodeId>, b: Set<NodeId>)
    requires
        a.finite(),
        b.finite(),
        a.intersect(b) =~= Set::<NodeId>::empty(),
    ensures
        a.union(b).len() == a.len() + b.len(),
    decreases a.len(),
{
    if a.is_empty() {
        assert(a.union(b) =~= b);
        assert(a.len() == 0);
    } else {
        let x = a.choose();
        assert(a.contains(x));
        assert(!b.contains(x)) by {
            if b.contains(x) {
                assert(a.intersect(b).contains(x));
            }
        }
        assert(a.remove(x).intersect(b) =~= Set::<NodeId>::empty());
        assert(a.remove(x).union(b) =~= a.union(b).remove(x));
        lemma_disjoint_union_len(a.remove(x), b);
    }
}

/// Any two strict majorities of one finite cluster share a member. This is
/// the pigeonhole at the bottom of election safety and of commit
/// durability: a winning vote set and any other quorum overlap.
pub proof fn lemma_quorums_intersect(cluster: Set<NodeId>, q1: Set<NodeId>, q2: Set<NodeId>)
    requires
        cluster.finite(),
        q1.subset_of(cluster),
        q2.subset_of(cluster),
        2 * q1.len() > cluster.len(),
        2 * q2.len() > cluster.len(),
    ensures
        exists|n: NodeId| q1.contains(n) && q2.contains(n),
{
    lemma_len_subset(q1, cluster);
    lemma_len_subset(q2, cluster);
    if q1.intersect(q2) =~= Set::<NodeId>::empty() {
        lemma_disjoint_union_len(q1, q2);
        lemma_len_subset(q1.union(q2), cluster);
        assert(false);
    }
    assert(!(q1.intersect(q2) =~= Set::<NodeId>::empty()));
    let n = q1.intersect(q2).choose();
    assert(q1.intersect(q2).contains(n)) by {
        if !q1.intersect(q2).contains(n) {
            assert(q1.intersect(q2).is_empty());
        }
    }
    assert(q1.contains(n) && q2.contains(n));
}

/// Election safety: for every term, at most one node becomes leader. A
/// candidate wins only with votes from a strict majority of the cluster,
/// and — vote uniqueness — each node grants at most one vote per term, here
/// written as a function from voter to the one candidate it voted for in
/// that term. Two winners would need two majorities whose common member
/// voted for both.
pub proof fn lemma_election_safety(
    cluster: Set<NodeId>,
    votes1: Set<NodeId>,
    votes2: Set<NodeId>,
    vote_of: spec_fn(NodeId) -> NodeId,
    c1: NodeId,
    c2: NodeId,
)
    requires
        cluster.finite(),
        votes1.subset_of(cluster),
        votes2.subset_of(cluster),
        2 * votes1.len() > cluster.len(),
        2 * votes2.len() > cluster.len(),
        forall|n: NodeId| votes1.contains(n) ==> vote_of(n) == c1,
        forall|n: NodeId| votes2.contains(n) ==> vote_of(n) == c2,
    ensures
        c1 == c2,
{
    lemma_quorums_intersect(cluster, votes1, votes2);
    let n = choose|n: NodeId| votes1.contains(n) && votes2.contains(n);
    assert(vote_of(n) == c1 && vote_of(n) == c2);
}

/// Vote uniqueness: a node that has voted for `c1` in its current term
/// grants another request of that same term only to `c1` itself. Together
/// with `handle_request_vote`'s contract — a grant at term `t` leaves the
/// node at term `t` with `voted_for` set to the grantee — a node hands out
/// at most one vote per term.
pub proof fn lemma_vote_uniqueness<P>(
    log: Seq<LogEntry<P>>,
    current_term: Term,
    c1: NodeId,
    term: Term,
    c2: NodeId,
    last_log_index: LogIndex,
    last_log_term: Term,
)
    requires
        term == current_term,
        vote_granted(log, current_term, Some(c1), term, c2, last_log_index, last_log_term),
    ensures
        c2 == c1,
{
}

/// Up-to-date vote: a vote is granted only to a candidate whose log is at
/// least as up-to-date as the voter's, by (last term, last index) order.
pub proof fn lemma_up_to_date_vote<P>(
    log: Seq<LogEntry<P>>,
    current_term: Term,
    voted_for: Option<NodeId>,
    term: Term,
    candidate_id: NodeId,
    last_log_index: LogIndex,
    last_log_term: Term,
)
    requires
        vote_granted(log, current_term, voted_for, term, candidate_id, last_log_index,
            last_log_term),
    ensures
        log_up_to_date(log, last_log_term, last_log_index),
{
}

/// The quorum step of leader completeness: an entry committed in some term
/// is held by a strict majority, and a later leader was elected by a
/// strict majority, so some voter of that election holds the entry — and,
/// by the up-to-date rule, its granted vote bounds the new leader's log
/// summary from below. The rest of leader completeness — from that bound
/// to the new leader actually containing the entry — runs through log
/// matching across the intervening terms and is not mechanized here.
pub proof fn lemma_leader_completeness_quorum_step<P>(
    cluster: Set<NodeId>,
    holders: Set<NodeId>,
    voters: Set<NodeId>,
    logs: Map<NodeId, Seq<LogEntry<P>>>,
    entry: LogEntry<P>,
    index: LogIndex,
    last_log_term: Term,
    last_log_index: LogIndex,
)
    requires
        cluster.finite(),
        holders.subset_of(cluster),
        voters.subset_of(cluster),
        2 * holders.len() > cluster.len(),
        2 * voters.len() > cluster.len(),
        forall|n: NodeId| #[trigger]
            holders.contains(n) ==> logs.dom().contains(n) && 1 <= index <= logs[n].len()
                && logs[n][index - 1] == entry,
        forall|n: NodeId| #[trigger]
            voters.contains(n) ==> logs.dom().contains(n) && log_up_to_date(
                logs[n],
                last_log_term,
                last_log_index,
            ),
    ensures
        exists|n: NodeId|
            #![trigger holders.contains(n)]
            holders.contains(n) && voters.contains(n) && logs[n][index - 1] == entry
                && log_up_to_date(logs[n], last_log_term, last_log_index),
{
    lemma_quorums_intersect(cluster, holders, voters);
    let n = choose|n: NodeId| holders.contains(n) && voters.contains(n);
    assert(holders.contains(n) && voters.contains(n) && logs[n][index - 1] == entry
        && log_up_to_date(logs[n], last_log_term, last_log_index));
}

/// One term's election, abstracted to what the handler contracts promise:
/// who has voted for whom (`handle_request_vote` grants at most one vote
/// per node and term and persists it — a vote, once cast, never changes
/// within its term), and who became leader on the strength of which vote
/// quorum (`handle_request_vote_response` makes a leader exactly when a
/// strict majority granted). The gap between this model and a running
/// cluster is the wire: that a tallied grant was really cast is the
/// transport's obligation, not the protocol logic's.
pub struct ElectionRound {
    /// The cluster's membership, fixed for the round.
    pub cluster: Set<NodeId>,
    /// Every vote cast so far in this term: voter to candidate.
    pub votes: Map<NodeId, NodeId>,
    /// Every leader elected so far in this term, with the vote quorum that
    /// elected it.
    pub leaders: Map<NodeId, Set<NodeId>>,
}

/// The invariant of an election round: every recorded leader holds a
/// strict majority of the cluster whose members all voted for it.
pub open spec fn round_inv(r: ElectionRound) -> bool {
    &&& r.cluster.finite()
    &&& forall|l: NodeId| #[trigger]
        r.leaders.dom().contains(l) ==> r.leaders[l].subset_of(r.cluster) && 2
            * r.leaders[l].len() > r.cluster.len() && forall|v: NodeId| #[trigger]
            r.leaders[l].contains(v) ==> r.votes.dom().contains(v) && r.votes[v] == l
}

/// The start of a term: nobody has voted, nobody leads.
pub open spec fn round_init(r: ElectionRound) -> bool {
    &&& r.cluster.finite()
    &&& r.votes == Map::<NodeId, NodeId>::empty()
    &&& r.leaders == Map::<NodeId, Set<NodeId>>::empty()
}

/// A node casts its one vote of the term. The guard is `vote_granted`'s
/// vote-free condition: a node that has voted in this term grants nobody
/// else.
pub open spec fn cast_vote(
    pre: ElectionRound,
    post: ElectionRound,
    voter: NodeId,
    candidate: NodeId,
) -> bool {
    &&& !pre.votes.dom().contains(voter)
    &&& post == (ElectionRound { votes: pre.votes.insert(voter, candidate), ..pre })
}

/// A candidate wins: it tallied grants from a strict majority, each a vote
/// actually cast for it — the transition `handle_request_vote_response`'s
/// contract allows.
pub open spec fn become_leader(
    pre: ElectionRound,
    post: ElectionRound,
    candidate: NodeId,
    quorum: Set<NodeId>,
) -> bool {
    &&& quorum.subset_of(pre.cluster)
    &&& 2 * quorum.len() > pre.cluster.len()
    &&& (forall|v: NodeId| #[trigger]
        quorum.contains(v) ==> pre.votes.dom().contains(v) && pre.votes[v] == candidate)
    &&& post == (ElectionRound { leaders: pre.leaders.insert(candidate, quorum), ..pre })
}

/// The invariant holds at the start of a term.
pub proof fn lemma_round_inv_init(r: ElectionRound)
    requires
        round_init(r),
    ensures
        round_inv(r),
{
}

/// Casting a vote preserves the invariant: votes are write-once, so every
/// quorum already recorded keeps its support.
pub proof fn lemma_round_inv_cast_vote(
    pre: ElectionRound,
    post: ElectionRound,
    voter: NodeId,
    candidate: NodeId,
)
    requires
        round_inv(pre),
        cast_vote(pre, post, voter, candidate),
    ensures
        round_inv(post),
{
    assert forall|l: NodeId| #[trigger] post.leaders.dom().contains(l) implies
        post.leaders[l].subset_of(post.cluster) && 2 * post.leaders[l].len() > post.cluster.len()
            && forall|v: NodeId| #[trigger]
            post.leaders[l].contains(v) ==> post.votes.dom().contains(v) && post.votes[v]
                == l by {
        assert(pre.leaders.dom().contains(l));
        assert forall|v: NodeId| #[trigger] post.leaders[l].contains(v) implies
            post.votes.dom().contains(v) && post.votes[v] == l by {
            assert(pre.leaders[l].contains(v));
            assert(pre.votes.dom().contains(v));
            // The new voter had not voted before, so it sits in no
            // recorded quorum; every quorum member's vote is untouched.
            assert(v != voter);
        }
    }
}

/// An election preserves the invariant: the new leader's quorum is checked
/// by the transition's own guard, and the old leaders' quorums are
/// untouched.
pub proof fn lemma_round_inv_become_leader(
    pre: ElectionRound,
    post: ElectionRound,
    candidate: NodeId,
    quorum: Set<NodeId>,
)
    requires
        round_inv(pre),
        become_leader(pre, post, candidate, quorum),
    ensures
        round_inv(post),
{
    assert forall|l: NodeId| #[trigger] post.leaders.dom().contains(l) implies
        post.leaders[l].subset_of(post.cluster) && 2 * post.leaders[l].len() > post.cluster.len()
            && forall|v: NodeId| #[trigger]
            post.leaders[l].contains(v) ==> post.votes.dom().contains(v) && post.votes[v]
                == l by {
        if l == candidate {
            assert(post.leaders[l] == quorum);
        } else {
            assert(pre.leaders.dom().contains(l));
            assert(post.leaders[l] == pre.leaders[l]);
        }
    }
}

/// Election safety over every reachable state of a term: the invariant is
/// established at the start of the term and preserved by both transitions,
/// and in any state satisfying it at most one node leads — two leaders
/// would need two majorities of one cluster whose common member voted for
/// both.
pub proof fn lemma_election_safety_reachable(r: ElectionRound, l1: NodeId, l2: NodeId)
    requires
        round_inv(r),
        r.leaders.dom().contains(l1),
        r.leaders.dom().contains(l2),
    ensures
        l1 == l2,
{
    let vote_of = |v: NodeId| r.votes[v];
    assert(forall|v: NodeId| r.leaders[l1].contains(v) ==> vote_of(v) == l1);
    assert(forall|v: NodeId| r.leaders[l2].contains(v) ==> vote_of(v) == l2);
    lemma_election_safety(r.cluster, r.leaders[l1], r.leaders[l2], vote_of, l1, l2);
}

/// Pairwise log matching: where two logs agree on a term, they agree on
/// every entry up to that position.
pub open spec fn log_matching<P>(a: Seq<LogEntry<P>>, b: Seq<LogEntry<P>>) -> bool {
    forall|i: int, j: int|
        #![trigger a[i], b[j]]
        0 <= j <= i && i < a.len() && i < b.len() && a[i].term == b[i].term ==> a[j] == b[j]
}

/// One leader's term of replication, abstracted to what the contracts
/// promise: the leader's log (which it only appends to, with entries of
/// its own term — `submit`'s contract) and the followers' logs, rewritten
/// only by accepted `AppendEntries` whose content the leader drew from its
/// log (`broadcast_append_entries`'s contract).
pub struct ReplicationRound<P> {
    /// The leader's term.
    pub term: Term,
    /// The leader's log.
    pub leader_log: Seq<LogEntry<P>>,
    /// The log of every follower the round tracks.
    pub followers: Map<NodeId, Seq<LogEntry<P>>>,
}

/// What holds of each tracked follower: its log matches the leader's
/// pairwise, and every entry it holds of the leader's own term is the
/// leader's entry at that position.
pub open spec fn follower_ok<P>(r: ReplicationRound<P>, flog: Seq<LogEntry<P>>) -> bool {
    &&& log_matching(flog, r.leader_log)
    &&& forall|i: int|
        0 <= i < flog.len() && (#[trigger] flog[i]).term == r.term ==> i < r.leader_log.len()
            && flog[i] == r.leader_log[i]
}

/// The replication invariant: every tracked follower is `follower_ok`.
pub open spec fn repl_inv<P>(r: ReplicationRound<P>) -> bool {
    forall|n: NodeId| #[trigger]
        r.followers.dom().contains(n) ==> follower_ok(r, r.followers[n])
}

/// The leader accepts a client command: an entry of its own term goes to
/// the end of its log, and nothing else moves (`submit`'s contract).
pub open spec fn leader_appends<P>(
    pre: ReplicationRound<P>,
    post: ReplicationRound<P>,
    entry: LogEntry<P>,
) -> bool {
    &&& entry.term == pre.term
    &&& post == (ReplicationRound { leader_log: pre.leader_log.push(entry), ..pre })
}

/// A follower comes under the round's tracking. That its log already
/// matches the new leader's is the cross-term induction hypothesis — the
/// part of the protocol-wide argument this model takes as given rather
/// than discharges.
pub open spec fn enroll_follower<P>(
    pre: ReplicationRound<P>,
    post: ReplicationRound<P>,
    n: NodeId,
    flog: Seq<LogEntry<P>>,
) -> bool {
    &&& follower_ok(pre, flog)
    &&& post == (ReplicationRound { followers: pre.followers.insert(n, flog), ..pre })
}

/// A follower accepts an `AppendEntries` whose batch the leader drew from
/// its log after `prev` and whose prev term is the leader's
/// (`broadcast_append_entries`'s contract), with the follower's own check
/// of `prev` passed (`handle_append_entries`'s accept condition); its log
/// becomes the merge (`handle_append_entries`'s contract).
pub open spec fn follower_accepts<P>(
    pre: ReplicationRound<P>,
    post: ReplicationRound<P>,
    n: NodeId,
    prev: LogIndex,
    es: Seq<LogEntry<P>>,
) -> bool {
    &&& pre.followers.dom().contains(n)
    &&& prev + es.len() <= pre.leader_log.len()
    &&& es == pre.leader_log.subrange(prev as int, prev + es.len())
    &&& crate::log_replication_manager::prev_matches(
        pre.followers[n],
        prev as int,
        term_at_spec(pre.leader_log, prev),
    )
    &&& post == (ReplicationRound {
        followers: pre.followers.insert(n, merged_log(pre.followers[n], prev as int, es)),
        ..pre
    })
}

/// Appending on the leader preserves the invariant: a follower cannot yet
/// hold a term-`T` entry at the new position, so the new entry conflicts
/// with nothing.
pub proof fn lemma_repl_inv_leader_appends<P>(
    pre: ReplicationRound<P>,
    post: ReplicationRound<P>,
    entry: LogEntry<P>,
)
    requires
        repl_inv(pre),
        leader_appends(pre, post, entry),
    ensures
        repl_inv(post),
{
    assert forall|n: NodeId| #[trigger] post.followers.dom().contains(n) implies follower_ok(
        post,
        post.followers[n],
    ) by {
        let flog = post.followers[n];
        assert(pre.followers.dom().contains(n));
        assert(flog == pre.followers[n]);
        let llog1 = post.leader_log;
        assert forall|i: int, j: int|
            #![trigger flog[i], llog1[j]]
            0 <= j <= i && i < flog.len() && i < llog1.len() && flog[i].term
                == llog1[i].term implies flog[j] == llog1[j] by {
            if i < pre.leader_log.len() {
                assert(llog1[i] == pre.leader_log[i]);
                assert(flog[j] == pre.leader_log[j]);
                assert(llog1[j] == pre.leader_log[j]);
            } else {
                // The new position: the entry carries the leader's term, so
                // the follower holding that term there would already be a
                // copy of a leader entry past the old end — impossible.
                assert(flog[i].term == pre.term);
                assert(i < pre.leader_log.len());
            }
        }
        assert forall|i: int|
            0 <= i < flog.len() && (#[trigger] flog[i]).term == post.term implies i
                < post.leader_log.len() && flog[i] == post.leader_log[i] by {
            assert(i < pre.leader_log.len());
            assert(post.leader_log[i] == pre.leader_log[i]);
        }
    }
}

/// Enrolling a follower preserves the invariant (its log is required to be
/// in shape already).
pub proof fn lemma_repl_inv_enroll<P>(
    pre: ReplicationRound<P>,
    post: ReplicationRound<P>,
    n: NodeId,
    flog: Seq<LogEntry<P>>,
)
    requires
        repl_inv(pre),
        enroll_follower(pre, post, n, flog),
    ensures
        repl_inv(post),
{
    assert forall|m: NodeId| #[trigger] post.followers.dom().contains(m) implies follower_ok(
        post,
        post.followers[m],
    ) by {
        if m != n {
            assert(pre.followers.dom().contains(m));
            assert(post.followers[m] == pre.followers[m]);
        } else {
            assert(post.followers[m] == flog);
        }
    }
}

/// An accepted replication step preserves the invariant: the merge keeps
/// the follower matching the leader and hands it the leader's entries
/// identically.
pub proof fn lemma_repl_inv_follower_accepts<P>(
    pre: ReplicationRound<P>,
    post: ReplicationRound<P>,
    n: NodeId,
    prev: LogIndex,
    es: Seq<LogEntry<P>>,
)
    requires
        repl_inv(pre),
        follower_accepts(pre, post, n, prev, es),
    ensures
        repl_inv(post),
{
    let flog = pre.followers[n];
    let llog = pre.leader_log;
    let merged = merged_log(flog, prev as int, es);
    lemma_log_matching_preserved(llog, flog, prev as int, es);
    let c = first_conflict(flog, prev as int, es);
    lemma_first_conflict_from(flog, prev as int, es, 0);
    assert forall|m: NodeId| #[trigger] post.followers.dom().contains(m) implies follower_ok(
        post,
        post.followers[m],
    ) by {
        if m != n {
            assert(pre.followers.dom().contains(m));
            assert(post.followers[m] == pre.followers[m]);
        } else {
            assert(post.followers[m] == merged);
            assert forall|i: int|
                0 <= i < merged.len() && (#[trigger] merged[i]).term == post.term implies i
                    < post.leader_log.len() && merged[i] == post.leader_log[i] by {
                if c == es.len() {
                    // Nothing was cut or added: the old fact carries over.
                    assert(merged == flog);
                } else {
                    // Every merged entry equals the leader's at its index.
                    assert(merged.len() == prev + es.len());
                    assert(merged[i] == llog[i]);
                }
            }
        }
    }
}

/// Log matching over the round's reachable states, follower against
/// leader: a tracked follower that shares an entry's term with the leader
/// at some index agrees with the leader on everything up to it.
pub proof fn lemma_log_matching_reachable<P>(r: ReplicationRound<P>, n: NodeId, i: int)
    requires
        repl_inv(r),
        r.followers.dom().contains(n),
        0 <= i < r.followers[n].len(),
        i < r.leader_log.len(),
        r.followers[n][i].term == r.leader_log[i].term,
    ensures
        forall|j: int| 0 <= j <= i ==> r.followers[n][j] == r.leader_log[j],
{
    let flog = r.followers[n];
    assert forall|j: int| 0 <= j <= i implies flog[j] == r.leader_log[j] by {
        assert(flog[j] == r.leader_log[j]);
    }
}

/// Log matching over the round's reachable states, follower against
/// follower: two tracked nodes holding a current-term entry at the same
/// index agree on everything up to it — each one's prefix is the leader's.
pub proof fn lemma_log_matching_pairwise<P>(
    r: ReplicationRound<P>,
    n1: NodeId,
    n2: NodeId,
    i: int,
)
    requires
        repl_inv(r),
        r.followers.dom().contains(n1),
        r.followers.dom().contains(n2),
        0 <= i < r.followers[n1].len(),
        i < r.followers[n2].len(),
        r.followers[n1][i].term == r.term,
        r.followers[n2][i].term == r.term,
    ensures
        forall|j: int| 0 <= j <= i ==> r.followers[n1][j] == r.followers[n2][j],
{
    let f1 = r.followers[n1];
    let f2 = r.followers[n2];
    assert(f1[i] == r.leader_log[i]);
    assert(f2[i] == r.leader_log[i]);
    assert forall|j: int| 0 <= j <= i implies f1[j] == f2[j] by {
        assert(f1[j] == r.leader_log[j]);
        assert(f2[j] == r.leader_log[j]);
    }
}

/// Log matching is preserved by an accepted `AppendEntries`. When the
/// message is drawn from the leader's log — its batch is the leader's
/// entries after `prev`, and the term it names for `prev` is the leader's —
/// and the follower's check of `prev` passed, then a follower log that
/// matched the leader's log before the merge still matches it afterwards —
/// and now holds the leader's entries up to the end of the batch,
/// identically and at the same positions. This is the induction step behind
/// the protocol-wide log-matching property; elections add no entries, so
/// replication is the only step that has to be checked.
pub proof fn lemma_log_matching_preserved<P>(
    leader_log: Seq<LogEntry<P>>,
    follower_log: Seq<LogEntry<P>>,
    prev: int,
    es: Seq<LogEntry<P>>,
)
    requires
        0 <= prev,
        prev + es.len() <= leader_log.len(),
        es == leader_log.subrange(prev, prev + es.len()),
        prev == 0 || (prev <= follower_log.len() && follower_log[prev - 1].term == leader_log[prev
            - 1].term),
        log_matching(follower_log, leader_log),
    ensures
        log_matching(merged_log(follower_log, prev, es), leader_log),
        merged_log(follower_log, prev, es).len() >= prev + es.len(),
        forall|k: int|
            0 <= k < prev + es.len() ==> #[trigger] merged_log(follower_log, prev, es)[k]
                == leader_log[k],
{
    let c = first_conflict(follower_log, prev, es);
    lemma_first_conflict_from(follower_log, prev, es, 0);
    if c == es.len() {
        // Nothing conflicted: the follower's log is untouched, and it
        // already holds every entry of the batch.
        assert(merged_log(follower_log, prev, es) == follower_log);
        assert forall|k: int| 0 <= k < prev + es.len() implies #[trigger] follower_log[k]
            == leader_log[k] by {
            if k < prev {
                if prev > 0 {
                    assert(follower_log[prev - 1].term == leader_log[prev - 1].term);
                    assert(follower_log[k] == leader_log[k]);
                }
            } else {
                // Anchored by the last matching batch entry at or after `k`.
                let i = prev + es.len() - 1;
                assert(follower_log[i].term == es[es.len() - 1].term);
                assert(es[es.len() - 1] == leader_log[i]);
                assert(follower_log[i].term == leader_log[i].term);
                assert(follower_log[k] == leader_log[k]);
            }
        }
    } else {
        let merged = merged_log(follower_log, prev, es);
        assert(merged == follower_log.take(prev + c) + es.skip(c));
        // Every entry the follower keeps below `prev + c` equals the
        // leader's entry at the same position.
        assert forall|j: int| 0 <= j < prev + c implies follower_log[j] == leader_log[j] by {
            if j < prev {
                // Anchored by the matching entry at `prev`.
                assert(follower_log[prev - 1].term == leader_log[prev - 1].term);
                assert(follower_log[j] == leader_log[j]);
            } else {
                // Anchored by the last already-matching batch entry.
                let i = prev + c - 1;
                assert(follower_log[i].term == es[c - 1].term);
                assert(es[c - 1] == leader_log[i]);
                assert(follower_log[i].term == leader_log[i].term);
                assert(follower_log[j] == leader_log[j]);
            }
        }
        assert forall|k: int| 0 <= k < merged.len() implies merged[k] == leader_log[k] by {
            if k < prev + c {
                assert(merged[k] == follower_log[k]);
            } else {
                assert(merged[k] == es[k - prev]);
                assert(es[k - prev] == leader_log[k]);
            }
        }
        assert forall|i: int, j: int|
            #![trigger merged[i], leader_log[j]]
            0 <= j <= i && i < merged.len() && i < leader_log.len() && merged[i].term
                == leader_log[i].term implies merged[j] == leader_log[j] by {
            assert(merged[j] == leader_log[j]);
        }
    }
}

} // verus!

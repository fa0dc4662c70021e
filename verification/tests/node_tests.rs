use raft_core::in_memory_log_entry_collection::InMemoryLogEntryCollection;
use raft_core::in_memory_node_collection::InMemoryNodeCollection;
use raft_core::in_memory_state_machine::InMemoryStateMachine;
use raft_core::in_memory_storage::InMemoryStorage;
use raft_core::in_memory_transport::InMemoryTransport;
use raft_core::log_entry::LogEntry;
use raft_core::node::{Node, RaftError};
use raft_core::node_collection::NodeCollection;
use raft_core::node_state::NodeState;
use raft_core::raft_messages::RaftMsg;
use raft_core::sim_node::SimNode;
use raft_core::tick_timer::TickTimer;

fn make_node(id: u64, peer_ids: &[u64], seed: u64) -> SimNode {
    let mut peers = InMemoryNodeCollection::new();
    for p in peer_ids {
        peers.push(*p).unwrap();
    }
    Node::new(
        id,
        peers,
        InMemoryStorage::new(),
        InMemoryTransport::new(id),
        InMemoryStateMachine::new(),
        TickTimer::new(10, 3, seed),
    )
}

#[test]
fn test_node_starts_as_follower_at_term_zero() {
    let node = make_node(1, &[2, 3], 42);
    assert_eq!(node.role(), NodeState::Follower);
    assert_eq!(node.current_term(), 0);
    assert_eq!(node.commit_index(), 0);
}

#[test]
fn test_last_log_index_tracks_the_log() {
    let mut node = make_node(1, &[2, 3], 42);
    assert_eq!(node.last_log_index(), 0);
    node.advance_time(20);
    node.step(None);
    node.step(Some((
        2,
        RaftMsg::RequestVoteResponse {
            term: 1,
            granted: true,
        },
    )));
    assert_eq!(node.submit("cmd".to_string()), Ok(1));
    assert_eq!(node.last_log_index(), 1);
}

#[test]
fn test_submit_fails_when_not_leader() {
    let mut node = make_node(1, &[2, 3], 42);
    let r = node.submit("cmd".to_string());
    assert_eq!(
        r,
        Err(RaftError::NotLeader { leader_hint: None }),
        "a follower must not accept submissions"
    );
}

#[test]
fn test_node_election_and_submission() {
    let mut node = make_node(1, &[2, 3], 42);

    // No deadline has passed yet: a step without input changes nothing.
    node.step(None);
    assert_eq!(node.role(), NodeState::Follower);

    // Push the clock past any possible election deadline (base 10, so the
    // randomized deadline is below 20 ticks) and step: the node runs for
    // office.
    node.advance_time(20);
    node.step(None);
    assert_eq!(node.role(), NodeState::Candidate);
    assert_eq!(node.current_term(), 1);
    let sent = node.take_outbox();
    assert_eq!(sent.len(), 2, "one vote request per peer");

    // One granted vote completes the quorum of the 3-node cluster.
    node.step(Some((
        2,
        RaftMsg::RequestVoteResponse {
            term: 1,
            granted: true,
        },
    )));
    assert_eq!(node.role(), NodeState::Leader);
    let heartbeats = node.take_outbox();
    assert_eq!(heartbeats.len(), 2, "an immediate heartbeat per peer");

    // The leader accepts a command at index 1.
    assert_eq!(node.submit("cmd1".to_string()), Ok(1));
    assert_eq!(node.submit("cmd2".to_string()), Ok(2));

    // A successful replication response from one peer commits both
    // entries (leader + one peer out of three).
    node.step(Some((
        2,
        RaftMsg::AppendEntriesResponse {
            term: 1,
            success: true,
            match_index: 2,
        },
    )));
    assert_eq!(node.commit_index(), 2);
    assert_eq!(
        node.applied_len(),
        2,
        "committed entries reach the state machine"
    );
}

#[test]
fn test_node_steps_down_on_higher_term_response() {
    let mut node = make_node(1, &[2, 3], 42);
    node.advance_time(20);
    node.step(None);
    assert_eq!(node.role(), NodeState::Candidate);

    node.step(Some((
        2,
        RaftMsg::RequestVoteResponse {
            term: 7,
            granted: false,
        },
    )));
    assert_eq!(node.role(), NodeState::Follower);
    assert_eq!(node.current_term(), 7);
}

#[test]
fn test_node_answers_append_entries() {
    let mut node = make_node(1, &[2, 3], 42);
    let entries = InMemoryLogEntryCollection::new(&[LogEntry {
        term: 1,
        payload: "a".to_string(),
    }]);
    node.step(Some((
        2,
        RaftMsg::AppendEntries {
            term: 1,
            leader_id: 2,
            prev_log_index: 0,
            prev_log_term: 0,
            entries,
            leader_commit: 1,
        },
    )));
    assert_eq!(node.current_term(), 1);
    assert_eq!(node.commit_index(), 1);
    let sent = node.take_outbox();
    assert_eq!(sent.len(), 1);
    match sent[0].1 {
        RaftMsg::AppendEntriesResponse {
            term,
            success,
            match_index,
        } => {
            assert_eq!(term, 1);
            assert!(success);
            assert_eq!(match_index, 1);
        }
        _ => panic!("Expected AppendEntriesResponse"),
    }
}

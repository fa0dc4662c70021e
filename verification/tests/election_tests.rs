use raft_core::election_manager::ElectionManager;
use raft_core::in_memory_log_entry_collection::InMemoryLogEntryCollection;
use raft_core::in_memory_map_collection::InMemoryMapCollection;
use raft_core::in_memory_node_collection::InMemoryNodeCollection;
use raft_core::in_memory_storage::InMemoryStorage;
use raft_core::in_memory_transport::InMemoryTransport;
use raft_core::log_entry::LogEntry;
use raft_core::log_replication_manager::LogReplicationManager;
use raft_core::map_collection::MapCollection;
use raft_core::node_collection::NodeCollection;
use raft_core::node_state::NodeState;
use raft_core::raft_messages::RaftMsg;
use raft_core::storage::Storage;
use raft_core::tick_timer::TickTimer;
use raft_core::timer_service::TimerService;

fn peers_2_3() -> InMemoryNodeCollection {
    let mut peers = InMemoryNodeCollection::new();
    peers.push(2).unwrap();
    peers.push(3).unwrap();
    peers
}

#[test]
fn test_start_election_increments_term_and_requests_votes() {
    let mut election = ElectionManager::<InMemoryNodeCollection>::new();
    let peers = peers_2_3();
    let mut storage: InMemoryStorage<String> = InMemoryStorage::new();
    storage.set_current_term(4);
    storage.append_entries(&[LogEntry {
        term: 4,
        payload: "cmd".to_string(),
    }]);
    let mut current_term = 4;
    let mut role = NodeState::Follower;
    let mut transport = InMemoryTransport::new(1);
    let mut timer = TickTimer::new(10, 3, 7);

    election.start_election(
        1,
        &peers,
        &mut current_term,
        &mut role,
        &mut storage,
        &mut transport,
        &mut timer,
    );

    assert_eq!(current_term, 5);
    assert_eq!(storage.current_term(), 5);
    assert_eq!(storage.voted_for(), Some(1));
    assert_eq!(role, NodeState::Candidate);

    let sent = transport.take_outbox();
    assert_eq!(sent.len(), 2);
    let targets: Vec<u64> = sent.iter().map(|(t, _)| *t).collect();
    assert_eq!(targets, vec![2, 3]);
    for (_, msg) in sent {
        match msg {
            RaftMsg::RequestVote {
                term,
                candidate_id,
                last_log_index,
                last_log_term,
            } => {
                assert_eq!(term, 5);
                assert_eq!(candidate_id, 1);
                assert_eq!(last_log_index, 1);
                assert_eq!(last_log_term, 4);
            }
            _ => panic!("Expected RequestVote"),
        }
    }
}

#[test]
fn test_request_vote_granted_when_log_up_to_date() {
    let election = ElectionManager::<InMemoryNodeCollection>::new();
    let mut storage: InMemoryStorage<String> = InMemoryStorage::new();
    storage.set_current_term(2);
    let mut current_term = 2;
    let mut role = NodeState::Follower;
    let mut timer = TickTimer::new(10, 3, 7);

    let resp: RaftMsg<String, InMemoryLogEntryCollection> = election.handle_request_vote(
        2,
        7, // candidate
        0,
        0,
        &mut current_term,
        &mut role,
        &mut storage,
        &mut timer,
    );

    match resp {
        RaftMsg::RequestVoteResponse { term, granted } => {
            assert_eq!(term, 2);
            assert!(granted);
        }
        _ => panic!("Expected RequestVoteResponse"),
    }
    assert_eq!(storage.voted_for(), Some(7));
}

#[test]
fn test_request_vote_rejected_for_stale_term() {
    let election = ElectionManager::<InMemoryNodeCollection>::new();
    let mut storage: InMemoryStorage<String> = InMemoryStorage::new();
    storage.set_current_term(6);
    let mut current_term = 6;
    let mut role = NodeState::Follower;
    let mut timer = TickTimer::new(10, 3, 7);

    let resp: RaftMsg<String, InMemoryLogEntryCollection> = election.handle_request_vote(
        4, // stale
        7,
        9,
        4,
        &mut current_term,
        &mut role,
        &mut storage,
        &mut timer,
    );

    match resp {
        RaftMsg::RequestVoteResponse { term, granted } => {
            assert_eq!(term, 6);
            assert!(!granted);
        }
        _ => panic!("Expected RequestVoteResponse"),
    }
    assert_eq!(storage.voted_for(), None);
}

#[test]
fn test_request_vote_rejected_when_already_voted() {
    let election = ElectionManager::<InMemoryNodeCollection>::new();
    let mut storage: InMemoryStorage<String> = InMemoryStorage::new();
    storage.set_current_term(3);
    storage.set_voted_for(Some(2));
    let mut current_term = 3;
    let mut role = NodeState::Follower;
    let mut timer = TickTimer::new(10, 3, 7);

    let resp: RaftMsg<String, InMemoryLogEntryCollection> = election.handle_request_vote(
        3,
        7, // a different candidate than the vote already given
        0,
        0,
        &mut current_term,
        &mut role,
        &mut storage,
        &mut timer,
    );

    match resp {
        RaftMsg::RequestVoteResponse { granted, .. } => assert!(!granted),
        _ => panic!("Expected RequestVoteResponse"),
    }
    // The old vote stands: at most one vote per term.
    assert_eq!(storage.voted_for(), Some(2));
}

#[test]
fn test_request_vote_rejected_when_log_behind() {
    let election = ElectionManager::<InMemoryNodeCollection>::new();
    let mut storage: InMemoryStorage<String> = InMemoryStorage::new();
    storage.set_current_term(5);
    storage.append_entries(&[
        LogEntry {
            term: 4,
            payload: "a".to_string(),
        },
        LogEntry {
            term: 5,
            payload: "b".to_string(),
        },
    ]);
    let mut current_term = 5;
    let mut role = NodeState::Follower;
    let mut timer = TickTimer::new(10, 3, 7);

    // Candidate's last term (4) is behind ours (5): not up-to-date.
    let resp: RaftMsg<String, InMemoryLogEntryCollection> = election.handle_request_vote(
        5,
        7,
        10, // a long log does not make up for the older last term
        4,
        &mut current_term,
        &mut role,
        &mut storage,
        &mut timer,
    );

    match resp {
        RaftMsg::RequestVoteResponse { granted, .. } => assert!(!granted),
        _ => panic!("Expected RequestVoteResponse"),
    }
    assert_eq!(storage.voted_for(), None);
}

#[test]
fn test_higher_term_request_vote_resets_election_timer() {
    let election = ElectionManager::<InMemoryNodeCollection>::new();
    let mut storage: InMemoryStorage<String> = InMemoryStorage::new();
    storage.set_current_term(2);
    storage.append_entries(&[LogEntry {
        term: 2,
        payload: "mine".to_string(),
    }]);
    let mut current_term = 2;
    let mut role = NodeState::Follower;
    let mut timer = TickTimer::new(10, 3, 7);

    // A higher-term request whose candidate log is behind: the vote is
    // refused, but the universal preamble still re-arms the election timer.
    let resp: RaftMsg<String, InMemoryLogEntryCollection> = election.handle_request_vote(
        9,
        7,
        0,
        0,
        &mut current_term,
        &mut role,
        &mut storage,
        &mut timer,
    );
    match resp {
        RaftMsg::RequestVoteResponse { granted, .. } => assert!(!granted),
        _ => panic!("Expected RequestVoteResponse"),
    }
    timer.advance(25);
    assert!(timer.check_expired().election, "the preamble armed the timer");
}

#[test]
fn test_higher_term_request_vote_steps_down() {
    let election = ElectionManager::<InMemoryNodeCollection>::new();
    let mut storage: InMemoryStorage<String> = InMemoryStorage::new();
    storage.set_current_term(2);
    let mut current_term = 2;
    let mut role = NodeState::Leader;
    let mut timer = TickTimer::new(10, 3, 7);

    let resp: RaftMsg<String, InMemoryLogEntryCollection> = election.handle_request_vote(
        9,
        7,
        0,
        0,
        &mut current_term,
        &mut role,
        &mut storage,
        &mut timer,
    );

    assert_eq!(current_term, 9);
    assert_eq!(role, NodeState::Follower);
    match resp {
        RaftMsg::RequestVoteResponse { term, granted } => {
            assert_eq!(term, 9);
            assert!(granted);
        }
        _ => panic!("Expected RequestVoteResponse"),
    }
}

#[test]
fn test_quorum_of_votes_makes_leader_and_broadcasts() {
    let mut election = ElectionManager::<InMemoryNodeCollection>::new();
    let mut replication = LogReplicationManager::<InMemoryMapCollection>::new();
    let peers = peers_2_3();
    let mut storage: InMemoryStorage<String> = InMemoryStorage::new();
    let mut transport = InMemoryTransport::new(1);
    let mut timer = TickTimer::new(10, 3, 7);
    let mut current_term = 0;
    let mut role = NodeState::Follower;

    election.start_election(
        1,
        &peers,
        &mut current_term,
        &mut role,
        &mut storage,
        &mut transport,
        &mut timer,
    );
    let _ = transport.take_outbox();
    assert_eq!(current_term, 1);
    assert_eq!(role, NodeState::Candidate);

    // One granted vote plus the candidate's own is 2 of 3: quorum.
    election.handle_request_vote_response(
        1,
        true,
        2,
        1,
        &peers,
        &current_term,
        &mut role,
        &mut replication,
        &storage,
        &mut transport,
        &mut timer,
    );

    assert_eq!(role, NodeState::Leader);
    assert_eq!(replication.next_index().get(2), Some(1));
    assert_eq!(replication.match_index().get(3), Some(0));

    // The immediate heartbeat went to both peers.
    let sent = transport.take_outbox();
    assert_eq!(sent.len(), 2);
    for (_, msg) in sent {
        match msg {
            RaftMsg::AppendEntries {
                term,
                leader_id,
                prev_log_index,
                prev_log_term,
                leader_commit,
                ..
            } => {
                assert_eq!(term, 1);
                assert_eq!(leader_id, 1);
                assert_eq!(prev_log_index, 0);
                assert_eq!(prev_log_term, 0);
                assert_eq!(leader_commit, 0);
            }
            _ => panic!("Expected AppendEntries heartbeat"),
        }
    }
}

#[test]
fn test_duplicate_vote_is_counted_once() {
    let mut election = ElectionManager::<InMemoryNodeCollection>::new();
    let mut replication = LogReplicationManager::<InMemoryMapCollection>::new();
    let mut peers = InMemoryNodeCollection::new();
    peers.push(2).unwrap();
    peers.push(3).unwrap();
    peers.push(4).unwrap();
    peers.push(5).unwrap();
    let mut storage: InMemoryStorage<String> = InMemoryStorage::new();
    let mut transport = InMemoryTransport::new(1);
    let mut timer = TickTimer::new(10, 3, 7);
    let mut current_term = 0;
    let mut role = NodeState::Follower;

    election.start_election(
        1,
        &peers,
        &mut current_term,
        &mut role,
        &mut storage,
        &mut transport,
        &mut timer,
    );
    let _ = transport.take_outbox();

    // Node 2 votes twice; a 5-node cluster needs 3 votes, so two copies of
    // the same vote (plus our own) must not win the election.
    for _ in 0..2 {
        election.handle_request_vote_response(
            1,
            true,
            2,
            1,
            &peers,
            &current_term,
            &mut role,
            &mut replication,
            &storage,
            &mut transport,
            &mut timer,
        );
    }
    assert_eq!(role, NodeState::Candidate);

    // A third distinct voter settles it.
    election.handle_request_vote_response(
        1,
        true,
        3,
        1,
        &peers,
        &current_term,
        &mut role,
        &mut replication,
        &storage,
        &mut transport,
        &mut timer,
    );
    assert_eq!(role, NodeState::Leader);
}

#[test]
fn test_vote_response_from_other_term_is_ignored() {
    let mut election = ElectionManager::<InMemoryNodeCollection>::new();
    let mut replication = LogReplicationManager::<InMemoryMapCollection>::new();
    let peers = peers_2_3();
    let mut storage: InMemoryStorage<String> = InMemoryStorage::new();
    let mut transport = InMemoryTransport::new(1);
    let mut timer = TickTimer::new(10, 3, 7);
    let mut current_term = 0;
    let mut role = NodeState::Follower;

    election.start_election(
        1,
        &peers,
        &mut current_term,
        &mut role,
        &mut storage,
        &mut transport,
        &mut timer,
    );
    let _ = transport.take_outbox();

    // A vote from an older election must not count.
    election.handle_request_vote_response(
        0,
        true,
        2,
        1,
        &peers,
        &current_term,
        &mut role,
        &mut replication,
        &storage,
        &mut transport,
        &mut timer,
    );
    assert_eq!(role, NodeState::Candidate);
}

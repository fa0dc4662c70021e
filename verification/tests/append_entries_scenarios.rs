use raft_core::in_memory_log_entry_collection::InMemoryLogEntryCollection;
use raft_core::in_memory_map_collection::InMemoryMapCollection;
use raft_core::in_memory_state_machine::InMemoryStateMachine;
use raft_core::in_memory_storage::InMemoryStorage;
use raft_core::log_entry::LogEntry;
use raft_core::log_replication_manager::LogReplicationManager;
use raft_core::node_state::NodeState;
use raft_core::raft_messages::RaftMsg;
use raft_core::storage::Storage;

#[test]
fn test_accept_entries_full_response_and_apply() {
    let mut replication = LogReplicationManager::<InMemoryMapCollection>::new();
    let mut storage: InMemoryStorage<String> = InMemoryStorage::new();
    storage.set_current_term(2);
    let mut current_term = 2;
    let mut role = NodeState::Follower;
    let mut state_machine = InMemoryStateMachine::new();

    let entries = InMemoryLogEntryCollection::new(&[
        LogEntry {
            term: 2,
            payload: "cmd1".to_string(),
        },
        LogEntry {
            term: 2,
            payload: "cmd2".to_string(),
        },
    ]);

    let response = replication.handle_append_entries(
        2,
        0,
        0,
        entries,
        2,
        &mut current_term,
        &mut storage,
        &mut state_machine,
        &mut role,
    );

    match response {
        RaftMsg::AppendEntriesResponse {
            term,
            success,
            match_index,
        } => {
            assert_eq!(term, 2);
            assert!(success);
            assert_eq!(match_index, 2);
        }
        _ => panic!("Expected AppendEntriesResponse"),
    }
    // Both committed entries were applied, in order.
    assert_eq!(
        state_machine.state,
        vec!["cmd1".to_string(), "cmd2".to_string()]
    );
    assert_eq!(replication.last_applied(), 2);
}

#[test]
fn test_truncate_conflict_keeps_prefix_and_new_entry() {
    let mut replication = LogReplicationManager::<InMemoryMapCollection>::new();
    let mut storage: InMemoryStorage<String> = InMemoryStorage::new();
    storage.set_current_term(2);
    storage.append_entries(&[
        LogEntry {
            term: 1,
            payload: "a".to_string(),
        },
        LogEntry {
            term: 1,
            payload: "b".to_string(),
        },
        LogEntry {
            term: 1,
            payload: "c".to_string(),
        },
    ]);
    let mut current_term = 2;
    let mut role = NodeState::Follower;
    let mut state_machine = InMemoryStateMachine::new();

    let entries = InMemoryLogEntryCollection::new(&[LogEntry {
        term: 2,
        payload: "b2".to_string(),
    }]);

    replication.handle_append_entries(
        2,
        1,
        1,
        entries,
        2,
        &mut current_term,
        &mut storage,
        &mut state_machine,
        &mut role,
    );

    // The log is now [{1,a},{2,b2}]: the conflicting tail is gone.
    assert_eq!(storage.last_log_index(), 2);
    let log = storage.get_entries(1, 3);
    assert_eq!(log[0].term, 1);
    assert_eq!(log[0].payload, "a");
    assert_eq!(log[1].term, 2);
    assert_eq!(log[1].payload, "b2");
}

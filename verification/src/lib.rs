// Core data model of the consensus protocol.
pub mod log_entry;
pub mod node_state;
pub mod payload;
pub mod raft_messages;
pub mod types;

// The ports the consensus core is written against.
pub mod log_entry_collection;
pub mod map_collection;
pub mod node_collection;
pub mod state_machine;
pub mod storage;
pub mod timer_service;
pub mod transport;

// The protocol itself, and its safety arguments.
pub mod election_manager;
pub mod log_replication_manager;
pub mod node;
pub mod safety;

// In-memory implementations of the ports, for hosted simulation.
pub mod in_memory_log_entry_collection;
pub mod in_memory_map_collection;
pub mod in_memory_node_collection;
pub mod in_memory_state_machine;
pub mod in_memory_storage;
pub mod in_memory_transport;
pub mod sim_node;
pub mod tick_timer;
pub mod vec_node_collection;

// The collaborators around the consensus core: a versioned key-value store
// and the map-reduce worker plumbing.
pub mod kv;
pub mod mapreduce;

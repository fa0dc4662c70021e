use raft_core::kv::fastrand_random::FastrandRandom;
use raft_core::mapreduce::grpc_completion_signaling::GrpcCompletionToken;
use raft_core::mapreduce::grpc_shutdown_signal::DummyShutdownSignal;
use raft_core::mapreduce::grpc_work_channel::GrpcWorkChannel;
use raft_core::mapreduce::mapper::{contains_target, map_logic};
use raft_core::mapreduce::mapper_factory::MapperFactory;
use raft_core::mapreduce::shutdown_signal::ShutdownSignal;
use raft_core::mapreduce::socket_completion_signaling::{
    encode_frame, CompletionMessage, CompletionSender,
};
use raft_core::mapreduce::socket_shutdown_signal::SocketShutdownSignal;

#[test]
fn test_contains_target_cases() {
    assert!(contains_target("abcdef", "cde"));
    assert!(contains_target("abcdef", ""));
    assert!(contains_target("abcdef", "abcdef"));
    assert!(!contains_target("abcdef", "cdx"));
    assert!(!contains_target("ab", "abc"));
    assert!(contains_target("aaab", "aab"));
}

#[test]
fn test_map_logic_counts_per_target() {
    let data = vec![
        "the cat sat".to_string(),
        "a cat and a dog".to_string(),
        "nothing here".to_string(),
    ];
    let targets = vec!["cat".to_string(), "dog".to_string(), "fish".to_string()];
    let counts = map_logic(&data, &targets);
    assert_eq!(
        counts,
        vec![
            ("cat".to_string(), 2),
            ("dog".to_string(), 1),
            ("fish".to_string(), 0),
        ]
    );
}

#[test]
fn test_map_logic_empty_chunk() {
    let data: Vec<String> = Vec::new();
    let targets = vec!["cat".to_string()];
    let counts = map_logic(&data, &targets);
    assert_eq!(counts, vec![("cat".to_string(), 0)]);
}

#[test]
fn test_encode_frame_prefixes_big_endian_length() {
    let payload = vec![7u8, 8, 9];
    let framed = encode_frame(&payload);
    assert_eq!(framed, vec![0u8, 0, 0, 3, 7, 8, 9]);

    let large = vec![0u8; 300];
    let framed_large = encode_frame(&large);
    assert_eq!(&framed_large[0..4], &[0u8, 0, 1, 44]);
    assert_eq!(framed_large.len(), 304);
}

#[test]
fn test_completion_sender_message_choice() {
    let sender = CompletionSender::new(9000, 4);
    assert_eq!(sender.message_for(Ok(6)), CompletionMessage::Success(6));
    assert_eq!(sender.message_for(Err(())), CompletionMessage::Failure(4));
}

#[test]
fn test_socket_shutdown_signal_round_trip() {
    let signal = SocketShutdownSignal::new();
    let clone = signal.clone();
    assert!(!signal.is_cancelled());
    assert!(!clone.is_cancelled());
    signal.shutdown();
    assert!(signal.is_cancelled());
    assert!(clone.is_cancelled(), "clones share the flag");
}

#[test]
fn test_dummy_shutdown_signal_never_cancels() {
    let signal = DummyShutdownSignal;
    assert!(!signal.is_cancelled());
}

#[test]
fn test_grpc_work_channel_keeps_address() {
    let channel: GrpcWorkChannel<String, u64> = GrpcWorkChannel::new("127.0.0.1:30001".to_string());
    assert_eq!(channel.worker_addr(), "127.0.0.1:30001");
}

#[test]
fn test_grpc_completion_token_fields() {
    let token = GrpcCompletionToken::new("127.0.0.1:4000".to_string(), 3);
    assert_eq!(token.server_addr, "127.0.0.1:4000");
    assert_eq!(token.worker_id, 3);
}

#[test]
fn test_mapper_factory_keeps_settings() {
    let factory: MapperFactory<(), u32, (), DummyShutdownSignal> =
        MapperFactory::new(5, DummyShutdownSignal, 10, 20, 300);
    // The factory only stores; the settings come back out through the
    // workers it creates, which live in the network drivers.
    let _ = factory;
}

#[test]
fn test_fastrand_random_stays_in_range() {
    let random = FastrandRandom::new();
    for _ in 0..100 {
        let u = random.usize(3..7);
        assert!((3..7).contains(&u));
        let w = random.u32(10..11);
        assert_eq!(w, 10);
    }
    // Either answer is fine; it just must not panic.
    let _ = random.bool();
}

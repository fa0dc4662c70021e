pub mod grpc_completion_signaling;
pub mod grpc_shutdown_signal;
pub mod grpc_work_channel;
pub mod mapper;
pub mod mapper_factory;
pub mod reducer;
pub mod rpc;
pub mod shutdown_signal;
pub mod socket_completion_signaling;
pub mod socket_shutdown_signal;
pub mod state_access;
pub mod work_channel;
pub mod work_sender;
pub mod worker_factory;
pub mod worker_message;

pub mod fastrand_random;
pub mod put_operation;
pub mod storage;
pub mod store;

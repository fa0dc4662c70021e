use vstd::prelude::*;

verus! {

/// Requests of the length-prefixed state protocol that workers speak with
/// the state server.
pub enum StateRequest {
    Initialize(Vec<String>),
    Update(String, i32),
    Replace(String, i32),
    Get(String),
}

/// Responses of the state protocol.
pub enum StateResponse {
    Done,
    Value(Vec<i32>),
    Error(String),
}

} // verus!

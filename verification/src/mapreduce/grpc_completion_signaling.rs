use vstd::prelude::*;

verus! {

/// The token handed to a remote worker so it can report completion back to
/// the coordinator: where to report, and as whom.
#[derive(Clone)]
pub struct GrpcCompletionToken {
    pub server_addr: String,
    pub worker_id: usize,
}

impl GrpcCompletionToken {
    pub fn new(server_addr: String, worker_id: usize) -> (r: Self)
        ensures
            r.server_addr@ == server_addr@,
            r.worker_id == worker_id,
    {
        GrpcCompletionToken { server_addr, worker_id }
    }
}

} // verus!

use vstd::prelude::*;
use core::marker::PhantomData;

verus! {

/// The coordinator's handle for sending work to one remote worker: it
/// remembers the worker's address; the actual connection and retries live
/// in the network driver.
pub struct GrpcWorkChannel<A, C> {
    worker_addr: String,
    _phantom: PhantomData<(A, C)>,
}

impl<A, C> GrpcWorkChannel<A, C> {
    pub closed spec fn spec_worker_addr(&self) -> Seq<char> {
        self.worker_addr@
    }

    pub fn new(worker_addr: String) -> (r: Self)
        ensures
            r.spec_worker_addr() == worker_addr@,
    {
        GrpcWorkChannel { worker_addr, _phantom: PhantomData }
    }

    pub fn worker_addr(&self) -> (r: &String)
        ensures
            r@ == self.spec_worker_addr(),
    {
        &self.worker_addr
    }
}

} // verus!

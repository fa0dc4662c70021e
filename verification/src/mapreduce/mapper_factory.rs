use vstd::prelude::*;
use core::marker::PhantomData;

verus! {

/// Builds the mappers of a remote-call deployment: each worker gets the
/// shared state handle, the shutdown signal, and the fault-injection
/// settings (failure probability, straggler probability and delay) that
/// the whole run was configured with.
pub struct MapperFactory<P, S, R, SD> {
    state: S,
    shutdown: SD,
    failure_prob: u32,
    straggler_prob: u32,
    straggler_delay: u64,
    _phantom: PhantomData<(P, R)>,
}

impl<P, S, R, SD> MapperFactory<P, S, R, SD> {
    pub closed spec fn spec_state(&self) -> S {
        self.state
    }

    pub closed spec fn spec_shutdown(&self) -> SD {
        self.shutdown
    }

    pub closed spec fn spec_failure_prob(&self) -> u32 {
        self.failure_prob
    }

    pub closed spec fn spec_straggler_prob(&self) -> u32 {
        self.straggler_prob
    }

    pub closed spec fn spec_straggler_delay(&self) -> u64 {
        self.straggler_delay
    }

    pub fn new(
        state: S,
        shutdown: SD,
        failure_prob: u32,
        straggler_prob: u32,
        straggler_delay: u64,
    ) -> (r: Self)
        ensures
            r.spec_state() == state,
            r.spec_shutdown() == shutdown,
            r.spec_failure_prob() == failure_prob,
            r.spec_straggler_prob() == straggler_prob,
            r.spec_straggler_delay() == straggler_delay,
    {
        MapperFactory { state, shutdown, failure_prob, straggler_prob, straggler_delay, _phantom: PhantomData }
    }
}

} // verus!

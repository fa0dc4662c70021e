use vstd::prelude::*;
use crate::mapreduce::shutdown_signal::ShutdownSignal;

verus! {

/// A shutdown signal for workers that run in their own process and are
/// stopped by killing the process: it never reports cancellation.
#[derive(Clone)]
pub struct DummyShutdownSignal;

impl ShutdownSignal for DummyShutdownSignal {
    fn is_cancelled(&self) -> (r: bool)
        ensures
            !r,
    {
        false
    }
}

} // verus!

use vstd::prelude::*;

verus! {

/// Cooperative shutdown: workers poll this between work items.
pub trait ShutdownSignal: Sized + Clone + Send + 'static {
    fn is_cancelled(&self) -> bool;
}

} // verus!

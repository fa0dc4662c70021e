use vstd::prelude::*;

verus! {

/// Distribution of work to workers; implementations exist for in-process
/// channels, sockets, and remote calls.
pub trait WorkDistributor<A, C>: Sized + Clone + Send + 'static {
    /// Sends one assignment together with its completion token.
    fn send_work(&self, assignment: A, completion: C);
}

} // verus!

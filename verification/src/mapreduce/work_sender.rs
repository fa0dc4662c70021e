use vstd::prelude::*;

verus! {

/// A work channel that is first handed its synchronization sender and then
/// carries assignments, each with a completion sender.
pub trait WorkSender<A, C>: Sized + Clone + Send + 'static {
    fn initialize(&self, sender: C);

    fn send_work(&self, assignment: A, completion: C);
}

} // verus!

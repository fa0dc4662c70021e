use vstd::prelude::*;

verus! {

/// Creation of workers by identifier, so that a phase executor can spawn
/// and replace them.
pub trait WorkerFactory<W>: Sized + Send {
    fn create_worker(&mut self, id: usize) -> W;
}

} // verus!

use vstd::prelude::*;

verus! {

/// Messages received by workers over a work channel: either the
/// initialization handshake carrying the synchronization sender, or one
/// work assignment with its completion token.
pub enum WorkerMessage<A, C> {
    Initialize(C),
    Work(A, C),
}

} // verus!

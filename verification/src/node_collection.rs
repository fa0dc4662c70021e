use vstd::prelude::*;
use crate::types::NodeId;

verus! {

/// Failure of a bounded collection: the configured capacity is exhausted.
/// Fatal at configuration time; the core never silently truncates peer lists.
#[derive(Debug, Clone, Copy, PartialEq, Eq, Structural)]
pub enum CollectionError {
    Full,
}

/// An insertion-ordered list of node identifiers with a possibly bounded
/// capacity. `nodes()` is the abstract contents, in insertion order.
pub trait NodeCollection: Sized {
    spec fn nodes(&self) -> Seq<NodeId>;

    fn new() -> (r: Self)
        ensures
            r.nodes() == Seq::<NodeId>::empty(),
    ;

    fn clear(&mut self)
        ensures
            final(self).nodes() == Seq::<NodeId>::empty(),
    ;

    /// Appends `id`; fails with `Full` (leaving the contents unchanged)
    /// only when the capacity bound is reached.
    fn push(&mut self, id: NodeId) -> (r: Result<(), CollectionError>)
        ensures
            match r {
                Ok(()) => final(self).nodes() == old(self).nodes().push(id),
                Err(CollectionError::Full) => final(self).nodes() == old(self).nodes(),
            },
    ;

    fn len(&self) -> (n: usize)
        ensures
            n == self.nodes().len(),
    ;

    fn get(&self, i: usize) -> (id: NodeId)
        requires
            i < self.nodes().len(),
        ensures
            id == self.nodes()[i as int],
    ;

    fn is_empty(&self) -> (r: bool)
        ensures
            r == (self.nodes().len() == 0),
    ;
}

} // verus!

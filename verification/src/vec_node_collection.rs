use vstd::prelude::*;
use crate::node_collection::{CollectionError, NodeCollection};
use crate::types::NodeId;

verus! {

/// A vector-backed peer list, the unbounded counterpart of an embedded
/// fixed-capacity collection; `push` never reports `Full`.
pub struct VecNodeCollection {
    nodes: Vec<NodeId>,
}

impl VecNodeCollection {
    pub fn new() -> (r: Self)
        ensures
            r.nodes() == Seq::<NodeId>::empty(),
    {
        let r = VecNodeCollection { nodes: Vec::new() };
        proof {
            assert(r.nodes@ =~= Seq::<NodeId>::empty());
        }
        r
    }
}

impl Default for VecNodeCollection {
    fn default() -> (r: Self)
        ensures
            r.nodes() == Seq::<NodeId>::empty(),
    {
        VecNodeCollection::new()
    }
}

impl NodeCollection for VecNodeCollection {
    closed spec fn nodes(&self) -> Seq<NodeId> {
        self.nodes@
    }

    fn new() -> (r: Self)
    {
        VecNodeCollection::new()
    }

    fn clear(&mut self)
    {
        self.nodes.clear();
    }

    fn push(&mut self, id: NodeId) -> (r: Result<(), CollectionError>)
        ensures
            r is Ok,
    {
        self.nodes.push(id);
        Ok(())
    }

    fn len(&self) -> (n: usize)
    {
        self.nodes.len()
    }

    fn get(&self, i: usize) -> (id: NodeId)
    {
        self.nodes[i]
    }

    fn is_empty(&self) -> (r: bool)
    {
        self.nodes.len() == 0
    }
}

} // verus!

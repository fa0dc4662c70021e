use vstd::prelude::*;
use crate::node_collection::{CollectionError, NodeCollection};
use crate::types::NodeId;

verus! {

/// An unbounded peer list for hosted simulation; `push` never reports
/// `Full`.
pub struct InMemoryNodeCollection {
    nodes: Vec<NodeId>,
}

impl NodeCollection for InMemoryNodeCollection {
    closed spec fn nodes(&self) -> Seq<NodeId> {
        self.nodes@
    }

    fn new() -> (r: Self)
    {
        let r = InMemoryNodeCollection { nodes: Vec::new() };
        proof {
            assert(r.nodes@ =~= Seq::<NodeId>::empty());
        }
        r
    }

    fn clear(&mut self)
    {
        self.nodes.clear();
    }

    fn push(&mut self, id: NodeId) -> (r: Result<(), CollectionError>)
        ensures
            r is Ok,
    {
        self.nodes.push(id);
        Ok(())
    }

    fn len(&self) -> (n: usize)
    {
        self.nodes.len()
    }

    fn get(&self, i: usize) -> (id: NodeId)
    {
        self.nodes[i]
    }

    fn is_empty(&self) -> (r: bool)
    {
        self.nodes.len() == 0
    }
}

} // verus!

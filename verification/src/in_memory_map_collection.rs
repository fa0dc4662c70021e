use vstd::prelude::*;
use vstd::pervasive::VecAdditionalExecFns;
use crate::map_collection::{
    assoc_get, assoc_put, lemma_assoc_get_absent, lemma_assoc_get_at, lemma_assoc_put_is_push,
    lemma_assoc_put_is_update, MapCollection,
};
use crate::types::NodeId;

verus! {

/// An association-vector map for hosted simulation: keys in insertion
/// order, each key at most once by construction of `insert`.
pub struct InMemoryMapCollection {
    items: Vec<(NodeId, u64)>,
}

impl InMemoryMapCollection {
    /// Position of the first occurrence of `key`, if any.
    fn find(&self, key: NodeId) -> (r: Option<usize>)
        ensures
            match r {
                Some(i) => i < self.items@.len() && self.items@[i as int].0 == key
                    && forall|j: int| 0 <= j < i ==> (#[trigger] self.items@[j]).0 != key,
                None => forall|j: int|
                    0 <= j < self.items@.len() ==> (#[trigger] self.items@[j]).0 != key,
            },
    {
        let n = self.items.len();
        let mut i: usize = 0;
        while i < n
            invariant
                n == self.items@.len(),
                i <= n,
                forall|j: int| 0 <= j < i ==> (#[trigger] self.items@[j]).0 != key,
            decreases n - i,
        {
            if self.items[i].0 == key {
                return Some(i);
            }
            i = i + 1;
        }
        None
    }
}

impl MapCollection for InMemoryMapCollection {
    closed spec fn entries(&self) -> Seq<(NodeId, u64)> {
        self.items@
    }

    fn new() -> (r: Self)
    {
        let r = InMemoryMapCollection { items: Vec::new() };
        proof {
            assert(r.items@ =~= Seq::<(NodeId, u64)>::empty());
        }
        r
    }

    fn get(&self, key: NodeId) -> (r: Option<u64>)
    {
        match self.find(key) {
            Some(i) => {
                proof {
                    lemma_assoc_get_at(self.items@, key, i as int);
                }
                Some(self.items[i].1)
            },
            None => {
                proof {
                    lemma_assoc_get_absent(self.items@, key);
                }
                None
            },
        }
    }

    fn insert(&mut self, key: NodeId, value: u64)
    {
        match self.find(key) {
            Some(i) => {
                proof {
                    lemma_assoc_put_is_update(self.items@, key, value, i as int);
                }
                self.items.set(i, (key, value));
            },
            None => {
                proof {
                    lemma_assoc_put_is_push(self.items@, key, value);
                }
                self.items.push((key, value));
            },
        }
    }

    fn len(&self) -> (n: usize)
    {
        self.items.len()
    }

    fn entry_at(&self, i: usize) -> (r: (NodeId, u64))
    {
        self.items[i]
    }

    fn clear(&mut self)
    {
        self.items.clear();
        proof {
            assert(self.items@ =~= Seq::<(NodeId, u64)>::empty());
        }
    }
}

} // verus!

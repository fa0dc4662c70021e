use vstd::prelude::*;
use crate::log_entry::{term_at_spec, LogEntry};
use crate::payload::Payload;
use crate::storage::Storage;
use crate::types::{LogIndex, NodeId, Term};

verus! {

/// Volatile storage for hosted simulation. It keeps the persistent fields
/// of a node in plain memory; durability is the simulation's concern, the
/// field semantics are exactly those of the `Storage` contract.
pub struct InMemoryStorage<P> {
    current_term: Term,
    voted_for: Option<NodeId>,
    log: Vec<LogEntry<P>>,
}

impl<P: Payload> InMemoryStorage<P> {
    pub fn new() -> (r: Self)
        ensures
            r.spec_current_term() == 0,
            r.spec_voted_for() is None,
            r.log() == Seq::<LogEntry<P>>::empty(),
    {
        let r = InMemoryStorage { current_term: 0, voted_for: None, log: Vec::new() };
        proof {
            assert(r.log@ =~= Seq::<LogEntry<P>>::empty());
        }
        r
    }
}

impl<P: Payload> Storage for InMemoryStorage<P> {
    type Payload = P;

    closed spec fn spec_current_term(&self) -> Term {
        self.current_term
    }

    closed spec fn spec_voted_for(&self) -> Option<NodeId> {
        self.voted_for
    }

    closed spec fn log(&self) -> Seq<LogEntry<P>> {
        self.log@
    }

    fn current_term(&self) -> (t: Term)
    {
        self.current_term
    }

    fn set_current_term(&mut self, t: Term)
    {
        self.current_term = t;
    }

    fn voted_for(&self) -> (v: Option<NodeId>)
    {
        self.voted_for
    }

    fn set_voted_for(&mut self, v: Option<NodeId>)
    {
        self.voted_for = v;
    }

    fn append_entries(&mut self, entries: &[LogEntry<P>])
    {
        let n = entries.len();
        let mut i: usize = 0;
        while i < n
            invariant
                n == entries@.len(),
                i <= n,
                self.log@ == old(self).log@ + entries@.take(i as int),
                self.current_term == old(self).current_term,
                self.voted_for == old(self).voted_for,
            decreases n - i,
        {
            self.log.push(entries[i].duplicate());
            proof {
                assert(old(self).log@ + entries@.take(i + 1) =~= (old(self).log@
                    + entries@.take(i as int)).push(entries@[i as int]));
            }
            i = i + 1;
        }
        proof {
            assert(old(self).log@ + entries@.take(n as int) =~= old(self).log@ + entries@);
        }
    }

    fn truncate_from(&mut self, index: LogIndex)
    {
        let keep = (index - 1) as usize;
        self.log.truncate(keep);
        proof {
            assert(self.log@ =~= old(self).log@.take(index - 1));
        }
    }

    fn get_entries(&self, from: LogIndex, to_exclusive: LogIndex) -> (r: Vec<LogEntry<P>>)
    {
        let n = self.log.len();
        let lo = (from - 1) as usize;
        let hi = (to_exclusive - 1) as usize;
        let mut out: Vec<LogEntry<P>> = Vec::new();
        let mut i: usize = lo;
        while i < hi
            invariant
                lo <= i <= hi,
                hi <= self.log@.len(),
                lo == from - 1,
                hi == to_exclusive - 1,
                out@ == self.log@.subrange(lo as int, i as int),
            decreases hi - i,
        {
            out.push(self.log[i].duplicate());
            proof {
                assert(self.log@.subrange(lo as int, i + 1) =~= self.log@.subrange(
                    lo as int,
                    i as int,
                ).push(self.log@[i as int]));
            }
            i = i + 1;
        }
        out
    }

    fn term_at(&self, index: LogIndex) -> (t: Term)
    {
        let n = self.log.len();
        if index >= 1 && index <= n as u64 {
            self.log[(index - 1) as usize].term
        } else {
            0
        }
    }

    fn last_log_index(&self) -> (i: LogIndex)
    {
        self.log.len() as u64
    }

    fn last_log_term(&self) -> (t: Term)
    {
        let n = self.log.len();
        if n == 0 {
            0
        } else {
            self.log[n - 1].term
        }
    }
}

} // verus!

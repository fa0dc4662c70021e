use vstd::prelude::*;
use crate::log_entry::{term_at_spec, LogEntry};
use crate::types::{LogIndex, NodeId, Term};

verus! {

/// Persistent state of a node: current term, vote, and the replicated log.
/// Every mutation is durable before the caller sends a response that
/// depends on it. The three abstract fields are the whole contract; each
/// mutator says exactly which of them it changes.
pub trait Storage: Sized {
    type Payload;

    spec fn spec_current_term(&self) -> Term;

    spec fn spec_voted_for(&self) -> Option<NodeId>;

    spec fn log(&self) -> Seq<LogEntry<Self::Payload>>;

    fn current_term(&self) -> (t: Term)
        ensures
            t == self.spec_current_term(),
    ;

    fn set_current_term(&mut self, t: Term)
        ensures
            final(self).spec_current_term() == t,
            final(self).spec_voted_for() == old(self).spec_voted_for(),
            final(self).log() == old(self).log(),
    ;

    fn voted_for(&self) -> (v: Option<NodeId>)
        ensures
            v == self.spec_voted_for(),
    ;

    fn set_voted_for(&mut self, v: Option<NodeId>)
        ensures
            final(self).spec_current_term() == old(self).spec_current_term(),
            final(self).spec_voted_for() == v,
            final(self).log() == old(self).log(),
    ;

    fn append_entries(&mut self, entries: &[LogEntry<Self::Payload>])
        requires
            old(self).log().len() + entries@.len() <= LogIndex::MAX,
        ensures
            final(self).spec_current_term() == old(self).spec_current_term(),
            final(self).spec_voted_for() == old(self).spec_voted_for(),
            final(self).log() == old(self).log() + entries@,
    ;

    /// Deletes the entry at one-based position `index` and everything
    /// after it.
    fn truncate_from(&mut self, index: LogIndex)
        requires
            1 <= index <= old(self).log().len() + 1,
        ensures
            final(self).spec_current_term() == old(self).spec_current_term(),
            final(self).spec_voted_for() == old(self).spec_voted_for(),
            final(self).log() == old(self).log().take(index - 1),
    ;

    /// Entries at one-based positions `from .. to_exclusive`.
    fn get_entries(&self, from: LogIndex, to_exclusive: LogIndex) -> (r: Vec<
        LogEntry<Self::Payload>,
    >)
        requires
            1 <= from <= to_exclusive,
            to_exclusive <= self.log().len() + 1,
        ensures
            r@ == self.log().subrange(from - 1, to_exclusive - 1),
    ;

    fn term_at(&self, index: LogIndex) -> (t: Term)
        ensures
            t == term_at_spec(self.log(), index),
    ;

    fn last_log_index(&self) -> (i: LogIndex)
        ensures
            i == self.log().len(),
    ;

    fn last_log_term(&self) -> (t: Term)
        ensures
            t == term_at_spec(self.log(), self.log().len() as LogIndex),
    ;
}

} // verus!

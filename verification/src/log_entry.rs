use vstd::prelude::*;
use crate::payload::Payload;
use crate::types::{LogIndex, Term};

verus! {

/// One replicated log entry: the term in which a leader created it, and the
/// command it carries. Immutable once appended.
pub struct LogEntry<P> {
    pub term: Term,
    pub payload: P,
}

impl<P: Payload> LogEntry<P> {
    pub fn duplicate(&self) -> (r: Self)
        ensures
            r == self,
    {
        LogEntry { term: self.term, payload: self.payload.duplicate() }
    }
}

/// The term recorded at a one-based log position; `0` for position `0`
/// (the sentinel before the log) and for positions past the end.
pub open spec fn term_at_spec<P>(log: Seq<LogEntry<P>>, index: LogIndex) -> Term {
    if 1 <= index && index <= log.len() {
        log[index - 1].term
    } else {
        0
    }
}

/// The commands of a run of entries, in log order.
pub open spec fn payloads_of<P>(entries: Seq<LogEntry<P>>) -> Seq<P> {
    entries.map_values(|e: LogEntry<P>| e.payload)
}

} // verus!

use vstd::prelude::*;
use crate::log_entry::LogEntry;

verus! {

/// An ordered batch of log entries, used as the wire payload of
/// `AppendEntries`. Preserves order and terms.
pub trait LogEntryCollection: Sized {
    type Payload;

    spec fn entries(&self) -> Seq<LogEntry<Self::Payload>>;

    fn from_vec(entries: Vec<LogEntry<Self::Payload>>) -> (r: Self)
        ensures
            r.entries() == entries@,
    ;

    fn len(&self) -> (n: usize)
        ensures
            n == self.entries().len(),
    ;

    fn get(&self, i: usize) -> (e: &LogEntry<Self::Payload>)
        requires
            i < self.entries().len(),
        ensures
            *e == self.entries()[i as int],
    ;

    fn is_empty(&self) -> (r: bool)
        ensures
            r == (self.entries().len() == 0),
    ;
}

} // verus!

use vstd::prelude::*;
use crate::log_entry::LogEntry;
use crate::log_entry_collection::LogEntryCollection;
use crate::payload::Payload;

verus! {

/// A wire batch of log entries for hosted simulation, built by copying a
/// slice.
pub struct InMemoryLogEntryCollection {
    entries: Vec<LogEntry<String>>,
}

impl InMemoryLogEntryCollection {
    pub fn new(entries: &[LogEntry<String>]) -> (r: Self)
        ensures
            r.entries() == entries@,
    {
        let mut copied: Vec<LogEntry<String>> = Vec::new();
        let n = entries.len();
        let mut i: usize = 0;
        while i < n
            invariant
                n == entries@.len(),
                i <= n,
                copied@ == entries@.take(i as int),
            decreases n - i,
        {
            copied.push(entries[i].duplicate());
            proof {
                assert(copied@ =~= entries@.take(i + 1));
            }
            i = i + 1;
        }
        proof {
            assert(entries@.take(n as int) =~= entries@);
        }
        InMemoryLogEntryCollection { entries: copied }
    }
}

impl LogEntryCollection for InMemoryLogEntryCollection {
    type Payload = String;

    closed spec fn entries(&self) -> Seq<LogEntry<String>> {
        self.entries@
    }

    fn from_vec(entries: Vec<LogEntry<String>>) -> (r: Self)
    {
        InMemoryLogEntryCollection { entries }
    }

    fn len(&self) -> (n: usize)
    {
        self.entries.len()
    }

    fn get(&self, i: usize) -> (e: &LogEntry<String>)
    {
        &self.entries[i]
    }

    fn is_empty(&self) -> (r: bool)
    {
        self.entries.len() == 0
    }
}

} // verus!

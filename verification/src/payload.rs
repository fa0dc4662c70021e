use vstd::prelude::*;

verus! {

/// A log entry's command, opaque to consensus: the state machine interprets
/// it. Consensus replicates payloads, so it must be able to copy one into
/// storage and into outgoing messages without changing it; `duplicate`
/// promises exactly that.
pub trait Payload: Sized {
    fn duplicate(&self) -> (r: Self)
        ensures
            r == self,
    ;
}

impl Payload for String {
    fn duplicate(&self) -> (r: String)
        ensures
            r == self,
    {
        self.clone()
    }
}

impl Payload for u64 {
    fn duplicate(&self) -> (r: u64)
        ensures
            r == self,
    {
        *self
    }
}

} // verus!

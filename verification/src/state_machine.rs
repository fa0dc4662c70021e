use vstd::prelude::*;

verus! {

/// The replicated state machine. Consensus hands it committed payloads in
/// strict log order; `applied()` is the sequence of payloads applied so far.
pub trait StateMachine: Sized {
    type Payload;

    spec fn applied(&self) -> Seq<Self::Payload>;

    fn apply(&mut self, entry: &Self::Payload)
        ensures
            final(self).applied() == old(self).applied().push(*entry),
    ;
}

} // verus!

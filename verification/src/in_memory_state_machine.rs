use vstd::prelude::*;
use crate::state_machine::StateMachine;

verus! {

/// A state machine for hosted simulation: keeps every applied command, in
/// application order.
pub struct InMemoryStateMachine {
    pub state: Vec<String>,
}

impl InMemoryStateMachine {
    pub fn new() -> (r: Self)
        ensures
            r.applied() == Seq::<String>::empty(),
    {
        InMemoryStateMachine { state: Vec::new() }
    }
}

impl Default for InMemoryStateMachine {
    fn default() -> (r: Self)
        ensures
            r.applied() == Seq::<String>::empty(),
    {
        InMemoryStateMachine::new()
    }
}

impl StateMachine for InMemoryStateMachine {
    type Payload = String;

    open spec fn applied(&self) -> Seq<String> {
        self.state@
    }

    fn apply(&mut self, entry: &String)
    {
        self.state.push(entry.clone());
    }
}

} // verus!

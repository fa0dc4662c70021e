use vstd::prelude::*;

verus! {

/// Shared state among workers, behind some storage mechanism (local memory,
/// a state server, a remote service). Mutation goes through a shared
/// reference because implementations synchronize internally; what a call
/// does to the shared store is therefore the implementation's contract with
/// its driver, not one the type system can see.
pub trait StateAccess: Sized + Clone + Send + Sync + 'static {
    /// Creates every key with an empty value list.
    fn initialize(&self, keys: Vec<String>);

    /// Appends `value` under `key` (the mappers' operation).
    fn update(&self, key: String, value: i32);

    /// Replaces the whole value of `key` (the reducers' operation).
    fn replace(&self, key: String, value: i32);

    /// All values recorded under `key`.
    fn get(&self, key: &str) -> Vec<i32>;
}

} // verus!

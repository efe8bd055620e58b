use vstd::prelude::*;

verus! {

/// What a rule decides to do with one stored record.
#[derive(Debug, Clone)]
pub enum StoreAction<T> {
    /// Store a new record.
    Insert(T),
    /// Overwrite an existing record.
    Update(T),
    /// Delete an existing record.
    Remove(T),
    /// Leave the store as it is.
    Nothing,
}

} // verus!

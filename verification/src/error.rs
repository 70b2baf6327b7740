use vstd::prelude::*;

verus! {

/// A recoverable store failure, carrying the 128-bit id of the task involved.
#[derive(Debug, Clone, Copy, PartialEq, Eq, Structural)]
pub enum DatabaseError {
    /// The operation referenced a task id absent from the store.
    TaskNotFound(u128),
    /// An insertion was attempted with an id the store already holds.
    UuidAlreadyExists(u128),
}

/// The error type the store's operations return.
#[derive(Debug, Clone, Copy, PartialEq, Eq, Structural)]
pub enum ToNotDoError {
    DatabaseError(DatabaseError),
}

} // verus!

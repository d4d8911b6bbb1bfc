use crate::ent::{Ent, Id};
use vstd::prelude::*;

verus! {

/// A failure of a storage backend. Absence is no failure: a missing record
/// is `None` from `get` and `false` from `remove`.
#[derive(Clone, Debug, PartialEq, Eq)]
pub enum DatabaseError {
    /// The backend could not read or write its storage.
    Io(String),
    /// Stored data did not decode into a record.
    Corrupted(String),
    /// A record could not be encoded for storage.
    Encoding(String),
}

pub type DatabaseResult<T> = Result<T, DatabaseError>;

/// A filter that a backend evaluates over its records.
#[derive(Clone, Debug, PartialEq, Eq)]
pub enum Query {
    /// Every record.
    All,
    /// The records whose identity is listed.
    Ids(Vec<Id>),
}

/// What every storage backend offers. Records go in and come out as
/// independent copies: a change to a copy shows in the store only after it
/// is inserted again.
pub trait Database: Send + Sync {
    /// The record with this identity, or `None` where there is none.
    fn get(&self, id: Id) -> DatabaseResult<Option<Box<dyn Ent>>>;

    /// The records with these identities; an unknown identity is left out.
    fn get_all(&self, ids: Vec<Id>) -> DatabaseResult<Vec<Box<dyn Ent>>>;

    /// Stores the record, giving it a fresh identity where it has none, and
    /// returns the identity it is kept under.
    fn insert(&self, ent: Box<dyn Ent>) -> DatabaseResult<Id>;

    /// Removes the record with this identity; `true` iff there was one.
    fn remove(&self, id: Id) -> DatabaseResult<bool>;

    /// The records that the query selects.
    fn find_all(&self, query: Query) -> DatabaseResult<Vec<Box<dyn Ent>>>;
}

/// The strong handle that keeps a boxed database alive.
pub type DatabaseRc = std::sync::Arc<Box<dyn Database>>;

} // verus!

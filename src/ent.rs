use crate::global::WeakDatabaseRc;
use vstd::prelude::*;

verus! {

/// Identity of an entity within one database.
pub type Id = u64;

/// What every record type kept in a database offers: its identity, its two
/// timestamps, and a weak link to the database that owns it.
///
/// Only a database calls the setters, when it inserts the record.
pub trait Ent {
    fn id(&self) -> Id;

    fn set_id(&mut self, id: Id);

    fn database(&self) -> WeakDatabaseRc;

    fn set_database(&mut self, database: WeakDatabaseRc);

    fn created(&self) -> u64;

    fn set_created(&mut self, timestamp: u64);

    fn last_updated(&self) -> u64;

    fn set_last_updated(&mut self, timestamp: u64);
}

} // verus!

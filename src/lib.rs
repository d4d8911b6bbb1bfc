//! Entities kept in pluggable storage backends, the registry that owns the
//! current backend, and the normalizer that gives entity shapes their
//! bookkeeping fields.

pub mod database;
pub mod ent;
pub mod global;
pub mod record;
pub mod schema;

pub use database::{Database, DatabaseError, DatabaseRc, DatabaseResult, Query};
pub use ent::{Ent, Id};
pub use global::{
    db, destroy_db, has_db, set_db, set_db_from_box, set_db_from_rc, Registry, RegistryCall,
    RegistryModel, WeakDatabaseRc,
};
pub use record::{ConstructError, EntRecord, FieldValue};
pub use schema::{simple_ent, Capability, EntShape, FieldDecl, FieldNames, FieldType, Role, SchemaError};

//! Loading a schema from a database catalog.

pub mod postgresql;

use crate::schema::Schema;
use vstd::prelude::*;

verus! {

/// Why a schema could not be loaded.
#[derive(Debug, Clone, PartialEq, Eq)]
pub enum LoadError {
    /// The connection could not be established or authenticated.
    Connection(String),
    /// One of the introspection queries failed.
    Query(String),
    /// A result row lacks the named column.
    FieldDecode(String),
}

/// Interface for loading a database schema.
pub trait Loader {
    /// Loads the schema from the database.
    fn load(&self) -> Result<Schema, LoadError>;
}

} // verus!

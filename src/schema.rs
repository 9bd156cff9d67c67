//! Core entities shared by loaders and drawers.

use vstd::prelude::*;

verus! {

/// Name of a table.
pub type TableName = String;

/// Name of a field (column).
pub type FieldName = String;

/// Declared data type of a field.
pub type FieldType = String;

/// All the schema information.
#[derive(Debug, Clone, PartialEq, Eq)]
pub struct Schema {
    /// List of tables in the database.
    pub tables: Vec<Table>,
    /// List of relations in the database.
    pub relations: Vec<Relation>,
}

/// Table information.
#[derive(Debug, Clone, PartialEq, Eq)]
pub struct Table {
    /// Table name.
    pub name: TableName,
    /// List of fields, in the order the columns were listed.
    pub fields: Vec<Field>,
}

/// Column description: its name and its type.
#[derive(Debug, Clone, PartialEq, Eq)]
pub struct Field(pub FieldName, pub FieldType);

/// Foreign-key edge from `on_table.on_field` to `to_table.to_field`.
#[derive(Debug, Clone, PartialEq, Eq)]
pub struct Relation {
    /// Table that holds the constrained column.
    pub on_table: TableName,
    /// The constrained column.
    pub on_field: FieldName,
    /// Table which the foreign key references.
    pub to_table: TableName,
    /// Column which the foreign key references.
    pub to_field: FieldName,
}

} // verus!

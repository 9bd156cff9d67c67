//! Renders a schema as a sectioned plain-text report.

use crate::drawer::Drawer;
use crate::schema::{Field, Relation, Schema, Table};
use vstd::prelude::*;
use vstd::string::*;

verus! {

/// Plain-text drawer.
pub struct PlainText;

/// One `name: type` line.
pub open spec fn field_line(field_name: Seq<char>, field_type: Seq<char>) -> Seq<char> {
    field_name + ": "@ + field_type + "\n"@
}

/// The lines of all fields, in order.
pub open spec fn fields_text(fields: Seq<Field>) -> Seq<char>
    decreases fields.len(),
{
    if fields.len() == 0 {
        Seq::empty()
    } else {
        fields_text(fields.drop_last()) + field_line(fields.last().0@, fields.last().1@)
    }
}

/// A table's bracketed name, its field lines and a blank line.
pub open spec fn table_text(table: Table) -> Seq<char> {
    "["@ + table.name@ + "]\n"@ + fields_text(table.fields@) + "\n"@
}

/// Every table's block, in order.
pub open spec fn tables_text(tables: Seq<Table>) -> Seq<char>
    decreases tables.len(),
{
    if tables.len() == 0 {
        Seq::empty()
    } else {
        tables_text(tables.drop_last()) + table_text(tables.last())
    }
}

/// A relation's line. The source side is printed on both ends of the arrow.
pub open spec fn relation_text(r: Relation) -> Seq<char> {
    r.on_table@ + ":"@ + r.on_field@ + " -> "@ + r.on_table@ + ":"@ + r.on_field@ + "\n"@
}

/// Every relation's line, each followed by a blank line.
pub open spec fn relations_text(relations: Seq<Relation>) -> Seq<char>
    decreases relations.len(),
{
    if relations.len() == 0 {
        Seq::empty()
    } else {
        relations_text(relations.drop_last()) + relation_text(relations.last()) + "\n"@
    }
}

/// The whole report of a schema.
pub open spec fn text_document(schema: &Schema) -> Seq<char> {
    "=== Tables ===\n"@ + tables_text(schema.tables@) + "=== Relations ===\n"@
        + relations_text(schema.relations@) + "=== Done ===\n"@
}

impl Drawer for PlainText {
    open spec fn document(&self, schema: &Schema) -> Seq<char> {
        text_document(schema)
    }

    fn write(&self, schema: &Schema, buffer: &mut String) {
        let ghost start = buffer@;
        buffer.append("=== Tables ===\n");
        let tables = &schema.tables;
        let mut i: usize = 0;
        while i < tables.len()
            invariant
                i <= tables@.len(),
                buffer@ == start + "=== Tables ===\n"@ + tables_text(tables@.take(i as int)),
            decreases tables@.len() - i,
        {
            write_table(&tables[i], buffer);
            assert(tables@.take(i + 1).drop_last() =~= tables@.take(i as int));
            i = i + 1;
        }
        assert(tables@.take(i as int) =~= tables@);
        buffer.append("=== Relations ===\n");
        let ghost mid = buffer@;
        let relations = &schema.relations;
        let mut j: usize = 0;
        while j < relations.len()
            invariant
                j <= relations@.len(),
                buffer@ == mid + relations_text(relations@.take(j as int)),
            decreases relations@.len() - j,
        {
            write_relation(&relations[j], buffer);
            buffer.append("\n");
            assert(relations@.take(j + 1).drop_last() =~= relations@.take(j as int));
            j = j + 1;
        }
        assert(relations@.take(j as int) =~= relations@);
        buffer.append("=== Done ===\n");
        assert(buffer@ =~= start + text_document(schema));
    }
}

/// Appends the block of `table` to `buffer`.
pub fn write_table(table: &Table, buffer: &mut String)
    ensures
        final(buffer)@ == old(buffer)@ + table_text(*table),
{
    let ghost start = buffer@;
    buffer.append("[");
    buffer.append(table.name.as_str());
    buffer.append("]\n");
    let fields = &table.fields;
    let mut i: usize = 0;
    while i < fields.len()
        invariant
            i <= fields@.len(),
            buffer@ == start + "["@ + table.name@ + "]\n"@ + fields_text(fields@.take(i as int)),
        decreases fields@.len() - i,
    {
        let Field(field_name, field_type) = &fields[i];
        buffer.append(field_name.as_str());
        buffer.append(": ");
        buffer.append(field_type.as_str());
        buffer.append("\n");
        assert(fields@.take(i + 1).drop_last() =~= fields@.take(i as int));
        i = i + 1;
    }
    assert(fields@.take(i as int) =~= fields@);
    buffer.append("\n");
    assert(buffer@ =~= start + table_text(*table));
}

/// Appends the line of `relation` to `buffer`.
pub fn write_relation(relation: &Relation, buffer: &mut String)
    ensures
        final(buffer)@ == old(buffer)@ + relation_text(*relation),
{
    let ghost start = buffer@;
    buffer.append(relation.on_table.as_str());
    buffer.append(":");
    buffer.append(relation.on_field.as_str());
    buffer.append(" -> ");
    buffer.append(relation.on_table.as_str());
    buffer.append(":");
    buffer.append(relation.on_field.as_str());
    buffer.append("\n");
    assert(buffer@ =~= start + relation_text(*relation));
}

/// A schema with no tables and no relations renders to the three section
/// headings with empty bodies.
pub proof fn lemma_empty_schema_text(schema: &Schema)
    requires
        schema.tables@.len() == 0,
        schema.relations@.len() == 0,
    ensures
        text_document(schema) == "=== Tables ===\n"@ + "=== Relations ===\n"@ + "=== Done ===\n"@,
{
    assert(text_document(schema) =~= "=== Tables ===\n"@ + "=== Relations ===\n"@
        + "=== Done ===\n"@);
}

} // verus!

//! Renders a schema as a Graphviz `digraph` description.

use crate::drawer::Drawer;
use crate::schema::{Field, Relation, Schema, Table};
use vstd::prelude::*;
use vstd::string::*;

verus! {

/// Graphviz drawer.
pub struct Dot;

/// Opening lines of the graph, up to the first node.
pub open spec fn graph_header() -> Seq<char> {
    "digraph erd {\n  graph [ rankdir = \"LR\" ];\n  node [ fontsize = \"16\" shape = \"plaintext\" ];\n  edge [ ];\n"@
}

/// Closing line of the graph.
pub open spec fn graph_footer() -> Seq<char> {
    "}\n"@
}

/// Start of a table's node: its quoted identifier and the bold title row.
pub open spec fn header_text(name: Seq<char>) -> Seq<char> {
    "  \""@ + name
        + "\" [label=<<table border=\"0\" cellborder=\"1\" cellspacing=\"0\">\n            <tr><td port=\"__title\"><font><b>"@
        + name + "</b></font></td></tr>\n"@
}

/// One row of a table's node, addressable by the field's name.
pub open spec fn field_text(field_name: Seq<char>, field_type: Seq<char>) -> Seq<char> {
    "            <tr><td port=\""@ + field_name + "\"><font>"@ + field_name + ": "@ + field_type
        + "</font></td></tr>\n"@
}

/// End of a table's node.
pub open spec fn footer_text() -> Seq<char> {
    "          </table>>];\n"@
}

/// The rows of all fields, in order.
pub open spec fn fields_text(fields: Seq<Field>) -> Seq<char>
    decreases fields.len(),
{
    if fields.len() == 0 {
        Seq::empty()
    } else {
        fields_text(fields.drop_last()) + field_text(fields.last().0@, fields.last().1@)
    }
}

/// The full node statement of one table.
pub open spec fn table_text(table: Table) -> Seq<char> {
    header_text(table.name@) + fields_text(table.fields@) + footer_text()
}

/// Every table's node, each followed by a blank line.
pub open spec fn tables_text(tables: Seq<Table>) -> Seq<char>
    decreases tables.len(),
{
    if tables.len() == 0 {
        Seq::empty()
    } else {
        tables_text(tables.drop_last()) + table_text(tables.last()) + "\n"@
    }
}

/// The edge statement of one relation, from field cell to field cell.
pub open spec fn relation_text(r: Relation) -> Seq<char> {
    "\""@ + r.on_table@ + "\":\""@ + r.on_field@ + "\" -> \""@ + r.to_table@ + "\":\""@
        + r.to_field@ + "\"\n"@
}

/// Every relation's edge, one per line.
pub open spec fn relations_text(relations: Seq<Relation>) -> Seq<char>
    decreases relations.len(),
{
    if relations.len() == 0 {
        Seq::empty()
    } else {
        relations_text(relations.drop_last()) + relation_text(relations.last())
    }
}

/// The whole graph description of a schema.
pub open spec fn dot_document(schema: &Schema) -> Seq<char> {
    graph_header() + tables_text(schema.tables@) + relations_text(schema.relations@)
        + graph_footer()
}

impl Drawer for Dot {
    open spec fn document(&self, schema: &Schema) -> Seq<char> {
        dot_document(schema)
    }

    fn write(&self, schema: &Schema, buffer: &mut String) {
        let ghost start = buffer@;
        buffer.append(
            "digraph erd {\n  graph [ rankdir = \"LR\" ];\n  node [ fontsize = \"16\" shape = \"plaintext\" ];\n  edge [ ];\n",
        );
        let tables = &schema.tables;
        let mut i: usize = 0;
        while i < tables.len()
            invariant
                i <= tables@.len(),
                buffer@ == start + graph_header() + tables_text(tables@.take(i as int)),
            decreases tables@.len() - i,
        {
            write_table(&tables[i], buffer);
            buffer.append("\n");
            assert(tables@.take(i + 1).drop_last() =~= tables@.take(i as int));
            i = i + 1;
        }
        assert(tables@.take(i as int) =~= tables@);
        let ghost mid = buffer@;
        let relations = &schema.relations;
        let mut j: usize = 0;
        while j < relations.len()
            invariant
                j <= relations@.len(),
                buffer@ == mid + relations_text(relations@.take(j as int)),
            decreases relations@.len() - j,
        {
            write_relation(&relations[j], buffer);
            assert(relations@.take(j + 1).drop_last() =~= relations@.take(j as int));
            j = j + 1;
        }
        assert(relations@.take(j as int) =~= relations@);
        buffer.append("}\n");
        assert(buffer@ =~= start + dot_document(schema));
    }
}

/// Appends the node statement of `table` to `buffer`.
pub fn write_table(table: &Table, buffer: &mut String)
    ensures
        final(buffer)@ == old(buffer)@ + table_text(*table),
{
    let ghost start = buffer@;
    let header = table_header(table.name.as_str());
    buffer.append(header.as_str());
    let fields = &table.fields;
    let mut i: usize = 0;
    while i < fields.len()
        invariant
            i <= fields@.len(),
            buffer@ == start + header_text(table.name@) + fields_text(fields@.take(i as int)),
        decreases fields@.len() - i,
    {
        let Field(field_name, field_type) = &fields[i];
        let row = table_field(field_name.as_str(), field_type.as_str());
        buffer.append(row.as_str());
        assert(fields@.take(i + 1).drop_last() =~= fields@.take(i as int));
        i = i + 1;
    }
    assert(fields@.take(i as int) =~= fields@);
    let footer = table_footer();
    buffer.append(footer.as_str());
    assert(buffer@ =~= start + table_text(*table));
}

/// The node's opening text for a table called `name`.
pub fn table_header(name: &str) -> (r: String)
    ensures
        r@ == header_text(name@),
{
    let mut s = String::new();
    s.append("  \"");
    s.append(name);
    s.append(
        "\" [label=<<table border=\"0\" cellborder=\"1\" cellspacing=\"0\">\n            <tr><td port=\"__title\"><font><b>",
    );
    s.append(name);
    s.append("</b></font></td></tr>\n");
    assert(s@ =~= header_text(name@));
    s
}

/// The node's row for one field.
pub fn table_field(field_name: &str, field_type: &str) -> (r: String)
    ensures
        r@ == field_text(field_name@, field_type@),
{
    let mut s = String::new();
    s.append("            <tr><td port=\"");
    s.append(field_name);
    s.append("\"><font>");
    s.append(field_name);
    s.append(": ");
    s.append(field_type);
    s.append("</font></td></tr>\n");
    assert(s@ =~= field_text(field_name@, field_type@));
    s
}

/// The node's closing text.
pub fn table_footer() -> (r: String)
    ensures
        r@ == footer_text(),
{
    let mut s = String::new();
    s.append("          </table>>];\n");
    assert(s@ =~= footer_text());
    s
}

/// Appends the edge statement of `relation` to `buffer`.
pub fn write_relation(relation: &Relation, buffer: &mut String)
    ensures
        final(buffer)@ == old(buffer)@ + relation_text(*relation),
{
    let ghost start = buffer@;
    buffer.append("\"");
    buffer.append(relation.on_table.as_str());
    buffer.append("\":\"");
    buffer.append(relation.on_field.as_str());
    buffer.append("\" -> \"");
    buffer.append(relation.to_table.as_str());
    buffer.append("\":\"");
    buffer.append(relation.to_field.as_str());
    buffer.append("\"\n");
    assert(buffer@ =~= start + relation_text(*relation));
}

/// A schema with no tables and no relations renders to the graph's opening
/// lines directly followed by its closing line.
pub proof fn lemma_empty_schema_dot(schema: &Schema)
    requires
        schema.tables@.len() == 0,
        schema.relations@.len() == 0,
    ensures
        dot_document(schema) == graph_header() + graph_footer(),
{
    assert(dot_document(schema) =~= graph_header() + graph_footer());
}

} // verus!

//! Renderers that turn a schema into text.

pub mod dot;
pub mod plain_text;

use crate::schema::Schema;
use vstd::prelude::*;

verus! {

/// Interface for drawing the diagram of a database schema.
pub trait Drawer {
    /// The text that `write` appends for `schema`.
    spec fn document(&self, schema: &Schema) -> Seq<char>;

    /// Appends the rendering of `schema` to `buffer`.
    fn write(&self, schema: &Schema, buffer: &mut String)
        ensures
            final(buffer)@ == old(buffer)@ + self.document(schema),
    ;
}

/// Rendering is deterministic: writing one schema with one drawer onto equal
/// buffers leaves equal buffers, whatever the schema.
pub proof fn lemma_write_deterministic<D: Drawer>(
    drawer: &D,
    schema: &Schema,
    before: Seq<char>,
    first: Seq<char>,
    second: Seq<char>,
)
    requires
        first == before + drawer.document(schema),
        second == before + drawer.document(schema),
    ensures
        first == second,
{
}

} // verus!

//! Turning the rows of PostgreSQL's catalog queries into a schema.
//!
//! A result row is given as its list of `(column name, value)` pairs; the
//! connection and the queries themselves are run by the caller.

use crate::loader::LoadError;
use crate::schema::{Field, Relation, Schema, Table};
use itertools::Itertools;
use vstd::prelude::*;
use vstd::string::*;

verus! {

/// Configuration for the loader.
#[derive(Debug, Clone)]
pub struct Config {
    pub hostname: String,
    pub database: String,
    pub username: String,
    pub password: String,
    pub schema: String,
}

/// A row of the column query: the table it belongs to and the column itself.
#[derive(Debug, Clone, PartialEq, Eq)]
pub struct ColumnRow {
    pub table_name: String,
    pub field: Field,
}

/// The value of the last column called `key` in `row`, if any.
pub open spec fn lookup(row: Seq<(String, String)>, key: Seq<char>) -> Option<Seq<char>>
    decreases row.len(),
{
    if row.len() == 0 {
        None
    } else if row.last().0@ == key {
        Some(row.last().1@)
    } else {
        lookup(row.drop_last(), key)
    }
}

pub open spec fn has_column(row: Seq<(String, String)>, key: Seq<char>) -> bool {
    lookup(row, key) is Some
}

pub open spec fn column_value(row: Seq<(String, String)>, key: Seq<char>) -> Seq<char> {
    lookup(row, key).unwrap()
}

/// `r` is the error for a row that lacks the column `key`.
pub open spec fn is_missing<T>(r: Result<T, LoadError>, key: Seq<char>) -> bool {
    r matches Err(LoadError::FieldDecode(n)) && n@ == key
}

/// `r` is the error for a failed query that reported `message`.
pub open spec fn is_query_error<T>(r: Result<T, LoadError>, message: Seq<char>) -> bool {
    r matches Err(LoadError::Query(m)) && m@ == message
}

pub open spec fn field_decodes(row: Seq<(String, String)>) -> bool {
    has_column(row, "column_name"@) && has_column(row, "data_type"@)
}

/// The first column, in decoding order, that a field row lacks.
pub open spec fn field_missing(row: Seq<(String, String)>) -> Seq<char> {
    if !has_column(row, "column_name"@) {
        "column_name"@
    } else {
        "data_type"@
    }
}

pub open spec fn column_decodes(row: Seq<(String, String)>) -> bool {
    has_column(row, "table_name"@) && field_decodes(row)
}

/// The first column, in decoding order, that a column-query row lacks.
pub open spec fn column_missing(row: Seq<(String, String)>) -> Seq<char> {
    if !has_column(row, "table_name"@) {
        "table_name"@
    } else {
        field_missing(row)
    }
}

/// What a column-query row decodes to: table name, column name, data type.
pub open spec fn column_triple(row: Seq<(String, String)>) -> (Seq<char>, Seq<char>, Seq<char>) {
    (column_value(row, "table_name"@), column_value(row, "column_name"@), column_value(row, "data_type"@))
}

pub open spec fn relation_decodes(row: Seq<(String, String)>) -> bool {
    has_column(row, "on_table"@) && has_column(row, "on_field"@) && has_column(row, "to_table"@) && has_column(
        row,
        "to_field"@,
    )
}

/// The first column, in decoding order, that a relation row lacks.
pub open spec fn relation_missing(row: Seq<(String, String)>) -> Seq<char> {
    if !has_column(row, "on_table"@) {
        "on_table"@
    } else if !has_column(row, "on_field"@) {
        "on_field"@
    } else if !has_column(row, "to_table"@) {
        "to_table"@
    } else {
        "to_field"@
    }
}

/// `rel` holds the four values named in `row`.
pub open spec fn relation_of(rel: Relation, row: Seq<(String, String)>) -> bool {
    &&& rel.on_table@ == column_value(row, "on_table"@)
    &&& rel.on_field@ == column_value(row, "on_field"@)
    &&& rel.to_table@ == column_value(row, "to_table"@)
    &&& rel.to_field@ == column_value(row, "to_field"@)
}

/// Each decoded row as (table name, column name, data type).
pub open spec fn row_triples(rows: Seq<ColumnRow>) -> Seq<(Seq<char>, Seq<char>, Seq<char>)> {
    rows.map_values(|r: ColumnRow| (r.table_name@, r.field.0@, r.field.1@))
}

/// Each field of a table as (table name, column name, data type).
pub open spec fn field_triples(t: Table) -> Seq<(Seq<char>, Seq<char>, Seq<char>)> {
    t.fields@.map_values(|f: Field| (t.name@, f.0@, f.1@))
}

/// The fields of all tables, in order, each with its table's name.
pub open spec fn expand(tables: Seq<Table>) -> Seq<(Seq<char>, Seq<char>, Seq<char>)>
    decreases tables.len(),
{
    if tables.len() == 0 {
        Seq::empty()
    } else {
        expand(tables.drop_last()) + field_triples(tables.last())
    }
}

/// `tables` is the run-length grouping of `rows` by table name: every table
/// is a maximal run of consecutive rows with one table name, and reading the
/// tables' fields in order gives back the rows.
pub open spec fn grouped(rows: Seq<(Seq<char>, Seq<char>, Seq<char>)>, tables: Seq<Table>) -> bool {
    &&& forall|i: int| 0 <= i < tables.len() ==> #[trigger] tables[i].fields@.len() > 0
    &&& forall|i: int|
        0 <= i < tables.len() - 1 ==> #[trigger] tables[i].name@ != tables[i + 1].name@
    &&& expand(tables) == rows
}

/// The rows of all groups, in order.
pub open spec fn concat_groups(groups: Seq<(String, Vec<ColumnRow>)>) -> Seq<ColumnRow>
    decreases groups.len(),
{
    if groups.len() == 0 {
        Seq::empty()
    } else {
        concat_groups(groups.drop_last()) + groups.last().1@
    }
}

/// `groups` are the runs of consecutive rows of `rows` that share a table name,
/// each with that name as its key.
pub open spec fn runs_of(rows: Seq<ColumnRow>, groups: Seq<(String, Vec<ColumnRow>)>) -> bool {
    &&& forall|i: int| 0 <= i < groups.len() ==> #[trigger] groups[i].1@.len() > 0
    &&& forall|i: int, j: int|
        0 <= i < groups.len() && 0 <= j < groups[i].1@.len() ==> #[trigger] groups[i].1@[j].table_name@
            == groups[i].0@
    &&& forall|i: int| 0 <= i < groups.len() - 1 ==> #[trigger] groups[i].0@ != groups[i + 1].0@
    &&& concat_groups(groups) == rows
}

/// Looks up the column called `key` in `map`; a later column of the same name
/// wins over an earlier one.
pub fn fetch_field(map: &Vec<(String, String)>, key: &str) -> (r: Result<String, LoadError>)
    ensures
        match lookup(map@, key@) {
            Some(v) => r is Ok && r->Ok_0@ == v,
            None => is_missing(r, key@),
        },
{
    let k = String::from_str(key);
    let mut found: Option<usize> = None;
    let mut i: usize = 0;
    while i < map.len()
        invariant
            i <= map@.len(),
            k@ == key@,
            match found {
                Some(j) => j < i && lookup(map@.take(i as int), key@) == Some(map@[j as int].1@),
                None => lookup(map@.take(i as int), key@) is None,
            },
        decreases map@.len() - i,
    {
        if map[i].0 == k {
            found = Some(i);
        }
        assert(map@.take(i + 1).drop_last() =~= map@.take(i as int));
        i = i + 1;
    }
    assert(map@.take(i as int) =~= map@);
    match found {
        Some(j) => Ok(map[j].1.clone()),
        None => Err(LoadError::FieldDecode(k)),
    }
}

impl Field {
    /// Decodes a field from the `column_name` and `data_type` columns of a row.
    pub fn try_from(row: &Vec<(String, String)>) -> (r: Result<Field, LoadError>)
        ensures
            r is Ok <==> field_decodes(row@),
            r is Ok ==> r->Ok_0.0@ == column_value(row@, "column_name"@) && r->Ok_0.1@ == column_value(
                row@,
                "data_type"@,
            ),
            !field_decodes(row@) ==> is_missing(r, field_missing(row@)),
    {
        let name = match fetch_field(row, "column_name") {
            Ok(v) => v,
            Err(e) => return Err(e),
        };
        let field_type = match fetch_field(row, "data_type") {
            Ok(v) => v,
            Err(e) => return Err(e),
        };
        Ok(Field(name, field_type))
    }
}

impl Relation {
    /// Decodes a relation from the `on_table`, `on_field`, `to_table` and
    /// `to_field` columns of a row.
    pub fn try_from(row: &Vec<(String, String)>) -> (r: Result<Relation, LoadError>)
        ensures
            r is Ok <==> relation_decodes(row@),
            r is Ok ==> relation_of(r->Ok_0, row@),
            !relation_decodes(row@) ==> is_missing(r, relation_missing(row@)),
    {
        let on_table = match fetch_field(row, "on_table") {
            Ok(v) => v,
            Err(e) => return Err(e),
        };
        let on_field = match fetch_field(row, "on_field") {
            Ok(v) => v,
            Err(e) => return Err(e),
        };
        let to_table = match fetch_field(row, "to_table") {
            Ok(v) => v,
            Err(e) => return Err(e),
        };
        let to_field = match fetch_field(row, "to_field") {
            Ok(v) => v,
            Err(e) => return Err(e),
        };
        Ok(Relation { on_table, on_field, to_table, to_field })
    }
}

impl ColumnRow {
    /// Decodes a row of the column query.
    pub fn try_from(row: &Vec<(String, String)>) -> (r: Result<ColumnRow, LoadError>)
        ensures
            r is Ok <==> column_decodes(row@),
            r is Ok ==> (r->Ok_0.table_name@, r->Ok_0.field.0@, r->Ok_0.field.1@) == column_triple(
                row@,
            ),
            !column_decodes(row@) ==> is_missing(r, column_missing(row@)),
    {
        let table_name = match fetch_field(row, "table_name") {
            Ok(v) => v,
            Err(e) => return Err(e),
        };
        let field = match Field::try_from(row) {
            Ok(f) => f,
            Err(e) => return Err(e),
        };
        Ok(ColumnRow { table_name, field })
    }
}

/// Relies on itertools' `Itertools::group_by`: consecutive rows whose keys
/// (here the table name) compare equal form one group, in order, with that key.
#[verifier::external_body]
fn group_by_table(rows: Vec<ColumnRow>) -> (r: Vec<(String, Vec<ColumnRow>)>)
    ensures
        runs_of(rows@, r@),
{
    let groups = rows.into_iter().group_by(|row| row.table_name.clone());
    let r = groups.into_iter().map(|(name, group)| (name, group.collect())).collect();
    r
}

proof fn lemma_row_triples_add(a: Seq<ColumnRow>, b: Seq<ColumnRow>)
    ensures
        row_triples(a + b) == row_triples(a) + row_triples(b),
{
    assert(row_triples(a + b) =~= row_triples(a) + row_triples(b));
}

/// Groups rows into tables: a new table begins exactly where the table name
/// changes from the previous row's.
pub fn group_tables(rows: Vec<ColumnRow>) -> (r: Vec<Table>)
    ensures
        grouped(row_triples(rows@), r@),
{
    let ghost all = rows@;
    let groups = group_by_table(rows);
    let mut tables: Vec<Table> = Vec::new();
    let mut i: usize = 0;
    while i < groups.len()
        invariant
            i <= groups@.len(),
            runs_of(all, groups@),
            tables@.len() == i,
            forall|k: int| 0 <= k < i ==> #[trigger] tables@[k].name@ == groups@[k].0@,
            forall|k: int| 0 <= k < i ==> #[trigger] tables@[k].fields@.len() > 0,
            expand(tables@) == row_triples(concat_groups(groups@.take(i as int))),
        decreases groups@.len() - i,
    {
        let (name, group) = &groups[i];
        let mut fields: Vec<Field> = Vec::new();
        let mut j: usize = 0;
        while j < group.len()
            invariant
                j <= group@.len(),
                fields@.len() == j,
                forall|m: int|
                    0 <= m < j ==> (#[trigger] fields@[m]).0@ == group@[m].field.0@
                        && fields@[m].1@ == group@[m].field.1@,
            decreases group@.len() - j,
        {
            let row = &group[j];
            fields.push(Field(row.field.0.clone(), row.field.1.clone()));
            j = j + 1;
        }
        let table = Table { name: name.clone(), fields };
        assert(group@.len() > 0);
        assert forall|m: int| 0 <= m < group@.len() implies #[trigger] group@[m].table_name@
            == name@ by {
            assert(groups@[i as int].1@[m].table_name@ == groups@[i as int].0@);
        }
        assert(field_triples(table) =~= row_triples(group@));
        let ghost before = tables@;
        tables.push(table);
        proof {
            assert(tables@.drop_last() =~= before);
            assert(groups@.take(i + 1).drop_last() =~= groups@.take(i as int));
            lemma_row_triples_add(concat_groups(groups@.take(i as int)), group@);
        }
        i = i + 1;
    }
    assert(groups@.take(i as int) =~= groups@);
    assert forall|k: int| 0 <= k < tables@.len() - 1 implies #[trigger] tables@[k].name@
        != tables@[k + 1].name@ by {
        assert(tables@[k + 1].name@ == groups@[k + 1].0@);
    }
    tables
}

/// Every row of the column query decodes.
pub open spec fn columns_decode(rows: Seq<Vec<(String, String)>>) -> bool {
    forall|i: int| 0 <= i < rows.len() ==> column_decodes(#[trigger] rows[i]@)
}

/// Row `i` is the first row of the column query that does not decode.
pub open spec fn first_bad_column(rows: Seq<Vec<(String, String)>>, i: int) -> bool {
    0 <= i < rows.len() && !column_decodes(rows[i]@) && columns_decode(rows.take(i))
}

/// What the rows of the column query decode to, in order.
pub open spec fn column_triples(rows: Seq<Vec<(String, String)>>) -> Seq<
    (Seq<char>, Seq<char>, Seq<char>),
> {
    rows.map_values(|row: Vec<(String, String)>| column_triple(row@))
}

/// Every row of the relation query decodes.
pub open spec fn relations_decode(rows: Seq<Vec<(String, String)>>) -> bool {
    forall|i: int| 0 <= i < rows.len() ==> relation_decodes(#[trigger] rows[i]@)
}

/// Row `i` is the first row of the relation query that does not decode.
pub open spec fn first_bad_relation(rows: Seq<Vec<(String, String)>>, i: int) -> bool {
    0 <= i < rows.len() && !relation_decodes(rows[i]@) && relations_decode(rows.take(i))
}

/// `relations` are the rows of the relation query decoded, one for one, in order.
pub open spec fn relations_of(relations: Seq<Relation>, rows: Seq<Vec<(String, String)>>) -> bool {
    &&& relations.len() == rows.len()
    &&& forall|i: int| 0 <= i < rows.len() ==> relation_of(#[trigger] relations[i], rows[i]@)
}

/// Decodes every row of the column query, stopping at the first that fails.
pub fn decode_columns(rows: &Vec<Vec<(String, String)>>) -> (r: Result<Vec<ColumnRow>, LoadError>)
    ensures
        r is Ok <==> columns_decode(rows@),
        r is Ok ==> row_triples(r->Ok_0@) == column_triples(rows@),
        !columns_decode(rows@) ==> exists|i: int|
            first_bad_column(rows@, i) && is_missing(r, column_missing(#[trigger] rows@[i]@)),
{
    let mut out: Vec<ColumnRow> = Vec::new();
    let mut i: usize = 0;
    while i < rows.len()
        invariant
            i <= rows@.len(),
            columns_decode(rows@.take(i as int)),
            row_triples(out@) == column_triples(rows@.take(i as int)),
        decreases rows@.len() - i,
    {
        match ColumnRow::try_from(&rows[i]) {
            Ok(c) => {
                let ghost before = out@;
                out.push(c);
                assert(row_triples(out@) =~= row_triples(before).push(
                    (c.table_name@, c.field.0@, c.field.1@),
                ));
                assert(column_triples(rows@.take(i + 1)) =~= column_triples(
                    rows@.take(i as int),
                ).push(column_triple(rows@[i as int]@)));
                assert(columns_decode(rows@.take(i + 1))) by {
                    assert forall|k: int| 0 <= k < i + 1 implies column_decodes(
                        #[trigger] rows@.take(i + 1)[k]@,
                    ) by {
                        if k < i {
                            assert(rows@.take(i + 1)[k] == rows@.take(i as int)[k]);
                        }
                    }
                }
            },
            Err(e) => {
                assert(first_bad_column(rows@, i as int));
                assert(!columns_decode(rows@));
                return Err(e);
            },
        }
        i = i + 1;
    }
    assert(rows@.take(i as int) =~= rows@);
    Ok(out)
}

/// Decodes every row of the relation query, stopping at the first that fails.
pub fn decode_relations(rows: &Vec<Vec<(String, String)>>) -> (r: Result<Vec<Relation>, LoadError>)
    ensures
        r is Ok <==> relations_decode(rows@),
        r is Ok ==> relations_of(r->Ok_0@, rows@),
        !relations_decode(rows@) ==> exists|i: int|
            first_bad_relation(rows@, i) && is_missing(r, relation_missing(#[trigger] rows@[i]@)),
{
    let mut out: Vec<Relation> = Vec::new();
    let mut i: usize = 0;
    while i < rows.len()
        invariant
            i <= rows@.len(),
            relations_decode(rows@.take(i as int)),
            relations_of(out@, rows@.take(i as int)),
        decreases rows@.len() - i,
    {
        match Relation::try_from(&rows[i]) {
            Ok(rel) => {
                out.push(rel);
                assert forall|k: int| 0 <= k < i + 1 implies relation_decodes(
                    #[trigger] rows@.take(i + 1)[k]@,
                ) && relation_of(out@[k], rows@.take(i + 1)[k]@) by {
                    if k < i {
                        assert(rows@.take(i + 1)[k] == rows@.take(i as int)[k]);
                    }
                }
            },
            Err(e) => {
                assert(first_bad_relation(rows@, i as int));
                assert(!relations_decode(rows@));
                return Err(e);
            },
        }
        i = i + 1;
    }
    assert(rows@.take(i as int) =~= rows@);
    Ok(out)
}

/// Builds the schema from the outcome of the column query and of the
/// relation query, in that order. A failed query gives its error and no
/// schema; otherwise rows are decoded, columns grouped into tables, and
/// relations kept in row order.
pub fn schema_from_rows(
    columns: Result<Vec<Vec<(String, String)>>, String>,
    relations: Result<Vec<Vec<(String, String)>>, String>,
) -> (r: Result<Schema, LoadError>)
    ensures
        columns is Err ==> is_query_error(r, columns->Err_0@),
        columns is Ok && relations is Err ==> is_query_error(r, relations->Err_0@),
        columns is Ok && relations is Ok ==> {
            let c = columns->Ok_0@;
            let l = relations->Ok_0@;
            &&& r is Ok <==> columns_decode(c) && relations_decode(l)
            &&& r is Ok ==> grouped(column_triples(c), r->Ok_0.tables@) && relations_of(
                r->Ok_0.relations@,
                l,
            )
            &&& !columns_decode(c) ==> exists|i: int|
                first_bad_column(c, i) && is_missing(r, column_missing(#[trigger] c[i]@))
            &&& columns_decode(c) && !relations_decode(l) ==> exists|i: int|
                first_bad_relation(l, i) && is_missing(r, relation_missing(#[trigger] l[i]@))
        },
{
    let column_rows = match columns {
        Ok(rows) => rows,
        Err(m) => return Err(LoadError::Query(m)),
    };
    let relation_rows = match relations {
        Ok(rows) => rows,
        Err(m) => return Err(LoadError::Query(m)),
    };
    let decoded = match decode_columns(&column_rows) {
        Ok(d) => d,
        Err(e) => return Err(e),
    };
    let relations = match decode_relations(&relation_rows) {
        Ok(d) => d,
        Err(e) => return Err(e),
    };
    let tables = group_tables(decoded);
    Ok(Schema { tables, relations })
}

/// Text of the column query: columns of the schema bound to `$1`, ordered by
/// table name, then column name.
pub open spec fn tables_query_text() -> Seq<char> {
    "\n    select table_name, column_name, data_type\n      from information_schema.columns\n     where table_schema = $1\n     order by table_name, column_name\n    "@
}

/// Text of the relation query: one row per column pair of every foreign key
/// of the schema bound to `$1`, with columns `on_table`, `on_field`,
/// `to_table` and `to_field`.
pub open spec fn relations_query_text() -> Seq<char> {
    "\n    select *\n      from (\n        select ns.nspname AS schemaname,\n               cl.relname AS on_table,\n               attr.attname AS on_field,\n               clf.relname AS to_table,\n               attrf.attname AS to_field\n          from pg_constraint con\n                 join pg_class cl\n                     on con.conrelid = cl.oid\n                 join pg_namespace ns\n                     on cl.relnamespace = ns.oid\n                 join pg_class clf\n                     on con.confrelid = clf.oid\n                 join pg_attribute attr\n                     on attr.attnum = ANY(con.conkey) and\n                 attr.attrelid = con.conrelid\n                 join pg_attribute attrf\n                     on attrf.attnum = ANY(con.confkey) and\n                 attrf.attrelid = con.confrelid\n      ) as fk\n     where fk.schemaname = $1\n    "@
}

/// The column query; the schema name is its only parameter.
pub fn tables_query() -> (r: &'static str)
    ensures
        r@ == tables_query_text(),
{
    "\n    select table_name, column_name, data_type\n      from information_schema.columns\n     where table_schema = $1\n     order by table_name, column_name\n    "
}

/// The relation query; the schema name is its only parameter.
pub fn relations_query() -> (r: &'static str)
    ensures
        r@ == relations_query_text(),
{
    "\n    select *\n      from (\n        select ns.nspname AS schemaname,\n               cl.relname AS on_table,\n               attr.attname AS on_field,\n               clf.relname AS to_table,\n               attrf.attname AS to_field\n          from pg_constraint con\n                 join pg_class cl\n                     on con.conrelid = cl.oid\n                 join pg_namespace ns\n                     on cl.relnamespace = ns.oid\n                 join pg_class clf\n                     on con.confrelid = clf.oid\n                 join pg_attribute attr\n                     on attr.attnum = ANY(con.conkey) and\n                 attr.attrelid = con.conrelid\n                 join pg_attribute attrf\n                     on attrf.attnum = ANY(con.confkey) and\n                 attrf.attrelid = con.confrelid\n      ) as fk\n     where fk.schemaname = $1\n    "
}

/// Rows in which all rows of one table name stand together, as they do when
/// the rows are sorted by table name.
pub open spec fn names_contiguous(rows: Seq<(Seq<char>, Seq<char>, Seq<char>)>) -> bool {
    forall|i: int, j: int, k: int|
        0 <= i < j < k < rows.len() && #[trigger] rows[i].0 == #[trigger] rows[k].0
            ==> #[trigger] rows[j].0 == rows[i].0
}

/// The names of the tables, in order.
pub open spec fn table_names(tables: Seq<Table>) -> Seq<Seq<char>> {
    tables.map_values(|t: Table| t.name@)
}

/// The table names of the rows, in order.
pub open spec fn row_names(rows: Seq<(Seq<char>, Seq<char>, Seq<char>)>) -> Seq<Seq<char>> {
    rows.map_values(|r: (Seq<char>, Seq<char>, Seq<char>)| r.0)
}

proof fn lemma_grouping_names(rows: Seq<(Seq<char>, Seq<char>, Seq<char>)>, tables: Seq<Table>)
    requires
        names_contiguous(rows),
        grouped(rows, tables),
    ensures
        table_names(tables).no_duplicates(),
        forall|x: Seq<char>| table_names(tables).contains(x) <==> row_names(rows).contains(x),
    decreases tables.len(),
{
    if tables.len() == 0 {
        assert(rows.len() == 0);
        assert(forall|x: Seq<char>| !row_names(rows).contains(x));
        assert(forall|x: Seq<char>| !table_names(tables).contains(x));
    } else {
        let prefix = tables.drop_last();
        let last = tables.last();
        let pre_rows = expand(prefix);
        let tail = field_triples(last);
        assert(rows == pre_rows + tail);
        assert(tables[tables.len() - 1].fields@.len() > 0);
        assert(tail.len() > 0);
        assert forall|m: int| 0 <= m < tail.len() implies #[trigger] tail[m].0 == last.name@ by {}
        assert forall|i: int| 0 <= i < prefix.len() implies #[trigger] prefix[i].fields@.len()
            > 0 by {
            assert(prefix[i] == tables[i]);
        }
        assert forall|i: int| 0 <= i < prefix.len() - 1 implies #[trigger] prefix[i].name@
            != prefix[i + 1].name@ by {
            assert(prefix[i] == tables[i]);
            assert(prefix[i + 1] == tables[i + 1]);
        }
        assert forall|i: int, j: int, k: int|
            0 <= i < j < k < pre_rows.len() && #[trigger] pre_rows[i].0 == #[trigger] pre_rows[k].0
                implies #[trigger] pre_rows[j].0 == pre_rows[i].0 by {
            assert(rows[i] == pre_rows[i]);
            assert(rows[j] == pre_rows[j]);
            assert(rows[k] == pre_rows[k]);
        }
        lemma_grouping_names(pre_rows, prefix);
        let s = pre_rows.len() as int;
        assert(rows[s] == tail[0]);
        if table_names(prefix).contains(last.name@) {
            let p = choose|p: int| 0 <= p < row_names(pre_rows).len() && row_names(pre_rows)[p] == last.name@;
            assert(pre_rows[p].0 == last.name@);
            let prev = prefix.last();
            assert(prev == tables[tables.len() - 2]);
            assert(prev.name@ != last.name@);
            assert(prefix.len() > 0);
            assert(prev.fields@.len() > 0);
            let q = s - 1;
            assert(expand(prefix) == expand(prefix.drop_last()) + field_triples(prev));
            assert(pre_rows[q] == field_triples(prev).last());
            assert(pre_rows[q].0 == prev.name@);
            assert(rows[p] == pre_rows[p]);
            assert(rows[q] == pre_rows[q]);
            assert(p < q);
            assert(rows[p].0 == rows[s].0);
            assert(rows[q].0 == rows[p].0);
            assert(false);
        }
        assert(table_names(tables) =~= table_names(prefix).push(last.name@));
        assert(row_names(rows) =~= row_names(pre_rows) + row_names(tail));
        assert forall|x: Seq<char>| table_names(tables).contains(x) <==> row_names(
            rows,
        ).contains(x) by {
            if table_names(tables).contains(x) {
                if x == last.name@ {
                    assert(row_names(rows)[s] == x);
                } else {
                    let i = choose|i: int| 0 <= i < table_names(tables).len() && table_names(tables)[i] == x;
                    assert(i < prefix.len());
                    assert(table_names(prefix)[i] == x);
                    assert(table_names(prefix).contains(x));
                    assert(row_names(pre_rows).contains(x));
                    let p = choose|p: int| 0 <= p < row_names(pre_rows).len() && row_names(pre_rows)[p] == x;
                    assert(row_names(rows)[p] == x);
                }
            }
            if row_names(rows).contains(x) {
                let p = choose|p: int| 0 <= p < row_names(rows).len() && row_names(rows)[p] == x;
                if p < s {
                    assert(row_names(pre_rows)[p] == x);
                    assert(table_names(prefix).contains(x));
                    let i = choose|i: int| 0 <= i < table_names(prefix).len() && table_names(prefix)[i] == x;
                    assert(table_names(tables)[i] == x);
                } else {
                    assert(rows[p] == tail[p - s]);
                    assert(table_names(tables)[tables.len() - 1] == x);
                }
            }
        }
    }
}

/// Grouping rows that are sorted by table name gives every table name
/// exactly once: the tables' names are distinct, they are the names of the
/// rows, and there are as many tables as distinct names among the rows. With
/// `grouped`, the tables come in order of first appearance and each holds its
/// rows' fields in row order.
pub proof fn lemma_grouping_counts_tables(
    rows: Seq<(Seq<char>, Seq<char>, Seq<char>)>,
    tables: Seq<Table>,
)
    requires
        names_contiguous(rows),
        grouped(rows, tables),
    ensures
        table_names(tables).no_duplicates(),
        table_names(tables).to_set() == row_names(rows).to_set(),
        tables.len() == row_names(rows).to_set().len(),
{
    lemma_grouping_names(rows, tables);
    assert(table_names(tables).to_set() =~= row_names(rows).to_set());
    table_names(tables).unique_seq_to_set();
}

} // verus!

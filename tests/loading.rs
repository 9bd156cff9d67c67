use erd::loader::postgresql::{
    decode_columns, decode_relations, fetch_field, group_tables, relations_query,
    schema_from_rows, tables_query, ColumnRow,
};
use erd::loader::LoadError;
use erd::schema::{Field, Relation, Table};

fn pairs(items: &[(&str, &str)]) -> Vec<(String, String)> {
    items.iter().map(|(k, v)| (k.to_string(), v.to_string())).collect()
}

fn col(table: &str, column: &str, ty: &str) -> Vec<(String, String)> {
    pairs(&[("table_name", table), ("column_name", column), ("data_type", ty)])
}

fn rel(on_table: &str, on_field: &str, to_table: &str, to_field: &str) -> Vec<(String, String)> {
    pairs(&[
        ("on_table", on_table),
        ("on_field", on_field),
        ("to_table", to_table),
        ("to_field", to_field),
    ])
}

fn crow(table: &str, column: &str, ty: &str) -> ColumnRow {
    ColumnRow {
        table_name: table.to_string(),
        field: Field(column.to_string(), ty.to_string()),
    }
}

#[test]
fn fetch_field_found_and_missing() {
    let row = pairs(&[("a", "1"), ("b", "2")]);
    assert_eq!(fetch_field(&row, "b"), Ok("2".to_string()));
    assert_eq!(fetch_field(&row, "c"), Err(LoadError::FieldDecode("c".to_string())));
}

#[test]
fn fetch_field_last_column_wins() {
    let row = pairs(&[("a", "1"), ("a", "2")]);
    assert_eq!(fetch_field(&row, "a"), Ok("2".to_string()));
}

#[test]
fn grouping_runs_in_first_appearance_order() {
    let rows = vec![
        crow("a", "id", "int"),
        crow("a", "x", "text"),
        crow("b", "id", "int"),
        crow("c", "k", "uuid"),
        crow("c", "v", "json"),
    ];
    let tables = group_tables(rows);
    assert_eq!(
        tables,
        vec![
            Table {
                name: "a".to_string(),
                fields: vec![
                    Field("id".to_string(), "int".to_string()),
                    Field("x".to_string(), "text".to_string())
                ]
            },
            Table { name: "b".to_string(), fields: vec![Field("id".to_string(), "int".to_string())] },
            Table {
                name: "c".to_string(),
                fields: vec![
                    Field("k".to_string(), "uuid".to_string()),
                    Field("v".to_string(), "json".to_string())
                ]
            },
        ]
    );
}

#[test]
fn grouping_new_table_when_name_changes_back() {
    let rows = vec![crow("a", "x", "int"), crow("b", "y", "int"), crow("a", "z", "int")];
    let tables = group_tables(rows);
    let names: Vec<&str> = tables.iter().map(|t| t.name.as_str()).collect();
    assert_eq!(names, vec!["a", "b", "a"]);
}

#[test]
fn grouping_empty() {
    assert_eq!(group_tables(vec![]), vec![]);
}

#[test]
fn schema_from_rows_builds_schema() {
    let columns = vec![
        col("orders", "id", "integer"),
        col("orders", "user_id", "integer"),
        col("users", "id", "integer"),
    ];
    let relations = vec![rel("orders", "user_id", "users", "id")];
    let schema = schema_from_rows(Ok(columns), Ok(relations)).unwrap();
    assert_eq!(schema.tables.len(), 2);
    assert_eq!(schema.tables[0].name, "orders");
    assert_eq!(
        schema.tables[0].fields,
        vec![
            Field("id".to_string(), "integer".to_string()),
            Field("user_id".to_string(), "integer".to_string())
        ]
    );
    assert_eq!(schema.tables[1].name, "users");
    assert_eq!(
        schema.relations,
        vec![Relation {
            on_table: "orders".to_string(),
            on_field: "user_id".to_string(),
            to_table: "users".to_string(),
            to_field: "id".to_string(),
        }]
    );
}

#[test]
fn query_failure_gives_query_error() {
    let r = schema_from_rows(Err("permission denied".to_string()), Ok(vec![]));
    assert_eq!(r, Err(LoadError::Query("permission denied".to_string())));
    let r = schema_from_rows(Ok(vec![col("t", "a", "int")]), Err("timeout".to_string()));
    assert_eq!(r, Err(LoadError::Query("timeout".to_string())));
}

#[test]
fn missing_column_gives_decode_error() {
    let bad = pairs(&[("table_name", "t"), ("data_type", "int")]);
    let r = schema_from_rows(Ok(vec![col("t", "a", "int"), bad]), Ok(vec![]));
    assert_eq!(r, Err(LoadError::FieldDecode("column_name".to_string())));
    let bad_rel = pairs(&[("on_table", "a"), ("on_field", "b"), ("to_table", "c")]);
    let r = schema_from_rows(Ok(vec![]), Ok(vec![bad_rel]));
    assert_eq!(r, Err(LoadError::FieldDecode("to_field".to_string())));
}

#[test]
fn decode_by_name_not_position() {
    let row = pairs(&[("to_field", "id"), ("to_table", "users"), ("on_field", "uid"), ("on_table", "orders")]);
    let rels = decode_relations(&vec![row]).unwrap();
    assert_eq!(rels[0].on_table, "orders");
    assert_eq!(rels[0].to_field, "id");
    let cols = decode_columns(&vec![pairs(&[("data_type", "text"), ("column_name", "c"), ("table_name", "t")])]).unwrap();
    assert_eq!(cols, vec![crow("t", "c", "text")]);
}

#[test]
fn queries_bind_schema_parameter() {
    assert!(tables_query().contains("where table_schema = $1"));
    assert!(tables_query().contains("order by table_name, column_name"));
    assert!(relations_query().contains("where fk.schemaname = $1"));
    assert!(relations_query().contains("attrf.attname AS to_field"));
}

use erd::drawer::dot::{table_field, table_footer, table_header, Dot};
use erd::drawer::plain_text::PlainText;
use erd::drawer::Drawer;
use erd::schema::{Field, Relation, Schema, Table};

fn field(name: &str, ty: &str) -> Field {
    Field(name.to_string(), ty.to_string())
}

fn sample() -> Schema {
    Schema {
        tables: vec![
            Table {
                name: "users".to_string(),
                fields: vec![field("id", "int"), field("name", "text")],
            },
            Table {
                name: "orders".to_string(),
                fields: vec![field("id", "int"), field("user_id", "int")],
            },
        ],
        relations: vec![Relation {
            on_table: "orders".to_string(),
            on_field: "user_id".to_string(),
            to_table: "users".to_string(),
            to_field: "id".to_string(),
        }],
    }
}

fn render<D: Drawer>(drawer: &D, schema: &Schema) -> String {
    let mut out = String::new();
    drawer.write(schema, &mut out);
    out
}

const DOT_HEADER: &str = "digraph erd {\n  graph [ rankdir = \"LR\" ];\n  node [ fontsize = \"16\" shape = \"plaintext\" ];\n  edge [ ];\n";

#[test]
fn dot_sample_exact() {
    let expected = format!(
        "{}{}{}{}{}{}{}{}{}{}{}{}{}",
        DOT_HEADER,
        "  \"users\" [label=<<table border=\"0\" cellborder=\"1\" cellspacing=\"0\">\n",
        "            <tr><td port=\"__title\"><font><b>users</b></font></td></tr>\n",
        "            <tr><td port=\"id\"><font>id: int</font></td></tr>\n",
        "            <tr><td port=\"name\"><font>name: text</font></td></tr>\n",
        "          </table>>];\n\n",
        "  \"orders\" [label=<<table border=\"0\" cellborder=\"1\" cellspacing=\"0\">\n",
        "            <tr><td port=\"__title\"><font><b>orders</b></font></td></tr>\n",
        "            <tr><td port=\"id\"><font>id: int</font></td></tr>\n",
        "            <tr><td port=\"user_id\"><font>user_id: int</font></td></tr>\n",
        "          </table>>];\n\n",
        "\"orders\":\"user_id\" -> \"users\":\"id\"\n",
        "}\n",
    );
    assert_eq!(render(&Dot, &sample()), expected);
}

#[test]
fn dot_sample_counts_nodes_and_edges() {
    let out = render(&Dot, &sample());
    assert_eq!(out.matches("[label=<").count(), 2);
    assert_eq!(out.matches(" -> ").count(), 1);
    assert!(out.contains("\"orders\":\"user_id\" -> \"users\":\"id\"\n"));
    let users = out.find("\"users\" [label").unwrap();
    let orders = out.find("\"orders\" [label").unwrap();
    assert!(users < orders);
}

#[test]
fn plain_text_sample_exact() {
    let expected = "=== Tables ===\n[users]\nid: int\nname: text\n\n[orders]\nid: int\nuser_id: int\n\n=== Relations ===\norders:user_id -> orders:user_id\n\n=== Done ===\n";
    assert_eq!(render(&PlainText, &sample()), expected);
}

#[test]
fn empty_schema_dot() {
    let schema = Schema { tables: vec![], relations: vec![] };
    assert_eq!(render(&Dot, &schema), format!("{}}}\n", DOT_HEADER));
}

#[test]
fn empty_schema_plain_text() {
    let schema = Schema { tables: vec![], relations: vec![] };
    assert_eq!(
        render(&PlainText, &schema),
        "=== Tables ===\n=== Relations ===\n=== Done ===\n"
    );
}

#[test]
fn rendering_twice_is_identical() {
    let schema = sample();
    assert_eq!(render(&Dot, &schema), render(&Dot, &schema));
    assert_eq!(render(&PlainText, &schema), render(&PlainText, &schema));
}

#[test]
fn write_appends_to_existing_buffer() {
    let mut out = "prefix\n".to_string();
    PlainText.write(&Schema { tables: vec![], relations: vec![] }, &mut out);
    assert_eq!(out, "prefix\n=== Tables ===\n=== Relations ===\n=== Done ===\n");
}

#[test]
fn dangling_relation_renders() {
    let schema = Schema {
        tables: vec![],
        relations: vec![Relation {
            on_table: "ghost".to_string(),
            on_field: "a".to_string(),
            to_table: "nowhere".to_string(),
            to_field: "b".to_string(),
        }],
    };
    assert_eq!(
        render(&Dot, &schema),
        format!("{}\"ghost\":\"a\" -> \"nowhere\":\"b\"\n}}\n", DOT_HEADER)
    );
    assert_eq!(
        render(&PlainText, &schema),
        "=== Tables ===\n=== Relations ===\nghost:a -> ghost:a\n\n=== Done ===\n"
    );
}

#[test]
fn table_with_no_fields() {
    let schema = Schema {
        tables: vec![Table { name: "t".to_string(), fields: vec![] }],
        relations: vec![],
    };
    assert_eq!(
        render(&PlainText, &schema),
        "=== Tables ===\n[t]\n\n=== Relations ===\n=== Done ===\n"
    );
}

#[test]
fn dot_pieces() {
    assert_eq!(
        table_header("t"),
        "  \"t\" [label=<<table border=\"0\" cellborder=\"1\" cellspacing=\"0\">\n            <tr><td port=\"__title\"><font><b>t</b></font></td></tr>\n"
    );
    assert_eq!(
        table_field("a", "int"),
        "            <tr><td port=\"a\"><font>a: int</font></td></tr>\n"
    );
    assert_eq!(table_footer(), "          </table>>];\n");
}

#[test]
fn plain_text_pieces() {
    let mut out = String::new();
    erd::drawer::plain_text::write_relation(
        &Relation {
            on_table: "a".to_string(),
            on_field: "b".to_string(),
            to_table: "c".to_string(),
            to_field: "d".to_string(),
        },
        &mut out,
    );
    assert_eq!(out, "a:b -> a:b\n");
    let mut out = String::new();
    erd::drawer::dot::write_relation(
        &Relation {
            on_table: "a".to_string(),
            on_field: "b".to_string(),
            to_table: "c".to_string(),
            to_field: "d".to_string(),
        },
        &mut out,
    );
    assert_eq!(out, "\"a\":\"b\" -> \"c\":\"d\"\n");
}

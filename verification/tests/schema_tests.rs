use peek::db::{decode_result_set, execute, get_results, Database, DatabaseResult, RawResultSet};
use peek::decode::DecodedValue;
use peek::schema::{build_schema, columns_query, foreign_keys_query, get_schema, ColumnRow,
    ForeignKeyRow};

fn cell(s: &str) -> Option<Vec<u8>> {
    Some(s.as_bytes().to_vec())
}

fn col(table: &str, column: &str, data_type: &str) -> ColumnRow {
    ColumnRow {
        table: table.to_string(),
        column: column.to_string(),
        data_type: data_type.to_string(),
    }
}

/// A canned collaborator: one result set per catalog query.
struct FakeDb {
    fail_columns: bool,
    fail_fks: bool,
}

impl Database for FakeDb {
    fn fetch(&mut self, query: &str) -> Result<RawResultSet, String> {
        if query == columns_query().as_str() {
            if self.fail_columns {
                return Err("boom".to_string());
            }
            Ok(RawResultSet {
                columns: vec![
                    ("table_name".to_string(), "name".to_string()),
                    ("column_name".to_string(), "name".to_string()),
                    ("pg_type".to_string(), "name".to_string()),
                ],
                rows: vec![
                    vec![cell("orders"), cell("id"), cell("int4")],
                    vec![cell("orders"), cell("customer_id"), cell("int4")],
                    vec![cell("customers"), cell("id"), cell("int4")],
                ],
            })
        } else if query == foreign_keys_query().as_str() {
            if self.fail_fks {
                return Err("boom".to_string());
            }
            Ok(RawResultSet {
                columns: vec![
                    ("referencing_table".to_string(), "name".to_string()),
                    ("referencing_column".to_string(), "name".to_string()),
                    ("referenced_table".to_string(), "name".to_string()),
                    ("referenced_column".to_string(), "name".to_string()),
                ],
                rows: vec![vec![
                    cell("orders"),
                    cell("customer_id"),
                    cell("customers"),
                    cell("id"),
                ]],
            })
        } else {
            Err(format!("unexpected query: {query}"))
        }
    }

    fn execute(&mut self, _statement: &str) -> Result<(), String> {
        Ok(())
    }
}

#[test]
fn introspection_builds_the_reverse_foreign_key_index() {
    let mut db = FakeDb { fail_columns: false, fail_fks: false };
    let graph = get_schema(&mut db).expect("schema");
    let refs: Vec<(&str, Vec<&str>)> = graph
        .references
        .iter()
        .map(|(k, v)| (k.as_str(), v.iter().map(|s| s.as_str()).collect()))
        .collect();
    assert_eq!(refs, vec![("customers.id", vec!["orders.customer_id"])]);
}

#[test]
fn introspection_groups_columns_in_first_seen_order() {
    let mut db = FakeDb { fail_columns: false, fail_fks: false };
    let graph = get_schema(&mut db).expect("schema");
    assert_eq!(graph.tables.len(), 2);
    assert_eq!(graph.tables[0].0, "orders");
    assert_eq!(
        graph.tables[0].1,
        vec![
            ("id".to_string(), "int4".to_string()),
            ("customer_id".to_string(), "int4".to_string()),
        ]
    );
    assert_eq!(graph.tables[1].0, "customers");
    assert_eq!(graph.tables[1].1, vec![("id".to_string(), "int4".to_string())]);
}

#[test]
fn introspection_failure_is_fatal_with_no_partial_schema() {
    let mut db = FakeDb { fail_columns: true, fail_fks: false };
    match get_schema(&mut db) {
        Err(e) => assert_eq!(e, "Could not get columns"),
        Ok(_) => panic!("expected the column query failure to be fatal"),
    }
    let mut db = FakeDb { fail_columns: false, fail_fks: true };
    match get_schema(&mut db) {
        Err(e) => assert_eq!(e, "Could not get foreign key info"),
        Ok(_) => panic!("expected the foreign-key query failure to be fatal"),
    }
}

#[test]
fn build_schema_handles_duplicate_foreign_keys_per_target() {
    let cols = vec![col("a", "x", "int4"), col("b", "y", "int4"), col("c", "z", "int4")];
    let fks = vec![
        ForeignKeyRow {
            referencing_table: "a".to_string(),
            referencing_column: "x".to_string(),
            referenced_table: "c".to_string(),
            referenced_column: "z".to_string(),
        },
        ForeignKeyRow {
            referencing_table: "b".to_string(),
            referencing_column: "y".to_string(),
            referenced_table: "c".to_string(),
            referenced_column: "z".to_string(),
        },
    ];
    let graph = build_schema(&cols, &fks);
    assert_eq!(graph.references.len(), 1);
    assert_eq!(graph.references[0].0, "c.z");
    assert_eq!(
        graph.references[0].1,
        vec!["a.x".to_string(), "b.y".to_string()]
    );
}

#[test]
fn zero_row_result_reports_no_headers() {
    let raw = RawResultSet {
        columns: vec![("id".to_string(), "INT4".to_string())],
        rows: vec![],
    };
    let decoded = decode_result_set(&raw);
    assert!(decoded.headers.is_empty());
    assert!(decoded.rows.is_empty());
}

#[test]
fn nonempty_result_has_one_value_per_header_in_every_row() {
    let raw = RawResultSet {
        columns: vec![
            ("id".to_string(), "INT4".to_string()),
            ("name".to_string(), "TEXT".to_string()),
            ("active".to_string(), "BOOL".to_string()),
        ],
        rows: vec![
            vec![cell("1"), cell("ada"), cell("t")],
            vec![cell("2"), None, cell("f")],
            vec![cell("oops"), cell("bob")],
        ],
    };
    let decoded = decode_result_set(&raw);
    assert_eq!(decoded.headers.len(), 3);
    assert_eq!(decoded.headers[0], ("id".to_string(), "INT4".to_string()));
    for row in &decoded.rows {
        assert_eq!(row.len(), decoded.headers.len());
    }
    assert_eq!(
        decoded.rows[0],
        vec![
            DecodedValue::Number("1".to_string()),
            DecodedValue::Text("ada".to_string()),
            DecodedValue::Boolean(true),
        ]
    );
    // a missing value decodes to Null, never aborting the row
    assert_eq!(decoded.rows[1][1], DecodedValue::Null);
    // a cell that does not fit its tag degrades to Null; a short row is padded
    assert_eq!(decoded.rows[2][0], DecodedValue::Null);
    assert_eq!(decoded.rows[2][1], DecodedValue::Text("bob".to_string()));
    assert_eq!(decoded.rows[2][2], DecodedValue::Null);
}

#[test]
fn get_results_decodes_through_the_collaborator() {
    struct OneQuery;
    impl Database for OneQuery {
        fn fetch(&mut self, _query: &str) -> Result<RawResultSet, String> {
            Ok(RawResultSet {
                columns: vec![("n".to_string(), "INT8".to_string())],
                rows: vec![vec![Some(b"7".to_vec())]],
            })
        }
        fn execute(&mut self, _statement: &str) -> Result<(), String> {
            Err("nope".to_string())
        }
    }
    let mut db = OneQuery;
    let r: DatabaseResult = get_results(&mut db, "select n from t").expect("rows");
    assert_eq!(r.headers, vec![("n".to_string(), "INT8".to_string())]);
    assert_eq!(r.rows, vec![vec![DecodedValue::Number("7".to_string())]]);
    assert_eq!(execute(&mut db, "delete from t"), Err("nope".to_string()));
}

#[test]
fn execute_reports_plain_success() {
    let mut db = FakeDb { fail_columns: false, fail_fks: false };
    assert_eq!(execute(&mut db, "create table t (x int4)"), Ok("ok".to_string()));
}

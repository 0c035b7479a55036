use std::str::FromStr;

use rds_cli::cache::{ColumnMetadata, ForeignKeyRelationship, TableMetadata};
use rds_cli::config::SavedQuery;
use rds_cli::format::{
    column_rows, format_query_csv, format_query_result, format_query_table, relationship_rows,
    saved_queries_json, table_details_json, table_rows, tables_json, OutputFormat, Rendering,
};
use rds_cli::name_map::NameMap;

fn strings(items: &[&str]) -> Vec<String> {
    items.iter().map(|item| item.to_string()).collect()
}

fn sample_table() -> TableMetadata {
    TableMetadata {
        name: "orders".to_string(),
        columns: vec![
            ColumnMetadata {
                name: "id".to_string(),
                data_type: "integer".to_string(),
                nullable: false,
                default_value: Some("nextval('orders_id_seq')".to_string()),
                is_primary_key: true,
                is_foreign_key: false,
            },
            ColumnMetadata {
                name: "user_id".to_string(),
                data_type: "integer".to_string(),
                nullable: true,
                default_value: None,
                is_primary_key: false,
                is_foreign_key: true,
            },
        ],
        primary_key: strings(&["id", "tenant"]),
        foreign_keys: vec![ForeignKeyRelationship {
            constraint_name: "orders_user_fk".to_string(),
            source_table: "orders".to_string(),
            source_column: "user_id".to_string(),
            target_table: "users".to_string(),
            target_column: "id".to_string(),
        }],
        referenced_by: vec![],
    }
}

#[test]
fn test_format_from_str_table() {
    assert!(matches!(
        OutputFormat::from_str("table").unwrap(),
        OutputFormat::Table
    ));
    assert!(matches!(
        OutputFormat::from_str("TABLE").unwrap(),
        OutputFormat::Table
    ));
}

#[test]
fn test_format_from_str_json() {
    assert!(matches!(
        OutputFormat::from_str("json").unwrap(),
        OutputFormat::Json
    ));
    assert!(matches!(
        OutputFormat::from_str("JSON").unwrap(),
        OutputFormat::Json
    ));
}

#[test]
fn test_format_from_str_json_pretty() {
    assert!(matches!(
        OutputFormat::from_str("json-pretty").unwrap(),
        OutputFormat::JsonPretty
    ));
    assert!(matches!(
        OutputFormat::from_str("pretty").unwrap(),
        OutputFormat::JsonPretty
    ));
}

#[test]
fn test_format_from_str_csv() {
    assert!(matches!(
        OutputFormat::from_str("csv").unwrap(),
        OutputFormat::Csv
    ));
}

#[test]
fn test_format_from_str_invalid() {
    let result = OutputFormat::from_str("invalid");
    assert!(result.is_err());
    assert!(result
        .unwrap_err()
        .message()
        .contains("Unknown format: invalid"));
}

#[test]
fn format_parse_names_and_message() {
    assert_eq!(OutputFormat::parse("Csv").unwrap(), OutputFormat::Csv);
    assert_eq!(
        OutputFormat::parse("Json-Pretty").unwrap(),
        OutputFormat::JsonPretty
    );
    assert_eq!("PRETTY".parse::<OutputFormat>().unwrap(), OutputFormat::JsonPretty);
    for name in ["", " table", "tables", "json_pretty", "yaml"] {
        assert!(OutputFormat::parse(name).is_err());
    }
    let error = OutputFormat::parse("Yaml").unwrap_err();
    assert_eq!(error.name, "Yaml");
    assert_eq!(
        error.message(),
        "Unknown format: Yaml. Available: table, json, json-pretty, csv"
    );
}

#[test]
fn query_result_as_table() {
    let columns = strings(&["id", "name"]);
    let rows = vec![strings(&["1", "alice"]), strings(&["2", "bob"])];
    let text = format_query_table(&columns, &rows, 2);
    let rule = "-".repeat(40);
    assert_eq!(
        text,
        format!("id | name\n{}\n1 | alice\n2 | bob\n\n2 rows returned", rule)
    );
}

#[test]
fn query_result_as_table_without_columns_or_rows() {
    assert_eq!(format_query_table(&vec![], &vec![], 0), "\n\n\n0 rows returned");
    assert_eq!(
        format_query_table(&strings(&["only"]), &vec![vec![]], 12345),
        format!("only\n{}\n\n\n12345 rows returned", "-".repeat(20))
    );
}

#[test]
fn query_result_as_csv() {
    let columns = strings(&["id", "note"]);
    let rows = vec![
        strings(&["1", "plain"]),
        strings(&["2", "a,b"]),
        strings(&["3", "say \"hi\""]),
        strings(&["4", ""]),
        strings(&["5", "line\nbreak"]),
    ];
    assert_eq!(
        format_query_csv(&columns, &rows),
        "id,note\n1,plain\n2,\"a,b\"\n3,\"say \"\"hi\"\"\"\n4,\n5,line\nbreak\n"
    );
}

#[test]
fn query_result_as_csv_leaves_column_names_alone() {
    let columns = strings(&["a,b", "c\"d"]);
    assert_eq!(format_query_csv(&columns, &vec![]), "a,b,c\"d\n");
    assert_eq!(format_query_csv(&vec![], &vec![vec![]]), "\n\n");
}

#[test]
fn query_result_in_each_format() {
    let columns = strings(&["id"]);
    let rows = vec![strings(&["1"])];
    match format_query_result(&columns, &rows, 1, OutputFormat::Table) {
        Rendering::Text(text) => assert_eq!(text, format_query_table(&columns, &rows, 1)),
        other => panic!("unexpected rendering: {:?}", other),
    }
    match format_query_result(&columns, &rows, 1, OutputFormat::Csv) {
        Rendering::Text(text) => assert_eq!(text, "id\n1\n"),
        other => panic!("unexpected rendering: {:?}", other),
    }
    match format_query_result(&columns, &rows, 1, OutputFormat::Json) {
        Rendering::Json { record, pretty } => {
            assert!(!pretty);
            assert_eq!(record.columns, columns);
            assert_eq!(record.rows, rows);
            assert_eq!(record.rows_affected, 1);
        }
        other => panic!("unexpected rendering: {:?}", other),
    }
    match format_query_result(&columns, &rows, 1, OutputFormat::JsonPretty) {
        Rendering::Json { record, pretty } => {
            assert!(pretty);
            assert_eq!(record.columns, columns);
            assert_eq!(record.rows, rows);
            assert_eq!(record.rows_affected, 1);
        }
        other => panic!("unexpected rendering: {:?}", other),
    }
}

#[test]
fn rows_of_tables_columns_and_relationships() {
    let table = sample_table();
    let rows = table_rows(&vec![&table]);
    assert_eq!(rows.len(), 1);
    assert_eq!(rows[0].name, "orders");
    assert_eq!(rows[0].columns, 2);
    assert_eq!(rows[0].primary_key, "id, tenant");
    assert_eq!(rows[0].foreign_keys, 1);

    let rows = column_rows(&table.columns);
    assert_eq!(rows.len(), 2);
    assert_eq!(rows[0].name, "id");
    assert_eq!(rows[0].data_type, "integer");
    assert_eq!(rows[0].nullable, "NO");
    assert_eq!(rows[0].default_value, "nextval('orders_id_seq')");
    assert_eq!(rows[0].is_primary_key, "✓");
    assert_eq!(rows[0].is_foreign_key, "");
    assert_eq!(rows[1].nullable, "YES");
    assert_eq!(rows[1].default_value, "");
    assert_eq!(rows[1].is_primary_key, "");
    assert_eq!(rows[1].is_foreign_key, "✓");

    let rows = relationship_rows(&table.foreign_keys);
    assert_eq!(rows.len(), 1);
    assert_eq!(rows[0].constraint, "orders_user_fk");
    assert_eq!(rows[0].from, "orders.user_id");
    assert_eq!(rows[0].to, "users.id");
}

#[test]
fn records_of_tables() {
    let table = sample_table();
    let record = tables_json(&vec![&table, &table]);
    assert_eq!(record.tables.len(), 2);
    assert_eq!(record.tables[1].name, "orders");
    assert_eq!(record.tables[1].columns, 2);
    assert_eq!(record.tables[1].primary_key, strings(&["id", "tenant"]));
    assert_eq!(record.tables[1].foreign_keys, 1);

    let details = table_details_json(&table);
    assert_eq!(details.name, "orders");
    assert_eq!(details.columns.len(), 2);
    assert_eq!(details.columns[0].name, "id");
    assert!(!details.columns[0].nullable);
    assert_eq!(
        details.columns[0].default_value,
        Some("nextval('orders_id_seq')".to_string())
    );
    assert!(details.columns[0].is_primary_key);
    assert!(!details.columns[0].is_foreign_key);
    assert_eq!(details.columns[1].name, "user_id");
    assert_eq!(details.columns[1].data_type, "integer");
    assert!(details.columns[1].nullable);
    assert_eq!(details.columns[1].default_value, None);
    assert!(details.columns[1].is_foreign_key);
}

#[test]
fn records_of_saved_queries_are_sorted_by_name() {
    let mut queries: NameMap<SavedQuery> = NameMap::new();
    for (name, sql) in [("zeta", "SELECT 3"), ("alpha", "SELECT 1"), ("Beta", "SELECT 2")] {
        queries.insert(
            name.to_string(),
            SavedQuery {
                sql: sql.to_string(),
                description: if name == "alpha" {
                    Some("first".to_string())
                } else {
                    None
                },
                params: strings(&["p"]),
            },
        );
    }
    let record = saved_queries_json(&queries, true);
    let names: Vec<&str> = record.queries.iter().map(|q| q.name.as_str()).collect();
    assert_eq!(names, vec!["Beta", "alpha", "zeta"]);
    assert_eq!(record.queries[0].sql, Some("SELECT 2".to_string()));
    assert_eq!(record.queries[1].sql, Some("SELECT 1".to_string()));
    assert_eq!(record.queries[1].description, Some("first".to_string()));
    assert_eq!(record.queries[2].description, None);
    assert_eq!(record.queries[2].params, strings(&["p"]));

    let record = saved_queries_json(&queries, false);
    assert_eq!(record.queries.len(), 3);
    assert!(record.queries.iter().all(|q| q.sql.is_none()));
    assert!(saved_queries_json(&NameMap::new(), true).queries.is_empty());
}

use rds_cli::cache::{ForeignKeyRelationship, Timestamp};
use rds_cli::config::{DatabaseProfile, SafetyPolicy};
use rds_cli::db::{
    connection_string, format_datetime, format_duration, schema_name, timeout_statement,
    DatabaseKind,
};
use rds_cli::name_map::NameMap;
use rds_cli::schema::{
    add_column, add_foreign_key, assemble_tables, build_schema_cache, ColumnRecord,
};

fn record(table: &str, column: &str, nullable: &str, primary: bool) -> ColumnRecord {
    ColumnRecord {
        table_name: table.to_string(),
        column_name: column.to_string(),
        data_type: "integer".to_string(),
        is_nullable: nullable.to_string(),
        column_default: if primary {
            Some("0".to_string())
        } else {
            None
        },
        is_primary_key: primary,
    }
}

fn key(name: &str, source: (&str, &str), target: (&str, &str)) -> ForeignKeyRelationship {
    ForeignKeyRelationship {
        constraint_name: name.to_string(),
        source_table: source.0.to_string(),
        source_column: source.1.to_string(),
        target_table: target.0.to_string(),
        target_column: target.1.to_string(),
    }
}

fn profile() -> DatabaseProfile {
    DatabaseProfile {
        db_type: "postgresql".to_string(),
        host: "db.example.com".to_string(),
        port: 5432,
        user: "reader".to_string(),
        password: "p w".to_string(),
        database: "shop".to_string(),
        schema: None,
        safety: SafetyPolicy {
            default_limit: 100,
            max_limit: 1000,
            timeout_seconds: 5,
            allowed_operations: vec!["SELECT".to_string()],
        },
    }
}

#[test]
fn assemble_tables_groups_columns_and_marks_foreign_keys() {
    let columns = vec![
        record("orders", "id", "NO", true),
        record("orders", "user_id", "YES", false),
        record("users", "id", "NO", true),
        record("orders", "tenant", "no", true),
        record("users", "name", "YES", false),
    ];
    let keys = vec![
        key("orders_user", ("orders", "user_id"), ("users", "id")),
        key("ghost", ("missing", "x"), ("users", "id")),
        key("orders_tenant", ("orders", "tenant"), ("tenants", "id")),
        key("users_none", ("users", "nothing"), ("users", "id")),
    ];
    let tables = assemble_tables(columns, &keys);
    assert_eq!(tables.len(), 2);
    assert_eq!(tables.name_at(0), "orders");
    assert_eq!(tables.name_at(1), "users");

    let orders = tables.get("orders").unwrap();
    assert_eq!(orders.name, "orders");
    let names: Vec<&str> = orders.columns.iter().map(|c| c.name.as_str()).collect();
    assert_eq!(names, vec!["id", "user_id", "tenant"]);
    assert_eq!(orders.primary_key, vec!["id", "tenant"]);
    let marks: Vec<bool> = orders.columns.iter().map(|c| c.is_foreign_key).collect();
    assert_eq!(marks, vec![false, true, true]);
    let nullable: Vec<bool> = orders.columns.iter().map(|c| c.nullable).collect();
    assert_eq!(nullable, vec![false, true, false]);
    assert_eq!(orders.columns[0].default_value, Some("0".to_string()));
    assert_eq!(orders.columns[1].default_value, None);
    assert!(orders.columns[0].is_primary_key);
    assert!(!orders.columns[1].is_primary_key);
    let constraints: Vec<&str> = orders
        .foreign_keys
        .iter()
        .map(|k| k.constraint_name.as_str())
        .collect();
    assert_eq!(constraints, vec!["orders_user", "orders_tenant"]);
    assert_eq!(orders.foreign_keys[0].target_table, "users");
    assert_eq!(orders.foreign_keys[0].target_column, "id");
    assert!(orders.referenced_by.is_empty());

    let users = tables.get("users").unwrap();
    assert_eq!(users.columns.len(), 2);
    assert_eq!(users.primary_key, vec!["id"]);
    assert_eq!(users.foreign_keys.len(), 1);
    assert!(users.columns.iter().all(|c| !c.is_foreign_key));
}

#[test]
fn assemble_tables_of_nothing() {
    let tables = assemble_tables(vec![], &vec![key("k", ("a", "b"), ("c", "d"))]);
    assert!(tables.is_empty());
}

#[test]
fn add_column_and_foreign_key_step_by_step() {
    let mut tables = NameMap::new();
    add_foreign_key(&mut tables, &key("early", ("t", "a"), ("u", "b")));
    assert!(tables.is_empty());
    add_column(&mut tables, record("t", "a", "YES", false));
    add_column(&mut tables, record("t", "a", "YES", false));
    add_foreign_key(&mut tables, &key("late", ("t", "a"), ("u", "b")));
    let table = tables.get("t").unwrap();
    assert_eq!(table.columns.len(), 2);
    assert!(table.columns[0].is_foreign_key);
    assert!(table.columns[1].is_foreign_key);
    assert_eq!(table.foreign_keys.len(), 1);
    assert!(table.primary_key.is_empty());
}

#[test]
fn schema_cache_goes_by_database_and_kind() {
    let cached_at = Timestamp {
        seconds: 1_700_000_000,
        nanoseconds: 5,
    };
    let cache = build_schema_cache(
        DatabaseKind::MySql,
        &profile(),
        cached_at,
        vec![record("t", "a", "YES", false)],
        &vec![],
    );
    assert_eq!(cache.cached_at, cached_at);
    assert_eq!(cache.profile_name, "shop");
    assert_eq!(cache.database_type, "mysql");
    assert_eq!(cache.tables.len(), 1);
}

#[test]
fn connection_parameters_and_schema() {
    let mut profile = profile();
    assert_eq!(
        connection_string(&profile),
        "host=db.example.com port=5432 user=reader password=p w dbname=shop"
    );
    assert_eq!(schema_name(&profile), "public");
    profile.schema = Some("sales".to_string());
    profile.port = 0;
    assert_eq!(schema_name(&profile), "sales");
    assert!(connection_string(&profile).contains(" port=0 "));
}

#[test]
fn timeout_statements_are_in_milliseconds() {
    assert_eq!(
        timeout_statement(DatabaseKind::PostgreSql, 10),
        "SET statement_timeout = 10000"
    );
    assert_eq!(
        timeout_statement(DatabaseKind::MySql, 5),
        "SET max_execution_time = 5000"
    );
    assert_eq!(
        timeout_statement(DatabaseKind::PostgreSql, 0),
        "SET statement_timeout = 0"
    );
    assert_eq!(
        timeout_statement(DatabaseKind::MySql, u64::MAX),
        "SET max_execution_time = 18446744073709551615000"
    );
}

#[test]
fn dates_and_spans_of_mysql() {
    assert_eq!(
        format_datetime(2024, 3, 9, 7, 5, 1, 42),
        "2024-03-09 07:05:01.000042"
    );
    assert_eq!(
        format_datetime(0, 0, 0, 0, 0, 0, 0),
        "0000-00-00 00:00:00.000000"
    );
    assert_eq!(
        format_datetime(65535, 255, 255, 255, 255, 255, 4294967295),
        "65535-255-255 255:255:255.4294967295"
    );
    assert_eq!(
        format_duration(false, 1, 2, 3, 4, 5),
        ":26:03:04.000005"
    );
    assert_eq!(
        format_duration(true, 0, 0, 0, 0, 0),
        "-:00:00:00.000000"
    );
    assert_eq!(
        format_duration(false, 4294967295, 255, 59, 59, 999999),
        ":103079215335:59:59.999999"
    );
}

use rds_cli::cache::{CacheError, SchemaCache, TableMetadata, Timestamp};
use rds_cli::name_map::NameMap;

fn table(name: &str) -> TableMetadata {
    TableMetadata {
        name: name.to_string(),
        columns: vec![],
        primary_key: vec![],
        foreign_keys: vec![],
        referenced_by: vec![],
    }
}

fn cache_of(names: &[&str]) -> SchemaCache {
    let mut tables = NameMap::new();
    for name in names {
        tables.insert(name.to_string(), table(name));
    }
    SchemaCache {
        cached_at: Timestamp {
            seconds: 1_700_000_000,
            nanoseconds: 0,
        },
        profile_name: "test".to_string(),
        database_type: "postgresql".to_string(),
        tables,
    }
}

fn create_test_cache() -> SchemaCache {
    cache_of(&["users", "user_roles", "orders"])
}

#[test]
fn test_find_tables_exact() {
    let cache = create_test_cache();
    let results = cache.find_tables("users");
    assert_eq!(results.len(), 1);
    assert_eq!(results[0].name, "users");
}

#[test]
fn test_find_tables_partial() {
    let cache = create_test_cache();
    let results = cache.find_tables("user");
    assert_eq!(results.len(), 2); // users and user_roles
}

#[test]
fn test_find_tables_case_insensitive() {
    let cache = create_test_cache();
    let results = cache.find_tables("USER");
    assert_eq!(results.len(), 2);
}

#[test]
fn test_find_tables_no_match() {
    let cache = create_test_cache();
    let results = cache.find_tables("nonexistent");
    assert_eq!(results.len(), 0);
}

#[test]
fn test_suggest_tables_exact() {
    let cache = create_test_cache();
    let suggestions = cache.suggest_tables("users");
    assert!(suggestions.len() > 0);
    assert_eq!(suggestions[0].0, "users");
    assert_eq!(suggestions[0].1, 0); // distance 0 (exact match comes first)
}

#[test]
fn test_suggest_tables_typo() {
    let cache = create_test_cache();
    let suggestions = cache.suggest_tables("user");
    assert!(suggestions.len() > 0);
    // "users" should be first (distance 1)
    assert_eq!(suggestions[0].0, "users");
    assert_eq!(suggestions[0].1, 1);
}

#[test]
fn test_suggest_tables_max_distance() {
    let cache = create_test_cache();
    let suggestions = cache.suggest_tables("usr");
    assert!(suggestions.len() > 0);
    // distance should be <= 3
    for (_, dist) in &suggestions {
        assert!(*dist <= 3);
    }
}

#[test]
fn test_suggest_tables_sorted_by_distance() {
    let cache = create_test_cache();
    let suggestions = cache.suggest_tables("user");
    // Should be sorted by distance (ascending)
    for i in 1..suggestions.len() {
        assert!(suggestions[i].1 >= suggestions[i - 1].1);
    }
}

#[test]
fn test_suggest_tables_max_3_results() {
    let cache = create_test_cache();
    let suggestions = cache.suggest_tables("o");
    assert!(suggestions.len() <= 3);
}

#[test]
fn find_tables_keeps_the_order_of_the_tables() {
    let cache = cache_of(&["b_log", "Audit_LOG", "plain", "logs"]);
    let names: Vec<&str> = cache
        .find_tables("Log")
        .iter()
        .map(|t| t.name.as_str())
        .collect();
    assert_eq!(names, vec!["b_log", "Audit_LOG", "logs"]);
    assert_eq!(cache.find_tables("").len(), 4);
    assert_eq!(cache.find_tables("plain!").len(), 0);
}

#[test]
fn suggest_tables_gives_the_three_nearest_in_order() {
    let cache = cache_of(&["abcd", "abc", "ab", "a", "abcdefgh", "abce"]);
    // distances from "abc": abcd 1, abc 0, ab 1, a 2, abcdefgh 5, abce 1
    assert_eq!(
        cache.suggest_tables("abc"),
        vec![
            ("abc".to_string(), 0),
            ("abcd".to_string(), 1),
            ("ab".to_string(), 1)
        ]
    );
    // distances from "xyz": 4, 3, 3, 3, 8, 4
    assert_eq!(
        cache.suggest_tables("xyz"),
        vec![
            ("abc".to_string(), 3),
            ("ab".to_string(), 3),
            ("a".to_string(), 3)
        ]
    );
    assert_eq!(cache.suggest_tables("abcdefghijkl"), vec![]);
    assert_eq!(cache_of(&[]).suggest_tables("abc"), vec![]);
}

#[test]
fn get_table_or_the_tables_that_may_be_meant() {
    let cache = create_test_cache();
    assert_eq!(cache.get_table("orders").unwrap().name, "orders");
    assert!(cache.get_table("Orders").is_none());
    assert_eq!(cache.get_table_or_error("users").unwrap().name, "users");

    let error = cache.get_table_or_error("order").unwrap_err();
    assert_eq!(error.name, "order");
    assert_eq!(error.suggestions, vec![("orders".to_string(), 1)]);

    let error = cache.get_table_or_error("zzzzzzzzzz").unwrap_err();
    assert!(error.suggestions.is_empty());
}

#[test]
fn cache_file_stands_below_the_profile_directory() {
    assert_eq!(
        SchemaCache::cache_dir(Some("/home/u/.config"), "local"),
        Ok("/home/u/.config/rds-cli/cache/local".to_string())
    );
    assert_eq!(
        SchemaCache::cache_path(Some("/home/u/.config"), "local"),
        Ok("/home/u/.config/rds-cli/cache/local/schema.json".to_string())
    );
    assert_eq!(
        SchemaCache::cache_path(None, "local"),
        Err(CacheError::NoConfigDirectory)
    );
}

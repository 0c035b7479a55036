use rds_cli::query_manager::{QueryManager, QueryManagerError};

#[test]
fn test_extract_params_single() {
    let sql = "SELECT * FROM users WHERE email = :email";
    let params = QueryManager::extract_params(sql);
    assert_eq!(params, vec!["email"]);
}

#[test]
fn test_extract_params_multiple() {
    let sql = "SELECT * FROM orders WHERE user_id = :user_id AND status = :status";
    let params = QueryManager::extract_params(sql);
    assert_eq!(params, vec!["status", "user_id"]); // sorted
}

#[test]
fn test_extract_params_duplicates() {
    let sql = "SELECT * FROM logs WHERE :date >= start AND :date <= end";
    let params = QueryManager::extract_params(sql);
    assert_eq!(params, vec!["date"]); // deduplicated
}

#[test]
fn test_extract_params_none() {
    let sql = "SELECT * FROM users";
    let params = QueryManager::extract_params(sql);
    assert_eq!(params, Vec::<String>::new());
}

#[test]
fn test_extract_params_complex() {
    let sql = "SELECT * FROM orders WHERE user_id = :user_id AND status = :status LIMIT :limit";
    let params = QueryManager::extract_params(sql);
    assert_eq!(params, vec!["limit", "status", "user_id"]); // sorted
}

#[test]
fn extract_params_takes_words_after_colons() {
    assert_eq!(
        QueryManager::extract_params("a::text, :b1-:_c :: :é :"),
        vec!["_c", "b1", "text", "é"]
    );
    assert_eq!(
        QueryManager::extract_params(":b :a :B :A :a1 :a"),
        vec!["A", "B", "a", "a1", "b"]
    );
    assert_eq!(QueryManager::extract_params(""), Vec::<String>::new());
}

#[test]
fn sorted_params_orders_and_drops_repetitions() {
    let found = vec![
        Some("b".to_string()),
        None,
        Some("a".to_string()),
        Some("b".to_string()),
        Some("ab".to_string()),
        Some("".to_string()),
    ];
    assert_eq!(QueryManager::sorted_params(&found), vec!["", "a", "ab", "b"]);
    assert_eq!(
        QueryManager::sorted_params(&vec![None, None]),
        Vec::<String>::new()
    );
}

#[test]
fn query_manager_keeps_the_project_file() {
    let manager = QueryManager::new(Some("/work/project")).unwrap();
    assert_eq!(manager.config_path, "/work/project/.rds-cli.toml");
    let error = QueryManager::new(None).unwrap_err();
    assert_eq!(error, QueryManagerError::NotInProject);
    assert_eq!(error.message(), "Not in a project directory");
}

#[test]
fn query_details_name_the_parameters_of_the_sql() {
    let details = QueryManager::query_details(
        "recent",
        "SELECT * FROM t WHERE b = :b AND a = :a",
        Some("Recent rows"),
    );
    assert_eq!(details.name, "recent");
    assert_eq!(details.sql, "SELECT * FROM t WHERE b = :b AND a = :a");
    assert_eq!(details.description, Some("Recent rows".to_string()));
    assert_eq!(details.params, vec!["a", "b"]);
    let details = QueryManager::query_details("plain", "SELECT 1", None);
    assert_eq!(details.description, None);
    assert!(details.params.is_empty());
}

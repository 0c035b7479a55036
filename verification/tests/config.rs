use rds_cli::config::{
    default_cache_ttl, default_output_format, default_profile, join_path, password_variable_name,
    resolve_password, ApplicationConfig, ConfigError, DatabaseProfile, DefaultSettings,
    SafetyPolicy, SavedQuery,
};
use rds_cli::crypto::Crypto;
use rds_cli::name_map::NameMap;

fn profile(db_type: &str, host: &str, password: &str) -> DatabaseProfile {
    DatabaseProfile {
        db_type: db_type.to_string(),
        host: host.to_string(),
        port: 5432,
        user: "user1".to_string(),
        password: password.to_string(),
        database: "db1".to_string(),
        schema: Some("public".to_string()),
        safety: SafetyPolicy {
            default_limit: 1000,
            max_limit: 10000,
            timeout_seconds: 10,
            allowed_operations: vec!["SELECT".to_string()],
        },
    }
}

#[test]
fn test_default_settings() {
    let defaults = DefaultSettings::default();
    assert_eq!(defaults.default_profile, "local");
    assert_eq!(defaults.cache_ttl_hours, 24);
    assert_eq!(defaults.output_format, "table");
}

#[test]
fn test_merge_profiles() {
    let mut config1 = ApplicationConfig::default();
    config1.profiles.insert(
        "local".to_string(),
        DatabaseProfile {
            db_type: "postgresql".to_string(),
            host: "localhost".to_string(),
            port: 5432,
            user: "user1".to_string(),
            password: "".to_string(),
            database: "db1".to_string(),
            schema: Some("public".to_string()),
            safety: SafetyPolicy {
                default_limit: 1000,
                max_limit: 10000,
                timeout_seconds: 10,
                allowed_operations: vec!["SELECT".to_string()],
            },
        },
    );

    let mut config2 = ApplicationConfig::default();
    config2.profiles.insert(
        "production".to_string(),
        DatabaseProfile {
            db_type: "mysql".to_string(),
            host: "prod.example.com".to_string(),
            port: 3306,
            user: "readonly".to_string(),
            password: "".to_string(),
            database: "prod_db".to_string(),
            schema: None,
            safety: SafetyPolicy {
                default_limit: 100,
                max_limit: 1000,
                timeout_seconds: 5,
                allowed_operations: vec!["SELECT".to_string()],
            },
        },
    );

    let merged = config1.merge(config2);
    assert_eq!(merged.profiles.len(), 2);
    assert!(merged.profiles.contains_key("local"));
    assert!(merged.profiles.contains_key("production"));
}

#[test]
fn test_merge_override_profile() {
    let mut config1 = ApplicationConfig::default();
    config1.profiles.insert(
        "local".to_string(),
        DatabaseProfile {
            db_type: "postgresql".to_string(),
            host: "localhost".to_string(),
            port: 5432,
            user: "user1".to_string(),
            password: "".to_string(),
            database: "db1".to_string(),
            schema: Some("public".to_string()),
            safety: SafetyPolicy {
                default_limit: 1000,
                max_limit: 10000,
                timeout_seconds: 10,
                allowed_operations: vec!["SELECT".to_string()],
            },
        },
    );

    let mut config2 = ApplicationConfig::default();
    config2.profiles.insert(
        "local".to_string(),
        DatabaseProfile {
            db_type: "mysql".to_string(),
            host: "other.example.com".to_string(),
            port: 3306,
            user: "user2".to_string(),
            password: "".to_string(),
            database: "db2".to_string(),
            schema: None,
            safety: SafetyPolicy {
                default_limit: 100,
                max_limit: 1000,
                timeout_seconds: 5,
                allowed_operations: vec!["SELECT".to_string()],
            },
        },
    );

    let merged = config1.merge(config2);
    assert_eq!(merged.profiles.len(), 1);
    let local = merged.profiles.get("local").unwrap();
    assert_eq!(local.db_type, "mysql"); // overridden
    assert_eq!(local.host, "other.example.com"); // overridden
}

#[test]
fn test_merge_saved_queries() {
    let mut config1 = ApplicationConfig::default();
    config1.saved_queries.insert(
        "query1".to_string(),
        SavedQuery {
            sql: "SELECT 1".to_string(),
            description: Some("Test 1".to_string()),
            params: vec![],
        },
    );

    let mut config2 = ApplicationConfig::default();
    config2.saved_queries.insert(
        "query2".to_string(),
        SavedQuery {
            sql: "SELECT 2".to_string(),
            description: Some("Test 2".to_string()),
            params: vec![],
        },
    );

    let merged = config1.merge(config2);
    assert_eq!(merged.saved_queries.len(), 2);
    assert!(merged.saved_queries.contains_key("query1"));
    assert!(merged.saved_queries.contains_key("query2"));
}

#[test]
fn test_merge_defaults() {
    let mut config1 = ApplicationConfig::default();
    config1.defaults.default_profile = "local".to_string();

    let mut config2 = ApplicationConfig::default();
    config2.defaults.default_profile = "production".to_string();
    config2.defaults.cache_ttl_hours = 48;

    let merged = config1.merge(config2);
    assert_eq!(merged.defaults.default_profile, "production"); // overridden
    assert_eq!(merged.defaults.cache_ttl_hours, 48); // overridden
}

#[test]
fn default_values() {
    assert_eq!(default_profile(), "local");
    assert_eq!(default_cache_ttl(), 24);
    assert_eq!(default_output_format(), "table");
    let config = ApplicationConfig::default();
    assert!(config.profiles.is_empty());
    assert!(config.saved_queries.is_empty());
    assert_eq!(config.defaults.default_profile, "local");
}

#[test]
fn merge_leaves_settings_that_the_upper_layer_does_not_give() {
    let mut base = ApplicationConfig::default();
    base.defaults.default_profile = "base".to_string();
    base.defaults.cache_ttl_hours = 12;
    base.defaults.output_format = "csv".to_string();

    let mut over = ApplicationConfig::default();
    over.defaults.default_profile = String::new();
    over.defaults.cache_ttl_hours = 0;
    over.defaults.output_format = String::new();

    let merged = base.merge(over);
    assert_eq!(merged.defaults.default_profile, "base");
    assert_eq!(merged.defaults.cache_ttl_hours, 12);
    assert_eq!(merged.defaults.output_format, "csv");
}

#[test]
fn merge_keeps_the_place_of_an_overridden_profile() {
    let mut base = ApplicationConfig::default();
    base.profiles
        .insert("a".to_string(), profile("postgresql", "a1", ""));
    base.profiles
        .insert("b".to_string(), profile("postgresql", "b1", ""));
    let mut over = ApplicationConfig::default();
    over.profiles
        .insert("c".to_string(), profile("mysql", "c2", ""));
    over.profiles
        .insert("a".to_string(), profile("mysql", "a2", ""));

    let merged = base.merge(over);
    assert_eq!(merged.profiles.len(), 3);
    assert_eq!(merged.profiles.name_at(0), "a");
    assert_eq!(merged.profiles.value_at(0).host, "a2");
    assert_eq!(merged.profiles.name_at(1), "b");
    assert_eq!(merged.profiles.value_at(1).host, "b1");
    assert_eq!(merged.profiles.name_at(2), "c");
    assert_eq!(merged.profiles.value_at(2).host, "c2");
}

#[test]
fn get_profile_and_saved_query_by_name() {
    let mut config = ApplicationConfig::default();
    config
        .profiles
        .insert("local".to_string(), profile("postgresql", "localhost", ""));
    config.saved_queries.insert(
        "recent".to_string(),
        SavedQuery {
            sql: "SELECT 1".to_string(),
            description: None,
            params: vec![],
        },
    );

    assert_eq!(config.get_profile("local").unwrap().host, "localhost");
    assert_eq!(config.get_saved_query("recent").unwrap().sql, "SELECT 1");

    let error = config.get_profile("Local").unwrap_err();
    assert!(matches!(&error, ConfigError::ProfileNotFound(name) if name == "Local"));
    assert_eq!(error.message(), "Profile 'Local' not found");

    let error = config.get_saved_query("old").unwrap_err();
    assert!(matches!(&error, ConfigError::SavedQueryNotFound(name) if name == "old"));
    assert_eq!(error.message(), "Saved query 'old' not found");
}

#[test]
fn paths_of_the_configuration() {
    assert_eq!(
        ApplicationConfig::config_base_dir(Some("/xdg"), Some("/home/u")),
        Some("/xdg/rds-cli".to_string())
    );
    assert_eq!(
        ApplicationConfig::config_base_dir(None, Some("/home/u")),
        Some("/home/u/.config/rds-cli".to_string())
    );
    assert_eq!(
        ApplicationConfig::config_base_dir(None, Some("/home/u/")),
        Some("/home/u/.config/rds-cli".to_string())
    );
    assert_eq!(ApplicationConfig::config_base_dir(None, None), None);
    assert_eq!(
        ApplicationConfig::user_config_path(None, Some("/home/u")),
        Some("/home/u/.config/rds-cli/config.toml".to_string())
    );
    assert_eq!(ApplicationConfig::user_config_path(None, None), None);
    assert_eq!(
        ApplicationConfig::project_config_path(Some("/work/project")),
        Some("/work/project/.rds-cli.toml".to_string())
    );
    assert_eq!(ApplicationConfig::project_config_path(None), None);
}

#[test]
fn join_path_uses_one_separator() {
    assert_eq!(join_path("/a", "b"), "/a/b");
    assert_eq!(join_path("/a/", "b"), "/a/b");
    assert_eq!(join_path("", "b"), "b");
    assert_eq!(join_path("/", "b"), "/b");
    assert_eq!(join_path("a", ""), "a/");
}

#[test]
fn password_variable_is_the_profile_name_in_upper_case() {
    assert_eq!(password_variable_name("local"), "DB_PASSWORD_LOCAL");
    assert_eq!(password_variable_name("Prod-1"), "DB_PASSWORD_PROD-1");
    assert_eq!(password_variable_name("straße"), "DB_PASSWORD_STRASSE");
    assert_eq!(password_variable_name(""), "DB_PASSWORD_");
}

#[test]
fn resolve_password_by_token_or_environment() {
    let crypto = Crypto::new(&[8u8; 32]);
    let other = Crypto::new(&[9u8; 32]);
    let token = crypto.encrypt("s3cr3t").unwrap();
    let mut environment: NameMap<String> = NameMap::new();
    environment.insert("DB_PASSWORD_LOCAL".to_string(), "from-env".to_string());

    assert_eq!(
        resolve_password(&token, "local", Some(&crypto), &environment),
        "s3cr3t"
    );
    assert_eq!(
        resolve_password(&token, "local", Some(&other), &environment),
        token
    );
    assert_eq!(resolve_password(&token, "local", None, &environment), token);
    assert_eq!(
        resolve_password("plain", "local", Some(&crypto), &environment),
        "from-env"
    );
    assert_eq!(
        resolve_password("", "Local", None, &environment),
        "from-env"
    );
    assert_eq!(
        resolve_password("plain", "other", Some(&crypto), &environment),
        "plain"
    );
}

#[test]
fn load_layers_and_resolves() {
    let crypto = Crypto::new(&[8u8; 32]);
    let token = crypto.encrypt("s3cr3t").unwrap();

    let mut user = ApplicationConfig::default();
    user.profiles
        .insert("local".to_string(), profile("postgresql", "user-host", "x"));
    user.profiles
        .insert("stage".to_string(), profile("mysql", "stage-host", &token));
    user.defaults.cache_ttl_hours = 48;
    user.defaults.default_profile = "stage".to_string();

    let mut project = ApplicationConfig::default();
    project.profiles.insert(
        "local".to_string(),
        profile("postgresql", "project-host", "legacy"),
    );
    project.saved_queries.insert(
        "q".to_string(),
        SavedQuery {
            sql: "SELECT :a".to_string(),
            description: None,
            params: vec!["a".to_string()],
        },
    );
    project.defaults.default_profile = String::new();
    project.defaults.output_format = "json".to_string();

    let mut environment: NameMap<String> = NameMap::new();
    environment.insert("DB_PASSWORD_LOCAL".to_string(), "from-env".to_string());
    environment.insert("DB_PASSWORD_STAGE".to_string(), "ignored".to_string());

    let config = ApplicationConfig::load(
        Some(user),
        Some(project),
        Some(&crypto),
        &environment,
        None,
    );
    assert_eq!(config.profiles.len(), 2);
    let local = config.get_profile("local").unwrap();
    assert_eq!(local.host, "project-host");
    assert_eq!(local.password, "from-env");
    let stage = config.get_profile("stage").unwrap();
    assert_eq!(stage.host, "stage-host");
    assert_eq!(stage.password, "s3cr3t");
    assert_eq!(stage.db_type, "mysql");
    assert_eq!(config.saved_queries.len(), 1);
    assert_eq!(config.defaults.default_profile, "stage");
    assert_eq!(config.defaults.cache_ttl_hours, 24);
    assert_eq!(config.defaults.output_format, "json");
}

#[test]
fn load_without_layers_gives_the_defaults() {
    let environment: NameMap<String> = NameMap::new();
    let config = ApplicationConfig::load(None, None, None, &environment, None);
    assert!(config.profiles.is_empty());
    assert!(config.saved_queries.is_empty());
    assert_eq!(config.defaults.default_profile, "local");
    assert_eq!(config.defaults.cache_ttl_hours, 24);
    assert_eq!(config.defaults.output_format, "table");

    let config = ApplicationConfig::load(
        None,
        None,
        None,
        &environment,
        Some("production".to_string()),
    );
    assert_eq!(config.defaults.default_profile, "production");
}

#[test]
fn load_env_vars_changes_passwords_alone() {
    let mut config = ApplicationConfig::default();
    config
        .profiles
        .insert("a".to_string(), profile("postgresql", "host-a", "enc:broken"));
    config
        .profiles
        .insert("b".to_string(), profile("mysql", "host-b", ""));
    let mut environment: NameMap<String> = NameMap::new();
    environment.insert("DB_PASSWORD_B".to_string(), "pw-b".to_string());
    environment.insert("DB_PASSWORD_A".to_string(), "pw-a".to_string());
    let crypto = Crypto::new(&[1u8; 32]);

    config.load_env_vars(Some(&crypto), &environment);
    assert_eq!(config.profiles.len(), 2);
    assert_eq!(config.profiles.name_at(0), "a");
    assert_eq!(config.profiles.value_at(0).password, "enc:broken");
    assert_eq!(config.profiles.value_at(0).host, "host-a");
    assert_eq!(config.profiles.value_at(0).db_type, "postgresql");
    assert_eq!(config.profiles.name_at(1), "b");
    assert_eq!(config.profiles.value_at(1).password, "pw-b");
    assert_eq!(config.profiles.value_at(1).host, "host-b");
    assert_eq!(
        config.profiles.value_at(1).safety.allowed_operations,
        vec!["SELECT".to_string()]
    );
}

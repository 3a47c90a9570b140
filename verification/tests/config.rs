use dev_recap::cli::{Cli, Commands};
use dev_recap::config::{
    apply_cli_overrides, default_cache_ttl, default_exclude_patterns, default_timespan,
    default_true, Config,
};
use dev_recap::error::DevRecapError;

#[test]
fn test_config_default() {
    let config = Config::default();
    assert_eq!(config.default_timespan_days, 14);
    assert!(config.cache_enabled);
    assert_eq!(config.cache_ttl_hours, 168);
    assert!(!config.exclude_patterns.is_empty());
}

#[test]
fn test_config_default_values() {
    assert_eq!(default_timespan(), 14);
    assert_eq!(default_cache_ttl(), 168);
    assert!(default_true());
    assert_eq!(
        default_exclude_patterns(),
        vec![
            "node_modules",
            "target",
            ".git",
            "dist",
            "build",
            "__pycache__",
            ".venv",
            "vendor",
            ".next",
            "out"
        ]
    );
    let config = Config::default();
    assert!(config.default_author_email.is_none());
    assert!(config.claude_api_key.is_none());
    assert!(config.max_scan_depth.is_none());
}

#[test]
fn test_config_validation_empty_api_key() {
    let mut config = Config::default();
    config.claude_api_key = Some(String::new());
    assert!(config.validate().is_err());
}

#[test]
fn test_config_validation_any_key_format() {
    let mut config = Config::default();
    config.claude_api_key = Some(String::from("custom-auth-token-123"));
    assert!(config.validate().is_ok());

    config.claude_api_key = Some(String::from("sk-ant-valid-key-123"));
    assert!(config.validate().is_ok());

    config.claude_api_key = Some(String::from("bearer-token"));
    assert!(config.validate().is_ok());
}

#[test]
fn test_config_validation_no_api_key() {
    let mut config = Config::default();
    config.claude_api_key = None;
    assert!(config.validate().is_ok());
}

#[test]
fn test_config_validation_errors_and_their_order() {
    let mut config = Config::default();
    config.claude_api_key = Some(String::new());
    config.default_timespan_days = 0;
    config.cache_ttl_hours = 0;
    match config.validate() {
        Err(DevRecapError::MissingConfig(text)) => assert_eq!(text, "claude_api_key cannot be empty"),
        other => panic!("unexpected: {:?}", other),
    }
    config.claude_api_key = None;
    match config.validate() {
        Err(DevRecapError::Config(text)) => assert_eq!(text, "default_timespan_days must be > 0"),
        other => panic!("unexpected: {:?}", other),
    }
    config.default_timespan_days = 1;
    match config.validate() {
        Err(DevRecapError::Config(text)) => assert_eq!(text, "cache_ttl_hours must be > 0"),
        other => panic!("unexpected: {:?}", other),
    }
    config.cache_ttl_hours = 1;
    assert!(config.validate().is_ok());
}

#[test]
fn test_get_api_key_from_config() {
    let mut config = Config::default();
    config.claude_api_key = Some("sk-ant-test-key".to_string());
    assert!(config.get_api_key().is_ok());
    assert_eq!(config.get_api_key().unwrap(), "sk-ant-test-key");
}

#[test]
fn test_get_api_key_missing() {
    let config = Config::default();
    assert!(config.get_api_key().is_err());
    match config.get_api_key() {
        Err(e) => assert_eq!(
            e.message(),
            "Missing required configuration: claude_api_key is required (set ANTHROPIC_AUTH_TOKEN env var or add to config file)"
        ),
        Ok(_) => panic!("a key came back"),
    }
}

#[test]
fn test_get_base_url_and_model() {
    let mut config = Config::default();
    assert!(config.get_base_url().is_none());
    assert!(config.get_model().is_none());
    config.claude_api_base_url = Some("http://localhost:4000".to_string());
    config.claude_model = Some("some-model".to_string());
    assert_eq!(config.get_base_url(), Some("http://localhost:4000".to_string()));
    assert_eq!(config.get_model(), Some("some-model".to_string()));
}

#[test]
fn test_apply_overrides_from_environment() {
    let mut config = Config::default();
    config.claude_api_key = Some("from-file".to_string());
    config.apply_overrides(Some("from-env".to_string()), None);
    assert_eq!(config.claude_api_key, Some("from-env".to_string()));
    assert!(config.claude_api_base_url.is_none());
    config.apply_overrides(None, Some("http://base".to_string()));
    assert_eq!(config.claude_api_key, Some("from-env".to_string()));
    assert_eq!(config.claude_api_base_url, Some("http://base".to_string()));
    assert_eq!(config.default_timespan_days, 14);
}

#[test]
fn test_apply_cli_overrides() {
    let mut cli = Cli::empty();
    let same = apply_cli_overrides(Config::default(), &cli);
    assert!(same.default_author_email.is_none());
    assert_eq!(same.default_timespan_days, 14);
    assert!(same.cache_enabled);
    assert!(same.max_scan_depth.is_none());

    cli.author = Some("a@b.c".to_string());
    cli.days = Some(30);
    cli.no_cache = true;
    cli.max_depth = Some(3);
    let changed = apply_cli_overrides(Config::default(), &cli);
    assert_eq!(changed.default_author_email, Some("a@b.c".to_string()));
    assert_eq!(changed.default_timespan_days, 30);
    assert!(!changed.cache_enabled);
    assert_eq!(changed.max_scan_depth, Some(3));
    assert_eq!(changed.cache_ttl_hours, 168);
}

#[test]
fn test_cli_validation_days_and_since() {
    let mut cli = Cli::empty();
    cli.days = Some(30);
    cli.since = Some("2025-01-01".to_string());
    assert!(cli.validate().is_err());
    assert_eq!(
        cli.validate().unwrap_err(),
        "Cannot specify both --days and --since/--until. Choose one."
    );
}

#[test]
fn test_cli_validation_authors_without_team() {
    let mut cli = Cli::empty();
    cli.authors = Some(vec!["alice@example.com".to_string()]);
    assert!(cli.validate().is_err());
    assert_eq!(cli.validate().unwrap_err(), "--authors requires --team flag");
}

#[test]
fn test_cli_validation_team_rules() {
    let mut cli = Cli::empty();
    assert!(cli.validate().is_ok());
    cli.team = true;
    assert!(cli.validate().is_ok());
    cli.dry_run = true;
    assert_eq!(
        cli.validate().unwrap_err(),
        "Team mode in non-interactive mode requires --authors"
    );
    cli.authors = Some(vec!["a@b.c".to_string(), "d@e.f".to_string()]);
    assert!(cli.validate().is_ok());
    cli.days = Some(1);
    cli.until = Some("2025-01-01".to_string());
    assert!(cli.validate().is_err());
}

#[test]
fn test_cli_is_non_interactive() {
    let mut cli = Cli::empty();
    assert!(!cli.is_non_interactive());
    cli.output = Some("summary.md".to_string());
    assert!(cli.is_non_interactive());
    let mut cli = Cli::empty();
    cli.command = Some(Commands::Init { force: false });
    assert!(cli.is_non_interactive());
    let mut cli = Cli::empty();
    cli.non_interactive = true;
    assert!(cli.is_non_interactive());
    let mut cli = Cli::empty();
    cli.dry_run = true;
    assert!(cli.is_non_interactive());
}

#[test]
fn test_error_messages() {
    assert_eq!(DevRecapError::config("x").message(), "Configuration error: x");
    assert_eq!(DevRecapError::claude_api("y").message(), "API error: y");
    assert_eq!(DevRecapError::other("z").message(), "z");
    assert_eq!(
        DevRecapError::NoCommitsFound { author: "any".to_string() }.message(),
        "No commits found for author any in timespan"
    );
    assert_eq!(DevRecapError::Git("g".to_string()).message(), "Git error: g");
    assert_eq!(DevRecapError::Io("g".to_string()).message(), "IO error: g");
    assert_eq!(DevRecapError::TomlParse("g".to_string()).message(), "TOML parse error: g");
    assert_eq!(
        DevRecapError::TomlSerialize("g".to_string()).message(),
        "TOML serialization error: g"
    );
    assert_eq!(DevRecapError::Http("g".to_string()).message(), "HTTP error: g");
    assert_eq!(DevRecapError::Json("g".to_string()).message(), "JSON error: g");
    assert_eq!(DevRecapError::Cache("g".to_string()).message(), "Cache error: g");
    assert_eq!(
        DevRecapError::RepositoryNotFound("/p".to_string()).message(),
        "Repository not found at path: /p"
    );
    assert_eq!(
        DevRecapError::InvalidTimespan("g".to_string()).message(),
        "Invalid timespan: g"
    );
    assert_eq!(
        DevRecapError::MissingConfig("g".to_string()).message(),
        "Missing required configuration: g"
    );
    assert_eq!(DevRecapError::Regex("g".to_string()).message(), "Regex error: g");
}

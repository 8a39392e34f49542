use github_actions_demo::config::{decimal_text, parse_usize, AppConfig, ConfigError};

fn required() -> Option<String> {
    Some("test-items".to_string())
}

fn load(
    table: Option<String>,
    region: Option<&str>,
    page: Option<&str>,
) -> Result<AppConfig, ConfigError> {
    AppConfig::from_vars(
        table,
        region.map(|s| s.to_string()),
        None,
        None,
        page.map(|s| s.to_string()),
    )
}

#[test]
fn loads_with_required_vars() {
    let config = load(required(), None, None).unwrap();
    assert_eq!(config.table_name(), "test-items");
    assert_eq!(config.aws_region(), "ap-southeast-2");
    assert_eq!(config.log_level(), "info");
    assert_eq!(config.max_page_size(), 50);
}

#[test]
fn fails_without_table_name() {
    let result = load(None, None, None);
    assert!(result.is_err());
}

#[test]
fn respects_custom_region() {
    let config = load(required(), Some("us-east-1"), None).unwrap();
    assert_eq!(config.aws_region(), "us-east-1");
}

#[test]
fn rejects_zero_page_size() {
    let result = load(required(), None, Some("0"));
    assert!(result.is_err());
}

#[test]
fn rejects_page_size_over_100() {
    let result = load(required(), None, Some("200"));
    assert!(result.is_err());
}

#[test]
fn rejects_non_numeric_page_size() {
    let result = load(required(), None, Some("abc"));
    assert!(result.is_err());
}

#[test]
fn default_region_and_log_level() {
    let config = AppConfig::from_vars(
        required(),
        None,
        Some("eu-west-1".to_string()),
        Some("debug".to_string()),
        Some("100".to_string()),
    )
    .unwrap();
    assert_eq!(config.aws_region(), "eu-west-1");
    assert_eq!(config.log_level(), "debug");
    assert_eq!(config.max_page_size(), 100);
}

#[test]
fn config_errors() {
    assert_eq!(load(None, None, Some("abc")).unwrap_err(), ConfigError::MissingTableName);
    assert_eq!(load(required(), None, Some("")).unwrap_err(), ConfigError::PageSizeNotANumber);
    assert_eq!(
        load(required(), None, Some("101")).unwrap_err(),
        ConfigError::PageSizeOutOfRange(101)
    );
    assert_eq!(
        ConfigError::PageSizeOutOfRange(200).to_string(),
        "MAX_PAGE_SIZE must be between 1 and 100, got 200"
    );
    assert_eq!(ConfigError::MissingTableName.to_string(), "TABLE_NAME is required");
    assert_eq!(ConfigError::PageSizeNotANumber.to_string(), "MAX_PAGE_SIZE must be a number");
    assert_eq!(load(required(), None, Some("+7")).unwrap().max_page_size(), 7);
}

#[test]
fn parse_usize_matches_std() {
    for s in ["0", "42", "+42", "", "+", "-1", " 1", "1 ", "007", "18446744073709551615", "18446744073709551616", "99999999999999999999999", "1a"] {
        assert_eq!(parse_usize(s), s.parse::<usize>().ok(), "input {s:?}");
    }
}

#[test]
fn decimal_text_round_trips() {
    for n in [0usize, 7, 10, 100, 4096, usize::MAX] {
        let text = decimal_text(n);
        assert_eq!(text, n.to_string());
        assert_eq!(parse_usize(&text), Some(n));
    }
}

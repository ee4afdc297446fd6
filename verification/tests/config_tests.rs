use tonglan::ai_config::{
    upgrade_config_command, upgrade_legacy_ai_config, validate_max_tokens, MAX_MAX_TOKENS,
    UPGRADED_MAX_TOKENS,
};
use tonglan::search_config::{validate_search_config, SearchConfig, SearchProvider};
use tonglan::settings::{
    default_app_name, default_file_pattern, default_period, default_theme, default_work_dir,
    AppSettings,
};

#[test]
fn test_default_search_config() {
    let config = SearchConfig::default();
    assert_eq!(config.provider, SearchProvider::Tavily);
    assert_eq!(config.max_results, 10);
}

#[test]
fn test_validate_max_tokens_ok() {
    assert!(validate_max_tokens(1).is_ok());
    assert!(validate_max_tokens(128000).is_ok());
}

#[test]
fn test_validate_max_tokens_fail() {
    assert!(validate_max_tokens(0).is_err());
    assert!(validate_max_tokens(128001).is_err());
}

#[test]
fn test_validate_max_tokens_message() {
    assert_eq!(
        validate_max_tokens(0).unwrap_err(),
        "max_tokens must be between 1 and 128000"
    );
    assert_eq!(MAX_MAX_TOKENS, 128000);
}

#[test]
fn test_upgrade_legacy_ai_config() {
    assert_eq!(upgrade_legacy_ai_config(4000), Some(16000));
    assert_eq!(upgrade_legacy_ai_config(15999), Some(16000));
    assert_eq!(upgrade_legacy_ai_config(0), None);
    assert_eq!(upgrade_legacy_ai_config(16000), None);
    assert_eq!(upgrade_legacy_ai_config(32000), None);
}

#[test]
fn test_upgrade_config_command() {
    assert_eq!(upgrade_config_command(0), Some(16000));
    assert_eq!(upgrade_config_command(8000), Some(16000));
    assert_eq!(upgrade_config_command(16000), None);
}

#[test]
fn test_upgraded_value_passes_validation() {
    assert!(validate_max_tokens(UPGRADED_MAX_TOKENS).is_ok());
    let upgraded = upgrade_legacy_ai_config(100).unwrap();
    assert!(validate_max_tokens(upgraded).is_ok());
}

#[test]
fn test_validate_search_config_errors() {
    let mut config = SearchConfig::default();
    assert_eq!(validate_search_config(&config).unwrap_err(), "搜索API密钥不能为空");
    config.api_key = "key".to_string();
    assert!(validate_search_config(&config).is_ok());
    config.provider = SearchProvider::Custom;
    assert_eq!(validate_search_config(&config).unwrap_err(), "自定义API地址不能为空");
    config.api_endpoint = "https://search.example.com".to_string();
    assert!(validate_search_config(&config).is_ok());
}

#[test]
fn test_default_app_settings() {
    let s = AppSettings::default();
    assert_eq!(s.app_name, "通览");
    assert_eq!(s.period, "weekly");
    assert_eq!(s.work_dir, "");
    assert_eq!(s.theme, "dark");
    assert_eq!(s.file_pattern, "report_{YYYY}{MM}{DD}.html");
    assert_eq!(default_app_name(), "通览");
    assert_eq!(default_period(), "weekly");
    assert_eq!(default_work_dir(), "");
    assert_eq!(default_theme(), "dark");
    assert_eq!(default_file_pattern(), "report_{YYYY}{MM}{DD}.html");
}

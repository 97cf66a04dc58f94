use std::collections::HashMap;

use mcp_inspector_mcp::models::profile::ProfileConfig;
use mcp_inspector_mcp::models::project_config::ServerEntry;
use mcp_inspector_mcp::services::config_template::{
    check_delete_template_name, check_new_template_name, ConfigTemplate, PresetTemplate, TemplateInfo,
};
use mcp_inspector_mcp::services::profile_manager::{ActiveProfile, ProfileManager};

fn profile_server(name: &str, transport: &str, command: &str) -> ServerEntry {
    ServerEntry::new(name.to_string(), transport.to_string(), command.to_string(), vec![], HashMap::new())
}

#[test]
fn test_default_profile() {
    let profile = ProfileConfig::default_profile();
    assert_eq!(profile.servers.len(), 0);
    assert_eq!(profile.logging.backend, "memory");
    assert!(!profile.execution_config.verbose);
}

#[test]
fn test_dev_profile() {
    let profile = ProfileConfig::dev_profile();
    assert!(profile.execution_config.verbose);
    assert_eq!(profile.execution_config.tool_timeout_ms, 10000);
    assert!(profile.metadata.description.is_some());
    assert!(profile.metadata.tags.contains(&"dev".to_string()));
}

#[test]
fn test_staging_profile() {
    let profile = ProfileConfig::staging_profile();
    assert!(!profile.execution_config.verbose);
    assert_eq!(profile.execution_config.retry_count, 2);
    assert!(profile.metadata.tags.contains(&"staging".to_string()));
}

#[test]
fn test_prod_profile() {
    let profile = ProfileConfig::prod_profile();
    assert!(!profile.execution_config.verbose);
    assert_eq!(profile.execution_config.retry_count, 3);
    assert!(profile.execution_config.auto_retry_on_timeout);
    assert_eq!(profile.logging.backend, "persistent");
    assert!(profile.metadata.tags.contains(&"prod".to_string()));
}

#[test]
fn test_ci_profile() {
    let profile = ProfileConfig::ci_profile();
    assert!(profile.execution_config.verbose);
    assert_eq!(profile.execution_config.retry_count, 1);
    assert!(profile.metadata.tags.contains(&"ci".to_string()));
}

#[test]
fn profile_test_validate_success() {
    let profile = ProfileConfig::default_profile();
    assert!(profile.validate().is_ok());
}

#[test]
fn test_validate_duplicate_server_name() {
    let mut profile = ProfileConfig::default_profile();
    profile.servers = vec![profile_server("server1", "stdio", "cmd1"), profile_server("server1", "stdio", "cmd2")];
    assert!(profile.validate().is_err());
}

#[test]
fn test_validate_invalid_transport() {
    let mut profile = ProfileConfig::default_profile();
    profile.servers = vec![profile_server("server1", "http", "cmd1")];
    assert!(profile.validate().is_err());
}

#[test]
fn test_validate_empty_command() {
    let mut profile = ProfileConfig::default_profile();
    profile.servers = vec![profile_server("server1", "stdio", "")];
    assert!(profile.validate().is_err());
}

#[test]
fn test_validate_invalid_logging_backend() {
    let mut profile = ProfileConfig::default_profile();
    profile.logging.backend = "invalid".to_string();
    assert!(profile.validate().is_err());
}

#[test]
fn test_validate_zero_max_logs() {
    let mut profile = ProfileConfig::default_profile();
    profile.logging.max_logs = 0;
    assert!(profile.validate().is_err());
}

#[test]
fn test_validate_zero_timeout() {
    let mut profile = ProfileConfig::default_profile();
    profile.execution_config.tool_timeout_ms = 0;
    assert!(profile.validate().is_err());
}

fn manager() -> ProfileManager {
    ProfileManager::new(".mcp-inspector".to_string())
}

#[test]
fn test_validate_profile_success() {
    assert!(manager().validate_profile("dev", Ok(ProfileConfig::dev_profile())).is_ok());
}

#[test]
fn test_validate_profile_failure() {
    let mut profile = ProfileConfig::default_profile();
    profile.execution_config.tool_timeout_ms = 0;
    assert!(manager().validate_profile("invalid", Ok(profile)).is_err());
}

#[test]
fn test_delete_profile() {
    // The saved profile "dev" exists and may be deleted.
    assert!(manager().check_delete_profile("dev", true).is_ok());
    // Once deleted it no longer exists.
    assert!(manager().check_delete_profile("dev", false).is_err());
}

#[test]
fn test_delete_default_profile_fails() {
    assert!(manager().check_delete_profile("default", true).is_err());
    assert!(manager().check_delete_profile("", true).is_err());
}

#[test]
fn test_clone_profile() {
    let cloned = manager().clone_profile("dev2", false, Ok(ProfileConfig::dev_profile())).unwrap();
    assert!(cloned.execution_config.verbose);
    assert_eq!(cloned.execution_config.tool_timeout_ms, 10000);
}

#[test]
fn test_clone_profile_already_exists() {
    assert!(manager().clone_profile("staging", true, Ok(ProfileConfig::dev_profile())).is_err());
}

#[test]
fn test_load_active_profile_with_argument() {
    match manager().choose_active_profile(Some("dev"), None, false, true) {
        ActiveProfile::Named(name) => assert_eq!(name, "dev"),
        _ => panic!("the named profile is used"),
    }
}

#[test]
fn test_load_active_profile_with_env() {
    match manager().choose_active_profile(None, Some("staging"), true, true) {
        ActiveProfile::FromEnv(name) => assert_eq!(name, "staging"),
        _ => panic!("the profile of MCP_PROFILE is used"),
    }
    assert_eq!(ProfileConfig::staging_profile().execution_config.retry_count, 2);
}

#[test]
fn test_load_active_profile_default() {
    assert!(matches!(manager().choose_active_profile(None, None, false, false), ActiveProfile::CreateDefault));
    assert_eq!(ProfileConfig::default_profile().servers.len(), 0);
}

#[test]
fn test_apply_preset_template() {
    let config = PresetTemplate::parse("development").unwrap().to_config();
    assert!(config.execution_config.verbose);
    let config = PresetTemplate::parse("production").unwrap().to_config();
    assert_eq!(config.logging.backend, "persistent");
}

#[test]
fn test_create_custom_template_duplicate() {
    // The first creation finds no file; the second finds the one it wrote.
    assert!(check_new_template_name("my_template", false).is_ok());
    assert!(check_new_template_name("my_template", true).is_err());
}

#[test]
fn test_create_custom_template_preset_name_conflict() {
    assert!(check_new_template_name("minimal", false).is_err());
    assert!(check_new_template_name("development", false).is_err());
}

#[test]
fn test_list_all_templates() {
    let templates = ConfigTemplate::new(".mcp-inspector/templates".to_string());
    let custom = vec![TemplateInfo {
        name: "my_template".to_string(),
        description: "Custom template".to_string(),
        is_preset: false,
        file_path: Some(".mcp-inspector/templates/my_template.json".to_string()),
    }];
    let all = templates.list_all_templates(custom);
    assert!(all.len() >= 5);
    let preset_count = all.iter().filter(|t| t.is_preset).count();
    let custom_count = all.iter().filter(|t| !t.is_preset).count();
    assert_eq!(preset_count, 4);
    assert_eq!(custom_count, 1);
}

#[test]
fn test_delete_preset_template_fails() {
    assert!(check_delete_template_name("minimal", false).is_err());
    assert!(check_delete_template_name("development", false).is_err());
}

#[test]
fn test_apply_nonexistent_template() {
    // Not a preset, and no custom file of that name.
    assert!(PresetTemplate::parse("nonexistent").is_err());
    assert!(check_delete_template_name("nonexistent", false).is_err());
}

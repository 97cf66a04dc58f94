use std::collections::HashMap;

use mcp_inspector_mcp::error::InspectorError;
use mcp_inspector_mcp::models::profile::{ProfileConfig, ProfileInfo};
use mcp_inspector_mcp::models::project_config::{ProjectConfig, ServerEntry};
use mcp_inspector_mcp::services::config_import_export::{ConfigFormat, ConfigImportExport};
use mcp_inspector_mcp::services::config_manager::{add_server, get_server, list_servers, remove_server};
use mcp_inspector_mcp::services::config_template::{
    check_delete_template_name, check_new_template_name, ConfigTemplate, PresetTemplate, TemplateInfo,
};
use mcp_inspector_mcp::services::profile_manager::{ActiveProfile, ProfileManager};

#[test]
fn test_config_format_from_str() {
    assert_eq!("json".parse::<ConfigFormat>().unwrap(), ConfigFormat::Json);
    assert_eq!("yaml".parse::<ConfigFormat>().unwrap(), ConfigFormat::Yaml);
    assert_eq!("yml".parse::<ConfigFormat>().unwrap(), ConfigFormat::Yaml);
    assert!("xml".parse::<ConfigFormat>().is_err());
}

#[test]
fn test_config_format_from_path() {
    assert_eq!(ConfigFormat::from_path("config.json").unwrap(), ConfigFormat::Json);
    assert_eq!(ConfigFormat::from_path("config.yaml").unwrap(), ConfigFormat::Yaml);
    assert_eq!(ConfigFormat::from_path("config.yml").unwrap(), ConfigFormat::Yaml);
    assert!(ConfigFormat::from_path("config.xml").is_err());
    assert!(ConfigFormat::from_path("config").is_err());
}

fn config_message(e: InspectorError) -> String {
    match e {
        InspectorError::Config(m) => m,
        _ => panic!("configuration error expected"),
    }
}

#[test]
fn format_errors_say_why() {
    assert_eq!(config_message(ConfigFormat::from_path("dir/config.xml").unwrap_err()), "Unsupported file extension: .xml");
    assert_eq!(config_message(ConfigFormat::from_path("config").unwrap_err()), "No file extension found");
    assert_eq!(config_message(ConfigFormat::from_path(".json").unwrap_err()), "No file extension found");
    assert_eq!(
        config_message("toml".parse::<ConfigFormat>().unwrap_err()),
        "Unsupported format: toml. Supported formats: json, yaml"
    );
    assert_eq!(ConfigFormat::from_path("a/b.JSON").is_err(), true);
    assert_eq!("JSON".parse::<ConfigFormat>().unwrap(), ConfigFormat::Json);
}

#[test]
fn test_preset_template_from_str() {
    assert_eq!("minimal".parse::<PresetTemplate>().unwrap(), PresetTemplate::Minimal);
    assert_eq!("development".parse::<PresetTemplate>().unwrap(), PresetTemplate::Development);
    assert_eq!("dev".parse::<PresetTemplate>().unwrap(), PresetTemplate::Development);
    assert_eq!("production".parse::<PresetTemplate>().unwrap(), PresetTemplate::Production);
    assert_eq!("prod".parse::<PresetTemplate>().unwrap(), PresetTemplate::Production);
    assert_eq!("ci".parse::<PresetTemplate>().unwrap(), PresetTemplate::CI);
    assert!("unknown".parse::<PresetTemplate>().is_err());
}

#[test]
fn test_preset_template_properties() {
    let minimal = PresetTemplate::Minimal;
    assert_eq!(minimal.name(), "minimal");
    assert!(!minimal.description().is_empty());
    let config = minimal.to_config();
    assert_eq!(config.servers.len(), 0);
}

#[test]
fn preset_names_read_back() {
    for p in PresetTemplate::all() {
        assert_eq!(p.name().parse::<PresetTemplate>().unwrap(), p);
        assert_eq!(p.to_config().validate(), Ok(()));
    }
    assert_eq!("CI-CD".parse::<PresetTemplate>().unwrap(), PresetTemplate::CI);
}

#[test]
fn test_list_preset_templates() {
    let templates = ConfigTemplate::new(".inspector/templates".to_string());
    let presets = templates.list_preset_templates();
    assert_eq!(presets.len(), 4);
    for preset in &presets {
        assert!(preset.is_preset);
        assert!(preset.file_path.is_none());
        assert!(!preset.description.is_empty());
    }
    let all = templates.list_all_templates(vec![TemplateInfo {
        name: "mine".to_string(),
        description: "Custom template".to_string(),
        is_preset: false,
        file_path: Some("x/mine.json".to_string()),
    }]);
    assert_eq!(all.len(), 5);
    assert_eq!(all[4].name, "mine");
}

#[test]
fn custom_template_files_and_order() {
    assert_eq!(ConfigTemplate::template_name_of_file("mine.json"), Some("mine".to_string()));
    assert_eq!(ConfigTemplate::template_name_of_file(".json"), None);
    assert_eq!(ConfigTemplate::template_name_of_file("mine.yaml"), None);
    let info = |n: &str| TemplateInfo { name: n.to_string(), description: String::new(), is_preset: false, file_path: None };
    let sorted = ConfigTemplate::sort_by_name(vec![info("b"), info("a"), info("c"), info("ab")]);
    let names: Vec<String> = sorted.iter().map(|t| t.name.clone()).collect();
    assert_eq!(names, vec!["a", "ab", "b", "c"]);
}

#[test]
fn template_name_rules() {
    assert!(check_new_template_name("dev", false).is_err());
    assert!(check_new_template_name("mine", true).is_err());
    assert!(check_new_template_name("mine", false).is_ok());
    assert_eq!(
        config_message(check_delete_template_name("prod", true).unwrap_err()),
        "Cannot delete preset template 'prod'"
    );
    assert_eq!(
        config_message(check_delete_template_name("mine", false).unwrap_err()),
        "Custom template 'mine' does not exist"
    );
}

fn entry(name: &str) -> ServerEntry {
    ServerEntry::new(name.to_string(), "stdio".to_string(), "run".to_string(), vec![], HashMap::new())
}

#[test]
fn servers_are_added_found_and_removed() {
    let mut config = ProjectConfig::default();
    add_server(&mut config, entry("a")).unwrap();
    add_server(&mut config, entry("b")).unwrap();
    assert_eq!(
        config_message(add_server(&mut config, entry("a")).unwrap_err()),
        "サーバー 'a' は既に存在します"
    );
    assert_eq!(config.servers.len(), 2);
    remove_server(&mut config, "a").unwrap();
    assert_eq!(
        config_message(remove_server(&mut config, "a").unwrap_err()),
        "サーバー 'a' が見つかりません"
    );
    let copy = ProjectConfig { servers: config.servers.clone(), logging: config.logging.clone(), execution_config: config.execution_config };
    assert_eq!(get_server(copy, "b").map(|s| s.name), Some("b".to_string()));
    let names: Vec<String> = list_servers(config).into_iter().map(|s| s.name).collect();
    assert_eq!(names, vec!["b"]);
}

#[test]
fn test_diff_configs_no_change() {
    let config = ProfileConfig::dev_profile();
    let diff = ConfigImportExport::diff_configs(&config, &config);
    assert!(!diff.has_changes());
    assert_eq!(diff.total_changes(), 0);
    assert_eq!(diff.format(), "No changes detected.\n");
}

#[test]
fn test_diff_configs_with_changes() {
    let config1 = ProfileConfig::dev_profile();
    let mut config2 = ProfileConfig::dev_profile();
    config2.execution_config.verbose = false;
    config2.execution_config.tool_timeout_ms = 20000;
    config2.logging.max_logs = 5000;
    let diff = ConfigImportExport::diff_configs(&config1, &config2);
    assert!(diff.has_changes());
    assert!(diff.total_changes() > 0);
    assert!(!diff.execution_changes.is_empty());
    assert!(!diff.logging_changes.is_empty());
}

#[test]
fn test_diff_format() {
    let config1 = ProfileConfig::dev_profile();
    let config2 = ProfileConfig::prod_profile();
    let diff = ConfigImportExport::diff_configs(&config1, &config2);
    let formatted = diff.format();
    assert!(formatted.contains("Total changes:"));
    assert!(formatted.contains("Execution changes:"));
    assert!(formatted.contains("Verbose:"));
}

#[test]
fn diff_lines_exactly() {
    let mut c1 = ProfileConfig::default_profile();
    let mut c2 = ProfileConfig::default_profile();
    c1.servers.push(entry("old"));
    c2.servers.push(entry("new"));
    c2.servers.push(entry("new"));
    c2.logging.max_logs = 5;
    c2.execution_config.retry_count = 1;
    let diff = ConfigImportExport::diff_configs(&c1, &c2);
    assert_eq!(diff.servers_added, 1);
    assert_eq!(diff.servers_removed, 0);
    assert_eq!(diff.server_changes, vec!["+ Server added: new", "- Server removed: old"]);
    assert_eq!(diff.logging_changes, vec!["Max logs: 10000 -> 5"]);
    assert_eq!(diff.execution_changes, vec!["Retry count: 0 -> 1"]);
    assert_eq!(
        diff.format(),
        "Total changes: 4\n\nServer changes:\n  + Server added: new\n  - Server removed: old\n\nLogging changes:\n  Max logs: 10000 -> 5\n\nExecution changes:\n  Retry count: 0 -> 1\n\n"
    );
}

#[test]
fn test_validate_config_file() {
    let warnings = ConfigImportExport::validate_config_file(Ok(ProfileConfig::default_profile())).unwrap();
    assert!(warnings.iter().any(|w| w.contains("No servers")));
    let mut c = ProfileConfig::default_profile();
    c.servers.push(entry("a"));
    c.execution_config.tool_timeout_ms = 500;
    c.logging.max_logs = 10;
    let warnings = ConfigImportExport::validate_config_file(Ok(c)).unwrap();
    assert_eq!(warnings, vec!["Tool timeout is very low: 500ms", "Max logs is very low: 10"]);
    assert!(ConfigImportExport::validate_config_file(Err(InspectorError::Config("x".to_string()))).is_err());
}

#[test]
fn profile_files_and_rules() {
    assert_eq!(ProfileManager::profile_file_name(""), "config.json");
    assert_eq!(ProfileManager::profile_file_name("dev"), "config.dev.json");
    assert_eq!(ProfileManager::profile_of_file("config.dev.json"), Some("dev".to_string()));
    assert_eq!(ProfileManager::profile_of_file("config.json"), None);
    assert_eq!(ProfileManager::profile_of_file("config..json"), None);
    assert_eq!(ProfileManager::profile_of_file("other.dev.json"), None);
    let m = ProfileManager::new(".inspector".to_string());
    assert_eq!(config_message(m.check_delete_profile("default", true).unwrap_err()), "Cannot delete default profile");
    assert_eq!(config_message(m.check_delete_profile("x", false).unwrap_err()), "Profile 'x' does not exist");
    assert!(m.check_delete_profile("x", true).is_ok());
    assert!(m.clone_profile("", false, Ok(ProfileConfig::default_profile())).is_err());
    assert_eq!(
        config_message(m.clone_profile("staging", true, Ok(ProfileConfig::default_profile())).unwrap_err()),
        "Profile 'staging' already exists"
    );
    assert!(m.clone_profile("staging", false, Ok(ProfileConfig::default_profile())).is_ok());
    let mut bad = ProfileConfig::default_profile();
    bad.logging.max_logs = 0;
    assert_eq!(
        config_message(m.validate_profile("p", Ok(bad)).unwrap_err()),
        "Profile 'p' validation failed: max_logs must be greater than 0"
    );
    assert!(matches!(m.choose_active_profile(Some("x"), Some("y"), true, true), ActiveProfile::Named(n) if n == "x"));
    assert!(matches!(m.choose_active_profile(Some(""), Some("y"), true, true), ActiveProfile::FromEnv(n) if n == "y"));
    assert!(matches!(m.choose_active_profile(None, Some("y"), false, true), ActiveProfile::Default));
    assert!(matches!(m.choose_active_profile(None, None, false, false), ActiveProfile::CreateDefault));
}

#[test]
fn profiles_are_listed_by_name() {
    let mk = |n: &str| ProfileInfo::new(n.to_string(), format!("config.{}.json", n), true, None, vec![]);
    let sorted = ProfileManager::sort_profiles(vec![mk("staging"), mk("default"), mk("dev"), mk("prod")]);
    let names: Vec<&str> = sorted.iter().map(|p| p.name.as_str()).collect();
    assert_eq!(names, vec!["default", "dev", "prod", "staging"]);
}

#[test]
fn checked_profile_reports_reason_with_context() {
    let ok = ProfileConfig::dev_profile().checked("Profile 'dev' validation failed: ");
    assert!(ok.is_ok());
    let mut bad = ProfileConfig::default_profile();
    bad.logging.max_logs = 0;
    match bad.checked("Imported config validation failed: ") {
        Err(InspectorError::Config(m)) => assert_eq!(m, "Imported config validation failed: max_logs must be greater than 0"),
        _ => panic!("expected a configuration error"),
    }
}

#[test]
fn diff_counts_follow_the_sets_of_server_names() {
    let mut c1 = ProfileConfig::dev_profile();
    let mut c2 = ProfileConfig::dev_profile();
    c1.servers = vec![entry("a"), entry("b")];
    c2.servers = vec![entry("b"), entry("c"), entry("c")];
    c2.logging.backend = "persistent".to_string();
    c2.execution_config.retry_count = c1.execution_config.retry_count + 1;
    c2.execution_config.verbose = !c1.execution_config.verbose;
    let diff = ConfigImportExport::diff_configs(&c1, &c2);
    assert_eq!(diff.server_changes, vec!["+ Server added: c".to_string(), "- Server removed: a".to_string()]);
    assert_eq!(diff.logging_changes.len(), if c1.logging.backend == "persistent" { 0 } else { 1 });
    assert_eq!(diff.execution_changes.len(), 2);
    assert_eq!(diff.total_changes(), 2 + diff.logging_changes.len() + 2);
    assert!(diff.has_changes());
}

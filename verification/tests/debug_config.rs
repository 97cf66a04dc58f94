use mcp_inspector_mcp::models::debug_config::{
    configure_verbose_logging, disable_verbose_mode, enable_verbose_mode, get_log_config, is_verbose_mode,
    set_log_config, DebugSettings, LogConfig, LogLevel, RotationPolicy,
};

#[test]
fn test_verbose_mode_toggle() {
    let mut settings = DebugSettings::new();
    disable_verbose_mode(&mut settings);
    assert!(!is_verbose_mode(&settings));

    enable_verbose_mode(&mut settings);
    assert!(is_verbose_mode(&settings));

    disable_verbose_mode(&mut settings);
    assert!(!is_verbose_mode(&settings));
}

#[test]
fn test_verbose_mode_idempotent() {
    let mut settings = DebugSettings::new();
    enable_verbose_mode(&mut settings);
    enable_verbose_mode(&mut settings);
    assert!(is_verbose_mode(&settings));

    disable_verbose_mode(&mut settings);
    disable_verbose_mode(&mut settings);
    assert!(!is_verbose_mode(&settings));
}

#[test]
fn test_log_level_to_tracing() {
    assert_eq!(LogLevel::Trace.to_tracing_level(), tracing::Level::TRACE);
    assert_eq!(LogLevel::Debug.to_tracing_level(), tracing::Level::DEBUG);
    assert_eq!(LogLevel::Info.to_tracing_level(), tracing::Level::INFO);
    assert_eq!(LogLevel::Warn.to_tracing_level(), tracing::Level::WARN);
    assert_eq!(LogLevel::Error.to_tracing_level(), tracing::Level::ERROR);
}

#[test]
fn test_log_level_from_str() {
    assert_eq!("trace".parse::<LogLevel>(), Ok(LogLevel::Trace));
    assert_eq!("DEBUG".parse::<LogLevel>(), Ok(LogLevel::Debug));
    assert_eq!("Info".parse::<LogLevel>(), Ok(LogLevel::Info));
    assert_eq!("warn".parse::<LogLevel>(), Ok(LogLevel::Warn));
    assert_eq!("error".parse::<LogLevel>(), Ok(LogLevel::Error));
    assert!("invalid".parse::<LogLevel>().is_err());
}

#[test]
fn test_log_level_ordering() {
    assert!(LogLevel::Trace < LogLevel::Debug);
    assert!(LogLevel::Debug < LogLevel::Info);
    assert!(LogLevel::Info < LogLevel::Warn);
    assert!(LogLevel::Warn < LogLevel::Error);
}

#[test]
fn test_rotation_policy_to_tracing() {
    assert_eq!(
        RotationPolicy::Daily.to_tracing_rotation(),
        tracing_appender::rolling::Rotation::DAILY
    );
    assert_eq!(
        RotationPolicy::Hourly.to_tracing_rotation(),
        tracing_appender::rolling::Rotation::HOURLY
    );
    assert_eq!(
        RotationPolicy::Never.to_tracing_rotation(),
        tracing_appender::rolling::Rotation::NEVER
    );
}

#[test]
fn test_log_config_default() {
    let config = LogConfig::default();
    assert_eq!(config.level, LogLevel::Info);
    assert!(!config.output_to_file);
    assert_eq!(config.log_file_path, "logs");
    assert_eq!(config.log_file_rotation, RotationPolicy::Daily);
}

#[test]
fn test_get_set_log_config() {
    let mut settings = DebugSettings::new();
    let new_config = LogConfig {
        level: LogLevel::Debug,
        output_to_file: true,
        log_file_path: "test_logs".to_string(),
        log_file_rotation: RotationPolicy::Hourly,
    };
    set_log_config(&mut settings, new_config.clone());

    let retrieved = get_log_config(&settings);
    assert_eq!(retrieved.level, LogLevel::Debug);
    assert!(retrieved.output_to_file);
    assert_eq!(retrieved.log_file_path, "test_logs");
    assert_eq!(retrieved.log_file_rotation, RotationPolicy::Hourly);
}

#[test]
fn test_configure_verbose_logging() {
    let mut settings = DebugSettings::new();
    configure_verbose_logging(&mut settings, true);
    let config = get_log_config(&settings);
    assert_eq!(config.level, LogLevel::Debug);
    assert!(config.output_to_file);

    configure_verbose_logging(&mut settings, false);
    let config = get_log_config(&settings);
    assert_eq!(config.level, LogLevel::Debug);
    assert!(!config.output_to_file);
}

#[test]
fn test_log_config_clone() {
    let config1 = LogConfig {
        level: LogLevel::Warn,
        output_to_file: true,
        log_file_path: "test".to_string(),
        log_file_rotation: RotationPolicy::Never,
    };
    let config2 = config1.clone();
    assert_eq!(config1.level, config2.level);
    assert_eq!(config1.output_to_file, config2.output_to_file);
    assert_eq!(config1.log_file_path, config2.log_file_path);
    assert_eq!(config1.log_file_rotation, config2.log_file_rotation);
}

#[test]
fn configure_verbose_logging_keeps_path_and_rotation() {
    let mut settings = DebugSettings::new();
    configure_verbose_logging(&mut settings, true);
    let config = get_log_config(&settings);
    assert_eq!(config.log_file_path, "logs");
    assert_eq!(config.log_file_rotation, RotationPolicy::Daily);
    assert!(!is_verbose_mode(&settings));
}

#[test]
fn log_level_error_names_the_input() {
    assert_eq!("verbose".parse::<LogLevel>(), Err("Invalid log level: verbose".to_string()));
    assert_eq!("WaRn".parse::<LogLevel>(), Ok(LogLevel::Warn));
}

use mcp_inspector_mcp::models::logging_config::{LoggingBackend, LoggingConfig};
use mcp_inspector_mcp::models::logging_inspection::{LogEntry, LogLevel, LoggingMessagesRequest};
use mcp_inspector_mcp::models::sampling::{SamplingContent, SamplingLogEntry, SamplingMessage, SamplingStatus};
use mcp_inspector_mcp::services::logger_backend::LoggerBackend;
use mcp_inspector_mcp::services::logger_factory::{create_logger, LoggerChoice};
use mcp_inspector_mcp::services::logging_inspector::LoggingInspector;
use mcp_inspector_mcp::services::memory_logger::{names_server, MemoryLogger};
use mcp_inspector_mcp::services::sampling_logger::SamplingLogger;
use mcp_inspector_mcp::services::persistent_logger::{rotation_victims, server_of_id, server_prefix, storage_key};

fn create_test_entry(server: &str, timestamp: &str, status: SamplingStatus) -> SamplingLogEntry {
    SamplingLogEntry {
        id: format!("{}:{}", server, timestamp),
        timestamp: timestamp.to_string(),
        status,
        messages: vec![SamplingMessage {
            role: "user".to_string(),
            content: SamplingContent { content_type: "text".to_string(), text: Some("test message".to_string()) },
        }],
        model_preferences: None,
        system_prompt: None,
        max_tokens: Some(100),
        error: None,
        response: Some("test response".to_string()),
    }
}

#[test]
fn memory_logger_test_add_and_get_logs() {
    let mut logger = MemoryLogger::new(100);
    logger.add_log(create_test_entry("server1", "2025-01-15T12:00:00Z", SamplingStatus::Success)).unwrap();
    logger.add_log(create_test_entry("server1", "2025-01-15T12:01:00Z", SamplingStatus::Failed)).unwrap();
    logger.add_log(create_test_entry("server2", "2025-01-15T12:02:00Z", SamplingStatus::Success)).unwrap();

    let server1_logs = logger.get_logs("server1", 10, "all").unwrap();
    assert_eq!(server1_logs.len(), 2);
    assert_eq!(server1_logs[0].timestamp, "2025-01-15T12:01:00Z");

    let success_logs = logger.get_logs("server1", 10, "success").unwrap();
    assert_eq!(success_logs.len(), 1);
    assert_eq!(success_logs[0].status, SamplingStatus::Success);

    let failed_logs = logger.get_logs("server1", 10, "failed").unwrap();
    assert_eq!(failed_logs.len(), 1);
    assert_eq!(failed_logs[0].status, SamplingStatus::Failed);

    assert_eq!(logger.count_logs("server1").unwrap(), 2);
    assert_eq!(logger.count_logs("server2").unwrap(), 1);
}

#[test]
fn memory_logger_test_log_rotation() {
    let mut logger = MemoryLogger::new(3);
    for i in 0..5 {
        logger
            .add_log(create_test_entry("server1", &format!("2025-01-15T12:0{}:00Z", i), SamplingStatus::Success))
            .unwrap();
    }
    let logs = logger.get_logs("server1", 10, "all").unwrap();
    assert_eq!(logs.len(), 3);
    let timestamps: Vec<String> = logs.iter().map(|l| l.timestamp.clone()).collect();
    assert!(timestamps.contains(&"2025-01-15T12:02:00Z".to_string()));
    assert!(timestamps.contains(&"2025-01-15T12:03:00Z".to_string()));
    assert!(timestamps.contains(&"2025-01-15T12:04:00Z".to_string()));
    assert!(!timestamps.contains(&"2025-01-15T12:00:00Z".to_string()));
    assert!(!timestamps.contains(&"2025-01-15T12:01:00Z".to_string()));
}

#[test]
fn memory_logger_test_status_filter() {
    let mut logger = MemoryLogger::new(100);
    logger.add_log(create_test_entry("server1", "2025-01-15T12:00:00Z", SamplingStatus::Success)).unwrap();
    logger.add_log(create_test_entry("server1", "2025-01-15T12:01:00Z", SamplingStatus::Failed)).unwrap();
    logger.add_log(create_test_entry("server1", "2025-01-15T12:02:00Z", SamplingStatus::Success)).unwrap();

    let all_logs = logger.get_logs("server1", 10, "all").unwrap();
    assert_eq!(all_logs.len(), 3);
    let success_logs = logger.get_logs("server1", 10, "success").unwrap();
    assert_eq!(success_logs.len(), 2);
    assert!(success_logs.iter().all(|l| l.status == SamplingStatus::Success));
    let failed_logs = logger.get_logs("server1", 10, "failed").unwrap();
    assert_eq!(failed_logs.len(), 1);
    assert!(failed_logs.iter().all(|l| l.status == SamplingStatus::Failed));
}

#[test]
fn memory_logger_test_limit_parameter() {
    let mut logger = MemoryLogger::new(100);
    for i in 0..5 {
        logger
            .add_log(create_test_entry("server1", &format!("2025-01-15T12:0{}:00Z", i), SamplingStatus::Success))
            .unwrap();
    }
    let logs = logger.get_logs("server1", 2, "all").unwrap();
    assert_eq!(logs.len(), 2);
    assert_eq!(logs[0].timestamp, "2025-01-15T12:04:00Z");
    assert_eq!(logs[1].timestamp, "2025-01-15T12:03:00Z");
}

#[test]
fn memory_logger_test_clear_logs() {
    let mut logger = MemoryLogger::new(100);
    logger.add_log(create_test_entry("server1", "2025-01-15T12:00:00Z", SamplingStatus::Success)).unwrap();
    logger.add_log(create_test_entry("server2", "2025-01-15T12:01:00Z", SamplingStatus::Success)).unwrap();
    assert_eq!(logger.count_logs("server1").unwrap(), 1);
    assert_eq!(logger.count_logs("server2").unwrap(), 1);

    logger.clear_logs("server1").unwrap();
    assert_eq!(logger.count_logs("server1").unwrap(), 0);
    assert_eq!(logger.count_logs("server2").unwrap(), 1);
}

#[test]
fn test_sampling_logger_wrapper() {
    let mut logger = SamplingLogger::new(MemoryLogger::new(100));
    logger.add_log(create_test_entry("server1", "2025-01-15T12:00:00Z", SamplingStatus::Success));
    let logs = logger.get_logs("server1", 10, "all");
    assert_eq!(logs.len(), 1);
    assert_eq!(logger.count_logs("server1"), 1);
}

#[test]
fn sampling_logger_test_add_and_get_logs() {
    let mut logger = SamplingLogger::new(MemoryLogger::new(100));
    logger.add_log(create_test_entry("server1", "2025-01-15T12:00:00Z", SamplingStatus::Success));
    logger.add_log(create_test_entry("server1", "2025-01-15T12:01:00Z", SamplingStatus::Failed));
    logger.add_log(create_test_entry("server2", "2025-01-15T12:02:00Z", SamplingStatus::Success));

    let server1_logs = logger.get_logs("server1", 10, "all");
    assert_eq!(server1_logs.len(), 2);
    assert_eq!(server1_logs[0].timestamp, "2025-01-15T12:01:00Z");
    let success_logs = logger.get_logs("server1", 10, "success");
    assert_eq!(success_logs.len(), 1);
    assert_eq!(success_logs[0].status, SamplingStatus::Success);
    let failed_logs = logger.get_logs("server1", 10, "failed");
    assert_eq!(failed_logs.len(), 1);
    assert_eq!(failed_logs[0].status, SamplingStatus::Failed);
    assert_eq!(logger.count_logs("server1"), 2);
    assert_eq!(logger.count_logs("server2"), 1);
}

#[test]
fn sampling_logger_test_log_rotation() {
    let mut logger = SamplingLogger::new(MemoryLogger::new(3));
    for i in 0..5 {
        logger.add_log(create_test_entry("server1", &format!("2025-01-15T12:0{}:00Z", i), SamplingStatus::Success));
    }
    let logs = logger.get_logs("server1", 10, "all");
    assert_eq!(logs.len(), 3);
    let timestamps: Vec<String> = logs.iter().map(|l| l.timestamp.clone()).collect();
    assert!(timestamps.contains(&"2025-01-15T12:02:00Z".to_string()));
    assert!(timestamps.contains(&"2025-01-15T12:03:00Z".to_string()));
    assert!(timestamps.contains(&"2025-01-15T12:04:00Z".to_string()));
    assert!(!timestamps.contains(&"2025-01-15T12:00:00Z".to_string()));
    assert!(!timestamps.contains(&"2025-01-15T12:01:00Z".to_string()));
}

#[test]
fn sampling_logger_test_status_filter() {
    let mut logger = SamplingLogger::new(MemoryLogger::new(100));
    logger.add_log(create_test_entry("server1", "2025-01-15T12:00:00Z", SamplingStatus::Success));
    logger.add_log(create_test_entry("server1", "2025-01-15T12:01:00Z", SamplingStatus::Failed));
    logger.add_log(create_test_entry("server1", "2025-01-15T12:02:00Z", SamplingStatus::Success));

    let all_logs = logger.get_logs("server1", 10, "all");
    assert_eq!(all_logs.len(), 3);
    let success_logs = logger.get_logs("server1", 10, "success");
    assert_eq!(success_logs.len(), 2);
    assert!(success_logs.iter().all(|l| l.status == SamplingStatus::Success));
    let failed_logs = logger.get_logs("server1", 10, "failed");
    assert_eq!(failed_logs.len(), 1);
    assert!(failed_logs.iter().all(|l| l.status == SamplingStatus::Failed));
}

#[test]
fn sampling_logger_test_limit_parameter() {
    let mut logger = SamplingLogger::new(MemoryLogger::new(100));
    for i in 0..5 {
        logger.add_log(create_test_entry("server1", &format!("2025-01-15T12:0{}:00Z", i), SamplingStatus::Success));
    }
    let logs = logger.get_logs("server1", 2, "all");
    assert_eq!(logs.len(), 2);
    assert_eq!(logs[0].timestamp, "2025-01-15T12:04:00Z");
    assert_eq!(logs[1].timestamp, "2025-01-15T12:03:00Z");
}

#[test]
fn test_create_memory_logger() {
    let config = LoggingConfig { backend: LoggingBackend::Memory, db_path: None, max_logs: 100 };
    let mut logger = match create_logger(&config).expect("Failed to create memory logger") {
        LoggerChoice::Memory(l) => l,
        LoggerChoice::Persistent { .. } => panic!("memory backend expected"),
    };
    let entry = SamplingLogEntry {
        id: "server1:2025-01-15T12:00:00Z".to_string(),
        timestamp: "2025-01-15T12:00:00Z".to_string(),
        status: SamplingStatus::Success,
        messages: vec![],
        model_preferences: None,
        system_prompt: None,
        max_tokens: None,
        error: None,
        response: None,
    };
    logger.add_log(entry).expect("Failed to add log");
    assert_eq!(logger.count_logs("server1").unwrap(), 1);
}

#[test]
fn test_invalid_config() {
    let config = LoggingConfig { backend: LoggingBackend::Persistent, db_path: None, max_logs: 100 };
    assert!(create_logger(&config).is_err());
}

#[test]
fn persistent_choice_carries_the_path() {
    let config = LoggingConfig { backend: LoggingBackend::Persistent, db_path: Some("db".to_string()), max_logs: 7 };
    match create_logger(&config) {
        Ok(LoggerChoice::Persistent { db_path, max_logs }) => {
            assert_eq!(db_path, "db");
            assert_eq!(max_logs, 7);
        }
        _ => panic!("persistent backend expected"),
    }
    let bad = LoggingConfig { backend: LoggingBackend::Persistent, db_path: None, max_logs: 7 };
    assert_eq!(
        create_logger(&bad).err(),
        Some("Invalid logging configuration: db_path is required when backend = \"persistent\"".to_string())
    );
}

#[test]
fn server_part_of_an_id() {
    assert!(names_server("srv:2025", "srv"));
    assert!(names_server("srv", "srv"));
    assert!(!names_server("srv2:2025", "srv"));
    assert!(!names_server("srv:x", "srv:x"));
    assert!(names_server(":x", ""));
}

#[test]
fn unknown_status_filter_selects_everything() {
    let mut logger = MemoryLogger::new(10);
    logger.add_log(create_test_entry("s", "2025-01-15T12:00:00Z", SamplingStatus::Pending)).unwrap();
    logger.add_log(create_test_entry("s", "2025-01-15T12:00:00Z", SamplingStatus::Failed)).unwrap();
    let logs = logger.get_logs("s", 10, "SUCCESS").unwrap();
    assert_eq!(logs.len(), 2);
    // equal timestamps keep their order
    assert_eq!(logs[0].status, SamplingStatus::Pending);
    assert_eq!(logs[1].status, SamplingStatus::Failed);
}

#[test]
fn zero_capacity_keeps_nothing() {
    let mut logger = MemoryLogger::new(0);
    logger.add_log(create_test_entry("s", "t", SamplingStatus::Success)).unwrap();
    assert_eq!(logger.count_logs("s").unwrap(), 0);
}

fn log_entry(server: &str, level: LogLevel, timestamp: &str, message: &str) -> LogEntry {
    LogEntry {
        timestamp: timestamp.to_string(),
        server_name: server.to_string(),
        level,
        logger: Some("test".to_string()),
        message: message.to_string(),
    }
}

fn request(server: &str, level: Option<&str>, limit: usize, since: Option<&str>) -> LoggingMessagesRequest {
    LoggingMessagesRequest {
        server: server.to_string(),
        level: level.map(|s| s.to_string()),
        limit,
        since: since.map(|s| s.to_string()),
    }
}

#[test]
fn test_add_and_retrieve_messages() {
    let mut inspector = LoggingInspector::new(100);
    inspector.add_log_entry(log_entry("server1", LogLevel::Info, "2025-01-15T12:00:00Z", "Info message")).unwrap();
    inspector.add_log_entry(log_entry("server1", LogLevel::Error, "2025-01-15T12:01:00Z", "Error message")).unwrap();
    inspector.add_log_entry(log_entry("server1", LogLevel::Debug, "2025-01-15T12:02:00Z", "Debug message")).unwrap();
    let response = inspector.get_logging_messages(request("server1", None, 100, None)).unwrap();
    assert_eq!(response.total_count, 3);
    assert_eq!(response.messages[0].level, LogLevel::Debug);
}

#[test]
fn test_level_filter() {
    let mut inspector = LoggingInspector::new(100);
    inspector.add_log_entry(log_entry("server1", LogLevel::Debug, "2025-01-15T12:00:00Z", "Debug message")).unwrap();
    inspector.add_log_entry(log_entry("server1", LogLevel::Info, "2025-01-15T12:01:00Z", "Info message")).unwrap();
    inspector.add_log_entry(log_entry("server1", LogLevel::Warning, "2025-01-15T12:02:00Z", "Warning message")).unwrap();
    inspector.add_log_entry(log_entry("server1", LogLevel::Error, "2025-01-15T12:03:00Z", "Error message")).unwrap();
    let response = inspector.get_logging_messages(request("server1", Some("warning"), 100, None)).unwrap();
    assert_eq!(response.total_count, 2);
    assert!(response.messages.iter().all(|m| m.level >= LogLevel::Warning));
}

#[test]
fn test_time_filter() {
    let mut inspector = LoggingInspector::new(100);
    inspector.add_log_entry(log_entry("server1", LogLevel::Info, "2025-01-15T12:00:00Z", "Old message")).unwrap();
    inspector.add_log_entry(log_entry("server1", LogLevel::Info, "2025-01-15T12:05:00Z", "New message")).unwrap();
    let response = inspector.get_logging_messages(request("server1", None, 100, Some("2025-01-15T12:02:00Z"))).unwrap();
    assert_eq!(response.total_count, 1);
    assert_eq!(response.messages[0].message, "New message");
}

#[test]
fn test_limit() {
    let mut inspector = LoggingInspector::new(100);
    for i in 0..5 {
        inspector
            .add_log_entry(log_entry("server1", LogLevel::Info, &format!("2025-01-15T12:0{}:00Z", i), &format!("Message {}", i)))
            .unwrap();
    }
    let response = inspector.get_logging_messages(request("server1", None, 2, None)).unwrap();
    assert_eq!(response.total_count, 2);
}

#[test]
fn test_clear_messages() {
    let mut inspector = LoggingInspector::new(100);
    inspector.add_log_entry(log_entry("server1", LogLevel::Info, "2025-01-15T12:00:00Z", "Test message")).unwrap();
    let response = inspector.get_logging_messages(request("server1", None, 100, None)).unwrap();
    assert_eq!(response.total_count, 1);
    inspector.clear_logging_messages("server1").unwrap();
    let response = inspector.get_logging_messages(request("server1", None, 100, None)).unwrap();
    assert_eq!(response.total_count, 0);
}

#[test]
fn invalid_since_is_an_error() {
    let inspector = LoggingInspector::new(10);
    let r = inspector.get_logging_messages(request("s", None, 10, Some("yesterday")));
    let err = r.err().unwrap();
    assert!(err.starts_with("Invalid timestamp format: "));
}

#[test]
fn storage_key_is_server_and_timestamp() {
    let e = create_test_entry("server1", "2025-01-15T12:00:00Z", SamplingStatus::Success);
    assert_eq!(storage_key(&e), "server1:2025-01-15T12:00:00Z");
    assert!(storage_key(&e).starts_with(&server_prefix("server1")));
}

#[test]
fn server_of_id_takes_text_before_first_colon() {
    assert_eq!(server_of_id("srv:2025-01-15T12:00:00Z"), "srv");
    assert_eq!(server_of_id("no-colon"), "no-colon");
    assert_eq!(server_of_id(":x"), "");
    assert_eq!(server_prefix("srv"), "srv:");
}

#[test]
fn rotation_removes_oldest_beyond_limit() {
    let keys: Vec<String> = vec!["s:1".into(), "s:2".into(), "s:3".into(), "s:4".into()];
    assert_eq!(rotation_victims(keys.clone(), 2), vec!["s:1".to_string(), "s:2".to_string()]);
    assert!(rotation_victims(keys.clone(), 4).is_empty());
    assert!(rotation_victims(keys, 10).is_empty());
}

#[test]
fn invalid_level_is_an_error() {
    let inspector = LoggingInspector::new(10);
    let r = inspector.get_logging_messages(request("s", Some("verbose"), 10, None));
    match r {
        Err(e) => assert_eq!(e, "Invalid log level: verbose"),
        Ok(_) => panic!("an invalid level must be refused"),
    }
    assert!(inspector.get_logging_messages(request("s", Some("WARN"), 10, None)).is_ok());
}

#[test]
fn memory_limit_is_per_server() {
    let mut logger = MemoryLogger::new(1);
    logger.add_log(create_test_entry("a", "2025-01-15T12:00:00Z", SamplingStatus::Success)).unwrap();
    logger.add_log(create_test_entry("b", "2025-01-15T12:01:00Z", SamplingStatus::Success)).unwrap();
    assert_eq!(logger.count_logs("a").unwrap(), 1);
    assert_eq!(logger.count_logs("b").unwrap(), 1);
    logger.add_log(create_test_entry("a", "2025-01-15T12:02:00Z", SamplingStatus::Failed)).unwrap();
    let a = logger.get_logs("a", 10, "all").unwrap();
    assert_eq!(a.len(), 1);
    assert_eq!(a[0].timestamp, "2025-01-15T12:02:00Z");
    assert_eq!(logger.count_logs("b").unwrap(), 1);
}

//! Services: evaluation of tests, configuration handling, logging and metrics.
pub mod test_executor;
pub mod logger_backend;
pub mod memory_logger;
pub mod sampling_logger;
pub mod config_import_export;
pub mod config_template;
pub mod logging_inspector;
pub mod logger_factory;
pub mod config_manager;
pub mod profile_manager;
pub mod report_service;
pub mod capability_validator;
pub mod server_info_service;
pub mod metrics_collector;
pub mod debug_logger;
pub mod bottleneck_detector;
pub mod response_cache;
pub mod timing_tracker;
pub mod health_checker;
pub mod persistent_logger;

//! Data models: JSON documents, configuration, log and metric records.
pub mod json;
pub mod test_definition;
pub mod sampling;
pub mod debug_config;
pub mod execution_config;
pub mod logging_config;
pub mod logging_inspection;
pub mod metrics;
pub mod project_config;
pub mod profile;
pub mod server_config;
pub mod request;
pub mod response;
pub mod server_info;
pub mod health;

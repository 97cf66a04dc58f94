//! The client side: what is read from the messages sent to target servers.
pub mod monitoring_transport;
pub mod manager;
pub mod stdio_client;

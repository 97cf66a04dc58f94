//! Verified core of an inspector for Model Context Protocol servers.
pub mod client;
pub mod error;
pub mod models;
pub mod order;
pub mod services;
pub mod text;
pub mod time;

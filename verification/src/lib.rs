//! Orchestration of named tunnel instances inside one process: the registry
//! of running instances, the launch protocol, and the relay that turns an
//! instance's events into log lines.

pub mod config;
pub mod error;
pub mod event;
pub mod instance;
pub mod launcher;
pub mod registry;
pub mod relay;
pub mod text;
pub mod version;

//! User settings and where they are stored.

pub mod app_config;
pub mod config_manager;

pub use app_config::AppConfig;
pub use config_manager::{ConfigManager, LoadStep};

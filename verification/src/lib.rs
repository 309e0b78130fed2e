//! Verified core of a Docker container manager: container records, compose
//! generation, CSV export, byte-size formatting, configuration and the
//! event handling of the user interface.

pub mod config;
pub mod containers;
pub mod text;
pub mod utils;
pub mod tyrant;

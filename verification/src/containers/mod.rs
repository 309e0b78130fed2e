//! Container records and the docker-compose document built from them.

pub mod compose_generator;
pub mod container_info;
pub mod stats;

pub use compose_generator::{ComposeFile, ComposeGenerator, ComposeService};
pub use container_info::{ContainerInfo, ContainerStatus, ContainerSummary, PortMapping, PortSummary, UtcTime};
pub use stats::{ContainerStats, Metrics, NetworkUsage};

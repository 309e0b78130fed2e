//! The user's settings.

use vstd::prelude::*;

verus! {

/// The user's settings: colour theme, how often the container list is
/// refreshed, and whether system containers are shown.
#[derive(Clone, Debug, PartialEq, Eq)]
pub struct AppConfig {
    pub theme: String,
    pub refresh_interval_ms: u64,
    pub show_system_containers: bool,
}

impl AppConfig {
    /// The settings used when none are stored: dark theme, a refresh every
    /// two seconds, system containers hidden.
    pub open spec fn is_default(self) -> bool {
        &&& self.theme@ == "dark"@
        &&& self.refresh_interval_ms == 2000
        &&& !self.show_system_containers
    }
}

impl Default for AppConfig {
    fn default() -> (c: AppConfig)
        ensures
            c.is_default(),
    {
        AppConfig {
            theme: String::from_str("dark"),
            refresh_interval_ms: 2000,
            show_system_containers: false,
        }
    }
}

} // verus!

//! The fixed application-strategy settings that decide where the wrapper's
//! configuration directory lives.

use vstd::prelude::*;

verus! {

/// The identity under which configuration paths are chosen.
#[derive(Debug, Clone)]
pub struct AppStrategySettings {
    /// Top-level domain of the vendor
    pub top_level_domain: String,
    /// Author name
    pub author: String,
    /// Application name
    pub app_name: String,
}

/// The wrapper's fixed application-strategy settings.
pub fn app_strategy() -> (s: AppStrategySettings)
    ensures
        s.top_level_domain@ == "Red Hat"@,
        s.author@ == "Lightspeed"@,
        s.app_name@ == "cli"@,
{
    AppStrategySettings {
        top_level_domain: String::from_str("Red Hat"),
        author: String::from_str("Lightspeed"),
        app_name: String::from_str("cli"),
    }
}

} // verus!

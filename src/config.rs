//! Process configuration, built once at startup and passed to whoever needs
//! it.
use vstd::prelude::*;

verus! {

/// Port the HTTP service listens on when none is configured.
pub const DEFAULT_PORT: u16 = 8080;

/// Settings of one running service.
#[derive(Debug)]
pub struct AppConfig {
    pub jira_email: String,
    pub jira_api_token: String,
    pub tempo_api_token: String,
    pub tracker_port: u16,
    /// Path of the state file, already expanded.
    pub json_file: String,
}

/// Path of the file that holds the persisted state.
pub fn get_state_file(config: &AppConfig) -> (r: String)
    ensures
        r@ == config.json_file@,
{
    config.json_file.clone()
}

} // verus!

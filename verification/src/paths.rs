//! Paths of the agent's configuration files and of the target application's
//! data, built from base directories the caller discovered.
//!
//! The caller (platform glue) supplies the base directories — the user's
//! configuration directory and the platform data directory — and performs
//! any filesystem access; these functions only assemble the paths, with '/'
//! between components.

use vstd::prelude::*;

verus! {

/// `base` with one more component appended.
pub open spec fn spec_path_join(base: Seq<char>, child: Seq<char>) -> Seq<char> {
    base + seq!['/'] + child
}

/// Join one component onto a base directory.
fn path_join(base: &str, child: &str) -> (r: String)
    ensures
        r@ == spec_path_join(base@, child@),
{
    let mut s = base.to_owned();
    s.append("/");
    proof {
        reveal_strlit("/");
        assert("/"@ =~= seq!['/']);
    }
    s.append(child);
    s
}

/// The log directory under the agent's configuration directory.
pub fn get_log_directory(config_dir: &str) -> (r: String)
    ensures
        r@ == spec_path_join(config_dir@, "logs"@),
{
    path_join(config_dir, "logs")
}

/// The application-settings file under the agent's configuration directory.
pub fn get_app_settings_file(config_dir: &str) -> (r: String)
    ensures
        r@ == spec_path_join(config_dir@, "app_settings.json"@),
{
    path_join(config_dir, "app_settings.json")
}

/// The window-state file under the agent's configuration directory.
pub fn get_window_state_file(config_dir: &str) -> (r: String)
    ensures
        r@ == spec_path_join(config_dir@, "window_state.json"@),
{
    path_join(config_dir, "window_state.json")
}

/// The executable-path configuration file under the agent's configuration
/// directory.
pub fn get_antigravity_path_file(config_dir: &str) -> (r: String)
    ensures
        r@ == spec_path_join(config_dir@, "antigravity_path.json"@),
{
    path_join(config_dir, "antigravity_path.json")
}

/// The target application's data directory under the platform data
/// directory, when the caller found one.
pub fn get_antigravity_data_dir(data_dir: Option<String>) -> (r: Option<String>)
    ensures
        match data_dir {
            Some(d) => r matches Some(p) && p@ == spec_path_join(d@, "Antigravity"@),
            None => r is None,
        },
{
    match data_dir {
        Some(d) => Some(path_join(d.as_str(), "Antigravity")),
        None => None,
    }
}

/// The target application's state-database file under the platform data
/// directory, when the caller found one.
pub fn get_antigravity_db_path(data_dir: Option<String>) -> (r: Option<String>)
    ensures
        match data_dir {
            Some(d) => r matches Some(p) && p@ == spec_path_join(
                spec_path_join(d@, "Antigravity"@),
                "state.vscdb"@,
            ),
            None => r is None,
        },
{
    match get_antigravity_data_dir(data_dir) {
        Some(dir) => Some(path_join(dir.as_str(), "state.vscdb")),
        None => None,
    }
}

/// The user's choice of executable path, when one was saved.
#[derive(Debug, Clone)]
pub struct AntigravityPathConfig {
    pub custom_executable_path: Option<String>,
}

impl Default for AntigravityPathConfig {
    /// No custom path chosen.
    fn default() -> (r: Self)
        ensures
            r.custom_executable_path is None,
    {
        Self { custom_executable_path: None }
    }
}

} // verus!

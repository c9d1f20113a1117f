//! Plain configuration data for one watch session.
//!
//! The values are loaded at the program's edge (from the environment) and
//! handed in as plain strings and integers; the library only carries them.

use vstd::prelude::*;

verus! {

/// Why the configuration could not be loaded; reported once at startup by
/// the loader at the program's edge.
#[derive(Clone, Debug)]
pub enum AppConfigError {
    LoadError { msg: String },
}

impl AppConfigError {
    /// A short description of the failure, for display by the caller.
    pub fn message(&self) -> (r: String)
        ensures
            self matches AppConfigError::LoadError { msg } ==> r@ == msg@,
    {
        match self {
            AppConfigError::LoadError { msg } => msg.clone(),
        }
    }
}

/// Configuration of one watch session: the directory to watch, the
/// strftime-style pattern for destination names, and the settle delay in
/// seconds.
#[derive(Clone, Debug)]
pub struct AppConfig {
    pub watch_path: String,
    pub file_format: String,
    pub delay_seconds: u64,
}

/// Configuration of the renamer alone, with the documented defaults:
/// a five-second settle delay and a year-month name pattern.
#[derive(Clone, Debug)]
pub struct FileRenamerConfig {
    pub delay_seconds: u64,
    pub date_format: String,
}

impl Default for FileRenamerConfig {
    /// The documented defaults: 5 seconds and `%Y-%m`.
    fn default() -> (r: Self)
        ensures
            r.delay_seconds == 5,
            r.date_format@ == "%Y-%m"@,
    {
        FileRenamerConfig { delay_seconds: 5, date_format: "%Y-%m".to_owned() }
    }
}

/// Configuration of the watcher alone: the root path to monitor.
#[derive(Clone, Debug)]
pub struct FileWatcherConfig {
    pub path: String,
}

} // verus!

//! The command line: the commands `egg` understands and their options.
use vstd::prelude::*;

verus! {

/// The parsed command line.
#[derive(Debug, Clone)]
pub struct Cli {
    pub command: Commands,
    /// Path to config file (default: .eggrc.toml in current or parent directory)
    pub config: Option<String>,
    /// Verbose output
    pub verbose: bool,
}

/// The commands.
#[derive(Debug, Clone)]
pub enum Commands {
    /// Start all processes and cron jobs
    Up { only: Option<Vec<String>>, no_cron: bool, foreground: bool },
    /// Stop all running processes
    Down { force: bool },
    /// Restart all processes
    Restart { only: Option<Vec<String>> },
    /// Show status of all processes and cron jobs
    Status,
    /// View logs
    Logs { name: Option<String>, follow: bool, lines: usize },
    /// Export configuration to Supervisor/Systemd format
    Export { format: ExportFormat },
    /// Validate configuration file
    Validate,
    /// Initialize a new .eggrc.toml in current directory
    Init { name: Option<String>, force: bool },
}

/// The formats an export writes.
#[derive(Debug, Clone)]
pub enum ExportFormat {
    /// Export to Supervisor configuration files in a directory
    Supervisor { output: String },
    /// Export to Systemd unit files in a directory
    Systemd { output: String },
    /// Export cron jobs to crontab format
    Crontab,
}

} // verus!

//! The commands of the command-line interface, as plain data.

use vstd::prelude::*;

verus! {

/// A parsed command line: a subcommand, or none for the interactive interface.
pub struct Cli {
    pub command: Option<Commands>,
}

pub enum Commands {
    /// Create a new aide
    Create { name: String },
    /// Add data to an aide, given inline or read from a file
    Add { name: String, data: Option<String>, path: Option<String> },
    /// Set a configuration value
    SetConfig { key: String, value: String },
    /// Get a configuration value
    Get { key: String },
    /// List all configuration keys and values
    ConfigList,
    /// Delete a configuration key
    ConfigDelete { key: String },
    /// Search for data by input text
    Search { input_text: String },
    /// Create or edit a task
    Task { task_name: String },
    /// Change task status
    TaskStatus { task_name: String, status: String },
    /// Change task priority
    TaskPriority { task_name: String, priority: u8 },
    /// List all tasks
    TaskList,
    /// Edit task log file
    TaskEdit { task_name: String },
    /// Add log entry to task
    TaskLogUpdate { task_name: String, log_text: String },
    /// List all aides
    AideList,
    /// Clear all data and indexes
    Clear,
    /// Reset all data
    Reset,
    /// Open aide file in an editor
    Write { aide_name: String },
    /// Launch the terminal interface
    Tui,
    /// Ask a question to the language model
    Ask { question: String },
    /// Generate shell completion script
    Completions { shell: String },
}

} // verus!

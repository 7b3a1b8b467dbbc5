//! Command-line surface: the options and subcommands the program accepts.
//! The argument parser itself lives outside the library; these types carry
//! the parsed values.
use vstd::prelude::*;

verus! {

/// Parsed command line.
pub struct Cli {
    /// Config file path, when given.
    pub config: Option<String>,
    /// Bot token, when given.
    pub token: Option<String>,
    /// Requested operation; none means running the chat client.
    pub command: Option<SubCommand>,
}

/// Administrative operations.
pub enum SubCommand {
    /// Delete every record of one chat's namespace.
    Delete { chat_id: String },
    /// Export the default configuration.
    Export,
}

} // verus!

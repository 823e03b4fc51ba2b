//! The command-line surface, as plain values: the parsed arguments and the
//! decisions the entry point takes on them. Parsing itself is argument
//! handling and lives outside the library.

use vstd::prelude::*;

verus! {

/// The configuration-management subcommand.
pub enum SubCommands {
    /// Open the configuration file; with `default` set, create the default
    /// file first.
    Config { default: bool },
}

/// Everything the command line can say: an optional author, an optional
/// explicit target date, and an optional subcommand.
pub struct AutoLoggerArgs {
    pub author: Option<String>,
    pub year: Option<i32>,
    pub month: Option<u32>,
    pub day: Option<u32>,
    pub command: Option<SubCommands>,
}

impl AutoLoggerArgs {
    /// Whether this invocation manages the configuration file instead of
    /// harvesting; `Some` carries whether the default file is to be
    /// created first.
    pub fn config_request(&self) -> (r: Option<bool>)
        ensures
            match self.command {
                Some(SubCommands::Config { default }) => r == Some(default),
                None => r is None,
            },
    {
        match &self.command {
            Some(SubCommands::Config { default }) => Some(*default),
            None => None,
        }
    }
}

} // verus!

//! The command line: the modes of the program and the optional configuration path.
//! Parsing the arguments is the program's part.

use vstd::prelude::*;

verus! {

/// What the program is asked to do.
#[derive(Clone, Copy, Debug, PartialEq, Eq, Structural)]
pub enum Command {
    /// Run in the foreground and capture the debug output of this session (the default).
    Run,
    /// Register as a Windows service started at boot (needs administrator rights).
    Install,
    /// Remove the Windows service (needs administrator rights).
    Uninstall,
    /// Started by the service control manager; not meant to be run by hand.
    RunService,
}

/// The parsed command line.
#[derive(Debug, Clone)]
pub struct Cli {
    /// Path of the configuration file (default: `loghound.toml` beside the executable).
    pub config: Option<String>,
    /// The subcommand, when one was given.
    pub command: Option<Command>,
}

impl Cli {
    /// The mode to run: the subcommand given, `Run` when there is none.
    pub fn chosen_command(&self) -> (c: Command)
        ensures
            c == match self.command {
                Some(c) => c,
                None => Command::Run,
            },
    {
        match self.command {
            Some(c) => c,
            None => Command::Run,
        }
    }
}

} // verus!

//! The parsed command-line surface, as plain data. Flag parsing itself is
//! the shell's work.

use vstd::prelude::*;
use crate::init::InitArgs;
use crate::server::ServerArgs;
use crate::start::StartArgs;
use crate::tailwind::TailwindArgs;

verus! {

/// One invocation of the tool.
pub enum Command {
    /// Scaffold a new project.
    Init(InitArgs),
    /// Run the server and the compiler watcher together.
    Start(StartArgs),
    /// Run the live-reloading server alone.
    Server(ServerArgs),
    /// Run the compiler alone.
    Tailwind(TailwindArgs),
}

/// The parsed command line.
pub struct CliArgs {
    /// The chosen subcommand with its arguments.
    pub command: Command,
}

} // verus!

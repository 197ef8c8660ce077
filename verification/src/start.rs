//! Running the server and the compiler together: argument derivation and
//! the fail-fast supervision policy. The shell runs the two units
//! concurrently and reports each completion here.

use vstd::prelude::*;
use crate::server::error::Error;
use crate::server::ServerArgs;
use crate::tailwind::TailwindArgs;

verus! {

/// What `start` was asked to run.
#[derive(Debug)]
pub struct StartArgs {
    /// The directory served and watched.
    pub root_dir: String,
    /// The port the server asks for.
    pub port: u16,
    /// Whether to open a browser tab.
    pub open: bool,
    /// The compiler's input file, defaulted under the root when absent.
    pub input: Option<String>,
    /// The compiler's output file, defaulted under the root when absent.
    pub output: Option<String>,
}

impl ServerArgs {
    /// The server's share of a combined run.
    pub fn from_start(args: &StartArgs) -> (r: ServerArgs)
        ensures
            r.root_dir@ == args.root_dir@,
            r.port == args.port,
            r.open == args.open,
    {
        ServerArgs { root_dir: args.root_dir.clone(), port: args.port, open: args.open }
    }
}

impl TailwindArgs {
    /// The compiler's share of a combined run: a watching run on the given
    /// files, defaulted to `src/app.css` and `dist/app.css` under the root.
    pub fn from_start(args: &StartArgs) -> (r: TailwindArgs)
        ensures
            r.root_dir@ == args.root_dir@,
            r.watch == true,
            args.input matches Some(i) ==> r.input@ == i@,
            args.input is None ==> r.input@ == args.root_dir@ + "/src/app.css"@,
            args.output matches Some(o) ==> r.output@ == o@,
            args.output is None ==> r.output@ == args.root_dir@ + "/dist/app.css"@,
    {
        let input = match &args.input {
            Some(i) => i.clone(),
            None => args.root_dir.clone().concat("/src/app.css"),
        };
        let output = match &args.output {
            Some(o) => o.clone(),
            None => args.root_dir.clone().concat("/dist/app.css"),
        };
        TailwindArgs { root_dir: args.root_dir.clone(), input, output, watch: true }
    }
}

/// The two units of work a combined run supervises.
#[derive(Clone, Copy, Debug, PartialEq, Eq, Structural)]
pub enum TaskKind {
    /// The HTTP server.
    Server,
    /// The external CSS compiler.
    Tailwind,
}

/// What the shell must do after reporting a completion.
pub enum SupervisorAction {
    /// Stop the other unit and end the run; the completion was decisive.
    StopAll,
    /// The run had already been decided; nothing more to do.
    AlreadyStopped,
}

/// The fail-fast supervision policy over the two concurrent units.
///
/// The first unit to complete decides the whole run: its error, if any, is
/// the run's result, and the other unit is stopped. A one-shot build that
/// finishes cleanly also ends the run — build-then-serve-forever is
/// deliberately not this policy.
pub struct Supervisor {
    /// Whether a completion has decided the run.
    pub finished: bool,
    /// Which unit finished first, once one has.
    pub first_task: Option<TaskKind>,
    /// The deciding unit's error, if it failed.
    pub first_error: Option<Error>,
}

impl Supervisor {
    /// A supervisor with both units still running.
    pub fn new() -> (r: Supervisor)
        ensures
            !r.finished,
            r.first_task is None,
            r.first_error is None,
    {
        Supervisor { finished: false, first_task: None, first_error: None }
    }

    /// Takes one unit's completion. The first completion fixes the run's
    /// outcome — an error immediately, promptly failing the run while the
    /// other unit may still be working — and asks the shell to stop
    /// everything; later completions change nothing.
    pub fn on_task_finished(&mut self, task: TaskKind, error: Option<Error>) -> (r:
        SupervisorAction)
        ensures
            !old(self).finished ==> ({
                &&& r is StopAll
                &&& final(self).finished
                &&& final(self).first_task == Some(task)
                &&& final(self).first_error == error
            }),
            old(self).finished ==> r is AlreadyStopped && *final(self) == *old(self),
    {
        if self.finished {
            return SupervisorAction::AlreadyStopped;
        }
        self.finished = true;
        self.first_task = Some(task);
        self.first_error = error;
        SupervisorAction::StopAll
    }

    /// The run's result, once decided: the first failure, or success.
    pub fn into_result(self) -> (r: Result<(), Error>)
        requires
            self.finished,
        ensures
            self.first_error matches Some(e) ==> (r matches Err(e2) && e2 == e),
            self.first_error is None ==> r is Ok,
    {
        match self.first_error {
            Some(e) => Err(e),
            None => Ok(()),
        }
    }
}

} // verus!

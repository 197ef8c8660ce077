//! The external CSS compiler integration: argument validation and the
//! command lines handed to the compiler process. The shell launches the
//! process and streams its output into the log.

pub mod cli;
pub mod installer;

use vstd::prelude::*;
use crate::server::error::Error;
use crate::server::paths::views_of;

verus! {

/// What a compiler run was asked to do.
#[derive(Debug)]
pub struct TailwindArgs {
    /// The project root, where `tailwind.config.js` lives.
    pub root_dir: String,
    /// The CSS file the compiler reads.
    pub input: String,
    /// The CSS file the compiler writes.
    pub output: String,
    /// Whether the compiler keeps watching for changes.
    pub watch: bool,
}

/// Validates a compiler run and builds its argument list.
///
/// The input and output must differ, the input file and the project's
/// `tailwind.config.js` must exist; the shell reports whether they do. The
/// result is the argument list for one `build` run or a `watch` run.
pub fn start(args: &TailwindArgs, input_exists: bool, config_exists: bool) -> (r: Result<
    Vec<String>,
    Error,
>)
    ensures
        args.input@ == args.output@ ==> (r matches Err(e) && e is SameInputOutput),
        args.input@ != args.output@ && !input_exists ==> (r matches Err(e) && e
            matches Error::InputFileMissing(p) && p@ == args.input@),
        args.input@ != args.output@ && input_exists && !config_exists ==> (r matches Err(e) && e
            matches Error::ConfigMissing(d) && d@ == args.root_dir@),
        args.input@ != args.output@ && input_exists && config_exists ==> (r matches Ok(v)
            && views_of(v@) == cli::cli_args_for(args.input@, args.output@, args.watch)),
{
    if crate::strutil::str_eq(args.input.as_str(), args.output.as_str()) {
        return Err(Error::SameInputOutput);
    }
    if !input_exists {
        return Err(Error::InputFileMissing(args.input.clone()));
    }
    if args.watch {
        cli::watch(args, config_exists)
    } else {
        cli::build(args, config_exists)
    }
}

} // verus!

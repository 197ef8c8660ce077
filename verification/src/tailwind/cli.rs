//! The compiler's command lines.

use vstd::prelude::*;
use crate::server::error::Error;
use crate::server::paths::views_of;
use crate::tailwind::TailwindArgs;

verus! {

/// The arguments every compiler run gets: its input and output files.
pub open spec fn base_cli_args(input: Seq<char>, output: Seq<char>) -> Seq<Seq<char>> {
    seq!["--input"@, input, "--output"@, output]
}

/// The arguments of a run; a watching run adds `--watch`.
pub open spec fn cli_args_for(input: Seq<char>, output: Seq<char>, watch: bool) -> Seq<
    Seq<char>,
> {
    if watch {
        base_cli_args(input, output).push("--watch"@)
    } else {
        base_cli_args(input, output)
    }
}

/// Which program the shell launches for a compiler run.
#[derive(Clone, Copy, Debug, PartialEq, Eq, Structural)]
pub enum TailwindProgram {
    /// `npx tailwindcss`, when node is available.
    Npx,
    /// The downloaded standalone compiler binary.
    StandaloneCli,
}

/// Picks the program for a compiler run: `npx` when node is available,
/// otherwise the standalone binary.
pub fn choose_program(node_ok: bool) -> (r: TailwindProgram)
    ensures
        node_ok ==> r == TailwindProgram::Npx,
        !node_ok ==> r == TailwindProgram::StandaloneCli,
{
    if node_ok {
        TailwindProgram::Npx
    } else {
        TailwindProgram::StandaloneCli
    }
}

/// Builds the arguments shared by every run, refusing a project without its
/// compiler configuration.
pub fn base_args(args: &TailwindArgs, config_exists: bool) -> (r: Result<Vec<String>, Error>)
    ensures
        !config_exists ==> (r matches Err(e) && e matches Error::ConfigMissing(d) && d@
            == args.root_dir@),
        config_exists ==> (r matches Ok(v) && views_of(v@) == base_cli_args(
            args.input@,
            args.output@,
        )),
{
    if !config_exists {
        return Err(Error::ConfigMissing(args.root_dir.clone()));
    }
    let mut v: Vec<String> = Vec::new();
    v.push(String::from_str("--input"));
    v.push(args.input.clone());
    v.push(String::from_str("--output"));
    v.push(args.output.clone());
    proof {
        assert(views_of(v@) =~= base_cli_args(args.input@, args.output@)) by {
            assert(forall|j: int| 0 <= j < v@.len() ==> views_of(v@)[j] == #[trigger] v@[j]@);
        }
    }
    Ok(v)
}

/// The argument list of a single build run.
pub fn build(args: &TailwindArgs, config_exists: bool) -> (r: Result<Vec<String>, Error>)
    ensures
        !config_exists ==> (r matches Err(e) && e matches Error::ConfigMissing(d) && d@
            == args.root_dir@),
        config_exists ==> (r matches Ok(v) && views_of(v@) == cli_args_for(
            args.input@,
            args.output@,
            false,
        )),
{
    base_args(args, config_exists)
}

/// The argument list of a watching run: the base arguments plus `--watch`.
pub fn watch(args: &TailwindArgs, config_exists: bool) -> (r: Result<Vec<String>, Error>)
    ensures
        !config_exists ==> (r matches Err(e) && e matches Error::ConfigMissing(d) && d@
            == args.root_dir@),
        config_exists ==> (r matches Ok(v) && views_of(v@) == cli_args_for(
            args.input@,
            args.output@,
            true,
        )),
{
    let mut v = base_args(args, config_exists)?;
    let ghost before = v@;
    v.push(String::from_str("--watch"));
    proof {
        assert(views_of(v@) =~= views_of(before).push("--watch"@)) by {
            assert(forall|j: int| 0 <= j < v@.len() ==> views_of(v@)[j] == #[trigger] v@[j]@);
            assert(forall|j: int|
                0 <= j < before.len() ==> views_of(before)[j] == #[trigger] before[j]@);
        }
    }
    Ok(v)
}

} // verus!

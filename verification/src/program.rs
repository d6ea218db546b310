//! The program as a whole.
use vstd::prelude::*;

use crate::cli::{Cli, Commands, CommandsView};
use crate::error::{BoxRunError, ErrorView};
use crate::host::{Halt, HaltView, HostFacts, HostView};
use crate::platform::{doctor, run, run_helper, Platform};

verus! {

/// What the program does, up to the exit code.
pub open spec fn dispatch_of(platform: Platform, command: CommandsView, host: HostView) -> Result<
    u8,
    HaltView,
> {
    match command {
        CommandsView::Run(args) => crate::platform::run_of(platform, args, host),
        CommandsView::Doctor => crate::platform::doctor_of(platform, host),
        CommandsView::Helper(args) => Err(crate::platform::helper_of(platform, args, host)),
    }
}

/// Does what the command line asks for, as far as the facts carry it, and gives the exit code.
pub fn dispatch(platform: Platform, cli: &Cli, facts: &HostFacts) -> (code: Result<u8, Halt>)
    ensures
        crate::host::outcome(code) == dispatch_of(platform, cli.command.deep_view(), facts@),
{
    match &cli.command {
        Commands::Run(args) => run(platform, args, facts),
        Commands::Doctor => doctor(platform, facts),
        Commands::Helper(args) => run_helper(platform, args, facts),
    }
}

/// How the program ends: its exit code, and the lines that tell of a failure.
pub open spec fn conclusion_of(ended: Result<u8, ErrorView>) -> (u8, Seq<Seq<char>>) {
    match ended {
        Ok(code) => (code, Seq::empty()),
        Err(error) => (1, crate::error::report_of(error)),
    }
}

/// How the program ends: its exit code, and the lines that tell of a failure.
pub fn conclude(ended: Result<u8, BoxRunError>) -> (conclusion: (u8, Vec<String>))
    ensures
        (conclusion.0, conclusion.1.deep_view()) == conclusion_of(crate::host::outcome(ended)),
{
    match ended {
        Ok(code) => {
            let lines: Vec<String> = Vec::new();
            assert(lines.deep_view() =~= Seq::empty());
            (code, lines)
        },
        Err(error) => (1, error.report()),
    }
}

/// Each command is carried out by what is there for it.
pub proof fn commands_are_told_apart(
    platform: Platform,
    run_args: crate::cli::RunArgsView,
    helper_args: crate::cli::HelperArgsView,
    host: HostView,
)
    ensures
        dispatch_of(platform, CommandsView::Run(run_args), host) == crate::platform::run_of(
            platform,
            run_args,
            host,
        ),
        dispatch_of(platform, CommandsView::Doctor, host) == crate::platform::doctor_of(
            platform,
            host,
        ),
        dispatch_of(platform, CommandsView::Helper(helper_args), host) == Err::<u8, _>(
            crate::platform::helper_of(platform, helper_args, host),
        ),
{
}

/// A program that comes to an end with an exit code ends with that code and says nothing. One that
/// fails ends with 1 and tells the failure and each of its causes, one to a line.
pub proof fn failures_are_told(code: u8, error: ErrorView)
    ensures
        conclusion_of(Ok(code)).0 == code,
        conclusion_of(Ok(code)).1.len() == 0,
        conclusion_of(Err(error)).0 == 1,
        conclusion_of(Err(error)).1.len() == 1 + crate::error::causes_of(error).len(),
        conclusion_of(Err(error)).1[0] == "error: "@ + crate::error::message_of(error),
        forall|i: int|
            0 <= i < crate::error::causes_of(error).len() ==> conclusion_of(Err(error)).1[i + 1]
                == "caused by: "@ + #[trigger] crate::error::causes_of(error)[i],
{
}

} // verus!

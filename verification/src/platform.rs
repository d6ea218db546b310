//! What can be done on each operating system. The backend for Linux is the only one.
use vstd::prelude::*;

use crate::cli::{HelperArgs, HelperArgsView, RunArgs, RunArgsView};
use crate::error::{BoxRunError, ErrorView};
use crate::host::{print_lines, Halt, HaltView, HostFacts, HostView};
use crate::policy::Policy;

verus! {

/// An operating system.
#[derive(Clone, Copy, Debug, PartialEq, Eq, Structural)]
pub enum Platform {
    Linux,
    Macos,
    Windows,
    /// Any other.
    Other,
}

/// Why no command can be run where there is no backend.
pub open spec fn no_backend_of(platform: Platform) -> Seq<char> {
    match platform {
        Platform::Macos =>
            "macOS backend is not implemented yet; the current release fully supports Linux only"@,
        Platform::Windows =>
            "Windows backend is not implemented yet; the current release fully supports Linux only"@,
        _ => "this platform is not supported yet; the current release fully supports Linux only"@,
    }
}

/// Running a command in a sandbox, up to the exit code.
pub open spec fn run_of(platform: Platform, args: RunArgsView, host: HostView) -> Result<
    u8,
    HaltView,
> {
    if platform == Platform::Linux {
        match crate::policy::policy_of(args, host) {
            Err(halt) => Err(halt),
            Ok(policy) => crate::linux::run_of(policy, host),
        }
    } else {
        Err(HaltView::Fail(ErrorView::Message(no_backend_of(platform))))
    }
}

/// What is told where there is no backend.
pub open spec fn doctor_lines_of(platform: Platform) -> Seq<Seq<char>> {
    match platform {
        Platform::Macos => seq![
            "platform: macos"@,
            "backend: unavailable"@,
            "status: Linux is fully supported; macOS backend is planned but not implemented"@,
        ],
        Platform::Windows => seq![
            "platform: windows"@,
            "backend: unavailable"@,
            "status: Linux is fully supported; Windows backend is planned but not implemented"@,
        ],
        _ => seq![
            "platform: unsupported"@,
            "backend: unavailable"@,
            "status: Linux is fully supported; this target does not have a backend yet"@,
        ],
    }
}

/// Telling what the backend can do, up to the exit code.
pub open spec fn doctor_of(platform: Platform, host: HostView) -> Result<u8, HaltView> {
    if platform == Platform::Linux {
        crate::linux::doctor_of(host)
    } else {
        crate::host::printed_of(doctor_lines_of(platform), host)
    }
}

/// What the process inside the sandbox does.
pub open spec fn helper_of(platform: Platform, args: HelperArgsView, host: HostView) -> HaltView {
    if platform == Platform::Linux {
        crate::linux::helper_of(args, host)
    } else {
        HaltView::Fail(ErrorView::Message("sandbox helper is only available on Linux"@))
    }
}

/// Runs a command in a sandbox, and gives the exit code.
pub fn run(platform: Platform, args: &RunArgs, facts: &HostFacts) -> (code: Result<u8, Halt>)
    ensures
        crate::host::outcome(code) == run_of(platform, args.deep_view(), facts@),
{
    let message = match platform {
        Platform::Linux => {
            let policy = Policy::from_args(args, facts)?;
            return crate::linux::run(&policy, facts);
        },
        Platform::Macos =>
            "macOS backend is not implemented yet; the current release fully supports Linux only",
        Platform::Windows =>
            "Windows backend is not implemented yet; the current release fully supports Linux only",
        Platform::Other =>
            "this platform is not supported yet; the current release fully supports Linux only",
    };
    Err(Halt::Fail(BoxRunError::Message(message.to_owned())))
}

/// Tells what the backend can do.
pub fn doctor(platform: Platform, facts: &HostFacts) -> (code: Result<u8, Halt>)
    ensures
        crate::host::outcome(code) == doctor_of(platform, facts@),
{
    let mut lines: Vec<String> = Vec::new();
    match platform {
        Platform::Linux => {
            return crate::linux::doctor(facts);
        },
        Platform::Macos => {
            lines.push("platform: macos".to_owned());
            lines.push("backend: unavailable".to_owned());
            lines.push(
                "status: Linux is fully supported; macOS backend is planned but not implemented".to_owned(),
            );
        },
        Platform::Windows => {
            lines.push("platform: windows".to_owned());
            lines.push("backend: unavailable".to_owned());
            lines.push(
                "status: Linux is fully supported; Windows backend is planned but not implemented".to_owned(),
            );
        },
        Platform::Other => {
            lines.push("platform: unsupported".to_owned());
            lines.push("backend: unavailable".to_owned());
            lines.push(
                "status: Linux is fully supported; this target does not have a backend yet".to_owned(),
            );
        },
    }
    assert(lines.deep_view() =~= doctor_lines_of(platform));
    print_lines(lines, facts)
}

/// Does what the process inside the sandbox is there for.
pub fn run_helper(platform: Platform, args: &HelperArgs, facts: &HostFacts) -> (code: Result<
    u8,
    Halt,
>)
    ensures
        crate::host::outcome(code) == Err::<u8, _>(helper_of(platform, args.deep_view(), facts@)),
{
    if platform == Platform::Linux {
        return crate::linux::run_helper(args, facts);
    }
    Err(
        Halt::Fail(BoxRunError::Message("sandbox helper is only available on Linux".to_owned())),
    )
}

/// On Linux a command line becomes a policy, and the policy is run. What stands in the way of the
/// policy stands in the way of the run.
pub proof fn linux_runs_the_policy(args: RunArgsView, host: HostView)
    ensures
        match crate::policy::policy_of(args, host) {
            Ok(policy) => run_of(Platform::Linux, args, host) == crate::linux::run_of(
                policy,
                host,
            ),
            Err(halt) => run_of(Platform::Linux, args, host) == Err::<u8, _>(halt),
        },
{
}

/// Anywhere else nothing is run, nothing is asked of the host, and no process restricts itself. The
/// failure is the same whatever the command line and the host. What can be told about the backend
/// is told, and that is a success.
pub proof fn other_platforms_run_nothing(
    platform: Platform,
    args: RunArgsView,
    helper: HelperArgsView,
    host: HostView,
)
    requires
        platform != Platform::Linux,
    ensures
        run_of(platform, args, host) matches Err(HaltView::Fail(ErrorView::Message(_))),
        forall|other: RunArgsView, elsewhere: HostView|
            #[trigger] run_of(platform, other, elsewhere) == run_of(platform, args, host),
        helper_of(platform, helper, host) matches HaltView::Fail(ErrorView::Message(_)),
        host.printed ==> doctor_of(platform, host) == Ok::<u8, HaltView>(0u8),
        !host.printed ==> (doctor_of(platform, host) matches Err(
            HaltView::Ask(crate::host::QueryView::Print(lines)),
        ) && lines.len() == 3 && lines[1] == "backend: unavailable"@),
{
}

} // verus!

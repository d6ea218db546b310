//! The backend for Linux: a sandbox that `bwrap` sets up, and a helper inside it that restricts
//! itself before it turns into the command.
use vstd::prelude::*;
use vstd::string::StrSliceExecFns;

pub use crate::bwrap::build_bwrap_command;
use crate::byte_string::ByteString;
use crate::cli::{HelperArgs, HelperArgsView, StdinMode, TtyMode};
use crate::copies::{copy_paths, copy_ports, copy_strings, copy_texts};
use crate::error::{BoxRunError, ErrorView};
use crate::host::{print_lines, Attempt, AttemptView, Halt, HaltView, HostFacts, HostView};
use crate::host::{Query, QueryView};
use crate::landlock_support::{apply, detect_abi, TCP_RULES_MIN_ABI};
use crate::launch::{ChildStatus, CopyOutcome, CopyOutcomeView, Launch, LaunchResult};
use crate::launch::{LaunchResultView, LaunchView, StdioEnd, StdioMode, StdioPlan, Stream};
use crate::policy::{LandlockPlan, LandlockPlanView, Policy, PolicyView};
use crate::text::{decimal, lossy_text, prefixed, surround, trim};
use crate::unix_path::UnixPath;

verus! {

/// The warning that rules for TCP ports are not enforced.
pub open spec fn tcp_warning_of(abi: Option<u32>) -> Seq<char> {
    match abi {
        Some(_) => "TCP allowlists require Landlock ABI "@ + crate::text::decimal_of(
            TCP_RULES_MIN_ABI as nat,
        ) + "+, continuing because best-effort mode is enabled"@,
        None =>
            "TCP allowlists require Landlock support, continuing because best-effort mode is enabled"@,
    }
}

/// The message that rules for TCP ports cannot be enforced.
pub open spec fn tcp_refusal_of(abi: Option<u32>) -> Seq<char> {
    let start = "TCP allowlists require Landlock ABI "@ + crate::text::decimal_of(
        TCP_RULES_MIN_ABI as nat,
    );
    match abi {
        Some(abi) => start + "+, but detected ABI "@ + crate::text::decimal_of(abi as nat)
            + "; rerun with --best-effort to continue without enforcement"@,
        None => start
            + "+, but Landlock is unavailable; rerun with --best-effort to continue without enforcement"@,
    }
}

/// The kernel can enforce rules for TCP ports.
pub open spec fn enforces_tcp(abi: Option<u32>) -> bool {
    abi is Some && abi->0 >= TCP_RULES_MIN_ABI
}

/// Whether the rules for TCP ports can be enforced, where there are any. If they cannot, that is
/// a failure, unless the sandbox is to do its best: then there is a warning.
pub open spec fn tcp_support_of(policy: PolicyView, host: HostView) -> Result<(), HaltView> {
    if !policy.landlock.has_tcp_rules() {
        Ok(())
    } else {
        match crate::landlock_support::detected_abi_of(host) {
            Err(halt) => Err(halt),
            Ok(abi) => if enforces_tcp(abi) {
                Ok(())
            } else if !policy.best_effort {
                Err(
                    HaltView::Fail(ErrorView::UnsupportedOption { message: tcp_refusal_of(abi) }),
                )
            } else if host.warned {
                Ok(())
            } else {
                Err(
                    HaltView::Ask(
                        QueryView::Warn { text: tcp_warning_of(abi), landlock_abi: abi },
                    ),
                )
            },
        }
    }
}

fn tcp_warning(abi: Option<u32>) -> (text: String)
    ensures
        text@ == tcp_warning_of(abi),
{
    match abi {
        Some(_) => surround(
            "TCP allowlists require Landlock ABI ",
            decimal(TCP_RULES_MIN_ABI).as_str(),
            "+, continuing because best-effort mode is enabled",
        ),
        None =>
            "TCP allowlists require Landlock support, continuing because best-effort mode is enabled".to_owned(),
    }
}

fn tcp_refusal(abi: Option<u32>) -> (text: String)
    ensures
        text@ == tcp_refusal_of(abi),
{
    match abi {
        Some(abi) => {
            let start = surround(
                "TCP allowlists require Landlock ABI ",
                decimal(TCP_RULES_MIN_ABI).as_str(),
                "+, but detected ABI ",
            );
            surround(
                start.as_str(),
                decimal(abi).as_str(),
                "; rerun with --best-effort to continue without enforcement",
            )
        },
        None => surround(
            "TCP allowlists require Landlock ABI ",
            decimal(TCP_RULES_MIN_ABI).as_str(),
            "+, but Landlock is unavailable; rerun with --best-effort to continue without enforcement",
        ),
    }
}

/// Makes sure that the rules for TCP ports can be enforced, or that a warning says they are not.
pub fn validate_tcp_landlock_support(policy: &Policy, facts: &HostFacts) -> (valid: Result<
    (),
    Halt,
>)
    ensures
        match valid {
            Ok(_) => tcp_support_of(policy.deep_view(), facts@) == Ok::<_, HaltView>(()),
            Err(halt) => tcp_support_of(policy.deep_view(), facts@) == Err::<(), _>(
                halt.deep_view(),
            ),
        },
{
    if !policy.landlock.has_tcp_rules() {
        return Ok(());
    }
    let abi = detect_abi(facts)?;
    let enforced = match abi {
        Some(abi) => abi >= TCP_RULES_MIN_ABI,
        None => false,
    };
    if enforced {
        Ok(())
    } else if !policy.best_effort {
        Err(Halt::Fail(BoxRunError::UnsupportedOption { message: tcp_refusal(abi) }))
    } else if facts.warned {
        Ok(())
    } else {
        Err(Halt::Ask(Query::Warn { text: tcp_warning(abi), landlock_abi: abi }))
    }
}

/// What the standard input of the program is, where the program moves its data itself.
pub open spec fn stdin_end_of(stdin: StdinMode) -> StdioEnd {
    match stdin {
        StdinMode::Inherit => StdioEnd::Inherit,
        StdinMode::Null => StdioEnd::Null,
    }
}

/// A standard stream of this process is a terminal.
pub open spec fn terminal_of(stream: Stream, host: HostView) -> Result<bool, HaltView> {
    let known = match stream {
        Stream::Stdin => host.stdin_terminal,
        Stream::Stdout => host.stdout_terminal,
        Stream::Stderr => host.stderr_terminal,
    };
    match known {
        Some(terminal) => Ok(terminal),
        None => Err(HaltView::Ask(QueryView::IsTerminal(stream))),
    }
}

/// The failure where a terminal is required and there is none.
pub open spec fn no_terminal() -> HaltView {
    HaltView::Fail(
        ErrorView::UnsupportedOption {
            message: "--tty force requires the current process to be attached to a terminal"@,
        },
    )
}

/// The streams that the program uses are terminals. They are looked at in their order, up to the
/// first that is none.
pub open spec fn forced_tty_of(stdin: StdinMode, host: HostView) -> Result<(), HaltView> {
    let stdin_ok = if stdin == StdinMode::Null {
        Ok(true)
    } else {
        terminal_of(Stream::Stdin, host)
    };
    match stdin_ok {
        Err(halt) => Err(halt),
        Ok(false) => Err(no_terminal()),
        Ok(true) => match terminal_of(Stream::Stdout, host) {
            Err(halt) => Err(halt),
            Ok(false) => Err(no_terminal()),
            Ok(true) => match terminal_of(Stream::Stderr, host) {
                Err(halt) => Err(halt),
                Ok(false) => Err(no_terminal()),
                Ok(true) => Ok(()),
            },
        },
    }
}

/// The standard streams of the program: its own to use, or pipes where it must not see a terminal.
pub open spec fn stdio_of(stdin: StdinMode, tty: TtyMode, host: HostView) -> Result<
    StdioPlan,
    HaltView,
> {
    let direct = StdioPlan {
        stdin: stdin_end_of(stdin),
        stdout: StdioEnd::Inherit,
        stderr: StdioEnd::Inherit,
        mode: StdioMode::Direct,
    };
    match tty {
        TtyMode::Auto => Ok(direct),
        TtyMode::Force => match forced_tty_of(stdin, host) {
            Err(halt) => Err(halt),
            Ok(_) => Ok(direct),
        },
        TtyMode::Disable => Ok(
            StdioPlan {
                stdin: match stdin {
                    StdinMode::Inherit => StdioEnd::Piped,
                    StdinMode::Null => StdioEnd::Null,
                },
                stdout: StdioEnd::Piped,
                stderr: StdioEnd::Piped,
                mode: StdioMode::Forwarded { copy_stdin: stdin == StdinMode::Inherit },
            },
        ),
    }
}

fn stdin_stdio(mode: StdinMode) -> (end: StdioEnd)
    ensures
        end == stdin_end_of(mode),
{
    match mode {
        StdinMode::Inherit => StdioEnd::Inherit,
        StdinMode::Null => StdioEnd::Null,
    }
}

fn is_terminal(stream: Stream, facts: &HostFacts) -> (terminal: Result<bool, Halt>)
    ensures
        match terminal {
            Ok(terminal) => terminal_of(stream, facts@) == Ok::<_, HaltView>(terminal),
            Err(halt) => terminal_of(stream, facts@) == Err::<bool, _>(halt.deep_view()),
        },
{
    let known = match stream {
        Stream::Stdin => facts.stdin_terminal,
        Stream::Stdout => facts.stdout_terminal,
        Stream::Stderr => facts.stderr_terminal,
    };
    match known {
        Some(terminal) => Ok(terminal),
        None => Err(Halt::Ask(Query::IsTerminal(stream))),
    }
}

/// Makes sure that the streams that the program uses are terminals.
pub fn ensure_forced_tty(stdin: StdinMode, facts: &HostFacts) -> (forced: Result<(), Halt>)
    ensures
        match forced {
            Ok(_) => forced_tty_of(stdin, facts@) == Ok::<_, HaltView>(()),
            Err(halt) => forced_tty_of(stdin, facts@) == Err::<(), _>(halt.deep_view()),
        },
{
    let stdin_ok = if stdin == StdinMode::Null {
        true
    } else {
        is_terminal(Stream::Stdin, facts)?
    };
    if stdin_ok && is_terminal(Stream::Stdout, facts)? && is_terminal(Stream::Stderr, facts)? {
        return Ok(());
    }
    Err(
        Halt::Fail(
            BoxRunError::UnsupportedOption {
                message:
                    "--tty force requires the current process to be attached to a terminal".to_owned(),
            },
        ),
    )
}

/// Decides on the standard streams of the program.
pub fn configure_stdio(policy: &Policy, facts: &HostFacts) -> (stdio: Result<StdioPlan, Halt>)
    ensures
        match stdio {
            Ok(plan) => stdio_of(policy.stdin, policy.tty, facts@) == Ok::<_, HaltView>(plan),
            Err(halt) => stdio_of(policy.stdin, policy.tty, facts@) == Err::<StdioPlan, _>(
                halt.deep_view(),
            ),
        },
{
    let direct = StdioPlan {
        stdin: stdin_stdio(policy.stdin),
        stdout: StdioEnd::Inherit,
        stderr: StdioEnd::Inherit,
        mode: StdioMode::Direct,
    };
    match policy.tty {
        TtyMode::Auto => Ok(direct),
        TtyMode::Force => {
            ensure_forced_tty(policy.stdin, facts)?;
            Ok(direct)
        },
        TtyMode::Disable => Ok(
            StdioPlan {
                stdin: match policy.stdin {
                    StdinMode::Inherit => StdioEnd::Piped,
                    StdinMode::Null => StdioEnd::Null,
                },
                stdout: StdioEnd::Piped,
                stderr: StdioEnd::Piped,
                mode: StdioMode::Forwarded { copy_stdin: policy.stdin == StdinMode::Inherit },
            },
        ),
    }
}

/// The failure of copying a stream, if it failed.
pub open spec fn copy_failure_of(stream: Seq<char>, copied: CopyOutcomeView) -> Option<ErrorView> {
    match copied {
        CopyOutcomeView::NotCopied => None,
        CopyOutcomeView::Copied => None,
        CopyOutcomeView::Failed(source) => Some(ErrorView::IoForward { stream, source }),
        CopyOutcomeView::Panicked => Some(ErrorView::IoForwardPanic { stream }),
    }
}

/// How a program ended that was started. Where this process copies its output, that has to be
/// complete.
pub open spec fn status_of(program: Seq<u8>, mode: StdioMode, result: LaunchResultView) -> Result<
    ChildStatus,
    ErrorView,
> {
    match result {
        LaunchResultView::SpawnFailed(source) => Err(ErrorView::Spawn { program, source }),
        LaunchResultView::WaitFailed(source) => if mode == StdioMode::Direct {
            Err(ErrorView::Spawn { program, source })
        } else {
            Err(ErrorView::Wait { program, source })
        },
        LaunchResultView::Exited { status, stdout, stderr } => if mode == StdioMode::Direct {
            Ok(status)
        } else {
            match copy_failure_of("stdout"@, stdout) {
                Some(error) => Err(error),
                None => match copy_failure_of("stderr"@, stderr) {
                    Some(error) => Err(error),
                    None => Ok(status),
                },
            }
        },
    }
}

/// The exit code that tells how the program ended. Its own code is passed on where it is one byte.
/// A signal gives 128 and its number, of which the low sixteen bits count, up to 255.
pub open spec fn exit_code_of(status: ChildStatus) -> u8 {
    match (status.code, status.signal) {
        (Some(code), _) => if 0 <= code <= 255 {
            code as u8
        } else {
            1
        },
        (None, Some(signal)) => if 128 + signal as int % 0x10000 <= 255 {
            (128 + signal as int % 0x10000) as u8
        } else {
            255
        },
        (None, None) => 1,
    }
}

/// The exit code that tells how the program ended.
pub fn exit_code_from_status(status: ChildStatus) -> (code: u8)
    ensures
        code == exit_code_of(status),
{
    if let Some(code) = status.code {
        return if 0 <= code && code <= 255 {
            code as u8
        } else {
            1
        };
    }
    if let Some(signal) = status.signal {
        let number: i64 = if signal >= 0 {
            signal as i64
        } else {
            signal as i64 + 0x1_0000_0000
        };
        let code: i64 = 128 + number % 0x10000;
        return if code <= 255 {
            code as u8
        } else {
            255
        };
    }
    1
}

/// Tells whether copying a stream failed.
pub fn finish_copy_thread(stream: &str, copied: &CopyOutcome) -> (finished: Result<
    (),
    BoxRunError,
>)
    ensures
        match finished {
            Ok(_) => copy_failure_of(stream@, copied.deep_view()) is None,
            Err(error) => copy_failure_of(stream@, copied.deep_view()) == Some(error.deep_view()),
        },
{
    match copied {
        CopyOutcome::NotCopied => Ok(()),
        CopyOutcome::Copied => Ok(()),
        CopyOutcome::Failed(source) => Err(
            BoxRunError::IoForward { stream: stream.to_owned(), source: copy_texts(source) },
        ),
        CopyOutcome::Panicked => Err(BoxRunError::IoForwardPanic { stream: stream.to_owned() }),
    }
}

/// Tells how a program ended that was started.
pub fn launch_status(program: &UnixPath, mode: StdioMode, result: &LaunchResult) -> (status: Result<
    ChildStatus,
    BoxRunError,
>)
    ensures
        match status {
            Ok(status) => status_of(program@, mode, result.deep_view()) == Ok::<_, ErrorView>(
                status,
            ),
            Err(error) => status_of(program@, mode, result.deep_view()) == Err::<ChildStatus, _>(
                error.deep_view(),
            ),
        },
{
    match result {
        LaunchResult::SpawnFailed(source) => Err(
            BoxRunError::Spawn { program: program.clone(), source: copy_texts(source) },
        ),
        LaunchResult::WaitFailed(source) => if mode == StdioMode::Direct {
            Err(BoxRunError::Spawn { program: program.clone(), source: copy_texts(source) })
        } else {
            Err(BoxRunError::Wait { program: program.clone(), source: copy_texts(source) })
        },
        LaunchResult::Exited { status, stdout, stderr } => {
            if mode != StdioMode::Direct {
                finish_copy_thread("stdout", stdout)?;
                finish_copy_thread("stderr", stderr)?;
            }
            Ok(*status)
        },
    }
}

/// The path of `bwrap`.
pub open spec fn bwrap_of(host: HostView) -> Result<Seq<u8>, HaltView> {
    match host.bwrap {
        None => Err(HaltView::Ask(QueryView::FindBwrap)),
        Some(Err(source)) => Err(
            HaltView::Fail(ErrorView::MissingProgram { program: "bwrap"@, source }),
        ),
        Some(Ok(path)) => Ok(path),
    }
}

/// The path of this executable.
pub open spec fn current_exe_of(host: HostView) -> Result<Seq<u8>, HaltView> {
    match host.current_exe {
        None => Err(HaltView::Ask(QueryView::CurrentExe)),
        Some(Err(source)) => Err(HaltView::Fail(ErrorView::CurrentExe(source))),
        Some(Ok(path)) => Ok(path),
    }
}

/// The program that sets up the sandbox and runs the command in it.
pub open spec fn launch_of(policy: PolicyView, host: HostView) -> Result<LaunchView, HaltView> {
    match tcp_support_of(policy, host) {
        Err(halt) => Err(halt),
        Ok(_) => match bwrap_of(host) {
            Err(halt) => Err(halt),
            Ok(program) => match current_exe_of(host) {
                Err(halt) => Err(halt),
                Ok(current_exe) => match stdio_of(policy.stdin, policy.tty, host) {
                    Err(halt) => Err(halt),
                    Ok(stdio) => match crate::bwrap::bwrap_args_of(current_exe, policy, host) {
                        Err(halt) => Err(halt),
                        Ok(args) => Ok(LaunchView { program, args, stdio }),
                    },
                },
            },
        },
    }
}

/// What comes of a launch, once its result is known.
pub open spec fn launched_of(launch: LaunchView, host: HostView) -> Result<u8, HaltView> {
    match host.launched {
        None => Err(HaltView::Ask(QueryView::Launch(launch))),
        Some(result) => match status_of(launch.program, launch.stdio.mode, result) {
            Err(error) => Err(HaltView::Fail(error)),
            Ok(status) => Ok(exit_code_of(status)),
        },
    }
}

/// Running the command in the sandbox, up to the exit code.
pub open spec fn run_of(policy: PolicyView, host: HostView) -> Result<u8, HaltView> {
    match launch_of(policy, host) {
        Err(halt) => Err(halt),
        Ok(launch) => launched_of(launch, host),
    }
}

fn find_bwrap(facts: &HostFacts) -> (path: Result<UnixPath, Halt>)
    ensures
        crate::host::outcome(path) == bwrap_of(facts@),
{
    match &facts.bwrap {
        None => Err(Halt::Ask(Query::FindBwrap)),
        Some(Err(source)) => Err(
            Halt::Fail(
                BoxRunError::MissingProgram {
                    program: "bwrap".to_owned(),
                    source: copy_texts(source),
                },
            ),
        ),
        Some(Ok(path)) => Ok(path.clone()),
    }
}

fn current_exe(facts: &HostFacts) -> (path: Result<UnixPath, Halt>)
    ensures
        crate::host::outcome(path) == current_exe_of(facts@),
{
    match &facts.current_exe {
        None => Err(Halt::Ask(Query::CurrentExe)),
        Some(Err(source)) => Err(Halt::Fail(BoxRunError::CurrentExe(copy_texts(source)))),
        Some(Ok(path)) => Ok(path.clone()),
    }
}

/// The program that sets up the sandbox and runs the command in it.
pub fn prepare_launch(policy: &Policy, facts: &HostFacts) -> (launch: Result<Launch, Halt>)
    ensures
        crate::host::outcome(launch) == launch_of(policy.deep_view(), facts@),
{
    validate_tcp_landlock_support(policy, facts)?;
    let program = find_bwrap(facts)?;
    let current_exe = current_exe(facts)?;
    let stdio = configure_stdio(policy, facts)?;
    let args = build_bwrap_command(&current_exe, policy, facts)?;
    Ok(Launch { program, args, stdio })
}

/// Runs the command in the sandbox, and gives the exit code.
pub fn run(policy: &Policy, facts: &HostFacts) -> (code: Result<u8, Halt>)
    ensures
        crate::host::outcome(code) == run_of(policy.deep_view(), facts@),
{
    let launch = prepare_launch(policy, facts)?;
    match &facts.launched {
        None => Err(Halt::Ask(Query::Launch(launch))),
        Some(result) => match launch_status(&launch.program, launch.stdio.mode, result) {
            Err(error) => Err(Halt::Fail(error)),
            Ok(status) => Ok(exit_code_from_status(status)),
        },
    }
}

/// What the process inside the sandbox is to leave allowed.
pub open spec fn helper_plan_of(args: HelperArgsView) -> LandlockPlanView {
    LandlockPlanView {
        ro_paths: args.landlock_ro,
        rw_paths: args.landlock_rw,
        tcp_connect_ports: args.landlock_tcp_connect,
        tcp_bind_ports: args.landlock_tcp_bind,
    }
}

/// This process gains no privileges any more.
pub open spec fn hardened_of(host: HostView) -> Result<(), HaltView> {
    match host.no_new_privs {
        None => Err(HaltView::Ask(QueryView::NoNewPrivs)),
        Some(AttemptView::Failed(source)) => Err(
            HaltView::Fail(ErrorView::ProcessHardening(source)),
        ),
        Some(AttemptView::Done) => Ok(()),
    }
}

/// The restrictions of the plan are in place.
pub open spec fn restricted_of(plan: LandlockPlanView, host: HostView) -> Result<(), HaltView> {
    match crate::landlock_support::ruleset_of(plan) {
        None => Ok(()),
        Some(ruleset) => match host.restricted {
            None => Err(HaltView::Ask(QueryView::Restrict(ruleset))),
            Some(AttemptView::Failed(source)) => Err(HaltView::Fail(ErrorView::Landlock(source))),
            Some(AttemptView::Done) => Ok(()),
        },
    }
}

/// Turning into the command. There is no success: the program is then another.
pub open spec fn exec_of(command: Seq<Seq<u8>>, host: HostView) -> HaltView {
    if command.len() == 0 {
        HaltView::Fail(ErrorView::Message("missing target command"@))
    } else {
        match host.exec_failure {
            None => HaltView::Ask(QueryView::Exec(command[0], command.drop_first())),
            Some(source) => HaltView::Fail(ErrorView::ExecTarget(source)),
        }
    }
}

/// What the process inside the sandbox does: it gives up privileges, restricts itself, and turns
/// into the command.
pub open spec fn helper_of(args: HelperArgsView, host: HostView) -> HaltView {
    match hardened_of(host) {
        Err(halt) => halt,
        Ok(_) => match restricted_of(helper_plan_of(args), host) {
            Err(halt) => halt,
            Ok(_) => exec_of(args.command, host),
        },
    }
}

fn set_no_new_privs(facts: &HostFacts) -> (hardened: Result<(), Halt>)
    ensures
        match hardened {
            Ok(_) => hardened_of(facts@) == Ok::<_, HaltView>(()),
            Err(halt) => hardened_of(facts@) == Err::<(), _>(halt.deep_view()),
        },
{
    match &facts.no_new_privs {
        None => Err(Halt::Ask(Query::NoNewPrivs)),
        Some(Attempt::Failed(source)) => Err(
            Halt::Fail(BoxRunError::ProcessHardening(copy_texts(source))),
        ),
        Some(Attempt::Done) => Ok(()),
    }
}

fn restrict(plan: &LandlockPlan, facts: &HostFacts) -> (restricted: Result<(), Halt>)
    ensures
        match restricted {
            Ok(_) => restricted_of(plan.deep_view(), facts@) == Ok::<_, HaltView>(()),
            Err(halt) => restricted_of(plan.deep_view(), facts@) == Err::<(), _>(
                halt.deep_view(),
            ),
        },
{
    match apply(plan) {
        None => Ok(()),
        Some(ruleset) => match &facts.restricted {
            None => Err(Halt::Ask(Query::Restrict(ruleset))),
            Some(Attempt::Failed(source)) => Err(
                Halt::Fail(BoxRunError::Landlock(copy_texts(source))),
            ),
            Some(Attempt::Done) => Ok(()),
        },
    }
}

/// Gives up privileges, restricts this process, and turns it into the command.
pub fn run_helper(args: &HelperArgs, facts: &HostFacts) -> (code: Result<u8, Halt>)
    ensures
        crate::host::outcome(code) == Err::<u8, _>(helper_of(args.deep_view(), facts@)),
{
    set_no_new_privs(facts)?;
    let plan = LandlockPlan {
        ro_paths: copy_paths(&args.landlock_ro),
        rw_paths: copy_paths(&args.landlock_rw),
        tcp_connect_ports: copy_ports(&args.landlock_tcp_connect),
        tcp_bind_ports: copy_ports(&args.landlock_tcp_bind),
    };
    restrict(&plan, facts)?;
    if args.command.is_empty() {
        return Err(Halt::Fail(BoxRunError::Message("missing target command".to_owned())));
    }
    match &facts.exec_failure {
        None => {
            let mut command_args = copy_strings(&args.command);
            let program = command_args.remove(0);
            assert(command_args.deep_view() =~= args.command.deep_view().drop_first());
            Err(Halt::Ask(Query::Exec(program, command_args)))
        },
        Some(source) => Err(Halt::Fail(BoxRunError::ExecTarget(copy_texts(source)))),
    }
}

/// The message of a failure, without what is underneath it.
pub open spec fn headline_of(source: Seq<Seq<char>>) -> Seq<char> {
    if source.len() == 0 {
        Seq::empty()
    } else {
        source[0]
    }
}

/// The line about the version of `bwrap`, which is what it printed without the white space around
/// it.
pub open spec fn printed_version_line_of(printed: Seq<char>) -> Seq<char> {
    let version = crate::text::trim_end_of(crate::text::trim_start_of(printed));
    if version.len() == 0 {
        "bubblewrap version: unknown"@
    } else {
        "bubblewrap version: "@ + version
    }
}

/// The line about the version of `bwrap`.
pub open spec fn version_line_of(answer: Result<Seq<u8>, Seq<Seq<char>>>) -> Seq<char> {
    match answer {
        Ok(printed) => printed_version_line_of(crate::text::shown_of(printed)),
        Err(source) => "bubblewrap version: unavailable ("@ + headline_of(source) + ")"@,
    }
}

/// The lines about `bwrap`.
pub open spec fn bwrap_lines_of(host: HostView) -> Result<Seq<Seq<char>>, HaltView> {
    match host.bwrap {
        None => Err(HaltView::Ask(QueryView::FindBwrap)),
        Some(Err(source)) => Ok(
            seq!["bubblewrap: unavailable ("@ + headline_of(source) + ")"@],
        ),
        Some(Ok(path)) => match host.bwrap_version {
            None => Err(HaltView::Ask(QueryView::BwrapVersion(path))),
            Some(answer) => Ok(
                seq![
                    "bubblewrap: found at "@ + crate::text::shown_of(path),
                    version_line_of(answer),
                ],
            ),
        },
    }
}

/// The lines about Landlock.
pub open spec fn landlock_lines_of(abi: Option<u32>) -> Seq<Seq<char>> {
    match abi {
        Some(abi) => seq![
            "landlock: available (ABI "@ + crate::text::decimal_of(abi as nat) + ")"@,
            "landlock filesystem mode: enabled for strict layouts"@,
            if enforces_tcp(Some(abi)) {
                "landlock tcp allowlists: enabled"@
            } else {
                "landlock tcp allowlists: unavailable (requires ABI "@ + crate::text::decimal_of(
                    TCP_RULES_MIN_ABI as nat,
                ) + "+)"@
            },
        ],
        None => seq![
            "landlock: unavailable"@,
            "landlock filesystem mode: disabled"@,
            "landlock tcp allowlists: disabled"@,
        ],
    }
}

/// All that is told about this backend.
pub open spec fn doctor_lines_of(host: HostView) -> Result<Seq<Seq<char>>, HaltView> {
    match bwrap_lines_of(host) {
        Err(halt) => Err(halt),
        Ok(bwrap_lines) => match crate::landlock_support::detected_abi_of(host) {
            Err(halt) => Err(halt),
            Ok(abi) => Ok(seq!["platform: linux"@] + bwrap_lines + landlock_lines_of(abi)),
        },
    }
}

/// Telling what this backend can do, up to the exit code.
pub open spec fn doctor_of(host: HostView) -> Result<u8, HaltView> {
    match doctor_lines_of(host) {
        Err(halt) => Err(halt),
        Ok(lines) => crate::host::printed_of(lines, host),
    }
}

fn headline(source: &Vec<String>) -> (text: String)
    ensures
        text@ == headline_of(source.deep_view()),
{
    if source.is_empty() {
        proof {
            reveal_strlit("");
        }
        assert(""@ =~= Seq::<char>::empty());
        "".to_owned()
    } else {
        source[0].clone()
    }
}

/// The line about the version of `bwrap`, which printed this text.
pub fn printed_version_line(printed: &str) -> (line: String)
    ensures
        line@ == printed_version_line_of(printed@),
{
    let version = trim(printed);
    if version.as_str().unicode_len() == 0 {
        "bubblewrap version: unknown".to_owned()
    } else {
        prefixed("bubblewrap version: ", version.as_str())
    }
}

fn version_line(answer: &Result<ByteString, Vec<String>>) -> (line: String)
    ensures
        line@ == version_line_of(crate::host::outcome(*answer)),
{
    match answer {
        Ok(printed) => printed_version_line(lossy_text(printed.as_bytes()).as_str()),
        Err(source) => surround(
            "bubblewrap version: unavailable (",
            headline(source).as_str(),
            ")",
        ),
    }
}

fn bwrap_lines(facts: &HostFacts) -> (lines: Result<Vec<String>, Halt>)
    ensures
        crate::host::outcome(lines) == bwrap_lines_of(facts@),
{
    let mut lines: Vec<String> = Vec::new();
    match &facts.bwrap {
        None => Err(Halt::Ask(Query::FindBwrap)),
        Some(Err(source)) => {
            lines.push(surround("bubblewrap: unavailable (", headline(source).as_str(), ")"));
            assert(lines.deep_view() =~= bwrap_lines_of(facts@)->Ok_0);
            Ok(lines)
        },
        Some(Ok(path)) => match &facts.bwrap_version {
            None => Err(Halt::Ask(Query::BwrapVersion(path.clone()))),
            Some(answer) => {
                lines.push(prefixed("bubblewrap: found at ", path.display().as_str()));
                lines.push(version_line(answer));
                assert(lines.deep_view() =~= bwrap_lines_of(facts@)->Ok_0);
                Ok(lines)
            },
        },
    }
}

fn landlock_lines(abi: Option<u32>) -> (lines: Vec<String>)
    ensures
        lines.deep_view() == landlock_lines_of(abi),
{
    let mut lines: Vec<String> = Vec::new();
    match abi {
        Some(abi) => {
            lines.push(surround("landlock: available (ABI ", decimal(abi).as_str(), ")"));
            lines.push("landlock filesystem mode: enabled for strict layouts".to_owned());
            if abi >= TCP_RULES_MIN_ABI {
                lines.push("landlock tcp allowlists: enabled".to_owned());
            } else {
                lines.push(
                    surround(
                        "landlock tcp allowlists: unavailable (requires ABI ",
                        decimal(TCP_RULES_MIN_ABI).as_str(),
                        "+)",
                    ),
                );
            }
        },
        None => {
            lines.push("landlock: unavailable".to_owned());
            lines.push("landlock filesystem mode: disabled".to_owned());
            lines.push("landlock tcp allowlists: disabled".to_owned());
        },
    }
    assert(lines.deep_view() =~= landlock_lines_of(abi));
    lines
}

/// Tells what this backend can do.
pub fn doctor(facts: &HostFacts) -> (code: Result<u8, Halt>)
    ensures
        crate::host::outcome(code) == doctor_of(facts@),
{
    let mut found = bwrap_lines(facts)?;
    let ghost bwrap_model = found.deep_view();
    let abi = detect_abi(facts)?;
    let mut landlock = landlock_lines(abi);
    let ghost landlock_model = landlock.deep_view();
    let mut lines: Vec<String> = Vec::new();
    lines.push("platform: linux".to_owned());
    lines.append(&mut found);
    lines.append(&mut landlock);
    assert(lines.deep_view() =~= seq!["platform: linux"@] + bwrap_model + landlock_model);
    print_lines(lines, facts)
}

/// A command that is not to run without its rules for TCP ports never does: the sandbox is set up
/// only where they are enforced, or where it may do its best and a warning was given.
pub proof fn tcp_rules_hold_or_are_warned_of(policy: PolicyView, host: HostView)
    requires
        policy.landlock.tcp_connect_ports.len() > 0 || policy.landlock.tcp_bind_ports.len() > 0,
        launch_of(policy, host) is Ok,
    ensures
        crate::landlock_support::detected_abi_of(host) matches Ok(abi) && (enforces_tcp(abi) || (
        policy.best_effort && host.warned)),
        host.landlock_version matches Some(version) && (4 <= version <= 0xffff_ffff || (
        policy.best_effort && host.warned)),
{
}

/// Rules for TCP ports that the kernel cannot enforce are refused, unless the sandbox may do its
/// best.
pub proof fn unenforceable_tcp_rules_are_refused(
    policy: PolicyView,
    host: HostView,
    abi: Option<u32>,
)
    requires
        policy.landlock.tcp_connect_ports.len() > 0 || policy.landlock.tcp_bind_ports.len() > 0,
        !policy.best_effort,
        crate::landlock_support::detected_abi_of(host) == Ok::<_, HaltView>(abi),
        abi is None || abi->0 < 4,
    ensures
        run_of(policy, host) == Err::<u8, _>(
            HaltView::Fail(ErrorView::UnsupportedOption { message: tcp_refusal_of(abi) }),
        ),
{
}

/// The process inside the sandbox turns into the command only once it can gain no privileges and
/// the restrictions of its plan are in place. The command is the one it was given.
pub proof fn helper_is_restricted_first(
    args: HelperArgsView,
    host: HostView,
    program: Seq<u8>,
    program_args: Seq<Seq<u8>>,
)
    requires
        helper_of(args, host) == HaltView::Ask(QueryView::Exec(program, program_args)),
    ensures
        host.no_new_privs == Some(AttemptView::Done),
        helper_plan_of(args).is_empty() || host.restricted == Some(AttemptView::Done),
        args.landlock_ro.len() > 0 || args.landlock_rw.len() > 0 || args.landlock_tcp_connect.len()
            > 0 || args.landlock_tcp_bind.len() > 0 ==> host.restricted == Some(AttemptView::Done),
        args.command == seq![program] + program_args,
{
    assert(args.command =~= seq![program] + program_args);
}

/// The restrictions that the process inside the sandbox puts in place are those of its plan, and
/// it can gain no privileges by then.
pub proof fn helper_is_hardened_first(
    args: HelperArgsView,
    host: HostView,
    ruleset: crate::landlock_support::LandlockRulesetView,
)
    requires
        helper_of(args, host) == HaltView::Ask(QueryView::Restrict(ruleset)),
    ensures
        host.no_new_privs == Some(AttemptView::Done),
        crate::landlock_support::ruleset_of(helper_plan_of(args)) == Some(ruleset),
{
}

/// An exit code of one byte is passed on.
pub proof fn exit_code_is_passed_on(code: u8)
    ensures
        exit_code_of(ChildStatus { code: Some(code as i32), signal: None }) == code,
{
}

/// A program that a signal ended gives 128 and the number of the signal.
pub proof fn signal_is_passed_on(signal: i32)
    requires
        0 <= signal <= 127,
    ensures
        exit_code_of(ChildStatus { code: None, signal: Some(signal) }) == 128 + signal,
{
}

/// The standard streams are copied exactly when the command must not see a terminal, and then it
/// is given none of the streams of this process.
pub proof fn disabled_terminal_is_out_of_sight(stdin: StdinMode, tty: TtyMode, host: HostView)
    requires
        stdio_of(stdin, tty, host) is Ok,
    ensures
        ({
            let plan = stdio_of(stdin, tty, host)->Ok_0;
            &&& tty == TtyMode::Disable <==> plan.mode != StdioMode::Direct
            &&& tty == TtyMode::Disable ==> plan.stdin != StdioEnd::Inherit && plan.stdout
                == StdioEnd::Piped && plan.stderr == StdioEnd::Piped
            &&& stdin == StdinMode::Null ==> plan.stdin == StdioEnd::Null
        }),
{
}

/// Whether rules for TCP ports stand in the way of a sandbox. Without such rules nothing does, and
/// nothing is asked about Landlock. With the fourth ABI or a later one nothing does either. With
/// less, a sandbox that may do its best is held up until a warning is given, and by nothing then.
pub proof fn tcp_rules_stand_in_the_way_when_unenforceable(policy: PolicyView, host: HostView)
    ensures
        policy.landlock.tcp_connect_ports.len() == 0 && policy.landlock.tcp_bind_ports.len() == 0
            ==> tcp_support_of(policy, host) is Ok,
        host.landlock_version matches Some(version) && 4 <= version <= 0xffff_ffff
            ==> tcp_support_of(policy, host) is Ok,
        policy.best_effort && host.warned && host.landlock_version is Some ==> tcp_support_of(
            policy,
            host,
        ) is Ok,
        (policy.landlock.tcp_connect_ports.len() > 0 || policy.landlock.tcp_bind_ports.len() > 0)
            && host.landlock_version is None ==> tcp_support_of(policy, host) == Err::<(), _>(
            HaltView::Ask(QueryView::LandlockVersion),
        ),
        (policy.landlock.tcp_connect_ports.len() > 0 || policy.landlock.tcp_bind_ports.len() > 0)
            && (host.landlock_version matches Some(version) && !(4 <= version <= 0xffff_ffff)) ==> {
            &&& !policy.best_effort ==> (tcp_support_of(policy, host) matches Err(
                HaltView::Fail(ErrorView::UnsupportedOption { .. }),
            ))
            &&& policy.best_effort && !host.warned ==> (tcp_support_of(policy, host) matches Err(
                HaltView::Ask(QueryView::Warn { .. }),
            ))
        },
{
}

/// The standard streams of the command. Its input comes from this process or from nowhere, as it
/// was asked for. Unless it must not see a terminal, its streams are those of this process, and it
/// uses them itself; otherwise this process stands between.
pub proof fn streams_are_those_asked_for(stdin: StdinMode, tty: TtyMode, host: HostView)
    requires
        stdio_of(stdin, tty, host) is Ok,
    ensures
        ({
            let plan = stdio_of(stdin, tty, host)->Ok_0;
            &&& tty != TtyMode::Disable ==> {
                &&& stdin == StdinMode::Inherit <==> plan.stdin == StdioEnd::Inherit
                &&& stdin == StdinMode::Null <==> plan.stdin == StdioEnd::Null
                &&& plan.stdout == StdioEnd::Inherit
                &&& plan.stderr == StdioEnd::Inherit
                &&& plan.mode == StdioMode::Direct
            }
            &&& tty == TtyMode::Disable ==> {
                &&& stdin == StdinMode::Inherit <==> plan.stdin == StdioEnd::Piped
                &&& stdin == StdinMode::Null <==> plan.stdin == StdioEnd::Null
                &&& plan.stdout == StdioEnd::Piped
                &&& plan.stderr == StdioEnd::Piped
                &&& plan.mode matches StdioMode::Forwarded { copy_stdin } && (copy_stdin <==> stdin
                    == StdinMode::Inherit)
            }
        }),
{
}

/// When the standard streams can be had. A terminal is needed only where it is forced: then each
/// stream that the command uses has to be one, and its input counts unless it comes from nowhere.
/// Otherwise nothing is asked and nothing fails.
pub proof fn streams_can_be_had(stdin: StdinMode, tty: TtyMode, host: HostView)
    ensures
        tty != TtyMode::Force ==> stdio_of(stdin, tty, host) is Ok,
        tty == TtyMode::Force ==> (stdio_of(stdin, tty, host) is Ok <==> (stdin == StdinMode::Null
            || host.stdin_terminal == Some(true)) && host.stdout_terminal == Some(true)
            && host.stderr_terminal == Some(true)),
        tty == TtyMode::Force && stdin == StdinMode::Inherit && host.stdin_terminal == Some(false)
            ==> (stdio_of(stdin, tty, host) matches Err(
            HaltView::Fail(ErrorView::UnsupportedOption { .. }),
        )),
        tty == TtyMode::Force && (stdin == StdinMode::Null || host.stdin_terminal == Some(true))
            && (host.stdout_terminal == Some(false) || (host.stdout_terminal == Some(true)
            && host.stderr_terminal == Some(false))) ==> (stdio_of(stdin, tty, host) matches Err(
            HaltView::Fail(ErrorView::UnsupportedOption { .. }),
        )),
        stdio_of(stdin, tty, host) matches Err(HaltView::Ask(query)) ==> {
            ||| query == QueryView::IsTerminal(Stream::Stdin) && host.stdin_terminal is None
                && stdin == StdinMode::Inherit
            ||| query == QueryView::IsTerminal(Stream::Stdout) && host.stdout_terminal is None
            ||| query == QueryView::IsTerminal(Stream::Stderr) && host.stderr_terminal is None
        },
{
}

/// How a program ended decides, as soon as it ended and its output is complete. Output that this
/// process did not have to copy cannot be incomplete.
pub proof fn ended_program_decides(
    program: Seq<u8>,
    mode: StdioMode,
    status: ChildStatus,
    stdout: CopyOutcomeView,
    stderr: CopyOutcomeView,
)
    ensures
        ({
            let result = LaunchResultView::Exited { status, stdout, stderr };
            let whole = |copied: CopyOutcomeView|
                copied is Copied || copied is NotCopied;
            &&& status_of(program, mode, result) is Ok <==> mode is Direct || (whole(stdout)
                && whole(stderr))
            &&& status_of(program, mode, result) matches Ok(ended) ==> ended == status
            &&& mode is Forwarded ==> {
                &&& stdout matches CopyOutcomeView::Failed(source) ==> status_of(
                    program,
                    mode,
                    result,
                ) == Err::<ChildStatus, _>(ErrorView::IoForward { stream: "stdout"@, source })
                &&& stdout is Panicked ==> status_of(program, mode, result) == Err::<
                    ChildStatus,
                    _,
                >(ErrorView::IoForwardPanic { stream: "stdout"@ })
                &&& whole(stdout) ==> (stderr matches CopyOutcomeView::Failed(source)
                    ==> status_of(program, mode, result) == Err::<ChildStatus, _>(
                    ErrorView::IoForward { stream: "stderr"@, source },
                ))
                &&& whole(stdout) && stderr is Panicked ==> status_of(program, mode, result)
                    == Err::<ChildStatus, _>(ErrorView::IoForwardPanic { stream: "stderr"@ })
            }
        }),
{
}

/// A program that could not be started is a failure to execute it. One that could not be waited for
/// is that too, except where this process copies its streams and waits for it by itself.
pub proof fn failed_program_is_told(program: Seq<u8>, mode: StdioMode, source: Seq<Seq<char>>)
    ensures
        status_of(program, mode, LaunchResultView::SpawnFailed(source)) == Err::<ChildStatus, _>(
            ErrorView::Spawn { program, source },
        ),
        status_of(program, StdioMode::Direct, LaunchResultView::WaitFailed(source)) == Err::<
            ChildStatus,
            _,
        >(ErrorView::Spawn { program, source }),
        mode is Forwarded ==> status_of(program, mode, LaunchResultView::WaitFailed(source))
            == Err::<ChildStatus, _>(ErrorView::Wait { program, source }),
{
}

/// A code that is no byte, and an end without code and signal, give 1. A signal that does not fit
/// behind 128 in a byte gives 255. A code counts before a signal.
pub proof fn other_ends_give_a_code(status: ChildStatus)
    ensures
        status.code matches Some(code) ==> exit_code_of(status) == if 0 <= code && code < 256 {
            code as int
        } else {
            1
        },
        status.code is None && status.signal is None ==> exit_code_of(status) == 1,
        status.code is None ==> (status.signal matches Some(signal) ==> (0 <= signal < 128
            ==> exit_code_of(status) == 128 + signal)),
        status.code is None ==> (status.signal matches Some(signal) ==> (128 <= signal < 0x10000
            ==> exit_code_of(status) == 255)),
        status.code is None && status.signal is Some ==> exit_code_of(status) >= 128,
{
}

/// What is started is the `bwrap` that the host found, with the streams that the policy asks for,
/// and with this executable as the host names it. Without either of the two the failure says which
/// one is missing.
pub proof fn what_is_started(policy: PolicyView, host: HostView)
    ensures
        launch_of(policy, host) matches Ok(launch) ==> {
            &&& host.bwrap == Some(Ok::<_, Seq<Seq<char>>>(launch.program))
            &&& host.current_exe matches Some(Ok(current_exe)) && crate::bwrap::bwrap_args_of(
                current_exe,
                policy,
                host,
            ) == Ok::<_, HaltView>(launch.args)
            &&& stdio_of(policy.stdin, policy.tty, host) == Ok::<_, HaltView>(launch.stdio)
        },
        tcp_support_of(policy, host) is Ok ==> {
            &&& host.bwrap is None ==> launch_of(policy, host) == Err::<LaunchView, _>(
                HaltView::Ask(QueryView::FindBwrap),
            )
            &&& host.bwrap matches Some(Err(source)) ==> launch_of(policy, host) == Err::<
                LaunchView,
                _,
            >(HaltView::Fail(ErrorView::MissingProgram { program: "bwrap"@, source }))
            &&& host.bwrap matches Some(Ok(_)) ==> {
                &&& host.current_exe is None ==> launch_of(policy, host) == Err::<LaunchView, _>(
                    HaltView::Ask(QueryView::CurrentExe),
                )
                &&& host.current_exe matches Some(Err(source)) ==> launch_of(policy, host) == Err::<
                    LaunchView,
                    _,
                >(HaltView::Fail(ErrorView::CurrentExe(source)))
                &&& (host.current_exe matches Some(Ok(current_exe)) && stdio_of(
                    policy.stdin,
                    policy.tty,
                    host,
                ) is Ok && crate::bwrap::bwrap_args_of(current_exe, policy, host) is Ok)
                    ==> launch_of(policy, host) is Ok
            }
        },
{
}

/// Once it is decided what to start, that is asked for, and the answer becomes the exit code.
pub proof fn launch_is_asked_for(policy: PolicyView, host: HostView)
    requires
        launch_of(policy, host) is Ok,
    ensures
        host.launched is None ==> run_of(policy, host) == Err::<u8, _>(
            HaltView::Ask(QueryView::Launch(launch_of(policy, host)->Ok_0)),
        ),
        host.launched matches Some(result) ==> match status_of(
            launch_of(policy, host)->Ok_0.program,
            launch_of(policy, host)->Ok_0.stdio.mode,
            result,
        ) {
            Ok(status) => run_of(policy, host) == Ok::<_, HaltView>(exit_code_of(status)),
            Err(error) => run_of(policy, host) == Err::<u8, _>(HaltView::Fail(error)),
        },
{
}

/// The process inside the sandbox, step by step: privileges, restrictions where anything is named
/// to it, and the command. Each step that failed ends it, with the failure of that step.
pub proof fn helper_goes_step_by_step(args: HelperArgsView, host: HostView)
    ensures
        ({
            let restricts = args.landlock_ro.len() > 0 || args.landlock_rw.len() > 0
                || args.landlock_tcp_connect.len() > 0 || args.landlock_tcp_bind.len() > 0;
            let hardened = host.no_new_privs == Some(AttemptView::Done);
            let ready = hardened && (!restricts || host.restricted == Some(AttemptView::Done));
            &&& host.no_new_privs is None ==> helper_of(args, host) == HaltView::Ask(
                QueryView::NoNewPrivs,
            )
            &&& host.no_new_privs matches Some(AttemptView::Failed(source)) ==> helper_of(args, host)
                == HaltView::Fail(ErrorView::ProcessHardening(source))
            &&& hardened && restricts && host.restricted is None ==> (helper_of(args, host) matches
                HaltView::Ask(QueryView::Restrict(ruleset)) && ruleset.handles_bind == (
            args.landlock_tcp_bind.len() > 0) && ruleset.handles_connect == (
            args.landlock_tcp_connect.len() > 0) && (ruleset.handled_fs is Some) == (
            args.landlock_ro.len() > 0 || args.landlock_rw.len() > 0))
            &&& hardened && restricts ==> (host.restricted matches Some(
                AttemptView::Failed(source),
            ) ==> helper_of(args, host) == HaltView::Fail(ErrorView::Landlock(source)))
            &&& ready && args.command.len() == 0 ==> helper_of(args, host) == HaltView::Fail(
                ErrorView::Message("missing target command"@),
            )
            &&& ready && args.command.len() > 0 && host.exec_failure is None ==> (helper_of(
                args,
                host,
            ) matches HaltView::Ask(QueryView::Exec(program, program_args)) && seq![program]
                + program_args == args.command)
            &&& ready && args.command.len() > 0 ==> (host.exec_failure matches Some(source)
                ==> helper_of(args, host) == HaltView::Fail(ErrorView::ExecTarget(source)))
            &&& !ready ==> !(helper_of(args, host) matches HaltView::Ask(QueryView::Exec(_, _)))
        }),
{
    if args.command.len() > 0 {
        assert(seq![args.command[0]] + args.command.drop_first() =~= args.command);
    }
}

/// What is put in place inside the sandbox allows the ports and paths that were named there.
pub proof fn helper_allows_what_was_named(
    args: HelperArgsView,
    host: HostView,
    ruleset: crate::landlock_support::LandlockRulesetView,
    port: u16,
    path: Seq<u8>,
)
    requires
        helper_of(args, host) == HaltView::Ask(QueryView::Restrict(ruleset)),
    ensures
        ruleset.rules.contains(crate::landlock_support::LandlockRuleView::ConnectTcp(port))
            <==> args.landlock_tcp_connect.contains(port),
        ruleset.rules.contains(crate::landlock_support::LandlockRuleView::BindTcp(port))
            <==> args.landlock_tcp_bind.contains(port),
        ruleset.rules.contains(
            crate::landlock_support::LandlockRuleView::PathBeneath { path, access: 0xd },
        ) <==> args.landlock_ro.contains(path),
        ruleset.rules.contains(
            crate::landlock_support::LandlockRuleView::PathBeneath { path, access: 0xffff },
        ) <==> args.landlock_rw.contains(path),
{
    crate::landlock_support::named_ports_stay_allowed(helper_plan_of(args), port);
    crate::landlock_support::named_paths_stay_allowed(helper_plan_of(args), path);
}

/// What is told about this host: the path of `bwrap` where there is one, its version, and what
/// Landlock can do. Nothing that is missing keeps it from being told.
pub proof fn doctor_tells_what_is_known(host: HostView)
    ensures
        doctor_lines_of(host) matches Ok(lines) ==> {
            &&& lines[0] == "platform: linux"@
            &&& host.bwrap matches Some(Ok(path)) ==> lines.len() == 6 && lines[1]
                == "bubblewrap: found at "@ + crate::text::shown_of(path)
            &&& host.bwrap matches Some(Err(source)) ==> lines.len() == 5 && (source.len() > 0
                ==> lines[1] == "bubblewrap: unavailable ("@ + source[0] + ")"@)
            &&& host.bwrap matches Some(Ok(_)) ==> match host.bwrap_version {
                Some(Ok(printed)) => lines[2] == printed_version_line_of(
                    crate::text::shown_of(printed),
                ),
                Some(Err(source)) => source.len() > 0 ==> lines[2]
                    == "bubblewrap version: unavailable ("@ + source[0] + ")"@,
                None => false,
            }
            &&& host.landlock_version matches Some(version) ==> {
                &&& 0 <= version <= 0xffff_ffff ==> lines[lines.len() - 3]
                    == "landlock: available (ABI "@ + crate::text::decimal_of(version as nat) + ")"@
                    && lines[lines.len() - 2]
                    == "landlock filesystem mode: enabled for strict layouts"@ && (
                lines[lines.len() - 1] == "landlock tcp allowlists: enabled"@ || version < 4)
                &&& 4 <= version <= 0xffff_ffff ==> lines[lines.len() - 1]
                    == "landlock tcp allowlists: enabled"@
                &&& 0 <= version < 4 ==> lines[lines.len() - 1]
                    == "landlock tcp allowlists: unavailable (requires ABI "@
                    + crate::text::decimal_of(4) + "+)"@
                &&& version < 0 || version > 0xffff_ffff ==> lines[lines.len() - 3]
                    == "landlock: unavailable"@ && lines[lines.len() - 2]
                    == "landlock filesystem mode: disabled"@ && lines[lines.len() - 1]
                    == "landlock tcp allowlists: disabled"@
            }
        },
        host.bwrap is Some && (host.bwrap matches Some(Ok(_)) ==> host.bwrap_version is Some)
            && host.landlock_version is Some ==> doctor_lines_of(host) is Ok,
        doctor_lines_of(host) matches Err(halt) ==> halt is Ask,
        doctor_of(host) matches Err(halt) ==> halt is Ask,
        doctor_of(host) matches Ok(code) ==> code == 0 && host.printed,
        doctor_lines_of(host) is Ok && !host.printed ==> doctor_of(host) == Err::<u8, _>(
            HaltView::Ask(QueryView::Print(doctor_lines_of(host)->Ok_0)),
        ),
{
}

/// The version of `bwrap` is what it printed, without white space around it. A program that printed
/// nothing but white space has an unknown version.
pub proof fn version_is_what_was_printed(printed: Seq<char>) -> (ends: (Seq<char>, Seq<char>))
    ensures
        crate::text::all_blank(printed) ==> printed_version_line_of(printed)
            == "bubblewrap version: unknown"@,
        !crate::text::all_blank(printed) ==> exists|version: Seq<char>|
            #![trigger ends.0 + version]
            printed == ends.0 + version + ends.1 && version.len() > 0 && !crate::text::is_blank(
                version[0],
            ) && !crate::text::is_blank(version.last()) && printed_version_line_of(printed)
                == "bubblewrap version: "@ + version,
        crate::text::all_blank(ends.0) && crate::text::all_blank(ends.1),
{
    let version = crate::text::trim_end_of(crate::text::trim_start_of(printed));
    let ends = crate::text::trimming_takes_the_blanks(printed);
    if version.len() == 0 {
        assert forall|i: int| 0 <= i < printed.len() implies crate::text::is_blank(
            #[trigger] printed[i],
        ) by {
            assert(printed[i] == (ends.0 + version + ends.1)[i]);
            if i < ends.0.len() {
                assert(crate::text::is_blank(ends.0[i]));
            } else {
                assert(crate::text::is_blank(ends.1[i - ends.0.len()]));
            }
        }
    } else {
        let at = ends.0.len() as int;
        assert(printed[at] == version[0]);
    }
    assert(ends.0 + version + ends.1 == printed);
    ends
}

/// What is said where rules for TCP ports cannot be enforced: how much is needed, what there is,
/// and whether the sandbox goes on.
pub proof fn unenforceable_rules_are_told(abi: u32)
    ensures
        tcp_warning_of(Some(abi)) == "TCP allowlists require Landlock ABI "@
            + crate::text::decimal_of(4)
            + "+, continuing because best-effort mode is enabled"@,
        tcp_refusal_of(Some(abi)) == "TCP allowlists require Landlock ABI "@
            + crate::text::decimal_of(4) + "+, but detected ABI "@ + crate::text::decimal_of(
            abi as nat,
        ) + "; rerun with --best-effort to continue without enforcement"@,
        tcp_refusal_of(None) == "TCP allowlists require Landlock ABI "@ + crate::text::decimal_of(4)
            + "+, but Landlock is unavailable; rerun with --best-effort to continue without enforcement"@,
{
}

} // verus!

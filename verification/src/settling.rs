//! Decisions settle. What is asked is never known yet, and once a decision is made, nothing that
//! becomes known later changes it. So the host can be asked step by step, and what comes out is
//! what would have come out had all of it been known from the start.
use vstd::prelude::*;

use crate::cli::{CommandsView, HelperArgsView, RunArgsView};
use crate::host::{HaltView, HostView, QueryView};
use crate::launch::{LaunchResultView, LaunchView, Stream};
use crate::platform::Platform;
use crate::policy::{HiddenPathView, MountView, PolicyView};
use crate::policy_input::PolicyInputView;

verus! {

/// What was known stays known.
pub open spec fn keeps<T>(earlier: Option<T>, later: Option<T>) -> bool {
    earlier is Some ==> later == earlier
}

/// What stood in a table still stands there.
pub open spec fn holds_on<K, V>(earlier: Map<K, V>, later: Map<K, V>) -> bool {
    forall|key: K| #[trigger]
        earlier.dom().contains(key) ==> later.dom().contains(key) && later[key] == earlier[key]
}

/// All that was known earlier is known later.
pub open spec fn extends(later: HostView, earlier: HostView) -> bool {
    &&& holds_on(earlier.configs, later.configs)
    &&& keeps(earlier.current_dir, later.current_dir)
    &&& holds_on(earlier.canonical, later.canonical)
    &&& holds_on(earlier.is_dir, later.is_dir)
    &&& holds_on(earlier.vars, later.vars)
    &&& keeps(earlier.landlock_version, later.landlock_version)
    &&& keeps(earlier.bwrap, later.bwrap)
    &&& keeps(earlier.bwrap_version, later.bwrap_version)
    &&& keeps(earlier.current_exe, later.current_exe)
    &&& keeps(earlier.stdin_terminal, later.stdin_terminal)
    &&& keeps(earlier.stdout_terminal, later.stdout_terminal)
    &&& keeps(earlier.stderr_terminal, later.stderr_terminal)
    &&& holds_on(earlier.hidden_files, later.hidden_files)
    &&& earlier.warned ==> later.warned
    &&& keeps(earlier.launched, later.launched)
    &&& keeps(earlier.no_new_privs, later.no_new_privs)
    &&& keeps(earlier.restricted, later.restricted)
    &&& keeps(earlier.exec_failure, later.exec_failure)
    &&& earlier.printed ==> later.printed
}

/// The answer to the query is known.
pub open spec fn is_answered(host: HostView, query: QueryView) -> bool {
    match query {
        QueryView::LoadConfig(path) => host.configs.dom().contains(path),
        QueryView::CurrentDir => host.current_dir is Some,
        QueryView::Canonicalize(path) => host.canonical.dom().contains(path),
        QueryView::Inspect(path) => host.is_dir.dom().contains(path),
        QueryView::Var(name) => host.vars.dom().contains(name),
        QueryView::LandlockVersion => host.landlock_version is Some,
        QueryView::FindBwrap => host.bwrap is Some,
        QueryView::BwrapVersion(_) => host.bwrap_version is Some,
        QueryView::CurrentExe => host.current_exe is Some,
        QueryView::IsTerminal(Stream::Stdin) => host.stdin_terminal is Some,
        QueryView::IsTerminal(Stream::Stdout) => host.stdout_terminal is Some,
        QueryView::IsTerminal(Stream::Stderr) => host.stderr_terminal is Some,
        QueryView::HiddenFile(number) => host.hidden_files.dom().contains(number),
        QueryView::Warn { .. } => host.warned,
        QueryView::Launch(_) => host.launched is Some,
        QueryView::NoNewPrivs => host.no_new_privs is Some,
        QueryView::Restrict(_) => host.restricted is Some,
        QueryView::Exec(_, _) => host.exec_failure is Some,
        QueryView::Print(_) => host.printed,
    }
}

/// How far a query reaches. At 0 it finds something out, and changes nothing on the host. At 1 it
/// leaves something behind: a warning, or an empty file. At 2 it is what the program is there for.
pub open spec fn reach(query: QueryView) -> nat {
    match query {
        QueryView::Warn { .. } => 1,
        QueryView::HiddenFile(_) => 1,
        QueryView::Launch(_) => 2,
        QueryView::NoNewPrivs => 2,
        QueryView::Restrict(_) => 2,
        QueryView::Exec(_, _) => 2,
        QueryView::Print(_) => 2,
        _ => 0,
    }
}

/// A decision that asks, asks for what is not known, reaches no further than `limit`, and asks the
/// same until that is known. A decision that does not ask is the same later on.
pub open spec fn settles<T>(
    early: Result<T, HaltView>,
    late: Result<T, HaltView>,
    earlier: HostView,
    later: HostView,
    limit: nat,
) -> bool {
    match early {
        Err(HaltView::Ask(query)) => {
            &&& !is_answered(earlier, query)
            &&& reach(query) <= limit
            &&& !is_answered(later, query) ==> late == early
        },
        _ => late == early,
    }
}

proof fn collect_settles<A>(
    early: Seq<Result<A, HaltView>>,
    late: Seq<Result<A, HaltView>>,
    earlier: HostView,
    later: HostView,
    limit: nat,
)
    requires
        early.len() == late.len(),
        forall|i: int|
            0 <= i < early.len() ==> settles(
                #[trigger] early[i],
                #[trigger] late[i],
                earlier,
                later,
                limit,
            ),
    ensures
        settles(crate::host::collect(early), crate::host::collect(late), earlier, later, limit),
    decreases early.len(),
{
    if early.len() > 0 {
        collect_settles(early.drop_last(), late.drop_last(), earlier, later, limit);
        assert(settles(early[early.len() - 1], late[early.len() - 1], earlier, later, limit));
    }
}

proof fn config_settles(path: Option<Seq<u8>>, earlier: HostView, later: HostView)
    requires
        extends(later, earlier),
    ensures
        settles(
            crate::config::config_of(path, earlier),
            crate::config::config_of(path, later),
            earlier,
            later,
            0,
        ),
{
}

proof fn host_cwd_settles(earlier: HostView, later: HostView)
    requires
        extends(later, earlier),
    ensures
        settles(
            crate::policy::host_cwd_of(earlier),
            crate::policy::host_cwd_of(later),
            earlier,
            later,
            0,
        ),
{
}

proof fn mount_settles(spec: Seq<char>, host_cwd: Seq<u8>, earlier: HostView, later: HostView)
    requires
        extends(later, earlier),
    ensures
        settles(
            crate::mounts::mount_of(spec, host_cwd, earlier),
            crate::mounts::mount_of(spec, host_cwd, later),
            earlier,
            later,
            0,
        ),
{
}

proof fn mounts_settle(specs: Seq<Seq<char>>, host_cwd: Seq<u8>, earlier: HostView, later: HostView)
    requires
        extends(later, earlier),
    ensures
        settles(
            crate::mounts::mounts_of(specs, host_cwd, earlier),
            crate::mounts::mounts_of(specs, host_cwd, later),
            earlier,
            later,
            0,
        ),
{
    let early = specs.map_values(
        |spec: Seq<char>| crate::mounts::mount_of(spec, host_cwd, earlier),
    );
    let late = specs.map_values(|spec: Seq<char>| crate::mounts::mount_of(spec, host_cwd, later));
    assert forall|i: int| 0 <= i < early.len() implies settles(
        #[trigger] early[i],
        #[trigger] late[i],
        earlier,
        later,
        0,
    ) by {
        mount_settles(specs[i], host_cwd, earlier, later);
    }
    collect_settles(early, late, earlier, later, 0);
}

proof fn writable_mounts_settle(
    specs: Seq<Seq<char>>,
    host_cwd: Seq<u8>,
    earlier: HostView,
    later: HostView,
)
    requires
        extends(later, earlier),
    ensures
        settles(
            crate::policy::writable_mounts_of(specs, host_cwd, earlier),
            crate::policy::writable_mounts_of(specs, host_cwd, later),
            earlier,
            later,
            0,
        ),
{
    mounts_settle(specs, host_cwd, earlier, later);
}

proof fn hidden_kind_settles(
    dest: Seq<u8>,
    mounts: Seq<MountView>,
    host_cwd: Seq<u8>,
    earlier: HostView,
    later: HostView,
)
    requires
        extends(later, earlier),
    ensures
        settles(
            crate::mounts::hidden_kind_of(dest, mounts, host_cwd, earlier),
            crate::mounts::hidden_kind_of(dest, mounts, host_cwd, later),
            earlier,
            later,
            0,
        ),
    decreases mounts.len(),
{
    if mounts.len() > 0 {
        assert(settles(
            crate::mounts::kind_in_mount(dest, mounts[0], earlier),
            crate::mounts::kind_in_mount(dest, mounts[0], later),
            earlier,
            later,
            0,
        ));
        hidden_kind_settles(dest, mounts.drop_first(), host_cwd, earlier, later);
    }
}

proof fn hidden_paths_settle(
    paths: Seq<Seq<u8>>,
    mounts: Seq<MountView>,
    host_cwd: Seq<u8>,
    earlier: HostView,
    later: HostView,
)
    requires
        extends(later, earlier),
    ensures
        settles(
            crate::mounts::hidden_paths_of(paths, mounts, host_cwd, earlier),
            crate::mounts::hidden_paths_of(paths, mounts, host_cwd, later),
            earlier,
            later,
            0,
        ),
{
    let early = paths.map_values(
        |path: Seq<u8>| crate::mounts::hidden_path_of(path, mounts, host_cwd, earlier),
    );
    let late = paths.map_values(
        |path: Seq<u8>| crate::mounts::hidden_path_of(path, mounts, host_cwd, later),
    );
    assert forall|i: int| 0 <= i < early.len() implies settles(
        #[trigger] early[i],
        #[trigger] late[i],
        earlier,
        later,
        0,
    ) by {
        hidden_kind_settles(paths[i], mounts, host_cwd, earlier, later);
    }
    collect_settles(early, late, earlier, later, 0);
}

proof fn passed_vars_settle(names: Seq<Seq<char>>, earlier: HostView, later: HostView)
    requires
        extends(later, earlier),
    ensures
        settles(
            crate::env_plan::passed_vars_of(names, earlier),
            crate::env_plan::passed_vars_of(names, later),
            earlier,
            later,
            0,
        ),
    decreases names.len(),
{
    if names.len() > 0 {
        passed_vars_settle(names.drop_last(), earlier, later);
    }
}

proof fn mounted_policy_settles(
    input: PolicyInputView,
    host_cwd: Seq<u8>,
    ro_mounts: Seq<MountView>,
    rw_mounts: Seq<MountView>,
    earlier: HostView,
    later: HostView,
)
    requires
        extends(later, earlier),
    ensures
        settles(
            crate::policy::mounted_policy_of(input, host_cwd, ro_mounts, rw_mounts, earlier),
            crate::policy::mounted_policy_of(input, host_cwd, ro_mounts, rw_mounts, later),
            earlier,
            later,
            0,
        ),
{
    hidden_paths_settle(input.hide, ro_mounts + rw_mounts, host_cwd, earlier, later);
    passed_vars_settle(
        crate::env_plan::default_env_keys_of() + input.env_pass,
        earlier,
        later,
    );
}

proof fn resolved_policy_settles(input: PolicyInputView, earlier: HostView, later: HostView)
    requires
        extends(later, earlier),
    ensures
        settles(
            crate::policy::resolved_policy_of(input, earlier),
            crate::policy::resolved_policy_of(input, later),
            earlier,
            later,
            0,
        ),
{
    host_cwd_settles(earlier, later);
    if let Ok(host_cwd) = crate::policy::host_cwd_of(earlier) {
        mounts_settle(input.ro, host_cwd, earlier, later);
        writable_mounts_settle(input.rw, host_cwd, earlier, later);
        if let Ok(ro_mounts) = crate::mounts::mounts_of(input.ro, host_cwd, earlier) {
            if let Ok(rw_mounts) = crate::policy::writable_mounts_of(
                input.rw,
                host_cwd,
                earlier,
            ) {
                mounted_policy_settles(
                    input,
                    host_cwd,
                    crate::placed::sort_stable::<crate::policy::Mount>(ro_mounts),
                    crate::placed::sort_stable::<crate::policy::Mount>(rw_mounts),
                    earlier,
                    later,
                );
            }
        }
    }
}

/// The policy settles.
pub proof fn policy_settles(args: RunArgsView, earlier: HostView, later: HostView)
    requires
        extends(later, earlier),
    ensures
        settles(
            crate::policy::policy_of(args, earlier),
            crate::policy::policy_of(args, later),
            earlier,
            later,
            0,
        ),
{
    config_settles(args.config, earlier, later);
    if let Ok(config) = crate::config::config_of(args.config, earlier) {
        if let Ok(input) = crate::policy_input::policy_input_of(config, args) {
            resolved_policy_settles(input, earlier, later);
        }
    }
}

proof fn hidden_args_settle(hidden: Seq<HiddenPathView>, earlier: HostView, later: HostView)
    requires
        extends(later, earlier),
    ensures
        settles(
            crate::bwrap::hidden_args_of(hidden, earlier),
            crate::bwrap::hidden_args_of(hidden, later),
            earlier,
            later,
            1,
        ),
    decreases hidden.len(),
{
    if hidden.len() > 0 {
        hidden_args_settle(hidden.drop_last(), earlier, later);
    }
}

/// The program to start settles.
pub proof fn launch_settles(policy: PolicyView, earlier: HostView, later: HostView)
    requires
        extends(later, earlier),
    ensures
        settles(
            crate::linux::launch_of(policy, earlier),
            crate::linux::launch_of(policy, later),
            earlier,
            later,
            1,
        ),
{
    assert(settles(
        crate::linux::tcp_support_of(policy, earlier),
        crate::linux::tcp_support_of(policy, later),
        earlier,
        later,
        1,
    ));
    assert(settles(
        crate::linux::stdio_of(policy.stdin, policy.tty, earlier),
        crate::linux::stdio_of(policy.stdin, policy.tty, later),
        earlier,
        later,
        1,
    ));
    hidden_args_settle(policy.hidden_paths, earlier, later);
}

/// Running a command in a sandbox settles.
#[verifier::rlimit(40)]
pub proof fn run_settles(
    platform: Platform,
    args: RunArgsView,
    earlier: HostView,
    later: HostView,
)
    requires
        extends(later, earlier),
    ensures
        settles(
            crate::platform::run_of(platform, args, earlier),
            crate::platform::run_of(platform, args, later),
            earlier,
            later,
            2,
        ),
{
    policy_settles(args, earlier, later);
    if let Ok(policy) = crate::policy::policy_of(args, earlier) {
        launch_settles(policy, earlier, later);
    }
}

proof fn doctor_settles(platform: Platform, earlier: HostView, later: HostView)
    requires
        extends(later, earlier),
    ensures
        settles(
            crate::platform::doctor_of(platform, earlier),
            crate::platform::doctor_of(platform, later),
            earlier,
            later,
            2,
        ),
{
}

proof fn helper_settles(
    platform: Platform,
    args: HelperArgsView,
    earlier: HostView,
    later: HostView,
)
    requires
        extends(later, earlier),
    ensures
        settles(
            Err::<u8, _>(crate::platform::helper_of(platform, args, earlier)),
            Err::<u8, _>(crate::platform::helper_of(platform, args, later)),
            earlier,
            later,
            2,
        ),
{
}

/// What the program as a whole comes to settles: it asks only for what is not known, and when it
/// does not ask, more knowledge makes no difference.
pub proof fn dispatch_settles(
    platform: Platform,
    command: CommandsView,
    earlier: HostView,
    later: HostView,
)
    requires
        extends(later, earlier),
    ensures
        settles(
            crate::program::dispatch_of(platform, command, earlier),
            crate::program::dispatch_of(platform, command, later),
            earlier,
            later,
            2,
        ),
{
    match command {
        CommandsView::Run(args) => {
            run_settles(platform, args, earlier, later);
        },
        CommandsView::Doctor => {
            doctor_settles(platform, earlier, later);
        },
        CommandsView::Helper(args) => {
            helper_settles(platform, args, earlier, later);
        },
    }
}

/// A host of which everything is known is asked nothing: the program ends, with an exit code or
/// with a failure.
pub proof fn known_host_is_not_asked(platform: Platform, command: CommandsView, host: HostView)
    requires
        forall|query: QueryView| is_answered(host, query),
    ensures
        crate::program::dispatch_of(platform, command, host) matches Err(halt) ==> halt is Fail,
{
    assert(extends(host, host));
    dispatch_settles(platform, command, host, host);
}

/// Once the program to start is decided on, its result alone decides what comes of it.
#[verifier::rlimit(40)]
pub proof fn launch_result_decides(
    args: RunArgsView,
    earlier: HostView,
    later: HostView,
    launch: LaunchView,
    result: LaunchResultView,
)
    requires
        extends(later, earlier),
        crate::platform::run_of(Platform::Linux, args, earlier) == Err::<u8, _>(
            HaltView::Ask(QueryView::Launch(launch)),
        ),
        later.launched == Some(result),
    ensures
        crate::platform::run_of(Platform::Linux, args, later) == match crate::linux::status_of(
            launch.program,
            launch.stdio.mode,
            result,
        ) {
            Ok(status) => Ok::<u8, HaltView>(crate::linux::exit_code_of(status)),
            Err(error) => Err::<u8, HaltView>(HaltView::Fail(error)),
        },
{
    policy_settles(args, earlier, later);
    if let Ok(policy) = crate::policy::policy_of(args, earlier) {
        launch_settles(policy, earlier, later);
    }
}

/// To begin with, nothing is known: whatever the program needs it asks for.
pub proof fn nothing_is_known_at_first(query: QueryView)
    ensures
        !is_answered(crate::host::unknown_host(), query),
{
}

} // verus!

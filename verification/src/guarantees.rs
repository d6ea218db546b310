//! What holds of every sandbox.
use vstd::prelude::*;

use crate::cli::{FsLayout, NetMode, RunArgsView, StdinMode, TtyMode};
use crate::config::SandboxConfigView;
use crate::error::ErrorView;
use crate::host::{HaltView, HostView};
use crate::placed::Placed;
use crate::policy::{HiddenPath, Mount, MountView, PolicyView};
use crate::policy_input::PolicyInputView;
use crate::unix_path::UnixPath;

verus! {

/// Everything in the list stands at an absolute path.
pub open spec fn all_absolute<T: Placed>(items: Seq<T::V>) -> bool {
    forall|i: int|
        0 <= i < items.len() ==> crate::unix_path::is_absolute(#[trigger] T::place_of(items[i]))
}

/// The host has an absolute path for the current working directory.
pub open spec fn has_absolute_cwd(host: HostView) -> bool {
    crate::policy::host_cwd_of(host) matches Ok(cwd) ==> crate::unix_path::is_absolute(cwd)
}

/// What a command line asks for, once the configuration file is known.
pub open spec fn input_of(args: RunArgsView, host: HostView) -> Result<PolicyInputView, HaltView> {
    match crate::config::config_of(args.config, host) {
        Err(halt) => Err(halt),
        Ok(config) => match crate::policy_input::policy_input_of(config, args) {
            Err(error) => Err(HaltView::Fail(error)),
            Ok(input) => Ok(input),
        },
    }
}

proof fn collected_are_results<A, E>(results: Seq<Result<A, E>>)
    requires
        crate::host::collect(results) is Ok,
    ensures
        crate::host::collect(results)->Ok_0.len() == results.len(),
        forall|i: int|
            0 <= i < results.len() ==> #[trigger] results[i] == Ok::<A, E>(
                crate::host::collect(results)->Ok_0[i],
            ),
    decreases results.len(),
{
    if results.len() > 0 {
        let earlier = results.drop_last();
        collected_are_results(earlier);
        let values = crate::host::collect(earlier)->Ok_0;
        assert forall|i: int| 0 <= i < results.len() implies #[trigger] results[i] == Ok::<A, E>(
            crate::host::collect(results)->Ok_0[i],
        ) by {
            if i < earlier.len() {
                assert(earlier[i] == results[i]);
            }
        }
    }
}

proof fn sorted_stay_absolute<T: Placed>(items: Seq<T::V>)
    requires
        all_absolute::<T>(items),
    ensures
        all_absolute::<T>(crate::placed::sort_stable::<T>(items)),
        all_absolute::<T>(crate::placed::sort_distinct::<T>(items)),
{
    crate::placed::sort_stable_adds_nothing::<T>(items);
    crate::placed::sort_distinct_adds_nothing::<T>(items);
    let stable = crate::placed::sort_stable::<T>(items);
    let distinct = crate::placed::sort_distinct::<T>(items);
    assert forall|i: int| 0 <= i < stable.len() implies crate::unix_path::is_absolute(
        #[trigger] T::place_of(stable[i]),
    ) by {
        assert(items.contains(stable[i]));
        assert(crate::unix_path::is_absolute(T::place_of(items[items.index_of(stable[i])])));
    }
    assert forall|i: int| 0 <= i < distinct.len() implies crate::unix_path::is_absolute(
        #[trigger] T::place_of(distinct[i]),
    ) by {
        assert(items.contains(distinct[i]));
        assert(crate::unix_path::is_absolute(T::place_of(items[items.index_of(distinct[i])])));
    }
}

proof fn mounts_are_absolute(specs: Seq<Seq<char>>, host_cwd: Seq<u8>, host: HostView)
    requires
        crate::mounts::mounts_of(specs, host_cwd, host) is Ok,
    ensures
        all_absolute::<Mount>(crate::mounts::mounts_of(specs, host_cwd, host)->Ok_0),
{
    let results = specs.map_values(|spec: Seq<char>| crate::mounts::mount_of(spec, host_cwd, host));
    let mounts = crate::mounts::mounts_of(specs, host_cwd, host)->Ok_0;
    collected_are_results(results);
    assert forall|i: int| 0 <= i < mounts.len() implies crate::unix_path::is_absolute(
        #[trigger] Mount::place_of(mounts[i]),
    ) by {
        assert(results[i] == crate::mounts::mount_of(specs[i], host_cwd, host));
    }
}

proof fn hidden_paths_are_absolute(
    paths: Seq<Seq<u8>>,
    mounts: Seq<MountView>,
    host_cwd: Seq<u8>,
    host: HostView,
)
    requires
        crate::mounts::hidden_paths_of(paths, mounts, host_cwd, host) is Ok,
    ensures
        all_absolute::<HiddenPath>(
            crate::mounts::hidden_paths_of(paths, mounts, host_cwd, host)->Ok_0,
        ),
{
    let results = paths.map_values(
        |path: Seq<u8>| crate::mounts::hidden_path_of(path, mounts, host_cwd, host),
    );
    let found = crate::host::collect(results)->Ok_0;
    collected_are_results(results);
    assert forall|i: int| 0 <= i < found.len() implies crate::unix_path::is_absolute(
        #[trigger] HiddenPath::place_of(found[i]),
    ) by {
        assert(results[i] == crate::mounts::hidden_path_of(paths[i], mounts, host_cwd, host));
    }
    sorted_stay_absolute::<HiddenPath>(found);
}

proof fn tmpfs_mounts_are_absolute(paths: Seq<Seq<u8>>)
    requires
        crate::mounts::tmpfs_mounts_of(paths) is Ok,
    ensures
        all_absolute::<UnixPath>(crate::mounts::tmpfs_mounts_of(paths)->Ok_0),
        crate::placed::occupied::<UnixPath>(
            crate::mounts::tmpfs_mounts_of(paths)->Ok_0,
            crate::bwrap::arg("/tmp"@),
        ),
{
    let results = paths.map_values(|path: Seq<u8>| crate::mounts::sandbox_path_of(path));
    let tmp = crate::bwrap::arg("/tmp"@);
    let all = seq![tmp] + crate::host::collect(results)->Ok_0;
    collected_are_results(results);
    assert(crate::unix_path::is_absolute(tmp)) by {
        reveal_strlit("/tmp");
        vstd::utf8::is_ascii_chars_encode_utf8("/tmp"@);
    }
    assert forall|i: int| 0 <= i < all.len() implies crate::unix_path::is_absolute(
        #[trigger] UnixPath::place_of(all[i]),
    ) by {
        if i > 0 {
            assert(results[i - 1] == crate::mounts::sandbox_path_of(paths[i - 1]));
        }
    }
    sorted_stay_absolute::<UnixPath>(all);
    assert(crate::unix_path::same_path(UnixPath::place_of(all[0]), tmp));
    crate::placed::sort_distinct_keeps_the_places::<UnixPath>(all, tmp);
}

/// Every path inside the sandbox is absolute: where something is mounted, where something is
/// hidden, and where the command starts.
pub proof fn sandbox_paths_are_absolute(args: RunArgsView, host: HostView)
    requires
        has_absolute_cwd(host),
        crate::policy::policy_of(args, host) is Ok,
    ensures
        ({
            let policy = crate::policy::policy_of(args, host)->Ok_0;
            &&& all_absolute::<Mount>(policy.ro_mounts)
            &&& all_absolute::<Mount>(policy.rw_mounts)
            &&& all_absolute::<UnixPath>(policy.tmpfs_mounts)
            &&& all_absolute::<HiddenPath>(policy.hidden_paths)
            &&& crate::unix_path::is_absolute(policy.cwd)
        }),
{
    let policy = crate::policy::policy_of(args, host)->Ok_0;
    let input = input_of(args, host)->Ok_0;
    let host_cwd = crate::policy::host_cwd_of(host)->Ok_0;
    let ro_mounts = crate::mounts::mounts_of(input.ro, host_cwd, host)->Ok_0;
    let asked = crate::mounts::mounts_of(input.rw, host_cwd, host)->Ok_0;
    let rw_mounts = crate::policy::writable_mounts_of(input.rw, host_cwd, host)->Ok_0;
    mounts_are_absolute(input.ro, host_cwd, host);
    mounts_are_absolute(input.rw, host_cwd, host);
    assert forall|i: int| 0 <= i < rw_mounts.len() implies crate::unix_path::is_absolute(
        #[trigger] Mount::place_of(rw_mounts[i]),
    ) by {
        if i < asked.len() {
            assert(crate::unix_path::is_absolute(Mount::place_of(asked[i])));
        }
    }
    sorted_stay_absolute::<Mount>(ro_mounts);
    sorted_stay_absolute::<Mount>(rw_mounts);
    tmpfs_mounts_are_absolute(input.tmpfs);
    hidden_paths_are_absolute(input.hide, policy.ro_mounts + policy.rw_mounts, host_cwd, host);
}

/// The host resolves paths to absolute ones.
pub open spec fn resolves_to_absolute(host: HostView) -> bool {
    forall|path: Seq<u8>| #[trigger]
        host.canonical.dom().contains(path) ==> (host.canonical[path] matches Ok(resolved)
            ==> crate::unix_path::is_absolute(resolved))
}

/// Every mount shows something at an absolute path of the host.
pub open spec fn all_sources_absolute(mounts: Seq<MountView>) -> bool {
    forall|i: int|
        0 <= i < mounts.len() ==> crate::unix_path::is_absolute((#[trigger] mounts[i]).src)
}

proof fn sources_are_absolute(specs: Seq<Seq<char>>, host_cwd: Seq<u8>, host: HostView)
    requires
        resolves_to_absolute(host),
        crate::mounts::mounts_of(specs, host_cwd, host) is Ok,
    ensures
        all_sources_absolute(crate::mounts::mounts_of(specs, host_cwd, host)->Ok_0),
{
    let results = specs.map_values(|spec: Seq<char>| crate::mounts::mount_of(spec, host_cwd, host));
    let mounts = crate::mounts::mounts_of(specs, host_cwd, host)->Ok_0;
    collected_are_results(results);
    assert forall|i: int| 0 <= i < mounts.len() implies crate::unix_path::is_absolute(
        (#[trigger] mounts[i]).src,
    ) by {
        assert(results[i] == crate::mounts::mount_of(specs[i], host_cwd, host));
    }
}

proof fn sorted_sources_stay_absolute(mounts: Seq<MountView>)
    requires
        all_sources_absolute(mounts),
    ensures
        all_sources_absolute(crate::placed::sort_stable::<Mount>(mounts)),
{
    let sorted = crate::placed::sort_stable::<Mount>(mounts);
    crate::placed::sort_stable_adds_nothing::<Mount>(mounts);
    assert forall|i: int| 0 <= i < sorted.len() implies crate::unix_path::is_absolute(
        (#[trigger] sorted[i]).src,
    ) by {
        assert(mounts.contains(sorted[i]));
        assert(mounts[mounts.index_of(sorted[i])] == sorted[i]);
    }
}

/// Every path of a policy is absolute on a host that resolves paths to absolute ones: where mounts
/// come from, where they stand, and all other paths inside the sandbox.
pub proof fn policy_paths_are_absolute(args: RunArgsView, host: HostView)
    requires
        resolves_to_absolute(host),
        crate::policy::policy_of(args, host) is Ok,
    ensures
        ({
            let policy = crate::policy::policy_of(args, host)->Ok_0;
            &&& all_sources_absolute(policy.ro_mounts)
            &&& all_sources_absolute(policy.rw_mounts)
            &&& all_absolute::<Mount>(policy.ro_mounts)
            &&& all_absolute::<Mount>(policy.rw_mounts)
            &&& all_absolute::<UnixPath>(policy.tmpfs_mounts)
            &&& all_absolute::<HiddenPath>(policy.hidden_paths)
            &&& crate::unix_path::is_absolute(policy.cwd)
        }),
{
    let input = input_of(args, host)->Ok_0;
    let host_cwd = crate::policy::host_cwd_of(host)->Ok_0;
    let ro_mounts = crate::mounts::mounts_of(input.ro, host_cwd, host)->Ok_0;
    let asked = crate::mounts::mounts_of(input.rw, host_cwd, host)->Ok_0;
    let rw_mounts = crate::policy::writable_mounts_of(input.rw, host_cwd, host)->Ok_0;
    assert(crate::unix_path::is_absolute(host_cwd));
    sources_are_absolute(input.ro, host_cwd, host);
    sources_are_absolute(input.rw, host_cwd, host);
    assert forall|i: int| 0 <= i < rw_mounts.len() implies crate::unix_path::is_absolute(
        (#[trigger] rw_mounts[i]).src,
    ) by {
        if i < asked.len() {
            assert(rw_mounts[i] == asked[i]);
        }
    }
    sorted_sources_stay_absolute(ro_mounts);
    sorted_sources_stay_absolute(rw_mounts);
    sandbox_paths_are_absolute(args, host);
}

/// The command starts in the directory that the command line asks for, or else the configuration
/// file, or else in the current working directory.
pub proof fn command_starts_where_asked(args: RunArgsView, host: HostView)
    requires
        crate::policy::policy_of(args, host) is Ok,
    ensures
        crate::policy::policy_of(args, host)->Ok_0.cwd == match args.cwd {
            Some(cwd) => cwd,
            None => match crate::config::config_of(args.config, host)->Ok_0.process.cwd {
                Some(cwd) => cwd,
                None => crate::policy::host_cwd_of(host)->Ok_0,
            },
        },
{
}

/// The lists of a policy are in the order of their paths. There is one temporary directory and one
/// hidden path at each path at most.
pub proof fn policy_is_in_order(args: RunArgsView, host: HostView)
    requires
        crate::policy::policy_of(args, host) is Ok,
    ensures
        ({
            let policy = crate::policy::policy_of(args, host)->Ok_0;
            &&& crate::placed::ordered::<Mount>(policy.ro_mounts)
            &&& crate::placed::ordered::<Mount>(policy.rw_mounts)
            &&& crate::placed::strictly_ordered::<UnixPath>(policy.tmpfs_mounts)
            &&& crate::placed::strictly_ordered::<HiddenPath>(policy.hidden_paths)
        }),
{
    let policy = crate::policy::policy_of(args, host)->Ok_0;
    let input = input_of(args, host)->Ok_0;
    let host_cwd = crate::policy::host_cwd_of(host)->Ok_0;
    crate::placed::sort_stable_is_ordered::<Mount>(
        crate::mounts::mounts_of(input.ro, host_cwd, host)->Ok_0,
    );
    crate::placed::sort_stable_is_ordered::<Mount>(
        crate::policy::writable_mounts_of(input.rw, host_cwd, host)->Ok_0,
    );
    let tmpfs = input.tmpfs.map_values(|path: Seq<u8>| crate::mounts::sandbox_path_of(path));
    crate::placed::sort_distinct_is_strictly_ordered::<UnixPath>(
        seq![crate::bwrap::arg("/tmp"@)] + crate::host::collect(tmpfs)->Ok_0,
    );
    let mounts = policy.ro_mounts + policy.rw_mounts;
    let hidden = input.hide.map_values(
        |path: Seq<u8>| crate::mounts::hidden_path_of(path, mounts, host_cwd, host),
    );
    crate::placed::sort_distinct_is_strictly_ordered::<HiddenPath>(
        crate::host::collect(hidden)->Ok_0,
    );
}

/// Something writable is mounted at the current working directory. The command starts there unless
/// another directory is asked for.
pub proof fn working_directory_is_writable(args: RunArgsView, host: HostView)
    requires
        crate::policy::policy_of(args, host) is Ok,
    ensures
        ({
            let policy = crate::policy::policy_of(args, host)->Ok_0;
            let host_cwd = crate::policy::host_cwd_of(host)->Ok_0;
            &&& crate::policy::host_cwd_of(host) is Ok
            &&& crate::placed::occupied::<Mount>(policy.rw_mounts, host_cwd)
            &&& input_of(args, host)->Ok_0.cwd is None ==> policy.cwd == host_cwd
        }),
{
    let input = input_of(args, host)->Ok_0;
    let host_cwd = crate::policy::host_cwd_of(host)->Ok_0;
    let asked = crate::mounts::mounts_of(input.rw, host_cwd, host)->Ok_0;
    let rw_mounts = crate::policy::writable_mounts_of(input.rw, host_cwd, host)->Ok_0;
    if !crate::placed::occupied::<Mount>(asked, host_cwd) {
        assert(crate::unix_path::same_path(
            Mount::place_of(rw_mounts[rw_mounts.len() - 1]),
            host_cwd,
        ));
    }
    crate::placed::sort_stable_keeps_the_places::<Mount>(rw_mounts, host_cwd);
}

/// What is mounted is what was asked for, each as often as it was, and the current working
/// directory where nothing writable was asked for there.
pub proof fn mounts_are_those_asked_for(args: RunArgsView, host: HostView)
    requires
        crate::policy::policy_of(args, host) is Ok,
    ensures
        ({
            let policy = crate::policy::policy_of(args, host)->Ok_0;
            let input = input_of(args, host)->Ok_0;
            let host_cwd = crate::policy::host_cwd_of(host)->Ok_0;
            let readable = crate::mounts::mounts_of(input.ro, host_cwd, host)->Ok_0;
            let writable = crate::mounts::mounts_of(input.rw, host_cwd, host)->Ok_0;
            &&& policy.ro_mounts.to_multiset() == readable.to_multiset()
            &&& policy.rw_mounts.to_multiset() == if crate::placed::occupied::<Mount>(
                writable,
                host_cwd,
            ) {
                writable.to_multiset()
            } else {
                writable.push(
                    crate::mounts::mount_at(host_cwd, host_cwd, host)->Ok_0,
                ).to_multiset()
            }
        }),
{
    let input = input_of(args, host)->Ok_0;
    let host_cwd = crate::policy::host_cwd_of(host)->Ok_0;
    crate::placed::sort_stable_keeps_the_things::<Mount>(
        crate::mounts::mounts_of(input.ro, host_cwd, host)->Ok_0,
    );
    crate::placed::sort_stable_keeps_the_things::<Mount>(
        crate::policy::writable_mounts_of(input.rw, host_cwd, host)->Ok_0,
    );
}

/// Every sandbox has a temporary directory at `/tmp`.
pub proof fn tmp_is_temporary(args: RunArgsView, host: HostView)
    requires
        crate::policy::policy_of(args, host) is Ok,
    ensures
        crate::placed::occupied::<UnixPath>(
            crate::policy::policy_of(args, host)->Ok_0.tmpfs_mounts,
            crate::bwrap::arg("/tmp"@),
        ),
{
    tmpfs_mounts_are_absolute(input_of(args, host)->Ok_0.tmpfs);
}

/// Every sandbox has a command: that of the command line, or else that of the configuration file.
pub proof fn there_is_a_command(args: RunArgsView, host: HostView)
    requires
        crate::policy::policy_of(args, host) is Ok,
    ensures
        ({
            let policy = crate::policy::policy_of(args, host)->Ok_0;
            &&& policy.command.len() > 0
            &&& args.command.len() > 0 ==> policy.command == args.command
        }),
{
}

/// What the file system rules of Landlock leave allowed. There are none where the host's files are
/// shown. In a strict layout, what can be read is what is mounted read-only, `/proc` and `/dev`;
/// what can be written is what is mounted writable, the temporary directories, and some devices.
pub proof fn landlock_follows_the_mounts(args: RunArgsView, host: HostView, path: Seq<u8>)
    requires
        crate::policy::policy_of(args, host) is Ok,
    ensures
        ({
            let policy = crate::policy::policy_of(args, host)->Ok_0;
            let readable = crate::landlock_plan::dests_of(policy.ro_mounts)
                + crate::landlock_plan::system_paths_of();
            let writable = crate::landlock_plan::dests_of(policy.rw_mounts) + policy.tmpfs_mounts
                + crate::landlock_plan::device_paths_of();
            &&& policy.landlock.has_fs_rules() <==> policy.fs_layout == FsLayout::Strict
            &&& policy.fs_layout == FsLayout::Strict ==> {
                &&& crate::placed::occupied::<UnixPath>(policy.landlock.ro_paths, path)
                    == crate::placed::occupied::<UnixPath>(readable, path)
                &&& crate::placed::occupied::<UnixPath>(policy.landlock.rw_paths, path)
                    == crate::placed::occupied::<UnixPath>(writable, path)
            }
        }),
{
    let policy = crate::policy::policy_of(args, host)->Ok_0;
    let readable = crate::landlock_plan::dests_of(policy.ro_mounts)
        + crate::landlock_plan::system_paths_of();
    let writable = crate::landlock_plan::dests_of(policy.rw_mounts) + policy.tmpfs_mounts
        + crate::landlock_plan::device_paths_of();
    crate::placed::sort_distinct_keeps_the_places::<UnixPath>(readable, path);
    crate::placed::sort_distinct_keeps_the_places::<UnixPath>(writable, path);
    let proc = crate::bwrap::arg("/proc"@);
    assert(readable[policy.ro_mounts.len() as int] == proc);
    assert(crate::unix_path::same_path(
        UnixPath::place_of(readable[policy.ro_mounts.len() as int]),
        proc,
    ));
    crate::placed::sort_distinct_keeps_the_places::<UnixPath>(readable, proc);
}

/// The environment of the command, name by name: a variable that is set has its value; otherwise,
/// where the environment is cleared, a variable that is passed on has the value of this process;
/// nothing else is there.
pub proof fn environment_is_limited(args: RunArgsView, host: HostView, name: Seq<char>)
    requires
        crate::policy::policy_of(args, host) is Ok,
    ensures
        ({
            let env = crate::policy::policy_of(args, host)->Ok_0.env;
            let input = input_of(args, host)->Ok_0;
            &&& env.clear == input.env_clear
            &&& crate::env_map::value_of(env.vars, name) == match crate::env_map::value_of(
                input.env_set,
                name,
            ) {
                Some(value) => Some(value),
                None => if env.clear && (crate::env_plan::default_env_keys_of()
                    + input.env_pass).contains(name) {
                    host.vars[name]
                } else {
                    None
                },
            }
        }),
{
    let config = crate::config::config_of(args.config, host)->Ok_0;
    let input = input_of(args, host)->Ok_0;
    assignments_are_in_order(config, args);
    crate::env_plan::environment_is_what_was_asked_for(
        input.env_clear,
        input.env_pass,
        input.env_set,
        host,
        name,
    );
}

proof fn assignments_are_in_order(config: SandboxConfigView, args: RunArgsView)
    requires
        crate::policy_input::policy_input_of(config, args) is Ok,
    ensures
        crate::env_map::names_ascend(
            crate::policy_input::policy_input_of(config, args)->Ok_0.env_set,
        ),
{
    let none = Seq::<(Seq<char>, Seq<u8>)>::empty();
    let configured = crate::policy_input::encoded_values(config.env.set);
    let assigned = crate::policy_input::explicit_env_of(args.env)->Ok_0;
    crate::env_map::with_vars_sets_the_last(none, configured, Seq::empty());
    crate::env_map::with_vars_sets_the_last(
        crate::env_map::with_vars(none, configured),
        assigned,
        Seq::empty(),
    );
}

/// What the command line says comes first.
pub proof fn command_line_comes_first(config: SandboxConfigView, args: RunArgsView)
    requires
        crate::policy_input::policy_input_of(config, args) is Ok,
    ensures
        ({
            let input = crate::policy_input::policy_input_of(config, args)->Ok_0;
            &&& args.fs_layout matches Some(layout) ==> input.fs_layout == layout
            &&& args.net matches Some(net) ==> input.net == net
            &&& args.stdin matches Some(stdin) ==> input.stdin == stdin
            &&& args.tty matches Some(tty) ==> input.tty == tty
            &&& args.cwd matches Some(cwd) ==> input.cwd == Some(cwd)
            &&& args.env_clear matches Some(clear) ==> input.env_clear == clear
            &&& args.env_clear is None && args.inherit_env is Some ==> Some(!input.env_clear)
                == args.inherit_env
            &&& args.best_effort matches Some(best_effort) ==> input.best_effort == best_effort
            &&& args.command.len() > 0 ==> input.command == args.command
        }),
{
}

/// Where the command line says nothing, what the configuration file says holds.
pub proof fn configuration_comes_second(config: SandboxConfigView, args: RunArgsView)
    requires
        crate::policy_input::policy_input_of(config, args) is Ok,
    ensures
        ({
            let input = crate::policy_input::policy_input_of(config, args)->Ok_0;
            &&& args.fs_layout is None && config.fs.layout is Some ==> Some(input.fs_layout)
                == config.fs.layout
            &&& args.net is None && config.net.mode is Some ==> Some(input.net) == config.net.mode
            &&& args.stdin is None && config.process.stdin is Some ==> Some(input.stdin)
                == config.process.stdin
            &&& args.tty is None && config.process.tty is Some ==> Some(input.tty)
                == config.process.tty
            &&& args.cwd is None ==> input.cwd == config.process.cwd
            &&& args.env_clear is None && args.inherit_env is None && config.env.clear is Some
                ==> Some(input.env_clear) == config.env.clear
            &&& args.best_effort is None && config.best_effort is Some ==> Some(input.best_effort)
                == config.best_effort
            &&& args.command.len() == 0 ==> input.command == crate::policy_input::encoded(
                config.command,
            )
        }),
{
}

/// A command line that says nothing but what to run.
pub open spec fn bare_args(command: Seq<Seq<u8>>) -> RunArgsView {
    RunArgsView {
        config: None,
        fs_layout: None,
        ro: Seq::empty(),
        rw: Seq::empty(),
        tmpfs: Seq::empty(),
        hide: Seq::empty(),
        net: None,
        env: Seq::empty(),
        env_pass: Seq::empty(),
        env_clear: None,
        inherit_env: None,
        cwd: None,
        stdin: None,
        tty: None,
        allow_tcp_connect: Seq::empty(),
        allow_tcp_bind: Seq::empty(),
        best_effort: None,
        command,
    }
}

/// What a sandbox is like by default: the host's files are shown read-only, the network is off,
/// and the environment is cleared but for some variables. Nothing else is mounted, hidden or set,
/// no TCP port is restricted, and nothing is left unenforced.
pub proof fn defaults_are_closed(command: Seq<Seq<u8>>)
    requires
        command.len() > 0,
    ensures
        crate::policy_input::policy_input_of(
            crate::config::silent_config(),
            bare_args(command),
        ) == Ok::<_, ErrorView>(
            PolicyInputView {
                fs_layout: FsLayout::HostRo,
                ro: Seq::empty(),
                rw: Seq::empty(),
                tmpfs: Seq::empty(),
                hide: Seq::empty(),
                cwd: None,
                net: NetMode::Off,
                stdin: StdinMode::Inherit,
                tty: TtyMode::Auto,
                allow_tcp_connect: Seq::empty(),
                allow_tcp_bind: Seq::empty(),
                env_clear: true,
                env_pass: Seq::empty(),
                env_set: Seq::empty(),
                command,
                best_effort: false,
            },
        ),
{
    let args = bare_args(command);
    let config = crate::config::silent_config();
    let input = crate::policy_input::policy_input_of(config, args)->Ok_0;
    assert(crate::policy_input::explicit_env_of(args.env)->Ok_0 =~= Seq::empty());
    assert(crate::policy_input::encoded_values(config.env.set) =~= Seq::empty());
    assert(input.ro =~= Seq::empty());
    assert(input.rw =~= Seq::empty());
    assert(input.tmpfs =~= Seq::empty());
    assert(input.hide =~= Seq::empty());
    assert(input.allow_tcp_connect =~= Seq::empty());
    assert(input.allow_tcp_bind =~= Seq::empty());
    assert(input.env_pass =~= Seq::empty());
}

/// Of the values that a variable is given, the last one on the command line holds, and without one
/// there, the last one in the configuration file.
pub proof fn command_line_variables_come_first(
    config: SandboxConfigView,
    args: RunArgsView,
    name: Seq<char>,
)
    requires
        crate::policy_input::policy_input_of(config, args) is Ok,
    ensures
        ({
            let input = crate::policy_input::policy_input_of(config, args)->Ok_0;
            let assigned = crate::policy_input::explicit_env_of(args.env)->Ok_0;
            let configured = crate::policy_input::encoded_values(config.env.set);
            &&& forall|i: int|
                is_last_assignment(assigned, name, i) ==> crate::env_map::value_of(
                    input.env_set,
                    name,
                ) == Some((#[trigger] assigned[i]).1)
            &&& is_unassigned(assigned, name) ==> forall|i: int|
                is_last_assignment(configured, name, i) ==> crate::env_map::value_of(
                    input.env_set,
                    name,
                ) == Some((#[trigger] configured[i]).1)
            &&& is_unassigned(assigned, name) && is_unassigned(configured, name)
                ==> crate::env_map::value_of(input.env_set, name) is None
        }),
{
    let none = Seq::<(Seq<char>, Seq<u8>)>::empty();
    let assigned = crate::policy_input::explicit_env_of(args.env)->Ok_0;
    let configured = crate::policy_input::encoded_values(config.env.set);
    crate::env_map::with_vars_sets_the_last(none, configured, name);
    crate::env_map::with_vars_sets_the_last(
        crate::env_map::with_vars(none, configured),
        assigned,
        name,
    );
}

/// The last assignment to `name` is the one at `at`.
pub open spec fn is_last_assignment(
    assignments: Seq<(Seq<char>, Seq<u8>)>,
    name: Seq<char>,
    at: int,
) -> bool {
    &&& 0 <= at < assignments.len()
    &&& assignments[at].0 == name
    &&& forall|i: int| at < i < assignments.len() ==> (#[trigger] assignments[i]).0 != name
}

/// Nothing is assigned to `name`.
pub open spec fn is_unassigned(assignments: Seq<(Seq<char>, Seq<u8>)>, name: Seq<char>) -> bool {
    forall|i: int| 0 <= i < assignments.len() ==> (#[trigger] assignments[i]).0 != name
}

/// The current working directory is what the host resolves it to. What is not known of it is asked
/// for, and what cannot be found out is a failure.
pub proof fn current_directory_is_resolved(host: HostView, dir: Seq<u8>)
    requires
        crate::unix_path::is_absolute(dir),
    ensures
        host.current_dir is None ==> crate::policy::host_cwd_of(host) == Err::<Seq<u8>, _>(
            HaltView::Ask(crate::host::QueryView::CurrentDir),
        ),
        host.current_dir matches Some(Err(source)) ==> crate::policy::host_cwd_of(host) == Err::<
            Seq<u8>,
            _,
        >(HaltView::Fail(ErrorView::CurrentDir(source))),
        host.current_dir == Some(Ok::<_, Seq<Seq<char>>>(dir)) ==> {
            &&& !host.canonical.dom().contains(dir) ==> crate::policy::host_cwd_of(host) == Err::<
                Seq<u8>,
                _,
            >(HaltView::Ask(crate::host::QueryView::Canonicalize(dir)))
            &&& host.canonical.dom().contains(dir) ==> match host.canonical[dir] {
                Ok(resolved) => crate::policy::host_cwd_of(host) == Ok::<_, HaltView>(resolved),
                Err(source) => crate::policy::host_cwd_of(host) == Err::<Seq<u8>, _>(
                    HaltView::Fail(ErrorView::CanonicalizePath { path: dir, source }),
                ),
            }
        },
{
}

/// What was asked for goes into the policy as it is: the layout, the network, the input, the
/// terminal, the command, and whether the sandbox may do its best. The other parts are made of what
/// was asked for, and the kinds of hidden paths are found in the mounts of the policy.
pub proof fn policy_keeps_what_was_asked_for(args: RunArgsView, host: HostView)
    requires
        crate::policy::policy_of(args, host) is Ok,
    ensures
        input_of(args, host) is Ok,
        ({
            let policy = crate::policy::policy_of(args, host)->Ok_0;
            let input = input_of(args, host)->Ok_0;
            let host_cwd = crate::policy::host_cwd_of(host)->Ok_0;
            &&& policy.fs_layout == input.fs_layout
            &&& policy.net == input.net
            &&& policy.stdin == input.stdin
            &&& policy.tty == input.tty
            &&& policy.command == input.command
            &&& policy.best_effort == input.best_effort
            &&& crate::mounts::tmpfs_mounts_of(input.tmpfs) == Ok::<_, ErrorView>(
                policy.tmpfs_mounts,
            )
            &&& crate::mounts::hidden_paths_of(
                input.hide,
                policy.ro_mounts + policy.rw_mounts,
                host_cwd,
                host,
            ) == Ok::<_, HaltView>(policy.hidden_paths)
            &&& crate::env_plan::env_plan_of(input.env_clear, input.env_pass, input.env_set, host)
                == Ok::<_, HaltView>(policy.env)
        }),
{
}

/// The ports that the policy leaves allowed are those that were asked for, kind by kind, in
/// ascending order and each of them once.
pub proof fn ports_are_those_asked_for(args: RunArgsView, host: HostView, port: u16)
    requires
        crate::policy::policy_of(args, host) is Ok,
    ensures
        ({
            let landlock = crate::policy::policy_of(args, host)->Ok_0.landlock;
            let input = input_of(args, host)->Ok_0;
            &&& landlock.tcp_connect_ports.contains(port) <==> input.allow_tcp_connect.contains(port)
            &&& landlock.tcp_bind_ports.contains(port) <==> input.allow_tcp_bind.contains(port)
            &&& forall|i: int, j: int|
                0 <= i < j < landlock.tcp_connect_ports.len() ==> landlock.tcp_connect_ports[i]
                    < landlock.tcp_connect_ports[j]
            &&& forall|i: int, j: int|
                0 <= i < j < landlock.tcp_bind_ports.len() ==> landlock.tcp_bind_ports[i]
                    < landlock.tcp_bind_ports[j]
        }),
{
    let input = input_of(args, host)->Ok_0;
    crate::landlock_plan::tcp_ports_are_normal(input.allow_tcp_connect);
    crate::landlock_plan::tcp_ports_are_normal(input.allow_tcp_bind);
}

/// In a strict layout a path can be read exactly where something is mounted read-only, and at
/// `/proc` and `/dev`. It can be written exactly where something is mounted writable, at a temporary
/// directory, and at the devices that every command may use. Where the host's files are shown no
/// path is named.
pub proof fn landlock_names_the_mounts(args: RunArgsView, host: HostView, path: Seq<u8>)
    requires
        crate::policy::policy_of(args, host) is Ok,
    ensures
        ({
            let policy = crate::policy::policy_of(args, host)->Ok_0;
            let at = |text: Seq<char>|
                crate::unix_path::same_path(vstd::utf8::encode_utf8(text), path);
            &&& policy.fs_layout == FsLayout::HostRo ==> policy.landlock.ro_paths.len() == 0
                && policy.landlock.rw_paths.len() == 0
            &&& policy.fs_layout == FsLayout::Strict ==> {
                &&& crate::placed::occupied::<UnixPath>(policy.landlock.ro_paths, path) <==> {
                    ||| crate::placed::occupied::<Mount>(policy.ro_mounts, path)
                    ||| at("/proc"@)
                    ||| at("/dev"@)
                }
                &&& crate::placed::occupied::<UnixPath>(policy.landlock.rw_paths, path) <==> {
                    ||| crate::placed::occupied::<Mount>(policy.rw_mounts, path)
                    ||| crate::placed::occupied::<UnixPath>(policy.tmpfs_mounts, path)
                    ||| at("/dev/null"@)
                    ||| at("/dev/full"@)
                    ||| at("/dev/zero"@)
                    ||| at("/dev/random"@)
                    ||| at("/dev/urandom"@)
                    ||| at("/dev/tty"@)
                    ||| at("/dev/pts"@)
                    ||| at("/dev/ptmx"@)
                }
                &&& crate::placed::strictly_ordered::<UnixPath>(policy.landlock.ro_paths)
                &&& crate::placed::strictly_ordered::<UnixPath>(policy.landlock.rw_paths)
            }
        }),
{
    let policy = crate::policy::policy_of(args, host)->Ok_0;
    let ro_dests = crate::landlock_plan::dests_of(policy.ro_mounts);
    let rw_dests = crate::landlock_plan::dests_of(policy.rw_mounts);
    let system = crate::landlock_plan::system_paths_of();
    let devices = crate::landlock_plan::device_paths_of();
    landlock_follows_the_mounts(args, host, path);
    destinations_are_places(policy.ro_mounts, path);
    destinations_are_places(policy.rw_mounts, path);
    either_occupied(ro_dests, system, path);
    either_occupied(rw_dests, policy.tmpfs_mounts, path);
    either_occupied(rw_dests + policy.tmpfs_mounts, devices, path);
    system_places(path);
    device_places(path);
    crate::placed::sort_distinct_is_strictly_ordered::<UnixPath>(ro_dests + system);
    crate::placed::sort_distinct_is_strictly_ordered::<UnixPath>(
        rw_dests + policy.tmpfs_mounts + devices,
    );
}

proof fn destinations_are_places(mounts: Seq<MountView>, path: Seq<u8>)
    ensures
        crate::placed::occupied::<UnixPath>(crate::landlock_plan::dests_of(mounts), path)
            == crate::placed::occupied::<Mount>(mounts, path),
{
    let dests = crate::landlock_plan::dests_of(mounts);
    if crate::placed::occupied::<UnixPath>(dests, path) {
        let i = choose|i: int|
            0 <= i < dests.len() && crate::unix_path::same_path(
                #[trigger] UnixPath::place_of(dests[i]),
                path,
            );
        assert(crate::unix_path::same_path(Mount::place_of(mounts[i]), path));
    }
    if crate::placed::occupied::<Mount>(mounts, path) {
        let i = choose|i: int|
            0 <= i < mounts.len() && crate::unix_path::same_path(
                #[trigger] Mount::place_of(mounts[i]),
                path,
            );
        assert(crate::unix_path::same_path(UnixPath::place_of(dests[i]), path));
    }
}

proof fn either_occupied(a: Seq<Seq<u8>>, b: Seq<Seq<u8>>, path: Seq<u8>)
    ensures
        crate::placed::occupied::<UnixPath>(a + b, path) == (crate::placed::occupied::<UnixPath>(
            a,
            path,
        ) || crate::placed::occupied::<UnixPath>(b, path)),
{
    let both = a + b;
    if crate::placed::occupied::<UnixPath>(a, path) {
        let i = choose|i: int|
            0 <= i < a.len() && crate::unix_path::same_path(
                #[trigger] UnixPath::place_of(a[i]),
                path,
            );
        assert(crate::unix_path::same_path(UnixPath::place_of(both[i]), path));
    }
    if crate::placed::occupied::<UnixPath>(b, path) {
        let i = choose|i: int|
            0 <= i < b.len() && crate::unix_path::same_path(
                #[trigger] UnixPath::place_of(b[i]),
                path,
            );
        assert(crate::unix_path::same_path(UnixPath::place_of(both[a.len() + i]), path));
    }
    if crate::placed::occupied::<UnixPath>(both, path) {
        let i = choose|i: int|
            0 <= i < both.len() && crate::unix_path::same_path(
                #[trigger] UnixPath::place_of(both[i]),
                path,
            );
        if i < a.len() {
            assert(crate::unix_path::same_path(UnixPath::place_of(a[i]), path));
        } else {
            assert(crate::unix_path::same_path(UnixPath::place_of(b[i - a.len()]), path));
        }
    }
}

proof fn system_places(path: Seq<u8>)
    ensures
        crate::placed::occupied::<UnixPath>(crate::landlock_plan::system_paths_of(), path)
            == (crate::unix_path::same_path(vstd::utf8::encode_utf8("/proc"@), path)
            || crate::unix_path::same_path(vstd::utf8::encode_utf8("/dev"@), path)),
{
    let paths = crate::landlock_plan::system_paths_of();
    let places = seq![UnixPath::place_of(paths[0]), UnixPath::place_of(paths[1])];
    assert(places[0] == vstd::utf8::encode_utf8("/proc"@));
    assert(places[1] == vstd::utf8::encode_utf8("/dev"@));
}

proof fn device_places(path: Seq<u8>)
    ensures
        crate::placed::occupied::<UnixPath>(crate::landlock_plan::device_paths_of(), path) == ({
            let at = |text: Seq<char>|
                crate::unix_path::same_path(vstd::utf8::encode_utf8(text), path);
            at("/dev/null"@) || at("/dev/full"@) || at("/dev/zero"@) || at("/dev/random"@) || at(
                "/dev/urandom"@,
            ) || at("/dev/tty"@) || at("/dev/pts"@) || at("/dev/ptmx"@)
        }),
{
    let paths = crate::landlock_plan::device_paths_of();
    assert(UnixPath::place_of(paths[0]) == vstd::utf8::encode_utf8("/dev/null"@));
    assert(UnixPath::place_of(paths[1]) == vstd::utf8::encode_utf8("/dev/full"@));
    assert(UnixPath::place_of(paths[2]) == vstd::utf8::encode_utf8("/dev/zero"@));
    assert(UnixPath::place_of(paths[3]) == vstd::utf8::encode_utf8("/dev/random"@));
    assert(UnixPath::place_of(paths[4]) == vstd::utf8::encode_utf8("/dev/urandom"@));
    assert(UnixPath::place_of(paths[5]) == vstd::utf8::encode_utf8("/dev/tty"@));
    assert(UnixPath::place_of(paths[6]) == vstd::utf8::encode_utf8("/dev/pts"@));
    assert(UnixPath::place_of(paths[7]) == vstd::utf8::encode_utf8("/dev/ptmx"@));
}

/// A policy can be made whenever everything that it is made of can be: nothing else stands in the
/// way.
pub proof fn policy_can_be_made(args: RunArgsView, host: HostView)
    ensures
        crate::policy::policy_of(args, host) is Ok <==> {
            &&& crate::config::config_of(args.config, host) is Ok
            &&& crate::policy_input::policy_input_of(
                crate::config::config_of(args.config, host)->Ok_0,
                args,
            ) is Ok
            &&& crate::policy::host_cwd_of(host) is Ok
            &&& {
                let input = input_of(args, host)->Ok_0;
                let host_cwd = crate::policy::host_cwd_of(host)->Ok_0;
                let readable = crate::mounts::mounts_of(input.ro, host_cwd, host);
                let writable = crate::mounts::mounts_of(input.rw, host_cwd, host);
                &&& readable is Ok
                &&& writable is Ok
                &&& crate::placed::occupied::<Mount>(writable->Ok_0, host_cwd)
                    || crate::mounts::kind_of(host_cwd, host) is Ok
                &&& input.cwd matches Some(cwd) ==> crate::unix_path::is_absolute(cwd)
                &&& crate::mounts::tmpfs_mounts_of(input.tmpfs) is Ok
                &&& crate::mounts::hidden_paths_of(
                    input.hide,
                    crate::placed::sort_stable::<Mount>(readable->Ok_0)
                        + crate::placed::sort_stable::<Mount>(
                        crate::policy::writable_mounts_of(input.rw, host_cwd, host)->Ok_0,
                    ),
                    host_cwd,
                    host,
                ) is Ok
                &&& crate::env_plan::env_plan_of(
                    input.env_clear,
                    input.env_pass,
                    input.env_set,
                    host,
                ) is Ok
            }
        },
{
}

/// Where nothing writable is asked for at the current working directory, that directory itself is
/// mounted there.
pub proof fn working_directory_is_mounted(args: RunArgsView, host: HostView)
    requires
        crate::policy::policy_of(args, host) is Ok,
        !crate::placed::occupied::<Mount>(
            crate::mounts::mounts_of(
                input_of(args, host)->Ok_0.rw,
                crate::policy::host_cwd_of(host)->Ok_0,
                host,
            )->Ok_0,
            crate::policy::host_cwd_of(host)->Ok_0,
        ),
    ensures
        ({
            let policy = crate::policy::policy_of(args, host)->Ok_0;
            let host_cwd = crate::policy::host_cwd_of(host)->Ok_0;
            exists|i: int|
                0 <= i < policy.rw_mounts.len() && (#[trigger] policy.rw_mounts[i]).src == host_cwd
                    && policy.rw_mounts[i].dest == host_cwd
        }),
{
    let input = input_of(args, host)->Ok_0;
    let policy = crate::policy::policy_of(args, host)->Ok_0;
    let host_cwd = crate::policy::host_cwd_of(host)->Ok_0;
    let all = crate::policy::writable_mounts_of(input.rw, host_cwd, host)->Ok_0;
    let mount = all.last();
    crate::placed::sort_stable_keeps_the_things::<Mount>(all);
    all.to_multiset_ensures();
    policy.rw_mounts.to_multiset_ensures();
    assert(all[all.len() - 1] == mount);
    assert(all.contains(mount));
    assert(policy.rw_mounts.to_multiset().count(mount) > 0);
    assert(policy.rw_mounts.contains(mount));
    let i = policy.rw_mounts.index_of(mount);
    assert(policy.rw_mounts[i].src == host_cwd);
}

/// What stands in the way of a policy is told in the order in which it is come across: the
/// configuration file, what is asked for, the current working directory, what is mounted read-only,
/// what is mounted writable, the directory to start in, the temporary directories, the hidden paths,
/// and the environment.
pub proof fn first_obstacle_is_told(args: RunArgsView, host: HostView)
    ensures
        ({
            let policy = crate::policy::policy_of(args, host);
            let config = crate::config::config_of(args.config, host);
            let input = crate::policy_input::policy_input_of(config->Ok_0, args);
            let asked = input->Ok_0;
            let host_cwd = crate::policy::host_cwd_of(host);
            let readable = crate::mounts::mounts_of(asked.ro, host_cwd->Ok_0, host);
            let writable = crate::mounts::mounts_of(asked.rw, host_cwd->Ok_0, host);
            let missing = !crate::placed::occupied::<Mount>(writable->Ok_0, host_cwd->Ok_0);
            let own = crate::mounts::kind_of(host_cwd->Ok_0, host);
            let tmpfs = crate::mounts::tmpfs_mounts_of(asked.tmpfs);
            let mounted = readable is Ok && writable is Ok && (missing ==> own is Ok);
            let placed = asked.cwd matches Some(cwd) ==> crate::unix_path::is_absolute(cwd);
            &&& config matches Err(halt) ==> policy == Err::<PolicyView, _>(halt)
            &&& config is Ok ==> {
                &&& input matches Err(error) ==> policy == Err::<PolicyView, _>(
                    HaltView::Fail(error),
                )
                &&& input is Ok ==> {
                    &&& host_cwd matches Err(halt) ==> policy == Err::<PolicyView, _>(halt)
                    &&& host_cwd is Ok ==> {
                        &&& readable matches Err(halt) ==> policy == Err::<PolicyView, _>(halt)
                        &&& readable is Ok ==> (writable matches Err(halt) ==> policy == Err::<
                            PolicyView,
                            _,
                        >(halt))
                        &&& readable is Ok && writable is Ok && missing ==> (own matches Err(halt)
                            ==> policy == Err::<PolicyView, _>(halt))
                        &&& mounted ==> (asked.cwd matches Some(cwd)
                            ==> !crate::unix_path::is_absolute(cwd) ==> policy == Err::<
                            PolicyView,
                            _,
                        >(HaltView::Fail(ErrorView::NonAbsoluteSandboxPath { path: cwd })))
                        &&& mounted && placed ==> (tmpfs matches Err(error) ==> policy == Err::<
                            PolicyView,
                            _,
                        >(HaltView::Fail(error)))
                        &&& mounted && placed && tmpfs is Ok ==> {
                            let hidden = crate::mounts::hidden_paths_of(
                                asked.hide,
                                crate::placed::sort_stable::<Mount>(readable->Ok_0)
                                    + crate::placed::sort_stable::<Mount>(
                                    crate::policy::writable_mounts_of(
                                        asked.rw,
                                        host_cwd->Ok_0,
                                        host,
                                    )->Ok_0,
                                ),
                                host_cwd->Ok_0,
                                host,
                            );
                            let env = crate::env_plan::env_plan_of(
                                asked.env_clear,
                                asked.env_pass,
                                asked.env_set,
                                host,
                            );
                            &&& hidden matches Err(halt) ==> policy == Err::<PolicyView, _>(halt)
                            &&& hidden is Ok ==> (env matches Err(halt) ==> policy == Err::<
                                PolicyView,
                                _,
                            >(halt))
                            &&& hidden is Ok && env is Ok ==> policy is Ok
                        }
                    }
                }
            }
        }),
{
}

} // verus!

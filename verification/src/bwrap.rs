//! The arguments with which `bwrap` sets up a sandbox.
use vstd::prelude::*;

use crate::byte_string::ByteString;
use crate::cli::{FsLayout, NetMode};
use crate::copies::{copy_strings, copy_texts};
use crate::error::{BoxRunError, ErrorView};
use crate::host::{Halt, HaltView, HostFacts, HostView, Query, QueryView};
use crate::policy::{EnvPlan, EnvPlanView, HiddenPath, HiddenPathView, LandlockPlan};
use crate::policy::{LandlockPlanView, Mount, MountKind, MountView, Policy, PolicyView};
use crate::text::decimal;
use crate::unix_path::UnixPath;

verus! {

/// An argument that is written out.
pub open spec fn arg(text: Seq<char>) -> Seq<u8> {
    vstd::utf8::encode_utf8(text)
}

/// Where this executable is seen inside the sandbox.
pub open spec fn helper_path_of() -> Seq<u8> {
    arg("/tmp/box-run-helper"@)
}

/// What `piece` makes of each of the items, one behind the other.
pub open spec fn concat_map<A, B>(items: Seq<A>, piece: spec_fn(A) -> Seq<B>) -> Seq<B>
    decreases items.len(),
{
    if items.len() == 0 {
        Seq::empty()
    } else {
        concat_map(items.drop_last(), piece) + piece(items.last())
    }
}

/// A session and namespaces of its own, among them that of the network unless the sandbox has the
/// host's.
pub open spec fn namespace_args_of(net: NetMode) -> Seq<Seq<u8>> {
    seq![
        arg("--new-session"@),
        arg("--die-with-parent"@),
        arg("--unshare-user"@),
        arg("--unshare-pid"@),
        arg("--unshare-ipc"@),
        arg("--unshare-uts"@),
    ] + if net == NetMode::Off {
        seq![arg("--unshare-net"@)]
    } else {
        Seq::empty()
    }
}

/// The environment.
pub open spec fn env_args_of(env: EnvPlanView) -> Seq<Seq<u8>> {
    (if env.clear {
        seq![arg("--clearenv"@)]
    } else {
        Seq::empty()
    }) + concat_map(
        env.vars,
        |var: (Seq<char>, Seq<u8>)| seq![arg("--setenv"@), arg(var.0), var.1],
    )
}

/// The host's files, where the layout shows them.
pub open spec fn layout_args_of(fs_layout: FsLayout) -> Seq<Seq<u8>> {
    if fs_layout == FsLayout::HostRo {
        seq![arg("--ro-bind"@), arg("/"@), arg("/"@)]
    } else {
        Seq::empty()
    }
}

/// Empty directories.
pub open spec fn tmpfs_args_of(paths: Seq<Seq<u8>>) -> Seq<Seq<u8>> {
    concat_map(paths, |path: Seq<u8>| seq![arg("--tmpfs"@), path])
}

/// What is needed for something to be mounted at `dest`: the directory itself, or the one that
/// holds the file.
pub open spec fn dest_args_of(dest: Seq<u8>, kind: MountKind) -> Seq<Seq<u8>> {
    match kind {
        MountKind::Dir => seq![arg("--dir"@), dest],
        MountKind::File => match crate::unix_path::parent_of(dest) {
            Some(parent) => seq![arg("--dir"@), parent],
            None => Seq::empty(),
        },
    }
}

/// One mount.
pub open spec fn mount_args_of(
    src: Seq<u8>,
    dest: Seq<u8>,
    kind: MountKind,
    readonly: bool,
) -> Seq<Seq<u8>> {
    dest_args_of(dest, kind) + seq![
        if readonly {
            arg("--ro-bind"@)
        } else {
            arg("--bind"@)
        },
        src,
        dest,
    ]
}

/// Mounts, in their order.
pub open spec fn mounts_args_of(mounts: Seq<MountView>, readonly: bool) -> Seq<Seq<u8>> {
    concat_map(
        mounts,
        |mount: MountView| mount_args_of(mount.src, mount.dest, mount.kind, readonly),
    )
}

/// The file systems of the kernel.
pub open spec fn kernel_args_of() -> Seq<Seq<u8>> {
    seq![arg("--proc"@), arg("/proc"@), arg("--dev"@), arg("/dev"@)]
}

/// How many of the hidden paths are files.
pub open spec fn files_in(hidden: Seq<HiddenPathView>) -> nat
    decreases hidden.len(),
{
    if hidden.len() == 0 {
        0
    } else {
        files_in(hidden.drop_last()) + if hidden.last().kind == MountKind::File {
            1nat
        } else {
            0nat
        }
    }
}

/// What covers the hidden paths: an empty read-only directory over a directory, and an empty file
/// of its own over each file.
pub open spec fn hidden_args_of(hidden: Seq<HiddenPathView>, host: HostView) -> Result<
    Seq<Seq<u8>>,
    HaltView,
>
    decreases hidden.len(),
{
    if hidden.len() == 0 {
        Ok(Seq::empty())
    } else {
        let dest = hidden.last().dest;
        let number = files_in(hidden.drop_last());
        match hidden_args_of(hidden.drop_last(), host) {
            Err(halt) => Err(halt),
            Ok(args) => match hidden.last().kind {
                MountKind::Dir => Ok(
                    args + seq![arg("--tmpfs"@), dest, arg("--remount-ro"@), dest],
                ),
                MountKind::File => if !host.hidden_files.dom().contains(number) {
                    Err(HaltView::Ask(QueryView::HiddenFile(number)))
                } else {
                    match host.hidden_files[number] {
                        Ok(file) => Ok(args + seq![arg("--ro-bind"@), file, dest]),
                        Err(source) => Err(
                            HaltView::Fail(ErrorView::Spawn { program: arg("tempfile"@), source }),
                        ),
                    }
                },
            },
        }
    }
}

/// The call of this executable inside the sandbox, in the directory `cwd`.
pub open spec fn helper_args_of(cwd: Seq<u8>) -> Seq<Seq<u8>> {
    seq![arg("--chdir"@), cwd, arg("--"@), helper_path_of(), arg("__helper"@)]
}

/// A path after a flag, for each of the paths.
pub open spec fn flagged_paths_of(flag: Seq<char>, paths: Seq<Seq<u8>>) -> Seq<Seq<u8>> {
    concat_map(paths, |path: Seq<u8>| seq![arg(flag), path])
}

/// A port after a flag, for each of the ports.
pub open spec fn flagged_ports_of(flag: Seq<char>, ports: Seq<u16>) -> Seq<Seq<u8>> {
    concat_map(
        ports,
        |port: u16| seq![arg(flag), arg(crate::text::decimal_of(port as nat))],
    )
}

/// What Landlock is to leave allowed.
pub open spec fn landlock_args_of(plan: LandlockPlanView) -> Seq<Seq<u8>> {
    flagged_paths_of("--landlock-ro"@, plan.ro_paths) + flagged_paths_of(
        "--landlock-rw"@,
        plan.rw_paths,
    ) + flagged_ports_of("--landlock-tcp-connect"@, plan.tcp_connect_ports) + flagged_ports_of(
        "--landlock-tcp-bind"@,
        plan.tcp_bind_ports,
    )
}

/// The arguments up to what hides paths.
pub open spec fn setup_args_of(current_exe: Seq<u8>, policy: PolicyView) -> Seq<Seq<u8>> {
    namespace_args_of(policy.net) + env_args_of(policy.env) + layout_args_of(policy.fs_layout)
        + tmpfs_args_of(policy.tmpfs_mounts) + mount_args_of(
        current_exe,
        helper_path_of(),
        MountKind::File,
        true,
    ) + mounts_args_of(policy.ro_mounts, true) + mounts_args_of(policy.rw_mounts, false)
        + kernel_args_of()
}

/// The arguments behind what hides paths.
pub open spec fn target_args_of(policy: PolicyView) -> Seq<Seq<u8>> {
    helper_args_of(policy.cwd) + landlock_args_of(policy.landlock) + seq![arg("--"@)]
        + policy.command
}

/// All arguments. What hides paths comes behind everything that is mounted.
pub open spec fn bwrap_args_of(current_exe: Seq<u8>, policy: PolicyView, host: HostView) -> Result<
    Seq<Seq<u8>>,
    HaltView,
> {
    match hidden_args_of(policy.hidden_paths, host) {
        Err(halt) => Err(halt),
        Ok(hidden) => Ok(setup_args_of(current_exe, policy) + hidden + target_args_of(policy)),
    }
}

/// Adds an argument that is written out.
fn push_text(args: &mut Vec<ByteString>, text: &str)
    ensures
        final(args).deep_view() == old(args).deep_view().push(arg(text@)),
{
    let ghost before = args.deep_view();
    let string = ByteString::from_text(text);
    args.push(string);
    assert(args.deep_view() =~= before.push(string@));
}

/// Adds a path as an argument.
fn push_path(args: &mut Vec<ByteString>, path: &UnixPath)
    ensures
        final(args).deep_view() == old(args).deep_view().push(path@),
{
    let ghost before = args.deep_view();
    let copy = path.clone();
    let string = ByteString { bytes: copy.bytes };
    args.push(string);
    assert(args.deep_view() =~= before.push(path@));
}

/// Adds a string as an argument.
fn push_string(args: &mut Vec<ByteString>, string: &ByteString)
    ensures
        final(args).deep_view() == old(args).deep_view().push(string@),
{
    let ghost before = args.deep_view();
    let copy = string.clone();
    args.push(copy);
    assert(args.deep_view() =~= before.push(string@));
}

/// Adds a session and namespaces of its own.
fn add_namespaces(args: &mut Vec<ByteString>, net: NetMode)
    ensures
        final(args).deep_view() == old(args).deep_view() + namespace_args_of(net),
{
    push_text(args, "--new-session");
    push_text(args, "--die-with-parent");
    push_text(args, "--unshare-user");
    push_text(args, "--unshare-pid");
    push_text(args, "--unshare-ipc");
    push_text(args, "--unshare-uts");
    if net == NetMode::Off {
        push_text(args, "--unshare-net");
    }
    assert(args.deep_view() =~= old(args).deep_view() + namespace_args_of(net));
}

/// Adds the environment.
fn add_env(args: &mut Vec<ByteString>, env: &EnvPlan)
    ensures
        final(args).deep_view() == old(args).deep_view() + env_args_of(env.deep_view()),
{
    if env.clear {
        push_text(args, "--clearenv");
    }
    let ghost before = args.deep_view();
    let ghost piece = |var: (Seq<char>, Seq<u8>)| seq![arg("--setenv"@), arg(var.0), var.1];
    let ghost vars = env.vars.deep_view();
    let mut i: usize = 0;
    assert(vars.take(0) =~= Seq::empty());
    assert(before + concat_map(vars.take(0), piece) =~= before);
    while i < env.vars.len()
        invariant
            i <= env.vars.len(),
            vars == env.vars.deep_view(),
            piece == (|var: (Seq<char>, Seq<u8>)| seq![arg("--setenv"@), arg(var.0), var.1]),
            args.deep_view() == before + concat_map(vars.take(i as int), piece),
        decreases env.vars.len() - i,
    {
        push_text(args, "--setenv");
        push_text(args, env.vars[i].0.as_str());
        push_string(args, &env.vars[i].1);
        assert(vars.take(i + 1).drop_last() =~= vars.take(i as int));
        assert(vars.take(i + 1).last() == env.vars[i as int].deep_view());
        assert(args.deep_view() =~= before + concat_map(vars.take(i + 1), piece));
        i += 1;
    }
    assert(vars.take(i as int) =~= vars);
    assert(args.deep_view() =~= old(args).deep_view() + env_args_of(env.deep_view()));
}

/// Adds a path after a flag, for each of the paths.
fn add_flagged_paths(args: &mut Vec<ByteString>, flag: &str, paths: &Vec<UnixPath>)
    ensures
        final(args).deep_view() == old(args).deep_view() + flagged_paths_of(
            flag@,
            paths.deep_view(),
        ),
{
    let ghost before = args.deep_view();
    let ghost piece = |path: Seq<u8>| seq![arg(flag@), path];
    let ghost model = paths.deep_view();
    let mut i: usize = 0;
    assert(model.take(0) =~= Seq::empty());
    assert(before + concat_map(model.take(0), piece) =~= before);
    while i < paths.len()
        invariant
            i <= paths.len(),
            model == paths.deep_view(),
            piece == (|path: Seq<u8>| seq![arg(flag@), path]),
            args.deep_view() == before + concat_map(model.take(i as int), piece),
        decreases paths.len() - i,
    {
        push_text(args, flag);
        push_path(args, &paths[i]);
        assert(model.take(i + 1).drop_last() =~= model.take(i as int));
        assert(model.take(i + 1).last() == paths[i as int]@);
        assert(args.deep_view() =~= before + concat_map(model.take(i + 1), piece));
        i += 1;
    }
    assert(model.take(i as int) =~= model);
}

/// Adds a port after a flag, for each of the ports.
fn add_flagged_ports(args: &mut Vec<ByteString>, flag: &str, ports: &Vec<u16>)
    ensures
        final(args).deep_view() == old(args).deep_view() + flagged_ports_of(flag@, ports@),
{
    let ghost before = args.deep_view();
    let ghost piece = |port: u16| seq![arg(flag@), arg(crate::text::decimal_of(port as nat))];
    let mut i: usize = 0;
    assert(ports@.take(0) =~= Seq::empty());
    assert(before + concat_map(ports@.take(0), piece) =~= before);
    while i < ports.len()
        invariant
            i <= ports.len(),
            piece == (|port: u16|
                seq![arg(flag@), arg(crate::text::decimal_of(port as nat))]),
            args.deep_view() == before + concat_map(ports@.take(i as int), piece),
        decreases ports.len() - i,
    {
        push_text(args, flag);
        push_text(args, decimal(ports[i] as u32).as_str());
        assert(ports@.take(i + 1).drop_last() =~= ports@.take(i as int));
        assert(args.deep_view() =~= before + concat_map(ports@.take(i + 1), piece));
        i += 1;
    }
    assert(ports@.take(i as int) =~= ports@);
}

/// Adds what is needed for something to be mounted at `dest`.
fn create_mount_destination(args: &mut Vec<ByteString>, dest: &UnixPath, kind: MountKind)
    ensures
        final(args).deep_view() == old(args).deep_view() + dest_args_of(dest@, kind),
{
    match kind {
        MountKind::Dir => {
            push_text(args, "--dir");
            push_path(args, dest);
        },
        MountKind::File => {
            if let Some(parent) = dest.parent() {
                push_text(args, "--dir");
                push_path(args, &parent);
            }
        },
    }
    assert(args.deep_view() =~= old(args).deep_view() + dest_args_of(dest@, kind));
}

/// Adds one mount.
pub fn add_mount(
    args: &mut Vec<ByteString>,
    src: &UnixPath,
    dest: &UnixPath,
    kind: MountKind,
    readonly: bool,
)
    ensures
        final(args).deep_view() == old(args).deep_view() + mount_args_of(
            src@,
            dest@,
            kind,
            readonly,
        ),
{
    create_mount_destination(args, dest, kind);
    if readonly {
        push_text(args, "--ro-bind");
    } else {
        push_text(args, "--bind");
    }
    push_path(args, src);
    push_path(args, dest);
    assert(args.deep_view() =~= old(args).deep_view() + mount_args_of(
        src@,
        dest@,
        kind,
        readonly,
    ));
}

/// Adds mounts, in their order.
fn add_mounts(args: &mut Vec<ByteString>, mounts: &Vec<Mount>, readonly: bool)
    ensures
        final(args).deep_view() == old(args).deep_view() + mounts_args_of(
            mounts.deep_view(),
            readonly,
        ),
{
    let ghost before = args.deep_view();
    let ghost piece = |mount: MountView|
        mount_args_of(mount.src, mount.dest, mount.kind, readonly);
    let ghost model = mounts.deep_view();
    let mut i: usize = 0;
    assert(model.take(0) =~= Seq::empty());
    assert(before + concat_map(model.take(0), piece) =~= before);
    while i < mounts.len()
        invariant
            i <= mounts.len(),
            model == mounts.deep_view(),
            piece == (|mount: MountView|
                mount_args_of(mount.src, mount.dest, mount.kind, readonly)),
            args.deep_view() == before + concat_map(model.take(i as int), piece),
        decreases mounts.len() - i,
    {
        let mount = &mounts[i];
        add_mount(args, &mount.src, &mount.dest, mount.kind, readonly);
        assert(model.take(i + 1).drop_last() =~= model.take(i as int));
        assert(model.take(i + 1).last() == mount.deep_view());
        assert(args.deep_view() =~= before + concat_map(model.take(i + 1), piece));
        i += 1;
    }
    assert(model.take(i as int) =~= model);
}

proof fn hidden_args_stop(hidden: Seq<HiddenPathView>, at: int, host: HostView)
    requires
        0 <= at <= hidden.len(),
        hidden_args_of(hidden.take(at), host) is Err,
    ensures
        hidden_args_of(hidden, host) == hidden_args_of(hidden.take(at), host),
    decreases hidden.len() - at,
{
    if at < hidden.len() {
        assert(hidden.take(at + 1).drop_last() =~= hidden.take(at));
        hidden_args_stop(hidden, at + 1, host);
    } else {
        assert(hidden.take(at) =~= hidden);
    }
}

proof fn files_are_hidden_paths(hidden: Seq<HiddenPathView>)
    ensures
        files_in(hidden) <= hidden.len(),
    decreases hidden.len(),
{
    if hidden.len() > 0 {
        files_are_hidden_paths(hidden.drop_last());
    }
}

/// The first `count` hidden paths can be covered, and the next one cannot.
pub open spec fn stops_behind(hidden: Seq<HiddenPathView>, count: int, host: HostView) -> bool {
    &&& 0 <= count < hidden.len()
    &&& hidden_args_of(hidden.take(count), host) is Ok
    &&& hidden_args_of(hidden.take(count + 1), host) is Err
}

/// Adds what covers the hidden paths, up to the first that cannot be covered.
pub fn apply_hidden_paths(
    args: &mut Vec<ByteString>,
    hidden_paths: &Vec<HiddenPath>,
    facts: &HostFacts,
) -> (applied: Result<(), Halt>)
    ensures
        match applied {
            Ok(_) => hidden_args_of(hidden_paths.deep_view(), facts@) is Ok
                && final(args).deep_view() == old(args).deep_view() + hidden_args_of(
                hidden_paths.deep_view(),
                facts@,
            )->Ok_0,
            Err(halt) => {
                &&& hidden_args_of(hidden_paths.deep_view(), facts@) == Err::<Seq<Seq<u8>>, _>(
                    halt.deep_view(),
                )
                &&& exists|count: int| #[trigger]
                    stops_behind(hidden_paths.deep_view(), count, facts@)
                        && final(args).deep_view() == old(args).deep_view() + hidden_args_of(
                        hidden_paths.deep_view().take(count),
                        facts@,
                    )->Ok_0
            },
        },
{
    let ghost before = args.deep_view();
    let ghost model = hidden_paths.deep_view();
    let mut created: usize = 0;
    let mut i: usize = 0;
    assert(model.take(0) =~= Seq::empty());
    assert(before + Seq::<Seq<u8>>::empty() =~= before);
    while i < hidden_paths.len()
        invariant
            i <= hidden_paths.len(),
            created <= i,
            before == old(args).deep_view(),
            model == hidden_paths.deep_view(),
            created == files_in(model.take(i as int)),
            hidden_args_of(model.take(i as int), facts@) is Ok,
            args.deep_view() == before + hidden_args_of(model.take(i as int), facts@)->Ok_0,
        decreases hidden_paths.len() - i,
    {
        let hidden = &hidden_paths[i];
        let ghost earlier = hidden_args_of(model.take(i as int), facts@)->Ok_0;
        assert(model.take(i + 1).drop_last() =~= model.take(i as int));
        assert(model.take(i + 1).last() == hidden.deep_view());
        proof {
            files_are_hidden_paths(model.take(i as int));
            if hidden_args_of(model.take(i + 1), facts@) is Err {
                hidden_args_stop(model, i + 1, facts@);
                assert(stops_behind(model, i as int, facts@));
            }
        }
        match hidden.kind {
            MountKind::Dir => {
                push_text(args, "--tmpfs");
                push_path(args, &hidden.dest);
                push_text(args, "--remount-ro");
                push_path(args, &hidden.dest);
            },
            MountKind::File => {
                if created >= facts.hidden_files.len() {
                    return Err(Halt::Ask(Query::HiddenFile(created)));
                }
                match &facts.hidden_files[created] {
                    Ok(file) => {
                        push_text(args, "--ro-bind");
                        push_path(args, file);
                        push_path(args, &hidden.dest);
                        created += 1;
                    },
                    Err(source) => {
                        return Err(
                            Halt::Fail(
                                BoxRunError::Spawn {
                                    program: UnixPath::from_text("tempfile"),
                                    source: copy_texts(source),
                                },
                            ),
                        );
                    },
                }
            },
        }
        assert(args.deep_view() =~= before + hidden_args_of(model.take(i + 1), facts@)->Ok_0);
        i += 1;
    }
    assert(model.take(i as int) =~= model);
    Ok(())
}

/// Adds what Landlock is to leave allowed.
fn add_landlock(args: &mut Vec<ByteString>, plan: &LandlockPlan)
    ensures
        final(args).deep_view() == old(args).deep_view() + landlock_args_of(plan.deep_view()),
{
    add_flagged_paths(args, "--landlock-ro", &plan.ro_paths);
    add_flagged_paths(args, "--landlock-rw", &plan.rw_paths);
    add_flagged_ports(args, "--landlock-tcp-connect", &plan.tcp_connect_ports);
    add_flagged_ports(args, "--landlock-tcp-bind", &plan.tcp_bind_ports);
    assert(args.deep_view() =~= old(args).deep_view() + landlock_args_of(plan.deep_view()));
}

/// How lists are grouped when they are put together makes no difference.
pub proof fn regroup<A>(a: Seq<A>, b: Seq<A>, c: Seq<A>)
    ensures
        a + b + c == a + (b + c),
{
    assert(a + b + c =~= a + (b + c));
}

/// Adds the file systems of the kernel.
fn add_kernel(args: &mut Vec<ByteString>)
    ensures
        final(args).deep_view() == old(args).deep_view() + kernel_args_of(),
{
    push_text(args, "--proc");
    push_text(args, "/proc");
    push_text(args, "--dev");
    push_text(args, "/dev");
    assert(args.deep_view() =~= old(args).deep_view() + kernel_args_of());
}

/// Adds the host's files, where the layout shows them.
fn add_layout(args: &mut Vec<ByteString>, fs_layout: FsLayout)
    ensures
        final(args).deep_view() == old(args).deep_view() + layout_args_of(fs_layout),
{
    if fs_layout == FsLayout::HostRo {
        push_text(args, "--ro-bind");
        push_text(args, "/");
        push_text(args, "/");
    }
    assert(args.deep_view() =~= old(args).deep_view() + layout_args_of(fs_layout));
}

/// Adds the arguments up to what hides paths.
fn add_setup(args: &mut Vec<ByteString>, current_exe: &UnixPath, policy: &Policy)
    ensures
        final(args).deep_view() == old(args).deep_view() + setup_args_of(
            current_exe@,
            policy.deep_view(),
        ),
{
    let helper = UnixPath::from_text("/tmp/box-run-helper");
    add_namespaces(args, policy.net);
    add_env(args, &policy.env);
    add_layout(args, policy.fs_layout);
    add_flagged_paths(args, "--tmpfs", &policy.tmpfs_mounts);
    add_mount(args, current_exe, &helper, MountKind::File, true);
    add_mounts(args, &policy.ro_mounts, true);
    add_mounts(args, &policy.rw_mounts, false);
    add_kernel(args);
    proof {
        let start = old(args).deep_view();
        let a1 = namespace_args_of(policy.net);
        let a2 = env_args_of(policy.env.deep_view());
        let a3 = layout_args_of(policy.fs_layout);
        let a4 = tmpfs_args_of(policy.tmpfs_mounts.deep_view());
        let a5 = mount_args_of(current_exe@, helper@, MountKind::File, true);
        let a6 = mounts_args_of(policy.ro_mounts.deep_view(), true);
        let a7 = mounts_args_of(policy.rw_mounts.deep_view(), false);
        regroup(start, a1, a2);
        regroup(start, a1 + a2, a3);
        regroup(start, a1 + a2 + a3, a4);
        regroup(start, a1 + a2 + a3 + a4, a5);
        regroup(start, a1 + a2 + a3 + a4 + a5, a6);
        regroup(start, a1 + a2 + a3 + a4 + a5 + a6, a7);
        regroup(start, a1 + a2 + a3 + a4 + a5 + a6 + a7, kernel_args_of());
    }
}

/// Adds the arguments behind what hides paths.
fn add_target(args: &mut Vec<ByteString>, policy: &Policy)
    ensures
        final(args).deep_view() == old(args).deep_view() + target_args_of(policy.deep_view()),
{
    let ghost start = args.deep_view();
    push_text(args, "--chdir");
    push_path(args, &policy.cwd);
    push_text(args, "--");
    push_text(args, "/tmp/box-run-helper");
    push_text(args, "__helper");
    assert(args.deep_view() =~= start + helper_args_of(policy.cwd@));
    add_landlock(args, &policy.landlock);
    push_text(args, "--");
    let ghost head = args.deep_view();
    let mut command = copy_strings(&policy.command);
    let ghost tail = command.deep_view();
    args.append(&mut command);
    assert(args.deep_view() =~= head + tail);
    proof {
        let helper = helper_args_of(policy.cwd@);
        let landlock = landlock_args_of(policy.landlock.deep_view());
        let end = seq![arg("--"@)];
        assert(head =~= start + helper + landlock + end);
        regroup(start, helper, landlock);
        regroup(start, helper + landlock, end);
        regroup(start, helper + landlock + end, tail);
    }
}

/// The arguments with which `bwrap` sets up the sandbox.
pub fn build_bwrap_command(current_exe: &UnixPath, policy: &Policy, facts: &HostFacts) -> (args:
    Result<Vec<ByteString>, Halt>)
    ensures
        crate::host::outcome(args) == bwrap_args_of(current_exe@, policy.deep_view(), facts@),
{
    let mut args: Vec<ByteString> = Vec::new();
    assert(args.deep_view() =~= Seq::empty());
    add_setup(&mut args, current_exe, policy);
    assert(args.deep_view() =~= setup_args_of(current_exe@, policy.deep_view()));
    apply_hidden_paths(&mut args, &policy.hidden_paths, facts)?;
    add_target(&mut args, policy);
    Ok(args)
}

} // verus!

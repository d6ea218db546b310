//! The policy of a sandbox: what a command line, a configuration file and the host make of it.
use vstd::prelude::*;

use crate::byte_string::ByteString;
use crate::cli::{FsLayout, NetMode, RunArgs, RunArgsView, StdinMode, TtyMode};
use crate::config::SandboxConfig;
use crate::copies::copy_texts;
pub use crate::env_plan::format_env_arg;
use crate::env_plan::resolve_env_plan;
use crate::error::{BoxRunError, ErrorView};
use crate::host::{Halt, HaltView, HostFacts, HostView, Query, QueryView};
use crate::landlock_plan::build_landlock_plan;
use crate::mounts::{canonicalize_host_path, mount_from_paths, normalize_tmpfs_mounts};
use crate::mounts::{parse_mounts, require_absolute_sandbox_path, resolve_hidden_paths};
use crate::placed::{is_occupied, sorted_stable, Placed};
use crate::policy_input::{PolicyInput, PolicyInputView};
use crate::unix_path::UnixPath;

verus! {

/// A sandbox, in full.
#[derive(Clone, Debug, PartialEq, Eq)]
pub struct Policy {
    pub fs_layout: FsLayout,
    pub ro_mounts: Vec<Mount>,
    pub rw_mounts: Vec<Mount>,
    pub tmpfs_mounts: Vec<UnixPath>,
    pub hidden_paths: Vec<HiddenPath>,
    pub landlock: LandlockPlan,
    pub cwd: UnixPath,
    pub net: NetMode,
    pub stdin: StdinMode,
    pub tty: TtyMode,
    pub env: EnvPlan,
    pub command: Vec<ByteString>,
    pub best_effort: bool,
}

/// A path of the host that is seen inside the sandbox.
#[derive(Clone, Debug, PartialEq, Eq)]
pub struct Mount {
    /// The path on the host.
    pub src: UnixPath,
    /// The path inside the sandbox.
    pub dest: UnixPath,
    pub kind: MountKind,
}

#[derive(Clone, Copy, Debug, PartialEq, Eq, Structural)]
pub enum MountKind {
    File,
    Dir,
}

/// A path inside the sandbox that is covered by something empty.
#[derive(Clone, Debug, PartialEq, Eq)]
pub struct HiddenPath {
    pub dest: UnixPath,
    pub kind: MountKind,
}

/// The environment of the command.
#[derive(Clone, Debug, PartialEq, Eq)]
pub struct EnvPlan {
    /// Whether the environment of this process is left out.
    pub clear: bool,
    /// The variables that are set, in the order of their names.
    pub vars: Vec<(String, ByteString)>,
}

/// What Landlock is to leave allowed. An empty list of paths or ports leaves everything of its
/// kind allowed.
#[derive(Clone, Debug, PartialEq, Eq)]
pub struct LandlockPlan {
    pub ro_paths: Vec<UnixPath>,
    pub rw_paths: Vec<UnixPath>,
    pub tcp_connect_ports: Vec<u16>,
    pub tcp_bind_ports: Vec<u16>,
}

/// The model of [`Mount`].
pub struct MountView {
    pub src: Seq<u8>,
    pub dest: Seq<u8>,
    pub kind: MountKind,
}

impl DeepView for Mount {
    type V = MountView;

    open spec fn deep_view(&self) -> MountView {
        MountView { src: self.src.deep_view(), dest: self.dest.deep_view(), kind: self.kind }
    }
}

impl Placed for Mount {
    open spec fn place_of(model: MountView) -> Seq<u8> {
        model.dest
    }

    fn place(&self) -> (path: &UnixPath) {
        &self.dest
    }
}

/// The model of [`HiddenPath`].
pub struct HiddenPathView {
    pub dest: Seq<u8>,
    pub kind: MountKind,
}

impl DeepView for HiddenPath {
    type V = HiddenPathView;

    open spec fn deep_view(&self) -> HiddenPathView {
        HiddenPathView { dest: self.dest.deep_view(), kind: self.kind }
    }
}

impl Placed for HiddenPath {
    open spec fn place_of(model: HiddenPathView) -> Seq<u8> {
        model.dest
    }

    fn place(&self) -> (path: &UnixPath) {
        &self.dest
    }
}

/// The model of [`EnvPlan`].
pub struct EnvPlanView {
    pub clear: bool,
    pub vars: Seq<(Seq<char>, Seq<u8>)>,
}

impl DeepView for EnvPlan {
    type V = EnvPlanView;

    open spec fn deep_view(&self) -> EnvPlanView {
        EnvPlanView { clear: self.clear, vars: self.vars.deep_view() }
    }
}

/// The model of [`LandlockPlan`].
pub struct LandlockPlanView {
    pub ro_paths: Seq<Seq<u8>>,
    pub rw_paths: Seq<Seq<u8>>,
    pub tcp_connect_ports: Seq<u16>,
    pub tcp_bind_ports: Seq<u16>,
}

impl DeepView for LandlockPlan {
    type V = LandlockPlanView;

    open spec fn deep_view(&self) -> LandlockPlanView {
        LandlockPlanView {
            ro_paths: self.ro_paths.deep_view(),
            rw_paths: self.rw_paths.deep_view(),
            tcp_connect_ports: self.tcp_connect_ports@,
            tcp_bind_ports: self.tcp_bind_ports@,
        }
    }
}

impl LandlockPlanView {
    /// The plan restricts nothing.
    pub open spec fn is_empty(self) -> bool {
        !self.has_fs_rules() && !self.has_tcp_rules()
    }

    /// The plan restricts TCP ports.
    pub open spec fn has_tcp_rules(self) -> bool {
        self.tcp_connect_ports.len() > 0 || self.tcp_bind_ports.len() > 0
    }

    /// The plan restricts the file system.
    pub open spec fn has_fs_rules(self) -> bool {
        self.ro_paths.len() > 0 || self.rw_paths.len() > 0
    }
}

impl LandlockPlan {
    /// Whether the plan restricts nothing.
    pub fn is_empty(&self) -> (empty: bool)
        ensures
            empty == self.deep_view().is_empty(),
    {
        self.ro_paths.is_empty() && self.rw_paths.is_empty() && self.tcp_connect_ports.is_empty()
            && self.tcp_bind_ports.is_empty()
    }

    /// Whether the plan restricts TCP ports.
    pub fn has_tcp_rules(&self) -> (restricted: bool)
        ensures
            restricted == self.deep_view().has_tcp_rules(),
    {
        !self.tcp_connect_ports.is_empty() || !self.tcp_bind_ports.is_empty()
    }

    /// Whether the plan restricts the file system.
    pub fn has_fs_rules(&self) -> (restricted: bool)
        ensures
            restricted == self.deep_view().has_fs_rules(),
    {
        !self.ro_paths.is_empty() || !self.rw_paths.is_empty()
    }
}

/// The model of [`Policy`].
pub struct PolicyView {
    pub fs_layout: FsLayout,
    pub ro_mounts: Seq<MountView>,
    pub rw_mounts: Seq<MountView>,
    pub tmpfs_mounts: Seq<Seq<u8>>,
    pub hidden_paths: Seq<HiddenPathView>,
    pub landlock: LandlockPlanView,
    pub cwd: Seq<u8>,
    pub net: NetMode,
    pub stdin: StdinMode,
    pub tty: TtyMode,
    pub env: EnvPlanView,
    pub command: Seq<Seq<u8>>,
    pub best_effort: bool,
}

impl DeepView for Policy {
    type V = PolicyView;

    open spec fn deep_view(&self) -> PolicyView {
        PolicyView {
            fs_layout: self.fs_layout,
            ro_mounts: self.ro_mounts.deep_view(),
            rw_mounts: self.rw_mounts.deep_view(),
            tmpfs_mounts: self.tmpfs_mounts.deep_view(),
            hidden_paths: self.hidden_paths.deep_view(),
            landlock: self.landlock.deep_view(),
            cwd: self.cwd.deep_view(),
            net: self.net,
            stdin: self.stdin,
            tty: self.tty,
            env: self.env.deep_view(),
            command: self.command.deep_view(),
            best_effort: self.best_effort,
        }
    }
}

/// The current working directory, resolved.
pub open spec fn host_cwd_of(host: HostView) -> Result<Seq<u8>, HaltView> {
    match host.current_dir {
        None => Err(HaltView::Ask(QueryView::CurrentDir)),
        Some(Err(source)) => Err(HaltView::Fail(ErrorView::CurrentDir(source))),
        Some(Ok(dir)) => crate::mounts::canonical_of(dir, dir, host),
    }
}

/// The mounts that are writable: those that are asked for and, unless one of them stands there,
/// the current working directory at its own path.
pub open spec fn writable_mounts_of(
    specs: Seq<Seq<char>>,
    host_cwd: Seq<u8>,
    host: HostView,
) -> Result<Seq<MountView>, HaltView> {
    match crate::mounts::mounts_of(specs, host_cwd, host) {
        Err(halt) => Err(halt),
        Ok(mounts) => if crate::placed::occupied::<Mount>(mounts, host_cwd) {
            Ok(mounts)
        } else {
            match crate::mounts::mount_at(host_cwd, host_cwd, host) {
                Err(halt) => Err(halt),
                Ok(mount) => Ok(mounts.push(mount)),
            }
        },
    }
}

/// The directory in which the command starts.
pub open spec fn sandbox_cwd_of(cwd: Option<Seq<u8>>, host_cwd: Seq<u8>) -> Result<
    Seq<u8>,
    ErrorView,
> {
    match cwd {
        Some(cwd) => crate::mounts::sandbox_path_of(cwd),
        None => Ok(host_cwd),
    }
}

/// The sandbox that is asked for, once its mounts are known.
pub open spec fn mounted_policy_of(
    input: PolicyInputView,
    host_cwd: Seq<u8>,
    ro_mounts: Seq<MountView>,
    rw_mounts: Seq<MountView>,
    host: HostView,
) -> Result<PolicyView, HaltView> {
    match sandbox_cwd_of(input.cwd, host_cwd) {
        Err(error) => Err(HaltView::Fail(error)),
        Ok(cwd) => match crate::mounts::tmpfs_mounts_of(input.tmpfs) {
            Err(error) => Err(HaltView::Fail(error)),
            Ok(tmpfs_mounts) => match crate::mounts::hidden_paths_of(
                input.hide,
                ro_mounts + rw_mounts,
                host_cwd,
                host,
            ) {
                Err(halt) => Err(halt),
                Ok(hidden_paths) => match crate::env_plan::env_plan_of(
                    input.env_clear,
                    input.env_pass,
                    input.env_set,
                    host,
                ) {
                    Err(halt) => Err(halt),
                    Ok(env) => Ok(
                        PolicyView {
                            fs_layout: input.fs_layout,
                            ro_mounts,
                            rw_mounts,
                            tmpfs_mounts,
                            hidden_paths,
                            landlock: crate::landlock_plan::landlock_plan_of(
                                input.fs_layout,
                                ro_mounts,
                                rw_mounts,
                                tmpfs_mounts,
                                input.allow_tcp_connect,
                                input.allow_tcp_bind,
                            ),
                            cwd,
                            net: input.net,
                            stdin: input.stdin,
                            tty: input.tty,
                            env,
                            command: input.command,
                            best_effort: input.best_effort,
                        },
                    ),
                },
            },
        },
    }
}

/// The sandbox that is asked for.
pub open spec fn resolved_policy_of(input: PolicyInputView, host: HostView) -> Result<
    PolicyView,
    HaltView,
> {
    match host_cwd_of(host) {
        Err(halt) => Err(halt),
        Ok(host_cwd) => match crate::mounts::mounts_of(input.ro, host_cwd, host) {
            Err(halt) => Err(halt),
            Ok(ro_mounts) => match writable_mounts_of(input.rw, host_cwd, host) {
                Err(halt) => Err(halt),
                Ok(rw_mounts) => mounted_policy_of(
                    input,
                    host_cwd,
                    crate::placed::sort_stable::<Mount>(ro_mounts),
                    crate::placed::sort_stable::<Mount>(rw_mounts),
                    host,
                ),
            },
        },
    }
}

/// The sandbox that a command line asks for.
pub open spec fn policy_of(args: RunArgsView, host: HostView) -> Result<PolicyView, HaltView> {
    match crate::config::config_of(args.config, host) {
        Err(halt) => Err(halt),
        Ok(config) => match crate::policy_input::policy_input_of(config, args) {
            Err(error) => Err(HaltView::Fail(error)),
            Ok(input) => resolved_policy_of(input, host),
        },
    }
}

/// The current working directory, resolved.
pub fn host_cwd(facts: &HostFacts) -> (cwd: Result<UnixPath, Halt>)
    ensures
        crate::host::outcome(cwd) == host_cwd_of(facts@),
{
    match &facts.current_dir {
        None => Err(Halt::Ask(Query::CurrentDir)),
        Some(Err(source)) => Err(Halt::Fail(BoxRunError::CurrentDir(copy_texts(source)))),
        Some(Ok(dir)) => canonicalize_host_path(dir, dir, facts),
    }
}

/// The mounts that are writable.
pub fn writable_mounts(specs: &Vec<String>, host_cwd: &UnixPath, facts: &HostFacts) -> (mounts:
    Result<Vec<Mount>, Halt>)
    ensures
        crate::host::outcome(mounts) == writable_mounts_of(specs.deep_view(), host_cwd@, facts@),
{
    let mut mounts = parse_mounts(specs, host_cwd, facts)?;
    if !is_occupied(&mounts, host_cwd) {
        let mount = mount_from_paths(host_cwd.clone(), host_cwd.clone(), facts)?;
        let ghost before = mounts.deep_view();
        mounts.push(mount);
        assert(mounts.deep_view() =~= before.push(mount.deep_view()));
    }
    Ok(mounts)
}

impl Policy {
    /// The sandbox that a command line asks for.
    pub fn from_args(args: &RunArgs, facts: &HostFacts) -> (policy: Result<Policy, Halt>)
        ensures
            crate::host::outcome(policy) == policy_of(args.deep_view(), facts@),
    {
        match &args.config {
            Some(path) => {
                let config = SandboxConfig::load(path, facts)?;
                Policy::from_sources(config, args, facts)
            },
            None => Policy::from_sources(&SandboxConfig::default(), args, facts),
        }
    }

    /// The sandbox that a configuration file and a command line ask for.
    pub fn from_sources(config: &SandboxConfig, args: &RunArgs, facts: &HostFacts) -> (policy:
        Result<Policy, Halt>)
        ensures
            crate::host::outcome(policy) == match crate::policy_input::policy_input_of(
                config.deep_view(),
                args.deep_view(),
            ) {
                Err(error) => Err(HaltView::Fail(error)),
                Ok(input) => resolved_policy_of(input, facts@),
            },
    {
        match PolicyInput::from_sources(config, args) {
            Ok(input) => Policy::from_input(input, facts),
            Err(error) => Err(Halt::Fail(error)),
        }
    }

    /// The sandbox that is asked for.
    pub fn from_input(input: PolicyInput, facts: &HostFacts) -> (policy: Result<Policy, Halt>)
        ensures
            crate::host::outcome(policy) == resolved_policy_of(input.deep_view(), facts@),
    {
        let host_cwd = host_cwd(facts)?;
        let ro_mounts = parse_mounts(&input.ro, &host_cwd, facts)?;
        let rw_mounts = writable_mounts(&input.rw, &host_cwd, facts)?;
        let ro_mounts = sorted_stable(ro_mounts);
        let rw_mounts = sorted_stable(rw_mounts);

        let cwd = match &input.cwd {
            Some(cwd) => match require_absolute_sandbox_path(cwd.clone()) {
                Ok(cwd) => cwd,
                Err(error) => return Err(Halt::Fail(error)),
            },
            None => host_cwd.clone(),
        };
        let tmpfs_mounts = match normalize_tmpfs_mounts(&input.tmpfs) {
            Ok(mounts) => mounts,
            Err(error) => return Err(Halt::Fail(error)),
        };
        let hidden_paths = resolve_hidden_paths(
            &input.hide,
            &ro_mounts,
            &rw_mounts,
            &host_cwd,
            facts,
        )?;
        let landlock = build_landlock_plan(
            input.fs_layout,
            &ro_mounts,
            &rw_mounts,
            &tmpfs_mounts,
            &input.allow_tcp_connect,
            &input.allow_tcp_bind,
        );
        let env = resolve_env_plan(input.env_clear, &input.env_pass, &input.env_set, facts)?;
        Ok(
            Policy {
                fs_layout: input.fs_layout,
                ro_mounts,
                rw_mounts,
                tmpfs_mounts,
                hidden_paths,
                landlock,
                cwd,
                net: input.net,
                stdin: input.stdin,
                tty: input.tty,
                env,
                command: input.command,
                best_effort: input.best_effort,
            },
        )
    }
}

} // verus!

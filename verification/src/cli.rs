//! What is asked for on the command line.
use vstd::prelude::*;

use crate::byte_string::ByteString;
use crate::unix_path::UnixPath;

verus! {

/// A command line.
#[derive(Debug)]
pub struct Cli {
    /// How often more detailed logging was asked for.
    pub verbose: u8,
    pub command: Commands,
}

/// What to do.
#[derive(Debug)]
pub enum Commands {
    /// Run a command inside a sandbox.
    Run(RunArgs),
    /// Tell what the backend can do here.
    Doctor,
    /// Harden this process, which is inside the sandbox, and turn it into the command.
    Helper(HelperArgs),
}

/// What the sandbox shows of the host's files.
#[derive(Clone, Copy, Debug, PartialEq, Eq, Structural)]
pub enum FsLayout {
    /// All of them, read-only.
    HostRo,
    /// Those that are mounted explicitly.
    Strict,
}

/// What the sandbox sees of the network.
#[derive(Clone, Copy, Debug, PartialEq, Eq, Structural)]
pub enum NetMode {
    /// Nothing.
    Off,
    /// The host's network.
    Host,
}

/// Where the standard input of the command comes from.
#[derive(Clone, Copy, Debug, PartialEq, Eq, Structural)]
pub enum StdinMode {
    /// From this process.
    Inherit,
    /// From nowhere.
    Null,
}

/// Whether the command is attached to the terminal.
#[derive(Clone, Copy, Debug, PartialEq, Eq, Structural)]
pub enum TtyMode {
    /// When this process is.
    Auto,
    /// It has to be.
    Force,
    /// It must not be.
    Disable,
}

/// What a sandbox was asked to be like. `None` and empty lists are what was left out.
#[derive(Debug)]
pub struct RunArgs {
    pub config: Option<UnixPath>,
    pub fs_layout: Option<FsLayout>,
    pub ro: Vec<String>,
    pub rw: Vec<String>,
    pub tmpfs: Vec<UnixPath>,
    pub hide: Vec<UnixPath>,
    pub net: Option<NetMode>,
    pub env: Vec<String>,
    pub env_pass: Vec<String>,
    pub env_clear: Option<bool>,
    pub inherit_env: Option<bool>,
    pub cwd: Option<UnixPath>,
    pub stdin: Option<StdinMode>,
    pub tty: Option<TtyMode>,
    pub allow_tcp_connect: Vec<u16>,
    pub allow_tcp_bind: Vec<u16>,
    pub best_effort: Option<bool>,
    pub command: Vec<ByteString>,
}

/// The model of [`RunArgs`].
pub struct RunArgsView {
    pub config: Option<Seq<u8>>,
    pub fs_layout: Option<FsLayout>,
    pub ro: Seq<Seq<char>>,
    pub rw: Seq<Seq<char>>,
    pub tmpfs: Seq<Seq<u8>>,
    pub hide: Seq<Seq<u8>>,
    pub net: Option<NetMode>,
    pub env: Seq<Seq<char>>,
    pub env_pass: Seq<Seq<char>>,
    pub env_clear: Option<bool>,
    pub inherit_env: Option<bool>,
    pub cwd: Option<Seq<u8>>,
    pub stdin: Option<StdinMode>,
    pub tty: Option<TtyMode>,
    pub allow_tcp_connect: Seq<u16>,
    pub allow_tcp_bind: Seq<u16>,
    pub best_effort: Option<bool>,
    pub command: Seq<Seq<u8>>,
}

impl DeepView for RunArgs {
    type V = RunArgsView;

    open spec fn deep_view(&self) -> RunArgsView {
        RunArgsView {
            config: self.config.deep_view(),
            fs_layout: self.fs_layout,
            ro: self.ro.deep_view(),
            rw: self.rw.deep_view(),
            tmpfs: self.tmpfs.deep_view(),
            hide: self.hide.deep_view(),
            net: self.net,
            env: self.env.deep_view(),
            env_pass: self.env_pass.deep_view(),
            env_clear: self.env_clear,
            inherit_env: self.inherit_env,
            cwd: self.cwd.deep_view(),
            stdin: self.stdin,
            tty: self.tty,
            allow_tcp_connect: self.allow_tcp_connect@,
            allow_tcp_bind: self.allow_tcp_bind@,
            best_effort: self.best_effort,
            command: self.command.deep_view(),
        }
    }
}

/// What the process inside the sandbox was asked to do.
#[derive(Debug)]
pub struct HelperArgs {
    pub landlock_ro: Vec<UnixPath>,
    pub landlock_rw: Vec<UnixPath>,
    pub landlock_tcp_connect: Vec<u16>,
    pub landlock_tcp_bind: Vec<u16>,
    pub command: Vec<ByteString>,
}

/// The model of [`HelperArgs`].
pub struct HelperArgsView {
    pub landlock_ro: Seq<Seq<u8>>,
    pub landlock_rw: Seq<Seq<u8>>,
    pub landlock_tcp_connect: Seq<u16>,
    pub landlock_tcp_bind: Seq<u16>,
    pub command: Seq<Seq<u8>>,
}

impl DeepView for HelperArgs {
    type V = HelperArgsView;

    open spec fn deep_view(&self) -> HelperArgsView {
        HelperArgsView {
            landlock_ro: self.landlock_ro.deep_view(),
            landlock_rw: self.landlock_rw.deep_view(),
            landlock_tcp_connect: self.landlock_tcp_connect@,
            landlock_tcp_bind: self.landlock_tcp_bind@,
            command: self.command.deep_view(),
        }
    }
}

/// The model of [`Commands`].
pub enum CommandsView {
    Run(RunArgsView),
    Doctor,
    Helper(HelperArgsView),
}

impl DeepView for Commands {
    type V = CommandsView;

    open spec fn deep_view(&self) -> CommandsView {
        match self {
            Commands::Run(args) => CommandsView::Run(args.deep_view()),
            Commands::Doctor => CommandsView::Doctor,
            Commands::Helper(args) => CommandsView::Helper(args.deep_view()),
        }
    }
}

/// The least severe events that are logged.
#[derive(Clone, Copy, Debug, PartialEq, Eq, Structural)]
pub enum LogLevel {
    Warn,
    Info,
    Debug,
    Trace,
}

impl Cli {
    /// What is logged: warnings, and one level more each time that more was asked for.
    pub fn log_level(&self) -> (level: LogLevel)
        ensures
            level == match self.verbose {
                0 => LogLevel::Warn,
                1 => LogLevel::Info,
                2 => LogLevel::Debug,
                _ => LogLevel::Trace,
            },
    {
        match self.verbose {
            0 => LogLevel::Warn,
            1 => LogLevel::Info,
            2 => LogLevel::Debug,
            _ => LogLevel::Trace,
        }
    }
}

} // verus!

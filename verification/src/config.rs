//! What a configuration file says.
use vstd::prelude::*;

use crate::copies::copy_texts;
use crate::error::{BoxRunError, ErrorView};
use crate::host::{find_path, ConfigAnswer, ConfigAnswerView, Halt, HaltView};
use crate::host::{HostFacts, HostView, Query, QueryView};
use crate::cli::{FsLayout, NetMode, StdinMode, TtyMode};
use crate::unix_path::UnixPath;

verus! {

/// A configuration file. `None` and empty lists are what it leaves out.
#[derive(Clone, Debug, PartialEq, Eq)]
pub struct SandboxConfig {
    pub fs: FsConfig,
    pub net: NetConfig,
    pub env: EnvConfig,
    pub process: ProcessConfig,
    pub command: Vec<String>,
    pub best_effort: Option<bool>,
}

#[derive(Clone, Debug, PartialEq, Eq)]
pub struct FsConfig {
    pub layout: Option<FsLayout>,
    pub ro: Vec<String>,
    pub rw: Vec<String>,
    pub tmpfs: Vec<UnixPath>,
    pub hide: Vec<UnixPath>,
}

#[derive(Clone, Debug, PartialEq, Eq)]
pub struct NetConfig {
    pub mode: Option<NetMode>,
    pub allow_tcp_connect: Vec<u16>,
    pub allow_tcp_bind: Vec<u16>,
}

#[derive(Clone, Debug, PartialEq, Eq)]
pub struct EnvConfig {
    pub clear: Option<bool>,
    pub pass: Vec<String>,
    /// Names and values. Where a name is there twice, the later value holds.
    pub set: Vec<(String, String)>,
}

#[derive(Clone, Debug, PartialEq, Eq)]
pub struct ProcessConfig {
    pub cwd: Option<UnixPath>,
    pub stdin: Option<StdinMode>,
    pub tty: Option<TtyMode>,
}

/// The model of [`SandboxConfig`].
pub struct SandboxConfigView {
    pub fs: FsConfigView,
    pub net: NetConfigView,
    pub env: EnvConfigView,
    pub process: ProcessConfigView,
    pub command: Seq<Seq<char>>,
    pub best_effort: Option<bool>,
}

/// The model of [`FsConfig`].
pub struct FsConfigView {
    pub layout: Option<FsLayout>,
    pub ro: Seq<Seq<char>>,
    pub rw: Seq<Seq<char>>,
    pub tmpfs: Seq<Seq<u8>>,
    pub hide: Seq<Seq<u8>>,
}

/// The model of [`NetConfig`].
pub struct NetConfigView {
    pub mode: Option<NetMode>,
    pub allow_tcp_connect: Seq<u16>,
    pub allow_tcp_bind: Seq<u16>,
}

/// The model of [`EnvConfig`].
pub struct EnvConfigView {
    pub clear: Option<bool>,
    pub pass: Seq<Seq<char>>,
    pub set: Seq<(Seq<char>, Seq<char>)>,
}

/// The model of [`ProcessConfig`].
pub struct ProcessConfigView {
    pub cwd: Option<Seq<u8>>,
    pub stdin: Option<StdinMode>,
    pub tty: Option<TtyMode>,
}

impl DeepView for FsConfig {
    type V = FsConfigView;

    open spec fn deep_view(&self) -> FsConfigView {
        FsConfigView {
            layout: self.layout,
            ro: self.ro.deep_view(),
            rw: self.rw.deep_view(),
            tmpfs: self.tmpfs.deep_view(),
            hide: self.hide.deep_view(),
        }
    }
}

impl DeepView for NetConfig {
    type V = NetConfigView;

    open spec fn deep_view(&self) -> NetConfigView {
        NetConfigView {
            mode: self.mode,
            allow_tcp_connect: self.allow_tcp_connect@,
            allow_tcp_bind: self.allow_tcp_bind@,
        }
    }
}

impl DeepView for EnvConfig {
    type V = EnvConfigView;

    open spec fn deep_view(&self) -> EnvConfigView {
        EnvConfigView {
            clear: self.clear,
            pass: self.pass.deep_view(),
            set: self.set.deep_view(),
        }
    }
}

impl DeepView for ProcessConfig {
    type V = ProcessConfigView;

    open spec fn deep_view(&self) -> ProcessConfigView {
        ProcessConfigView { cwd: self.cwd.deep_view(), stdin: self.stdin, tty: self.tty }
    }
}

impl DeepView for SandboxConfig {
    type V = SandboxConfigView;

    open spec fn deep_view(&self) -> SandboxConfigView {
        SandboxConfigView {
            fs: self.fs.deep_view(),
            net: self.net.deep_view(),
            env: self.env.deep_view(),
            process: self.process.deep_view(),
            command: self.command.deep_view(),
            best_effort: self.best_effort,
        }
    }
}

/// A configuration file that says nothing.
pub open spec fn silent_config() -> SandboxConfigView {
    SandboxConfigView {
        fs: FsConfigView {
            layout: None,
            ro: Seq::empty(),
            rw: Seq::empty(),
            tmpfs: Seq::empty(),
            hide: Seq::empty(),
        },
        net: NetConfigView {
            mode: None,
            allow_tcp_connect: Seq::empty(),
            allow_tcp_bind: Seq::empty(),
        },
        env: EnvConfigView { clear: None, pass: Seq::empty(), set: Seq::empty() },
        process: ProcessConfigView { cwd: None, stdin: None, tty: None },
        command: Seq::empty(),
        best_effort: None,
    }
}

impl Default for FsConfig {
    fn default() -> (config: FsConfig)
        ensures
            config.deep_view() == silent_config().fs,
    {
        let config = FsConfig {
            layout: None,
            ro: Vec::new(),
            rw: Vec::new(),
            tmpfs: Vec::new(),
            hide: Vec::new(),
        };
        assert(config.ro.deep_view() =~= Seq::empty());
        assert(config.rw.deep_view() =~= Seq::empty());
        assert(config.tmpfs.deep_view() =~= Seq::empty());
        assert(config.hide.deep_view() =~= Seq::empty());
        config
    }
}

impl Default for NetConfig {
    fn default() -> (config: NetConfig)
        ensures
            config.deep_view() == silent_config().net,
    {
        NetConfig { mode: None, allow_tcp_connect: Vec::new(), allow_tcp_bind: Vec::new() }
    }
}

impl Default for EnvConfig {
    fn default() -> (config: EnvConfig)
        ensures
            config.deep_view() == silent_config().env,
    {
        let config = EnvConfig { clear: None, pass: Vec::new(), set: Vec::new() };
        assert(config.pass.deep_view() =~= Seq::empty());
        assert(config.set.deep_view() =~= Seq::empty());
        config
    }
}

impl Default for ProcessConfig {
    fn default() -> (config: ProcessConfig)
        ensures
            config.deep_view() == silent_config().process,
    {
        ProcessConfig { cwd: None, stdin: None, tty: None }
    }
}

impl Default for SandboxConfig {
    fn default() -> (config: SandboxConfig)
        ensures
            config.deep_view() == silent_config(),
    {
        let config = SandboxConfig {
            fs: FsConfig::default(),
            net: NetConfig::default(),
            env: EnvConfig::default(),
            process: ProcessConfig::default(),
            command: Vec::new(),
            best_effort: None,
        };
        assert(config.command.deep_view() =~= Seq::empty());
        config
    }
}

/// What the configuration file says, if there is one.
pub open spec fn config_of(path: Option<Seq<u8>>, host: HostView) -> Result<
    SandboxConfigView,
    HaltView,
> {
    match path {
        None => Ok(crate::config::silent_config()),
        Some(path) => if !host.configs.dom().contains(path) {
            Err(HaltView::Ask(QueryView::LoadConfig(path)))
        } else {
            match host.configs[path] {
                ConfigAnswerView::Parsed(config) => Ok(config),
                ConfigAnswerView::Unreadable(source) => Err(
                    HaltView::Fail(ErrorView::ConfigRead { path, source }),
                ),
                ConfigAnswerView::Malformed(source) => Err(
                    HaltView::Fail(ErrorView::ConfigParse { path, source }),
                ),
            }
        },
    }
}

impl SandboxConfig {
    /// What is known of a configuration file.
    pub fn load<'a>(path: &UnixPath, facts: &'a HostFacts) -> (config: Result<
        &'a SandboxConfig,
        Halt,
    >)
        ensures
            crate::host::outcome(config) == config_of(Some(path@), facts@),
    {
        match find_path(&facts.configs, path) {
            None => Err(Halt::Ask(Query::LoadConfig(path.clone()))),
            Some(ConfigAnswer::Parsed(config)) => Ok(config),
            Some(ConfigAnswer::Unreadable(source)) => Err(
                Halt::Fail(
                    BoxRunError::ConfigRead { path: path.clone(), source: copy_texts(source) },
                ),
            ),
            Some(ConfigAnswer::Malformed(source)) => Err(
                Halt::Fail(
                    BoxRunError::ConfigParse { path: path.clone(), source: copy_texts(source) },
                ),
            ),
        }
    }
}

/// Without a configuration file nothing is asked, and everything is left open. What is known of a
/// file is what was parsed, or why it could not be.
pub proof fn configuration_is_what_the_file_says(path: Seq<u8>, host: HostView)
    ensures
        config_of(None, host) matches Ok(silent) && silent.fs.layout is None && silent.fs.ro.len()
            == 0 && silent.fs.rw.len() == 0 && silent.fs.tmpfs.len() == 0 && silent.fs.hide.len()
            == 0 && silent.net.mode is None && silent.net.allow_tcp_connect.len() == 0
            && silent.net.allow_tcp_bind.len() == 0 && silent.env.clear is None
            && silent.env.pass.len() == 0 && silent.env.set.len() == 0 && silent.process.cwd is None
            && silent.process.stdin is None && silent.process.tty is None && silent.command.len()
            == 0 && silent.best_effort is None,
        !host.configs.dom().contains(path) ==> config_of(Some(path), host) == Err::<
            SandboxConfigView,
            _,
        >(HaltView::Ask(QueryView::LoadConfig(path))),
        host.configs.dom().contains(path) ==> match host.configs[path] {
            ConfigAnswerView::Parsed(config) => config_of(Some(path), host) == Ok::<_, HaltView>(
                config,
            ),
            ConfigAnswerView::Unreadable(source) => config_of(Some(path), host) == Err::<
                SandboxConfigView,
                _,
            >(HaltView::Fail(ErrorView::ConfigRead { path, source })),
            ConfigAnswerView::Malformed(source) => config_of(Some(path), host) == Err::<
                SandboxConfigView,
                _,
            >(HaltView::Fail(ErrorView::ConfigParse { path, source })),
        },
{
}

} // verus!

use box_run::cli::{Cli, Commands, FsLayout, HelperArgs, LogLevel, NetMode, RunArgs, StdinMode, TtyMode};
use box_run::config::SandboxConfig;
use box_run::error::BoxRunError;
use box_run::host::{Attempt, ConfigAnswer, Halt, HostFacts, Query};
use box_run::landlock_support::{LandlockRule, LandlockRuleset};
use box_run::launch::{
    ChildStatus, CopyOutcome, Launch, LaunchResult, StdioEnd, StdioMode, StdioPlan, Stream,
};
use box_run::platform::Platform;
use box_run::program::dispatch;
use box_run::{ByteString, UnixPath};

fn path(text: &str) -> UnixPath {
    UnixPath::from_text(text)
}

fn bytes(text: &str) -> ByteString {
    ByteString::from_text(text)
}

fn words(texts: &[&str]) -> Vec<ByteString> {
    texts.iter().map(|text| bytes(text)).collect()
}

fn bare_args(command: &[&str]) -> RunArgs {
    RunArgs {
        config: None,
        fs_layout: None,
        ro: vec![],
        rw: vec![],
        tmpfs: vec![],
        hide: vec![],
        net: None,
        env: vec![],
        env_pass: vec![],
        env_clear: None,
        inherit_env: None,
        cwd: None,
        stdin: None,
        tty: None,
        allow_tcp_connect: vec![],
        allow_tcp_bind: vec![],
        best_effort: None,
        command: words(command),
    }
}

fn run(args: RunArgs) -> Cli {
    Cli { verbose: 0, command: Commands::Run(args) }
}

/// A host whose directories are those whose last letter is a lower-case one, on which every path
/// is resolved already.
struct Host {
    landlock: i64,
    terminal: bool,
    asked: Vec<String>,
    launched: Option<Launch>,
    restricted: Option<LandlockRuleset>,
    executed: Option<(ByteString, Vec<ByteString>)>,
    printed: Vec<String>,
    result: Option<LaunchResult>,
    config: Option<ConfigAnswer>,
}

fn exited(code: Option<i32>, signal: Option<i32>) -> LaunchResult {
    LaunchResult::Exited {
        status: ChildStatus { code, signal },
        stdout: CopyOutcome::NotCopied,
        stderr: CopyOutcome::NotCopied,
    }
}

fn host() -> Host {
    Host {
        landlock: 6,
        terminal: true,
        asked: vec![],
        launched: None,
        restricted: None,
        executed: None,
        printed: vec![],
        result: Some(exited(Some(0), None)),
        config: None,
    }
}

impl Host {
    fn answer(&mut self, query: Query, facts: &mut HostFacts) {
        self.asked.push(format!("{query:?}").split(['(', ' ', '{']).next().unwrap().to_owned());
        match query {
            Query::LoadConfig(file) => {
                let answer = self.config.take().expect("a configuration");
                facts.record_config(file, answer);
            }
            Query::CurrentDir => facts.current_dir = Some(Ok(path("/work"))),
            Query::Canonicalize(asked) => {
                let resolved = match asked.display().as_str() {
                    "/link" => path("/real"),
                    "/absent" => {
                        facts.record_canonical(asked, Err(vec!["No such file".to_owned()]));
                        return;
                    }
                    _ => asked.clone(),
                };
                facts.record_canonical(asked, Ok(resolved));
            }
            Query::Inspect(asked) => {
                let directory = asked.display().ends_with(|c: char| c.is_ascii_lowercase());
                facts.record_is_dir(asked, Ok(directory));
            }
            Query::Var(name) => {
                let value = match name.as_str() {
                    "PATH" => Some(bytes("/usr/bin")),
                    "HOME" => Some(bytes("/home/me")),
                    "SECRET" => Some(bytes("hunter2")),
                    _ => None,
                };
                facts.record_var(name, value);
            }
            Query::LandlockVersion => facts.landlock_version = Some(self.landlock),
            Query::FindBwrap => facts.bwrap = Some(Ok(path("/usr/bin/bwrap"))),
            Query::BwrapVersion(program) => {
                assert_eq!(program, path("/usr/bin/bwrap"));
                facts.bwrap_version = Some(Ok(bytes("bubblewrap 0.9.0\n")));
            }
            Query::CurrentExe => facts.current_exe = Some(Ok(path("/opt/box-run"))),
            Query::IsTerminal(Stream::Stdin) => facts.stdin_terminal = Some(self.terminal),
            Query::IsTerminal(Stream::Stdout) => facts.stdout_terminal = Some(self.terminal),
            Query::IsTerminal(Stream::Stderr) => facts.stderr_terminal = Some(self.terminal),
            Query::HiddenFile(number) => {
                assert_eq!(number, facts.hidden_files.len());
                facts.record_hidden_file(Ok(path(&format!("/tmp/hidden{number}"))));
            }
            Query::Warn { text, landlock_abi } => {
                self.printed.push(format!("{text} {landlock_abi:?}"));
                facts.warned = true;
            }
            Query::Launch(launch) => {
                self.launched = Some(launch);
                facts.launched = self.result.take();
            }
            Query::NoNewPrivs => facts.no_new_privs = Some(Attempt::Done),
            Query::Restrict(ruleset) => {
                self.restricted = Some(ruleset);
                facts.restricted = Some(Attempt::Done);
            }
            Query::Exec(program, args) => {
                self.executed = Some((program, args));
                facts.exec_failure = Some(vec!["No such program".to_owned()]);
            }
            Query::Print(lines) => {
                self.printed = lines;
                facts.printed = true;
            }
        }
    }

    fn end(&mut self, platform: Platform, cli: &Cli) -> Result<u8, BoxRunError> {
        let mut facts = HostFacts::new();
        for _ in 0..100 {
            match dispatch(platform, cli, &facts) {
                Ok(code) => return Ok(code),
                Err(Halt::Fail(error)) => return Err(error),
                Err(Halt::Ask(query)) => self.answer(query, &mut facts),
            }
        }
        panic!("asked without end: {:?}", self.asked);
    }

    fn launched_args(&self) -> Vec<String> {
        let launch = self.launched.as_ref().expect("a launch");
        launch.args.iter().map(|arg| String::from_utf8(arg.as_bytes().to_vec()).unwrap()).collect()
    }
}

#[test]
fn a_bare_command_runs_in_the_default_sandbox() {
    let mut host = host();
    let ended = host.end(Platform::Linux, &run(bare_args(&["make", "test"])));
    assert_eq!(ended, Ok(0));
    assert_eq!(
        host.asked,
        vec![
            "CurrentDir", "Canonicalize", "Inspect", "Var", "Var", "Var", "Var", "Var", "FindBwrap",
            "CurrentExe", "Launch",
        ]
    );
    assert_eq!(
        host.launched_args(),
        vec![
            "--new-session", "--die-with-parent", "--unshare-user", "--unshare-pid", "--unshare-ipc",
            "--unshare-uts",
            "--unshare-net", "--clearenv", "--setenv", "PATH", "/usr/bin", "--ro-bind", "/", "/",
            "--tmpfs", "/tmp", "--dir", "/tmp", "--ro-bind", "/opt/box-run", "/tmp/box-run-helper",
            "--dir", "/work", "--bind", "/work", "/work", "--proc", "/proc", "--dev", "/dev",
            "--chdir", "/work", "--", "/tmp/box-run-helper", "__helper", "--", "make", "test",
        ]
    );
    let launch = host.launched.unwrap();
    assert_eq!(launch.program, path("/usr/bin/bwrap"));
    assert_eq!(
        launch.stdio,
        StdioPlan {
            stdin: StdioEnd::Inherit,
            stdout: StdioEnd::Inherit,
            stderr: StdioEnd::Inherit,
            mode: StdioMode::Direct,
        }
    );
}

#[test]
fn a_strict_sandbox_shows_what_is_mounted() {
    let mut args = bare_args(&["--weird", "--", "x"]);
    args.fs_layout = Some(FsLayout::Strict);
    args.ro = vec!["/usr".to_owned(), "/etc/HOSTS:/etc/hosts".to_owned(), "/link".to_owned()];
    args.rw = vec!["src:/workspace".to_owned()];
    args.tmpfs = vec![path("/cache"), path("/tmp/")];
    args.hide = vec![path("/workspace/KEYS"), path("/usr/share"), path("/workspace/KEYS/.")];
    args.net = Some(NetMode::Host);
    args.env = vec!["A=1".to_owned(), "PATH=/bin".to_owned(), "A=2".to_owned()];
    args.env_pass = vec!["HOME".to_owned()];
    args.cwd = Some(path("/workspace"));
    args.allow_tcp_connect = vec![443, 80, 443];
    args.allow_tcp_bind = vec![8080];
    let mut host = host();
    assert_eq!(host.end(Platform::Linux, &run(args)), Ok(0));
    assert_eq!(
        host.launched_args(),
        vec![
            "--new-session", "--die-with-parent", "--unshare-user", "--unshare-pid", "--unshare-ipc",
            "--unshare-uts",
            "--clearenv", "--setenv", "A", "2", "--setenv", "HOME", "/home/me", "--setenv", "PATH",
            "/bin", "--tmpfs", "/cache", "--tmpfs", "/tmp", "--dir", "/tmp", "--ro-bind",
            "/opt/box-run", "/tmp/box-run-helper", "--dir", "/etc", "--ro-bind", "/etc/HOSTS",
            "/etc/hosts", "--dir", "/link", "--ro-bind", "/real", "/link", "--dir", "/usr",
            "--ro-bind", "/usr", "/usr", "--dir", "/work", "--bind", "/work", "/work", "--dir",
            "/workspace", "--bind", "/work/src", "/workspace", "--proc", "/proc", "--dev", "/dev",
            "--tmpfs", "/usr/share", "--remount-ro", "/usr/share", "--ro-bind", "/tmp/hidden0",
            "/workspace/KEYS", "--chdir", "/workspace", "--", "/tmp/box-run-helper", "__helper",
            "--landlock-ro", "/dev", "--landlock-ro", "/etc/hosts", "--landlock-ro", "/link",
            "--landlock-ro", "/proc", "--landlock-ro", "/usr", "--landlock-rw", "/cache",
            "--landlock-rw", "/dev/full", "--landlock-rw", "/dev/null", "--landlock-rw",
            "/dev/ptmx", "--landlock-rw", "/dev/pts", "--landlock-rw", "/dev/random",
            "--landlock-rw", "/dev/tty", "--landlock-rw", "/dev/urandom", "--landlock-rw",
            "/dev/zero", "--landlock-rw", "/tmp", "--landlock-rw", "/work", "--landlock-rw",
            "/workspace", "--landlock-tcp-connect", "80", "--landlock-tcp-connect", "443",
            "--landlock-tcp-bind", "8080", "--", "--weird", "--", "x",
        ]
    );
}

#[test]
fn each_hidden_file_has_an_empty_file_of_its_own() {
    let mut args = bare_args(&["true"]);
    args.hide = vec![path("/etc/B"), path("/etc/A"), path("/etc/ssh")];
    let mut host = host();
    assert_eq!(host.end(Platform::Linux, &run(args)), Ok(0));
    let args = host.launched_args();
    let start = args.iter().position(|arg| arg == "/dev").unwrap() + 1;
    assert_eq!(
        args[start..start + 10].to_vec(),
        vec![
            "--ro-bind", "/tmp/hidden0", "/etc/A", "--ro-bind", "/tmp/hidden1", "/etc/B",
            "--tmpfs", "/etc/ssh", "--remount-ro", "/etc/ssh",
        ]
    );
}

#[test]
fn an_inherited_environment_is_not_looked_at() {
    let mut args = bare_args(&["true"]);
    args.inherit_env = Some(true);
    args.env = vec!["A=1".to_owned()];
    let mut host = host();
    assert_eq!(host.end(Platform::Linux, &run(args)), Ok(0));
    assert!(!host.asked.contains(&"Var".to_owned()));
    let args = host.launched_args();
    assert!(!args.contains(&"--clearenv".to_owned()));
    assert_eq!(args[7..10].to_vec(), vec!["--setenv", "A", "1"]);
}

#[test]
fn a_secret_is_not_passed_on() {
    let mut host = host();
    assert_eq!(host.end(Platform::Linux, &run(bare_args(&["env"]))), Ok(0));
    assert!(!host.launched_args().contains(&"hunter2".to_owned()));
}

#[test]
fn a_configuration_file_gives_the_command() {
    let mut config = SandboxConfig::default();
    config.command = vec!["echo".to_owned(), "hi".to_owned()];
    config.net.mode = Some(NetMode::Host);
    let mut args = bare_args(&[]);
    args.config = Some(path("sandbox.toml"));
    let mut host = host();
    host.config = Some(ConfigAnswer::Parsed(config));
    assert_eq!(host.end(Platform::Linux, &run(args)), Ok(0));
    assert_eq!(host.asked[0], "LoadConfig");
    let args = host.launched_args();
    assert_eq!(args[args.len() - 3..].to_vec(), vec!["--", "echo", "hi"]);
    assert!(!args.contains(&"--unshare-net".to_owned()));
}

#[test]
fn a_configuration_file_that_cannot_be_used_is_a_failure() {
    for (answer, expected) in [
        (
            ConfigAnswer::Unreadable(vec!["gone".to_owned()]),
            BoxRunError::ConfigRead { path: path("c.toml"), source: vec!["gone".to_owned()] },
        ),
        (
            ConfigAnswer::Malformed(vec!["bad".to_owned()]),
            BoxRunError::ConfigParse { path: path("c.toml"), source: vec!["bad".to_owned()] },
        ),
    ] {
        let mut args = bare_args(&["true"]);
        args.config = Some(path("c.toml"));
        let mut host = host();
        host.config = Some(answer);
        assert_eq!(host.end(Platform::Linux, &run(args)), Err(expected));
    }
}

#[test]
fn what_cannot_be_asked_for_is_a_failure() {
    let mut cases: Vec<(RunArgs, BoxRunError)> = vec![];
    cases.push((bare_args(&[]), BoxRunError::MissingCommand));
    let mut args = bare_args(&["true"]);
    args.env = vec!["=1".to_owned()];
    cases.push((args, BoxRunError::EmptyEnvKey { key: String::new() }));
    let mut args = bare_args(&["true"]);
    args.env = vec!["A".to_owned()];
    cases.push((args, BoxRunError::InvalidEnvAssignment { spec: "A".to_owned() }));
    for spec in [":", "a:", ":/b"] {
        let mut args = bare_args(&["true"]);
        args.ro = vec![spec.to_owned()];
        cases.push((args, BoxRunError::InvalidBindSpec { spec: spec.to_owned() }));
    }
    let mut args = bare_args(&["true"]);
    args.rw = vec!["/absent".to_owned()];
    cases.push((
        args,
        BoxRunError::CanonicalizePath {
            path: path("/absent"),
            source: vec!["No such file".to_owned()],
        },
    ));
    let mut args = bare_args(&["true"]);
    args.tmpfs = vec![path("scratch")];
    cases.push((args, BoxRunError::NonAbsoluteSandboxPath { path: path("scratch") }));
    let mut args = bare_args(&["true"]);
    args.hide = vec![path("hidden")];
    cases.push((args, BoxRunError::NonAbsoluteSandboxPath { path: path("hidden") }));
    let mut args = bare_args(&["true"]);
    args.cwd = Some(path("here"));
    cases.push((args, BoxRunError::NonAbsoluteSandboxPath { path: path("here") }));
    for (args, expected) in cases {
        let mut host = host();
        assert_eq!(host.end(Platform::Linux, &run(args)), Err(expected));
        assert!(host.launched.is_none());
    }
}

#[test]
fn answers_of_the_host_become_failures() {
    let failed = || vec!["failed".to_owned()];
    let cli = run(bare_args(&["true"]));

    let mut facts = HostFacts::new();
    facts.current_dir = Some(Err(failed()));
    let ended = dispatch(Platform::Linux, &cli, &facts);
    assert_eq!(ended, Err(Halt::Fail(BoxRunError::CurrentDir(failed()))));

    facts.current_dir = Some(Ok(path("/work")));
    facts.record_canonical(path("/work"), Ok(path("/work")));
    facts.record_is_dir(path("/work"), Err(failed()));
    let ended = dispatch(Platform::Linux, &cli, &facts);
    let expected = BoxRunError::Metadata { path: path("/work"), source: failed() };
    assert_eq!(ended, Err(Halt::Fail(expected)));

    facts.record_is_dir(path("/work"), Ok(true));
    for name in ["PATH", "TERM", "LANG", "LC_ALL", "LC_CTYPE"] {
        let ended = dispatch(Platform::Linux, &cli, &facts);
        assert_eq!(ended, Err(Halt::Ask(Query::Var(name.to_owned()))));
        facts.record_var(name.to_owned(), None);
    }
    facts.bwrap = Some(Err(failed()));
    let ended = dispatch(Platform::Linux, &cli, &facts);
    let expected = BoxRunError::MissingProgram { program: "bwrap".to_owned(), source: failed() };
    assert_eq!(ended, Err(Halt::Fail(expected)));

    facts.bwrap = Some(Ok(path("/bin/bwrap")));
    facts.current_exe = Some(Err(failed()));
    let ended = dispatch(Platform::Linux, &cli, &facts);
    assert_eq!(ended, Err(Halt::Fail(BoxRunError::CurrentExe(failed()))));

    facts.current_exe = Some(Ok(path("/box-run")));
    facts.launched = Some(LaunchResult::SpawnFailed(failed()));
    let ended = dispatch(Platform::Linux, &cli, &facts);
    let expected = BoxRunError::Spawn { program: path("/bin/bwrap"), source: failed() };
    assert_eq!(ended, Err(Halt::Fail(expected)));
}

#[test]
fn an_empty_file_that_cannot_be_made_is_a_failure() {
    let mut args = bare_args(&["true"]);
    args.hide = vec![path("/etc/A")];
    let mut facts = HostFacts::new();
    facts.record_hidden_file(Err(vec!["full".to_owned()]));
    let cli = run(args);
    let mut host = host();
    let ended = loop {
        match dispatch(Platform::Linux, &cli, &facts) {
            Err(Halt::Ask(query)) => host.answer(query, &mut facts),
            ended => break ended,
        }
    };
    let expected = BoxRunError::Spawn { program: path("tempfile"), source: vec!["full".to_owned()] };
    assert_eq!(ended, Err(Halt::Fail(expected)));
}

#[test]
fn exit_codes_and_signals_are_passed_on() {
    for (code, signal, expected) in [
        (Some(0), None, 0),
        (Some(1), None, 1),
        (Some(255), None, 255),
        (Some(256), None, 1),
        (Some(-1), None, 1),
        (None, Some(9), 137),
        (None, Some(15), 143),
        (None, Some(127), 255),
        (None, Some(200), 255),
        (None, Some(0x10009), 137),
        (None, Some(-1), 255),
        (None, None, 1),
    ] {
        let mut host = host();
        host.result = Some(exited(code, signal));
        assert_eq!(host.end(Platform::Linux, &run(bare_args(&["false"]))), Ok(expected));
    }
}

#[test]
fn streams_are_copied_where_there_must_be_no_terminal() {
    for (stdin, end) in [(StdinMode::Inherit, StdioEnd::Piped), (StdinMode::Null, StdioEnd::Null)] {
        let mut args = bare_args(&["true"]);
        args.tty = Some(TtyMode::Disable);
        args.stdin = Some(stdin);
        let mut host = host();
        assert_eq!(host.end(Platform::Linux, &run(args)), Ok(0));
        assert_eq!(
            host.launched.unwrap().stdio,
            StdioPlan {
                stdin: end,
                stdout: StdioEnd::Piped,
                stderr: StdioEnd::Piped,
                mode: StdioMode::Forwarded { copy_stdin: stdin == StdinMode::Inherit },
            }
        );
    }
}

#[test]
fn streams_that_were_not_copied_are_a_failure() {
    let failed = || vec!["pipe".to_owned()];
    let status = ChildStatus { code: Some(0), signal: None };
    let cases = vec![
        (
            LaunchResult::Exited {
                status,
                stdout: CopyOutcome::Failed(failed()),
                stderr: CopyOutcome::Panicked,
            },
            Err(BoxRunError::IoForward { stream: "stdout".to_owned(), source: failed() }),
        ),
        (
            LaunchResult::Exited {
                status,
                stdout: CopyOutcome::Copied,
                stderr: CopyOutcome::Panicked,
            },
            Err(BoxRunError::IoForwardPanic { stream: "stderr".to_owned() }),
        ),
        (
            LaunchResult::WaitFailed(failed()),
            Err(BoxRunError::Wait { program: path("/usr/bin/bwrap"), source: failed() }),
        ),
        (
            LaunchResult::Exited {
                status,
                stdout: CopyOutcome::Copied,
                stderr: CopyOutcome::Copied,
            },
            Ok(0),
        ),
    ];
    for (result, expected) in cases {
        let mut args = bare_args(&["true"]);
        args.tty = Some(TtyMode::Disable);
        let mut host = host();
        host.result = Some(result);
        assert_eq!(host.end(Platform::Linux, &run(args)), expected);
    }
}

#[test]
fn waiting_for_a_direct_program_fails_as_starting_it() {
    let mut host = host();
    host.result = Some(LaunchResult::WaitFailed(vec!["pipe".to_owned()]));
    assert_eq!(
        host.end(Platform::Linux, &run(bare_args(&["true"]))),
        Err(BoxRunError::Spawn {
            program: path("/usr/bin/bwrap"),
            source: vec!["pipe".to_owned()],
        })
    );
}

#[test]
fn a_forced_terminal_has_to_be_there() {
    let mut args = bare_args(&["true"]);
    args.tty = Some(TtyMode::Force);
    let cli = run(args);
    let mut with_terminal = host();
    assert_eq!(with_terminal.end(Platform::Linux, &cli), Ok(0));
    let count = with_terminal.asked.iter().filter(|name| *name == "IsTerminal").count();
    assert_eq!(count, 3);

    let mut without = host();
    without.terminal = false;
    assert_eq!(
        without.end(Platform::Linux, &cli),
        Err(BoxRunError::UnsupportedOption {
            message: "--tty force requires the current process to be attached to a terminal"
                .to_owned(),
        })
    );
    let count = without.asked.iter().filter(|name| *name == "IsTerminal").count();
    assert_eq!(count, 1);
}

#[test]
fn rules_for_ports_need_a_kernel_that_enforces_them() {
    for (version, expected) in [
        (4, None),
        (9, None),
        (
            3,
            Some(
                "TCP allowlists require Landlock ABI 4+, but detected ABI 3; rerun with \
                 --best-effort to continue without enforcement",
            ),
        ),
        (
            -1,
            Some(
                "TCP allowlists require Landlock ABI 4+, but Landlock is unavailable; rerun with \
                 --best-effort to continue without enforcement",
            ),
        ),
    ] {
        let mut args = bare_args(&["true"]);
        args.allow_tcp_connect = vec![443];
        let mut host = host();
        host.landlock = version;
        let ended = host.end(Platform::Linux, &run(args));
        match expected {
            None => assert_eq!(ended, Ok(0)),
            Some(message) => {
                assert_eq!(
                    ended,
                    Err(BoxRunError::UnsupportedOption { message: message.to_owned() })
                );
                assert!(host.launched.is_none());
            }
        }
    }
}

#[test]
fn best_effort_goes_on_with_a_warning() {
    for (version, warning) in [
        (
            3,
            "TCP allowlists require Landlock ABI 4+, continuing because best-effort mode is \
             enabled Some(3)",
        ),
        (
            -38,
            "TCP allowlists require Landlock support, continuing because best-effort mode is \
             enabled None",
        ),
    ] {
        let mut args = bare_args(&["true"]);
        args.allow_tcp_bind = vec![8080];
        args.best_effort = Some(true);
        let mut host = host();
        host.landlock = version;
        assert_eq!(host.end(Platform::Linux, &run(args)), Ok(0));
        assert_eq!(host.printed, vec![warning]);
        assert_eq!(host.asked.iter().filter(|name| *name == "Warn").count(), 1);
    }
}

fn helper_args() -> HelperArgs {
    HelperArgs {
        landlock_ro: vec![path("/usr")],
        landlock_rw: vec![path("/tmp")],
        landlock_tcp_connect: vec![443],
        landlock_tcp_bind: vec![8080],
        command: words(&["sh", "-c", "true"]),
    }
}

#[test]
fn the_helper_restricts_itself_and_becomes_the_command() {
    let mut host = host();
    let cli = Cli { verbose: 0, command: Commands::Helper(helper_args()) };
    let ended = host.end(Platform::Linux, &cli);
    assert_eq!(host.asked, vec!["NoNewPrivs", "Restrict", "Exec"]);
    assert_eq!(
        host.restricted,
        Some(LandlockRuleset {
            handled_fs: Some(0xffff),
            handles_bind: true,
            handles_connect: true,
            rules: vec![
                LandlockRule::PathBeneath { path: path("/usr"), access: 0xd },
                LandlockRule::PathBeneath { path: path("/tmp"), access: 0xffff },
                LandlockRule::BindTcp(8080),
                LandlockRule::ConnectTcp(443),
            ],
        })
    );
    assert_eq!(host.executed, Some((bytes("sh"), words(&["-c", "true"]))));
    assert_eq!(ended, Err(BoxRunError::ExecTarget(vec!["No such program".to_owned()])));
}

#[test]
fn the_helper_without_a_plan_is_not_restricted() {
    let mut args = helper_args();
    args.landlock_ro = vec![];
    args.landlock_rw = vec![];
    args.landlock_tcp_connect = vec![];
    args.landlock_tcp_bind = vec![];
    let cli = Cli { verbose: 0, command: Commands::Helper(args) };
    let mut host = host();
    assert!(host.end(Platform::Linux, &cli).is_err());
    assert_eq!(host.asked, vec!["NoNewPrivs", "Exec"]);
}

#[test]
fn the_helper_fails_before_the_command_starts() {
    let cli = Cli { verbose: 0, command: Commands::Helper(helper_args()) };
    let failed = || vec!["denied".to_owned()];
    let mut facts = HostFacts::new();
    facts.no_new_privs = Some(Attempt::Failed(failed()));
    assert_eq!(
        dispatch(Platform::Linux, &cli, &facts),
        Err(Halt::Fail(BoxRunError::ProcessHardening(failed())))
    );
    facts.no_new_privs = Some(Attempt::Done);
    facts.restricted = Some(Attempt::Failed(failed()));
    assert_eq!(
        dispatch(Platform::Linux, &cli, &facts),
        Err(Halt::Fail(BoxRunError::Landlock(failed())))
    );
    let mut args = helper_args();
    args.command = vec![];
    let cli = Cli { verbose: 0, command: Commands::Helper(args) };
    facts.restricted = Some(Attempt::Done);
    assert_eq!(
        dispatch(Platform::Linux, &cli, &facts),
        Err(Halt::Fail(BoxRunError::Message("missing target command".to_owned())))
    );
}

#[test]
fn doctor_tells_what_there_is() {
    let doctor = Cli { verbose: 0, command: Commands::Doctor };
    let mut modern = host();
    assert_eq!(modern.end(Platform::Linux, &doctor), Ok(0));
    assert_eq!(
        modern.printed,
        vec![
            "platform: linux",
            "bubblewrap: found at /usr/bin/bwrap",
            "bubblewrap version: bubblewrap 0.9.0",
            "landlock: available (ABI 6)",
            "landlock filesystem mode: enabled for strict layouts",
            "landlock tcp allowlists: enabled",
        ]
    );
    let mut older = host();
    older.landlock = 3;
    assert_eq!(older.end(Platform::Linux, &doctor), Ok(0));
    assert_eq!(older.printed[5], "landlock tcp allowlists: unavailable (requires ABI 4+)");
    let mut none = host();
    none.landlock = -38;
    assert_eq!(none.end(Platform::Linux, &doctor), Ok(0));
    assert_eq!(
        none.printed[3..].to_vec(),
        vec![
            "landlock: unavailable",
            "landlock filesystem mode: disabled",
            "landlock tcp allowlists: disabled",
        ]
    );
}

#[test]
fn doctor_tells_what_is_not_there() {
    let doctor = Cli { verbose: 0, command: Commands::Doctor };
    let printed = |facts: &HostFacts| match dispatch(Platform::Linux, &doctor, facts) {
        Err(Halt::Ask(Query::Print(lines))) => lines,
        other => panic!("not printed: {other:?}"),
    };
    let mut facts = HostFacts::new();
    facts.landlock_version = Some(6);
    facts.bwrap = Some(Err(vec!["cannot find binary path".to_owned()]));
    assert_eq!(printed(&facts)[1], "bubblewrap: unavailable (cannot find binary path)");
    facts.bwrap = Some(Ok(path("/b")));
    facts.bwrap_version = Some(Ok(bytes(" \t\n\u{2003}")));
    assert_eq!(printed(&facts)[2], "bubblewrap version: unknown");
    facts.bwrap_version = Some(Ok(ByteString::from_bytes(vec![b' ', 0xff, b'1', b'\n'])));
    assert_eq!(printed(&facts)[2], "bubblewrap version: \u{fffd}1");
    facts.bwrap_version = Some(Err(vec!["denied".to_owned(), "below".to_owned()]));
    assert_eq!(printed(&facts)[2], "bubblewrap version: unavailable (denied)");
    facts.landlock_version = Some(1 << 40);
    assert_eq!(printed(&facts)[3], "landlock: unavailable");
}

#[test]
fn other_platforms_have_no_backend() {
    let cases = [
        (
            Platform::Macos,
            "macOS backend is not implemented yet; the current release fully supports Linux only",
            [
                "platform: macos",
                "backend: unavailable",
                "status: Linux is fully supported; macOS backend is planned but not implemented",
            ],
        ),
        (
            Platform::Windows,
            "Windows backend is not implemented yet; the current release fully supports Linux only",
            [
                "platform: windows",
                "backend: unavailable",
                "status: Linux is fully supported; Windows backend is planned but not implemented",
            ],
        ),
        (
            Platform::Other,
            "this platform is not supported yet; the current release fully supports Linux only",
            [
                "platform: unsupported",
                "backend: unavailable",
                "status: Linux is fully supported; this target does not have a backend yet",
            ],
        ),
    ];
    for (platform, message, lines) in cases {
        let mut first = host();
        assert_eq!(
            first.end(platform, &run(bare_args(&["true"]))),
            Err(BoxRunError::Message(message.to_owned()))
        );
        assert!(first.asked.is_empty());
        let mut second = host();
        let doctor = Cli { verbose: 0, command: Commands::Doctor };
        assert_eq!(second.end(platform, &doctor), Ok(0));
        assert_eq!(second.printed, lines.to_vec());
        let helper = Cli { verbose: 0, command: Commands::Helper(helper_args()) };
        assert_eq!(
            host().end(platform, &helper),
            Err(BoxRunError::Message("sandbox helper is only available on Linux".to_owned()))
        );
    }
}

#[test]
fn more_knowledge_changes_no_decision() {
    let cli = run(bare_args(&[]));
    let nothing = HostFacts::new();
    let mut more = HostFacts::new();
    more.current_dir = Some(Ok(path("/work")));
    more.landlock_version = Some(1);
    let decided = dispatch(Platform::Linux, &cli, &nothing);
    assert_eq!(decided, Err(Halt::Fail(BoxRunError::MissingCommand)));
    assert_eq!(dispatch(Platform::Linux, &cli, &more), decided);
}

#[test]
fn verbosity_selects_what_is_logged() {
    for (verbose, level) in [
        (0, LogLevel::Warn),
        (1, LogLevel::Info),
        (2, LogLevel::Debug),
        (3, LogLevel::Trace),
        (255, LogLevel::Trace),
    ] {
        assert_eq!(Cli { verbose, command: Commands::Doctor }.log_level(), level);
    }
}

use box_run::cli::{FsLayout, NetMode, RunArgs, StdinMode, TtyMode};
use box_run::config::{EnvConfig, FsConfig, NetConfig, ProcessConfig, SandboxConfig};
use box_run::env_plan::{format_env_arg, resolve_env_plan};
use box_run::host::{Halt, HostFacts};
use box_run::landlock_plan::build_landlock_plan;
use box_run::mounts::{parse_mount, resolve_hidden_path_kind};
use box_run::policy::{EnvPlan, LandlockPlan, Mount, MountKind, Policy};
use box_run::policy_input::{parse_explicit_env, PolicyInput};
use box_run::{ByteString, EnvMap, UnixPath};

fn path(text: &str) -> UnixPath {
    UnixPath::from_text(text)
}

fn bytes(text: &str) -> ByteString {
    ByteString::from_text(text)
}

fn dir_mount(src: &str, dest: &str) -> Mount {
    Mount { src: path(src), dest: path(dest), kind: MountKind::Dir }
}

fn failure_text(halt: Halt) -> String {
    match halt {
        Halt::Fail(error) => error.message(),
        Halt::Ask(query) => panic!("unanswered: {query:?}"),
    }
}

#[test]
fn explicit_env_parses_assignments() {
    let vars = parse_explicit_env(&vec!["FOO=bar".to_owned(), "A=B=C".to_owned()]).unwrap();
    assert_eq!(
        vars,
        vec![("FOO".to_owned(), bytes("bar")), ("A".to_owned(), bytes("B=C"))]
    );
}

#[test]
fn explicit_env_rejects_missing_separator() {
    let err = parse_explicit_env(&vec!["BROKEN".to_owned()]).unwrap_err();
    assert!(err.message().contains("invalid env assignment"));
}

#[test]
fn mount_dest_must_be_absolute_when_explicit() {
    let cwd = path("/work/project");
    let mut facts = HostFacts::new();
    facts.record_canonical(path("/work/project/."), Ok(path("/work/project")));
    let err = parse_mount(".:relative", &cwd, &facts).unwrap_err();
    assert!(failure_text(err).contains("must be absolute"));
}

#[test]
fn clear_env_plan_keeps_explicit_override() {
    let mut facts = HostFacts::new();
    facts.record_var("PATH".to_owned(), Some(bytes("/usr/bin:/bin")));
    facts.record_var("TERM".to_owned(), Some(bytes("xterm")));
    facts.record_var("LANG".to_owned(), None);
    facts.record_var("LC_ALL".to_owned(), None);
    facts.record_var("LC_CTYPE".to_owned(), None);
    let mut env_set = EnvMap::new();
    env_set.insert("PATH", &bytes("/custom/bin"));
    let plan = resolve_env_plan(true, &vec![], &env_set, &facts).unwrap();
    assert!(plan.clear);
    assert_eq!(
        plan.vars.iter().find(|(key, _)| key == "PATH").map(|(_, value)| value.clone()),
        Some(bytes("/custom/bin"))
    );
}

#[test]
fn format_env_argument_joins_key_and_value() {
    let arg = format_env_arg("TERM", &bytes("xterm"));
    assert_eq!(arg, bytes("TERM=xterm"));
}

#[test]
fn inherit_env_disables_clear_behavior() {
    let mut env_set = EnvMap::new();
    env_set.insert("FOO", &bytes("bar"));
    let plan =
        resolve_env_plan(false, &vec!["PATH".to_owned()], &env_set, &HostFacts::new()).unwrap();
    assert!(!plan.clear);
    assert_eq!(plan.vars, vec![("FOO".to_owned(), bytes("bar"))]);
}

#[test]
fn host_ro_landlock_plan_is_disabled() {
    let policy = Policy {
        fs_layout: FsLayout::HostRo,
        ro_mounts: vec![],
        rw_mounts: vec![dir_mount("/work", "/work")],
        tmpfs_mounts: vec![path("/tmp")],
        hidden_paths: vec![],
        landlock: LandlockPlan {
            ro_paths: vec![],
            rw_paths: vec![],
            tcp_connect_ports: vec![],
            tcp_bind_ports: vec![],
        },
        cwd: path("/work"),
        net: NetMode::Off,
        stdin: StdinMode::Inherit,
        tty: TtyMode::Auto,
        env: EnvPlan { clear: true, vars: vec![] },
        command: vec![],
        best_effort: false,
    };

    let plan = build_landlock_plan(
        policy.fs_layout,
        &policy.ro_mounts,
        &policy.rw_mounts,
        &policy.tmpfs_mounts,
        &vec![],
        &vec![],
    );
    assert!(plan.is_empty());
}

#[test]
fn strict_landlock_plan_uses_explicit_ro_mounts() {
    let plan = build_landlock_plan(
        FsLayout::Strict,
        &vec![dir_mount("/usr", "/usr")],
        &vec![dir_mount("/workspace", "/workspace")],
        &vec![path("/tmp"), path("/scratch")],
        &vec![],
        &vec![],
    );

    assert_eq!(
        plan,
        LandlockPlan {
            ro_paths: vec![path("/dev"), path("/proc"), path("/usr")],
            rw_paths: vec![
                path("/dev/full"),
                path("/dev/null"),
                path("/dev/ptmx"),
                path("/dev/pts"),
                path("/dev/random"),
                path("/dev/tty"),
                path("/dev/urandom"),
                path("/dev/zero"),
                path("/scratch"),
                path("/tmp"),
                path("/workspace")
            ],
            tcp_connect_ports: vec![],
            tcp_bind_ports: vec![],
        }
    );
}

#[test]
fn landlock_plan_normalizes_tcp_ports() {
    let plan = build_landlock_plan(
        FsLayout::HostRo,
        &vec![],
        &vec![],
        &vec![],
        &vec![443, 80, 443],
        &vec![0, 8080, 0],
    );

    assert_eq!(plan.tcp_connect_ports, vec![80, 443]);
    assert_eq!(plan.tcp_bind_ports, vec![0, 8080]);
    assert!(plan.has_tcp_rules());
}

#[test]
fn implicit_absolute_mount_preserves_requested_destination_path() {
    let real = path("/tmp/box-run-policy-test/real");
    let link = path("/tmp/box-run-policy-test/link");
    let mut facts = HostFacts::new();
    facts.record_canonical(link.clone(), Ok(real.clone()));
    facts.record_is_dir(real.clone(), Ok(true));

    let mount = parse_mount("/tmp/box-run-policy-test/link", &path("/"), &facts).unwrap();
    assert_eq!(mount.dest, link);
    assert_eq!(mount.src, real);
}

#[test]
fn config_and_cli_are_merged_with_cli_priority() {
    let input = PolicyInput::from_sources(
        &SandboxConfig {
            fs: FsConfig {
                layout: Some(FsLayout::Strict),
                ro: vec!["/usr".to_owned()],
                rw: vec!["./workspace:/workspace".to_owned()],
                tmpfs: vec![path("/cache")],
                hide: vec![],
            },
            net: NetConfig {
                mode: Some(NetMode::Host),
                allow_tcp_connect: vec![443],
                allow_tcp_bind: vec![8080],
            },
            env: EnvConfig {
                clear: Some(true),
                pass: vec!["PATH".to_owned()],
                set: vec![("FROM_CONFIG".to_owned(), "1".to_owned())],
            },
            process: ProcessConfig {
                cwd: Some(path("/workspace")),
                stdin: Some(StdinMode::Inherit),
                tty: Some(TtyMode::Auto),
            },
            command: vec!["echo".to_owned(), "from-config".to_owned()],
            best_effort: Some(true),
        },
        &RunArgs {
            config: None,
            fs_layout: Some(FsLayout::HostRo),
            ro: vec!["/bin".to_owned()],
            rw: vec![],
            tmpfs: vec![path("/tmp")],
            hide: vec![path("/etc/hosts")],
            net: Some(NetMode::Off),
            env: vec!["FROM_CLI=1".to_owned()],
            env_pass: vec!["TERM".to_owned()],
            env_clear: None,
            inherit_env: Some(true),
            cwd: None,
            stdin: Some(StdinMode::Null),
            tty: Some(TtyMode::Disable),
            allow_tcp_connect: vec![8443],
            allow_tcp_bind: vec![8080, 9090],
            best_effort: Some(false),
            command: vec![bytes("echo"), bytes("from-cli")],
        },
    )
    .unwrap();

    assert_eq!(input.fs_layout, FsLayout::HostRo);
    assert_eq!(input.net, NetMode::Off);
    assert!(!input.env_clear);
    assert_eq!(input.stdin, StdinMode::Null);
    assert_eq!(input.tty, TtyMode::Disable);
    assert_eq!(input.command, vec![bytes("echo"), bytes("from-cli")]);
    assert!(!input.best_effort);
    assert_eq!(input.env_set.get("FROM_CONFIG").cloned(), Some(bytes("1")));
    assert_eq!(input.env_set.get("FROM_CLI").cloned(), Some(bytes("1")));
    assert_eq!(input.ro, vec!["/usr".to_owned(), "/bin".to_owned()]);
    assert_eq!(input.hide, vec![path("/etc/hosts")]);
    assert_eq!(input.allow_tcp_connect, vec![443, 8443]);
    assert_eq!(input.allow_tcp_bind, vec![8080, 8080, 9090]);
}

#[test]
fn hide_target_kind_is_resolved_from_mounted_directory() {
    let mounts = vec![dir_mount("/tmp/box-run-hide-test/source", "/workspace")];
    let mut facts = HostFacts::new();
    facts.record_is_dir(path("/tmp/box-run-hide-test/source/secret"), Ok(true));
    facts.record_is_dir(path("/tmp/box-run-hide-test/source/secret.txt"), Ok(false));

    assert_eq!(
        resolve_hidden_path_kind(
            &path("/workspace/secret"),
            &mounts,
            &vec![],
            &path("/"),
            &facts
        )
        .unwrap(),
        MountKind::Dir
    );
    assert_eq!(
        resolve_hidden_path_kind(
            &path("/workspace/secret.txt"),
            &mounts,
            &vec![],
            &path("/"),
            &facts
        )
        .unwrap(),
        MountKind::File
    );
}

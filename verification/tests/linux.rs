use box_run::bwrap::build_bwrap_command;
use box_run::cli::{FsLayout, NetMode, StdinMode, TtyMode};
use box_run::host::HostFacts;
use box_run::policy::{EnvPlan, LandlockPlan, Mount, MountKind, Policy};
use box_run::{ByteString, UnixPath};

fn path(text: &str) -> UnixPath {
    UnixPath::from_text(text)
}

fn bytes(text: &str) -> ByteString {
    ByteString::from_text(text)
}

fn sample_policy() -> Policy {
    Policy {
        fs_layout: FsLayout::Strict,
        ro_mounts: vec![Mount { src: path("/usr"), dest: path("/usr"), kind: MountKind::Dir }],
        rw_mounts: vec![Mount { src: path("/work"), dest: path("/work"), kind: MountKind::Dir }],
        tmpfs_mounts: vec![path("/tmp")],
        hidden_paths: vec![],
        landlock: LandlockPlan {
            ro_paths: vec![path("/"), path("/proc")],
            rw_paths: vec![path("/dev"), path("/tmp"), path("/work")],
            tcp_connect_ports: vec![443],
            tcp_bind_ports: vec![8080],
        },
        cwd: path("/work"),
        net: NetMode::Off,
        stdin: StdinMode::Inherit,
        tty: TtyMode::Auto,
        env: EnvPlan { clear: true, vars: vec![("PATH".to_owned(), bytes("/usr/bin"))] },
        command: vec![bytes("sh"), bytes("-c"), bytes("true")],
        best_effort: false,
    }
}

#[test]
fn build_command_includes_expected_linux_flags() {
    let policy = sample_policy();
    let args = build_bwrap_command(&path("/host/box-run"), &policy, &HostFacts::new()).unwrap();

    assert!(args.contains(&bytes("--ro-bind")));
    assert!(args.contains(&bytes("--unshare-net")));
    assert!(args.contains(&bytes("--clearenv")));
    assert!(args.contains(&bytes("/tmp/box-run-helper")));
    assert!(args.contains(&bytes("/host/box-run")));
    assert!(args.contains(&bytes("--landlock-ro")));
    assert!(args.contains(&bytes("--landlock-rw")));
    assert!(args.contains(&bytes("--landlock-tcp-connect")));
    assert!(args.contains(&bytes("--landlock-tcp-bind")));
}

#[test]
fn the_sandbox_has_a_session_and_namespaces_of_its_own() {
    let mut policy = sample_policy();
    for (net, last) in [(NetMode::Off, "--unshare-net"), (NetMode::Host, "--clearenv")] {
        policy.net = net;
        let args = build_bwrap_command(&path("/host/box-run"), &policy, &HostFacts::new()).unwrap();
        let expected = [
            "--new-session", "--die-with-parent", "--unshare-user", "--unshare-pid",
            "--unshare-ipc", "--unshare-uts", last,
        ];
        let expected: Vec<ByteString> = expected.iter().map(|word| bytes(word)).collect();
        assert_eq!(args[..7].to_vec(), expected);
    }
}

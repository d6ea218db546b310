use box_run::error::BoxRunError;
use box_run::program::conclude;
use box_run::UnixPath;

fn path(text: &str) -> UnixPath {
    UnixPath::from_text(text)
}

fn cause() -> Vec<String> {
    vec!["denied".to_owned(), "by rule".to_owned()]
}

#[test]
fn every_failure_has_its_message() {
    let cases = vec![
        (BoxRunError::Message("plain".to_owned()), "plain"),
        (
            BoxRunError::MissingProgram { program: "bwrap".to_owned(), source: cause() },
            "missing required program `bwrap`",
        ),
        (BoxRunError::CurrentDir(cause()), "failed to read current working directory"),
        (BoxRunError::CurrentExe(cause()), "failed to read current executable path"),
        (
            BoxRunError::CanonicalizePath { path: path("/a"), source: cause() },
            "failed to resolve source path `/a`",
        ),
        (
            BoxRunError::Metadata { path: path("/a"), source: cause() },
            "failed to inspect path `/a`",
        ),
        (
            BoxRunError::InvalidBindSpec { spec: ":".to_owned() },
            "invalid bind spec `:`; expected SRC[:DEST]",
        ),
        (
            BoxRunError::NonAbsoluteSandboxPath { path: path("a") },
            "sandbox destination `a` must be absolute",
        ),
        (
            BoxRunError::InvalidEnvAssignment { spec: "A".to_owned() },
            "invalid env assignment `A`; expected KEY=VALUE",
        ),
        (BoxRunError::EmptyEnvKey { key: "".to_owned() }, "env key `` must not be empty"),
        (
            BoxRunError::MissingCommand,
            "missing target command; pass it after `--` or set `command = [...]` in config",
        ),
        (
            BoxRunError::UnsupportedOption { message: "no".to_owned() },
            "unsupported option: no",
        ),
        (
            BoxRunError::ConfigRead { path: path("c.toml"), source: cause() },
            "failed to read config file `c.toml`",
        ),
        (
            BoxRunError::ConfigParse { path: path("c.toml"), source: cause() },
            "failed to parse config file `c.toml`",
        ),
        (
            BoxRunError::Spawn { program: path("/bin/x"), source: cause() },
            "failed to execute `/bin/x`",
        ),
        (
            BoxRunError::Wait { program: path("/bin/x"), source: cause() },
            "failed while waiting for `/bin/x`",
        ),
        (BoxRunError::ExecTarget(cause()), "sandbox helper failed to exec target command"),
        (BoxRunError::ProcessHardening(cause()), "failed to configure process hardening"),
        (
            BoxRunError::IoForward { stream: "stdout".to_owned(), source: cause() },
            "failed to forward sandbox stdout",
        ),
        (
            BoxRunError::IoForwardPanic { stream: "stderr".to_owned() },
            "sandbox stderr forwarding thread panicked",
        ),
        (BoxRunError::Landlock(cause()), "failed to configure Landlock restrictions"),
    ];
    for (error, message) in cases {
        assert_eq!(error.message(), message);
    }
}

#[test]
fn a_report_tells_of_every_cause() {
    let error = BoxRunError::CurrentDir(cause());
    assert_eq!(error.causes(), cause());
    assert_eq!(
        error.report(),
        vec![
            "error: failed to read current working directory",
            "caused by: denied",
            "caused by: by rule",
        ]
    );
    assert_eq!(BoxRunError::MissingCommand.causes(), Vec::<String>::new());
}

#[test]
fn a_failure_ends_with_exit_code_one() {
    let (code, lines) = conclude(Err(BoxRunError::Message("broken".to_owned())));
    assert_eq!(code, 1);
    assert_eq!(lines, vec!["error: broken"]);
    let (code, lines) = conclude(Ok(7));
    assert_eq!(code, 7);
    assert!(lines.is_empty());
}

#[test]
fn a_path_that_is_no_text_is_shown_with_replacements() {
    let odd = UnixPath::from_bytes(vec![0xff, b'x']);
    let error = BoxRunError::NonAbsoluteSandboxPath { path: odd };
    assert_eq!(error.message(), "sandbox destination `\u{fffd}x` must be absolute");
}

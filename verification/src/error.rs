//! What can go wrong, and how it is told.
use vstd::prelude::*;

use crate::copies::copy_texts;
use crate::text::{prefixed, surround};
use crate::unix_path::UnixPath;

verus! {

/// A failure. Where something underneath failed, `source` tells of it: the message of that
/// failure, of the one underneath it, and so on.
#[derive(Debug, PartialEq, Eq)]
#[allow(inconsistent_fields)]
pub enum BoxRunError {
    /// A failure that its text describes.
    Message(String),
    /// A program that is needed was not found.
    MissingProgram { program: String, source: Vec<String> },
    /// The current working directory could not be read.
    CurrentDir(Vec<String>),
    /// The path of the current executable could not be read.
    CurrentExe(Vec<String>),
    /// A path of the host could not be resolved.
    CanonicalizePath { path: UnixPath, source: Vec<String> },
    /// What is at a path of the host could not be found out.
    Metadata { path: UnixPath, source: Vec<String> },
    /// What was to be mounted was not written as `SRC[:DEST]`.
    InvalidBindSpec { spec: String },
    /// A path inside the sandbox was not absolute.
    NonAbsoluteSandboxPath { path: UnixPath },
    /// A variable was not written as `KEY=VALUE`.
    InvalidEnvAssignment { spec: String },
    /// A variable had no name.
    EmptyEnvKey { key: String },
    /// There was no command to run.
    MissingCommand,
    /// An option asked for what cannot be had here.
    UnsupportedOption { message: String },
    /// A configuration file could not be read.
    ConfigRead { path: UnixPath, source: Vec<String> },
    /// A configuration file was not a valid one.
    ConfigParse { path: UnixPath, source: Vec<String> },
    /// A program could not be started.
    Spawn { program: UnixPath, source: Vec<String> },
    /// Waiting for a program failed.
    Wait { program: UnixPath, source: Vec<String> },
    /// The process inside the sandbox could not turn into the command.
    ExecTarget(Vec<String>),
    /// The process inside the sandbox could not give up privileges.
    ProcessHardening(Vec<String>),
    /// A stream of the command could not be copied.
    IoForward { stream: String, source: Vec<String> },
    /// Copying a stream of the command panicked.
    IoForwardPanic { stream: String },
    /// The restrictions on the process inside the sandbox could not be put in place.
    Landlock(Vec<String>),
}

/// The model of [`BoxRunError`].
#[allow(inconsistent_fields)]
pub enum ErrorView {
    Message(Seq<char>),
    MissingProgram { program: Seq<char>, source: Seq<Seq<char>> },
    CurrentDir(Seq<Seq<char>>),
    CurrentExe(Seq<Seq<char>>),
    CanonicalizePath { path: Seq<u8>, source: Seq<Seq<char>> },
    Metadata { path: Seq<u8>, source: Seq<Seq<char>> },
    InvalidBindSpec { spec: Seq<char> },
    NonAbsoluteSandboxPath { path: Seq<u8> },
    InvalidEnvAssignment { spec: Seq<char> },
    EmptyEnvKey { key: Seq<char> },
    MissingCommand,
    UnsupportedOption { message: Seq<char> },
    ConfigRead { path: Seq<u8>, source: Seq<Seq<char>> },
    ConfigParse { path: Seq<u8>, source: Seq<Seq<char>> },
    Spawn { program: Seq<u8>, source: Seq<Seq<char>> },
    Wait { program: Seq<u8>, source: Seq<Seq<char>> },
    ExecTarget(Seq<Seq<char>>),
    ProcessHardening(Seq<Seq<char>>),
    IoForward { stream: Seq<char>, source: Seq<Seq<char>> },
    IoForwardPanic { stream: Seq<char> },
    Landlock(Seq<Seq<char>>),
}

impl DeepView for BoxRunError {
    type V = ErrorView;

    open spec fn deep_view(&self) -> ErrorView {
        match self {
            BoxRunError::Message(text) => ErrorView::Message(text.deep_view()),
            BoxRunError::MissingProgram { program, source } => ErrorView::MissingProgram {
                program: program.deep_view(),
                source: source.deep_view(),
            },
            BoxRunError::CurrentDir(source) => ErrorView::CurrentDir(source.deep_view()),
            BoxRunError::CurrentExe(source) => ErrorView::CurrentExe(source.deep_view()),
            BoxRunError::CanonicalizePath { path, source } => ErrorView::CanonicalizePath {
                path: path.deep_view(),
                source: source.deep_view(),
            },
            BoxRunError::Metadata { path, source } => ErrorView::Metadata {
                path: path.deep_view(),
                source: source.deep_view(),
            },
            BoxRunError::InvalidBindSpec { spec } => ErrorView::InvalidBindSpec {
                spec: spec.deep_view(),
            },
            BoxRunError::NonAbsoluteSandboxPath { path } => ErrorView::NonAbsoluteSandboxPath {
                path: path.deep_view(),
            },
            BoxRunError::InvalidEnvAssignment { spec } => ErrorView::InvalidEnvAssignment {
                spec: spec.deep_view(),
            },
            BoxRunError::EmptyEnvKey { key } => ErrorView::EmptyEnvKey { key: key.deep_view() },
            BoxRunError::MissingCommand => ErrorView::MissingCommand,
            BoxRunError::UnsupportedOption { message } => ErrorView::UnsupportedOption {
                message: message.deep_view(),
            },
            BoxRunError::ConfigRead { path, source } => ErrorView::ConfigRead {
                path: path.deep_view(),
                source: source.deep_view(),
            },
            BoxRunError::ConfigParse { path, source } => ErrorView::ConfigParse {
                path: path.deep_view(),
                source: source.deep_view(),
            },
            BoxRunError::Spawn { program, source } => ErrorView::Spawn {
                program: program.deep_view(),
                source: source.deep_view(),
            },
            BoxRunError::Wait { program, source } => ErrorView::Wait {
                program: program.deep_view(),
                source: source.deep_view(),
            },
            BoxRunError::ExecTarget(source) => ErrorView::ExecTarget(source.deep_view()),
            BoxRunError::ProcessHardening(source) => ErrorView::ProcessHardening(
                source.deep_view(),
            ),
            BoxRunError::IoForward { stream, source } => ErrorView::IoForward {
                stream: stream.deep_view(),
                source: source.deep_view(),
            },
            BoxRunError::IoForwardPanic { stream } => ErrorView::IoForwardPanic {
                stream: stream.deep_view(),
            },
            BoxRunError::Landlock(source) => ErrorView::Landlock(source.deep_view()),
        }
    }
}

/// The message of a failure.
pub open spec fn message_of(error: ErrorView) -> Seq<char> {
    match error {
        ErrorView::Message(text) => text,
        ErrorView::MissingProgram { program, .. } => "missing required program `"@ + program + "`"@,
        ErrorView::CurrentDir(_) => "failed to read current working directory"@,
        ErrorView::CurrentExe(_) => "failed to read current executable path"@,
        ErrorView::CanonicalizePath { path, .. } => "failed to resolve source path `"@
            + crate::text::shown_of(path)
            + "`"@,
        ErrorView::Metadata { path, .. } => "failed to inspect path `"@
            + crate::text::shown_of(path)
            + "`"@,
        ErrorView::InvalidBindSpec { spec } => "invalid bind spec `"@
            + spec
            + "`; expected SRC[:DEST]"@,
        ErrorView::NonAbsoluteSandboxPath { path } => "sandbox destination `"@
            + crate::text::shown_of(path)
            + "` must be absolute"@,
        ErrorView::InvalidEnvAssignment { spec } => "invalid env assignment `"@
            + spec
            + "`; expected KEY=VALUE"@,
        ErrorView::EmptyEnvKey { key } => "env key `"@ + key + "` must not be empty"@,
        ErrorView::MissingCommand =>
            "missing target command; pass it after `--` or set `command = [...]` in config"@,
        ErrorView::UnsupportedOption { message } => "unsupported option: "@ + message,
        ErrorView::ConfigRead { path, .. } => "failed to read config file `"@
            + crate::text::shown_of(path)
            + "`"@,
        ErrorView::ConfigParse { path, .. } => "failed to parse config file `"@
            + crate::text::shown_of(path)
            + "`"@,
        ErrorView::Spawn { program, .. } => "failed to execute `"@
            + crate::text::shown_of(program)
            + "`"@,
        ErrorView::Wait { program, .. } => "failed while waiting for `"@
            + crate::text::shown_of(program)
            + "`"@,
        ErrorView::ExecTarget(_) => "sandbox helper failed to exec target command"@,
        ErrorView::ProcessHardening(_) => "failed to configure process hardening"@,
        ErrorView::IoForward { stream, .. } => "failed to forward sandbox "@ + stream,
        ErrorView::IoForwardPanic { stream } => "sandbox "@
            + stream
            + " forwarding thread panicked"@,
        ErrorView::Landlock(_) => "failed to configure Landlock restrictions"@,
    }
}

/// What failed underneath, from the outside in.
pub open spec fn causes_of(error: ErrorView) -> Seq<Seq<char>> {
    match error {
        ErrorView::MissingProgram { source, .. } => source,
        ErrorView::CurrentDir(source) => source,
        ErrorView::CurrentExe(source) => source,
        ErrorView::CanonicalizePath { source, .. } => source,
        ErrorView::Metadata { source, .. } => source,
        ErrorView::ConfigRead { source, .. } => source,
        ErrorView::ConfigParse { source, .. } => source,
        ErrorView::Spawn { source, .. } => source,
        ErrorView::Wait { source, .. } => source,
        ErrorView::ExecTarget(source) => source,
        ErrorView::ProcessHardening(source) => source,
        ErrorView::IoForward { source, .. } => source,
        ErrorView::Landlock(source) => source,
        _ => Seq::empty(),
    }
}

/// The lines that tell of a failure: its message, and one line for each cause.
pub open spec fn report_of(error: ErrorView) -> Seq<Seq<char>> {
    seq!["error: "@ + message_of(error)] + causes_of(error).map_values(
        |cause: Seq<char>| "caused by: "@ + cause,
    )
}

impl BoxRunError {
    /// The message of the failure.
    pub fn message(&self) -> (text: String)
        ensures
            text@ == message_of(self.deep_view()),
    {
        match self {
            BoxRunError::Message(text) => text.clone(),
            BoxRunError::MissingProgram { program, .. } => surround(
                "missing required program `",
                program.as_str(),
                "`",
            ),
            BoxRunError::CurrentDir(_) => "failed to read current working directory".to_owned(),
            BoxRunError::CurrentExe(_) => "failed to read current executable path".to_owned(),
            BoxRunError::CanonicalizePath { path, .. } => surround(
                "failed to resolve source path `",
                path.display().as_str(),
                "`",
            ),
            BoxRunError::Metadata { path, .. } => surround(
                "failed to inspect path `",
                path.display().as_str(),
                "`",
            ),
            BoxRunError::InvalidBindSpec { spec } => surround(
                "invalid bind spec `",
                spec.as_str(),
                "`; expected SRC[:DEST]",
            ),
            BoxRunError::NonAbsoluteSandboxPath { path } => surround(
                "sandbox destination `",
                path.display().as_str(),
                "` must be absolute",
            ),
            BoxRunError::InvalidEnvAssignment { spec } => surround(
                "invalid env assignment `",
                spec.as_str(),
                "`; expected KEY=VALUE",
            ),
            BoxRunError::EmptyEnvKey { key } => surround(
                "env key `",
                key.as_str(),
                "` must not be empty",
            ),
            BoxRunError::MissingCommand =>
                "missing target command; pass it after `--` or set `command = [...]` in config".to_owned(),
            BoxRunError::UnsupportedOption { message } => prefixed(
                "unsupported option: ",
                message.as_str(),
            ),
            BoxRunError::ConfigRead { path, .. } => surround(
                "failed to read config file `",
                path.display().as_str(),
                "`",
            ),
            BoxRunError::ConfigParse { path, .. } => surround(
                "failed to parse config file `",
                path.display().as_str(),
                "`",
            ),
            BoxRunError::Spawn { program, .. } => surround(
                "failed to execute `",
                program.display().as_str(),
                "`",
            ),
            BoxRunError::Wait { program, .. } => surround(
                "failed while waiting for `",
                program.display().as_str(),
                "`",
            ),
            BoxRunError::ExecTarget(_) => "sandbox helper failed to exec target command".to_owned(),
            BoxRunError::ProcessHardening(_) => "failed to configure process hardening".to_owned(),
            BoxRunError::IoForward { stream, .. } => prefixed(
                "failed to forward sandbox ",
                stream.as_str(),
            ),
            BoxRunError::IoForwardPanic { stream } => surround(
                "sandbox ",
                stream.as_str(),
                " forwarding thread panicked",
            ),
            BoxRunError::Landlock(_) => "failed to configure Landlock restrictions".to_owned(),
        }
    }

    /// What failed underneath, from the outside in.
    pub fn causes(&self) -> (causes: Vec<String>)
        ensures
            causes.deep_view() == causes_of(self.deep_view()),
    {
        match self {
            BoxRunError::MissingProgram { source, .. } => copy_texts(source),
            BoxRunError::CurrentDir(source) => copy_texts(source),
            BoxRunError::CurrentExe(source) => copy_texts(source),
            BoxRunError::CanonicalizePath { source, .. } => copy_texts(source),
            BoxRunError::Metadata { source, .. } => copy_texts(source),
            BoxRunError::ConfigRead { source, .. } => copy_texts(source),
            BoxRunError::ConfigParse { source, .. } => copy_texts(source),
            BoxRunError::Spawn { source, .. } => copy_texts(source),
            BoxRunError::Wait { source, .. } => copy_texts(source),
            BoxRunError::ExecTarget(source) => copy_texts(source),
            BoxRunError::ProcessHardening(source) => copy_texts(source),
            BoxRunError::IoForward { source, .. } => copy_texts(source),
            BoxRunError::Landlock(source) => copy_texts(source),
            _ => {
                let causes: Vec<String> = Vec::new();
                assert(causes.deep_view() =~= Seq::empty());
                causes
            },
        }
    }

    /// The lines that tell of the failure.
    pub fn report(&self) -> (lines: Vec<String>)
        ensures
            lines.deep_view() == report_of(self.deep_view()),
    {
        let causes = self.causes();
        let mut lines: Vec<String> = Vec::new();
        let ghost whole = report_of(self.deep_view());
        let first = prefixed("error: ", self.message().as_str());
        assert(first@ =~= whole[0]);
        lines.push(first);
        assert(lines.deep_view() =~= whole.take(1));
        let mut i: usize = 0;
        while i < causes.len()
            invariant
                i <= causes.len(),
                whole == report_of(self.deep_view()),
                causes.deep_view() == causes_of(self.deep_view()),
                lines.deep_view() == whole.take(i + 1),
            decreases causes.len() - i,
        {
            let line = prefixed("caused by: ", causes[i].as_str());
            assert(causes.deep_view()[i as int] == causes[i as int]@);
            assert(line@ =~= whole[i + 1]);
            let ghost before = lines.deep_view();
            lines.push(line);
            assert(lines.deep_view() =~= before.push(line@));
            assert(lines.deep_view() =~= whole.take(i + 2));
            i += 1;
        }
        assert(whole.take(i + 1) =~= whole);
        lines
    }
}

/// What each message says about what failed: the text, the path or the program stands in it, and
/// nothing of what failed underneath does.
pub proof fn messages_name_what_failed(text: Seq<char>, path: Seq<u8>, source: Seq<Seq<char>>)
    ensures
        message_of(ErrorView::Message(text)) == text,
        message_of(ErrorView::MissingProgram { program: text, source })
            == "missing required program `"@ + text + "`"@,
        message_of(ErrorView::CanonicalizePath { path, source })
            == "failed to resolve source path `"@ + crate::text::shown_of(path) + "`"@,
        message_of(ErrorView::Metadata { path, source }) == "failed to inspect path `"@
            + crate::text::shown_of(path) + "`"@,
        message_of(ErrorView::InvalidBindSpec { spec: text }) == "invalid bind spec `"@ + text
            + "`; expected SRC[:DEST]"@,
        message_of(ErrorView::NonAbsoluteSandboxPath { path }) == "sandbox destination `"@
            + crate::text::shown_of(path) + "` must be absolute"@,
        message_of(ErrorView::InvalidEnvAssignment { spec: text }) == "invalid env assignment `"@
            + text + "`; expected KEY=VALUE"@,
        message_of(ErrorView::EmptyEnvKey { key: text }) == "env key `"@ + text
            + "` must not be empty"@,
        message_of(ErrorView::UnsupportedOption { message: text }) == "unsupported option: "@
            + text,
        message_of(ErrorView::ConfigRead { path, source }) == "failed to read config file `"@
            + crate::text::shown_of(path) + "`"@,
        message_of(ErrorView::ConfigParse { path, source }) == "failed to parse config file `"@
            + crate::text::shown_of(path) + "`"@,
        message_of(ErrorView::Spawn { program: path, source }) == "failed to execute `"@
            + crate::text::shown_of(path) + "`"@,
        message_of(ErrorView::Wait { program: path, source }) == "failed while waiting for `"@
            + crate::text::shown_of(path) + "`"@,
        message_of(ErrorView::IoForward { stream: text, source }) == "failed to forward sandbox "@
            + text,
        message_of(ErrorView::IoForwardPanic { stream: text }) == "sandbox "@ + text
            + " forwarding thread panicked"@,
        message_of(ErrorView::CurrentDir(source)) == "failed to read current working directory"@,
        message_of(ErrorView::CurrentExe(source)) == "failed to read current executable path"@,
        message_of(ErrorView::ExecTarget(source))
            == "sandbox helper failed to exec target command"@,
        message_of(ErrorView::ProcessHardening(source))
            == "failed to configure process hardening"@,
        message_of(ErrorView::Landlock(source)) == "failed to configure Landlock restrictions"@,
{
}

/// Whatever failed underneath is told in full, from the outside in. Where nothing did, there is
/// nothing to tell.
pub proof fn causes_are_kept(text: Seq<char>, path: Seq<u8>, source: Seq<Seq<char>>)
    ensures
        causes_of(ErrorView::MissingProgram { program: text, source }) == source,
        causes_of(ErrorView::CurrentDir(source)) == source,
        causes_of(ErrorView::CurrentExe(source)) == source,
        causes_of(ErrorView::CanonicalizePath { path, source }) == source,
        causes_of(ErrorView::Metadata { path, source }) == source,
        causes_of(ErrorView::ConfigRead { path, source }) == source,
        causes_of(ErrorView::ConfigParse { path, source }) == source,
        causes_of(ErrorView::Spawn { program: path, source }) == source,
        causes_of(ErrorView::Wait { program: path, source }) == source,
        causes_of(ErrorView::ExecTarget(source)) == source,
        causes_of(ErrorView::ProcessHardening(source)) == source,
        causes_of(ErrorView::IoForward { stream: text, source }) == source,
        causes_of(ErrorView::Landlock(source)) == source,
        causes_of(ErrorView::Message(text)).len() == 0,
        causes_of(ErrorView::InvalidBindSpec { spec: text }).len() == 0,
        causes_of(ErrorView::NonAbsoluteSandboxPath { path }).len() == 0,
        causes_of(ErrorView::InvalidEnvAssignment { spec: text }).len() == 0,
        causes_of(ErrorView::EmptyEnvKey { key: text }).len() == 0,
        causes_of(ErrorView::MissingCommand).len() == 0,
        causes_of(ErrorView::UnsupportedOption { message: text }).len() == 0,
        causes_of(ErrorView::IoForwardPanic { stream: text }).len() == 0,
{
}

} // verus!

//! How a program is started, and how it ended.
use vstd::prelude::*;

use crate::byte_string::ByteString;
use crate::unix_path::UnixPath;

verus! {

/// A standard stream.
#[derive(Clone, Copy, Debug, PartialEq, Eq, Structural)]
pub enum Stream {
    Stdin,
    Stdout,
    Stderr,
}

/// What a standard stream of a program is connected to.
#[derive(Clone, Copy, Debug, PartialEq, Eq, Structural)]
pub enum StdioEnd {
    /// What this process has there.
    Inherit,
    /// Nothing.
    Null,
    /// A pipe from or to this process.
    Piped,
}

/// Who moves the data of the standard streams.
#[derive(Clone, Copy, Debug, PartialEq, Eq, Structural)]
pub enum StdioMode {
    /// The program itself.
    Direct,
    /// This process, which copies the output of the program and, if so asked, its input.
    Forwarded { copy_stdin: bool },
}

/// The standard streams of a program.
#[derive(Clone, Copy, Debug, PartialEq, Eq, Structural)]
pub struct StdioPlan {
    pub stdin: StdioEnd,
    pub stdout: StdioEnd,
    pub stderr: StdioEnd,
    pub mode: StdioMode,
}

/// A program to start.
#[derive(Debug, PartialEq, Eq)]
pub struct Launch {
    pub program: UnixPath,
    pub args: Vec<ByteString>,
    pub stdio: StdioPlan,
}

/// The model of [`Launch`].
pub struct LaunchView {
    pub program: Seq<u8>,
    pub args: Seq<Seq<u8>>,
    pub stdio: StdioPlan,
}

impl DeepView for Launch {
    type V = LaunchView;

    open spec fn deep_view(&self) -> LaunchView {
        LaunchView {
            program: self.program.deep_view(),
            args: self.args.deep_view(),
            stdio: self.stdio,
        }
    }
}

/// How a program ended: with an exit code, or by a signal.
#[derive(Clone, Copy, Debug, PartialEq, Eq, Structural)]
pub struct ChildStatus {
    pub code: Option<i32>,
    pub signal: Option<i32>,
}

/// How copying a stream ended.
#[derive(Debug, PartialEq, Eq)]
pub enum CopyOutcome {
    /// The stream was not copied.
    NotCopied,
    /// All of it was copied.
    Copied,
    /// Copying failed.
    Failed(Vec<String>),
    /// Copying panicked.
    Panicked,
}

/// The model of [`CopyOutcome`].
pub enum CopyOutcomeView {
    NotCopied,
    Copied,
    Failed(Seq<Seq<char>>),
    Panicked,
}

impl DeepView for CopyOutcome {
    type V = CopyOutcomeView;

    open spec fn deep_view(&self) -> CopyOutcomeView {
        match self {
            CopyOutcome::NotCopied => CopyOutcomeView::NotCopied,
            CopyOutcome::Copied => CopyOutcomeView::Copied,
            CopyOutcome::Failed(source) => CopyOutcomeView::Failed(source.deep_view()),
            CopyOutcome::Panicked => CopyOutcomeView::Panicked,
        }
    }
}

/// What came of starting a program.
#[derive(Debug, PartialEq, Eq)]
pub enum LaunchResult {
    /// It could not be started.
    SpawnFailed(Vec<String>),
    /// It was started, and waiting for it failed.
    WaitFailed(Vec<String>),
    /// It ended.
    Exited { status: ChildStatus, stdout: CopyOutcome, stderr: CopyOutcome },
}

/// The model of [`LaunchResult`].
pub enum LaunchResultView {
    SpawnFailed(Seq<Seq<char>>),
    WaitFailed(Seq<Seq<char>>),
    Exited { status: ChildStatus, stdout: CopyOutcomeView, stderr: CopyOutcomeView },
}

impl DeepView for LaunchResult {
    type V = LaunchResultView;

    open spec fn deep_view(&self) -> LaunchResultView {
        match self {
            LaunchResult::SpawnFailed(source) => LaunchResultView::SpawnFailed(
                source.deep_view(),
            ),
            LaunchResult::WaitFailed(source) => LaunchResultView::WaitFailed(source.deep_view()),
            LaunchResult::Exited { status, stdout, stderr } => LaunchResultView::Exited {
                status: *status,
                stdout: stdout.deep_view(),
                stderr: stderr.deep_view(),
            },
        }
    }
}

} // verus!

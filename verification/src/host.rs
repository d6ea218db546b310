//! What is known about the host, and what has to be found out or done there.
//!
//! Decisions are made from [`HostFacts`] alone. Where a decision needs something that is not
//! among them, it halts with the [`Query`] to put to the host. Once the answer is recorded the
//! decision is made anew, and comes as far as the facts carry it.
use vstd::prelude::*;

use crate::byte_string::ByteString;
use crate::config::SandboxConfig;
use crate::config::SandboxConfigView;
use crate::error::{BoxRunError, ErrorView};
use crate::landlock_support::{LandlockRuleset, LandlockRulesetView};
use crate::launch::{Launch, LaunchResult, LaunchResultView, LaunchView, Stream};
use crate::order::bytes_equal;
use crate::unix_path::UnixPath;

verus! {

/// Something to find out or to do on the host.
#[derive(Debug, PartialEq, Eq)]
pub enum Query {
    /// Read and parse a configuration file.
    LoadConfig(UnixPath),
    /// Find the current working directory.
    CurrentDir,
    /// Resolve a path.
    Canonicalize(UnixPath),
    /// Find out whether a path is a directory.
    Inspect(UnixPath),
    /// Read an environment variable.
    Var(String),
    /// Ask the kernel for its version of Landlock.
    LandlockVersion,
    /// Search for the program `bwrap`.
    FindBwrap,
    /// Ask the program for its version.
    BwrapVersion(UnixPath),
    /// Find the path of this executable.
    CurrentExe,
    /// Find out whether a standard stream of this process is a terminal.
    IsTerminal(Stream),
    /// Create an empty file, the one with this number. The first has the number 0.
    HiddenFile(usize),
    /// Log a warning, together with the ABI of Landlock where there is one.
    Warn { text: String, landlock_abi: Option<u32> },
    /// Start a program and wait for it.
    Launch(Launch),
    /// Make sure that this process gains no privileges.
    NoNewPrivs,
    /// Restrict what this process can reach.
    Restrict(LandlockRuleset),
    /// Turn this process into a program with these arguments.
    Exec(ByteString, Vec<ByteString>),
    /// Print lines.
    Print(Vec<String>),
}

/// The model of [`Query`].
pub enum QueryView {
    LoadConfig(Seq<u8>),
    CurrentDir,
    Canonicalize(Seq<u8>),
    Inspect(Seq<u8>),
    Var(Seq<char>),
    LandlockVersion,
    FindBwrap,
    BwrapVersion(Seq<u8>),
    CurrentExe,
    IsTerminal(Stream),
    HiddenFile(nat),
    Warn { text: Seq<char>, landlock_abi: Option<u32> },
    Launch(LaunchView),
    NoNewPrivs,
    Restrict(LandlockRulesetView),
    Exec(Seq<u8>, Seq<Seq<u8>>),
    Print(Seq<Seq<char>>),
}

impl DeepView for Query {
    type V = QueryView;

    open spec fn deep_view(&self) -> QueryView {
        match self {
            Query::LoadConfig(path) => QueryView::LoadConfig(path.deep_view()),
            Query::CurrentDir => QueryView::CurrentDir,
            Query::Canonicalize(path) => QueryView::Canonicalize(path.deep_view()),
            Query::Inspect(path) => QueryView::Inspect(path.deep_view()),
            Query::Var(name) => QueryView::Var(name.deep_view()),
            Query::LandlockVersion => QueryView::LandlockVersion,
            Query::FindBwrap => QueryView::FindBwrap,
            Query::BwrapVersion(path) => QueryView::BwrapVersion(path.deep_view()),
            Query::CurrentExe => QueryView::CurrentExe,
            Query::IsTerminal(stream) => QueryView::IsTerminal(*stream),
            Query::HiddenFile(number) => QueryView::HiddenFile(*number as nat),
            Query::Warn { text, landlock_abi } => QueryView::Warn {
                text: text.deep_view(),
                landlock_abi: *landlock_abi,
            },
            Query::Launch(launch) => QueryView::Launch(launch.deep_view()),
            Query::NoNewPrivs => QueryView::NoNewPrivs,
            Query::Restrict(ruleset) => QueryView::Restrict(ruleset.deep_view()),
            Query::Exec(program, args) => QueryView::Exec(program.deep_view(), args.deep_view()),
            Query::Print(lines) => QueryView::Print(lines.deep_view()),
        }
    }
}

/// Why a decision was not made.
#[derive(Debug, PartialEq, Eq)]
pub enum Halt {
    /// The answer to a query is needed first.
    Ask(Query),
    /// What was decided is to fail.
    Fail(BoxRunError),
}

/// The model of [`Halt`].
pub enum HaltView {
    Ask(QueryView),
    Fail(ErrorView),
}

impl DeepView for Halt {
    type V = HaltView;

    open spec fn deep_view(&self) -> HaltView {
        match self {
            Halt::Ask(query) => HaltView::Ask(query.deep_view()),
            Halt::Fail(error) => HaltView::Fail(error.deep_view()),
        }
    }
}

/// The model of a result.
pub open spec fn outcome<T: DeepView, E: DeepView>(result: Result<T, E>) -> Result<T::V, E::V> {
    match result {
        Ok(value) => Ok(value.deep_view()),
        Err(error) => Err(error.deep_view()),
    }
}

/// All the values, or the first error where there is one.
pub open spec fn collect<A, E>(results: Seq<Result<A, E>>) -> Result<Seq<A>, E>
    decreases results.len(),
{
    if results.len() == 0 {
        Ok(Seq::empty())
    } else {
        match collect(results.drop_last()) {
            Err(error) => Err(error),
            Ok(values) => match results.last() {
                Err(error) => Err(error),
                Ok(value) => Ok(values.push(value)),
            },
        }
    }
}

/// The first error decides, whatever comes behind it.
pub proof fn collect_stops<A, E>(results: Seq<Result<A, E>>, at: int)
    requires
        0 <= at <= results.len(),
        collect(results.take(at)) is Err,
    ensures
        collect(results) == Err::<Seq<A>, E>(collect(results.take(at))->Err_0),
    decreases results.len() - at,
{
    if at < results.len() {
        assert(results.take(at + 1).drop_last() =~= results.take(at));
        collect_stops(results, at + 1);
    } else {
        assert(results.take(at) =~= results);
    }
}

/// What came of reading a configuration file.
#[derive(Debug, PartialEq, Eq)]
pub enum ConfigAnswer {
    Parsed(SandboxConfig),
    /// The file could not be read.
    Unreadable(Vec<String>),
    /// What is in the file is not a configuration.
    Malformed(Vec<String>),
}

/// The model of [`ConfigAnswer`].
pub enum ConfigAnswerView {
    Parsed(SandboxConfigView),
    Unreadable(Seq<Seq<char>>),
    Malformed(Seq<Seq<char>>),
}

impl DeepView for ConfigAnswer {
    type V = ConfigAnswerView;

    open spec fn deep_view(&self) -> ConfigAnswerView {
        match self {
            ConfigAnswer::Parsed(config) => ConfigAnswerView::Parsed(config.deep_view()),
            ConfigAnswer::Unreadable(source) => ConfigAnswerView::Unreadable(source.deep_view()),
            ConfigAnswer::Malformed(source) => ConfigAnswerView::Malformed(source.deep_view()),
        }
    }
}

/// What came of doing something that yields nothing.
#[derive(Debug, PartialEq, Eq)]
pub enum Attempt {
    Done,
    Failed(Vec<String>),
}

/// The model of [`Attempt`].
pub enum AttemptView {
    Done,
    Failed(Seq<Seq<char>>),
}

impl DeepView for Attempt {
    type V = AttemptView;

    open spec fn deep_view(&self) -> AttemptView {
        match self {
            Attempt::Done => AttemptView::Done,
            Attempt::Failed(source) => AttemptView::Failed(source.deep_view()),
        }
    }
}

/// What is known about the host: the answers to the queries that were put to it. A failure comes
/// with its message, that of the failure underneath, and so on.
#[derive(Debug)]
pub struct HostFacts {
    pub configs: Vec<(UnixPath, ConfigAnswer)>,
    pub current_dir: Option<Result<UnixPath, Vec<String>>>,
    pub canonical: Vec<(UnixPath, Result<UnixPath, Vec<String>>)>,
    pub is_dir: Vec<(UnixPath, Result<bool, Vec<String>>)>,
    pub vars: Vec<(String, Option<ByteString>)>,
    /// The version of Landlock, or a negative number without Landlock.
    pub landlock_version: Option<i64>,
    pub bwrap: Option<Result<UnixPath, Vec<String>>>,
    /// What `bwrap` printed when asked for its version.
    pub bwrap_version: Option<Result<ByteString, Vec<String>>>,
    pub current_exe: Option<Result<UnixPath, Vec<String>>>,
    pub stdin_terminal: Option<bool>,
    pub stdout_terminal: Option<bool>,
    pub stderr_terminal: Option<bool>,
    /// The files that were created, in that order.
    pub hidden_files: Vec<Result<UnixPath, Vec<String>>>,
    /// Whether the warning was logged.
    pub warned: bool,
    pub launched: Option<LaunchResult>,
    pub no_new_privs: Option<Attempt>,
    pub restricted: Option<Attempt>,
    /// Why this process could not turn into the program.
    pub exec_failure: Option<Vec<String>>,
    /// Whether the lines were printed.
    pub printed: bool,
}

/// The model of [`HostFacts`]. Unlike those it can hold infinitely many answers, up to all of
/// them: then it is a host.
pub struct HostView {
    pub configs: Map<Seq<u8>, ConfigAnswerView>,
    pub current_dir: Option<Result<Seq<u8>, Seq<Seq<char>>>>,
    pub canonical: Map<Seq<u8>, Result<Seq<u8>, Seq<Seq<char>>>>,
    pub is_dir: Map<Seq<u8>, Result<bool, Seq<Seq<char>>>>,
    pub vars: Map<Seq<char>, Option<Seq<u8>>>,
    pub landlock_version: Option<i64>,
    pub bwrap: Option<Result<Seq<u8>, Seq<Seq<char>>>>,
    pub bwrap_version: Option<Result<Seq<u8>, Seq<Seq<char>>>>,
    pub current_exe: Option<Result<Seq<u8>, Seq<Seq<char>>>>,
    pub stdin_terminal: Option<bool>,
    pub stdout_terminal: Option<bool>,
    pub stderr_terminal: Option<bool>,
    pub hidden_files: Map<nat, Result<Seq<u8>, Seq<Seq<char>>>>,
    pub warned: bool,
    pub launched: Option<LaunchResultView>,
    pub no_new_privs: Option<AttemptView>,
    pub restricted: Option<AttemptView>,
    pub exec_failure: Option<Seq<Seq<char>>>,
    pub printed: bool,
}

/// The model of an answer that may not be there yet.
pub open spec fn answered<T: DeepView, E: DeepView>(answer: Option<Result<T, E>>) -> Option<
    Result<T::V, E::V>,
> {
    match answer {
        Some(result) => Some(outcome(result)),
        None => None,
    }
}

/// What is written in a table by path. What was written last holds.
pub open spec fn by_path<T>(entries: Seq<(UnixPath, T)>) -> Map<Seq<u8>, T>
    decreases entries.len(),
{
    if entries.len() == 0 {
        Map::empty()
    } else {
        by_path(entries.drop_last()).insert(entries.last().0@, entries.last().1)
    }
}

/// What is written in a table by name. What was written last holds.
pub open spec fn by_name<T>(entries: Seq<(String, T)>) -> Map<Seq<char>, T>
    decreases entries.len(),
{
    if entries.len() == 0 {
        Map::empty()
    } else {
        by_name(entries.drop_last()).insert(entries.last().0@, entries.last().1)
    }
}

impl View for HostFacts {
    type V = HostView;

    open spec fn view(&self) -> HostView {
        HostView {
            configs: by_path(self.configs@).map_values(|answer: ConfigAnswer| answer.deep_view()),
            current_dir: answered(self.current_dir),
            canonical: by_path(self.canonical@).map_values(
                |answer: Result<UnixPath, Vec<String>>| outcome(answer),
            ),
            is_dir: by_path(self.is_dir@).map_values(
                |answer: Result<bool, Vec<String>>| outcome(answer),
            ),
            vars: by_name(self.vars@).map_values(|value: Option<ByteString>| value.deep_view()),
            landlock_version: self.landlock_version,
            bwrap: answered(self.bwrap),
            bwrap_version: answered(self.bwrap_version),
            current_exe: answered(self.current_exe),
            stdin_terminal: self.stdin_terminal,
            stdout_terminal: self.stdout_terminal,
            stderr_terminal: self.stderr_terminal,
            hidden_files: Map::new(
                |i: nat| i < self.hidden_files@.len(),
                |i: nat| outcome(self.hidden_files@[i as int]),
            ),
            warned: self.warned,
            launched: self.launched.deep_view(),
            no_new_privs: self.no_new_privs.deep_view(),
            restricted: self.restricted.deep_view(),
            exec_failure: self.exec_failure.deep_view(),
            printed: self.printed,
        }
    }
}

/// Nothing is known.
pub open spec fn unknown_host() -> HostView {
    HostView {
        configs: Map::empty(),
        current_dir: None,
        canonical: Map::empty(),
        is_dir: Map::empty(),
        vars: Map::empty(),
        landlock_version: None,
        bwrap: None,
        bwrap_version: None,
        current_exe: None,
        stdin_terminal: None,
        stdout_terminal: None,
        stderr_terminal: None,
        hidden_files: Map::empty(),
        warned: false,
        launched: None,
        no_new_privs: None,
        restricted: None,
        exec_failure: None,
        printed: false,
    }
}

/// Printing lines, after which all is well.
pub open spec fn printed_of(lines: Seq<Seq<char>>, host: HostView) -> Result<u8, HaltView> {
    if host.printed {
        Ok(0)
    } else {
        Err(HaltView::Ask(QueryView::Print(lines)))
    }
}

/// Prints lines. Once that is done the exit code is that of success.
pub(crate) fn print_lines(lines: Vec<String>, facts: &HostFacts) -> (code: Result<u8, Halt>)
    ensures
        outcome(code) == printed_of(lines.deep_view(), facts@),
{
    if facts.printed {
        Ok(0)
    } else {
        Err(Halt::Ask(Query::Print(lines)))
    }
}

/// What the table holds for a path.
pub(crate) fn find_path<'a, T>(entries: &'a Vec<(UnixPath, T)>, path: &UnixPath) -> (found: Option<
    &'a T,
>)
    ensures
        match found {
            Some(value) => by_path(entries@).dom().contains(path@) && *value == by_path(
                entries@,
            )[path@],
            None => !by_path(entries@).dom().contains(path@),
        },
{
    let mut i: usize = entries.len();
    assert(entries@.take(i as int) =~= entries@);
    while i > 0
        invariant
            i <= entries.len(),
            by_path(entries@).dom().contains(path@) == by_path(
                entries@.take(i as int),
            ).dom().contains(path@),
            by_path(entries@)[path@] == by_path(entries@.take(i as int))[path@],
        decreases i,
    {
        assert(entries@.take(i as int).drop_last() =~= entries@.take(i - 1));
        assert(entries@.take(i as int).last() == entries@[i - 1]);
        if bytes_equal(entries[i - 1].0.as_bytes(), path.as_bytes()) {
            return Some(&entries[i - 1].1);
        }
        i -= 1;
    }
    None
}

/// What the table holds for a name.
pub(crate) fn find_name<'a, T>(entries: &'a Vec<(String, T)>, name: &String) -> (found: Option<
    &'a T,
>)
    ensures
        match found {
            Some(value) => by_name(entries@).dom().contains(name@) && *value == by_name(
                entries@,
            )[name@],
            None => !by_name(entries@).dom().contains(name@),
        },
{
    let mut i: usize = entries.len();
    assert(entries@.take(i as int) =~= entries@);
    while i > 0
        invariant
            i <= entries.len(),
            by_name(entries@).dom().contains(name@) == by_name(
                entries@.take(i as int),
            ).dom().contains(name@),
            by_name(entries@)[name@] == by_name(entries@.take(i as int))[name@],
        decreases i,
    {
        assert(entries@.take(i as int).drop_last() =~= entries@.take(i - 1));
        assert(entries@.take(i as int).last() == entries@[i - 1]);
        if entries[i - 1].0 == *name {
            return Some(&entries[i - 1].1);
        }
        i -= 1;
    }
    None
}

impl HostFacts {
    /// Nothing is known.
    pub fn new() -> (facts: HostFacts)
        ensures
            facts@ == unknown_host(),
    {
        let facts = HostFacts {
            configs: Vec::new(),
            current_dir: None,
            canonical: Vec::new(),
            is_dir: Vec::new(),
            vars: Vec::new(),
            landlock_version: None,
            bwrap: None,
            bwrap_version: None,
            current_exe: None,
            stdin_terminal: None,
            stdout_terminal: None,
            stderr_terminal: None,
            hidden_files: Vec::new(),
            warned: false,
            launched: None,
            no_new_privs: None,
            restricted: None,
            exec_failure: None,
            printed: false,
        };
        assert(facts@.configs =~= Map::empty());
        assert(facts@.canonical =~= Map::empty());
        assert(facts@.is_dir =~= Map::empty());
        assert(facts@.vars =~= Map::empty());
        assert(facts@.hidden_files =~= Map::empty());
        facts
    }

    /// Records what came of reading a configuration file.
    pub fn record_config(&mut self, path: UnixPath, answer: ConfigAnswer)
        ensures
            final(self)@ == (HostView {
                configs: old(self)@.configs.insert(path@, answer.deep_view()),
                ..old(self)@
            }),
    {
        let ghost before = self.configs@;
        self.configs.push((path, answer));
        assert(self.configs@.drop_last() =~= before);
        assert(self@.configs =~= old(self)@.configs.insert(path@, answer.deep_view()));
    }

    /// Records what came of resolving a path.
    pub fn record_canonical(&mut self, path: UnixPath, answer: Result<UnixPath, Vec<String>>)
        ensures
            final(self)@ == (HostView {
                canonical: old(self)@.canonical.insert(path@, outcome(answer)),
                ..old(self)@
            }),
    {
        let ghost before = self.canonical@;
        self.canonical.push((path, answer));
        assert(self.canonical@.drop_last() =~= before);
        assert(self@.canonical =~= old(self)@.canonical.insert(path@, outcome(answer)));
    }

    /// Records whether a path is a directory.
    pub fn record_is_dir(&mut self, path: UnixPath, answer: Result<bool, Vec<String>>)
        ensures
            final(self)@ == (HostView {
                is_dir: old(self)@.is_dir.insert(path@, outcome(answer)),
                ..old(self)@
            }),
    {
        let ghost before = self.is_dir@;
        self.is_dir.push((path, answer));
        assert(self.is_dir@.drop_last() =~= before);
        assert(self@.is_dir =~= old(self)@.is_dir.insert(path@, outcome(answer)));
    }

    /// Records the value of an environment variable.
    pub fn record_var(&mut self, name: String, value: Option<ByteString>)
        ensures
            final(self)@ == (HostView {
                vars: old(self)@.vars.insert(name@, value.deep_view()),
                ..old(self)@
            }),
    {
        let ghost before = self.vars@;
        self.vars.push((name, value));
        assert(self.vars@.drop_last() =~= before);
        assert(self@.vars =~= old(self)@.vars.insert(name@, value.deep_view()));
    }

    /// Records the file that was created next.
    pub fn record_hidden_file(&mut self, answer: Result<UnixPath, Vec<String>>)
        ensures
            final(self).hidden_files@.len() == old(self).hidden_files@.len() + 1,
            final(self)@ == (HostView {
                hidden_files: old(self)@.hidden_files.insert(
                    old(self).hidden_files@.len(),
                    outcome(answer),
                ),
                ..old(self)@
            }),
    {
        self.hidden_files.push(answer);
        assert(self@.hidden_files =~= old(self)@.hidden_files.insert(
            old(self).hidden_files@.len(),
            outcome(answer),
        ));
    }
}

/// Where all went well, what is gathered is each of the values at its place. Where something
/// failed, it is the first failure.
pub proof fn collect_gathers<A, E>(results: Seq<Result<A, E>>)
    ensures
        match collect(results) {
            Ok(values) => values.len() == results.len() && forall|i: int|
                0 <= i < results.len() ==> #[trigger] results[i] == Ok::<A, E>(values[i]),
            Err(error) => exists|i: int|
                0 <= i < results.len() && #[trigger] results[i] == Err::<A, E>(error) && forall|
                    j: int,
                |
                    0 <= j < i ==> (#[trigger] results[j]) is Ok,
        },
    decreases results.len(),
{
    if results.len() > 0 {
        let earlier = results.drop_last();
        collect_gathers(earlier);
        assert forall|i: int| 0 <= i < earlier.len() implies #[trigger] earlier[i]
            == results[i] by {}
        match collect(earlier) {
            Err(error) => {
                let i = choose|i: int|
                    0 <= i < earlier.len() && #[trigger] earlier[i] == Err::<A, E>(error)
                        && forall|j: int| 0 <= j < i ==> (#[trigger] earlier[j]) is Ok;
                assert(results[i] == Err::<A, E>(error));
                assert forall|j: int| 0 <= j < i implies (#[trigger] results[j]) is Ok by {
                    assert(earlier[j] is Ok);
                }
            },
            Ok(values) => {
                assert forall|j: int| 0 <= j < earlier.len() implies #[trigger] results[j]
                    == Ok::<A, E>(values[j]) by {
                    assert(earlier[j] == results[j]);
                }
                let last = results.len() - 1;
                assert(results[last] == results.last());
            },
        }
    }
}

} // verus!

//! What a command line and a configuration file ask for together.
use vstd::prelude::*;

use crate::byte_string::ByteString;
use crate::cli::{FsLayout, NetMode, RunArgs, RunArgsView, StdinMode, TtyMode};
use crate::config::{SandboxConfig, SandboxConfigView};
use crate::copies::{copy_path, copy_paths, copy_ports, copy_strings, copy_texts};
use crate::env_map::EnvMap;
use crate::error::{BoxRunError, ErrorView};
use crate::text::split_once;
use crate::unix_path::UnixPath;

verus! {

/// What a command line and a configuration file ask for together.
#[derive(Clone, Debug, PartialEq, Eq)]
pub struct PolicyInput {
    pub fs_layout: FsLayout,
    pub ro: Vec<String>,
    pub rw: Vec<String>,
    pub tmpfs: Vec<UnixPath>,
    pub hide: Vec<UnixPath>,
    pub cwd: Option<UnixPath>,
    pub net: NetMode,
    pub stdin: StdinMode,
    pub tty: TtyMode,
    pub allow_tcp_connect: Vec<u16>,
    pub allow_tcp_bind: Vec<u16>,
    pub env_clear: bool,
    pub env_pass: Vec<String>,
    pub env_set: EnvMap,
    pub command: Vec<ByteString>,
    pub best_effort: bool,
}

/// The model of [`PolicyInput`].
pub struct PolicyInputView {
    pub fs_layout: FsLayout,
    pub ro: Seq<Seq<char>>,
    pub rw: Seq<Seq<char>>,
    pub tmpfs: Seq<Seq<u8>>,
    pub hide: Seq<Seq<u8>>,
    pub cwd: Option<Seq<u8>>,
    pub net: NetMode,
    pub stdin: StdinMode,
    pub tty: TtyMode,
    pub allow_tcp_connect: Seq<u16>,
    pub allow_tcp_bind: Seq<u16>,
    pub env_clear: bool,
    pub env_pass: Seq<Seq<char>>,
    pub env_set: Seq<(Seq<char>, Seq<u8>)>,
    pub command: Seq<Seq<u8>>,
    pub best_effort: bool,
}

impl DeepView for PolicyInput {
    type V = PolicyInputView;

    open spec fn deep_view(&self) -> PolicyInputView {
        PolicyInputView {
            fs_layout: self.fs_layout,
            ro: self.ro.deep_view(),
            rw: self.rw.deep_view(),
            tmpfs: self.tmpfs.deep_view(),
            hide: self.hide.deep_view(),
            cwd: self.cwd.deep_view(),
            net: self.net,
            stdin: self.stdin,
            tty: self.tty,
            allow_tcp_connect: self.allow_tcp_connect@,
            allow_tcp_bind: self.allow_tcp_bind@,
            env_clear: self.env_clear,
            env_pass: self.env_pass.deep_view(),
            env_set: self.env_set.deep_view(),
            command: self.command.deep_view(),
            best_effort: self.best_effort,
        }
    }
}

/// The first of the two that is there.
pub open spec fn first_of<T>(first: Option<T>, second: Option<T>) -> Option<T> {
    if first is Some {
        first
    } else {
        second
    }
}

/// What is there, or else `default`.
pub open spec fn value_or<T>(value: Option<T>, default: T) -> T {
    match value {
        Some(value) => value,
        None => default,
    }
}

/// A variable and its value, written as `KEY=VALUE`: what comes before the first `=` and what
/// comes behind it.
pub open spec fn assignment_of(spec: Seq<char>) -> Result<(Seq<char>, Seq<u8>), ErrorView> {
    match crate::text::split_once_of(spec, '=') {
        None => Err(ErrorView::InvalidEnvAssignment { spec }),
        Some((key, value)) => if key.len() == 0 {
            Err(ErrorView::EmptyEnvKey { key })
        } else {
            Ok((key, vstd::utf8::encode_utf8(value)))
        },
    }
}

/// Variables and their values, each written as `KEY=VALUE`. The first that is not decides what
/// is wrong.
pub open spec fn explicit_env_of(specs: Seq<Seq<char>>) -> Result<
    Seq<(Seq<char>, Seq<u8>)>,
    ErrorView,
> {
    crate::host::collect(specs.map_values(|spec: Seq<char>| assignment_of(spec)))
}

/// Texts as strings of bytes.
pub open spec fn encoded(texts: Seq<Seq<char>>) -> Seq<Seq<u8>> {
    texts.map_values(|text: Seq<char>| vstd::utf8::encode_utf8(text))
}

/// Names and values as variables.
pub open spec fn encoded_values(set: Seq<(Seq<char>, Seq<char>)>) -> Seq<(Seq<char>, Seq<u8>)> {
    set.map_values(|var: (Seq<char>, Seq<char>)| (var.0, vstd::utf8::encode_utf8(var.1)))
}

/// Whether the environment is cleared.
pub open spec fn env_clear_of(config: SandboxConfigView, args: RunArgsView) -> bool {
    let inherit = match args.inherit_env {
        Some(inherit) => Some(!inherit),
        None => None,
    };
    value_or(first_of(args.env_clear, first_of(inherit, config.env.clear)), true)
}

/// What the command line says comes before what the configuration file says, and that before the
/// defaults. Lists are put together, those of the configuration file first. Of two values for a
/// variable, that of the command line holds.
pub open spec fn policy_input_of(config: SandboxConfigView, args: RunArgsView) -> Result<
    PolicyInputView,
    ErrorView,
> {
    let command = if args.command.len() == 0 {
        encoded(config.command)
    } else {
        args.command
    };
    match explicit_env_of(args.env) {
        Err(error) => Err(error),
        Ok(assignments) => if command.len() == 0 {
            Err(ErrorView::MissingCommand)
        } else {
            Ok(
                PolicyInputView {
                    fs_layout: value_or(
                        first_of(args.fs_layout, config.fs.layout),
                        FsLayout::HostRo,
                    ),
                    ro: config.fs.ro + args.ro,
                    rw: config.fs.rw + args.rw,
                    tmpfs: config.fs.tmpfs + args.tmpfs,
                    hide: config.fs.hide + args.hide,
                    cwd: first_of(args.cwd, config.process.cwd),
                    net: value_or(first_of(args.net, config.net.mode), NetMode::Off),
                    stdin: value_or(
                        first_of(args.stdin, config.process.stdin),
                        StdinMode::Inherit,
                    ),
                    tty: value_or(first_of(args.tty, config.process.tty), TtyMode::Auto),
                    allow_tcp_connect: config.net.allow_tcp_connect + args.allow_tcp_connect,
                    allow_tcp_bind: config.net.allow_tcp_bind + args.allow_tcp_bind,
                    env_clear: env_clear_of(config, args),
                    env_pass: config.env.pass + args.env_pass,
                    env_set: crate::env_map::with_vars(
                        crate::env_map::with_vars(
                            Seq::empty(),
                            encoded_values(config.env.set),
                        ),
                        assignments,
                    ),
                    command,
                    best_effort: value_or(first_of(args.best_effort, config.best_effort), false),
                },
            )
        },
    }
}

/// The first of the two that is there.
pub fn either<T>(first: Option<T>, second: Option<T>) -> (found: Option<T>)
    ensures
        found == first_of(first, second),
{
    match first {
        Some(value) => Some(value),
        None => second,
    }
}

/// The right list behind the left one.
pub fn merge_vecs<T: DeepView>(left: Vec<T>, right: Vec<T>) -> (merged: Vec<T>)
    ensures
        merged@ == left@ + right@,
        merged.deep_view() == left.deep_view() + right.deep_view(),
{
    let ghost first = left.deep_view();
    let ghost second = right.deep_view();
    let mut merged = left;
    let mut tail = right;
    merged.append(&mut tail);
    assert(merged.deep_view() =~= first + second);
    merged
}

/// Reads variables and their values, each written as `KEY=VALUE`.
pub fn parse_explicit_env(explicit_set: &Vec<String>) -> (vars: Result<
    Vec<(String, ByteString)>,
    BoxRunError,
>)
    ensures
        crate::host::outcome(vars) == explicit_env_of(explicit_set.deep_view()),
{
    let ghost results = explicit_set.deep_view().map_values(
        |spec: Seq<char>| assignment_of(spec),
    );
    let mut vars: Vec<(String, ByteString)> = Vec::new();
    assert(vars.deep_view() =~= Seq::empty());
    assert(results.take(0) =~= Seq::empty());
    let mut i: usize = 0;
    while i < explicit_set.len()
        invariant
            i <= explicit_set.len(),
            results == explicit_set.deep_view().map_values(|spec: Seq<char>| assignment_of(spec)),
            crate::host::collect(results.take(i as int)) == Ok::<_, ErrorView>(vars.deep_view()),
        decreases explicit_set.len() - i,
    {
        let spec = &explicit_set[i];
        assert(results.take(i + 1).drop_last() =~= results.take(i as int));
        assert(results.take(i + 1).last() == assignment_of(spec@));
        proof {
            if assignment_of(spec@) is Err {
                crate::host::collect_stops(results, i + 1);
            }
        }
        match split_once(spec.as_str(), '=') {
            None => {
                return Err(BoxRunError::InvalidEnvAssignment { spec: spec.clone() });
            },
            Some((key, value)) => {
                if key.as_str().is_empty() {
                    return Err(BoxRunError::EmptyEnvKey { key });
                }
                let var = (key, ByteString::from_text(value.as_str()));
                let ghost before = vars.deep_view();
                vars.push(var);
                assert(vars.deep_view() =~= before.push(var.deep_view()));
            },
        }
        i += 1;
    }
    assert(results.take(i as int) =~= results);
    Ok(vars)
}

/// The texts as strings of bytes.
pub fn encode_texts(texts: &Vec<String>) -> (strings: Vec<ByteString>)
    ensures
        strings.deep_view() == encoded(texts.deep_view()),
{
    let mut strings: Vec<ByteString> = Vec::new();
    let mut i: usize = 0;
    while i < texts.len()
        invariant
            i <= texts.len(),
            strings.deep_view() == encoded(texts.deep_view()).take(i as int),
        decreases texts.len() - i,
    {
        let string = ByteString::from_text(texts[i].as_str());
        let ghost before = strings.deep_view();
        strings.push(string);
        assert(strings.deep_view() =~= before.push(string@));
        assert(strings.deep_view() =~= encoded(texts.deep_view()).take(i + 1));
        i += 1;
    }
    assert(encoded(texts.deep_view()).take(i as int) =~= encoded(texts.deep_view()));
    strings
}

/// Names and values as variables.
pub fn encode_values(set: &Vec<(String, String)>) -> (vars: Vec<(String, ByteString)>)
    ensures
        vars.deep_view() == encoded_values(set.deep_view()),
{
    let mut vars: Vec<(String, ByteString)> = Vec::new();
    let mut i: usize = 0;
    while i < set.len()
        invariant
            i <= set.len(),
            vars.deep_view() == encoded_values(set.deep_view()).take(i as int),
        decreases set.len() - i,
    {
        let var = (set[i].0.clone(), ByteString::from_text(set[i].1.as_str()));
        let ghost before = vars.deep_view();
        vars.push(var);
        assert(vars.deep_view() =~= before.push(var.deep_view()));
        assert(vars.deep_view() =~= encoded_values(set.deep_view()).take(i + 1));
        i += 1;
    }
    assert(encoded_values(set.deep_view()).take(i as int) =~= encoded_values(set.deep_view()));
    vars
}

impl PolicyInput {
    /// Puts together what the configuration file and the command line ask for.
    pub fn from_sources(config: &SandboxConfig, args: &RunArgs) -> (input: Result<
        PolicyInput,
        BoxRunError,
    >)
        ensures
            crate::host::outcome(input) == policy_input_of(config.deep_view(), args.deep_view()),
            input matches Ok(input) ==> input.env_set.well_formed(),
    {
        let mut env_set = EnvMap::new();
        env_set.insert_all(&encode_values(&config.env.set));
        let explicit = parse_explicit_env(&args.env)?;
        env_set.insert_all(&explicit);

        let command = if args.command.is_empty() {
            encode_texts(&config.command)
        } else {
            copy_strings(&args.command)
        };
        assert(command.deep_view().len() == command.len());
        assert(args.command.deep_view().len() == args.command.len());
        if command.is_empty() {
            return Err(BoxRunError::MissingCommand);
        }
        let inherit = match args.inherit_env {
            Some(inherit) => Some(!inherit),
            None => None,
        };
        Ok(
            PolicyInput {
                fs_layout: either(args.fs_layout, config.fs.layout).unwrap_or(FsLayout::HostRo),
                ro: merge_vecs(copy_texts(&config.fs.ro), copy_texts(&args.ro)),
                rw: merge_vecs(copy_texts(&config.fs.rw), copy_texts(&args.rw)),
                tmpfs: merge_vecs(copy_paths(&config.fs.tmpfs), copy_paths(&args.tmpfs)),
                hide: merge_vecs(copy_paths(&config.fs.hide), copy_paths(&args.hide)),
                cwd: either(copy_path(&args.cwd), copy_path(&config.process.cwd)),
                net: either(args.net, config.net.mode).unwrap_or(NetMode::Off),
                stdin: either(args.stdin, config.process.stdin).unwrap_or(StdinMode::Inherit),
                tty: either(args.tty, config.process.tty).unwrap_or(TtyMode::Auto),
                allow_tcp_connect: merge_vecs(
                    copy_ports(&config.net.allow_tcp_connect),
                    copy_ports(&args.allow_tcp_connect),
                ),
                allow_tcp_bind: merge_vecs(
                    copy_ports(&config.net.allow_tcp_bind),
                    copy_ports(&args.allow_tcp_bind),
                ),
                env_clear: either(args.env_clear, either(inherit, config.env.clear)).unwrap_or(
                    true,
                ),
                env_pass: merge_vecs(copy_texts(&config.env.pass), copy_texts(&args.env_pass)),
                env_set,
                command,
                best_effort: either(args.best_effort, config.best_effort).unwrap_or(false),
            },
        )
    }
}

/// What is written as `KEY=VALUE` is read as that variable and that value. A name has no `=` in it;
/// a value may.
pub proof fn assignment_is_read(key: Seq<char>, value: Seq<char>)
    requires
        !key.contains('='),
    ensures
        key.len() > 0 ==> assignment_of(key + seq!['='] + value) == Ok::<_, ErrorView>(
            (key, vstd::utf8::encode_utf8(value)),
        ),
        key.len() == 0 ==> assignment_of(key + seq!['='] + value) == Err::<
            (Seq<char>, Seq<u8>),
            _,
        >(ErrorView::EmptyEnvKey { key: Seq::empty() }),
{
    crate::text::first_mark_splits(key, '=', value);
    if key.len() == 0 {
        assert(key =~= Seq::empty());
    }
}

/// What has no `=` in it is no assignment.
pub proof fn assignment_needs_a_separator(spec: Seq<char>)
    requires
        !spec.contains('='),
    ensures
        assignment_of(spec) == Err::<(Seq<char>, Seq<u8>), _>(
            ErrorView::InvalidEnvAssignment { spec },
        ),
{
    crate::text::text_without_mark_is_whole(spec, '=');
}

/// Assignments are read one by one: each gives the variable at its place, and the first that
/// cannot be read is the failure.
pub proof fn assignments_are_read_one_by_one(specs: Seq<Seq<char>>)
    ensures
        match explicit_env_of(specs) {
            Ok(vars) => vars.len() == specs.len() && forall|i: int|
                0 <= i < specs.len() ==> assignment_of(#[trigger] specs[i]) == Ok::<_, ErrorView>(
                    vars[i],
                ),
            Err(error) => exists|i: int|
                0 <= i < specs.len() && assignment_of(#[trigger] specs[i]) == Err::<
                    (Seq<char>, Seq<u8>),
                    _,
                >(error) && forall|j: int|
                    0 <= j < i ==> assignment_of(#[trigger] specs[j]) is Ok,
        },
{
    let results = specs.map_values(|spec: Seq<char>| assignment_of(spec));
    crate::host::collect_gathers(results);
    assert forall|i: int| 0 <= i < specs.len() implies #[trigger] results[i] == assignment_of(
        specs[i],
    ) by {}
    match explicit_env_of(specs) {
        Ok(vars) => {
            assert forall|i: int| 0 <= i < specs.len() implies assignment_of(#[trigger] specs[i])
                == Ok::<_, ErrorView>(vars[i]) by {
                assert(results[i] == Ok::<_, ErrorView>(vars[i]));
            }
        },
        Err(error) => {
            let i = choose|i: int|
                0 <= i < results.len() && #[trigger] results[i] == Err::<
                    (Seq<char>, Seq<u8>),
                    ErrorView,
                >(error) && forall|j: int| 0 <= j < i ==> (#[trigger] results[j]) is Ok;
            assert(assignment_of(specs[i]) == results[i]);
            assert forall|j: int| 0 <= j < i implies assignment_of(#[trigger] specs[j]) is Ok by {
                assert(results[j] is Ok);
            }
        },
    }
}

/// Lists are put together: what the configuration file lists, and then what the command line
/// lists. Nothing is left out and nothing is added.
pub proof fn lists_are_put_together(config: SandboxConfigView, args: RunArgsView)
    requires
        policy_input_of(config, args) is Ok,
    ensures
        ({
            let input = policy_input_of(config, args)->Ok_0;
            &&& input.ro == config.fs.ro + args.ro
            &&& input.rw == config.fs.rw + args.rw
            &&& input.tmpfs == config.fs.tmpfs + args.tmpfs
            &&& input.hide == config.fs.hide + args.hide
            &&& input.allow_tcp_connect == config.net.allow_tcp_connect + args.allow_tcp_connect
            &&& input.allow_tcp_bind == config.net.allow_tcp_bind + args.allow_tcp_bind
            &&& input.env_pass == config.env.pass + args.env_pass
        }),
{
}

/// Where neither the command line nor the configuration file says anything, the sandbox is closed:
/// the host's files are read-only, the network is off, the environment is cleared, and nothing is
/// left unenforced.
pub proof fn silence_is_closed(config: SandboxConfigView, args: RunArgsView)
    requires
        policy_input_of(config, args) is Ok,
    ensures
        ({
            let input = policy_input_of(config, args)->Ok_0;
            &&& args.fs_layout is None && config.fs.layout is None ==> input.fs_layout
                == FsLayout::HostRo
            &&& args.net is None && config.net.mode is None ==> input.net == NetMode::Off
            &&& args.stdin is None && config.process.stdin is None ==> input.stdin
                == StdinMode::Inherit
            &&& args.tty is None && config.process.tty is None ==> input.tty == TtyMode::Auto
            &&& args.cwd is None && config.process.cwd is None ==> input.cwd is None
            &&& args.env_clear is None && args.inherit_env is None && config.env.clear is None
                ==> input.env_clear
            &&& args.best_effort is None && config.best_effort is None ==> !input.best_effort
        }),
{
}

/// There is something to run exactly when the command line or the configuration file names it.
/// What they ask for can be put together exactly when that is so and every variable on the command
/// line is an assignment.
pub proof fn sources_can_be_put_together(config: SandboxConfigView, args: RunArgsView)
    ensures
        policy_input_of(config, args) is Ok <==> (args.command.len() > 0 || config.command.len()
            > 0) && forall|i: int|
            0 <= i < args.env.len() ==> assignment_of(#[trigger] args.env[i]) is Ok,
        policy_input_of(config, args) == Err::<PolicyInputView, _>(ErrorView::MissingCommand)
            <==> args.command.len() == 0 && config.command.len() == 0 && forall|i: int|
            0 <= i < args.env.len() ==> assignment_of(#[trigger] args.env[i]) is Ok,
{
    assignments_are_read_one_by_one(args.env);
}

/// The command of the configuration file is run word by word where the command line has none.
pub proof fn configured_command_is_kept(config: SandboxConfigView, args: RunArgsView, at: int)
    requires
        policy_input_of(config, args) is Ok,
        args.command.len() == 0,
        0 <= at < config.command.len(),
    ensures
        policy_input_of(config, args)->Ok_0.command.len() == config.command.len(),
        policy_input_of(config, args)->Ok_0.command[at] == vstd::utf8::encode_utf8(
            config.command[at],
        ),
{
}

/// A variable that the configuration file sets has that value, where the file sets it once and the
/// command line does not set it.
pub proof fn configured_variable_is_set(config: SandboxConfigView, args: RunArgsView, at: int)
    requires
        policy_input_of(config, args) is Ok,
        0 <= at < config.env.set.len(),
        forall|i: int|
            at < i < config.env.set.len() ==> (#[trigger] config.env.set[i]).0
                != config.env.set[at].0,
        forall|i: int|
            0 <= i < explicit_env_of(args.env)->Ok_0.len() ==> (
            #[trigger] explicit_env_of(args.env)->Ok_0[i]).0 != config.env.set[at].0,
    ensures
        crate::env_map::value_of(
            policy_input_of(config, args)->Ok_0.env_set,
            config.env.set[at].0,
        ) == Some(vstd::utf8::encode_utf8(config.env.set[at].1)),
{
    let none = Seq::<(Seq<char>, Seq<u8>)>::empty();
    let configured = encoded_values(config.env.set);
    let name = config.env.set[at].0;
    crate::env_map::with_vars_sets_the_last(none, configured, name);
    crate::env_map::with_vars_sets_the_last(
        crate::env_map::with_vars(none, configured),
        explicit_env_of(args.env)->Ok_0,
        name,
    );
    assert(configured[at] == (name, vstd::utf8::encode_utf8(config.env.set[at].1)));
    assert forall|j: int| at < j < configured.len() implies (#[trigger] configured[j]).0
        != name by {
        assert(configured[j].0 == config.env.set[j].0);
    }
}

} // verus!

//! What is read in the arguments of `bwrap`: one step after another, and then the program that is
//! started inside the sandbox. Nothing that is mounted, set or run can be taken for an option.
use vstd::prelude::*;

use crate::cli::{FsLayout, HelperArgsView, NetMode};
use crate::host::HostView;
use crate::policy::{EnvPlanView, HiddenPathView, LandlockPlanView, MountKind, MountView};
use crate::policy::PolicyView;

verus! {

/// The words of steps, one behind the other. A step is an option and its values.
pub open spec fn words_of(steps: Seq<Seq<Seq<u8>>>) -> Seq<Seq<u8>> {
    crate::bwrap::concat_map(steps, |step: Seq<Seq<u8>>| step)
}

/// The word that ends the options.
pub open spec fn end_of_options() -> Seq<u8> {
    crate::bwrap::arg("--"@)
}

/// The steps that are read in words, and what comes behind the end of the options. `values` tells
/// how many values an option has. Words in which an option is unknown or lacks a value, or that
/// have no end of options, cannot be read.
pub open spec fn read(words: Seq<Seq<u8>>, values: spec_fn(Seq<u8>) -> Option<nat>) -> Option<
    (Seq<Seq<Seq<u8>>>, Seq<Seq<u8>>),
>
    decreases words.len(),
{
    if words.len() == 0 {
        None
    } else if words[0] == end_of_options() {
        Some((Seq::empty(), words.drop_first()))
    } else {
        match values(words[0]) {
            None => None,
            Some(count) => if words.len() < count + 1 {
                None
            } else {
                match read(words.skip(count as int + 1), values) {
                    None => None,
                    Some((steps, rest)) => Some((seq![words.take(count as int + 1)] + steps, rest)),
                }
            },
        }
    }
}

/// Each step is an option with as many values as it has.
pub open spec fn well_formed(
    steps: Seq<Seq<Seq<u8>>>,
    values: spec_fn(Seq<u8>) -> Option<nat>,
) -> bool {
    forall|i: int|
        0 <= i < steps.len() ==> {
            let step = #[trigger] steps[i];
            step.len() > 0 && step[0] != end_of_options() && values(step[0]) == Some(
                (step.len() - 1) as nat,
            )
        }
}

proof fn words_of_one_more_in_front(step: Seq<Seq<u8>>, steps: Seq<Seq<Seq<u8>>>)
    ensures
        words_of(seq![step] + steps) == step + words_of(steps),
    decreases steps.len(),
{
    let all = seq![step] + steps;
    if steps.len() == 0 {
        assert(all.drop_last() =~= steps);
        assert(words_of(steps) =~= Seq::empty());
        assert(words_of(all) =~= step + words_of(steps));
    } else {
        words_of_one_more_in_front(step, steps.drop_last());
        assert(all.drop_last() =~= seq![step] + steps.drop_last());
        assert(words_of(all) =~= step + words_of(steps));
    }
}

/// Steps that are written down one behind the other, with the end of the options behind them, are
/// read as they were.
pub proof fn steps_read_back(
    steps: Seq<Seq<Seq<u8>>>,
    rest: Seq<Seq<u8>>,
    values: spec_fn(Seq<u8>) -> Option<nat>,
)
    requires
        well_formed(steps, values),
    ensures
        read(words_of(steps) + seq![end_of_options()] + rest, values) == Some((steps, rest)),
    decreases steps.len(),
{
    let words = words_of(steps) + seq![end_of_options()] + rest;
    if steps.len() == 0 {
        assert(words.drop_first() =~= rest);
        assert(steps =~= Seq::empty());
    } else {
        let step = steps[0];
        let others = steps.drop_first();
        assert(steps =~= seq![step] + others);
        words_of_one_more_in_front(step, others);
        assert forall|i: int| 0 <= i < others.len() implies {
            let other = #[trigger] others[i];
            other.len() > 0 && other[0] != end_of_options() && values(other[0]) == Some(
                (other.len() - 1) as nat,
            )
        } by {
            assert(others[i] == steps[i + 1]);
        }
        steps_read_back(others, rest, values);
        let behind = words_of(others) + seq![end_of_options()] + rest;
        assert(words =~= step + behind);
        assert(words.skip(step.len() as int) =~= behind);
        assert(words.take(step.len() as int) =~= step);
    }
}

proof fn words_of_both(a: Seq<Seq<Seq<u8>>>, b: Seq<Seq<Seq<u8>>>)
    ensures
        words_of(a + b) == words_of(a) + words_of(b),
    decreases a.len(),
{
    if a.len() == 0 {
        assert(a + b =~= b);
        assert(words_of(a + b) =~= words_of(a) + words_of(b));
    } else {
        let others = a.drop_first();
        assert(a =~= seq![a[0]] + others);
        assert(a + b =~= seq![a[0]] + (others + b));
        words_of_one_more_in_front(a[0], others);
        words_of_one_more_in_front(a[0], others + b);
        words_of_both(others, b);
        assert(words_of(a + b) =~= words_of(a) + words_of(b));
    }
}

proof fn words_of_single(step: Seq<Seq<u8>>)
    ensures
        words_of(seq![step]) == step,
{
    assert(seq![step] + Seq::<Seq<Seq<u8>>>::empty() =~= seq![step]);
    words_of_one_more_in_front(step, Seq::empty());
    assert(step + Seq::<Seq<u8>>::empty() =~= step);
}

proof fn words_of_pieces<A>(
    items: Seq<A>,
    steps: spec_fn(A) -> Seq<Seq<Seq<u8>>>,
    words: spec_fn(A) -> Seq<Seq<u8>>,
)
    requires
        forall|item: A| words_of(#[trigger] steps(item)) == words(item),
    ensures
        words_of(crate::bwrap::concat_map(items, steps)) == crate::bwrap::concat_map(items, words),
    decreases items.len(),
{
    if items.len() > 0 {
        words_of_pieces(items.drop_last(), steps, words);
        words_of_both(
            crate::bwrap::concat_map(items.drop_last(), steps),
            steps(items.last()),
        );
    }
}

proof fn well_formed_both(
    a: Seq<Seq<Seq<u8>>>,
    b: Seq<Seq<Seq<u8>>>,
    values: spec_fn(Seq<u8>) -> Option<nat>,
)
    requires
        well_formed(a, values),
        well_formed(b, values),
    ensures
        well_formed(a + b, values),
{
    assert forall|i: int| 0 <= i < (a + b).len() implies {
        let step = #[trigger] (a + b)[i];
        step.len() > 0 && step[0] != end_of_options() && values(step[0]) == Some(
            (step.len() - 1) as nat,
        )
    } by {
        if i < a.len() {
            assert((a + b)[i] == a[i]);
        } else {
            assert((a + b)[i] == b[i - a.len()]);
        }
    }
}

proof fn well_formed_pieces<A>(
    items: Seq<A>,
    steps: spec_fn(A) -> Seq<Seq<Seq<u8>>>,
    values: spec_fn(Seq<u8>) -> Option<nat>,
)
    requires
        forall|item: A| well_formed(#[trigger] steps(item), values),
    ensures
        well_formed(crate::bwrap::concat_map(items, steps), values),
    decreases items.len(),
{
    if items.len() > 0 {
        well_formed_pieces(items.drop_last(), steps, values);
        well_formed_both(
            crate::bwrap::concat_map(items.drop_last(), steps),
            steps(items.last()),
            values,
        );
    }
}

/// How many values an option of `bwrap` has.
#[verifier::opaque]
pub open spec fn bwrap_values() -> spec_fn(Seq<u8>) -> Option<nat> {
    |word: Seq<u8>|
        if word == crate::bwrap::arg("--new-session"@) || word == crate::bwrap::arg(
            "--die-with-parent"@,
        ) || word == crate::bwrap::arg("--unshare-user"@) || word == crate::bwrap::arg(
            "--unshare-pid"@,
        ) || word == crate::bwrap::arg(
            "--unshare-ipc"@,
        ) || word == crate::bwrap::arg("--unshare-uts"@) || word == crate::bwrap::arg(
            "--unshare-net"@,
        ) || word == crate::bwrap::arg("--clearenv"@) {
            Some(0nat)
        } else if word == crate::bwrap::arg("--setenv"@) || word == crate::bwrap::arg("--ro-bind"@)
            || word == crate::bwrap::arg("--bind"@) {
            Some(2nat)
        } else if word == crate::bwrap::arg("--tmpfs"@) || word == crate::bwrap::arg("--dir"@)
            || word == crate::bwrap::arg("--proc"@) || word == crate::bwrap::arg("--dev"@) || word
            == crate::bwrap::arg("--remount-ro"@) || word == crate::bwrap::arg("--chdir"@) {
            Some(1nat)
        } else {
            None
        }
}

proof fn bwrap_options_differ()
    ensures
        bwrap_values()(crate::bwrap::arg("--new-session"@)) == Some(0nat),
        bwrap_values()(crate::bwrap::arg("--die-with-parent"@)) == Some(0nat),
        bwrap_values()(crate::bwrap::arg("--unshare-user"@)) == Some(0nat),
        bwrap_values()(crate::bwrap::arg("--unshare-pid"@)) == Some(0nat),
        bwrap_values()(crate::bwrap::arg("--unshare-ipc"@)) == Some(0nat),
        bwrap_values()(crate::bwrap::arg("--unshare-uts"@)) == Some(0nat),
        bwrap_values()(crate::bwrap::arg("--unshare-net"@)) == Some(0nat),
        bwrap_values()(crate::bwrap::arg("--clearenv"@)) == Some(0nat),
        bwrap_values()(crate::bwrap::arg("--setenv"@)) == Some(2nat),
        bwrap_values()(crate::bwrap::arg("--ro-bind"@)) == Some(2nat),
        bwrap_values()(crate::bwrap::arg("--bind"@)) == Some(2nat),
        bwrap_values()(crate::bwrap::arg("--tmpfs"@)) == Some(1nat),
        bwrap_values()(crate::bwrap::arg("--dir"@)) == Some(1nat),
        bwrap_values()(crate::bwrap::arg("--proc"@)) == Some(1nat),
        bwrap_values()(crate::bwrap::arg("--dev"@)) == Some(1nat),
        bwrap_values()(crate::bwrap::arg("--remount-ro"@)) == Some(1nat),
        bwrap_values()(crate::bwrap::arg("--chdir"@)) == Some(1nat),
        bwrap_values()(end_of_options()) is None,
{
    reveal(bwrap_values);
    reveal_strlit("--new-session");
    reveal_strlit("--die-with-parent");
    reveal_strlit("--unshare-user");
    reveal_strlit("--unshare-pid");
    reveal_strlit("--unshare-ipc");
    reveal_strlit("--unshare-uts");
    reveal_strlit("--unshare-net");
    reveal_strlit("--clearenv");
    reveal_strlit("--setenv");
    reveal_strlit("--ro-bind");
    reveal_strlit("--bind");
    reveal_strlit("--tmpfs");
    reveal_strlit("--dir");
    reveal_strlit("--proc");
    reveal_strlit("--dev");
    reveal_strlit("--remount-ro");
    reveal_strlit("--chdir");
    reveal_strlit("--");
    vstd::utf8::is_ascii_chars_encode_utf8("--new-session"@);
    vstd::utf8::is_ascii_chars_encode_utf8("--die-with-parent"@);
    vstd::utf8::is_ascii_chars_encode_utf8("--unshare-user"@);
    vstd::utf8::is_ascii_chars_encode_utf8("--unshare-pid"@);
    vstd::utf8::is_ascii_chars_encode_utf8("--unshare-ipc"@);
    vstd::utf8::is_ascii_chars_encode_utf8("--unshare-uts"@);
    vstd::utf8::is_ascii_chars_encode_utf8("--unshare-net"@);
    vstd::utf8::is_ascii_chars_encode_utf8("--clearenv"@);
    vstd::utf8::is_ascii_chars_encode_utf8("--setenv"@);
    vstd::utf8::is_ascii_chars_encode_utf8("--ro-bind"@);
    vstd::utf8::is_ascii_chars_encode_utf8("--bind"@);
    vstd::utf8::is_ascii_chars_encode_utf8("--tmpfs"@);
    vstd::utf8::is_ascii_chars_encode_utf8("--dir"@);
    vstd::utf8::is_ascii_chars_encode_utf8("--proc"@);
    vstd::utf8::is_ascii_chars_encode_utf8("--dev"@);
    vstd::utf8::is_ascii_chars_encode_utf8("--remount-ro"@);
    vstd::utf8::is_ascii_chars_encode_utf8("--chdir"@);
    vstd::utf8::is_ascii_chars_encode_utf8("--"@);
    assert(crate::bwrap::arg("--bind"@)[2] != crate::bwrap::arg("--proc"@)[2]);
}

/// An option without a value.
pub open spec fn plain(option: Seq<char>) -> Seq<Seq<u8>> {
    seq![crate::bwrap::arg(option)]
}

/// An option with one value.
pub open spec fn with_one(option: Seq<char>, value: Seq<u8>) -> Seq<Seq<u8>> {
    seq![crate::bwrap::arg(option), value]
}

/// An option with two values.
pub open spec fn with_two(option: Seq<char>, first: Seq<u8>, second: Seq<u8>) -> Seq<Seq<u8>> {
    seq![crate::bwrap::arg(option), first, second]
}

/// The steps to a session and namespaces of its own.
pub open spec fn namespace_steps(net: NetMode) -> Seq<Seq<Seq<u8>>> {
    seq![
        plain("--new-session"@),
        plain("--die-with-parent"@),
        plain("--unshare-user"@),
        plain("--unshare-pid"@),
        plain("--unshare-ipc"@),
        plain("--unshare-uts"@),
    ] + if net == NetMode::Off {
        seq![plain("--unshare-net"@)]
    } else {
        Seq::empty()
    }
}

/// The steps to the environment.
pub open spec fn env_steps(env: EnvPlanView) -> Seq<Seq<Seq<u8>>> {
    (if env.clear {
        seq![plain("--clearenv"@)]
    } else {
        Seq::empty()
    }) + env.vars.map_values(
        |var: (Seq<char>, Seq<u8>)| with_two("--setenv"@, crate::bwrap::arg(var.0), var.1),
    )
}

/// The step to the host's files, where the layout shows them.
pub open spec fn layout_steps(fs_layout: FsLayout) -> Seq<Seq<Seq<u8>>> {
    if fs_layout == FsLayout::HostRo {
        seq![with_two("--ro-bind"@, crate::bwrap::arg("/"@), crate::bwrap::arg("/"@))]
    } else {
        Seq::empty()
    }
}

/// The steps to empty directories.
pub open spec fn tmpfs_steps(paths: Seq<Seq<u8>>) -> Seq<Seq<Seq<u8>>> {
    paths.map_values(|path: Seq<u8>| with_one("--tmpfs"@, path))
}

/// The steps to one mount.
pub open spec fn mount_steps(
    src: Seq<u8>,
    dest: Seq<u8>,
    kind: MountKind,
    readonly: bool,
) -> Seq<Seq<Seq<u8>>> {
    (match kind {
        MountKind::Dir => seq![with_one("--dir"@, dest)],
        MountKind::File => match crate::unix_path::parent_of(dest) {
            Some(parent) => seq![with_one("--dir"@, parent)],
            None => Seq::empty(),
        },
    }) + seq![
        if readonly {
            with_two("--ro-bind"@, src, dest)
        } else {
            with_two("--bind"@, src, dest)
        },
    ]
}

/// The steps to mounts, in their order.
pub open spec fn mounts_steps(mounts: Seq<MountView>, readonly: bool) -> Seq<Seq<Seq<u8>>> {
    crate::bwrap::concat_map(
        mounts,
        |mount: MountView| mount_steps(mount.src, mount.dest, mount.kind, readonly),
    )
}

/// The steps to the file systems of the kernel.
pub open spec fn kernel_steps() -> Seq<Seq<Seq<u8>>> {
    seq![
        with_one("--proc"@, crate::bwrap::arg("/proc"@)),
        with_one("--dev"@, crate::bwrap::arg("/dev"@)),
    ]
}

/// The steps that cover one hidden path. A file is covered by `file`.
pub open spec fn cover_steps(hidden: HiddenPathView, file: Seq<u8>) -> Seq<Seq<Seq<u8>>> {
    match hidden.kind {
        MountKind::Dir => seq![
            with_one("--tmpfs"@, hidden.dest),
            with_one("--remount-ro"@, hidden.dest),
        ],
        MountKind::File => seq![with_two("--ro-bind"@, file, hidden.dest)],
    }
}

/// The steps that cover the hidden paths.
pub open spec fn hidden_steps(hidden: Seq<HiddenPathView>, host: HostView) -> Seq<Seq<Seq<u8>>>
    decreases hidden.len(),
{
    if hidden.len() == 0 {
        Seq::empty()
    } else {
        let number = crate::bwrap::files_in(hidden.drop_last());
        hidden_steps(hidden.drop_last(), host) + cover_steps(
            hidden.last(),
            host.hidden_files[number]->Ok_0,
        )
    }
}

/// The steps up to what hides paths.
pub open spec fn setup_steps(current_exe: Seq<u8>, policy: PolicyView) -> Seq<Seq<Seq<u8>>> {
    namespace_steps(policy.net) + env_steps(policy.env) + layout_steps(policy.fs_layout)
        + tmpfs_steps(policy.tmpfs_mounts) + mount_steps(
        current_exe,
        crate::bwrap::helper_path_of(),
        MountKind::File,
        true,
    ) + mounts_steps(policy.ro_mounts, true) + mounts_steps(policy.rw_mounts, false)
        + kernel_steps()
}

/// The steps to the sandbox of a policy. What hides paths comes behind everything that is mounted.
pub open spec fn steps_of(current_exe: Seq<u8>, policy: PolicyView, host: HostView) -> Seq<
    Seq<Seq<u8>>,
> {
    setup_steps(current_exe, policy) + hidden_steps(policy.hidden_paths, host) + seq![
        with_one("--chdir"@, policy.cwd),
    ]
}

/// The program that is started inside the sandbox: this executable, with its own options and the
/// command.
pub open spec fn helper_words(policy: PolicyView) -> Seq<Seq<u8>> {
    seq![crate::bwrap::helper_path_of(), crate::bwrap::arg("__helper"@)]
        + crate::bwrap::landlock_args_of(policy.landlock) + seq![end_of_options()]
        + policy.command
}

proof fn words_of_mapped<A>(items: Seq<A>, step: spec_fn(A) -> Seq<Seq<u8>>)
    ensures
        words_of(items.map_values(step)) == crate::bwrap::concat_map(items, step),
    decreases items.len(),
{
    let steps = items.map_values(step);
    if items.len() > 0 {
        words_of_mapped(items.drop_last(), step);
        assert(steps.drop_last() =~= items.drop_last().map_values(step));
    }
}

proof fn namespace_steps_are_read(net: NetMode)
    ensures
        words_of(namespace_steps(net)) == crate::bwrap::namespace_args_of(net),
        well_formed(namespace_steps(net), bwrap_values()),
{
    bwrap_options_differ();
    let plain_words = |option: Seq<u8>| seq![option];
    let words = crate::bwrap::namespace_args_of(net);
    assert(namespace_steps(net) =~= words.map_values(plain_words));
    words_of_mapped(words, plain_words);
    each_alone(words);
}

proof fn each_alone<A>(items: Seq<A>)
    ensures
        crate::bwrap::concat_map(items, |item: A| seq![item]) == items,
    decreases items.len(),
{
    if items.len() > 0 {
        each_alone(items.drop_last());
        assert(items =~= items.drop_last().push(items.last()));
    }
    assert(crate::bwrap::concat_map(items, |item: A| seq![item]) =~= items);
}

proof fn env_steps_are_read(env: EnvPlanView)
    ensures
        words_of(env_steps(env)) == crate::bwrap::env_args_of(env),
        well_formed(env_steps(env), bwrap_values()),
{
    bwrap_options_differ();
    let set = |var: (Seq<char>, Seq<u8>)|
        with_two("--setenv"@, crate::bwrap::arg(var.0), var.1);
    let cleared = if env.clear {
        seq![plain("--clearenv"@)]
    } else {
        Seq::empty()
    };
    words_of_mapped(env.vars, set);
    words_of_both(cleared, env.vars.map_values(set));
    words_of_single(plain("--clearenv"@));
    same_pieces(
        env.vars,
        set,
        |var: (Seq<char>, Seq<u8>)|
            seq![crate::bwrap::arg("--setenv"@), crate::bwrap::arg(var.0), var.1],
    );
}

proof fn same_pieces<A, B>(
    items: Seq<A>,
    first: spec_fn(A) -> Seq<B>,
    second: spec_fn(A) -> Seq<B>,
)
    requires
        forall|item: A| #[trigger] first(item) == second(item),
    ensures
        crate::bwrap::concat_map(items, first) == crate::bwrap::concat_map(items, second),
{
    assert(first =~= second);
}

proof fn path_steps_are_read(option: Seq<char>, paths: Seq<Seq<u8>>)
    ensures
        words_of(paths.map_values(|path: Seq<u8>| with_one(option, path)))
            == crate::bwrap::flagged_paths_of(option, paths),
{
    let step = |path: Seq<u8>| with_one(option, path);
    words_of_mapped(paths, step);
    same_pieces(paths, step, |path: Seq<u8>| seq![crate::bwrap::arg(option), path]);
}

proof fn tmpfs_steps_are_read(paths: Seq<Seq<u8>>)
    ensures
        words_of(tmpfs_steps(paths)) == crate::bwrap::tmpfs_args_of(paths),
        well_formed(tmpfs_steps(paths), bwrap_values()),
{
    bwrap_options_differ();
    path_steps_are_read("--tmpfs"@, paths);
}

proof fn layout_steps_are_read(fs_layout: FsLayout)
    ensures
        words_of(layout_steps(fs_layout)) == crate::bwrap::layout_args_of(fs_layout),
        well_formed(layout_steps(fs_layout), bwrap_values()),
{
    bwrap_options_differ();
    let root = crate::bwrap::arg("/"@);
    words_of_single(with_two("--ro-bind"@, root, root));
}

proof fn mount_steps_are_read(src: Seq<u8>, dest: Seq<u8>, kind: MountKind, readonly: bool)
    ensures
        words_of(mount_steps(src, dest, kind, readonly)) == crate::bwrap::mount_args_of(
            src,
            dest,
            kind,
            readonly,
        ),
        well_formed(mount_steps(src, dest, kind, readonly), bwrap_values()),
{
    bwrap_options_differ();
    let made = match kind {
        MountKind::Dir => seq![with_one("--dir"@, dest)],
        MountKind::File => match crate::unix_path::parent_of(dest) {
            Some(parent) => seq![with_one("--dir"@, parent)],
            None => Seq::empty(),
        },
    };
    let bound = if readonly {
        with_two("--ro-bind"@, src, dest)
    } else {
        with_two("--bind"@, src, dest)
    };
    words_of_both(made, seq![bound]);
    words_of_single(bound);
    if made.len() > 0 {
        assert(made =~= seq![made[0]]);
        words_of_single(made[0]);
    }
    assert(words_of(mount_steps(src, dest, kind, readonly)) =~= crate::bwrap::mount_args_of(
        src,
        dest,
        kind,
        readonly,
    ));
}

proof fn mounts_steps_are_read(mounts: Seq<MountView>, readonly: bool)
    ensures
        words_of(mounts_steps(mounts, readonly)) == crate::bwrap::mounts_args_of(mounts, readonly),
        well_formed(mounts_steps(mounts, readonly), bwrap_values()),
{
    let steps = |mount: MountView| mount_steps(mount.src, mount.dest, mount.kind, readonly);
    let words = |mount: MountView|
        crate::bwrap::mount_args_of(mount.src, mount.dest, mount.kind, readonly);
    assert forall|mount: MountView| words_of(#[trigger] steps(mount)) == words(mount) by {
        mount_steps_are_read(mount.src, mount.dest, mount.kind, readonly);
    }
    assert forall|mount: MountView| well_formed(#[trigger] steps(mount), bwrap_values()) by {
        mount_steps_are_read(mount.src, mount.dest, mount.kind, readonly);
    }
    words_of_pieces(mounts, steps, words);
    well_formed_pieces(mounts, steps, bwrap_values());
}

proof fn two_steps_are_read(first: Seq<Seq<u8>>, second: Seq<Seq<u8>>)
    ensures
        words_of(seq![first, second]) == first + second,
{
    assert(seq![first, second] =~= seq![first] + seq![second]);
    words_of_both(seq![first], seq![second]);
    words_of_single(first);
    words_of_single(second);
}

proof fn kernel_steps_are_read()
    ensures
        words_of(kernel_steps()) == crate::bwrap::kernel_args_of(),
        well_formed(kernel_steps(), bwrap_values()),
{
    bwrap_options_differ();
    two_steps_are_read(
        with_one("--proc"@, crate::bwrap::arg("/proc"@)),
        with_one("--dev"@, crate::bwrap::arg("/dev"@)),
    );
    assert(words_of(kernel_steps()) =~= crate::bwrap::kernel_args_of());
}

proof fn cover_steps_are_read(hidden: HiddenPathView, file: Seq<u8>)
    ensures
        hidden.kind == MountKind::Dir ==> words_of(cover_steps(hidden, file)) == seq![
            crate::bwrap::arg("--tmpfs"@),
            hidden.dest,
            crate::bwrap::arg("--remount-ro"@),
            hidden.dest,
        ],
        hidden.kind == MountKind::File ==> words_of(cover_steps(hidden, file)) == seq![
            crate::bwrap::arg("--ro-bind"@),
            file,
            hidden.dest,
        ],
        well_formed(cover_steps(hidden, file), bwrap_values()),
{
    bwrap_options_differ();
    let first = with_one("--tmpfs"@, hidden.dest);
    let second = with_one("--remount-ro"@, hidden.dest);
    two_steps_are_read(first, second);
    words_of_single(with_two("--ro-bind"@, file, hidden.dest));
    assert(first + second =~= seq![
        crate::bwrap::arg("--tmpfs"@),
        hidden.dest,
        crate::bwrap::arg("--remount-ro"@),
        hidden.dest,
    ]);
}

proof fn hidden_steps_are_read(hidden: Seq<HiddenPathView>, host: HostView)
    requires
        crate::bwrap::hidden_args_of(hidden, host) is Ok,
    ensures
        words_of(hidden_steps(hidden, host)) == crate::bwrap::hidden_args_of(hidden, host)->Ok_0,
        well_formed(hidden_steps(hidden, host), bwrap_values()),
    decreases hidden.len(),
{
    if hidden.len() > 0 {
        let earlier = hidden.drop_last();
        let number = crate::bwrap::files_in(earlier);
        let cover = cover_steps(hidden.last(), host.hidden_files[number]->Ok_0);
        hidden_steps_are_read(earlier, host);
        cover_steps_are_read(hidden.last(), host.hidden_files[number]->Ok_0);
        words_of_both(hidden_steps(earlier, host), cover);
        well_formed_both(hidden_steps(earlier, host), cover, bwrap_values());
    }
}

proof fn setup_steps_are_read(current_exe: Seq<u8>, policy: PolicyView)
    ensures
        words_of(setup_steps(current_exe, policy)) == crate::bwrap::setup_args_of(
            current_exe,
            policy,
        ),
        well_formed(setup_steps(current_exe, policy), bwrap_values()),
{
    let values = bwrap_values();
    let helper = crate::bwrap::helper_path_of();
    let s1 = namespace_steps(policy.net);
    let s2 = env_steps(policy.env);
    let s3 = layout_steps(policy.fs_layout);
    let s4 = tmpfs_steps(policy.tmpfs_mounts);
    let s5 = mount_steps(current_exe, helper, MountKind::File, true);
    let s6 = mounts_steps(policy.ro_mounts, true);
    let s7 = mounts_steps(policy.rw_mounts, false);
    let s8 = kernel_steps();
    namespace_steps_are_read(policy.net);
    env_steps_are_read(policy.env);
    layout_steps_are_read(policy.fs_layout);
    tmpfs_steps_are_read(policy.tmpfs_mounts);
    mount_steps_are_read(current_exe, helper, MountKind::File, true);
    mounts_steps_are_read(policy.ro_mounts, true);
    mounts_steps_are_read(policy.rw_mounts, false);
    kernel_steps_are_read();
    words_of_both(s1, s2);
    words_of_both(s1 + s2, s3);
    words_of_both(s1 + s2 + s3, s4);
    words_of_both(s1 + s2 + s3 + s4, s5);
    words_of_both(s1 + s2 + s3 + s4 + s5, s6);
    words_of_both(s1 + s2 + s3 + s4 + s5 + s6, s7);
    words_of_both(s1 + s2 + s3 + s4 + s5 + s6 + s7, s8);
    well_formed_both(s1, s2, values);
    well_formed_both(s1 + s2, s3, values);
    well_formed_both(s1 + s2 + s3, s4, values);
    well_formed_both(s1 + s2 + s3 + s4, s5, values);
    well_formed_both(s1 + s2 + s3 + s4 + s5, s6, values);
    well_formed_both(s1 + s2 + s3 + s4 + s5 + s6, s7, values);
    well_formed_both(s1 + s2 + s3 + s4 + s5 + s6 + s7, s8, values);
}

proof fn target_is_read(policy: PolicyView)
    ensures
        crate::bwrap::target_args_of(policy) == with_one("--chdir"@, policy.cwd)
            + seq![end_of_options()] + helper_words(policy),
{
    let landlock = crate::bwrap::landlock_args_of(policy.landlock);
    let start = crate::bwrap::helper_args_of(policy.cwd);
    let change = with_one("--chdir"@, policy.cwd);
    let helper = seq![crate::bwrap::helper_path_of(), crate::bwrap::arg("__helper"@)];
    assert(start =~= change + seq![end_of_options()] + helper);
    crate::bwrap::regroup(change + seq![end_of_options()], helper, landlock);
    crate::bwrap::regroup(
        change + seq![end_of_options()],
        helper + landlock,
        seq![end_of_options()],
    );
    crate::bwrap::regroup(
        change + seq![end_of_options()],
        helper + landlock + seq![end_of_options()],
        policy.command,
    );
}

/// Read option by option, the arguments of `bwrap` are the steps to the sandbox of the policy, and
/// then the program that is started inside it. No path, no variable and no part of the command can
/// be taken for an option, whatever it is.
pub proof fn arguments_are_read_as_steps(current_exe: Seq<u8>, policy: PolicyView, host: HostView)
    requires
        crate::bwrap::bwrap_args_of(current_exe, policy, host) is Ok,
    ensures
        read(
            crate::bwrap::bwrap_args_of(current_exe, policy, host)->Ok_0,
            bwrap_values(),
        ) == Some((steps_of(current_exe, policy, host), helper_words(policy))),
{
    let setup = setup_steps(current_exe, policy);
    let hidden = hidden_steps(policy.hidden_paths, host);
    let change = with_one("--chdir"@, policy.cwd);
    setup_steps_are_read(current_exe, policy);
    hidden_steps_are_read(policy.hidden_paths, host);
    bwrap_options_differ();
    words_of_both(setup, hidden);
    words_of_both(setup + hidden, seq![change]);
    words_of_single(change);
    well_formed_both(setup, hidden, bwrap_values());
    assert(well_formed(seq![change], bwrap_values()));
    well_formed_both(setup + hidden, seq![change], bwrap_values());
    steps_read_back(steps_of(current_exe, policy, host), helper_words(policy), bwrap_values());
    target_is_read(policy);
    crate::bwrap::regroup(
        words_of(setup) + words_of(hidden),
        change + seq![end_of_options()],
        helper_words(policy),
    );
    crate::bwrap::regroup(words_of(setup) + words_of(hidden), change, seq![end_of_options()]);
}

/// How many values an option of the helper has.
pub open spec fn helper_values() -> spec_fn(Seq<u8>) -> Option<nat> {
    |word: Seq<u8>|
        if word == crate::bwrap::arg("--landlock-ro"@) || word == crate::bwrap::arg(
            "--landlock-rw"@,
        ) || word == crate::bwrap::arg("--landlock-tcp-connect"@) || word == crate::bwrap::arg(
            "--landlock-tcp-bind"@,
        ) {
            Some(1nat)
        } else {
            None
        }
}

/// The values that steps with one value give to an option, in their order.
pub open spec fn option_values(steps: Seq<Seq<Seq<u8>>>, option: Seq<char>) -> Seq<Seq<u8>> {
    steps.filter(
        |step: Seq<Seq<u8>>| step[0] == crate::bwrap::arg(option),
    ).map_values(|step: Seq<Seq<u8>>| step[1])
}

/// The port that a word spells in decimal.
pub open spec fn port_of(word: Seq<u8>) -> u16 {
    crate::text::decimal_value(vstd::utf8::decode_utf8(word)) as u16
}

/// What the helper is asked to do, read in its words.
pub open spec fn helper_args_read(words: Seq<Seq<u8>>) -> Option<HelperArgsView> {
    match read(words, helper_values()) {
        None => None,
        Some((steps, command)) => Some(
            HelperArgsView {
                landlock_ro: option_values(steps, "--landlock-ro"@),
                landlock_rw: option_values(steps, "--landlock-rw"@),
                landlock_tcp_connect: option_values(steps, "--landlock-tcp-connect"@).map_values(
                    |word: Seq<u8>| port_of(word),
                ),
                landlock_tcp_bind: option_values(steps, "--landlock-tcp-bind"@).map_values(
                    |word: Seq<u8>| port_of(word),
                ),
                command,
            },
        ),
    }
}

/// The steps that hand each of the values to an option.
pub open spec fn value_steps(option: Seq<char>, values: Seq<Seq<u8>>) -> Seq<Seq<Seq<u8>>> {
    values.map_values(|value: Seq<u8>| with_one(option, value))
}

/// Ports as words.
pub open spec fn port_words(ports: Seq<u16>) -> Seq<Seq<u8>> {
    ports.map_values(|port: u16| crate::bwrap::arg(crate::text::decimal_of(port as nat)))
}

/// The steps that hand a plan to the helper.
pub open spec fn landlock_steps(plan: LandlockPlanView) -> Seq<Seq<Seq<u8>>> {
    value_steps("--landlock-ro"@, plan.ro_paths) + value_steps("--landlock-rw"@, plan.rw_paths)
        + value_steps("--landlock-tcp-connect"@, port_words(plan.tcp_connect_ports))
        + value_steps("--landlock-tcp-bind"@, port_words(plan.tcp_bind_ports))
}

proof fn helper_options_differ()
    ensures
        crate::bwrap::arg("--landlock-ro"@) != crate::bwrap::arg("--landlock-rw"@),
        crate::bwrap::arg("--landlock-ro"@) != crate::bwrap::arg("--landlock-tcp-connect"@),
        crate::bwrap::arg("--landlock-ro"@) != crate::bwrap::arg("--landlock-tcp-bind"@),
        crate::bwrap::arg("--landlock-rw"@) != crate::bwrap::arg("--landlock-tcp-connect"@),
        crate::bwrap::arg("--landlock-rw"@) != crate::bwrap::arg("--landlock-tcp-bind"@),
        crate::bwrap::arg("--landlock-tcp-connect"@) != crate::bwrap::arg(
            "--landlock-tcp-bind"@,
        ),
        crate::bwrap::arg("--landlock-ro"@) != end_of_options(),
        crate::bwrap::arg("--landlock-rw"@) != end_of_options(),
        crate::bwrap::arg("--landlock-tcp-connect"@) != end_of_options(),
        crate::bwrap::arg("--landlock-tcp-bind"@) != end_of_options(),
{
    reveal_strlit("--landlock-ro");
    reveal_strlit("--landlock-rw");
    reveal_strlit("--landlock-tcp-connect");
    reveal_strlit("--landlock-tcp-bind");
    reveal_strlit("--");
    vstd::utf8::is_ascii_chars_encode_utf8("--landlock-ro"@);
    vstd::utf8::is_ascii_chars_encode_utf8("--landlock-rw"@);
    vstd::utf8::is_ascii_chars_encode_utf8("--landlock-tcp-connect"@);
    vstd::utf8::is_ascii_chars_encode_utf8("--landlock-tcp-bind"@);
    vstd::utf8::is_ascii_chars_encode_utf8("--"@);
    assert(crate::bwrap::arg("--landlock-ro"@)[12] != crate::bwrap::arg("--landlock-rw"@)[12]);
}

proof fn port_words_are_read(option: Seq<char>, ports: Seq<u16>)
    ensures
        words_of(value_steps(option, port_words(ports))) == crate::bwrap::flagged_ports_of(
            option,
            ports,
        ),
        port_words(ports).map_values(|word: Seq<u8>| port_of(word)) == ports,
{
    let word = |port: u16| crate::bwrap::arg(crate::text::decimal_of(port as nat));
    let step = |port: u16| with_one(option, word(port));
    words_of_mapped(ports, step);
    assert(value_steps(option, port_words(ports)) =~= ports.map_values(step));
    same_pieces(
        ports,
        step,
        |port: u16|
            seq![
                crate::bwrap::arg(option),
                crate::bwrap::arg(crate::text::decimal_of(port as nat)),
            ],
    );
    let back = port_words(ports).map_values(|word: Seq<u8>| port_of(word));
    assert forall|i: int| 0 <= i < ports.len() implies #[trigger] back[i] == ports[i] by {
        vstd::utf8::encode_utf8_decode_utf8(crate::text::decimal_of(ports[i] as nat));
        crate::text::decimal_reads_back(ports[i] as nat);
    }
    assert(back =~= ports);
}

proof fn filter_keeps_all<A>(items: Seq<A>, pred: spec_fn(A) -> bool)
    requires
        forall|i: int| 0 <= i < items.len() ==> pred(#[trigger] items[i]),
    ensures
        items.filter(pred) == items,
    decreases items.len(),
{
    reveal(Seq::filter);
    if items.len() > 0 {
        assert(pred(items[items.len() - 1]));
        filter_keeps_all(items.drop_last(), pred);
        assert(items =~= items.drop_last().push(items.last()));
    } else {
        assert(items.filter(pred) =~= items);
    }
}

proof fn filter_keeps_none<A>(items: Seq<A>, pred: spec_fn(A) -> bool)
    requires
        forall|i: int| 0 <= i < items.len() ==> !pred(#[trigger] items[i]),
    ensures
        items.filter(pred) == Seq::<A>::empty(),
    decreases items.len(),
{
    reveal(Seq::filter);
    if items.len() > 0 {
        assert(!pred(items[items.len() - 1]));
        filter_keeps_none(items.drop_last(), pred);
    }
}

proof fn values_are_found(option: Seq<char>, values: Seq<Seq<u8>>, asked: Seq<char>)
    requires
        option != asked ==> crate::bwrap::arg(option) != crate::bwrap::arg(asked),
    ensures
        option_values(value_steps(option, values), asked) == if option == asked {
            values
        } else {
            Seq::empty()
        },
{
    let steps = value_steps(option, values);
    let pred = |step: Seq<Seq<u8>>| step[0] == crate::bwrap::arg(asked);
    if option == asked {
        filter_keeps_all(steps, pred);
    } else {
        filter_keeps_none(steps, pred);
    }
    assert(option_values(steps, asked) =~= if option == asked {
        values
    } else {
        Seq::empty()
    });
}

proof fn values_of_both(a: Seq<Seq<Seq<u8>>>, b: Seq<Seq<Seq<u8>>>, asked: Seq<char>)
    ensures
        option_values(a + b, asked) == option_values(a, asked) + option_values(b, asked),
{
    let pred = |step: Seq<Seq<u8>>| step[0] == crate::bwrap::arg(asked);
    Seq::filter_distributes_over_add(a, b, pred);
    assert(option_values(a + b, asked) =~= option_values(a, asked) + option_values(b, asked));
}

proof fn plan_values_are_found(plan: LandlockPlanView, asked: Seq<char>)
    requires
        asked == "--landlock-ro"@ || asked == "--landlock-rw"@ || asked
            == "--landlock-tcp-connect"@ || asked == "--landlock-tcp-bind"@,
    ensures
        option_values(landlock_steps(plan), asked) == if asked == "--landlock-ro"@ {
            plan.ro_paths
        } else if asked == "--landlock-rw"@ {
            plan.rw_paths
        } else if asked == "--landlock-tcp-connect"@ {
            port_words(plan.tcp_connect_ports)
        } else {
            port_words(plan.tcp_bind_ports)
        },
{
    helper_options_differ();
    let s1 = value_steps("--landlock-ro"@, plan.ro_paths);
    let s2 = value_steps("--landlock-rw"@, plan.rw_paths);
    let s3 = value_steps("--landlock-tcp-connect"@, port_words(plan.tcp_connect_ports));
    let s4 = value_steps("--landlock-tcp-bind"@, port_words(plan.tcp_bind_ports));
    values_of_both(s1, s2, asked);
    values_of_both(s1 + s2, s3, asked);
    values_of_both(s1 + s2 + s3, s4, asked);
    values_are_found("--landlock-ro"@, plan.ro_paths, asked);
    values_are_found("--landlock-rw"@, plan.rw_paths, asked);
    values_are_found("--landlock-tcp-connect"@, port_words(plan.tcp_connect_ports), asked);
    values_are_found("--landlock-tcp-bind"@, port_words(plan.tcp_bind_ports), asked);
    let found = option_values(landlock_steps(plan), asked);
    assert(asked == "--landlock-ro"@ ==> found =~= plan.ro_paths);
    assert(asked == "--landlock-rw"@ ==> found =~= plan.rw_paths);
    assert(asked == "--landlock-tcp-connect"@ ==> found =~= port_words(plan.tcp_connect_ports));
    assert(asked == "--landlock-tcp-bind"@ ==> found =~= port_words(plan.tcp_bind_ports));
}

proof fn value_steps_are_well_formed(option: Seq<char>, values: Seq<Seq<u8>>)
    requires
        crate::bwrap::arg(option) != end_of_options(),
        helper_values()(crate::bwrap::arg(option)) == Some(1nat),
    ensures
        well_formed(value_steps(option, values), helper_values()),
{
}

/// The process inside the sandbox, when it reads its options, finds the plan of the policy and the
/// command: what one side writes down the other side gets.
pub proof fn helper_gets_the_plan(policy: PolicyView)
    ensures
        helper_args_read(helper_words(policy).skip(2)) == Some(
            HelperArgsView {
                landlock_ro: policy.landlock.ro_paths,
                landlock_rw: policy.landlock.rw_paths,
                landlock_tcp_connect: policy.landlock.tcp_connect_ports,
                landlock_tcp_bind: policy.landlock.tcp_bind_ports,
                command: policy.command,
            },
        ),
        crate::linux::helper_plan_of(helper_args_read(helper_words(policy).skip(2))->0)
            == policy.landlock,
{
    let plan = policy.landlock;
    let steps = landlock_steps(plan);
    let words = crate::bwrap::landlock_args_of(plan) + seq![end_of_options()] + policy.command;
    let s1 = value_steps("--landlock-ro"@, plan.ro_paths);
    let s2 = value_steps("--landlock-rw"@, plan.rw_paths);
    let s3 = value_steps("--landlock-tcp-connect"@, port_words(plan.tcp_connect_ports));
    let s4 = value_steps("--landlock-tcp-bind"@, port_words(plan.tcp_bind_ports));
    helper_options_differ();
    assert(helper_words(policy).skip(2) =~= words);
    path_steps_are_read("--landlock-ro"@, plan.ro_paths);
    path_steps_are_read("--landlock-rw"@, plan.rw_paths);
    port_words_are_read("--landlock-tcp-connect"@, plan.tcp_connect_ports);
    port_words_are_read("--landlock-tcp-bind"@, plan.tcp_bind_ports);
    words_of_both(s1, s2);
    words_of_both(s1 + s2, s3);
    words_of_both(s1 + s2 + s3, s4);
    assert(words_of(steps) == crate::bwrap::landlock_args_of(plan));
    value_steps_are_well_formed("--landlock-ro"@, plan.ro_paths);
    value_steps_are_well_formed("--landlock-rw"@, plan.rw_paths);
    value_steps_are_well_formed("--landlock-tcp-connect"@, port_words(plan.tcp_connect_ports));
    value_steps_are_well_formed("--landlock-tcp-bind"@, port_words(plan.tcp_bind_ports));
    well_formed_both(s1, s2, helper_values());
    well_formed_both(s1 + s2, s3, helper_values());
    well_formed_both(s1 + s2 + s3, s4, helper_values());
    steps_read_back(steps, policy.command, helper_values());
    plan_values_are_found(plan, "--landlock-ro"@);
    plan_values_are_found(plan, "--landlock-rw"@);
    plan_values_are_found(plan, "--landlock-tcp-connect"@);
    plan_values_are_found(plan, "--landlock-tcp-bind"@);
}

} // verus!

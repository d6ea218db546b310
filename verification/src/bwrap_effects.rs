//! What the steps to a sandbox amount to: what is mounted in it, what is hidden, and what it shares
//! with the host.
use vstd::prelude::*;

use crate::cli::{FsLayout, NetMode};
use crate::host::HostView;
use crate::policy::{EnvPlanView, HiddenPathView, MountKind, MountView, PolicyView};

verus! {

proof fn in_both<A>(a: Seq<A>, b: Seq<A>, x: A)
    ensures
        (a + b).contains(x) <==> a.contains(x) || b.contains(x),
{
    if a.contains(x) {
        assert((a + b)[a.index_of(x)] == x);
    }
    if b.contains(x) {
        assert((a + b)[a.len() + b.index_of(x)] == x);
    }
    if (a + b).contains(x) {
        let i = (a + b).index_of(x);
        if i < a.len() {
            assert(a[i] == x);
        } else {
            assert(b[i - a.len()] == x);
        }
    }
}

proof fn in_pieces<A, B>(items: Seq<A>, piece: spec_fn(A) -> Seq<B>, x: B)
    ensures
        crate::bwrap::concat_map(items, piece).contains(x) <==> exists|i: int|
            0 <= i < items.len() && piece(#[trigger] items[i]).contains(x),
    decreases items.len(),
{
    if items.len() > 0 {
        let earlier = items.drop_last();
        in_pieces(earlier, piece, x);
        in_both(crate::bwrap::concat_map(earlier, piece), piece(items.last()), x);
        if piece(items.last()).contains(x) {
            assert(piece(items[items.len() - 1]).contains(x));
        }
        if exists|i: int| 0 <= i < earlier.len() && piece(#[trigger] earlier[i]).contains(x) {
            let i = choose|i: int| 0 <= i < earlier.len() && piece(#[trigger] earlier[i]).contains(
                x,
            );
            assert(piece(items[i]).contains(x));
        }
        if exists|i: int| 0 <= i < items.len() && piece(#[trigger] items[i]).contains(x) {
            let i = choose|i: int| 0 <= i < items.len() && piece(#[trigger] items[i]).contains(x);
            if i < earlier.len() {
                assert(piece(earlier[i]).contains(x));
            }
        }
    }
}

/// One of the mounts shows `src` at `dest`.
pub open spec fn mounted(mounts: Seq<MountView>, src: Seq<u8>, dest: Seq<u8>) -> bool {
    exists|i: int|
        0 <= i < mounts.len() && (#[trigger] mounts[i]).src == src && mounts[i].dest == dest
}

/// The empty file `file` covers one of the hidden paths, which is `dest`.
pub open spec fn covered_by(
    hidden: Seq<HiddenPathView>,
    host: HostView,
    file: Seq<u8>,
    dest: Seq<u8>,
) -> bool {
    exists|i: int|
        0 <= i < hidden.len() && (#[trigger] hidden[i]).kind == MountKind::File && hidden[i].dest
            == dest && host.hidden_files[crate::bwrap::files_in(hidden.take(i))]->Ok_0 == file
}

/// The environment sets a variable whose name is written `name` to `value`.
pub open spec fn set_to(env: EnvPlanView, name: Seq<u8>, value: Seq<u8>) -> bool {
    exists|i: int|
        0 <= i < env.vars.len() && crate::bwrap::arg((#[trigger] env.vars[i]).0) == name
            && env.vars[i].1 == value
}

proof fn two_valued_options_differ()
    ensures
        crate::bwrap::arg("--setenv"@) != crate::bwrap::arg("--ro-bind"@),
        crate::bwrap::arg("--setenv"@) != crate::bwrap::arg("--bind"@),
        crate::bwrap::arg("--ro-bind"@) != crate::bwrap::arg("--bind"@),
{
    reveal_strlit("--setenv");
    reveal_strlit("--ro-bind");
    reveal_strlit("--bind");
    vstd::utf8::is_ascii_chars_encode_utf8("--setenv"@);
    vstd::utf8::is_ascii_chars_encode_utf8("--ro-bind"@);
    vstd::utf8::is_ascii_chars_encode_utf8("--bind"@);
}

/// The option is one of those with two values.
pub open spec fn is_two_valued(option: Seq<char>) -> bool {
    option == "--setenv"@ || option == "--ro-bind"@ || option == "--bind"@
}

proof fn in_env_steps(env: EnvPlanView, option: Seq<char>, first: Seq<u8>, second: Seq<u8>)
    requires
        is_two_valued(option),
    ensures
        crate::bwrap_steps::env_steps(env).contains(
            crate::bwrap_steps::with_two(option, first, second),
        ) <==> option == "--setenv"@ && set_to(env, first, second),
{
    two_valued_options_differ();
    let x = crate::bwrap_steps::with_two(option, first, second);
    let set = |var: (Seq<char>, Seq<u8>)|
        crate::bwrap_steps::with_two("--setenv"@, crate::bwrap::arg(var.0), var.1);
    let cleared = if env.clear {
        seq![crate::bwrap_steps::plain("--clearenv"@)]
    } else {
        Seq::empty()
    };
    let assigned = env.vars.map_values(set);
    in_both(cleared, assigned, x);
    assert(x.len() == 3 && x[0] == crate::bwrap::arg(option) && x[1] == first && x[2] == second);
    if assigned.contains(x) {
        let i = assigned.index_of(x);
        assert(assigned[i] == set(env.vars[i]));
        assert(assigned[i][0] == crate::bwrap::arg("--setenv"@));
        assert(assigned[i][1] == crate::bwrap::arg(env.vars[i].0));
        assert(assigned[i][2] == env.vars[i].1);
    }
    if option == "--setenv"@ && set_to(env, first, second) {
        let i = choose|i: int|
            0 <= i < env.vars.len() && crate::bwrap::arg((#[trigger] env.vars[i]).0) == first
                && env.vars[i].1 == second;
        assert(assigned[i] =~= x);
    }
}

proof fn in_mount_steps(
    src: Seq<u8>,
    dest: Seq<u8>,
    kind: MountKind,
    readonly: bool,
    option: Seq<char>,
    first: Seq<u8>,
    second: Seq<u8>,
)
    requires
        is_two_valued(option),
    ensures
        crate::bwrap_steps::mount_steps(src, dest, kind, readonly).contains(
            crate::bwrap_steps::with_two(option, first, second),
        ) <==> option == (if readonly {
            "--ro-bind"@
        } else {
            "--bind"@
        }) && src == first && dest == second,
{
    two_valued_options_differ();
    let x = crate::bwrap_steps::with_two(option, first, second);
    let steps = crate::bwrap_steps::mount_steps(src, dest, kind, readonly);
    let bound = if readonly {
        crate::bwrap_steps::with_two("--ro-bind"@, src, dest)
    } else {
        crate::bwrap_steps::with_two("--bind"@, src, dest)
    };
    assert(x.len() == 3 && x[0] == crate::bwrap::arg(option) && x[1] == first && x[2] == second);
    assert(bound.len() == 3 && bound[1] == src && bound[2] == dest);
    assert(steps[steps.len() - 1] == bound);
    if steps.contains(x) {
        let i = steps.index_of(x);
        assert(i == steps.len() - 1);
    }
    if option == (if readonly {
        "--ro-bind"@
    } else {
        "--bind"@
    }) && src == first && dest == second {
        assert(bound =~= x);
    }
}

proof fn in_mounts_steps(
    mounts: Seq<MountView>,
    readonly: bool,
    option: Seq<char>,
    first: Seq<u8>,
    second: Seq<u8>,
)
    requires
        is_two_valued(option),
    ensures
        crate::bwrap_steps::mounts_steps(mounts, readonly).contains(
            crate::bwrap_steps::with_two(option, first, second),
        ) <==> option == (if readonly {
            "--ro-bind"@
        } else {
            "--bind"@
        }) && mounted(mounts, first, second),
{
    let x = crate::bwrap_steps::with_two(option, first, second);
    let piece = |mount: MountView|
        crate::bwrap_steps::mount_steps(mount.src, mount.dest, mount.kind, readonly);
    in_pieces(mounts, piece, x);
    assert forall|i: int| 0 <= i < mounts.len() implies (piece(#[trigger] mounts[i]).contains(x)
        <==> option == (if readonly {
        "--ro-bind"@
    } else {
        "--bind"@
    }) && mounts[i].src == first && mounts[i].dest == second) by {
        in_mount_steps(
            mounts[i].src,
            mounts[i].dest,
            mounts[i].kind,
            readonly,
            option,
            first,
            second,
        );
    }
}

proof fn in_hidden_steps(
    hidden: Seq<HiddenPathView>,
    host: HostView,
    option: Seq<char>,
    first: Seq<u8>,
    second: Seq<u8>,
)
    requires
        is_two_valued(option),
    ensures
        crate::bwrap_steps::hidden_steps(hidden, host).contains(
            crate::bwrap_steps::with_two(option, first, second),
        ) <==> option == "--ro-bind"@ && covered_by(hidden, host, first, second),
    decreases hidden.len(),
{
    two_valued_options_differ();
    let x = crate::bwrap_steps::with_two(option, first, second);
    assert(x.len() == 3 && x[0] == crate::bwrap::arg(option) && x[1] == first && x[2] == second);
    if hidden.len() > 0 {
        let earlier = hidden.drop_last();
        let last = hidden.last();
        let file = host.hidden_files[crate::bwrap::files_in(earlier)]->Ok_0;
        let cover = crate::bwrap_steps::cover_steps(last, file);
        in_hidden_steps(earlier, host, option, first, second);
        in_both(crate::bwrap_steps::hidden_steps(earlier, host), cover, x);
        assert(hidden.take(hidden.len() - 1) =~= earlier);
        assert forall|i: int| 0 <= i < earlier.len() implies hidden.take(i) == #[trigger] earlier.take(
            i,
        ) && hidden[i] == earlier[i] by {
            assert(hidden.take(i) =~= earlier.take(i));
        }
        if cover.contains(x) {
            assert(last.kind == MountKind::File);
            assert(cover[0][0] == crate::bwrap::arg("--ro-bind"@));
            assert(cover[0][1] == file && cover[0][2] == last.dest);
            assert(hidden[hidden.len() - 1] == last);
        }
        if covered_by(earlier, host, first, second) {
            let i = choose|i: int|
                0 <= i < earlier.len() && (#[trigger] earlier[i]).kind == MountKind::File
                    && earlier[i].dest == second && host.hidden_files[crate::bwrap::files_in(
                    earlier.take(i),
                )]->Ok_0 == first;
            assert(hidden[i] == earlier[i] && hidden.take(i) == earlier.take(i));
        }
        if covered_by(hidden, host, first, second) {
            let i = choose|i: int|
                0 <= i < hidden.len() && (#[trigger] hidden[i]).kind == MountKind::File
                    && hidden[i].dest == second && host.hidden_files[crate::bwrap::files_in(
                    hidden.take(i),
                )]->Ok_0 == first;
            if i < earlier.len() {
                assert(hidden[i] == earlier[i] && hidden.take(i) == earlier.take(i));
                assert(covered_by(earlier, host, first, second));
            } else if option == "--ro-bind"@ {
                assert(cover[0] =~= x);
            }
        }
    }
}

proof fn two_valued_steps(
    current_exe: Seq<u8>,
    policy: PolicyView,
    host: HostView,
    option: Seq<char>,
    first: Seq<u8>,
    second: Seq<u8>,
)
    requires
        is_two_valued(option),
    ensures
        crate::bwrap_steps::steps_of(current_exe, policy, host).contains(
            crate::bwrap_steps::with_two(option, first, second),
        ) <==> {
            ||| option == "--setenv"@ && set_to(policy.env, first, second)
            ||| option == "--bind"@ && mounted(policy.rw_mounts, first, second)
            ||| option == "--ro-bind"@ && {
                ||| policy.fs_layout == FsLayout::HostRo && first == crate::bwrap::arg("/"@)
                    && second == crate::bwrap::arg("/"@)
                ||| first == current_exe && second == crate::bwrap::helper_path_of()
                ||| mounted(policy.ro_mounts, first, second)
                ||| covered_by(policy.hidden_paths, host, first, second)
            }
        },
{
    two_valued_options_differ();
    let x = crate::bwrap_steps::with_two(option, first, second);
    assert(x.len() == 3 && x[0] == crate::bwrap::arg(option) && x[1] == first && x[2] == second);
    let helper = crate::bwrap::helper_path_of();
    let root = crate::bwrap::arg("/"@);
    let s1 = crate::bwrap_steps::namespace_steps(policy.net);
    let s2 = crate::bwrap_steps::env_steps(policy.env);
    let s3 = crate::bwrap_steps::layout_steps(policy.fs_layout);
    let s4 = crate::bwrap_steps::tmpfs_steps(policy.tmpfs_mounts);
    let s5 = crate::bwrap_steps::mount_steps(current_exe, helper, MountKind::File, true);
    let s6 = crate::bwrap_steps::mounts_steps(policy.ro_mounts, true);
    let s7 = crate::bwrap_steps::mounts_steps(policy.rw_mounts, false);
    let s8 = crate::bwrap_steps::kernel_steps();
    let s9 = crate::bwrap_steps::hidden_steps(policy.hidden_paths, host);
    let s10 = seq![crate::bwrap_steps::with_one("--chdir"@, policy.cwd)];
    in_both(s1, s2, x);
    in_both(s1 + s2, s3, x);
    in_both(s1 + s2 + s3, s4, x);
    in_both(s1 + s2 + s3 + s4, s5, x);
    in_both(s1 + s2 + s3 + s4 + s5, s6, x);
    in_both(s1 + s2 + s3 + s4 + s5 + s6, s7, x);
    in_both(s1 + s2 + s3 + s4 + s5 + s6 + s7, s8, x);
    in_both(s1 + s2 + s3 + s4 + s5 + s6 + s7 + s8, s9, x);
    in_both(s1 + s2 + s3 + s4 + s5 + s6 + s7 + s8 + s9, s10, x);
    assert(forall|i: int| 0 <= i < s1.len() ==> (#[trigger] s1[i]).len() == 1);
    assert(forall|i: int| 0 <= i < s4.len() ==> (#[trigger] s4[i]).len() == 2);
    assert(forall|i: int| 0 <= i < s8.len() ==> (#[trigger] s8[i]).len() == 2);
    assert(s10[0].len() == 2);
    in_env_steps(policy.env, option, first, second);
    in_mount_steps(current_exe, helper, MountKind::File, true, option, first, second);
    in_mounts_steps(policy.ro_mounts, true, option, first, second);
    in_mounts_steps(policy.rw_mounts, false, option, first, second);
    in_hidden_steps(policy.hidden_paths, host, option, first, second);
    let shown = crate::bwrap_steps::with_two("--ro-bind"@, root, root);
    assert(shown[0] == crate::bwrap::arg("--ro-bind"@) && shown[1] == root && shown[2] == root);
    if policy.fs_layout == FsLayout::HostRo {
        assert(s3[0] == shown);
        if option == "--ro-bind"@ && first == root && second == root {
            assert(s3[0] =~= x);
        }
    }
}

/// What is writable inside the sandbox of what is on the host: the writable mounts of the policy,
/// and nothing else.
pub proof fn only_writable_mounts_are_writable(
    current_exe: Seq<u8>,
    policy: PolicyView,
    host: HostView,
    src: Seq<u8>,
    dest: Seq<u8>,
)
    ensures
        crate::bwrap_steps::steps_of(current_exe, policy, host).contains(
            crate::bwrap_steps::with_two("--bind"@, src, dest),
        ) <==> mounted(policy.rw_mounts, src, dest),
{
    two_valued_options_differ();
    two_valued_steps(current_exe, policy, host, "--bind"@, src, dest);
}

/// What can be read inside the sandbox of what is on the host: all of it where the layout shows
/// it, this executable, the read-only mounts of the policy, and the empty files over hidden files.
pub proof fn what_is_read_only(
    current_exe: Seq<u8>,
    policy: PolicyView,
    host: HostView,
    src: Seq<u8>,
    dest: Seq<u8>,
)
    ensures
        crate::bwrap_steps::steps_of(current_exe, policy, host).contains(
            crate::bwrap_steps::with_two("--ro-bind"@, src, dest),
        ) <==> {
            ||| policy.fs_layout == FsLayout::HostRo && src == crate::bwrap::arg("/"@) && dest
                == crate::bwrap::arg("/"@)
            ||| src == current_exe && dest == crate::bwrap::helper_path_of()
            ||| mounted(policy.ro_mounts, src, dest)
            ||| covered_by(policy.hidden_paths, host, src, dest)
        },
{
    two_valued_options_differ();
    two_valued_steps(current_exe, policy, host, "--ro-bind"@, src, dest);
}

/// The variables that are set inside the sandbox are those of the policy.
pub proof fn variables_are_those_of_the_policy(
    current_exe: Seq<u8>,
    policy: PolicyView,
    host: HostView,
    name: Seq<u8>,
    value: Seq<u8>,
)
    ensures
        crate::bwrap_steps::steps_of(current_exe, policy, host).contains(
            crate::bwrap_steps::with_two("--setenv"@, name, value),
        ) <==> set_to(policy.env, name, value),
{
    two_valued_options_differ();
    two_valued_steps(current_exe, policy, host, "--setenv"@, name, value);
}

proof fn mounts_take_values(mounts: Seq<MountView>, readonly: bool, option: Seq<char>)
    ensures
        !crate::bwrap_steps::mounts_steps(mounts, readonly).contains(
            crate::bwrap_steps::plain(option),
        ),
{
    let x = crate::bwrap_steps::plain(option);
    let piece = |mount: MountView|
        crate::bwrap_steps::mount_steps(mount.src, mount.dest, mount.kind, readonly);
    assert(x.len() == 1);
    in_pieces(mounts, piece, x);
    assert forall|i: int| 0 <= i < mounts.len() implies !piece(
        #[trigger] mounts[i],
    ).contains(x) by {
        let steps = piece(mounts[i]);
        assert(forall|j: int| 0 <= j < steps.len() ==> (#[trigger] steps[j]).len() >= 2);
    }
}

proof fn covers_take_values(hidden: Seq<HiddenPathView>, host: HostView, option: Seq<char>)
    ensures
        !crate::bwrap_steps::hidden_steps(hidden, host).contains(
            crate::bwrap_steps::plain(option),
        ),
    decreases hidden.len(),
{
    let x = crate::bwrap_steps::plain(option);
    assert(x.len() == 1);
    if hidden.len() > 0 {
        let earlier = crate::bwrap_steps::hidden_steps(hidden.drop_last(), host);
        let steps = crate::bwrap_steps::hidden_steps(hidden, host);
        let cover = steps.skip(earlier.len() as int);
        covers_take_values(hidden.drop_last(), host, option);
        assert(steps =~= earlier + cover);
        in_both(earlier, cover, x);
        assert(forall|j: int| 0 <= j < cover.len() ==> (#[trigger] cover[j]).len() >= 2);
    }
}

proof fn plain_steps(
    current_exe: Seq<u8>,
    policy: PolicyView,
    host: HostView,
    option: Seq<char>,
)
    ensures
        crate::bwrap_steps::steps_of(current_exe, policy, host).contains(
            crate::bwrap_steps::plain(option),
        ) <==> {
            ||| crate::bwrap_steps::namespace_steps(policy.net).contains(
                crate::bwrap_steps::plain(option),
            )
            ||| policy.env.clear && crate::bwrap::arg(option) == crate::bwrap::arg("--clearenv"@)
        },
{
    let x = crate::bwrap_steps::plain(option);
    assert(x.len() == 1 && x[0] == crate::bwrap::arg(option));
    let helper = crate::bwrap::helper_path_of();
    let s1 = crate::bwrap_steps::namespace_steps(policy.net);
    let s2 = crate::bwrap_steps::env_steps(policy.env);
    let s3 = crate::bwrap_steps::layout_steps(policy.fs_layout);
    let s4 = crate::bwrap_steps::tmpfs_steps(policy.tmpfs_mounts);
    let s5 = crate::bwrap_steps::mount_steps(current_exe, helper, MountKind::File, true);
    let s6 = crate::bwrap_steps::mounts_steps(policy.ro_mounts, true);
    let s7 = crate::bwrap_steps::mounts_steps(policy.rw_mounts, false);
    let s8 = crate::bwrap_steps::kernel_steps();
    let s9 = crate::bwrap_steps::hidden_steps(policy.hidden_paths, host);
    let s10 = seq![crate::bwrap_steps::with_one("--chdir"@, policy.cwd)];
    in_both(s1, s2, x);
    in_both(s1 + s2, s3, x);
    in_both(s1 + s2 + s3, s4, x);
    in_both(s1 + s2 + s3 + s4, s5, x);
    in_both(s1 + s2 + s3 + s4 + s5, s6, x);
    in_both(s1 + s2 + s3 + s4 + s5 + s6, s7, x);
    in_both(s1 + s2 + s3 + s4 + s5 + s6 + s7, s8, x);
    in_both(s1 + s2 + s3 + s4 + s5 + s6 + s7 + s8, s9, x);
    in_both(s1 + s2 + s3 + s4 + s5 + s6 + s7 + s8 + s9, s10, x);
    assert(forall|i: int| 0 <= i < s3.len() ==> (#[trigger] s3[i]).len() == 3);
    assert(forall|i: int| 0 <= i < s4.len() ==> (#[trigger] s4[i]).len() == 2);
    assert(forall|i: int| 0 <= i < s5.len() ==> (#[trigger] s5[i]).len() >= 2);
    assert(forall|i: int| 0 <= i < s8.len() ==> (#[trigger] s8[i]).len() == 2);
    assert(s10[0].len() == 2);
    mounts_take_values(policy.ro_mounts, true, option);
    mounts_take_values(policy.rw_mounts, false, option);
    covers_take_values(policy.hidden_paths, host, option);
    let cleared = crate::bwrap_steps::plain("--clearenv"@);
    assert(cleared.len() == 1 && cleared[0] == crate::bwrap::arg("--clearenv"@));
    if policy.env.clear {
        assert(s2[0] == cleared);
        if crate::bwrap::arg(option) == crate::bwrap::arg("--clearenv"@) {
            assert(s2[0] =~= x);
        }
    }
    let first: int = if policy.env.clear { 1 } else { 0 };
    assert(forall|i: int| first <= i < s2.len() ==> (#[trigger] s2[i]).len() == 3);
}

proof fn namespace_options_differ()
    ensures
        crate::bwrap::arg("--unshare-net"@) != crate::bwrap::arg("--new-session"@),
        crate::bwrap::arg("--unshare-net"@) != crate::bwrap::arg("--die-with-parent"@),
        crate::bwrap::arg("--unshare-net"@) != crate::bwrap::arg("--unshare-user"@),
        crate::bwrap::arg("--unshare-net"@) != crate::bwrap::arg("--unshare-pid"@),
        crate::bwrap::arg("--unshare-net"@) != crate::bwrap::arg("--unshare-ipc"@),
        crate::bwrap::arg("--unshare-net"@) != crate::bwrap::arg("--unshare-uts"@),
        crate::bwrap::arg("--unshare-net"@) != crate::bwrap::arg("--clearenv"@),
        crate::bwrap::arg("--clearenv"@) != crate::bwrap::arg("--new-session"@),
        crate::bwrap::arg("--clearenv"@) != crate::bwrap::arg("--die-with-parent"@),
        crate::bwrap::arg("--clearenv"@) != crate::bwrap::arg("--unshare-user"@),
        crate::bwrap::arg("--clearenv"@) != crate::bwrap::arg("--unshare-pid"@),
        crate::bwrap::arg("--clearenv"@) != crate::bwrap::arg("--unshare-ipc"@),
        crate::bwrap::arg("--clearenv"@) != crate::bwrap::arg("--unshare-uts"@),
{
    reveal_strlit("--new-session");
    reveal_strlit("--die-with-parent");
    reveal_strlit("--unshare-user");
    reveal_strlit("--unshare-pid");
    reveal_strlit("--unshare-ipc");
    reveal_strlit("--unshare-uts");
    reveal_strlit("--unshare-net");
    reveal_strlit("--clearenv");
    vstd::utf8::is_ascii_chars_encode_utf8("--new-session"@);
    vstd::utf8::is_ascii_chars_encode_utf8("--die-with-parent"@);
    vstd::utf8::is_ascii_chars_encode_utf8("--unshare-user"@);
    vstd::utf8::is_ascii_chars_encode_utf8("--unshare-pid"@);
    vstd::utf8::is_ascii_chars_encode_utf8("--unshare-ipc"@);
    vstd::utf8::is_ascii_chars_encode_utf8("--unshare-uts"@);
    vstd::utf8::is_ascii_chars_encode_utf8("--unshare-net"@);
    vstd::utf8::is_ascii_chars_encode_utf8("--clearenv"@);
    let net = crate::bwrap::arg("--unshare-net"@);
    assert(net[10] != crate::bwrap::arg("--unshare-pid"@)[10]);
    assert(net[10] != crate::bwrap::arg("--unshare-ipc"@)[10]);
    assert(net[10] != crate::bwrap::arg("--unshare-uts"@)[10]);
    assert(net[2] != crate::bwrap::arg("--new-session"@)[2]);
}

/// Every sandbox is a session of its own, ends with this process, and has its own user, process,
/// IPC and host name namespaces.
pub proof fn sandbox_is_separate(current_exe: Seq<u8>, policy: PolicyView, host: HostView)
    ensures
        ({
            let steps = crate::bwrap_steps::steps_of(current_exe, policy, host);
            &&& steps.contains(crate::bwrap_steps::plain("--new-session"@))
            &&& steps.contains(crate::bwrap_steps::plain("--die-with-parent"@))
            &&& steps.contains(crate::bwrap_steps::plain("--unshare-user"@))
            &&& steps.contains(crate::bwrap_steps::plain("--unshare-pid"@))
            &&& steps.contains(crate::bwrap_steps::plain("--unshare-ipc"@))
            &&& steps.contains(crate::bwrap_steps::plain("--unshare-uts"@))
        }),
{
    let s1 = crate::bwrap_steps::namespace_steps(policy.net);
    assert(s1[0] == crate::bwrap_steps::plain("--new-session"@));
    assert(s1[1] == crate::bwrap_steps::plain("--die-with-parent"@));
    assert(s1[2] == crate::bwrap_steps::plain("--unshare-user"@));
    assert(s1[3] == crate::bwrap_steps::plain("--unshare-pid"@));
    assert(s1[4] == crate::bwrap_steps::plain("--unshare-ipc"@));
    assert(s1[5] == crate::bwrap_steps::plain("--unshare-uts"@));
    plain_steps(current_exe, policy, host, "--new-session"@);
    plain_steps(current_exe, policy, host, "--die-with-parent"@);
    plain_steps(current_exe, policy, host, "--unshare-user"@);
    plain_steps(current_exe, policy, host, "--unshare-pid"@);
    plain_steps(current_exe, policy, host, "--unshare-ipc"@);
    plain_steps(current_exe, policy, host, "--unshare-uts"@);
}

/// The network of the host is out of reach exactly when the policy says so.
pub proof fn network_is_off_when_asked(current_exe: Seq<u8>, policy: PolicyView, host: HostView)
    ensures
        crate::bwrap_steps::steps_of(current_exe, policy, host).contains(
            crate::bwrap_steps::plain("--unshare-net"@),
        ) <==> policy.net == NetMode::Off,
{
    namespace_options_differ();
    let net = crate::bwrap::arg("--unshare-net"@);
    let x = crate::bwrap_steps::plain("--unshare-net"@);
    let s1 = crate::bwrap_steps::namespace_steps(policy.net);
    plain_steps(current_exe, policy, host, "--unshare-net"@);
    assert(x[0] == net);
    if policy.net == NetMode::Off {
        assert(s1[6] == x);
    } else {
        assert(s1.len() == 6);
        assert(s1[0][0] == crate::bwrap::arg("--new-session"@));
        assert(s1[1][0] == crate::bwrap::arg("--die-with-parent"@));
        assert(s1[2][0] == crate::bwrap::arg("--unshare-user"@));
        assert(s1[3][0] == crate::bwrap::arg("--unshare-pid"@));
        assert(s1[4][0] == crate::bwrap::arg("--unshare-ipc"@));
        assert(s1[5][0] == crate::bwrap::arg("--unshare-uts"@));
    }
}

/// The environment of this process is left out exactly when the policy says so.
pub proof fn environment_is_cleared_when_asked(
    current_exe: Seq<u8>,
    policy: PolicyView,
    host: HostView,
)
    ensures
        crate::bwrap_steps::steps_of(current_exe, policy, host).contains(
            crate::bwrap_steps::plain("--clearenv"@),
        ) <==> policy.env.clear,
{
    namespace_options_differ();
    let x = crate::bwrap_steps::plain("--clearenv"@);
    let s1 = crate::bwrap_steps::namespace_steps(policy.net);
    plain_steps(current_exe, policy, host, "--clearenv"@);
    assert(x[0] == crate::bwrap::arg("--clearenv"@));
    assert(s1[0][0] == crate::bwrap::arg("--new-session"@));
    assert(s1[1][0] == crate::bwrap::arg("--die-with-parent"@));
    assert(s1[2][0] == crate::bwrap::arg("--unshare-user"@));
    assert(s1[3][0] == crate::bwrap::arg("--unshare-pid"@));
    assert(s1[4][0] == crate::bwrap::arg("--unshare-ipc"@));
    assert(s1[5][0] == crate::bwrap::arg("--unshare-uts"@));
    if policy.net == NetMode::Off {
        assert(s1[6][0] == crate::bwrap::arg("--unshare-net"@));
    }
}

/// A step covers a hidden path: an empty directory over a directory, or the empty file with the
/// number `number` over a file.
pub open spec fn covers(
    step: Seq<Seq<u8>>,
    hidden: HiddenPathView,
    number: nat,
    host: HostView,
) -> bool {
    match hidden.kind {
        MountKind::Dir => step == crate::bwrap_steps::with_one("--tmpfs"@, hidden.dest),
        MountKind::File => step == crate::bwrap_steps::with_two(
            "--ro-bind"@,
            host.hidden_files[number]->Ok_0,
            hidden.dest,
        ),
    }
}

proof fn each_is_covered(hidden: Seq<HiddenPathView>, host: HostView, at: int)
    requires
        0 <= at < hidden.len(),
    ensures
        exists|k: int|
            0 <= k < crate::bwrap_steps::hidden_steps(hidden, host).len() && covers(
                #[trigger] crate::bwrap_steps::hidden_steps(hidden, host)[k],
                hidden[at],
                crate::bwrap::files_in(hidden.take(at)),
                host,
            ),
    decreases hidden.len(),
{
    let earlier = hidden.drop_last();
    let steps = crate::bwrap_steps::hidden_steps(hidden, host);
    let before = crate::bwrap_steps::hidden_steps(earlier, host);
    if at == hidden.len() - 1 {
        assert(hidden.take(at) =~= earlier);
        assert(covers(
            steps[before.len() as int],
            hidden[at],
            crate::bwrap::files_in(hidden.take(at)),
            host,
        ));
    } else {
        each_is_covered(earlier, host, at);
        assert(earlier.take(at) =~= hidden.take(at));
        let k = choose|k: int|
            0 <= k < before.len() && covers(
                #[trigger] before[k],
                earlier[at],
                crate::bwrap::files_in(earlier.take(at)),
                host,
            );
        assert(steps[k] == before[k]);
    }
}

/// Every hidden path is covered, and behind everything that is mounted: the only step behind the
/// covers changes the directory.
pub proof fn hidden_paths_are_covered(
    current_exe: Seq<u8>,
    policy: PolicyView,
    host: HostView,
    at: int,
)
    requires
        0 <= at < policy.hidden_paths.len(),
    ensures
        ({
            let steps = crate::bwrap_steps::steps_of(current_exe, policy, host);
            let setup = crate::bwrap_steps::setup_steps(current_exe, policy);
            exists|k: int|
                setup.len() <= k < steps.len() - 1 && covers(
                    #[trigger] steps[k],
                    policy.hidden_paths[at],
                    crate::bwrap::files_in(policy.hidden_paths.take(at)),
                    host,
                )
        }),
{
    let steps = crate::bwrap_steps::steps_of(current_exe, policy, host);
    let setup = crate::bwrap_steps::setup_steps(current_exe, policy);
    let hidden = crate::bwrap_steps::hidden_steps(policy.hidden_paths, host);
    each_is_covered(policy.hidden_paths, host, at);
    let k = choose|k: int|
        0 <= k < hidden.len() && covers(
            #[trigger] hidden[k],
            policy.hidden_paths[at],
            crate::bwrap::files_in(policy.hidden_paths.take(at)),
            host,
        );
    assert(steps[setup.len() + k] == hidden[k]);
}

/// One of the mounts needs a directory at `path` before it can be made: itself, where it is a
/// directory, or else the one that holds it.
pub open spec fn needs_directory(mounts: Seq<MountView>, path: Seq<u8>) -> bool {
    exists|i: int|
        0 <= i < mounts.len() && needs(
            (#[trigger] mounts[i]).dest,
            mounts[i].kind,
        ) == Some(path)
}

/// The directory that has to be there for something to be mounted at `dest`.
pub open spec fn needs(dest: Seq<u8>, kind: MountKind) -> Option<Seq<u8>> {
    if kind == MountKind::Dir {
        Some(dest)
    } else {
        crate::unix_path::parent_of(dest)
    }
}

/// A directory is hidden at `path`.
pub open spec fn directory_hidden(hidden: Seq<HiddenPathView>, path: Seq<u8>) -> bool {
    exists|i: int|
        0 <= i < hidden.len() && (#[trigger] hidden[i]).kind == MountKind::Dir && hidden[i].dest
            == path
}

proof fn one_valued_options_differ()
    ensures
        crate::bwrap::arg("--tmpfs"@) != crate::bwrap::arg("--dir"@),
        crate::bwrap::arg("--tmpfs"@) != crate::bwrap::arg("--proc"@),
        crate::bwrap::arg("--tmpfs"@) != crate::bwrap::arg("--dev"@),
        crate::bwrap::arg("--tmpfs"@) != crate::bwrap::arg("--remount-ro"@),
        crate::bwrap::arg("--tmpfs"@) != crate::bwrap::arg("--chdir"@),
        crate::bwrap::arg("--dir"@) != crate::bwrap::arg("--proc"@),
        crate::bwrap::arg("--dir"@) != crate::bwrap::arg("--dev"@),
        crate::bwrap::arg("--dir"@) != crate::bwrap::arg("--remount-ro"@),
        crate::bwrap::arg("--dir"@) != crate::bwrap::arg("--chdir"@),
        crate::bwrap::arg("--proc"@) != crate::bwrap::arg("--dev"@),
        crate::bwrap::arg("--proc"@) != crate::bwrap::arg("--remount-ro"@),
        crate::bwrap::arg("--proc"@) != crate::bwrap::arg("--chdir"@),
        crate::bwrap::arg("--dev"@) != crate::bwrap::arg("--remount-ro"@),
        crate::bwrap::arg("--dev"@) != crate::bwrap::arg("--chdir"@),
        crate::bwrap::arg("--remount-ro"@) != crate::bwrap::arg("--chdir"@),
{
    reveal_strlit("--tmpfs");
    reveal_strlit("--dir");
    reveal_strlit("--proc");
    reveal_strlit("--dev");
    reveal_strlit("--remount-ro");
    reveal_strlit("--chdir");
    vstd::utf8::is_ascii_chars_encode_utf8("--tmpfs"@);
    vstd::utf8::is_ascii_chars_encode_utf8("--dir"@);
    vstd::utf8::is_ascii_chars_encode_utf8("--proc"@);
    vstd::utf8::is_ascii_chars_encode_utf8("--dev"@);
    vstd::utf8::is_ascii_chars_encode_utf8("--remount-ro"@);
    vstd::utf8::is_ascii_chars_encode_utf8("--chdir"@);
    assert(crate::bwrap::arg("--tmpfs"@)[2] != crate::bwrap::arg("--chdir"@)[2]);
    assert(crate::bwrap::arg("--dir"@)[3] != crate::bwrap::arg("--dev"@)[3]);
}

/// The option is one of those with one value.
pub open spec fn is_one_valued(option: Seq<char>) -> bool {
    option == "--tmpfs"@ || option == "--dir"@ || option == "--proc"@ || option == "--dev"@
        || option == "--remount-ro"@ || option == "--chdir"@
}

proof fn one_value_in_mount_steps(
    src: Seq<u8>,
    dest: Seq<u8>,
    kind: MountKind,
    readonly: bool,
    option: Seq<char>,
    value: Seq<u8>,
)
    requires
        is_one_valued(option),
    ensures
        crate::bwrap_steps::mount_steps(src, dest, kind, readonly).contains(
            crate::bwrap_steps::with_one(option, value),
        ) <==> option == "--dir"@ && needs(dest, kind) == Some(value),
{
    one_valued_options_differ();
    let x = crate::bwrap_steps::with_one(option, value);
    let steps = crate::bwrap_steps::mount_steps(src, dest, kind, readonly);
    assert(x.len() == 2 && x[0] == crate::bwrap::arg(option) && x[1] == value);
    assert(steps[steps.len() - 1].len() == 3);
    match needs(dest, kind) {
        Some(directory) => {
            let made = crate::bwrap_steps::with_one("--dir"@, directory);
            assert(made[0] == crate::bwrap::arg("--dir"@) && made[1] == directory);
            assert(steps.len() == 2 && steps[0] == made);
            if option == "--dir"@ && directory == value {
                assert(steps[0] =~= x);
            }
        },
        None => {
            assert(steps.len() == 1);
        },
    }
}

proof fn one_value_in_mounts_steps(
    mounts: Seq<MountView>,
    readonly: bool,
    option: Seq<char>,
    value: Seq<u8>,
)
    requires
        is_one_valued(option),
    ensures
        crate::bwrap_steps::mounts_steps(mounts, readonly).contains(
            crate::bwrap_steps::with_one(option, value),
        ) <==> option == "--dir"@ && needs_directory(mounts, value),
{
    let x = crate::bwrap_steps::with_one(option, value);
    let piece = |mount: MountView|
        crate::bwrap_steps::mount_steps(mount.src, mount.dest, mount.kind, readonly);
    in_pieces(mounts, piece, x);
    assert forall|i: int| 0 <= i < mounts.len() implies (piece(#[trigger] mounts[i]).contains(x)
        <==> option == "--dir"@ && needs(mounts[i].dest, mounts[i].kind) == Some(value)) by {
        one_value_in_mount_steps(
            mounts[i].src,
            mounts[i].dest,
            mounts[i].kind,
            readonly,
            option,
            value,
        );
    }
}

proof fn one_value_in_hidden_steps(
    hidden: Seq<HiddenPathView>,
    host: HostView,
    option: Seq<char>,
    value: Seq<u8>,
)
    requires
        is_one_valued(option),
    ensures
        crate::bwrap_steps::hidden_steps(hidden, host).contains(
            crate::bwrap_steps::with_one(option, value),
        ) <==> (option == "--tmpfs"@ || option == "--remount-ro"@) && directory_hidden(
            hidden,
            value,
        ),
    decreases hidden.len(),
{
    one_valued_options_differ();
    let x = crate::bwrap_steps::with_one(option, value);
    assert(x.len() == 2 && x[0] == crate::bwrap::arg(option) && x[1] == value);
    if hidden.len() > 0 {
        let earlier = hidden.drop_last();
        let last = hidden.last();
        let file = host.hidden_files[crate::bwrap::files_in(earlier)]->Ok_0;
        let cover = crate::bwrap_steps::cover_steps(last, file);
        let emptied = crate::bwrap_steps::with_one("--tmpfs"@, last.dest);
        let locked = crate::bwrap_steps::with_one("--remount-ro"@, last.dest);
        one_value_in_hidden_steps(earlier, host, option, value);
        in_both(crate::bwrap_steps::hidden_steps(earlier, host), cover, x);
        assert(emptied[0] == crate::bwrap::arg("--tmpfs"@) && emptied[1] == last.dest);
        assert(locked[0] == crate::bwrap::arg("--remount-ro"@) && locked[1] == last.dest);
        assert forall|i: int| 0 <= i < earlier.len() implies #[trigger] earlier[i]
            == hidden[i] by {}
        assert(hidden[hidden.len() - 1] == last);
        if last.kind == MountKind::Dir {
            assert(cover.len() == 2 && cover[0] == emptied && cover[1] == locked);
            if last.dest == value && option == "--tmpfs"@ {
                assert(cover[0] =~= x);
            }
            if last.dest == value && option == "--remount-ro"@ {
                assert(cover[1] =~= x);
            }
        } else {
            assert(cover.len() == 1 && cover[0].len() == 3);
        }
        if directory_hidden(earlier, value) {
            let i = choose|i: int|
                0 <= i < earlier.len() && (#[trigger] earlier[i]).kind == MountKind::Dir
                    && earlier[i].dest == value;
            assert(hidden[i].kind == MountKind::Dir);
        }
        if directory_hidden(hidden, value) {
            let i = choose|i: int|
                0 <= i < hidden.len() && (#[trigger] hidden[i]).kind == MountKind::Dir
                    && hidden[i].dest == value;
            if i < earlier.len() {
                assert(earlier[i].kind == MountKind::Dir);
            }
        }
    }
}

/// What else is set up inside the sandbox. Empty directories stand where the policy has temporary
/// ones and over hidden directories, and the latter cannot be written. The file systems of the
/// kernel stand at `/proc` and `/dev`. Directories are made where something is mounted. The command
/// starts in the directory of the policy.
pub proof fn what_else_is_set_up(
    current_exe: Seq<u8>,
    policy: PolicyView,
    host: HostView,
    option: Seq<char>,
    value: Seq<u8>,
)
    requires
        is_one_valued(option),
    ensures
        crate::bwrap_steps::steps_of(current_exe, policy, host).contains(
            crate::bwrap_steps::with_one(option, value),
        ) <==> {
            ||| option == "--tmpfs"@ && (policy.tmpfs_mounts.contains(value) || directory_hidden(
                policy.hidden_paths,
                value,
            ))
            ||| option == "--remount-ro"@ && directory_hidden(policy.hidden_paths, value)
            ||| option == "--proc"@ && value == crate::bwrap::arg("/proc"@)
            ||| option == "--dev"@ && value == crate::bwrap::arg("/dev"@)
            ||| option == "--chdir"@ && value == policy.cwd
            ||| option == "--dir"@ && (needs_directory(policy.ro_mounts, value) || needs_directory(
                policy.rw_mounts,
                value,
            ) || crate::unix_path::parent_of(crate::bwrap::arg("/tmp/box-run-helper"@)) == Some(
                value,
            ))
        },
{
    one_valued_options_differ();
    let x = crate::bwrap_steps::with_one(option, value);
    assert(x.len() == 2 && x[0] == crate::bwrap::arg(option) && x[1] == value);
    let helper = crate::bwrap::helper_path_of();
    let s1 = crate::bwrap_steps::namespace_steps(policy.net);
    let s2 = crate::bwrap_steps::env_steps(policy.env);
    let s3 = crate::bwrap_steps::layout_steps(policy.fs_layout);
    let s4 = crate::bwrap_steps::tmpfs_steps(policy.tmpfs_mounts);
    let s5 = crate::bwrap_steps::mount_steps(current_exe, helper, MountKind::File, true);
    let s6 = crate::bwrap_steps::mounts_steps(policy.ro_mounts, true);
    let s7 = crate::bwrap_steps::mounts_steps(policy.rw_mounts, false);
    let s8 = crate::bwrap_steps::kernel_steps();
    let s9 = crate::bwrap_steps::hidden_steps(policy.hidden_paths, host);
    let s10 = seq![crate::bwrap_steps::with_one("--chdir"@, policy.cwd)];
    in_both(s1, s2, x);
    in_both(s1 + s2, s3, x);
    in_both(s1 + s2 + s3, s4, x);
    in_both(s1 + s2 + s3 + s4, s5, x);
    in_both(s1 + s2 + s3 + s4 + s5, s6, x);
    in_both(s1 + s2 + s3 + s4 + s5 + s6, s7, x);
    in_both(s1 + s2 + s3 + s4 + s5 + s6 + s7, s8, x);
    in_both(s1 + s2 + s3 + s4 + s5 + s6 + s7 + s8, s9, x);
    in_both(s1 + s2 + s3 + s4 + s5 + s6 + s7 + s8 + s9, s10, x);
    assert(forall|i: int| 0 <= i < s1.len() ==> (#[trigger] s1[i]).len() == 1);
    assert(forall|i: int|
        0 <= i < s2.len() ==> (#[trigger] s2[i]).len() == 1 || s2[i].len() == 3);
    assert(forall|i: int| 0 <= i < s3.len() ==> (#[trigger] s3[i]).len() == 3);
    one_value_in_mount_steps(current_exe, helper, MountKind::File, true, option, value);
    one_value_in_mounts_steps(policy.ro_mounts, true, option, value);
    one_value_in_mounts_steps(policy.rw_mounts, false, option, value);
    one_value_in_hidden_steps(policy.hidden_paths, host, option, value);
    one_value_in_value_steps(policy.tmpfs_mounts, option, value);
    one_value_in_fixed_steps(policy.cwd, option, value);
}

proof fn one_value_in_value_steps(paths: Seq<Seq<u8>>, option: Seq<char>, value: Seq<u8>)
    requires
        is_one_valued(option),
    ensures
        crate::bwrap_steps::tmpfs_steps(paths).contains(
            crate::bwrap_steps::with_one(option, value),
        ) <==> option == "--tmpfs"@ && paths.contains(value),
{
    one_valued_options_differ();
    let x = crate::bwrap_steps::with_one(option, value);
    let steps = crate::bwrap_steps::tmpfs_steps(paths);
    assert(x[0] == crate::bwrap::arg(option) && x[1] == value);
    if steps.contains(x) {
        let i = steps.index_of(x);
        assert(steps[i][0] == crate::bwrap::arg("--tmpfs"@) && steps[i][1] == paths[i]);
    }
    if option == "--tmpfs"@ && paths.contains(value) {
        assert(steps[paths.index_of(value)] =~= x);
    }
}

proof fn one_value_in_fixed_steps(cwd: Seq<u8>, option: Seq<char>, value: Seq<u8>)
    requires
        is_one_valued(option),
    ensures
        crate::bwrap_steps::kernel_steps().contains(
            crate::bwrap_steps::with_one(option, value),
        ) <==> option == "--proc"@ && value == crate::bwrap::arg("/proc"@) || option == "--dev"@
            && value == crate::bwrap::arg("/dev"@),
        seq![crate::bwrap_steps::with_one("--chdir"@, cwd)].contains(
            crate::bwrap_steps::with_one(option, value),
        ) <==> option == "--chdir"@ && value == cwd,
{
    one_valued_options_differ();
    let x = crate::bwrap_steps::with_one(option, value);
    let kernel = crate::bwrap_steps::kernel_steps();
    let change = seq![crate::bwrap_steps::with_one("--chdir"@, cwd)];
    assert(x[0] == crate::bwrap::arg(option) && x[1] == value);
    assert(kernel[0][0] == crate::bwrap::arg("--proc"@) && kernel[0][1] == crate::bwrap::arg(
        "/proc"@,
    ));
    assert(kernel[1][0] == crate::bwrap::arg("--dev"@) && kernel[1][1] == crate::bwrap::arg(
        "/dev"@,
    ));
    assert(change[0][0] == crate::bwrap::arg("--chdir"@) && change[0][1] == cwd);
    if option == "--proc"@ && value == crate::bwrap::arg("/proc"@) {
        assert(kernel[0] =~= x);
    }
    if option == "--dev"@ && value == crate::bwrap::arg("/dev"@) {
        assert(kernel[1] =~= x);
    }
    if option == "--chdir"@ && value == cwd {
        assert(change[0] =~= x);
    }
}

/// A step lies between two places.
pub open spec fn lies(
    steps: Seq<Seq<Seq<u8>>>,
    from: int,
    to: int,
    step: Seq<Seq<u8>>,
) -> bool {
    exists|k: int| from <= k < to && #[trigger] steps[k] == step
}

/// The order in which a sandbox is set up. The environment is cleared before a variable is set. The
/// host's files come first, then the temporary directories, this executable, the read-only mounts,
/// the writable mounts, the file systems of the kernel, and the covers of hidden paths: what comes
/// later stands over what comes earlier.
pub proof fn steps_come_in_order(current_exe: Seq<u8>, policy: PolicyView, host: HostView) -> (at:
    Seq<int>)
    ensures
        at.len() == 9,
        forall|i: int, j: int| 0 <= i < j < at.len() ==> at[i] <= at[j],
        ({
            let steps = crate::bwrap_steps::steps_of(current_exe, policy, host);
            &&& policy.env.clear ==> lies(
                steps,
                0,
                at[0],
                crate::bwrap_steps::plain("--clearenv"@),
            )
            &&& forall|i: int|
                0 <= i < policy.env.vars.len() ==> lies(
                    steps,
                    at[0],
                    at[1],
                    crate::bwrap_steps::with_two(
                        "--setenv"@,
                        crate::bwrap::arg((#[trigger] policy.env.vars[i]).0),
                        policy.env.vars[i].1,
                    ),
                )
            &&& policy.fs_layout == FsLayout::HostRo ==> lies(
                steps,
                at[1],
                at[2],
                crate::bwrap_steps::with_two(
                    "--ro-bind"@,
                    crate::bwrap::arg("/"@),
                    crate::bwrap::arg("/"@),
                ),
            )
            &&& forall|i: int|
                0 <= i < policy.tmpfs_mounts.len() ==> lies(
                    steps,
                    at[2],
                    at[3],
                    crate::bwrap_steps::with_one("--tmpfs"@, #[trigger] policy.tmpfs_mounts[i]),
                )
            &&& lies(
                steps,
                at[3],
                at[4],
                crate::bwrap_steps::with_two(
                    "--ro-bind"@,
                    current_exe,
                    crate::bwrap::arg("/tmp/box-run-helper"@),
                ),
            )
            &&& forall|i: int|
                0 <= i < policy.ro_mounts.len() ==> lies(
                    steps,
                    at[4],
                    at[5],
                    crate::bwrap_steps::with_two(
                        "--ro-bind"@,
                        (#[trigger] policy.ro_mounts[i]).src,
                        policy.ro_mounts[i].dest,
                    ),
                )
            &&& forall|i: int|
                0 <= i < policy.rw_mounts.len() ==> lies(
                    steps,
                    at[5],
                    at[6],
                    crate::bwrap_steps::with_two(
                        "--bind"@,
                        (#[trigger] policy.rw_mounts[i]).src,
                        policy.rw_mounts[i].dest,
                    ),
                )
            &&& lies(
                steps,
                at[6],
                at[7],
                crate::bwrap_steps::with_one("--proc"@, crate::bwrap::arg("/proc"@)),
            )
            &&& lies(
                steps,
                at[6],
                at[7],
                crate::bwrap_steps::with_one("--dev"@, crate::bwrap::arg("/dev"@)),
            )
            &&& forall|i: int|
                0 <= i < policy.hidden_paths.len() ==> exists|k: int|
                    at[7] <= k < at[8] && covers(
                        #[trigger] steps[k],
                        #[trigger] policy.hidden_paths[i],
                        crate::bwrap::files_in(policy.hidden_paths.take(i)),
                        host,
                    )
            &&& at[8] == steps.len() - 1
        }),
{
    let helper = crate::bwrap::helper_path_of();
    let steps = crate::bwrap_steps::steps_of(current_exe, policy, host);
    let s1 = crate::bwrap_steps::namespace_steps(policy.net);
    let s2 = crate::bwrap_steps::env_steps(policy.env);
    let s3 = crate::bwrap_steps::layout_steps(policy.fs_layout);
    let s4 = crate::bwrap_steps::tmpfs_steps(policy.tmpfs_mounts);
    let s5 = crate::bwrap_steps::mount_steps(current_exe, helper, MountKind::File, true);
    let s6 = crate::bwrap_steps::mounts_steps(policy.ro_mounts, true);
    let s7 = crate::bwrap_steps::mounts_steps(policy.rw_mounts, false);
    let s8 = crate::bwrap_steps::kernel_steps();
    let s9 = crate::bwrap_steps::hidden_steps(policy.hidden_paths, host);
    let cleared: int = if policy.env.clear { 1 } else { 0 };
    let e0 = s1.len() + cleared;
    let e1 = s1.len() + s2.len();
    let e2 = e1 + s3.len();
    let e3 = e2 + s4.len();
    let e4 = e3 + s5.len();
    let e5 = e4 + s6.len();
    let e6 = e5 + s7.len();
    let e7 = e6 + s8.len();
    let e8 = e7 + s9.len();
    let at = seq![
        e0 as int,
        e1 as int,
        e2 as int,
        e3 as int,
        e4 as int,
        e5 as int,
        e6 as int,
        e7 as int,
        e8 as int,
    ];
    assert(steps.len() == e8 + 1);
    parts_of_steps(current_exe, policy, host);
    if policy.env.clear {
        assert(steps[s1.len() as int] == s2[0]);
        assert(s2[0] == crate::bwrap_steps::plain("--clearenv"@));
    }
    assert forall|i: int| 0 <= i < policy.env.vars.len() implies lies(
        steps,
        at[0],
        at[1],
        crate::bwrap_steps::with_two(
            "--setenv"@,
            crate::bwrap::arg((#[trigger] policy.env.vars[i]).0),
            policy.env.vars[i].1,
        ),
    ) by {
        assert(steps[s1.len() + cleared + i] == s2[cleared + i]);
    }
    if policy.fs_layout == FsLayout::HostRo {
        assert(steps[e1 as int] == s3[0]);
    }
    assert forall|i: int| 0 <= i < policy.tmpfs_mounts.len() implies lies(
        steps,
        at[2],
        at[3],
        crate::bwrap_steps::with_one("--tmpfs"@, #[trigger] policy.tmpfs_mounts[i]),
    ) by {
        assert(steps[e2 + i] == s4[i]);
    }
    in_mount_steps(current_exe, helper, MountKind::File, true, "--ro-bind"@, current_exe, helper);
    section_lies(
        steps,
        s5,
        e3 as int,
        crate::bwrap_steps::with_two("--ro-bind"@, current_exe, helper),
    );
    assert forall|i: int| 0 <= i < policy.ro_mounts.len() implies lies(
        steps,
        at[4],
        at[5],
        crate::bwrap_steps::with_two(
            "--ro-bind"@,
            (#[trigger] policy.ro_mounts[i]).src,
            policy.ro_mounts[i].dest,
        ),
    ) by {
        let mount = policy.ro_mounts[i];
        in_mounts_steps(policy.ro_mounts, true, "--ro-bind"@, mount.src, mount.dest);
        assert(mounted(policy.ro_mounts, mount.src, mount.dest));
        section_lies(
            steps,
            s6,
            e4 as int,
            crate::bwrap_steps::with_two("--ro-bind"@, mount.src, mount.dest),
        );
    }
    assert forall|i: int| 0 <= i < policy.rw_mounts.len() implies lies(
        steps,
        at[5],
        at[6],
        crate::bwrap_steps::with_two(
            "--bind"@,
            (#[trigger] policy.rw_mounts[i]).src,
            policy.rw_mounts[i].dest,
        ),
    ) by {
        let mount = policy.rw_mounts[i];
        in_mounts_steps(policy.rw_mounts, false, "--bind"@, mount.src, mount.dest);
        assert(mounted(policy.rw_mounts, mount.src, mount.dest));
        section_lies(
            steps,
            s7,
            e5 as int,
            crate::bwrap_steps::with_two("--bind"@, mount.src, mount.dest),
        );
    }
    assert(steps[e6 + 0int] == s8[0] && steps[e6 + 1int] == s8[1]);
    assert forall|i: int| 0 <= i < policy.hidden_paths.len() implies exists|k: int|
        at[7] <= k < at[8] && covers(
            #[trigger] steps[k],
            #[trigger] policy.hidden_paths[i],
            crate::bwrap::files_in(policy.hidden_paths.take(i)),
            host,
        ) by {
        each_is_covered(policy.hidden_paths, host, i);
        let k = choose|k: int|
            0 <= k < s9.len() && covers(
                #[trigger] s9[k],
                policy.hidden_paths[i],
                crate::bwrap::files_in(policy.hidden_paths.take(i)),
                host,
            );
        assert(steps[e7 + k] == s9[k]);
    }
    at
}

proof fn section_lies(
    steps: Seq<Seq<Seq<u8>>>,
    section: Seq<Seq<Seq<u8>>>,
    from: int,
    step: Seq<Seq<u8>>,
)
    requires
        section.contains(step),
        forall|i: int| 0 <= i < section.len() ==> steps[from + i] == #[trigger] section[i],
    ensures
        lies(steps, from, from + section.len(), step),
{
    let i = section.index_of(step);
    assert(steps[from + i] == section[i]);
}

proof fn parts_of_steps(current_exe: Seq<u8>, policy: PolicyView, host: HostView)
    ensures
        ({
            let steps = crate::bwrap_steps::steps_of(current_exe, policy, host);
            let s1 = crate::bwrap_steps::namespace_steps(policy.net);
            let s2 = crate::bwrap_steps::env_steps(policy.env);
            let s3 = crate::bwrap_steps::layout_steps(policy.fs_layout);
            let s4 = crate::bwrap_steps::tmpfs_steps(policy.tmpfs_mounts);
            let s5 = crate::bwrap_steps::mount_steps(
                current_exe,
                crate::bwrap::helper_path_of(),
                MountKind::File,
                true,
            );
            let s6 = crate::bwrap_steps::mounts_steps(policy.ro_mounts, true);
            let s7 = crate::bwrap_steps::mounts_steps(policy.rw_mounts, false);
            let s8 = crate::bwrap_steps::kernel_steps();
            let s9 = crate::bwrap_steps::hidden_steps(policy.hidden_paths, host);
            let e1 = s1.len() + s2.len();
            let e2 = e1 + s3.len();
            let e3 = e2 + s4.len();
            let e4 = e3 + s5.len();
            let e5 = e4 + s6.len();
            let e6 = e5 + s7.len();
            let e7 = e6 + s8.len();
            &&& steps.len() == e7 + s9.len() + 1
            &&& forall|i: int| 0 <= i < s2.len() ==> steps[s1.len() + i] == #[trigger] s2[i]
            &&& forall|i: int| 0 <= i < s3.len() ==> steps[e1 + i] == #[trigger] s3[i]
            &&& forall|i: int| 0 <= i < s4.len() ==> steps[e2 + i] == #[trigger] s4[i]
            &&& forall|i: int| 0 <= i < s5.len() ==> steps[e3 + i] == #[trigger] s5[i]
            &&& forall|i: int| 0 <= i < s6.len() ==> steps[e4 + i] == #[trigger] s6[i]
            &&& forall|i: int| 0 <= i < s7.len() ==> steps[e5 + i] == #[trigger] s7[i]
            &&& forall|i: int| 0 <= i < s8.len() ==> steps[e6 + i] == #[trigger] s8[i]
            &&& forall|i: int| 0 <= i < s9.len() ==> steps[e7 + i] == #[trigger] s9[i]
        }),
{
}

proof fn front_comes_first<A, B>(items: Seq<A>, piece: spec_fn(A) -> Seq<B>, count: int)
    requires
        0 <= count <= items.len(),
    ensures
        ({
            let front = crate::bwrap::concat_map(items.take(count), piece);
            let all = crate::bwrap::concat_map(items, piece);
            front.len() <= all.len() && all.take(front.len() as int) == front
        }),
    decreases items.len() - count,
{
    let front = crate::bwrap::concat_map(items.take(count), piece);
    if count == items.len() {
        assert(items.take(count) =~= items);
        assert(front.take(front.len() as int) =~= front);
    } else {
        front_comes_first(items, piece, count + 1);
        let next = crate::bwrap::concat_map(items.take(count + 1), piece);
        let all = crate::bwrap::concat_map(items, piece);
        assert(items.take(count + 1).drop_last() =~= items.take(count));
        assert(items.take(count + 1).last() == items[count]);
        assert(next == front + piece(items[count]));
        assert(all.take(front.len() as int) =~= front) by {
            assert forall|i: int| 0 <= i < front.len() implies all[i] == front[i] by {
                assert(all.take(next.len() as int)[i] == next[i]);
            }
        }
    }
}

/// A mount is made at `at`, and the directory that it needs is made right before.
pub open spec fn made_at(
    steps: Seq<Seq<Seq<u8>>>,
    at: int,
    mount: MountView,
    option: Seq<char>,
) -> bool {
    &&& 0 <= at < steps.len()
    &&& steps[at] == crate::bwrap_steps::with_two(option, mount.src, mount.dest)
    &&& needs(mount.dest, mount.kind) matches Some(directory) ==> at > 0 && steps[at - 1]
        == crate::bwrap_steps::with_one("--dir"@, directory)
}

proof fn mount_stands(mounts: Seq<MountView>, readonly: bool, i: int) -> (at: int)
    requires
        0 <= i < mounts.len(),
    ensures
        ({
            let piece = |mount: MountView|
                crate::bwrap_steps::mount_steps(mount.src, mount.dest, mount.kind, readonly);
            &&& made_at(
                crate::bwrap_steps::mounts_steps(mounts, readonly),
                at,
                mounts[i],
                if readonly {
                    "--ro-bind"@
                } else {
                    "--bind"@
                },
            )
            &&& crate::bwrap::concat_map(mounts.take(i), piece).len() <= at
                < crate::bwrap::concat_map(mounts.take(i + 1), piece).len()
        }),
{
    let piece = |mount: MountView|
        crate::bwrap_steps::mount_steps(mount.src, mount.dest, mount.kind, readonly);
    let front = crate::bwrap::concat_map(mounts.take(i), piece);
    let next = crate::bwrap::concat_map(mounts.take(i + 1), piece);
    let all = crate::bwrap::concat_map(mounts, piece);
    front_comes_first(mounts, piece, i + 1);
    assert(mounts.take(i + 1).drop_last() =~= mounts.take(i));
    assert(mounts.take(i + 1).last() == mounts[i]);
    let own = piece(mounts[i]);
    assert(next == front + own);
    let at = next.len() - 1;
    assert(all.take(next.len() as int)[at] == next[at]);
    assert(next[at] == own[own.len() - 1]);
    if own.len() > 1 {
        assert(all.take(next.len() as int)[at - 1] == next[at - 1]);
        assert(next[at - 1] == own[own.len() - 2]);
    }
    at
}

/// A mount is made once the directory that it needs is there, and mounts are made in the order of
/// the policy: one that stands beneath another is not covered by it.
pub proof fn mounts_are_made_in_order(
    current_exe: Seq<u8>,
    policy: PolicyView,
    host: HostView,
    i: int,
    j: int,
)
    ensures
        ({
            let steps = crate::bwrap_steps::steps_of(current_exe, policy, host);
            &&& 0 <= i < j < policy.ro_mounts.len() ==> exists|k: int, l: int|
                #![trigger steps[k], steps[l]]
                k < l && made_at(steps, k, policy.ro_mounts[i], "--ro-bind"@) && made_at(
                    steps,
                    l,
                    policy.ro_mounts[j],
                    "--ro-bind"@,
                )
            &&& 0 <= i < j < policy.rw_mounts.len() ==> exists|k: int, l: int|
                #![trigger steps[k], steps[l]]
                k < l && made_at(steps, k, policy.rw_mounts[i], "--bind"@) && made_at(
                    steps,
                    l,
                    policy.rw_mounts[j],
                    "--bind"@,
                )
            &&& 0 <= i < policy.ro_mounts.len() && 0 <= j < policy.rw_mounts.len() ==> exists|
                k: int,
                l: int,
            |
                #![trigger steps[k], steps[l]]
                k < l && made_at(steps, k, policy.ro_mounts[i], "--ro-bind"@) && made_at(
                    steps,
                    l,
                    policy.rw_mounts[j],
                    "--bind"@,
                )
        }),
{
    let steps = crate::bwrap_steps::steps_of(current_exe, policy, host);
    parts_of_steps(current_exe, policy, host);
    let ro = crate::bwrap_steps::mounts_steps(policy.ro_mounts, true);
    let rw = crate::bwrap_steps::mounts_steps(policy.rw_mounts, false);
    let before = crate::bwrap_steps::namespace_steps(policy.net).len()
        + crate::bwrap_steps::env_steps(policy.env).len() + crate::bwrap_steps::layout_steps(
        policy.fs_layout,
    ).len() + crate::bwrap_steps::tmpfs_steps(policy.tmpfs_mounts).len()
        + crate::bwrap_steps::mount_steps(
        current_exe,
        crate::bwrap::helper_path_of(),
        MountKind::File,
        true,
    ).len();
    let between = before + ro.len();
    if 0 <= i < j < policy.ro_mounts.len() {
        let k = mount_stands(policy.ro_mounts, true, i);
        let l = mount_stands(policy.ro_mounts, true, j);
        mounts_keep_their_order(policy.ro_mounts, true, i, j);
        made_at_moves(steps, ro, before as int, k, policy.ro_mounts[i], "--ro-bind"@);
        made_at_moves(steps, ro, before as int, l, policy.ro_mounts[j], "--ro-bind"@);
        assert(made_at(steps, before + k, policy.ro_mounts[i], "--ro-bind"@));
        assert(steps[before + k] == steps[before + k] && steps[before + l] == steps[before + l]);
    }
    if 0 <= i < j < policy.rw_mounts.len() {
        let k = mount_stands(policy.rw_mounts, false, i);
        let l = mount_stands(policy.rw_mounts, false, j);
        mounts_keep_their_order(policy.rw_mounts, false, i, j);
        made_at_moves(steps, rw, between as int, k, policy.rw_mounts[i], "--bind"@);
        made_at_moves(steps, rw, between as int, l, policy.rw_mounts[j], "--bind"@);
        assert(steps[between + k] == steps[between + k] && steps[between + l] == steps[between
            + l]);
    }
    if 0 <= i < policy.ro_mounts.len() && 0 <= j < policy.rw_mounts.len() {
        let k = mount_stands(policy.ro_mounts, true, i);
        let l = mount_stands(policy.rw_mounts, false, j);
        made_at_moves(steps, ro, before as int, k, policy.ro_mounts[i], "--ro-bind"@);
        made_at_moves(steps, rw, between as int, l, policy.rw_mounts[j], "--bind"@);
        assert(steps[before + k] == steps[before + k] && steps[between + l] == steps[between + l]);
    }
}

proof fn mounts_keep_their_order(mounts: Seq<MountView>, readonly: bool, i: int, j: int)
    requires
        0 <= i < j < mounts.len(),
    ensures
        ({
            let piece = |mount: MountView|
                crate::bwrap_steps::mount_steps(mount.src, mount.dest, mount.kind, readonly);
            crate::bwrap::concat_map(mounts.take(i + 1), piece).len() <= crate::bwrap::concat_map(
                mounts.take(j),
                piece,
            ).len()
        }),
{
    let piece = |mount: MountView|
        crate::bwrap_steps::mount_steps(mount.src, mount.dest, mount.kind, readonly);
    front_comes_first(mounts.take(j), piece, i + 1);
    assert(mounts.take(j).take(i + 1) =~= mounts.take(i + 1));
}

proof fn made_at_moves(
    steps: Seq<Seq<Seq<u8>>>,
    section: Seq<Seq<Seq<u8>>>,
    from: int,
    at: int,
    mount: MountView,
    option: Seq<char>,
)
    requires
        0 <= from,
        from + section.len() <= steps.len(),
        forall|i: int| 0 <= i < section.len() ==> steps[from + i] == #[trigger] section[i],
        made_at(section, at, mount, option),
    ensures
        made_at(steps, from + at, mount, option),
{
    assert(steps[from + at] == section[at]);
    if at > 0 {
        assert(steps[from + (at - 1)] == section[at - 1]);
    }
}

/// What is started inside the sandbox is this executable, at the path at which it is shown there.
/// It is asked to be the helper, and it reads the plan and the command of the policy in what
/// follows. The command comes last, word by word.
pub proof fn helper_is_started_with_the_plan(
    current_exe: Seq<u8>,
    policy: PolicyView,
    host: HostView,
)
    requires
        crate::bwrap::bwrap_args_of(current_exe, policy, host) is Ok,
    ensures
        ({
            let args = crate::bwrap::bwrap_args_of(current_exe, policy, host)->Ok_0;
            let read = crate::bwrap_steps::read(args, crate::bwrap_steps::bwrap_values());
            let (steps, words) = read->0;
            &&& read is Some
            &&& words.len() > 2
            &&& steps.contains(crate::bwrap_steps::with_two("--ro-bind"@, current_exe, words[0]))
            &&& words[0] == crate::bwrap::arg("/tmp/box-run-helper"@)
            &&& words[1] == crate::bwrap::arg("__helper"@)
            &&& crate::bwrap_steps::helper_args_read(words.skip(2)) matches Some(given) && {
                &&& given.landlock_ro == policy.landlock.ro_paths
                &&& given.landlock_rw == policy.landlock.rw_paths
                &&& given.landlock_tcp_connect == policy.landlock.tcp_connect_ports
                &&& given.landlock_tcp_bind == policy.landlock.tcp_bind_ports
                &&& given.command == policy.command
            }
            &&& args.len() > policy.command.len()
            &&& args.skip(args.len() - policy.command.len()) == policy.command
            &&& args[args.len() - policy.command.len() - 1] == crate::bwrap::arg("--"@)
        }),
{
    let args = crate::bwrap::bwrap_args_of(current_exe, policy, host)->Ok_0;
    crate::bwrap_steps::arguments_are_read_as_steps(current_exe, policy, host);
    crate::bwrap_steps::helper_gets_the_plan(policy);
    what_is_read_only(current_exe, policy, host, current_exe, crate::bwrap::helper_path_of());
    let words = crate::bwrap_steps::helper_words(policy);
    assert(words.len() > 2);
    assert(words[0] == crate::bwrap::arg("/tmp/box-run-helper"@));
    assert(words[1] == crate::bwrap::arg("__helper"@));
    let target = crate::bwrap::target_args_of(policy);
    assert(args.skip(args.len() - policy.command.len()) =~= policy.command);
    assert(args[args.len() - policy.command.len() - 1] == target[target.len()
        - policy.command.len() - 1]);
}

/// Two hidden files are never covered by the same empty file.
pub proof fn hidden_files_have_files_of_their_own(hidden: Seq<HiddenPathView>, i: int, j: int)
    requires
        0 <= i < j < hidden.len(),
        hidden[i].kind == MountKind::File,
    ensures
        crate::bwrap::files_in(hidden.take(i)) < crate::bwrap::files_in(hidden.take(j)),
    decreases j - i,
{
    let shorter = hidden.take(j);
    assert(shorter.drop_last() =~= hidden.take(j - 1));
    assert(shorter.last() == hidden[j - 1]);
    if j > i + 1 {
        hidden_files_have_files_of_their_own(hidden, i, j - 1);
    }
}

/// The arguments can be written down exactly when there is an empty file for each hidden file.
/// Nothing else stands in the way. What is missing is asked for, and a file that could not be
/// created is a failure.
pub proof fn arguments_need_the_empty_files(
    current_exe: Seq<u8>,
    policy: PolicyView,
    host: HostView,
)
    ensures
        crate::bwrap::bwrap_args_of(current_exe, policy, host) is Ok <==> forall|i: int|
            0 <= i < policy.hidden_paths.len() && (#[trigger] policy.hidden_paths[i]).kind
                == MountKind::File ==> {
                let number = crate::bwrap::files_in(policy.hidden_paths.take(i));
                host.hidden_files.dom().contains(number) && host.hidden_files[number] is Ok
            },
        crate::bwrap::bwrap_args_of(current_exe, policy, host) matches Err(halt) ==> {
            ||| halt matches crate::host::HaltView::Ask(
                crate::host::QueryView::HiddenFile(number),
            ) && !host.hidden_files.dom().contains(number)
            ||| halt matches crate::host::HaltView::Fail(
                crate::error::ErrorView::Spawn { program, source },
            ) && program == crate::bwrap::arg("tempfile"@)
        },
{
    covers_need_the_empty_files(policy.hidden_paths, host);
}

proof fn covers_need_the_empty_files(hidden: Seq<HiddenPathView>, host: HostView)
    ensures
        crate::bwrap::hidden_args_of(hidden, host) is Ok <==> forall|i: int|
            0 <= i < hidden.len() && (#[trigger] hidden[i]).kind == MountKind::File ==> {
                let number = crate::bwrap::files_in(hidden.take(i));
                host.hidden_files.dom().contains(number) && host.hidden_files[number] is Ok
            },
        crate::bwrap::hidden_args_of(hidden, host) matches Err(halt) ==> {
            ||| halt matches crate::host::HaltView::Ask(
                crate::host::QueryView::HiddenFile(number),
            ) && !host.hidden_files.dom().contains(number)
            ||| halt matches crate::host::HaltView::Fail(
                crate::error::ErrorView::Spawn { program, source },
            ) && program == crate::bwrap::arg("tempfile"@)
        },
    decreases hidden.len(),
{
    if hidden.len() > 0 {
        let earlier = hidden.drop_last();
        let last = hidden.len() - 1;
        covers_need_the_empty_files(earlier, host);
        assert(hidden.take(last) =~= earlier);
        assert(hidden[last] == hidden.last());
        assert forall|i: int| 0 <= i < earlier.len() implies earlier.take(i) == hidden.take(i)
            && #[trigger] earlier[i] == hidden[i] by {
            assert(earlier.take(i) =~= hidden.take(i));
        }
        if crate::bwrap::hidden_args_of(earlier, host) is Ok {
            assert forall|i: int|
                0 <= i < earlier.len() && (#[trigger] hidden[i]).kind == MountKind::File implies {
                let number = crate::bwrap::files_in(hidden.take(i));
                host.hidden_files.dom().contains(number) && host.hidden_files[number] is Ok
            } by {
                assert(earlier[i].kind == MountKind::File);
            }
        } else {
            let i = choose|i: int|
                0 <= i < earlier.len() && (#[trigger] earlier[i]).kind == MountKind::File && {
                    let number = crate::bwrap::files_in(earlier.take(i));
                    !(host.hidden_files.dom().contains(number) && host.hidden_files[number] is Ok)
                };
            assert(hidden[i].kind == MountKind::File);
        }
    }
}

} // verus!

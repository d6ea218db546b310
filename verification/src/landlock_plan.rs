//! What Landlock leaves allowed inside a sandbox.
use vstd::prelude::*;

use crate::cli::FsLayout;
use crate::copies::copy_paths;
use crate::placed::sorted_distinct;
use crate::policy::{LandlockPlan, LandlockPlanView, Mount, MountView};
use crate::policy_input::merge_vecs;
use crate::unix_path::UnixPath;

verus! {

/// The destinations of mounts.
pub open spec fn dests_of(mounts: Seq<MountView>) -> Seq<Seq<u8>> {
    mounts.map_values(|mount: MountView| mount.dest)
}

/// The paths that can be read in every strict sandbox.
pub open spec fn system_paths_of() -> Seq<Seq<u8>> {
    seq![vstd::utf8::encode_utf8("/proc"@), vstd::utf8::encode_utf8("/dev"@)]
}

/// The devices that can be written in every strict sandbox.
pub open spec fn device_paths_of() -> Seq<Seq<u8>> {
    seq![
        vstd::utf8::encode_utf8("/dev/null"@),
        vstd::utf8::encode_utf8("/dev/full"@),
        vstd::utf8::encode_utf8("/dev/zero"@),
        vstd::utf8::encode_utf8("/dev/random"@),
        vstd::utf8::encode_utf8("/dev/urandom"@),
        vstd::utf8::encode_utf8("/dev/tty"@),
        vstd::utf8::encode_utf8("/dev/pts"@),
        vstd::utf8::encode_utf8("/dev/ptmx"@),
    ]
}

/// How many ports at the front are below `port`.
pub open spec fn port_position(ports: Seq<u16>, port: u16) -> int
    decreases ports.len(),
{
    if ports.len() == 0 || port <= ports[0] {
        0
    } else {
        1 + port_position(ports.drop_first(), port)
    }
}

/// The ports with `port` among them.
pub open spec fn with_port(ports: Seq<u16>, port: u16) -> Seq<u16> {
    let at = port_position(ports, port);
    if at < ports.len() && ports[at] == port {
        ports
    } else {
        ports.insert(at, port)
    }
}

/// The ports in ascending order, each of them once.
pub open spec fn tcp_ports_of(ports: Seq<u16>) -> Seq<u16>
    decreases ports.len(),
{
    if ports.len() == 0 {
        Seq::empty()
    } else {
        with_port(tcp_ports_of(ports.drop_last()), ports.last())
    }
}

/// What Landlock leaves allowed. The file system is restricted in a strict layout alone: then
/// what is mounted stays readable or writable as it is mounted.
pub open spec fn landlock_plan_of(
    fs_layout: FsLayout,
    ro_mounts: Seq<MountView>,
    rw_mounts: Seq<MountView>,
    tmpfs_mounts: Seq<Seq<u8>>,
    allow_tcp_connect: Seq<u16>,
    allow_tcp_bind: Seq<u16>,
) -> LandlockPlanView {
    LandlockPlanView {
        ro_paths: if fs_layout == FsLayout::HostRo {
            Seq::empty()
        } else {
            crate::placed::sort_distinct::<UnixPath>(dests_of(ro_mounts) + system_paths_of())
        },
        rw_paths: if fs_layout == FsLayout::HostRo {
            Seq::empty()
        } else {
            crate::placed::sort_distinct::<UnixPath>(
                dests_of(rw_mounts) + tmpfs_mounts + device_paths_of(),
            )
        },
        tcp_connect_ports: tcp_ports_of(allow_tcp_connect),
        tcp_bind_ports: tcp_ports_of(allow_tcp_bind),
    }
}

proof fn port_position_splits(ports: Seq<u16>, port: u16)
    ensures
        0 <= port_position(ports, port) <= ports.len(),
        forall|i: int| 0 <= i < port_position(ports, port) ==> ports[i] < port,
        port_position(ports, port) < ports.len() ==> port <= ports[port_position(ports, port)],
    decreases ports.len(),
{
    if !(ports.len() == 0 || port <= ports[0]) {
        let rest = ports.drop_first();
        port_position_splits(rest, port);
        assert forall|i: int| 0 <= i < port_position(ports, port) implies ports[i] < port by {
            if i > 0 {
                assert(rest[i - 1] == ports[i]);
            }
        }
    }
}

/// The ports ascend, and no port is there twice.
pub open spec fn ports_ascend(ports: Seq<u16>) -> bool {
    forall|i: int, j: int| 0 <= i < j < ports.len() ==> ports[i] < ports[j]
}

/// Ports in their normal form ascend, none of them is there twice, and they are the ports that
/// were given.
pub proof fn tcp_ports_are_normal(ports: Seq<u16>)
    ensures
        ports_ascend(tcp_ports_of(ports)),
        forall|port: u16| tcp_ports_of(ports).contains(port) <==> ports.contains(port),
    decreases ports.len(),
{
    if ports.len() > 0 {
        let earlier = ports.drop_last();
        let last = ports.last();
        let sorted = tcp_ports_of(earlier);
        let at = port_position(sorted, last);
        let result = tcp_ports_of(ports);
        tcp_ports_are_normal(earlier);
        port_position_splits(sorted, last);
        assert(ports =~= earlier.push(last));
        assert forall|port: u16| result.contains(port) <==> ports.contains(port) by {
            assert(ports.contains(port) <==> earlier.contains(port) || port == last) by {
                if earlier.contains(port) {
                    assert(ports[earlier.index_of(port)] == port);
                }
                assert(ports[ports.len() - 1] == last);
            }
            if at < sorted.len() && sorted[at] == last {
                assert(result == sorted);
            } else {
                assert(result[at] == last);
                if sorted.contains(port) {
                    let i = sorted.index_of(port);
                    assert(result[if i < at { i } else { i + 1 }] == port);
                }
                if result.contains(port) && port != last {
                    let i = result.index_of(port);
                    assert(sorted[if i < at { i } else { i - 1 }] == port);
                }
            }
        }
    }
}

/// Ports in their normal form stay as they are.
pub proof fn tcp_ports_stay_normal(ports: Seq<u16>)
    requires
        ports_ascend(ports),
    ensures
        tcp_ports_of(ports) == ports,
    decreases ports.len(),
{
    if ports.len() > 0 {
        let earlier = ports.drop_last();
        tcp_ports_stay_normal(earlier);
        port_position_splits(earlier, ports.last());
        assert(port_position(earlier, ports.last()) == earlier.len());
        assert(tcp_ports_of(ports) =~= ports);
    } else {
        assert(tcp_ports_of(ports) =~= ports);
    }
}

/// The ports in ascending order, each of them once.
pub fn normalize_tcp_ports(ports: &Vec<u16>) -> (normal: Vec<u16>)
    ensures
        normal@ == tcp_ports_of(ports@),
        ports_ascend(normal@),
        forall|port: u16| normal@.contains(port) <==> ports@.contains(port),
{
    let mut normal: Vec<u16> = Vec::new();
    assert(ports@.take(0) =~= Seq::empty());
    let mut i: usize = 0;
    while i < ports.len()
        invariant
            i <= ports.len(),
            normal@ == tcp_ports_of(ports@.take(i as int)),
        decreases ports.len() - i,
    {
        let port: u16 = ports[i];
        assert(ports@.take(i + 1).drop_last() =~= ports@.take(i as int));
        let mut at: usize = 0;
        assert(normal@.skip(0) =~= normal@);
        while at < normal.len() && normal[at] < port
            invariant
                at <= normal.len(),
                port_position(normal@, port) == at + port_position(normal@.skip(at as int), port),
            decreases normal.len() - at,
        {
            assert(normal@.skip(at as int).drop_first() =~= normal@.skip(at + 1));
            at += 1;
        }
        if at < normal.len() {
            assert(normal@.skip(at as int)[0] == normal[at as int]);
        }
        if !(at < normal.len() && normal[at] == port) {
            normal.insert(at, port);
        }
        i += 1;
    }
    assert(ports@.take(i as int) =~= ports@);
    proof {
        tcp_ports_are_normal(ports@);
    }
    normal
}

/// The destinations of the mounts.
pub fn destinations(mounts: &Vec<Mount>) -> (dests: Vec<UnixPath>)
    ensures
        dests.deep_view() == dests_of(mounts.deep_view()),
{
    let ghost model = dests_of(mounts.deep_view());
    let mut dests: Vec<UnixPath> = Vec::new();
    let mut i: usize = 0;
    while i < mounts.len()
        invariant
            i <= mounts.len(),
            model == dests_of(mounts.deep_view()),
            dests.deep_view() == model.take(i as int),
        decreases mounts.len() - i,
    {
        let dest = mounts[i].dest.clone();
        let ghost before = dests.deep_view();
        dests.push(dest);
        assert(dests.deep_view() =~= before.push(dest@));
        assert(dests.deep_view() =~= model.take(i + 1));
        i += 1;
    }
    assert(model.take(i as int) =~= model);
    dests
}

/// The paths that can be read in every strict sandbox.
pub fn system_paths() -> (paths: Vec<UnixPath>)
    ensures
        paths.deep_view() == system_paths_of(),
{
    let mut paths: Vec<UnixPath> = Vec::new();
    paths.push(UnixPath::from_text("/proc"));
    paths.push(UnixPath::from_text("/dev"));
    assert(paths.deep_view() =~= system_paths_of());
    paths
}

/// The devices that can be written in every strict sandbox.
pub fn device_paths() -> (paths: Vec<UnixPath>)
    ensures
        paths.deep_view() == device_paths_of(),
{
    let mut paths: Vec<UnixPath> = Vec::new();
    paths.push(UnixPath::from_text("/dev/null"));
    paths.push(UnixPath::from_text("/dev/full"));
    paths.push(UnixPath::from_text("/dev/zero"));
    paths.push(UnixPath::from_text("/dev/random"));
    paths.push(UnixPath::from_text("/dev/urandom"));
    paths.push(UnixPath::from_text("/dev/tty"));
    paths.push(UnixPath::from_text("/dev/pts"));
    paths.push(UnixPath::from_text("/dev/ptmx"));
    assert(paths.deep_view() =~= device_paths_of());
    paths
}

/// What Landlock leaves allowed.
pub fn build_landlock_plan(
    fs_layout: FsLayout,
    ro_mounts: &Vec<Mount>,
    rw_mounts: &Vec<Mount>,
    tmpfs_mounts: &Vec<UnixPath>,
    allow_tcp_connect: &Vec<u16>,
    allow_tcp_bind: &Vec<u16>,
) -> (plan: LandlockPlan)
    ensures
        plan.deep_view() == landlock_plan_of(
            fs_layout,
            ro_mounts.deep_view(),
            rw_mounts.deep_view(),
            tmpfs_mounts.deep_view(),
            allow_tcp_connect@,
            allow_tcp_bind@,
        ),
{
    let tcp_connect_ports = normalize_tcp_ports(allow_tcp_connect);
    let tcp_bind_ports = normalize_tcp_ports(allow_tcp_bind);
    match fs_layout {
        FsLayout::HostRo => {
            let ro_paths: Vec<UnixPath> = Vec::new();
            let rw_paths: Vec<UnixPath> = Vec::new();
            assert(ro_paths.deep_view() =~= Seq::empty());
            assert(rw_paths.deep_view() =~= Seq::empty());
            LandlockPlan { ro_paths, rw_paths, tcp_connect_ports, tcp_bind_ports }
        },
        FsLayout::Strict => {
            let readable = merge_vecs(destinations(ro_mounts), system_paths());
            let mounted = merge_vecs(destinations(rw_mounts), copy_paths(tmpfs_mounts));
            let writable = merge_vecs(mounted, device_paths());
            LandlockPlan {
                ro_paths: sorted_distinct(readable),
                rw_paths: sorted_distinct(writable),
                tcp_connect_ports,
                tcp_bind_ports,
            }
        },
    }
}

} // verus!

//! What is mounted where, and what is hidden.
use vstd::prelude::*;

use crate::copies::copy_texts;
use crate::error::{BoxRunError, ErrorView};
use crate::host::{find_path, Halt, HaltView, HostFacts, HostView, Query, QueryView};
use crate::placed::{sorted_distinct, Placed};
use crate::policy::{HiddenPath, HiddenPathView, Mount, MountKind, MountView};
use crate::text::split_once;
use crate::unix_path::UnixPath;

verus! {

/// A path inside the sandbox has to be absolute.
pub open spec fn sandbox_path_of(path: Seq<u8>) -> Result<Seq<u8>, ErrorView> {
    if crate::unix_path::is_absolute(path) {
        Ok(path)
    } else {
        Err(ErrorView::NonAbsoluteSandboxPath { path })
    }
}

/// What the host makes of a path that is seen from `host_cwd`.
pub open spec fn canonical_of(path: Seq<u8>, host_cwd: Seq<u8>, host: HostView) -> Result<
    Seq<u8>,
    HaltView,
> {
    let path = crate::unix_path::join(host_cwd, path);
    if !host.canonical.dom().contains(path) {
        Err(HaltView::Ask(QueryView::Canonicalize(path)))
    } else {
        match host.canonical[path] {
            Ok(resolved) => Ok(resolved),
            Err(source) => Err(HaltView::Fail(ErrorView::CanonicalizePath { path, source })),
        }
    }
}

/// What is at a path of the host.
pub open spec fn kind_of(path: Seq<u8>, host: HostView) -> Result<MountKind, HaltView> {
    if !host.is_dir.dom().contains(path) {
        Err(HaltView::Ask(QueryView::Inspect(path)))
    } else {
        match host.is_dir[path] {
            Ok(true) => Ok(MountKind::Dir),
            Ok(false) => Ok(MountKind::File),
            Err(source) => Err(HaltView::Fail(ErrorView::Metadata { path, source })),
        }
    }
}

/// The mount of what is at `src` on the host at `dest` inside the sandbox.
pub open spec fn mount_at(src: Seq<u8>, dest: Seq<u8>, host: HostView) -> Result<
    MountView,
    HaltView,
> {
    match kind_of(src, host) {
        Ok(kind) => Ok(MountView { src, dest, kind }),
        Err(halt) => Err(halt),
    }
}

/// The source and the destination in `SRC[:DEST]`. Without a destination it is the source, as
/// seen from `host_cwd`.
pub open spec fn bind_ends(spec: Seq<char>, host_cwd: Seq<u8>) -> Result<
    (Seq<u8>, Seq<u8>),
    ErrorView,
> {
    match crate::text::split_once_of(spec, ':') {
        Some((src, dest)) => if src.len() == 0 || dest.len() == 0 {
            Err(ErrorView::InvalidBindSpec { spec })
        } else {
            Ok((vstd::utf8::encode_utf8(src), vstd::utf8::encode_utf8(dest)))
        },
        None => {
            let src = vstd::utf8::encode_utf8(spec);
            Ok((src, crate::unix_path::join(host_cwd, src)))
        },
    }
}

/// The mount that `SRC[:DEST]` asks for. The source is resolved on the host; the destination
/// stays as it was written, and has to be absolute.
pub open spec fn mount_of(spec: Seq<char>, host_cwd: Seq<u8>, host: HostView) -> Result<
    MountView,
    HaltView,
> {
    match bind_ends(spec, host_cwd) {
        Err(error) => Err(HaltView::Fail(error)),
        Ok((src, dest)) => match canonical_of(src, host_cwd, host) {
            Err(halt) => Err(halt),
            Ok(src) => match sandbox_path_of(dest) {
                Err(error) => Err(HaltView::Fail(error)),
                Ok(dest) => mount_at(src, dest, host),
            },
        },
    }
}

/// The mounts that are asked for, in that order. The first that cannot be had decides.
pub open spec fn mounts_of(specs: Seq<Seq<char>>, host_cwd: Seq<u8>, host: HostView) -> Result<
    Seq<MountView>,
    HaltView,
> {
    crate::host::collect(specs.map_values(|spec: Seq<char>| mount_of(spec, host_cwd, host)))
}

/// What is at `dest` inside the sandbox, as far as one mount tells. What stands beneath a
/// directory that is mounted stands on the host beneath its source.
pub open spec fn kind_in_mount(dest: Seq<u8>, mount: MountView, host: HostView) -> Result<
    Option<MountKind>,
    HaltView,
> {
    if crate::unix_path::same_path(dest, mount.dest) {
        Ok(Some(mount.kind))
    } else if mount.kind == MountKind::File {
        Ok(None)
    } else {
        match crate::unix_path::strip_prefix_of(dest, mount.dest) {
            None => Ok(None),
            Some(relative) => match kind_of(crate::unix_path::join(mount.src, relative), host) {
                Ok(kind) => Ok(Some(kind)),
                Err(halt) => Err(halt),
            },
        }
    }
}

/// What is at `dest` inside the sandbox: what the first mount says that can tell, or else what is
/// there on the host.
pub open spec fn hidden_kind_of(
    dest: Seq<u8>,
    mounts: Seq<MountView>,
    host_cwd: Seq<u8>,
    host: HostView,
) -> Result<MountKind, HaltView>
    decreases mounts.len(),
{
    if mounts.len() == 0 {
        kind_of(crate::unix_path::join(host_cwd, dest), host)
    } else {
        match kind_in_mount(dest, mounts[0], host) {
            Err(halt) => Err(halt),
            Ok(Some(kind)) => Ok(kind),
            Ok(None) => hidden_kind_of(dest, mounts.drop_first(), host_cwd, host),
        }
    }
}

/// The hidden path that is asked for.
pub open spec fn hidden_path_of(
    path: Seq<u8>,
    mounts: Seq<MountView>,
    host_cwd: Seq<u8>,
    host: HostView,
) -> Result<HiddenPathView, HaltView> {
    match sandbox_path_of(path) {
        Err(error) => Err(HaltView::Fail(error)),
        Ok(dest) => match hidden_kind_of(dest, mounts, host_cwd, host) {
            Err(halt) => Err(halt),
            Ok(kind) => Ok(HiddenPathView { dest, kind }),
        },
    }
}

/// The hidden paths that are asked for, in the order of the paths and each of them once. The
/// first that cannot be hidden decides.
pub open spec fn hidden_paths_of(
    paths: Seq<Seq<u8>>,
    mounts: Seq<MountView>,
    host_cwd: Seq<u8>,
    host: HostView,
) -> Result<Seq<HiddenPathView>, HaltView> {
    match crate::host::collect(
        paths.map_values(|path: Seq<u8>| hidden_path_of(path, mounts, host_cwd, host)),
    ) {
        Err(halt) => Err(halt),
        Ok(found) => Ok(crate::placed::sort_distinct::<HiddenPath>(found)),
    }
}

/// The directories that are empty and writable inside the sandbox: `/tmp`, and those that are
/// asked for, in the order of the paths and each of them once.
pub open spec fn tmpfs_mounts_of(paths: Seq<Seq<u8>>) -> Result<Seq<Seq<u8>>, ErrorView> {
    match crate::host::collect(paths.map_values(|path: Seq<u8>| sandbox_path_of(path))) {
        Err(error) => Err(error),
        Ok(paths) => Ok(
            crate::placed::sort_distinct::<UnixPath>(
                seq![vstd::utf8::encode_utf8("/tmp"@)] + paths,
            ),
        ),
    }
}

/// Checks that a path inside the sandbox is absolute.
pub fn require_absolute_sandbox_path(path: UnixPath) -> (checked: Result<UnixPath, BoxRunError>)
    ensures
        crate::host::outcome(checked) == sandbox_path_of(path@),
{
    if path.is_absolute() {
        Ok(path)
    } else {
        Err(BoxRunError::NonAbsoluteSandboxPath { path })
    }
}

/// Resolves a path of the host, as seen from `host_cwd`.
pub fn canonicalize_host_path(
    path: &UnixPath,
    host_cwd: &UnixPath,
    facts: &HostFacts,
) -> (resolved: Result<UnixPath, Halt>)
    ensures
        crate::host::outcome(resolved) == canonical_of(path@, host_cwd@, facts@),
{
    let path = host_cwd.join(path);
    match find_path(&facts.canonical, &path) {
        None => Err(Halt::Ask(Query::Canonicalize(path))),
        Some(Ok(resolved)) => Ok(resolved.clone()),
        Some(Err(source)) => Err(
            Halt::Fail(BoxRunError::CanonicalizePath { path, source: copy_texts(source) }),
        ),
    }
}

/// Finds out what is at a path of the host.
pub fn inspect_host_path(path: &UnixPath, facts: &HostFacts) -> (kind: Result<MountKind, Halt>)
    ensures
        match kind {
            Ok(kind) => kind_of(path@, facts@) == Ok::<_, HaltView>(kind),
            Err(halt) => kind_of(path@, facts@) == Err::<MountKind, _>(halt.deep_view()),
        },
{
    match find_path(&facts.is_dir, path) {
        None => Err(Halt::Ask(Query::Inspect(path.clone()))),
        Some(Ok(is_dir)) => Ok(
            if *is_dir {
                MountKind::Dir
            } else {
                MountKind::File
            },
        ),
        Some(Err(source)) => Err(
            Halt::Fail(BoxRunError::Metadata { path: path.clone(), source: copy_texts(source) }),
        ),
    }
}

/// The mount of what is at `src` on the host at `dest` inside the sandbox.
pub fn mount_from_paths(src: UnixPath, dest: UnixPath, facts: &HostFacts) -> (mount: Result<
    Mount,
    Halt,
>)
    ensures
        crate::host::outcome(mount) == mount_at(src@, dest@, facts@),
{
    match inspect_host_path(&src, facts) {
        Ok(kind) => Ok(Mount { src, dest, kind }),
        Err(halt) => Err(halt),
    }
}

/// The mount that `SRC[:DEST]` asks for.
pub fn parse_mount(spec: &str, host_cwd: &UnixPath, facts: &HostFacts) -> (mount: Result<
    Mount,
    Halt,
>)
    ensures
        crate::host::outcome(mount) == mount_of(spec@, host_cwd@, facts@),
{
    let (src, dest) = match split_once(spec, ':') {
        Some((src, dest)) => {
            if src.as_str().is_empty() || dest.as_str().is_empty() {
                return Err(
                    Halt::Fail(BoxRunError::InvalidBindSpec { spec: spec.to_owned() }),
                );
            }
            (UnixPath::from_text(src.as_str()), UnixPath::from_text(dest.as_str()))
        },
        None => {
            let src = UnixPath::from_text(spec);
            let dest = host_cwd.join(&src);
            (src, dest)
        },
    };
    let src = canonicalize_host_path(&src, host_cwd, facts)?;
    match require_absolute_sandbox_path(dest) {
        Ok(dest) => mount_from_paths(src, dest, facts),
        Err(error) => Err(Halt::Fail(error)),
    }
}

/// The mounts that are asked for.
pub fn parse_mounts(specs: &Vec<String>, host_cwd: &UnixPath, facts: &HostFacts) -> (mounts: Result<
    Vec<Mount>,
    Halt,
>)
    ensures
        crate::host::outcome(mounts) == mounts_of(specs.deep_view(), host_cwd@, facts@),
{
    let ghost results = specs.deep_view().map_values(
        |spec: Seq<char>| mount_of(spec, host_cwd@, facts@),
    );
    let mut mounts: Vec<Mount> = Vec::new();
    assert(mounts.deep_view() =~= Seq::empty());
    assert(results.take(0) =~= Seq::empty());
    let mut i: usize = 0;
    while i < specs.len()
        invariant
            i <= specs.len(),
            results == specs.deep_view().map_values(
                |spec: Seq<char>| mount_of(spec, host_cwd@, facts@),
            ),
            crate::host::collect(results.take(i as int)) == Ok::<_, HaltView>(mounts.deep_view()),
        decreases specs.len() - i,
    {
        assert(results.take(i + 1).drop_last() =~= results.take(i as int));
        assert(results.take(i + 1).last() == mount_of(specs[i as int]@, host_cwd@, facts@));
        proof {
            if mount_of(specs[i as int]@, host_cwd@, facts@) is Err {
                crate::host::collect_stops(results, i + 1);
            }
        }
        let mount = parse_mount(specs[i].as_str(), host_cwd, facts)?;
        let ghost before = mounts.deep_view();
        mounts.push(mount);
        assert(mounts.deep_view() =~= before.push(mount.deep_view()));
        i += 1;
    }
    assert(results.take(i as int) =~= results);
    Ok(mounts)
}

/// What is at `dest` inside the sandbox, as far as one mount tells.
pub fn resolve_path_kind_from_mount(dest: &UnixPath, mount: &Mount, facts: &HostFacts) -> (kind:
    Result<Option<MountKind>, Halt>)
    ensures
        match kind {
            Ok(kind) => kind_in_mount(dest@, mount.deep_view(), facts@) == Ok::<_, HaltView>(kind),
            Err(halt) => kind_in_mount(dest@, mount.deep_view(), facts@) == Err::<
                Option<MountKind>,
                _,
            >(halt.deep_view()),
        },
{
    if dest.same(&mount.dest) {
        return Ok(Some(mount.kind));
    }
    match mount.kind {
        MountKind::File => Ok(None),
        MountKind::Dir => match dest.strip_prefix(&mount.dest) {
            None => Ok(None),
            Some(relative) => {
                let candidate = mount.src.join(&relative);
                match inspect_host_path(&candidate, facts) {
                    Ok(kind) => Ok(Some(kind)),
                    Err(halt) => Err(halt),
                }
            },
        },
    }
}

/// What is at `dest` inside the sandbox.
pub fn resolve_hidden_path_kind(
    dest: &UnixPath,
    ro_mounts: &Vec<Mount>,
    rw_mounts: &Vec<Mount>,
    host_cwd: &UnixPath,
    facts: &HostFacts,
) -> (kind: Result<MountKind, Halt>)
    ensures
        match kind {
            Ok(kind) => hidden_kind_of(
                dest@,
                ro_mounts.deep_view() + rw_mounts.deep_view(),
                host_cwd@,
                facts@,
            ) == Ok::<_, HaltView>(kind),
            Err(halt) => hidden_kind_of(
                dest@,
                ro_mounts.deep_view() + rw_mounts.deep_view(),
                host_cwd@,
                facts@,
            ) == Err::<MountKind, _>(halt.deep_view()),
        },
{
    let ghost mounts = ro_mounts.deep_view() + rw_mounts.deep_view();
    let mut i: usize = 0;
    assert(mounts.skip(0) =~= mounts);
    while i < ro_mounts.len()
        invariant
            i <= ro_mounts.len(),
            mounts == ro_mounts.deep_view() + rw_mounts.deep_view(),
            hidden_kind_of(dest@, mounts, host_cwd@, facts@) == hidden_kind_of(
                dest@,
                mounts.skip(i as int),
                host_cwd@,
                facts@,
            ),
        decreases ro_mounts.len() - i,
    {
        assert(mounts.skip(i as int)[0] == ro_mounts[i as int].deep_view());
        assert(mounts.skip(i as int).drop_first() =~= mounts.skip(i + 1));
        if let Some(kind) = resolve_path_kind_from_mount(dest, &ro_mounts[i], facts)? {
            return Ok(kind);
        }
        i += 1;
    }
    let ghost first = i as int;
    let mut j: usize = 0;
    while j < rw_mounts.len()
        invariant
            first == ro_mounts.len(),
            j <= rw_mounts.len(),
            mounts == ro_mounts.deep_view() + rw_mounts.deep_view(),
            hidden_kind_of(dest@, mounts, host_cwd@, facts@) == hidden_kind_of(
                dest@,
                mounts.skip(first + j),
                host_cwd@,
                facts@,
            ),
        decreases rw_mounts.len() - j,
    {
        assert(mounts.skip(first + j)[0] == rw_mounts[j as int].deep_view());
        assert(mounts.skip(first + j).drop_first() =~= mounts.skip(first + j + 1));
        if let Some(kind) = resolve_path_kind_from_mount(dest, &rw_mounts[j], facts)? {
            return Ok(kind);
        }
        j += 1;
    }
    assert(mounts.skip(first + j).len() == 0);
    let host_path = host_cwd.join(dest);
    inspect_host_path(&host_path, facts)
}

/// The hidden paths that are asked for.
pub fn resolve_hidden_paths(
    raw_paths: &Vec<UnixPath>,
    ro_mounts: &Vec<Mount>,
    rw_mounts: &Vec<Mount>,
    host_cwd: &UnixPath,
    facts: &HostFacts,
) -> (hidden: Result<Vec<HiddenPath>, Halt>)
    ensures
        crate::host::outcome(hidden) == hidden_paths_of(
            raw_paths.deep_view(),
            ro_mounts.deep_view() + rw_mounts.deep_view(),
            host_cwd@,
            facts@,
        ),
{
    let ghost mounts = ro_mounts.deep_view() + rw_mounts.deep_view();
    let ghost results = raw_paths.deep_view().map_values(
        |path: Seq<u8>| hidden_path_of(path, mounts, host_cwd@, facts@),
    );
    let mut found: Vec<HiddenPath> = Vec::new();
    assert(found.deep_view() =~= Seq::empty());
    assert(results.take(0) =~= Seq::empty());
    let mut i: usize = 0;
    while i < raw_paths.len()
        invariant
            i <= raw_paths.len(),
            mounts == ro_mounts.deep_view() + rw_mounts.deep_view(),
            results == raw_paths.deep_view().map_values(
                |path: Seq<u8>| hidden_path_of(path, mounts, host_cwd@, facts@),
            ),
            crate::host::collect(results.take(i as int)) == Ok::<_, HaltView>(found.deep_view()),
        decreases raw_paths.len() - i,
    {
        assert(results.take(i + 1).drop_last() =~= results.take(i as int));
        assert(results.take(i + 1).last() == hidden_path_of(
            raw_paths[i as int]@,
            mounts,
            host_cwd@,
            facts@,
        ));
        proof {
            if hidden_path_of(raw_paths[i as int]@, mounts, host_cwd@, facts@) is Err {
                crate::host::collect_stops(results, i + 1);
            }
        }
        let dest = match require_absolute_sandbox_path(raw_paths[i].clone()) {
            Ok(dest) => dest,
            Err(error) => return Err(Halt::Fail(error)),
        };
        let kind = resolve_hidden_path_kind(&dest, ro_mounts, rw_mounts, host_cwd, facts)?;
        let hidden = HiddenPath { dest, kind };
        let ghost before = found.deep_view();
        found.push(hidden);
        assert(found.deep_view() =~= before.push(hidden.deep_view()));
        i += 1;
    }
    assert(results.take(i as int) =~= results);
    Ok(sorted_distinct(found))
}

/// The directories that are empty and writable inside the sandbox.
pub fn normalize_tmpfs_mounts(raw_paths: &Vec<UnixPath>) -> (mounts: Result<
    Vec<UnixPath>,
    BoxRunError,
>)
    ensures
        crate::host::outcome(mounts) == tmpfs_mounts_of(raw_paths.deep_view()),
{
    let ghost results = raw_paths.deep_view().map_values(|path: Seq<u8>| sandbox_path_of(path));
    let ghost tmp = vstd::utf8::encode_utf8("/tmp"@);
    let mut paths: Vec<UnixPath> = Vec::new();
    paths.push(UnixPath::from_text("/tmp"));
    let ghost mut checked: Seq<Seq<u8>> = Seq::empty();
    assert(paths.deep_view() =~= seq![tmp] + checked);
    assert(results.take(0) =~= Seq::empty());
    let mut i: usize = 0;
    while i < raw_paths.len()
        invariant
            i <= raw_paths.len(),
            results == raw_paths.deep_view().map_values(|path: Seq<u8>| sandbox_path_of(path)),
            paths.deep_view() == seq![tmp] + checked,
            crate::host::collect(results.take(i as int)) == Ok::<_, ErrorView>(checked),
        decreases raw_paths.len() - i,
    {
        assert(results.take(i + 1).drop_last() =~= results.take(i as int));
        assert(results.take(i + 1).last() == sandbox_path_of(raw_paths[i as int]@));
        proof {
            if sandbox_path_of(raw_paths[i as int]@) is Err {
                crate::host::collect_stops(results, i + 1);
            }
        }
        let path = require_absolute_sandbox_path(raw_paths[i].clone())?;
        let ghost before = paths.deep_view();
        paths.push(path);
        proof {
            assert(paths.deep_view() =~= before.push(path@));
            checked = checked.push(path@);
            assert(paths.deep_view() =~= seq![tmp] + checked);
        }
        i += 1;
    }
    assert(results.take(i as int) =~= results);
    Ok(sorted_distinct(paths))
}

/// A mount without a destination of its own stands where its source was asked for, whatever the
/// host makes of that path. One with a destination stands there.
pub proof fn destination_stays_as_asked(spec: Seq<char>, host_cwd: Seq<u8>, host: HostView)
    requires
        mount_of(spec, host_cwd, host) is Ok,
    ensures
        ({
            let mount = mount_of(spec, host_cwd, host)->Ok_0;
            match crate::text::split_once_of(spec, ':') {
                None => {
                    let asked = crate::unix_path::join(host_cwd, vstd::utf8::encode_utf8(spec));
                    mount.dest == asked && host.canonical[asked] == Ok::<_, Seq<Seq<char>>>(
                        mount.src,
                    )
                },
                Some((src, dest)) => {
                    let asked = crate::unix_path::join(host_cwd, vstd::utf8::encode_utf8(src));
                    mount.dest == vstd::utf8::encode_utf8(dest) && host.canonical[asked] == Ok::<
                        _,
                        Seq<Seq<char>>,
                    >(mount.src)
                },
            }
        }),
{
}

/// A path that can be hidden and stands beneath the destination of the first mount, which is a
/// directory, is of the kind of what stands there beneath the source of that mount.
pub proof fn hidden_kind_comes_from_the_mount(
    dest: Seq<u8>,
    mounts: Seq<MountView>,
    host_cwd: Seq<u8>,
    host: HostView,
    relative: Seq<u8>,
)
    requires
        mounts.len() > 0,
        mounts[0].kind == MountKind::Dir,
        !crate::unix_path::same_path(dest, mounts[0].dest),
        crate::unix_path::strip_prefix_of(dest, mounts[0].dest) == Some(relative),
    ensures
        hidden_kind_of(dest, mounts, host_cwd, host) == kind_of(
            crate::unix_path::join(mounts[0].src, relative),
            host,
        ),
{
}

/// The host knows what is at a path, and whether it is a directory.
pub open spec fn host_finds(host: HostView, path: Seq<u8>, is_dir: bool) -> bool {
    host.is_dir.dom().contains(path) && host.is_dir[path] == Ok::<_, Seq<Seq<char>>>(is_dir)
}

/// The host resolves one path to another.
pub open spec fn host_resolves(host: HostView, path: Seq<u8>, resolved: Seq<u8>) -> bool {
    host.canonical.dom().contains(path) && host.canonical[path] == Ok::<_, Seq<Seq<char>>>(
        resolved,
    )
}

/// What is at a path of the host is a directory or a file as the host says. What is not known is
/// asked for, and what could not be found out is a failure about that path.
pub proof fn kind_is_what_the_host_says(path: Seq<u8>, host: HostView)
    ensures
        host_finds(host, path, true) <==> kind_of(path, host) == Ok::<_, HaltView>(MountKind::Dir),
        host_finds(host, path, false) <==> kind_of(path, host) == Ok::<_, HaltView>(
            MountKind::File,
        ),
        !host.is_dir.dom().contains(path) ==> kind_of(path, host) == Err::<MountKind, _>(
            HaltView::Ask(QueryView::Inspect(path)),
        ),
        host.is_dir.dom().contains(path) && host.is_dir[path] is Err ==> kind_of(path, host)
            == Err::<MountKind, _>(
            HaltView::Fail(ErrorView::Metadata { path, source: host.is_dir[path]->Err_0 }),
        ),
{
}

/// A mount without a destination, written as a relative path: it is there whenever the host
/// resolves the path behind the current working directory and knows what is at the resolved path.
/// It shows that at the path as it was written, behind the current working directory.
pub proof fn relative_mount_is_made(
    spec: Seq<char>,
    host_cwd: Seq<u8>,
    host: HostView,
    src: Seq<u8>,
    is_dir: bool,
)
    requires
        !spec.contains(':'),
        host_cwd.len() > 0,
        host_cwd[0] == 0x2f,
        host_resolves(host, crate::unix_path::join(host_cwd, vstd::utf8::encode_utf8(spec)), src),
        host_finds(host, src, is_dir),
    ensures
        mount_of(spec, host_cwd, host) matches Ok(mount) && {
            &&& mount.src == src
            &&& mount.dest == crate::unix_path::join(host_cwd, vstd::utf8::encode_utf8(spec))
            &&& mount.kind == if is_dir {
                MountKind::Dir
            } else {
                MountKind::File
            }
        },
{
    crate::text::text_without_mark_is_whole(spec, ':');
}

/// A mount with a destination, written as `SRC:DEST` with an absolute destination: it is there
/// whenever the host resolves the source as seen from the current working directory and knows what
/// is at the resolved path. It shows that at the destination.
pub proof fn mount_with_destination_is_made(
    from: Seq<char>,
    to: Seq<char>,
    host_cwd: Seq<u8>,
    host: HostView,
    src: Seq<u8>,
    is_dir: bool,
)
    requires
        !from.contains(':'),
        from.len() > 0,
        to.len() > 0,
        crate::unix_path::is_absolute(vstd::utf8::encode_utf8(to)),
        host_resolves(host, crate::unix_path::join(host_cwd, vstd::utf8::encode_utf8(from)), src),
        host_finds(host, src, is_dir),
    ensures
        mount_of(from + seq![':'] + to, host_cwd, host) matches Ok(mount) && {
            &&& mount.src == src
            &&& mount.dest == vstd::utf8::encode_utf8(to)
            &&& mount.kind == if is_dir {
                MountKind::Dir
            } else {
                MountKind::File
            }
        },
{
    crate::text::first_mark_splits(from, ':', to);
}

/// `SRC:DEST` with nothing before the first colon or nothing behind it is refused, and nothing is
/// asked about it.
pub proof fn half_a_mount_is_refused(
    from: Seq<char>,
    to: Seq<char>,
    host_cwd: Seq<u8>,
    host: HostView,
)
    requires
        !from.contains(':'),
        from.len() == 0 || to.len() == 0,
    ensures
        mount_of(from + seq![':'] + to, host_cwd, host) == Err::<MountView, _>(
            HaltView::Fail(ErrorView::InvalidBindSpec { spec: from + seq![':'] + to }),
        ),
{
    crate::text::first_mark_splits(from, ':', to);
}

/// A source that the host cannot resolve is a failure about the path as seen from the current
/// working directory. A destination that is not absolute is refused.
pub proof fn mount_that_cannot_be_made(
    from: Seq<char>,
    to: Seq<char>,
    host_cwd: Seq<u8>,
    host: HostView,
)
    requires
        !from.contains(':'),
        from.len() > 0,
        to.len() > 0,
    ensures
        ({
            let spec = from + seq![':'] + to;
            let seen = crate::unix_path::join(host_cwd, vstd::utf8::encode_utf8(from));
            let dest = vstd::utf8::encode_utf8(to);
            &&& !host.canonical.dom().contains(seen) ==> mount_of(spec, host_cwd, host) == Err::<
                MountView,
                _,
            >(HaltView::Ask(QueryView::Canonicalize(seen)))
            &&& host.canonical.dom().contains(seen) && host.canonical[seen] is Err ==> mount_of(
                spec,
                host_cwd,
                host,
            ) == Err::<MountView, _>(
                HaltView::Fail(
                    ErrorView::CanonicalizePath {
                        path: seen,
                        source: host.canonical[seen]->Err_0,
                    },
                ),
            )
            &&& host.canonical.dom().contains(seen) && host.canonical[seen] is Ok
                && !crate::unix_path::is_absolute(dest) ==> mount_of(spec, host_cwd, host)
                == Err::<MountView, _>(
                HaltView::Fail(ErrorView::NonAbsoluteSandboxPath { path: dest }),
            )
        }),
{
    crate::text::first_mark_splits(from, ':', to);
}

/// Mounts are made one by one: each gives the mount at its place, and the first that cannot be
/// made decides what comes of all.
pub proof fn mounts_are_made_one_by_one(
    specs: Seq<Seq<char>>,
    host_cwd: Seq<u8>,
    host: HostView,
)
    ensures
        match mounts_of(specs, host_cwd, host) {
            Ok(mounts) => mounts.len() == specs.len() && forall|i: int|
                0 <= i < specs.len() ==> mount_of(#[trigger] specs[i], host_cwd, host) == Ok::<
                    _,
                    HaltView,
                >(mounts[i]),
            Err(halt) => exists|i: int|
                0 <= i < specs.len() && mount_of(#[trigger] specs[i], host_cwd, host) == Err::<
                    MountView,
                    _,
                >(halt) && forall|j: int|
                    0 <= j < i ==> mount_of(#[trigger] specs[j], host_cwd, host) is Ok,
        },
{
    let results = specs.map_values(|spec: Seq<char>| mount_of(spec, host_cwd, host));
    crate::host::collect_gathers(results);
    assert forall|i: int| 0 <= i < specs.len() implies #[trigger] results[i] == mount_of(
        specs[i],
        host_cwd,
        host,
    ) by {}
    match mounts_of(specs, host_cwd, host) {
        Ok(mounts) => {
            assert forall|i: int| 0 <= i < specs.len() implies mount_of(
                #[trigger] specs[i],
                host_cwd,
                host,
            ) == Ok::<_, HaltView>(mounts[i]) by {
                assert(results[i] == Ok::<_, HaltView>(mounts[i]));
            }
        },
        Err(halt) => {
            let i = choose|i: int|
                0 <= i < results.len() && #[trigger] results[i] == Err::<MountView, HaltView>(halt)
                    && forall|j: int| 0 <= j < i ==> (#[trigger] results[j]) is Ok;
            assert(mount_of(specs[i], host_cwd, host) == results[i]);
            assert forall|j: int| 0 <= j < i implies mount_of(
                #[trigger] specs[j],
                host_cwd,
                host,
            ) is Ok by {
                assert(results[j] is Ok);
            }
        },
    }
}

/// A mount has nothing to say about a path: it does not stand there, and it is no directory that
/// stands above it.
pub open spec fn says_nothing(mount: MountView, dest: Seq<u8>) -> bool {
    let above = crate::unix_path::components(mount.dest);
    let here = crate::unix_path::components(dest);
    above != here && (mount.kind == MountKind::File || !above.is_prefix_of(here))
}

proof fn silent_mounts_are_passed_over(
    dest: Seq<u8>,
    mounts: Seq<MountView>,
    host_cwd: Seq<u8>,
    host: HostView,
    count: int,
)
    requires
        0 <= count <= mounts.len(),
        forall|i: int| 0 <= i < count ==> says_nothing(#[trigger] mounts[i], dest),
    ensures
        hidden_kind_of(dest, mounts, host_cwd, host) == hidden_kind_of(
            dest,
            mounts.skip(count),
            host_cwd,
            host,
        ),
    decreases count,
{
    if count == 0 {
        assert(mounts.skip(0) =~= mounts);
    } else {
        let rest = mounts.drop_first();
        assert(says_nothing(mounts[0], dest));
        assert forall|i: int| 0 <= i < count - 1 implies says_nothing(#[trigger] rest[i], dest) by {
            assert(says_nothing(mounts[i + 1], dest));
        }
        silent_mounts_are_passed_over(dest, rest, host_cwd, host, count - 1);
        assert(rest.skip(count - 1) =~= mounts.skip(count));
    }
}

/// A path beneath a directory that is mounted is of the kind of what stands beneath the source of
/// that mount, wherever among the mounts it is, as long as no mount before it says anything about
/// the path.
pub proof fn hidden_kind_comes_from_any_mount(
    dest: Seq<u8>,
    mounts: Seq<MountView>,
    host_cwd: Seq<u8>,
    host: HostView,
    at: int,
    relative: Seq<u8>,
)
    requires
        0 <= at < mounts.len(),
        forall|i: int| 0 <= i < at ==> says_nothing(#[trigger] mounts[i], dest),
        mounts[at].kind == MountKind::Dir,
        !crate::unix_path::same_path(dest, mounts[at].dest),
        crate::unix_path::strip_prefix_of(dest, mounts[at].dest) == Some(relative),
    ensures
        ({
            let beneath = crate::unix_path::join(mounts[at].src, relative);
            &&& hidden_kind_of(dest, mounts, host_cwd, host) == kind_of(beneath, host)
            &&& host_finds(host, beneath, true) ==> hidden_kind_of(dest, mounts, host_cwd, host)
                == Ok::<_, HaltView>(MountKind::Dir)
            &&& host_finds(host, beneath, false) ==> hidden_kind_of(dest, mounts, host_cwd, host)
                == Ok::<_, HaltView>(MountKind::File)
            &&& !host.is_dir.dom().contains(beneath) ==> hidden_kind_of(
                dest,
                mounts,
                host_cwd,
                host,
            ) == Err::<MountKind, _>(HaltView::Ask(QueryView::Inspect(beneath)))
        }),
{
    silent_mounts_are_passed_over(dest, mounts, host_cwd, host, at);
    assert(mounts.skip(at)[0] == mounts[at]);
}

/// A path at which something is mounted is of the kind of what is mounted there, whatever is on the
/// host, as long as no mount before that says anything about the path.
pub proof fn hidden_kind_of_a_mount(
    dest: Seq<u8>,
    mounts: Seq<MountView>,
    host_cwd: Seq<u8>,
    host: HostView,
    at: int,
)
    requires
        0 <= at < mounts.len(),
        forall|i: int| 0 <= i < at ==> says_nothing(#[trigger] mounts[i], dest),
        crate::unix_path::same_path(dest, mounts[at].dest),
    ensures
        hidden_kind_of(dest, mounts, host_cwd, host) == Ok::<_, HaltView>(mounts[at].kind),
{
    silent_mounts_are_passed_over(dest, mounts, host_cwd, host, at);
    assert(mounts.skip(at)[0] == mounts[at]);
}

/// A path about which no mount says anything is of the kind of what the host has there.
pub proof fn hidden_kind_of_the_host(
    dest: Seq<u8>,
    mounts: Seq<MountView>,
    host_cwd: Seq<u8>,
    host: HostView,
)
    requires
        forall|i: int| 0 <= i < mounts.len() ==> says_nothing(#[trigger] mounts[i], dest),
        crate::unix_path::is_absolute(dest),
    ensures
        host_finds(host, dest, true) ==> hidden_kind_of(dest, mounts, host_cwd, host) == Ok::<
            _,
            HaltView,
        >(MountKind::Dir),
        host_finds(host, dest, false) ==> hidden_kind_of(dest, mounts, host_cwd, host) == Ok::<
            _,
            HaltView,
        >(MountKind::File),
        !host.is_dir.dom().contains(dest) ==> hidden_kind_of(dest, mounts, host_cwd, host)
            == Err::<MountKind, _>(HaltView::Ask(QueryView::Inspect(dest))),
{
    silent_mounts_are_passed_over(dest, mounts, host_cwd, host, mounts.len() as int);
    assert(mounts.skip(mounts.len() as int).len() == 0);
}

/// Paths are hidden where they are asked to be, and nowhere else. Each is written as it was asked
/// for, and of the kind that is found there. They can be hidden exactly when each of them is
/// absolute and of a known kind.
pub proof fn asked_paths_are_hidden(
    paths: Seq<Seq<u8>>,
    mounts: Seq<MountView>,
    host_cwd: Seq<u8>,
    host: HostView,
    path: Seq<u8>,
)
    ensures
        hidden_paths_of(paths, mounts, host_cwd, host) is Ok <==> forall|i: int|
            0 <= i < paths.len() ==> crate::unix_path::is_absolute(#[trigger] paths[i])
                && hidden_kind_of(paths[i], mounts, host_cwd, host) is Ok,
        hidden_paths_of(paths, mounts, host_cwd, host) matches Ok(hidden) ==> {
            &&& crate::placed::occupied::<HiddenPath>(hidden, path) <==> exists|i: int|
                0 <= i < paths.len() && crate::unix_path::same_path(#[trigger] paths[i], path)
            &&& forall|k: int|
                0 <= k < hidden.len() ==> paths.contains((#[trigger] hidden[k]).dest)
                    && hidden_kind_of(hidden[k].dest, mounts, host_cwd, host) == Ok::<_, HaltView>(
                    hidden[k].kind,
                )
        },
{
    let results = paths.map_values(
        |path: Seq<u8>| hidden_path_of(path, mounts, host_cwd, host),
    );
    crate::host::collect_gathers(results);
    assert forall|i: int| 0 <= i < paths.len() implies #[trigger] results[i] == hidden_path_of(
        paths[i],
        mounts,
        host_cwd,
        host,
    ) by {}
    match crate::host::collect(results) {
        Ok(found) => {
            let hidden = crate::placed::sort_distinct::<HiddenPath>(found);
            assert forall|i: int| 0 <= i < paths.len() implies found[i].dest == #[trigger] paths[i]
                && crate::unix_path::is_absolute(paths[i]) && hidden_kind_of(
                paths[i],
                mounts,
                host_cwd,
                host,
            ) == Ok::<_, HaltView>(found[i].kind) by {
                assert(results[i] == Ok::<_, HaltView>(found[i]));
            }
            crate::placed::sort_distinct_keeps_the_places::<HiddenPath>(found, path);
            if crate::placed::occupied::<HiddenPath>(found, path) {
                let i = choose|i: int|
                    0 <= i < found.len() && crate::unix_path::same_path(
                        #[trigger] HiddenPath::place_of(found[i]),
                        path,
                    );
                assert(crate::unix_path::same_path(paths[i], path));
            }
            if exists|i: int|
                0 <= i < paths.len() && crate::unix_path::same_path(#[trigger] paths[i], path) {
                let i = choose|i: int|
                    0 <= i < paths.len() && crate::unix_path::same_path(#[trigger] paths[i], path);
                assert(crate::unix_path::same_path(HiddenPath::place_of(found[i]), path));
            }
            crate::placed::sort_distinct_adds_nothing::<HiddenPath>(found);
            assert forall|k: int| 0 <= k < hidden.len() implies paths.contains(
                (#[trigger] hidden[k]).dest,
            ) && hidden_kind_of(hidden[k].dest, mounts, host_cwd, host) == Ok::<_, HaltView>(
                hidden[k].kind,
            ) by {
                assert(found.contains(hidden[k]));
                let i = found.index_of(hidden[k]);
                assert(found[i].dest == paths[i]);
            }
        },
        Err(halt) => {
            let i = choose|i: int|
                0 <= i < results.len() && #[trigger] results[i] == Err::<HiddenPathView, HaltView>(
                    halt,
                ) && forall|j: int| 0 <= j < i ==> (#[trigger] results[j]) is Ok;
            assert(results[i] == hidden_path_of(paths[i], mounts, host_cwd, host));
        },
    }
}

/// The temporary directories are `/tmp` and those that were asked for, and no others. They can be
/// had exactly when each of them is absolute; the first that is not is the failure.
pub proof fn temporary_directories_are_those_asked_for(paths: Seq<Seq<u8>>, path: Seq<u8>)
    ensures
        tmpfs_mounts_of(paths) is Ok <==> forall|i: int|
            0 <= i < paths.len() ==> crate::unix_path::is_absolute(#[trigger] paths[i]),
        tmpfs_mounts_of(paths) matches Ok(mounts) ==> {
            &&& crate::placed::occupied::<UnixPath>(mounts, path) <==> crate::unix_path::same_path(
                vstd::utf8::encode_utf8("/tmp"@),
                path,
            ) || exists|i: int|
                0 <= i < paths.len() && crate::unix_path::same_path(#[trigger] paths[i], path)
            &&& crate::placed::strictly_ordered::<UnixPath>(mounts)
        },
        tmpfs_mounts_of(paths) matches Err(error) ==> exists|i: int|
            0 <= i < paths.len() && !crate::unix_path::is_absolute(#[trigger] paths[i]) && error
                == (ErrorView::NonAbsoluteSandboxPath { path: paths[i] }) && forall|j: int|
                0 <= j < i ==> crate::unix_path::is_absolute(#[trigger] paths[j]),
{
    let results = paths.map_values(|path: Seq<u8>| sandbox_path_of(path));
    let tmp = vstd::utf8::encode_utf8("/tmp"@);
    crate::host::collect_gathers(results);
    assert forall|i: int| 0 <= i < paths.len() implies #[trigger] results[i] == sandbox_path_of(
        paths[i],
    ) by {}
    match crate::host::collect(results) {
        Ok(found) => {
            assert forall|i: int| 0 <= i < paths.len() implies found[i] == #[trigger] paths[i]
                && crate::unix_path::is_absolute(paths[i]) by {
                assert(results[i] == Ok::<_, ErrorView>(found[i]));
            }
            assert(found =~= paths);
            let all = seq![tmp] + paths;
            crate::placed::sort_distinct_is_strictly_ordered::<UnixPath>(all);
            crate::placed::sort_distinct_keeps_the_places::<UnixPath>(all, path);
            if crate::placed::occupied::<UnixPath>(all, path) {
                let i = choose|i: int|
                    0 <= i < all.len() && crate::unix_path::same_path(
                        #[trigger] UnixPath::place_of(all[i]),
                        path,
                    );
                if i > 0 {
                    assert(crate::unix_path::same_path(paths[i - 1], path));
                }
            }
            if crate::unix_path::same_path(tmp, path) {
                assert(crate::unix_path::same_path(UnixPath::place_of(all[0]), path));
            }
            if exists|i: int|
                0 <= i < paths.len() && crate::unix_path::same_path(#[trigger] paths[i], path) {
                let i = choose|i: int|
                    0 <= i < paths.len() && crate::unix_path::same_path(#[trigger] paths[i], path);
                assert(crate::unix_path::same_path(UnixPath::place_of(all[i + 1]), path));
            }
        },
        Err(error) => {
            let i = choose|i: int|
                0 <= i < results.len() && #[trigger] results[i] == Err::<Seq<u8>, ErrorView>(error)
                    && forall|j: int| 0 <= j < i ==> (#[trigger] results[j]) is Ok;
            assert(results[i] == sandbox_path_of(paths[i]));
            assert forall|j: int| 0 <= j < i implies crate::unix_path::is_absolute(
                #[trigger] paths[j],
            ) by {
                assert(results[j] is Ok);
            }
        },
    }
}

/// A mount without a destination fails where its path cannot be resolved. What a mount shows is
/// looked at where the host resolves it to, not where it was asked for.
pub proof fn plain_mount_that_cannot_be_made(
    spec: Seq<char>,
    host_cwd: Seq<u8>,
    host: HostView,
    src: Seq<u8>,
)
    requires
        !spec.contains(':'),
        crate::unix_path::is_absolute(host_cwd),
    ensures
        ({
            let seen = crate::unix_path::join(host_cwd, vstd::utf8::encode_utf8(spec));
            &&& !host.canonical.dom().contains(seen) ==> mount_of(spec, host_cwd, host) == Err::<
                MountView,
                _,
            >(HaltView::Ask(QueryView::Canonicalize(seen)))
            &&& host.canonical.dom().contains(seen) && host.canonical[seen] is Err ==> mount_of(
                spec,
                host_cwd,
                host,
            ) == Err::<MountView, _>(
                HaltView::Fail(
                    ErrorView::CanonicalizePath {
                        path: seen,
                        source: host.canonical[seen]->Err_0,
                    },
                ),
            )
            &&& host_resolves(host, seen, src) && !host.is_dir.dom().contains(src) ==> mount_of(
                spec,
                host_cwd,
                host,
            ) == Err::<MountView, _>(HaltView::Ask(QueryView::Inspect(src)))
            &&& host_resolves(host, seen, src) && host.is_dir.dom().contains(src)
                && host.is_dir[src] is Err ==> mount_of(spec, host_cwd, host) == Err::<
                MountView,
                _,
            >(
                HaltView::Fail(
                    ErrorView::Metadata { path: src, source: host.is_dir[src]->Err_0 },
                ),
            )
        }),
{
    crate::text::text_without_mark_is_whole(spec, ':');
}

} // verus!

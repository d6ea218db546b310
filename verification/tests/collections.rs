use box_run::env_map::EnvMap;
use box_run::landlock_plan::normalize_tcp_ports;
use box_run::placed::{is_occupied, sorted_distinct, sorted_stable};
use box_run::policy::{HiddenPath, Mount, MountKind};
use box_run::{ByteString, UnixPath};

fn path(text: &str) -> UnixPath {
    UnixPath::from_text(text)
}

fn mount(src: &str, dest: &str) -> Mount {
    Mount { src: path(src), dest: path(dest), kind: MountKind::Dir }
}

#[test]
fn sorting_keeps_mounts_at_one_place_in_their_order() {
    let sorted = sorted_stable(vec![
        mount("/1", "/b"),
        mount("/2", "/a"),
        mount("/3", "/b/"),
        mount("/4", "/a/c"),
        mount("/5", "//a"),
    ]);
    let sources: Vec<String> = sorted.iter().map(|mount| mount.src.display()).collect();
    assert_eq!(sources, vec!["/2", "/5", "/4", "/1", "/3"]);
}

#[test]
fn sorting_with_one_thing_for_each_path_keeps_the_first() {
    let sorted = sorted_distinct(vec![
        HiddenPath { dest: path("/b"), kind: MountKind::File },
        HiddenPath { dest: path("/a/"), kind: MountKind::Dir },
        HiddenPath { dest: path("/b/."), kind: MountKind::Dir },
        HiddenPath { dest: path("/a"), kind: MountKind::File },
    ]);
    assert_eq!(sorted.len(), 2);
    assert_eq!(sorted[0].dest.display(), "/a/");
    assert_eq!(sorted[0].kind, MountKind::Dir);
    assert_eq!(sorted[1].dest.display(), "/b");
    assert_eq!(sorted[1].kind, MountKind::File);
}

#[test]
fn a_place_is_occupied_however_it_is_written() {
    let mounts = vec![mount("/1", "/work/")];
    assert!(is_occupied(&mounts, &path("/work")));
    assert!(is_occupied(&mounts, &path("//work/.")));
    assert!(!is_occupied(&mounts, &path("/work/a")));
}

#[test]
fn variables_are_kept_by_name() {
    let mut vars = EnvMap::new();
    vars.insert("B", &ByteString::from_text("1"));
    vars.insert("\u{e9}", &ByteString::from_text("2"));
    vars.insert("A", &ByteString::from_text("3"));
    vars.insert("B", &ByteString::from_text("4"));
    let names: Vec<&str> = vars.entries.iter().map(|(name, _)| name.as_str()).collect();
    assert_eq!(names, vec!["A", "B", "\u{e9}"]);
    assert_eq!(vars.get("B"), Some(&ByteString::from_text("4")));
    assert_eq!(vars.get("A"), Some(&ByteString::from_text("3")));
    assert_eq!(vars.get("C"), None);
}

#[test]
fn ports_ascend_and_are_there_once() {
    let normal = normalize_tcp_ports(&vec![443, 0, 80, 443, 65535, 80]);
    assert_eq!(normal, vec![0, 80, 443, 65535]);
    assert_eq!(normalize_tcp_ports(&normal), normal);
}

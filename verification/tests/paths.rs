use std::path::Path;

use box_run::unix_path::UnixPath;

const SAMPLES: [&str; 34] = [
    "", "/", "//", "///", ".", "./", "..", "../", "/.", "/..", "/./", "a", "a/", "a//", "a/.",
    "./a", "../a", "a/b", "a//b", "a/./b", "a/../b", "/a", "/a/", "/a/b", "/a//b/", "/a/./b/.",
    "/a/b/c", "/ab", "/a.b", "/a-b", "/a/..", "/tmp", "/tmp/box", "....",
];

fn path(text: &str) -> UnixPath {
    UnixPath::from_text(text)
}

fn text(path: &UnixPath) -> String {
    path.display()
}

#[test]
fn paths_are_absolute_as_in_std() {
    for sample in SAMPLES {
        assert_eq!(path(sample).is_absolute(), Path::new(sample).is_absolute(), "{sample}");
    }
}

#[test]
fn equality_and_order_are_those_of_std() {
    for a in SAMPLES {
        for b in SAMPLES {
            assert_eq!(path(a).same(&path(b)), Path::new(a) == Path::new(b), "{a} {b}");
            assert_eq!(path(a) == path(b), Path::new(a) == Path::new(b), "{a} {b}");
            assert_eq!(path(a).less(&path(b)), Path::new(a) < Path::new(b), "{a} {b}");
        }
    }
}

#[test]
fn join_is_that_of_std() {
    for a in SAMPLES {
        for b in SAMPLES {
            let expected = Path::new(a).join(b);
            assert_eq!(Some(text(&path(a).join(&path(b))).as_str()), expected.to_str(), "{a} {b}");
        }
    }
}

#[test]
fn parent_is_that_of_std() {
    for sample in SAMPLES {
        let expected = Path::new(sample).parent().map(|parent| parent.to_str().unwrap());
        let found = path(sample).parent().map(|parent| text(&parent));
        assert_eq!(found.as_deref(), expected, "{sample}");
    }
}

#[test]
fn strip_prefix_is_that_of_std() {
    for a in SAMPLES {
        for b in SAMPLES {
            let expected = Path::new(a).strip_prefix(b).ok().map(|rest| rest.to_str().unwrap());
            let found = path(a).strip_prefix(&path(b)).map(|rest| text(&rest));
            assert_eq!(found.as_deref(), expected, "{a} {b}");
        }
    }
}

#[test]
fn join_puts_one_separator_between() {
    assert_eq!(text(&path("/a").join(&path("b"))), "/a/b");
    assert_eq!(text(&path("/a/").join(&path("b"))), "/a/b");
    assert_eq!(text(&path("/a").join(&path("/b"))), "/b");
    assert_eq!(text(&path("").join(&path("b"))), "b");
}

#[test]
fn bytes_that_are_no_text_are_shown_with_replacements() {
    let odd = UnixPath::from_bytes(vec![b'/', 0xff, b'a']);
    assert_eq!(text(&odd), "/\u{fffd}a");
    assert_eq!(odd.as_bytes().to_vec(), vec![b'/', 0xff, b'a']);
}

#[test]
fn stripping_is_undone_by_joining() {
    for a in SAMPLES {
        for b in SAMPLES {
            if let Some(rest) = path(a).strip_prefix(&path(b)) {
                assert!(path(b).join(&rest).same(&path(a)), "{a} {b}");
            }
        }
    }
}

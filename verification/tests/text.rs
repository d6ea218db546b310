use box_run::text::{decimal, prefixed, split_once, surround, trim};

#[test]
fn split_once_is_that_of_std() {
    for sample in ["", ":", "a:b", "a:b:c", ":b", "a:", "ab", "\u{e9}:\u{20ac}"] {
        let expected = sample.split_once(':').map(|(a, b)| (a.to_owned(), b.to_owned()));
        assert_eq!(split_once(sample, ':'), expected, "{sample}");
    }
}

#[test]
fn trim_is_that_of_std() {
    for sample in [
        "", " ", "a", " a ", "\t\r\na b\n", "\u{a0}a\u{2003}", "\u{200b}a", "\u{1c}a\u{1f}", "\u{b}a\u{c}",
    ] {
        assert_eq!(trim(sample), sample.trim(), "{sample:?}");
    }
}

#[test]
fn numbers_are_written_in_decimal() {
    for n in [0, 1, 9, 10, 42, 100, 8080, 65535, 1_000_000, u32::MAX] {
        assert_eq!(decimal(n), n.to_string());
    }
}

#[test]
fn texts_are_put_together() {
    assert_eq!(prefixed("a", "b"), "ab");
    assert_eq!(surround("<", "b", ">"), "<b>");
}

#[test]
fn white_space_is_that_of_unicode() {
    let blank = |c: char| {
        matches!(
            c,
            '\u{9}'..='\u{d}'
                | ' '
                | '\u{85}'
                | '\u{a0}'
                | '\u{1680}'
                | '\u{2000}'..='\u{200a}'
                | '\u{2028}'
                | '\u{2029}'
                | '\u{202f}'
                | '\u{205f}'
                | '\u{3000}'
        )
    };
    for c in '\0'..=char::MAX {
        assert_eq!(trim(&c.to_string()).is_empty(), blank(c), "{c:?}");
    }
}

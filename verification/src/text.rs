//! Text: splitting, trimming, and turning bytes and numbers into it.
use vstd::prelude::*;
use vstd::string::{StrSliceExecFns, StringExecFns};

verus! {

/// The text that stands for bytes that are not UTF-8.
pub uninterp spec fn utf8_lossy(bytes: Seq<u8>) -> Seq<char>;

/// The text that bytes are shown as: what they spell in UTF-8, or a replacement of what is not
/// UTF-8 in them.
pub open spec fn shown_of(bytes: Seq<u8>) -> Seq<char> {
    if vstd::utf8::valid_utf8(bytes) {
        vstd::utf8::decode_utf8(bytes)
    } else {
        utf8_lossy(bytes)
    }
}

/// Calls `String::from_utf8_lossy`. Bytes that are UTF-8 come back as the text that they spell.
/// What comes back for other bytes is left to the name `utf8_lossy`.
#[verifier::external_body]
pub(crate) fn lossy_text(bytes: &[u8]) -> (text: String)
    ensures
        text@ == if vstd::utf8::valid_utf8(bytes@) {
            vstd::utf8::decode_utf8(bytes@)
        } else {
            utf8_lossy(bytes@)
        },
{
    String::from_utf8_lossy(bytes).into_owned()
}

/// A character is white space: it has the Unicode property `White_Space`. Those are the characters
/// from the tab to the carriage return, the space, the next line, the spaces of several widths, and
/// the separators of lines and paragraphs.
pub open spec fn is_blank(c: char) -> bool {
    let code = c as u32;
    ||| 0x9 <= code <= 0xd
    ||| code == 0x20
    ||| code == 0x85
    ||| code == 0xa0
    ||| code == 0x1680
    ||| 0x2000 <= code <= 0x200a
    ||| code == 0x2028
    ||| code == 0x2029
    ||| code == 0x202f
    ||| code == 0x205f
    ||| code == 0x3000
}

/// Calls `char::is_whitespace`, which tells the characters with the Unicode property `White_Space`.
#[verifier::external_body]
pub(crate) fn white_space(c: char) -> (white: bool)
    ensures
        white == is_blank(c),
{
    c.is_whitespace()
}

/// How many characters come before the first `mark`.
pub open spec fn position(text: Seq<char>, mark: char) -> int
    decreases text.len(),
{
    if text.len() == 0 || text[0] == mark {
        0
    } else {
        1 + position(text.drop_first(), mark)
    }
}

/// The text before the first `mark` and the text behind it, where there is one.
pub open spec fn split_once_of(text: Seq<char>, mark: char) -> Option<(Seq<char>, Seq<char>)> {
    let at = position(text, mark);
    if at < text.len() {
        Some((text.take(at), text.skip(at + 1)))
    } else {
        None
    }
}

/// The first mark is where `position` says, and nowhere before.
pub proof fn position_is_first(text: Seq<char>, mark: char)
    ensures
        0 <= position(text, mark) <= text.len(),
        position(text, mark) < text.len() ==> text[position(text, mark)] == mark,
        forall|i: int| 0 <= i < position(text, mark) ==> text[i] != mark,
    decreases text.len(),
{
    if !(text.len() == 0 || text[0] == mark) {
        let rest = text.drop_first();
        position_is_first(rest, mark);
        assert forall|i: int| 0 <= i < position(text, mark) implies text[i] != mark by {
            if i > 0 {
                assert(rest[i - 1] == text[i]);
            }
        }
    }
}

/// Splits the text at its first `mark`.
pub fn split_once(text: &str, mark: char) -> (parts: Option<(String, String)>)
    ensures
        parts.deep_view() == split_once_of(text@, mark),
{
    let len = text.unicode_len();
    let mut at: usize = 0;
    assert(text@.skip(0) =~= text@);
    while at < len && text.get_char(at) != mark
        invariant
            len == text@.len(),
            at <= len,
            position(text@, mark) == at + position(text@.skip(at as int), mark),
        decreases len - at,
    {
        assert(text@.skip(at as int).drop_first() =~= text@.skip(at + 1));
        at += 1;
    }
    if at < len {
        let head = text.substring_char(0, at);
        let tail = text.substring_char(at + 1, len);
        assert(head@ =~= text@.take(at as int));
        assert(tail@ =~= text@.skip(at + 1));
        Some((head.to_owned(), tail.to_owned()))
    } else {
        None
    }
}

/// The text without the white space at its start.
pub open spec fn trim_start_of(text: Seq<char>) -> Seq<char>
    decreases text.len(),
{
    if text.len() > 0 && is_blank(text[0]) {
        trim_start_of(text.drop_first())
    } else {
        text
    }
}

/// The text without the white space at its end.
pub open spec fn trim_end_of(text: Seq<char>) -> Seq<char>
    decreases text.len(),
{
    if text.len() > 0 && is_blank(text.last()) {
        trim_end_of(text.drop_last())
    } else {
        text
    }
}

/// The text without the white space at its start and end.
pub fn trim(text: &str) -> (trimmed: String)
    ensures
        trimmed@ == trim_end_of(trim_start_of(text@)),
{
    let len = text.unicode_len();
    let mut from: usize = 0;
    assert(text@.skip(0) =~= text@);
    while from < len && white_space(text.get_char(from))
        invariant
            len == text@.len(),
            from <= len,
            trim_start_of(text@) == trim_start_of(text@.skip(from as int)),
        decreases len - from,
    {
        assert(text@.skip(from as int).drop_first() =~= text@.skip(from + 1));
        from += 1;
    }
    let ghost tail = text@.skip(from as int);
    let mut to: usize = len;
    assert(text@.subrange(from as int, to as int) =~= tail);
    while to > from && white_space(text.get_char(to - 1))
        invariant
            len == text@.len(),
            from <= to <= len,
            trim_end_of(tail) == trim_end_of(text@.subrange(from as int, to as int)),
        decreases to,
    {
        assert(text@.subrange(from as int, to as int).drop_last() =~= text@.subrange(
            from as int,
            to - 1,
        ));
        to -= 1;
    }
    text.substring_char(from, to).to_owned()
}

/// The digit for a number below ten.
pub open spec fn digit(n: nat) -> char {
    seq!['0', '1', '2', '3', '4', '5', '6', '7', '8', '9'][n as int]
}

/// A number written in decimal.
pub open spec fn decimal_of(n: nat) -> Seq<char>
    decreases n,
{
    if n < 10 {
        seq![digit(n)]
    } else {
        decimal_of(n / 10).push(digit(n % 10))
    }
}

/// The number that decimal digits spell.
pub open spec fn decimal_value(text: Seq<char>) -> nat
    decreases text.len(),
{
    if text.len() == 0 {
        0
    } else {
        10 * decimal_value(text.drop_last()) + (text.last() as nat - '0' as nat) as nat
    }
}

/// A number written in decimal reads as that number.
pub proof fn decimal_reads_back(n: nat)
    ensures
        decimal_value(decimal_of(n)) == n,
    decreases n,
{
    if n < 10 {
        assert(decimal_of(n).drop_last() =~= Seq::empty());
        assert(decimal_value(Seq::empty()) == 0);
    } else {
        decimal_reads_back(n / 10);
        assert(decimal_of(n).drop_last() =~= decimal_of(n / 10));
    }
}

fn digit_text(n: u32) -> (text: &'static str)
    requires
        n < 10,
    ensures
        text@ == seq![digit(n as nat)],
{
    proof {
        reveal_strlit("0");
        reveal_strlit("1");
        reveal_strlit("2");
        reveal_strlit("3");
        reveal_strlit("4");
        reveal_strlit("5");
        reveal_strlit("6");
        reveal_strlit("7");
        reveal_strlit("8");
        reveal_strlit("9");
    }
    let text = match n {
        0 => "0",
        1 => "1",
        2 => "2",
        3 => "3",
        4 => "4",
        5 => "5",
        6 => "6",
        7 => "7",
        8 => "8",
        _ => "9",
    };
    assert(text@ =~= seq![digit(n as nat)]);
    text
}

/// Writes the number in decimal.
pub fn decimal(n: u32) -> (text: String)
    ensures
        text@ == decimal_of(n as nat),
    decreases n,
{
    if n < 10 {
        digit_text(n).to_owned()
    } else {
        let mut text = decimal(n / 10);
        text.append(digit_text(n % 10));
        assert(text@ =~= decimal_of(n as nat));
        text
    }
}

/// The text with `before` in front of it.
pub fn prefixed(before: &str, text: &str) -> (whole: String)
    ensures
        whole@ == before@ + text@,
{
    let mut whole = before.to_owned();
    whole.append(text);
    whole
}

/// The text with `before` in front of it and `after` behind it.
pub fn surround(before: &str, text: &str, after: &str) -> (whole: String)
    ensures
        whole@ == before@ + text@ + after@,
{
    let mut whole = before.to_owned();
    whole.append(text);
    whole.append(after);
    whole
}

/// A text with a mark in it is split at the first one: what has no mark comes before it, and all
/// the rest behind it.
pub proof fn first_mark_splits(head: Seq<char>, mark: char, tail: Seq<char>)
    requires
        !head.contains(mark),
    ensures
        split_once_of(head + seq![mark] + tail, mark) == Some((head, tail)),
{
    let text = head + seq![mark] + tail;
    let at = position(text, mark);
    position_is_first(text, mark);
    assert(text[head.len() as int] == mark);
    if at < head.len() {
        assert(head[at] == mark);
    }
    assert(text.take(at) =~= head);
    assert(text.skip(at + 1) =~= tail);
}

/// A text without a mark is not split.
pub proof fn text_without_mark_is_whole(text: Seq<char>, mark: char)
    requires
        !text.contains(mark),
    ensures
        split_once_of(text, mark) is None,
{
    position_is_first(text, mark);
    if position(text, mark) < text.len() {
        assert(text.contains(mark));
    }
}

/// All the characters are white space.
pub open spec fn all_blank(text: Seq<char>) -> bool {
    forall|i: int| 0 <= i < text.len() ==> is_blank(#[trigger] text[i])
}

proof fn trim_start_takes_blanks(text: Seq<char>)
    ensures
        trim_start_of(text).len() <= text.len(),
        text == text.take(text.len() - trim_start_of(text).len()) + trim_start_of(text),
        all_blank(text.take(text.len() - trim_start_of(text).len())),
        trim_start_of(text).len() > 0 ==> !is_blank(trim_start_of(text)[0]),
    decreases text.len(),
{
    if text.len() > 0 && is_blank(text[0]) {
        let rest = text.drop_first();
        trim_start_takes_blanks(rest);
        let cut = text.len() - trim_start_of(text).len();
        let front = text.take(cut);
        assert forall|i: int| 0 <= i < front.len() implies is_blank(#[trigger] front[i]) by {
            if i > 0 {
                assert(rest.take(cut - 1)[i - 1] == front[i]);
            }
        }
        assert(text =~= front + trim_start_of(text)) by {
            assert forall|i: int| cut <= i < text.len() implies text[i] == trim_start_of(text)[i
                - cut] by {
                assert(rest[i - 1] == (rest.take(cut - 1) + trim_start_of(rest))[i - 1]);
            }
        }
    } else {
        assert(text.take(0) + text =~= text);
    }
}

proof fn trim_end_takes_blanks(text: Seq<char>)
    ensures
        trim_end_of(text).len() <= text.len(),
        text == trim_end_of(text) + text.skip(trim_end_of(text).len() as int),
        all_blank(text.skip(trim_end_of(text).len() as int)),
        trim_end_of(text).len() > 0 ==> !is_blank(trim_end_of(text).last()),
    decreases text.len(),
{
    if text.len() > 0 && is_blank(text.last()) {
        let rest = text.drop_last();
        trim_end_takes_blanks(rest);
        let cut = trim_end_of(text).len() as int;
        let back = text.skip(cut);
        assert forall|i: int| 0 <= i < back.len() implies is_blank(#[trigger] back[i]) by {
            if i < back.len() - 1 {
                assert(rest.skip(cut)[i] == back[i]);
            }
        }
        assert(text =~= trim_end_of(text) + back) by {
            assert forall|i: int| 0 <= i < cut implies text[i] == trim_end_of(text)[i] by {
                assert(rest[i] == (trim_end_of(rest) + rest.skip(cut))[i]);
            }
        }
    } else {
        assert(text + text.skip(text.len() as int) =~= text);
    }
}

/// Trimming takes away white space at both ends, nothing else, and all of it.
pub proof fn trimming_takes_the_blanks(text: Seq<char>) -> (ends: (Seq<char>, Seq<char>))
    ensures
        text == ends.0 + trim_end_of(trim_start_of(text)) + ends.1,
        all_blank(ends.0),
        all_blank(ends.1),
        ({
            let trimmed = trim_end_of(trim_start_of(text));
            trimmed.len() > 0 ==> !is_blank(trimmed[0]) && !is_blank(trimmed.last())
        }),
{
    let inner = trim_start_of(text);
    let trimmed = trim_end_of(inner);
    let front = text.take(text.len() - inner.len());
    let back = inner.skip(trimmed.len() as int);
    trim_start_takes_blanks(text);
    trim_end_takes_blanks(inner);
    assert(text =~= front + trimmed + back);
    if trimmed.len() > 0 {
        assert(inner[0] == (trimmed + back)[0]);
    }
    (front, back)
}

} // verus!

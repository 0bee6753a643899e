//! How the lines of a written-out configuration are to be shown: which of
//! them hold a severity, and where the key ends and the value begins.

use vstd::prelude::*;
use vstd::string::*;
use vstd::utf8::{decode_utf8, encode_utf8, is_char_boundary, valid_utf8};
use crate::severity::{level_of, SeverityLevel};

verus! {

/// The bytes of `severity:`.
pub open spec fn severity_word() -> Seq<u8> {
    seq![115u8, 101u8, 118u8, 101u8, 114u8, 105u8, 116u8, 121u8, 58u8]
}

/// The bytes of a colon and a blank, which part a key from its value.
pub open spec fn key_end() -> Seq<u8> {
    seq![58u8, 32u8]
}

/// The bytes of a dash and a blank, which begin an item of a list.
pub open spec fn item_mark() -> Seq<u8> {
    seq![45u8, 32u8]
}

/// Whether `needle` stands in `hay` at position `i`.
pub open spec fn occurs_at(hay: Seq<u8>, needle: Seq<u8>, i: int) -> bool {
    0 <= i && i + needle.len() <= hay.len() && hay.subrange(i, i + needle.len()) == needle
}

/// Whether `needle` stands somewhere in `hay`.
pub open spec fn occurs(hay: Seq<u8>, needle: Seq<u8>) -> bool {
    exists|i: int| occurs_at(hay, needle, i)
}

/// The first position at which `needle` stands in `hay`.
pub open spec fn first_occurrence(hay: Seq<u8>, needle: Seq<u8>) -> int {
    choose|i: int|
        occurs_at(hay, needle, i) && forall|j: int| 0 <= j < i ==> !occurs_at(hay, needle, j)
}

/// How a line of a written-out configuration is shown.
#[derive(Debug, PartialEq, Eq)]
pub enum LineStyle {
    /// The severity floor: its key, and its value to be set off.
    Floor { key: String, value: String },
    /// The severity of a rule: what stands before the key, the key, and the
    /// value, to be shown in the manner of its level.
    RuleSeverity { indent: String, key: String, value: String, level: SeverityLevel },
    /// An item of a list: to be moved in by two blanks.
    Item,
    /// Any other line: to be shown as it is.
    Plain,
}

/// The showing of a line as plain values.
pub enum LineStyleView {
    Floor { key: Seq<char>, value: Seq<char> },
    RuleSeverity { indent: Seq<char>, key: Seq<char>, value: Seq<char>, level: SeverityLevel },
    Item,
    Plain,
}

impl View for LineStyle {
    type V = LineStyleView;

    open spec fn view(&self) -> LineStyleView {
        match *self {
            LineStyle::Floor { key, value } => LineStyleView::Floor { key: key@, value: value@ },
            LineStyle::RuleSeverity { indent, key, value, level } => LineStyleView::RuleSeverity {
                indent: indent@,
                key: key@,
                value: value@,
                level,
            },
            LineStyle::Item => LineStyleView::Item,
            LineStyle::Plain => LineStyleView::Plain,
        }
    }
}

/// The key and the value of the bytes of a `key: value` line: what stands
/// before the first colon and blank, and what stands after them. There are
/// none where no colon and blank stand in the bytes.
pub open spec fn key_and_value(bytes: Seq<u8>) -> Option<(Seq<char>, Seq<char>)> {
    if occurs(bytes, key_end()) {
        let j = first_occurrence(bytes, key_end());
        Some(
            (
                decode_utf8(bytes.subrange(0, j)),
                decode_utf8(bytes.subrange(j + 2, bytes.len() as int)),
            ),
        )
    } else {
        None
    }
}

/// The severity of a rule in a line, from what stands before the byte `i`
/// and the key and value from there on.
pub open spec fn rule_severity_at(line: Seq<char>, i: int) -> Option<LineStyleView> {
    let bytes = encode_utf8(line);
    match key_and_value(bytes.subrange(i, bytes.len() as int)) {
        Some((key, value)) => Some(
            LineStyleView::RuleSeverity {
                indent: decode_utf8(bytes.subrange(0, i)),
                key,
                value,
                level: level_of(value),
            },
        ),
        None => None,
    }
}

/// How a line is shown. A line that begins with `severity:` holds the
/// floor; any other line in which `severity:` stands holds the severity of
/// a rule, from the first such place on; of the rest, a line that ends in a
/// colon is plain, one that begins with a dash and a blank is an item, and
/// all others are plain. A line with `severity:` but without a colon and
/// blank to part key and value has no showing.
pub open spec fn line_style(line: Seq<char>) -> Option<LineStyleView> {
    let bytes = encode_utf8(line);
    if occurs_at(bytes, severity_word(), 0) {
        match key_and_value(bytes) {
            Some((key, value)) => Some(LineStyleView::Floor { key, value }),
            None => None,
        }
    } else if occurs(bytes, severity_word()) {
        rule_severity_at(line, first_occurrence(bytes, severity_word()))
    } else if bytes.len() > 0 && bytes.last() == 58u8 {
        Some(LineStyleView::Plain)
    } else if occurs_at(bytes, item_mark(), 0) {
        Some(LineStyleView::Item)
    } else {
        Some(LineStyleView::Plain)
    }
}

/// Whether `needle` stands in `hay` at position `i`.
fn stands_at(hay: &[u8], needle: &Vec<u8>, i: usize) -> (r: bool)
    ensures
        r == occurs_at(hay@, needle@, i as int),
{
    let n = hay.len();
    if i > n || needle.len() > n - i {
        return false;
    }
    let mut k: usize = 0;
    while k < needle.len()
        invariant
            k <= needle@.len(),
            n == hay@.len(),
            i + needle@.len() <= n,
            forall|m: int| 0 <= m < k ==> hay@[i + m] == needle@[m],
        decreases needle.len() - k,
    {
        if hay[i + k] != needle[k] {
            proof {
                assert(hay@.subrange(i as int, i + needle@.len())[k as int] == hay@[i + k]);
            }
            return false;
        }
        k += 1;
    }
    proof {
        assert(hay@.subrange(i as int, i + needle@.len()) =~= needle@);
    }
    true
}

/// The first position at which `needle` stands in `hay`, if it stands
/// anywhere.
fn find(hay: &[u8], needle: &Vec<u8>) -> (r: Option<usize>)
    ensures
        match r {
            Some(i) => occurs(hay@, needle@) && first_occurrence(hay@, needle@) == i && occurs_at(
                hay@,
                needle@,
                i as int,
            ),
            None => !occurs(hay@, needle@),
        },
{
    let mut i: usize = 0;
    while i <= hay.len()
        invariant
            forall|j: int| 0 <= j < i ==> !occurs_at(hay@, needle@, j),
        decreases hay.len() + 1 - i,
    {
        if stands_at(hay, needle, i) {
            proof {
                let first = first_occurrence(hay@, needle@);
                assert(occurs_at(hay@, needle@, first) && forall|j: int|
                    0 <= j < first ==> !occurs_at(hay@, needle@, j));
                assert(first == i);
            }
            return Some(i);
        }
        if i == hay.len() {
            proof {
                assert forall|j: int| !occurs_at(hay@, needle@, j) by {
                    if 0 <= j <= hay@.len() {
                    }
                }
            }
            return None;
        }
        i += 1;
    }
    None
}

/// Parts a text before a byte that is a character of its own.
fn split_before_ascii<'a>(text: &'a str, i: usize) -> (r: (&'a str, &'a str))
    requires
        i < encode_utf8(text@).len(),
        encode_utf8(text@)[i as int] < 128,
    ensures
        r.0@ == decode_utf8(encode_utf8(text@).subrange(0, i as int)),
        encode_utf8(r.1@) == encode_utf8(text@).subrange(
            i as int,
            encode_utf8(text@).len() as int,
        ),
{
    proof {
        vstd::utf8::encode_utf8_valid_utf8(text@);
        vstd::utf8::is_char_boundary_iff_not_is_continuation_byte(encode_utf8(text@), i as int);
    }
    let (head, tail) = text.split_at(i);
    proof {
        vstd::utf8::encode_utf8_decode_utf8(head@);
    }
    (head, tail)
}

/// A text without its first byte, where that byte is a character of its
/// own.
fn drop_ascii<'a>(text: &'a str) -> (r: &'a str)
    requires
        encode_utf8(text@).len() > 0,
        encode_utf8(text@)[0] < 128,
    ensures
        encode_utf8(r@) == encode_utf8(text@).subrange(1, encode_utf8(text@).len() as int),
{
    proof {
        vstd::utf8::encode_utf8_valid_utf8(text@);
        reveal_with_fuel(valid_utf8, 2);
        reveal_with_fuel(is_char_boundary, 2);
        let bytes = encode_utf8(text@);
        vstd::utf8::encode_utf8_valid_utf8(text@.drop_first());
        assert(is_char_boundary(bytes, 1));
    }
    let (_, tail) = text.split_at(1);
    tail
}

/// The texts before and after a colon and blank that stand at the byte `j`
/// of a text.
fn split_around<'a>(text: &'a str, j: usize) -> (r: (&'a str, &'a str))
    requires
        occurs_at(encode_utf8(text@), key_end(), j as int),
    ensures
        r.0@ == decode_utf8(encode_utf8(text@).subrange(0, j as int)),
        r.1@ == decode_utf8(
            encode_utf8(text@).subrange(j + 2, encode_utf8(text@).len() as int),
        ),
{
    let ghost all = encode_utf8(text@);
    assert(all[j as int] == 58u8 && all[j + 1] == 32u8) by {
        let at = all.subrange(j as int, j + 2);
        assert(at[0] == all[j as int]);
        assert(at[1] == all[j + 1]);
    }
    let (key, rest) = split_before_ascii(text, j);
    let ghost tail = all.subrange(j as int, all.len() as int);
    assert(tail[0] == 58u8 && tail[1] == 32u8);
    let after_colon = drop_ascii(rest);
    assert(encode_utf8(after_colon@)[0] == 32u8) by {
        assert(tail.subrange(1, tail.len() as int)[0] == tail[1]);
    }
    let value = drop_ascii(after_colon);
    assert(encode_utf8(value@) == all.subrange(j + 2, all.len() as int)) by {
        assert(tail.subrange(1, tail.len() as int).subrange(1, tail.len() - 1) =~= all.subrange(
            j + 2,
            all.len() as int,
        ));
    }
    proof {
        vstd::utf8::encode_utf8_decode_utf8(value@);
    }
    (key, value)
}

/// The key and the value of a `key: value` text, as `key_and_value` states.
fn part_key_and_value(text: &str) -> (r: Option<(String, String)>)
    ensures
        match r {
            Some((key, value)) => key_and_value(encode_utf8(text@)) == Some((key@, value@)),
            None => key_and_value(encode_utf8(text@)) is None,
        },
{
    let mut sep: Vec<u8> = Vec::new();
    sep.push(58);
    sep.push(32);
    assert(sep@ == key_end()) by {
        assert(sep@ =~= key_end());
    }
    match find(text.as_bytes(), &sep) {
        None => None,
        Some(j) => {
            let (key, value) = split_around(text, j);
            Some((String::from_str(key), String::from_str(value)))
        },
    }
}

/// The bytes of `severity:`.
fn severity_needle() -> (word: Vec<u8>)
    ensures
        word@ == severity_word(),
{
    let mut word: Vec<u8> = Vec::new();
    word.push(115);
    word.push(101);
    word.push(118);
    word.push(101);
    word.push(114);
    word.push(105);
    word.push(116);
    word.push(121);
    word.push(58);
    assert(word@ =~= severity_word());
    word
}

/// The bytes of a dash and a blank.
fn item_needle() -> (mark: Vec<u8>)
    ensures
        mark@ == item_mark(),
{
    let mut mark: Vec<u8> = Vec::new();
    mark.push(45);
    mark.push(32);
    assert(mark@ =~= item_mark());
    mark
}

/// The showing of a line that begins with `severity:`.
fn floor_style(line: &str) -> (r: Option<LineStyle>)
    requires
        occurs_at(encode_utf8(line@), severity_word(), 0),
    ensures
        match r {
            Some(style) => line_style(line@) == Some(style@),
            None => line_style(line@) is None,
        },
{
    match part_key_and_value(line) {
        Some((key, value)) => Some(LineStyle::Floor { key, value }),
        None => None,
    }
}

/// The byte at which `severity:` stands is a character of its own.
proof fn lemma_word_starts_plain(bytes: Seq<u8>, i: int)
    requires
        occurs_at(bytes, severity_word(), i),
    ensures
        0 <= i < bytes.len(),
        bytes[i] == 115u8,
{
    let at = bytes.subrange(i, i + 9);
    assert(at[0] == bytes[i]);
}

/// The showing of a line in which `severity:` stands at the byte `i`, from
/// there on.
fn rule_style(line: &str, i: usize) -> (r: Option<LineStyle>)
    requires
        i < encode_utf8(line@).len(),
        encode_utf8(line@)[i as int] < 128,
    ensures
        match r {
            Some(style) => rule_severity_at(line@, i as int) == Some(style@),
            None => rule_severity_at(line@, i as int) is None,
        },
{
    let (indent, rest) = split_before_ascii(line, i);
    match part_key_and_value(rest) {
        Some((key, value)) => {
            let level = SeverityLevel::of_word(value.as_str());
            Some(LineStyle::RuleSeverity { indent: String::from_str(indent), key, value, level })
        },
        None => None,
    }
}

/// The showing of a line in which `severity:` does not stand.
fn other_style(line: &str) -> (style: LineStyle)
    requires
        !occurs(encode_utf8(line@), severity_word()),
    ensures
        line_style(line@) == Some(style@),
{
    let bytes = line.as_bytes();
    let mark = item_needle();
    assert(!occurs_at(encode_utf8(line@), severity_word(), 0));
    if bytes.len() > 0 && bytes[bytes.len() - 1] == 58 {
        LineStyle::Plain
    } else if stands_at(bytes, &mark, 0) {
        LineStyle::Item
    } else {
        LineStyle::Plain
    }
}

/// How a line of a written-out configuration is shown, as `line_style`
/// states. The result is `None` exactly where the line has no showing.
pub fn style_line(line: &str) -> (r: Option<LineStyle>)
    ensures
        match r {
            Some(style) => line_style(line@) == Some(style@),
            None => line_style(line@) is None,
        },
{
    let word = severity_needle();
    let bytes = line.as_bytes();
    if stands_at(bytes, &word, 0) {
        floor_style(line)
    } else {
        match find(bytes, &word) {
            Some(i) => {
                proof {
                    lemma_word_starts_plain(encode_utf8(line@), i as int);
                }
                rule_style(line, i)
            },
            None => Some(other_style(line)),
        }
    }
}

} // verus!

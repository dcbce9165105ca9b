//! Text as sequences of characters: lines, prefixes, ASCII case and decimals.

use vstd::prelude::*;

verus! {

/// `String::push` appends the character to the end of the string.
pub assume_specification[ String::push ](text: &mut String, ch: char)
    ensures
        final(text)@ == old(text)@.push(ch),
;

/// `std::str::from_utf8` accepts the byte sequences that are well-formed UTF-8,
/// and no others, and gives the text that they encode.
#[verifier::external_body]
fn from_utf8(bytes: &[u8]) -> (text: Option<&str>)
    ensures
        text is Some <==> vstd::utf8::valid_utf8(bytes@),
        text matches Some(text) ==> text@ == vstd::utf8::decode_utf8(bytes@),
{
    std::str::from_utf8(bytes).ok()
}

/// The text that `String::from_utf8_lossy` makes of a byte sequence.
pub uninterp spec fn lossy_text(bytes: Seq<u8>) -> Seq<char>;

/// `String::from_utf8_lossy` decodes well-formed UTF-8 as it is. Elsewhere it
/// puts replacement characters; which ones is left to the name of the result.
#[verifier::external_body]
fn from_utf8_lossy(bytes: &[u8]) -> (text: String)
    ensures
        text@ == lossy_text(bytes@),
        vstd::utf8::valid_utf8(bytes@) ==> text@ == vstd::utf8::decode_utf8(bytes@),
{
    String::from_utf8_lossy(bytes).into_owned()
}

/// The text that `bytes` encode, where they are well-formed UTF-8.
pub open spec fn utf8_text(bytes: Seq<u8>) -> Option<Seq<char>> {
    if vstd::utf8::valid_utf8(bytes) {
        Some(vstd::utf8::decode_utf8(bytes))
    } else {
        None
    }
}

/// How `bytes` are shown: as the text that they encode, with replacement
/// characters where they are not well-formed UTF-8.
pub open spec fn shown_text(bytes: Seq<u8>) -> Seq<char> {
    match utf8_text(bytes) {
        Some(text) => text,
        None => lossy_text(bytes),
    }
}

/// The characters of each string in turn.
pub open spec fn texts(strings: Seq<String>) -> Seq<Seq<char>> {
    strings.map_values(|text: String| text@)
}

/// The characters of a string that may be missing.
pub open spec fn opt_text(text: Option<String>) -> Option<Seq<char>> {
    match text {
        Some(text) => Some(text@),
        None => None,
    }
}

/// What is left of `text` after `prefix`, if it starts with `prefix`.
pub open spec fn after_prefix(text: Seq<char>, prefix: Seq<char>) -> Option<Seq<char>> {
    if prefix.is_prefix_of(text) {
        Some(text.skip(prefix.len() as int))
    } else {
        None
    }
}

/// The uppercase form of an ASCII letter; every other character is its own.
pub open spec fn ascii_upper(ch: char) -> char {
    if 'a' <= ch && ch <= 'z' {
        ((ch as u8) - 32) as u8 as char
    } else {
        ch
    }
}

/// `text` with its ASCII letters in uppercase.
pub open spec fn ascii_uppercase(text: Seq<char>) -> Seq<char> {
    text.map_values(|ch: char| ascii_upper(ch))
}

/// The decimal digit for a number below ten.
pub open spec fn digit(value: nat) -> char {
    (48 + value) as u8 as char
}

/// `value` in decimal, without leading zeros.
pub open spec fn decimal(value: nat) -> Seq<char>
    decreases value,
{
    if value < 10 {
        seq![digit(value)]
    } else {
        decimal(value / 10).push(digit(value % 10))
    }
}

/// Where the line that holds position `start` ends: at its newline or at the
/// end of the text.
pub open spec fn line_end(text: Seq<char>, start: int) -> int
    decreases text.len() - start,
{
    if start >= text.len() || text[start] == '\n' {
        start
    } else {
        line_end(text, start + 1)
    }
}

/// A line holds no newline, and ends before one or at the end of the text.
pub proof fn lemma_line_end(text: Seq<char>, start: int)
    requires
        0 <= start <= text.len(),
    ensures
        start <= line_end(text, start) <= text.len(),
        forall|i: int| start <= i < line_end(text, start) ==> text[i] != '\n',
        line_end(text, start) < text.len() ==> text[line_end(text, start)] == '\n',
    decreases text.len() - start,
{
    if start < text.len() && text[start] != '\n' {
        lemma_line_end(text, start + 1);
    }
}

/// `line` without the carriage return it may end in.
pub open spec fn without_carriage_return(line: Seq<char>) -> Seq<char> {
    if line.len() > 0 && line.last() == '\r' {
        line.drop_last()
    } else {
        line
    }
}

/// The lines of `text` from position `start` on. A line ends in `\n` or `\r\n`,
/// which is not part of it; the last line needs no ending.
pub open spec fn lines_from(text: Seq<char>, start: int) -> Seq<Seq<char>>
    decreases text.len() - start,
{
    if start < 0 || start >= text.len() {
        seq![]
    } else {
        let end = line_end(text, start);
        proof {
            lemma_line_end(text, start);
        }
        if end >= text.len() {
            seq![text.skip(start)]
        } else {
            seq![without_carriage_return(text.subrange(start, end))] + lines_from(text, end + 1)
        }
    }
}

/// The lines of `text`.
pub open spec fn lines_of(text: Seq<char>) -> Seq<Seq<char>> {
    lines_from(text, 0)
}

/// The characters of `text`.
pub fn chars_of(text: &str) -> (chars: Vec<char>)
    ensures
        chars@ == text@,
{
    let mut chars: Vec<char> = Vec::new();
    for ch in it: text.chars()
        invariant
            it.seq() == text@,
            chars@ == it.seq().take(it.index() as int),
    {
        chars.push(ch);
    }
    chars
}

/// The text that `bytes` encode, where they are well-formed UTF-8.
pub fn decode_text(bytes: &Vec<u8>) -> (text: Option<String>)
    ensures
        opt_text(text) == utf8_text(bytes@),
{
    match from_utf8(bytes.as_slice()) {
        Some(text) => Some(text.to_owned()),
        None => None,
    }
}

/// The text that `bytes` encode, with replacement characters where they are not
/// well-formed UTF-8.
pub fn decode_text_lossy(bytes: &Vec<u8>) -> (text: String)
    ensures
        text@ == shown_text(bytes@),
{
    from_utf8_lossy(bytes.as_slice())
}

/// The string of the characters from `start` up to `end`.
pub fn string_of(chars: &Vec<char>, start: usize, end: usize) -> (text: String)
    requires
        start <= end <= chars.len(),
    ensures
        text@ == chars@.subrange(start as int, end as int),
{
    let mut text = String::new();
    let mut i: usize = start;
    while i < end
        invariant
            start <= i <= end <= chars.len(),
            text@ == chars@.subrange(start as int, i as int),
        decreases end - i,
    {
        text.push(chars[i]);
        i = i + 1;
    }
    text
}

/// Whether two texts hold the same characters.
pub fn same_text(left: &str, right: &str) -> (same: bool)
    ensures
        same == (left@ == right@),
{
    left.to_owned() == right.to_owned()
}

/// What is left of `text` after `prefix`, if it starts with `prefix`.
pub fn strip_prefix(text: &str, prefix: &str) -> (rest: Option<String>)
    ensures
        opt_text(rest) == after_prefix(text@, prefix@),
{
    let chars = chars_of(text);
    let expected = chars_of(prefix);
    if expected.len() > chars.len() {
        return None;
    }
    let mut i: usize = 0;
    while i < expected.len()
        invariant
            chars@ == text@,
            expected@ == prefix@,
            i <= expected.len() <= chars.len(),
            forall|j: int| 0 <= j < i ==> chars@[j] == expected@[j],
        decreases expected.len() - i,
    {
        if chars[i] != expected[i] {
            return None;
        }
        i = i + 1;
    }
    assert(prefix@ =~= text@.take(prefix@.len() as int));
    let rest = string_of(&chars, expected.len(), chars.len());
    assert(rest@ =~= text@.skip(prefix@.len() as int));
    Some(rest)
}

/// `text` with its ASCII letters in uppercase.
pub fn to_ascii_uppercase(text: &str) -> (upper: String)
    ensures
        upper@ == ascii_uppercase(text@),
{
    let mut upper = String::new();
    for ch in it: text.chars()
        invariant
            it.seq() == text@,
            upper@ == ascii_uppercase(it.seq().take(it.index() as int)),
    {
        if 'a' <= ch && ch <= 'z' {
            upper.push(((ch as u8) - 32) as char);
        } else {
            upper.push(ch);
        }
        assert(it.seq().take(it.index() + 1) =~= it.seq().take(it.index() as int).push(ch));
        assert(upper@ =~= ascii_uppercase(it.seq().take(it.index() + 1)));
    }
    assert(text@.take(text@.len() as int) =~= text@);
    upper
}

/// Whether two texts are equal but for the case of ASCII letters.
pub fn eq_ignore_ascii_case(left: &str, right: &str) -> (same: bool)
    ensures
        same == (ascii_uppercase(left@) == ascii_uppercase(right@)),
{
    to_ascii_uppercase(left) == to_ascii_uppercase(right)
}

/// `value` in decimal, without leading zeros.
pub fn to_decimal(value: u64) -> (text: String)
    ensures
        text@ == decimal(value as nat),
    decreases value,
{
    let mut text = if value < 10 { String::new() } else { to_decimal(value / 10) };
    text.push((48 + (value % 10) as u8) as char);
    assert(text@ =~= decimal(value as nat));
    text
}

/// The lines of `text`, without their line endings.
pub fn lines(text: &str) -> (lines: Vec<String>)
    ensures
        texts(lines@) == lines_of(text@),
{
    let chars = chars_of(text);
    let mut lines: Vec<String> = Vec::new();
    let mut start: usize = 0;
    while start < chars.len()
        invariant
            chars@ == text@,
            start <= chars.len(),
            texts(lines@) + lines_from(text@, start as int) == lines_of(text@),
        decreases chars.len() - start,
    {
        let ghost before = lines@;
        let mut end: usize = start;
        while end < chars.len() && chars[end] != '\n'
            invariant
                chars@ == text@,
                start <= end <= chars.len(),
                line_end(text@, start as int) == line_end(text@, end as int),
            decreases chars.len() - end,
        {
            end = end + 1;
        }
        if end == chars.len() {
            let line = string_of(&chars, start, end);
            assert(line@ =~= text@.skip(start as int));
            lines.push(line);
            assert(texts(lines@) =~= texts(before).push(line@));
            assert(texts(lines@) =~= lines_of(text@));
            return lines;
        }
        let stop: usize = if end > start && chars[end - 1] == '\r' { end - 1 } else { end };
        let line = string_of(&chars, start, stop);
        assert(line@ =~= without_carriage_return(text@.subrange(start as int, end as int)));
        lines.push(line);
        assert(texts(lines@) =~= texts(before).push(line@));
        assert(texts(before) + lines_from(text@, start as int) =~= texts(lines@) + lines_from(
            text@,
            end + 1,
        ));
        start = end + 1;
    }
    assert(texts(lines@) + lines_from(text@, start as int) =~= texts(lines@));
    lines
}

/// The text that writes out each line, with a newline behind it.
pub open spec fn written(lines: Seq<Seq<char>>) -> Seq<char>
    decreases lines.len(),
{
    if lines.len() == 0 {
        seq![]
    } else {
        lines.first().push('\n') + written(lines.drop_first())
    }
}

/// Whether `line` can be told apart from its line ending.
pub open spec fn is_line(line: Seq<char>) -> bool {
    !line.contains('\n') && !(line.len() > 0 && line.last() == '\r')
}

proof fn lemma_line_end_behind(before: Seq<char>, text: Seq<char>, start: int)
    requires
        0 <= start <= text.len(),
    ensures
        line_end(before + text, before.len() + start) == before.len() + line_end(text, start),
    decreases text.len() - start,
{
    if start < text.len() {
        assert((before + text)[before.len() + start] == text[start]);
        if text[start] != '\n' {
            lemma_line_end_behind(before, text, start + 1);
        }
    }
}

proof fn lemma_lines_behind(before: Seq<char>, text: Seq<char>, start: int)
    requires
        0 <= start <= text.len(),
    ensures
        lines_from(before + text, before.len() + start) == lines_from(text, start),
    decreases text.len() - start,
{
    let all = before + text;
    if start < text.len() {
        let end = line_end(text, start);
        lemma_line_end(text, start);
        lemma_line_end_behind(before, text, start);
        assert(all.skip(before.len() + start) =~= text.skip(start));
        if end < text.len() {
            assert(all.subrange(before.len() + start, before.len() + end) =~= text.subrange(
                start,
                end,
            ));
            lemma_lines_behind(before, text, end + 1);
        }
    }
}

proof fn lemma_line_end_of_line(line: Seq<char>, rest: Seq<char>, start: int)
    requires
        0 <= start <= line.len(),
        !line.contains('\n'),
    ensures
        line_end(line.push('\n') + rest, start) == line.len(),
    decreases line.len() - start,
{
    let all = line.push('\n') + rest;
    if start < line.len() {
        assert(all[start] == line[start]);
        assert(line.contains(line[start]));
        lemma_line_end_of_line(line, rest, start + 1);
    } else {
        assert(all[start] == '\n');
    }
}

/// Writing lines out and splitting the text again gives them back.
pub proof fn lines_read_back(lines: Seq<Seq<char>>)
    requires
        forall|i: int| 0 <= i < lines.len() ==> is_line(#[trigger] lines[i]),
    ensures
        lines_of(written(lines)) == lines,
    decreases lines.len(),
{
    if lines.len() > 0 {
        let line = lines.first();
        let rest = lines.drop_first();
        let all = line.push('\n') + written(rest);
        assert(is_line(lines[0]));
        assert forall|i: int| 0 <= i < rest.len() implies is_line(#[trigger] rest[i]) by {
            assert(rest[i] == lines[i + 1]);
        }
        lines_read_back(rest);
        lemma_line_end_of_line(line, written(rest), 0);
        lemma_lines_behind(line.push('\n'), written(rest), 0);
        assert(all.subrange(0, line.len() as int) =~= line);
        assert(lines =~= seq![line] + rest);
    }
}

proof fn lemma_line_end_before(text: Seq<char>, rest: Seq<char>, start: int)
    requires
        0 <= start < text.len(),
        text.last() == '\n',
    ensures
        start <= line_end(text, start) < text.len(),
        line_end(text + rest, start) == line_end(text, start),
    decreases text.len() - start,
{
    assert((text + rest)[start] == text[start]);
    if text[start] != '\n' {
        assert(start != text.len() - 1);
        lemma_line_end_before(text, rest, start + 1);
    }
}

proof fn lemma_lines_around_line_end(text: Seq<char>, rest: Seq<char>, start: int)
    requires
        0 <= start <= text.len(),
        text.len() == 0 || text.last() == '\n',
    ensures
        lines_from(text + rest, start) == lines_from(text, start) + lines_of(rest),
    decreases text.len() - start,
{
    let all = text + rest;
    if start < text.len() {
        let end = line_end(text, start);
        lemma_line_end_before(text, rest, start);
        assert(all.subrange(start, end) =~= text.subrange(start, end));
        lemma_lines_around_line_end(text, rest, end + 1);
    } else {
        lemma_lines_behind(text, rest, 0);
    }
    assert(lines_from(all, start) =~= lines_from(text, start) + lines_of(rest));
}

/// Text that ends its last line can be split from what follows: the lines of both
/// are the lines of the one and then those of the other.
pub proof fn lines_split_at_line_end(text: Seq<char>, rest: Seq<char>)
    requires
        text.len() == 0 || text.last() == '\n',
    ensures
        lines_of(text + rest) == lines_of(text) + lines_of(rest),
{
    lemma_lines_around_line_end(text, rest, 0);
}

/// Different numbers are written differently.
pub proof fn decimal_is_unique(left: nat, right: nat)
    requires
        decimal(left) == decimal(right),
    ensures
        left == right,
    decreases left,
{
    lemma_decimal_len(left);
    lemma_decimal_len(right);
    assert(decimal(left).last() == digit(left % 10));
    assert(decimal(right).last() == digit(right % 10));
    assert(left % 10 == right % 10);
    if left >= 10 && right >= 10 {
        assert(decimal(left).drop_last() =~= decimal(left / 10));
        assert(decimal(right).drop_last() =~= decimal(right / 10));
        decimal_is_unique(left / 10, right / 10);
    }
}

proof fn lemma_decimal_len(value: nat)
    ensures
        decimal(value).len() > 0,
        value >= 10 ==> decimal(value).len() > 1,
    decreases value,
{
    if value >= 10 {
        lemma_decimal_len(value / 10);
    }
}

/// A text starts with a prefix where it is that prefix with something behind it,
/// and what is behind it is what is left.
pub proof fn prefix_and_rest(text: Seq<char>, prefix: Seq<char>, rest: Seq<char>)
    ensures
        after_prefix(text, prefix) == Some(rest) <==> text == prefix + rest,
        after_prefix(prefix + rest, prefix) == Some(rest),
{
    let joint = prefix + rest;
    assert(prefix =~= joint.take(prefix.len() as int));
    assert(joint.skip(prefix.len() as int) =~= rest);
    if prefix.is_prefix_of(text) {
        assert(text =~= prefix + text.skip(prefix.len() as int));
    }
}

/// Uppercase changes the letters from `a` to `z`, each by as much, and leaves
/// every other character as it is.
pub proof fn uppercase_changes_small_letters_alone(text: Seq<char>, i: int)
    ensures
        ascii_uppercase(text).len() == text.len(),
        0 <= i < text.len() ==> {
            &&& 97 <= text[i] as int <= 122 ==> ascii_uppercase(text)[i] as int == text[i] as int
                - 32
            &&& !(97 <= text[i] as int <= 122) ==> ascii_uppercase(text)[i] == text[i]
        },
{
}

/// The number that decimal digits stand for.
pub open spec fn decimal_value(digits: Seq<char>) -> int
    decreases digits.len(),
{
    if digits.len() == 0 {
        0
    } else {
        10 * decimal_value(digits.drop_last()) + (digits.last() as int - 48)
    }
}

/// A number is written with digits alone, without a leading zero unless it is
/// zero, and the digits stand for that number.
pub proof fn decimal_reads_back(value: nat)
    ensures
        decimal_value(decimal(value)) == value,
        decimal(value).len() > 0,
        decimal(value)[0] == '0' ==> value == 0,
        forall|i: int|
            0 <= i < decimal(value).len() ==> 48 <= #[trigger] decimal(value)[i] as int <= 57,
    decreases value,
{
    assert(decimal(value).last() == digit(value % 10));
    if value < 10 {
        assert(decimal(value).drop_last() =~= Seq::<char>::empty());
        assert(decimal_value(decimal(value).drop_last()) == 0);
    } else {
        let before = decimal(value / 10);
        decimal_reads_back(value / 10);
        assert(decimal(value).drop_last() =~= before);
        assert(decimal(value)[0] == before[0]);
        assert forall|i: int| 0 <= i < decimal(value).len() implies 48 <= #[trigger] decimal(
            value,
        )[i] as int <= 57 by {
            if i < before.len() {
                assert(decimal(value)[i] == before[i]);
            }
        }
    }
}

/// How a text is split: there is no line in nothing, what has no newline is one
/// line, and a newline ends a line, together with one carriage return before it.
pub proof fn lines_end_at_newlines(line: Seq<char>, rest: Seq<char>)
    requires
        !line.contains('\n'),
    ensures
        lines_of(line) == (if line.len() == 0 {
            seq![]
        } else {
            seq![line]
        }),
        lines_of(line.push('\n') + rest) == seq![
            if line.len() > 0 && line[line.len() - 1] == '\r' {
                line.take(line.len() - 1)
            } else {
                line
            },
        ] + lines_of(rest),
{
    lemma_line_end_of_line(line, Seq::empty(), 0);
    let ended = line.push('\n') + Seq::<char>::empty();
    assert(ended =~= line.push('\n'));
    lines_split_at_line_end(line.push('\n'), rest);
    assert(ended.subrange(0, line.len() as int) =~= line);
    assert(lines_from(ended, line.len() as int + 1) =~= seq![]);
    assert(lines_of(ended) =~= seq![without_carriage_return(line)]);
    if line.len() > 0 {
        assert(line.drop_last() =~= line.take(line.len() - 1));
        lemma_line_end_in_line(line, 0);
        assert(line.skip(0) =~= line);
    }
}

proof fn lemma_line_end_in_line(line: Seq<char>, start: int)
    requires
        0 <= start <= line.len(),
        !line.contains('\n'),
    ensures
        line_end(line, start) == line.len(),
    decreases line.len() - start,
{
    if start < line.len() {
        assert(line.contains(line[start]));
        lemma_line_end_in_line(line, start + 1);
    }
}

/// Encoding a text and decoding the bytes gives the text back, and so it is
/// shown; and bytes that decode to a text are those that it is encoded as.
pub proof fn encoding_reads_back(text: Seq<char>, bytes: Seq<u8>)
    ensures
        utf8_text(vstd::utf8::encode_utf8(text)) == Some(text),
        shown_text(vstd::utf8::encode_utf8(text)) == text,
        utf8_text(bytes) == Some(text) ==> bytes == vstd::utf8::encode_utf8(text),
{
    vstd::utf8::encode_utf8_valid_utf8(text);
    vstd::utf8::encode_utf8_decode_utf8(text);
    if vstd::utf8::valid_utf8(bytes) {
        vstd::utf8::decode_utf8_encode_utf8(bytes);
    }
}

} // verus!

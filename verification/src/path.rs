//! Unix file paths: bytes, with `/` between their names. Other systems spell paths
//! otherwise, with drives or other separators, and are not modelled.

use vstd::prelude::*;

use crate::text::{decode_text, decode_text_lossy, opt_text, shown_text, utf8_text};

verus! {

/// The byte `/`.
pub const SEPARATOR: u8 = 47;

/// The byte `.`.
pub const DOT: u8 = 46;

/// A file path on a Unix system. Every byte other than `/` is part of a name.
#[derive(Debug)]
pub struct FilePath {
    /// The bytes of the path, as the operating system has them.
    pub bytes: Vec<u8>,
}

impl View for FilePath {
    type V = Seq<u8>;

    open spec fn view(&self) -> Seq<u8> {
        self.bytes@
    }
}

/// The bytes of a path that may be missing.
pub open spec fn opt_path(path: Option<FilePath>) -> Option<Seq<u8>> {
    match path {
        Some(path) => Some(path@),
        None => None,
    }
}

/// Where the segment that starts at `start` ends: at a separator or at the end
/// of the path.
pub open spec fn segment_end(path: Seq<u8>, start: int) -> int
    decreases path.len() - start,
{
    if start >= path.len() || path[start] == SEPARATOR {
        start
    } else {
        segment_end(path, start + 1)
    }
}

/// A segment holds no separator, and ends before one or at the end of the path.
pub proof fn lemma_segment_end(path: Seq<u8>, start: int)
    requires
        0 <= start <= path.len(),
    ensures
        start <= segment_end(path, start) <= path.len(),
        forall|i: int| start <= i < segment_end(path, start) ==> path[i] != SEPARATOR,
        segment_end(path, start) < path.len() ==> path[segment_end(path, start)] == SEPARATOR,
    decreases path.len() - start,
{
    if start < path.len() && path[start] != SEPARATOR {
        lemma_segment_end(path, start + 1);
    }
}

/// Whether a segment names something: it is neither empty nor `.`.
pub open spec fn is_name(segment: Seq<u8>) -> bool {
    segment.len() > 0 && segment != seq![DOT]
}

/// The names in `path` from position `start` on.
pub open spec fn names_from(path: Seq<u8>, start: int) -> Seq<Seq<u8>>
    decreases path.len() - start + 1,
{
    if start < 0 || start > path.len() {
        seq![]
    } else {
        let end = segment_end(path, start);
        proof {
            lemma_segment_end(path, start);
        }
        let segment = path.subrange(start, end);
        let rest = names_from(path, end + 1);
        if is_name(segment) {
            seq![segment] + rest
        } else {
            rest
        }
    }
}

/// What two spellings of one path have in common.
pub struct Components {
    /// Whether the path starts at the root.
    pub rooted: bool,
    /// Whether the path starts with `.`, which only a relative path keeps.
    pub dotted: bool,
    /// The names in the path. Repeated and trailing separators, and `.`
    /// anywhere else, are not among them; `..` is.
    pub names: Seq<Seq<u8>>,
}

/// The components of a path.
pub open spec fn components(path: Seq<u8>) -> Components {
    Components {
        rooted: path.len() > 0 && path[0] == SEPARATOR,
        dotted: path.len() > 0 && path[0] == DOT && (path.len() == 1 || path[1] == SEPARATOR),
        names: names_from(path, 0),
    }
}

/// Whether two paths have the same components.
pub open spec fn same_path(left: Seq<u8>, right: Seq<u8>) -> bool {
    components(left) == components(right)
}

/// The last name in a path, unless there is none or it is `..`.
pub open spec fn file_name(path: Seq<u8>) -> Option<Seq<u8>> {
    let names = names_from(path, 0);
    if names.len() > 0 && names.last() != seq![DOT, DOT] {
        Some(names.last())
    } else {
        None
    }
}

/// `path` as seen from `base`: an absolute path is itself, a relative one
/// follows `base` and a separator.
pub open spec fn joined(base: Seq<u8>, path: Seq<u8>) -> Seq<u8> {
    if path.len() > 0 && path[0] == SEPARATOR {
        path
    } else if base.len() == 0 || base.last() == SEPARATOR {
        base + path
    } else {
        base.push(SEPARATOR) + path
    }
}

/// Whether two byte strings are equal.
pub fn same_bytes(left: &Vec<u8>, right: &Vec<u8>) -> (same: bool)
    ensures
        same == (left@ == right@),
{
    if left.len() != right.len() {
        return false;
    }
    let mut i: usize = 0;
    while i < left.len()
        invariant
            i <= left.len() == right.len(),
            forall|j: int| 0 <= j < i ==> left@[j] == right@[j],
        decreases left.len() - i,
    {
        if left[i] != right[i] {
            return false;
        }
        i = i + 1;
    }
    assert(left@ =~= right@);
    true
}

/// A copy of the bytes from `start` up to `end`.
pub fn bytes_between(bytes: &Vec<u8>, start: usize, end: usize) -> (copy: Vec<u8>)
    requires
        start <= end <= bytes.len(),
    ensures
        copy@ == bytes@.subrange(start as int, end as int),
{
    let mut copy: Vec<u8> = Vec::new();
    let mut i: usize = start;
    while i < end
        invariant
            start <= i <= end <= bytes.len(),
            copy@ == bytes@.subrange(start as int, i as int),
        decreases end - i,
    {
        copy.push(bytes[i]);
        i = i + 1;
    }
    copy
}

/// The byte strings of a vector in turn.
pub open spec fn byte_strings(vectors: Seq<Vec<u8>>) -> Seq<Seq<u8>> {
    vectors.map_values(|bytes: Vec<u8>| bytes@)
}

impl FilePath {
    /// The path with the given bytes.
    pub fn from_bytes(bytes: Vec<u8>) -> (path: FilePath)
        ensures
            path@ == bytes@,
    {
        FilePath { bytes }
    }

    /// The path that a text spells.
    pub fn from_text(text: &str) -> (path: FilePath)
        ensures
            path@ == vstd::utf8::encode_utf8(text@),
    {
        FilePath { bytes: text.as_bytes_vec() }
    }

    /// The names in this path.
    pub fn names(&self) -> (names: Vec<Vec<u8>>)
        ensures
            byte_strings(names@) == names_from(self@, 0),
    {
        let mut names: Vec<Vec<u8>> = Vec::new();
        let mut start: usize = 0;
        loop
            invariant
                start <= self.bytes.len(),
                byte_strings(names@) + names_from(self@, start as int) == names_from(self@, 0),
            decreases self.bytes.len() - start,
        {
            let ghost before = names@;
            let mut end: usize = start;
            while end < self.bytes.len() && self.bytes[end] != SEPARATOR
                invariant
                    start <= end <= self.bytes.len(),
                    segment_end(self@, start as int) == segment_end(self@, end as int),
                decreases self.bytes.len() - end,
            {
                end = end + 1;
            }
            let segment = bytes_between(&self.bytes, start, end);
            if segment.len() > 1 || (segment.len() == 1 && segment[0] != DOT) {
                assert(segment@ != seq![DOT]);
                names.push(segment);
                assert(byte_strings(names@) =~= byte_strings(before).push(segment@));
            } else {
                assert(segment@.len() == 1 ==> segment@ =~= seq![DOT]);
            }
            assert(byte_strings(names@) + names_from(self@, end + 1) =~= byte_strings(before)
                + names_from(self@, start as int));
            if end == self.bytes.len() {
                assert(byte_strings(names@) + names_from(self@, end + 1) =~= byte_strings(names@));
                return names;
            }
            start = end + 1;
        }
    }

    /// Whether this path and another have the same components.
    pub fn is_same(&self, other: &FilePath) -> (same: bool)
        ensures
            same == same_path(self@, other@),
    {
        let rooted = self.bytes.len() > 0 && self.bytes[0] == SEPARATOR;
        let other_rooted = other.bytes.len() > 0 && other.bytes[0] == SEPARATOR;
        if rooted != other_rooted {
            return false;
        }
        let dotted = self.bytes.len() > 0 && self.bytes[0] == DOT && (self.bytes.len() == 1
            || self.bytes[1] == SEPARATOR);
        let other_dotted = other.bytes.len() > 0 && other.bytes[0] == DOT && (other.bytes.len()
            == 1 || other.bytes[1] == SEPARATOR);
        if dotted != other_dotted {
            return false;
        }
        let names = self.names();
        let other_names = other.names();
        let ghost left = byte_strings(names@);
        let ghost right = byte_strings(other_names@);
        assert(left.len() == names.len() && right.len() == other_names.len());
        if names.len() != other_names.len() {
            return false;
        }
        let mut i: usize = 0;
        while i < names.len()
            invariant
                left == byte_strings(names@),
                right == byte_strings(other_names@),
                left == names_from(self@, 0),
                right == names_from(other@, 0),
                i <= names.len() == other_names.len(),
                forall|j: int| 0 <= j < i ==> left[j] == right[j],
            decreases names.len() - i,
        {
            if !same_bytes(&names[i], &other_names[i]) {
                assert(left[i as int] != right[i as int]);
                return false;
            }
            i = i + 1;
        }
        assert(left =~= right);
        true
    }

    /// The last name in this path, unless there is none or it is `..`.
    pub fn file_name(&self) -> (name: Option<Vec<u8>>)
        ensures
            match name {
                Some(name) => file_name(self@) == Some(name@),
                None => file_name(self@) is None,
            },
    {
        let mut names = self.names();
        let ghost all = names@;
        assert(byte_strings(all).len() == all.len());
        match names.pop() {
            Some(last) => {
                assert(byte_strings(all).last() == last@);
                if last.len() == 2 && last[0] == DOT && last[1] == DOT {
                    assert(last@ =~= seq![DOT, DOT]);
                    None
                } else {
                    Some(last)
                }
            },
            None => None,
        }
    }

    /// `path` as seen from this one.
    pub fn join(&self, path: &FilePath) -> (joint: FilePath)
        ensures
            joint@ == joined(self@, path@),
    {
        let mut bytes: Vec<u8> = Vec::new();
        if !(path.bytes.len() > 0 && path.bytes[0] == SEPARATOR) {
            bytes = bytes_between(&self.bytes, 0, self.bytes.len());
            if bytes.len() > 0 && bytes[bytes.len() - 1] != SEPARATOR {
                bytes.push(SEPARATOR);
            }
        }
        let ghost start = bytes@;
        let mut i: usize = 0;
        while i < path.bytes.len()
            invariant
                i <= path.bytes.len(),
                bytes@ == start + path@.take(i as int),
            decreases path.bytes.len() - i,
        {
            bytes.push(path.bytes[i]);
            i = i + 1;
        }
        assert(bytes@ =~= joined(self@, path@));
        FilePath { bytes }
    }

    /// The text of this path, where it is well-formed UTF-8.
    pub fn to_text(&self) -> (text: Option<String>)
        ensures
            opt_text(text) == utf8_text(self@),
    {
        decode_text(&self.bytes)
    }

    /// The text of this path, with replacement characters where it is not
    /// well-formed UTF-8.
    pub fn to_text_lossy(&self) -> (text: String)
        ensures
            text@ == shown_text(self@),
    {
        decode_text_lossy(&self.bytes)
    }
}

impl Clone for FilePath {
    fn clone(&self) -> (copy: FilePath)
        ensures
            copy@ == self@,
    {
        FilePath { bytes: bytes_between(&self.bytes, 0, self.bytes.len()) }
    }
}

impl PartialEq for FilePath {
    fn eq(&self, other: &FilePath) -> (same: bool) {
        self.is_same(other)
    }
}

impl vstd::std_specs::cmp::PartialEqSpecImpl for FilePath {
    open spec fn obeys_eq_spec() -> bool {
        true
    }

    open spec fn eq_spec(&self, other: &FilePath) -> bool {
        same_path(self@, other@)
    }
}

impl Eq for FilePath {

}

/// Two spellings of one path have the same last name.
pub proof fn same_paths_have_the_same_name(left: Seq<u8>, right: Seq<u8>)
    requires
        same_path(left, right),
    ensures
        file_name(left) == file_name(right),
{
}

proof fn lemma_last_segment(before: Seq<u8>, name: Seq<u8>, start: int)
    requires
        0 <= start <= name.len(),
        !name.contains(SEPARATOR),
    ensures
        segment_end(before + name, before.len() + start) == before.len() + name.len(),
    decreases name.len() - start,
{
    if start < name.len() {
        assert((before + name)[before.len() + start] == name[start]);
        assert(name.contains(name[start]));
        lemma_last_segment(before, name, start + 1);
    }
}

proof fn lemma_segment_before(before: Seq<u8>, name: Seq<u8>, start: int)
    requires
        0 <= start < before.len(),
        before.last() == SEPARATOR,
    ensures
        start <= segment_end(before + name, start) < before.len(),
    decreases before.len() - start,
{
    let all = before + name;
    assert(all[start] == before[start]);
    if before[start] != SEPARATOR {
        assert(start != before.len() - 1);
        lemma_segment_before(before, name, start + 1);
    }
}

proof fn lemma_last_name(before: Seq<u8>, name: Seq<u8>, start: int)
    requires
        0 <= start <= before.len(),
        before.len() == 0 || before.last() == SEPARATOR,
        !name.contains(SEPARATOR),
        is_name(name),
    ensures
        names_from(before + name, start).len() > 0,
        names_from(before + name, start).last() == name,
    decreases before.len() - start,
{
    let all = before + name;
    if start == before.len() {
        lemma_last_segment(before, name, 0);
        assert(all.subrange(start, all.len() as int) =~= name);
        assert(names_from(all, all.len() as int + 1) =~= seq![]);
        assert(names_from(all, start) =~= seq![name]);
    } else {
        lemma_segment_before(before, name, start);
        lemma_last_name(before, name, segment_end(all, start) + 1);
    }
}

/// A name that is joined to a path is the last name of the joint path.
pub proof fn joined_name_is_last(base: Seq<u8>, name: Seq<u8>)
    requires
        !name.contains(SEPARATOR),
        is_name(name),
        name != seq![DOT, DOT],
    ensures
        file_name(joined(base, name)) == Some(name),
{
    assert(name.contains(name[0]));
    let before = if base.len() == 0 || base.last() == SEPARATOR {
        base
    } else {
        base.push(SEPARATOR)
    };
    lemma_last_name(before, name, 0);
}

/// A path without a separator holds one name, unless it is empty or `.`.
pub proof fn names_of_one_segment(segment: Seq<u8>)
    requires
        !segment.contains(47),
    ensures
        names_from(segment, 0) == (if segment.len() == 0 || segment == seq![46u8] {
            seq![]
        } else {
            seq![segment]
        }),
{
    lemma_last_segment(Seq::empty(), segment, 0);
    assert(Seq::<u8>::empty() + segment =~= segment);
    assert(segment.subrange(0, segment.len() as int) =~= segment);
    assert(names_from(segment, segment.len() as int + 1) =~= seq![]);
}

proof fn lemma_segment_end_before(before: Seq<u8>, after: Seq<u8>, start: int)
    requires
        0 <= start <= before.len(),
    ensures
        segment_end(before.push(SEPARATOR) + after, start) == segment_end(before, start),
    decreases before.len() - start,
{
    let all = before.push(SEPARATOR) + after;
    if start < before.len() {
        assert(all[start] == before[start]);
        lemma_segment_end_before(before, after, start + 1);
    } else {
        assert(all[start] == SEPARATOR);
    }
}

proof fn lemma_segment_end_behind(before: Seq<u8>, after: Seq<u8>, start: int)
    requires
        0 <= start <= after.len(),
    ensures
        segment_end(before + after, before.len() + start) == before.len() + segment_end(
            after,
            start,
        ),
    decreases after.len() - start,
{
    if start < after.len() {
        assert((before + after)[before.len() + start] == after[start]);
        if after[start] != SEPARATOR {
            lemma_segment_end_behind(before, after, start + 1);
        }
    }
}

proof fn lemma_names_behind(before: Seq<u8>, after: Seq<u8>, start: int)
    requires
        0 <= start <= after.len() + 1,
    ensures
        names_from(before + after, before.len() + start) == names_from(after, start),
    decreases after.len() + 1 - start,
{
    if start <= after.len() {
        let end = segment_end(after, start);
        lemma_segment_end(after, start);
        lemma_segment_end_behind(before, after, start);
        assert((before + after).subrange(before.len() + start, before.len() + end)
            =~= after.subrange(start, end));
        lemma_names_behind(before, after, end + 1);
    }
}

proof fn lemma_names_around_separator(before: Seq<u8>, after: Seq<u8>, start: int)
    requires
        0 <= start <= before.len() + 1,
    ensures
        names_from(before.push(SEPARATOR) + after, start) == names_from(before, start)
            + names_from(after, 0),
    decreases before.len() + 1 - start,
{
    let all = before.push(SEPARATOR) + after;
    if start <= before.len() {
        let end = segment_end(before, start);
        lemma_segment_end(before, start);
        lemma_segment_end_before(before, after, start);
        assert(all.subrange(start, end) =~= before.subrange(start, end));
        lemma_names_around_separator(before, after, end + 1);
    } else {
        lemma_names_behind(before.push(SEPARATOR), after, 0);
    }
    assert(names_from(all, start) =~= names_from(before, start) + names_from(after, 0));
}

/// The names on both sides of a separator are the names in a path, wherever the
/// separator is. So separators may be repeated, or stand at either end.
pub proof fn separator_keeps_names_apart(before: Seq<u8>, after: Seq<u8>)
    ensures
        names_from(before.push(47) + after, 0) == names_from(before, 0) + names_from(after, 0),
{
    lemma_names_around_separator(before, after, 0);
}

/// Two paths are the same where both or neither start at the root, both or neither
/// start with `.`, and they hold the same names.
pub proof fn same_paths_have_the_same_names(left: Seq<u8>, right: Seq<u8>)
    ensures
        same_path(left, right) <==> {
            &&& seq![47u8].is_prefix_of(left) == seq![47u8].is_prefix_of(right)
            &&& (left == seq![46u8] || seq![46u8, 47u8].is_prefix_of(left)) == (right == seq![46u8]
                || seq![46u8, 47u8].is_prefix_of(right))
            &&& names_from(left, 0) == names_from(right, 0)
        },
{
    lemma_path_start(left);
    lemma_path_start(right);
}

proof fn lemma_path_start(path: Seq<u8>)
    ensures
        components(path).rooted == seq![47u8].is_prefix_of(path),
        components(path).dotted == (path == seq![46u8] || seq![46u8, 47u8].is_prefix_of(path)),
{
    if seq![47u8].is_prefix_of(path) {
        assert(path[0] == path.subrange(0, 1)[0] == seq![47u8][0]);
    }
    if seq![46u8, 47u8].is_prefix_of(path) {
        assert(path[0] == path.subrange(0, 2)[0] == seq![46u8, 47u8][0]);
        assert(path[1] == path.subrange(0, 2)[1] == seq![46u8, 47u8][1]);
    }
    if path.len() > 0 && path[0] == 47 {
        assert(seq![47u8] =~= path.take(1));
    }
    if path.len() == 1 && path[0] == 46 {
        assert(path =~= seq![46u8]);
    }
    if path.len() > 1 && path[0] == 46 && path[1] == 47 {
        assert(seq![46u8, 47u8] =~= path.take(2));
    }
}

/// The file name of a path is the last of its names, unless that is `..`.
pub proof fn file_name_is_the_last_name(path: Seq<u8>, name: Seq<u8>)
    ensures
        file_name(path) == Some(name) <==> names_from(path, 0).len() > 0 && names_from(path, 0)[
        names_from(path, 0).len() - 1] == name && name != seq![46u8, 46u8],
{
}

/// Joining an absolute path gives that path. Joining a relative one keeps the
/// bytes of both, with at most a separator between them; the joint path holds the
/// names of both and starts where the first does.
pub proof fn joining_keeps_both_paths(base: Seq<u8>, path: Seq<u8>)
    ensures
        seq![47u8].is_prefix_of(path) ==> joined(base, path) == path,
        !seq![47u8].is_prefix_of(path) ==> {
            let joint = joined(base, path);
            &&& joint == base + path || joint == base + seq![47u8] + path
            &&& names_from(joint, 0) == names_from(base, 0) + names_from(path, 0)
            &&& base.len() > 0 ==> seq![47u8].is_prefix_of(joint) == seq![47u8].is_prefix_of(base)
            &&& base.len() == 0 ==> joint == path
        },
{
    lemma_path_start(path);
    lemma_path_start(base);
    if !(path.len() > 0 && path[0] == 47) {
        let joint = joined(base, path);
        lemma_path_start(joint);
        if base.len() == 0 {
            assert(joint =~= path);
            assert(base.subrange(0, 0) =~= Seq::<u8>::empty());
            assert(names_from(base, 1) =~= seq![]);
            assert(names_from(base, 0) =~= seq![]);
            assert(seq![] + names_from(path, 0) =~= names_from(path, 0));
        } else if base.last() == 47 {
            let start = base.drop_last();
            assert(joint =~= start.push(47) + path);
            assert(base =~= start.push(47) + Seq::<u8>::empty());
            separator_keeps_names_apart(start, path);
            separator_keeps_names_apart(start, Seq::empty());
            names_of_one_segment(Seq::empty());
            assert(names_from(base, 0) =~= names_from(start, 0));
        } else {
            assert(joint =~= base + seq![47u8] + path);
            assert(joint =~= base.push(47) + path);
            separator_keeps_names_apart(base, path);
        }
    }
}

} // verus!
